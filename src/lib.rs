//! Management of packet-filter address tables through the filter's control
//! device: fixed-layout request structures, their translation to and from
//! ergonomic values, and the decisions of the request/reply exchange.
use vstd::prelude::*;

pub mod bridge;

pub use bridge::bindings::{pfioc_table, pfr_addr, pfr_table};
pub use bridge::{
    IpAddr, PfIocCommand, PfIocTable, PfResult, PfrAddr, PfrTable, Translate, ExchangeState,
    TableId,
};

verus! {

/// What can go wrong while driving a table request.
#[derive(Debug, PartialEq)]
pub enum PfError {
    /// A value does not fit its fixed-layout form, or a fixed-layout value
    /// holds something that has no ergonomic form.
    TranslationError,
    /// An entry names an address family that is neither IPv4 nor IPv6.
    UnknownAddressFamily,
    /// The control call failed; carries the platform's error code.
    IoctlError(i32),
    /// Any other failure, in words.
    Other(String),
    /// The command has no operation code.
    Unimplemented,
    /// A table name does not leave room for the terminating zero.
    TableNameTooLong,
}

/// A table of addresses, known by its name.
#[derive(Debug, Clone)]
pub struct PfTable {
    pub name: String,
}

impl PfTable {
    /// The table called `name`.
    pub fn new(name: &str) -> (t: PfTable)
        ensures
            t.name@ == name@,
    {
        PfTable { name: name.to_owned() }
    }

    /// An exchange about this table at the root anchor that hands `addrs`
    /// to the kernel, in their order.
    pub fn exchange(&self, addrs: Vec<PfrAddr>) -> (io: PfIocTable)
        ensures
            io@ == (ExchangeState {
                table: TableId { anchor: Seq::empty(), name: self.name@ },
                buffer: addrs@.map_values(|a: PfrAddr| a@),
                size: 0,
                added: 0,
                deleted: 0,
            }),
    {
        let mut io = PfIocTable::with_table(self.name.as_str());
        io.buffer = addrs;
        io
    }
}

} // verus!
