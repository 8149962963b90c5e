//! Fixed-layout request structures of the packet filter's table interface.
//!
//! Each structure keeps its fields as plain values; the address union of an
//! entry is kept as its raw bytes, and the request envelope owns the entry
//! buffer whose base address accompanies it to the kernel.
use vstd::prelude::*;
use vstd::utf8::encode_utf8;
use crate::PfError;
use crate::bridge::text::{write_text, zero_padded};

verus! {

/// Capacity of an anchor path field, terminating zero included.
pub const PATH_MAX: usize = 1024;

/// Capacity of an interface name field, terminating zero included.
pub const IFNAMSIZ: usize = 16;

/// Capacity of a table name field, terminating zero included.
pub const PF_TABLE_NAME_SIZE: usize = 32;

/// `_IOWR('D', 66, struct pfioc_table)`: remove every address of a table.
pub const DIOCRCLRADDRS: u64 = 3293594690;

/// `_IOWR('D', 67, struct pfioc_table)`: add addresses to a table.
pub const DIOCRADDADDRS: u64 = 3293594691;

/// `_IOWR('D', 68, struct pfioc_table)`: delete addresses from a table.
pub const DIOCRDELADDRS: u64 = 3293594692;

/// `_IOWR('D', 69, struct pfioc_table)`: replace the addresses of a table.
pub const DIOCRSETADDRS: u64 = 3293594693;

/// `_IOWR('D', 70, struct pfioc_table)`: list the addresses of a table.
pub const DIOCRGETADDRS: u64 = 3293594694;

/// Size in bytes of `struct pfr_addr`.
pub const PFR_ADDR_SIZE: usize = 52;

/// Size in bytes of `struct pfr_table`.
pub const PFR_TABLE_SIZE: usize = 1064;

/// Size in bytes of `struct pfioc_table`.
pub const PFIOC_TABLE_SIZE: usize = 1104;

/// Address family of IPv4 entries.
pub const AF_INET: u8 = 2;

/// Address family of IPv6 entries.
pub const AF_INET6: u8 = 24;

/// One table entry as the kernel lays it out.
#[allow(non_camel_case_types)]
#[derive(Clone, Copy, Debug)]
pub struct pfr_addr {
    /// Raw bytes of the address union: an IPv4 address in its first four
    /// bytes, or an IPv6 address in all sixteen, in network byte order.
    pub pfra_u: [u8; 16],
    pub pfra_ifname: [u8; 16],
    pub pfra_states: u32,
    pub pfra_weight: u16,
    pub pfra_af: u8,
    pub pfra_net: u8,
    pub pfra_not: u8,
    pub pfra_fback: u8,
    pub pfra_type: u8,
    pub pad: [u8; 7],
}

/// The value of an entry: each field, byte arrays as sequences.
#[verifier::ext_equal]
pub struct AddrImage {
    pub u: Seq<u8>,
    pub ifname: Seq<u8>,
    pub states: u32,
    pub weight: u16,
    pub af: u8,
    pub net: u8,
    pub not: u8,
    pub fback: u8,
    pub kind: u8,
    pub pad: Seq<u8>,
}

impl View for pfr_addr {
    type V = AddrImage;

    open spec fn view(&self) -> AddrImage {
        AddrImage {
            u: self.pfra_u@,
            ifname: self.pfra_ifname@,
            states: self.pfra_states,
            weight: self.pfra_weight,
            af: self.pfra_af,
            net: self.pfra_net,
            not: self.pfra_not,
            fback: self.pfra_fback,
            kind: self.pfra_type,
            pad: self.pad@,
        }
    }
}

/// `n` zero bytes.
pub open spec fn zeros(n: nat) -> Seq<u8> {
    Seq::new(n, |i: int| 0u8)
}

/// The entry whose every byte is zero.
pub open spec fn zero_addr() -> AddrImage {
    AddrImage {
        u: zeros(16),
        ifname: zeros(16),
        states: 0,
        weight: 0,
        af: 0,
        net: 0,
        not: 0,
        fback: 0,
        kind: 0,
        pad: zeros(7),
    }
}

impl pfr_addr {
    /// An entry with every byte zero, as the kernel expects unused bytes.
    pub fn init() -> (r: pfr_addr)
        ensures
            r@ == zero_addr(),
    {
        let r = pfr_addr {
            pfra_u: [0u8; 16],
            pfra_ifname: [0u8; 16],
            pfra_states: 0,
            pfra_weight: 0,
            pfra_af: 0,
            pfra_net: 0,
            pfra_not: 0,
            pfra_fback: 0,
            pfra_type: 0,
            pad: [0u8; 7],
        };
        assert(r@.u =~= zeros(16));
        assert(r@.ifname =~= zeros(16));
        assert(r@.pad =~= zeros(7));
        r
    }
}

/// A table descriptor as the kernel lays it out.
#[allow(non_camel_case_types)]
#[derive(Debug)]
pub struct pfr_table {
    pub pfrt_anchor: [u8; 1024],
    pub pfrt_name: [u8; 32],
    pub pfrt_flags: u32,
    pub pfrt_fback: u8,
}

/// The value of a table descriptor.
#[verifier::ext_equal]
pub struct TableImage {
    pub anchor: Seq<u8>,
    pub name: Seq<u8>,
    pub flags: u32,
    pub fback: u8,
}

impl View for pfr_table {
    type V = TableImage;

    open spec fn view(&self) -> TableImage {
        TableImage {
            anchor: self.pfrt_anchor@,
            name: self.pfrt_name@,
            flags: self.pfrt_flags,
            fback: self.pfrt_fback,
        }
    }
}

/// The table descriptor whose every byte is zero.
pub open spec fn zero_table() -> TableImage {
    TableImage { anchor: zeros(1024), name: zeros(32), flags: 0, fback: 0 }
}

impl pfr_table {
    /// A descriptor with every byte zero.
    pub fn init() -> (r: pfr_table)
        ensures
            r@ == zero_table(),
    {
        let r = pfr_table { pfrt_anchor: [0u8; 1024], pfrt_name: [0u8; 32], pfrt_flags: 0, pfrt_fback: 0 };
        assert(r@.anchor =~= zeros(1024));
        assert(r@.name =~= zeros(32));
        r
    }

    /// A descriptor of the table `name` at the root anchor; fails when the
    /// name does not leave room for the terminating zero.
    pub fn new(name: &str) -> (r: Result<pfr_table, PfError>)
        ensures
            r is Ok <==> encode_utf8(name@).len() < PF_TABLE_NAME_SIZE,
            r is Err ==> r == Err::<pfr_table, PfError>(PfError::TableNameTooLong),
            r matches Ok(t) ==> t@ == (TableImage {
                name: zero_padded(encode_utf8(name@), 32),
                ..zero_table()
            }),
    {
        let mut table = Self::init();
        if name.as_bytes().len() >= PF_TABLE_NAME_SIZE {
            return Err(PfError::TableNameTooLong);
        }
        write_text(name, &mut table.pfrt_name);
        Ok(table)
    }
}

/// The request envelope: a table descriptor, the entry buffer it hands to
/// the kernel, and the counts that go with it.
///
/// The envelope owns its buffer, so the storage whose base address the
/// kernel receives can neither move nor go away while a call is in flight;
/// what the kernel writes there is what is read back.
#[allow(non_camel_case_types)]
#[derive(Debug)]
pub struct pfioc_table {
    pub pfrio_table: pfr_table,
    pub pfrio_buffer: Vec<pfr_addr>,
    pub pfrio_esize: i32,
    pub pfrio_size: i32,
    pub pfrio_size2: i32,
    pub pfrio_nadd: i32,
    pub pfrio_ndel: i32,
    pub pfrio_nchange: i32,
    pub pfrio_flags: i32,
    pub pfrio_ticket: u32,
}

/// The value of an envelope.
#[verifier::ext_equal]
pub struct EnvelopeImage {
    pub table: TableImage,
    pub buffer: Seq<AddrImage>,
    pub esize: i32,
    pub size: i32,
    pub size2: i32,
    pub nadd: i32,
    pub ndel: i32,
    pub nchange: i32,
    pub flags: i32,
    pub ticket: u32,
}

impl View for pfioc_table {
    type V = EnvelopeImage;

    open spec fn view(&self) -> EnvelopeImage {
        EnvelopeImage {
            table: self.pfrio_table@,
            buffer: self.pfrio_buffer@.map_values(|a: pfr_addr| a@),
            esize: self.pfrio_esize,
            size: self.pfrio_size,
            size2: self.pfrio_size2,
            nadd: self.pfrio_nadd,
            ndel: self.pfrio_ndel,
            nchange: self.pfrio_nchange,
            flags: self.pfrio_flags,
            ticket: self.pfrio_ticket,
        }
    }
}

/// The envelope whose every field is zero, with an empty buffer.
pub open spec fn zero_envelope() -> EnvelopeImage {
    EnvelopeImage {
        table: zero_table(),
        buffer: Seq::empty(),
        esize: 0,
        size: 0,
        size2: 0,
        nadd: 0,
        ndel: 0,
        nchange: 0,
        flags: 0,
        ticket: 0,
    }
}

impl pfioc_table {
    /// An envelope with every field zero and no entries.
    pub fn init() -> (r: pfioc_table)
        ensures
            r@ == zero_envelope(),
    {
        let r = pfioc_table {
            pfrio_table: pfr_table::init(),
            pfrio_buffer: Vec::new(),
            pfrio_esize: 0,
            pfrio_size: 0,
            pfrio_size2: 0,
            pfrio_nadd: 0,
            pfrio_ndel: 0,
            pfrio_nchange: 0,
            pfrio_flags: 0,
            pfrio_ticket: 0,
        };
        assert(r@.buffer =~= Seq::<AddrImage>::empty());
        r
    }
}

} // verus!
