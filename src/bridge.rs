//! Ergonomic counterparts of the fixed-layout request structures, and the
//! translation between the two.
use vstd::prelude::*;
use vstd::utf8::encode_utf8;
use crate::PfError;

pub mod bindings;
pub mod order;
pub mod text;
pub mod laws;

use bindings::{
    pfioc_table, pfr_addr, pfr_table, zero_addr, zero_envelope, zero_table, AddrImage,
    EnvelopeImage, TableImage, AF_INET, AF_INET6, DIOCRADDADDRS, DIOCRCLRADDRS, DIOCRDELADDRS,
    DIOCRGETADDRS, IFNAMSIZ, PATH_MAX, PFR_ADDR_SIZE, PF_TABLE_NAME_SIZE, zeros,
};
use order::{u128_be, u128_of_be, u32_be, u32_of_be, u32_to_be, u64_from_be, u64_to_be};
use text::{field_text, text_of_field, write_text, zero_padded};

verus! {

pub type PfResult<T> = Result<T, PfError>;

/// The value of a result, its error kept as it is.
pub open spec fn result_view<T: View>(r: PfResult<T>) -> PfResult<T::V> {
    match r {
        Ok(v) => Ok(v@),
        Err(e) => Err(e),
    }
}

/// A value with a fixed-layout counterpart `T`.
pub trait Translate<T> {
    /// Builds the fixed-layout counterpart of this value.
    fn translate(&self) -> PfResult<T>;

    /// Takes the contents of a fixed-layout value; on an error this value
    /// stays as it was.
    fn update(&mut self, c: T) -> PfResult<()>;
}

/// An IP address, as the number that its bytes spell in network order.
#[derive(Clone, Copy, Debug, PartialEq, Eq, Structural)]
pub enum IpAddr {
    V4(u32),
    V6(u128),
}

/// The address-family byte of `ip`.
pub open spec fn ip_family(ip: IpAddr) -> u8 {
    match ip {
        IpAddr::V4(_) => AF_INET,
        IpAddr::V6(_) => AF_INET6,
    }
}

/// The bytes of the address union holding `ip`.
pub open spec fn ip_payload(ip: IpAddr) -> Seq<u8> {
    match ip {
        IpAddr::V4(v) => u32_be(v) + zeros(12),
        IpAddr::V6(v) => u128_be(v),
    }
}

/// The address that the union bytes `u` hold under the family byte `af`;
/// the bytes that the family does not use are not read.
pub open spec fn ip_of_payload(af: u8, u: Seq<u8>) -> Option<IpAddr> {
    if af == AF_INET {
        Some(IpAddr::V4(u32_of_be(u[0], u[1], u[2], u[3])))
    } else if af == AF_INET6 {
        Some(IpAddr::V6(u128_of_be(u)))
    } else {
        None
    }
}

impl pfr_addr {
    /// A zeroed entry holding `ip`.
    pub fn from_ip(ip: IpAddr) -> (r: pfr_addr)
        ensures
            r@ == (AddrImage { u: ip_payload(ip), af: ip_family(ip), ..zero_addr() }),
    {
        let mut c = pfr_addr::init();
        match ip {
            IpAddr::V4(v) => {
                let b = u32_to_be(v);
                c.pfra_af = AF_INET;
                c.pfra_u = [b[0], b[1], b[2], b[3], 0, 0, 0, 0, 0, 0, 0, 0, 0, 0, 0, 0];
            },
            IpAddr::V6(v) => {
                let hi = u64_to_be((v >> 64u128) as u64);
                let lo = u64_to_be((v & 0xffff_ffff_ffff_ffff) as u64);
                c.pfra_af = AF_INET6;
                c.pfra_u = [
                    hi[0], hi[1], hi[2], hi[3], hi[4], hi[5], hi[6], hi[7],
                    lo[0], lo[1], lo[2], lo[3], lo[4], lo[5], lo[6], lo[7],
                ];
            },
        }
        assert(c@.u =~= ip_payload(ip));
        assert(c@ =~= (AddrImage { u: ip_payload(ip), af: ip_family(ip), ..zero_addr() }));
        c
    }

    /// The address this entry holds, read as its family byte says.
    pub fn ip(&self) -> (r: PfResult<IpAddr>)
        ensures
            r == (match ip_of_payload(self.pfra_af, self.pfra_u@) {
                Some(ip) => Ok(ip),
                None => Err(PfError::UnknownAddressFamily),
            }),
    {
        let u = &self.pfra_u;
        if self.pfra_af == AF_INET {
            Ok(IpAddr::V4((u[0] as u32) << 24u32 | (u[1] as u32) << 16u32 | (u[2] as u32) << 8u32 | (u[3] as u32)))
        } else if self.pfra_af == AF_INET6 {
            let hi = u64_from_be(u, 0);
            let lo = u64_from_be(u, 8);
            assert(u@.take(8) =~= u@.subrange(0, 8));
            Ok(IpAddr::V6((hi as u128) << 64u128 | (lo as u128)))
        } else {
            Err(PfError::UnknownAddressFamily)
        }
    }
}

/// A table entry: an address, the interface it came from (empty when
/// unset) and the length of its prefix.
#[derive(Debug, Clone, PartialEq)]
pub struct PfrAddr {
    pub addr: IpAddr,
    pub ifname: String,
    pub subnet: u8,
}

/// The value of a table entry.
pub struct AddrEntry {
    pub addr: IpAddr,
    pub ifname: Seq<char>,
    pub subnet: u8,
}

impl View for PfrAddr {
    type V = AddrEntry;

    open spec fn view(&self) -> AddrEntry {
        AddrEntry { addr: self.addr, ifname: self.ifname@, subnet: self.subnet }
    }
}

/// The fixed-layout form of an entry: fails when the interface name leaves
/// no room for its terminating zero.
pub open spec fn encode_addr(a: AddrEntry) -> PfResult<AddrImage> {
    if encode_utf8(a.ifname).len() >= IFNAMSIZ {
        Err(PfError::TranslationError)
    } else {
        Ok(
            AddrImage {
                u: ip_payload(a.addr),
                ifname: zero_padded(encode_utf8(a.ifname), 16),
                af: ip_family(a.addr),
                net: a.subnet,
                ..zero_addr()
            },
        )
    }
}

/// The entry that a fixed-layout entry holds: fails on an unknown address
/// family, then on an interface name that is not UTF-8.
pub open spec fn decode_addr(c: AddrImage) -> PfResult<AddrEntry> {
    match ip_of_payload(c.af, c.u) {
        None => Err(PfError::UnknownAddressFamily),
        Some(ip) => match field_text(c.ifname) {
            None => Err(PfError::TranslationError),
            Some(t) => Ok(AddrEntry { addr: ip, ifname: t, subnet: c.net }),
        },
    }
}

impl PfrAddr {
    /// The host `127.0.0.1/32`.
    pub fn new() -> (r: PfrAddr)
        ensures
            r@ == (AddrEntry { addr: IpAddr::V4(0x7f00_0001), ifname: Seq::empty(), subnet: 32 }),
    {
        PfrAddr { addr: IpAddr::V4(0x7f00_0001), ifname: String::new(), subnet: 32 }
    }

    /// The entry for `addr` with a prefix of `subnet` bits and no interface.
    pub fn from_addr(addr: IpAddr, subnet: u8) -> (r: PfrAddr)
        ensures
            r@ == (AddrEntry { addr, ifname: Seq::empty(), subnet }),
    {
        PfrAddr { addr, subnet, ifname: String::new() }
    }
}

impl Translate<pfr_addr> for PfrAddr {
    fn translate(&self) -> (r: PfResult<pfr_addr>)
        ensures
            result_view(r) == encode_addr(self@),
    {
        let name = self.ifname.as_str();
        if name.as_bytes().len() >= IFNAMSIZ {
            return Err(PfError::TranslationError);
        }
        let mut c = pfr_addr::from_ip(self.addr);
        c.pfra_net = self.subnet;
        write_text(name, &mut c.pfra_ifname);
        assert(c@ =~= encode_addr(self@)->Ok_0);
        Ok(c)
    }

    fn update(&mut self, c: pfr_addr) -> (r: PfResult<()>)
        ensures
            match decode_addr(c@) {
                Ok(a) => r is Ok && final(self)@ == a,
                Err(e) => r == Err::<(), PfError>(e) && final(self)@ == old(self)@,
            },
    {
        match decode_entry(&c) {
            Ok(a) => {
                *self = a;
                Ok(())
            },
            Err(e) => Err(e),
        }
    }
}

/// The entry that `c` holds.
fn decode_entry(c: &pfr_addr) -> (r: PfResult<PfrAddr>)
    ensures
        result_view(r) == decode_addr(c@),
{
    let addr = match c.ip() {
        Ok(a) => a,
        Err(e) => return Err(e),
    };
    let ifname = match text_of_field(&c.pfra_ifname) {
        Some(s) => s,
        None => return Err(PfError::TranslationError),
    };
    Ok(PfrAddr { addr, ifname, subnet: c.pfra_net })
}

/// A table: the anchor path it hangs under (empty for the root) and its name.
#[derive(Debug, PartialEq)]
pub struct PfrTable {
    pub anchor: String,
    pub name: String,
}

/// The value of a table identity.
pub struct TableId {
    pub anchor: Seq<char>,
    pub name: Seq<char>,
}

impl View for PfrTable {
    type V = TableId;

    open spec fn view(&self) -> TableId {
        TableId { anchor: self.anchor@, name: self.name@ }
    }
}

/// The fixed-layout form of a table: fails when the anchor or the name
/// leaves no room for its terminating zero.
pub open spec fn encode_table(t: TableId) -> PfResult<TableImage> {
    if encode_utf8(t.anchor).len() >= PATH_MAX || encode_utf8(t.name).len() >= PF_TABLE_NAME_SIZE {
        Err(PfError::TranslationError)
    } else {
        Ok(
            TableImage {
                anchor: zero_padded(encode_utf8(t.anchor), 1024),
                name: zero_padded(encode_utf8(t.name), 32),
                ..zero_table()
            },
        )
    }
}

/// The table that a fixed-layout descriptor names: fails when the anchor or
/// the name is not UTF-8.
pub open spec fn decode_table(c: TableImage) -> PfResult<TableId> {
    match (field_text(c.anchor), field_text(c.name)) {
        (Some(anchor), Some(name)) => Ok(TableId { anchor, name }),
        _ => Err(PfError::TranslationError),
    }
}

impl PfrTable {
    /// The table with an empty anchor and an empty name.
    pub fn new() -> (r: PfrTable)
        ensures
            r@ == (TableId { anchor: Seq::empty(), name: Seq::empty() }),
    {
        PfrTable { anchor: String::new(), name: String::new() }
    }
}

impl Translate<pfr_table> for PfrTable {
    fn translate(&self) -> (r: PfResult<pfr_table>)
        ensures
            result_view(r) == encode_table(self@),
    {
        let anchor = self.anchor.as_str();
        let name = self.name.as_str();
        if anchor.as_bytes().len() >= PATH_MAX || name.as_bytes().len() >= PF_TABLE_NAME_SIZE {
            return Err(PfError::TranslationError);
        }
        let mut c = pfr_table::init();
        write_text(anchor, &mut c.pfrt_anchor);
        write_text(name, &mut c.pfrt_name);
        assert(c@ =~= encode_table(self@)->Ok_0);
        Ok(c)
    }

    fn update(&mut self, c: pfr_table) -> (r: PfResult<()>)
        ensures
            match decode_table(c@) {
                Ok(t) => r is Ok && final(self)@ == t,
                Err(e) => r == Err::<(), PfError>(e) && final(self)@ == old(self)@,
            },
    {
        let anchor = match text_of_field(&c.pfrt_anchor) {
            Some(s) => s,
            None => return Err(PfError::TranslationError),
        };
        let name = match text_of_field(&c.pfrt_name) {
            Some(s) => s,
            None => return Err(PfError::TranslationError),
        };
        self.anchor = anchor;
        self.name = name;
        Ok(())
    }
}

/// The state of one exchange with the kernel: the table it is about, the
/// entries it hands over or receives, and the counts of the latest reply.
#[derive(Debug)]
pub struct PfIocTable {
    pub table: PfrTable,
    pub buffer: Vec<PfrAddr>,
    pub size: usize,
    pub added: u32,
    pub deleted: u32,
}

/// The value of an exchange's state.
#[verifier::ext_equal]
pub struct ExchangeState {
    pub table: TableId,
    pub buffer: Seq<AddrEntry>,
    pub size: usize,
    pub added: u32,
    pub deleted: u32,
}

impl View for PfIocTable {
    type V = ExchangeState;

    open spec fn view(&self) -> ExchangeState {
        ExchangeState {
            table: self.table@,
            buffer: self.buffer@.map_values(|a: PfrAddr| a@),
            size: self.size,
            added: self.added,
            deleted: self.deleted,
        }
    }
}

/// The fixed-layout forms of a sequence of entries, in the same order.
pub open spec fn encode_addrs(s: Seq<AddrEntry>) -> PfResult<Seq<AddrImage>> {
    if forall|i: int| 0 <= i < s.len() ==> (#[trigger] encode_addr(s[i])) is Ok {
        Ok(s.map_values(|a: AddrEntry| encode_addr(a)->Ok_0))
    } else {
        Err(PfError::TranslationError)
    }
}

/// The entries that a sequence of fixed-layout entries holds, in the same
/// order; the error is that of the first entry that fails.
pub open spec fn decode_addrs(s: Seq<AddrImage>) -> PfResult<Seq<AddrEntry>>
    decreases s.len(),
{
    if s.len() == 0 {
        Ok(Seq::empty())
    } else {
        match decode_addrs(s.drop_last()) {
            Err(e) => Err(e),
            Ok(p) => match decode_addr(s.last()) {
                Err(e) => Err(e),
                Ok(a) => Ok(p.push(a)),
            },
        }
    }
}

/// The envelope for an exchange: its table, its entries in order and their
/// count; fails when the table, an entry or the count has no fixed-layout form.
pub open spec fn encode_envelope(s: ExchangeState) -> PfResult<EnvelopeImage> {
    match encode_addrs(s.buffer) {
        Err(e) => Err(e),
        Ok(b) => if s.buffer.len() > i32::MAX {
            Err(PfError::TranslationError)
        } else {
            match encode_table(s.table) {
                Err(e) => Err(e),
                Ok(t) => Ok(
                    EnvelopeImage { table: t, buffer: b, size: s.buffer.len() as i32, ..zero_envelope() },
                ),
            }
        },
    }
}

/// The exchange state that a reply describes: its table, its entries in
/// order and its counts; fails on the table, then on the first entry that
/// fails, then on a negative count.
pub open spec fn decode_envelope(c: EnvelopeImage) -> PfResult<ExchangeState> {
    match decode_table(c.table) {
        Err(e) => Err(e),
        Ok(t) => match decode_addrs(c.buffer) {
            Err(e) => Err(e),
            Ok(b) => if c.size < 0 || c.nadd < 0 || c.ndel < 0 {
                Err(PfError::TranslationError)
            } else {
                Ok(
                    ExchangeState {
                        table: t,
                        buffer: b,
                        size: c.size as usize,
                        added: c.nadd as u32,
                        deleted: c.ndel as u32,
                    },
                )
            },
        },
    }
}

proof fn lemma_decode_addrs_error_stays(s: Seq<AddrImage>, k: int, m: int)
    requires
        0 <= k <= m <= s.len(),
        decode_addrs(s.take(k)) is Err,
    ensures
        decode_addrs(s.take(m)) == decode_addrs(s.take(k)),
    decreases m - k,
{
    if m > k {
        lemma_decode_addrs_error_stays(s, k, m - 1);
        assert(s.take(m).drop_last() =~= s.take(m - 1));
    }
}

impl PfIocTable {
    /// An exchange about the unnamed root table, with no entries.
    pub fn new() -> (r: PfIocTable)
        ensures
            r@ == (ExchangeState {
                table: TableId { anchor: Seq::empty(), name: Seq::empty() },
                buffer: Seq::empty(),
                size: 0,
                added: 0,
                deleted: 0,
            }),
    {
        let r = PfIocTable { table: PfrTable::new(), buffer: Vec::new(), size: 0, added: 0, deleted: 0 };
        assert(r@.buffer =~= Seq::<AddrEntry>::empty());
        r
    }

    /// An exchange about the table `name` at the root anchor, with no entries.
    pub fn with_table(name: &str) -> (r: PfIocTable)
        ensures
            r@ == (ExchangeState {
                table: TableId { anchor: Seq::empty(), name: name@ },
                buffer: Seq::empty(),
                size: 0,
                added: 0,
                deleted: 0,
            }),
    {
        let mut io = PfIocTable::new();
        io.table = PfrTable { anchor: String::new(), name: name.to_owned() };
        io
    }
}

/// The placeholder that fills a buffer before the kernel writes to it.
pub open spec fn placeholder() -> AddrEntry {
    AddrEntry { addr: IpAddr::V4(0x7f00_0001), ifname: Seq::empty(), subnet: 32 }
}

impl PfIocTable {
    /// The envelope and the operation code for issuing `cmd` on this
    /// exchange: the envelope gives the entry size only to commands that
    /// read or write the buffer.
    pub fn prepare(&self, cmd: PfIocCommand) -> (r: PfResult<(pfioc_table, u64)>)
        ensures
            match encode_envelope(self@) {
                Err(e) => r == Err::<(pfioc_table, u64), PfError>(e),
                Ok(env) => r matches Ok((io, code)) && code == command_code(cmd) && io@ == (
                EnvelopeImage {
                    esize: if uses_buffer(cmd) {
                        PFR_ADDR_SIZE as i32
                    } else {
                        0
                    },
                    ..env
                }),
            },
    {
        let mut io = match self.translate() {
            Ok(io) => io,
            Err(e) => return Err(e),
        };
        if cmd.uses_buffer() {
            io.pfrio_esize = PFR_ADDR_SIZE as i32;
        }
        let code = match cmd.code() {
            Ok(code) => code,
            Err(e) => return Err(e),
        };
        Ok((io, code))
    }

    /// Takes the reply to a call made with `io`, which returned `status`
    /// with `errno` as the platform's last error code. A failed call leaves
    /// this exchange as it was and reports the code; otherwise the reply is
    /// read back, entries in the order the kernel left them.
    pub fn finish(&mut self, io: pfioc_table, status: i32, errno: i32) -> (r: PfResult<()>)
        ensures
            status == -1 ==> r == Err::<(), PfError>(PfError::IoctlError(errno)) && final(self)@
                == old(self)@,
            status != -1 ==> match decode_envelope(io@) {
                Ok(s) => r is Ok && final(self)@ == s,
                Err(e) => r == Err::<(), PfError>(e) && final(self)@ == old(self)@,
            },
    {
        if status == -1 {
            return Err(PfError::IoctlError(errno));
        }
        self.update(io)
    }

    /// Decides what follows a GetAddrs reply on this exchange; `filling`
    /// says whether the call was made with a buffer sized from an earlier
    /// reply, rather than to learn the count. Returns whether the listing
    /// is complete: then the buffer keeps the first `size` entries, the ones
    /// the kernel wrote. Otherwise the buffer becomes `size` placeholders,
    /// room for every entry the kernel reported, and GetAddrs is due again.
    pub fn next_get_round(&mut self, filling: bool) -> (done: bool)
        ensures
            done == (filling && old(self)@.size <= old(self)@.buffer.len()),
            done ==> final(self)@ == (ExchangeState {
                buffer: old(self)@.buffer.take(old(self)@.size as int),
                ..old(self)@
            }),
            !done ==> final(self)@ == (ExchangeState {
                buffer: Seq::new(old(self)@.size as nat, |i: int| placeholder()),
                ..old(self)@
            }),
    {
        if filling && self.size <= self.buffer.len() {
            let ghost prev = self@.buffer;
            self.buffer.truncate(self.size);
            assert(self@.buffer =~= prev.take(old(self).size as int));
            return true;
        }
        let mut buffer: Vec<PfrAddr> = Vec::new();
        let mut i: usize = 0;
        while i < self.size
            invariant
                i <= self.size,
                buffer@.map_values(|a: PfrAddr| a@) =~= Seq::new(i as nat, |k: int| placeholder()),
            decreases self.size - i,
        {
            let ghost prev = buffer@.map_values(|a: PfrAddr| a@);
            buffer.push(PfrAddr::new());
            assert(buffer@.map_values(|a: PfrAddr| a@) =~= prev.push(placeholder()));
            i = i + 1;
        }
        self.buffer = buffer;
        false
    }
}

impl Translate<pfioc_table> for PfIocTable {
    fn translate(&self) -> (r: PfResult<pfioc_table>)
        ensures
            result_view(r) == encode_envelope(self@),
    {
        let ghost s = self@.buffer;
        let mut buffer: Vec<pfr_addr> = Vec::new();
        let n = self.buffer.len();
        let mut i: usize = 0;
        while i < n
            invariant
                i <= n,
                n == self.buffer@.len(),
                s == self@.buffer,
                forall|j: int| 0 <= j < i ==> (#[trigger] encode_addr(s[j])) is Ok,
                buffer@.map_values(|a: pfr_addr| a@) =~= s.take(i as int).map_values(
                    |a: AddrEntry| encode_addr(a)->Ok_0,
                ),
            decreases n - i,
        {
            match self.buffer[i].translate() {
                Ok(c) => {
                    let ghost prev = buffer@.map_values(|a: pfr_addr| a@);
                    let ghost cv = c@;
                    buffer.push(c);
                    assert(buffer@.map_values(|a: pfr_addr| a@) =~= prev.push(cv));
                    assert(s.take(i + 1).map_values(|a: AddrEntry| encode_addr(a)->Ok_0) =~= s.take(
                        i as int,
                    ).map_values(|a: AddrEntry| encode_addr(a)->Ok_0).push(cv));
                },
                Err(e) => {
                    assert(encode_addr(s[i as int]) is Err);
                    return Err(e);
                },
            }
            i = i + 1;
        }
        assert(s.take(n as int) =~= s);
        if n > i32::MAX as usize {
            return Err(PfError::TranslationError);
        }
        let table = match self.table.translate() {
            Ok(t) => t,
            Err(e) => return Err(e),
        };
        let mut io = pfioc_table::init();
        io.pfrio_table = table;
        io.pfrio_buffer = buffer;
        io.pfrio_size = n as i32;
        assert(io@ =~= encode_envelope(self@)->Ok_0);
        Ok(io)
    }

    fn update(&mut self, io: pfioc_table) -> (r: PfResult<()>)
        ensures
            match decode_envelope(io@) {
                Ok(s) => r is Ok && final(self)@ == s,
                Err(e) => r == Err::<(), PfError>(e) && final(self)@ == old(self)@,
            },
    {
        let ghost env = io@;
        let pfioc_table { pfrio_table, pfrio_buffer, pfrio_size, pfrio_nadd, pfrio_ndel, .. } = io;
        let mut table = PfrTable::new();
        match table.update(pfrio_table) {
            Ok(()) => {},
            Err(e) => return Err(e),
        }
        assert(decode_table(env.table) == Ok::<TableId, PfError>(table@));
        let ghost s = env.buffer;
        let mut buffer: Vec<PfrAddr> = Vec::new();
        let n = pfrio_buffer.len();
        let mut i: usize = 0;
        assert(s.take(0) =~= Seq::<AddrImage>::empty());
        assert(buffer@.map_values(|a: PfrAddr| a@) =~= Seq::<AddrEntry>::empty());
        while i < n
            invariant
                i <= n,
                n == pfrio_buffer@.len(),
                env == io@,
                s == env.buffer,
                s.len() == n,
                decode_table(env.table) is Ok,
                forall|j: int| 0 <= j < n ==> s[j] == (#[trigger] pfrio_buffer@[j])@,
                decode_addrs(s.take(i as int)) == Ok::<Seq<AddrEntry>, PfError>(
                    buffer@.map_values(|a: PfrAddr| a@),
                ),
            decreases n - i,
        {
            assert(s.take(i + 1).drop_last() =~= s.take(i as int));
            match decode_entry(&pfrio_buffer[i]) {
                Ok(a) => {
                    let ghost prev = buffer@.map_values(|x: PfrAddr| x@);
                    let ghost av = a@;
                    buffer.push(a);
                    assert(buffer@.map_values(|x: PfrAddr| x@) =~= prev.push(av));
                },
                Err(e) => {
                    proof {
                        assert(s.take(i + 1).last() == s[i as int]);
                        assert(decode_addrs(s.take(i + 1)) == Err::<Seq<AddrEntry>, PfError>(e));
                        lemma_decode_addrs_error_stays(s, i + 1, n as int);
                        assert(s.take(n as int) =~= s);
                        assert(decode_addrs(s) == Err::<Seq<AddrEntry>, PfError>(e));
                        assert(decode_envelope(env) == Err::<ExchangeState, PfError>(e));
                    }
                    return Err(e);
                },
            }
            i = i + 1;
        }
        assert(s.take(n as int) =~= s);
        if pfrio_size < 0 || pfrio_nadd < 0 || pfrio_ndel < 0 {
            return Err(PfError::TranslationError);
        }
        self.table = table;
        self.buffer = buffer;
        self.size = pfrio_size as usize;
        self.added = pfrio_nadd as u32;
        self.deleted = pfrio_ndel as u32;
        Ok(())
    }
}

/// The requests that an exchange can make.
#[derive(Clone, Copy, Debug, PartialEq, Eq, Structural)]
pub enum PfIocCommand {
    ClrAddrs,
    AddAddrs,
    DelAddrs,
    GetAddrs,
}

/// The operation code of `cmd`.
pub open spec fn command_code(cmd: PfIocCommand) -> u64 {
    match cmd {
        PfIocCommand::ClrAddrs => DIOCRCLRADDRS,
        PfIocCommand::AddAddrs => DIOCRADDADDRS,
        PfIocCommand::DelAddrs => DIOCRDELADDRS,
        PfIocCommand::GetAddrs => DIOCRGETADDRS,
    }
}

/// Whether `cmd` reads or writes the entry buffer.
pub open spec fn uses_buffer(cmd: PfIocCommand) -> bool {
    !(cmd is ClrAddrs)
}

impl PfIocCommand {
    /// The numeric operation code the kernel knows this command by.
    pub fn code(&self) -> (r: PfResult<u64>)
        ensures
            r == Ok::<u64, PfError>(command_code(*self)),
    {
        match self {
            PfIocCommand::ClrAddrs => Ok(DIOCRCLRADDRS),
            PfIocCommand::AddAddrs => Ok(DIOCRADDADDRS),
            PfIocCommand::DelAddrs => Ok(DIOCRDELADDRS),
            PfIocCommand::GetAddrs => Ok(DIOCRGETADDRS),
        }
    }

    /// Whether this command reads or writes the entry buffer.
    pub fn uses_buffer(&self) -> (r: bool)
        ensures
            r == uses_buffer(*self),
    {
        match self {
            PfIocCommand::ClrAddrs => false,
            _ => true,
        }
    }
}

} // verus!
