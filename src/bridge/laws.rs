//! What holds across translations in both directions.
use vstd::prelude::*;
use vstd::utf8::{
    decode_utf8, decode_utf8_encode_utf8, encode_scalar, encode_utf8, encode_utf8_decode_utf8,
    encode_utf8_valid_utf8, has_width_1_encoding, valid_utf8,
};
use crate::PfError;
use crate::bridge::bindings::{zeros, AddrImage, AF_INET, IFNAMSIZ, PATH_MAX, PF_TABLE_NAME_SIZE};
use crate::bridge::order::{
    lemma_u128_be_round_trip, lemma_u128_bytes_round_trip, lemma_u32_be_round_trip,
    lemma_u32_bytes_round_trip,
};
use crate::bridge::text::{trim_trailing_zeros, zero_padded};
use crate::bridge::{
    decode_addr, decode_addrs, decode_envelope, decode_table, encode_addr, encode_addrs,
    encode_envelope, encode_table, ip_family, ip_of_payload, ip_payload, AddrEntry, ExchangeState,
    IpAddr, TableId,
};

verus! {

/// Whether `s` is empty or ends in a byte other than zero.
pub open spec fn no_trailing_zero(s: Seq<u8>) -> bool {
    s.len() == 0 || s.last() != 0
}

/// Whether `t` ends in the NUL character.
pub open spec fn ends_in_nul(t: Seq<char>) -> bool {
    t.len() > 0 && t.last() as u32 == 0
}

/// Whether `t` fits a field of `n` bytes with its terminating zero and
/// comes back from it as it went in: its encoding leaves room for the zero
/// and it does not end in NUL, which the trailing zeros would swallow.
pub open spec fn fits_field(t: Seq<char>, n: nat) -> bool {
    encode_utf8(t).len() < n && !ends_in_nul(t)
}

/// The UTF-8 encoding of a text ends in a zero byte exactly when the text
/// ends in NUL.
proof fn lemma_encoding_ends_in_zero(t: Seq<char>)
    ensures
        no_trailing_zero(encode_utf8(t)) <==> !ends_in_nul(t),
        t.len() > 0 ==> encode_utf8(t).len() > 0,
    decreases t.len(),
{
    if t.len() > 0 {
        let c = t[0] as u32;
        let rest = t.drop_first();
        lemma_encoding_ends_in_zero(rest);
        let e = encode_scalar(c);
        assert(encode_utf8(t) == e + encode_utf8(rest));
        if rest.len() == 0 {
            assert(encode_utf8(rest) =~= Seq::<u8>::empty());
            assert(encode_utf8(t) =~= e);
            if has_width_1_encoding(c) {
                assert(((c & 0x7F) as u8 == 0) == (c == 0)) by (bit_vector)
                    requires
                        c <= 0x7F,
                ;
            } else {
                assert((0x80 | (c & 0x3F) as u8) != 0) by (bit_vector);
            }
        } else {
            assert(t.last() == rest.last());
        }
    }
}

/// Whether the interface name of `a` fits its field and comes back from it.
pub open spec fn addr_round_trips(a: AddrEntry) -> bool {
    fits_field(a.ifname, IFNAMSIZ as nat)
}

proof fn lemma_trim_padded(s: Seq<u8>, n: nat)
    requires
        s.len() <= n,
        no_trailing_zero(s),
    ensures
        trim_trailing_zeros(zero_padded(s, n)) == s,
    decreases n - s.len(),
{
    if n > s.len() {
        assert(zero_padded(s, n).drop_last() =~= zero_padded(s, (n - 1) as nat));
        lemma_trim_padded(s, (n - 1) as nat);
    } else {
        assert(zero_padded(s, n) =~= s);
    }
}

proof fn lemma_pad_trim(f: Seq<u8>)
    ensures
        trim_trailing_zeros(f).len() <= f.len(),
        zero_padded(trim_trailing_zeros(f), f.len()) == f,
        f.len() > 0 && f.last() == 0 ==> trim_trailing_zeros(f).len() < f.len(),
        no_trailing_zero(trim_trailing_zeros(f)),
    decreases f.len(),
{
    if f.len() > 0 && f.last() == 0 {
        let g = f.drop_last();
        lemma_pad_trim(g);
        assert(zero_padded(trim_trailing_zeros(f), f.len()) =~= zero_padded(
            trim_trailing_zeros(g),
            g.len(),
        ).push(0));
        assert(f =~= g.push(0));
    } else {
        assert(zero_padded(f, f.len()) =~= f);
    }
}

/// Text that fits a field comes back from it unchanged.
proof fn lemma_text_round_trip(t: Seq<char>, n: nat)
    requires
        fits_field(t, n),
    ensures
        trim_trailing_zeros(zero_padded(encode_utf8(t), n)) == encode_utf8(t),
        valid_utf8(encode_utf8(t)),
        decode_utf8(encode_utf8(t)) == t,
{
    lemma_encoding_ends_in_zero(t);
    lemma_trim_padded(encode_utf8(t), n);
    encode_utf8_valid_utf8(t);
    encode_utf8_decode_utf8(t);
}

/// A field whose text decodes and whose last byte is zero is the padded
/// encoding of that text, which fits it.
proof fn lemma_field_round_trip(f: Seq<u8>)
    requires
        f.len() > 0,
        f.last() == 0,
        valid_utf8(trim_trailing_zeros(f)),
    ensures
        fits_field(decode_utf8(trim_trailing_zeros(f)), f.len()),
        zero_padded(encode_utf8(decode_utf8(trim_trailing_zeros(f))), f.len()) == f,
{
    lemma_pad_trim(f);
    decode_utf8_encode_utf8(trim_trailing_zeros(f));
    lemma_encoding_ends_in_zero(decode_utf8(trim_trailing_zeros(f)));
}

/// An address comes back unchanged from the union bytes and family that
/// hold it.
pub proof fn lemma_ip_round_trip(ip: IpAddr)
    ensures
        ip_payload(ip).len() == 16,
        ip_of_payload(ip_family(ip), ip_payload(ip)) == Some(ip),
{
    match ip {
        IpAddr::V4(v) => {
            lemma_u32_be_round_trip(v);
        },
        IpAddr::V6(v) => {
            lemma_u128_be_round_trip(v);
        },
    }
}

/// Union bytes that a recognised family reads, with the bytes it does not
/// read zero, come back unchanged from the address they hold.
pub proof fn lemma_payload_round_trip(af: u8, u: Seq<u8>)
    requires
        u.len() == 16,
        ip_of_payload(af, u) is Some,
        af == AF_INET ==> u.subrange(4, 16) == zeros(12),
    ensures
        ip_family(ip_of_payload(af, u)->Some_0) == af,
        ip_payload(ip_of_payload(af, u)->Some_0) == u,
{
    if af == AF_INET {
        lemma_u32_bytes_round_trip(u[0], u[1], u[2], u[3]);
        assert(u =~= seq![u[0], u[1], u[2], u[3]] + u.subrange(4, 16));
    } else {
        lemma_u128_bytes_round_trip(u);
    }
}

/// Decoding the fixed-layout form of an entry gives the entry back, when
/// its interface name fits the field and does not end in NUL.
pub proof fn lemma_addr_round_trip(a: AddrEntry)
    requires
        addr_round_trips(a),
    ensures
        encode_addr(a) is Ok,
        decode_addr(encode_addr(a)->Ok_0) == Ok::<AddrEntry, PfError>(a),
{
    lemma_ip_round_trip(a.addr);
    lemma_text_round_trip(a.ifname, IFNAMSIZ as nat);
}

/// Encoding the entry that a fixed-layout entry holds gives that entry
/// back, when it decodes, its interface name field ends in a zero byte, the
/// union bytes its family does not read are zero, and so are the fields
/// that entries do not carry (states, weight, flags, type and padding).
pub proof fn lemma_image_round_trip(c: AddrImage)
    requires
        c.u.len() == 16,
        c.ifname.len() == 16,
        decode_addr(c) is Ok,
        c.ifname.last() == 0,
        c.af == AF_INET ==> c.u.subrange(4, 16) == zeros(12),
        c.states == 0,
        c.weight == 0,
        c.not == 0,
        c.fback == 0,
        c.kind == 0,
        c.pad == zeros(7),
    ensures
        encode_addr(decode_addr(c)->Ok_0) == Ok::<AddrImage, PfError>(c),
{
    lemma_payload_round_trip(c.af, c.u);
    lemma_field_round_trip(c.ifname);
    assert(encode_addr(decode_addr(c)->Ok_0)->Ok_0 =~= c);
}

/// Entries that each come back from their fixed-layout form come back as
/// a sequence, each at its own position: translation keeps their order.
pub proof fn lemma_addrs_round_trip(s: Seq<AddrEntry>)
    requires
        forall|i: int| 0 <= i < s.len() ==> addr_round_trips(#[trigger] s[i]),
    ensures
        encode_addrs(s) is Ok,
        decode_addrs(encode_addrs(s)->Ok_0) == Ok::<Seq<AddrEntry>, PfError>(s),
    decreases s.len(),
{
    assert forall|i: int| 0 <= i < s.len() implies (#[trigger] encode_addr(s[i])) is Ok by {
        lemma_addr_round_trip(s[i]);
    }
    if s.len() > 0 {
        let p = s.drop_last();
        assert forall|i: int| 0 <= i < p.len() implies addr_round_trips(#[trigger] p[i]) by {
            assert(p[i] == s[i]);
        }
        lemma_addrs_round_trip(p);
        lemma_addr_round_trip(s.last());
        let e = encode_addrs(s)->Ok_0;
        assert(e.drop_last() =~= encode_addrs(p)->Ok_0);
        assert(e.last() == encode_addr(s.last())->Ok_0);
        assert(decode_addrs(e.drop_last()) == Ok::<Seq<AddrEntry>, PfError>(p));
        assert(decode_addr(e.last()) == Ok::<AddrEntry, PfError>(s.last()));
        assert(e.len() == s.len());
        assert(decode_addrs(e) == Ok::<Seq<AddrEntry>, PfError>(p.push(s.last())));
        assert(s =~= p.push(s.last()));
    } else {
        assert(encode_addrs(s)->Ok_0 =~= Seq::<AddrImage>::empty());
        assert(s =~= Seq::<AddrEntry>::empty());
    }
}

/// A table whose anchor and name fit their fields comes back unchanged
/// from its fixed-layout form.
pub proof fn lemma_table_round_trip(t: TableId)
    requires
        fits_field(t.anchor, PATH_MAX as nat),
        fits_field(t.name, PF_TABLE_NAME_SIZE as nat),
    ensures
        encode_table(t) is Ok,
        decode_table(encode_table(t)->Ok_0) == Ok::<TableId, PfError>(t),
{
    lemma_text_round_trip(t.anchor, PATH_MAX as nat);
    lemma_text_round_trip(t.name, PF_TABLE_NAME_SIZE as nat);
}

/// An envelope that the kernel hands back untouched reads back as the
/// exchange it was built from: same table, same entries in the same order,
/// a count equal to the number of entries and no additions or deletions.
pub proof fn lemma_exchange_round_trip(s: ExchangeState)
    requires
        fits_field(s.table.anchor, PATH_MAX as nat),
        fits_field(s.table.name, PF_TABLE_NAME_SIZE as nat),
        forall|i: int| 0 <= i < s.buffer.len() ==> addr_round_trips(#[trigger] s.buffer[i]),
        s.buffer.len() <= i32::MAX,
    ensures
        encode_envelope(s) is Ok,
        decode_envelope(encode_envelope(s)->Ok_0) == Ok::<ExchangeState, PfError>(
            ExchangeState { size: s.buffer.len() as usize, added: 0, deleted: 0, ..s },
        ),
{
    lemma_addrs_round_trip(s.buffer);
    lemma_table_round_trip(s.table);
}

} // verus!
