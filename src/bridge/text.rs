//! Text in fixed-capacity, zero-padded byte fields.
use vstd::prelude::*;
use vstd::utf8::{decode_utf8, encode_utf8, encode_utf8_decode_utf8, valid_utf8};
use crate::bridge::bindings::zeros;

verus! {

/// `s` followed by zeros up to `n` bytes.
pub open spec fn zero_padded(s: Seq<u8>, n: nat) -> Seq<u8> {
    s + zeros((n - s.len()) as nat)
}

/// `s` without its trailing zero bytes; zeros before the last non-zero byte stay.
pub open spec fn trim_trailing_zeros(s: Seq<u8>) -> Seq<u8>
    decreases s.len(),
{
    if s.len() > 0 && s.last() == 0 {
        trim_trailing_zeros(s.drop_last())
    } else {
        s
    }
}

/// The text that a field holds, if the bytes before its trailing zeros are UTF-8.
pub open spec fn field_text(field: Seq<u8>) -> Option<Seq<char>> {
    let b = trim_trailing_zeros(field);
    if valid_utf8(b) {
        Some(decode_utf8(b))
    } else {
        None
    }
}

/// Relies on `String::from_utf8`: it accepts exactly the byte vectors that
/// are well-formed UTF-8, and the string it returns holds those bytes.
#[verifier::external_body]
fn string_from_utf8(bytes: Vec<u8>) -> (r: Option<String>)
    ensures
        r is Some <==> valid_utf8(bytes@),
        r matches Some(s) ==> encode_utf8(s@) == bytes@,
{
    String::from_utf8(bytes).ok()
}

/// The text in `field`: its bytes up to the trailing zeros, decoded as UTF-8.
pub fn text_of_field<const N: usize>(field: &[u8; N]) -> (r: Option<String>)
    ensures
        r matches Some(s) ==> field_text(field@) == Some(s@),
        r is None ==> field_text(field@) is None,
{
    let mut end: usize = N;
    assert(field@.take(end as int) =~= field@);
    while end > 0 && field[end - 1] == 0
        invariant
            end <= N,
            field@.len() == N,
            trim_trailing_zeros(field@) == trim_trailing_zeros(field@.take(end as int)),
        decreases end,
    {
        assert(field@.take(end as int).drop_last() =~= field@.take(end - 1));
        end = end - 1;
    }
    let mut bytes: Vec<u8> = Vec::new();
    let mut i: usize = 0;
    while i < end
        invariant
            i <= end <= N,
            field@.len() == N,
            bytes@ =~= field@.take(i as int),
        decreases end - i,
    {
        bytes.push(field[i]);
        i = i + 1;
    }
    assert(trim_trailing_zeros(field@) == bytes@);
    let r = string_from_utf8(bytes);
    proof {
        if r is Some {
            encode_utf8_decode_utf8(r->0@);
        }
    }
    r
}

/// Writes the bytes of `text` at the start of a zeroed field.
pub fn write_text<const N: usize>(text: &str, field: &mut [u8; N])
    requires
        encode_utf8(text@).len() < N,
        old(field)@ == zeros(N as nat),
    ensures
        final(field)@ == zero_padded(encode_utf8(text@), N as nat),
{
    let b = text.as_bytes();
    let n = b.len();
    let mut i: usize = 0;
    while i < n
        invariant
            i <= n,
            n == encode_utf8(text@).len(),
            n < N,
            b@ == encode_utf8(text@),
            field@.len() == N,
            forall|k: int| 0 <= k < i ==> field@[k] == b@[k],
            forall|k: int| i <= k < N ==> field@[k] == 0,
        decreases n - i,
    {
        field[i] = b[i];
        i = i + 1;
    }
    assert(field@ =~= zero_padded(encode_utf8(text@), N as nat));
}

} // verus!
