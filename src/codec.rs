//! Text encodings of byte strings, as the base64 and data-encoding crates
//! define them.
use vstd::prelude::*;

verus! {

/// What the standard base64 alphabet (with padding) decodes `b` to, or
/// `None` where `b` is not valid base64.
pub uninterp spec fn base64_decoded(b: Seq<u8>) -> Option<Seq<u8>>;

/// The unpadded base32 encoding (RFC 4648 alphabet) of `b`.
pub uninterp spec fn base32_nopad_of(b: Seq<u8>) -> Seq<char>;

/// Relies on base64::decode (standard alphabet, with padding).
#[verifier::external_body]
pub(crate) fn decode_base64(b: &[u8]) -> (r: Option<Vec<u8>>)
    ensures
        r is Some <==> base64_decoded(b@) is Some,
        r is Some ==> base64_decoded(b@) == Some(r->Some_0@),
{
    base64::decode(b).ok()
}

/// A character of the RFC 4648 base32 alphabet.
pub open spec fn is_base32_char(c: char) -> bool {
    ('A' <= c && c <= 'Z') || ('2' <= c && c <= '7')
}

/// Relies on data_encoding::BASE32_NOPAD's `encode`: one character of the
/// alphabet `A`-`Z`, `2`-`7` for each five bits, the last one partial, with
/// no padding.
#[verifier::external_body]
pub(crate) fn encode_base32_nopad(b: &[u8]) -> (r: String)
    ensures
        r@ == base32_nopad_of(b@),
        r@.len() == (8 * b@.len() + 4) / 5,
        forall|i: int| 0 <= i < r@.len() ==> is_base32_char(#[trigger] r@[i]),
{
    data_encoding::BASE32_NOPAD.encode(b)
}

} // verus!
