//! The text form of a frame: base45, an alphabet that optical codes carry
//! compactly.

use vstd::prelude::*;

verus! {

/// The base45 text of a byte sequence.
pub uninterp spec fn base45_text(bytes: Seq<u8>) -> Seq<char>;

/// The bytes that a base45 text stands for, or `None` for a malformed text.
pub uninterp spec fn base45_bytes(text: Seq<char>) -> Option<Seq<u8>>;

#[verifier::external_type_specification]
#[verifier::external_body]
pub struct ExDecodeError(base45::DecodeError);

/// Relies on `base45::encode`: the base45 text of the bytes, which
/// `base45::decode` reads back to the same bytes (the format is reversible:
/// two bytes become three characters, a last single byte two).
#[verifier::external_body]
pub(crate) fn base45_encode(bytes: &[u8]) -> (r: String)
    ensures
        r@ == base45_text(bytes@),
        base45_bytes(r@) == Some(bytes@),
{
    base45::encode(bytes)
}

/// Relies on `base45::decode`: the bytes of a well-formed base45 text, an
/// error for any other text.
#[verifier::external_body]
pub(crate) fn base45_decode(text: &str) -> (r: Result<Vec<u8>, base45::DecodeError>)
    ensures
        r is Ok <==> base45_bytes(text@) is Some,
        r is Ok ==> r->Ok_0@ == base45_bytes(text@)->0,
{
    base45::decode(text)
}

/// Relies on the `Display` of `base45::DecodeError`, which writes one fixed
/// message.
#[verifier::external_body]
pub(crate) fn decode_error_text(e: &base45::DecodeError) -> (r: String)
    ensures
        r@ == "Invalid base45 string"@,
{
    e.to_string()
}

} // verus!
