//! Turning the bytes that a program wrote into text.
use vstd::prelude::*;
use vstd::utf8::{decode_utf8, valid_utf8};

verus! {

/// The text that lossy UTF-8 decoding makes of `bytes`: each invalid
/// sequence becomes a replacement character.
pub uninterp spec fn lossy_text(bytes: Seq<u8>) -> Seq<char>;

/// `s` without its leading and trailing whitespace.
pub uninterp spec fn trimmed_text(s: Seq<char>) -> Seq<char>;

/// Whether `part` is a contiguous run of `whole`.
pub open spec fn is_slice_of(part: Seq<char>, whole: Seq<char>) -> bool {
    exists|i: int, j: int| 0 <= i <= j <= whole.len() && part == whole.subrange(i, j)
}

/// Relies on `String::from_utf8_lossy`: a function of the bytes alone, which
/// decodes valid UTF-8 unchanged.
#[verifier::external_body]
fn decode_lossy(bytes: &[u8]) -> (r: String)
    ensures
        r@ == lossy_text(bytes@),
        valid_utf8(bytes@) ==> r@ == decode_utf8(bytes@),
{
    String::from_utf8_lossy(bytes).into_owned()
}

/// Relies on `str::trim`: a function of the text alone, which returns a
/// contiguous part of its input.
#[verifier::external_body]
pub(crate) fn trim(s: &str) -> (r: String)
    ensures
        r@ == trimmed_text(s@),
        is_slice_of(r@, s@),
{
    s.trim().to_string()
}

/// Relies on `std::str::from_utf8`: it accepts exactly the valid UTF-8
/// byte sequences, and decodes them.
#[verifier::external_body]
fn decode_strict(bytes: &[u8]) -> (r: Option<String>)
    ensures
        r is Some <==> valid_utf8(bytes@),
        r matches Some(s) ==> s@ == decode_utf8(bytes@),
{
    match std::str::from_utf8(bytes) {
        Ok(s) => Some(s.to_string()),
        Err(_) => None,
    }
}

/// The text of a program's output: decoded with replacement of invalid
/// sequences, then trimmed. Never fails.
pub fn output_text(bytes: &[u8]) -> (r: String)
    ensures
        r@ == trimmed_text(lossy_text(bytes@)),
        is_slice_of(r@, lossy_text(bytes@)),
        valid_utf8(bytes@) ==> r@ == trimmed_text(decode_utf8(bytes@)),
{
    let text = decode_lossy(bytes);
    trim(text.as_str())
}

/// The text of a program's output where it is valid UTF-8, trimmed; `None`
/// where it is not.
pub fn output_text_strict(bytes: &[u8]) -> (r: Option<String>)
    ensures
        r is Some <==> valid_utf8(bytes@),
        r matches Some(s) ==> s@ == trimmed_text(decode_utf8(bytes@)) && is_slice_of(
            s@,
            decode_utf8(bytes@),
        ),
{
    match decode_strict(bytes) {
        Some(text) => Some(trim(text.as_str())),
        None => None,
    }
}

} // verus!
