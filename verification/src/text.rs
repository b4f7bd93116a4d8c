//! Decoding of byte buffers into text.

use vstd::prelude::*;
use vstd::utf8::{decode_utf8, valid_utf8};

verus! {

/// The text that lossy decoding makes of `bytes`: well-formed UTF-8 is
/// decoded as it stands, and each malformed part is replaced by U+FFFD.
pub uninterp spec fn utf8_lossy(bytes: Seq<u8>) -> Seq<char>;

/// Strict decoding, by `String::from_utf8`. Not proved here: the result is
/// `Some` exactly for well-formed UTF-8, and then it is the decoded text.
#[verifier::external_body]
pub(crate) fn decode_text(bytes: Vec<u8>) -> (text: Option<String>)
    ensures
        text is Some <==> valid_utf8(bytes@),
        text is Some ==> text.unwrap()@ == decode_utf8(bytes@),
{
    String::from_utf8(bytes).ok()
}

/// Lossy decoding, by `String::from_utf8_lossy`. Not proved here: the
/// result is a function of the bytes alone, and on well-formed UTF-8 it is
/// the decoded text.
#[verifier::external_body]
pub(crate) fn decode_text_lossy(bytes: &Vec<u8>) -> (text: String)
    ensures
        text@ == utf8_lossy(bytes@),
        valid_utf8(bytes@) ==> text@ == decode_utf8(bytes@),
{
    String::from_utf8_lossy(bytes).into_owned()
}

} // verus!
