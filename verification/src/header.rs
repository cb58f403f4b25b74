//! Values of HTTP headers.
use http::header::{HeaderValue, InvalidHeaderValue};
use vstd::prelude::*;
use vstd::utf8::encode_utf8;

verus! {

/// A header value of `http`; Verus sees nothing inside it but what
/// `header_bytes` says.
#[verifier::external_type_specification]
#[verifier::external_body]
pub struct ExHeaderValue(http::header::HeaderValue);

/// The error of a text that is no header value.
#[verifier::external_type_specification]
#[verifier::external_body]
pub struct ExInvalidHeaderValue(http::header::InvalidHeaderValue);

/// The bytes of a header value.
pub uninterp spec fn header_bytes(value: HeaderValue) -> Seq<u8>;

/// A byte may stand in a header value: a tab, or anything that is no control
/// character.
pub open spec fn is_header_byte(byte: u8) -> bool {
    byte == 9 || (byte >= 32 && byte != 127)
}

/// A text may be a header value.
pub open spec fn is_header_text(text: Seq<char>) -> bool {
    forall|i: int|
        0 <= i < encode_utf8(text).len() ==> is_header_byte(#[trigger] encode_utf8(text)[i])
}

/// `HeaderValue::from_str`: succeeds exactly on a text without control
/// characters other than the tab, and then holds the bytes of the text.
#[verifier::external_body]
pub(crate) fn parse_header(text: &str) -> (value: Result<HeaderValue, InvalidHeaderValue>)
    ensures
        value is Ok <==> is_header_text(text@),
        value is Ok ==> header_bytes(value->Ok_0) == encode_utf8(text@),
{
    HeaderValue::from_str(text)
}

/// The tab, the printable characters and everything beyond ASCII may stand in a
/// header value; no other byte may, and one such byte spoils a text.
pub proof fn law_which_texts_fit_a_header(text: Seq<char>, i: int)
    requires
        0 <= i < encode_utf8(text).len(),
    ensures
        ({
            let byte = encode_utf8(text)[i];
            &&& is_header_byte(byte) <==> byte == 9 || 32 <= byte <= 126 || byte >= 128
            &&& is_header_text(text) ==> byte == 9 || 32 <= byte <= 126 || byte >= 128
        }),
{
}

} // verus!
