//! Extraction of a request body as text: the name given to a signal.
use crate::http::StatusCode;
use vstd::prelude::*;
use vstd::utf8::{
    decode_utf8, decode_utf8_encode_utf8, encode_utf8, encode_utf8_decode_utf8,
    encode_utf8_valid_utf8, valid_utf8,
};

verus! {

/// The body of a request, decoded as UTF-8 text.
pub struct StringExtractor(pub String);

/// Rejection used for [StringExtractor].
#[derive(Clone, Copy, Debug, PartialEq, Eq, Structural)]
pub enum StringRejection {
    /// Error decoding the body as UTF-8
    BodyIsNotUtf8,
    /// Error reading the body
    BadForm,
}

/// Calls `core::str::from_utf8`, which succeeds exactly on valid UTF-8 and
/// then yields the text those bytes encode.
#[verifier::external_body]
fn str_from_utf8(bytes: &[u8]) -> (r: Option<&str>)
    ensures
        r is Some <==> valid_utf8(bytes@),
        r matches Some(s) ==> s@ == decode_utf8(bytes@),
{
    core::str::from_utf8(bytes).ok()
}

/// The outcome of extracting text from a request body: `None` stands for a
/// body that could not be read.
pub open spec fn extraction(body: Option<Seq<u8>>) -> Result<Seq<char>, StringRejection> {
    match body {
        None => Err(StringRejection::BadForm),
        Some(bytes) => if valid_utf8(bytes) {
            Ok(decode_utf8(bytes))
        } else {
            Err(StringRejection::BodyIsNotUtf8)
        },
    }
}

impl StringExtractor {
    /// Extracts the text of a request body: `body` is what reading the body
    /// gave, `None` where reading it failed. A failed read is rejected as a
    /// bad form, bytes that are not UTF-8 as such; otherwise the decoded
    /// text comes back.
    pub fn from_body(body: Option<&[u8]>) -> (r: Result<StringExtractor, StringRejection>)
        ensures
            match (r, extraction(
                match body {
                    Some(b) => Some(b@),
                    None => None,
                },
            )) {
                (Ok(text), Ok(expected)) => text.0@ == expected,
                (Err(e), Err(expected)) => e == expected,
                _ => false,
            },
            r is Ok <==> (body matches Some(b) && valid_utf8(b@)),
    {
        match body {
            None => Err(StringRejection::BadForm),
            Some(bytes) => match str_from_utf8(bytes) {
                Some(text) => Ok(StringExtractor(text.to_owned())),
                None => Err(StringRejection::BodyIsNotUtf8),
            },
        }
    }
}

impl StringRejection {
    /// The answer to a rejected request: status 400 with the text
    /// "Not valid UTF-8", whichever the rejection.
    pub fn response(&self) -> (r: (StatusCode, &'static str))
        ensures
            r.0 == StatusCode::BadRequest,
            r.1@ == "Not valid UTF-8"@,
    {
        (StatusCode::BadRequest, "Not valid UTF-8")
    }
}

/// Any text sent as its UTF-8 bytes is extracted as that very text.
pub proof fn lemma_text_body_round_trips(text: Seq<char>)
    ensures
        extraction(Some(encode_utf8(text))) == Ok::<Seq<char>, StringRejection>(text),
{
    encode_utf8_valid_utf8(text);
    encode_utf8_decode_utf8(text);
}

/// A body is taken as text exactly when it is valid UTF-8, and the text
/// encodes back to exactly the bytes of the body; a body that is not UTF-8
/// is always rejected as such, and an unreadable one as a bad form.
pub proof fn lemma_extraction_accepts_exactly_utf8(bytes: Seq<u8>)
    ensures
        extraction(Some(bytes)) is Ok <==> valid_utf8(bytes),
        !valid_utf8(bytes) ==> extraction(Some(bytes)) == Err::<Seq<char>, StringRejection>(
            StringRejection::BodyIsNotUtf8,
        ),
        extraction(Some(bytes)) matches Ok(text) ==> encode_utf8(text) == bytes,
        extraction(None) == Err::<Seq<char>, StringRejection>(StringRejection::BadForm),
{
    if valid_utf8(bytes) {
        decode_utf8_encode_utf8(bytes);
    }
}

} // verus!
