use ireplay::extractor::{StringExtractor, StringRejection};
use ireplay::http::StatusCode;

fn text_of(body: Option<&[u8]>) -> Result<String, StringRejection> {
    StringExtractor::from_body(body).map(|e| e.0)
}

#[test]
fn ascii_body_is_extracted() {
    assert_eq!(text_of(Some(b"tv power")), Ok("tv power".to_string()));
    assert_eq!(text_of(Some(b"")), Ok(String::new()));
}

#[test]
fn multibyte_body_is_decoded() {
    assert_eq!(text_of(Some("Lüfter €".as_bytes())), Ok("Lüfter €".to_string()));
}

#[test]
fn invalid_utf8_is_rejected() {
    assert_eq!(text_of(Some(&[0x66, 0xff, 0x6f])), Err(StringRejection::BodyIsNotUtf8));
    assert_eq!(text_of(Some(&[0xe2, 0x82])), Err(StringRejection::BodyIsNotUtf8));
}

#[test]
fn unreadable_body_is_a_bad_form() {
    assert_eq!(text_of(None), Err(StringRejection::BadForm));
}

#[test]
fn every_rejection_is_answered_with_bad_request() {
    for rejection in [StringRejection::BodyIsNotUtf8, StringRejection::BadForm] {
        let (status, text) = rejection.response();
        assert_eq!(status, StatusCode::BadRequest);
        assert_eq!(status.code(), 400);
        assert_eq!(text, "Not valid UTF-8");
    }
}
