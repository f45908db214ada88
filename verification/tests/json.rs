use clip_upload::json::{decode_response, frame, parse_response, to_json, ProtocolError};
use clip_upload::response::UploadResponse;

fn ok(m: &str) -> UploadResponse {
    UploadResponse::Success { message: m.to_string() }
}

fn error(m: &str) -> UploadResponse {
    UploadResponse::Error { message: m.to_string() }
}

#[test]
fn success_is_read() {
    assert_eq!(
        parse_response("{\"Ok\":{\"message\":\"https://example.com/x\"}}"),
        Ok(ok("https://example.com/x"))
    );
    assert_eq!(parse_response(" { \"Ok\" : { \"message\" : \"\" } } "), Ok(ok("")));
}

#[test]
fn failure_is_read() {
    assert_eq!(
        parse_response("{\"Error\":{\"message\":\"quota exceeded\"}}"),
        Ok(error("quota exceeded"))
    );
}

#[test]
fn escapes_are_read() {
    assert_eq!(
        parse_response("{\"Ok\":{\"message\":\"a \\\"b\\\" \\\\ \\u00e9\\n\"}}"),
        Ok(ok("a \"b\" \\ \u{e9}\n"))
    );
}

#[test]
fn text_that_is_not_json() {
    for text in ["", "not json", "{\"Ok\":{\"message\":\"x\"}", "{\"Ok\":{\"message\":\"x\"}} trailing", "<html></html>"] {
        assert_eq!(parse_response(text), Err(ProtocolError::NotJson));
    }
}

#[test]
fn json_of_another_shape() {
    for text in [
        "{}",
        "null",
        "\"Ok\"",
        "[]",
        "{\"Ok\":\"x\"}",
        "{\"Ok\":{}}",
        "{\"Ok\":{\"message\":5}}",
        "{\"Ok\":{\"message\":null}}",
        "{\"ok\":{\"message\":\"x\"}}",
        "{\"Done\":{\"message\":\"x\"}}",
        "{\"Ok\":{\"Message\":\"x\"}}",
        "{\"message\":\"x\"}",
    ] {
        assert_eq!(parse_response(text), Err(ProtocolError::UnknownShape), "{}", text);
    }
}

#[test]
fn both_variants_at_once_are_neither() {
    assert_eq!(
        parse_response("{\"Ok\":{\"message\":\"x\"},\"Error\":{\"message\":\"y\"}}"),
        Err(ProtocolError::UnknownShape)
    );
}

#[test]
fn document_is_decoded() {
    let mut inner = serde_json::Map::new();
    inner.insert("message".to_string(), serde_json::Value::String("ref".to_string()));
    let mut outer = serde_json::Map::new();
    outer.insert("Ok".to_string(), serde_json::Value::Object(inner));
    assert_eq!(decode_response(&serde_json::Value::Object(outer)), Ok(ok("ref")));
    assert_eq!(
        decode_response(&serde_json::Value::Null),
        Err(ProtocolError::UnknownShape)
    );
    assert_eq!(
        decode_response(&serde_json::Value::String("/Ok/message".to_string())),
        Err(ProtocolError::UnknownShape)
    );
}

#[test]
fn answers_are_written() {
    assert_eq!(to_json(&ok("https://example.com/x")), "{\"Ok\":{\"message\":\"https://example.com/x\"}}");
    assert_eq!(to_json(&error("no")), "{\"Error\":{\"message\":\"no\"}}");
    assert_eq!(to_json(&error("")), "{\"Error\":{\"message\":\"\"}}");
}

#[test]
fn messages_are_quoted() {
    assert_eq!(
        to_json(&error("tcp \"connect\" failed\n\\")),
        "{\"Error\":{\"message\":\"tcp \\\"connect\\\" failed\\n\\\\\"}}"
    );
    assert_eq!(to_json(&ok("\u{e9}\u{1}")), "{\"Ok\":{\"message\":\"\u{e9}\\u0001\"}}");
}

#[test]
fn frame_goes_round_a_quoted_message() {
    assert_eq!(frame(true, "\"m\""), "{\"Ok\":{\"message\":\"m\"}}");
    assert_eq!(frame(false, "\"m\""), "{\"Error\":{\"message\":\"m\"}}");
}

#[test]
fn written_answers_are_read_back() {
    for answer in [ok("https://example.com/x"), error("a \"b\" \\ \n \u{1f600}"), ok(""), error("/Ok/message")] {
        assert_eq!(parse_response(&to_json(&answer)), Ok(answer));
    }
}

#[test]
fn protocol_errors_in_words() {
    assert_eq!(ProtocolError::NotJson.message(), "The answer of the server is not JSON");
    assert_eq!(
        ProtocolError::UnknownShape.message(),
        "The answer of the server has an unknown shape"
    );
}
