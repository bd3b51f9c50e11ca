use webdriver_wire::error::{TransportCause, WebDriverError};
use webdriver_wire::transport::{classify_response, SurfDriverAsync, DEFAULT_TIMEOUT_MS};
use webdriver_wire::value::JsonValue;

fn obj(entries: Vec<(&str, JsonValue)>) -> JsonValue {
    JsonValue::Object(entries.into_iter().map(|(k, v)| (k.to_string(), v)).collect())
}

#[test]
fn success_response_returns_decoded_body() {
    let body = obj(vec![("value", JsonValue::Null)]);
    let out = classify_response(200, Some(body.clone()));
    assert_eq!(out, Ok(body));
}

#[test]
fn redirection_response_returns_decoded_body() {
    let body = obj(vec![("value", JsonValue::Int(1))]);
    assert_eq!(classify_response(302, Some(body.clone())), Ok(body));
}

#[test]
fn success_response_with_undecodable_body_is_a_transport_error() {
    assert_eq!(
        classify_response(200, None),
        Err(WebDriverError::TransportError(TransportCause::MalformedSuccessBody))
    );
}

#[test]
fn client_error_response_carries_status_and_body() {
    let body = obj(vec![(
        "value",
        obj(vec![("error", JsonValue::Str("no such element".to_string()))]),
    )]);
    let out = classify_response(404, Some(body.clone()));
    assert_eq!(out, Err(WebDriverError::RemoteProtocolError { status: 404, body }));
}

#[test]
fn server_error_with_unparsable_body_carries_null_body() {
    let out = classify_response(500, None);
    assert_eq!(
        out,
        Err(WebDriverError::RemoteProtocolError { status: 500, body: JsonValue::Null })
    );
}

#[test]
fn informational_status_is_an_unexpected_class() {
    assert_eq!(
        classify_response(100, Some(JsonValue::Null)),
        Err(WebDriverError::TransportError(TransportCause::UnexpectedStatusClass))
    );
    assert_eq!(
        classify_response(700, None),
        Err(WebDriverError::TransportError(TransportCause::UnexpectedStatusClass))
    );
}

#[test]
fn create_trims_trailing_separators_and_uses_default_timeout() {
    let driver = SurfDriverAsync::create("http://localhost:4444///").unwrap();
    assert_eq!(driver.request_url("/session"), "http://localhost:4444/session");
    assert_eq!(driver.request_timeout_ms(), DEFAULT_TIMEOUT_MS);
    assert_eq!(DEFAULT_TIMEOUT_MS, 120000);
}

#[test]
fn create_keeps_address_without_trailing_separator() {
    let driver = SurfDriverAsync::create("http://127.0.0.1:9515").unwrap();
    assert_eq!(driver.request_url("/status"), "http://127.0.0.1:9515/status");
}

#[test]
fn create_accepts_empty_address() {
    let driver = SurfDriverAsync::create("").unwrap();
    assert_eq!(driver.request_url("/x"), "/x");
}

#[test]
fn set_request_timeout_replaces_only_the_timeout() {
    let mut driver = SurfDriverAsync::create("http://localhost:4444/").unwrap();
    let url_before = driver.request_url("/session/abc/url");
    let outcome_before = classify_response(200, Some(JsonValue::Bool(true)));
    driver.set_request_timeout(5000);
    assert_eq!(driver.request_timeout_ms(), 5000);
    assert_eq!(driver.request_url("/session/abc/url"), url_before);
    assert_eq!(classify_response(200, Some(JsonValue::Bool(true))), outcome_before);
}
