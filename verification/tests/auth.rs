use bytes::Bytes;
use http_body_util::Full;
use hyper::header::{HeaderMap, HeaderValue};
use hyper::{Method, Request, StatusCode};
use llm_doze::auth::{check_auth, check_bearer};
use llm_doze::proxy::ProxyRequest;

fn arrived(req: Request<Full<Bytes>>) -> ProxyRequest<Full<Bytes>> {
    let (parts, body) = req.into_parts();
    ProxyRequest {
        method: parts.method,
        uri: parts.uri.to_string(),
        headers: parts.headers,
        body,
    }
}

#[test]
fn test_no_auth_required() {
    let req = Request::builder()
        .uri("/test")
        .body(Full::new(Bytes::new()))
        .unwrap();
    assert!(check_auth(&arrived(req), None).is_ok());
}

#[test]
fn test_valid_token() {
    let req = Request::builder()
        .uri("/test")
        .header("authorization", "Bearer my-secret")
        .body(Full::new(Bytes::new()))
        .unwrap();
    assert!(check_auth(&arrived(req), Some("my-secret")).is_ok());
}

#[test]
fn test_invalid_token() {
    let req = Request::builder()
        .uri("/test")
        .header("authorization", "Bearer wrong-token")
        .body(Full::new(Bytes::new()))
        .unwrap();
    let result = check_auth(&arrived(req), Some("my-secret"));
    assert!(result.is_err());
    assert_eq!(result.unwrap_err().status(), StatusCode::UNAUTHORIZED);
}

#[test]
fn test_missing_header() {
    let req = Request::builder()
        .uri("/test")
        .body(Full::new(Bytes::new()))
        .unwrap();
    let result = check_auth(&arrived(req), Some("my-secret"));
    assert!(result.is_err());
    assert_eq!(result.unwrap_err().status(), StatusCode::UNAUTHORIZED);
}

#[test]
fn test_wrong_auth_format() {
    let req = Request::builder()
        .uri("/test")
        .header("authorization", "Basic dXNlcjpwYXNz")
        .body(Full::new(Bytes::new()))
        .unwrap();
    let result = check_auth(&arrived(req), Some("my-secret"));
    assert!(result.is_err());
}

fn with_headers(headers: HeaderMap) -> ProxyRequest<()> {
    ProxyRequest { method: Method::GET, uri: "/".to_string(), headers, body: () }
}

#[test]
fn refusals_say_what_is_wrong() {
    let body = |header: Option<&str>| check_bearer(header, Some("t")).unwrap_err().body;
    assert_eq!(body(Some("Bearer u")), "{\"error\": \"Invalid token\"}");
    assert_eq!(body(Some("Bearer ")), "{\"error\": \"Invalid token\"}");
    assert_eq!(
        body(Some("bearer t")),
        "{\"error\": \"Invalid authorization format, expected: Bearer <token>\"}"
    );
    assert_eq!(
        body(Some("Bearer")),
        "{\"error\": \"Invalid authorization format, expected: Bearer <token>\"}"
    );
    assert_eq!(body(None), "{\"error\": \"Missing Authorization header\"}");
    let reply = check_bearer(None, Some("t")).unwrap_err();
    assert_eq!(reply.status, 401);
    assert_eq!(reply.content_type, "application/json");
}

#[test]
fn only_the_expected_token_passes() {
    assert!(check_bearer(Some("Bearer secret"), Some("secret")).is_ok());
    assert!(check_bearer(Some("Bearer secret "), Some("secret")).is_err());
    assert!(check_bearer(Some("Bearer secre"), Some("secret")).is_err());
    assert!(check_bearer(Some("Bearer "), Some("")).is_ok());
    assert!(check_bearer(Some("Bearer \u{fc}"), Some("\u{fc}")).is_ok());
    assert!(check_bearer(None, None).is_ok());
}

#[test]
fn the_first_authorization_field_counts() {
    let mut headers = HeaderMap::new();
    headers.append("authorization", HeaderValue::from_static("Bearer one"));
    headers.append("authorization", HeaderValue::from_static("Bearer two"));
    assert!(check_auth(&with_headers(headers.clone()), Some("one")).is_ok());
    assert!(check_auth(&with_headers(headers), Some("two")).is_err());
}

#[test]
fn a_value_that_is_no_text_counts_as_missing() {
    let mut headers = HeaderMap::new();
    headers.append("authorization", HeaderValue::from_bytes(b"Bearer \xfc").unwrap());
    let reply = check_auth(&with_headers(headers), Some("\u{fc}")).unwrap_err();
    assert_eq!(reply.body, "{\"error\": \"Missing Authorization header\"}");
}

#[test]
fn a_token_may_hold_blanks_and_tabs() {
    let mut headers = HeaderMap::new();
    headers.append("authorization", HeaderValue::from_bytes(b"Bearer a b\tc~").unwrap());
    assert!(check_auth(&with_headers(headers), Some("a b\tc~")).is_ok());
}
