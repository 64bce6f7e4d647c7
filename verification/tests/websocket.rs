use cockpit_core::json::parse_json_text;
use cockpit_core::websocket::{
    build_websocket_error_body, parse_websocket_retry_after_header, parse_websocket_upstream_error,
    websocket_connect_error_from_http_response, websocket_error_matches, websocket_error_status,
    WebSocketMessage,
};

#[test]
fn parses_websocket_usage_limit_error() {
    let message = WebSocketMessage::Text(
        r#"{"type":"error","status":429,"body":{"error":{"type":"usage_limit_reached","message":"usage limit reached","resets_in_seconds":7}}}"#
            .to_string(),
    );
    let error = parse_websocket_upstream_error(&message).expect("error should parse");
    assert_eq!(error.status, 429);
    assert_eq!(error.category, "usage_limit_reached");
    assert_eq!(error.retry_after, Some(7));
    assert!(error.body.contains("usage_limit_reached"));
}

#[test]
fn parses_websocket_connection_limit_error() {
    let message = WebSocketMessage::Text(
        r#"{"type":"error","status":429,"body":{"error":{"code":"websocket_connection_limit_reached","type":"server_error","message":"too many websocket connections"}},"headers":{"retry-after":"1"}}"#
            .to_string(),
    );
    let error = parse_websocket_upstream_error(&message).expect("error should parse");
    assert_eq!(error.status, 429);
    assert_eq!(error.category, "websocket_connection_limit_reached");
    assert_eq!(error.retry_after, Some(1));
    assert!(error.body.contains("websocket_connection_limit_reached"));
}

#[test]
fn websocket_handshake_unauthorized_is_auth_unavailable() {
    let error = websocket_connect_error_from_http_response(
        401,
        r#"{"error":{"type":"invalid_token","message":"bad access token"}}"#,
    );
    assert_eq!(error.status, Some(401));
    assert_eq!(error.category, "auth_unavailable");
    assert!(error.message.contains("bad access token"));
}

#[test]
fn frames_that_are_not_errors_are_ignored() {
    let text = WebSocketMessage::Text(r#"{"type":"response.created","status":200}"#.to_string());
    assert!(parse_websocket_upstream_error(&text).is_none());
    let no_status = WebSocketMessage::Text(r#"{"type":"error"}"#.to_string());
    assert!(parse_websocket_upstream_error(&no_status).is_none());
    assert!(parse_websocket_upstream_error(&WebSocketMessage::Other).is_none());
    let binary = WebSocketMessage::Binary(br#"{"type":" error ","status_code":"503","error":"boom"}"#.to_vec());
    let error = parse_websocket_upstream_error(&binary).expect("binary frames parse");
    assert_eq!(error.status, 503);
    assert_eq!(error.category, "upstream_websocket_error");
    assert_eq!(error.retry_after, None);
}

#[test]
fn error_frame_pieces() {
    let v = parse_json_text(r#"{"status":0,"status_code":" 502 ","headers":{"X":"1","Retry-After":"x","retry-after":9}}"#).unwrap();
    assert_eq!(websocket_error_status(&v), Some(502));
    assert_eq!(parse_websocket_retry_after_header(&v), Some(9));
    let body = build_websocket_error_body(&v, 502);
    let text = cockpit_core::json::json_to_string(&body).unwrap();
    assert!(text.contains("\"message\":\"HTTP 502\""));
    let coded = parse_json_text(r#"{"code":"usage_limit_reached"}"#).unwrap();
    assert!(websocket_error_matches(&coded, "usage_limit_reached"));
    assert!(!websocket_error_matches(&coded, "other"));
}
