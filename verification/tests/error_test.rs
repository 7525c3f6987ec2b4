use movo_core::error::{classify, ClientError, ErrorKind};

#[test]
fn names_the_transport_failures() {
    assert_eq!(classify("Timed out"), ErrorKind::Timeout);
    assert_eq!(
        classify("HTTP GET request failed: error sending request: operation timed out"),
        ErrorKind::Timeout
    );
    assert_eq!(
        classify("HTTP POST request failed: error sending request: dns error"),
        ErrorKind::Network
    );
    assert_eq!(
        classify("Failed to read HTTP response: connection reset"),
        ErrorKind::Network
    );
}

#[test]
fn names_what_the_provider_said() {
    assert_eq!(
        classify("catalog request failed: HTTP 503; content-type text/html; HTML body (120 bytes)"),
        ErrorKind::Provider
    );
    assert_eq!(
        classify("Anubis clearance cookie not obtained after solving for https://x"),
        ErrorKind::Provider
    );
    assert_eq!(classify("Comments response was malformed"), ErrorKind::Malformed);
    assert_eq!(classify("Failed to parse stream JSON: eof"), ErrorKind::Malformed);
}

#[test]
fn names_a_dead_session_and_leaves_the_rest() {
    assert_eq!(classify("Stored session has expired"), ErrorKind::Session);
    assert_eq!(classify("Authenticated session is no longer valid"), ErrorKind::Session);
    assert_eq!(classify("Authenticated session was rejected by the official provider"), ErrorKind::Session);
    assert_eq!(classify("Rating must be between 1 and 10"), ErrorKind::Other);
    assert_eq!(ErrorKind::Other.code(), "other");
}

#[test]
fn every_kind_has_its_own_code() {
    let codes = [
        ErrorKind::Timeout.code(),
        ErrorKind::Network.code(),
        ErrorKind::Provider.code(),
        ErrorKind::Session.code(),
        ErrorKind::Malformed.code(),
        ErrorKind::Other.code(),
    ];
    assert_eq!(codes, ["timeout", "network", "provider", "session", "malformed", "other"]);
}

#[test]
fn a_message_only_error_takes_the_kind_its_text_names() {
    let error = ClientError::from_message("Stored session has expired".to_string());
    assert_eq!(error.kind, ErrorKind::Session);
    assert_eq!(error.message, "Stored session has expired");
    let error = ClientError::new(ErrorKind::Network, "anything".to_string());
    assert_eq!(error.kind, ErrorKind::Network);
}
