use movo_core::bridge::Command;
use movo_core::client::models::UserProfile;
use movo_core::client::session::cookies::{authenticated_user, cookie_identity, has_clearance, remember, restorable, StoredCookie};
use movo_core::client::session::credentials::{
    check_import, check_persist, check_restore, clear_outcome, export_secret, keyring_account, legacy_cookies,
    legacy_outcome, signs_in, SessionSecret, SESSION_VERSION,
};
use movo_core::client::session::{
    ajax_url_at, content_type_of, provider_url, require_success, resolve_url, retry_delay_ms, retry_spread_ms,
    session_base, transport_error, OFFICIAL_MIRROR, RETRY_SPREAD_MS,
};
use movo_core::client::{favorite_settled, AccountState, RestoreError};
use movo_core::error::{ClientError, ErrorKind};

#[test]
fn retry_delays_grow_and_stay_within_their_spread() {
    assert!(retry_spread_ms(999_999_999) < RETRY_SPREAD_MS);
    assert_eq!(retry_delay_ms(2, 0), 600);
}

#[test]
fn each_retry_doubles_the_wait() {
    assert_eq!(retry_delay_ms(0, 42), 0);
    assert_eq!(retry_delay_ms(1, 7), 307);
    assert_eq!(retry_delay_ms(3, 0), 1200);
    assert_eq!(retry_spread_ms(123_456_789), 89);
}

#[test]
fn http_error_description_is_sanitized() {
    let error = require_success("POST", 401, "application/json", r#"{"token":"do-not-leak"}"#.to_string()).unwrap_err();

    assert!(error.message.contains("HTTP 401"));
    assert!(error.message.contains("content-type application/json"));
    assert!(error.message.contains("JSON body"));
    assert!(!error.message.contains("do-not-leak"));
    assert_eq!(error.kind, ErrorKind::Provider);
}

#[test]
fn a_failed_reply_is_described_by_its_kind_and_size() {
    let error = require_success("GET", 503, "text/html", "  <html>é</html>".to_string()).unwrap_err();
    assert_eq!(error.message, "GET failed: HTTP 503; content-type text/html; HTML body (17 bytes)");
    let error = require_success("GET", 404, "unknown", "  ".to_string()).unwrap_err();
    assert_eq!(error.message, "GET failed: HTTP 404; content-type unknown; empty body (2 bytes)");
    assert_eq!(require_success("GET", 204, "text/plain", "ok".to_string()).unwrap(), "ok");
}

#[test]
fn a_transport_failure_names_its_kind() {
    let error = transport_error("HTTP GET request failed", true, "operation timed out");
    assert_eq!(error.kind, ErrorKind::Timeout);
    assert_eq!(error.message, "HTTP GET request failed: operation timed out");
    assert_eq!(transport_error("x", false, "dns").kind, ErrorKind::Network);
}

#[test]
fn links_on_a_page_resolve_against_the_provider() {
    let base = session_base("https://hdrzk.org/");
    assert_eq!(base, OFFICIAL_MIRROR);
    assert_eq!(resolve_url(&base, "/films/1.html"), "https://hdrzk.org/films/1.html");
    assert_eq!(resolve_url(&base, "//static.example/p.jpg"), "https://static.example/p.jpg");
    assert_eq!(resolve_url(&base, "http://other.example/x"), "http://other.example/x");
}

#[test]
fn a_page_request_stays_on_the_provider() {
    assert_eq!(
        provider_url("https://hdrzk.org", "https://mirror.example/films/1.html?x=1").unwrap(),
        "https://hdrzk.org/films/1.html?x=1"
    );
    assert_eq!(provider_url("https://hdrzk.org", "//continue/").unwrap(), "https://hdrzk.org/continue/");
    let error = provider_url("https://hdrzk.org", "http://").unwrap_err();
    assert_eq!(error.kind, ErrorKind::Other);
    assert!(error.message.starts_with("Invalid provider URL http://: "));
}

#[test]
fn an_ajax_call_carries_the_time() {
    assert_eq!(ajax_url_at("https://hdrzk.org", "/ajax/a/", 5), "https://hdrzk.org/ajax/a/?t=5");
    assert_eq!(ajax_url_at("https://hdrzk.org", "https://x.example/a?b=1", -2), "https://x.example/a?b=1&t=-2");
}

#[test]
fn the_content_type_is_cut_short() {
    assert_eq!(content_type_of(None), "unknown");
    let long = "x".repeat(100);
    assert_eq!(content_type_of(Some(long.as_str())).len(), 80);
}

#[test]
fn the_jar_signs_in_only_with_a_password() {
    assert_eq!(authenticated_user(Some("dle_user_id=42; dle_password=hash")), Some("42".to_string()));
    assert_eq!(authenticated_user(Some("dle_user_id=42")), None);
    assert_eq!(authenticated_user(Some("dle_user_id= ; dle_password=hash")), None);
    assert_eq!(authenticated_user(None), None);
    assert!(has_clearance("a=1; techaro.lol-anubis-auth=token"));
    assert!(!has_clearance("techaro.lol-anubis-cookie-verification=id"));
    assert!(!has_clearance("anubis-auth= "));
}

#[test]
fn session_secret_preserves_cookie_metadata() {
    let url = OFFICIAL_MIRROR;
    let mut cookies: Vec<StoredCookie> = Vec::new();
    remember(
        &mut cookies,
        "dle_user_id=42; Domain=hdrzk.org; Path=/user; Expires=Wed, 21 Oct 2037 07:28:00 GMT; Secure; HttpOnly",
        url,
    );

    assert_eq!(cookies.len(), 1);
    assert!(cookies[0].header.contains("Expires=Wed, 21 Oct 2037 07:28:00 GMT"));
    assert!(cookies[0].header.contains("Path=/user"));
    assert!(cookies[0].header.contains("Domain=hdrzk.org"));
    assert!(cookies[0].header.contains("Secure"));
    assert!(cookies[0].header.contains("HttpOnly"));
}

#[test]
fn a_cookie_set_again_replaces_the_stored_one() {
    let mut cookies: Vec<StoredCookie> = Vec::new();
    remember(&mut cookies, "A=1; Path=/", "https://hdrzk.org/x");
    remember(&mut cookies, "b=2", "https://hdrzk.org/");
    remember(&mut cookies, "a=3; Domain=.HDRZK.org", "https://other.example/");
    assert_eq!(cookies.len(), 2);
    assert_eq!(cookies[0].header, "b=2");
    assert_eq!(cookies[1].header, "a=3; Domain=.HDRZK.org");
    remember(&mut cookies, "no value", "https://hdrzk.org/");
    assert_eq!(cookies.len(), 2);
    let identity = cookie_identity("SID=x; Path=/p; Domain=.Example.COM", "https://h.example/").unwrap();
    assert_eq!(identity.0.iter().collect::<String>(), "sid");
    assert_eq!(identity.1.iter().collect::<String>(), "example.com");
    assert_eq!(identity.2.iter().collect::<String>(), "/p");
    let kept = restorable(&vec![
        StoredCookie { url: "not a url".to_string(), header: "a=1".to_string() },
        StoredCookie { url: "https://hdrzk.org/".to_string(), header: "b=2".to_string() },
    ]);
    assert_eq!(kept.len(), 1);
    assert_eq!(kept[0].header, "b=2");
}

#[test]
fn exported_session_restores_authenticated_cookies() {
    let mut cookies: Vec<StoredCookie> = Vec::new();
    remember(&mut cookies, "dle_user_id=42; Path=/", "https://example.com/");
    remember(&mut cookies, "dle_password=hash; Path=/", "https://example.com/");
    let jar_header = "dle_user_id=42; dle_password=hash";
    let secret = export_secret(authenticated_user(Some(jar_header)), cookies).unwrap();
    assert!(check_import(&secret).is_ok());
    assert!(signs_in(&secret.user_id, Some(jar_header)));
    assert_eq!(secret.user_id, "42");
    assert_eq!(secret.version, SESSION_VERSION);
}

#[test]
fn a_foreign_or_empty_session_is_turned_down() {
    assert_eq!(export_secret(None, Vec::new()).err().unwrap(), "Authentication required");
    let secret = SessionSecret {
        version: SESSION_VERSION,
        provider: "https://mirror.example".to_string(),
        user_id: "42".to_string(),
        cookies: vec![StoredCookie { url: "https://hdrzk.org/".to_string(), header: "a=1".to_string() }],
    };
    assert_eq!(check_import(&secret).unwrap_err(), "Stored session is invalid");
    assert_eq!(check_restore(&secret, "42").unwrap_err(), "Stored session does not match the requested account");
    let secret = SessionSecret { provider: OFFICIAL_MIRROR.to_string(), cookies: Vec::new(), ..secret };
    assert!(check_import(&secret).is_err());
    assert!(check_restore(&secret, "42").is_ok());
    assert!(check_restore(&secret, "43").is_err());
}

#[test]
fn only_a_verified_official_session_is_kept() {
    assert_eq!(
        check_persist("https://mirror.example", "42", Some("dle_user_id=42; dle_password=x")).unwrap_err(),
        "Only official-provider sessions can be persisted"
    );
    assert_eq!(
        check_persist(OFFICIAL_MIRROR, "42", Some("dle_user_id=41; dle_password=x")).unwrap_err(),
        "Cannot persist an unverified session"
    );
    assert!(check_persist(OFFICIAL_MIRROR, "42", Some("dle_user_id=42; dle_password=x")).is_ok());
    assert_eq!(keyring_account("42"), "hdrzk.org:42");
}

#[test]
fn clearing_reports_what_could_not_be_removed() {
    assert!(clear_outcome(true, true).is_ok());
    assert_eq!(clear_outcome(false, true).unwrap_err(), "Legacy session file could not be removed");
    assert_eq!(
        clear_outcome(true, false).unwrap_err(),
        "System keyring is unavailable; stored session was not removed"
    );
    assert!(clear_outcome(false, false).unwrap_err().contains("could not be fully removed"));
}

#[test]
fn an_old_cookie_file_signs_in_its_own_account_only() {
    let cookies = legacy_cookies(
        "https://hdrzk.org/",
        "hdrzk.org",
        &vec![("dle_user_id".to_string(), "42".to_string())],
    );
    assert_eq!(cookies[0].header, "dle_user_id=42; Domain=hdrzk.org; Path=/; Secure; HttpOnly");
    assert_eq!(cookies[0].url, "https://hdrzk.org/");
    let header = Some("dle_user_id=42; dle_password=x");
    assert_eq!(legacy_outcome(None, header).unwrap(), "42");
    assert_eq!(legacy_outcome(Some("42"), header).unwrap(), "42");
    assert_eq!(legacy_outcome(Some("7"), header).unwrap_err(), "Legacy session belongs to another account");
    assert_eq!(legacy_outcome(None, Some("dle_user_id=42")).unwrap_err(), "Legacy session is incomplete");
}

fn profile(user_id: &str) -> UserProfile {
    UserProfile {
        user_id: user_id.to_string(),
        username: "Alex".to_string(),
        is_logged_in: true,
        is_vip: false,
        email: None,
        avatar_url: None,
        premium_days: None,
        is_session_persistent: true,
    }
}

#[test]
fn cleared_session_invalidates_user_and_account_generation() {
    let mut account = AccountState::new();
    account.set_account(Some(profile("42")));
    account.generation = 7;
    let signed_in = Some("dle_user_id=42; dle_password=hash");
    let generation = account.account_generation(0);
    assert!(account.user(signed_in).is_some());

    let cleared: Option<&str> = None;

    assert!(account.user(cleared).is_none());
    assert_ne!(account.account_generation(1), generation);
}

#[test]
fn account_operations_need_the_signed_in_session() {
    let mut account = AccountState::new();
    assert_eq!(account.ensure_signed_in(None).unwrap_err(), "Authentication required");
    account.set_account(Some(profile("42")));
    assert_eq!(account.generation, 1);
    assert!(account.ensure_signed_in(Some("dle_user_id=42; dle_password=x")).is_ok());
    assert_eq!(
        account.ensure_signed_in(Some("dle_user_id=43; dle_password=x")).unwrap_err(),
        "Authenticated session is no longer valid"
    );
    account.generation = u64::MAX;
    account.set_account(None);
    assert_eq!(account.generation, 0);
    assert!(favorite_settled(&vec![2, 3], 3, true));
    assert!(!favorite_settled(&vec![2, 3], 4, true));
    assert!(favorite_settled(&vec![], 4, false));
}

#[test]
fn a_restore_error_says_whether_the_session_is_worth_keeping() {
    let rejected = RestoreError::rejected(ClientError::new(ErrorKind::Session, "expired".to_string()));
    assert!(rejected.is_rejected);
    let retryable = RestoreError::retryable(ClientError::new(ErrorKind::Network, "down".to_string()));
    assert!(!retryable.is_rejected);
    assert_eq!(retryable.error.kind, ErrorKind::Network);
}

#[test]
fn only_reads_can_be_dropped() {
    assert!(Command::Home.is_read());
    assert!(Command::Details { url: String::new() }.is_read());
    assert!(!Command::Logout.is_read());
    assert!(!Command::Rate { post_id: 1, rating: 5 }.is_read());
    assert!(!Command::SetHiddenCountries { countries: String::new() }.is_read());
}
