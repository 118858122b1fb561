use massive_url::error::UrlError;
use massive_url::validate::normalize_url;
use massive_url::validate::starts_with_exec;
use massive_url::validate::str_eq;
use massive_url::validate::validate_url;

#[test]
fn http_prefix_is_upgraded_and_nothing_else_altered() {
    assert_eq!(normalize_url("http://example.com/a"), "https://example.com/a");
    assert_eq!(
        normalize_url("http://example.com/redirect?to=http://other"),
        "https://example.com/redirect?to=http://other"
    );
    assert_eq!(normalize_url("http://"), "https://");
}

#[test]
fn non_http_inputs_are_left_unchanged() {
    assert_eq!(normalize_url("https://example.com"), "https://example.com");
    assert_eq!(normalize_url("example.com"), "example.com");
    assert_eq!(normalize_url("ftp://x"), "ftp://x");
    assert_eq!(normalize_url(""), "");
}

#[test]
fn validation_accepts_https_and_upgraded_http() {
    assert_eq!(validate_url("https://example.com"), Ok("https://example.com".to_string()));
    assert_eq!(validate_url("http://example.com/a"), Ok("https://example.com/a".to_string()));
}

#[test]
fn validation_rejects_other_schemes_with_not_https() {
    assert_eq!(validate_url("javascript:alert(1)"), Err(UrlError::NotHttps));
    assert_eq!(validate_url("data:text/html,x"), Err(UrlError::NotHttps));
    assert_eq!(validate_url("ftp://x"), Err(UrlError::NotHttps));
    assert_eq!(validate_url("example.com"), Err(UrlError::NotHttps));
    assert_eq!(validate_url(""), Err(UrlError::NotHttps));
    // A prefix of the scheme is not the scheme.
    assert_eq!(validate_url("https:/example.com"), Err(UrlError::NotHttps));
}

#[test]
fn string_helpers_match_std() {
    assert!(str_eq("abc", "abc"));
    assert!(!str_eq("abc", "abd"));
    assert!(!str_eq("abc", "ab"));
    assert!(str_eq("", ""));
    assert!(starts_with_exec("https://x", "https://"));
    assert!(!starts_with_exec("http", "http://"));
    assert!(starts_with_exec("anything", ""));
}
