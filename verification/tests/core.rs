use edgelink::service::base_url_for_host;
use edgelink::shortkey::{normalize_name, short_key_from_seed};
use edgelink::text::html_escape;
use edgelink::validate::{validate, ValidationError};

#[test]
fn validate_prepends_scheme() {
    assert_eq!(validate("example.com"), Ok("https://example.com".to_string()));
}

#[test]
fn validate_keeps_declared_scheme() {
    assert_eq!(validate("http://example.com"), Ok("http://example.com".to_string()));
    assert_eq!(validate("https://example.com/path?q=1"), Ok("https://example.com/path?q=1".to_string()));
}

#[test]
fn validate_rejects_empty_input() {
    assert_eq!(validate(""), Err(ValidationError::EmptyUrl));
    assert_eq!(validate("   \t  "), Err(ValidationError::EmptyUrl));
}

#[test]
fn validate_rejects_malformed_url() {
    assert_eq!(validate("http://[oops"), Err(ValidationError::MalformedUrl));
}

#[test]
fn validate_requires_domain_extension() {
    assert_eq!(validate("https://localhost"), Err(ValidationError::MissingDomainExtension));
    assert_eq!(validate("justaword"), Err(ValidationError::MissingDomainExtension));
}

#[test]
fn normalize_name_lowercases_and_hyphenates() {
    assert_eq!(normalize_name("My Link!"), "my-link");
}

#[test]
fn normalize_name_trims_before_hyphenating() {
    assert_eq!(normalize_name("  My Link  "), "my-link");
    assert_eq!(normalize_name("\u{a0}hi\u{a0}"), "hi");
}

#[test]
fn normalize_name_drops_non_ascii() {
    assert_eq!(normalize_name("\u{c9}CLAIR"), "clair");
    assert_eq!(normalize_name("!!!"), "");
}

#[test]
fn short_key_digits_come_least_significant_first() {
    assert_eq!(short_key_from_seed(0), "aaaaaa");
    assert_eq!(short_key_from_seed(1), "baaaaa");
    assert_eq!(short_key_from_seed(25), "zaaaaa");
    assert_eq!(short_key_from_seed(26), "0aaaaa");
    assert_eq!(short_key_from_seed(35), "9aaaaa");
    assert_eq!(short_key_from_seed(36), "abaaaa");
}

#[test]
fn short_key_is_six_alphabet_chars() {
    for seed in [0u64, 7, 1234567890123, u64::MAX] {
        let key = short_key_from_seed(seed);
        assert_eq!(key.len(), 6);
        assert!(key.chars().all(|c| c.is_ascii_lowercase() || c.is_ascii_digit()));
    }
}

#[test]
fn html_escape_rewrites_markup_characters() {
    assert_eq!(
        html_escape("<a href=\"x\">&'</a>"),
        "&lt;a href=&quot;x&quot;&gt;&amp;&#x27;&lt;/a&gt;"
    );
    assert_eq!(html_escape("plain text"), "plain text");
}

#[test]
fn base_url_uses_plain_http_for_local_hosts() {
    assert_eq!(base_url_for_host("localhost:8787"), "http://localhost:8787");
    assert_eq!(base_url_for_host("sho.rt"), "https://sho.rt");
}
