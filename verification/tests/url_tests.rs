use webber::urls::{url_join, url_normalize, url_parts};
use webber::validate_url;

#[test]
fn validate_url_accepts_absolute() {
    let r = validate_url(String::from("https://example.com/page"));
    assert_eq!(r.unwrap(), "https://example.com/page");
}

#[test]
fn validate_url_rejects_relative() {
    let r = validate_url(String::from("not a url"));
    assert_eq!(r.unwrap_err(), "invalid URL");
}

#[test]
fn normalize_is_idempotent() {
    let once = url_normalize("HTTPS://Example.COM/a/../b").unwrap();
    let twice = url_normalize(once.as_str()).unwrap();
    assert_eq!(once, twice);
    assert_eq!(once, "https://example.com/b");
}

#[test]
fn join_resolves_relative_references() {
    assert_eq!(
        url_join("https://example.com/a/", "b").unwrap(),
        "https://example.com/a/b"
    );
    assert_eq!(
        url_join("https://example.com/a/", "/c").unwrap(),
        "https://example.com/c"
    );
    assert_eq!(
        url_join("https://example.com/a/", "https://other.org/x").unwrap(),
        "https://other.org/x"
    );
}

#[test]
fn resolution_idempotence_on_scalars() {
    // Joining a join result against the same base gives it back unchanged.
    let base = "https://example.com/dir/page";
    let joined = url_join(base, "icons/a.png").unwrap();
    assert_eq!(url_join(base, joined.as_str()).unwrap(), joined);
}

#[test]
fn join_fails_without_a_parsable_base() {
    assert!(url_join("nonsense", "x").is_none());
}

#[test]
fn parts_of_a_full_url() {
    let p = url_parts("https://sub.example.com:8080/x/y?q=1#f").unwrap();
    assert_eq!(p.host.as_deref(), Some("sub.example.com"));
    assert_eq!(p.domain.as_deref(), Some("sub.example.com"));
    assert_eq!(p.port, Some(8080));
    assert_eq!(p.path, "/x/y");
}

#[test]
fn parts_of_an_ip_literal_have_no_domain() {
    let p = url_parts("http://127.0.0.1/").unwrap();
    assert_eq!(p.host.as_deref(), Some("127.0.0.1"));
    assert!(p.domain.is_none());
    assert_eq!(p.port, None);
    assert_eq!(p.path, "/");
}

#[test]
fn default_port_is_not_explicit() {
    let p = url_parts("https://example.com:443/").unwrap();
    // The scheme's default port reads as no explicit port.
    assert_eq!(p.port, None);
}
