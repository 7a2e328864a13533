use hkmu_ole_attendance::cookie::{default_path_for, host_matches, path_matches, Cookie, CookieStore};
use hkmu_ole_attendance::web_url::RequestUrl;

fn url(value: &str) -> RequestUrl {
    RequestUrl::parse(value).expect("test URL is valid")
}

fn cookie(name: &str, value: &str, domain: &str, path: &str, secure: bool) -> Cookie {
    Cookie {
        name: name.to_owned(),
        value: value.to_owned(),
        domain: domain.to_owned(),
        path: path.to_owned(),
        secure,
    }
}

#[test]
fn leading_dot_domain_matches_subdomains_and_apex() {
    assert!(host_matches("iole.hkmu.edu.hk", ".hkmu.edu.hk"));
    assert!(host_matches("hkmu.edu.hk", ".hkmu.edu.hk"));
    assert!(!host_matches("evil.com", ".hkmu.edu.hk"));
}

#[test]
fn bare_domain_matches_only_that_host() {
    assert!(host_matches("auth.hkmu.edu.hk", "auth.hkmu.edu.hk"));
    assert!(!host_matches("iole.hkmu.edu.hk", "auth.hkmu.edu.hk"));
}

#[test]
fn cookie_is_not_sent_to_unrelated_hosts() {
    let c = cookie("LtpaToken", "abc", ".hkmu.edu.hk", "/", false);
    assert!(!c.matches(&url("https://discord.com/api/webhooks/x")));
    assert!(c.matches(&url("https://oleconnect.hkmu.edu.hk/oledb/api/x")));
}

#[test]
fn secure_cookie_is_withheld_from_plain_http() {
    let c = cookie("JSESSIONID", "abc", "auth.hkmu.edu.hk", "/nidp", true);
    assert!(!c.matches(&url("http://auth.hkmu.edu.hk/nidp/x")));
    assert!(c.matches(&url("https://auth.hkmu.edu.hk/nidp/x")));
}

#[test]
fn parses_domain_and_secure_attributes() {
    let header = "JSESSIONID=ABC123; Path=/nidp; Secure; HttpOnly";
    let parsed = CookieStore::parse_set_cookie(header, &url("https://auth.hkmu.edu.hk/nidp/idff/sso"))
        .expect("header is well formed");
    assert_eq!(parsed.name, "JSESSIONID");
    assert_eq!(parsed.value, "ABC123");
    assert_eq!(parsed.path, "/nidp");
    assert!(parsed.secure);
    assert_eq!(parsed.domain, "auth.hkmu.edu.hk");
}

#[test]
fn parses_parent_domain_cookie() {
    let header = "LtpaToken=xyz; Path=/; Domain=.hkmu.edu.hk";
    let parsed = CookieStore::parse_set_cookie(header, &url("https://iole.hkmu.edu.hk/x"))
        .expect("header is well formed");
    assert_eq!(parsed.domain, ".hkmu.edu.hk");
}

#[test]
fn upsert_replaces_the_same_cookie() {
    let mut store = CookieStore::new();
    store.upsert(cookie("LtpaToken", "old", ".hkmu.edu.hk", "/", false));
    store.upsert(cookie("LtpaToken", "new", ".hkmu.edu.hk", "/", false));
    assert_eq!(store.len(), 1);
    assert_eq!(store.header_for(&url("https://iole.hkmu.edu.hk/")), "LtpaToken=new");
}

#[test]
fn builds_a_header_only_from_applicable_cookies() {
    let mut store = CookieStore::new();
    for (name, domain) in [("LtpaToken", ".hkmu.edu.hk"), ("token", "example.com")] {
        store.upsert(cookie(name, "v", domain, "/", false));
    }
    assert_eq!(store.header_for(&url("https://iole.hkmu.edu.hk/x")), "LtpaToken=v");
}

#[test]
fn debug_never_reveals_a_cookie_value() {
    let c = cookie(
        "LtpaToken",
        "AAECAzZBQjExOUIyNkFCMTUxRjJDTj1zMTM2ODk0Mg",
        ".hkmu.edu.hk",
        "/",
        false,
    );
    let rendered = c.debug_string();
    assert!(!rendered.contains("AAECAzZBQjEx"), "cookie value leaked into Debug: {rendered}");
    assert!(rendered.contains("LtpaToken"));
    assert!(rendered.contains("redacted"));
    assert!(rendered.contains(".hkmu.edu.hk"));
}

#[test]
fn debug_redaction_reports_only_the_length() {
    let short = cookie("a", "abc", "d", "/", false);
    let long = cookie("a", "abcdef", "d", "/", false);
    assert!(short.debug_string().contains("3 chars"));
    assert!(long.debug_string().contains("6 chars"));
}

#[test]
fn rejects_malformed_set_cookie_header() {
    assert!(CookieStore::parse_set_cookie("=; Path=/", &url("https://x.hkmu.edu.hk/")).is_none());
    assert!(CookieStore::parse_set_cookie("justaname; Path=/", &url("https://x.hkmu.edu.hk/")).is_none());
}

#[test]
fn derives_default_path_from_request_directory() {
    assert_eq!(default_path_for("/nidp/idff/sso"), "/nidp/idff");
    assert_eq!(default_path_for("/"), "/");
    assert_eq!(default_path_for("/login"), "/");
}

#[test]
fn path_match_requires_a_segment_boundary() {
    let c = cookie("JSESSIONID", "v", "auth.hkmu.edu.hk", "/nidp", false);
    assert!(c.matches(&url("https://auth.hkmu.edu.hk/nidp/app/login")));
    assert!(!c.matches(&url("https://auth.hkmu.edu.hk/nidpxyz")));
}

#[test]
fn debug_rendering_is_exact() {
    let c = cookie("n", "xyz", "d", "/p", true);
    assert_eq!(
        c.debug_string(),
        "Cookie { name: \"n\", value: <redacted 3 chars>, domain: \"d\", path: \"/p\", secure: true }"
    );
}

#[test]
fn ingest_stores_every_set_cookie_header() {
    let mut store = CookieStore::new();
    let headers = vec![
        "A=1; Path=/".to_owned(),
        "garbage".to_owned(),
        "B=2; Domain=.hkmu.edu.hk".to_owned(),
    ];
    store.ingest(&headers, &url("https://iole.hkmu.edu.hk/x/y"));
    assert_eq!(store.len(), 2);
    assert_eq!(store.value_of("A"), Some("1"));
    assert_eq!(store.value_of("B"), Some("2"));
    assert_eq!(store.value_of("C"), None);
    assert_eq!(store.header_for(&url("https://iole.hkmu.edu.hk/x/z")), "A=1; B=2");
    assert_eq!(store.header_for(&url("https://iole.hkmu.edu.hk/")), "A=1");
}

#[test]
fn upserting_twice_stores_one_cookie() {
    let mut store = CookieStore::new();
    assert!(store.is_empty());
    store.upsert(cookie("a", "1", "d.example", "/", false));
    store.upsert(cookie("a", "1", "d.example", "/", false));
    store.upsert(cookie("a", "2", "d.example", "/other", false));
    assert_eq!(store.len(), 2);
    assert!(!store.is_empty());
}

#[test]
fn paths_match_at_segment_boundaries() {
    assert!(path_matches("/nidp", "/nidp"));
    assert!(path_matches("/nidp/x", "/nidp/"));
    assert!(path_matches("/anything", ""));
    assert!(!path_matches("/nid", "/nidp"));
}

#[test]
fn debug_text_depends_on_the_value_only_through_its_length() {
    let a = cookie("LtpaToken", "secret-one", ".hkmu.edu.hk", "/", true);
    let b = cookie("LtpaToken", "another-10", ".hkmu.edu.hk", "/", true);
    assert_eq!(a.debug_string(), b.debug_string());
    let wide = cookie("LtpaToken", "é", ".hkmu.edu.hk", "/", true);
    assert!(wide.debug_string().contains("<redacted 2 chars>"));
}
