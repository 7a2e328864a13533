use base64::Engine as _;
use hkmu_ole_attendance::auth::{
    absolute, cookie_verdict, seed_cookies, SsoAction, SsoFlow, UNIVERSITY_DOMAIN,
};
use hkmu_ole_attendance::cookie::{Cookie, CookieStore};
use hkmu_ole_attendance::error::AppError;
use hkmu_ole_attendance::session::{
    is_allowed_host, Hop, Location, Method, Redirects, MAX_REDIRECTS,
};
use hkmu_ole_attendance::session_cache::{
    backoff_remaining, is_reusable, login_refusal, REFRESH_MARGIN_SECS,
};
use hkmu_ole_attendance::ltpa::TokenExpiry;
use hkmu_ole_attendance::web_url::RequestUrl;

fn url(value: &str) -> RequestUrl {
    RequestUrl::parse(value).expect("valid URL")
}

#[test]
fn allows_redirects_within_the_university() {
    for host in [
        "https://iole.hkmu.edu.hk/x",
        "https://auth.hkmu.edu.hk/nidp/idff/sso",
        "https://authapp.hkmu.edu.hk/nesp/app/plogin",
        "https://oleconnect.hkmu.edu.hk/oledb/api/x",
    ] {
        assert!(is_allowed_host(host), "{host} should be allowed");
    }
}

#[test]
fn refuses_a_redirect_off_the_university_domain() {
    assert!(!is_allowed_host("https://evil.example/x"));
    assert!(!is_allowed_host("https://evilhkmu.edu.hk/x"));
    assert!(!is_allowed_host("https://discord.com/api/webhooks/1"));
}

#[test]
fn cookies_are_scoped_to_the_university_domain() {
    let mut store = CookieStore::new();
    store.upsert(Cookie {
        name: "LtpaToken".to_owned(),
        value: "secret".to_owned(),
        domain: ".hkmu.edu.hk".to_owned(),
        path: "/".to_owned(),
        secure: false,
    });
    assert!(store.header_for(&url("https://discord.com/api/webhooks/1")).is_empty());
    assert_eq!(store.header_for(&url("https://oleconnect.hkmu.edu.hk/oledb/api/x")), "LtpaToken=secret");
}

#[test]
fn resolves_relative_form_actions_against_the_portal() {
    let resolved = absolute(
        "https://iole.hkmu.edu.hk",
        "/names.nsf?nov-ss-ff-silent&mastercdnioleLogin33310&Login",
    )
    .expect("relative URL resolves");
    assert_eq!(
        resolved,
        "https://iole.hkmu.edu.hk/names.nsf?nov-ss-ff-silent&mastercdnioleLogin33310&Login"
    );
}

#[test]
fn seeds_session_cookies_for_the_whole_university() {
    let cookie = Cookie {
        name: "LtpaToken".to_owned(),
        value: "v".to_owned(),
        domain: UNIVERSITY_DOMAIN.to_owned(),
        path: "/".to_owned(),
        secure: false,
    };
    for host in ["https://iole.hkmu.edu.hk/x", "https://oleconnect.hkmu.edu.hk/y"] {
        assert!(cookie.matches(&url(host)), "cookie should reach {host}");
    }
}

#[test]
fn seeds_a_jar_from_a_cookie_header() {
    let store = seed_cookies(" LtpaToken = abc ;; JSESSIONID=x=y ; ").expect("seeded");
    assert_eq!(store.len(), 2);
    assert_eq!(store.value_of("LtpaToken"), Some("abc"));
    assert_eq!(store.value_of("JSESSIONID"), Some("x=y"));
    assert_eq!(store.header_for(&url("https://iole.hkmu.edu.hk/")), "LtpaToken=abc; JSESSIONID=x=y");
    assert!(store.header_for(&url("https://discord.com/")).is_empty());
}

#[test]
fn refuses_a_malformed_or_empty_cookie_header() {
    match seed_cookies("a=1; broken") {
        Err(AppError::Config(m)) => assert_eq!(m, "SESSION_COOKIE entry \"broken\" is not name=value"),
        _ => panic!("expected a refusal"),
    }
    match seed_cookies(" ; ") {
        Err(AppError::Config(m)) => assert_eq!(m, "SESSION_COOKIE contained no cookies"),
        _ => panic!("expected a refusal"),
    }
    match cookie_verdict(false) {
        Err(AppError::SessionRejected(m)) => {
            assert_eq!(m, "OLE rejected SESSION_COOKIE: refresh it from a logged-in browser")
        }
        _ => panic!("expected a rejection"),
    }
    assert!(cookie_verdict(true).is_ok());
}

fn post(action: SsoAction) -> (String, Vec<(String, String)>) {
    match action {
        SsoAction::Post(url, fields) => (url, fields),
        _ => panic!("expected a post"),
    }
}

#[test]
fn drives_the_sso_chain_in_order() {
    let (mut flow, first) = SsoFlow::start("https://iole.hkmu.edu.hk", "https://auth/nam", "s1", "pw");
    assert!(matches!(first, SsoAction::Get(ref u) if u == "https://iole.hkmu.edu.hk"));
    let (to, fields) = post(flow.on_page("<html>landing</html>"));
    assert_eq!(to, "https://auth/nam");
    assert_eq!(
        fields,
        [("option", "credential"), ("Ecom_User_ID", "s1"), ("Ecom_Password", "pw"), ("loginButton2", "Login")]
            .map(|(a, b)| (a.to_owned(), b.to_owned()))
    );
    let next = flow.on_page("<script>window.location.href='https://auth.hkmu.edu.hk/nidp/idff/sso?sid=0';</script>");
    assert!(matches!(next, SsoAction::Get(ref u) if u == "https://auth.hkmu.edu.hk/nidp/idff/sso?sid=0"));
    let (bridge, fields) = post(flow.on_page(
        r#"<form action="/other"></form><form name="x" action="/names.nsf?nov-ss-ff-silent&Login"></form>"#,
    ));
    assert_eq!(bridge, "https://iole.hkmu.edu.hk/names.nsf?nov-ss-ff-silent&Login");
    assert_eq!(fields.len(), 2);
    let (login, fields) = post(flow.on_page(
        r#"<input name="Username" value="du"><input value="dp" name="Password"><form action="/names.nsf?Login"></form>"#,
    ));
    assert_eq!(login, "https://iole.hkmu.edu.hk/names.nsf?Login");
    assert_eq!(fields[2], ("Username".to_owned(), "du".to_owned()));
    assert_eq!(fields[3], ("Password".to_owned(), "dp".to_owned()));
    assert!(matches!(flow.on_page("Welcome"), SsoAction::Validate { looks_signed_in: true }));
    assert!(matches!(flow.on_validated(true), SsoAction::Done(Ok(()))));
}

#[test]
fn a_wrong_password_ends_the_chain() {
    let (mut flow, _) = SsoFlow::start("https://iole.hkmu.edu.hk", "https://auth/nam", "s1", "bad");
    let _ = flow.on_page("landing");
    match flow.on_page("<p>Login failed</p>") {
        SsoAction::Done(Err(AppError::Auth(m))) => {
            assert_eq!(m, "NAM did not return a post-login redirect; password may be wrong")
        }
        _ => panic!("expected the chain to fail"),
    }
}

#[test]
fn follows_a_redirect_within_the_university_as_a_get() {
    let mut jar = CookieStore::new();
    let form = Some(vec![("a".to_owned(), "1".to_owned())]);
    let mut chain = Redirects::new(Method::Post, "https://iole.hkmu.edu.hk/login", form, false);
    let first = chain.prepare(&jar).expect("first request");
    assert_eq!(first.method, Method::Post);
    assert!(first.form.is_some());
    assert!(first.cookie_header.is_none());
    let hop = chain.on_answer(
        &mut jar,
        &first.url,
        302,
        &vec!["LtpaToken=t; Domain=.hkmu.edu.hk; Path=/".to_owned()],
        Location::Text("https://auth.hkmu.edu.hk/next".to_owned()),
    );
    assert!(matches!(hop, Hop::Follow));
    let second = chain.prepare(&jar).expect("second request");
    assert_eq!(second.method, Method::Get);
    assert!(second.form.is_none());
    assert_eq!(second.url.serialized, "https://auth.hkmu.edu.hk/next");
    assert_eq!(second.cookie_header.as_deref(), Some("LtpaToken=t"));
    let hop = chain.on_answer(&mut jar, &second.url, 200, &Vec::new(), Location::Missing);
    assert!(matches!(hop, Hop::Read));
    assert_eq!(Redirects::deliver(200, &second.url, "body".to_owned()).expect("ok"), "body");
    match Redirects::deliver(503, &second.url, String::new()) {
        Err(AppError::HttpStatus { status, url }) => {
            assert_eq!((status, url.as_str()), (503, "https://auth.hkmu.edu.hk/next"))
        }
        _ => panic!("expected a status error"),
    }
}

#[test]
fn refuses_a_redirect_off_the_university_and_endless_chains() {
    let mut jar = CookieStore::new();
    let mut chain = Redirects::new(Method::Get, "https://iole.hkmu.edu.hk/", None, true);
    let req = chain.prepare(&jar).expect("request");
    assert!(req.xhr);
    match chain.on_answer(&mut jar, &req.url, 301, &Vec::new(), Location::Text("https://evil.example/x".to_owned())) {
        Hop::Fail(AppError::Auth(m)) => assert_eq!(
            m,
            "https://iole.hkmu.edu.hk/ redirected off the university domain, to https://evil.example/x"
        ),
        _ => panic!("expected a refusal"),
    }
    match chain.on_answer(&mut jar, &req.url, 302, &Vec::new(), Location::Missing) {
        Hop::Fail(AppError::Auth(m)) => assert_eq!(m, "redirect from https://iole.hkmu.edu.hk/ carried no Location"),
        _ => panic!("expected a refusal"),
    }
    let mut endless = Redirects::new(Method::Get, "https://iole.hkmu.edu.hk/", None, false);
    for _ in 0..MAX_REDIRECTS {
        let r = endless.prepare(&jar).expect("within the limit");
        let hop = endless.on_answer(&mut jar, &r.url, 302, &Vec::new(), Location::Text("/again".to_owned()));
        assert!(matches!(hop, Hop::Follow));
    }
    match endless.prepare(&jar) {
        Err(AppError::Auth(m)) => assert_eq!(m, "redirect chain from https://iole.hkmu.edu.hk/ exceeded 12 hops"),
        _ => panic!("expected the chain to stop"),
    }
}

#[test]
fn refresh_margin_is_positive_and_shorter_than_a_token_lifetime() {
    let margin = REFRESH_MARGIN_SECS;
    let token_lifetime = 14_400_i64;
    assert!(margin > 0);
    assert!(margin < token_lifetime);
}

#[test]
fn margin_decision_boundary_is_exclusive_at_exactly_the_margin() {
    let now = 1_000_000_i64;
    let expiry = TokenExpiry { issued_at: now, expires_at: now + REFRESH_MARGIN_SECS };
    assert!(expiry.is_expired(now + REFRESH_MARGIN_SECS));
    let healthy = TokenExpiry { issued_at: now, expires_at: now + REFRESH_MARGIN_SECS + 1 };
    assert!(!healthy.is_expired(now + REFRESH_MARGIN_SECS));
}

fn token(issued: u32, expires: u32) -> String {
    let mut raw = vec![0x00, 0x01, 0x02, 0x03];
    raw.extend_from_slice(format!("{issued:08X}").as_bytes());
    raw.extend_from_slice(format!("{expires:08X}").as_bytes());
    raw.extend_from_slice(b"CN=s1234567/OU=OUHKStudent/O=ouhk");
    base64::engine::general_purpose::STANDARD.encode(raw)
}

#[test]
fn reuses_a_session_only_while_it_outlives_the_margin() {
    let now = 1_700_000_000_i64;
    let expires = (now + 4 * 3600) as u32;
    let t = token(expires - 14_400, expires);
    assert!(is_reusable(Some(&t), now));
    assert!(!is_reusable(Some(&t), i64::from(expires) - REFRESH_MARGIN_SECS));
    assert!(is_reusable(Some(&t), i64::from(expires) - REFRESH_MARGIN_SECS - 1));
    assert!(is_reusable(Some("not-a-real-token"), now));
    assert!(is_reusable(None, now));
}

#[test]
fn a_recent_failure_refuses_a_login_until_the_backoff_passes() {
    assert_eq!(backoff_remaining(0), Some(30_000_000_000));
    assert_eq!(backoff_remaining(29_999_999_999), Some(1));
    assert_eq!(backoff_remaining(30_000_000_000), None);
    match login_refusal(Some(1_500_000_000)) {
        Some(AppError::Auth(m)) => assert_eq!(m, "a login failed recently; retrying in 28s"),
        _ => panic!("expected a refusal"),
    }
    assert!(login_refusal(Some(31_000_000_000)).is_none());
    assert!(login_refusal(None).is_none());
}
