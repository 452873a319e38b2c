use axum::http::{HeaderMap, HeaderValue};
use euthergate::auth::{
    authentication_mode, cookie_authenticated, find_session, is_authenticated, login, logout,
    proxy_token_authenticated, read_header, refuse, status, AppState, Endpoint, AUTH_COOKIE,
    PROXY_AUTH_HEADER,
};
use euthergate::reply::{health, Body, Reply, Scalar};
use euthergate::secrets::{constant_time_eq, encode_secret, hash_token, random_secret};

fn state(secure: bool) -> AppState {
    AppState::new("gate", Some("oxide-secret"), secure, "s-e_ss10n".to_string())
}

fn with_cookie(text: &'static str) -> HeaderMap {
    let mut headers = HeaderMap::new();
    headers.insert("Cookie", HeaderValue::from_static(text));
    headers
}

fn single_text(reply: &Reply) -> (&'static str, String) {
    match &reply.body {
        Body::Object(members) if members.len() == 1 => match &members[0].value {
            Scalar::Text(text) => (members[0].name, text.clone()),
            _ => panic!("not a text"),
        },
        _ => panic!("not one member"),
    }
}

#[test]
fn constant_time_comparison_handles_equal_and_different_values() {
    assert!(constant_time_eq(b"same", b"same"));
    assert!(!constant_time_eq(b"same", b"diff"));
    assert!(!constant_time_eq(b"short", b"longer"));
}

#[test]
fn token_hash_is_stable_and_not_plaintext() {
    assert_eq!(hash_token("gate"), hash_token("gate"));
    assert_ne!(hash_token("gate"), hash_token("other"));
}

#[test]
fn trusted_proxy_token_must_be_configured_and_match() {
    let expected = hash_token("oxide-secret");
    let mut headers = HeaderMap::new();
    headers.insert(PROXY_AUTH_HEADER, HeaderValue::from_static("wrong"));
    assert!(!proxy_token_authenticated(&headers, Some(&expected)));
    headers.insert(PROXY_AUTH_HEADER, HeaderValue::from_static("oxide-secret"));
    assert!(proxy_token_authenticated(&headers, Some(&expected)));
    assert!(!proxy_token_authenticated(&headers, None));
}

#[test]
fn comparison_looks_at_every_byte() {
    assert!(constant_time_eq(b"", b""));
    assert!(!constant_time_eq(b"", b"a"));
    let base = vec![7u8; 64];
    for at in 0..64 {
        for bit in 0..8 {
            let mut other = base.clone();
            other[at] ^= 1 << bit;
            assert!(!constant_time_eq(&base, &other));
        }
    }
}

#[test]
fn token_hash_is_sha256() {
    let digest = hash_token("abc");
    assert_eq!(digest[0], 0xba);
    assert_eq!(digest[1], 0x78);
    assert_eq!(digest[30], 0x15);
    assert_eq!(digest[31], 0xad);
    assert_eq!(hash_token("")[0], 0xe3);
}

#[test]
fn secrets_are_url_safe_base64_without_padding() {
    assert_eq!(encode_secret(&vec![]), "");
    assert_eq!(encode_secret(&b"hello internet~".to_vec()), "aGVsbG8gaW50ZXJuZXR-");
    assert_eq!(encode_secret(&vec![250, 251, 252, 253, 254, 255]), "-vv8_f7_");
    assert_eq!(encode_secret(&vec![0, 16, 131, 16]), "ABCDEA");
    assert_eq!(encode_secret(&vec![255]), "_w");
}

#[test]
fn drawn_secrets_have_their_length_and_differ() {
    let first = random_secret(32);
    let second = random_secret(32);
    assert_eq!(first.len(), 43);
    assert_eq!(second.len(), 43);
    assert_ne!(first, second);
    assert_eq!(random_secret(24).len(), 32);
    assert_eq!(random_secret(0), "");
    assert!(first.chars().all(|c| c.is_ascii_alphanumeric() || c == '-' || c == '_'));
}

#[test]
fn headers_are_found_in_any_case_and_only_as_text() {
    let mut headers = HeaderMap::new();
    headers.insert("X-EutherGate-Proxy-Token", HeaderValue::from_static("one"));
    headers.append("x-euthergate-proxy-token", HeaderValue::from_static("two"));
    assert_eq!(read_header(&headers, "x-euthergate-proxy-token"), Some("one"));
    assert_eq!(read_header(&headers, "X-EUTHERGATE-PROXY-TOKEN"), Some("one"));
    assert_eq!(read_header(&headers, "cookie"), None);
    assert_eq!(read_header(&headers, "not a name"), None);
    headers.insert("cookie", HeaderValue::from_bytes(b"a=\xff").unwrap());
    assert_eq!(read_header(&headers, "cookie"), None);
    headers.insert("cookie", HeaderValue::from_bytes(b"a=\tb~").unwrap());
    assert_eq!(read_header(&headers, "cookie"), Some("a=\tb~"));
}

#[test]
fn session_is_found_among_other_cookies() {
    assert_eq!(find_session("euthergate_session=abc"), Some("abc"));
    assert_eq!(find_session("a=1; euthergate_session=abc; b=2"), Some("abc"));
    assert_eq!(find_session(" euthergate_session=a=b "), Some("a=b"));
    assert_eq!(find_session("euthergate_session=one; euthergate_session=two"), Some("one"));
    assert_eq!(find_session("euthergate_session=; x"), Some(""));
    assert_eq!(find_session("euthergate_session; a=1"), None);
    assert_eq!(find_session("xeuthergate_session=abc"), None);
    assert_eq!(find_session("euthergate_session =abc"), None);
    assert_eq!(find_session(""), None);
    assert_eq!(find_session(";;;"), None);
}

#[test]
fn cookie_opens_the_gateway_only_with_the_session() {
    let state = state(false);
    assert!(cookie_authenticated(&with_cookie("euthergate_session=s-e_ss10n"), &state));
    assert!(cookie_authenticated(&with_cookie("k=v; euthergate_session=s-e_ss10n"), &state));
    assert!(cookie_authenticated(
        &with_cookie("a=b; euthergate_session=s-e_ss10n; theme=dark"),
        &state
    ));
    assert!(cookie_authenticated(
        &with_cookie("euthergate_session=s-e_ss10n; theme=dark; lang=en"),
        &state
    ));
    assert!(!cookie_authenticated(
        &with_cookie("a=b; euthergate_session=another; theme=dark"),
        &state
    ));
    assert!(!cookie_authenticated(&with_cookie("euthergate_session=s-e_ss10"), &state));
    assert!(!cookie_authenticated(
        &with_cookie("euthergate_session=wrong; euthergate_session=s-e_ss10n"),
        &state
    ));
    assert!(!cookie_authenticated(&HeaderMap::new(), &state));
}

#[test]
fn modes_name_how_a_request_is_authenticated() {
    let state = state(false);
    let mut headers = HeaderMap::new();
    assert_eq!(authentication_mode(&headers, &state), "none");
    assert!(!is_authenticated(&headers, &state));
    assert!(!status(&headers, &state).authenticated);
    headers.insert("cookie", HeaderValue::from_static("euthergate_session=s-e_ss10n"));
    assert_eq!(authentication_mode(&headers, &state), "gate_cookie");
    assert!(is_authenticated(&headers, &state));
    headers.insert(PROXY_AUTH_HEADER, HeaderValue::from_static("oxide-secret"));
    assert_eq!(authentication_mode(&headers, &state), "eutheroxide_proxy");
    let told = status(&headers, &state);
    assert!(told.authenticated && told.terminal_ready);
    assert_eq!(told.auth_mode, "eutheroxide_proxy");
}

#[test]
fn without_a_proxy_token_no_proxy_is_trusted() {
    let state = AppState::new("gate", None, false, "s".to_string());
    let mut headers = HeaderMap::new();
    headers.insert(PROXY_AUTH_HEADER, HeaderValue::from_static("oxide-secret"));
    assert!(!is_authenticated(&headers, &state));
}

#[test]
fn protected_endpoints_refuse_strangers() {
    let state = state(false);
    let stranger = HeaderMap::new();
    let guest = with_cookie("euthergate_session=s-e_ss10n");
    for endpoint in [
        Endpoint::DesktopStatus,
        Endpoint::DesktopStart,
        Endpoint::DesktopStop,
        Endpoint::DesktopLaunchTerminal,
        Endpoint::TerminalSocket,
        Endpoint::DesktopSocket,
    ] {
        let refusal = refuse(endpoint, &stranger, &state).unwrap();
        assert_eq!(refusal.status, 401);
        assert!(refusal.set_cookie.is_none());
        assert!(matches!(refusal.body, Body::Empty));
        assert!(refuse(endpoint, &guest, &state).is_none());
    }
    for endpoint in [Endpoint::Health, Endpoint::Status, Endpoint::Login, Endpoint::Logout] {
        assert!(refuse(endpoint, &stranger, &state).is_none());
    }
}

#[test]
fn login_with_the_token_sets_the_session_cookie() {
    let reply = login(&state(false), "gate");
    assert_eq!(reply.status, 200);
    assert_eq!(
        reply.set_cookie.as_deref(),
        Some("euthergate_session=s-e_ss10n; Path=/; HttpOnly; SameSite=Strict; Max-Age=43200")
    );
    match reply.body {
        Body::Object(members) => {
            assert_eq!(members.len(), 1);
            assert_eq!(members[0].name, "authenticated");
            assert!(matches!(members[0].value, Scalar::Bool(true)));
        }
        _ => panic!("no object"),
    }
    let secure = login(&state(true), "gate").set_cookie.unwrap();
    assert!(secure.ends_with("; Max-Age=43200; Secure"));
}

#[test]
fn login_with_another_token_is_refused() {
    for token in ["", "Gate", "gate ", "oxide-secret"] {
        let reply = login(&state(true), token);
        assert_eq!(reply.status, 401);
        assert!(reply.set_cookie.is_none());
        assert_eq!(single_text(&reply), ("error", "invalid_token".to_string()));
    }
}

#[test]
fn logout_takes_the_cookie_back() {
    let reply = logout();
    assert_eq!(reply.status, 204);
    assert_eq!(
        reply.set_cookie.as_deref(),
        Some("euthergate_session=; Path=/; HttpOnly; SameSite=Strict; Max-Age=0")
    );
    assert!(matches!(reply.body, Body::Empty));
}

#[test]
fn login_cookie_opens_and_logout_cookie_closes() {
    let state = AppState::open("gate", None, true);
    let pair = |cookie: Option<String>| cookie.unwrap().split(';').next().unwrap().to_string();
    for reply in [login(&state, "gate"), logout()] {
        assert!(HeaderValue::from_str(&reply.set_cookie.unwrap()).unwrap().to_str().is_ok());
    }
    let kept = pair(login(&state, "gate").set_cookie);
    assert_eq!(kept.len(), AUTH_COOKIE.len() + 1 + 43);
    let mut headers = HeaderMap::new();
    headers.insert("cookie", HeaderValue::from_str(&kept).unwrap());
    assert!(is_authenticated(&headers, &state));
    headers.insert("cookie", HeaderValue::from_str(&format!("a=b; {kept}")).unwrap());
    assert!(is_authenticated(&headers, &state));
    headers.insert("cookie", HeaderValue::from_str(&pair(logout().set_cookie)).unwrap());
    assert!(!is_authenticated(&headers, &state));
}

#[test]
fn health_is_ok() {
    let reply = health();
    assert_eq!(reply.status, 200);
    assert_eq!(single_text(&reply), ("status", "ok".to_string()));
}
