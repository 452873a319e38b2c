//! Who may use the gateway: the login token, the session cookie and the token of a trusted proxy.

use crate::reply::{Body, Reply, Scalar, NO_CONTENT, OK, UNAUTHORIZED};
use crate::secrets::{constant_time_eq, hash_token, random_secret};
use crate::text::{characters, find_from, same_text, trim};
use axum::http::header::ToStrError;
use axum::http::{HeaderMap, HeaderValue};
use vstd::prelude::*;
use vstd::string::*;
use vstd::utf8::*;

verus! {

/// The name of the session cookie.
pub const AUTH_COOKIE: &'static str = "euthergate_session";

/// The header that a trusted proxy sends its token in.
pub const PROXY_AUTH_HEADER: &'static str = "x-euthergate-proxy-token";

/// The header that a browser sends its cookies in.
pub const COOKIE_HEADER: &'static str = "cookie";

/// The headers of a request, as `axum` hands them over.
#[verifier::external_type_specification]
#[verifier::external_body]
#[verifier::reject_recursive_types(T)]
pub struct ExHeaderMap<T>(axum::http::HeaderMap<T>);

/// The value of a header.
#[verifier::external_type_specification]
#[verifier::external_body]
pub struct ExHeaderValue(axum::http::HeaderValue);

/// The error of a header value that is no text.
#[verifier::external_type_specification]
#[verifier::external_body]
pub struct ExToStrError(axum::http::header::ToStrError);

/// The header names of a request, in lower case, each with the bytes of its first value.
pub uninterp spec fn header_fields(headers: axum::http::HeaderMap) -> Map<Seq<char>, Seq<u8>>;

/// The bytes of a header value.
pub uninterp spec fn value_bytes(value: axum::http::HeaderValue) -> Seq<u8>;

/// Calls `HeaderMap::get`: the first value under a name, whatever the case of its letters, or
/// `None` where the request has no such header.
#[verifier::external_body]
fn first_value<'a>(headers: &'a HeaderMap, name: &str) -> (value: Option<&'a HeaderValue>)
    ensures
        value is Some <==> header_fields(*headers).contains_key(crate::text::ascii_lower(name@)),
        value matches Some(value) ==> value_bytes(*value) == header_fields(
            *headers,
        )[crate::text::ascii_lower(name@)],
{
    headers.get(name)
}

/// Whether every byte is a tab or a visible ASCII character or a space.
pub open spec fn is_visible(bytes: Seq<u8>) -> bool {
    forall|i: int| 0 <= i < bytes.len() ==> 32 <= #[trigger] bytes[i] < 127 || bytes[i] == 9
}

/// The text that ASCII bytes write.
pub open spec fn ascii_text(bytes: Seq<u8>) -> Seq<char> {
    bytes.map_values(|b: u8| b as char)
}

/// Calls `HeaderValue::to_str`: the value as text where it holds only tabs and the ASCII
/// characters from the space to the tilde, an error where it holds anything else.
#[verifier::external_body]
fn value_text(value: &HeaderValue) -> (text: Result<&str, ToStrError>)
    ensures
        match text {
            Ok(text) => is_visible(value_bytes(*value)) && text@ == ascii_text(value_bytes(*value)),
            Err(_) => !is_visible(value_bytes(*value)),
        },
{
    value.to_str()
}

/// The text of the first header of that name; `None` where there is none or it is no text.
pub open spec fn header_text(headers: HeaderMap, name: Seq<char>) -> Option<Seq<char>> {
    let fields = header_fields(headers);
    let key = crate::text::ascii_lower(name);
    if fields.contains_key(key) && is_visible(fields[key]) {
        Some(ascii_text(fields[key]))
    } else {
        None
    }
}

/// The text of the first header of that name.
pub fn read_header<'a>(headers: &'a HeaderMap, name: &str) -> (text: Option<&'a str>)
    ensures
        match text {
            Some(text) => header_text(*headers, name@) == Some(text@),
            None => header_text(*headers, name@) is None,
        },
{
    match first_value(headers, name) {
        Some(value) => match value_text(value) {
            Ok(text) => Some(text),
            Err(_) => None,
        },
        None => None,
    }
}

/// What the gateway keeps to decide who may use it.
pub struct AppState {
    /// The digest of the login token.
    pub token_hash: [u8; 32],
    /// The value of the session cookie.
    pub auth_session: String,
    /// Whether browsers may send the cookie over secure connections only.
    pub secure_cookie: bool,
    /// The digest of the proxy's token, where there is a trusted proxy.
    pub proxy_token_hash: Option<[u8; 32]>,
}

/// Whether the text of the proxy header, if there is one, is the token with the expected digest.
pub open spec fn proxy_spec(text: Option<Seq<char>>, expected: Option<Seq<u8>>) -> bool {
    match (text, expected) {
        (Some(text), Some(expected)) => crate::secrets::token_digest(text) == expected,
        _ => false,
    }
}

/// The bytes of an expected digest.
pub open spec fn digest_view(expected: Option<&[u8; 32]>) -> Option<Seq<u8>> {
    match expected {
        Some(digest) => Some(digest@),
        None => None,
    }
}

/// Checks the text of a proxy header against the expected digest.
pub fn proxy_text_authenticated(text: Option<&str>, expected: Option<&[u8; 32]>) -> (yes: bool)
    ensures
        yes == proxy_spec(
            (match text {
                Some(text) => Some(text@),
                None => None,
            }),
            digest_view(expected),
        ),
{
    match expected {
        Some(expected) => match text {
            Some(text) => {
                let digest = hash_token(text);
                constant_time_eq(digest.as_slice(), expected.as_slice())
            },
            None => false,
        },
        None => false,
    }
}

/// Whether a request carries the token of the trusted proxy.
pub fn proxy_token_authenticated(headers: &HeaderMap, expected: Option<&[u8; 32]>) -> (yes: bool)
    ensures
        yes == proxy_spec(header_text(*headers, PROXY_AUTH_HEADER@), digest_view(expected)),
{
    proxy_text_authenticated(read_header(headers, PROXY_AUTH_HEADER), expected)
}

/// The value in a `name=value` pair whose name is that of the session cookie.
pub open spec fn pair_value(pair: Seq<char>) -> Option<Seq<char>> {
    let n = crate::text::prefix_len(pair, '=') as int;
    if n < pair.len() && pair.take(n) == AUTH_COOKIE@ {
        Some(pair.skip(n + 1))
    } else {
        None
    }
}

/// The value of the first of some cookies that is a session cookie.
pub open spec fn first_session(parts: Seq<Seq<char>>) -> Option<Seq<char>>
    decreases parts.len(),
{
    if parts.len() == 0 {
        None
    } else {
        match pair_value(crate::text::trimmed(parts[0])) {
            Some(value) => Some(value),
            None => first_session(parts.drop_first()),
        }
    }
}

/// The session that a cookie header gives: its cookies are separated by semicolons.
pub open spec fn session_of(cookies: Seq<char>) -> Option<Seq<char>> {
    first_session(crate::text::split_on(cookies, ';'))
}

fn read_pair(pair: &str) -> (value: Option<&str>)
    ensures
        match value {
            Some(value) => pair_value(pair@) == Some(value@),
            None => pair_value(pair@) is None,
        },
{
    let list = characters(pair);
    let at: usize = find_from(&list, 0, '=');
    assert(list@.skip(0) =~= pair@);
    if at < list.len() && same_text(pair.substring_char(0, at), AUTH_COOKIE) {
        assert(pair@.subrange(0, at as int) =~= pair@.take(at as int));
        assert(pair@.subrange(at + 1, pair@.len() as int) =~= pair@.skip(at + 1));
        Some(pair.substring_char(at + 1, list.len()))
    } else {
        assert(at < list.len() ==> pair@.subrange(0, at as int) =~= pair@.take(at as int));
        None
    }
}

/// Finds the session in a cookie header.
pub fn find_session(cookies: &str) -> (value: Option<&str>)
    ensures
        match value {
            Some(value) => session_of(cookies@) == Some(value@),
            None => session_of(cookies@) is None,
        },
{
    let list = characters(cookies);
    let mut from: usize = 0;
    assert(cookies@.skip(0) =~= cookies@);
    loop
        invariant
            list@ == cookies@,
            from <= list.len(),
            session_of(cookies@) == session_of(cookies@.skip(from as int)),
        decreases list.len() - from,
    {
        let at: usize = find_from(&list, from, ';');
        let part = cookies.substring_char(from, at);
        let ghost rest = cookies@.skip(from as int);
        let ghost parts = crate::text::split_on(rest, ';');
        proof {
            assert(part@ =~= rest.take(at - from));
            if at < list.len() {
                assert(rest.skip(at - from + 1) =~= cookies@.skip(at + 1));
                assert(parts.drop_first() =~= crate::text::split_on(cookies@.skip(at + 1), ';'));
            } else {
                assert(part@ =~= rest);
                assert(first_session(parts.drop_first()) is None);
            }
            assert(parts[0] == part@);
        }
        match read_pair(trim(part)) {
            Some(value) => return Some(value),
            None => {},
        }
        if at == list.len() {
            return None;
        }
        from = at + 1;
    }
}

/// Checks the text of a cookie header against the session.
pub fn cookie_text_authenticated(cookies: Option<&str>, session: &str) -> (yes: bool)
    ensures
        yes == (match cookies {
            Some(cookies) => session_of(cookies@) == Some(session@),
            None => false,
        }),
{
    match cookies {
        Some(cookies) => match find_session(cookies) {
            Some(value) => {
                proof {
                    if encode_utf8(value@) == encode_utf8(session@) {
                        crate::text::lemma_utf8_injective(value@, session@);
                    }
                }
                constant_time_eq(value.as_bytes(), session.as_bytes())
            },
            None => false,
        },
        None => false,
    }
}

/// Whether the cookies of a request hold the session.
pub open spec fn cookie_spec(headers: HeaderMap, session: Seq<char>) -> bool {
    match header_text(headers, COOKIE_HEADER@) {
        Some(cookies) => session_of(cookies) == Some(session),
        None => false,
    }
}

/// Whether a request carries the session cookie.
pub fn cookie_authenticated(headers: &HeaderMap, state: &AppState) -> (yes: bool)
    ensures
        yes == cookie_spec(*headers, state.auth_session@),
{
    cookie_text_authenticated(read_header(headers, COOKIE_HEADER), state.auth_session.as_str())
}

/// The bytes of the digest of the proxy's token.
pub open spec fn proxy_digest(state: AppState) -> Option<Seq<u8>> {
    match state.proxy_token_hash {
        Some(digest) => Some(digest@),
        None => None,
    }
}

/// Whether the trusted proxy vouches for a request.
pub open spec fn from_proxy(headers: HeaderMap, state: AppState) -> bool {
    proxy_spec(header_text(headers, PROXY_AUTH_HEADER@), proxy_digest(state))
}

/// Whether a request may use the gateway: the proxy vouches for it or it carries the session.
pub open spec fn admitted(headers: HeaderMap, state: AppState) -> bool {
    from_proxy(headers, state) || cookie_spec(headers, state.auth_session@)
}

/// How a request is authenticated.
pub open spec fn mode_spec(headers: HeaderMap, state: AppState) -> Seq<char> {
    if from_proxy(headers, state) {
        "eutheroxide_proxy"@
    } else if cookie_spec(headers, state.auth_session@) {
        "gate_cookie"@
    } else {
        "none"@
    }
}

/// How a request is authenticated: `eutheroxide_proxy`, `gate_cookie` or `none`.
pub fn authentication_mode(headers: &HeaderMap, state: &AppState) -> (mode: &'static str)
    ensures
        mode@ == mode_spec(*headers, *state),
{
    if proxy_token_authenticated(headers, state.proxy_token_hash.as_ref()) {
        return "eutheroxide_proxy";
    }
    if cookie_authenticated(headers, state) {
        "gate_cookie"
    } else {
        "none"
    }
}

/// Whether a request may use the gateway.
pub fn is_authenticated(headers: &HeaderMap, state: &AppState) -> (yes: bool)
    ensures
        yes == admitted(*headers, *state),
{
    proof {
        lemma_modes_differ();
    }
    !same_text(authentication_mode(headers, state), "none")
}

proof fn lemma_modes_differ()
    ensures
        "eutheroxide_proxy"@ != "none"@,
        "gate_cookie"@ != "none"@,
{
    reveal_strlit("eutheroxide_proxy");
    reveal_strlit("gate_cookie");
    reveal_strlit("none");
    assert("eutheroxide_proxy"@.len() != "none"@.len());
    assert("gate_cookie"@.len() != "none"@.len());
}

/// The parts of the gateway that requests address.
#[derive(Clone, Copy, Debug, PartialEq, Eq, Structural)]
pub enum Endpoint {
    Health,
    Status,
    Login,
    Logout,
    DesktopStatus,
    DesktopStart,
    DesktopStop,
    DesktopLaunchTerminal,
    TerminalSocket,
    DesktopSocket,
}

/// Whether anyone may address an endpoint.
pub open spec fn is_open(endpoint: Endpoint) -> bool {
    endpoint is Health || endpoint is Status || endpoint is Login || endpoint is Logout
}

/// Turns a request away that may not address the endpoint; `None` where it may.
pub fn refuse(endpoint: Endpoint, headers: &HeaderMap, state: &AppState) -> (refusal: Option<Reply>)
    ensures
        refusal is Some <==> !is_open(endpoint) && !admitted(*headers, *state),
        refusal matches Some(reply) ==> reply@ == crate::reply::empty_reply(UNAUTHORIZED),
{
    let open: bool = match endpoint {
        Endpoint::Health => true,
        Endpoint::Status => true,
        Endpoint::Login => true,
        Endpoint::Logout => true,
        _ => false,
    };
    if open || is_authenticated(headers, state) {
        None
    } else {
        Some(Reply::empty(UNAUTHORIZED))
    }
}

/// How a request stands with the gateway.
#[derive(Debug)]
pub struct StatusResponse {
    pub authenticated: bool,
    pub terminal_ready: bool,
    pub auth_mode: &'static str,
}

/// Tells a request how it is authenticated.
pub fn status(headers: &HeaderMap, state: &AppState) -> (status: StatusResponse)
    ensures
        status.authenticated == admitted(*headers, *state),
        status.terminal_ready,
        status.auth_mode@ == mode_spec(*headers, *state),
{
    let auth_mode = authentication_mode(headers, state);
    proof {
        lemma_modes_differ();
    }
    StatusResponse { authenticated: !same_text(auth_mode, "none"), terminal_ready: true, auth_mode }
}

/// The cookie that a login sets.
pub open spec fn session_cookie(session: Seq<char>, secure: bool) -> Seq<char> {
    AUTH_COOKIE@ + "="@ + session + "; Path=/; HttpOnly; SameSite=Strict; Max-Age=43200"@ + (
    if secure {
        "; Secure"@
    } else {
        seq![]
    })
}

fn make_cookie(session: &str, secure: bool) -> (cookie: String)
    ensures
        cookie@ == session_cookie(session@, secure),
{
    let mut cookie = AUTH_COOKIE.to_owned();
    cookie.append("=");
    cookie.append(session);
    cookie.append("; Path=/; HttpOnly; SameSite=Strict; Max-Age=43200");
    if secure {
        cookie.append("; Secure");
    }
    assert(cookie@ =~= session_cookie(session@, secure));
    cookie
}

/// Whether a token is the login token, by its digest.
pub open spec fn accepts(state: AppState, token: Seq<char>) -> bool {
    crate::secrets::token_digest(token) == state.token_hash@
}

/// The reply to a login: the session cookie for the right token, a refusal for any other.
pub open spec fn login_spec(
    accepted: bool,
    session: Seq<char>,
    secure: bool,
) -> crate::reply::ReplyView {
    if accepted {
        crate::reply::ReplyView {
            set_cookie: Some(session_cookie(session, secure)),
            ..crate::reply::single_member(
                OK,
                "authenticated"@,
                crate::reply::ScalarView::Bool(true),
            )
        }
    } else {
        crate::reply::single_member(
            UNAUTHORIZED,
            "error"@,
            crate::reply::ScalarView::Text("invalid_token"@),
        )
    }
}

/// Answers a login whose token was found right or wrong.
pub fn answer_login(accepted: bool, state: &AppState) -> (reply: Reply)
    ensures
        reply@ == login_spec(accepted, state.auth_session@, state.secure_cookie),
{
    if accepted {
        let mut reply = Reply::single(OK, "authenticated", Scalar::Bool(true));
        reply.set_cookie = Some(make_cookie(state.auth_session.as_str(), state.secure_cookie));
        reply
    } else {
        Reply::error(UNAUTHORIZED, "invalid_token".to_owned())
    }
}

/// Logs in with a token.
pub fn login(state: &AppState, token: &str) -> (reply: Reply)
    ensures
        reply@ == login_spec(accepts(*state, token@), state.auth_session@, state.secure_cookie),
{
    let digest = hash_token(token);
    answer_login(constant_time_eq(digest.as_slice(), state.token_hash.as_slice()), state)
}

/// The cookie that a logout sets.
pub open spec fn logout_cookie() -> Seq<char> {
    AUTH_COOKIE@ + "=; Path=/; HttpOnly; SameSite=Strict; Max-Age=0"@
}

/// Logs out: the browser is told to forget the session cookie.
pub fn logout() -> (reply: Reply)
    ensures
        reply@ == (crate::reply::ReplyView {
            set_cookie: Some(logout_cookie()),
            ..crate::reply::empty_reply(NO_CONTENT)
        }),
{
    let mut cookie = AUTH_COOKIE.to_owned();
    cookie.append("=; Path=/; HttpOnly; SameSite=Strict; Max-Age=0");
    Reply { status: NO_CONTENT, set_cookie: Some(cookie), body: Body::Empty }
}

impl AppState {
    /// The session holds only characters that a cookie carries as they are.
    pub open spec fn well_formed(&self) -> bool {
        self.auth_session@.len() > 0 && crate::secrets::all_url_safe(self.auth_session@)
    }

    /// The state of a gateway with a login token, perhaps a proxy token, and a session.
    pub fn new(
        token: &str,
        proxy_token: Option<&str>,
        secure_cookie: bool,
        auth_session: String,
    ) -> (state: AppState)
        ensures
            state.token_hash@ == crate::secrets::token_digest(token@),
            state.auth_session == auth_session,
            state.secure_cookie == secure_cookie,
            match proxy_token {
                Some(proxy) => proxy_digest(state) == Some(crate::secrets::token_digest(proxy@)),
                None => proxy_digest(state) is None,
            },
    {
        let proxy_token_hash = match proxy_token {
            Some(proxy) => Some(hash_token(proxy)),
            None => None,
        };
        AppState { token_hash: hash_token(token), auth_session, secure_cookie, proxy_token_hash }
    }

    /// The state of a gateway that starts, with a session of its own.
    pub fn open(token: &str, proxy_token: Option<&str>, secure_cookie: bool) -> (state: AppState)
        ensures
            state.well_formed(),
            crate::secrets::is_secret(state.auth_session@, 32),
            state.token_hash@ == crate::secrets::token_digest(token@),
            state.secure_cookie == secure_cookie,
            match proxy_token {
                Some(proxy) => proxy_digest(state) == Some(crate::secrets::token_digest(proxy@)),
                None => proxy_digest(state) is None,
            },
    {
        let session = random_secret(32);
        proof {
            crate::secrets::law_secret_is_url_safe(session@, 32);
        }
        AppState::new(token, proxy_token, secure_cookie, session)
    }
}

/// The mode that a request is told is `none` exactly where the request may not use the gateway.
pub proof fn law_status_tells_who_is_admitted(headers: HeaderMap, state: AppState)
    ensures
        admitted(headers, state) <==> mode_spec(headers, state) != "none"@,
{
    lemma_modes_differ();
}

/// Without a configured proxy token no proxy header is trusted, whatever it holds.
pub proof fn law_no_proxy_without_token(headers: HeaderMap, state: AppState)
    requires
        state.proxy_token_hash is None,
    ensures
        !from_proxy(headers, state),
        admitted(headers, state) == cookie_spec(headers, state.auth_session@),
{
}

/// The token that the gateway was set up with always logs in.
pub proof fn law_configured_token_logs_in(state: AppState, token: Seq<char>)
    requires
        state.token_hash@ == crate::secrets::token_digest(token),
    ensures
        login_spec(accepts(state, token), state.auth_session@, state.secure_cookie).set_cookie
            == Some(session_cookie(state.auth_session@, state.secure_cookie)),
{
}

/// The proxy's token in the proxy header opens the gateway to a request.
pub proof fn law_proxy_token_opens_the_gateway(
    headers: HeaderMap,
    state: AppState,
    proxy: Seq<char>,
)
    requires
        proxy_digest(state) == Some(crate::secrets::token_digest(proxy)),
        header_text(headers, PROXY_AUTH_HEADER@) == Some(proxy),
    ensures
        mode_spec(headers, state) == "eutheroxide_proxy"@,
        admitted(headers, state),
{
}

/// What a login answers tells nothing of the token but whether it is right.
pub proof fn law_login_reply_hides_the_token(state: AppState, first: Seq<char>, second: Seq<char>)
    requires
        accepts(state, first) == accepts(state, second),
    ensures
        login_spec(accepts(state, first), state.auth_session@, state.secure_cookie) == login_spec(
            accepts(state, second),
            state.auth_session@,
            state.secure_cookie,
        ),
{
}

/// The pair that a browser sends back of a cookie that was set: all before the first semicolon.
pub open spec fn kept_pair(set_cookie: Seq<char>) -> Seq<char> {
    crate::text::split_on(set_cookie, ';')[0]
}

proof fn lemma_cookie_name()
    ensures
        AUTH_COOKIE@.len() == 18,
        crate::secrets::all_url_safe(AUTH_COOKIE@),
{
    reveal_strlit("euthergate_session");
    let good = |c: char| crate::secrets::is_url_safe(c);
    assert(crate::text::holds_up_to(AUTH_COOKIE@, 18, good)) by {
        reveal_with_fuel(crate::text::holds_up_to, 19);
    }
    crate::text::lemma_holds_up_to(AUTH_COOKIE@, 18, good);
    assert forall|i: int| 0 <= i < AUTH_COOKIE@.len() implies crate::secrets::is_url_safe(
        #[trigger] AUTH_COOKIE@[i],
    ) by {
        assert(good(AUTH_COOKIE@[i]));
    }
}

/// The name of the session cookie with a value.
pub open spec fn named_pair(value: Seq<char>) -> Seq<char> {
    AUTH_COOKIE@.push('=') + value
}

/// Whether a cookie can carry a value as it is: without a semicolon, and without whitespace at its
/// end.
pub open spec fn is_cookie_value(value: Seq<char>) -> bool {
    &&& forall|i: int| 0 <= i < value.len() ==> #[trigger] value[i] != ';'
    &&& value.len() > 0 ==> !crate::text::is_whitespace(value.last())
}

proof fn lemma_url_safe_value(value: Seq<char>)
    requires
        crate::secrets::all_url_safe(value),
    ensures
        is_cookie_value(value),
{
    if value.len() > 0 {
        assert(crate::secrets::is_url_safe(value[value.len() - 1]));
    }
}

proof fn lemma_named_pair(value: Seq<char>)
    requires
        is_cookie_value(value),
    ensures
        forall|i: int| 0 <= i < named_pair(value).len() ==> #[trigger] named_pair(value)[i] != ';',
        pair_value(named_pair(value)) == Some(value),
        crate::text::trimmed(named_pair(value)) == named_pair(value),
{
    lemma_cookie_name();
    let pair = named_pair(value);
    assert forall|i: int| 0 <= i < pair.len() implies #[trigger] pair[i] != ';' by {
        if i < 18 {
            assert(pair[i] == AUTH_COOKIE@[i]);
        } else if i > 18 {
            assert(pair[i] == value[i - 19]);
        }
    }
    assert forall|i: int| 0 <= i < 18 implies #[trigger] pair[i] != '=' by {
        assert(pair[i] == AUTH_COOKIE@[i]);
    }
    crate::text::lemma_prefix_len(pair, '=', 18);
    assert(pair.take(18) =~= AUTH_COOKIE@);
    assert(pair.skip(19) =~= value);
    assert(pair[0] == AUTH_COOKIE@[0]);
    assert(!crate::text::is_whitespace(pair[0]));
    if value.len() > 0 {
        assert(pair.last() == value.last());
    }
    crate::text::lemma_trimmed_fixed(pair);
}

proof fn lemma_kept_pair(set_cookie: Seq<char>, value: Seq<char>, rest: Seq<char>)
    requires
        is_cookie_value(value),
        set_cookie == named_pair(value).push(';') + rest,
    ensures
        kept_pair(set_cookie) == named_pair(value),
{
    lemma_named_pair(value);
    crate::text::lemma_split_concat(named_pair(value), rest, ';');
    crate::text::lemma_split_single(named_pair(value), ';');
}

proof fn lemma_first_session(p: Seq<Seq<char>>, q: Seq<Seq<char>>)
    ensures
        first_session(p + q) == match first_session(p) {
            Some(value) => Some(value),
            None => first_session(q),
        },
    decreases p.len(),
{
    if p.len() == 0 {
        assert(p + q =~= q);
    } else {
        assert((p + q).drop_first() =~= p.drop_first() + q);
        lemma_first_session(p.drop_first(), q);
    }
}

proof fn lemma_spaced(cookies: Seq<char>)
    ensures
        session_of(seq![' '] + cookies) == session_of(cookies),
{
    let spaced = seq![' '] + cookies;
    let n = crate::text::prefix_len(cookies, ';') as int;
    crate::text::lemma_prefix_len_is_first(cookies, ';');
    assert(spaced.drop_first() =~= cookies);
    assert(crate::text::prefix_len(spaced, ';') == n + 1);
    let first = if n < cookies.len() {
        cookies.take(n)
    } else {
        cookies
    };
    let rest = if n < cookies.len() {
        crate::text::split_on(cookies.skip(n + 1), ';')
    } else {
        seq![]
    };
    if n < cookies.len() {
        assert(spaced.skip(n + 2) =~= cookies.skip(n + 1));
        assert(spaced.take(n + 1) =~= seq![' '] + first);
    }
    assert(crate::text::split_on(cookies, ';') =~= seq![first] + rest);
    assert(crate::text::split_on(spaced, ';') =~= seq![seq![' '] + first] + rest);
    assert((seq![' '] + first).drop_first() =~= first);
    assert((seq![first] + rest).drop_first() =~= rest);
    assert((seq![seq![' '] + first] + rest).drop_first() =~= rest);
}

proof fn lemma_joined_two(a: Seq<char>, b: Seq<char>)
    ensures
        session_of(a + "; "@ + b) == match session_of(a) {
            Some(value) => Some(value),
            None => session_of(b),
        },
{
    reveal_strlit("; ");
    let spaced = seq![' '] + b;
    assert(a + "; "@ + b =~= a.push(';') + spaced);
    crate::text::lemma_split_concat(a, spaced, ';');
    lemma_first_session(crate::text::split_on(a, ';'), crate::text::split_on(spaced, ';'));
    lemma_spaced(b);
}

proof fn lemma_no_session(cookies: Seq<Seq<char>>)
    requires
        cookies.len() > 0,
        no_session_among(cookies),
    ensures
        session_of(crate::text::joined(cookies, "; "@)) is None,
    decreases cookies.len(),
{
    assert(session_of(cookies[cookies.len() - 1]) is None);
    if cookies.len() > 1 {
        let front = cookies.drop_last();
        assert forall|i: int| 0 <= i < front.len() implies session_of(#[trigger] front[i]) is None by {
            assert(front[i] == cookies[i]);
        }
        lemma_no_session(front);
        lemma_joined_two(crate::text::joined(front, "; "@), cookies.last());
    }
}

proof fn lemma_sent_back(value: Seq<char>)
    requires
        is_cookie_value(value),
    ensures
        session_of(named_pair(value)) == Some(value),
{
    lemma_named_pair(value);
    crate::text::lemma_split_single(named_pair(value), ';');
}

proof fn lemma_found_among(before: Seq<Seq<char>>, value: Seq<char>, after: Seq<Seq<char>>)
    requires
        is_cookie_value(value),
        no_session_among(before),
    ensures
        session_of(crate::text::joined(before.push(named_pair(value)) + after, "; "@)) == Some(
            value,
        ),
    decreases after.len(),
{
    let list = before.push(named_pair(value)) + after;
    if after.len() > 0 {
        assert(list.drop_last() =~= before.push(named_pair(value)) + after.drop_last());
        lemma_found_among(before, value, after.drop_last());
        lemma_joined_two(crate::text::joined(list.drop_last(), "; "@), list.last());
    } else {
        lemma_sent_back(value);
        assert(list.drop_last() =~= before);
        if before.len() > 0 {
            lemma_no_session(before);
            lemma_joined_two(crate::text::joined(before, "; "@), named_pair(value));
        }
    }
}

proof fn lemma_session_cookie(session: Seq<char>, secure: bool)
    requires
        crate::secrets::all_url_safe(session),
    ensures
        kept_pair(session_cookie(session, secure)) == named_pair(session),
{
    let tail = "; Path=/; HttpOnly; SameSite=Strict; Max-Age=43200"@;
    reveal_strlit("=");
    reveal_strlit("; Path=/; HttpOnly; SameSite=Strict; Max-Age=43200");
    let flag = if secure {
        "; Secure"@
    } else {
        seq![]
    };
    assert(session_cookie(session, secure) =~= named_pair(session).push(';') + (tail.skip(1)
        + flag));
    lemma_url_safe_value(session);
    lemma_kept_pair(session_cookie(session, secure), session, tail.skip(1) + flag);
}

/// Whether none of some cookies is a session cookie.
pub open spec fn no_session_among(cookies: Seq<Seq<char>>) -> bool {
    forall|i: int| 0 <= i < cookies.len() ==> session_of(#[trigger] cookies[i]) is None
}

/// The cookie of a login, sent back by the browser alone, or before, behind or between other
/// cookies, opens the gateway to the request, and gives no session but the one of the gateway.
pub proof fn law_login_cookie_opens_the_gateway(
    headers: HeaderMap,
    state: AppState,
    before: Seq<Seq<char>>,
    after: Seq<Seq<char>>,
    other: Seq<char>,
)
    requires
        state.well_formed(),
        no_session_among(before),
        ({
            let pair = kept_pair(session_cookie(state.auth_session@, state.secure_cookie));
            header_text(headers, COOKIE_HEADER@) == Some(
                crate::text::joined(before.push(pair) + after, "; "@),
            )
        }),
    ensures
        cookie_spec(headers, state.auth_session@),
        admitted(headers, state),
        other != state.auth_session@ ==> !cookie_spec(headers, other),
{
    lemma_session_cookie(state.auth_session@, state.secure_cookie);
    lemma_url_safe_value(state.auth_session@);
    lemma_found_among(before, state.auth_session@, after);
}

/// The cookie of a logout, sent back by the browser, opens nothing.
pub proof fn law_logout_cookie_opens_nothing(headers: HeaderMap, state: AppState)
    requires
        state.well_formed(),
        header_text(headers, COOKIE_HEADER@) == Some(kept_pair(logout_cookie())),
    ensures
        !cookie_spec(headers, state.auth_session@),
{
    let tail = "=; Path=/; HttpOnly; SameSite=Strict; Max-Age=0"@;
    reveal_strlit("=; Path=/; HttpOnly; SameSite=Strict; Max-Age=0");
    let none = Seq::<char>::empty();
    assert(logout_cookie() =~= named_pair(none).push(';') + tail.skip(2));
    lemma_kept_pair(logout_cookie(), none, tail.skip(2));
    lemma_sent_back(none);
}

/// Whether a text can stand in a header: only the ASCII characters from the space to the tilde.
pub open spec fn is_header_text(text: Seq<char>) -> bool {
    forall|i: int| 0 <= i < text.len() ==> ' ' <= #[trigger] text[i] <= '~'
}

/// The cookies that the gateway sets can stand in a header.
pub proof fn law_cookies_are_header_text(state: AppState)
    requires
        state.well_formed(),
    ensures
        is_header_text(session_cookie(state.auth_session@, state.secure_cookie)),
        is_header_text(logout_cookie()),
{
    lemma_cookie_name();
    let good = |c: char| ' ' <= c <= '~';
    let long = "; Path=/; HttpOnly; SameSite=Strict; Max-Age=43200"@;
    let short = "=; Path=/; HttpOnly; SameSite=Strict; Max-Age=0"@;
    reveal_strlit("=");
    reveal_strlit("; Secure");
    reveal_strlit("; Path=/; HttpOnly; SameSite=Strict; Max-Age=43200");
    reveal_strlit("=; Path=/; HttpOnly; SameSite=Strict; Max-Age=0");
    assert(crate::text::holds_up_to(long, long.len(), good)) by {
        reveal_with_fuel(crate::text::holds_up_to, 52);
    }
    assert(crate::text::holds_up_to(short, short.len(), good)) by {
        reveal_with_fuel(crate::text::holds_up_to, 52);
    }
    assert(crate::text::holds_up_to("; Secure"@, 8, good)) by {
        reveal_with_fuel(crate::text::holds_up_to, 9);
    }
    crate::text::lemma_holds_up_to(long, long.len(), good);
    crate::text::lemma_holds_up_to(short, short.len(), good);
    crate::text::lemma_holds_up_to("; Secure"@, 8, good);
    let cookie = session_cookie(state.auth_session@, state.secure_cookie);
    let session = state.auth_session@;
    assert forall|i: int| 0 <= i < cookie.len() implies ' ' <= #[trigger] cookie[i] <= '~' by {
        let a = 19 + session.len();
        if i < 18 {
            assert(cookie[i] == AUTH_COOKIE@[i]);
        } else if i == 18 {
            assert(cookie[i] == "="@[0]);
        } else if i < a {
            assert(cookie[i] == session[i - 19]);
        } else if i < a + long.len() {
            assert(cookie[i] == long[i - a]);
            assert(good(long[i - a]));
        } else {
            assert(cookie[i] == "; Secure"@[i - a - long.len()]);
            assert(good("; Secure"@[i - a - long.len()]));
        }
    }
    assert forall|i: int| 0 <= i < logout_cookie().len() implies ' ' <= #[trigger] logout_cookie()[i]
        <= '~' by {
        if i < 18 {
            assert(logout_cookie()[i] == AUTH_COOKIE@[i]);
        } else {
            assert(logout_cookie()[i] == short[i - 18]);
            assert(good(short[i - 18]));
        }
    }
}

/// The text of a header is that of its bytes, each as one character, and it has one exactly if the
/// request has the header and each of its bytes is a tab or lies between the space and the tilde.
pub proof fn law_header_text_is_that_of_the_bytes(headers: HeaderMap, name: Seq<char>)
    ensures
        ({
            let fields = header_fields(headers);
            let key = crate::text::ascii_lower(name);
            let bytes = fields[key];
            let readable = fields.contains_key(key) && forall|i: int|
                0 <= i < bytes.len() ==> 32 <= #[trigger] bytes[i] <= 126 || bytes[i] == 9;
            &&& header_text(headers, name) is Some <==> readable
            &&& header_text(headers, name) matches Some(text) ==> {
                &&& text.len() == bytes.len()
                &&& forall|i: int| 0 <= i < bytes.len() ==> #[trigger] text[i] as u32 == bytes[i]
            }
        }),
{
    let bytes = header_fields(headers)[crate::text::ascii_lower(name)];
    if is_visible(bytes) {
        let text = ascii_text(bytes);
        assert forall|i: int| 0 <= i < bytes.len() implies #[trigger] text[i] as u32 == bytes[i] by {
            assert(bytes[i] < 128);
        }
    }
}

/// A proxy vouches for a request exactly if a proxy token is configured, the request has the proxy
/// header, and the SHA-256 digest of its text is that of the configured token.
pub proof fn law_proxy_vouches_only_with_its_token(headers: HeaderMap, state: AppState)
    ensures
        from_proxy(headers, state) <==> {
            &&& state.proxy_token_hash matches Some(digest)
            &&& header_text(headers, "x-euthergate-proxy-token"@) matches Some(text)
            &&& crate::secrets::sha256(encode_utf8(text)) == digest@
        },
        match state.proxy_token_hash {
            Some(digest) => proxy_digest(state) == Some(digest@),
            None => proxy_digest(state) is None,
        },
{
}

/// The text of a proxy header is right exactly if there is one, a digest is expected, and the SHA-256
/// digest of the text is that one.
pub proof fn law_proxy_text_must_match(text: Option<Seq<char>>, expected: Option<&[u8; 32]>)
    ensures
        proxy_spec(text, digest_view(expected)) <==> {
            &&& text matches Some(token)
            &&& expected matches Some(digest)
            &&& crate::secrets::sha256(encode_utf8(token)) == digest@
        },
{
}

/// A request may use the gateway exactly if the proxy vouches for it or it carries the session, and
/// is told which of the two, the proxy first.
pub proof fn law_requests_are_told_who_let_them_in(headers: HeaderMap, state: AppState)
    ensures
        admitted(headers, state) <==> from_proxy(headers, state) || cookie_spec(
            headers,
            state.auth_session@,
        ),
        from_proxy(headers, state) ==> mode_spec(headers, state) == "eutheroxide_proxy"@,
        !from_proxy(headers, state) && cookie_spec(headers, state.auth_session@) ==> mode_spec(
            headers,
            state,
        ) == "gate_cookie"@,
        !from_proxy(headers, state) && !cookie_spec(headers, state.auth_session@) ==> mode_spec(
            headers,
            state,
        ) == "none"@,
{
}

/// Anyone may ask how the gateway stands, log in and log out. The terminal and the desktop, their
/// state, their sockets and all that acts on them, are closed to those who are not let in.
pub proof fn law_only_the_entrance_is_open(endpoint: Endpoint)
    ensures
        !is_open(endpoint) <==> {
            ||| endpoint is TerminalSocket
            ||| endpoint is DesktopSocket
            ||| endpoint is DesktopStatus
            ||| endpoint is DesktopStart
            ||| endpoint is DesktopStop
            ||| endpoint is DesktopLaunchTerminal
        },
{
}

/// A login is accepted exactly if the SHA-256 digest of the token is the one that is kept. It is then
/// answered with the session cookie; otherwise it is refused, and no cookie is set.
pub proof fn law_login_needs_the_token(state: AppState, token: Seq<char>)
    ensures
        accepts(state, token) <==> crate::secrets::sha256(encode_utf8(token)) == state.token_hash@,
        ({
            let reply = login_spec(
                accepts(state, token),
                state.auth_session@,
                state.secure_cookie,
            );
            &&& accepts(state, token) ==> {
                &&& reply.status == 200
                &&& reply.set_cookie == Some(
                    session_cookie(state.auth_session@, state.secure_cookie),
                )
                &&& reply.body == crate::reply::BodyView::Object(
                    seq![("authenticated"@, crate::reply::ScalarView::Bool(true))],
                )
            }
            &&& !accepts(state, token) ==> {
                &&& reply.status == 401
                &&& reply.set_cookie is None
                &&& reply.body == crate::reply::BodyView::Object(
                    seq![("error"@, crate::reply::ScalarView::Text("invalid_token"@))],
                )
            }
        }),
{
}

/// The session cookie carries the session, whole, and is kept from scripts and from other sites; it
/// is marked secure exactly if that is asked for. A logout sets the same cookie, empty and at an end.
pub proof fn law_cookies_are_guarded(session: Seq<char>)
    ensures
        session_cookie(session, false) == "euthergate_session"@ + "="@ + session
            + "; Path=/; HttpOnly; SameSite=Strict; Max-Age=43200"@,
        session_cookie(session, true) == session_cookie(session, false) + "; Secure"@,
        logout_cookie() == "euthergate_session"@
            + "=; Path=/; HttpOnly; SameSite=Strict; Max-Age=0"@,
{
    assert(session_cookie(session, false) =~= "euthergate_session"@ + "="@ + session
        + "; Path=/; HttpOnly; SameSite=Strict; Max-Age=43200"@);
}

/// A cookie is no session cookie unless it begins, behind whitespace, with the name of the session
/// cookie and an equals sign.
pub proof fn law_other_cookies_give_no_session(cookie: Seq<char>)
    requires
        forall|i: int| 0 <= i < cookie.len() ==> #[trigger] cookie[i] != ';',
        ({
            let inner = crate::text::trimmed(cookie);
            inner.len() < 19 || inner.take(19) != "euthergate_session"@.push('=')
        }),
    ensures
        session_of(cookie) is None,
{
    lemma_cookie_name();
    crate::text::lemma_split_single(cookie, ';');
    let inner = crate::text::trimmed(cookie);
    crate::text::lemma_prefix_len_is_first(inner, '=');
    let n = crate::text::prefix_len(inner, '=') as int;
    if n < inner.len() && inner.take(n) == AUTH_COOKIE@ {
        assert(n == 18);
        assert(inner.take(19) =~= AUTH_COOKIE@.push('='));
    }
    assert(seq![cookie].drop_first().len() == 0);
    assert(first_session(seq![cookie].drop_first()) is None);
}

proof fn lemma_session_stands_there(cookies: Seq<char>, session: Seq<char>) -> (at: (int, int))
    requires
        session_of(cookies) == Some(session),
    ensures
        0 <= at.0 <= at.1 <= cookies.len(),
        at.0 == 0 || cookies[at.0 - 1] == ';',
        at.1 == cookies.len() || cookies[at.1] == ';',
        forall|i: int| at.0 <= i < at.1 ==> #[trigger] cookies[i] != ';',
        crate::text::trimmed(cookies.subrange(at.0, at.1)) == AUTH_COOKIE@.push('=') + session,
    decreases cookies.len(),
{
    let n = crate::text::prefix_len(cookies, ';') as int;
    crate::text::lemma_prefix_len_is_first(cookies, ';');
    let part = cookies.subrange(0, n);
    let parts = crate::text::split_on(cookies, ';');
    if n < cookies.len() {
        assert(cookies.take(n) =~= part);
        assert(parts.drop_first() =~= crate::text::split_on(cookies.skip(n + 1), ';'));
    } else {
        assert(cookies =~= part);
        assert(parts.drop_first().len() == 0);
        assert(first_session(parts.drop_first()) is None);
    }
    assert(parts[0] == part);
    let inner = crate::text::trimmed(part);
    match pair_value(inner) {
        Some(value) => {
            let m = crate::text::prefix_len(inner, '=') as int;
            crate::text::lemma_prefix_len_is_first(inner, '=');
            assert(inner =~= inner.take(m).push('=') + inner.skip(m + 1));
            (0, n)
        },
        None => {
            let rest = cookies.skip(n + 1);
            let at = lemma_session_stands_there(rest, session);
            assert(rest.subrange(at.0, at.1) =~= cookies.subrange(at.0 + n + 1, at.1 + n + 1));
            assert forall|i: int| at.0 + n + 1 <= i < at.1 + n + 1 implies #[trigger] cookies[i]
                != ';' by {
                assert(rest[i - n - 1] == cookies[i]);
            }
            if at.0 > 0 {
                assert(rest[at.0 - 1] == cookies[at.0 + n]);
            }
            if at.1 < rest.len() {
                assert(rest[at.1] == cookies[at.1 + n + 1]);
            }
            (at.0 + n + 1, at.1 + n + 1)
        },
    }
}

/// Nothing but the session opens the gateway to a browser: the cookies of a request that is let in
/// for its session hold it, whole and under the name of the session cookie, between two semicolons
/// or the ends, at the returned places, with nothing but whitespace around it.
pub proof fn law_only_the_session_lets_a_browser_in(headers: HeaderMap, session: Seq<char>) -> (at: (
    int,
    int,
))
    requires
        cookie_spec(headers, session),
    ensures
        ({
            &&& header_text(headers, "cookie"@) matches Some(cookies)
            &&& 0 <= at.0 <= at.1 <= cookies.len()
            &&& at.0 == 0 || cookies[at.0 - 1] == ';'
            &&& at.1 == cookies.len() || cookies[at.1] == ';'
            &&& forall|i: int| at.0 <= i < at.1 ==> #[trigger] cookies[i] != ';'
            &&& crate::text::trimmed(cookies.subrange(at.0, at.1))
                == "euthergate_session"@.push('=') + session
        }),
{
    lemma_session_stands_there(header_text(headers, COOKIE_HEADER@)->Some_0, session)
}

/// Of the cookies of a request the first session cookie counts, wherever it stands, and its value is
/// read whole: all that stands behind the name and the equals sign.
pub proof fn law_first_session_cookie_counts(
    before: Seq<Seq<char>>,
    value: Seq<char>,
    after: Seq<Seq<char>>,
)
    requires
        no_session_among(before),
        forall|i: int| 0 <= i < value.len() ==> #[trigger] value[i] != ';',
        value.len() > 0 ==> !crate::text::is_whitespace(value.last()),
    ensures
        session_of(
            crate::text::joined(
                before.push("euthergate_session"@.push('=') + value) + after,
                "; "@,
            ),
        ) == Some(value),
{
    lemma_found_among(before, value, after);
}

} // verus!
