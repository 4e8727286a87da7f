//! Local accounts and revocable sessions. Discord is used only to establish identity.
use sha2::Digest;
use vstd::prelude::*;

use crate::text::{
    canonical_positive_u64, chars_of, is_ascii_hex_digit, is_canonical_positive_u64, lower_hex,
    lower_hex_exec, split_char, split_chars, str_eq, texts, trim, trim_chars,
};

pub mod discord;
pub mod permissions;
pub mod sign_in;

verus! {

/// How long a session lasts, in seconds.
pub const SESSION_SECONDS: i64 = 604800;

/// How long a session may stay unused, in seconds.
pub const IDLE_SECONDS: i64 = 86400;

/// How long a sign-in attempt stays valid, in seconds.
pub const LOGIN_SECONDS: i64 = 600;

/// The public origin used when none is configured.
pub const DEFAULT_ORIGIN: &'static str = "http://localhost:5173";

// ---------------------------------------------------------------------------
// Parsed URLs

/// The address of a parsed URL whose host is an IP address.
pub enum UrlIp {
    V4([u8; 4]),
    V6([u16; 8]),
}

/// What the configuration reads of a parsed URL.
pub struct UrlParts {
    pub scheme: String,
    pub ip: Option<UrlIp>,
    pub host_str: Option<String>,
    pub username: String,
    pub password: Option<String>,
    pub path: String,
    pub query: Option<String>,
    pub fragment: Option<String>,
    /// The ASCII serialization of the URL's origin.
    pub origin: String,
}

/// The address of a parsed URL, as values: octets or 16-bit segments.
pub enum UrlIpView {
    V4(Seq<u8>),
    V6(Seq<u16>),
}

/// What the configuration reads of a parsed URL, as values.
pub struct UrlView {
    pub scheme: Seq<char>,
    pub ip: Option<UrlIpView>,
    pub host_str: Option<Seq<char>>,
    pub username: Seq<char>,
    pub password: Option<Seq<char>>,
    pub path: Seq<char>,
    pub query: Option<Seq<char>>,
    pub fragment: Option<Seq<char>>,
    pub origin: Seq<char>,
}

pub open spec fn opt_text(s: Option<String>) -> Option<Seq<char>> {
    match s {
        Some(t) => Some(t@),
        None => None,
    }
}

impl View for UrlParts {
    type V = UrlView;

    open spec fn view(&self) -> UrlView {
        UrlView {
            scheme: self.scheme@,
            ip: match self.ip {
                Some(UrlIp::V4(o)) => Some(UrlIpView::V4(o@)),
                Some(UrlIp::V6(g)) => Some(UrlIpView::V6(g@)),
                None => None,
            },
            host_str: opt_text(self.host_str),
            username: self.username@,
            password: opt_text(self.password),
            path: self.path@,
            query: opt_text(self.query),
            fragment: opt_text(self.fragment),
            origin: self.origin@,
        }
    }
}

/// What `url::Url::parse` makes of `text`: `None` where it refuses the text.
pub uninterp spec fn parsed_url(text: Seq<char>) -> Option<UrlView>;

/// `url::Url::parse`, with the parts the configuration reads. The result is a
/// function of the text alone; what it is for a given text is not stated here.
#[verifier::external_body]
fn parse_url(text: &str) -> (r: Option<UrlParts>)
    ensures
        match r {
            Some(parts) => parsed_url(text@) == Some(parts@),
            None => parsed_url(text@) is None,
        },
{
    let u = url::Url::parse(text).ok()?;
    let ip = match u.host() {
        Some(url::Host::Ipv4(a)) => Some(UrlIp::V4(a.octets())),
        Some(url::Host::Ipv6(a)) => Some(UrlIp::V6(a.segments())),
        _ => None,
    };
    Some(UrlParts { scheme: u.scheme().into(), ip, host_str: u.host_str().map(Into::into),
        username: u.username().into(), password: u.password().map(Into::into),
        path: u.path().into(), query: u.query().map(Into::into),
        fragment: u.fragment().map(Into::into), origin: u.origin().ascii_serialization() })
}

/// The host is this machine: `localhost`, `127.0.0.1` or `[::1]`.
pub open spec fn host_is_local(url: UrlView) -> bool {
    url.host_str == Some("localhost"@) || url.host_str == Some("127.0.0.1"@) || url.host_str
        == Some("[::1]"@)
}

/// The host is a private IPv4 address (10/8, 172.16/12, 192.168/16:
/// `Ipv4Addr::is_private`) or a unique local IPv6 address (fc00::/7:
/// `Ipv6Addr::is_unique_local`).
pub open spec fn host_is_private(url: UrlView) -> bool {
    match url.ip {
        Some(UrlIpView::V4(o)) => o[0] == 10 || (o[0] == 172 && 16 <= o[1] <= 31) || (o[0] == 192
            && o[1] == 168),
        Some(UrlIpView::V6(g)) => 0xfc00 <= g[0] <= 0xfdff,
        None => false,
    }
}

/// HTTPS is always allowed; plain HTTP only for this machine, or for a private
/// address when insecure LAN access was allowed.
pub open spec fn transport_allowed(url: UrlView, allow_lan_http: bool) -> bool {
    url.scheme == "https"@ || (url.scheme == "http"@ && (host_is_local(url) || (allow_lan_http
        && host_is_private(url))))
}

/// The URL is an origin: no credentials, the root path, no query and no fragment.
pub open spec fn is_bare_origin(url: UrlView) -> bool {
    url.username.len() == 0 && url.password is None && url.path == "/"@ && url.query is None
        && url.fragment is None
}

fn host_is_local_exec(url: &UrlParts) -> (r: bool)
    ensures
        r == host_is_local(url@),
{
    match &url.host_str {
        Some(h) => str_eq(h.as_str(), "localhost") || str_eq(h.as_str(), "127.0.0.1") || str_eq(
            h.as_str(),
            "[::1]",
        ),
        None => false,
    }
}

fn host_is_private_exec(url: &UrlParts) -> (r: bool)
    ensures
        r == host_is_private(url@),
{
    match &url.ip {
        Some(UrlIp::V4(o)) => o[0] == 10 || (o[0] == 172 && 16 <= o[1] && o[1] <= 31) || (o[0]
            == 192 && o[1] == 168),
        Some(UrlIp::V6(g)) => 0xfc00 <= g[0] && g[0] <= 0xfdff,
        None => false,
    }
}

// ---------------------------------------------------------------------------
// Configuration

/// An environment variable as the process found it.
pub enum EnvValue {
    Present(String),
    NotPresent,
    /// Set, but not valid Unicode.
    NotUnicode,
}

/// The environment variables that configure sign-in.
pub struct AuthEnv {
    /// `ANDROMEDA_PUBLIC_ORIGIN`; `None` when unset or unreadable.
    pub origin: Option<String>,
    /// `ANDROMEDA_ALLOW_INSECURE_HTTP`; `None` when unset or unreadable.
    pub allow_insecure_http: Option<String>,
    /// `DISCORD_CLIENT_ID`; `None` when unset or unreadable.
    pub client_id: Option<String>,
    /// `DISCORD_CLIENT_SECRET`; `None` when unset or unreadable.
    pub client_secret: Option<String>,
    /// `ANDROMEDA_ADMIN_DISCORD_IDS`.
    pub admin_discord_ids: EnvValue,
}

/// Sign-in configuration.
#[derive(Clone)]
pub struct AuthConfig {
    pub origin: String,
    pub client_id: Option<String>,
    pub client_secret: Option<String>,
    pub secure: bool,
    pub admin_discord_ids: Vec<String>,
}

impl AuthConfig {
    /// The Discord user IDs of the system administrators.
    pub open spec fn admin_ids(&self) -> Set<Seq<char>> {
        texts(self.admin_discord_ids@).to_set()
    }
}

/// The sign-in configuration, as values.
pub struct AuthConfigView {
    pub origin: Seq<char>,
    pub client_id: Option<Seq<char>>,
    pub client_secret: Option<Seq<char>>,
    pub secure: bool,
    pub admin_ids: Set<Seq<char>>,
}

impl View for AuthConfig {
    type V = AuthConfigView;

    open spec fn view(&self) -> AuthConfigView {
        AuthConfigView {
            origin: self.origin@,
            client_id: opt_text(self.client_id),
            client_secret: opt_text(self.client_secret),
            secure: self.secure,
            admin_ids: self.admin_ids(),
        }
    }
}

/// The configuration that the environment `env` yields, or the message of the
/// first rule it breaks.
pub open spec fn auth_config_outcome(env: &AuthEnv) -> Result<AuthConfigView, Seq<char>> {
    let allow = env.allow_insecure_http matches Some(v) && v@ == "true"@;
    let id = non_empty(env.client_id);
    let secret = non_empty(env.client_secret);
    match parsed_url(origin_text(env)) {
        None => Err(invalid_origin_message()),
        Some(u) => if !transport_allowed(u, allow) {
            Err(insecure_origin_message())
        } else if !is_bare_origin(u) {
            Err(not_an_origin_message())
        } else if (id is Some) != (secret is Some) {
            Err(client_pair_message())
        } else {
            match admin_list_text(env) {
                None => Err(invalid_admins_message()),
                Some(list) => if !ids_valid(listed_ids(list)) {
                    Err(admin_format_message())
                } else {
                    Ok(
                        AuthConfigView {
                            origin: u.origin,
                            client_id: id,
                            client_secret: secret,
                            secure: u.scheme == "https"@,
                            admin_ids: listed_ids(list).to_set(),
                        },
                    )
                },
            }
        },
    }
}

/// The origin text the configuration starts from.
pub open spec fn origin_text(env: &AuthEnv) -> Seq<char> {
    match env.origin {
        Some(o) => o@,
        None => DEFAULT_ORIGIN@,
    }
}

/// A configured value counts only when it is not empty.
pub open spec fn non_empty(value: Option<String>) -> Option<Seq<char>> {
    match value {
        Some(v) => if v@.len() > 0 {
            Some(v@)
        } else {
            None
        },
        None => None,
    }
}

/// The comma-separated administrator list; `None` when it is not valid Unicode.
pub open spec fn admin_list_text(env: &AuthEnv) -> Option<Seq<char>> {
    match env.admin_discord_ids {
        EnvValue::Present(v) => Some(v@),
        EnvValue::NotPresent => Some(Seq::empty()),
        EnvValue::NotUnicode => None,
    }
}

/// The administrator IDs listed in `list`: none for a blank list, otherwise
/// every comma-separated entry with surrounding whitespace removed.
pub open spec fn listed_ids(list: Seq<char>) -> Seq<Seq<char>> {
    if trim(list).len() == 0 {
        Seq::empty()
    } else {
        split_char(list, ',').map_values(|id: Seq<char>| trim(id))
    }
}

/// Every listed ID is the decimal form of a positive 64-bit number.
pub open spec fn ids_valid(ids: Seq<Seq<char>>) -> bool {
    forall|k: int| 0 <= k < ids.len() ==> is_canonical_positive_u64(#[trigger] ids[k])
}

pub open spec fn invalid_origin_message() -> Seq<char> {
    "Invalid ANDROMEDA_PUBLIC_ORIGIN"@
}

pub open spec fn insecure_origin_message() -> Seq<char> {
    "Use HTTPS for ANDROMEDA_PUBLIC_ORIGIN. For development on a private LAN IP, set ANDROMEDA_ALLOW_INSECURE_HTTP=true"@
}

pub open spec fn not_an_origin_message() -> Seq<char> {
    "ANDROMEDA_PUBLIC_ORIGIN must be an origin without a path or credentials"@
}

pub open spec fn client_pair_message() -> Seq<char> {
    "Set both DISCORD_CLIENT_ID and DISCORD_CLIENT_SECRET"@
}

pub open spec fn invalid_admins_message() -> Seq<char> {
    "Invalid ANDROMEDA_ADMIN_DISCORD_IDS"@
}

pub open spec fn admin_format_message() -> Seq<char> {
    "ANDROMEDA_ADMIN_DISCORD_IDS must be comma-separated numeric Discord user IDs"@
}

fn env_is_true(value: &Option<String>) -> (r: bool)
    ensures
        r == (value matches Some(v) && v@ == "true"@),
{
    match value {
        Some(v) => str_eq(v.as_str(), "true"),
        None => false,
    }
}

fn keep_non_empty(value: Option<String>) -> (r: Option<String>)
    ensures
        opt_text(r) == non_empty(value),
{
    match value {
        Some(v) => {
            let c = chars_of(v.as_str());
            if c.len() > 0 {
                Some(v)
            } else {
                None
            }
        },
        None => None,
    }
}

/// The administrator IDs of `list`, if each one is valid.
fn parse_admin_ids(list: &str) -> (r: Option<Vec<String>>)
    ensures
        r is Some <==> ids_valid(listed_ids(list@)),
        r matches Some(ids) ==> texts(ids@) == listed_ids(list@),
{
    let v = chars_of(list);
    let t = trim_chars(&v);
    let mut ids: Vec<String> = Vec::new();
    if t.len() == 0 {
        assert(texts(ids@) =~= listed_ids(list@));
        return Some(ids);
    }
    let pieces = split_chars(&v, ',');
    let ghost expected = listed_ids(list@);
    let mut k: usize = 0;
    while k < pieces.len()
        invariant
            v@ == list@,
            trim(list@).len() != 0,
            expected == split_char(list@, ',').map_values(|id: Seq<char>| trim(id)),
            pieces@.len() == split_char(list@, ',').len(),
            forall|j: int| 0 <= j < pieces@.len() ==> #[trigger] pieces@[j]@ == split_char(list@, ',')[j],
            k <= pieces.len(),
            expected.len() == pieces@.len(),
            ids@.len() == k,
            texts(ids@) == expected.take(k as int),
            forall|j: int| 0 <= j < k ==> is_canonical_positive_u64(#[trigger] expected[j]),
        decreases pieces.len() - k,
    {
        let id = trim_chars(&pieces[k]);
        assert(id@ == expected[k as int]);
        if !canonical_positive_u64(&id) {
            return None;
        }
        let text = crate::text::string_from_chars(&id);
        let ghost before = ids@;
        ids.push(text);
        proof {
            assert forall|j: int| 0 <= j <= k implies #[trigger] texts(ids@)[j] == expected.take(k + 1)[j] by {
                if j < k {
                    assert(ids@[j] == before[j]);
                    assert(texts(before)[j] == expected.take(k as int)[j]);
                }
            }
        }
        k = k + 1;
        assert(texts(ids@) =~= expected.take(k as int));
    }
    assert(expected.take(k as int) =~= expected);
    Some(ids)
}

impl AuthConfig {
    /// Reads the sign-in configuration from its environment variables.
    ///
    /// The public origin (by default `http://localhost:5173`) must parse as a
    /// URL, use HTTPS unless it is this machine or (with
    /// `ANDROMEDA_ALLOW_INSECURE_HTTP=true`) a private address, and be a bare
    /// origin. The Discord client ID and secret count when not empty and must
    /// be set together. The administrator list must be valid Unicode when set
    /// and hold positive decimal IDs. The first failing rule names the error.
    pub fn from_env(env: AuthEnv) -> (r: Result<AuthConfig, String>)
        ensures
            match r {
                Ok(c) => auth_config_outcome(&env) == Ok::<AuthConfigView, Seq<char>>(c@),
                Err(e) => auth_config_outcome(&env) == Err::<AuthConfigView, Seq<char>>(e@),
            },
    {
        let origin = match &env.origin {
            Some(o) => o.clone(),
            None => String::from_str(DEFAULT_ORIGIN),
        };
        let url = match parse_url(origin.as_str()) {
            Some(url) => url,
            None => return Err(String::from_str("Invalid ANDROMEDA_PUBLIC_ORIGIN")),
        };
        let secure = str_eq(url.scheme.as_str(), "https");
        let allow_lan_http = env_is_true(&env.allow_insecure_http);
        let local_host = host_is_local_exec(&url);
        let private_ip = host_is_private_exec(&url);
        if !(secure || (str_eq(url.scheme.as_str(), "http") && (local_host || (allow_lan_http
            && private_ip)))) {
            return Err(
                String::from_str(
                    "Use HTTPS for ANDROMEDA_PUBLIC_ORIGIN. For development on a private LAN IP, set ANDROMEDA_ALLOW_INSECURE_HTTP=true",
                ),
            );
        }
        let bare = chars_of(url.username.as_str()).len() == 0 && url.password.is_none() && str_eq(
            url.path.as_str(),
            "/",
        ) && url.query.is_none() && url.fragment.is_none();
        if !bare {
            return Err(
                String::from_str(
                    "ANDROMEDA_PUBLIC_ORIGIN must be an origin without a path or credentials",
                ),
            );
        }
        let client_id = keep_non_empty(env.client_id);
        let client_secret = keep_non_empty(env.client_secret);
        if client_id.is_some() != client_secret.is_some() {
            return Err(String::from_str("Set both DISCORD_CLIENT_ID and DISCORD_CLIENT_SECRET"));
        }
        let admins = match env.admin_discord_ids {
            EnvValue::Present(v) => v,
            EnvValue::NotPresent => String::new(),
            EnvValue::NotUnicode => {
                return Err(String::from_str("Invalid ANDROMEDA_ADMIN_DISCORD_IDS"));
            },
        };
        let admin_discord_ids = match parse_admin_ids(admins.as_str()) {
            Some(ids) => ids,
            None => {
                return Err(
                    String::from_str(
                        "ANDROMEDA_ADMIN_DISCORD_IDS must be comma-separated numeric Discord user IDs",
                    ),
                );
            },
        };
        Ok(
            AuthConfig {
                origin: url.origin,
                client_id,
                client_secret,
                secure,
                admin_discord_ids,
            },
        )
    }

    /// Whether `account` belongs to a configured system administrator.
    pub fn is_admin(&self, account: &Account) -> (r: bool)
        ensures
            r == self.admin_ids().contains(account.discord_id@),
    {
        let mut k: usize = 0;
        while k < self.admin_discord_ids.len()
            invariant
                k <= self.admin_discord_ids.len(),
                forall|j: int|
                    0 <= j < k ==> #[trigger] self.admin_discord_ids@[j]@ != account.discord_id@,
            decreases self.admin_discord_ids.len() - k,
        {
            if str_eq(self.admin_discord_ids[k].as_str(), account.discord_id.as_str()) {
                assert(texts(self.admin_discord_ids@)[k as int]
                    == account.discord_id@);
                return true;
            }
            k = k + 1;
        }
        proof {
            if self.admin_ids().contains(account.discord_id@) {
                let ids = texts(self.admin_discord_ids@);
                let j = choose|j: int| 0 <= j < ids.len() && ids[j] == account.discord_id@;
                assert(self.admin_discord_ids@[j]@ == account.discord_id@);
            }
        }
        false
    }

    /// Discord sign-in is configured: both client ID and secret are set.
    pub fn enabled(&self) -> (r: bool)
        ensures
            r == (self.client_id is Some && self.client_secret is Some),
    {
        self.client_id.is_some() && self.client_secret.is_some()
    }

    /// Where Discord sends the browser back to.
    pub fn callback_url(&self) -> (r: String)
        ensures
            r@ == self.origin@ + "/api/auth/discord/callback"@,
    {
        let mut r = self.origin.clone();
        r.append("/api/auth/discord/callback");
        r
    }

    /// The session cookie's name; secure origins use the `__Host-` prefix.
    pub fn session_cookie(&self) -> (r: &'static str)
        ensures
            r@ == (if self.secure {
                "__Host-andromeda_session"@
            } else {
                "andromeda_session"@
            }),
    {
        if self.secure {
            "__Host-andromeda_session"
        } else {
            "andromeda_session"
        }
    }

    /// The sign-in cookie's name; secure origins use the `__Host-` prefix.
    pub fn login_cookie(&self) -> (r: &'static str)
        ensures
            r@ == (if self.secure {
                "__Host-andromeda_login"@
            } else {
                "andromeda_login"@
            }),
    {
        if self.secure {
            "__Host-andromeda_login"
        } else {
            "andromeda_login"
        }
    }

    /// A `Set-Cookie` value for `name=value` that lives `age` seconds.
    pub fn cookie(&self, name: &str, value: &str, age: i64) -> (r: String)
        ensures
            r@ == cookie_text(name@, value@, age as int, self.secure),
    {
        let mut r = String::from_str(name);
        r.append("=");
        r.append(value);
        r.append("; Path=/; HttpOnly; SameSite=Lax; Max-Age=");
        crate::text::append_int_text(&mut r, age);
        if self.secure {
            r.append("; Secure");
        }
        r
    }
}

/// `{name}={value}; Path=/; HttpOnly; SameSite=Lax; Max-Age={age}`, followed by
/// `; Secure` on secure origins.
pub open spec fn cookie_text(name: Seq<char>, value: Seq<char>, age: int, secure: bool) -> Seq<char> {
    name + "="@ + value + "; Path=/; HttpOnly; SameSite=Lax; Max-Age="@ + crate::text::int_text(age)
        + if secure {
        "; Secure"@
    } else {
        Seq::empty()
    }
}

/// A local account.
#[derive(Clone)]
pub struct Account {
    pub id: String,
    pub discord_id: String,
    pub username: String,
    pub display_name: String,
    pub avatar: Option<String>,
}

/// A signed-in browser session.
#[derive(Clone)]
pub struct Session {
    pub account: Account,
    pub csrf_token: String,
    pub token_hash: String,
}

// ---------------------------------------------------------------------------
// Tokens

/// The SHA-256 digest of `data` (`sha2::Sha256::digest`).
pub uninterp spec fn sha256(data: Seq<u8>) -> Seq<u8>;

/// `sha2::Sha256::digest`: the digest is named, and is 32 bytes long.
#[verifier::external_body]
fn sha256_digest(data: &[u8]) -> (r: Vec<u8>)
    ensures
        r@ == sha256(data@),
        r@.len() == 32,
{
    sha2::Sha256::digest(data).to_vec()
}

/// The SHA-256 digest of `value`'s UTF-8 bytes in lowercase hexadecimal.
pub fn hash(value: &str) -> (r: String)
    ensures
        r@ == lower_hex(sha256(vstd::utf8::encode_utf8(value@))),
        r@.len() == 64,
{
    let digest = sha256_digest(value.as_bytes());
    proof {
        crate::text::lemma_lower_hex_len(digest@);
    }
    lower_hex_exec(digest.as_slice())
}

/// A text of 64 lowercase hexadecimal digits.
pub open spec fn is_token_text(text: Seq<char>) -> bool {
    text.len() == 64 && forall|j: int|
        0 <= j < text.len() ==> ('0' <= #[trigger] text[j] <= '9') || ('a' <= text[j] <= 'f')
}

/// A fresh random token: 32 random bytes in lowercase hexadecimal.
pub fn random_token() -> (r: Result<String, String>)
    ensures
        r matches Ok(t) ==> is_token_text(t@) && exists|bytes: Seq<u8>|
            bytes.len() == 32 && t@ == #[trigger] lower_hex(bytes),
        r matches Err(e) ==> e@ == "Could not generate authentication token"@,
{
    match crate::random::random_bytes(32) {
        Some(bytes) => {
            proof {
                crate::text::lemma_lower_hex_len(bytes@);
                crate::text::lemma_lower_hex_digits(bytes@);
            }
            Ok(lower_hex_exec(bytes.as_slice()))
        },
        None => Err(String::from_str("Could not generate authentication token")),
    }
}

/// A session cookie value worth looking up: 64 hexadecimal digits.
pub open spec fn is_session_token(token: Seq<char>) -> bool {
    token.len() == 64 && forall|j: int| 0 <= j < token.len() ==> is_ascii_hex_digit(#[trigger] token[j])
}

/// Whether a session cookie value is worth looking up: 64 hexadecimal digits.
pub fn session_token_well_formed(token: &str) -> (r: bool)
    ensures
        r == is_session_token(token@),
{
    let v = chars_of(token);
    if v.len() != 64 {
        return false;
    }
    let mut k: usize = 0;
    while k < v.len()
        invariant
            v@ == token@,
            k <= v.len(),
            forall|j: int| 0 <= j < k ==> is_ascii_hex_digit(#[trigger] v@[j]),
        decreases v.len() - k,
    {
        let c = v[k];
        if !(('0' <= c && c <= '9') || ('a' <= c && c <= 'f') || ('A' <= c && c <= 'F')) {
            return false;
        }
        k = k + 1;
    }
    true
}

/// A sign-in attempt is only looked up when its state and browser values are
/// 64 bytes long, the length of a token.
pub fn login_values_plausible(state: &str, browser: &str) -> (r: bool)
    ensures
        r == (state.len() == 64 && browser.len() == 64),
{
    state.len() == 64 && browser.len() == 64
}

/// Every token that `random_token` hands out is accepted where tokens come
/// back: as a session cookie, and as a sign-in state or browser value.
pub proof fn lemma_tokens_are_accepted(bytes: Seq<u8>, token: &str)
    requires
        bytes.len() == 32,
        token@ == lower_hex(bytes),
    ensures
        is_session_token(token@),
        token.len() == 64,
{
    crate::text::lemma_lower_hex_len(bytes);
    crate::text::lemma_lower_hex_digits(bytes);
    assert forall|j: int| 0 <= j < token@.len() implies is_ascii_hex_digit(#[trigger] token@[j]) by {
        assert(('0' <= token@[j] <= '9') || ('a' <= token@[j] <= 'f'));
    }
    assert(vstd::utf8::is_ascii_chars(token@)) by {
        assert forall|j: int| 0 <= j < token@.len() implies '\0' <= #[trigger] token@[j]
            <= '\u{7f}' by {
            assert(('0' <= token@[j] <= '9') || ('a' <= token@[j] <= 'f'));
        }
    }
    vstd::utf8::is_ascii_chars_encode_utf8(token@);
}

/// Plain HTTP to an IPv4 address, with `ANDROMEDA_ALLOW_INSECURE_HTTP=true`:
/// the origin is accepted, as not secure, exactly when the address is a
/// private one (`Ipv4Addr::is_private`: 10.0.0.0/8, 172.16.0.0/12 or
/// 192.168.0.0/16); any other address is refused as needing HTTPS. (The rest
/// of the environment is taken as set to nothing that could be refused.)
pub proof fn lemma_lan_http_origin(env: &AuthEnv, u: UrlView, o: Seq<u8>)
    requires
        parsed_url(origin_text(env)) == Some(u),
        u.scheme == "http"@,
        u.ip == Some(UrlIpView::V4(o)),
        o.len() == 4,
        u.host_str != Some("localhost"@),
        u.host_str != Some("127.0.0.1"@),
        u.host_str != Some("[::1]"@),
        u.username.len() == 0,
        u.password is None,
        u.path == "/"@,
        u.query is None,
        u.fragment is None,
        env.allow_insecure_http matches Some(v) && v@ == "true"@,
        env.client_id is None,
        env.client_secret is None,
        env.admin_discord_ids is NotPresent,
    ensures
        auth_config_outcome(env) is Ok <==> (o[0] == 10 || (o[0] == 172 && 16 <= o[1] && o[1]
            <= 31) || (o[0] == 192 && o[1] == 168)),
        auth_config_outcome(env) matches Ok(c) ==> !c.secure && c.origin == u.origin,
        auth_config_outcome(env) is Err ==> auth_config_outcome(env) == Err::<
            AuthConfigView,
            Seq<char>,
        >(
            "Use HTTPS for ANDROMEDA_PUBLIC_ORIGIN. For development on a private LAN IP, set ANDROMEDA_ALLOW_INSECURE_HTTP=true"@,
        ),
{
    reveal_strlit("http");
    reveal_strlit("https");
    assert("http"@.len() == 4 && "https"@.len() == 5);
    assert(trim(Seq::<char>::empty()).len() == 0);
    assert(listed_ids(Seq::<char>::empty()) =~= Seq::<Seq<char>>::empty());
}

/// Plain HTTP to an IPv6 address, with `ANDROMEDA_ALLOW_INSECURE_HTTP=true`:
/// accepted, as not secure, exactly when the address is a unique local one
/// (fc00::/7, `Ipv6Addr::is_unique_local`); `[::1]` aside, any other address
/// is refused as needing HTTPS.
pub proof fn lemma_lan_http_origin_v6(env: &AuthEnv, u: UrlView, g: Seq<u16>)
    requires
        parsed_url(origin_text(env)) == Some(u),
        u.scheme == "http"@,
        u.ip == Some(UrlIpView::V6(g)),
        g.len() == 8,
        u.host_str != Some("localhost"@),
        u.host_str != Some("127.0.0.1"@),
        u.host_str != Some("[::1]"@),
        u.username.len() == 0,
        u.password is None,
        u.path == "/"@,
        u.query is None,
        u.fragment is None,
        env.allow_insecure_http matches Some(v) && v@ == "true"@,
        env.client_id is None,
        env.client_secret is None,
        env.admin_discord_ids is NotPresent,
    ensures
        auth_config_outcome(env) is Ok <==> (0xfc00 <= g[0] && g[0] <= 0xfdff),
        auth_config_outcome(env) matches Ok(c) ==> !c.secure && c.origin == u.origin,
        auth_config_outcome(env) is Err ==> auth_config_outcome(env) == Err::<
            AuthConfigView,
            Seq<char>,
        >(
            "Use HTTPS for ANDROMEDA_PUBLIC_ORIGIN. For development on a private LAN IP, set ANDROMEDA_ALLOW_INSECURE_HTTP=true"@,
        ),
{
    reveal_strlit("http");
    reveal_strlit("https");
    assert("http"@.len() == 4 && "https"@.len() == 5);
    assert(trim(Seq::<char>::empty()).len() == 0);
    assert(listed_ids(Seq::<char>::empty()) =~= Seq::<Seq<char>>::empty());
}

/// Without `ANDROMEDA_ALLOW_INSECURE_HTTP=true`, a plain-HTTP origin is
/// refused as needing HTTPS unless its host is `localhost`, `127.0.0.1` or
/// `[::1]`, whatever address it names; an HTTPS origin is never refused for
/// its transport.
pub proof fn lemma_http_needs_local_host(env: &AuthEnv, u: UrlView)
    requires
        parsed_url(origin_text(env)) == Some(u),
        !(env.allow_insecure_http matches Some(v) && v@ == "true"@),
    ensures
        u.scheme == "http"@ && u.host_str != Some("localhost"@) && u.host_str != Some(
            "127.0.0.1"@,
        ) && u.host_str != Some("[::1]"@) ==> auth_config_outcome(env) == Err::<
            AuthConfigView,
            Seq<char>,
        >(
            "Use HTTPS for ANDROMEDA_PUBLIC_ORIGIN. For development on a private LAN IP, set ANDROMEDA_ALLOW_INSECURE_HTTP=true"@,
        ),
        u.scheme == "https"@ ==> auth_config_outcome(env)
            != Err::<AuthConfigView, Seq<char>>(
            "Use HTTPS for ANDROMEDA_PUBLIC_ORIGIN. For development on a private LAN IP, set ANDROMEDA_ALLOW_INSECURE_HTTP=true"@,
        ),
{
    reveal_strlit("http");
    reveal_strlit("https");
    assert("http"@.len() == 4 && "https"@.len() == 5);
    reveal_strlit(
        "Use HTTPS for ANDROMEDA_PUBLIC_ORIGIN. For development on a private LAN IP, set ANDROMEDA_ALLOW_INSECURE_HTTP=true",
    );
    reveal_strlit("ANDROMEDA_PUBLIC_ORIGIN must be an origin without a path or credentials");
    reveal_strlit("Set both DISCORD_CLIENT_ID and DISCORD_CLIENT_SECRET");
    reveal_strlit("Invalid ANDROMEDA_ADMIN_DISCORD_IDS");
    reveal_strlit("ANDROMEDA_ADMIN_DISCORD_IDS must be comma-separated numeric Discord user IDs");
    assert("Use HTTPS for ANDROMEDA_PUBLIC_ORIGIN. For development on a private LAN IP, set ANDROMEDA_ALLOW_INSECURE_HTTP=true"@.len() == 114);
    assert("ANDROMEDA_PUBLIC_ORIGIN must be an origin without a path or credentials"@.len() == 71);
    assert("Set both DISCORD_CLIENT_ID and DISCORD_CLIENT_SECRET"@.len() == 52);
    assert("Invalid ANDROMEDA_ADMIN_DISCORD_IDS"@.len() == 35);
    assert("ANDROMEDA_ADMIN_DISCORD_IDS must be comma-separated numeric Discord user IDs"@.len() == 76);
}

} // verus!
