//! The identity Discord reports for a signed-in user.
use vstd::prelude::*;

use crate::auth::AuthConfig;

verus! {

/// The Discord user behind a sign-in.
pub struct DiscordUser {
    pub id: String,
    pub username: String,
    pub global_name: Option<String>,
    pub avatar: Option<String>,
}

/// A Discord user ID: a non-empty run of decimal digits.
pub open spec fn is_discord_id(id: Seq<char>) -> bool {
    id.len() > 0 && forall|j: int| 0 <= j < id.len() ==> crate::text::is_ascii_digit(#[trigger] id[j])
}

/// Accepts the identity Discord reported only when its ID is a non-empty run of
/// decimal digits.
pub fn check_identity(user: DiscordUser) -> (r: Result<DiscordUser, String>)
    ensures
        r is Ok <==> is_discord_id(user.id@),
        r matches Ok(u) ==> u == user,
        r matches Err(e) ==> e@ == "Invalid Discord identity"@,
{
    let v = crate::text::chars_of(user.id.as_str());
    if v.len() == 0 {
        return Err(String::from_str("Invalid Discord identity"));
    }
    let mut k: usize = 0;
    while k < v.len()
        invariant
            v@ == user.id@,
            k <= v.len(),
            forall|j: int| 0 <= j < k ==> crate::text::is_ascii_digit(#[trigger] v@[j]),
        decreases v.len() - k,
    {
        if !('0' <= v[k] && v[k] <= '9') {
            return Err(String::from_str("Invalid Discord identity"));
        }
        k = k + 1;
    }
    Ok(user)
}

/// Where the authorization code is traded for an access token.
pub const TOKEN_URL: &'static str = "https://discord.com/api/oauth2/token";

/// Where the signed-in user's identity is read.
pub const USER_URL: &'static str = "https://discord.com/api/v10/users/@me";

/// The largest response body read from Discord, in bytes.
pub const RESPONSE_LIMIT: usize = 65536;

/// Whether a response chunk of `chunk` bytes may be kept after `received`
/// bytes: the body must stay within `RESPONSE_LIMIT`, else the transfer stops.
pub fn accepts_chunk(received: usize, chunk: usize) -> (r: bool)
    ensures
        r == (received + chunk <= RESPONSE_LIMIT),
{
    chunk <= RESPONSE_LIMIT && received <= RESPONSE_LIMIT - chunk
}

/// The header that presents an access token.
pub fn bearer_header(token: &str) -> (r: String)
    ensures
        r@ == "Authorization: Bearer "@ + token@,
{
    let mut r = String::from_str("Authorization: Bearer ");
    r.append(token);
    r
}

/// Only a 200 answer from Discord counts.
pub fn check_response(status: u32) -> (r: Result<(), String>)
    ensures
        r is Ok <==> status == 200,
        r matches Err(e) ==> e@ == "Discord authentication request failed"@,
{
    if status == 200 {
        Ok(())
    } else {
        Err(String::from_str("Discord authentication request failed"))
    }
}

/// The name shown for a user: the global name when Discord has one, else the username.
pub fn display_name(user: &DiscordUser) -> (r: String)
    ensures
        r@ == (match user.global_name {
            Some(g) => g@,
            None => user.username@,
        }),
{
    match &user.global_name {
        Some(g) => g.clone(),
        None => user.username.clone(),
    }
}

// ---------------------------------------------------------------------------
// application/x-www-form-urlencoded

/// The uppercase hexadecimal digit for `n < 16`.
pub open spec fn upper_hex_digit(n: u8) -> char {
    if n < 10 {
        ((48 + n) as u8) as char
    } else {
        ((55 + n) as u8) as char
    }
}

/// The bytes the form encoding keeps as they are: ASCII letters, digits and `*-._`.
pub open spec fn kept_byte(b: u8) -> bool {
    b == 42 || b == 45 || b == 46 || (48 <= b <= 57) || (65 <= b <= 90) || b == 95 || (97 <= b
        <= 122)
}

/// One byte, form-encoded: kept bytes as they are, a space as `+`, any other
/// byte as `%` and two uppercase hexadecimal digits.
pub open spec fn form_byte(b: u8) -> Seq<char> {
    if kept_byte(b) {
        seq![b as char]
    } else if b == 32 {
        "+"@
    } else {
        seq!['%', upper_hex_digit(b / 16), upper_hex_digit(b % 16)]
    }
}

/// Bytes, form-encoded one by one.
pub open spec fn form_bytes(bytes: Seq<u8>) -> Seq<char>
    decreases bytes.len(),
{
    if bytes.len() == 0 {
        Seq::empty()
    } else {
        form_bytes(bytes.drop_last()) + form_byte(bytes.last())
    }
}

/// The text's UTF-8 bytes, form-encoded.
pub open spec fn form_text(text: Seq<char>) -> Seq<char> {
    form_bytes(vstd::utf8::encode_utf8(text))
}

/// `name=value` pairs joined by `&`, each side form-encoded.
pub open spec fn form_pairs(pairs: Seq<(Seq<char>, Seq<char>)>) -> Seq<char>
    decreases pairs.len(),
{
    if pairs.len() == 0 {
        Seq::empty()
    } else {
        let before = form_pairs(pairs.drop_last());
        before + (if before.len() > 0 {
            "&"@
        } else {
            Seq::empty()
        }) + form_text(pairs.last().0) + "="@ + form_text(pairs.last().1)
    }
}

/// `url::form_urlencoded::Serializer` with each pair appended in order: the
/// result is stated in full by `form_pairs`.
#[verifier::external_body]
fn form_urlencode(pairs: &Vec<(String, String)>) -> (r: String)
    ensures
        r@ == form_pairs(crate::seed::binding_views(pairs@)),
{
    url::form_urlencoded::Serializer::new(String::new()).extend_pairs(pairs.iter()).finish()
}

fn pair(name: &str, value: &str) -> (r: (String, String))
    ensures
        r.0@ == name@,
        r.1@ == value@,
{
    (String::from_str(name), String::from_str(value))
}

/// The client ID, or nothing when it is not configured.
pub open spec fn client_id_text(config: &AuthConfig) -> Seq<char> {
    match config.client_id {
        Some(id) => id@,
        None => Seq::empty(),
    }
}

/// The client secret, or nothing when it is not configured.
pub open spec fn client_secret_text(config: &AuthConfig) -> Seq<char> {
    match config.client_secret {
        Some(s) => s@,
        None => Seq::empty(),
    }
}

fn text_or_empty(value: &Option<String>) -> (r: String)
    ensures
        r@ == match value {
            Some(v) => v@,
            None => Seq::<char>::empty(),
        },
{
    match value {
        Some(v) => v.clone(),
        None => String::new(),
    }
}

/// Where Discord asks the user to sign in.
pub const AUTHORIZE_URL: &'static str = "https://discord.com/oauth2/authorize";

/// The query of the Discord authorization request: client ID, response type
/// `code`, scope `identify`, the callback URL and the sign-in state.
pub open spec fn authorize_pairs(config: &AuthConfig, state: Seq<char>) -> Seq<(Seq<char>, Seq<char>)> {
    seq![
        ("client_id"@, client_id_text(config)),
        ("response_type"@, "code"@),
        ("scope"@, "identify"@),
        ("redirect_uri"@, config.origin@ + "/api/auth/discord/callback"@),
        ("state"@, state),
    ]
}

/// The URL that sends the browser to Discord to sign in with `state`.
pub fn authorize_url(config: &AuthConfig, state: &str) -> (r: String)
    ensures
        r@ == AUTHORIZE_URL@ + "?"@ + form_pairs(authorize_pairs(config, state@)),
{
    let mut pairs: Vec<(String, String)> = Vec::new();
    let id = text_or_empty(&config.client_id);
    pairs.push(pair("client_id", id.as_str()));
    pairs.push(pair("response_type", "code"));
    pairs.push(pair("scope", "identify"));
    let callback = config.callback_url();
    pairs.push(pair("redirect_uri", callback.as_str()));
    pairs.push(pair("state", state));
    assert(crate::seed::binding_views(pairs@) =~= authorize_pairs(config, state@));
    let query = form_urlencode(&pairs);
    let mut url = String::from_str(AUTHORIZE_URL);
    url.append("?");
    url.append(query.as_str());
    url
}

/// The form of the token request that trades the authorization `code` for an
/// access token.
pub open spec fn token_pairs(config: &AuthConfig, code: Seq<char>) -> Seq<(Seq<char>, Seq<char>)> {
    seq![
        ("client_id"@, client_id_text(config)),
        ("client_secret"@, client_secret_text(config)),
        ("grant_type"@, "authorization_code"@),
        ("code"@, code),
        ("redirect_uri"@, config.origin@ + "/api/auth/discord/callback"@),
    ]
}

/// The body of the token request for the authorization `code`.
pub fn token_request_form(config: &AuthConfig, code: &str) -> (r: String)
    ensures
        r@ == form_pairs(token_pairs(config, code@)),
{
    let mut pairs: Vec<(String, String)> = Vec::new();
    let id = text_or_empty(&config.client_id);
    let secret = text_or_empty(&config.client_secret);
    pairs.push(pair("client_id", id.as_str()));
    pairs.push(pair("client_secret", secret.as_str()));
    pairs.push(pair("grant_type", "authorization_code"));
    pairs.push(pair("code", code));
    let callback = config.callback_url();
    pairs.push(pair("redirect_uri", callback.as_str()));
    assert(crate::seed::binding_views(pairs@) =~= token_pairs(config, code@));
    form_urlencode(&pairs)
}

/// Where to send the browser and the sign-in cookie that ties the attempt to
/// it: the authorization URL with `state`, and the login cookie holding
/// `browser` for the sign-in lifetime.
pub fn login_redirect(config: &AuthConfig, state: &str, browser: &str) -> (r: (String, String))
    ensures
        r.0@ == AUTHORIZE_URL@ + "?"@ + form_pairs(authorize_pairs(config, state@)),
        r.1@ == crate::auth::cookie_text(
            if config.secure {
                "__Host-andromeda_login"@
            } else {
                "andromeda_login"@
            },
            browser@,
            crate::auth::LOGIN_SECONDS as int,
            config.secure,
        ),
{
    let url = authorize_url(config, state);
    let cookie = config.cookie(config.login_cookie(), browser, crate::auth::LOGIN_SECONDS);
    (url, cookie)
}

} // verus!
