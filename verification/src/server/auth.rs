//! Sessions as the HTTP layer reads them: cookies, request verification and
//! administrator access.
use vstd::prelude::*;

use crate::auth::sign_in::{login_cookie_name, session_cookie_name, sign_in_failed};
use crate::auth::{cookie_text, Account, AuthConfig, Session};
use crate::logging::{appends, Logger, Severity};
use crate::server::error::ApiError;
use crate::text::{chars_of, texts, split_char, split_chars, split_once, split_once_chars, str_eq, trim, trim_chars};

verus! {

/// The session of the signed-in caller.
pub struct CurrentSession(pub Session);

/// The `;`-separated pieces of every `Cookie` header, in order.
pub open spec fn cookie_pieces(headers: Seq<Seq<char>>) -> Seq<Seq<char>>
    decreases headers.len(),
{
    if headers.len() == 0 {
        Seq::empty()
    } else {
        cookie_pieces(headers.drop_last()) + split_char(headers.last(), ';')
    }
}

/// The value of `name` in one piece `name=value` (surrounding whitespace ignored).
pub open spec fn piece_value(piece: Seq<char>, name: Seq<char>) -> Option<Seq<char>> {
    match split_once(trim(piece), '=') {
        Some(parts) => if parts.0 == name {
            Some(parts.1)
        } else {
            None
        },
        None => None,
    }
}

/// Every value given for `name` among `pieces`, in order.
pub open spec fn values_named(pieces: Seq<Seq<char>>, name: Seq<char>) -> Seq<Seq<char>>
    decreases pieces.len(),
{
    if pieces.len() == 0 {
        Seq::empty()
    } else {
        let rest = values_named(pieces.drop_last(), name);
        match piece_value(pieces.last(), name) {
            Some(v) => rest.push(v),
            None => rest,
        }
    }
}

/// The value of the cookie `name` in the `Cookie` headers: only when it is
/// given exactly once, so that duplicates never pick an ambiguous identity.
pub open spec fn cookie_value(headers: Seq<Seq<char>>, name: Seq<char>) -> Option<Seq<char>> {
    let values = values_named(cookie_pieces(headers), name);
    if values.len() == 1 {
        Some(values[0])
    } else {
        None
    }
}

proof fn lemma_values_named_push(pieces: Seq<Seq<char>>, piece: Seq<char>, name: Seq<char>)
    ensures
        values_named(pieces.push(piece), name) == match piece_value(piece, name) {
            Some(v) => values_named(pieces, name).push(v),
            None => values_named(pieces, name),
        },
{
    assert(pieces.push(piece).drop_last() =~= pieces);
}

/// The value of the cookie `name` in the `Cookie` header values `headers`
/// (those that are valid text), if it is given exactly once.
pub fn cookie(headers: &Vec<String>, name: &str) -> (r: Option<String>)
    ensures
        match r {
            Some(v) => cookie_value(crate::text::texts(headers@), name@) == Some(v@),
            None => cookie_value(crate::text::texts(headers@), name@) is None,
        },
{
    let ghost hs = crate::text::texts(headers@);
    let name_chars = chars_of(name);
    let mut values: Vec<Vec<char>> = Vec::new();
    let ghost done: Seq<Seq<char>> = Seq::empty();
    let mut i: usize = 0;
    while i < headers.len()
        invariant
            hs == crate::text::texts(headers@),
            name_chars@ == name@,
            i <= headers.len(),
            done == cookie_pieces(hs.take(i as int)),
            values@.len() == values_named(done, name@).len(),
            forall|k: int| 0 <= k < values@.len() ==> #[trigger] values@[k]@ == values_named(done, name@)[k],
        decreases headers.len() - i,
    {
        let header = chars_of(headers[i].as_str());
        let pieces = split_chars(&header, ';');
        let ghost split = split_char(hs[i as int], ';');
        let mut j: usize = 0;
        let ghost start = done;
        while j < pieces.len()
            invariant
                hs == crate::text::texts(headers@),
                name_chars@ == name@,
                i < headers.len(),
                header@ == hs[i as int],
                split == split_char(hs[i as int], ';'),
                pieces@.len() == split.len(),
                forall|k: int| 0 <= k < pieces@.len() ==> #[trigger] pieces@[k]@ == split[k],
                j <= pieces.len(),
                done == start + split.take(j as int),
                values@.len() == values_named(done, name@).len(),
                forall|k: int| 0 <= k < values@.len() ==> #[trigger] values@[k]@ == values_named(done, name@)[k],
            decreases pieces.len() - j,
        {
            let piece = trim_chars(&pieces[j]);
            proof {
                lemma_values_named_push(done, split[j as int], name@);
                assert(start + split.take(j + 1) =~= done.push(split[j as int]));
            }
            match split_once_chars(&piece, '=') {
                Some(parts) => {
                    if key_is(&parts.0, &name_chars) {
                        values.push(parts.1);
                    }
                },
                None => {},
            }
            proof {
                done = done.push(split[j as int]);
            }
            j = j + 1;
        }
        proof {
            assert(hs.take(i + 1).drop_last() =~= hs.take(i as int));
            assert(split.take(split.len() as int) =~= split);
        }
        i = i + 1;
    }
    assert(hs.take(headers.len() as int) =~= hs);
    if values.len() == 1 {
        let v = crate::text::string_from_chars(&values[0]);
        Some(v)
    } else {
        None
    }
}

fn key_is(key: &Vec<char>, name: &Vec<char>) -> (r: bool)
    ensures
        r == (key@ == name@),
{
    if key.len() != name.len() {
        return false;
    }
    let mut k: usize = 0;
    while k < key.len()
        invariant
            key.len() == name.len(),
            k <= key.len(),
            forall|j: int| 0 <= j < k ==> key@[j] == name@[j],
        decreases key.len() - k,
    {
        if key[k] != name[k] {
            return false;
        }
        k = k + 1;
    }
    assert(key@ =~= name@);
    true
}

/// Compares two byte strings in time that depends only on their lengths.
pub fn constant_time_eq(a: &[u8], b: &[u8]) -> (r: bool)
    ensures
        r == (a@ == b@),
{
    if a.len() != b.len() {
        return false;
    }
    let mut diff: u8 = 0;
    let mut k: usize = 0;
    while k < a.len()
        invariant
            a.len() == b.len(),
            k <= a.len(),
            (diff == 0) <==> forall|j: int| 0 <= j < k ==> a@[j] == b@[j],
        decreases a.len() - k,
    {
        let x = a[k];
        let y = b[k];
        let next = diff | (x ^ y);
        proof {
            assert((next == 0) <==> (diff == 0 && x == y)) by (bit_vector)
                requires
                    next == diff | (x ^ y),
            ;
            if next == 0 {
                assert forall|j: int| 0 <= j < k + 1 implies a@[j] == b@[j] by {
                    if j < k {
                    }
                }
            }
        }
        diff = next;
        k = k + 1;
    }
    proof {
        if diff == 0 {
            assert(a@ =~= b@);
        }
    }
    diff == 0
}

/// The answer to a request whose `Origin` does not match the public origin.
pub open spec fn origin_mismatch_message(origin: Seq<char>) -> Seq<char> {
    "This browser address does not match the server's public origin ("@ + origin
        + "). Open that address, or update ANDROMEDA_PUBLIC_ORIGIN and the Discord redirect URI, then restart the backend and sign in again."@
}

/// The answer to a request whose verification token does not match the session's.
pub open spec fn stale_token_message() -> Seq<char> {
    "Your request verification token is out of date. Refresh the page and try again."@
}

/// Why a request of a signed-in caller is refused, if it is: reads (`GET`,
/// `HEAD`) always pass; other requests from a foreign `Origin` (a header that
/// is not valid text counts as foreign, an absent one does not) are refused
/// first, then those without the session's verification token.
pub open spec fn request_refusal(
    is_read: bool,
    csrf_header: Option<&str>,
    origin_header: Option<Option<&str>>,
    session_csrf: Seq<char>,
    public_origin: Seq<char>,
) -> Option<Seq<char>> {
    let origin_ok = match origin_header {
        None => true,
        Some(None) => false,
        Some(Some(o)) => o@ == public_origin,
    };
    let token: Seq<char> = match csrf_header {
        Some(t) => t@,
        None => Seq::empty(),
    };
    if is_read {
        None
    } else if !origin_ok {
        Some(origin_mismatch_message(public_origin))
    } else if token != session_csrf {
        Some(stale_token_message())
    } else {
        None
    }
}

/// Checks a request of a signed-in caller. Reads (`GET`, `HEAD`) always pass.
/// Other requests must not come from a foreign `Origin` (a header that is
/// absent passes; one that is not valid text does not) and must carry the
/// session's verification token in `x-csrf-token`; the origin is checked
/// first. Both failures are answered with 403.
pub fn check_request(
    is_read: bool,
    csrf_header: Option<&str>,
    origin_header: Option<Option<&str>>,
    session_csrf: &str,
    public_origin: &str,
) -> (r: Result<(), ApiError>)
    ensures
        match request_refusal(is_read, csrf_header, origin_header, session_csrf@, public_origin@) {
            None => r is Ok,
            Some(message) => r matches Err(e) && e.status == 403 && e.message@ == message,
        },
{
    if is_read {
        return Ok(());
    }
    let csrf = match csrf_header {
        Some(t) => t,
        None => "",
    };
    let valid = constant_time_eq(csrf.as_bytes(), session_csrf.as_bytes());
    proof {
        reveal_strlit("");
        vstd::utf8::encode_utf8_decode_utf8(csrf@);
        vstd::utf8::encode_utf8_decode_utf8(session_csrf@);
    }
    let origin_ok = match origin_header {
        None => true,
        Some(None) => false,
        Some(Some(o)) => str_eq(o, public_origin),
    };
    if !origin_ok {
        let mut message = String::from_str(
            "This browser address does not match the server's public origin (",
        );
        message.append(public_origin);
        message.append(
            "). Open that address, or update ANDROMEDA_PUBLIC_ORIGIN and the Discord redirect URI, then restart the backend and sign in again.",
        );
        return Err(ApiError { status: 403, message });
    }
    if !valid {
        return Err(
            ApiError {
                status: 403,
                message: String::from_str(
                    "Your request verification token is out of date. Refresh the page and try again.",
                ),
            },
        );
    }
    Ok(())
}

/// The session of the caller of a request, from the lookup of its session
/// cookie: a failed lookup is answered with 500, a missing session with 401,
/// and a request that `check_request` refuses with 403.
pub fn current_session(
    config: &AuthConfig,
    lookup: Result<Option<Session>, String>,
    is_read: bool,
    csrf_header: Option<&str>,
    origin_header: Option<Option<&str>>,
) -> (r: Result<Session, ApiError>)
    ensures
        match lookup {
            Err(_) => r matches Err(e) && e.status == 500 && e.message@
                == "Could not read session"@,
            Ok(None) => r matches Err(e) && e.status == 401 && e.message@ == "Please sign in"@,
            Ok(Some(session)) => match request_refusal(
                is_read,
                csrf_header,
                origin_header,
                session.csrf_token@,
                config.origin@,
            ) {
                None => r == Ok::<Session, ApiError>(session),
                Some(message) => r matches Err(e) && e.status == 403 && e.message@ == message,
            },
        },
{
    let session = match lookup {
        Err(_) => {
            return Err(ApiError { status: 500, message: String::from_str("Could not read session") });
        },
        Ok(None) => {
            return Err(ApiError { status: 401, message: String::from_str("Please sign in") });
        },
        Ok(Some(session)) => session,
    };
    match check_request(
        is_read,
        csrf_header,
        origin_header,
        session.csrf_token.as_str(),
        config.origin.as_str(),
    ) {
        Ok(()) => Ok(session),
        Err(e) => Err(e),
    }
}

/// What the session endpoint reports: whether the caller is a system
/// administrator, the account and verification token of a signed-in caller,
/// and whether Discord sign-in is available.
pub struct SessionInfo {
    pub is_admin: bool,
    pub user: Option<Account>,
    pub csrf_token: Option<String>,
    pub login_available: bool,
}

/// The session report for the caller's session, if any.
pub fn session_info(config: &AuthConfig, session: Option<Session>) -> (r: SessionInfo)
    ensures
        r.login_available == (config.client_id is Some && config.client_secret is Some),
        match session {
            Some(s) => {
                &&& r.is_admin == config.admin_ids().contains(s.account.discord_id@)
                &&& r.user == Some(s.account)
                &&& r.csrf_token == Some(s.csrf_token)
            },
            None => !r.is_admin && r.user is None && r.csrf_token is None,
        },
{
    let login_available = config.enabled();
    match session {
        Some(s) => {
            let is_admin = config.is_admin(&s.account);
            SessionInfo {
                is_admin,
                user: Some(s.account),
                csrf_token: Some(s.csrf_token),
                login_available,
            }
        },
        None => SessionInfo { is_admin: false, user: None, csrf_token: None, login_available },
    }
}

/// Where the Discord callback sends the browser, and the cookies it sets.
pub struct CallbackAnswer {
    pub location: String,
    pub cookies: Vec<String>,
}

/// The answer to the Discord callback, given the session cookie that finishing
/// the sign-in issued, if it did: home with the session cookie, or the sign-in
/// page with an error (logged as a failed sign-in). The sign-in cookie is
/// cleared either way.
pub fn callback_answer(logger: &mut Logger, config: &AuthConfig, issued: Option<String>) -> (r:
    CallbackAnswer)
    ensures
        ({
            let clear = cookie_text(login_cookie_name(config.secure), Seq::empty(), 0, config.secure);
            match issued {
                Some(cookie) => {
                    &&& r.location@ == config.origin@ + "/"@
                    &&& texts(r.cookies@) == seq![cookie@, clear]
                    &&& final(logger)@ == old(logger)@
                },
                None => {
                    &&& r.location@ == config.origin@ + "/login?error=discord"@
                    &&& texts(r.cookies@) == seq![clear]
                    &&& appends(
                        old(logger)@,
                        final(logger)@,
                        seq![(Severity::Warning, "Discord sign-in failed; no session issued"@)],
                    )
                },
            }
        }),
{
    let mut location = config.origin.clone();
    let mut cookies: Vec<String> = Vec::new();
    match issued {
        Some(cookie) => {
            location.append("/");
            cookies.push(cookie);
        },
        None => {
            sign_in_failed(logger);
            location.append("/login?error=discord");
        },
    }
    let clear = config.cookie(config.login_cookie(), "", 0);
    proof {
        reveal_strlit("");
    }
    cookies.push(clear);
    proof {
        assert(texts(cookies@) =~= match issued {
            Some(cookie) => seq![cookie@, clear@],
            None => seq![clear@],
        });
    }
    CallbackAnswer { location, cookies }
}

/// The cookie that signing out sets: the session cookie, emptied and expired.
pub fn logout_cookie(config: &AuthConfig) -> (r: String)
    ensures
        r@ == cookie_text(session_cookie_name(config.secure), Seq::empty(), 0, config.secure),
{
    proof {
        reveal_strlit("");
    }
    config.cookie(config.session_cookie(), "", 0)
}

/// Lets only configured system administrators through; others get 403.
pub fn require_admin(config: &AuthConfig, session: Session) -> (r: Result<Session, ApiError>)
    ensures
        r is Ok <==> config.admin_ids().contains(session.account.discord_id@),
        r matches Ok(s) ==> s == session,
        r matches Err(e) ==> e.status == 403 && e.message@
            == "System administrator access is required."@,
{
    if !config.is_admin(&session.account) {
        return Err(
            ApiError {
                status: 403,
                message: String::from_str("System administrator access is required."),
            },
        );
    }
    Ok(session)
}

/// Refuses to start a Discord sign-in that is not configured (503).
pub fn login_available(config: &AuthConfig) -> (r: Result<(), ApiError>)
    ensures
        r is Ok <==> (config.client_id is Some && config.client_secret is Some),
        r matches Err(e) ==> e.status == 503 && e.message@ == "Discord sign-in is not configured"@,
{
    if !config.enabled() {
        return Err(
            ApiError { status: 503, message: String::from_str("Discord sign-in is not configured") },
        );
    }
    Ok(())
}

/// The authorization code to finish a sign-in with: only when the sign-in
/// attempt was recognised, Discord reported no error, sign-in is configured
/// and a code came back.
pub fn callback_code(
    attempt_valid: bool,
    discord_error: bool,
    enabled: bool,
    code: Option<String>,
) -> (r: Option<String>)
    ensures
        r == (if attempt_valid && !discord_error && enabled {
            code
        } else {
            None
        }),
{
    if attempt_valid && !discord_error && enabled {
        code
    } else {
        None
    }
}

/// A `Cookie` header `name=value` gives back `value` for `name`, when the name
/// holds no `=` or `;` and does not start with whitespace, and the value holds
/// no `;` and does not end with whitespace.
pub proof fn lemma_cookie_read_back(name: Seq<char>, value: Seq<char>)
    requires
        name.len() > 0,
        !crate::text::is_white_space(name[0]),
        !name.contains('='),
        !name.contains(';'),
        !value.contains(';'),
        value.len() == 0 || !crate::text::is_white_space(value.last()),
    ensures
        cookie_value(seq![name + "="@ + value], name) == Some(value),
{
    reveal_strlit("=");
    let h = name + "="@ + value;
    assert(!h.contains(';')) by {
        if h.contains(';') {
            let j = choose|j: int| 0 <= j < h.len() && h[j] == ';';
            if j < name.len() {
                assert(name[j] == ';');
            } else if j > name.len() {
                assert(value[j - name.len() - 1] == ';');
            }
        }
    }
    crate::text::lemma_split_char_absent(h, ';');
    let hs = seq![h];
    assert(hs.drop_last() =~= Seq::<Seq<char>>::empty());
    assert(hs.last() == h);
    assert(cookie_pieces(hs.drop_last()) == Seq::<Seq<char>>::empty());
    assert(cookie_pieces(hs) =~= seq![h]);
    assert(h[0] == name[0]);
    if value.len() > 0 {
        assert(h.last() == value.last());
    } else {
        assert(h.last() == '=');
    }
    crate::text::lemma_trim_unchanged(h);
    assert forall|j: int| 0 <= j < name.len() implies h[j] != '=' by {
        assert(h[j] == name[j]);
    }
    crate::text::lemma_split_once_at(h, '=', name.len() as int);
    assert(h.take(name.len() as int) =~= name);
    assert(h.skip(name.len() as int + 1) =~= value);
    assert(split_once(trim(h), '=') == Some((name, value)));
    assert(piece_value(h, name) == Some(value));
    let pieces = seq![h];
    assert(pieces.drop_last() =~= Seq::<Seq<char>>::empty());
    assert(pieces.last() == h);
    assert(values_named(pieces.drop_last(), name) == Seq::<Seq<char>>::empty());
    assert(values_named(pieces, name) =~= seq![value]);
}

/// The session cookie that sign-in sets comes back as the caller's token: a
/// browser that returns `name=token` for the session cookie's name is read as
/// presenting exactly that token.
pub proof fn lemma_session_cookie_read_back(secure: bool, bytes: Seq<u8>)
    requires
        bytes.len() == 32,
    ensures
        ({
            let name = if secure {
                "__Host-andromeda_session"@
            } else {
                "andromeda_session"@
            };
            let token = crate::text::lower_hex(bytes);
            cookie_value(seq![name + "="@ + token], name) == Some(token)
        }),
{
    reveal_strlit("__Host-andromeda_session");
    reveal_strlit("andromeda_session");
    let name = if secure {
        "__Host-andromeda_session"@
    } else {
        "andromeda_session"@
    };
    let token = crate::text::lower_hex(bytes);
    crate::text::lemma_lower_hex_len(bytes);
    crate::text::lemma_lower_hex_digits(bytes);
    assert(!name.contains('=') && !name.contains(';')) by {
        if name.contains('=') || name.contains(';') {
            let j = choose|j: int| 0 <= j < name.len() && (name[j] == '=' || name[j] == ';');
            assert(name[j] != '=' && name[j] != ';');
        }
    }
    assert(!token.contains(';')) by {
        if token.contains(';') {
            let j = choose|j: int| 0 <= j < token.len() && token[j] == ';';
            assert(('0' <= token[j] <= '9') || ('a' <= token[j] <= 'f'));
        }
    }
    let last = token[token.len() - 1];
    assert(('0' <= last <= '9') || ('a' <= last <= 'f'));
    lemma_cookie_read_back(name, token);
}

} // verus!
