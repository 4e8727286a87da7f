//! Starting and finishing a Discord sign-in, and the session lookups around
//! it. The caller runs the database statements and the requests to Discord
//! between the steps.
use vstd::prelude::*;

use crate::auth::discord::{
    authorize_pairs, check_identity, display_name, form_pairs, is_discord_id, login_redirect,
    DiscordUser, AUTHORIZE_URL,
};
use crate::auth::{
    cookie_text, hash, is_session_token, is_token_text, random_token, session_token_well_formed,
    sha256, AuthConfig, LOGIN_SECONDS, SESSION_SECONDS,
};
use crate::instances::info;
use crate::libvirt::is_uuid_v4_text;
use crate::random::new_uuid;
use crate::logging::{
    appends, lemma_appends_one, lemma_appends_push, log_message, request_message, Logger,
    OperationLog, Severity,
};
use crate::text::lower_hex;

verus! {

/// The stored form of a token: the SHA-256 digest of its UTF-8 bytes in
/// lowercase hexadecimal. Only this form is kept in the database.
pub open spec fn stored_hash(text: Seq<char>) -> Seq<char> {
    lower_hex(sha256(vstd::utf8::encode_utf8(text)))
}

/// The name of the sign-in cookie.
pub open spec fn login_cookie_name(secure: bool) -> Seq<char> {
    if secure {
        "__Host-andromeda_login"@
    } else {
        "andromeda_login"@
    }
}

/// The name of the session cookie.
pub open spec fn session_cookie_name(secure: bool) -> Seq<char> {
    if secure {
        "__Host-andromeda_session"@
    } else {
        "andromeda_session"@
    }
}

/// A sign-in attempt ready to be stored: two fresh tokens, the `state` sent to
/// Discord and the `browser` value kept in the sign-in cookie, and what the
/// database and the browser get of them.
pub struct LoginStart {
    log: OperationLog,
    state: String,
    browser: String,
    stale_browser_hash: String,
    state_hash: String,
    browser_hash: String,
    redirect: String,
    cookie: String,
}

impl LoginStart {
    /// The state token sent to Discord.
    pub closed spec fn state_token(&self) -> Seq<char> {
        self.state@
    }

    /// The token kept in the sign-in cookie.
    pub closed spec fn browser_token(&self) -> Seq<char> {
        self.browser@
    }

    /// Attempts of this browser before are dropped: the stored form of its
    /// old sign-in cookie value (of the empty text when it had none).
    pub closed spec fn stale_browser_key(&self) -> Seq<char> {
        self.stale_browser_hash@
    }

    /// The stored form of the state token.
    pub closed spec fn state_key(&self) -> Seq<char> {
        self.state_hash@
    }

    /// The stored form of the browser token.
    pub closed spec fn browser_key(&self) -> Seq<char> {
        self.browser_hash@
    }

    /// The stored form of the old sign-in cookie value.
    pub fn stale_browser_hash(&self) -> (r: &str)
        ensures
            r@ == self.stale_browser_key(),
    {
        self.stale_browser_hash.as_str()
    }

    /// The stored form of the state token.
    pub fn state_hash(&self) -> (r: &str)
        ensures
            r@ == self.state_key(),
    {
        self.state_hash.as_str()
    }

    /// The stored form of the browser token.
    pub fn browser_hash(&self) -> (r: &str)
        ensures
            r@ == self.browser_key(),
    {
        self.browser_hash.as_str()
    }

    /// Where the browser is sent.
    pub closed spec fn redirect_url(&self) -> Seq<char> {
        self.redirect@
    }

    /// The sign-in cookie.
    pub closed spec fn login_cookie(&self) -> Seq<char> {
        self.cookie@
    }

    /// Starts a sign-in for a browser whose old sign-in cookie held
    /// `old_browser`. Refused while Discord sign-in is not configured (nothing
    /// is logged then); otherwise the request is logged and two fresh tokens
    /// are drawn, which may fail.
    pub fn begin(logger: &mut Logger, config: &AuthConfig, old_browser: Option<&str>) -> (r: Result<
        LoginStart,
        String,
    >)
        ensures
            !(config.client_id is Some && config.client_secret is Some) ==> {
                &&& r matches Err(e) && e@ == "Discord sign-in is not configured"@
                &&& final(logger)@ == old(logger)@
            },
            (config.client_id is Some && config.client_secret is Some) ==> {
                &&& appends(
                    old(logger)@,
                    final(logger)@,
                    seq![
                        info(request_message("sign in"@, None)),
                        info("Creating Discord login request"@),
                    ],
                )
                &&& r matches Err(e) ==> e@ == "Could not generate authentication token"@
            },
            r matches Ok(start) ==> {
                &&& is_token_text(start.state_token())
                &&& is_token_text(start.browser_token())
                &&& start.state_key() == stored_hash(start.state_token())
                &&& start.browser_key() == stored_hash(start.browser_token())
                &&& start.stale_browser_key() == stored_hash(
                    match old_browser {
                        Some(b) => b@,
                        None => Seq::empty(),
                    },
                )
                &&& start.redirect_url() == AUTHORIZE_URL@ + "?"@ + form_pairs(
                    authorize_pairs(config, start.state_token()),
                )
                &&& start.login_cookie() == cookie_text(
                    login_cookie_name(config.secure),
                    start.browser_token(),
                    LOGIN_SECONDS as int,
                    config.secure,
                )
            },
    {
        if !config.enabled() {
            return Err(String::from_str("Discord sign-in is not configured"));
        }
        let ghost l0 = logger@;
        let mut log = OperationLog::new(logger, "sign in", None);
        let ghost l1 = logger@;
        proof {
            lemma_appends_one(l0, l1, Severity::Info, request_message("sign in"@, None));
        }
        log.step(logger, "Creating Discord login request");
        proof {
            lemma_appends_push(
                l0,
                l1,
                logger@,
                seq![info(request_message("sign in"@, None))],
                Severity::Info,
                "Creating Discord login request"@,
            );
            assert(seq![info(request_message("sign in"@, None))].push(
                info("Creating Discord login request"@),
            ) =~= seq![
                info(request_message("sign in"@, None)),
                info("Creating Discord login request"@),
            ]);
        }
        let state = random_token()?;
        let browser = random_token()?;
        let stale_browser_hash = match old_browser {
            Some(b) => hash(b),
            None => hash(""),
        };
        proof {
            reveal_strlit("");
        }
        let state_hash = hash(state.as_str());
        let browser_hash = hash(browser.as_str());
        let (redirect, cookie) = login_redirect(config, state.as_str(), browser.as_str());
        Ok(
            LoginStart {
                log,
                state,
                browser,
                stale_browser_hash,
                state_hash,
                browser_hash,
                redirect,
                cookie,
            },
        )
    }

    /// The attempt is stored: logs the redirect and hands out where to send the
    /// browser and the sign-in cookie to set.
    pub fn redirect(self, logger: &mut Logger) -> (r: (String, String))
        ensures
            r.0@ == self.redirect_url(),
            r.1@ == self.login_cookie(),
            appends(old(logger)@, final(logger)@, seq![info("Redirecting to Discord"@)]),
    {
        let ghost l0 = logger@;
        self.log.info(logger, "Redirecting to Discord");
        proof {
            lemma_appends_one(l0, logger@, Severity::Info, "Redirecting to Discord"@);
        }
        (self.redirect, self.cookie)
    }
}

/// What the database keys a sign-in attempt by: the stored forms of its state
/// and browser values, when both are 64 bytes long (else no attempt matches).
pub fn attempt_key(state: &str, browser: &str) -> (r: Option<(String, String)>)
    ensures
        r is Some <==> (state.len() == 64 && browser.len() == 64),
        r matches Some(k) ==> k.0@ == stored_hash(state@) && k.1@ == stored_hash(browser@),
{
    if crate::auth::login_values_plausible(state, browser) {
        Some((hash(state), hash(browser)))
    } else {
        None
    }
}

/// An attempt is consumed when exactly one stored attempt was deleted.
pub fn attempt_consumed(deleted_rows: u64) -> (r: bool)
    ensures
        r == (deleted_rows == 1),
{
    deleted_rows == 1
}

/// The account and session a finished sign-in stores.
pub struct NewSession {
    /// The ID the account gets if this Discord user is new.
    pub account_id: String,
    pub discord_id: String,
    pub username: String,
    pub display_name: String,
    pub avatar: Option<String>,
    /// The session this browser held before, to be removed.
    pub stale_token_hash: Option<String>,
    pub token_hash: String,
    pub csrf_token: String,
    /// The session cookie, holding the new session token.
    pub cookie: String,
}

/// A sign-in being finished.
pub struct SignIn {
    log: OperationLog,
}

impl SignIn {
    /// The step that the sign-in is at.
    pub closed spec fn step(&self) -> Seq<char> {
        self.log.current_step()
    }

    /// Starts finishing a sign-in: logs the request and that the Discord
    /// identity is verified next.
    pub fn begin(logger: &mut Logger) -> (r: SignIn)
        ensures
            r.step() == "Verifying Discord identity"@,
            appends(
                old(logger)@,
                final(logger)@,
                seq![
                    info(request_message("complete sign in"@, None)),
                    info("Verifying Discord identity"@),
                ],
            ),
    {
        let ghost l0 = logger@;
        let mut log = OperationLog::new(logger, "complete sign in", None);
        let ghost l1 = logger@;
        proof {
            lemma_appends_one(l0, l1, Severity::Info, request_message("complete sign in"@, None));
        }
        log.step(logger, "Verifying Discord identity");
        proof {
            lemma_appends_push(
                l0,
                l1,
                logger@,
                seq![info(request_message("complete sign in"@, None))],
                Severity::Info,
                "Verifying Discord identity"@,
            );
            assert(seq![info(request_message("complete sign in"@, None))].push(
                info("Verifying Discord identity"@),
            ) =~= seq![
                info(request_message("complete sign in"@, None)),
                info("Verifying Discord identity"@),
            ]);
        }
        SignIn { log }
    }

    /// Discord reported `user`; the browser held the session token `old_token`
    /// before. The identity must have a numeric ID; then a session with fresh
    /// session and verification tokens is prepared.
    pub fn identified(
        &mut self,
        logger: &mut Logger,
        config: &AuthConfig,
        user: DiscordUser,
        old_token: Option<&str>,
    ) -> (r: Result<NewSession, String>)
        ensures
            !is_discord_id(user.id@) ==> {
                &&& r matches Err(e) && e@ == "Invalid Discord identity"@
                &&& final(logger)@ == old(logger)@
            },
            is_discord_id(user.id@) ==> {
                &&& final(self).step() == "Saving account and creating session"@
                &&& appends(
                    old(logger)@,
                    final(logger)@,
                    seq![info("Saving account and creating session"@)],
                )
                &&& r matches Err(e) ==> e@ == "Could not generate authentication token"@ || e@
                    == "Could not generate an account ID"@
            },
            r matches Ok(s) ==> exists|token: Seq<char>|
                #![trigger stored_hash(token)]
                {
                    &&& is_token_text(token)
                    &&& is_token_text(s.csrf_token@)
                    &&& is_uuid_v4_text(s.account_id@)
                    &&& s.discord_id@ == user.id@
                    &&& s.username@ == user.username@
                    &&& s.display_name@ == (match user.global_name {
                        Some(g) => g@,
                        None => user.username@,
                    })
                    &&& s.avatar == user.avatar
                    &&& (match old_token {
                        Some(t) => s.stale_token_hash matches Some(h) && h@ == stored_hash(t@),
                        None => s.stale_token_hash is None,
                    })
                    &&& s.token_hash@ == stored_hash(token)
                    &&& s.cookie@ == cookie_text(
                        session_cookie_name(config.secure),
                        token,
                        SESSION_SECONDS as int,
                        config.secure,
                    )
                },
    {
        let user = check_identity(user)?;
        let ghost l0 = logger@;
        self.log.step(logger, "Saving account and creating session");
        proof {
            lemma_appends_one(l0, logger@, Severity::Info, "Saving account and creating session"@);
        }
        let token = random_token()?;
        let csrf_token = random_token()?;
        let account_id = match new_uuid() {
            Some(id) => id,
            None => {
                return Err(String::from_str("Could not generate an account ID"));
            },
        };
        let display = display_name(&user);
        let stale_token_hash = match old_token {
            Some(t) => Some(hash(t)),
            None => None,
        };
        let token_hash = hash(token.as_str());
        let cookie = config.cookie(config.session_cookie(), token.as_str(), SESSION_SECONDS);
        let session = NewSession {
            account_id,
            discord_id: user.id,
            username: user.username,
            display_name: display,
            avatar: user.avatar,
            stale_token_hash,
            token_hash,
            csrf_token,
            cookie,
        };
        assert(session.token_hash@ == stored_hash(token@));
        Ok(session)
    }

    /// The account and session are stored.
    pub fn complete(&self, logger: &mut Logger)
        ensures
            appends(old(logger)@, final(logger)@, seq![info("Completed: signed in"@)]),
    {
        let ghost l0 = logger@;
        self.log.info(logger, "Completed: signed in");
        proof {
            lemma_appends_one(l0, logger@, Severity::Info, "Completed: signed in"@);
        }
    }
}

/// What a session cookie value is looked up by: its stored form, when it is
/// 64 hexadecimal digits (else there is no session to find).
pub fn session_key(token: Option<&str>) -> (r: Option<String>)
    ensures
        match token {
            Some(t) => if is_session_token(t@) {
                r matches Some(h) && h@ == stored_hash(t@)
            } else {
                r is None
            },
            None => r is None,
        },
{
    match token {
        Some(t) => if session_token_well_formed(t) {
            Some(hash(t))
        } else {
            None
        },
        None => None,
    }
}

/// Logs that a browser signed out.
pub fn signed_out(logger: &mut Logger)
    ensures
        appends(old(logger)@, final(logger)@, seq![info("Completed: signed out"@)]),
{
    let ghost l0 = logger@;
    log_message(logger, Severity::Info, "Completed: signed out");
    proof {
        lemma_appends_one(l0, logger@, Severity::Info, "Completed: signed out"@);
    }
}

/// Logs that a sign-in failed without issuing a session.
pub fn sign_in_failed(logger: &mut Logger)
    ensures
        appends(
            old(logger)@,
            final(logger)@,
            seq![(Severity::Warning, "Discord sign-in failed; no session issued"@)],
        ),
{
    let ghost l0 = logger@;
    log_message(logger, Severity::Warning, "Discord sign-in failed; no session issued");
    proof {
        lemma_appends_one(
            l0,
            logger@,
            Severity::Warning,
            "Discord sign-in failed; no session issued"@,
        );
    }
}

} // verus!
