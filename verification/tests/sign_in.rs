use andromeda::auth::discord::{accepts_chunk, bearer_header, check_response, DiscordUser};
use andromeda::auth::sign_in::{
    attempt_consumed, attempt_key, session_key, sign_in_failed, signed_out, LoginStart, SignIn,
};
use andromeda::auth::{hash, AuthConfig, AuthEnv, EnvValue};
use andromeda::logging::Logger;

fn config(client: bool) -> AuthConfig {
    AuthConfig::from_env(AuthEnv {
        origin: Some("https://vm.example.org".into()),
        allow_insecure_http: None,
        client_id: if client { Some("123".into()) } else { None },
        client_secret: if client { Some("secret".into()) } else { None },
        admin_discord_ids: EnvValue::NotPresent,
    })
    .unwrap()
}

fn messages(logger: &Logger) -> Vec<String> {
    logger
        .entries()
        .iter()
        .map(|entry| entry.split_once("] ").map(|(_, m)| m.to_string()).unwrap())
        .collect()
}

fn user(id: &str) -> DiscordUser {
    DiscordUser {
        id: id.into(),
        username: "alice".into(),
        global_name: None,
        avatar: Some("a1b2".into()),
    }
}

#[test]
fn sign_in_needs_discord_configured() {
    let mut logger = Logger::new();
    match LoginStart::begin(&mut logger, &config(false), None) {
        Err(e) => assert_eq!(e, "Discord sign-in is not configured"),
        Ok(_) => panic!("sign-in started"),
    }
    assert_eq!(logger.len(), 0);
}

#[test]
fn a_sign_in_attempt_is_stored_by_its_hashes() {
    let mut logger = Logger::new();
    let start = match LoginStart::begin(&mut logger, &config(true), Some("old")) {
        Ok(start) => start,
        Err(e) => panic!("{e}"),
    };
    assert_eq!(start.stale_browser_hash(), hash("old"));
    assert_eq!(start.state_hash().len(), 64);
    assert_ne!(start.state_hash(), start.browser_hash());
    let state_hash = start.state_hash().to_string();
    let browser_hash = start.browser_hash().to_string();
    let (url, cookie) = start.redirect(&mut logger);
    let state = url.split("state=").nth(1).unwrap().to_string();
    assert_eq!(hash(&state), state_hash);
    assert!(url.starts_with("https://discord.com/oauth2/authorize?client_id=123&response_type=code"));
    let browser = cookie
        .strip_prefix("__Host-andromeda_login=")
        .unwrap()
        .split(';')
        .next()
        .unwrap()
        .to_string();
    assert_eq!(hash(&browser), browser_hash);
    assert!(cookie.ends_with("; Max-Age=600; Secure"));
    assert_eq!(
        messages(&logger),
        vec![
            "Request received: sign in instances",
            "Creating Discord login request",
            "Redirecting to Discord",
        ]
    );
    let key = attempt_key(&state, &browser).unwrap();
    assert_eq!(key.0, state_hash);
    assert_eq!(key.1, browser_hash);
    assert!(attempt_key("short", &browser).is_none());
    assert!(attempt_consumed(1));
    assert!(!attempt_consumed(0));
    let fresh = match LoginStart::begin(&mut logger, &config(true), None) {
        Ok(start) => start,
        Err(e) => panic!("{e}"),
    };
    assert_eq!(fresh.stale_browser_hash(), hash(""));
}

#[test]
fn a_finished_sign_in_prepares_a_fresh_session() {
    let mut logger = Logger::new();
    let mut sign_in = SignIn::begin(&mut logger);
    match sign_in.identified(&mut logger, &config(true), user("12ab"), None) {
        Err(e) => assert_eq!(e, "Invalid Discord identity"),
        Ok(_) => panic!("accepted a bad identity"),
    }
    assert_eq!(logger.len(), 2);
    let old = "a".repeat(64);
    let session = match sign_in.identified(&mut logger, &config(true), user("1234"), Some(&old)) {
        Ok(session) => session,
        Err(e) => panic!("{e}"),
    };
    assert_eq!(session.discord_id, "1234");
    assert_eq!(session.display_name, "alice");
    assert_eq!(session.avatar.as_deref(), Some("a1b2"));
    assert_eq!(session.stale_token_hash, Some(hash(&old)));
    assert_eq!(session.account_id.len(), 36);
    assert_eq!(session.csrf_token.len(), 64);
    let token = session
        .cookie
        .strip_prefix("__Host-andromeda_session=")
        .unwrap()
        .split(';')
        .next()
        .unwrap()
        .to_string();
    assert_eq!(hash(&token), session.token_hash);
    assert!(session.cookie.ends_with("; Max-Age=604800; Secure"));
    assert_eq!(session_key(Some(&token)), Some(session.token_hash.clone()));
    sign_in.complete(&mut logger);
    assert_eq!(
        messages(&logger),
        vec![
            "Request received: complete sign in instances",
            "Verifying Discord identity",
            "Saving account and creating session",
            "Completed: signed in",
        ]
    );
}

#[test]
fn only_well_formed_session_tokens_are_looked_up() {
    assert_eq!(session_key(None), None);
    assert_eq!(session_key(Some("not a token")), None);
    let token = "AB".repeat(32);
    assert_eq!(session_key(Some(&token)), Some(hash(&token)));
}

#[test]
fn sign_outs_and_failed_sign_ins_are_logged() {
    let mut logger = Logger::new();
    signed_out(&mut logger);
    sign_in_failed(&mut logger);
    assert!(logger.entry(0).ends_with("] Completed: signed out"));
    assert!(logger.entry(1).starts_with("[ Warning ]"));
    assert!(logger.entry(1).ends_with("] Discord sign-in failed; no session issued"));
}

#[test]
fn discord_answers_are_limited_and_checked() {
    assert!(accepts_chunk(0, 65536));
    assert!(accepts_chunk(65000, 536));
    assert!(!accepts_chunk(65000, 537));
    assert!(!accepts_chunk(usize::MAX, 1));
    assert_eq!(bearer_header("abc"), "Authorization: Bearer abc");
    assert!(check_response(200).is_ok());
    assert_eq!(check_response(401).unwrap_err(), "Discord authentication request failed");
}
