use andromeda::auth::discord::{
    authorize_url, check_identity, display_name, login_redirect, token_request_form, DiscordUser,
};
use andromeda::auth::permissions::{check_access, parse_role, Permission, Role};
use andromeda::auth::{
    hash, login_values_plausible, random_token, session_token_well_formed, Account, AuthConfig,
    AuthEnv, EnvValue,
};
use andromeda::instances::ErrorKind;

fn env(origin: &str) -> AuthEnv {
    AuthEnv {
        origin: Some(origin.into()),
        allow_insecure_http: None,
        client_id: None,
        client_secret: None,
        admin_discord_ids: EnvValue::NotPresent,
    }
}

fn account(discord_id: &str) -> Account {
    Account {
        id: "account".into(),
        discord_id: discord_id.into(),
        username: "user".into(),
        display_name: "User".into(),
        avatar: None,
    }
}

fn error_of(result: Result<AuthConfig, String>) -> String {
    match result {
        Ok(_) => panic!("configuration accepted"),
        Err(e) => e,
    }
}

#[test]
fn localhost_origin_is_the_default_and_plain_http_is_allowed_there() {
    let mut e = env("x");
    e.origin = None;
    let config = AuthConfig::from_env(e).unwrap();
    assert_eq!(config.origin, "http://localhost:5173");
    assert!(!config.secure);
    assert!(!config.enabled());
    assert_eq!(config.session_cookie(), "andromeda_session");
    assert_eq!(config.login_cookie(), "andromeda_login");
}

#[test]
fn https_origins_are_secure() {
    let config = AuthConfig::from_env(env("https://vm.example.org")).unwrap();
    assert!(config.secure);
    assert_eq!(config.origin, "https://vm.example.org");
    assert_eq!(config.session_cookie(), "__Host-andromeda_session");
    assert_eq!(config.login_cookie(), "__Host-andromeda_login");
    assert_eq!(
        config.callback_url(),
        "https://vm.example.org/api/auth/discord/callback"
    );
}

#[test]
fn plain_http_needs_localhost_or_an_allowed_private_address() {
    assert_eq!(
        error_of(AuthConfig::from_env(env("http://example.org"))),
        "Use HTTPS for ANDROMEDA_PUBLIC_ORIGIN. For development on a private LAN IP, set ANDROMEDA_ALLOW_INSECURE_HTTP=true"
    );
    assert!(AuthConfig::from_env(env("http://192.168.1.4:5173")).is_err());
    let mut lan = env("http://192.168.1.4:5173");
    lan.allow_insecure_http = Some("true".into());
    assert!(AuthConfig::from_env(lan).is_ok());
    let mut public = env("http://8.8.8.8");
    public.allow_insecure_http = Some("true".into());
    assert!(AuthConfig::from_env(public).is_err());
    let mut unique_local = env("http://[fd00::1]");
    unique_local.allow_insecure_http = Some("true".into());
    assert!(AuthConfig::from_env(unique_local).is_ok());
    assert!(AuthConfig::from_env(env("http://127.0.0.1:8080")).is_ok());
    assert!(AuthConfig::from_env(env("http://[::1]:8080")).is_ok());
}

#[test]
fn origins_carry_no_path_credentials_query_or_fragment() {
    for origin in [
        "https://vm.example.org/app",
        "https://user@vm.example.org",
        "https://user:pw@vm.example.org",
        "https://vm.example.org/?a=b",
        "https://vm.example.org/#top",
    ] {
        assert_eq!(
            error_of(AuthConfig::from_env(env(origin))),
            "ANDROMEDA_PUBLIC_ORIGIN must be an origin without a path or credentials",
            "{origin}"
        );
    }
    assert_eq!(
        error_of(AuthConfig::from_env(env("not a url"))),
        "Invalid ANDROMEDA_PUBLIC_ORIGIN"
    );
}

#[test]
fn discord_client_id_and_secret_come_together() {
    let mut e = env("https://vm.example.org");
    e.client_id = Some("123".into());
    assert_eq!(
        error_of(AuthConfig::from_env(e)),
        "Set both DISCORD_CLIENT_ID and DISCORD_CLIENT_SECRET"
    );
    let mut e = env("https://vm.example.org");
    e.client_id = Some("123".into());
    e.client_secret = Some(String::new());
    assert!(AuthConfig::from_env(e).is_err());
    let mut e = env("https://vm.example.org");
    e.client_id = Some("123".into());
    e.client_secret = Some("secret".into());
    let config = AuthConfig::from_env(e).unwrap();
    assert!(config.enabled());
}

#[test]
fn administrator_ids_must_be_positive_decimal_numbers() {
    let mut e = env("https://vm.example.org");
    e.admin_discord_ids = EnvValue::Present(" 123 , 456".into());
    let config = AuthConfig::from_env(e).unwrap();
    assert!(config.is_admin(&account("123")));
    assert!(config.is_admin(&account("456")));
    assert!(!config.is_admin(&account("789")));
    for bad in ["0", "012", "+5", "12a", "1,,2", "18446744073709551616"] {
        let mut e = env("https://vm.example.org");
        e.admin_discord_ids = EnvValue::Present(bad.into());
        assert_eq!(
            error_of(AuthConfig::from_env(e)),
            "ANDROMEDA_ADMIN_DISCORD_IDS must be comma-separated numeric Discord user IDs",
            "{bad}"
        );
    }
    let mut e = env("https://vm.example.org");
    e.admin_discord_ids = EnvValue::Present("18446744073709551615".into());
    assert!(AuthConfig::from_env(e).is_ok());
    let mut e = env("https://vm.example.org");
    e.admin_discord_ids = EnvValue::Present("   ".into());
    assert!(AuthConfig::from_env(e).is_ok());
    let mut e = env("https://vm.example.org");
    e.admin_discord_ids = EnvValue::NotUnicode;
    assert_eq!(
        error_of(AuthConfig::from_env(e)),
        "Invalid ANDROMEDA_ADMIN_DISCORD_IDS"
    );
}

#[test]
fn cookies_carry_the_lifetime_and_the_secure_flag() {
    let plain = AuthConfig::from_env(env("http://localhost:5173")).unwrap();
    assert_eq!(
        plain.cookie("andromeda_login", "abc", 600),
        "andromeda_login=abc; Path=/; HttpOnly; SameSite=Lax; Max-Age=600"
    );
    assert_eq!(
        plain.cookie("n", "", 0),
        "n=; Path=/; HttpOnly; SameSite=Lax; Max-Age=0"
    );
    assert_eq!(
        plain.cookie("n", "v", -5),
        "n=v; Path=/; HttpOnly; SameSite=Lax; Max-Age=-5"
    );
    assert_eq!(
        plain.cookie("n", "v", i64::MIN),
        "n=v; Path=/; HttpOnly; SameSite=Lax; Max-Age=-9223372036854775808"
    );
    let secure = AuthConfig::from_env(env("https://vm.example.org")).unwrap();
    assert_eq!(
        secure.cookie("__Host-andromeda_session", "t", 604800),
        "__Host-andromeda_session=t; Path=/; HttpOnly; SameSite=Lax; Max-Age=604800; Secure"
    );
}

#[test]
fn hashes_are_lowercase_sha256() {
    assert_eq!(
        hash(""),
        "e3b0c44298fc1c149afbf4c8996fb92427ae41e4649b934ca495991b7852b855"
    );
    assert_eq!(
        hash("abc"),
        "ba7816bf8f01cfea414140de5dae2223b00361a396177a9cb410ff61f20015ad"
    );
}

#[test]
fn random_tokens_are_accepted_as_sessions_and_sign_in_values() {
    let first = random_token().unwrap();
    let second = random_token().unwrap();
    assert_ne!(first, second);
    assert_eq!(first.len(), 64);
    assert!(first.bytes().all(|b| b.is_ascii_digit() || (b'a'..=b'f').contains(&b)));
    assert!(session_token_well_formed(&first));
    assert!(login_values_plausible(&first, &second));
}

#[test]
fn session_tokens_must_be_64_hexadecimal_digits() {
    assert!(session_token_well_formed(&"A".repeat(64)));
    assert!(!session_token_well_formed(&"a".repeat(63)));
    assert!(!session_token_well_formed(&"g".repeat(64)));
    assert!(!login_values_plausible(&"a".repeat(64), "short"));
}

#[test]
fn roles_grant_what_their_rank_allows() {
    let owner = Role::Owner.permissions();
    assert!(owner.view && owner.control && owner.download && owner.delete && owner.manage_access);
    let operator = Role::Operator.permissions();
    assert!(operator.view && operator.control);
    assert!(!operator.download && !operator.delete && !operator.manage_access);
    let viewer = Role::Viewer.permissions();
    assert!(viewer.view && !viewer.control && !viewer.download && !viewer.delete);
    assert_eq!(parse_role("operator"), Some(Role::Operator));
    assert_eq!(parse_role("admin"), None);
}

#[test]
fn access_checks_answer_missing_members_as_missing_instances() {
    assert!(matches!(check_access(Some("owner"), Permission::Delete), Ok(Role::Owner)));
    assert!(matches!(check_access(Some("viewer"), Permission::View), Ok(Role::Viewer)));
    let forbidden = check_access(Some("viewer"), Permission::Control).err().unwrap();
    assert_eq!(forbidden.kind, ErrorKind::Forbidden);
    assert_eq!(forbidden.message, "Your role does not permit this operation");
    let operator = check_access(Some("operator"), Permission::Download).err().unwrap();
    assert_eq!(operator.kind, ErrorKind::Forbidden);
    for role in [None, Some("stranger")] {
        let missing = check_access(role, Permission::View).err().unwrap();
        assert_eq!(missing.kind, ErrorKind::NotFound);
        assert_eq!(missing.message, "No such instance");
    }
}

#[test]
fn discord_identities_need_numeric_ids() {
    let user = |id: &str| DiscordUser {
        id: id.into(),
        username: "alice".into(),
        global_name: None,
        avatar: None,
    };
    assert!(check_identity(user("80351110224678912")).is_ok());
    assert_eq!(check_identity(user("")).err().unwrap(), "Invalid Discord identity");
    assert!(check_identity(user("12a")).is_err());
    let mut named = user("1");
    assert_eq!(display_name(&named), "alice");
    named.global_name = Some("Alice".into());
    assert_eq!(display_name(&named), "Alice");
}

#[test]
fn sign_in_requests_are_form_encoded() {
    let mut e = env("https://vm.example.org");
    e.client_id = Some("12 34".into());
    e.client_secret = Some("s&c=r+t".into());
    let config = AuthConfig::from_env(e).unwrap();
    assert_eq!(
        authorize_url(&config, "st*te.é"),
        "https://discord.com/oauth2/authorize?client_id=12+34&response_type=code&scope=identify&redirect_uri=https%3A%2F%2Fvm.example.org%2Fapi%2Fauth%2Fdiscord%2Fcallback&state=st*te.%C3%A9"
    );
    assert_eq!(
        token_request_form(&config, "c/d"),
        "client_id=12+34&client_secret=s%26c%3Dr%2Bt&grant_type=authorization_code&code=c%2Fd&redirect_uri=https%3A%2F%2Fvm.example.org%2Fapi%2Fauth%2Fdiscord%2Fcallback"
    );
    let (url, cookie) = login_redirect(&config, "s", "b");
    assert!(url.ends_with("&state=s"));
    assert_eq!(
        cookie,
        "__Host-andromeda_login=b; Path=/; HttpOnly; SameSite=Lax; Max-Age=600; Secure"
    );
}
