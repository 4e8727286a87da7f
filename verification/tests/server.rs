use andromeda::auth::{Account, AuthConfig, AuthEnv, EnvValue, Session};
use andromeda::instances::{ErrorKind, InstanceError};
use andromeda::logging::{Logger, OperationLog};
use andromeda::server::auth::{
    callback_answer, callback_code, check_request, constant_time_eq, cookie, current_session,
    login_available, logout_cookie, require_admin, session_info,
};
use andromeda::server::error::ApiError;
use andromeda::server::instance::operation_error;

fn headers(values: &[&str]) -> Vec<String> {
    values.iter().map(|v| v.to_string()).collect()
}

fn config(admins: &str, client: bool) -> AuthConfig {
    AuthConfig::from_env(AuthEnv {
        origin: Some("https://vm.example.org".into()),
        allow_insecure_http: None,
        client_id: if client { Some("1".into()) } else { None },
        client_secret: if client { Some("2".into()) } else { None },
        admin_discord_ids: EnvValue::Present(admins.into()),
    })
    .unwrap()
}

fn session(discord_id: &str) -> Session {
    Session {
        account: Account {
            id: "a".into(),
            discord_id: discord_id.into(),
            username: "u".into(),
            display_name: "U".into(),
            avatar: None,
        },
        csrf_token: "token".into(),
        token_hash: "hash".into(),
    }
}

#[test]
fn cookies_are_read_only_when_given_exactly_once() {
    assert_eq!(
        cookie(&headers(&["a=1; andromeda_session=abc; b=2"]), "andromeda_session").as_deref(),
        Some("abc")
    );
    assert_eq!(
        cookie(&headers(&["a=1", " andromeda_session = abc"]), "andromeda_session"),
        None
    );
    assert_eq!(
        cookie(&headers(&["a=1", "andromeda_session=x=y"]), "andromeda_session").as_deref(),
        Some("x=y")
    );
    assert_eq!(
        cookie(&headers(&["andromeda_session=1", "andromeda_session=2"]), "andromeda_session"),
        None
    );
    assert_eq!(
        cookie(&headers(&["andromeda_session=1; andromeda_session=1"]), "andromeda_session"),
        None
    );
    assert_eq!(cookie(&headers(&[]), "andromeda_session"), None);
    assert_eq!(
        cookie(&headers(&["  andromeda_login=  "]), "andromeda_login").as_deref(),
        Some("")
    );
}

#[test]
fn session_cookies_are_read_back() {
    let token = "ab".repeat(32);
    let header = format!("andromeda_session={token}");
    assert_eq!(
        cookie(&headers(&[&header]), "andromeda_session").as_deref(),
        Some(token.as_str())
    );
}

#[test]
fn reads_pass_and_writes_need_origin_and_token() {
    assert!(check_request(true, None, Some(None), "token", "https://vm.example.org").is_ok());
    assert!(check_request(false, Some("token"), None, "token", "https://vm.example.org").is_ok());
    assert!(check_request(
        false,
        Some("token"),
        Some(Some("https://vm.example.org")),
        "token",
        "https://vm.example.org"
    )
    .is_ok());
    let foreign = check_request(
        false,
        Some("other"),
        Some(Some("https://evil.example")),
        "token",
        "https://vm.example.org",
    )
    .err()
    .unwrap();
    assert_eq!(foreign.status, 403);
    assert!(foreign.message.contains("(https://vm.example.org)"));
    let unreadable = check_request(false, Some("token"), Some(None), "token", "https://vm.example.org")
        .err()
        .unwrap();
    assert_eq!(unreadable.status, 403);
    let stale = check_request(false, None, None, "token", "https://vm.example.org")
        .err()
        .unwrap();
    assert_eq!(stale.status, 403);
    assert_eq!(
        stale.message,
        "Your request verification token is out of date. Refresh the page and try again."
    );
}

#[test]
fn token_comparison_is_exact() {
    assert!(constant_time_eq(b"abc", b"abc"));
    assert!(!constant_time_eq(b"abc", b"abd"));
    assert!(!constant_time_eq(b"abc", b"ab"));
    assert!(constant_time_eq(b"", b""));
}

#[test]
fn only_configured_administrators_pass() {
    let config = config("42", true);
    assert!(require_admin(&config, session("42")).is_ok());
    let refused = require_admin(&config, session("43")).err().unwrap();
    assert_eq!(refused.status, 403);
    assert_eq!(refused.message, "System administrator access is required.");
}

#[test]
fn sign_in_needs_configuration_and_a_clean_callback() {
    assert!(login_available(&config("", true)).is_ok());
    let off = login_available(&config("", false)).err().unwrap();
    assert_eq!(off.status, 503);
    assert_eq!(off.message, "Discord sign-in is not configured");
    assert_eq!(callback_code(true, false, true, Some("c".into())).as_deref(), Some("c"));
    assert_eq!(callback_code(false, false, true, Some("c".into())), None);
    assert_eq!(callback_code(true, true, true, Some("c".into())), None);
    assert_eq!(callback_code(true, false, false, Some("c".into())), None);
    assert_eq!(callback_code(true, false, true, None), None);
}

#[test]
fn instance_errors_map_to_http_statuses() {
    for (kind, status) in [
        (ErrorKind::Forbidden, 403),
        (ErrorKind::InvalidInput, 400),
        (ErrorKind::NotFound, 404),
        (ErrorKind::Conflict, 409),
        (ErrorKind::Internal, 500),
    ] {
        let error = ApiError::from(InstanceError {
            kind,
            message: "m".into(),
        });
        assert_eq!(error.status, status);
        assert_eq!(error.message, "m");
    }
}

#[test]
fn lookup_failures_log_the_step_without_reporting_completion() {
    let mut logger = Logger::new();
    for status in [500u16, 404] {
        let mut operation = OperationLog::new(&mut logger, "get", Some("missing"));
        operation.step(&mut logger, "Looking up instance in database");
        let error = operation_error(&operation, &mut logger, status, "No such instance");
        assert_eq!(error.status, status);
    }
    let entries = logger.entries();
    assert_eq!(entries.len(), 6);
    for request in entries.chunks(3) {
        assert!(request[0].contains("Request received"));
        assert!(request[1].contains("Looking up instance in database"));
        assert!(request[2].contains("Looking up instance in database failed:"));
        assert!(request.iter().all(|entry| !entry.contains("Completed")));
    }
    assert!(entries[2].contains("Error"));
    assert!(entries[5].contains("Warning"));
}

#[test]
fn the_current_session_needs_a_stored_session_and_a_valid_request() {
    let config = config("", true);
    let read_failed = current_session(&config, Err("locked".into()), true, None, None).err().unwrap();
    assert_eq!(read_failed.status, 500);
    assert_eq!(read_failed.message, "Could not read session");
    let missing = current_session(&config, Ok(None), true, None, None).err().unwrap();
    assert_eq!(missing.status, 401);
    assert_eq!(missing.message, "Please sign in");
    let read = current_session(&config, Ok(Some(session("1"))), true, None, None).ok().unwrap();
    assert_eq!(read.account.discord_id, "1");
    let write = current_session(&config, Ok(Some(session("1"))), false, Some("token"), None);
    assert!(write.is_ok());
    let stale = current_session(&config, Ok(Some(session("1"))), false, Some("old"), None)
        .err()
        .unwrap();
    assert_eq!(stale.status, 403);
}

#[test]
fn the_session_report_shows_the_caller() {
    let admins = config("7", true);
    let report = session_info(&admins, Some(session("7")));
    assert!(report.is_admin);
    assert_eq!(report.user.unwrap().discord_id, "7");
    assert_eq!(report.csrf_token.as_deref(), Some("token"));
    assert!(report.login_available);
    let anonymous = session_info(&config("7", false), None);
    assert!(!anonymous.is_admin);
    assert!(anonymous.user.is_none());
    assert!(anonymous.csrf_token.is_none());
    assert!(!anonymous.login_available);
}

#[test]
fn the_callback_sends_the_browser_home_or_back_to_sign_in() {
    let config = config("", true);
    let mut logger = Logger::new();
    let home = callback_answer(&mut logger, &config, Some("session=1".into()));
    assert_eq!(home.location, "https://vm.example.org/");
    assert_eq!(
        home.cookies,
        vec![
            "session=1".to_string(),
            "__Host-andromeda_login=; Path=/; HttpOnly; SameSite=Lax; Max-Age=0; Secure".into(),
        ]
    );
    assert_eq!(logger.len(), 0);
    let failed = callback_answer(&mut logger, &config, None);
    assert_eq!(failed.location, "https://vm.example.org/login?error=discord");
    assert_eq!(failed.cookies.len(), 1);
    assert!(logger.entry(0).ends_with("] Discord sign-in failed; no session issued"));
    assert_eq!(
        logout_cookie(&config),
        "__Host-andromeda_session=; Path=/; HttpOnly; SameSite=Lax; Max-Age=0; Secure"
    );
}
