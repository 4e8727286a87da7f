use andromeda::auth::{AuthEnv, EnvValue};
use andromeda::config::{gateway_from_env, parse_flags, Config, Flags};
use andromeda::net::Ipv4Address;

fn args(values: &[&str]) -> Vec<String> {
    values.iter().map(|v| v.to_string()).collect()
}

fn auth() -> AuthEnv {
    AuthEnv {
        origin: None,
        allow_insecure_http: None,
        client_id: None,
        client_secret: None,
        admin_discord_ids: EnvValue::NotPresent,
    }
}

#[test]
fn switches_are_read_and_unknown_ones_refused() {
    assert_eq!(parse_flags(&args(&[])), Ok(Flags::default()));
    assert_eq!(
        parse_flags(&args(&["--dry"])),
        Ok(Flags { update_image: false, dry_run: true })
    );
    assert_eq!(
        parse_flags(&args(&["--update-image", "--dry", "--dry"])),
        Ok(Flags { update_image: true, dry_run: true })
    );
    assert_eq!(
        parse_flags(&args(&["--dry", "--verbose", "--nope"])),
        Err("Unknown flag --verbose, valid flags are [ --dry, --update-image ]".to_string())
    );
}

#[test]
fn gateway_defaults_to_the_first_address_of_the_users_network() {
    assert_eq!(gateway_from_env(&EnvValue::NotPresent), Ok(Ipv4Address(10, 0, 0, 1)));
    assert_eq!(
        gateway_from_env(&EnvValue::Present("192.168.100.1".into())),
        Ok(Ipv4Address(192, 168, 100, 1))
    );
    assert_eq!(
        gateway_from_env(&EnvValue::Present("gateway".into())),
        Err("ANDROMEDA_GATEWAY_IP must be an IPv4 address, for example 10.0.0.1".to_string())
    );
    assert_eq!(
        gateway_from_env(&EnvValue::NotUnicode),
        Err("Invalid ANDROMEDA_GATEWAY_IP".to_string())
    );
}

#[test]
fn configuration_reads_switches_then_sign_in_then_gateway() {
    let config = Config::from_args(&args(&["--dry"]), auth(), &EnvValue::NotPresent).ok().unwrap();
    assert!(config.flags.dry_run);
    assert_eq!(config.bind_address, "0.0.0.0:9966");
    assert_eq!(config.libvirt_uri, "qemu:///system");
    assert_eq!(config.gateway_ip, Ipv4Address(10, 0, 0, 1));
    assert_eq!(config.paths.templates(), "/var/lib/libvirt/images/templates");
    let mut bad_auth = auth();
    bad_auth.origin = Some("http://example.org".into());
    assert!(Config::from_args(&args(&["--x"]), auth(), &EnvValue::NotPresent)
        .err()
        .unwrap()
        .starts_with("Unknown flag --x"));
    assert!(Config::from_args(&args(&[]), bad_auth, &EnvValue::NotUnicode)
        .err()
        .unwrap()
        .starts_with("Use HTTPS"));
    assert_eq!(
        Config::from_args(&args(&[]), auth(), &EnvValue::NotUnicode).err().unwrap(),
        "Invalid ANDROMEDA_GATEWAY_IP"
    );
}

#[test]
fn the_first_failing_rule_gives_the_error() {
    let mut bad_auth = auth();
    bad_auth.origin = Some("http://example.org".into());
    assert_eq!(
        Config::from_args(&args(&["--dry", "--x"]), bad_auth, &EnvValue::NotUnicode)
            .err()
            .unwrap(),
        "Unknown flag --x, valid flags are [ --dry, --update-image ]"
    );
    let mut bad_auth = auth();
    bad_auth.origin = Some("http://example.org".into());
    let sign_in_error = Config::from_args(&args(&["--dry"]), bad_auth, &EnvValue::NotUnicode)
        .err()
        .unwrap();
    assert!(sign_in_error.starts_with("Use HTTPS"), "{sign_in_error}");
    assert_ne!(sign_in_error, "Invalid ANDROMEDA_GATEWAY_IP");
}
