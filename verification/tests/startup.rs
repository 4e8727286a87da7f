use andromeda::config::Flags;
use andromeda::paths::StoragePaths;
use andromeda::startup::{Startup, StartupAction, StartupEvent, ARCH_DOWNLOAD_URL};
use andromeda::logging::Logger;

fn messages(logger: &Logger) -> Vec<String> {
    logger
        .entries()
        .iter()
        .map(|entry| entry.split_once("] ").map(|(_, m)| m.to_string()).unwrap())
        .collect()
}

fn fatal<T>(result: Result<T, String>) -> String {
    match result {
        Ok(_) => panic!("expected a refusal"),
        Err(e) => e,
    }
}

fn started(logger: &mut Logger, update_image: bool) -> Startup {
    let flags = Flags { update_image, dry_run: false };
    let (startup, action) =
        Startup::start(logger, Ok("root".into()), flags, StoragePaths::default(), "qemu:///system")
            .ok()
            .unwrap();
    match action {
        StartupAction::CreateDirectories { templates, seeds, instances } => {
            assert_eq!(templates, "/var/lib/libvirt/images/templates");
            assert_eq!(seeds, "/var/lib/libvirt/images/seed");
            assert_eq!(instances, "/var/lib/libvirt/images/instances");
        }
        _ => panic!("expected the directories"),
    }
    startup
}

#[test]
fn only_root_may_start_the_server() {
    let mut logger = Logger::new();
    let flags = Flags::default();
    assert_eq!(
        fatal(Startup::start(&mut logger, Ok("alice".into()), flags, StoragePaths::default(), "qemu:///system")),
        "This program must be run as root."
    );
    assert_eq!(
        fatal(Startup::start(
            &mut logger,
            Err("environment variable not found".into()),
            flags,
            StoragePaths::default(),
            "qemu:///system"
        )),
        "$USER is not defined: environment variable not found"
    );
    assert_eq!(logger.len(), 0);
}

#[test]
fn a_prepared_host_is_verified_step_by_step() {
    let mut logger = Logger::new();
    let mut startup = started(&mut logger, false);
    assert!(matches!(
        startup.advance(&mut logger, StartupEvent::Done(Ok(()))),
        StartupAction::CheckImage { ref path } if path == "/var/lib/libvirt/images/templates/Arch-Linux-x86_64-cloudimg.qcow2"
    ));
    assert!(matches!(
        startup.advance(&mut logger, StartupEvent::Present(true)),
        StartupAction::Connect { ref uri } if uri == "qemu:///system"
    ));
    assert!(matches!(
        startup.advance(&mut logger, StartupEvent::Done(Ok(()))),
        StartupAction::FindNetwork { ref name } if name == "andromeda-users"
    ));
    assert!(matches!(
        startup.advance(&mut logger, StartupEvent::Present(true)),
        StartupAction::CheckNetworkActive
    ));
    assert!(matches!(
        startup.advance(&mut logger, StartupEvent::Flag(Ok(true))),
        StartupAction::CheckAutostart
    ));
    assert!(matches!(
        startup.advance(&mut logger, StartupEvent::Flag(Ok(true))),
        StartupAction::CreateDirectory { ref path } if path == "/var/lib/andromeda/logs"
    ));
    assert!(matches!(
        startup.advance(&mut logger, StartupEvent::Done(Ok(()))),
        StartupAction::CreateDirectory { ref path } if path == "/var/lib/andromeda"
    ));
    assert!(matches!(
        startup.advance(&mut logger, StartupEvent::Done(Ok(()))),
        StartupAction::OpenDatabase { ref path } if path == "/var/lib/andromeda/andromeda.db"
    ));
    assert!(matches!(
        startup.advance(&mut logger, StartupEvent::Done(Ok(()))),
        StartupAction::Finish(Ok(()))
    ));
    assert_eq!(
        messages(&logger),
        vec![
            "Verifying libvirt directories",
            "Verifying Arch cloud image",
            "Skipping Arch cloud image download. To update, rerun with --update-image",
            "Connecting to qemu:///system to verify network",
            "Verifying virtual andromeda-users network",
            "Creating /var/lib/andromeda/logs if it doesn't already exist",
            "Preflight complete",
            "Creating /var/lib/andromeda if it doesn't already exist",
            "Connecting to /var/lib/andromeda/andromeda.db",
            "Database connected and migrations applied",
        ]
    );
}

#[test]
fn a_fresh_host_gets_the_image_and_the_network() {
    let mut logger = Logger::new();
    let mut startup = started(&mut logger, false);
    startup.advance(&mut logger, StartupEvent::Done(Ok(())));
    assert!(matches!(
        startup.advance(&mut logger, StartupEvent::Present(false)),
        StartupAction::DownloadImage { ref url, .. } if url == ARCH_DOWNLOAD_URL
    ));
    startup.advance(&mut logger, StartupEvent::Done(Ok(())));
    startup.advance(&mut logger, StartupEvent::Done(Ok(())));
    match startup.advance(&mut logger, StartupEvent::Present(false)) {
        StartupAction::DefineNetwork { xml } => assert!(xml.contains("<name>andromeda-users</name>")),
        _ => panic!("expected the network definition"),
    }
    assert!(matches!(
        startup.advance(&mut logger, StartupEvent::Done(Ok(()))),
        StartupAction::CheckNetworkActive
    ));
    assert!(matches!(
        startup.advance(&mut logger, StartupEvent::Flag(Ok(false))),
        StartupAction::StartNetwork
    ));
    startup.advance(&mut logger, StartupEvent::Done(Ok(())));
    assert!(matches!(
        startup.advance(&mut logger, StartupEvent::Flag(Ok(false))),
        StartupAction::SetAutostart
    ));
    let logged = messages(&logger);
    assert!(logged.contains(&"Arch cloud image missing, downloading image".to_string()));
    assert!(logged.contains(&"Arch cloud image download complete".to_string()));
    assert!(logged.contains(&"Virtual network andromeda-users does not exist, creating".to_string()));
    assert!(logged.contains(&"Virtual network andromeda-users is not active, starting".to_string()));
    assert_eq!(
        logged.last().unwrap(),
        "Marking virtual network andromeda-users as auto-start"
    );
}

#[test]
fn an_update_downloads_the_image_again_and_failures_carry_their_context() {
    let mut logger = Logger::new();
    let mut startup = started(&mut logger, true);
    startup.advance(&mut logger, StartupEvent::Done(Ok(())));
    assert!(matches!(
        startup.advance(&mut logger, StartupEvent::Present(true)),
        StartupAction::DownloadImage { .. }
    ));
    match startup.advance(&mut logger, StartupEvent::Done(Err("Couldn't resolve host name".into()))) {
        StartupAction::Finish(Err(e)) => {
            assert_eq!(e, "Failed to pull Arch cloud image: Couldn't resolve host name")
        }
        _ => panic!("expected a fatal error"),
    }
    let mut startup = started(&mut logger, false);
    match startup.advance(&mut logger, StartupEvent::Done(Err("Permission denied".into()))) {
        StartupAction::Finish(Err(e)) => {
            assert_eq!(e, "Error when creating libvirt directories: Permission denied")
        }
        _ => panic!("expected a fatal error"),
    }
}
