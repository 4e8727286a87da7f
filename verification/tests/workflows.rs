use andromeda::instances::create::{CreateAction, CreateEvent, CreateWorkflow};
use andromeda::instances::listing::ListWorkflow;
use andromeda::instances::manage::{
    DomainLookup, ManageAction, ManageEvent, ManageWorkflow, Operation, Removal,
};
use andromeda::instances::read::{ReadAction, ReadEvent, ReadKind, ReadWorkflow};
use andromeda::instances::{CreateOutcome, ErrorKind, InstanceError};
use andromeda::logging::Logger;
use andromeda::model::{GuestUserConfig, Instance, InstanceConfig, NetworkConfig, VmConfig};
use andromeda::net::Ipv4Address;
use andromeda::paths::StoragePaths;
use andromeda::settings::GuestDefaults;

fn config(name: &str, description: &str) -> VmConfig {
    VmConfig {
        user: GuestUserConfig {
            name: name.into(),
            key: "ssh-ed25519 AAAA alice".into(),
        },
        networking: NetworkConfig {
            ip: "10.0.0.5/24".into(),
            dhcp: false,
            mac: "52:54:00:10:00:05".into(),
            remote_port: 2205,
            service_port: 25565,
        },
        instance: InstanceConfig {
            hostname: "vm-alice".into(),
            disk_size: 20480,
            memory: 2048,
            vcpus: 2,
            description: description.into(),
        },
    }
}

fn defaults() -> GuestDefaults {
    GuestDefaults {
        gateway_ip: Ipv4Address(10, 0, 0, 1),
        sysadmin_ssh_key: "ssh-ed25519 BBBB admin".into(),
        revision: 3,
    }
}

fn messages(logger: &Logger) -> Vec<String> {
    logger
        .entries()
        .iter()
        .map(|entry| entry.split_once("] ").map(|(_, m)| m.to_string()).unwrap())
        .collect()
}

fn error_of<T>(result: Result<T, InstanceError>) -> InstanceError {
    match result {
        Ok(_) => panic!("expected an error"),
        Err(e) => e,
    }
}

fn instance(hostname: &str) -> Instance {
    Instance {
        id: "0d45f535-cfeb-48de-800d-2b0ed8bb0bca".into(),
        owner_id: "owner".into(),
        hostname: hostname.into(),
        memory_mib: 512,
        vcpus: 1,
        mac_address: "52:54:00:10:00:01".into(),
        ipv4_address: "10.0.0.2".into(),
        remote_port: 2202,
        service_port: 25565,
    }
}

const ID: &str = "0d45f535-cfeb-48de-800d-2b0ed8bb0bca";

#[test]
fn create_runs_every_step_in_order() {
    let mut logger = Logger::new();
    let (mut workflow, action) =
        CreateWorkflow::start(&mut logger, config("alice", "  my box "), false, &StoragePaths::default())
            .ok()
            .unwrap();
    assert!(matches!(action, CreateAction::AcquireLock { ref hostname } if hostname == "vm-alice"));
    assert_eq!(workflow.config().instance.description, "my box");
    match workflow.advance(&mut logger, CreateEvent::Lock(true)) {
        CreateAction::CheckStorage { hostname, disk, seed_iso } => {
            assert_eq!(hostname, "vm-alice");
            assert_eq!(disk, "/var/lib/libvirt/images/instances/vm-alice.qcow2");
            assert_eq!(seed_iso, "/var/lib/libvirt/images/seed/vm-alice.iso");
        }
        _ => panic!("expected the storage check"),
    }
    assert!(matches!(
        workflow.advance(&mut logger, CreateEvent::Storage(Ok(false))),
        CreateAction::ReadDefaults
    ));
    match workflow.advance(&mut logger, CreateEvent::Defaults(Ok(defaults()))) {
        CreateAction::WriteSeeds { user_data, network_config, meta_data } => {
            assert!(user_data.contains("- ssh-ed25519 BBBB admin"));
            assert!(network_config.contains("via: 10.0.0.1"));
            assert_eq!(meta_data, "instance-id: vm-alice\nlocal-hostname: vm-alice\n");
        }
        _ => panic!("expected the seed files"),
    }
    match workflow.advance(&mut logger, CreateEvent::Done(Ok(()))) {
        CreateAction::CreateImage { paths, size_mib, dry_run } => {
            assert_eq!(paths.disk, "/var/lib/libvirt/images/instances/vm-alice.qcow2");
            assert_eq!(size_mib, 20480);
            assert!(!dry_run);
        }
        _ => panic!("expected the disk"),
    }
    assert!(matches!(
        workflow.advance(&mut logger, CreateEvent::Done(Ok(()))),
        CreateAction::CreateIso { dry_run: false, .. }
    ));
    let xml = match workflow.advance(&mut logger, CreateEvent::Done(Ok(()))) {
        CreateAction::DefineDomain { xml } => xml,
        _ => panic!("expected the domain"),
    };
    assert!(xml.starts_with("<domain type=\"kvm\"><name>vm-alice</name><uuid>"));
    let id = match workflow.advance(&mut logger, CreateEvent::Done(Ok(()))) {
        CreateAction::InsertInstance { id } => id,
        _ => panic!("expected the record"),
    };
    assert_eq!(id.len(), 36);
    assert!(xml.contains(&format!("<uuid>{id}</uuid>")));
    match workflow.advance(&mut logger, CreateEvent::Done(Ok(()))) {
        CreateAction::Finish(Ok(CreateOutcome::Created { id: created })) => assert_eq!(created, id),
        _ => panic!("expected the instance"),
    }
    assert_eq!(
        messages(&logger),
        vec![
            "Request received: create instance \"vm-alice\"".to_string(),
            "Validating instance description".into(),
            "Validating instance paths".into(),
            "Reading guest defaults".into(),
            "Generating cloud-init data".into(),
            "Writing temporary seed files".into(),
            "Preparing instance disk".into(),
            "Preparing cloud-init ISO".into(),
            "Generating domain XML".into(),
            "Defining libvirt domain".into(),
            format!("Defined domain with UUID {id}"),
            "Inserting instance into database".into(),
            format!("Completed: registered new domain with UUID {id}"),
        ]
    );
}

#[test]
fn a_dry_run_stops_before_the_domain_is_defined() {
    let mut logger = Logger::new();
    let (mut workflow, _) =
        CreateWorkflow::start(&mut logger, config("alice", ""), true, &StoragePaths::default())
            .ok()
            .unwrap();
    workflow.advance(&mut logger, CreateEvent::Lock(true));
    workflow.advance(&mut logger, CreateEvent::Storage(Ok(false)));
    workflow.advance(&mut logger, CreateEvent::Defaults(Ok(defaults())));
    assert!(matches!(
        workflow.advance(&mut logger, CreateEvent::Done(Ok(()))),
        CreateAction::CreateImage { dry_run: true, .. }
    ));
    workflow.advance(&mut logger, CreateEvent::Done(Ok(())));
    assert!(matches!(
        workflow.advance(&mut logger, CreateEvent::Done(Ok(()))),
        CreateAction::Finish(Ok(CreateOutcome::DryRun))
    ));
    let logged = messages(&logger);
    assert_eq!(
        logged[1],
        "Dry run: disk commands, domain definition, and database insertion will be skipped"
    );
    assert!(logged
        .last()
        .unwrap()
        .starts_with("Completed dry run: would define and register domain with UUID "));
}

#[test]
fn create_refuses_bad_requests_before_taking_the_lock() {
    let mut logger = Logger::new();
    let error = error_of(CreateWorkflow::start(
        &mut logger,
        config("alice", "a\0b"),
        false,
        &StoragePaths::default(),
    ));
    assert_eq!(error.kind, ErrorKind::InvalidInput);
    assert!(logger.entries()[2].starts_with("[ Warning ]"));
    assert!(logger.entries()[2].ends_with(
        "] Validating instance description failed: Description must be at most 2000 characters and cannot contain NUL characters."
    ));
    let mut bad = config("alice", "");
    bad.instance.hostname = "../escape".into();
    let mut logger = Logger::new();
    let error = error_of(CreateWorkflow::start(&mut logger, bad, false, &StoragePaths::default()));
    assert_eq!(error.kind, ErrorKind::InvalidInput);
    assert_eq!(error.message, "hostname must be a single, non-empty filename component");
    assert_eq!(
        messages(&logger)[3],
        "Validating instance paths failed: hostname must be a single, non-empty filename component"
    );
}

#[test]
fn create_fails_with_the_class_of_the_failed_step() {
    let start = |logger: &mut Logger, name: &str| {
        CreateWorkflow::start(logger, config(name, ""), false, &StoragePaths::default())
            .ok()
            .unwrap()
            .0
    };
    let mut logger = Logger::new();
    let mut busy = start(&mut logger, "alice");
    match busy.advance(&mut logger, CreateEvent::Lock(false)) {
        CreateAction::Finish(Err(e)) => {
            assert_eq!(e.kind, ErrorKind::Conflict);
            assert_eq!(
                e.message,
                "Another operation is in progress for this instance. Please try again when it finishes."
            );
        }
        _ => panic!("expected a conflict"),
    }
    let mut taken = start(&mut logger, "alice");
    taken.advance(&mut logger, CreateEvent::Lock(true));
    match taken.advance(&mut logger, CreateEvent::Storage(Ok(true))) {
        CreateAction::Finish(Err(e)) => {
            assert_eq!(e.kind, ErrorKind::Conflict);
            assert_eq!(e.message, "This hostname or its storage already exists. Choose another hostname.");
        }
        _ => panic!("expected a conflict"),
    }
    let mut reserved = start(&mut logger, "sysadmin");
    reserved.advance(&mut logger, CreateEvent::Lock(true));
    reserved.advance(&mut logger, CreateEvent::Storage(Ok(false)));
    match reserved.advance(&mut logger, CreateEvent::Defaults(Ok(defaults()))) {
        CreateAction::Finish(Err(e)) => assert_eq!(e.kind, ErrorKind::InvalidInput),
        _ => panic!("expected a refusal"),
    }
    let mut broken = start(&mut logger, "alice");
    broken.advance(&mut logger, CreateEvent::Lock(true));
    broken.advance(&mut logger, CreateEvent::Storage(Ok(false)));
    broken.advance(&mut logger, CreateEvent::Defaults(Ok(defaults())));
    match broken.advance(&mut logger, CreateEvent::Done(Err("disk full".into()))) {
        CreateAction::Finish(Err(e)) => {
            assert_eq!(e.kind, ErrorKind::Internal);
            assert_eq!(e.message, "disk full");
        }
        _ => panic!("expected an internal error"),
    }
    let last = logger.entries().last().unwrap().clone();
    assert!(last.starts_with("[ Error ]"));
    assert!(last.ends_with("] Writing temporary seed files failed: disk full"));
}

fn managed(operation: Operation, logger: &mut Logger) -> ManageWorkflow {
    let (mut workflow, action) = ManageWorkflow::start(logger, operation, ID, StoragePaths::default());
    assert!(matches!(action, ManageAction::LookUp { ref id } if id == ID));
    assert!(matches!(
        workflow.advance(logger, ManageEvent::Record(Ok(Some(instance("vm-alice"))))),
        ManageAction::AcquireLock { ref hostname } if hostname == "vm-alice"
    ));
    assert!(matches!(workflow.advance(logger, ManageEvent::Lock(true)), ManageAction::LookUp { .. }));
    assert!(matches!(
        workflow.advance(logger, ManageEvent::Record(Ok(Some(instance("vm-alice"))))),
        ManageAction::CheckAccess { .. }
    ));
    workflow
}

#[test]
fn delete_removes_domain_files_and_record() {
    let mut logger = Logger::new();
    let mut workflow = managed(Operation::Delete, &mut logger);
    match workflow.advance(&mut logger, ManageEvent::Access(Ok(Some("owner".into())))) {
        ManageAction::CheckFiles { disk, seed_iso } => {
            assert_eq!(disk, "/var/lib/libvirt/images/instances/vm-alice.qcow2");
            assert_eq!(seed_iso, "/var/lib/libvirt/images/seed/vm-alice.iso");
        }
        _ => panic!("expected the file check"),
    }
    assert!(matches!(
        workflow.advance(&mut logger, ManageEvent::Done(Ok(()))),
        ManageAction::LookUpDomain { .. }
    ));
    assert!(matches!(
        workflow.advance(&mut logger, ManageEvent::Domain(DomainLookup::Found)),
        ManageAction::CheckActive
    ));
    assert!(matches!(
        workflow.advance(&mut logger, ManageEvent::Active(Ok(false))),
        ManageAction::Undefine
    ));
    assert!(matches!(
        workflow.advance(&mut logger, ManageEvent::Done(Ok(()))),
        ManageAction::CheckFiles { .. }
    ));
    assert!(matches!(
        workflow.advance(&mut logger, ManageEvent::Done(Ok(()))),
        ManageAction::RemoveFile { ref path } if path == "/var/lib/libvirt/images/seed/vm-alice.iso"
    ));
    assert!(matches!(
        workflow.advance(&mut logger, ManageEvent::Removed(Removal::Removed)),
        ManageAction::RemoveFile { ref path } if path == "/var/lib/libvirt/images/instances/vm-alice.qcow2"
    ));
    assert!(matches!(
        workflow.advance(&mut logger, ManageEvent::Removed(Removal::Absent)),
        ManageAction::DeleteRecord { ref id } if id == ID
    ));
    assert!(matches!(
        workflow.advance(&mut logger, ManageEvent::Done(Ok(()))),
        ManageAction::Finish(Ok(()))
    ));
    assert_eq!(
        messages(&logger),
        vec![
            format!("Request received: delete instance \"{ID}\""),
            "Looking up instance in database".into(),
            "Looking up instance in database".into(),
            "Checking instance access".into(),
            "Validating instance storage".into(),
            "Looking up libvirt domain".into(),
            "Checking whether domain is active".into(),
            "Undefining libvirt domain".into(),
            "Deleting seed ISO".into(),
            "Removed /var/lib/libvirt/images/seed/vm-alice.iso".into(),
            "Deleting instance disk".into(),
            "File already absent".into(),
            "Deleting instance from database".into(),
            "Completed: instance, disk, and seed ISO deleted".into(),
        ]
    );
}

#[test]
fn delete_continues_when_the_domain_is_already_gone() {
    let mut logger = Logger::new();
    let mut workflow = managed(Operation::Delete, &mut logger);
    workflow.advance(&mut logger, ManageEvent::Access(Ok(Some("owner".into()))));
    workflow.advance(&mut logger, ManageEvent::Done(Ok(())));
    assert!(matches!(
        workflow.advance(&mut logger, ManageEvent::Domain(DomainLookup::Absent("no domain".into()))),
        ManageAction::CheckFiles { .. }
    ));
    assert_eq!(
        messages(&logger).last().unwrap(),
        "Domain already absent; continuing storage cleanup"
    );
    workflow.advance(&mut logger, ManageEvent::Done(Ok(())));
    match workflow.advance(&mut logger, ManageEvent::Removed(Removal::Failed)) {
        ManageAction::Finish(Err(e)) => {
            assert_eq!(e.kind, ErrorKind::Internal);
            assert_eq!(e.message, "Removing /var/lib/libvirt/images/seed/vm-alice.iso");
        }
        _ => panic!("expected an internal error"),
    }
}

#[test]
fn running_instances_are_neither_deleted_nor_exported() {
    let mut logger = Logger::new();
    let mut delete = managed(Operation::Delete, &mut logger);
    delete.advance(&mut logger, ManageEvent::Access(Ok(Some("owner".into()))));
    delete.advance(&mut logger, ManageEvent::Done(Ok(())));
    delete.advance(&mut logger, ManageEvent::Domain(DomainLookup::Found));
    match delete.advance(&mut logger, ManageEvent::Active(Ok(true))) {
        ManageAction::Finish(Err(e)) => {
            assert_eq!(e.kind, ErrorKind::Conflict);
            assert_eq!(e.message, "Shut down the instance before deleting it.");
        }
        _ => panic!("expected a conflict"),
    }
    let mut export = managed(Operation::DownloadDisk, &mut logger);
    assert!(matches!(
        export.advance(&mut logger, ManageEvent::Access(Ok(Some("owner".into())))),
        ManageAction::LookUpDomain { .. }
    ));
    assert_eq!(messages(&logger).last().unwrap(), "Checking whether domain is inactive");
    export.advance(&mut logger, ManageEvent::Domain(DomainLookup::Found));
    match export.advance(&mut logger, ManageEvent::Active(Ok(true))) {
        ManageAction::Finish(Err(e)) => {
            assert_eq!(e.message, "Shut down the instance before downloading its disk.")
        }
        _ => panic!("expected a conflict"),
    }
    let mut export = managed(Operation::DownloadDisk, &mut logger);
    export.advance(&mut logger, ManageEvent::Access(Ok(Some("owner".into()))));
    export.advance(&mut logger, ManageEvent::Domain(DomainLookup::Found));
    match export.advance(&mut logger, ManageEvent::Active(Ok(false))) {
        ManageAction::ExportDisk { paths } => {
            assert_eq!(paths.disk, "/var/lib/libvirt/images/instances/vm-alice.qcow2")
        }
        _ => panic!("expected the export"),
    }
    export.export_step(&mut logger, "Exporting standalone disk image");
    assert!(matches!(
        export.advance(&mut logger, ManageEvent::Done(Ok(()))),
        ManageAction::Finish(Ok(()))
    ));
}

#[test]
fn power_changes_need_control() {
    let mut logger = Logger::new();
    let mut start = managed(Operation::Start, &mut logger);
    start.advance(&mut logger, ManageEvent::Access(Ok(Some("operator".into()))));
    assert!(matches!(
        start.advance(&mut logger, ManageEvent::Domain(DomainLookup::Found)),
        ManageAction::StartDomain { ref id } if id == ID
    ));
    start.advance(&mut logger, ManageEvent::Done(Ok(())));
    assert_eq!(messages(&logger).last().unwrap(), "Completed: instance started");
    let mut stop = managed(Operation::Stop, &mut logger);
    stop.advance(&mut logger, ManageEvent::Access(Ok(Some("owner".into()))));
    assert!(matches!(
        stop.advance(&mut logger, ManageEvent::Domain(DomainLookup::Found)),
        ManageAction::StopDomain
    ));
    let mut destroy = managed(Operation::Destroy, &mut logger);
    destroy.advance(&mut logger, ManageEvent::Access(Ok(Some("owner".into()))));
    assert!(matches!(
        destroy.advance(&mut logger, ManageEvent::Domain(DomainLookup::Found)),
        ManageAction::DestroyDomain
    ));
    destroy.advance(&mut logger, ManageEvent::Done(Ok(())));
    assert_eq!(messages(&logger).last().unwrap(), "Completed: instance stopped");
    let mut viewer = managed(Operation::Stop, &mut logger);
    match viewer.advance(&mut logger, ManageEvent::Access(Ok(Some("viewer".into())))) {
        ManageAction::Finish(Err(e)) => {
            assert_eq!(e.kind, ErrorKind::Forbidden);
            assert_eq!(e.message, "Your role does not permit this operation");
        }
        _ => panic!("expected a refusal"),
    }
    assert_eq!(
        messages(&logger).last().unwrap(),
        "Checking instance access failed: Your role does not permit this operation"
    );
    let mut stranger = managed(Operation::Start, &mut logger);
    assert!(matches!(
        stranger.advance(&mut logger, ManageEvent::Access(Ok(None))),
        ManageAction::Finish(Err(InstanceError { kind: ErrorKind::NotFound, .. }))
    ));
    let mut missing = managed(Operation::Start, &mut logger);
    missing.advance(&mut logger, ManageEvent::Access(Ok(Some("owner".into()))));
    match missing.advance(&mut logger, ManageEvent::Domain(DomainLookup::Absent("no domain".into()))) {
        ManageAction::Finish(Err(e)) => assert_eq!(e.message, "no domain"),
        _ => panic!("expected an internal error"),
    }
}

#[test]
fn a_vanished_or_locked_instance_ends_the_operation() {
    let mut logger = Logger::new();
    let (mut gone, _) = ManageWorkflow::start(&mut logger, Operation::Delete, ID, StoragePaths::default());
    match gone.advance(&mut logger, ManageEvent::Record(Ok(None))) {
        ManageAction::Finish(Err(e)) => {
            assert_eq!(e.kind, ErrorKind::NotFound);
            assert_eq!(e.message, "No such instance");
        }
        _ => panic!("expected not found"),
    }
    let (mut locked, _) = ManageWorkflow::start(&mut logger, Operation::Start, ID, StoragePaths::default());
    locked.advance(&mut logger, ManageEvent::Record(Ok(Some(instance("vm-alice")))));
    assert!(matches!(
        locked.advance(&mut logger, ManageEvent::Lock(false)),
        ManageAction::Finish(Err(InstanceError { kind: ErrorKind::Conflict, .. }))
    ));
    let (mut broken, _) = ManageWorkflow::start(&mut logger, Operation::Start, ID, StoragePaths::default());
    match broken.advance(&mut logger, ManageEvent::Record(Err("database is locked".into()))) {
        ManageAction::Finish(Err(e)) => assert_eq!(e.kind, ErrorKind::Internal),
        _ => panic!("expected an internal error"),
    }
    assert!(logger.entries().last().unwrap().starts_with("[ Error ]"));
}

#[test]
fn reads_return_the_instance_with_the_callers_permissions() {
    let mut logger = Logger::new();
    let (mut read, _) = ReadWorkflow::start(&mut logger, ReadKind::Instance, ID);
    assert!(matches!(
        read.advance(&mut logger, ReadEvent::Record(Ok(Some(instance("vm-alice"))))),
        ReadAction::CheckAccess { .. }
    ));
    match read.advance(&mut logger, ReadEvent::Access(Ok(Some("viewer".into())))) {
        ReadAction::Finish(Ok(view)) => {
            assert_eq!(view.instance.hostname, "vm-alice");
            assert!(view.permissions.view);
            assert!(!view.permissions.control);
        }
        _ => panic!("expected the instance"),
    }
    assert_eq!(messages(&logger).last().unwrap(), "Completed: returning instance data");
    let (mut status, _) = ReadWorkflow::start(&mut logger, ReadKind::Status, ID);
    status.advance(&mut logger, ReadEvent::Record(Ok(Some(instance("vm-alice")))));
    let before = logger.len();
    assert!(matches!(
        status.advance(&mut logger, ReadEvent::Access(Ok(None))),
        ReadAction::Finish(Err(InstanceError { kind: ErrorKind::NotFound, .. }))
    ));
    assert_eq!(logger.len(), before);
    let (mut status, _) = ReadWorkflow::start(&mut logger, ReadKind::Status, ID);
    status.advance(&mut logger, ReadEvent::Record(Ok(Some(instance("vm-alice")))));
    assert!(matches!(
        status.advance(&mut logger, ReadEvent::Access(Ok(Some("owner".into())))),
        ReadAction::ReadStatus { .. }
    ));
    assert!(matches!(
        status.advance(&mut logger, ReadEvent::Done(Ok(()))),
        ReadAction::Finish(Ok(_))
    ));
    assert_eq!(
        messages(&logger).last().unwrap(),
        "Completed: returning live instance statistics"
    );
}

#[test]
fn listings_report_how_many_entries_they_return() {
    let mut logger = Logger::new();
    let mut ids = ListWorkflow::start(&mut logger, false);
    assert!(ids.records_read(&mut logger, Ok(2)).is_ok());
    assert_eq!(
        messages(&logger),
        vec![
            "Request received: list instances".to_string(),
            "Reading instance IDs from database".into(),
            "Completed: returning 2 instance IDs".into(),
        ]
    );
    let mut logger = Logger::new();
    let mut summaries = ListWorkflow::start(&mut logger, true);
    assert!(summaries.records_read(&mut logger, Ok(3)).is_ok());
    assert_eq!(
        summaries.power_state(&mut logger, "a", Ok("running".into())),
        "running"
    );
    assert_eq!(
        summaries.power_state(&mut logger, "b", Err("no domain".into())),
        "unavailable"
    );
    assert!(summaries.states_read(&mut logger, Ok(3)).is_ok());
    let logged = messages(&logger);
    assert_eq!(logged[2], "Reading instance power states");
    assert_eq!(logged[3], "Could not read power state for b: no domain");
    assert!(logger.entries()[3].starts_with("[ Warning ]"));
    assert_eq!(logged[4], "Completed: returning 3 instance summaries");
    let mut logger = Logger::new();
    let mut failed = ListWorkflow::start(&mut logger, false);
    let error = error_of(failed.records_read(&mut logger, Err("database is locked".into())));
    assert_eq!(error.kind, ErrorKind::Internal);
    assert_eq!(
        messages(&logger).last().unwrap(),
        "Reading instance IDs from database failed: database is locked"
    );
}
