use andromeda::model::{GuestUserConfig, InstanceConfig, NetworkConfig, VmConfig};
use andromeda::net::Ipv4Address;
use andromeda::paths::StoragePaths;
use andromeda::seed::{
    interpolate_exec, metadata_seed, network_config_seed, user_seed, SeedFiles,
};
use andromeda::storage::{
    plan_command_run,
    copy_skeleton_command, create_disk_command, create_iso_command, export_disk_command,
    export_workspace_name, file_verdict, resize_disk_command, seed_workspace_name,
    FileState,
};

fn config() -> VmConfig {
    VmConfig {
        user: GuestUserConfig {
            name: "alice".into(),
            key: "ssh-ed25519 AAAA alice".into(),
        },
        networking: NetworkConfig {
            ip: "10.0.0.5/24".into(),
            dhcp: false,
            mac: "52:54:00:10:00:05".into(),
            remote_port: 2205,
            service_port: 25565,
        },
        instance: InstanceConfig {
            hostname: "vm-alice".into(),
            disk_size: 20480,
            memory: 2048,
            vcpus: 2,
            description: String::new(),
        },
    }
}

#[test]
fn placeholders_are_replaced_one_binding_after_the_other() {
    let bindings = vec![
        ("a".to_string(), "{b}".to_string()),
        ("b".to_string(), "x".to_string()),
    ];
    assert_eq!(interpolate_exec("{a}-{b}-{a}-{c}", &bindings), "x-x-x-{c}");
    assert_eq!(interpolate_exec("no placeholders", &bindings), "no placeholders");
    assert_eq!(interpolate_exec("{{a}}", &bindings), "{x}");
}

#[test]
fn seeds_carry_the_instance_settings() {
    let config = config();
    let user = user_seed(&config, "ssh-ed25519 BBBB admin");
    assert!(user.contains("hostname: vm-alice"));
    assert!(user.contains("- name: alice"));
    assert!(user.contains("- ssh-ed25519 AAAA alice"));
    assert!(user.contains("- ssh-ed25519 BBBB admin"));
    assert!(!user.contains('{'));
    let network = network_config_seed(&config, Ipv4Address(10, 0, 0, 1));
    assert!(network.contains("dhcp4: false"));
    assert!(network.contains("macaddress: \"52:54:00:10:00:05\""));
    assert!(network.contains("- 10.0.0.5/24"));
    assert!(network.contains("via: 10.0.0.1"));
    assert_eq!(
        metadata_seed(&config),
        "instance-id: vm-alice\nlocal-hostname: vm-alice\n"
    );
}

#[test]
fn seed_files_and_commands_use_the_instance_paths() {
    let seeds = SeedFiles::at("/tmp/andromeda-seed-1");
    assert_eq!(seeds.user_data(), "/tmp/andromeda-seed-1/user-data");
    assert_eq!(seeds.network_config(), "/tmp/andromeda-seed-1/network-config");
    assert_eq!(seeds.meta_data(), "/tmp/andromeda-seed-1/meta-data");
    let paths = StoragePaths::default().instance("vm-alice").unwrap();
    let create = create_disk_command(&paths);
    assert_eq!(create.program, "qemu-img");
    assert_eq!(
        create.args,
        vec![
            "create", "-f", "qcow2", "-F", "qcow2", "-b",
            "/var/lib/libvirt/images/templates/Arch-Linux-x86_64-cloudimg.qcow2",
            "/var/lib/libvirt/images/instances/vm-alice.qcow2",
        ]
    );
    assert_eq!(
        resize_disk_command(&paths, 20480).args,
        vec!["resize", "/var/lib/libvirt/images/instances/vm-alice.qcow2", "20480M"]
    );
    let iso = create_iso_command(&paths, &seeds);
    assert_eq!(iso.program, "cloud-localds");
    assert_eq!(
        iso.args,
        vec![
            "-N",
            "/tmp/andromeda-seed-1/network-config",
            "/var/lib/libvirt/images/seed/vm-alice.iso",
            "/tmp/andromeda-seed-1/user-data",
            "/tmp/andromeda-seed-1/meta-data",
        ]
    );
    assert_eq!(
        copy_skeleton_command(&paths, "/srv/skel").args[5],
        "/srv/skel:/etc"
    );
    assert_eq!(
        export_disk_command(&paths, "/x/disk.qcow2").args,
        vec![
            "convert", "-f", "qcow2", "-O", "qcow2",
            "/var/lib/libvirt/images/instances/vm-alice.qcow2",
            "/x/disk.qcow2",
        ]
    );
}

#[test]
fn instance_files_must_be_regular_or_absent() {
    assert!(file_verdict("/a.qcow2", FileState::Regular).is_ok());
    assert!(file_verdict("/a.qcow2", FileState::Missing).is_ok());
    assert_eq!(
        file_verdict("/a.qcow2", FileState::Other).unwrap_err(),
        "Refusing non-regular instance file /a.qcow2"
    );
    assert_eq!(
        file_verdict("/a.qcow2", FileState::Unreadable).unwrap_err(),
        "Inspecting /a.qcow2"
    );
}

#[test]
fn workspaces_get_fresh_names() {
    let first = seed_workspace_name().unwrap();
    let second = seed_workspace_name().unwrap();
    assert!(first.starts_with("andromeda-seed-"));
    assert_eq!(first.len(), 51);
    assert_ne!(first, second);
    let export = export_workspace_name().unwrap();
    assert!(export.starts_with("disk-"));
    assert_eq!(export.as_bytes()[5 + 14], b'4');
}

#[test]
fn a_dry_run_only_announces_commands() {
    let plan = plan_command_run(true, "\"/nonexistent/andromeda-test-command\"");
    assert!(!plan.launch);
    assert_eq!(
        plan.announcement,
        "Dry run: would run \"/nonexistent/andromeda-test-command\""
    );
    assert!(!plan.announcement.contains("Command completed"));
}

#[test]
fn commands_are_announced_before_they_are_launched() {
    let plan = plan_command_run(false, "\"qemu-img\" \"info\"");
    assert!(plan.launch);
    assert_eq!(plan.announcement, "Running \"qemu-img\" \"info\"");
}
