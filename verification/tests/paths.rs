use andromeda::paths::{StoragePaths, ARCH_CLOUD_IMAGE};
use std::path::Path;

#[test]
fn rejects_hostnames_that_are_not_single_file_names() {
    let paths = StoragePaths::default();
    for hostname in [
        "",
        ".",
        "..",
        "../escape",
        "/absolute",
        "a/b",
        "a/",
        "a\\b",
        "a\0b",
    ] {
        assert!(paths.instance(hostname).is_err(), "{hostname:?}");
    }
    for hostname in ["vm-alice", "vm.example", "vm_01"] {
        assert!(paths.instance(hostname).is_ok(), "{hostname:?}");
    }
}

#[test]
fn default_layout_lives_below_libvirt_images() {
    let paths = StoragePaths::default();
    assert_eq!(paths.templates(), "/var/lib/libvirt/images/templates");
    assert_eq!(paths.seeds(), "/var/lib/libvirt/images/seed");
    assert_eq!(paths.instances(), "/var/lib/libvirt/images/instances");
    assert_eq!(
        paths.cloud_image(),
        format!("/var/lib/libvirt/images/templates/{ARCH_CLOUD_IMAGE}")
    );
}

#[test]
fn instance_files_are_named_after_the_hostname() {
    let storage = StoragePaths::at("/custom storage/images & templates");
    let paths = storage.instance("vm-alice").unwrap();
    assert_eq!(paths.disk, "/custom storage/images & templates/instances/vm-alice.qcow2");
    assert_eq!(paths.seed_iso, "/custom storage/images & templates/seed/vm-alice.iso");
    assert_eq!(
        Path::new(&paths.disk).parent(),
        Some(Path::new(&storage.instances()))
    );
    assert_eq!(
        Path::new(&paths.seed_iso).parent(),
        Some(Path::new(&storage.seeds()))
    );
    assert_eq!(
        Path::new(&paths.cloud_image).parent(),
        Some(Path::new(&storage.templates()))
    );
}

#[test]
fn refused_hostnames_get_the_single_component_message() {
    let paths = StoragePaths::default();
    match paths.instance("..") {
        Err(message) => assert_eq!(
            message,
            "hostname must be a single, non-empty filename component"
        ),
        Ok(_) => panic!("accepted .."),
    }
}

#[test]
fn root_with_trailing_separator_is_joined_once() {
    let storage = StoragePaths::at("/srv/images/");
    assert_eq!(storage.templates(), "/srv/images/templates");
    let relative = StoragePaths::at("");
    assert_eq!(relative.seeds(), "seed");
}

#[test]
fn instance_files_are_never_the_cloud_image() {
    let paths = StoragePaths::default();
    let files = paths.instance("Arch-Linux-x86_64-cloudimg").unwrap();
    assert_ne!(files.disk, files.cloud_image);
    assert_ne!(files.seed_iso, files.cloud_image);
    assert!(files.cloud_image.ends_with(ARCH_CLOUD_IMAGE));
}
