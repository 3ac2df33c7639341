use r2_mount::platform::{
    explicit_test_drive, manual_mount_command, mount_argv, normalize_drive_spec, shell_quote, umount_argvs, MountPlatform,
};

#[test]
fn macos_mount_uses_nolocks_and_both_ports() {
    let argv = mount_argv(
        MountPlatform::MacOs,
        "127.0.0.1",
        51234,
        "/Users/me/CloudMounts/photos",
        false,
    );
    assert_eq!(
        argv,
        vec![
            "/sbin/mount_nfs",
            "-o",
            "nolocks,vers=3,tcp,rsize=131072,wsize=131072,readahead=128,actimeo=120,port=51234,mountport=51234",
            "127.0.0.1:/",
            "/Users/me/CloudMounts/photos",
        ]
    );
}

#[test]
fn linux_mount_requests_user_mount() {
    let argv = mount_argv(MountPlatform::Linux, "127.0.0.1", 9, "/mnt/photos", false);
    assert_eq!(argv[0], "mount.nfs");
    assert!(argv[2].starts_with("user,noacl,nolock,"));
    assert!(argv[2].ends_with("port=9,mountport=9"));
    assert_eq!(argv[3], "127.0.0.1:/");
    assert_eq!(argv[4], "/mnt/photos");
}

#[test]
fn a_read_only_mount_is_marked_ro_for_the_client() {
    // The client greys out what it knows it cannot do; without `ro` the user
    // gets an I/O error at the end of a copy instead.
    let macos = mount_argv(MountPlatform::MacOs, "127.0.0.1", 1, "/tmp/m", true);
    assert_eq!(
        macos[2],
        "nolocks,ro,vers=3,tcp,rsize=131072,wsize=131072,readahead=128,actimeo=120,port=1,mountport=1"
    );

    let linux = mount_argv(MountPlatform::Linux, "127.0.0.1", 1, "/tmp/m", true);
    assert_eq!(
        linux[2],
        "user,noacl,nolock,ro,vers=3,tcp,rsize=1048576,wsize=1048576,actimeo=120,port=1,mountport=1"
    );

    // A writable mount says nothing about access at all.
    assert!(
        !mount_argv(MountPlatform::MacOs, "127.0.0.1", 1, "/tmp/m", false)[2].contains("ro,")
    );
    assert!(
        !mount_argv(MountPlatform::Linux, "127.0.0.1", 1, "/tmp/m", false)[2].contains(",ro,")
    );
}

#[test]
fn writes_are_sized_like_reads() {
    // Without wsize the client falls back to a much smaller write size and
    // a copy turns into many more round trips than it needs. Each platform
    // asks for its own maximum: 128 KiB on macOS, 1 MiB on Linux (the
    // server's rtmax/wtmax).
    for read_only in [true, false] {
        let macos = mount_argv(MountPlatform::MacOs, "127.0.0.1", 1, "/tmp/m", read_only);
        assert!(macos[2].contains("rsize=131072"), "{}", macos[2]);
        assert!(macos[2].contains("wsize=131072"), "{}", macos[2]);

        let linux = mount_argv(MountPlatform::Linux, "127.0.0.1", 1, "/tmp/m", read_only);
        assert!(linux[2].contains("rsize=1048576"), "{}", linux[2]);
        assert!(linux[2].contains("wsize=1048576"), "{}", linux[2]);
    }
}

#[test]
fn macos_pipelines_reads_against_the_high_latency_backend() {
    // readahead=128 is the macOS client's maximum; the default of 16 leaves
    // a sequential read mostly waiting on S3 round trips.
    let argv = mount_argv(MountPlatform::MacOs, "127.0.0.1", 1, "/tmp/m", false);
    assert!(argv[2].contains("readahead=128"), "{}", argv[2]);
    // Linux has no such mount option; the kernel manages read-ahead.
    let linux = mount_argv(MountPlatform::Linux, "127.0.0.1", 1, "/tmp/m", false);
    assert!(!linux[2].contains("readahead"), "{}", linux[2]);
}

#[test]
fn windows_mount_targets_the_server_unc_share() {
    // The UNC host is the per-mount loopback IP whose port 111 the server
    // bound; the portmapper there answers with its own port.
    let argv = mount_argv(MountPlatform::Windows, "127.88.0.1", 111, "Z:", false);
    assert_eq!(
        argv,
        vec![
            "mount.exe",
            "-o",
            "anon,nolock,mtype=soft,fileaccess=6,casesensitive,lang=ansi,rsize=128,wsize=128,timeout=60,retry=2",
            r"\\127.88.0.1\",
            "Z:",
        ]
    );
}

#[test]
fn umount_falls_back_after_the_plain_attempt() {
    let macos = umount_argvs(MountPlatform::MacOs, "/tmp/m");
    assert_eq!(macos[0], vec!["umount", "/tmp/m"]);
    assert_eq!(macos[1], vec!["diskutil", "unmount", "/tmp/m"]);

    let linux = umount_argvs(MountPlatform::Linux, "/tmp/m");
    assert_eq!(linux[0], vec!["umount", "/tmp/m"]);
    assert_eq!(linux[1], vec!["umount", "-l", "/tmp/m"]);
}

#[test]
fn manual_command_is_sudo_prefixed_only_on_linux() {
    let linux =
        manual_mount_command(MountPlatform::Linux, "127.0.0.1", 42, "/mnt/photos", false);
    assert!(linux.starts_with("sudo mount.nfs -o "));

    let macos = manual_mount_command(MountPlatform::MacOs, "127.0.0.1", 42, "/tmp/m", false);
    assert!(macos.starts_with("/sbin/mount_nfs -o "));
    assert!(!macos.contains("sudo"));
}

#[test]
fn the_manual_command_mounts_the_mode_that_was_asked_for() {
    // The user runs this by hand after an automatic mount failed, so it has
    // to reproduce the same mount, not a writable one.
    let read_only = manual_mount_command(MountPlatform::MacOs, "127.0.0.1", 42, "/tmp/m", true);
    assert!(read_only.contains(",ro,"), "{}", read_only);
}

#[test]
fn manual_command_quotes_paths_with_spaces() {
    let cmd = manual_mount_command(
        MountPlatform::MacOs,
        "127.0.0.1",
        1,
        "/Users/me/My Drive",
        false,
    );
    assert!(cmd.ends_with("'/Users/me/My Drive'"), "{}", cmd);
}

#[test]
fn drive_specs_are_normalized_and_validated() {
    assert_eq!(normalize_drive_spec("z:").as_deref(), Some("Z:"));
    assert_eq!(normalize_drive_spec("Z:\\").as_deref(), Some("Z:"));
    assert_eq!(normalize_drive_spec(" Z:/ ").as_deref(), Some("Z:"));
    assert_eq!(normalize_drive_spec("Z:\\mnt"), None);
    assert_eq!(normalize_drive_spec("/mnt/photos"), None);
    assert_eq!(normalize_drive_spec(""), None);
    assert_eq!(normalize_drive_spec("1:"), None);
}

#[test]
fn native_windows_smoke_requires_an_explicit_unused_drive() {
    let assigned = (1 << 2) | (1 << 25); // C: and Z: are in use.
    assert!(explicit_test_drive(None, assigned).is_err());
    for invalid in ["", "*", "C:\\Users\\user", "\\\\server\\share", "E:folder", "1:"] {
        assert!(explicit_test_drive(Some(invalid), assigned).is_err(), "{invalid}");
    }
    assert!(explicit_test_drive(Some("C:"), assigned).is_err());
    assert!(explicit_test_drive(Some("z:"), assigned).is_err());
    assert_eq!(explicit_test_drive(Some(" y:\\ "), assigned).unwrap(), "Y:");
}

#[test]
fn windows_unmounts_by_force_last() {
    assert_eq!(
        umount_argvs(MountPlatform::Windows, "Z:"),
        vec![vec!["umount", "Z:"], vec!["umount", "-f", "Z:"]]
    );
}

#[test]
fn a_quote_in_an_argument_is_closed_escaped_and_reopened() {
    assert_eq!(shell_quote("plain-1.txt"), "plain-1.txt");
    assert_eq!(shell_quote("my file"), "'my file'");
    assert_eq!(shell_quote("it's"), "'it'\\''s'");
    assert_eq!(shell_quote(""), "''");
}
