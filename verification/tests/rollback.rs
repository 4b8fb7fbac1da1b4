use blueshoes::edge::rollback::{
    backup_path, boot_write_verdict, missing_backup, restore_source, tmp_mount_verdict, zfs_target, RollbackError,
};

fn violation(r: Result<(), RollbackError>) -> String {
    match r {
        Err(RollbackError::InvariantViolation(m)) => m,
        other => panic!("{:?}", other),
    }
}

#[test]
fn tmp_must_be_mounted_in_memory() {
    let tmpfs = "proc on /proc type proc (rw)\ntmpfs on /tmp type tmpfs (rw,nosuid)\n";
    assert!(tmp_mount_verdict(tmpfs, false).is_ok());
    let md = "/dev/md0 on /tmp (ufs, local)\n";
    assert!(tmp_mount_verdict(md, false).is_ok());
    let upper = "TMPFS ON /tmp  MEMORY\nx on /tmp type TMPFS\n";
    assert!(tmp_mount_verdict(upper, false).is_ok());
    let disk = "/dev/sda1 on /tmp type ext4 (rw)\n";
    assert_eq!(
        violation(tmp_mount_verdict(disk, false)),
        "Constitutional contradiction: /tmp is not mounted as an ephemeral tmpfs/md memory allocation!"
    );
    let none = "/dev/sda1 on / type ext4 (rw)\n";
    assert_eq!(
        violation(tmp_mount_verdict(none, false)),
        "No active mount point found for /tmp. It must be explicitly mounted."
    );
    assert!(tmp_mount_verdict(none, true).is_ok());
}

#[test]
fn boot_must_not_be_writable() {
    assert!(boot_write_verdict(false, true).is_ok());
    assert!(boot_write_verdict(true, false).is_ok());
    assert_eq!(
        violation(boot_write_verdict(true, true)),
        "Constitutional breach: /boot (RHEKNEL_CORE) is writeable!"
    );
}

#[test]
fn rollback_paths() {
    assert_eq!(backup_path(1700000000), "/tmp/bs_config_backup_1700000000");
    assert_eq!(restore_source("/tmp/b"), "/tmp/b/.");
    assert_eq!(zfs_target("tank/x", "snap"), "tank/x@snap");
    match missing_backup("/nope") {
        RollbackError::Restore(m) => assert_eq!(m, "Backup path /nope does not exist"),
        other => panic!("{:?}", other),
    }
}
