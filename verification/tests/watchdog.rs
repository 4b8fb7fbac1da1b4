use blueshoes::edge::watchdog::{
    compliance_failure, parse_i32, unpack_target, watchdog_confirm_file, watchdog_mode, watchdog_step,
    watchdog_tmp_verdict, zfs_snapshot_or_default, WatchdogAction, WatchdogMode,
};

fn args(a: &[&str]) -> Vec<String> {
    a.iter().map(|s| s.to_string()).collect()
}

#[test]
fn command_lines() {
    match watchdog_mode(&args(&["bs-watchdog", "pppoe-wan", "1500", "45"])) {
        WatchdogMode::Legacy { ifname, prev_mtu, timeout_secs } => {
            assert_eq!(ifname, "pppoe-wan");
            assert_eq!(prev_mtu, "1500");
            assert_eq!(timeout_secs, 45);
        }
        other => panic!("{:?}", other),
    }
    match watchdog_mode(&args(&["bs-watchdog", "eth0", "1500", "soon"])) {
        WatchdogMode::Legacy { timeout_secs, .. } => assert_eq!(timeout_secs, 30),
        other => panic!("{:?}", other),
    }
    match watchdog_mode(&args(&["bs-watchdog", "--tx-id", "tx_1", "--timeout", "90"])) {
        WatchdogMode::Transaction { tx_id, timeout_secs } => {
            assert_eq!(tx_id, "tx_1");
            assert_eq!(timeout_secs, 90);
        }
        other => panic!("{:?}", other),
    }
    match watchdog_mode(&args(&["bs-watchdog", "--timeout", "x", "--tx-id", "a"])) {
        WatchdogMode::Transaction { timeout_secs, .. } => assert_eq!(timeout_secs, 60),
        other => panic!("{:?}", other),
    }
    assert!(matches!(watchdog_mode(&args(&["bs-watchdog", "--timeout", "5"])), WatchdogMode::Usage));
    assert!(matches!(watchdog_mode(&args(&["bs-watchdog", "--tx-id"])), WatchdogMode::Usage));
    let legacy = watchdog_mode(&args(&["w", "a", "b", "1"]));
    assert_eq!(watchdog_confirm_file(&legacy), "/tmp/blueshoes_confirm_canary");
    let tx = watchdog_mode(&args(&["w", "--tx-id", "t9"]));
    assert_eq!(watchdog_confirm_file(&tx), "/tmp/blueshoes_confirm_t9");
}

#[test]
fn signed_numbers() {
    let p = |s: &str| parse_i32(&s.chars().collect::<Vec<char>>());
    assert_eq!(p("42"), Some(42));
    assert_eq!(p("+42"), Some(42));
    assert_eq!(p("-42"), Some(-42));
    assert_eq!(p("-2147483648"), Some(i32::MIN));
    assert_eq!(p("2147483647"), Some(i32::MAX));
    assert_eq!(p("2147483648"), None);
    assert_eq!(p("-+1"), None);
    assert_eq!(p("-"), None);
    assert_eq!(p(""), None);
}

#[test]
fn ticks_and_verdicts() {
    assert_eq!(watchdog_step(60, 60, true, true), WatchdogAction::Expire);
    assert_eq!(watchdog_step(3, 60, false, true), WatchdogAction::EmergencyRollback);
    assert_eq!(watchdog_step(3, 60, true, true), WatchdogAction::Disarm);
    assert_eq!(watchdog_step(3, 60, true, false), WatchdogAction::Wait);
    assert_eq!(watchdog_tmp_verdict("x on / type ext4\n", false).unwrap_err(), "No active mount point found for /tmp.");
    assert!(watchdog_tmp_verdict("tmpfs on /tmp type tmpfs\n", false).is_ok());
    assert_eq!(
        compliance_failure(Err("a".to_string()), Err("b".to_string())).as_deref(),
        Some("Ephemeral /tmp check failed: a")
    );
    assert_eq!(compliance_failure(Ok(()), Err("b".to_string())).as_deref(), Some("Read-only /boot check failed: b"));
    assert_eq!(compliance_failure(Ok(()), Ok(())), None);
    assert_eq!(zfs_snapshot_or_default(None), "tank/blueshoes/runtime@genesis_stable");
    assert_eq!(zfs_snapshot_or_default(Some("a@b")), "a@b");
    assert_eq!(unpack_target(true), "/etc");
    assert_eq!(unpack_target(false), "/tmp");
}
