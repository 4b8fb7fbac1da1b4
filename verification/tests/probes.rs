use blueshoes::edge::probes::{
    doctor_status, interface_status, meminfo_totals, mtu_status, os_pretty_name, parse_kb, parse_mtu, runs_as_root,
    system_status,
};

#[test]
fn meminfo_lines() {
    assert_eq!(parse_kb("MemTotal:       2048 kB"), Some(2048));
    assert_eq!(parse_kb("MemTotal:"), None);
    assert_eq!(parse_kb("MemTotal: lots kB"), None);
    let info = "MemTotal:       2048 kB\nMemFree:         512 kB\nBuffers: 1 kB\n";
    assert_eq!(meminfo_totals(info), (Some(2048), Some(512)));
    assert_eq!(meminfo_totals("Cached: 3 kB\n"), (None, None));
}

#[test]
fn os_release_pretty_name() {
    let text = "NAME=\"OpenWrt\"\nPRETTY_NAME=\"OpenWrt 23.05\"\nPRETTY_NAME=\"later\"\n";
    assert_eq!(os_pretty_name(text).as_deref(), Some("OpenWrt 23.05"));
    assert_eq!(os_pretty_name("PRETTY_NAME=PRETTY_NAME=\"\"x\"\"").as_deref(), Some("x"));
    assert_eq!(os_pretty_name("ID=openwrt\n"), None);
}

#[test]
fn uid_and_interfaces() {
    assert!(runs_as_root("Name:\tagent\nUid:\t0\t0\t0\t0\n"));
    assert!(!runs_as_root("Uid:\t1000\t1000\t1000\t1000\nUid:\t0\n"));
    assert!(!runs_as_root("Uid:\n"));
    assert_eq!(parse_mtu("1500\n"), Some(1500));
    assert_eq!(parse_mtu("  9000 "), Some(9000));
    assert_eq!(parse_mtu("4294967296"), None);
    let up = interface_status("eth0", Some("up\n"));
    assert_eq!(up.state, "up");
    assert!(up.exists);
    let gone = interface_status("wan", None);
    assert_eq!(gone.state, "unknown");
    assert!(!gone.exists);
    assert_eq!(mtu_status("lo", Some("65536\n")).mtu, Some(65536));
    assert_eq!(mtu_status("lo", None).mtu, None);
    assert_eq!(doctor_status(false), "warning_not_FreeBSD");
    assert_eq!(doctor_status(true), "ok");
    assert_eq!(system_status(true, true, true), "ok");
    assert_eq!(system_status(true, false, true), "warn");
}
