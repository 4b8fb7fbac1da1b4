use blueshoes::edge::executor::ApplyAction;
use blueshoes::edge::masque::{masque_arguments, masque_verdict, ClientRun};
use blueshoes::edge::capabilities::{NetworkCapability, NftAction, NftChain, NftFamily, NftTable, TransportProtocol};
use blueshoes::edge::executor::{DryRunExecutor, Executor, FreeBSDExecutor, Snapshot};
use blueshoes::edge::capabilities::CapabilityGraph;

fn strs(v: &[&str]) -> Vec<String> {
    v.iter().map(|s| s.to_string()).collect()
}

#[test]
fn dry_run_changes_nothing() {
    let e = DryRunExecutor;
    let s = e.capture_snapshot().unwrap();
    assert_eq!(s.metadata, "DryRun Default");
    assert_eq!(s.raw_state, "mock_state");
    assert!(e.apply(&CapabilityGraph::new()).is_ok());
    assert!(e.rollback(&s).is_ok());
}

#[test]
fn steps_become_command_lines() {
    let route = NetworkCapability::AddRoute { target: "1.1.1.1".to_string(), via: "10.0.0.1".to_string() };
    assert_eq!(FreeBSDExecutor::step_command(&route), ("ip".to_string(), strs(&["route", "add", "1.1.1.1", "via", "10.0.0.1"])));
    let rule = NetworkCapability::AddNftRule {
        family: NftFamily::Inet,
        table: NftTable::Filter,
        chain: NftChain::Forward,
        protocol: TransportProtocol::Tcp,
        dport: 853,
        rule_action: NftAction::Reject,
    };
    assert_eq!(
        FreeBSDExecutor::step_command(&rule),
        ("nft".to_string(), strs(&["add", "rule", "inet", "filter", "forward", "tcp", "dport", "853", "reject"]))
    );
    let mtu = NetworkCapability::SetMtu { interface: "pppoe-wan".to_string(), mtu: 1492 };
    assert_eq!(FreeBSDExecutor::step_command(&mtu), ("ip".to_string(), strs(&["link", "set", "dev", "pppoe-wan", "mtu", "1492"])));
    assert_eq!(FreeBSDExecutor::step_command(&NetworkCapability::FlushRouteCache), ("ip".to_string(), strs(&["route", "flush", "cache"])));
    assert_eq!(FreeBSDExecutor::step_command(&NetworkCapability::CommitConfig), ("true".to_string(), Vec::new()));
}

#[test]
fn link_state_snapshots_and_restores_the_mtu() {
    let s = FreeBSDExecutor::snapshot_from_link_state(r#"[{"ifname":"pppoe-wan","mtu":1480}]"#);
    assert_eq!(s.metadata, "pppoe-wan");
    assert_eq!(s.raw_state, "1480");
    assert_eq!(FreeBSDExecutor::snapshot_from_link_state("not json").raw_state, "1500");
    let back = FreeBSDExecutor::rollback_command(&Snapshot { metadata: "pppoe-wan".to_string(), raw_state: "1480".to_string() });
    assert_eq!(back, ("ip".to_string(), strs(&["link", "set", "dev", "pppoe-wan", "mtu", "1480"])));
}

#[test]
fn legacy_apply_stops_at_the_first_failed_step() {
    let mut plan = CapabilityGraph::new();
    plan.push(NetworkCapability::FlushRouteCache);
    plan.push(NetworkCapability::SetMtu { interface: "pppoe-wan".to_string(), mtu: 1492 });
    match FreeBSDExecutor::apply_step(&plan, 0, true) {
        ApplyAction::Run { program, args } => {
            assert_eq!(program, "ip");
            assert_eq!(args, vec!["route", "flush", "cache"]);
        }
        _ => panic!("the first step runs"),
    }
    match FreeBSDExecutor::apply_step(&plan, 1, true) {
        ApplyAction::Run { args, .. } => assert_eq!(args, vec!["link", "set", "dev", "pppoe-wan", "mtu", "1492"]),
        _ => panic!("the second step runs"),
    }
    assert!(matches!(FreeBSDExecutor::apply_step(&plan, 1, false), ApplyAction::Stop { failed_step: 0 }));
    assert!(matches!(FreeBSDExecutor::apply_step(&plan, 2, true), ApplyAction::Applied));
    assert!(matches!(FreeBSDExecutor::apply_step(&CapabilityGraph::new(), 0, true), ApplyAction::Applied));
}

#[test]
fn masque_client_gets_separate_arguments() {
    assert_eq!(
        masque_arguments("vpn.example:443", "cover.example", "k"),
        vec!["--endpoint", "vpn.example:443", "--sni", "cover.example", "--psk", "k", "--daemonize"]
    );
    assert!(masque_verdict(&ClientRun::Exited { success: true, stderr: String::new() }).is_ok());
    assert_eq!(
        masque_verdict(&ClientRun::Exited { success: false, stderr: "bad psk".to_string() }).unwrap_err(),
        "MASQUE client failed to start: bad psk"
    );
    assert!(masque_verdict(&ClientRun::Missing).is_ok());
    assert_eq!(masque_verdict(&ClientRun::Unstartable("denied".to_string())).unwrap_err(), "denied");
}
