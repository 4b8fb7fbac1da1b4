use blueshoes::digest::sha256_hex;
use sha2::Digest;
use blueshoes::edge::capabilities::{CapabilityGraph, NetworkCapability, NftAction, NftChain, NftFamily, NftTable, TransportProtocol};
use blueshoes::edge::planner::{is_valid_interface_or_ip, Planner};
use blueshoes::edge::profiles::{DnsAction, ProfileIntent, ProfileSchema};

fn profile(intent: ProfileIntent, dns: Option<DnsAction>) -> ProfileSchema {
    ProfileSchema {
        name: "test".to_string(),
        description: "test".to_string(),
        intent,
        dns,
        routes: None,
    }
}

#[test]
fn test_valid_dns_privacy_plan() {
    let profile = ProfileSchema {
        name: "test".to_string(),
        description: "test".to_string(),
        intent: ProfileIntent::DnsPrivacy,
        dns: Some(DnsAction {
            upstream_ips: vec!["1.1.1.1".to_string(), "9.9.9.9".to_string()],
            dot_hostname: None,
        }),
        routes: None,
    };
    let plan = Planner::plan(&profile, "10.0.0.1").unwrap();
    assert_eq!(plan.len(), 3);
}

#[test]
fn test_invalid_ip_dns_privacy() {
    let profile = ProfileSchema {
        name: "test".to_string(),
        description: "test".to_string(),
        intent: ProfileIntent::DnsPrivacy,
        dns: Some(DnsAction {
            upstream_ips: vec!["1.1.1.1".to_string(), "invalid_ip; rm -rf /".to_string()],
            dot_hostname: None,
        }),
        routes: None,
    };
    let result = Planner::plan(&profile, "10.0.0.1");
    assert!(result.is_err());
    assert!(result.unwrap_err().contains("Invalid IP address"));
}

#[test]
fn dns_routes_use_canonical_addresses_through_the_gateway() {
    let p = profile(
        ProfileIntent::DnsPrivacy,
        Some(DnsAction { upstream_ips: vec!["2001:DB8:0:0:0:0:0:1".to_string()], dot_hostname: None }),
    );
    let plan = Planner::plan(&p, "wan").unwrap();
    assert_eq!(plan.len(), 2);
    match &plan.network_caps[0] {
        NetworkCapability::AddRoute { target, via } => {
            assert_eq!(target, "2001:db8::1");
            assert_eq!(via, "wan");
        }
        other => panic!("unexpected step {:?}", other),
    }
    match &plan.network_caps[1] {
        NetworkCapability::AddNftRule { dport, protocol, rule_action, .. } => {
            assert_eq!(*dport, 853);
            assert!(matches!(protocol, TransportProtocol::Tcp));
            assert!(matches!(rule_action, NftAction::Accept));
        }
        other => panic!("unexpected step {:?}", other),
    }
}

#[test]
fn dns_privacy_refusals() {
    let missing = Planner::plan(&profile(ProfileIntent::DnsPrivacy, None), "10.0.0.1");
    assert_eq!(missing.unwrap_err(), "DnsPrivacy intent requires 'dns' configuration");
    let bad_gateway = Planner::plan(
        &profile(
            ProfileIntent::DnsPrivacy,
            Some(DnsAction { upstream_ips: vec!["1.1.1.1".to_string()], dot_hostname: None }),
        ),
        "eth9",
    );
    assert_eq!(bad_gateway.unwrap_err(), "Invalid via interface/IP: eth9");
    let first_bad = Planner::plan(
        &profile(
            ProfileIntent::DnsPrivacy,
            Some(DnsAction { upstream_ips: vec!["nope".to_string()], dot_hostname: None }),
        ),
        "eth9",
    );
    assert_eq!(first_bad.unwrap_err(), "Invalid IP address in DnsPrivacy profile: nope");
    let empty = Planner::plan(
        &profile(ProfileIntent::DnsPrivacy, Some(DnsAction { upstream_ips: vec![], dot_hostname: None })),
        "eth9",
    )
    .unwrap();
    assert_eq!(empty.len(), 1);
}

#[test]
fn each_intent_has_its_plan() {
    let ech = Planner::plan(&profile(ProfileIntent::EchPreserve, None), "x").unwrap();
    assert_eq!(ech.to_json(), r#"{"network_caps":[{"action":"AddNftRule","family":"Inet","table":"Filter","chain":"Forward","protocol":"Tcp","dport":443,"rule_action":"Accept"}]}"#);
    let tunnel = Planner::plan(&profile(ProfileIntent::UserTunnel, None), "x").unwrap();
    assert_eq!(tunnel.to_json(), r#"{"network_caps":[{"action":"AddRoute","target":"0.0.0.0/0","via":"10.0.0.1"}]}"#);
    let mtu = Planner::plan(&profile(ProfileIntent::SafeMtu, None), "x").unwrap();
    assert_eq!(mtu.to_json(), r#"{"network_caps":[{"action":"SetMtu","interface":"pppoe-wan","mtu":1492}]}"#);
    let recovery = Planner::plan(&profile(ProfileIntent::RecoverySafeMode, None), "x").unwrap();
    assert_eq!(recovery.to_json(), r#"{"network_caps":[{"action":"FlushRouteCache"}]}"#);
    assert!(Planner::plan(&profile(ProfileIntent::ObliviousDns, None), "x").is_err());
    assert!(Planner::plan(&profile(ProfileIntent::MasqueObfuscation, None), "x").is_err());
}

#[test]
fn interfaces_and_addresses_are_valid_vias() {
    for ok in ["pppoe-wan", "wan", "wg0", "br-lan", "10.0.0.1", "::1"] {
        assert!(is_valid_interface_or_ip(ok), "{}", ok);
    }
    for bad in ["eth0", "", "wan ", "10.0.0.256"] {
        assert!(!is_valid_interface_or_ip(bad), "{}", bad);
    }
}

#[test]
fn dry_run_hashes_the_plan_json() {
    let p = ProfileSchema {
        name: "Canary Test MTU".to_string(),
        description: "Test safe MTU setting".to_string(),
        intent: ProfileIntent::SafeMtu,
        dns: None,
        routes: None,
    };
    let ev = Planner::dry_run(&p, "missing --unsafe-execute flag").unwrap();
    let json = r#"{"network_caps":[{"action":"SetMtu","interface":"pppoe-wan","mtu":1492}]}"#;
    let expected: String = sha2::Sha256::digest(json.as_bytes()).iter().map(|b| format!("{:02x}", b)).collect();
    assert_eq!(ev.plan_sha256, expected);
    assert_eq!(ev.plan_sha256, sha256_hex(json));
    assert_eq!(ev.execution_mode, "dry_run");
    assert!(!ev.mutation_performed);
    assert_eq!(ev.profile_name, "Canary Test MTU");
    assert_eq!(ev.refusal_reason, "missing --unsafe-execute flag");
    assert_eq!(ev.plan_steps.len(), 1);
    let refused = Planner::dry_run(&profile(ProfileIntent::DnsPrivacy, None), "r");
    assert_eq!(refused.unwrap_err(), "DnsPrivacy intent requires 'dns' configuration");
}

#[test]
fn capability_graph_grows_by_push() {
    let mut g = CapabilityGraph::new();
    assert_eq!(g.len(), 0);
    g.push(NetworkCapability::CommitConfig);
    g.push(NetworkCapability::AddNftRule {
        family: NftFamily::Inet,
        table: NftTable::Filter,
        chain: NftChain::Forward,
        protocol: TransportProtocol::Udp,
        dport: 53,
        rule_action: NftAction::Drop,
    });
    assert_eq!(g.len(), 2);
    assert_eq!(g.to_json(), r#"{"network_caps":[{"action":"CommitConfig"},{"action":"AddNftRule","family":"Inet","table":"Filter","chain":"Forward","protocol":"Udp","dport":53,"rule_action":"Drop"}]}"#);
}
