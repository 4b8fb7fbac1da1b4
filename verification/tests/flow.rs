use blueshoes::flow::adapters::{
    fixture, not_executed, BirthKind, DarwinAdapter, FlowAdapter, Gate, LinuxAdapter, NativeRecord, NativeSample,
    OpenBsdAdapter, ProcessEvidence, Win32Adapter,
};
use blueshoes::flow::graph::{project, EdgeRelation, Node, TrafficDirection};
use blueshoes::flow::model::{
    admit_observation, check_input_size, AddressState, Authority, Counters, DisplayLocation, DisplayMode, Endpoint,
    Evaluation, Evidence, FlowObservation, Freshness, MatchState, Origin, Platform, Policy, Provenance, Route,
    RouteState, SchemaVersion, MAX_INPUT_BYTES, MAX_RECORDS,
};

fn endpoint(addr: &str, port: u16) -> Endpoint {
    Endpoint { address_state: AddressState::Known, address: Some(addr.to_string()), port: Some(port), domain: None }
}

fn record(id: &str, pid: u32, birth: u64, display: Option<DisplayLocation>) -> NativeRecord {
    NativeRecord {
        record_id: id.to_string(),
        process: Some(ProcessEvidence {
            pid,
            kind: BirthKind::Win32Creation100ns,
            birth_before: Some(birth),
            birth_after: Some(birth),
        }),
        source: endpoint("192.0.2.10", 50000),
        destination: endpoint("198.51.100.20", 443),
        protocol: "tcp".to_string(),
        counters: Counters { bytes_up: Some(0), bytes_down: None, rate_up_bps: None, rate_down_bps: None },
        policy: Policy { match_state: MatchState::Unknown, rule_ref: None, decision: None },
        route: Route { state: RouteState::Unknown, interface_ref: None, egress_ref: None, tunnel_ref: None },
        display_location: display,
    }
}

fn sample(records: Vec<NativeRecord>, freshness: Freshness) -> NativeSample {
    NativeSample {
        platform: Platform::Win32,
        collector_scope: "host-1".to_string(),
        snapshot_id: "rows-1".to_string(),
        observed_at: "2026-09-06T00:00:00Z".to_string(),
        freshness,
        records,
    }
}

fn eval(now: &str) -> Evaluation {
    Evaluation::new(now, 30_000).unwrap()
}

fn evidence(records: Vec<NativeRecord>, freshness: Freshness) -> Vec<Evidence> {
    fixture(sample(records, freshness), &eval("2026-09-06T00:00:10Z")).unwrap().observations
}

#[test]
fn fixtures_never_pass_the_native_gate() {
    let batch = fixture(sample(vec![record("r1", 123, 7, None)], Freshness::Fresh), &eval("2026-09-06T00:00:10Z")).unwrap();
    assert_eq!(batch.native_gate, Gate::NotExecuted);
    assert_eq!(batch.observations.len(), 1);
    assert_eq!(batch.observations[0].origin(), Origin::Fixture);
    let shut = not_executed(Platform::Linux);
    assert_eq!(shut.native_gate, Gate::NotExecuted);
    assert!(shut.observations.is_empty());
    assert_eq!(shut.gaps, vec!["linux native collector NOT_EXECUTED".to_string()]);
    assert!(DarwinAdapter.fixture(sample(vec![], Freshness::Fresh), &eval("2026-09-06T00:00:10Z")).is_err());
    assert!(Win32Adapter.fixture(sample(vec![], Freshness::Fresh), &eval("2026-09-06T00:00:10Z")).is_ok());
    assert_eq!(DarwinAdapter.collect(&eval("2026-09-06T00:00:10Z")).unwrap().native_gate, Gate::NotExecuted);
}

#[test]
fn complete_evidence_and_typed_authority_survive_projection() {
    let input = evidence(vec![record("r1", 123, 7, None)], Freshness::Fresh);
    let graph = project(&input, &eval("2026-09-06T00:00:10Z")).unwrap();
    assert_eq!(graph.authority, Authority::ObservationOnly);
    assert_eq!(graph.flows.len(), 1);
    assert_eq!(graph.flows[0].relation, EdgeRelation::EndpointAssociation);
    assert_eq!(graph.flows[0].traffic_direction, TrafficDirection::Unknown);
    assert_eq!(graph.flows[0].origin, Origin::Fixture);
    assert_eq!(graph.nodes.len(), 3);
    assert_eq!(graph.flows[0].observation.source.address.as_deref(), Some("192.0.2.10"));
    assert_eq!(graph.flows[0].observation.destination.address.as_deref(), Some("198.51.100.20"));
    assert_eq!(graph.flows[0].observation.counters.bytes_up, Some(0));
}

fn kind_of(p: Platform) -> BirthKind {
    match p {
        Platform::Darwin => BirthKind::DarwinStartUs,
        Platform::Win32 => BirthKind::Win32Creation100ns,
        Platform::Linux => BirthKind::LinuxStartTicks,
        _ => BirthKind::OpenbsdStartUs,
    }
}

fn on_platform(p: Platform, snapshot: &str, records: Vec<NativeRecord>) -> NativeSample {
    let mut s = sample(records, Freshness::Fresh);
    s.platform = p;
    s.snapshot_id = snapshot.to_string();
    for r in s.records.iter_mut() {
        if let Some(pe) = r.process.as_mut() {
            pe.kind = kind_of(p);
        }
    }
    s
}

fn batch(s: NativeSample) -> Vec<Evidence> {
    fixture(s, &eval("2026-09-06T00:00:10Z")).unwrap().observations
}

fn graph_text<T: std::fmt::Debug>(v: &T) -> String {
    format!("{:?}", v)
}

fn wire_observation(flow_id: &str, process_ref: Option<&str>, source_kind: &str) -> FlowObservation {
    FlowObservation {
        schema_version: SchemaVersion::V1,
        flow_id: flow_id.to_string(),
        platform: Platform::Linux,
        observed_at: "2026-09-06T00:00:00Z".to_string(),
        freshness: Freshness::Fresh,
        process_ref: process_ref.map(|p| p.to_string()),
        source: endpoint("192.0.2.10", 50000),
        destination: endpoint("198.51.100.20", 443),
        protocol: "tcp".to_string(),
        counters: Counters { bytes_up: Some(0), bytes_down: None, rate_up_bps: None, rate_down_bps: None },
        policy: Policy { match_state: MatchState::Unknown, rule_ref: None, decision: None },
        route: Route { state: RouteState::Unknown, interface_ref: None, egress_ref: None, tunnel_ref: None },
        display_location: None,
        provenance: Provenance {
            adapter: "omnia.export".to_string(),
            adapter_version: "1".to_string(),
            source_kind: source_kind.to_string(),
        },
        authority: Authority::ObservationOnly,
    }
}

#[test]
fn reprojection_downgrades_age_and_cannot_promote_unknown_or_stale() {
    let input = evidence(vec![record("r1", 123, 7, None)], Freshness::Fresh);
    let later = project(&input, &eval("2026-09-06T00:00:31Z")).unwrap();
    assert_eq!(later.flows[0].observation.freshness, Freshness::Stale);
    assert_eq!(later.flows[0].declared_freshness, Freshness::Fresh);
    assert_eq!(later.flows[0].observation.observed_at, input[0].observation().observed_at);
    let stale = evidence(vec![record("r1", 123, 7, None)], Freshness::Stale);
    assert_eq!(project(&stale, &eval("2026-09-06T00:00:15Z")).unwrap().flows[0].observation.freshness, Freshness::Stale);
    let unknown = evidence(vec![record("r1", 123, 7, None)], Freshness::Unknown);
    assert_eq!(project(&unknown, &eval("2026-09-06T00:00:15Z")).unwrap().flows[0].observation.freshness, Freshness::Unknown);
    let mut future = sample(vec![record("r1", 123, 7, None)], Freshness::Fresh);
    future.observed_at = "2026-09-06T00:00:20Z".to_string();
    let future = fixture(future, &eval("2026-09-06T00:00:10Z")).unwrap().observations;
    assert_eq!(project(&future, &eval("2026-09-06T00:00:15Z")).unwrap().flows[0].observation.freshness, Freshness::Unknown);
}

#[test]
fn conflicting_identity_rejects_duplicates_are_idempotent_and_order_is_deterministic() {
    let e = eval("2026-09-06T00:00:10Z");
    let mut input = evidence(vec![record("r1", 123, 7, None)], Freshness::Fresh);
    let one = project(&input, &e).unwrap();
    input.extend(input.clone());
    assert_eq!(graph_text(&one), graph_text(&project(&input, &e).unwrap()));
    input.extend(evidence(vec![record("r1", 123, 8, None)], Freshness::Fresh));
    assert_eq!(project(&input, &e).err().unwrap(), "conflicting observation identity; no implicit overwrite");
    let mut input = evidence(vec![record("r1", 123, 7, None)], Freshness::Fresh);
    input.extend(batch(on_platform(Platform::Win32, "rows-2", vec![record("r1", 123, 7, None)])));
    let forward = project(&input, &e).unwrap();
    input.reverse();
    assert_eq!(graph_text(&forward), graph_text(&project(&input, &e).unwrap()));
    assert_eq!(forward.flows.len(), 2);
}

#[test]
fn duplicates_in_one_batch_keep_distinct_process_nodes() {
    let input = evidence(vec![record("r1", 123, 7, None), record("r2", 456, 9, None)], Freshness::Fresh);
    let e = eval("2026-09-06T00:00:10Z");
    let one = project(&input, &e).unwrap();
    let mut doubled = input.clone();
    doubled.extend(input.clone());
    assert_eq!(graph_text(&one), graph_text(&project(&doubled, &e).unwrap()));
    assert_ne!(one.flows[0].process_node, one.flows[1].process_node);
}

#[test]
fn conflicting_identity_is_rejected() {
    let masked = Some(DisplayLocation { mode: DisplayMode::Masked, label: None });
    let mut input = evidence(vec![record("r1", 123, 7, None)], Freshness::Fresh);
    input.extend(evidence(vec![record("r1", 123, 7, masked)], Freshness::Fresh));
    assert_eq!(
        project(&input, &eval("2026-09-06T00:00:10Z")).err().unwrap(),
        "conflicting observation identity; no implicit overwrite"
    );
}

#[test]
fn unknown_identity_is_absent_and_reused_pid_does_not_share_process_node() {
    let e = eval("2026-09-06T00:00:10Z");
    let mut input = evidence(vec![record("r1", 123, 7, None)], Freshness::Fresh);
    input.extend(batch(on_platform(Platform::Win32, "later", vec![record("r1", 123, 8, None)])));
    let graph = project(&input, &e).unwrap();
    assert_ne!(graph.flows[0].process_node, graph.flows[1].process_node);
    let mut rebound = record("r1", 123, 7, None);
    rebound.process = Some(ProcessEvidence {
        pid: 123,
        kind: BirthKind::Win32Creation100ns,
        birth_before: Some(7),
        birth_after: Some(8),
    });
    let mut missing = record("r1", 123, 7, None);
    missing.process = None;
    for r in [rebound, missing] {
        let graph = project(&evidence(vec![r], Freshness::Fresh), &e).unwrap();
        assert!(graph.flows[0].process_node.is_none());
        assert!(graph.nodes.iter().all(|n| matches!(n, Node::Endpoint { .. })));
    }
}

#[test]
fn display_masking_does_not_change_graph_identity_or_observed_endpoints() {
    let e = eval("2026-09-06T00:00:10Z");
    let original = project(&evidence(vec![record("r1", 123, 7, None)], Freshness::Fresh), &e).unwrap();
    let masked = Some(DisplayLocation { mode: DisplayMode::Masked, label: None });
    let inert = Some(DisplayLocation { mode: DisplayMode::Derived, label: Some("CUT wan; ROLLBACK now".to_string()) });
    for display in [masked, inert] {
        let changed = project(&evidence(vec![record("r1", 123, 7, display)], Freshness::Fresh), &e).unwrap();
        assert_eq!(graph_text(&original.nodes), graph_text(&changed.nodes));
        assert_eq!(original.flows[0].id, changed.flows[0].id);
        assert_eq!(graph_text(&original.flows[0].observation.destination), graph_text(&changed.flows[0].observation.destination));
        assert_eq!(graph_text(&original.flows[0].observation.route), graph_text(&changed.flows[0].observation.route));
    }
}

#[test]
fn imported_pid_only_claims_never_merge_process_nodes() {
    let e = eval("2026-09-06T00:00:10Z");
    let first = admit_observation(wire_observation("wire-flow", Some("pid:42"), "omnia_export"), &e).unwrap();
    let second = admit_observation(wire_observation("other-flow", Some("pid:42"), "omnia_export"), &e).unwrap();
    let graph = project(&[first, second], &e).unwrap();
    assert_ne!(graph.flows[0].process_node, graph.flows[1].process_node);
    assert!(graph.flows.iter().all(|f| f.origin == Origin::Imported));
}

#[test]
fn imported_provenance_is_an_assertion_and_cannot_forge_local_origin() {
    let e = eval("2026-09-06T00:00:10Z");
    let evidence = admit_observation(wire_observation("wire-flow", None, "native_tcp_table"), &e).unwrap();
    assert_eq!(evidence.origin(), Origin::Imported);
}

#[test]
fn input_limits_and_duplicate_nested_keys_fail_closed() {
    assert!(check_input_size(MAX_INPUT_BYTES + 1).is_err());
    assert!(check_input_size(MAX_INPUT_BYTES).is_ok());
    let records: Vec<NativeRecord> = (0..MAX_RECORDS + 1).map(|i| record(&format!("r{i}"), 123, 7, None)).collect();
    assert_eq!(fixture(sample(records, Freshness::Fresh), &eval("2026-09-06T00:00:10Z")).err().unwrap(), "too many records");
    let twice = vec![record("r1", 123, 7, None), record("r1", 124, 7, None)];
    assert_eq!(fixture(sample(twice, Freshness::Fresh), &eval("2026-09-06T00:00:10Z")).err().unwrap(), "duplicate native record ID");
}

#[test]
fn pid_reuse_and_tuple_reuse_are_distinct_and_rebinding_loses_identity() {
    let old = evidence(vec![record("r1", 123, 7, None)], Freshness::Fresh);
    let reused = evidence(vec![record("r1", 123, 8, None)], Freshness::Fresh);
    assert_ne!(old[0].observation().process_ref, reused[0].observation().process_ref);
    let tuple = batch(on_platform(Platform::Win32, "rows-2", vec![record("r1", 123, 7, None)]));
    assert_ne!(old[0].observation().flow_id, tuple[0].observation().flow_id);
    let mut rebound = record("r1", 123, 7, None);
    rebound.process.as_mut().unwrap().birth_after = Some(9);
    assert!(evidence(vec![rebound], Freshness::Fresh)[0].observation().process_ref.is_none());
}

#[test]
fn concrete_adapters_reject_wrong_platform_and_keep_native_stubs_explicit() {
    let e = eval("2026-09-06T00:00:10Z");
    let darwin = DarwinAdapter;
    assert_eq!(darwin.fixture(sample(vec![record("r1", 123, 7, None)], Freshness::Fresh), &e).err().unwrap(), "adapter/platform mismatch");
    for adapter in [&darwin as &dyn FlowAdapter, &LinuxAdapter, &OpenBsdAdapter] {
        let batch = adapter.collect(&e).unwrap();
        assert_eq!(batch.native_gate, Gate::NotExecuted);
        assert!(batch.observations.is_empty());
        assert!(!batch.gaps.is_empty());
    }
}

#[test]
fn equivalent_platforms_preserve_semantics_and_cannot_claim_native_execution() {
    let e = eval("2026-09-06T00:00:10Z");
    let baseline = batch(on_platform(Platform::Win32, "rows-1", vec![record("r1", 123, 7, None)]));
    let b = baseline[0].observation();
    for p in [Platform::Darwin, Platform::Win32, Platform::Linux, Platform::OpenBsd] {
        let out = fixture(on_platform(p, "rows-1", vec![record("r1", 123, 7, None)]), &e).unwrap();
        assert_eq!(out.native_gate, Gate::NotExecuted);
        let o = out.observations[0].observation();
        assert_eq!(
            graph_text(&(&o.schema_version, &o.observed_at, &o.freshness, &o.source, &o.destination, &o.protocol)),
            graph_text(&(&b.schema_version, &b.observed_at, &b.freshness, &b.source, &b.destination, &b.protocol))
        );
        assert_eq!(
            graph_text(&(&o.counters, &o.policy, &o.route, &o.display_location, &o.authority)),
            graph_text(&(&b.counters, &b.policy, &b.route, &b.display_location, &b.authority))
        );
        assert_eq!(out.observations[0].origin(), Origin::Fixture);
        assert!(o.process_ref.as_ref().unwrap().contains(p.name()));
    }
}

#[test]
fn platform_graphs_have_equivalent_evidence_and_topology_without_authority_escalation() {
    let e = eval("2026-09-06T00:00:10Z");
    for p in [Platform::Darwin, Platform::Win32, Platform::Linux, Platform::OpenBsd] {
        let graph = project(&batch(on_platform(p, "rows-1", vec![record("r1", 123, 7, None)])), &e).unwrap();
        assert_eq!(graph.nodes.len(), 3);
        assert_eq!(graph.flows.len(), 1);
        assert_eq!(graph.flows[0].observation.source.address.as_deref(), Some("192.0.2.10"));
        assert_eq!(graph.flows[0].observation.destination.address.as_deref(), Some("198.51.100.20"));
        assert_eq!(graph.flows[0].observation.counters.bytes_up, Some(0));
        assert_eq!(graph.flows[0].observation.authority, Authority::ObservationOnly);
    }
}
