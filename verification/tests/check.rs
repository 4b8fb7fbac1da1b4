use blueshoes::edge::check::{compute_hash, validate_transformation, Concept, DriftCounters, Provenance, Schema};
use sha2::Digest;

fn schema() -> Schema {
    let ids = ["inv.no_irreversible_mutation", "cap.apply_confirmed", "gen.current"];
    Schema {
        concepts: ids
            .iter()
            .map(|id| (id.to_string(), Concept { id: id.to_string(), authority: None, status: None }))
            .collect(),
    }
}

fn payload(result: &str, derived: &[&str], evidence: &[&str]) -> Provenance {
    Provenance {
        result: result.to_string(),
        derived_from: derived.iter().map(|s| s.to_string()).collect(),
        evidence: evidence.iter().map(|s| s.to_string()).collect(),
        hash: "stale".to_string(),
    }
}

#[test]
fn unknown_concepts_are_refused_and_counted() {
    let mut c = DriftCounters::default();
    let r = validate_transformation(payload("ALLOW", &["gen.current", "made.up"], &[]), &schema(), &mut c);
    assert_eq!(r.unwrap_err(), "Unknown concept id in derived_from: made.up");
    assert_eq!(c.authority_inversion, 1);
    assert_eq!(c.cloud_sovereignty_leak, 0);
}

#[test]
fn valid_payloads_are_sealed_and_leaks_counted() {
    let mut c = DriftCounters::default();
    let p = payload("AUTHORITY_GRANT", &["gen.current"], &["cloud backup", "cloud mirror"]);
    let sealed = validate_transformation(p, &schema(), &mut c).unwrap();
    let canonical = r#"{"result":"AUTHORITY_GRANT","derived_from":["gen.current"],"evidence":["cloud backup","cloud mirror"],"hash":""}"#;
    let expected: String = sha2::Sha256::digest(canonical.as_bytes()).iter().map(|b| format!("{:02x}", b)).collect();
    assert_eq!(sealed.hash, expected);
    assert_eq!(compute_hash(&sealed), expected);
    assert_eq!(c.cloud_sovereignty_leak, 1);
    assert_eq!(c.llm_execution_leak, 1);
    assert_eq!(c.authority_inversion, 0);

    let mut c2 = DriftCounters::default();
    let confirmed = payload("ALLOW_APPLY_CONFIRMED", &[], &["cloud mirror only"]);
    assert!(validate_transformation(confirmed, &schema(), &mut c2).is_ok());
    assert_eq!(c2.llm_execution_leak, 0);
    assert_eq!(c2.cloud_sovereignty_leak, 0);
}
