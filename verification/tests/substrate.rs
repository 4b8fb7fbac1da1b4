use blueshoes::edge::substrate::{jsonld_context, ConceptType, Entity, Relation, SemanticSubstrate};
use sha2::Digest;

fn make_entity(id: &str, concept: ConceptType) -> Entity {
    Entity { id: id.to_string(), concept, properties: Vec::new(), relations: Vec::new() }
}

fn sha_hex(s: &str) -> String {
    sha2::Sha256::digest(s.as_bytes()).iter().map(|b| format!("{:02x}", b)).collect()
}

#[test]
fn test_commit_and_query() {
    let mut substrate = SemanticSubstrate::new();
    let e1 = make_entity("Person:alice", ConceptType::Person);
    let e2 = make_entity("Project:blueshoes", ConceptType::Project);

    let r1 = substrate.commit_entity(e1, "test_operator");
    let r2 = substrate.commit_entity(e2, "test_operator");

    assert_eq!(r1.generation, 1);
    assert_eq!(r2.generation, 2);
    assert_eq!(r2.previous_hash, r1.transformation_hash);

    let persons = substrate.query_by_type(&ConceptType::Person);
    assert_eq!(persons.len(), 1);
    assert_eq!(persons[0].id, "Person:alice");
}

#[test]
fn test_chain_integrity() {
    let mut substrate = SemanticSubstrate::new();
    substrate.commit_entity(make_entity("a", ConceptType::Metric), "op");
    substrate.commit_entity(make_entity("b", ConceptType::Metric), "op");
    substrate.commit_entity(make_entity("c", ConceptType::Metric), "op");

    assert!(substrate.verify_chain_integrity().is_ok());

    substrate.lineage[1].previous_hash = "TAMPERED".to_string();
    assert!(substrate.verify_chain_integrity().is_err());
}

#[test]
fn test_jsonld_export_structure() {
    let mut substrate = SemanticSubstrate::new();
    substrate.commit_entity(make_entity("Person:bob", ConceptType::Person), "op");

    let nodes = substrate.export_nodes();
    assert_eq!(substrate.generation, 1);
    assert_eq!(nodes.len(), 1);
    assert_eq!(nodes[0].id, "bs:Person:bob");
    assert_eq!(nodes[0].node_type, "bs:Person");
    assert_eq!(substrate.chain_head(), substrate.lineage[0].transformation_hash);
    let context = jsonld_context();
    assert!(context.iter().any(|(k, v)| k == "bs" && v == "https://blueshoes.dev/schema/v0#"));
    assert!(context.iter().any(|(k, _)| k == "schema"));
}

#[test]
fn test_concept_distribution() {
    let mut substrate = SemanticSubstrate::new();
    substrate.commit_entity(make_entity("p1", ConceptType::Person), "op");
    substrate.commit_entity(make_entity("p2", ConceptType::Person), "op");
    substrate.commit_entity(make_entity("proj1", ConceptType::Project), "op");
    substrate.commit_entity(make_entity("m1", ConceptType::Metric), "op");
    let total = substrate.registry.len() as f64;
    assert!((substrate.concept_count(ConceptType::Person) as f64 / total - 0.5).abs() < 1e-6);
    assert!((substrate.concept_count(ConceptType::Project) as f64 / total - 0.25).abs() < 1e-6);
    assert!((substrate.concept_count(ConceptType::Metric) as f64 / total - 0.25).abs() < 1e-6);
}

#[test]
fn receipts_hash_the_commit_and_link_the_chain() {
    let mut s = SemanticSubstrate::new();
    let mut e = make_entity("Person:eve", ConceptType::Person);
    e.properties.push(("role".to_string(), "admin\"x".to_string()));
    e.relations.push(Relation { predicate: "manages".to_string(), target_id: "Project:p".to_string() });
    let json = e.to_json();
    assert_eq!(
        json,
        r#"{"id":"Person:eve","concept":"Person","properties":{"role":"admin\"x"},"relations":[{"predicate":"manages","target_id":"Project:p"}]}"#
    );
    let r = s.commit_entity_at(e, "op", 1700000000);
    assert_eq!(r.previous_hash, "GENESIS");
    assert_eq!(r.transformation_hash, sha_hex(&format!("Person:eve|1700000000|GENESIS|{}", json)));
    assert_eq!(r.generation, 1);
    assert_eq!(r.entity_id, "Person:eve");
    assert_eq!(r.operator_signature, "op");
    let r2 = s.commit_entity_at(make_entity("Person:eve", ConceptType::Metric), "op2", 1700000001);
    assert_eq!(r2.previous_hash, r.transformation_hash);
    assert_eq!(s.registry.len(), 1);
    assert_eq!(s.get("Person:eve").unwrap().concept, ConceptType::Metric);
    assert!(s.get("nobody").is_none());
    assert_eq!(s.lineage.len(), 2);
}

#[test]
fn broken_link_message_names_both_hashes() {
    let mut s = SemanticSubstrate::new();
    s.commit_entity_at(make_entity("a", ConceptType::Metric), "op", 1);
    s.commit_entity_at(make_entity("b", ConceptType::Metric), "op", 2);
    let head = s.lineage[0].transformation_hash.clone();
    s.lineage[1].previous_hash = "TAMPERED".to_string();
    let (i, m) = s.verify_chain_integrity().unwrap_err();
    assert_eq!(i, 1);
    assert_eq!(m, format!("Chain broken at index 1: expected previous_hash={}, got=TAMPERED", head));
    assert_eq!(SemanticSubstrate::new().chain_head(), "EMPTY");
    assert_eq!(ConceptType::StateGeneration.to_string(), "StateGeneration");
}
