use blueshoes::edge::freebsd::{concept_token, ConceptType, Entity, FreeBsdExecutor};

#[test]
fn commits_are_md5_receipts() {
    let mut e = FreeBsdExecutor::new("/tmp/sock");
    assert_eq!(e.socket_path, "/tmp/sock");
    let r = e.commit_entity_at(
        Entity { id: "Person:a".to_string(), concept: ConceptType::Person, properties: Vec::new() },
        "op",
        1700000000,
    );
    assert_eq!(r.transformation_hash, format!("{:x}", md5::compute("Person:a1700000000op".as_bytes())));
    assert_eq!(r.timestamp, 1700000000);
    assert_eq!(e.lineage.len(), 1);
    e.commit_entity_at(Entity { id: "Person:a".to_string(), concept: ConceptType::Metric, properties: Vec::new() }, "op", 1);
    assert_eq!(e.registry.len(), 1);
    assert_eq!(e.registry[0].concept, ConceptType::Metric);
    assert_eq!(concept_token(ConceptType::Project), "Project");
}
