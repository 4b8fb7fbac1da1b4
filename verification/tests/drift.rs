use blueshoes::edge::drift::{coverage, token_counts};

fn strs(v: &[&str]) -> Vec<String> {
    v.iter().map(|s| s.to_string()).collect()
}

#[test]
fn tokens_are_counted_in_order_of_first_appearance() {
    let counts = token_counts(&strs(&["Person", "Project", "Person", "Metric", "Person"]));
    assert_eq!(counts, vec![("Person".to_string(), 3), ("Project".to_string(), 1), ("Metric".to_string(), 1)]);
    assert!(token_counts(&Vec::new()).is_empty());
}

#[test]
fn hallucinated_and_missing_concepts_are_counted() {
    let ground = strs(&["Person", "Project", "Metric"]);
    assert_eq!(coverage(&ground, &strs(&["Person", "Project", "UnknownGarbage", "UnknownGarbage"])), (1, 1));
    assert_eq!(coverage(&ground, &Vec::new()), (3, 0));
    assert_eq!(coverage(&ground, &strs(&["Person", "Project", "Metric"])), (0, 0));
}

fn ground_truth() -> Vec<String> {
    strs(&["Person", "Project", "Metric"])
}

#[test]
fn test_hallucinated_concept_detection() {
    let tokens = strs(&["Person", "Project", "Metric", "UnknownGarbage", "Hallucinated"]);
    let (_, hallucinated_concepts) = coverage(&ground_truth(), &tokens);
    assert_eq!(hallucinated_concepts, 2);
}

#[test]
fn test_empty_payload_is_total_drift() {
    let tokens: Vec<String> = vec![];
    let (missing_concepts, _) = coverage(&ground_truth(), &tokens);
    assert_eq!(missing_concepts, 3);
}
