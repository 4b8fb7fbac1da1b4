use blueshoes::edge::tribunal::{tribunal_request_file, tribunal_request_json};
use blueshoes::edge::journal::{archive_for, confirm_file, rollback_shift_plan, tail_lines, watchdog_arguments};

#[test]
fn tail_keeps_the_last_lines() {
    let text = "a\nb\nc\nd\n";
    assert_eq!(tail_lines(text, 2), vec!["c".to_string(), "d".to_string()]);
    assert_eq!(tail_lines(text, 10).len(), 4);
    assert_eq!(tail_lines(text, 0).len(), 4);
    assert_eq!(tail_lines("", 3).len(), 0);
    assert_eq!(tail_lines("x\r\ny", 1), vec!["y".to_string()]);
}

#[test]
fn transaction_files() {
    let plan = rollback_shift_plan();
    assert_eq!(plan.len(), 9);
    assert_eq!(plan[0], ("/tmp/blueshoes/rollbacks/rb_8.tar.gz".to_string(), "/tmp/blueshoes/rollbacks/rb_9.tar.gz".to_string()));
    assert_eq!(plan[8].0, "/tmp/blueshoes/rollbacks/rb_0.tar.gz");
    assert_eq!(archive_for(0), "/tmp/blueshoes/rollbacks/rb_0.tar.gz");
    assert_eq!(confirm_file("tx_7"), "/tmp/blueshoes_confirm_tx_7");
    assert_eq!(watchdog_arguments("tx_7", 60), vec!["--tx-id".to_string(), "tx_7".to_string(), "--timeout".to_string(), "60".to_string()]);
}

#[test]
fn tribunal_requests_carry_the_transaction_and_its_intent() {
    let text = tribunal_request_json("tx_9", "SafeMtu \"canary\"", "timelabs-npo/Blueshoes");
    let v: serde_json::Value = serde_json::from_str(&text).unwrap();
    assert_eq!(v["request_id"], "tx_9");
    assert_eq!(v["schema_id"], "urn:tribunal:review-request:v1");
    assert_eq!(v["evidence"]["summary"], "SafeMtu \"canary\"");
    assert_eq!(v["review_target"]["repo"], "timelabs-npo/Blueshoes");
    assert_eq!(v["review_target"]["paths"].as_array().unwrap().len(), 0);
    assert_eq!(v["risk_context"]["router_access"], true);
    assert_eq!(v["risk_context"]["governance_change"], false);
    assert_eq!(v["questions"].as_array().unwrap().len(), 4);
    assert_eq!(tribunal_request_file("tx_9"), "pending_request_tx_9.json");
}
