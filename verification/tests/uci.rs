use blueshoes::edge::uci::batch_payload;

#[test]
fn test_payload_generation_does_not_contain_forbidden_strings() {
    let cmds = vec![
        "set network.lan.ipaddr='192.168.1.1'".to_string(),
        "commit network".to_string(),
    ];
    let payload = batch_payload(&cmds);
    assert!(!payload.contains(&format!("uci {}", "set")));
    assert!(!payload.contains(&format!("uci {}", "commit")));
}

#[test]
fn batch_payload_ends_every_command_with_a_newline() {
    let cmds = vec!["set a.b=1".to_string(), "commit a".to_string()];
    assert_eq!(batch_payload(&cmds), "set a.b=1\ncommit a\n");
    let one = vec!["commit network".to_string()];
    assert_eq!(batch_payload(&one), "commit network\n");
}
