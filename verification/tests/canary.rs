use blueshoes::edge::canary::{
    apply_confirmed_provenance, canary_profile, canary_provenance, intent_debug_name, intent_for_name,
    profile_for_name, refusal_reason, tx_id_for,
};
use blueshoes::edge::profiles::ProfileIntent;

#[test]
fn profile_names() {
    assert_eq!(intent_for_name("DNS_PRIVACY"), ProfileIntent::DnsPrivacy);
    assert_eq!(intent_for_name("SAFE_MTU"), ProfileIntent::SafeMtu);
    assert_eq!(intent_for_name("MASQUE_OBFUSCATION"), ProfileIntent::MasqueObfuscation);
    assert_eq!(intent_for_name("DIRECT"), ProfileIntent::RecoverySafeMode);
    assert_eq!(intent_debug_name(ProfileIntent::SafeMtu), "SafeMtu");
    let p = profile_for_name("USER_TUNNEL");
    assert_eq!(p.intent, ProfileIntent::UserTunnel);
    assert_eq!(p.description, "Auto-generated profile");
    let c = canary_profile();
    assert_eq!(c.name, "Canary Test MTU");
    assert_eq!(c.intent, ProfileIntent::SafeMtu);
}

#[test]
fn test_cli_default_safety_reasons() {
    assert_eq!(refusal_reason(false, false, false, None), Some("dangerous_execution feature disabled"));
    assert_eq!(refusal_reason(true, true, true, Some("unsafe:x")), Some("BS_FORCE_DRY_RUN=1 environment variable set"));
    assert_eq!(refusal_reason(false, true, false, Some("unsafe:x")), Some("missing --unsafe-execute flag"));
    assert_eq!(refusal_reason(false, true, true, Some("safe:x")), Some("missing or invalid --confirm unsafe:<request_id>"));
    assert_eq!(refusal_reason(false, true, true, None), Some("missing or invalid --confirm unsafe:<request_id>"));
    assert_eq!(refusal_reason(false, true, true, Some("unsafe:req-1")), None);
}

#[test]
fn provenance_payloads() {
    let c = canary_provenance();
    assert_eq!(c.result, "ALLOW_CANARY");
    assert_eq!(c.derived_from, vec!["inv.no_irreversible_mutation", "cap.apply_confirmed", "gen.current"]);
    assert_eq!(c.evidence, vec!["rollback_anchor.exists", "watchdog.armed"]);
    assert_eq!(c.hash, "");
    let a = apply_confirmed_provenance("plan.json");
    assert_eq!(a.evidence[1], "tx_json.valid: plan.json");
    assert_eq!(tx_id_for(42), "tx_42");
}
