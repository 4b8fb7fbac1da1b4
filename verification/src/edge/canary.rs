//! The decisions of the agent's commands: which profile a name asks for,
//! when the canary must stay a dry run, and what provenance a mutation
//! presents to the check.
use vstd::prelude::*;
use crate::edge::check::Provenance;
use crate::edge::profiles::{ProfileIntent, ProfileSchema};
use crate::json_text::string_views;
use crate::order::same_chars;
use crate::text::{chars_of, decimal, owned, push_decimal, starts_with, starts_with_seq, text_with};

verus! {

/// The intent a profile name asks for; an unknown name asks for the safe
/// recovery mode.
pub open spec fn intent_named(name: Seq<char>) -> ProfileIntent {
    if name == "DNS_PRIVACY"@ {
        ProfileIntent::DnsPrivacy
    } else if name == "ECH_PRESERVE"@ {
        ProfileIntent::EchPreserve
    } else if name == "USER_TUNNEL"@ {
        ProfileIntent::UserTunnel
    } else if name == "SAFE_MTU"@ {
        ProfileIntent::SafeMtu
    } else if name == "OBLIVIOUS_DNS"@ {
        ProfileIntent::ObliviousDns
    } else if name == "MASQUE_OBFUSCATION"@ {
        ProfileIntent::MasqueObfuscation
    } else {
        ProfileIntent::RecoverySafeMode
    }
}

fn is_name(n: &[char], word: &str) -> (r: bool)
    ensures
        r == (n@ == word@),
{
    let w = chars_of(word);
    same_chars(n, w.as_slice())
}

/// The intent that the `plan` command's profile name asks for.
pub fn intent_for_name(name: &str) -> (r: ProfileIntent)
    ensures
        r == intent_named(name@),
{
    let cs = chars_of(name);
    let n = cs.as_slice();
    if is_name(n, "DNS_PRIVACY") {
        ProfileIntent::DnsPrivacy
    } else if is_name(n, "ECH_PRESERVE") {
        ProfileIntent::EchPreserve
    } else if is_name(n, "USER_TUNNEL") {
        ProfileIntent::UserTunnel
    } else if is_name(n, "SAFE_MTU") {
        ProfileIntent::SafeMtu
    } else if is_name(n, "OBLIVIOUS_DNS") {
        ProfileIntent::ObliviousDns
    } else if is_name(n, "MASQUE_OBFUSCATION") {
        ProfileIntent::MasqueObfuscation
    } else {
        ProfileIntent::RecoverySafeMode
    }
}

/// The intent's name as `{:?}` writes it.
pub open spec fn intent_debug(i: ProfileIntent) -> Seq<char> {
    match i {
        ProfileIntent::DnsPrivacy => "DnsPrivacy"@,
        ProfileIntent::EchPreserve => "EchPreserve"@,
        ProfileIntent::UserTunnel => "UserTunnel"@,
        ProfileIntent::SafeMtu => "SafeMtu"@,
        ProfileIntent::RecoverySafeMode => "RecoverySafeMode"@,
        ProfileIntent::ObliviousDns => "ObliviousDns"@,
        ProfileIntent::MasqueObfuscation => "MasqueObfuscation"@,
    }
}

pub fn intent_debug_name(i: ProfileIntent) -> (r: &'static str)
    ensures
        r@ == intent_debug(i),
{
    match i {
        ProfileIntent::DnsPrivacy => "DnsPrivacy",
        ProfileIntent::EchPreserve => "EchPreserve",
        ProfileIntent::UserTunnel => "UserTunnel",
        ProfileIntent::SafeMtu => "SafeMtu",
        ProfileIntent::RecoverySafeMode => "RecoverySafeMode",
        ProfileIntent::ObliviousDns => "ObliviousDns",
        ProfileIntent::MasqueObfuscation => "MasqueObfuscation",
    }
}

/// The profile that the `plan` command makes of a name.
pub fn profile_for_name(name: &str) -> (p: ProfileSchema)
    ensures
        p@.name == name@,
        p@.intent == intent_named(name@),
        p@.description == "Auto-generated profile"@,
        p@.routes is None,
        p@.dns is None,
{
    ProfileSchema {
        name: owned(name),
        intent: intent_for_name(name),
        description: owned("Auto-generated profile"),
        routes: None,
        dns: None,
    }
}

/// The profile that the canary applies: the safe MTU.
pub fn canary_profile() -> (p: ProfileSchema)
    ensures
        p@.name == "Canary Test MTU"@,
        p@.intent == ProfileIntent::SafeMtu,
        p@.description == "Test safe MTU setting"@,
        p@.routes is None,
        p@.dns is None,
{
    ProfileSchema {
        name: owned("Canary Test MTU"),
        intent: ProfileIntent::SafeMtu,
        description: owned("Test safe MTU setting"),
        routes: None,
        dns: None,
    }
}

/// Why the canary must not mutate, if it must not: a forced dry run wins,
/// then a build without dangerous execution, then a missing
/// `--unsafe-execute`, then a confirmation that does not start with
/// `unsafe:`.
pub open spec fn refusal_spec(
    force_dry_run: bool,
    dangerous_execution: bool,
    unsafe_execute: bool,
    confirm: Option<Seq<char>>,
) -> Option<Seq<char>> {
    if force_dry_run {
        Some("BS_FORCE_DRY_RUN=1 environment variable set"@)
    } else if !dangerous_execution {
        Some("dangerous_execution feature disabled"@)
    } else if !unsafe_execute {
        Some("missing --unsafe-execute flag"@)
    } else if !starts_with_seq(
        match confirm {
            Some(c) => c,
            None => seq![],
        },
        "unsafe:"@,
    ) {
        Some("missing or invalid --confirm unsafe:<request_id>"@)
    } else {
        None
    }
}

/// Decides whether the canary must stay a dry run, and why.
pub fn refusal_reason(force_dry_run: bool, dangerous_execution: bool, unsafe_execute: bool, confirm: Option<&str>) -> (r:
    Option<&'static str>)
    ensures
        match r {
            Some(m) => refusal_spec(
                force_dry_run,
                dangerous_execution,
                unsafe_execute,
                match confirm {
                    Some(c) => Some(c@),
                    None => None,
                },
            ) == Some(m@),
            None => refusal_spec(
                force_dry_run,
                dangerous_execution,
                unsafe_execute,
                match confirm {
                    Some(c) => Some(c@),
                    None => None,
                },
            ) is None,
        },
{
    if force_dry_run {
        return Some("BS_FORCE_DRY_RUN=1 environment variable set");
    }
    if !dangerous_execution {
        return Some("dangerous_execution feature disabled");
    }
    if !unsafe_execute {
        return Some("missing --unsafe-execute flag");
    }
    let c = match confirm {
        Some(c) => chars_of(c),
        None => Vec::new(),
    };
    let p = chars_of("unsafe:");
    if !starts_with(c.as_slice(), p.as_slice()) {
        return Some("missing or invalid --confirm unsafe:<request_id>");
    }
    None
}

/// A transaction's identifier from the time it began.
pub fn tx_id_for(unix_secs: u64) -> (t: String)
    ensures
        t@ == "tx_"@ + decimal(unix_secs as nat),
{
    let mut t = owned("tx_");
    push_decimal(&mut t, unix_secs);
    t
}

fn strings(items: &[&str]) -> (v: Vec<String>)
    ensures
        string_views(v@) == items@.map_values(|s: &str| s@),
{
    let mut v: Vec<String> = Vec::new();
    let mut i: usize = 0;
    while i < items.len()
        invariant
            i <= items@.len(),
            v@.len() == i,
            forall|k: int| 0 <= k < i ==> (#[trigger] v@[k])@ == items@[k]@,
        decreases items.len() - i,
    {
        v.push(owned(items[i]));
        i = i + 1;
    }
    assert(string_views(v@) =~= items@.map_values(|s: &str| s@));
    v
}

/// The concepts a mutation derives from.
pub open spec fn mutation_lineage() -> Seq<Seq<char>> {
    seq!["inv.no_irreversible_mutation"@, "cap.apply_confirmed"@, "gen.current"@]
}

/// The provenance the canary presents before it mutates.
pub fn canary_provenance() -> (p: Provenance)
    ensures
        p@.result == "ALLOW_CANARY"@,
        p@.derived_from == mutation_lineage(),
        p@.evidence == seq!["rollback_anchor.exists"@, "watchdog.armed"@],
        p@.hash == Seq::<char>::empty(),
{
    let p = Provenance {
        result: owned("ALLOW_CANARY"),
        derived_from: strings(&["inv.no_irreversible_mutation", "cap.apply_confirmed", "gen.current"]),
        evidence: strings(&["rollback_anchor.exists", "watchdog.armed"]),
        hash: String::new(),
    };
    assert(p@.derived_from =~= mutation_lineage());
    assert(p@.evidence =~= seq!["rollback_anchor.exists"@, "watchdog.armed"@]);
    p
}

/// The provenance a confirmed apply of `plan_file` presents.
pub fn apply_confirmed_provenance(plan_file: &str) -> (p: Provenance)
    ensures
        p@.result == "ALLOW_APPLY_CONFIRMED"@,
        p@.derived_from == mutation_lineage(),
        p@.evidence == seq!["rollback_anchor.exists"@, "tx_json.valid: "@ + plan_file@],
        p@.hash == Seq::<char>::empty(),
{
    let mut evidence: Vec<String> = Vec::new();
    evidence.push(owned("rollback_anchor.exists"));
    evidence.push(text_with("tx_json.valid: ", plan_file));
    let p = Provenance {
        result: owned("ALLOW_APPLY_CONFIRMED"),
        derived_from: strings(&["inv.no_irreversible_mutation", "cap.apply_confirmed", "gen.current"]),
        evidence,
        hash: String::new(),
    };
    assert(p@.derived_from =~= mutation_lineage());
    assert(p@.evidence =~= seq!["rollback_anchor.exists"@, "tx_json.valid: "@ + plan_file@]);
    p
}

} // verus!
