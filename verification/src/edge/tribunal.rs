//! The review request that a transaction files for the tribunal: what is
//! asked to be reviewed, the risks it carries, and the questions put.
use vstd::prelude::*;
use crate::json_text::{json_field, json_literal, push_json_field_str, push_json_str, push_mark};
use crate::text::push_str;

verus! {

/// `"key":` followed by the literal of `value`.
pub open spec fn str_field(key: Seq<char>, value: Seq<char>) -> Seq<char> {
    json_field(key, json_literal(value))
}

/// The reviewed target: the repository's main branch, commit still pending,
/// no paths named yet.
pub open spec fn review_target_json(repo: Seq<char>) -> Seq<char> {
    seq!['{'] + str_field("repo"@, repo) + seq![','] + str_field("branch"@, "main"@) + seq![','] + str_field(
        "commit"@,
        "pending"@,
    ) + seq![','] + json_field("paths"@, "[]"@) + seq!['}']
}

/// The risks: a possible mutation that reaches the router and changes the
/// runtime, without governance change or outside dependency.
pub open spec fn risk_context_json() -> Seq<char> {
    seq!['{'] + str_field("mutation_risk"@, "possible"@) + seq![','] + json_field("router_access"@, "true"@)
        + seq![','] + json_field("runtime_change"@, "true"@) + seq![','] + json_field("governance_change"@, "false"@)
        + seq![','] + json_field("external_api_dependency"@, "false"@) + seq!['}']
}

/// The evidence: the intent as its summary, the rest still empty.
pub open spec fn evidence_json(intent: Seq<char>) -> Seq<char> {
    seq!['{'] + str_field("summary"@, intent) + seq![','] + str_field("diff_summary"@, ""@) + seq![','] + str_field(
        "test_output_summary"@,
        ""@,
    ) + seq![','] + json_field("artifact_hashes"@, "[]"@) + seq!['}']
}

/// The four questions every request puts.
pub open spec fn questions_json() -> Seq<char> {
    seq!['['] + json_literal("Is this change consistent with Rollback is Sacred?"@) + seq![','] + json_literal(
        "Does this introduce runtime mutation?"@,
    ) + seq![','] + json_literal("Does this introduce governance creep?"@) + seq![','] + json_literal(
        "Does this preserve default dry-run behavior?"@,
    ) + seq![']']
}

/// The whole request for transaction `tx_id`, as compact JSON.
pub open spec fn tribunal_request_spec(tx_id: Seq<char>, intent: Seq<char>, repo: Seq<char>) -> Seq<char> {
    seq!['{'] + str_field("$schema"@, "http://json-schema.org/draft-07/schema#"@) + seq![','] + str_field(
        "schema_id"@,
        "urn:tribunal:review-request:v1"@,
    ) + seq![','] + str_field("request_id"@, tx_id) + seq![','] + str_field("milestone"@, "Prototype"@) + seq![',']
        + str_field("review_mode"@, "local_manual"@) + seq![','] + json_field("review_target"@, review_target_json(repo))
        + seq![','] + json_field("risk_context"@, risk_context_json()) + seq![','] + json_field(
        "evidence"@,
        evidence_json(intent),
    ) + seq![','] + json_field("questions"@, questions_json()) + seq!['}']
}

/// Appends `"key":` and then the raw JSON `value`.
fn push_raw_field(out: &mut String, key: &str, value: &str)
    ensures
        final(out)@ == old(out)@ + json_field(key@, value@),
{
    push_json_str(out, key);
    push_mark(out, ':');
    push_str(out, value);
}

fn review_target_text(repo: &str) -> (t: String)
    ensures
        t@ == review_target_json(repo@),
{
    let mut out = String::new();
    push_mark(&mut out, '{');
    push_json_field_str(&mut out, "repo", repo);
    push_mark(&mut out, ',');
    push_json_field_str(&mut out, "branch", "main");
    push_mark(&mut out, ',');
    push_json_field_str(&mut out, "commit", "pending");
    push_mark(&mut out, ',');
    push_raw_field(&mut out, "paths", "[]");
    push_mark(&mut out, '}');
    assert(out@ =~= review_target_json(repo@));
    out
}

fn risk_context_text() -> (t: String)
    ensures
        t@ == risk_context_json(),
{
    let mut out = String::new();
    push_mark(&mut out, '{');
    push_json_field_str(&mut out, "mutation_risk", "possible");
    push_mark(&mut out, ',');
    push_raw_field(&mut out, "router_access", "true");
    push_mark(&mut out, ',');
    push_raw_field(&mut out, "runtime_change", "true");
    push_mark(&mut out, ',');
    push_raw_field(&mut out, "governance_change", "false");
    push_mark(&mut out, ',');
    push_raw_field(&mut out, "external_api_dependency", "false");
    push_mark(&mut out, '}');
    assert(out@ =~= risk_context_json());
    out
}

fn evidence_text(intent: &str) -> (t: String)
    ensures
        t@ == evidence_json(intent@),
{
    let mut out = String::new();
    push_mark(&mut out, '{');
    push_json_field_str(&mut out, "summary", intent);
    push_mark(&mut out, ',');
    push_json_field_str(&mut out, "diff_summary", "");
    push_mark(&mut out, ',');
    push_json_field_str(&mut out, "test_output_summary", "");
    push_mark(&mut out, ',');
    push_raw_field(&mut out, "artifact_hashes", "[]");
    push_mark(&mut out, '}');
    assert(out@ =~= evidence_json(intent@));
    out
}

fn questions_text() -> (t: String)
    ensures
        t@ == questions_json(),
{
    let mut out = String::new();
    push_mark(&mut out, '[');
    push_json_str(&mut out, "Is this change consistent with Rollback is Sacred?");
    push_mark(&mut out, ',');
    push_json_str(&mut out, "Does this introduce runtime mutation?");
    push_mark(&mut out, ',');
    push_json_str(&mut out, "Does this introduce governance creep?");
    push_mark(&mut out, ',');
    push_json_str(&mut out, "Does this preserve default dry-run behavior?");
    push_mark(&mut out, ']');
    assert(out@ =~= questions_json());
    out
}

/// The review request for transaction `tx_id`, which carries `intent`
/// against `target_repo`, as compact JSON.
pub fn tribunal_request_json(tx_id: &str, intent: &str, target_repo: &str) -> (t: String)
    ensures
        t@ == tribunal_request_spec(tx_id@, intent@, target_repo@),
{
    let target = review_target_text(target_repo);
    let risks = risk_context_text();
    let evidence = evidence_text(intent);
    let questions = questions_text();
    let mut out = String::new();
    push_mark(&mut out, '{');
    push_json_field_str(&mut out, "$schema", "http://json-schema.org/draft-07/schema#");
    push_mark(&mut out, ',');
    push_json_field_str(&mut out, "schema_id", "urn:tribunal:review-request:v1");
    push_mark(&mut out, ',');
    push_json_field_str(&mut out, "request_id", tx_id);
    push_mark(&mut out, ',');
    push_json_field_str(&mut out, "milestone", "Prototype");
    push_mark(&mut out, ',');
    push_json_field_str(&mut out, "review_mode", "local_manual");
    push_mark(&mut out, ',');
    push_raw_field(&mut out, "review_target", target.as_str());
    push_mark(&mut out, ',');
    push_raw_field(&mut out, "risk_context", risks.as_str());
    push_mark(&mut out, ',');
    push_raw_field(&mut out, "evidence", evidence.as_str());
    push_mark(&mut out, ',');
    push_raw_field(&mut out, "questions", questions.as_str());
    push_mark(&mut out, '}');
    assert(out@ =~= tribunal_request_spec(tx_id@, intent@, target_repo@));
    out
}

/// The file the request is filed under.
pub fn tribunal_request_file(tx_id: &str) -> (p: String)
    ensures
        p@ == "pending_request_"@ + tx_id@ + ".json"@,
{
    let mut p = crate::text::owned("pending_request_");
    push_str(&mut p, tx_id);
    push_str(&mut p, ".json");
    p
}

} // verus!
