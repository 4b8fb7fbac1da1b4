//! The provenance check that stands before every mutation: the concepts a
//! transformation derives from must be known, leaks are counted, and the
//! payload is sealed with the SHA-256 of its canonical JSON.
use vstd::prelude::*;
use crate::digest::{sha256_hex, sha256_hex_spec};
use crate::edge::capabilities::str_field;
use crate::json_text::{json_field, json_str_list, push_json_field_str, push_json_str, push_json_str_array, push_mark, string_views};
use crate::text::{chars_of, contains, contains_seq, owned, text_with};

verus! {

/// A concept of the core schema.
#[derive(Debug)]
pub struct Concept {
    pub id: String,
    pub authority: Option<String>,
    pub status: Option<String>,
}

/// The core schema: its concepts, by name.
#[derive(Debug)]
pub struct Schema {
    pub concepts: Vec<(String, Concept)>,
}

/// The identifiers of the schema's concepts.
pub open spec fn concept_ids(s: &Schema) -> Seq<Seq<char>> {
    s.concepts@.map_values(|c: (String, Concept)| c.1.id@)
}

/// A transformation's provenance.
#[derive(Debug)]
pub struct Provenance {
    pub result: String,
    pub derived_from: Vec<String>,
    pub evidence: Vec<String>,
    pub hash: String,
}

pub struct ProvenanceView {
    pub result: Seq<char>,
    pub derived_from: Seq<Seq<char>>,
    pub evidence: Seq<Seq<char>>,
    pub hash: Seq<char>,
}

impl View for Provenance {
    type V = ProvenanceView;

    open spec fn view(&self) -> ProvenanceView {
        ProvenanceView {
            result: self.result@,
            derived_from: string_views(self.derived_from@),
            evidence: string_views(self.evidence@),
            hash: self.hash@,
        }
    }
}

/// Counts of semantic deviations.
#[derive(Debug, Clone, Copy, PartialEq, Eq, Structural)]
pub struct DriftCounters {
    pub authority_inversion: u64,
    pub rollback_weakening: u64,
    pub cloud_sovereignty_leak: u64,
    pub llm_execution_leak: u64,
    pub semantic_alias_conflict: u64,
}

impl Default for DriftCounters {
    fn default() -> (r: Self)
        ensures
            r.authority_inversion == 0,
            r.rollback_weakening == 0,
            r.cloud_sovereignty_leak == 0,
            r.llm_execution_leak == 0,
            r.semantic_alias_conflict == 0,
    {
        DriftCounters {
            authority_inversion: 0,
            rollback_weakening: 0,
            cloud_sovereignty_leak: 0,
            llm_execution_leak: 0,
            semantic_alias_conflict: 0,
        }
    }
}

/// The payload as `serde_json::to_string` writes it.
pub open spec fn provenance_json(p: ProvenanceView) -> Seq<char> {
    seq!['{'] + str_field("result"@, p.result) + seq![','] + json_field(
        "derived_from"@,
        seq!['['] + json_str_list(p.derived_from) + seq![']'],
    ) + seq![','] + json_field("evidence"@, seq!['['] + json_str_list(p.evidence) + seq![']']) + seq![',']
        + str_field("hash"@, p.hash) + seq!['}']
}

/// The seal of a payload: the SHA-256 of its JSON with the hash left empty.
pub open spec fn provenance_hash(p: ProvenanceView) -> Seq<char> {
    sha256_hex_spec(provenance_json(ProvenanceView { hash: seq![], ..p }))
}

/// Evidence that speaks of the cloud without speaking of a mirror.
pub open spec fn leaky(e: Seq<char>) -> bool {
    contains_seq(e, "cloud"@) && !contains_seq(e, "mirror"@)
}

/// Some piece of the evidence is leaky.
pub open spec fn cloud_leak(evidence: Seq<Seq<char>>) -> bool {
    exists|i: int| 0 <= i < evidence.len() && #[trigger] leaky(evidence[i])
}

/// A result that claims authority other than a confirmed apply.
pub open spec fn authority_leak(result: Seq<char>) -> bool {
    contains_seq(result, "AUTHORITY"@) && result != "ALLOW_APPLY_CONFIRMED"@
}

/// Computes the seal of `payload`.
pub fn compute_hash(payload: &Provenance) -> (h: String)
    ensures
        h@ == provenance_hash(payload@),
{
    let mut out = String::new();
    push_mark(&mut out, '{');
    push_json_field_str(&mut out, "result", payload.result.as_str());
    push_mark(&mut out, ',');
    push_json_str(&mut out, "derived_from");
    push_mark(&mut out, ':');
    push_json_str_array(&mut out, &payload.derived_from);
    push_mark(&mut out, ',');
    push_json_str(&mut out, "evidence");
    push_mark(&mut out, ':');
    push_json_str_array(&mut out, &payload.evidence);
    push_mark(&mut out, ',');
    push_json_field_str(&mut out, "hash", "");
    push_mark(&mut out, '}');
    proof {
        reveal_strlit("");
        assert(""@ =~= Seq::<char>::empty());
    }
    assert(out@ =~= provenance_json(ProvenanceView { hash: seq![], ..payload@ }));
    sha256_hex(out.as_str())
}

fn is_known(schema: &Schema, cid: &String) -> (r: bool)
    ensures
        r == concept_ids(schema).contains(cid@),
{
    let ghost ids = concept_ids(schema);
    let mut i: usize = 0;
    while i < schema.concepts.len()
        invariant
            ids == concept_ids(schema),
            ids.len() == schema.concepts@.len(),
            i <= ids.len(),
            forall|k: int| 0 <= k < i ==> ids[k] != cid@,
        decreases schema.concepts.len() - i,
    {
        if schema.concepts[i].1.id == *cid {
            assert(ids[i as int] == cid@);
            return true;
        }
        i = i + 1;
    }
    false
}

fn text_contains(hay: &String, needle: &str) -> (r: bool)
    ensures
        r == contains_seq(hay@, needle@),
{
    let h = chars_of(hay.as_str());
    let n = chars_of(needle);
    contains(h.as_slice(), n.as_slice())
}

/// Checks a transformation's provenance against the schema, counting what
/// it finds, and seals it. The first concept of `derived_from` that the
/// schema does not know refuses it, counted as an authority inversion.
/// Otherwise a cloud leak in the evidence and a claim of authority in the
/// result are counted, and the payload comes back with its seal.
pub fn validate_transformation(mut payload: Provenance, schema: &Schema, counters: &mut DriftCounters) -> (r: Result<Provenance, String>)
    requires
        old(counters).authority_inversion < u64::MAX,
        old(counters).cloud_sovereignty_leak < u64::MAX,
        old(counters).llm_execution_leak < u64::MAX,
    ensures
        final(counters).rollback_weakening == old(counters).rollback_weakening,
        final(counters).semantic_alias_conflict == old(counters).semantic_alias_conflict,
        match r {
            Err(m) => {
                let d = payload@.derived_from;
                &&& exists|i: int| {
                    &&& 0 <= i < d.len()
                    &&& !concept_ids(schema).contains(#[trigger] d[i])
                    &&& forall|j: int| 0 <= j < i ==> concept_ids(schema).contains(#[trigger] d[j])
                    &&& m@ == "Unknown concept id in derived_from: "@ + d[i]
                }
                &&& final(counters).authority_inversion == old(counters).authority_inversion + 1
                &&& final(counters).cloud_sovereignty_leak == old(counters).cloud_sovereignty_leak
                &&& final(counters).llm_execution_leak == old(counters).llm_execution_leak
            },
            Ok(p) => {
                &&& forall|j: int| 0 <= j < payload@.derived_from.len() ==> concept_ids(schema).contains(
                    #[trigger] payload@.derived_from[j],
                )
                &&& p@ == ProvenanceView { hash: provenance_hash(payload@), ..payload@ }
                &&& final(counters).authority_inversion == old(counters).authority_inversion
                &&& final(counters).cloud_sovereignty_leak == old(counters).cloud_sovereignty_leak + if cloud_leak(
                    payload@.evidence,
                ) { 1int } else { 0int }
                &&& final(counters).llm_execution_leak == old(counters).llm_execution_leak + if authority_leak(
                    payload@.result,
                ) { 1int } else { 0int }
            },
        },
{
    let ghost c0 = *counters;
    let ghost d = payload@.derived_from;
    let mut i: usize = 0;
    while i < payload.derived_from.len()
        invariant
            d == payload@.derived_from,
            d.len() == payload.derived_from@.len(),
            i <= d.len(),
            forall|j: int| 0 <= j < i ==> concept_ids(schema).contains(#[trigger] d[j]),
            *counters == c0,
            c0 == *old(counters),
            c0.authority_inversion < u64::MAX,
        decreases payload.derived_from.len() - i,
    {
        if !is_known(schema, &payload.derived_from[i]) {
            counters.authority_inversion = counters.authority_inversion + 1;
            let m = text_with("Unknown concept id in derived_from: ", payload.derived_from[i].as_str());
            assert(d[i as int] == payload.derived_from@[i as int]@);
            assert(!concept_ids(schema).contains(d[i as int]));
            assert(m@ == "Unknown concept id in derived_from: "@ + d[i as int]);
            assert(forall|j: int| 0 <= j < i ==> concept_ids(schema).contains(#[trigger] d[j]));
            return Err(m);
        }
        i = i + 1;
    }
    let ghost ev = payload@.evidence;
    let mut leak = false;
    let mut k: usize = 0;
    while k < payload.evidence.len()
        invariant
            ev == payload@.evidence,
            ev.len() == payload.evidence@.len(),
            k <= ev.len(),
            leak == exists|j: int| 0 <= j < k && #[trigger] leaky(ev[j]),
        decreases payload.evidence.len() - k,
    {
        let e = &payload.evidence[k];
        assert(e@ == ev[k as int]);
        let hit = text_contains(e, "cloud") && !text_contains(e, "mirror");
        assert(hit == leaky(ev[k as int]));
        if hit {
            leak = true;
        }
        k = k + 1;
    }
    if leak {
        counters.cloud_sovereignty_leak = counters.cloud_sovereignty_leak + 1;
    }
    let allow = owned("ALLOW_APPLY_CONFIRMED");
    if text_contains(&payload.result, "AUTHORITY") && payload.result != allow {
        counters.llm_execution_leak = counters.llm_execution_leak + 1;
    }
    let h = compute_hash(&payload);
    payload.hash = h;
    Ok(payload)
}

/// The seal does not depend on the hash a payload already carries, so
/// validating a sealed payload again reproduces its seal.
pub proof fn law_seal_is_reproducible(p: ProvenanceView, h: Seq<char>)
    ensures
        provenance_hash(ProvenanceView { hash: h, ..p }) == provenance_hash(p),
        provenance_hash(ProvenanceView { hash: provenance_hash(p), ..p }) == provenance_hash(p),
{
    assert(ProvenanceView { hash: seq![], ..ProvenanceView { hash: h, ..p } } == ProvenanceView { hash: seq![], ..p });
    assert(ProvenanceView { hash: seq![], ..ProvenanceView { hash: provenance_hash(p), ..p } } == ProvenanceView {
        hash: seq![],
        ..p
    });
}

} // verus!
