//! Pure, stateless projection of evidence into a flow graph.
//!
//! Re-projecting against a new clock downgrades cached data. Routes and
//! process ownership are never inferred from display annotations or from an
//! unscoped imported reference: endpoints are scoped to the observation that
//! supports them, and imported process references stay per observation.
use vstd::prelude::*;
use crate::flow::model::{
    freshness_rank, freshness_spec, law_judging_never_promotes, opt_view, origin_name, origin_wire_name, platform_name, same_evidence, validate,
    validate_spec, Authority, Endpoint, EndpointView, Evaluation, Evidence, EvidenceView, FlowObservation,
    FlowObservationView, Freshness, Origin, Platform, Provenance, MAX_RECORDS,
};
use crate::clock::{age_nanos, rfc3339_age, rfc3339_normal};
use crate::json_text::{json_literal, lemma_json_literal_delimited, push_json_str, push_mark};
use crate::order::{
    find_slot, insert_key, key_views, lemma_lt_irreflexive, lemma_sorted_same_keys, seq_lt, strictly_sorted,
};
use crate::text::{chars_of, is_err_with, string_of};

verus! {

#[derive(Debug)]
pub enum Node {
    Endpoint { id: String, endpoint: Endpoint },
    Process { id: String, process_ref: String },
}

pub enum NodeView {
    Endpoint { id: Seq<char>, endpoint: EndpointView },
    Process { id: Seq<char>, process_ref: Seq<char> },
}

impl View for Node {
    type V = NodeView;

    open spec fn view(&self) -> NodeView {
        match self {
            Node::Endpoint { id, endpoint } => NodeView::Endpoint { id: id@, endpoint: endpoint@ },
            Node::Process { id, process_ref } => NodeView::Process { id: id@, process_ref: process_ref@ },
        }
    }
}

pub open spec fn node_id(n: NodeView) -> Seq<char> {
    match n {
        NodeView::Endpoint { id, .. } => id,
        NodeView::Process { id, .. } => id,
    }
}

#[derive(Clone, Copy, Debug, PartialEq, Eq, Structural)]
pub enum EdgeRelation {
    EndpointAssociation,
}

#[derive(Clone, Copy, Debug, PartialEq, Eq, Structural)]
pub enum TrafficDirection {
    Unknown,
}

/// One flow: an endpoint association supported by one observation.
#[derive(Debug)]
pub struct FlowEdge {
    pub relation: EdgeRelation,
    pub traffic_direction: TrafficDirection,
    pub id: String,
    pub source_node: String,
    pub destination_node: String,
    pub process_node: Option<String>,
    pub origin: Origin,
    pub declared_freshness: Freshness,
    pub prior_freshness: Freshness,
    pub observation: FlowObservation,
}

pub struct FlowEdgeView {
    pub relation: EdgeRelation,
    pub traffic_direction: TrafficDirection,
    pub id: Seq<char>,
    pub source_node: Seq<char>,
    pub destination_node: Seq<char>,
    pub process_node: Option<Seq<char>>,
    pub origin: Origin,
    pub declared_freshness: Freshness,
    pub prior_freshness: Freshness,
    pub observation: FlowObservationView,
}

impl View for FlowEdge {
    type V = FlowEdgeView;

    open spec fn view(&self) -> FlowEdgeView {
        FlowEdgeView {
            relation: self.relation,
            traffic_direction: self.traffic_direction,
            id: self.id@,
            source_node: self.source_node@,
            destination_node: self.destination_node@,
            process_node: opt_view(self.process_node),
            origin: self.origin,
            declared_freshness: self.declared_freshness,
            prior_freshness: self.prior_freshness,
            observation: self.observation@,
        }
    }
}

#[derive(Debug)]
pub struct FlowGraph {
    pub schema_version: &'static str,
    pub authority: Authority,
    pub projected_at: String,
    pub nodes: Vec<Node>,
    pub flows: Vec<FlowEdge>,
}

// ---------------------------------------------------------------------------
// Keys: compact JSON tuples, unambiguous encodings (not hashes); the lemmas
// below prove them unambiguous from the self-delimiting string literal
// ---------------------------------------------------------------------------

#[verifier::opaque]
pub open spec fn provenance_json(p: (Seq<char>, Seq<char>, Seq<char>)) -> Seq<char> {
    seq!['{'] + json_literal("adapter"@) + seq![':'] + json_literal(p.0) + seq![','] + json_literal(
        "adapter_version"@,
    ) + seq![':'] + json_literal(p.1) + seq![','] + json_literal("source_kind"@) + seq![':'] + json_literal(
        p.2,
    ) + seq!['}']
}

/// The identity of a piece of evidence: `[origin, platform, provenance, flow_id]`.
#[verifier::opaque]
pub open spec fn evidence_key(e: EvidenceView) -> Seq<char> {
    seq!['['] + json_literal(origin_name(e.origin)) + seq![','] + json_literal(
        platform_name(e.observation.platform),
    ) + seq![','] + provenance_json(e.observation.provenance) + seq![','] + json_literal(
        e.observation.flow_id,
    ) + seq![']']
}

#[verifier::opaque]
pub open spec fn source_node_id(id: Seq<char>) -> Seq<char> {
    seq!['['] + json_literal("source"@) + seq![','] + json_literal(id) + seq![']']
}

#[verifier::opaque]
pub open spec fn destination_node_id(id: Seq<char>) -> Seq<char> {
    seq!['['] + json_literal("destination"@) + seq![','] + json_literal(id) + seq![']']
}

/// The process node of an observation: per observation for an imported
/// assertion, scoped to origin, platform and provenance otherwise.
#[verifier::opaque]
pub open spec fn process_node_id(e: EvidenceView, id: Seq<char>, reference: Seq<char>) -> Seq<char> {
    if e.origin == Origin::Imported {
        seq!['['] + json_literal("process-assertion"@) + seq![','] + json_literal(id) + seq![','] + json_literal(
            reference,
        ) + seq![']']
    } else {
        seq!['['] + json_literal("process"@) + seq![','] + json_literal(origin_name(e.origin)) + seq![',']
            + json_literal(platform_name(e.observation.platform)) + seq![','] + provenance_json(
            e.observation.provenance,
        ) + seq![','] + json_literal(reference) + seq![']']
    }
}

fn push_provenance(out: &mut String, p: &Provenance)
    ensures
        final(out)@ == old(out)@ + provenance_json(p@),
{
    push_mark(out, '{');
    push_json_str(out, "adapter");
    push_mark(out, ':');
    push_json_str(out, p.adapter.as_str());
    push_mark(out, ',');
    push_json_str(out, "adapter_version");
    push_mark(out, ':');
    push_json_str(out, p.adapter_version.as_str());
    push_mark(out, ',');
    push_json_str(out, "source_kind");
    push_mark(out, ':');
    push_json_str(out, p.source_kind.as_str());
    push_mark(out, '}');
    reveal(provenance_json);
    assert(out@ =~= old(out)@ + provenance_json(p@));
}

fn evidence_key_text(e: &Evidence) -> (r: String)
    ensures
        r@ == evidence_key(e@),
{
    let o = e.observation();
    let mut out = String::new();
    push_mark(&mut out, '[');
    push_json_str(&mut out, origin_wire_name(e.origin()));
    push_mark(&mut out, ',');
    push_json_str(&mut out, o.platform.name());
    push_mark(&mut out, ',');
    push_provenance(&mut out, &o.provenance);
    push_mark(&mut out, ',');
    push_json_str(&mut out, o.flow_id.as_str());
    push_mark(&mut out, ']');
    reveal(evidence_key);
    assert(out@ =~= evidence_key(e@));
    out
}

fn pair_key(tag: &str, id: &str) -> (r: String)
    ensures
        r@ == seq!['['] + json_literal(tag@) + seq![','] + json_literal(id@) + seq![']'],
{
    let mut out = String::new();
    push_mark(&mut out, '[');
    push_json_str(&mut out, tag);
    push_mark(&mut out, ',');
    push_json_str(&mut out, id);
    push_mark(&mut out, ']');
    assert(out@ =~= seq!['['] + json_literal(tag@) + seq![','] + json_literal(id@) + seq![']']);
    out
}

fn process_key(e: &Evidence, id: &str, reference: &str) -> (r: String)
    ensures
        r@ == process_node_id(e@, id@, reference@),
{
    let mut out = String::new();
    push_mark(&mut out, '[');
    if e.origin() == Origin::Imported {
        push_json_str(&mut out, "process-assertion");
        push_mark(&mut out, ',');
        push_json_str(&mut out, id);
    } else {
        let o = e.observation();
        push_json_str(&mut out, "process");
        push_mark(&mut out, ',');
        push_json_str(&mut out, origin_wire_name(e.origin()));
        push_mark(&mut out, ',');
        push_json_str(&mut out, o.platform.name());
        push_mark(&mut out, ',');
        push_provenance(&mut out, &o.provenance);
    }
    push_mark(&mut out, ',');
    push_json_str(&mut out, reference);
    push_mark(&mut out, ']');
    reveal(process_node_id);
    assert(out@ =~= process_node_id(e@, id@, reference@));
    out
}


// ---------------------------------------------------------------------------
// The keys are unambiguous
// ---------------------------------------------------------------------------

/// What identifies a piece of evidence: its origin, platform, provenance and
/// flow id.
pub open spec fn identity(e: EvidenceView) -> (Origin, Platform, (Seq<char>, Seq<char>, Seq<char>), Seq<char>) {
    (e.origin, e.observation.platform, e.observation.provenance, e.observation.flow_id)
}

/// The identity a flow carries.
pub open spec fn flow_identity(f: FlowEdgeView) -> (Origin, Platform, (Seq<char>, Seq<char>, Seq<char>), Seq<char>) {
    (f.origin, f.observation.platform, f.observation.provenance, f.observation.flow_id)
}

proof fn lemma_drop_mark(c: char, x: Seq<char>, y: Seq<char>)
    requires
        seq![c] + x == seq![c] + y,
    ensures
        x == y,
{
    assert((seq![c] + x).drop_first() =~= x);
    assert((seq![c] + y).drop_first() =~= y);
}

proof fn lemma_mark_differs(c: char, d: char, x: Seq<char>, y: Seq<char>)
    requires
        c != d,
    ensures
        seq![c] + x != seq![d] + y,
{
    assert((seq![c] + x)[0] == c);
    assert((seq![d] + y)[0] == d);
}

proof fn lemma_origin_name_injective(a: Origin, b: Origin)
    requires
        origin_name(a) == origin_name(b),
    ensures
        a == b,
{
    reveal_strlit("imported_assertion");
    reveal_strlit("fixture");
    reveal_strlit("native_local_query");
    if a != b {
        let x = origin_name(a);
        let y = origin_name(b);
        assert(x.len() != y.len() || x[0] != y[0]) by {
            match a {
                Origin::Imported => {},
                Origin::Fixture => {},
                Origin::Native => {},
            }
            match b {
                Origin::Imported => {},
                Origin::Fixture => {},
                Origin::Native => {},
            }
        }
    }
}

proof fn lemma_platform_name_injective(a: Platform, b: Platform)
    requires
        platform_name(a) == platform_name(b),
    ensures
        a == b,
{
    reveal_strlit("darwin");
    reveal_strlit("win32");
    reveal_strlit("linux");
    reveal_strlit("openbsd");
    reveal_strlit("netbsd");
    if a != b {
        let x = platform_name(a);
        let y = platform_name(b);
        assert(x.len() != y.len() || x[0] != y[0]) by {
            match a {
                Platform::Darwin => {},
                Platform::Win32 => {},
                Platform::Linux => {},
                Platform::OpenBsd => {},
                Platform::NetBsd => {},
            }
            match b {
                Platform::Darwin => {},
                Platform::Win32 => {},
                Platform::Linux => {},
                Platform::OpenBsd => {},
                Platform::NetBsd => {},
            }
        }
    }
}

/// A literal, then the rest.
pub open spec fn lit_then(s: Seq<char>, rest: Seq<char>) -> Seq<char> {
    json_literal(s) + rest
}

proof fn lemma_lit_then(a: Seq<char>, b: Seq<char>, x: Seq<char>, y: Seq<char>)
    requires
        lit_then(a, x) == lit_then(b, y),
    ensures
        a == b,
        x == y,
{
    lemma_json_literal_delimited(a, b, x, y);
}

/// The provenance object followed by `x`, written from the left.
pub open spec fn provenance_then(p: (Seq<char>, Seq<char>, Seq<char>), x: Seq<char>) -> Seq<char> {
    seq!['{'] + lit_then(
        "adapter"@,
        seq![':'] + lit_then(
            p.0,
            seq![','] + lit_then(
                "adapter_version"@,
                seq![':'] + lit_then(
                    p.1,
                    seq![','] + lit_then("source_kind"@, seq![':'] + lit_then(p.2, seq!['}'] + x)),
                ),
            ),
        ),
    )
}

proof fn lemma_provenance_then(p: (Seq<char>, Seq<char>, Seq<char>), x: Seq<char>)
    ensures
        provenance_json(p) + x == provenance_then(p, x),
{
    reveal(provenance_json);
    assert(provenance_json(p) + x =~= provenance_then(p, x));
}

proof fn lemma_provenance_delimited(p: (Seq<char>, Seq<char>, Seq<char>), q: (Seq<char>, Seq<char>, Seq<char>), x: Seq<char>, y: Seq<char>)
    requires
        provenance_json(p) + x == provenance_json(q) + y,
    ensures
        p == q,
        x == y,
{
    lemma_provenance_then(p, x);
    lemma_provenance_then(q, y);
    let a0 = seq![':'] + lit_then(p.0, seq![','] + lit_then("adapter_version"@, seq![':'] + lit_then(p.1, seq![','] + lit_then("source_kind"@, seq![':'] + lit_then(p.2, seq!['}'] + x)))));
    let b0 = seq![':'] + lit_then(q.0, seq![','] + lit_then("adapter_version"@, seq![':'] + lit_then(q.1, seq![','] + lit_then("source_kind"@, seq![':'] + lit_then(q.2, seq!['}'] + y)))));
    lemma_drop_mark('{', lit_then("adapter"@, a0), lit_then("adapter"@, b0));
    lemma_lit_then("adapter"@, "adapter"@, a0, b0);
    let a1 = seq![','] + lit_then("adapter_version"@, seq![':'] + lit_then(p.1, seq![','] + lit_then("source_kind"@, seq![':'] + lit_then(p.2, seq!['}'] + x))));
    let b1 = seq![','] + lit_then("adapter_version"@, seq![':'] + lit_then(q.1, seq![','] + lit_then("source_kind"@, seq![':'] + lit_then(q.2, seq!['}'] + y))));
    lemma_drop_mark(':', lit_then(p.0, a1), lit_then(q.0, b1));
    lemma_lit_then(p.0, q.0, a1, b1);
    let a2 = seq![':'] + lit_then(p.1, seq![','] + lit_then("source_kind"@, seq![':'] + lit_then(p.2, seq!['}'] + x)));
    let b2 = seq![':'] + lit_then(q.1, seq![','] + lit_then("source_kind"@, seq![':'] + lit_then(q.2, seq!['}'] + y)));
    lemma_drop_mark(',', lit_then("adapter_version"@, a2), lit_then("adapter_version"@, b2));
    lemma_lit_then("adapter_version"@, "adapter_version"@, a2, b2);
    let a3 = seq![','] + lit_then("source_kind"@, seq![':'] + lit_then(p.2, seq!['}'] + x));
    let b3 = seq![','] + lit_then("source_kind"@, seq![':'] + lit_then(q.2, seq!['}'] + y));
    lemma_drop_mark(':', lit_then(p.1, a3), lit_then(q.1, b3));
    lemma_lit_then(p.1, q.1, a3, b3);
    let a4 = seq![':'] + lit_then(p.2, seq!['}'] + x);
    let b4 = seq![':'] + lit_then(q.2, seq!['}'] + y);
    lemma_drop_mark(',', lit_then("source_kind"@, a4), lit_then("source_kind"@, b4));
    lemma_lit_then("source_kind"@, "source_kind"@, a4, b4);
    lemma_drop_mark(':', lit_then(p.2, seq!['}'] + x), lit_then(q.2, seq!['}'] + y));
    lemma_lit_then(p.2, q.2, seq!['}'] + x, seq!['}'] + y);
    lemma_drop_mark('}', x, y);
}

proof fn lemma_tagged(t1: Seq<char>, r1: Seq<char>, t2: Seq<char>, r2: Seq<char>)
    requires
        seq!['['] + lit_then(t1, r1) == seq!['['] + lit_then(t2, r2),
    ensures
        t1 == t2,
        r1 == r2,
{
    lemma_drop_mark('[', lit_then(t1, r1), lit_then(t2, r2));
    lemma_lit_then(t1, t2, r1, r2);
}

/// The tail of an evidence key after its origin.
pub open spec fn evidence_key_tail(e: EvidenceView) -> Seq<char> {
    seq![','] + lit_then(
        platform_name(e.observation.platform),
        seq![','] + (provenance_json(e.observation.provenance) + (seq![','] + lit_then(e.observation.flow_id, seq![']']))),
    )
}

proof fn lemma_evidence_key_shape(e: EvidenceView)
    ensures
        evidence_key(e) == seq!['['] + lit_then(origin_name(e.origin), evidence_key_tail(e)),
{
    reveal(evidence_key);
    assert(evidence_key(e) =~= seq!['['] + lit_then(origin_name(e.origin), evidence_key_tail(e)));
}

/// Two pieces of evidence have the same key exactly when they have the same
/// identity: the key is an unambiguous encoding of origin, platform,
/// provenance and flow id.
pub proof fn law_evidence_key_is_identity(a: EvidenceView, b: EvidenceView)
    ensures
        evidence_key(a) == evidence_key(b) <==> identity(a) == identity(b),
{
    lemma_evidence_key_shape(a);
    lemma_evidence_key_shape(b);
    if evidence_key(a) == evidence_key(b) {
        lemma_tagged(origin_name(a.origin), evidence_key_tail(a), origin_name(b.origin), evidence_key_tail(b));
        lemma_origin_name_injective(a.origin, b.origin);
        let x1 = seq![','] + (provenance_json(a.observation.provenance) + (seq![','] + lit_then(a.observation.flow_id, seq![']'])));
        let y1 = seq![','] + (provenance_json(b.observation.provenance) + (seq![','] + lit_then(b.observation.flow_id, seq![']'])));
        lemma_drop_mark(',', lit_then(platform_name(a.observation.platform), x1), lit_then(platform_name(b.observation.platform), y1));
        lemma_lit_then(platform_name(a.observation.platform), platform_name(b.observation.platform), x1, y1);
        lemma_platform_name_injective(a.observation.platform, b.observation.platform);
        let x2 = seq![','] + lit_then(a.observation.flow_id, seq![']']);
        let y2 = seq![','] + lit_then(b.observation.flow_id, seq![']']);
        lemma_drop_mark(',', provenance_json(a.observation.provenance) + x2, provenance_json(b.observation.provenance) + y2);
        lemma_provenance_delimited(a.observation.provenance, b.observation.provenance, x2, y2);
        lemma_drop_mark(',', lit_then(a.observation.flow_id, seq![']']), lit_then(b.observation.flow_id, seq![']']));
        lemma_lit_then(a.observation.flow_id, b.observation.flow_id, seq![']'], seq![']']);
    }
}

/// The tag that opens a process node id.
pub open spec fn process_tag(e: EvidenceView) -> Seq<char> {
    if e.origin == Origin::Imported { "process-assertion"@ } else { "process"@ }
}

/// The rest of a process node id after its tag.
pub open spec fn process_id_tail(e: EvidenceView, id: Seq<char>, reference: Seq<char>) -> Seq<char> {
    if e.origin == Origin::Imported {
        seq![','] + lit_then(id, seq![','] + lit_then(reference, seq![']']))
    } else {
        seq![','] + lit_then(
            origin_name(e.origin),
            seq![','] + lit_then(
                platform_name(e.observation.platform),
                seq![','] + (provenance_json(e.observation.provenance) + (seq![','] + lit_then(reference, seq![']']))),
            ),
        )
    }
}

proof fn lemma_node_id_shapes(k: Seq<char>, e: EvidenceView, id: Seq<char>, reference: Seq<char>)
    ensures
        source_node_id(k) == seq!['['] + lit_then("source"@, seq![','] + lit_then(k, seq![']'])),
        destination_node_id(k) == seq!['['] + lit_then("destination"@, seq![','] + lit_then(k, seq![']'])),
        process_node_id(e, id, reference) == seq!['['] + lit_then(process_tag(e), process_id_tail(e, id, reference)),
{
    reveal(source_node_id);
    reveal(destination_node_id);
    reveal(process_node_id);
    assert(source_node_id(k) =~= seq!['['] + lit_then("source"@, seq![','] + lit_then(k, seq![']'])));
    assert(destination_node_id(k) =~= seq!['['] + lit_then("destination"@, seq![','] + lit_then(k, seq![']'])));
    assert(process_node_id(e, id, reference) =~= seq!['['] + lit_then(process_tag(e), process_id_tail(e, id, reference)));
}

/// Two process node ids are equal exactly when they stand for the same
/// process: one imported assertion's reference, or a reference scoped to the
/// same origin, platform and provenance.
pub open spec fn same_process(e1: EvidenceView, id1: Seq<char>, r1: Seq<char>, e2: EvidenceView, id2: Seq<char>, r2: Seq<char>) -> bool {
    ||| e1.origin == Origin::Imported && e2.origin == Origin::Imported && id1 == id2 && r1 == r2
    ||| e1.origin != Origin::Imported && e2.origin != Origin::Imported && e1.origin == e2.origin
        && e1.observation.platform == e2.observation.platform && e1.observation.provenance
        == e2.observation.provenance && r1 == r2
}

/// Node ids never collide across kinds, and within a kind they are equal
/// exactly when what they stand for is.
pub proof fn law_node_ids_are_unambiguous(
    k1: Seq<char>,
    k2: Seq<char>,
    e1: EvidenceView,
    id1: Seq<char>,
    r1: Seq<char>,
    e2: EvidenceView,
    id2: Seq<char>,
    r2: Seq<char>,
)
    ensures
        source_node_id(k1) == source_node_id(k2) <==> k1 == k2,
        destination_node_id(k1) == destination_node_id(k2) <==> k1 == k2,
        source_node_id(k1) != destination_node_id(k2),
        source_node_id(k1) != process_node_id(e1, id1, r1),
        destination_node_id(k1) != process_node_id(e1, id1, r1),
        process_node_id(e1, id1, r1) == process_node_id(e2, id2, r2) <==> same_process(e1, id1, r1, e2, id2, r2),
{
    reveal_strlit("source");
    reveal_strlit("destination");
    reveal_strlit("process");
    reveal_strlit("process-assertion");
    assert("source"@.len() == 6 && "destination"@.len() == 11);
    assert("process"@.len() == 7 && "process-assertion"@.len() == 17);
    assert(process_tag(e1).len() == 7 || process_tag(e1).len() == 17);
    assert(process_tag(e2).len() == 7 || process_tag(e2).len() == 17);
    lemma_node_id_shapes(k1, e1, id1, r1);
    lemma_node_id_shapes(k2, e2, id2, r2);
    let t = seq![']'];
    if source_node_id(k1) == source_node_id(k2) {
        lemma_tagged("source"@, seq![','] + lit_then(k1, t), "source"@, seq![','] + lit_then(k2, t));
        lemma_drop_mark(',', lit_then(k1, t), lit_then(k2, t));
        lemma_lit_then(k1, k2, t, t);
    }
    if destination_node_id(k1) == destination_node_id(k2) {
        lemma_tagged("destination"@, seq![','] + lit_then(k1, t), "destination"@, seq![','] + lit_then(k2, t));
        lemma_drop_mark(',', lit_then(k1, t), lit_then(k2, t));
        lemma_lit_then(k1, k2, t, t);
    }
    if source_node_id(k1) == destination_node_id(k2) {
        lemma_tagged("source"@, seq![','] + lit_then(k1, t), "destination"@, seq![','] + lit_then(k2, t));
    }
    if source_node_id(k1) == process_node_id(e1, id1, r1) {
        lemma_tagged("source"@, seq![','] + lit_then(k1, t), process_tag(e1), process_id_tail(e1, id1, r1));
    }
    if destination_node_id(k1) == process_node_id(e1, id1, r1) {
        lemma_tagged("destination"@, seq![','] + lit_then(k1, t), process_tag(e1), process_id_tail(e1, id1, r1));
    }
    if process_node_id(e1, id1, r1) == process_node_id(e2, id2, r2) {
        lemma_tagged(process_tag(e1), process_id_tail(e1, id1, r1), process_tag(e2), process_id_tail(e2, id2, r2));
        if e1.origin == Origin::Imported {
            assert(e2.origin == Origin::Imported);
            let x = seq![','] + lit_then(r1, t);
            let y = seq![','] + lit_then(r2, t);
            lemma_drop_mark(',', lit_then(id1, x), lit_then(id2, y));
            lemma_lit_then(id1, id2, x, y);
            lemma_drop_mark(',', lit_then(r1, t), lit_then(r2, t));
            lemma_lit_then(r1, r2, t, t);
        } else {
            assert(e2.origin != Origin::Imported);
            let p1 = e1.observation.provenance;
            let p2 = e2.observation.provenance;
            let x0 = seq![','] + lit_then(
                platform_name(e1.observation.platform),
                seq![','] + (provenance_json(p1) + (seq![','] + lit_then(r1, t))),
            );
            let y0 = seq![','] + lit_then(
                platform_name(e2.observation.platform),
                seq![','] + (provenance_json(p2) + (seq![','] + lit_then(r2, t))),
            );
            lemma_drop_mark(',', lit_then(origin_name(e1.origin), x0), lit_then(origin_name(e2.origin), y0));
            lemma_lit_then(origin_name(e1.origin), origin_name(e2.origin), x0, y0);
            lemma_origin_name_injective(e1.origin, e2.origin);
            let x1 = seq![','] + (provenance_json(p1) + (seq![','] + lit_then(r1, t)));
            let y1 = seq![','] + (provenance_json(p2) + (seq![','] + lit_then(r2, t)));
            lemma_drop_mark(',', lit_then(platform_name(e1.observation.platform), x1), lit_then(platform_name(e2.observation.platform), y1));
            lemma_lit_then(platform_name(e1.observation.platform), platform_name(e2.observation.platform), x1, y1);
            lemma_platform_name_injective(e1.observation.platform, e2.observation.platform);
            let x2 = seq![','] + lit_then(r1, t);
            let y2 = seq![','] + lit_then(r2, t);
            lemma_drop_mark(',', provenance_json(p1) + x2, provenance_json(p2) + y2);
            lemma_provenance_delimited(p1, p2, x2, y2);
            lemma_drop_mark(',', lit_then(r1, t), lit_then(r2, t));
            lemma_lit_then(r1, r2, t, t);
        }
    }
    if same_process(e1, id1, r1, e2, id2, r2) {
        assert(process_id_tail(e1, id1, r1) == process_id_tail(e2, id2, r2));
    }
}

// ---------------------------------------------------------------------------
// The projection
// ---------------------------------------------------------------------------

pub open spec fn msg_graph_limit() -> Seq<char> {
    "graph observation limit"@
}

pub open spec fn msg_conflict() -> Seq<char> {
    "conflicting observation identity; no implicit overwrite"@
}

/// The error item `i` raises once the items before it passed: it fails
/// validation, or an earlier item has the same identity and other content.
pub open spec fn project_step_error(es: Seq<EvidenceView>, i: int) -> Option<Seq<char>> {
    if validate_spec(es[i].observation) is Err {
        Some(validate_spec(es[i].observation)->Err_0)
    } else if exists|j: int| 0 <= j < i && evidence_key(#[trigger] es[j]) == evidence_key(es[i]) && es[j] != es[i] {
        Some(msg_conflict())
    } else {
        None
    }
}

pub open spec fn first_project_error(es: Seq<EvidenceView>, i: int) -> Option<Seq<char>>
    decreases es.len() - i,
{
    if i < 0 || i >= es.len() {
        None
    } else if project_step_error(es, i) is Some {
        project_step_error(es, i)
    } else {
        first_project_error(es, i + 1)
    }
}

/// The error `project` reports, if any.
pub open spec fn project_error(es: Seq<EvidenceView>) -> Option<Seq<char>> {
    if es.len() > MAX_RECORDS {
        Some(msg_graph_limit())
    } else {
        first_project_error(es, 0)
    }
}

/// The edge that one piece of evidence becomes, its freshness judged again
/// against the evaluation clock.
#[verifier::opaque]
pub open spec fn expected_edge(e: EvidenceView, ev: &Evaluation) -> FlowEdgeView {
    let id = evidence_key(e);
    FlowEdgeView {
        relation: EdgeRelation::EndpointAssociation,
        traffic_direction: TrafficDirection::Unknown,
        id,
        source_node: source_node_id(id),
        destination_node: destination_node_id(id),
        process_node: match e.observation.process_ref {
            Some(r) => Some(process_node_id(e, id, r)),
            None => None,
        },
        origin: e.origin,
        declared_freshness: e.declared_freshness,
        prior_freshness: e.observation.freshness,
        observation: FlowObservationView {
            freshness: freshness_spec(
                age_nanos(rfc3339_age(ev.now_text(), e.observation.observed_at)),
                ev.max_age(),
                e.observation.freshness,
            ),
            ..e.observation
        },
    }
}

pub proof fn lemma_expected_edge(e: EvidenceView, ev: &Evaluation)
    ensures
        expected_edge(e, ev).id == evidence_key(e),
        expected_edge(e, ev).process_node is Some ==> expected_edge(e, ev).observation.process_ref is Some,
{
    reveal(expected_edge);
}

/// The nodes one edge contributes, written over what is there.
pub open spec fn edge_nodes(m: Map<Seq<char>, NodeView>, f: FlowEdgeView) -> Map<Seq<char>, NodeView> {
    let m1 = m.insert(f.source_node, NodeView::Endpoint { id: f.source_node, endpoint: f.observation.source }).insert(
        f.destination_node,
        NodeView::Endpoint { id: f.destination_node, endpoint: f.observation.destination },
    );
    match f.process_node {
        Some(p) => m1.insert(p, NodeView::Process { id: p, process_ref: f.observation.process_ref->Some_0 }),
        None => m1,
    }
}

/// The node map of a list of edges, later edges writing over earlier ones.
pub open spec fn node_map(flows: Seq<FlowEdgeView>) -> Map<Seq<char>, NodeView>
    decreases flows.len(),
{
    if flows.len() == 0 {
        Map::empty()
    } else {
        edge_nodes(node_map(flows.drop_last()), flows.last())
    }
}

pub open spec fn node_views(s: Seq<Node>) -> Seq<NodeView> {
    s.map_values(|n: Node| n@)
}

pub open spec fn edge_views(s: Seq<FlowEdge>) -> Seq<FlowEdgeView> {
    s.map_values(|f: FlowEdge| f@)
}

pub open spec fn edge_ids(s: Seq<FlowEdge>) -> Seq<Seq<char>> {
    s.map_values(|f: FlowEdge| f@.id)
}

pub open spec fn node_ids(s: Seq<Node>) -> Seq<Seq<char>> {
    s.map_values(|n: Node| node_id(n@))
}

/// `f` is the edge of one of the items.
pub open spec fn edge_of_some(es: Seq<EvidenceView>, f: FlowEdgeView, ev: &Evaluation) -> bool {
    exists|i: int| 0 <= i < es.len() && f == expected_edge(#[trigger] es[i], ev)
}

/// Some flow has id `k`.
pub open spec fn flow_with_id(flows: Seq<FlowEdgeView>, k: Seq<char>) -> bool {
    exists|q: int| 0 <= q < flows.len() && #[trigger] flows[q].id == k
}

/// `nodes` lists the map `m` in increasing order of id.
pub open spec fn lists_map(ids: Seq<Seq<char>>, nodes: Seq<NodeView>, m: Map<Seq<char>, NodeView>) -> bool {
    &&& ids.len() == nodes.len()
    &&& strictly_sorted(ids)
    &&& forall|p: int| 0 <= p < ids.len() ==> m.contains_key(#[trigger] ids[p]) && m[ids[p]] == nodes[p]
        && node_id(nodes[p]) == ids[p]
    &&& forall|k: Seq<char>| m.contains_key(k) ==> exists|p: int| 0 <= p < ids.len() && #[trigger] ids[p] == k
}

pub open spec fn evidence_views(s: Seq<Evidence>) -> Seq<EvidenceView> {
    s.map_values(|e: Evidence| e@)
}

/// What `project` promises: the error it reports, or a graph whose flows
/// are the evidence, one per identity, in increasing order of identity, and
/// whose nodes are the endpoints and processes of those flows in increasing
/// order of node id.
pub open spec fn projected(r: Result<FlowGraph, String>, es: Seq<EvidenceView>, ev: &Evaluation) -> bool {
    match project_error(es) {
        Some(m) => is_err_with(r, m),
        None => match r {
            Err(_) => false,
            Ok(g) => {
                &&& g.schema_version@ == "FlowGraphV1"@
                &&& g.authority == Authority::ObservationOnly
                &&& g.projected_at@ == rfc3339_normal(ev.now_text())
                &&& strictly_sorted(edge_ids(g.flows@))
                &&& forall|p: int| 0 <= p < g.flows@.len() ==> edge_of_some(es, #[trigger] edge_views(g.flows@)[p], ev)
                &&& forall|i: int| 0 <= i < es.len() ==> flow_with_id(edge_views(g.flows@), evidence_key(#[trigger] es[i]))
                &&& lists_map(node_ids(g.nodes@), node_views(g.nodes@), node_map(edge_views(g.flows@)))
            },
        },
    }
}

proof fn lemma_sorted_distinct(ids: Seq<Seq<char>>, p: int, q: int)
    requires
        strictly_sorted(ids),
        0 <= p < ids.len(),
        0 <= q < ids.len(),
        p != q,
    ensures
        ids[p] != ids[q],
{
    if p < q {
        assert(seq_lt(ids[p], ids[q]));
    } else {
        assert(seq_lt(ids[q], ids[p]));
    }
    lemma_lt_irreflexive(ids[p]);
}

fn node_id_text(n: &Node) -> (r: &String)
    ensures
        r@ == node_id(n@),
{
    match n {
        Node::Endpoint { id, .. } => id,
        Node::Process { id, .. } => id,
    }
}

/// Puts `node` in the sorted node list, replacing a node with the same id.
fn upsert_node(ids: &mut Vec<Vec<char>>, nodes: &mut Vec<Node>, node: Node, Ghost(m): Ghost<Map<Seq<char>, NodeView>>)
    requires
        lists_map(key_views(old(ids)@), node_views(old(nodes)@), m),
    ensures
        lists_map(key_views(final(ids)@), node_views(final(nodes)@), m.insert(node_id(node@), node@)),
{
    let k = chars_of(node_id_text(&node).as_str());
    let ghost kv = k@;
    let ghost nv = node@;
    let ghost m2 = m.insert(kv, nv);
    let ghost old_ids = key_views(ids@);
    let ghost old_nodes = node_views(nodes@);
    let (found, pos) = find_slot(ids, k.as_slice());
    if found {
        nodes.set(pos, node);
        assert(node_views(nodes@) =~= old_nodes.update(pos as int, nv));
        assert forall|p: int| 0 <= p < old_ids.len() implies m2.contains_key(#[trigger] old_ids[p])
            && m2[old_ids[p]] == node_views(nodes@)[p] && node_id(node_views(nodes@)[p]) == old_ids[p] by {
            if p != pos {
                lemma_sorted_distinct(old_ids, p, pos as int);
            }
        }
        assert forall|key: Seq<char>| m2.contains_key(key) implies exists|p: int|
            0 <= p < old_ids.len() && #[trigger] old_ids[p] == key by {
            if key == kv {
                assert(old_ids[pos as int] == kv);
            }
        }
    } else {
        insert_key(ids, pos, k);
        nodes.insert(pos, node);
        let ghost new_ids = key_views(ids@);
        assert(node_views(nodes@) =~= old_nodes.insert(pos as int, nv));
        assert forall|p: int| 0 <= p < new_ids.len() implies m2.contains_key(#[trigger] new_ids[p])
            && m2[new_ids[p]] == node_views(nodes@)[p] && node_id(node_views(nodes@)[p]) == new_ids[p] by {
            if p < pos {
                assert(new_ids[p] == old_ids[p]);
                assert(seq_lt(old_ids[p], kv));
                lemma_lt_irreflexive(kv);
            } else if p > pos {
                assert(new_ids[p] == old_ids[p - 1]);
                assert(seq_lt(kv, old_ids[p - 1]));
                lemma_lt_irreflexive(kv);
            }
        }
        assert forall|key: Seq<char>| m2.contains_key(key) implies exists|p: int|
            0 <= p < new_ids.len() && #[trigger] new_ids[p] == key by {
            if key == kv {
                assert(new_ids[pos as int] == kv);
            } else {
                let q = choose|q: int| 0 <= q < old_ids.len() && #[trigger] old_ids[q] == key;
                if q < pos {
                    assert(new_ids[q] == key);
                } else {
                    assert(new_ids[q + 1] == key);
                }
            }
        }
    }
}


proof fn lemma_node_map_push(flows: Seq<FlowEdge>, f: FlowEdge)
    ensures
        node_map(edge_views(flows.push(f))) == edge_nodes(node_map(edge_views(flows)), f@),
{
    assert(edge_views(flows.push(f)).drop_last() =~= edge_views(flows));
    assert(edge_views(flows.push(f)).last() == f@);
}

/// The identities of the items before `i` are listed: `kv` is sorted, entry
/// `p` is the key of item `idx[p]`, every earlier item's key is listed, every
/// earlier item equals the listed item of its key, and every earlier item
/// validates.
/// `k` is one of `kv`.
pub open spec fn has_key(kv: Seq<Seq<char>>, k: Seq<char>) -> bool {
    exists|p: int| 0 <= p < kv.len() && #[trigger] kv[p] == k
}

#[verifier::opaque]
pub open spec fn registered(kv: Seq<Seq<char>>, idx: Seq<usize>, es: Seq<EvidenceView>, i: int) -> bool {
    &&& kv.len() == idx.len()
    &&& forall|p: int| 0 <= p < idx.len() ==> #[trigger] idx[p] < i && kv[p] == evidence_key(es[idx[p] as int])
    &&& forall|j: int| 0 <= j < i ==> has_key(kv, evidence_key(#[trigger] es[j]))
    &&& forall|j: int, p: int|
        0 <= j < i && 0 <= p < kv.len() && #[trigger] kv[p] == evidence_key(#[trigger] es[j]) ==> es[j] == es[idx[p] as int]
    &&& forall|j: int| 0 <= j < i ==> validate_spec(#[trigger] es[j].observation) is Ok
}

proof fn lemma_register_found(kv: Seq<Seq<char>>, idx: Seq<usize>, es: Seq<EvidenceView>, i: int, pos: int)
    requires
        registered(kv, idx, es, i),
        strictly_sorted(kv),
        0 <= i < es.len(),
        0 <= pos < kv.len(),
        kv[pos] == evidence_key(es[i]),
        es[idx[pos] as int] == es[i],
        validate_spec(es[i].observation) is Ok,
    ensures
        registered(kv, idx, es, i + 1),
        project_step_error(es, i) is None,
{
    reveal(registered);
    assert forall|j: int| 0 <= j < i && evidence_key(#[trigger] es[j]) == evidence_key(es[i]) implies es[j] == es[i] by {
        assert(has_key(kv, evidence_key(es[j])));
        let q = choose|q: int| 0 <= q < kv.len() && #[trigger] kv[q] == evidence_key(es[j]);
        if q != pos {
            lemma_sorted_distinct(kv, q, pos);
        }
    }
    assert forall|j: int, p: int|
        0 <= j < i + 1 && 0 <= p < kv.len() && #[trigger] kv[p] == evidence_key(#[trigger] es[j])
            implies es[j] == es[idx[p] as int] by {
        if j == i && p != pos {
            lemma_sorted_distinct(kv, p, pos);
        }
    }
    assert forall|j: int| 0 <= j < i + 1 implies has_key(kv, evidence_key(#[trigger] es[j])) by {
        if j == i {
            assert(kv[pos] == evidence_key(es[j]));
        }
    }
}

proof fn lemma_register_conflict(kv: Seq<Seq<char>>, idx: Seq<usize>, es: Seq<EvidenceView>, i: int, pos: int)
    requires
        registered(kv, idx, es, i),
        0 <= i < es.len(),
        0 <= pos < kv.len(),
        kv[pos] == evidence_key(es[i]),
        es[idx[pos] as int] != es[i],
        validate_spec(es[i].observation) is Ok,
    ensures
        project_step_error(es, i) == Some(msg_conflict()),
{
    reveal(registered);
    let j = idx[pos] as int;
    assert(0 <= j < i && evidence_key(es[j]) == evidence_key(es[i]) && es[j] != es[i]);
}

proof fn lemma_register_new(
    kv: Seq<Seq<char>>,
    idx: Seq<usize>,
    es: Seq<EvidenceView>,
    i: int,
    pos: int,
    k: Seq<char>,
)
    requires
        registered(kv, idx, es, i),
        0 <= i < es.len(),
        i <= usize::MAX,
        0 <= pos <= kv.len(),
        k == evidence_key(es[i]),
        forall|q: int| 0 <= q < pos ==> seq_lt(#[trigger] kv[q], k),
        forall|q: int| pos <= q < kv.len() ==> seq_lt(k, #[trigger] kv[q]),
        validate_spec(es[i].observation) is Ok,
    ensures
        registered(kv.insert(pos, k), idx.insert(pos, i as usize), es, i + 1),
        project_step_error(es, i) is None,
{
    reveal(registered);
    let nk = kv.insert(pos, k);
    let ni = idx.insert(pos, i as usize);
    lemma_lt_irreflexive(k);
    assert(!exists|j: int| 0 <= j < i && evidence_key(#[trigger] es[j]) == evidence_key(es[i])) by {
        if exists|j: int| 0 <= j < i && evidence_key(#[trigger] es[j]) == evidence_key(es[i]) {
            let j = choose|j: int| 0 <= j < i && evidence_key(#[trigger] es[j]) == evidence_key(es[i]);
            assert(has_key(kv, evidence_key(es[j])));
            let q = choose|q: int| 0 <= q < kv.len() && #[trigger] kv[q] == evidence_key(es[j]);
            if q < pos {
                assert(seq_lt(kv[q], k));
            } else {
                assert(seq_lt(k, kv[q]));
            }
        }
    }
    assert forall|p: int| 0 <= p < ni.len() implies #[trigger] ni[p] < i + 1 && nk[p] == evidence_key(es[ni[p] as int]) by {
        if p < pos {
            assert(ni[p] == idx[p] && nk[p] == kv[p]);
        } else if p > pos {
            assert(ni[p] == idx[p - 1] && nk[p] == kv[p - 1]);
        }
    }
    assert forall|j: int| 0 <= j < i + 1 implies has_key(nk, evidence_key(#[trigger] es[j])) by {
        if j == i {
            assert(nk[pos] == evidence_key(es[j]));
        } else {
            assert(has_key(kv, evidence_key(es[j])));
            let q = choose|q: int| 0 <= q < kv.len() && #[trigger] kv[q] == evidence_key(es[j]);
            if q < pos {
                assert(nk[q] == evidence_key(es[j]));
            } else {
                assert(nk[q + 1] == evidence_key(es[j]));
            }
        }
    }
    assert forall|j: int, p: int|
        0 <= j < i + 1 && 0 <= p < nk.len() && #[trigger] nk[p] == evidence_key(#[trigger] es[j])
            implies es[j] == es[ni[p] as int] by {
        if p < pos {
            assert(ni[p] == idx[p] && nk[p] == kv[p]);
            if j == i {
                assert(seq_lt(kv[p], k));
            }
        } else if p > pos {
            assert(ni[p] == idx[p - 1] && nk[p] == kv[p - 1]);
            if j == i {
                assert(seq_lt(k, kv[p - 1]));
            }
        }
    }
}

proof fn lemma_registered_start(es: Seq<EvidenceView>)
    ensures
        registered(Seq::empty(), Seq::empty(), es, 0),
{
    reveal(registered);
}

proof fn lemma_registered_facts(kv: Seq<Seq<char>>, idx: Seq<usize>, es: Seq<EvidenceView>)
    requires
        registered(kv, idx, es, es.len() as int),
    ensures
        kv.len() == idx.len(),
        forall|p: int| 0 <= p < idx.len() ==> #[trigger] idx[p] < es.len() && kv[p] == evidence_key(es[idx[p] as int]),
        forall|j: int| 0 <= j < es.len() ==> has_key(kv, evidence_key(#[trigger] es[j])),
        forall|j: int| 0 <= j < es.len() ==> validate_spec(#[trigger] es[j].observation) is Ok,
{
    reveal(registered);
}

/// Lists the distinct identities of `evidence` in increasing order, each
/// with the index of an item that carries it; or the error `project`
/// reports.
fn register_all(evidence: &[Evidence]) -> (r: Result<(Vec<Vec<char>>, Vec<usize>), String>)
    requires
        evidence@.len() <= MAX_RECORDS,
    ensures
        match r {
            Err(e) => first_project_error(evidence_views(evidence@), 0) == Some(e@),
            Ok((keys, idx)) => first_project_error(evidence_views(evidence@), 0) is None
                && strictly_sorted(key_views(keys@)) && registered(
                key_views(keys@),
                idx@,
                evidence_views(evidence@),
                evidence@.len() as int,
            ),
        },
{
    let ghost es = evidence_views(evidence@);
    let mut okeys: Vec<Vec<char>> = Vec::new();
    let mut oidx: Vec<usize> = Vec::new();
    let mut i: usize = 0;
    proof {
        lemma_registered_start(es);
        assert(key_views(okeys@) =~= Seq::<Seq<char>>::empty());
        assert(oidx@ =~= Seq::<usize>::empty());
    }
    while i < evidence.len()
        invariant
            es == evidence_views(evidence@),
            es.len() == evidence@.len(),
            i <= evidence.len(),
            first_project_error(es, 0) == first_project_error(es, i as int),
            strictly_sorted(key_views(okeys@)),
            okeys@.len() == oidx@.len(),
            registered(key_views(okeys@), oidx@, es, i as int),
        decreases evidence.len() - i,
    {
        let item = &evidence[i];
        assert(item@ == es[i as int]);
        match validate(item.observation()) {
            Err(e) => {
                return Err(e);
            },
            Ok(()) => {},
        }
        let key = evidence_key_text(item);
        let k = chars_of(key.as_str());
        let ghost kv = k@;
        let ghost old_keys = key_views(okeys@);
        let ghost old_idx = oidx@;
        let (found, pos) = find_slot(&okeys, k.as_slice());
        if found {
            proof {
                reveal(registered);
            }
            let prev = oidx[pos];
            assert(evidence@[prev as int]@ == es[prev as int]);
            if !same_evidence(&evidence[prev], item) {
                proof {
                    lemma_register_conflict(old_keys, old_idx, es, i as int, pos as int);
                }
                return Err("conflicting observation identity; no implicit overwrite".to_owned());
            }
            proof {
                lemma_register_found(old_keys, old_idx, es, i as int, pos as int);
            }
        } else {
            proof {
                lemma_register_new(old_keys, old_idx, es, i as int, pos as int, kv);
            }
            insert_key(&mut okeys, pos, k);
            oidx.insert(pos, i);
        }
        i = i + 1;
    }
    Ok((okeys, oidx))
}


/// The edge for one evidence item, its freshness judged again.
fn make_edge(item: &Evidence, id: String, evaluation: &Evaluation) -> (e: FlowEdge)
    requires
        validate_spec(item@.observation) is Ok,
        id@ == evidence_key(item@),
    ensures
        e@ == expected_edge(item@, evaluation),
{
    let mut observation = item.observation().clone();
    let prior = observation.freshness;
    let fresh = match evaluation.freshness(observation.observed_at.as_str(), prior) {
        Err(_) => prior,
        Ok(f) => f,
    };
    observation.freshness = fresh;
    let source_node = pair_key("source", id.as_str());
    let destination_node = pair_key("destination", id.as_str());
    proof {
        reveal(source_node_id);
        reveal(destination_node_id);
    }
    let process_node = match &observation.process_ref {
        Some(reference) => Some(process_key(item, id.as_str(), reference.as_str())),
        None => None,
    };
    proof {
        reveal(expected_edge);
    }
    FlowEdge {
        relation: EdgeRelation::EndpointAssociation,
        traffic_direction: TrafficDirection::Unknown,
        id,
        source_node,
        destination_node,
        process_node,
        origin: item.origin(),
        declared_freshness: item.declared_freshness(),
        prior_freshness: prior,
        observation,
    }
}

/// Appends an edge and writes its nodes into the sorted node list.
fn push_edge(nids: &mut Vec<Vec<char>>, nodes: &mut Vec<Node>, flows: &mut Vec<FlowEdge>, edge: FlowEdge)
    requires
        lists_map(key_views(old(nids)@), node_views(old(nodes)@), node_map(edge_views(old(flows)@))),
        edge@.process_node is Some ==> edge@.observation.process_ref is Some,
    ensures
        lists_map(key_views(final(nids)@), node_views(final(nodes)@), node_map(edge_views(final(flows)@))),
        final(flows)@ == old(flows)@.push(edge),
{
    let ghost m0 = node_map(edge_views(flows@));
    let src = Node::Endpoint { id: edge.source_node.clone(), endpoint: edge.observation.source.clone() };
    let ghost m1 = m0.insert(node_id(src@), src@);
    upsert_node(nids, nodes, src, Ghost(m0));
    let dst = Node::Endpoint { id: edge.destination_node.clone(), endpoint: edge.observation.destination.clone() };
    let ghost m2 = m1.insert(node_id(dst@), dst@);
    upsert_node(nids, nodes, dst, Ghost(m1));
    match (&edge.process_node, &edge.observation.process_ref) {
        (Some(pid), Some(reference)) => {
            let pn = Node::Process { id: pid.clone(), process_ref: reference.clone() };
            upsert_node(nids, nodes, pn, Ghost(m2));
        },
        _ => {},
    }
    proof {
        lemma_node_map_push(flows@, edge);
    }
    flows.push(edge);
}

proof fn lemma_flow_ids(kv: Seq<Seq<char>>, idx: Seq<usize>, es: Seq<EvidenceView>, flows: Seq<FlowEdgeView>, ev: &Evaluation)
    requires
        kv.len() == idx.len(),
        flows.len() == kv.len(),
        forall|q: int| 0 <= q < idx.len() ==> #[trigger] idx[q] < es.len() && kv[q] == evidence_key(es[idx[q] as int]),
        forall|q: int| 0 <= q < flows.len() ==> #[trigger] flows[q] == expected_edge(es[idx[q] as int], ev),
    ensures
        forall|q: int| 0 <= q < flows.len() ==> #[trigger] flows[q].id == kv[q],
{
    assert forall|q: int| 0 <= q < flows.len() implies #[trigger] flows[q].id == kv[q] by {
        lemma_expected_edge(es[idx[q] as int], ev);
    }
}

proof fn lemma_flows_from_evidence(idx: Seq<usize>, es: Seq<EvidenceView>, flows: Seq<FlowEdgeView>, ev: &Evaluation)
    requires
        flows.len() == idx.len(),
        forall|q: int| 0 <= q < idx.len() ==> #[trigger] idx[q] < es.len(),
        forall|q: int| 0 <= q < flows.len() ==> #[trigger] flows[q] == expected_edge(es[idx[q] as int], ev),
    ensures
        forall|q: int| 0 <= q < flows.len() ==> edge_of_some(es, #[trigger] flows[q], ev),
{
    assert forall|q: int| 0 <= q < flows.len() implies edge_of_some(es, #[trigger] flows[q], ev) by {
        let i = idx[q] as int;
        assert(idx[q] < es.len());
        assert(flows[q] == expected_edge(es[i], ev));
    }
}

proof fn lemma_evidence_in_flows(kv: Seq<Seq<char>>, es: Seq<EvidenceView>, flows: Seq<FlowEdgeView>)
    requires
        flows.len() == kv.len(),
        forall|j: int| 0 <= j < es.len() ==> has_key(kv, evidence_key(#[trigger] es[j])),
        forall|q: int| 0 <= q < flows.len() ==> #[trigger] flows[q].id == kv[q],
    ensures
        forall|i: int| 0 <= i < es.len() ==> flow_with_id(flows, evidence_key(#[trigger] es[i])),
{
    assert forall|i: int| 0 <= i < es.len() implies flow_with_id(flows, evidence_key(#[trigger] es[i])) by {
        assert(has_key(kv, evidence_key(es[i])));
        let q = choose|q: int| 0 <= q < kv.len() && #[trigger] kv[q] == evidence_key(es[i]);
        assert(flows[q].id == kv[q]);
    }
}

proof fn lemma_node_ids(nodes: Seq<Node>, ids: Seq<Seq<char>>)
    requires
                ids.len() == nodes.len(),
        forall|p: int| 0 <= p < ids.len() ==> node_id(#[trigger] node_views(nodes)[p]) == ids[p],
    ensures
        node_ids(nodes) == ids,
{
    assert forall|q: int| 0 <= q < nodes.len() implies node_ids(nodes)[q] == ids[q] by {
        assert(node_views(nodes)[q] == nodes[q]@);
        assert(node_id(node_views(nodes)[q]) == ids[q]);
    }
    assert(node_ids(nodes) =~= ids);
}

/// Projects evidence into a flow graph. The projection is refused when there
/// are more than `MAX_RECORDS` items, when an item fails validation, or when
/// two items share an identity but differ; identical duplicates collapse into
/// one flow. Flows and nodes come out in increasing order of id, so the
/// result does not depend on the order of the input.
pub fn project(evidence: &[Evidence], evaluation: &Evaluation) -> (r: Result<FlowGraph, String>)
    ensures
        projected(r, evidence_views(evidence@), evaluation),
{
    let ghost es = evidence_views(evidence@);
    if evidence.len() > MAX_RECORDS {
        return Err("graph observation limit".to_owned());
    }
    let (okeys, oidx) = match register_all(evidence) {
        Err(e) => return Err(e),
        Ok(v) => v,
    };
    proof {
        lemma_registered_facts(key_views(okeys@), oidx@, es);
    }
    let projected_at = evaluation.now();
    let mut nids: Vec<Vec<char>> = Vec::new();
    let mut nodes: Vec<Node> = Vec::new();
    let mut flows: Vec<FlowEdge> = Vec::new();
    let mut p: usize = 0;
    proof {
        assert(key_views(nids@) =~= Seq::<Seq<char>>::empty());
        assert(node_views(nodes@) =~= Seq::<NodeView>::empty());
        assert(edge_views(flows@) =~= Seq::<FlowEdgeView>::empty());
        assert(node_map(edge_views(flows@)) =~= Map::<Seq<char>, NodeView>::empty());
    }
    while p < okeys.len()
        invariant
            es == evidence_views(evidence@),
            es.len() == evidence@.len(),
            okeys@.len() == oidx@.len(),
            forall|q: int| 0 <= q < oidx@.len() ==> #[trigger] oidx@[q] < es.len() && key_views(okeys@)[q]
                == evidence_key(es[oidx@[q] as int]),
            forall|j: int| 0 <= j < es.len() ==> validate_spec(#[trigger] es[j].observation) is Ok,
            p <= okeys@.len(),
            flows@.len() == p,
            forall|q: int| 0 <= q < p ==> #[trigger] flows@[q]@ == expected_edge(es[oidx@[q] as int], evaluation),
            lists_map(key_views(nids@), node_views(nodes@), node_map(edge_views(flows@))),
        decreases okeys@.len() - p,
    {
        let idx = oidx[p];
        let item = &evidence[idx];
        assert(item@ == es[idx as int]);
        let id = string_of(okeys[p].as_slice());
        assert(key_views(okeys@)[p as int] == okeys@[p as int]@);
        let edge = make_edge(item, id, evaluation);
        proof {
            lemma_expected_edge(es[idx as int], evaluation);
        }
        let ghost before = flows@;
        push_edge(&mut nids, &mut nodes, &mut flows, edge);
        assert forall|q: int| 0 <= q < p + 1 implies #[trigger] flows@[q]@ == expected_edge(es[oidx@[q] as int], evaluation) by {
            if q < p {
                assert(flows@[q] == before[q]);
            }
        }
        p = p + 1;
    }
    proof {
        let fv = edge_views(flows@);
        let kv = key_views(okeys@);
        assert forall|q: int| 0 <= q < fv.len() implies #[trigger] fv[q] == expected_edge(es[oidx@[q] as int], evaluation) by {
            assert(fv[q] == flows@[q]@);
        }
        lemma_flow_ids(kv, oidx@, es, fv, evaluation);
        lemma_flows_from_evidence(oidx@, es, fv, evaluation);
        lemma_evidence_in_flows(kv, es, fv);
        assert(edge_ids(flows@) =~= kv) by {
            assert forall|q: int| 0 <= q < flows@.len() implies edge_ids(flows@)[q] == kv[q] by {
                assert(fv[q].id == kv[q]);
            }
        }
        lemma_node_ids(nodes@, key_views(nids@));
    }
    Ok(FlowGraph {
        schema_version: "FlowGraphV1",
        authority: Authority::ObservationOnly,
        projected_at,
        nodes,
        flows,
    })
}

// ---------------------------------------------------------------------------
// What the projection does not depend on
// ---------------------------------------------------------------------------

/// Every item passes validation, and items with the same identity are the
/// same item.
pub open spec fn consistent(es: Seq<EvidenceView>) -> bool {
    &&& forall|i: int| 0 <= i < es.len() ==> (#[trigger] validate_spec(es[i].observation)) is Ok
    &&& forall|i: int, j: int|
        0 <= i < es.len() && 0 <= j < es.len() && #[trigger] evidence_key(es[i]) == #[trigger] evidence_key(es[j])
            ==> es[i] == es[j]
}

/// The two lists hold the same items, in whatever order and number.
pub open spec fn same_items(a: Seq<EvidenceView>, b: Seq<EvidenceView>) -> bool {
    forall|e: EvidenceView| a.contains(e) <==> b.contains(e)
}

proof fn lemma_first_error_none(es: Seq<EvidenceView>, k: int)
    requires
        0 <= k,
    ensures
        first_project_error(es, k) is None <==> forall|i: int| k <= i < es.len() ==> #[trigger] project_step_error(es, i) is None,
    decreases es.len() - k,
{
    if k < es.len() {
        lemma_first_error_none(es, k + 1);
    }
}

proof fn lemma_no_error_consistent(es: Seq<EvidenceView>)
    requires
        es.len() <= MAX_RECORDS,
    ensures
        project_error(es) is None <==> consistent(es),
{
    lemma_first_error_none(es, 0);
    if project_error(es) is None {
        assert forall|i: int| 0 <= i < es.len() implies (#[trigger] validate_spec(es[i].observation)) is Ok by {
            assert(project_step_error(es, i) is None);
        }
        assert forall|i: int, j: int|
            0 <= i < es.len() && 0 <= j < es.len() && #[trigger] evidence_key(es[i]) == #[trigger] evidence_key(es[j])
            implies es[i] == es[j] by {
            if i < j {
                assert(project_step_error(es, j) is None);
            } else if j < i {
                assert(project_step_error(es, i) is None);
            }
        }
    }
    if consistent(es) {
        assert forall|i: int| 0 <= i < es.len() implies #[trigger] project_step_error(es, i) is None by {
            assert(validate_spec(es[i].observation) is Ok);
            if exists|j: int| 0 <= j < i && evidence_key(#[trigger] es[j]) == evidence_key(es[i]) && es[j] != es[i] {
                let j = choose|j: int| 0 <= j < i && evidence_key(#[trigger] es[j]) == evidence_key(es[i]) && es[j] != es[i];
                assert(evidence_key(es[j]) == evidence_key(es[i]));
            }
        }
    }
}

proof fn lemma_consistent_same_items(a: Seq<EvidenceView>, b: Seq<EvidenceView>)
    requires
        consistent(a),
        same_items(a, b),
    ensures
        consistent(b),
{
    assert forall|i: int| 0 <= i < b.len() implies (#[trigger] validate_spec(b[i].observation)) is Ok by {
        assert(b.contains(b[i]));
        assert(a.contains(b[i]));
        let k = choose|k: int| 0 <= k < a.len() && a[k] == b[i];
        assert(validate_spec(a[k].observation) is Ok);
    }
    assert forall|i: int, j: int|
        0 <= i < b.len() && 0 <= j < b.len() && #[trigger] evidence_key(b[i]) == #[trigger] evidence_key(b[j])
        implies b[i] == b[j] by {
        assert(b.contains(b[i]) && b.contains(b[j]));
        assert(a.contains(b[i]) && a.contains(b[j]));
        let k = choose|k: int| 0 <= k < a.len() && a[k] == b[i];
        let l = choose|l: int| 0 <= l < a.len() && a[l] == b[j];
        assert(evidence_key(a[k]) == evidence_key(a[l]));
    }
}

/// Whether a projection succeeds depends on the items alone: listing them
/// in another order, or repeating some, neither makes it fail nor succeed.
pub proof fn law_projection_success_ignores_order_and_repeats(a: Seq<EvidenceView>, b: Seq<EvidenceView>)
    requires
        same_items(a, b),
        a.len() <= MAX_RECORDS,
        b.len() <= MAX_RECORDS,
    ensures
        project_error(a) is None <==> project_error(b) is None,
{
    lemma_no_error_consistent(a);
    lemma_no_error_consistent(b);
    assert forall|e: EvidenceView| b.contains(e) <==> a.contains(e) by {}
    if consistent(a) {
        lemma_consistent_same_items(a, b);
    }
    if consistent(b) {
        lemma_consistent_same_items(b, a);
    }
}

proof fn lemma_flow_ids_covered(a: Seq<EvidenceView>, b: Seq<EvidenceView>, ga: FlowGraph, gb: FlowGraph, ev: &Evaluation, x: Seq<char>)
    requires
        same_items(a, b),
        projected(Ok(ga), a, ev),
        projected(Ok(gb), b, ev),
        edge_ids(ga.flows@).contains(x),
    ensures
        edge_ids(gb.flows@).contains(x),
{
    let fa = edge_views(ga.flows@);
    let p = choose|p: int| 0 <= p < edge_ids(ga.flows@).len() && edge_ids(ga.flows@)[p] == x;
    assert(fa[p].id == x);
    assert(edge_of_some(a, fa[p], ev));
    let i = choose|i: int| 0 <= i < a.len() && fa[p] == expected_edge(#[trigger] a[i], ev);
    lemma_expected_edge(a[i], ev);
    assert(a.contains(a[i]));
    assert(b.contains(a[i]));
    let j = choose|j: int| 0 <= j < b.len() && b[j] == a[i];
    assert(flow_with_id(edge_views(gb.flows@), evidence_key(b[j])));
    let q = choose|q: int| 0 <= q < edge_views(gb.flows@).len() && #[trigger] edge_views(gb.flows@)[q].id == evidence_key(b[j]);
    assert(edge_ids(gb.flows@)[q] == x);
}

/// The graph depends on the items alone: two successful projections of the
/// same items, in any order and with any repeats, have the same flows and
/// the same nodes, and both carry only the authority of an observation.
pub proof fn law_projection_ignores_order_and_repeats(
    a: Seq<EvidenceView>,
    b: Seq<EvidenceView>,
    ev: &Evaluation,
    ga: FlowGraph,
    gb: FlowGraph,
)
    requires
        same_items(a, b),
        projected(Ok(ga), a, ev),
        projected(Ok(gb), b, ev),
    ensures
        edge_views(ga.flows@) == edge_views(gb.flows@),
        node_views(ga.nodes@) == node_views(gb.nodes@),
        ga.authority == Authority::ObservationOnly,
        gb.authority == Authority::ObservationOnly,
{
    assert(project_error(a) is None);
    assert(project_error(b) is None);
    assert(a.len() <= MAX_RECORDS);
    assert(b.len() <= MAX_RECORDS);
    lemma_no_error_consistent(a);
    lemma_no_error_consistent(b);
    assert forall|e: EvidenceView| b.contains(e) <==> a.contains(e) by {}
    let ia = edge_ids(ga.flows@);
    let ib = edge_ids(gb.flows@);
    assert forall|x: Seq<char>| ia.contains(x) <==> ib.contains(x) by {
        if ia.contains(x) {
            lemma_flow_ids_covered(a, b, ga, gb, ev, x);
        }
        if ib.contains(x) {
            lemma_flow_ids_covered(b, a, gb, ga, ev, x);
        }
    }
    lemma_sorted_same_keys(ia, ib);
    let fa = edge_views(ga.flows@);
    let fb = edge_views(gb.flows@);
    assert(fa.len() == fb.len());
    assert forall|p: int| 0 <= p < fa.len() implies fa[p] == fb[p] by {
        assert(ia[p] == ib[p]);
        assert(fa[p].id == ia[p] && fb[p].id == ib[p]);
        assert(edge_of_some(a, fa[p], ev));
        assert(edge_of_some(b, fb[p], ev));
        let i = choose|i: int| 0 <= i < a.len() && fa[p] == expected_edge(#[trigger] a[i], ev);
        let j = choose|j: int| 0 <= j < b.len() && fb[p] == expected_edge(#[trigger] b[j], ev);
        lemma_expected_edge(a[i], ev);
        lemma_expected_edge(b[j], ev);
        assert(a.contains(a[i]));
        assert(b.contains(a[i]));
        let k = choose|k: int| 0 <= k < b.len() && b[k] == a[i];
        assert(evidence_key(b[k]) == evidence_key(b[j]));
        assert(b[k] == b[j]);
    }
    assert(fa =~= fb);
    let m = node_map(fa);
    let na = node_ids(ga.nodes@);
    let nb = node_ids(gb.nodes@);
    assert(lists_map(na, node_views(ga.nodes@), m));
    assert(lists_map(nb, node_views(gb.nodes@), m));
    assert forall|x: Seq<char>| na.contains(x) <==> nb.contains(x) by {
        if na.contains(x) {
            let p = choose|p: int| 0 <= p < na.len() && na[p] == x;
            assert(m.contains_key(na[p]));
            let q = choose|q: int| 0 <= q < nb.len() && #[trigger] nb[q] == x;
            assert(nb[q] == x);
        }
        if nb.contains(x) {
            let p = choose|p: int| 0 <= p < nb.len() && nb[p] == x;
            assert(m.contains_key(nb[p]));
            let q = choose|q: int| 0 <= q < na.len() && #[trigger] na[q] == x;
            assert(na[q] == x);
        }
    }
    lemma_sorted_same_keys(na, nb);
    assert(node_views(ga.nodes@) =~= node_views(gb.nodes@)) by {
        assert forall|p: int| 0 <= p < na.len() implies node_views(ga.nodes@)[p] == node_views(gb.nodes@)[p] by {
            assert(na[p] == nb[p]);
        }
    }
}

// ---------------------------------------------------------------------------
// Laws over identities
// ---------------------------------------------------------------------------

/// An edge's node ids are derived from its id, and its process node, when
/// it has one, from its process reference.
pub open spec fn shaped(f: FlowEdgeView) -> bool {
    &&& f.source_node == source_node_id(f.id)
    &&& f.destination_node == destination_node_id(f.id)
    &&& f.process_node matches Some(k) ==> f.observation.process_ref is Some && exists|e: EvidenceView|
        #[trigger] process_node_id(e, f.id, f.observation.process_ref->Some_0) == k
}

pub open spec fn ids_distinct(fl: Seq<FlowEdgeView>) -> bool {
    forall|i: int, j: int| 0 <= i < fl.len() && 0 <= j < fl.len() && i != j ==> #[trigger] fl[i].id != #[trigger] fl[j].id
}

proof fn lemma_expected_edge_shaped(e: EvidenceView, ev: &Evaluation)
    ensures
        shaped(expected_edge(e, ev)),
        flow_identity(expected_edge(e, ev)) == identity(e),
        expected_edge(e, ev).id == evidence_key(e),
        expected_edge(e, ev).origin == e.origin,
        expected_edge(e, ev).observation.process_ref == e.observation.process_ref,
        expected_edge(e, ev).process_node is Some <==> e.observation.process_ref is Some,
        expected_edge(e, ev).process_node matches Some(k) ==> k == process_node_id(
            e,
            evidence_key(e),
            e.observation.process_ref->Some_0,
        ),
{
    reveal(expected_edge);
    let f = expected_edge(e, ev);
    if e.observation.process_ref is Some {
        assert(process_node_id(e, f.id, f.observation.process_ref->Some_0) == f.process_node->Some_0);
    }
}

/// In the node map of shaped edges with distinct ids, each edge's endpoint
/// ids hold endpoint nodes of its own ends, and its process id a process
/// node of its own reference.
proof fn lemma_node_map_at(fl: Seq<FlowEdgeView>, p: int)
    requires
        0 <= p < fl.len(),
        forall|i: int| 0 <= i < fl.len() ==> shaped(#[trigger] fl[i]),
        ids_distinct(fl),
    ensures
        node_map(fl).contains_key(fl[p].source_node),
        node_map(fl)[fl[p].source_node] == (NodeView::Endpoint { id: fl[p].source_node, endpoint: fl[p].observation.source }),
        node_map(fl).contains_key(fl[p].destination_node),
        node_map(fl)[fl[p].destination_node] == (NodeView::Endpoint {
            id: fl[p].destination_node,
            endpoint: fl[p].observation.destination,
        }),
        fl[p].process_node matches Some(k) ==> node_map(fl).contains_key(k) && node_map(fl)[k] == (NodeView::Process {
            id: k,
            process_ref: fl[p].observation.process_ref->Some_0,
        }),
    decreases fl.len(),
{
    let init = fl.drop_last();
    let last = fl.last();
    let n = fl.len() - 1;
    assert(node_map(fl) == edge_nodes(node_map(init), last));
    assert(shaped(fl[p]));
    assert(shaped(fl[n]));
    let fp = fl[p];
    // The keys that `last` writes, against the keys of `fp`.
    let e0: EvidenceView = arbitrary();
    law_node_ids_are_unambiguous(fp.id, last.id, e0, fp.id, fp.id, e0, last.id, last.id);
    law_node_ids_are_unambiguous(last.id, fp.id, e0, fp.id, fp.id, e0, last.id, last.id);
    if let Some(kl) = last.process_node {
        let el = choose|e: EvidenceView| #[trigger] process_node_id(e, last.id, last.observation.process_ref->Some_0) == kl;
        law_node_ids_are_unambiguous(fp.id, last.id, el, last.id, last.observation.process_ref->Some_0, el, last.id, last.observation.process_ref->Some_0);
        law_node_ids_are_unambiguous(last.id, fp.id, el, last.id, last.observation.process_ref->Some_0, el, last.id, last.observation.process_ref->Some_0);
        if let Some(kp) = fp.process_node {
            let ep = choose|e: EvidenceView| #[trigger] process_node_id(e, fp.id, fp.observation.process_ref->Some_0) == kp;
            law_node_ids_are_unambiguous(fp.id, last.id, ep, fp.id, fp.observation.process_ref->Some_0, el, last.id, last.observation.process_ref->Some_0);
        }
    }
    if let Some(kp) = fp.process_node {
        let ep = choose|e: EvidenceView| #[trigger] process_node_id(e, fp.id, fp.observation.process_ref->Some_0) == kp;
        law_node_ids_are_unambiguous(last.id, fp.id, ep, fp.id, fp.observation.process_ref->Some_0, ep, fp.id, fp.observation.process_ref->Some_0);
    }
    if p < n {
        assert(fl[p].id != fl[n].id);
        assert forall|i: int| 0 <= i < init.len() implies shaped(#[trigger] init[i]) by {
            assert(init[i] == fl[i]);
        }
        assert forall|i: int, j: int| 0 <= i < init.len() && 0 <= j < init.len() && i != j implies #[trigger] init[i].id
            != #[trigger] init[j].id by {
            assert(init[i] == fl[i] && init[j] == fl[j]);
        }
        assert(init[p] == fp);
        lemma_node_map_at(init, p);
    }
}

proof fn lemma_flow_identities_distinct(es: Seq<EvidenceView>, fl: Seq<FlowEdgeView>, ids: Seq<Seq<char>>, ev: &Evaluation)
    requires
        strictly_sorted(ids),
        ids.len() == fl.len(),
        forall|p: int| 0 <= p < fl.len() ==> #[trigger] ids[p] == fl[p].id,
        forall|p: int| 0 <= p < fl.len() ==> edge_of_some(es, #[trigger] fl[p], ev),
    ensures
        forall|p: int, q: int| 0 <= p < q < fl.len() ==> flow_identity(#[trigger] fl[p]) != flow_identity(#[trigger] fl[q]),
{
    assert forall|p: int, q: int| 0 <= p < q < fl.len() implies flow_identity(#[trigger] fl[p]) != flow_identity(
        #[trigger] fl[q],
    ) by {
        assert(edge_of_some(es, fl[p], ev));
        assert(edge_of_some(es, fl[q], ev));
        let a = choose|k: int| 0 <= k < es.len() && fl[p] == expected_edge(#[trigger] es[k], ev);
        let b = choose|k: int| 0 <= k < es.len() && fl[q] == expected_edge(#[trigger] es[k], ev);
        lemma_expected_edge_shaped(es[a], ev);
        lemma_expected_edge_shaped(es[b], ev);
        lemma_sorted_distinct(ids, p, q);
        assert(ids[p] == fl[p].id && ids[q] == fl[q].id);
        law_evidence_key_is_identity(es[a], es[b]);
    }
}

proof fn lemma_identity_has_flow(es: Seq<EvidenceView>, fl: Seq<FlowEdgeView>, ev: &Evaluation, i: int)
    requires
        0 <= i < es.len(),
        flow_with_id(fl, evidence_key(es[i])),
        forall|p: int| 0 <= p < fl.len() ==> edge_of_some(es, #[trigger] fl[p], ev),
    ensures
        exists|p: int| 0 <= p < fl.len() && flow_identity(#[trigger] fl[p]) == identity(es[i]),
{
    let q = choose|q: int| 0 <= q < fl.len() && #[trigger] fl[q].id == evidence_key(es[i]);
    assert(edge_of_some(es, fl[q], ev));
    let b = choose|k: int| 0 <= k < es.len() && fl[q] == expected_edge(#[trigger] es[k], ev);
    lemma_expected_edge_shaped(es[b], ev);
    law_evidence_key_is_identity(es[b], es[i]);
    assert(flow_identity(fl[q]) == identity(es[i]));
}

/// Refusing an item because an earlier, different item has its key is
/// refusing it because an earlier, different item has its identity.
pub proof fn law_conflict_is_same_identity(es: Seq<EvidenceView>, i: int)
    ensures
        (exists|j: int| 0 <= j < i && evidence_key(#[trigger] es[j]) == evidence_key(es[i]) && es[j] != es[i])
            <==> (exists|j: int| 0 <= j < i && identity(#[trigger] es[j]) == identity(es[i]) && es[j] != es[i]),
{
    if exists|j: int| 0 <= j < i && evidence_key(#[trigger] es[j]) == evidence_key(es[i]) && es[j] != es[i] {
        let j = choose|j: int| 0 <= j < i && evidence_key(#[trigger] es[j]) == evidence_key(es[i]) && es[j] != es[i];
        law_evidence_key_is_identity(es[j], es[i]);
        assert(identity(es[j]) == identity(es[i]));
    }
    if exists|j: int| 0 <= j < i && identity(#[trigger] es[j]) == identity(es[i]) && es[j] != es[i] {
        let j = choose|j: int| 0 <= j < i && identity(#[trigger] es[j]) == identity(es[i]) && es[j] != es[i];
        law_evidence_key_is_identity(es[j], es[i]);
        assert(evidence_key(es[j]) == evidence_key(es[i]));
    }
}

/// Projection keeps one flow per identity: no two flows share one, and every
/// item's identity has its flow.
pub proof fn law_one_flow_per_identity(r: Result<FlowGraph, String>, es: Seq<EvidenceView>, ev: &Evaluation, i: int)
    requires
        projected(r, es, ev),
        r is Ok,
        0 <= i < es.len(),
    ensures
        forall|p: int, q: int|
            0 <= p < q < r->Ok_0.flows@.len() ==> flow_identity(#[trigger] edge_views(r->Ok_0.flows@)[p]) != flow_identity(
                #[trigger] edge_views(r->Ok_0.flows@)[q],
            ),
        exists|p: int|
            0 <= p < r->Ok_0.flows@.len() && flow_identity(#[trigger] edge_views(r->Ok_0.flows@)[p]) == identity(es[i]),
{
    let g = r->Ok_0;
    let fl = edge_views(g.flows@);
    let ids = edge_ids(g.flows@);
    assert(project_error(es) is None);
    assert(strictly_sorted(ids));
    assert(forall|p: int| 0 <= p < fl.len() ==> edge_of_some(es, #[trigger] fl[p], ev));
    assert(forall|p: int| 0 <= p < fl.len() ==> #[trigger] ids[p] == fl[p].id);
    assert(flow_with_id(fl, evidence_key(es[i])));
    lemma_flow_identities_distinct(es, fl, ids, ev);
    lemma_identity_has_flow(es, fl, ev, i);
}

proof fn lemma_flows_shaped(es: Seq<EvidenceView>, fl: Seq<FlowEdgeView>, ids: Seq<Seq<char>>, ev: &Evaluation)
    requires
        strictly_sorted(ids),
        ids.len() == fl.len(),
        forall|p: int| 0 <= p < fl.len() ==> #[trigger] ids[p] == fl[p].id,
        forall|p: int| 0 <= p < fl.len() ==> edge_of_some(es, #[trigger] fl[p], ev),
    ensures
        forall|p: int| 0 <= p < fl.len() ==> shaped(#[trigger] fl[p]),
        ids_distinct(fl),
{
    assert forall|p: int| 0 <= p < fl.len() implies shaped(#[trigger] fl[p]) by {
        assert(edge_of_some(es, fl[p], ev));
        let a = choose|k: int| 0 <= k < es.len() && fl[p] == expected_edge(#[trigger] es[k], ev);
        lemma_expected_edge_shaped(es[a], ev);
    }
    assert forall|i: int, j: int| 0 <= i < fl.len() && 0 <= j < fl.len() && i != j implies #[trigger] fl[i].id
        != #[trigger] fl[j].id by {
        lemma_sorted_distinct(ids, i, j);
        assert(ids[i] == fl[i].id && ids[j] == fl[j].id);
    }
}

proof fn lemma_process_nodes(es: Seq<EvidenceView>, fl: Seq<FlowEdgeView>, ev: &Evaluation, p: int, q: int)
    requires
        0 <= p < fl.len(),
        0 <= q < fl.len(),
        fl[p].id != fl[q].id,
        edge_of_some(es, fl[p], ev),
        edge_of_some(es, fl[q], ev),
    ensures
        fl[p].process_node is Some <==> fl[p].observation.process_ref is Some,
        fl[p].process_node is Some && fl[q].process_node is Some ==> (fl[p].process_node == fl[q].process_node <==> (
        fl[p].origin != Origin::Imported && fl[q].origin != Origin::Imported && fl[p].origin == fl[q].origin
            && fl[p].observation.platform == fl[q].observation.platform && fl[p].observation.provenance
            == fl[q].observation.provenance && fl[p].observation.process_ref == fl[q].observation.process_ref)),
{
    let a = choose|k: int| 0 <= k < es.len() && fl[p] == expected_edge(#[trigger] es[k], ev);
    let b = choose|k: int| 0 <= k < es.len() && fl[q] == expected_edge(#[trigger] es[k], ev);
    lemma_expected_edge_shaped(es[a], ev);
    lemma_expected_edge_shaped(es[b], ev);
    if fl[p].process_node is Some && fl[q].process_node is Some {
        let ra = es[a].observation.process_ref->Some_0;
        let rb = es[b].observation.process_ref->Some_0;
        law_node_ids_are_unambiguous(fl[p].id, fl[q].id, es[a], evidence_key(es[a]), ra, es[b], evidence_key(es[b]), rb);
    }
}

/// Flows of a projection are bound to a process node exactly when they
/// carry a process reference, and two flows share a process node exactly
/// when neither is an imported assertion and they carry the same reference
/// under the same origin, platform and provenance: an imported reference
/// never merges with another flow's.
pub proof fn law_process_nodes_shared_only_by_the_same_process(
    r: Result<FlowGraph, String>,
    es: Seq<EvidenceView>,
    ev: &Evaluation,
    p: int,
    q: int,
)
    requires
        projected(r, es, ev),
        r is Ok,
        0 <= p < r->Ok_0.flows@.len(),
        0 <= q < r->Ok_0.flows@.len(),
        p != q,
    ensures
        ({
            let fl = edge_views(r->Ok_0.flows@);
            &&& fl[p].process_node is Some <==> fl[p].observation.process_ref is Some
            &&& fl[p].process_node is Some && fl[q].process_node is Some ==> (fl[p].process_node == fl[q].process_node
                <==> (fl[p].origin != Origin::Imported && fl[q].origin != Origin::Imported && fl[p].origin
                == fl[q].origin && fl[p].observation.platform == fl[q].observation.platform
                && fl[p].observation.provenance == fl[q].observation.provenance && fl[p].observation.process_ref
                == fl[q].observation.process_ref))
        }),
{
    let g = r->Ok_0;
    let fl = edge_views(g.flows@);
    let ids = edge_ids(g.flows@);
    assert(project_error(es) is None);
    assert(strictly_sorted(ids));
    assert(ids[p] == fl[p].id && ids[q] == fl[q].id);
    lemma_sorted_distinct(ids, p, q);
    assert(edge_of_some(es, fl[p], ev));
    assert(edge_of_some(es, fl[q], ev));
    lemma_process_nodes(es, fl, ev, p, q);
}

proof fn lemma_listed(ids: Seq<Seq<char>>, nodes: Seq<NodeView>, m: Map<Seq<char>, NodeView>, k: Seq<char>)
    requires
        lists_map(ids, nodes, m),
        m.contains_key(k),
    ensures
        exists|n: int| 0 <= n < ids.len() && #[trigger] ids[n] == k && nodes[n] == m[k],
{
    let n = choose|n: int| 0 <= n < ids.len() && #[trigger] ids[n] == k;
    assert(m[ids[n]] == nodes[n]);
}

/// Every flow's references point at nodes of the right kind: its source and
/// destination ids at endpoint nodes of its own ends, its process id, when
/// it has one, at a process node of its own reference.
pub proof fn law_flow_nodes_have_their_kind(r: Result<FlowGraph, String>, es: Seq<EvidenceView>, ev: &Evaluation, p: int)
    requires
        projected(r, es, ev),
        r is Ok,
        0 <= p < r->Ok_0.flows@.len(),
    ensures
        ({
            let f = edge_views(r->Ok_0.flows@)[p];
            let ids = node_ids(r->Ok_0.nodes@);
            let nodes = node_views(r->Ok_0.nodes@);
            &&& exists|n: int| 0 <= n < ids.len() && #[trigger] ids[n] == f.source_node && nodes[n] == (NodeView::Endpoint {
                id: f.source_node,
                endpoint: f.observation.source,
            })
            &&& exists|n: int| 0 <= n < ids.len() && #[trigger] ids[n] == f.destination_node && nodes[n] == (NodeView::Endpoint {
                id: f.destination_node,
                endpoint: f.observation.destination,
            })
            &&& f.process_node matches Some(k) ==> exists|n: int| 0 <= n < ids.len() && #[trigger] ids[n] == k && nodes[n] == (NodeView::Process {
                id: k,
                process_ref: f.observation.process_ref->Some_0,
            })
        }),
{
    let g = r->Ok_0;
    let fl = edge_views(g.flows@);
    let fids = edge_ids(g.flows@);
    assert(project_error(es) is None);
    assert(strictly_sorted(fids));
    assert(forall|k: int| 0 <= k < fl.len() ==> edge_of_some(es, #[trigger] fl[k], ev));
    assert(forall|k: int| 0 <= k < fl.len() ==> #[trigger] fids[k] == fl[k].id);
    lemma_flows_shaped(es, fl, fids, ev);
    lemma_node_map_at(fl, p);
    let m = node_map(fl);
    assert(lists_map(node_ids(g.nodes@), node_views(g.nodes@), m));
    lemma_listed(node_ids(g.nodes@), node_views(g.nodes@), m, fl[p].source_node);
    lemma_listed(node_ids(g.nodes@), node_views(g.nodes@), m, fl[p].destination_node);
    if let Some(k) = fl[p].process_node {
        lemma_listed(node_ids(g.nodes@), node_views(g.nodes@), m, k);
    }
}

/// The endpoint node ids of a list of edges.
pub open spec fn endpoint_keys(fl: Seq<FlowEdgeView>) -> Set<Seq<char>>
    decreases fl.len(),
{
    if fl.len() == 0 {
        Set::empty()
    } else {
        endpoint_keys(fl.drop_last()).insert(fl.last().source_node).insert(fl.last().destination_node)
    }
}

/// The distinct process node ids of a list of edges.
pub open spec fn process_keys(fl: Seq<FlowEdgeView>) -> Set<Seq<char>>
    decreases fl.len(),
{
    if fl.len() == 0 {
        Set::empty()
    } else {
        match fl.last().process_node {
            Some(k) => process_keys(fl.drop_last()).insert(k),
            None => process_keys(fl.drop_last()),
        }
    }
}

proof fn lemma_node_map_keys(fl: Seq<FlowEdgeView>)
    ensures
        node_map(fl).dom() == endpoint_keys(fl) + process_keys(fl),
        endpoint_keys(fl).finite(),
        process_keys(fl).finite(),
        forall|k: Seq<char>| #[trigger] endpoint_keys(fl).contains(k) ==> exists|i: int|
            0 <= i < fl.len() && (fl[i].source_node == k || fl[i].destination_node == k),
        forall|k: Seq<char>| #[trigger] process_keys(fl).contains(k) ==> exists|i: int|
            0 <= i < fl.len() && #[trigger] fl[i].process_node == Some(k),
    decreases fl.len(),
{
    if fl.len() > 0 {
        let init = fl.drop_last();
        lemma_node_map_keys(init);
        assert(node_map(fl).dom() =~= endpoint_keys(fl) + process_keys(fl));
        assert forall|k: Seq<char>| #[trigger] endpoint_keys(fl).contains(k) implies exists|i: int|
            0 <= i < fl.len() && (fl[i].source_node == k || fl[i].destination_node == k) by {
            if endpoint_keys(init).contains(k) {
                let i = choose|i: int| 0 <= i < init.len() && (init[i].source_node == k || init[i].destination_node == k);
                assert(fl[i] == init[i]);
            } else {
                assert(fl[fl.len() - 1] == fl.last());
            }
        }
        assert forall|k: Seq<char>| #[trigger] process_keys(fl).contains(k) implies exists|i: int|
            0 <= i < fl.len() && #[trigger] fl[i].process_node == Some(k) by {
            if process_keys(init).contains(k) {
                let i = choose|i: int| 0 <= i < init.len() && #[trigger] init[i].process_node == Some(k);
                assert(fl[i] == init[i]);
            } else {
                assert(fl[fl.len() - 1] == fl.last());
            }
        }
    } else {
        assert(node_map(fl).dom() =~= endpoint_keys(fl) + process_keys(fl));
    }
}

/// Shaped edges with distinct ids have two endpoint nodes each, none shared,
/// and no endpoint id is a process id.
proof fn lemma_endpoint_keys_len(fl: Seq<FlowEdgeView>)
    requires
        forall|i: int| 0 <= i < fl.len() ==> shaped(#[trigger] fl[i]),
        ids_distinct(fl),
    ensures
        endpoint_keys(fl).len() == 2 * fl.len(),
        endpoint_keys(fl).disjoint(process_keys(fl)),
    decreases fl.len(),
{
    lemma_node_map_keys(fl);
    if fl.len() > 0 {
        let init = fl.drop_last();
        let last = fl.last();
        let n = fl.len() - 1;
        assert(fl[n] == last);
        assert(shaped(last));
        assert forall|i: int| 0 <= i < init.len() implies shaped(#[trigger] init[i]) by {
            assert(init[i] == fl[i]);
        }
        assert forall|i: int, j: int| 0 <= i < init.len() && 0 <= j < init.len() && i != j implies #[trigger] init[i].id
            != #[trigger] init[j].id by {
            assert(init[i] == fl[i] && init[j] == fl[j]);
        }
        lemma_endpoint_keys_len(init);
        lemma_node_map_keys(init);
        let e0: EvidenceView = arbitrary();
        law_node_ids_are_unambiguous(last.id, last.id, e0, last.id, last.id, e0, last.id, last.id);
        assert(!endpoint_keys(init).contains(last.source_node) && !endpoint_keys(init).contains(last.destination_node)) by {
            if endpoint_keys(init).contains(last.source_node) || endpoint_keys(init).contains(last.destination_node) {
                let k = if endpoint_keys(init).contains(last.source_node) { last.source_node } else { last.destination_node };
                let i = choose|i: int| 0 <= i < init.len() && (init[i].source_node == k || init[i].destination_node == k);
                assert(init[i] == fl[i]);
                assert(fl[i].id != fl[n].id);
                assert(shaped(fl[i]));
                law_node_ids_are_unambiguous(fl[i].id, last.id, e0, last.id, last.id, e0, last.id, last.id);
                law_node_ids_are_unambiguous(last.id, fl[i].id, e0, last.id, last.id, e0, last.id, last.id);
            }
        }
        assert(endpoint_keys(init).insert(last.source_node).len() == endpoint_keys(init).len() + 1);
        assert forall|k: Seq<char>| #[trigger] endpoint_keys(fl).contains(k) implies !process_keys(fl).contains(k) by {
            let i = choose|i: int| 0 <= i < fl.len() && (fl[i].source_node == k || fl[i].destination_node == k);
            if process_keys(fl).contains(k) {
                let j = choose|j: int| 0 <= j < fl.len() && #[trigger] fl[j].process_node == Some(k);
                assert(shaped(fl[i]));
                assert(shaped(fl[j]));
                let ej = choose|e: EvidenceView| #[trigger] process_node_id(e, fl[j].id, fl[j].observation.process_ref->Some_0) == k;
                law_node_ids_are_unambiguous(fl[i].id, fl[i].id, ej, fl[j].id, fl[j].observation.process_ref->Some_0, ej, fl[j].id, fl[j].observation.process_ref->Some_0);
            }
        }
    } else {
        assert(endpoint_keys(fl) =~= Set::<Seq<char>>::empty());
    }
}

/// A projection holds two endpoint nodes per flow and one node per distinct
/// process id, and nothing else.
pub proof fn law_node_count(r: Result<FlowGraph, String>, es: Seq<EvidenceView>, ev: &Evaluation)
    requires
        projected(r, es, ev),
        r is Ok,
    ensures
        r->Ok_0.nodes@.len() == 2 * r->Ok_0.flows@.len() + process_keys(edge_views(r->Ok_0.flows@)).len(),
        forall|k: Seq<char>| #[trigger] process_keys(edge_views(r->Ok_0.flows@)).contains(k) <==> exists|p: int|
            0 <= p < r->Ok_0.flows@.len() && #[trigger] edge_views(r->Ok_0.flows@)[p].process_node == Some(k),
{
    let g = r->Ok_0;
    let fl = edge_views(g.flows@);
    let fids = edge_ids(g.flows@);
    assert(project_error(es) is None);
    assert(strictly_sorted(fids));
    assert(forall|k: int| 0 <= k < fl.len() ==> edge_of_some(es, #[trigger] fl[k], ev));
    assert(forall|k: int| 0 <= k < fl.len() ==> #[trigger] fids[k] == fl[k].id);
    lemma_flows_shaped(es, fl, fids, ev);
    lemma_endpoint_keys_len(fl);
    lemma_node_map_keys(fl);
    let m = node_map(fl);
    let ids = node_ids(g.nodes@);
    assert(lists_map(ids, node_views(g.nodes@), m));
    assert(ids.no_duplicates()) by {
        assert forall|i: int, j: int| 0 <= i < ids.len() && 0 <= j < ids.len() && i != j implies ids[i] != ids[j] by {
            lemma_sorted_distinct(ids, i, j);
        }
    }
    ids.unique_seq_to_set();
    assert(ids.to_set() =~= m.dom()) by {
        assert forall|k: Seq<char>| ids.to_set().contains(k) implies m.dom().contains(k) by {
            let i = choose|i: int| 0 <= i < ids.len() && ids[i] == k;
            assert(m.contains_key(ids[i]));
        }
    }
    vstd::set_lib::lemma_set_disjoint_lens(endpoint_keys(fl), process_keys(fl));
    assert forall|k: Seq<char>| (exists|p: int| 0 <= p < fl.len() && #[trigger] fl[p].process_node == Some(k)) implies #[trigger] process_keys(fl).contains(k) by {
        let p = choose|p: int| 0 <= p < fl.len() && #[trigger] fl[p].process_node == Some(k);
        lemma_node_map_at(fl, p);
        assert(m.contains_key(k));
        if endpoint_keys(fl).contains(k) {
            let i = choose|i: int| 0 <= i < fl.len() && (fl[i].source_node == k || fl[i].destination_node == k);
            assert(shaped(fl[i]));
            assert(shaped(fl[p]));
            let ep = choose|e: EvidenceView| #[trigger] process_node_id(e, fl[p].id, fl[p].observation.process_ref->Some_0) == k;
            law_node_ids_are_unambiguous(fl[i].id, fl[i].id, ep, fl[p].id, fl[p].observation.process_ref->Some_0, ep, fl[p].id, fl[p].observation.process_ref->Some_0);
        }
    }
}

/// Projection re-judges freshness without losing what the evidence said:
/// every flow comes from an item of the same identity, keeps that item's
/// freshness as its prior freshness and its declared freshness as declared,
/// carries the item's observation unchanged but for the freshness, and that
/// freshness never vouches for more than the prior one did.
pub proof fn law_projection_keeps_prior_freshness(r: Result<FlowGraph, String>, es: Seq<EvidenceView>, ev: &Evaluation, p: int)
    requires
        projected(r, es, ev),
        r is Ok,
        0 <= p < r->Ok_0.flows@.len(),
    ensures
        ({
            let f = edge_views(r->Ok_0.flows@)[p];
            exists|i: int|
                0 <= i < es.len() && identity(#[trigger] es[i]) == flow_identity(f) && f.origin == es[i].origin
                    && f.prior_freshness == es[i].observation.freshness && f.declared_freshness == es[i].declared_freshness
                    && f.observation == (FlowObservationView { freshness: f.observation.freshness, ..es[i].observation })
                    && freshness_rank(f.observation.freshness) <= freshness_rank(f.prior_freshness)
        }),
{
    let fl = edge_views(r->Ok_0.flows@);
    assert(project_error(es) is None);
    assert(edge_of_some(es, fl[p], ev));
    let i = choose|k: int| 0 <= k < es.len() && fl[p] == expected_edge(#[trigger] es[k], ev);
    reveal(expected_edge);
    let e = es[i];
    law_judging_never_promotes(
        age_nanos(rfc3339_age(ev.now_text(), e.observation.observed_at)),
        ev.max_age(),
        e.observation.freshness,
    );
    assert(fl[p].observation =~= (FlowObservationView { freshness: fl[p].observation.freshness, ..es[i].observation }));
}

} // verus!
