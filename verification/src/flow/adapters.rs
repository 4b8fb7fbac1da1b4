//! Host adapters and the normaliser from native samples to evidence.
//!
//! Adapters expose observation only: no executor, capability or callback
//! reaches them. Fixture replays are labelled as such and never qualify a
//! native collector.
use vstd::prelude::*;
use crate::flow::model::{
    clone_display, display_view, freshness_spec, make_evidence, msg_bad_timestamp, validate_spec, msg_empty_string, opt_view,
    platform_name, validate, Authority, Counters, DisplayLocation, DisplayMode, Endpoint, EndpointView,
    Evaluation, Evidence, EvidenceView, FlowObservation, FlowObservationView, Freshness, MatchState, Origin,
    Platform, Policy, Provenance, Route, RouteState, SchemaVersion, MAX_RECORDS,
};
use crate::json_text::{json_literal, push_json_str, push_json_uint, push_mark};
use crate::text::{ascii_lower, ascii_lower_seq, chars_of, decimal, is_err_with, string_of};

verus! {

/// The kind of process birth stamp a platform reports.
#[derive(Clone, Copy, Debug, PartialEq, Eq, Structural)]
pub enum BirthKind {
    DarwinStartUs,
    Win32Creation100ns,
    LinuxStartTicks,
    OpenbsdStartUs,
}

/// A process owner reported with a native record: the pid and its birth
/// stamp read before and after the authoritative socket sample.
#[derive(Clone, Copy, Debug, PartialEq, Eq, Structural)]
pub struct ProcessEvidence {
    pub pid: u32,
    pub kind: BirthKind,
    pub birth_before: Option<u64>,
    pub birth_after: Option<u64>,
}

#[derive(Debug)]
pub struct NativeRecord {
    pub record_id: String,
    pub process: Option<ProcessEvidence>,
    pub source: Endpoint,
    pub destination: Endpoint,
    pub protocol: String,
    pub counters: Counters,
    pub policy: Policy,
    pub route: Route,
    pub display_location: Option<DisplayLocation>,
}

pub struct NativeRecordView {
    pub record_id: Seq<char>,
    pub process: Option<ProcessEvidence>,
    pub source: EndpointView,
    pub destination: EndpointView,
    pub protocol: Seq<char>,
    pub counters: (Option<u64>, Option<u64>, Option<u64>, Option<u64>),
    pub policy: (MatchState, Option<Seq<char>>, Option<Seq<char>>),
    pub route: (RouteState, Option<Seq<char>>, Option<Seq<char>>, Option<Seq<char>>),
    pub display_location: Option<(DisplayMode, Option<Seq<char>>)>,
}

impl View for NativeRecord {
    type V = NativeRecordView;

    open spec fn view(&self) -> NativeRecordView {
        NativeRecordView {
            record_id: self.record_id@,
            process: self.process,
            source: self.source@,
            destination: self.destination@,
            protocol: self.protocol@,
            counters: self.counters@,
            policy: self.policy@,
            route: self.route@,
            display_location: display_view(self.display_location),
        }
    }
}

/// One native sample: the records of one authoritative snapshot by one
/// collector. The sample's schema tag is checked where it is decoded.
#[derive(Debug)]
pub struct NativeSample {
    pub platform: Platform,
    pub collector_scope: String,
    pub snapshot_id: String,
    pub observed_at: String,
    pub freshness: Freshness,
    pub records: Vec<NativeRecord>,
}

pub struct NativeSampleView {
    pub platform: Platform,
    pub collector_scope: Seq<char>,
    pub snapshot_id: Seq<char>,
    pub observed_at: Seq<char>,
    pub freshness: Freshness,
    pub records: Seq<NativeRecordView>,
}

impl View for NativeSample {
    type V = NativeSampleView;

    open spec fn view(&self) -> NativeSampleView {
        NativeSampleView {
            platform: self.platform,
            collector_scope: self.collector_scope@,
            snapshot_id: self.snapshot_id@,
            observed_at: self.observed_at@,
            freshness: self.freshness,
            records: self.records@.map_values(|r: NativeRecord| r@),
        }
    }
}

/// Whether a native collector actually ran.
#[derive(Clone, Copy, Debug, PartialEq, Eq, Structural)]
pub enum Gate {
    Pass,
    NotExecuted,
}

#[derive(Debug)]
pub struct ObservationBatch {
    pub platform: Platform,
    pub native_gate: Gate,
    pub gaps: Vec<String>,
    pub observations: Vec<Evidence>,
}

// ---------------------------------------------------------------------------
// Tokens and identities
// ---------------------------------------------------------------------------

pub open spec fn token_char(c: char) -> bool {
    ('a' <= c && c <= 'z') || ('A' <= c && c <= 'Z') || ('0' <= c && c <= '9') || c == '_' || c == '.'
        || c == '-'
}

/// A collector, snapshot or record token: 1 to 256 ASCII letters, digits,
/// `_`, `.` or `-`. (Every such character is one byte, so counting
/// characters counts bytes.)
pub open spec fn token_ok(s: Seq<char>) -> bool {
    0 < s.len() <= 256 && forall|i: int| 0 <= i < s.len() ==> token_char(#[trigger] s[i])
}

pub open spec fn msg_token() -> Seq<char> {
    "invalid collector/snapshot/record token"@
}

pub fn token(value: &str) -> (r: Result<(), String>)
    ensures
        token_ok(value@) ==> r is Ok,
        !token_ok(value@) ==> is_err_with(r, msg_token()),
{
    let cs = chars_of(value);
    let mut ok = cs.len() > 0 && cs.len() <= 256;
    let mut i: usize = 0;
    while i < cs.len()
        invariant
            i <= cs.len(),
            cs@ == value@,
            ok == (0 < cs.len() <= 256 && forall|k: int| 0 <= k < i ==> token_char(#[trigger] cs@[k])),
        decreases cs.len() - i,
    {
        let c = cs[i];
        let good = ('a' <= c && c <= 'z') || ('A' <= c && c <= 'Z') || ('0' <= c && c <= '9') || c == '_'
            || c == '.' || c == '-';
        if !good {
            ok = false;
        }
        i = i + 1;
    }
    if !ok {
        return Err("invalid collector/snapshot/record token".to_owned());
    }
    Ok(())
}

/// The birth-stamp kind each platform must report.
pub open spec fn expected_kind(p: Platform) -> Option<BirthKind> {
    match p {
        Platform::Darwin => Some(BirthKind::DarwinStartUs),
        Platform::Win32 => Some(BirthKind::Win32Creation100ns),
        Platform::Linux => Some(BirthKind::LinuxStartTicks),
        Platform::OpenBsd => Some(BirthKind::OpenbsdStartUs),
        Platform::NetBsd => None,
    }
}

pub open spec fn msg_netbsd() -> Seq<char> {
    "NetBSD native input is outside this profile"@
}

pub open spec fn msg_kind_mismatch() -> Seq<char> {
    "process birth kind/platform mismatch"@
}

/// The process identity key: the compact JSON array
/// `[platform, scope, pid, birth]`.
pub open spec fn identity_key(p: Platform, scope: Seq<char>, pid: u32, birth: u64) -> Seq<char> {
    seq!['['] + json_literal(platform_name(p)) + seq![','] + json_literal(scope) + seq![','] + decimal(
        pid as nat,
    ) + seq![','] + decimal(birth as nat) + seq![']']
}

/// A process binds only when the pid is not zero and the birth stamp read
/// before and after the socket sample is the same non-zero value; a
/// rebound or missing stamp leaves the identity unknown.
pub open spec fn identity_spec(p: Platform, scope: Seq<char>, process: Option<ProcessEvidence>) -> Result<Option<Seq<char>>, Seq<char>> {
    match process {
        None => Ok(None),
        Some(pe) => match expected_kind(p) {
            None => Err(msg_netbsd()),
            Some(k) => if pe.kind != k {
                Err(msg_kind_mismatch())
            } else {
                match (pe.birth_before, pe.birth_after) {
                    (Some(b), Some(a)) => if pe.pid != 0 && b != 0 && b == a {
                        Ok(Some(identity_key(p, scope, pe.pid, b)))
                    } else {
                        Ok(None)
                    },
                    _ => Ok(None),
                }
            },
        },
    }
}

pub open spec fn identity_view(r: Result<Option<String>, String>) -> Result<Option<Seq<char>>, Seq<char>> {
    match r {
        Ok(o) => Ok(opt_view(o)),
        Err(e) => Err(e@),
    }
}

/// The process identity of a native record, if it can be bound.
pub fn identity(platform: Platform, scope: &str, process: &Option<ProcessEvidence>) -> (r: Result<Option<String>, String>)
    ensures
        identity_view(r) == identity_spec(platform, scope@, *process),
{
    let p = match process {
        None => return Ok(None),
        Some(p) => *p,
    };
    let expected = match platform {
        Platform::Darwin => BirthKind::DarwinStartUs,
        Platform::Win32 => BirthKind::Win32Creation100ns,
        Platform::Linux => BirthKind::LinuxStartTicks,
        Platform::OpenBsd => BirthKind::OpenbsdStartUs,
        Platform::NetBsd => return Err("NetBSD native input is outside this profile".to_owned()),
    };
    if p.kind != expected {
        return Err("process birth kind/platform mismatch".to_owned());
    }
    match (p.birth_before, p.birth_after) {
        (Some(before), Some(after)) => {
            if p.pid != 0 && before != 0 && before == after {
                let mut key = String::new();
                push_mark(&mut key, '[');
                push_json_str(&mut key, platform.name());
                push_mark(&mut key, ',');
                push_json_str(&mut key, scope);
                push_mark(&mut key, ',');
                push_json_uint(&mut key, p.pid as u64);
                push_mark(&mut key, ',');
                push_json_uint(&mut key, before);
                push_mark(&mut key, ']');
                assert(key@ =~= identity_key(platform, scope@, p.pid, before));
                Ok(Some(key))
            } else {
                Ok(None)
            }
        },
        _ => Ok(None),
    }
}

// ---------------------------------------------------------------------------
// Normalisation
// ---------------------------------------------------------------------------

/// The version written into the provenance of normalised observations.
pub const ADAPTER_VERSION: &'static str = "0.1.0";

/// The flow identity: the compact JSON array
/// `[platform, collector_scope, snapshot_id, record_id]`.
pub open spec fn flow_key(p: Platform, scope: Seq<char>, snapshot: Seq<char>, record: Seq<char>) -> Seq<char> {
    seq!['['] + json_literal(platform_name(p)) + seq![','] + json_literal(scope) + seq![','] + json_literal(
        snapshot,
    ) + seq![','] + json_literal(record) + seq![']']
}

pub open spec fn adapter_name(p: Platform) -> Seq<char> {
    "blueshoes.flow."@ + platform_name(p)
}

pub open spec fn source_kind_name(o: Origin) -> Seq<char> {
    if o == Origin::Native { "native_tcp_table"@ } else { "fixture"@ }
}

/// The observation that record `i` of sample `s` becomes.
pub open spec fn record_observation(s: NativeSampleView, i: int, fresh: Freshness, origin: Origin, process_ref: Option<Seq<char>>) -> FlowObservationView {
    let r = s.records[i];
    FlowObservationView {
        schema_version: SchemaVersion::V1,
        flow_id: flow_key(s.platform, s.collector_scope, s.snapshot_id, r.record_id),
        platform: s.platform,
        observed_at: s.observed_at,
        freshness: fresh,
        process_ref,
        source: r.source,
        destination: r.destination,
        protocol: ascii_lower_seq(r.protocol),
        counters: r.counters,
        policy: r.policy,
        route: r.route,
        display_location: r.display_location,
        provenance: (adapter_name(s.platform), ADAPTER_VERSION@, source_kind_name(origin)),
        authority: Authority::ObservationOnly,
    }
}

pub open spec fn msg_duplicate() -> Seq<char> {
    "duplicate native record ID"@
}

pub open spec fn msg_too_many() -> Seq<char> {
    "too many records"@
}

/// The error record `i` raises once the records before it have passed.
pub open spec fn record_error(s: NativeSampleView, i: int) -> Option<Seq<char>> {
    let r = s.records[i];
    if !token_ok(r.record_id) {
        Some(msg_token())
    } else if exists|j: int| 0 <= j < i && #[trigger] s.records[j].record_id == r.record_id {
        Some(msg_duplicate())
    } else if identity_spec(s.platform, s.collector_scope, r.process) is Err {
        Some(identity_spec(s.platform, s.collector_scope, r.process)->Err_0)
    } else if r.protocol.len() == 0 {
        Some(msg_empty_string())
    } else {
        None
    }
}

/// The first record error from record `i` on.
pub open spec fn first_record_error(s: NativeSampleView, i: int) -> Option<Seq<char>>
    decreases s.records.len() - i,
{
    if i < 0 || i >= s.records.len() {
        None
    } else if record_error(s, i) is Some {
        record_error(s, i)
    } else {
        first_record_error(s, i + 1)
    }
}

/// The error `normalize` reports, if any, in the order it checks.
pub open spec fn normalize_error(s: NativeSampleView) -> Option<Seq<char>> {
    if s.platform == Platform::NetBsd {
        Some(msg_netbsd())
    } else if !token_ok(s.collector_scope) || !token_ok(s.snapshot_id) {
        Some(msg_token())
    } else if s.records.len() > MAX_RECORDS {
        Some(msg_too_many())
    } else if !rfc3339_valid_seq(s.observed_at) {
        Some(msg_bad_timestamp())
    } else {
        first_record_error(s, 0)
    }
}

pub open spec fn rfc3339_valid_seq(t: Seq<char>) -> bool {
    crate::clock::rfc3339_valid(t)
}

/// The freshness every record of a sample gets.
pub open spec fn sample_freshness(s: NativeSampleView, ev: &Evaluation) -> Freshness {
    freshness_spec(
        crate::clock::age_nanos(crate::clock::rfc3339_age(ev.now_text(), s.observed_at)),
        ev.max_age(),
        s.freshness,
    )
}

/// The evidence record `i` becomes when the sample normalises.
pub open spec fn record_evidence(s: NativeSampleView, ev: &Evaluation, origin: Origin, i: int) -> EvidenceView {
    EvidenceView {
        observation: record_observation(
            s,
            i,
            sample_freshness(s, ev),
            origin,
            identity_spec(s.platform, s.collector_scope, s.records[i].process)->Ok_0,
        ),
        origin,
        declared_freshness: s.freshness,
    }
}

/// What `normalize` promises of a result: either the error it reports, or one
/// piece of evidence per record, in record order.
pub open spec fn normalized(r: Result<Vec<Evidence>, String>, s: NativeSampleView, ev: &Evaluation, origin: Origin) -> bool {
    match normalize_error(s) {
        Some(m) => is_err_with(r, m),
        None => match r {
            Err(_) => false,
            Ok(v) => v@.len() == s.records.len() && forall|i: int|
                0 <= i < v@.len() ==> #[trigger] v@[i]@ == record_evidence(s, ev, origin, i),
        },
    }
}

proof fn lemma_first_error_step(s: NativeSampleView, i: int)
    requires
        0 <= i < s.records.len(),
        record_error(s, i) is None,
    ensures
        first_record_error(s, i) == first_record_error(s, i + 1),
{
}

fn lower_string(s: &String) -> (r: String)
    ensures
        r@ == ascii_lower_seq(s@),
{
    let cs = chars_of(s.as_str());
    let lc = ascii_lower(cs.as_slice());
    string_of(lc.as_slice())
}

fn flow_id_text(platform: Platform, scope: &str, snapshot: &str, record: &str) -> (r: String)
    ensures
        r@ == flow_key(platform, scope@, snapshot@, record@),
{
    let mut key = String::new();
    push_mark(&mut key, '[');
    push_json_str(&mut key, platform.name());
    push_mark(&mut key, ',');
    push_json_str(&mut key, scope);
    push_mark(&mut key, ',');
    push_json_str(&mut key, snapshot);
    push_mark(&mut key, ',');
    push_json_str(&mut key, record);
    push_mark(&mut key, ']');
    key
}

fn adapter_text(platform: Platform) -> (r: String)
    ensures
        r@ == adapter_name(platform),
{
    let mut a = "blueshoes.flow.".to_owned();
    crate::text::push_str(&mut a, platform.name());
    a
}

fn source_kind_text(origin: Origin) -> (r: String)
    ensures
        r@ == source_kind_name(origin),
{
    if origin == Origin::Native { "native_tcp_table".to_owned() } else { "fixture".to_owned() }
}

/// Whether some earlier record id equals `id`.
fn seen_before(seen: &Vec<String>, id: &String) -> (r: bool)
    ensures
        r == exists|j: int| 0 <= j < seen@.len() && #[trigger] seen@[j]@ == id@,
{
    let mut k: usize = 0;
    while k < seen.len()
        invariant
            k <= seen.len(),
            forall|j: int| 0 <= j < k ==> #[trigger] seen@[j]@ != id@,
        decreases seen.len() - k,
    {
        if seen[k] == *id {
            return true;
        }
        k = k + 1;
    }
    false
}

/// Normalises a native sample into evidence. The sample is refused whole if
/// its platform is outside the profile, a token is malformed, it has too
/// many records, its time is not RFC 3339, or any record is malformed,
/// repeats an id, reports the wrong birth kind, or has an empty protocol.
pub fn normalize(sample: NativeSample, evaluation: &Evaluation, origin: Origin) -> (r: Result<Vec<Evidence>, String>)
    ensures
        normalized(r, sample@, evaluation, origin),
{
    let ghost s = sample@;
    if sample.platform == Platform::NetBsd {
        return Err("NetBSD native input is outside this profile".to_owned());
    }
    match token(sample.collector_scope.as_str()) {
        Err(e) => return Err(e),
        Ok(()) => {},
    }
    match token(sample.snapshot_id.as_str()) {
        Err(e) => return Err(e),
        Ok(()) => {},
    }
    if sample.records.len() > MAX_RECORDS {
        return Err("too many records".to_owned());
    }
    let freshness = match evaluation.freshness(sample.observed_at.as_str(), sample.freshness) {
        Err(e) => return Err(e),
        Ok(f) => f,
    };
    let mut out: Vec<Evidence> = Vec::new();
    let mut seen: Vec<String> = Vec::new();
    let mut i: usize = 0;
    while i < sample.records.len()
        invariant
            s == sample@,
            normalize_error(s) == first_record_error(s, i as int),
            i <= sample.records.len(),
            freshness == sample_freshness(s, evaluation),
            rfc3339_valid_seq(s.observed_at),
            out@.len() == i,
            seen@.len() == i,
            forall|j: int| 0 <= j < i ==> #[trigger] seen@[j]@ == s.records[j].record_id,
            forall|j: int| 0 <= j < i ==> #[trigger] out@[j]@ == record_evidence(s, evaluation, origin, j),
            forall|j: int| 0 <= j < i ==> record_error(s, j) is None,
            sample.platform != Platform::NetBsd,
        decreases sample.records.len() - i,
    {
        let record = &sample.records[i];
        assert(record@ == s.records[i as int]);
        match token(record.record_id.as_str()) {
            Err(e) => return Err(e),
            Ok(()) => {},
        }
        if seen_before(&seen, &record.record_id) {
            return Err("duplicate native record ID".to_owned());
        }
        assert(!exists|j: int| 0 <= j < i && #[trigger] s.records[j].record_id == s.records[i as int].record_id) by {
            if exists|j: int| 0 <= j < i && #[trigger] s.records[j].record_id == s.records[i as int].record_id {
                let j = choose|j: int| 0 <= j < i && #[trigger] s.records[j].record_id == s.records[i as int].record_id;
                assert(seen@[j]@ == record.record_id@);
            }
        }
        let process_ref = match identity(sample.platform, sample.collector_scope.as_str(), &record.process) {
            Err(e) => return Err(e),
            Ok(p) => p,
        };
        if record.protocol.as_str().is_empty() {
            return Err("required string is empty".to_owned());
        }
        let observation = FlowObservation {
            schema_version: SchemaVersion::V1,
            flow_id: flow_id_text(
                sample.platform,
                sample.collector_scope.as_str(),
                sample.snapshot_id.as_str(),
                record.record_id.as_str(),
            ),
            platform: sample.platform,
            observed_at: sample.observed_at.clone(),
            freshness,
            process_ref,
            source: record.source.clone(),
            destination: record.destination.clone(),
            protocol: lower_string(&record.protocol),
            counters: record.counters.clone(),
            policy: record.policy.clone(),
            route: record.route.clone(),
            display_location: clone_display(&record.display_location),
            provenance: Provenance {
                adapter: adapter_text(sample.platform),
                adapter_version: ADAPTER_VERSION.to_owned(),
                source_kind: source_kind_text(origin),
            },
            authority: Authority::ObservationOnly,
        };
        proof {
            reveal_strlit("0.1.0");
            reveal_strlit("blueshoes.flow.");
            reveal_strlit("fixture");
            reveal_strlit("native_tcp_table");
            assert(ascii_lower_seq(record.protocol@).len() == record.protocol@.len());
            assert(observation@ == record_observation(s, i as int, freshness, origin, opt_view(observation.process_ref)));
            assert(observation.flow_id@.len() > 0);
            assert(validate_spec(observation@) is Ok);
        }
        match validate(&observation) {
            Err(e) => return Err(e),
            Ok(()) => {},
        }
        proof {
            lemma_first_error_step(s, i as int);
        }
        let id = record.record_id.clone();
        seen.push(id);
        out.push(make_evidence(observation, origin, sample.freshness));
        i = i + 1;
    }
    Ok(out)
}

/// A normalised observation names its protocol as the record did, in ASCII
/// lower case: each capital letter `A`-`Z` becomes its small letter, every
/// other character stays, and the length is kept.
pub proof fn law_normalized_protocol_is_lower_case(
    r: Result<Vec<Evidence>, String>,
    s: NativeSampleView,
    ev: &Evaluation,
    origin: Origin,
    i: int,
    j: int,
)
    requires
        normalized(r, s, ev, origin),
        r is Ok,
        0 <= i < s.records.len(),
    ensures
        ({
            let p = s.records[i].protocol;
            let q = r->Ok_0@[i]@.observation.protocol;
            &&& q.len() == p.len()
            &&& 0 <= j < p.len() && 'A' <= p[j] && p[j] <= 'Z' ==> q[j] as u32 == p[j] as u32 + 32
            &&& 0 <= j < p.len() && !('A' <= p[j] && p[j] <= 'Z') ==> q[j] == p[j]
        }),
        ({
            let rec = s.records[i];
            let e = r->Ok_0@[i]@;
            &&& e.origin == origin
            &&& e.declared_freshness == s.freshness
            &&& e.observation.platform == s.platform
            &&& e.observation.observed_at == s.observed_at
            &&& e.observation.source == rec.source
            &&& e.observation.destination == rec.destination
            &&& e.observation.counters == rec.counters
            &&& e.observation.policy == rec.policy
            &&& e.observation.route == rec.route
            &&& e.observation.display_location == rec.display_location
            &&& e.observation.authority == Authority::ObservationOnly
        }),
{
    assert(normalize_error(s) is None);
    assert(r->Ok_0@[i]@ == record_evidence(s, ev, origin, i));
}

// ---------------------------------------------------------------------------
// Batches and adapters
// ---------------------------------------------------------------------------

pub open spec fn fixture_gap() -> Seq<char> {
    "Fixture execution does not qualify a native collector"@
}

/// What a fixture replay yields: the sample's evidence labelled as fixture,
/// with the native gate shut and the gap written down.
pub open spec fn fixture_batch(r: Result<ObservationBatch, String>, s: NativeSampleView, ev: &Evaluation) -> bool {
    match normalize_error(s) {
        Some(m) => is_err_with(r, m),
        None => match r {
            Err(_) => false,
            Ok(b) => b.platform == s.platform && b.native_gate == Gate::NotExecuted && b.gaps@.len() == 1
                && b.gaps@[0]@ == fixture_gap() && b.observations@.len() == s.records.len() && forall|i: int|
                0 <= i < s.records.len() ==> #[trigger] b.observations@[i]@ == record_evidence(
                    s,
                    ev,
                    Origin::Fixture,
                    i,
                ),
        },
    }
}

/// Replays a decoded native sample as fixture evidence.
pub fn fixture(sample: NativeSample, evaluation: &Evaluation) -> (r: Result<ObservationBatch, String>)
    ensures
        fixture_batch(r, sample@, evaluation),
{
    let platform = sample.platform;
    let ghost s = sample@;
    let observations = match normalize(sample, evaluation, Origin::Fixture) {
        Err(e) => return Err(e),
        Ok(v) => v,
    };
    let mut gaps: Vec<String> = Vec::new();
    gaps.push("Fixture execution does not qualify a native collector".to_owned());
    Ok(ObservationBatch { platform, native_gate: Gate::NotExecuted, gaps, observations })
}

/// The gap text of a collector that did not run.
pub open spec fn not_executed_gap(p: Platform) -> Seq<char> {
    platform_name(p) + " native collector NOT_EXECUTED"@
}

/// The batch of a collector that did not run: no observations, gate shut.
pub open spec fn is_not_executed(b: ObservationBatch, p: Platform) -> bool {
    b.platform == p && b.native_gate == Gate::NotExecuted && b.gaps@.len() == 1 && b.gaps@[0]@
        == not_executed_gap(p) && b.observations@.len() == 0
}

pub fn not_executed(platform: Platform) -> (b: ObservationBatch)
    ensures
        is_not_executed(b, platform),
{
    let mut gap = platform.name().to_owned();
    crate::text::push_str(&mut gap, " native collector NOT_EXECUTED");
    let mut gaps: Vec<String> = Vec::new();
    gaps.push(gap);
    ObservationBatch { platform, native_gate: Gate::NotExecuted, gaps, observations: Vec::new() }
}

/// A host adapter: it names its platform, collects, and replays fixtures of
/// its own platform only.
pub trait FlowAdapter {
    spec fn adapter_platform(&self) -> Platform;

    fn platform(&self) -> (p: Platform)
        ensures
            p == self.adapter_platform(),
    ;

    fn collect(&self, evaluation: &Evaluation) -> Result<ObservationBatch, String>;

    /// Replays a fixture, refusing one of another platform.
    fn fixture(&self, sample: NativeSample, evaluation: &Evaluation) -> (r: Result<ObservationBatch, String>)
        ensures
            sample.platform != self.adapter_platform() ==> is_err_with(r, "adapter/platform mismatch"@),
            sample.platform == self.adapter_platform() ==> fixture_batch(r, sample@, evaluation),
    {
        if sample.platform != self.platform() {
            return Err("adapter/platform mismatch".to_owned());
        }
        fixture(sample, evaluation)
    }
}

pub struct DarwinAdapter;

pub struct Win32Adapter;

pub struct LinuxAdapter;

pub struct OpenBsdAdapter;

impl FlowAdapter for DarwinAdapter {
    open spec fn adapter_platform(&self) -> Platform {
        Platform::Darwin
    }

    fn platform(&self) -> (p: Platform) {
        Platform::Darwin
    }

    fn collect(&self, evaluation: &Evaluation) -> (r: Result<ObservationBatch, String>)
        ensures
            r matches Ok(b) && is_not_executed(b, Platform::Darwin),
    {
        Ok(not_executed(Platform::Darwin))
    }
}

impl FlowAdapter for Win32Adapter {
    open spec fn adapter_platform(&self) -> Platform {
        Platform::Win32
    }

    fn platform(&self) -> (p: Platform) {
        Platform::Win32
    }

    fn collect(&self, evaluation: &Evaluation) -> (r: Result<ObservationBatch, String>)
        ensures
            r matches Ok(b) && is_not_executed(b, Platform::Win32),
    {
        Ok(not_executed(Platform::Win32))
    }
}

impl FlowAdapter for LinuxAdapter {
    open spec fn adapter_platform(&self) -> Platform {
        Platform::Linux
    }

    fn platform(&self) -> (p: Platform) {
        Platform::Linux
    }

    fn collect(&self, evaluation: &Evaluation) -> (r: Result<ObservationBatch, String>)
        ensures
            r matches Ok(b) && is_not_executed(b, Platform::Linux),
    {
        Ok(not_executed(Platform::Linux))
    }
}

impl FlowAdapter for OpenBsdAdapter {
    open spec fn adapter_platform(&self) -> Platform {
        Platform::OpenBsd
    }

    fn platform(&self) -> (p: Platform) {
        Platform::OpenBsd
    }

    fn collect(&self, evaluation: &Evaluation) -> (r: Result<ObservationBatch, String>)
        ensures
            r matches Ok(b) && is_not_executed(b, Platform::OpenBsd),
    {
        Ok(not_executed(Platform::OpenBsd))
    }
}

} // verus!
