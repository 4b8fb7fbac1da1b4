//! The observation record, its evidence wrapper and the freshness clock.
//!
//! Records come in from outside as JSON; the strict decoding into these types
//! happens at the edge of the program, and everything after it happens here.
use vstd::prelude::*;
use crate::text::is_err_with;
use crate::clock::{age_nanos, rfc3339_age, rfc3339_normal, rfc3339_valid, timestamp_age, timestamp_normal, timestamp_valid};

verus! {

/// Largest accepted observation input, in bytes.
pub const MAX_INPUT_BYTES: usize = 8388608;
/// Largest number of records in one sample or graph.
pub const MAX_RECORDS: usize = 10000;

#[derive(Clone, Copy, Debug, PartialEq, Eq, Structural)]
pub enum Platform {
    Darwin,
    Win32,
    Linux,
    OpenBsd,
    NetBsd,
}

#[derive(Clone, Copy, Debug, PartialEq, Eq, Structural)]
pub enum Authority {
    ObservationOnly,
}

#[derive(Clone, Copy, Debug, PartialEq, Eq, Structural)]
pub enum SchemaVersion {
    V1,
}

#[derive(Clone, Copy, Debug, PartialEq, Eq, Structural)]
pub enum Freshness {
    Fresh,
    Stale,
    Unknown,
}

#[derive(Clone, Copy, Debug, PartialEq, Eq, Structural)]
pub enum AddressState {
    Known,
    Partial,
    Unknown,
}

#[derive(Clone, Copy, Debug, PartialEq, Eq, Structural)]
pub enum MatchState {
    Matched,
    Unmatched,
    Unknown,
}

#[derive(Clone, Copy, Debug, PartialEq, Eq, Structural)]
pub enum RouteState {
    Observed,
    Partial,
    Unknown,
}

#[derive(Clone, Copy, Debug, PartialEq, Eq, Structural)]
pub enum DisplayMode {
    Real,
    Derived,
    Masked,
    Unknown,
}

/// Where a piece of evidence came from: an imported assertion, a fixture
/// replay, or a native local query.
#[derive(Clone, Copy, Debug, PartialEq, Eq, Structural)]
pub enum Origin {
    Imported,
    Fixture,
    Native,
}

/// The wire name of a platform.
pub open spec fn platform_name(p: Platform) -> Seq<char> {
    match p {
        Platform::Darwin => "darwin"@,
        Platform::Win32 => "win32"@,
        Platform::Linux => "linux"@,
        Platform::OpenBsd => "openbsd"@,
        Platform::NetBsd => "netbsd"@,
    }
}

impl Platform {
    pub fn name(self) -> (r: &'static str)
        ensures
            r@ == platform_name(self),
    {
        match self {
            Platform::Darwin => "darwin",
            Platform::Win32 => "win32",
            Platform::Linux => "linux",
            Platform::OpenBsd => "openbsd",
            Platform::NetBsd => "netbsd",
        }
    }
}

/// The wire name of an origin.
pub open spec fn origin_name(o: Origin) -> Seq<char> {
    match o {
        Origin::Imported => "imported_assertion"@,
        Origin::Fixture => "fixture"@,
        Origin::Native => "native_local_query"@,
    }
}

pub fn origin_wire_name(o: Origin) -> (r: &'static str)
    ensures
        r@ == origin_name(o),
{
    match o {
        Origin::Imported => "imported_assertion",
        Origin::Fixture => "fixture",
        Origin::Native => "native_local_query",
    }
}

pub open spec fn opt_view(o: Option<String>) -> Option<Seq<char>> {
    match o {
        Some(s) => Some(s@),
        None => None,
    }
}

/// Equality of two optional strings by their characters.
pub fn same_opt_string(a: &Option<String>, b: &Option<String>) -> (r: bool)
    ensures
        r == (opt_view(*a) == opt_view(*b)),
{
    match (a, b) {
        (Some(x), Some(y)) => *x == *y,
        (None, None) => true,
        _ => false,
    }
}

pub fn clone_opt_string(a: &Option<String>) -> (r: Option<String>)
    ensures
        opt_view(r) == opt_view(*a),
{
    match a {
        Some(x) => Some(x.clone()),
        None => None,
    }
}

#[derive(Debug)]
pub struct Endpoint {
    pub address_state: AddressState,
    pub address: Option<String>,
    pub port: Option<u16>,
    pub domain: Option<String>,
}

pub struct EndpointView {
    pub address_state: AddressState,
    pub address: Option<Seq<char>>,
    pub port: Option<u16>,
    pub domain: Option<Seq<char>>,
}

impl View for Endpoint {
    type V = EndpointView;

    open spec fn view(&self) -> EndpointView {
        EndpointView {
            address_state: self.address_state,
            address: opt_view(self.address),
            port: self.port,
            domain: opt_view(self.domain),
        }
    }
}

impl Clone for Endpoint {
    fn clone(&self) -> (r: Self)
        ensures
            r@ == self@,
    {
        Endpoint {
            address_state: self.address_state,
            address: clone_opt_string(&self.address),
            port: self.port,
            domain: clone_opt_string(&self.domain),
        }
    }
}

pub fn same_endpoint(a: &Endpoint, b: &Endpoint) -> (r: bool)
    ensures
        r == (a@ == b@),
{
    a.address_state == b.address_state && same_opt_string(&a.address, &b.address) && a.port == b.port
        && same_opt_string(&a.domain, &b.domain)
}

#[derive(Debug)]
pub struct Counters {
    pub bytes_up: Option<u64>,
    pub bytes_down: Option<u64>,
    pub rate_up_bps: Option<u64>,
    pub rate_down_bps: Option<u64>,
}

impl View for Counters {
    type V = (Option<u64>, Option<u64>, Option<u64>, Option<u64>);

    open spec fn view(&self) -> (Option<u64>, Option<u64>, Option<u64>, Option<u64>) {
        (self.bytes_up, self.bytes_down, self.rate_up_bps, self.rate_down_bps)
    }
}

impl Clone for Counters {
    fn clone(&self) -> (r: Self)
        ensures
            r@ == self@,
    {
        Counters {
            bytes_up: self.bytes_up,
            bytes_down: self.bytes_down,
            rate_up_bps: self.rate_up_bps,
            rate_down_bps: self.rate_down_bps,
        }
    }
}

pub fn same_counters(a: &Counters, b: &Counters) -> (r: bool)
    ensures
        r == (a@ == b@),
{
    a.bytes_up == b.bytes_up && a.bytes_down == b.bytes_down && a.rate_up_bps == b.rate_up_bps
        && a.rate_down_bps == b.rate_down_bps
}

#[derive(Debug)]
pub struct Policy {
    pub match_state: MatchState,
    pub rule_ref: Option<String>,
    pub decision: Option<String>,
}

impl View for Policy {
    type V = (MatchState, Option<Seq<char>>, Option<Seq<char>>);

    open spec fn view(&self) -> (MatchState, Option<Seq<char>>, Option<Seq<char>>) {
        (self.match_state, opt_view(self.rule_ref), opt_view(self.decision))
    }
}

impl Clone for Policy {
    fn clone(&self) -> (r: Self)
        ensures
            r@ == self@,
    {
        Policy {
            match_state: self.match_state,
            rule_ref: clone_opt_string(&self.rule_ref),
            decision: clone_opt_string(&self.decision),
        }
    }
}

pub fn same_policy(a: &Policy, b: &Policy) -> (r: bool)
    ensures
        r == (a@ == b@),
{
    a.match_state == b.match_state && same_opt_string(&a.rule_ref, &b.rule_ref) && same_opt_string(
        &a.decision,
        &b.decision,
    )
}

#[derive(Debug)]
pub struct Route {
    pub state: RouteState,
    pub interface_ref: Option<String>,
    pub egress_ref: Option<String>,
    pub tunnel_ref: Option<String>,
}

impl View for Route {
    type V = (RouteState, Option<Seq<char>>, Option<Seq<char>>, Option<Seq<char>>);

    open spec fn view(&self) -> (RouteState, Option<Seq<char>>, Option<Seq<char>>, Option<Seq<char>>) {
        (self.state, opt_view(self.interface_ref), opt_view(self.egress_ref), opt_view(self.tunnel_ref))
    }
}

impl Clone for Route {
    fn clone(&self) -> (r: Self)
        ensures
            r@ == self@,
    {
        Route {
            state: self.state,
            interface_ref: clone_opt_string(&self.interface_ref),
            egress_ref: clone_opt_string(&self.egress_ref),
            tunnel_ref: clone_opt_string(&self.tunnel_ref),
        }
    }
}

pub fn same_route(a: &Route, b: &Route) -> (r: bool)
    ensures
        r == (a@ == b@),
{
    a.state == b.state && same_opt_string(&a.interface_ref, &b.interface_ref) && same_opt_string(
        &a.egress_ref,
        &b.egress_ref,
    ) && same_opt_string(&a.tunnel_ref, &b.tunnel_ref)
}

#[derive(Debug)]
pub struct DisplayLocation {
    pub mode: DisplayMode,
    pub label: Option<String>,
}

impl View for DisplayLocation {
    type V = (DisplayMode, Option<Seq<char>>);

    open spec fn view(&self) -> (DisplayMode, Option<Seq<char>>) {
        (self.mode, opt_view(self.label))
    }
}

pub open spec fn display_view(d: Option<DisplayLocation>) -> Option<(DisplayMode, Option<Seq<char>>)> {
    match d {
        Some(x) => Some(x@),
        None => None,
    }
}

pub fn clone_display(d: &Option<DisplayLocation>) -> (r: Option<DisplayLocation>)
    ensures
        display_view(r) == display_view(*d),
{
    match d {
        Some(x) => Some(DisplayLocation { mode: x.mode, label: clone_opt_string(&x.label) }),
        None => None,
    }
}

pub fn same_display(a: &Option<DisplayLocation>, b: &Option<DisplayLocation>) -> (r: bool)
    ensures
        r == (display_view(*a) == display_view(*b)),
{
    match (a, b) {
        (Some(x), Some(y)) => x.mode == y.mode && same_opt_string(&x.label, &y.label),
        (None, None) => true,
        _ => false,
    }
}

#[derive(Debug)]
pub struct Provenance {
    pub adapter: String,
    pub adapter_version: String,
    pub source_kind: String,
}

impl View for Provenance {
    type V = (Seq<char>, Seq<char>, Seq<char>);

    open spec fn view(&self) -> (Seq<char>, Seq<char>, Seq<char>) {
        (self.adapter@, self.adapter_version@, self.source_kind@)
    }
}

impl Clone for Provenance {
    fn clone(&self) -> (r: Self)
        ensures
            r@ == self@,
    {
        Provenance {
            adapter: self.adapter.clone(),
            adapter_version: self.adapter_version.clone(),
            source_kind: self.source_kind.clone(),
        }
    }
}

pub fn same_provenance(a: &Provenance, b: &Provenance) -> (r: bool)
    ensures
        r == (a@ == b@),
{
    a.adapter == b.adapter && a.adapter_version == b.adapter_version && a.source_kind == b.source_kind
}

/// One observed flow: endpoints, counters, policy and route evidence, with
/// its provenance. Its authority is always observation only.
#[derive(Debug)]
pub struct FlowObservation {
    pub schema_version: SchemaVersion,
    pub flow_id: String,
    pub platform: Platform,
    pub observed_at: String,
    pub freshness: Freshness,
    pub process_ref: Option<String>,
    pub source: Endpoint,
    pub destination: Endpoint,
    pub protocol: String,
    pub counters: Counters,
    pub policy: Policy,
    pub route: Route,
    pub display_location: Option<DisplayLocation>,
    pub provenance: Provenance,
    pub authority: Authority,
}

pub struct FlowObservationView {
    pub schema_version: SchemaVersion,
    pub flow_id: Seq<char>,
    pub platform: Platform,
    pub observed_at: Seq<char>,
    pub freshness: Freshness,
    pub process_ref: Option<Seq<char>>,
    pub source: EndpointView,
    pub destination: EndpointView,
    pub protocol: Seq<char>,
    pub counters: (Option<u64>, Option<u64>, Option<u64>, Option<u64>),
    pub policy: (MatchState, Option<Seq<char>>, Option<Seq<char>>),
    pub route: (RouteState, Option<Seq<char>>, Option<Seq<char>>, Option<Seq<char>>),
    pub display_location: Option<(DisplayMode, Option<Seq<char>>)>,
    pub provenance: (Seq<char>, Seq<char>, Seq<char>),
    pub authority: Authority,
}

impl View for FlowObservation {
    type V = FlowObservationView;

    open spec fn view(&self) -> FlowObservationView {
        FlowObservationView {
            schema_version: self.schema_version,
            flow_id: self.flow_id@,
            platform: self.platform,
            observed_at: self.observed_at@,
            freshness: self.freshness,
            process_ref: opt_view(self.process_ref),
            source: self.source@,
            destination: self.destination@,
            protocol: self.protocol@,
            counters: self.counters@,
            policy: self.policy@,
            route: self.route@,
            display_location: display_view(self.display_location),
            provenance: self.provenance@,
            authority: self.authority,
        }
    }
}

impl Clone for FlowObservation {
    fn clone(&self) -> (r: Self)
        ensures
            r@ == self@,
    {
        FlowObservation {
            schema_version: self.schema_version,
            flow_id: self.flow_id.clone(),
            platform: self.platform,
            observed_at: self.observed_at.clone(),
            freshness: self.freshness,
            process_ref: clone_opt_string(&self.process_ref),
            source: self.source.clone(),
            destination: self.destination.clone(),
            protocol: self.protocol.clone(),
            counters: self.counters.clone(),
            policy: self.policy.clone(),
            route: self.route.clone(),
            display_location: clone_display(&self.display_location),
            provenance: self.provenance.clone(),
            authority: self.authority,
        }
    }
}

pub fn same_observation(a: &FlowObservation, b: &FlowObservation) -> (r: bool)
    ensures
        r == (a@ == b@),
{
    a.schema_version == b.schema_version && a.flow_id == b.flow_id && a.platform == b.platform
        && a.observed_at == b.observed_at && a.freshness == b.freshness && same_opt_string(
        &a.process_ref,
        &b.process_ref,
    ) && same_endpoint(&a.source, &b.source) && same_endpoint(&a.destination, &b.destination)
        && a.protocol == b.protocol && same_counters(&a.counters, &b.counters) && same_policy(
        &a.policy,
        &b.policy,
    ) && same_route(&a.route, &b.route) && same_display(&a.display_location, &b.display_location)
        && same_provenance(&a.provenance, &b.provenance) && a.authority == b.authority
}

/// The message for an empty required string.
pub open spec fn msg_empty_string() -> Seq<char> {
    "required string is empty"@
}

/// The message for a timestamp that is not RFC 3339.
pub open spec fn msg_bad_timestamp() -> Seq<char> {
    "invalid RFC3339 timestamp"@
}

/// The checks every observation passes: five required strings are not
/// empty, and the observation time is an RFC 3339 timestamp.
pub open spec fn validate_spec(o: FlowObservationView) -> Result<(), Seq<char>> {
    if o.flow_id.len() == 0 || o.protocol.len() == 0 || o.provenance.0.len() == 0
        || o.provenance.1.len() == 0 || o.provenance.2.len() == 0 {
        Err(msg_empty_string())
    } else if !rfc3339_valid(o.observed_at) {
        Err(msg_bad_timestamp())
    } else {
        Ok(())
    }
}

pub open spec fn result_view(r: Result<(), String>) -> Result<(), Seq<char>> {
    match r {
        Ok(()) => Ok(()),
        Err(e) => Err(e@),
    }
}

pub fn validate(observation: &FlowObservation) -> (r: Result<(), String>)
    ensures
        result_view(r) == validate_spec(observation@),
{
    if observation.flow_id.as_str().is_empty() || observation.protocol.as_str().is_empty()
        || observation.provenance.adapter.as_str().is_empty()
        || observation.provenance.adapter_version.as_str().is_empty()
        || observation.provenance.source_kind.as_str().is_empty() {
        proof {
            reveal_strlit("required string is empty");
        }
        return Err("required string is empty".to_owned());
    }
    if !timestamp_valid(observation.observed_at.as_str()) {
        return Err("invalid RFC3339 timestamp".to_owned());
    }
    Ok(())
}

/// The freshness that an evaluation assigns: a declared stale record stays
/// stale, a record from the future is unknown, a record older than the
/// maximum age is stale, and otherwise the declared freshness stands.
pub open spec fn freshness_spec(age: int, max_age_ms: int, declared: Freshness) -> Freshness {
    if declared == Freshness::Stale {
        Freshness::Stale
    } else if age < 0 {
        Freshness::Unknown
    } else if age > max_age_ms * 1_000_000 {
        Freshness::Stale
    } else {
        declared
    }
}

/// How much a freshness vouches for: fresh above unknown above stale.
pub open spec fn freshness_rank(f: Freshness) -> int {
    match f {
        Freshness::Fresh => 2,
        Freshness::Unknown => 1,
        Freshness::Stale => 0,
    }
}

/// Judging an observation's age never makes it fresher than it declared
/// itself: what is stale stays stale, and what is unknown never becomes
/// fresh. Judged again (as a projection judges admitted evidence against
/// its own clock), it can only lose freshness.
pub proof fn law_judging_never_promotes(age: int, max_age_ms: int, declared: Freshness)
    ensures
        freshness_rank(freshness_spec(age, max_age_ms, declared)) <= freshness_rank(declared),
        declared == Freshness::Stale ==> freshness_spec(age, max_age_ms, declared) == Freshness::Stale,
        declared == Freshness::Unknown ==> freshness_spec(age, max_age_ms, declared) != Freshness::Fresh,
{
}

/// Judging twice against the same clock gives what judging once gave.
pub proof fn law_judging_is_idempotent(age: int, max_age_ms: int, declared: Freshness)
    ensures
        freshness_spec(age, max_age_ms, freshness_spec(age, max_age_ms, declared)) == freshness_spec(
            age,
            max_age_ms,
            declared,
        ),
{
}

/// A reference clock and a maximum age, against which observation times are
/// judged.
#[derive(Debug)]
pub struct Evaluation {
    now: String,
    max_age_ms: i64,
}

impl Evaluation {
    #[verifier::type_invariant]
    spec fn well_formed(self) -> bool {
        rfc3339_valid(self.now@) && self.max_age_ms >= 0
    }

    /// The clock text the evaluation was made from.
    pub closed spec fn now_text(&self) -> Seq<char> {
        self.now@
    }

    /// The maximum age in milliseconds.
    pub closed spec fn max_age(&self) -> int {
        self.max_age_ms as int
    }

    /// An evaluation at `now` that calls a record stale once it is older than
    /// `max_age_ms` milliseconds. A negative age or a `now` that is not RFC
    /// 3339 is refused.
    pub fn new(now: &str, max_age_ms: i64) -> (r: Result<Evaluation, String>)
        ensures
            max_age_ms < 0 ==> is_err_with(r, "negative maximum age"@),
            max_age_ms >= 0 && !rfc3339_valid(now@) ==> is_err_with(r, msg_bad_timestamp()),
            max_age_ms >= 0 && rfc3339_valid(now@) ==> (r matches Ok(ev) && ev.now_text() == now@
                && ev.max_age() == max_age_ms),
    {
        if max_age_ms < 0 {
            return Err("negative maximum age".to_owned());
        }
        if !timestamp_valid(now) {
            return Err("invalid RFC3339 timestamp".to_owned());
        }
        Ok(Evaluation { now: now.to_owned(), max_age_ms })
    }

    /// The reference clock, written back in RFC 3339.
    pub fn now(&self) -> (r: String)
        ensures
            r@ == rfc3339_normal(self.now_text()),
    {
        proof {
            use_type_invariant(self);
        }
        timestamp_normal(self.now.as_str())
    }

    /// The freshness of a record observed at `observed_at` that declared
    /// `declared`; an observation time that is not RFC 3339 is an error.
    pub fn freshness(&self, observed_at: &str, declared: Freshness) -> (r: Result<Freshness, String>)
        ensures
            rfc3339_valid(observed_at@) ==> r == Ok::<Freshness, String>(
                freshness_spec(age_nanos(rfc3339_age(self.now_text(), observed_at@)), self.max_age(), declared),
            ),
            !rfc3339_valid(observed_at@) ==> is_err_with(r, msg_bad_timestamp()),
    {
        proof {
            use_type_invariant(self);
        }
        match timestamp_age(self.now.as_str(), observed_at) {
            None => Err("invalid RFC3339 timestamp".to_owned()),
            Some((secs, nanos)) => {
                let age: i128 = secs as i128 * 1_000_000_000 + nanos as i128;
                let limit: i128 = self.max_age_ms as i128 * 1_000_000;
                let f = if declared == Freshness::Stale {
                    Freshness::Stale
                } else if age < 0 {
                    Freshness::Unknown
                } else if age > limit {
                    Freshness::Stale
                } else {
                    declared
                };
                Ok(f)
            }
        }
    }
}


/// A validated observation with its trust label: where it came from and the
/// freshness its source declared. Only the normalisers and the import check
/// of this library make one.
#[derive(Debug)]
pub struct Evidence {
    observation: FlowObservation,
    origin: Origin,
    declared_freshness: Freshness,
}

pub struct EvidenceView {
    pub observation: FlowObservationView,
    pub origin: Origin,
    pub declared_freshness: Freshness,
}

impl View for Evidence {
    type V = EvidenceView;

    closed spec fn view(&self) -> EvidenceView {
        EvidenceView {
            observation: self.observation@,
            origin: self.origin,
            declared_freshness: self.declared_freshness,
        }
    }
}

impl Clone for Evidence {
    fn clone(&self) -> (r: Self)
        ensures
            r@ == self@,
    {
        Evidence {
            observation: self.observation.clone(),
            origin: self.origin,
            declared_freshness: self.declared_freshness,
        }
    }
}

impl Evidence {
    pub fn observation(&self) -> (r: &FlowObservation)
        ensures
            r@ == self@.observation,
    {
        &self.observation
    }

    pub fn origin(&self) -> (r: Origin)
        ensures
            r == self@.origin,
    {
        self.origin
    }

    pub fn declared_freshness(&self) -> (r: Freshness)
        ensures
            r == self@.declared_freshness,
    {
        self.declared_freshness
    }
}

/// Labels an observation; for the normalisers and the import check.
pub(crate) fn make_evidence(observation: FlowObservation, origin: Origin, declared_freshness: Freshness) -> (e: Evidence)
    ensures
        e@ == (EvidenceView { observation: observation@, origin, declared_freshness }),
{
    Evidence { observation, origin, declared_freshness }
}

pub fn same_evidence(a: &Evidence, b: &Evidence) -> (r: bool)
    ensures
        r == (a@ == b@),
{
    same_observation(&a.observation, &b.observation) && a.origin == b.origin
        && a.declared_freshness == b.declared_freshness
}

/// The message for an input above `MAX_INPUT_BYTES`.
pub open spec fn msg_too_large() -> Seq<char> {
    "input exceeds 8 MiB"@
}

/// Refuses an input of more than `MAX_INPUT_BYTES` bytes before it is decoded.
pub fn check_input_size(len: usize) -> (r: Result<(), String>)
    ensures
        len > MAX_INPUT_BYTES ==> is_err_with(r, msg_too_large()),
        len <= MAX_INPUT_BYTES ==> r is Ok,
{
    if len > MAX_INPUT_BYTES {
        return Err("input exceeds 8 MiB".to_owned());
    }
    Ok(())
}

/// The observation as the evaluation re-labels it: the same record with its
/// freshness judged against the clock.
pub open spec fn judged(o: FlowObservationView, ev_now: Seq<char>, max_age: int, declared: Freshness) -> FlowObservationView {
    FlowObservationView {
        freshness: freshness_spec(age_nanos(rfc3339_age(ev_now, o.observed_at)), max_age, declared),
        ..o
    }
}

/// Admits an imported observation, after it has been decoded: it must pass
/// `validate`, its freshness is judged against the evaluation, and it is
/// labelled as an imported assertion whatever its provenance claims.
pub fn admit_observation(observation: FlowObservation, evaluation: &Evaluation) -> (r: Result<Evidence, String>)
    ensures
        validate_spec(observation@) matches Err(m) ==> is_err_with(r, m),
        validate_spec(observation@) is Ok ==> (r matches Ok(e) && e@ == EvidenceView {
            observation: judged(observation@, evaluation.now_text(), evaluation.max_age(), observation.freshness),
            origin: Origin::Imported,
            declared_freshness: observation.freshness,
        }),
{
    let mut observation = observation;
    match validate(&observation) {
        Err(e) => return Err(e),
        Ok(()) => {},
    }
    let declared = observation.freshness;
    let judged = evaluation.freshness(observation.observed_at.as_str(), declared);
    match judged {
        Err(e) => Err(e),
        Ok(f) => {
            observation.freshness = f;
            Ok(make_evidence(observation, Origin::Imported, declared))
        }
    }
}

} // verus!
