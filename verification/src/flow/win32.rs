//! The Windows TCP-table collector, without the system calls: the checks on
//! a table before any row is read, the conversion of raw rows (addresses as
//! the host stores them, ports and scopes in network byte order), and the
//! bracketing of one authoritative sample between two rounds of process
//! identity queries, so that a PID reused or first seen mid-sample cannot
//! bind.
use vstd::prelude::*;
use crate::flow::adapters::{
    identity_spec, normalize, normalized, BirthKind, Gate, NativeRecord, NativeRecordView, NativeSample, NativeSampleView,
    ObservationBatch, ProcessEvidence,
};
use crate::flow::model::{
    msg_bad_timestamp, AddressState, Counters, Endpoint, EndpointView, Evaluation, Evidence, Freshness, MatchState,
    Origin, Platform, Policy, Route, RouteState, MAX_RECORDS,
};
use crate::clock::rfc3339_valid;
use crate::text::is_err_with;
use crate::ip::{ip_text, ip_to_text, ipv4_text, ipv6_text, IpAddr, IpView};
use crate::text::{decimal, owned, push_char, push_decimal, push_decimal_wide, push_str, text_with};

verus! {

/// The state of a listening socket in the TCP table.
pub const LISTEN: u32 = 2;

/// The status `GetExtendedTcpTable` gives when the buffer is too small.
pub const ERROR_INSUFFICIENT_BUFFER: u32 = 122;

/// The largest table the collector allocates, in bytes.
pub const MAX_TABLE_BYTES: u32 = 16777216;

/// How many times the collector fills a buffer before it gives up on a
/// table that keeps growing.
pub const MAX_ATTEMPTS: usize = 3;

/// What the collector does next to read a TCP table.
pub enum TableAction {
    /// Allocate `words` DWORDs and ask the table into them.
    Fill { words: usize },
    /// The table is read; `used` bytes hold data.
    Done { used: usize },
    /// The read fails with this message.
    Fail(String),
}

pub enum TableActionView {
    Fill(nat),
    Done(nat),
    Fail(Seq<char>),
}

pub open spec fn table_action_view(a: TableAction) -> TableActionView {
    match a {
        TableAction::Fill { words } => TableActionView::Fill(words as nat),
        TableAction::Done { used } => TableActionView::Done(used as nat),
        TableAction::Fail(m) => TableActionView::Fail(m@),
    }
}

/// A buffer for a table of `size` bytes, after `fills` buffers were filled:
/// refused once the attempts are spent or the size is out of bounds, else
/// the size rounded up to whole DWORDs.
pub open spec fn allocation_spec(size: u32, fills: usize) -> TableActionView {
    if fills >= MAX_ATTEMPTS {
        TableActionView::Fail("TCP table changed across bounded resize retries"@)
    } else if size < 4 || size > MAX_TABLE_BYTES {
        TableActionView::Fail("TCP table allocation limit"@)
    } else {
        TableActionView::Fill(((size + 3) / 4) as nat)
    }
}

/// The next step after a call of `GetExtendedTcpTable` answered `status`
/// and `size`: the size query (`filled` is `None`) or the fill of a buffer
/// of `filled` DWORDs, the `fills`th. A size query must succeed or ask for
/// a bigger buffer; a fill that succeeds ends the read, unless it claims
/// more bytes than the buffer holds; a fill that asks for more is tried
/// again with the new size.
pub open spec fn table_step_spec(status: u32, size: u32, filled: Option<usize>, fills: usize) -> TableActionView {
    match filled {
        None => if status != ERROR_INSUFFICIENT_BUFFER && status != 0 {
            TableActionView::Fail("TCP table size query failed: "@ + decimal(status as nat))
        } else {
            allocation_spec(size, fills)
        },
        Some(w) => if status == 0 {
            if size > w * 4 {
                TableActionView::Fail("TCP table exceeds allocation"@)
            } else {
                TableActionView::Done(size as nat)
            }
        } else if status != ERROR_INSUFFICIENT_BUFFER {
            TableActionView::Fail("TCP table query failed: "@ + decimal(status as nat))
        } else {
            allocation_spec(size, fills)
        },
    }
}

fn allocation(size: u32, fills: usize) -> (a: TableAction)
    ensures
        table_action_view(a) == allocation_spec(size, fills),
{
    if fills >= MAX_ATTEMPTS {
        TableAction::Fail(owned("TCP table changed across bounded resize retries"))
    } else if size < 4 || size > MAX_TABLE_BYTES {
        TableAction::Fail(owned("TCP table allocation limit"))
    } else {
        TableAction::Fill { words: ((size as usize) + 3) / 4 }
    }
}

/// Decides the next step of reading a TCP table from what the last call of
/// `GetExtendedTcpTable` answered.
pub fn table_step(status: u32, size: u32, filled: Option<usize>, fills: usize) -> (a: TableAction)
    ensures
        table_action_view(a) == table_step_spec(status, size, filled, fills),
{
    match filled {
        None => {
            if status != ERROR_INSUFFICIENT_BUFFER && status != 0 {
                let mut m = owned("TCP table size query failed: ");
                push_decimal(&mut m, status as u64);
                TableAction::Fail(m)
            } else {
                allocation(size, fills)
            }
        },
        Some(w) => {
            if status == 0 {
                let exceeds = if w >= 1073741824 {
                    false
                } else {
                    (size as u64) > (w as u64) * 4
                };
                if exceeds {
                    TableAction::Fail(owned("TCP table exceeds allocation"))
                } else {
                    TableAction::Done { used: size as usize }
                }
            } else if status != ERROR_INSUFFICIENT_BUFFER {
                let mut m = owned("TCP table query failed: ");
                push_decimal(&mut m, status as u64);
                TableAction::Fail(m)
            } else {
                allocation(size, fills)
            }
        },
    }
}

/// A TCP table as the system filled it: DWORD words, of which `used` bytes
/// hold data.
pub struct TableBuffer {
    pub words: Vec<u32>,
    pub used: usize,
}

/// How many rows of `row_size` bytes, starting at byte `offset`, a table
/// holds: its first word, once the header, the arithmetic and the extent of
/// every row are checked.
pub open spec fn row_count_spec(words: Seq<u32>, used: int, offset: int, row_size: int) -> Result<int, Seq<char>> {
    if used < 4 || used > words.len() * 4 {
        Err("invalid TCP table header size"@)
    } else if words[0] * row_size > usize::MAX || offset + words[0] * row_size > usize::MAX {
        Err("TCP table size overflow"@)
    } else if words[0] > MAX_RECORDS || offset + words[0] * row_size > used {
        Err("invalid TCP table row count"@)
    } else {
        Ok(words[0] as int)
    }
}

impl TableBuffer {
    /// The number of rows the table holds, checked before any row is read.
    pub fn row_count(&self, offset: usize, row_size: usize) -> (r: Result<usize, String>)
        ensures
            match (r, row_count_spec(self.words@, self.used as int, offset as int, row_size as int)) {
                (Ok(c), Ok(n)) => c == n,
                (Err(m), Err(e)) => m@ == e,
                _ => false,
            },
    {
        let header_ok = match self.words.len().checked_mul(4) {
            Some(cap) => self.used >= 4 && self.used <= cap,
            None => self.used >= 4,
        };
        if !header_ok {
            return Err(owned("invalid TCP table header size"));
        }
        let count = self.words[0] as usize;
        let end = match count.checked_mul(row_size) {
            Some(n) => match offset.checked_add(n) {
                Some(e) => e,
                None => return Err(owned("TCP table size overflow")),
            },
            None => return Err(owned("TCP table size overflow")),
        };
        if count > MAX_RECORDS || end > self.used {
            return Err(owned("invalid TCP table row count"));
        }
        Ok(count)
    }
}

/// One socket of the table: its owner and its two ends.
pub struct SocketRow {
    pub pid: u32,
    pub source: Endpoint,
    pub destination: Endpoint,
}

pub struct SocketRowView {
    pub pid: u32,
    pub source: EndpointView,
    pub destination: EndpointView,
}

impl View for SocketRow {
    type V = SocketRowView;

    open spec fn view(&self) -> SocketRowView {
        SocketRowView { pid: self.pid, source: self.source@, destination: self.destination@ }
    }
}

/// An end the table does not know (the peer of a listener).
pub open spec fn unknown_endpoint_spec() -> EndpointView {
    EndpointView { address_state: AddressState::Unknown, address: None, port: None, domain: None }
}

pub fn unknown_endpoint() -> (e: Endpoint)
    ensures
        e@ == unknown_endpoint_spec(),
{
    Endpoint { address_state: AddressState::Unknown, address: None, port: None, domain: None }
}

/// A 16-bit value read in network byte order on a little-endian host.
pub open spec fn swap16(x: int) -> int {
    (x % 256) * 256 + x / 256
}

/// A 32-bit value read in network byte order on a little-endian host.
pub open spec fn swap32(x: int) -> int {
    (x % 256) * 16777216 + ((x / 256) % 256) * 65536 + ((x / 65536) % 256) * 256 + x / 16777216
}

/// An end at `address`; the table's port word holds the port in network
/// byte order in its low half.
pub open spec fn endpoint_spec(address: Seq<char>, raw_port: u32, unspecified: bool) -> EndpointView {
    EndpointView {
        address_state: if unspecified { AddressState::Partial } else { AddressState::Known },
        address: Some(address),
        port: Some(swap16(raw_port as int % 65536) as u16),
        domain: None,
    }
}

pub fn endpoint(address: String, raw_port: u32, unspecified: bool) -> (e: Endpoint)
    ensures
        e@ == endpoint_spec(address@, raw_port, unspecified),
{
    let low: u32 = raw_port % 65536;
    let port = ((low % 256) * 256 + low / 256) as u16;
    Endpoint {
        address_state: if unspecified { AddressState::Partial } else { AddressState::Known },
        address: Some(address),
        port: Some(port),
        domain: None,
    }
}

/// The eight groups of a 16-byte address.
pub open spec fn groups_of(b: Seq<u8>) -> Seq<u16> {
    Seq::new(8, |i: int| (b[2 * i] * 256 + b[2 * i + 1]) as u16)
}

/// An IPv6 address as text, with `%scope` when the scope (in network byte
/// order) is not zero.
pub open spec fn ipv6_address_spec(bytes: Seq<u8>, raw_scope: u32) -> Seq<char> {
    let scope = swap32(raw_scope as int);
    if scope == 0 {
        ipv6_text(groups_of(bytes))
    } else {
        ipv6_text(groups_of(bytes)) + seq!['%'] + decimal(scope as nat)
    }
}

pub fn ipv6_address(bytes: [u8; 16], raw_scope: u32) -> (s: String)
    ensures
        s@ == ipv6_address_spec(bytes@, raw_scope),
{
    let mut groups: Vec<u16> = Vec::new();
    let mut i: usize = 0;
    while i < 8
        invariant
            i <= 8,
            bytes@.len() == 16,
            groups@.len() == i,
            forall|k: int| 0 <= k < i ==> groups@[k] == (bytes@[2 * k] * 256 + bytes@[2 * k + 1]) as u16,
        decreases 8 - i,
    {
        groups.push(bytes[2 * i] as u16 * 256 + bytes[2 * i + 1] as u16);
        i = i + 1;
    }
    assert(groups@ =~= groups_of(bytes@));
    let a = IpAddr::V6(groups);
    let mut s = ip_to_text(&a);
    let scope: u32 = (raw_scope % 256) * 16777216 + ((raw_scope / 256) % 256) * 65536 + ((raw_scope / 65536) % 256)
        * 256 + raw_scope / 16777216;
    if scope != 0 {
        push_char(&mut s, '%');
        push_decimal(&mut s, scope as u64);
    }
    s
}

/// The bytes a host stores an IPv4 address word in, low byte first.
pub open spec fn le_octets(x: u32) -> Seq<u8> {
    seq![(x % 256) as u8, ((x / 256) % 256) as u8, ((x / 65536) % 256) as u8, (x / 16777216) as u8]
}

fn ipv4_word_text(x: u32) -> (s: String)
    ensures
        s@ == ipv4_text(le_octets(x)),
{
    let q: Vec<u8> = vec![(x % 256) as u8, ((x / 256) % 256) as u8, ((x / 65536) % 256) as u8, (x / 16777216) as u8];
    assert(q@ =~= le_octets(x));
    ip_to_text(&IpAddr::V4(q))
}

/// A row of the IPv4 TCP table.
pub struct Ipv4Row {
    pub state: u32,
    pub local_addr: u32,
    pub local_port: u32,
    pub remote_addr: u32,
    pub remote_port: u32,
    pub owning_pid: u32,
}

/// A row of the IPv6 TCP table.
pub struct Ipv6Row {
    pub local_addr: [u8; 16],
    pub local_scope_id: u32,
    pub local_port: u32,
    pub remote_addr: [u8; 16],
    pub remote_scope_id: u32,
    pub remote_port: u32,
    pub state: u32,
    pub owning_pid: u32,
}

/// The socket an IPv4 row describes; a listener has no known peer.
pub fn ipv4_row(row: &Ipv4Row) -> (r: SocketRow)
    ensures
        r@.pid == row.owning_pid,
        r@.source == endpoint_spec(ipv4_text(le_octets(row.local_addr)), row.local_port, row.local_addr == 0),
        r@.destination == if row.state == LISTEN {
            unknown_endpoint_spec()
        } else {
            endpoint_spec(ipv4_text(le_octets(row.remote_addr)), row.remote_port, row.remote_addr == 0)
        },
{
    let source = endpoint(ipv4_word_text(row.local_addr), row.local_port, row.local_addr == 0);
    let destination = if row.state == LISTEN {
        unknown_endpoint()
    } else {
        endpoint(ipv4_word_text(row.remote_addr), row.remote_port, row.remote_addr == 0)
    };
    SocketRow { pid: row.owning_pid, source, destination }
}

fn all_zero(b: &[u8; 16]) -> (r: bool)
    ensures
        r == (b@ == Seq::new(16, |i: int| 0u8)),
{
    let mut i: usize = 0;
    while i < 16
        invariant
            i <= 16,
            b@.len() == 16,
            forall|k: int| 0 <= k < i ==> b@[k] == 0,
        decreases 16 - i,
    {
        if b[i] != 0 {
            assert(Seq::new(16, |i: int| 0u8)[i as int] == 0);
            return false;
        }
        i = i + 1;
    }
    assert(b@ =~= Seq::new(16, |i: int| 0u8));
    true
}

/// The socket an IPv6 row describes; a listener has no known peer.
pub fn ipv6_row(row: &Ipv6Row) -> (r: SocketRow)
    ensures
        r@.pid == row.owning_pid,
        r@.source == endpoint_spec(
            ipv6_address_spec(row.local_addr@, row.local_scope_id),
            row.local_port,
            row.local_addr@ == Seq::new(16, |i: int| 0u8),
        ),
        r@.destination == if row.state == LISTEN {
            unknown_endpoint_spec()
        } else {
            endpoint_spec(
                ipv6_address_spec(row.remote_addr@, row.remote_scope_id),
                row.remote_port,
                row.remote_addr@ == Seq::new(16, |i: int| 0u8),
            )
        },
{
    let source = endpoint(
        ipv6_address(row.local_addr, row.local_scope_id),
        row.local_port,
        all_zero(&row.local_addr),
    );
    let destination = if row.state == LISTEN {
        unknown_endpoint()
    } else {
        endpoint(ipv6_address(row.remote_addr, row.remote_scope_id), row.remote_port, all_zero(&row.remote_addr))
    };
    SocketRow { pid: row.owning_pid, source, destination }
}

/// What the collector asks of the system: the socket table, a process's
/// birth time, and the clock (RFC 3339). Nothing is assumed of the answers.
/// One answered query: a read of the TCP table, the birth asked for a PID,
/// or a reading of the clock.
pub enum QueryCall {
    Rows(Result<Seq<SocketRowView>, Seq<char>>),
    Birth(u32, Option<u64>),
    Now(Seq<char>),
}

pub open spec fn rows_view(r: Result<Vec<SocketRow>, String>) -> Result<Seq<SocketRowView>, Seq<char>> {
    match r {
        Ok(v) => Ok(row_views(v@)),
        Err(e) => Err(e@),
    }
}

/// The host's process and socket tables, and its clock. Each method adds
/// its call, with what it answered, to the log `answered`.
pub trait Query {
    /// The calls answered so far, oldest first.
    spec fn answered(&self) -> Seq<QueryCall>;

    fn rows(&mut self) -> (r: Result<Vec<SocketRow>, String>)
        ensures
            final(self).answered() == old(self).answered().push(QueryCall::Rows(rows_view(r))),
    ;

    fn birth(&mut self, pid: u32) -> (r: Option<u64>)
        ensures
            final(self).answered() == old(self).answered().push(QueryCall::Birth(pid, r)),
    ;

    fn now(&mut self) -> (r: String)
        ensures
            final(self).answered() == old(self).answered().push(QueryCall::Now(r@)),
    ;
}

/// The birth recorded for `pid`, if one was recorded.
pub open spec fn birth_of(m: Seq<(u32, Option<u64>)>, pid: u32) -> Option<u64>
    decreases m.len(),
{
    if m.len() == 0 {
        None
    } else if m[0].0 == pid {
        m[0].1
    } else {
        birth_of(m.drop_first(), pid)
    }
}

pub open spec fn row_views(rows: Seq<SocketRow>) -> Seq<SocketRowView> {
    rows.map_values(|r: SocketRow| r@)
}

/// The record of the sample's `i`th row: its process bracketed by the
/// births before and after the sample; of TCP nothing but the two ends is
/// claimed.
pub open spec fn bracketed_record(
    row: SocketRowView,
    i: int,
    before: Seq<(u32, Option<u64>)>,
    after: Seq<(u32, Option<u64>)>,
) -> NativeRecordView {
    NativeRecordView {
        record_id: decimal(i as nat),
        process: Some(
            ProcessEvidence {
                pid: row.pid,
                kind: BirthKind::Win32Creation100ns,
                birth_before: birth_of(before, row.pid),
                birth_after: birth_of(after, row.pid),
            },
        ),
        source: row.source,
        destination: row.destination,
        protocol: "tcp"@,
        counters: (None, None, None, None),
        policy: (MatchState::Unknown, None, None),
        route: (RouteState::Unknown, None, None, None),
        display_location: None,
    }
}

/// The sample made of the authoritative rows.
pub open spec fn bracketed_sample_spec(
    rows: Seq<SocketRowView>,
    before: Seq<(u32, Option<u64>)>,
    after: Seq<(u32, Option<u64>)>,
    scope: Seq<char>,
    snapshot: Seq<char>,
    observed_at: Seq<char>,
) -> NativeSampleView {
    NativeSampleView {
        platform: Platform::Win32,
        collector_scope: scope,
        snapshot_id: snapshot,
        observed_at,
        freshness: Freshness::Fresh,
        records: Seq::new(rows.len(), |i: int| bracketed_record(rows[i], i, before, after)),
    }
}

fn birth_lookup(m: &Vec<(u32, Option<u64>)>, pid: u32) -> (r: Option<u64>)
    ensures
        r == birth_of(m@, pid),
{
    let mut i: usize = 0;
    assert(m@.skip(0) =~= m@);
    while i < m.len()
        invariant
            i <= m@.len(),
            birth_of(m@, pid) == birth_of(m@.skip(i as int), pid),
        decreases m.len() - i,
    {
        assert(m@.skip(i as int)[0] == m@[i as int]);
        assert(m@.skip(i as int).drop_first() =~= m@.skip(i + 1));
        if m[i].0 == pid {
            return m[i].1;
        }
        i = i + 1;
    }
    None
}

/// Builds the sample of the authoritative rows.
pub fn bracketed_sample(
    rows: &Vec<SocketRow>,
    before: &Vec<(u32, Option<u64>)>,
    after: &Vec<(u32, Option<u64>)>,
    scope: &str,
    snapshot: &str,
    observed_at: &str,
) -> (s: NativeSample)
    ensures
        s@ == bracketed_sample_spec(row_views(rows@), before@, after@, scope@, snapshot@, observed_at@),
{
    let ghost rv = row_views(rows@);
    let mut records: Vec<NativeRecord> = Vec::new();
    let mut i: usize = 0;
    while i < rows.len()
        invariant
            rv == row_views(rows@),
            i <= rows@.len(),
            records@.len() == i,
            forall|k: int| 0 <= k < i ==> (#[trigger] records@[k])@ == bracketed_record(rv[k], k, before@, after@),
        decreases rows.len() - i,
    {
        let row = &rows[i];
        let mut id = String::new();
        push_decimal(&mut id, i as u64);
        assert(id@ =~= decimal(i as nat));
        let record = NativeRecord {
            record_id: id,
            process: Some(
                ProcessEvidence {
                    pid: row.pid,
                    kind: BirthKind::Win32Creation100ns,
                    birth_before: birth_lookup(before, row.pid),
                    birth_after: birth_lookup(after, row.pid),
                },
            ),
            source: row.source.clone(),
            destination: row.destination.clone(),
            protocol: owned("tcp"),
            counters: Counters { bytes_up: None, bytes_down: None, rate_up_bps: None, rate_down_bps: None },
            policy: Policy { match_state: MatchState::Unknown, rule_ref: None, decision: None },
            route: Route { state: RouteState::Unknown, interface_ref: None, egress_ref: None, tunnel_ref: None },
            display_location: None,
        };
        assert(record@ == bracketed_record(rv[i as int], i as int, before@, after@));
        records.push(record);
        i = i + 1;
    }
    let s = NativeSample {
        platform: Platform::Win32,
        collector_scope: owned(scope),
        snapshot_id: owned(snapshot),
        observed_at: owned(observed_at),
        freshness: Freshness::Fresh,
        records,
    };
    assert(s@.records =~= bracketed_sample_spec(rv, before@, after@, scope@, snapshot@, observed_at@).records);
    s
}

/// The owners of the rows, each once, in increasing order.
pub open spec fn pid_set(rows: Seq<SocketRowView>, p: u32) -> bool {
    exists|i: int| 0 <= i < rows.len() && #[trigger] rows[i].pid == p
}

pub open spec fn increasing(v: Seq<u32>) -> bool {
    forall|i: int, j: int| 0 <= i < j < v.len() ==> #[trigger] v[i] < #[trigger] v[j]
}

/// The distinct owners of `rows`, in increasing order: the order in which
/// their births are asked for.
pub fn distinct_pids(rows: &Vec<SocketRow>) -> (r: Vec<u32>)
    ensures
        increasing(r@),
        forall|p: u32| r@.contains(p) <==> pid_set(row_views(rows@), p),
{
    let ghost rv = row_views(rows@);
    let mut out: Vec<u32> = Vec::new();
    let mut i: usize = 0;
    while i < rows.len()
        invariant
            rv == row_views(rows@),
            i <= rows@.len(),
            increasing(out@),
            forall|p: u32| out@.contains(p) <==> pid_set(rv.take(i as int), p),
        decreases rows.len() - i,
    {
        let pid = rows[i].pid;
        assert(rv[i as int].pid == pid);
        let mut k: usize = 0;
        while k < out.len() && out[k] < pid
            invariant
                k <= out@.len(),
                increasing(out@),
                forall|j: int| 0 <= j < k ==> out@[j] < pid,
            decreases out.len() - k,
        {
            k = k + 1;
        }
        let ghost before = out@;
        if k < out.len() && out[k] == pid {
        } else {
            out.insert(k, pid);
            assert(out@ =~= before.insert(k as int, pid));
            assert forall|a: int, b: int| 0 <= a < b < out@.len() implies #[trigger] out@[a] < #[trigger] out@[b] by {
                if b < k {
                } else if a < k && b == k {
                } else if a < k && b > k {
                    assert(out@[b] == before[b - 1]);
                    if k < before.len() {
                        assert(pid < before[k as int]);
                        if b - 1 > k {
                            assert(before[k as int] < before[b - 1]);
                        }
                    }
                } else if a == k {
                    assert(out@[b] == before[b - 1]);
                    assert(pid < before[k as int]);
                    if b - 1 > k {
                        assert(before[k as int] < before[b - 1]);
                    }
                } else {
                    assert(out@[a] == before[a - 1] && out@[b] == before[b - 1]);
                }
            }
        }
        assert forall|p: u32| out@.contains(p) <==> pid_set(rv.take(i + 1), p) by {
            let t = rv.take(i + 1);
            if pid_set(t, p) {
                let w = choose|w: int| 0 <= w < t.len() && #[trigger] t[w].pid == p;
                if w < i {
                    assert(rv.take(i as int)[w] == t[w]);
                    assert(pid_set(rv.take(i as int), p));
                    assert(before.contains(p));
                    let x = choose|x: int| 0 <= x < before.len() && before[x] == p;
                    if out@.len() == before.len() {
                        assert(out@[x] == p);
                    } else if x < k {
                        assert(out@[x] == p);
                    } else {
                        assert(out@[x + 1] == p);
                    }
                } else {
                    assert(p == pid);
                    if out@.len() == before.len() {
                        assert(out@[k as int] == p);
                    } else {
                        assert(out@[k as int] == p);
                    }
                }
            }
            if out@.contains(p) {
                let x = choose|x: int| 0 <= x < out@.len() && out@[x] == p;
                if p == pid {
                    assert(t[i as int].pid == p);
                } else {
                    if out@.len() == before.len() {
                        assert(before[x] == p);
                    } else if x < k {
                        assert(before[x] == p);
                    } else {
                        assert(x != k);
                        assert(before[x - 1] == p);
                    }
                    assert(before.contains(p));
                    assert(pid_set(rv.take(i as int), p));
                    let w = choose|w: int| 0 <= w < i && #[trigger] rv.take(i as int)[w].pid == p;
                    assert(t[w].pid == p);
                }
            }
        }
        i = i + 1;
    }
    assert(rv.take(i as int) =~= rv);
    out
}

/// What the collector reports of itself.
pub open spec fn native_gaps() -> Seq<Seq<char>> {
    seq![
        "UDP, counters, rates, route and policy collection NOT_EXECUTED"@,
        "Process binding is bracketed evidence; atomic socket lifetime/continuity NOT_EXECUTED"@,
    ]
}

/// A native collection's batch: the sample's evidence labelled native, the
/// gate open, the collector's gaps written down.
pub open spec fn native_outcome(r: Result<ObservationBatch, String>, s: NativeSampleView, ev: &Evaluation) -> bool {
    match r {
        Err(m) => normalized(Err(m), s, ev, Origin::Native),
        Ok(b) => {
            &&& b.platform == Platform::Win32
            &&& b.native_gate == Gate::Pass
            &&& b.gaps@.map_values(|g: String| g@) == native_gaps()
            &&& normalized(Ok(b.observations), s, ev, Origin::Native)
        },
    }
}

/// The batch of one bracketed sample.
pub fn native_batch(
    rows: &Vec<SocketRow>,
    before: &Vec<(u32, Option<u64>)>,
    after: &Vec<(u32, Option<u64>)>,
    scope: &str,
    snapshot: &str,
    started_at: &str,
    evaluation: &Evaluation,
) -> (r: Result<ObservationBatch, String>)
    ensures
        native_outcome(
            r,
            bracketed_sample_spec(row_views(rows@), before@, after@, scope@, snapshot@, started_at@),
            evaluation,
        ),
{
    let sample = bracketed_sample(rows, before, after, scope, snapshot, started_at);
    let observations = match normalize(sample, evaluation, Origin::Native) {
        Ok(o) => o,
        Err(e) => return Err(e),
    };
    let mut gaps: Vec<String> = Vec::new();
    gaps.push(owned("UDP, counters, rates, route and policy collection NOT_EXECUTED"));
    gaps.push(owned("Process binding is bracketed evidence; atomic socket lifetime/continuity NOT_EXECUTED"));
    assert(gaps@.map_values(|g: String| g@) =~= native_gaps());
    Ok(ObservationBatch { platform: Platform::Win32, native_gate: Gate::Pass, gaps, observations })
}

/// The PIDs that a round of births was asked for, in the order asked.
pub open spec fn pair_pids(m: Seq<(u32, Option<u64>)>) -> Seq<u32> {
    m.map_values(|x: (u32, Option<u64>)| x.0)
}

/// A round of birth queries as the log records it.
pub open spec fn birth_calls(m: Seq<(u32, Option<u64>)>) -> Seq<QueryCall> {
    m.map_values(|x: (u32, Option<u64>)| QueryCall::Birth(x.0, x.1))
}

/// A round asked for the distinct owners of `rows`, once each, in
/// increasing order of PID.
pub open spec fn round_for(m: Seq<(u32, Option<u64>)>, rows: Seq<SocketRowView>) -> bool {
    &&& increasing(pair_pids(m))
    &&& forall|p: u32| #[trigger] pair_pids(m).contains(p) <==> pid_set(rows, p)
}

fn births<Q: Query>(query: &mut Q, pids: &Vec<u32>) -> (r: Vec<(u32, Option<u64>)>)
    ensures
        pair_pids(r@) == pids@,
        final(query).answered() == old(query).answered() + birth_calls(r@),
{
    let ghost start = query.answered();
    let mut out: Vec<(u32, Option<u64>)> = Vec::new();
    let mut i: usize = 0;
    while i < pids.len()
        invariant
            i <= pids@.len(),
            out@.len() == i,
            forall|k: int| 0 <= k < i ==> (#[trigger] out@[k]).0 == pids@[k],
            query.answered() == start + birth_calls(out@),
        decreases pids.len() - i,
    {
        let b = query.birth(pids[i]);
        let ghost before = out@;
        out.push((pids[i], b));
        assert(birth_calls(out@) =~= birth_calls(before).push(QueryCall::Birth(pids@[i as int], b)));
        assert(start + birth_calls(out@) =~= (start + birth_calls(before)).push(QueryCall::Birth(pids@[i as int], b)));
        i = i + 1;
    }
    assert(pair_pids(out@) =~= pids@);
    out
}

/// The log of a collection that stopped after its discovery read.
pub open spec fn trace_read(d: Result<Seq<SocketRowView>, Seq<char>>) -> Seq<QueryCall> {
    seq![QueryCall::Rows(d)]
}

/// The log of a collection that read the discovery table `d`, asked the
/// first round `before`, read the clock (`started`) and the authoritative
/// table `rows`.
pub open spec fn trace_sampled(
    d: Seq<SocketRowView>,
    before: Seq<(u32, Option<u64>)>,
    started: Seq<char>,
    rows: Result<Seq<SocketRowView>, Seq<char>>,
) -> Seq<QueryCall> {
    trace_read(Ok(d)) + birth_calls(before) + seq![QueryCall::Now(started), QueryCall::Rows(rows)]
}

/// The log of a collection that went on to ask the second round `after`
/// and read the clock again (`finished`).
pub open spec fn trace_full(
    d: Seq<SocketRowView>,
    before: Seq<(u32, Option<u64>)>,
    started: Seq<char>,
    rows: Seq<SocketRowView>,
    after: Seq<(u32, Option<u64>)>,
    finished: Seq<char>,
) -> Seq<QueryCall> {
    trace_sampled(d, before, started, Ok(rows)) + birth_calls(after) + seq![QueryCall::Now(finished)]
}

/// What a collection asked, in order, and what it returned. The discovery
/// read comes first; a failed read ends the collection with its error, a
/// read of more than `MAX_RECORDS` rows with the row-limit error. The first
/// round of births asks the discovery read's owners, then the clock gives
/// the sample's time, then the authoritative read, then the second round
/// asks its owners, then the clock is read again. A finishing clock text
/// that is not RFC 3339 is the timestamp error; otherwise the batch is the
/// native outcome of the authoritative rows bracketed by the two rounds,
/// judged at the finishing time with a maximum age of 30 s.
pub open spec fn collected(t: Seq<QueryCall>, r: Result<ObservationBatch, String>, scope: Seq<char>, snapshot: Seq<char>) -> bool {
    ||| exists|e: Seq<char>| #[trigger] trace_read(Err(e)) == t && is_err_with(r, e)
    ||| exists|d: Seq<SocketRowView>|
        #[trigger] trace_read(Ok(d)) == t && d.len() > MAX_RECORDS && is_err_with(r, "discovery row limit"@)
    ||| exists|d: Seq<SocketRowView>, before: Seq<(u32, Option<u64>)>, started: Seq<char>, e: Seq<char>|
        #[trigger] trace_sampled(d, before, started, Err(e)) == t && d.len() <= MAX_RECORDS && round_for(before, d)
            && is_err_with(r, e)
    ||| exists|d: Seq<SocketRowView>, before: Seq<(u32, Option<u64>)>, started: Seq<char>, rows: Seq<SocketRowView>|
        #[trigger] trace_sampled(d, before, started, Ok(rows)) == t && d.len() <= MAX_RECORDS && round_for(before, d)
            && rows.len() > MAX_RECORDS && is_err_with(r, "snapshot row limit"@)
    ||| exists|
        d: Seq<SocketRowView>,
        before: Seq<(u32, Option<u64>)>,
        started: Seq<char>,
        rows: Seq<SocketRowView>,
        after: Seq<(u32, Option<u64>)>,
        finished: Seq<char>,
    |
        #[trigger] trace_full(d, before, started, rows, after, finished) == t && d.len() <= MAX_RECORDS
            && round_for(before, d) && rows.len() <= MAX_RECORDS && round_for(after, rows) && finished_outcome(
            r,
            rows,
            before,
            after,
            started,
            finished,
            scope,
            snapshot,
        )
}

/// The outcome once both rounds are asked and the clock read again.
pub open spec fn finished_outcome(
    r: Result<ObservationBatch, String>,
    rows: Seq<SocketRowView>,
    before: Seq<(u32, Option<u64>)>,
    after: Seq<(u32, Option<u64>)>,
    started: Seq<char>,
    finished: Seq<char>,
    scope: Seq<char>,
    snapshot: Seq<char>,
) -> bool {
    if !rfc3339_valid(finished) {
        is_err_with(r, msg_bad_timestamp())
    } else {
        exists|ev: Evaluation|
            #![trigger native_outcome(r, bracketed_sample_spec(rows, before, after, scope, snapshot, started), &ev)]
            ev.now_text() == finished && ev.max_age() == 30_000 && native_outcome(
                r,
                bracketed_sample_spec(rows, before, after, scope, snapshot, started),
                &ev,
            )
    }
}

/// Collects one bracketed sample: a discovery read of the table, the
/// births of its owners, the authoritative read, the births of its owners
/// again; each birth is asked fresh, in increasing order of PID.
pub fn collect_with<Q: Query>(query: &mut Q, scope: &str, snapshot: &str) -> (r: Result<ObservationBatch, String>)
    ensures
        r matches Ok(b) ==> b.platform == Platform::Win32 && b.native_gate == Gate::Pass && b.gaps@.map_values(
            |g: String| g@,
        ) == native_gaps(),
        exists|t: Seq<QueryCall>|
            #[trigger] collected(t, r, scope@, snapshot@) && final(query).answered() == old(query).answered() + t,
{
    let ghost log0 = query.answered();
    let discovery = match query.rows() {
        Ok(d) => d,
        Err(e) => {
            let ghost t = trace_read(Err(e@));
            assert(query.answered() =~= log0 + t);
            assert(collected(t, Err::<ObservationBatch, String>(e), scope@, snapshot@));
            return Err(e);
        },
    };
    let ghost d = row_views(discovery@);
    if discovery.len() > MAX_RECORDS {
        let ghost t = trace_read(Ok(d));
        assert(query.answered() =~= log0 + t);
        let r = Err(owned("discovery row limit"));
        assert(collected(t, r, scope@, snapshot@));
        return r;
    }
    let first_pids = distinct_pids(&discovery);
    let before = births(query, &first_pids);
    assert(round_for(before@, d));
    let started_at = query.now();
    let sampled = query.rows();
    let rows = match sampled {
        Ok(v) => v,
        Err(e) => {
            let ghost t = trace_sampled(d, before@, started_at@, Err(e@));
            assert(query.answered() =~= log0 + t);
            assert(collected(t, Err::<ObservationBatch, String>(e), scope@, snapshot@));
            return Err(e);
        },
    };
    let ghost rv = row_views(rows@);
    if rows.len() > MAX_RECORDS {
        let ghost t = trace_sampled(d, before@, started_at@, Ok(rv));
        assert(query.answered() =~= log0 + t);
        let r = Err(owned("snapshot row limit"));
        assert(collected(t, r, scope@, snapshot@));
        return r;
    }
    let second_pids = distinct_pids(&rows);
    let after = births(query, &second_pids);
    assert(round_for(after@, rv));
    let finished_at = query.now();
    let ghost t = trace_full(d, before@, started_at@, rv, after@, finished_at@);
    assert(query.answered() =~= log0 + t);
    let evaluation = match Evaluation::new(finished_at.as_str(), 30_000) {
        Ok(ev) => ev,
        Err(e) => {
            let r = Err(e);
            assert(collected(t, r, scope@, snapshot@));
            return r;
        },
    };
    let r = native_batch(&rows, &before, &after, scope, snapshot, started_at.as_str(), &evaluation);
    assert(finished_outcome(r, rv, before@, after@, started_at@, finished_at@, scope@, snapshot@));
    assert(collected(t, r, scope@, snapshot@));
    r
}

/// The collector's scope: the process, the time in nanoseconds since the
/// epoch, and the collection's sequence number.
pub fn collector_scope(process_id: u32, epoch_nanos: u128, sequence: u64) -> (s: String)
    ensures
        s@ == "win32-"@ + decimal(process_id as nat) + seq!['-'] + decimal(epoch_nanos as nat) + seq!['-'] + decimal(
            sequence as nat,
        ),
{
    let mut s = owned("win32-");
    push_decimal(&mut s, process_id as u64);
    push_char(&mut s, '-');
    push_decimal_wide(&mut s, epoch_nanos);
    push_char(&mut s, '-');
    push_decimal(&mut s, sequence);
    s
}

/// The snapshot of the collection with sequence number `sequence`.
pub fn sample_snapshot_id(sequence: u64) -> (s: String)
    ensures
        s@ == "sample-"@ + decimal(sequence as nat),
{
    let mut s = owned("sample-");
    push_decimal(&mut s, sequence);
    s
}

/// A socket's process binds only when its PID was seen, with the same
/// nonzero birth, both before and after the authoritative read: a PID
/// missing from either round, reborn in between, or born at zero binds to
/// no process.
pub proof fn law_unbracketed_process_cannot_bind(
    rows: Seq<SocketRowView>,
    before: Seq<(u32, Option<u64>)>,
    after: Seq<(u32, Option<u64>)>,
    scope: Seq<char>,
    snapshot: Seq<char>,
    observed_at: Seq<char>,
    i: int,
)
    requires
        0 <= i < rows.len(),
        !(birth_of(before, rows[i].pid) is Some && birth_of(before, rows[i].pid) == birth_of(after, rows[i].pid)
            && birth_of(before, rows[i].pid) != Some(0u64) && rows[i].pid != 0),
    ensures
        identity_spec(
            Platform::Win32,
            scope,
            bracketed_sample_spec(rows, before, after, scope, snapshot, observed_at).records[i].process,
        ) == Ok::<Option<Seq<char>>, Seq<char>>(None),
{
}

/// Evidence bound to a process.
pub open spec fn bound(e: Evidence) -> bool {
    e@.observation.process_ref is Some
}

/// Evidence whose source address is IPv6 (its text holds a `:`).
pub open spec fn ipv6_source(e: Evidence) -> bool {
    e@.observation.source.address matches Some(a) && a.contains(':')
}

/// How many of `v` are bound to a process.
pub open spec fn count_bound(v: Seq<Evidence>) -> nat
    decreases v.len(),
{
    if v.len() == 0 { 0 } else { count_bound(v.drop_last()) + if bound(v.last()) { 1nat } else { 0nat } }
}

/// How many of `v` have an IPv6 source.
pub open spec fn count_ipv6(v: Seq<Evidence>) -> nat
    decreases v.len(),
{
    if v.len() == 0 { 0 } else { count_ipv6(v.drop_last()) + if ipv6_source(v.last()) { 1nat } else { 0nat } }
}

proof fn lemma_counts_le(v: Seq<Evidence>)
    ensures
        count_bound(v) <= v.len(),
        count_ipv6(v) <= v.len(),
    decreases v.len(),
{
    if v.len() > 0 {
        lemma_counts_le(v.drop_last());
    }
}

/// The smoke summary of a batch: rows, of which IPv6, and bound to a process.
pub struct SmokeCounts {
    pub tcp_rows: usize,
    pub ipv4_rows: usize,
    pub ipv6_rows: usize,
    pub process_bound: usize,
    pub process_unknown: usize,
}

fn has_colon(s: &String) -> (r: bool)
    ensures
        r == s@.contains(':'),
{
    let cs = crate::text::chars_of(s.as_str());
    let mut i: usize = 0;
    while i < cs.len()
        invariant
            cs@ == s@,
            i <= cs@.len(),
            forall|k: int| 0 <= k < i ==> cs@[k] != ':',
        decreases cs.len() - i,
    {
        if cs[i] == ':' {
            assert(s@[i as int] == ':');
            return true;
        }
        i = i + 1;
    }
    false
}

/// Counts a batch's rows for the smoke report.
pub fn smoke_counts(observations: &Vec<Evidence>) -> (c: SmokeCounts)
    ensures
        c.tcp_rows == observations@.len(),
        c.ipv6_rows == count_ipv6(observations@),
        c.ipv4_rows == observations@.len() - c.ipv6_rows,
        c.process_bound == count_bound(observations@),
        c.process_unknown == observations@.len() - c.process_bound,
{
    let ghost v = observations@;
    let mut b: usize = 0;
    let mut six: usize = 0;
    let mut i: usize = 0;
    while i < observations.len()
        invariant
            v == observations@,
            i <= v.len(),
            b == count_bound(v.take(i as int)),
            six == count_ipv6(v.take(i as int)),
        decreases observations.len() - i,
    {
        proof {
            assert(v.take(i + 1).drop_last() =~= v.take(i as int));
            lemma_counts_le(v.take(i as int));
        }
        let o = observations[i].observation();
        let ghost e = v[i as int];
        assert(v.take(i + 1).last() == e);
        assert(o@ == e@.observation);
        assert(bound(e) == (o@.process_ref is Some));
        if o.process_ref.is_some() {
            b = b + 1;
        }
        let mut hit = false;
        match &o.source.address {
            Some(a) => {
                hit = has_colon(a);
            },
            None => {},
        }
        assert(ipv6_source(e) == hit);
        if hit {
            six = six + 1;
        }
        i = i + 1;
    }
    proof {
        assert(v.take(i as int) =~= v);
        lemma_counts_le(v);
    }
    SmokeCounts {
        tcp_rows: observations.len(),
        ipv4_rows: observations.len() - six,
        ipv6_rows: six,
        process_bound: b,
        process_unknown: observations.len() - b,
    }
}

} // verus!
