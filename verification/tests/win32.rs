use blueshoes::flow::win32::{table_step, TableAction, ERROR_INSUFFICIENT_BUFFER};
use blueshoes::flow::win32::{
    collect_with, collector_scope, ipv4_row, ipv6_row, sample_snapshot_id, smoke_counts, unknown_endpoint, Ipv4Row,
    Ipv6Row, Query, QueryCall,
    SocketRow, TableBuffer,
};

struct FakeQuery {
    phase: u8,
    before: Option<u64>,
    after: Option<u64>,
    fail_sample: bool,
    new_pid: bool,
    calls: Vec<String>,
}

impl Query for FakeQuery {
    // The log that the library's contracts speak of; it exists only for the
    // verifier, and nothing reads it when the tests run.
    fn answered(&self) -> vstd::seq::Seq<QueryCall> {
        unreachable!()
    }

    fn rows(&mut self) -> Result<Vec<SocketRow>, String> {
        self.phase += 1;
        self.calls.push(format!("rows-{}", self.phase));
        if self.fail_sample && self.phase == 2 {
            return Err("injected query failure".into());
        }
        Ok(vec![SocketRow {
            pid: if self.new_pid && self.phase == 2 { 2 } else { 1 },
            source: unknown_endpoint(),
            destination: unknown_endpoint(),
        }])
    }

    fn birth(&mut self, pid: u32) -> Option<u64> {
        self.calls.push(format!("birth-{pid}-{}", self.phase));
        if self.phase == 1 {
            self.before
        } else {
            self.after
        }
    }

    fn now(&mut self) -> String {
        "2026-09-06T00:00:00Z".to_string()
    }
}

fn fake(before: Option<u64>, after: Option<u64>) -> FakeQuery {
    FakeQuery { phase: 0, before, after, fail_sample: false, new_pid: false, calls: vec![] }
}

fn collect(query: &mut FakeQuery) -> Result<blueshoes::flow::adapters::ObservationBatch, String> {
    collect_with(query, &collector_scope(42, 1_000_000_007, 3), &sample_snapshot_id(3))
}

#[test]
fn identity_queries_bracket_authoritative_snapshot() {
    let mut query = fake(Some(123), Some(123));
    let batch = collect(&mut query).unwrap();
    assert!(batch.observations[0].observation().process_ref.is_some());
    assert_eq!(query.calls, ["rows-1", "birth-1-1", "rows-2", "birth-1-2"]);
}

#[test]
fn missing_rebound_or_new_pid_cannot_bind() {
    for (before, after) in [(None, Some(1)), (Some(1), None), (Some(1), Some(2)), (Some(0), Some(0))] {
        let batch = collect(&mut fake(before, after)).unwrap();
        assert!(batch.observations[0].observation().process_ref.is_none());
    }
    let mut query = fake(Some(1), Some(1));
    query.new_pid = true;
    assert!(collect(&mut query).unwrap().observations[0].observation().process_ref.is_none());
}

#[test]
fn query_failure_is_error_not_successful_empty_batch() {
    let mut query = fake(Some(1), Some(1));
    query.fail_sample = true;
    assert!(collect(&mut query).is_err());
}

#[test]
fn tcp_bytes_and_listener_peer_are_not_fabricated() {
    let row = ipv4_row(&Ipv4Row {
        state: 2,
        local_addr: u32::from_ne_bytes([127, 0, 0, 1]),
        local_port: u32::from(443u16.to_be()),
        remote_addr: 123,
        remote_port: 123,
        owning_pid: 1,
    });
    assert_eq!(row.source.address.as_deref(), Some("127.0.0.1"));
    assert_eq!(row.source.port, Some(443));
    assert_eq!(row.destination.address, None);
    assert_eq!(row.destination.port, None);
    let batch = collect(&mut fake(Some(1), Some(1))).unwrap();
    assert_eq!(batch.observations[0].observation().counters.bytes_up, None);
    assert_eq!(batch.observations[0].observation().counters.bytes_down, None);
}

#[test]
fn ipv6_scopes_and_port_byte_order_survive() {
    let mut local = [0u8; 16];
    local[0] = 0xfe;
    local[1] = 0x80;
    local[15] = 1;
    let mut remote = local;
    remote[15] = 2;
    let row = ipv6_row(&Ipv6Row {
        local_addr: local,
        local_scope_id: 3u32.to_be(),
        local_port: u32::from(50000u16.to_be()),
        remote_addr: remote,
        remote_scope_id: 4u32.to_be(),
        remote_port: u32::from(443u16.to_be()),
        state: 5,
        owning_pid: 1,
    });
    assert_eq!(row.source.address.as_deref(), Some("fe80::1%3"));
    assert_eq!(row.source.port, Some(50000));
    assert_eq!(row.destination.address.as_deref(), Some("fe80::2%4"));
    assert_eq!(row.destination.port, Some(443));
}

#[test]
fn corrupt_table_sizes_reject_before_pointer_read() {
    let row_size = 24;
    for buffer in [
        TableBuffer { words: vec![1], used: 4 },
        TableBuffer { words: vec![u32::MAX], used: 4 },
        TableBuffer { words: vec![], used: 0 },
        TableBuffer { words: vec![0], used: 8 },
    ] {
        assert!(buffer.row_count(4, row_size).is_err());
    }
    assert_eq!(TableBuffer { words: vec![0], used: 4 }.row_count(4, row_size).unwrap(), 0);
    assert_eq!(TableBuffer { words: vec![2, 0, 0, 0, 0, 0, 0, 0, 0, 0, 0, 0, 0], used: 52 }.row_count(4, row_size).unwrap(), 2);
    assert_eq!(
        TableBuffer { words: vec![], used: 0 }.row_count(4, row_size).unwrap_err(),
        "invalid TCP table header size"
    );
    assert_eq!(collector_scope(7, 12, 3), "win32-7-12-3");
    assert_eq!(sample_snapshot_id(3), "sample-3");
}

#[test]
fn smoke_counts_split_rows() {
    let batch = collect(&mut fake(Some(5), Some(5))).unwrap();
    let c = smoke_counts(&batch.observations);
    assert_eq!(c.tcp_rows, 1);
    assert_eq!(c.process_bound, 1);
    assert_eq!(c.process_unknown, 0);
    assert_eq!(c.ipv6_rows, 0);
    assert_eq!(c.ipv4_rows, 1);
    let unbound = collect(&mut fake(None, Some(5))).unwrap();
    assert_eq!(smoke_counts(&unbound.observations).process_unknown, 1);
}

#[test]
fn table_reads_follow_the_size_the_system_asks() {
    assert!(matches!(table_step(ERROR_INSUFFICIENT_BUFFER, 10, None, 0), TableAction::Fill { words: 3 }));
    assert!(matches!(table_step(0, 10, Some(3), 1), TableAction::Done { used: 10 }));
    match table_step(5, 0, None, 0) {
        TableAction::Fail(m) => assert_eq!(m, "TCP table size query failed: 5"),
        _ => panic!("a failed size query is an error"),
    }
    match table_step(0, 13, Some(3), 1) {
        TableAction::Fail(m) => assert_eq!(m, "TCP table exceeds allocation"),
        _ => panic!("a table larger than its buffer is an error"),
    }
    match table_step(87, 12, Some(3), 1) {
        TableAction::Fail(m) => assert_eq!(m, "TCP table query failed: 87"),
        _ => panic!("a failed fill is an error"),
    }
    assert!(matches!(table_step(ERROR_INSUFFICIENT_BUFFER, 40, Some(3), 1), TableAction::Fill { words: 10 }));
    match table_step(ERROR_INSUFFICIENT_BUFFER, 40, Some(10), 3) {
        TableAction::Fail(m) => assert_eq!(m, "TCP table changed across bounded resize retries"),
        _ => panic!("the retries are bounded"),
    }
    match table_step(ERROR_INSUFFICIENT_BUFFER, 16 * 1024 * 1024 + 1, None, 0) {
        TableAction::Fail(m) => assert_eq!(m, "TCP table allocation limit"),
        _ => panic!("an oversized table is refused"),
    }
}
