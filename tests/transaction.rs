use boltwire::{
    BoltRequest, BoltResponse, BoltType, Counters, Error, Exchange, Handle, ManagedConnection, Operation, Query,
    RowStream, RunResult, Step, Summary, Txn,
};

fn success(has_more: bool) -> BoltResponse {
    BoltResponse::Success(Summary { has_more, counters: Counters::default() })
}

fn failure() -> BoltResponse {
    BoltResponse::Failure { code: "Neo.ClientError".to_string(), message: "nope".to_string() }
}

fn open_txn(db: Option<&str>, fetch_size: usize, op: Operation) -> Txn {
    Txn::new(db.map(|d| d.to_string()), fetch_size, ManagedConnection::new(), op, success(false)).unwrap()
}

/// A server holding `rows`, answering each PULL with the next batch.
struct Server {
    rows: Vec<i64>,
    pos: usize,
    pulls: usize,
}

impl Server {
    fn answer(&mut self, request: &BoltRequest) -> BoltResponse {
        match request {
            BoltRequest::Pull { n } => {
                self.pulls += 1;
                let end = (self.pos + n).min(self.rows.len());
                let batch = self.rows[self.pos..end].iter().map(|r| BoltType::Integer(*r)).collect();
                self.pos = end;
                BoltResponse::Records(batch, Summary { has_more: end < self.rows.len(), counters: Counters::default() })
            },
            other => panic!("unexpected request {:?}", other),
        }
    }
}

/// One logical `next`: performs any PULL before handing back the row.
fn advance(stream: &mut RowStream, txn: &mut Txn, server: &mut Server) -> Option<i64> {
    loop {
        match stream.next(txn.connection()) {
            Step::Row(BoltType::Integer(i)) => return Some(i),
            Step::Row(other) => panic!("unexpected row {:?}", other),
            Step::Done => return None,
            Step::Pull(request) => {
                assert!(!txn.connection().is_idle());
                let response = server.answer(&request);
                stream.refill(txn.connection(), response).unwrap();
                assert!(txn.connection().is_idle());
            },
        }
    }
}

fn open_stream(txn: &mut Txn, text: &str) -> RowStream {
    let request = txn.execute(Query::new(text.to_string()));
    assert!(matches!(request, BoltRequest::Run { .. }));
    txn.execute_response(success(false)).unwrap()
}

#[test]
fn pagination_pulls_ceil_of_rows_over_fetch_size() {
    let mut txn = open_txn(None, 2, Operation::Read);
    let mut stream = open_stream(&mut txn, "UNWIND range(1, 5) AS x RETURN x");
    let mut server = Server { rows: vec![1, 2, 3, 4, 5], pos: 0, pulls: 0 };
    let mut seen = Vec::new();
    while let Some(r) = advance(&mut stream, &mut txn, &mut server) {
        seen.push(r);
    }
    assert_eq!(seen, vec![1, 2, 3, 4, 5]);
    assert_eq!(server.pulls, 3);
    // after the end, no further exchange
    assert!(matches!(stream.next(txn.connection()), Step::Done));
    assert_eq!(server.pulls, 3);
}

#[test]
fn pagination_with_exact_multiple() {
    let mut txn = open_txn(None, 2, Operation::Read);
    let mut stream = open_stream(&mut txn, "RETURN 1");
    let mut server = Server { rows: vec![10, 20, 30, 40], pos: 0, pulls: 0 };
    let mut seen = Vec::new();
    while let Some(r) = advance(&mut stream, &mut txn, &mut server) {
        seen.push(r);
    }
    assert_eq!(seen, vec![10, 20, 30, 40]);
    assert_eq!(server.pulls, 2);
}

#[test]
fn two_streams_interleave_without_loss() {
    let mut txn = open_txn(None, 1, Operation::Write);
    let mut a = open_stream(&mut txn, "MATCH (p) RETURN p");
    let mut b = open_stream(&mut txn, "RETURN 1");
    assert_ne!(a.id(), b.id());
    let mut sa = Server { rows: vec![1, 2, 3], pos: 0, pulls: 0 };
    let mut sb = Server { rows: vec![7, 8], pos: 0, pulls: 0 };
    let (mut ya, mut yb) = (Vec::new(), Vec::new());
    for _ in 0..4 {
        if let Some(r) = advance(&mut a, &mut txn, &mut sa) {
            ya.push(r);
        }
        if let Some(r) = advance(&mut b, &mut txn, &mut sb) {
            yb.push(r);
        }
    }
    assert_eq!(ya, vec![1, 2, 3]);
    assert_eq!(yb, vec![7, 8]);
}

#[test]
fn dropped_stream_discards() {
    let mut txn = open_txn(None, 10, Operation::Read);
    let stream = open_stream(&mut txn, "RETURN 1");
    assert!(matches!(stream.discard_request(), Some(BoltRequest::Discard)));
}

#[test]
fn exhausted_stream_needs_no_discard() {
    let mut txn = open_txn(None, 10, Operation::Read);
    let mut stream = open_stream(&mut txn, "RETURN 1");
    let mut server = Server { rows: vec![1], pos: 0, pulls: 0 };
    while advance(&mut stream, &mut txn, &mut server).is_some() {}
    assert!(stream.discard_request().is_none());
}

#[test]
fn failed_pull_ends_the_stream() {
    let mut txn = open_txn(None, 10, Operation::Read);
    let mut stream = open_stream(&mut txn, "RETURN 1");
    let request = stream.next(txn.connection());
    assert!(matches!(request, Step::Pull(BoltRequest::Pull { n: 10 })));
    let err = stream.refill(txn.connection(), failure()).unwrap_err();
    assert_eq!(err.operation(), Exchange::Pull);
    assert!(matches!(stream.next(txn.connection()), Step::Done));
}

#[test]
fn failed_begin_builds_no_transaction() {
    let result = Txn::new(None, 10, ManagedConnection::new(), Operation::Read, failure());
    match result {
        Err(e) => {
            assert_eq!(e.operation(), Exchange::Begin);
            assert_eq!(e.operation().name(), "BEGIN");
            assert!(matches!(e, Error::Failure { .. }));
        },
        Ok(_) => panic!("BEGIN failed, yet a transaction was built"),
    }
}

#[test]
fn begin_request_names_database() {
    match Txn::begin_request(&Some("movies".to_string())) {
        BoltRequest::Begin { db } => assert_eq!(db, Some("movies".to_string())),
        other => panic!("unexpected {:?}", other),
    }
}

#[test]
fn queries_carry_database_and_mode() {
    let mut txn = open_txn(Some("movies"), 10, Operation::Read);
    let q = Query::new("RETURN 1".to_string()).extra("mode".to_string(), "w".to_string());
    match txn.run(q) {
        BoltRequest::Run { query } => {
            assert_eq!(query.text, "RETURN 1");
            assert_eq!(
                query.extras,
                vec![("mode".to_string(), "r".to_string()), ("db".to_string(), "movies".to_string())]
            );
        },
        other => panic!("unexpected {:?}", other),
    }
}

#[test]
fn write_transaction_without_database() {
    let mut txn = open_txn(None, 10, Operation::Write);
    match txn.execute(Query::new("CREATE ()".to_string())) {
        BoltRequest::Run { query } => {
            assert_eq!(query.extras, vec![("mode".to_string(), "w".to_string())]);
        },
        other => panic!("unexpected {:?}", other),
    }
}

#[test]
fn run_discards_and_reports_counters() {
    let mut txn = open_txn(None, 10, Operation::Write);
    txn.run(Query::new("CREATE ()".to_string()));
    let next = txn.run_response(success(false)).unwrap();
    assert!(matches!(next, BoltRequest::Discard));
    let counters = Counters { nodes_created: 2, ..Counters::default() };
    let result = txn.run_summary(BoltResponse::Success(Summary { has_more: false, counters })).unwrap();
    assert_eq!(result.stats().nodes_created, 2);
    assert!(txn.connection().is_idle());
}

#[test]
fn failed_run_names_run() {
    let mut txn = open_txn(None, 10, Operation::Write);
    txn.run(Query::new("CREATE (".to_string()));
    let err = txn.run_response(failure()).unwrap_err();
    assert_eq!(err.operation(), Exchange::Run);
    assert!(txn.connection().is_idle());
}

#[test]
fn run_queries_merges_counters() {
    let txn = open_txn(None, 10, Operation::Write);
    let results = vec![
        RunResult { counters: Counters { nodes_created: 1, properties_set: 2, ..Counters::default() } },
        RunResult { counters: Counters { nodes_created: 1, labels_added: 3, ..Counters::default() } },
    ];
    let merged = txn.run_queries(&results);
    assert_eq!(merged, Counters { nodes_created: 2, properties_set: 2, labels_added: 3, ..Counters::default() });
    let saturating = vec![
        RunResult { counters: Counters { nodes_deleted: u64::MAX, ..Counters::default() } },
        RunResult { counters: Counters { nodes_deleted: 5, ..Counters::default() } },
    ];
    assert_eq!(txn.run_queries(&saturating).nodes_deleted, u64::MAX);
}

#[test]
fn commit_succeeds() {
    let txn = open_txn(None, 10, Operation::Write);
    let closing = txn.commit();
    assert!(matches!(closing.request(), BoltRequest::Commit));
    let (result, conn) = closing.finish(success(false));
    assert!(result.is_ok());
    assert!(!conn.poisoned());
}

#[test]
fn failed_commit_names_commit_and_poisons() {
    let txn = open_txn(None, 10, Operation::Write);
    let (result, conn) = txn.commit().finish(failure());
    let err = result.unwrap_err();
    assert_eq!(err.operation(), Exchange::Commit);
    assert_eq!(err.operation().name(), "COMMIT");
    assert!(conn.poisoned());
}

#[test]
fn failed_rollback_names_rollback() {
    let txn = open_txn(None, 10, Operation::Write);
    let closing = txn.rollback();
    assert!(matches!(closing.request(), BoltRequest::Rollback));
    let (result, _) = closing.finish(failure());
    assert_eq!(result.unwrap_err().operation().name(), "ROLLBACK");
}

#[test]
fn query_parameters_replace_by_key() {
    let q = Query::new("RETURN $x".to_string())
        .param("x".to_string(), BoltType::Integer(1))
        .param("y".to_string(), BoltType::Integer(2))
        .param("x".to_string(), BoltType::Integer(3));
    assert_eq!(
        q.params.value,
        vec![("x".to_string(), BoltType::Integer(3)), ("y".to_string(), BoltType::Integer(2))]
    );
}
