//! The transaction handle: BEGIN, any number of queries and streams, then
//! exactly one COMMIT or ROLLBACK, all over one leased connection.
use vstd::prelude::*;
use crate::connection::ManagedConnection;
use crate::messages::{
    extras_model, merged_all, put, BoltRequest, BoltResponse, Counters, Error, Exchange, ExtrasModel,
    Query, RunResult,
};
use crate::stream::{fresh, RowStream};

verus! {

/// Whether the transaction reads or writes.
#[derive(Clone, Copy, Debug, PartialEq, Eq, Structural)]
pub enum Operation {
    Read,
    Write,
}

/// The tag of the transaction's own exchanges; streams get tags above it.
pub const TXN_TAG: u64 = 0;

/// A handle which controls one transaction. It owns the leased connection
/// until it is consumed by `commit` or `rollback`.
pub struct Txn {
    db: Option<String>,
    fetch_size: usize,
    connection: ManagedConnection,
    operation: Operation,
    next_stream: u64,
}

/// The extras every query of a transaction carries: the target database, if
/// any, then the access mode.
pub open spec fn stamped(db: Option<Seq<char>>, op: Operation, extras: ExtrasModel) -> ExtrasModel {
    let with_db = match db {
        Some(d) => put(extras, "db"@, d),
        None => extras,
    };
    put(
        with_db,
        "mode"@,
        match op {
            Operation::Read => "r"@,
            Operation::Write => "w"@,
        },
    )
}

/// A closing transaction: its one terminal exchange is COMMIT or ROLLBACK.
pub struct Closing {
    exchange: Exchange,
    connection: ManagedConnection,
}

impl Closing {
    pub closed spec fn terminal(&self) -> Exchange {
        self.exchange
    }

    pub closed spec fn conn(&self) -> ManagedConnection {
        self.connection
    }

    /// The terminal request to send.
    pub fn request(&self) -> (r: BoltRequest)
        ensures
            self.terminal() == Exchange::Commit ==> r is Commit,
            self.terminal() == Exchange::Rollback ==> r is Rollback,
    {
        match self.exchange {
            Exchange::Commit => BoltRequest::Commit,
            _ => BoltRequest::Rollback,
        }
    }

    /// Takes the answer to the terminal request; anything but success is an
    /// error naming the exchange. The connection comes back, poisoned where the
    /// exchange failed.
    pub fn finish(self, response: BoltResponse) -> (r: (Result<(), Error>, ManagedConnection))
        ensures
            r.0 is Ok <==> response is Success,
            r.0 matches Err(e) ==> e.operation_of() == self.terminal(),
            r.1.is_poisoned() <==> !(response is Success) || self.conn().is_poisoned(),
            r.1.idle() == self.conn().idle(),
    {
        let Closing { exchange, mut connection } = self;
        match response {
            BoltResponse::Success(_) => (Ok(()), connection),
            other => {
                connection.poison();
                (Err(other.into_error(exchange)), connection)
            },
        }
    }
}

impl Txn {
    pub closed spec fn db_model(&self) -> Option<Seq<char>> {
        match self.db {
            Some(d) => Some(d@),
            None => None,
        }
    }

    pub closed spec fn operation_model(&self) -> Operation {
        self.operation
    }

    pub closed spec fn fetch(&self) -> usize {
        self.fetch_size
    }

    pub closed spec fn conn(&self) -> ManagedConnection {
        self.connection
    }

    /// The request that opens a transaction on `db`.
    pub fn begin_request(db: &Option<String>) -> (r: BoltRequest)
        ensures
            r matches BoltRequest::Begin { db: d } && (d is Some <==> db is Some) && (d matches Some(x)
                ==> x@ == db->0@),
    {
        BoltRequest::Begin {
            db: match db {
                Some(d) => Some(d.clone()),
                None => None,
            },
        }
    }

    /// Builds the transaction from the answer to its BEGIN; any answer but
    /// success fails construction with an error naming BEGIN, and no handle
    /// exists on which a query could run or a commit be sent.
    pub fn new(
        db: Option<String>,
        fetch_size: usize,
        connection: ManagedConnection,
        operation: Operation,
        response: BoltResponse,
    ) -> (r: Result<Txn, Error>)
        requires
            connection.idle(),
        ensures
            r is Ok <==> response is Success,
            r matches Err(e) ==> e.operation_of() == Exchange::Begin,
            r matches Ok(t) ==> t.conn() == connection && t.fetch() == fetch_size && t.operation_model()
                == operation && t.db_model() == match db {
                Some(d) => Some(d@),
                None => None::<Seq<char>>,
            },
    {
        match response {
            BoltResponse::Success(_) => Ok(Txn { db, fetch_size, connection, operation, next_stream: 1 }),
            other => Err(other.into_error(Exchange::Begin)),
        }
    }

    /// The query with the transaction's database and access mode among its extras.
    fn stamp(&self, q: Query) -> (r: Query)
        ensures
            r.text == q.text,
            r.params == q.params,
            extras_model(r.extras@) == stamped(self.db_model(), self.operation, extras_model(q.extras@)),
    {
        let q = match &self.db {
            Some(d) => q.extra(String::from_str("db"), d.clone()),
            None => q,
        };
        let mode = match self.operation {
            Operation::Read => String::from_str("r"),
            Operation::Write => String::from_str("w"),
        };
        q.extra(String::from_str("mode"), mode)
    }

    /// Starts running a query whose rows are not wanted: the RUN to send.
    pub fn run(&mut self, q: Query) -> (r: BoltRequest)
        requires
            old(self).conn().idle(),
        ensures
            r matches BoltRequest::Run { query } && query.text == q.text && query.params == q.params
                && extras_model(query.extras@) == stamped(
                old(self).db_model(),
                old(self).operation_model(),
                extras_model(q.extras@),
            ),
            final(self).conn().outstanding() == Some(TXN_TAG),
            final(self).db_model() == old(self).db_model(),
            final(self).operation_model() == old(self).operation_model(),
            final(self).fetch() == old(self).fetch(),
    {
        let query = self.stamp(q);
        self.connection.start(TXN_TAG);
        BoltRequest::Run { query }
    }

    /// Takes the answer to the RUN of `run`: on success, the DISCARD to send next.
    pub fn run_response(&mut self, response: BoltResponse) -> (r: Result<BoltRequest, Error>)
        requires
            old(self).conn().outstanding() == Some(TXN_TAG),
        ensures
            r is Ok <==> response is Success,
            r matches Ok(q) ==> q is Discard && final(self).conn().outstanding() == Some(TXN_TAG),
            r matches Err(e) ==> e.operation_of() == Exchange::Run && final(self).conn().idle(),
            final(self).db_model() == old(self).db_model(),
            final(self).operation_model() == old(self).operation_model(),
            final(self).fetch() == old(self).fetch(),
    {
        match response {
            BoltResponse::Success(_) => Ok(BoltRequest::Discard),
            other => {
                self.connection.finish(TXN_TAG);
                Err(other.into_error(Exchange::Run))
            },
        }
    }

    /// Takes the answer to the DISCARD: the summary of the query.
    pub fn run_summary(&mut self, response: BoltResponse) -> (r: Result<RunResult, Error>)
        requires
            old(self).conn().outstanding() == Some(TXN_TAG),
        ensures
            final(self).conn().idle(),
            r is Ok <==> response is Success,
            response matches BoltResponse::Success(s) ==> r == Ok::<RunResult, Error>(
                RunResult { counters: s.counters },
            ),
            r matches Err(e) ==> e.operation_of() == Exchange::Discard,
            final(self).db_model() == old(self).db_model(),
            final(self).operation_model() == old(self).operation_model(),
            final(self).fetch() == old(self).fetch(),
    {
        self.connection.finish(TXN_TAG);
        match response {
            BoltResponse::Success(s) => Ok(RunResult { counters: s.counters }),
            other => Err(other.into_error(Exchange::Discard)),
        }
    }

    /// The counters of queries run one after another, merged in order.
    pub fn run_queries(&self, results: &Vec<RunResult>) -> (r: Counters)
        ensures
            r == merged_all(Seq::new(results@.len(), |i: int| results@[i].counters), results@.len() as int),
    {
        let ghost cs = Seq::new(results@.len(), |i: int| results@[i].counters);
        let mut acc = Counters::zero();
        let mut k: usize = 0;
        while k < results.len()
            invariant
                cs == Seq::new(results@.len(), |i: int| results@[i].counters),
                k <= results@.len(),
                acc == merged_all(cs, k as int),
            decreases results@.len() - k,
        {
            acc = acc.merge(&results[k].counters);
            k = k + 1;
        }
        acc
    }

    /// Starts a query whose rows are wanted: the RUN to send.
    pub fn execute(&mut self, q: Query) -> (r: BoltRequest)
        requires
            old(self).conn().idle(),
        ensures
            r matches BoltRequest::Run { query } && query.text == q.text && query.params == q.params
                && extras_model(query.extras@) == stamped(
                old(self).db_model(),
                old(self).operation_model(),
                extras_model(q.extras@),
            ),
            final(self).conn().outstanding() == Some(TXN_TAG),
            final(self).db_model() == old(self).db_model(),
            final(self).operation_model() == old(self).operation_model(),
            final(self).fetch() == old(self).fetch(),
    {
        self.run(q)
    }

    /// Takes the answer to the RUN of `execute`: a stream over the rows, bound
    /// to this transaction's connection and fetch size.
    pub fn execute_response(&mut self, response: BoltResponse) -> (r: Result<RowStream, Error>)
        requires
            old(self).conn().outstanding() == Some(TXN_TAG),
        ensures
            final(self).conn().idle(),
            r is Ok <==> response is Success,
            r matches Ok(s) ==> s@ == fresh(old(self).fetch() as nat) && s.tag() != TXN_TAG,
            r matches Err(e) ==> e.operation_of() == Exchange::Run,
            final(self).db_model() == old(self).db_model(),
            final(self).operation_model() == old(self).operation_model(),
            final(self).fetch() == old(self).fetch(),
    {
        self.connection.finish(TXN_TAG);
        match response {
            BoltResponse::Success(_) => {
                let id = if self.next_stream == TXN_TAG {
                    1
                } else {
                    self.next_stream
                };
                self.next_stream = id.saturating_add(1);
                Ok(RowStream::new(id, self.fetch_size))
            },
            other => Err(other.into_error(Exchange::Run)),
        }
    }

    /// Commits the transaction: the handle is consumed.
    pub fn commit(self) -> (r: Closing)
        ensures
            r.terminal() == Exchange::Commit,
            r.conn() == self.conn(),
    {
        Closing { exchange: Exchange::Commit, connection: self.connection }
    }

    /// Rolls the transaction back: the handle is consumed.
    pub fn rollback(self) -> (r: Closing)
        ensures
            r.terminal() == Exchange::Rollback,
            r.conn() == self.conn(),
    {
        Closing { exchange: Exchange::Rollback, connection: self.connection }
    }

    /// The handle through which streams reach the connection.
    pub fn handle(&mut self) -> (r: &mut Txn)
        ensures
            *r == *old(self),
    {
        self
    }
}

/// Gives access to the connection a transaction runs on.
pub trait Handle {
    fn connection(&mut self) -> &mut ManagedConnection;
}

/// What streams and queries run through.
pub trait TransactionHandle: Handle {
}

impl Handle for Txn {
    fn connection(&mut self) -> &mut ManagedConnection {
        &mut self.connection
    }
}

impl Handle for ManagedConnection {
    fn connection(&mut self) -> &mut ManagedConnection {
        self
    }
}

impl TransactionHandle for Txn {
}

impl TransactionHandle for ManagedConnection {
}

} // verus!
