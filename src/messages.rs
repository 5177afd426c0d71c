//! Requests sent over a connection, responses received, queries and their summaries.
use vstd::prelude::*;
use crate::value::{BoltMap, BoltType};

verus! {

/// The effect counters of a query.
#[derive(Clone, Copy, Debug, Default, PartialEq, Eq, Structural)]
pub struct Counters {
    pub nodes_created: u64,
    pub nodes_deleted: u64,
    pub relationships_created: u64,
    pub relationships_deleted: u64,
    pub properties_set: u64,
    pub labels_added: u64,
    pub labels_removed: u64,
    pub indexes_added: u64,
    pub indexes_removed: u64,
    pub constraints_added: u64,
    pub constraints_removed: u64,
}

/// The sum of two counts, held at the largest `u64`.
pub open spec fn sat_add(a: u64, b: u64) -> u64 {
    if a + b > u64::MAX {
        u64::MAX
    } else {
        (a + b) as u64
    }
}

/// Field-wise sum of two sets of counters.
pub open spec fn merged(a: Counters, b: Counters) -> Counters {
    Counters {
        nodes_created: sat_add(a.nodes_created, b.nodes_created),
        nodes_deleted: sat_add(a.nodes_deleted, b.nodes_deleted),
        relationships_created: sat_add(a.relationships_created, b.relationships_created),
        relationships_deleted: sat_add(a.relationships_deleted, b.relationships_deleted),
        properties_set: sat_add(a.properties_set, b.properties_set),
        labels_added: sat_add(a.labels_added, b.labels_added),
        labels_removed: sat_add(a.labels_removed, b.labels_removed),
        indexes_added: sat_add(a.indexes_added, b.indexes_added),
        indexes_removed: sat_add(a.indexes_removed, b.indexes_removed),
        constraints_added: sat_add(a.constraints_added, b.constraints_added),
        constraints_removed: sat_add(a.constraints_removed, b.constraints_removed),
    }
}

pub open spec fn zero_counters() -> Counters {
    Counters {
        nodes_created: 0,
        nodes_deleted: 0,
        relationships_created: 0,
        relationships_deleted: 0,
        properties_set: 0,
        labels_added: 0,
        labels_removed: 0,
        indexes_added: 0,
        indexes_removed: 0,
        constraints_added: 0,
        constraints_removed: 0,
    }
}

/// The counters of the first `n` summaries merged in order.
pub open spec fn merged_all(cs: Seq<Counters>, n: int) -> Counters
    decreases n,
{
    if n <= 0 {
        zero_counters()
    } else {
        merged(merged_all(cs, n - 1), cs[n - 1])
    }
}

impl Counters {
    /// All counts zero.
    pub fn zero() -> (r: Counters)
        ensures
            r == zero_counters(),
    {
        Counters {
            nodes_created: 0,
            nodes_deleted: 0,
            relationships_created: 0,
            relationships_deleted: 0,
            properties_set: 0,
            labels_added: 0,
            labels_removed: 0,
            indexes_added: 0,
            indexes_removed: 0,
            constraints_added: 0,
            constraints_removed: 0,
        }
    }

    /// These counters plus `other`, field by field.
    pub fn merge(&self, other: &Counters) -> (r: Counters)
        ensures
            r == merged(*self, *other),
    {
        Counters {
            nodes_created: self.nodes_created.saturating_add(other.nodes_created),
            nodes_deleted: self.nodes_deleted.saturating_add(other.nodes_deleted),
            relationships_created: self.relationships_created.saturating_add(other.relationships_created),
            relationships_deleted: self.relationships_deleted.saturating_add(other.relationships_deleted),
            properties_set: self.properties_set.saturating_add(other.properties_set),
            labels_added: self.labels_added.saturating_add(other.labels_added),
            labels_removed: self.labels_removed.saturating_add(other.labels_removed),
            indexes_added: self.indexes_added.saturating_add(other.indexes_added),
            indexes_removed: self.indexes_removed.saturating_add(other.indexes_removed),
            constraints_added: self.constraints_added.saturating_add(other.constraints_added),
            constraints_removed: self.constraints_removed.saturating_add(other.constraints_removed),
        }
    }
}

/// The summary of running a query without streaming its rows.
#[derive(Clone, Copy, Debug, PartialEq, Eq, Structural)]
pub struct RunResult {
    pub counters: Counters,
}

impl RunResult {
    pub fn stats(&self) -> (r: Counters)
        ensures
            r == self.counters,
    {
        self.counters
    }
}

/// What a successful response reports.
#[derive(Clone, Copy, Debug, PartialEq, Eq, Structural)]
pub struct Summary {
    /// More rows wait on the server.
    pub has_more: bool,
    pub counters: Counters,
}

/// The key, value text pairs of a query's extras.
pub type ExtrasModel = Seq<(Seq<char>, Seq<char>)>;

pub open spec fn extras_model(e: Seq<(String, String)>) -> ExtrasModel {
    Seq::new(e.len(), |i: int| (e[i].0@, e[i].1@))
}

/// The position of `key` among the keys, the first one.
pub open spec fn key_position<V>(m: Seq<(Seq<char>, V)>, key: Seq<char>) -> Option<int>
    decreases m.len(),
{
    if m.len() == 0 {
        None
    } else if m[0].0 == key {
        Some(0)
    } else {
        match key_position(m.subrange(1, m.len() as int), key) {
            Some(i) => Some(i + 1),
            None => None,
        }
    }
}

/// `m` with `key` set to `value`: replaced in place, or appended.
pub open spec fn put<V>(m: Seq<(Seq<char>, V)>, key: Seq<char>, value: V) -> Seq<(Seq<char>, V)> {
    match key_position(m, key) {
        Some(i) => m.update(i, (key, value)),
        None => m.push((key, value)),
    }
}

/// A query: its text, its parameters, and extras such as the target database.
#[derive(Debug)]
pub struct Query {
    pub text: String,
    pub params: BoltMap,
    pub extras: Vec<(String, String)>,
}

/// Finds `key` among the first components.
fn position_of<V>(m: &Vec<(String, V)>, key: &String) -> (r: Option<usize>)
    ensures
        r matches Some(i) ==> key_position(Seq::new(m@.len(), |j: int| (m@[j].0@, m@[j].1)), key@) == Some(
            i as int,
        ),
        r is None ==> key_position(Seq::new(m@.len(), |j: int| (m@[j].0@, m@[j].1)), key@) is None,
        r matches Some(i) ==> i < m@.len() && m@[i as int].0@ == key@,
{
    let ghost whole = Seq::new(m@.len(), |j: int| (m@[j].0@, m@[j].1));
    let mut k: usize = 0;
    assert(whole.subrange(0, whole.len() as int) =~= whole);
    while k < m.len()
        invariant
            whole == Seq::new(m@.len(), |j: int| (m@[j].0@, m@[j].1)),
            k <= m@.len(),
            key_position(whole, key@) == match key_position(whole.subrange(k as int, whole.len() as int), key@) {
                Some(i) => Some(i + k),
                None => None,
            },
        decreases m@.len() - k,
    {
        let ghost rest = whole.subrange(k as int, whole.len() as int);
        assert(rest.subrange(1, rest.len() as int) =~= whole.subrange(k + 1, whole.len() as int));
        if m[k].0 == *key {
            return Some(k);
        }
        k = k + 1;
    }
    None
}

impl BoltMap {
    /// Sets `key` to `value`: replaces the value of an existing key in place,
    /// or appends the entry.
    pub fn put(&mut self, key: String, value: BoltType)
        ensures
            final(self)@ == put(old(self)@, key@, value@),
            old(self).wf() ==> final(self).wf(),
    {
        let ghost before = self@;
        proof {
            lemma_key_position(before, key@);
        }
        proof {
            lemma_same_keys_position(
                Seq::new(self.value@.len(), |j: int| (self.value@[j].0@, self.value@[j].1)),
                self@,
                key@,
            );
        }
        match position_of(&self.value, &key) {
            Some(i) => {
                self.value.set(i, (key, value));
            },
            None => {
                self.value.push((key, value));
            },
        }
        assert(self@ =~= put(before, key@, value@));
    }
}

impl Query {
    /// A query with the given text and no parameters or extras.
    pub fn new(text: String) -> (r: Query)
        ensures
            r.text@ == text@,
            r.params@ == Seq::<(Seq<char>, crate::value::ValueModel)>::empty(),
            extras_model(r.extras@) == Seq::<(Seq<char>, Seq<char>)>::empty(),
    {
        let r = Query { text, params: BoltMap { value: Vec::new() }, extras: Vec::new() };
        assert(r.params@ =~= Seq::<(Seq<char>, crate::value::ValueModel)>::empty());
        assert(extras_model(r.extras@) =~= Seq::<(Seq<char>, Seq<char>)>::empty());
        r
    }

    /// The query with the parameter `key` set to `value`.
    pub fn param(self, key: String, value: BoltType) -> (r: Query)
        ensures
            r.text == self.text,
            r.extras == self.extras,
            r.params@ == put(self.params@, key@, value@),
            self.params.wf() ==> r.params.wf(),
    {
        let Query { text, mut params, extras } = self;
        params.put(key, value);
        Query { text, params, extras }
    }

    /// The query with the extra `key` set to `value`.
    pub fn extra(self, key: String, value: String) -> (r: Query)
        ensures
            r.text == self.text,
            r.params == self.params,
            extras_model(r.extras@) == put(extras_model(self.extras@), key@, value@),
    {
        let Query { text, params, extras } = self;
        let mut entries = extras;
        let ghost before = entries@;
        proof {
            lemma_same_keys_position(
                Seq::new(entries@.len(), |j: int| (entries@[j].0@, entries@[j].1)),
                extras_model(entries@),
                key@,
            );
        }
        match position_of(&entries, &key) {
            Some(i) => {
                entries.set(i, (key, value));
            },
            None => {
                entries.push((key, value));
            },
        }
        let r = Query { text, params, extras: entries };
        assert(extras_model(r.extras@) =~= put(extras_model(before), key@, value@));
        r
    }
}

proof fn lemma_key_position<V>(m: Seq<(Seq<char>, V)>, key: Seq<char>)
    ensures
        key_position(m, key) matches Some(i) ==> 0 <= i < m.len() && m[i].0 == key,
        key_position(m, key) is None ==> forall|j: int| 0 <= j < m.len() ==> m[j].0 != key,
    decreases m.len(),
{
    if m.len() > 0 {
        let rest = m.subrange(1, m.len() as int);
        lemma_key_position(rest, key);
        assert forall|j: int| 1 <= j < m.len() implies m[j] == rest[j - 1] by {}
    }
}

/// Where a key stands depends on the keys alone.
proof fn lemma_same_keys_position<V, W>(a: Seq<(Seq<char>, V)>, b: Seq<(Seq<char>, W)>, key: Seq<char>)
    requires
        a.len() == b.len(),
        forall|i: int| 0 <= i < a.len() ==> a[i].0 == b[i].0,
    ensures
        key_position(a, key) == key_position(b, key),
    decreases a.len(),
{
    if a.len() > 0 {
        let ra = a.subrange(1, a.len() as int);
        let rb = b.subrange(1, b.len() as int);
        assert forall|i: int| 0 <= i < ra.len() implies ra[i].0 == rb[i].0 by {
            assert(ra[i] == a[i + 1]);
            assert(rb[i] == b[i + 1]);
        }
        lemma_same_keys_position(ra, rb, key);
    }
}

/// A request message.
#[derive(Debug)]
pub enum BoltRequest {
    Begin { db: Option<String> },
    Run { query: Query },
    Pull { n: usize },
    Discard,
    Commit,
    Rollback,
}

/// A response message.
#[derive(Debug)]
pub enum BoltResponse {
    Success(Summary),
    /// A batch of rows answering a PULL, with its closing summary.
    Records(Vec<BoltType>, Summary),
    Failure { code: String, message: String },
}

/// The control exchanges whose failure ends a transaction.
#[derive(Clone, Copy, Debug, PartialEq, Eq, Structural)]
pub enum Exchange {
    Begin,
    Run,
    Pull,
    Discard,
    Commit,
    Rollback,
}

impl Exchange {
    /// The protocol name of the operation.
    pub fn name(&self) -> (r: &'static str)
        ensures
            r@ == exchange_name(*self),
    {
        match self {
            Exchange::Begin => "BEGIN",
            Exchange::Run => "RUN",
            Exchange::Pull => "PULL",
            Exchange::Discard => "DISCARD",
            Exchange::Commit => "COMMIT",
            Exchange::Rollback => "ROLLBACK",
        }
    }
}

pub open spec fn exchange_name(op: Exchange) -> Seq<char> {
    match op {
        Exchange::Begin => "BEGIN"@,
        Exchange::Run => "RUN"@,
        Exchange::Pull => "PULL"@,
        Exchange::Discard => "DISCARD"@,
        Exchange::Commit => "COMMIT"@,
        Exchange::Rollback => "ROLLBACK"@,
    }
}

/// A protocol error: the exchange of `operation` did not succeed.
#[derive(Debug)]
pub enum Error {
    /// The server answered with a failure.
    Failure { operation: Exchange, code: String, message: String },
    /// The server answered with a message the exchange does not expect.
    UnexpectedMessage { operation: Exchange },
}

impl Error {
    pub open spec fn operation_of(&self) -> Exchange {
        match self {
            Error::Failure { operation, .. } => *operation,
            Error::UnexpectedMessage { operation } => *operation,
        }
    }

    /// The operation whose exchange failed.
    pub fn operation(&self) -> (r: Exchange)
        ensures
            r == self.operation_of(),
    {
        match self {
            Error::Failure { operation, .. } => *operation,
            Error::UnexpectedMessage { operation } => *operation,
        }
    }
}

impl BoltResponse {
    /// The error this response stands for when `op` needed a plain success.
    pub fn into_error(self, op: Exchange) -> (r: Error)
        ensures
            r.operation_of() == op,
            self matches BoltResponse::Failure { code, message } ==> r matches Error::Failure {
                code: c,
                message: m,
                ..
            } && c@ == code@ && m@ == message@,
            !(self is Failure) ==> r is UnexpectedMessage,
    {
        match self {
            BoltResponse::Failure { code, message } => Error::Failure { operation: op, code, message },
            _ => Error::UnexpectedMessage { operation: op },
        }
    }
}

} // verus!
