//! A lazily paginated cursor over the rows of one query.
use vstd::prelude::*;
use crate::connection::ManagedConnection;
use crate::messages::{BoltRequest, BoltResponse, Error, Exchange};
use crate::value::{values_model, BoltType, ValueModel};

verus! {

broadcast use vstd::std_specs::vec::group_vec_axioms;

/// The state of a row stream.
pub struct StreamModel {
    /// Rows received and not yet handed out, in order.
    pub buffered: Seq<ValueModel>,
    pub fetch_size: nat,
    /// The server holds more rows.
    pub has_more: bool,
    /// A PULL is outstanding.
    pub awaiting: bool,
    /// The end was reported; no exchange follows.
    pub exhausted: bool,
}

/// What one call of `next` yields.
pub enum StepModel {
    Row(ValueModel),
    Pull(nat),
    Done,
}

/// A stream just opened by a RUN: nothing buffered, rows waiting on the server.
pub open spec fn fresh(fetch_size: nat) -> StreamModel {
    StreamModel { buffered: Seq::empty(), fetch_size, has_more: true, awaiting: false, exhausted: false }
}

/// One call of `next`: a buffered row, else a PULL while the server holds
/// more, else the end.
pub open spec fn next_model(m: StreamModel) -> (StreamModel, StepModel) {
    if m.buffered.len() > 0 {
        (StreamModel { buffered: m.buffered.drop_first(), ..m }, StepModel::Row(m.buffered[0]))
    } else if m.exhausted || !m.has_more {
        (StreamModel { exhausted: true, ..m }, StepModel::Done)
    } else {
        (StreamModel { awaiting: true, ..m }, StepModel::Pull(m.fetch_size))
    }
}

/// The answer to a PULL: a batch of rows, and whether more remain.
pub open spec fn refill_model(m: StreamModel, batch: Seq<ValueModel>, has_more: bool) -> StreamModel {
    StreamModel { buffered: m.buffered + batch, has_more, awaiting: false, ..m }
}

/// A failed PULL ends the stream.
pub open spec fn failed_model(m: StreamModel) -> StreamModel {
    StreamModel { has_more: false, awaiting: false, exhausted: true, ..m }
}

pub open spec fn stream_measure(m: StreamModel, rest: Seq<ValueModel>) -> int {
    2 * rest.len() + m.buffered.len() + if m.has_more {
        1int
    } else {
        0int
    }
}

/// One logical `next` against a server holding `rest`: any PULL it needs is
/// answered with the next `fetch_size` rows before it goes on. Gives the new
/// state, what the server still holds, the row or `None` at the end, and the
/// number of PULL exchanges made.
pub open spec fn advance(m: StreamModel, rest: Seq<ValueModel>) -> (StreamModel, Seq<ValueModel>, Option<ValueModel>, nat)
    decreases stream_measure(m, rest),
{
    if m.awaiting || m.fetch_size == 0 {
        (m, rest, None, 0)
    } else {
        let (m1, step) = next_model(m);
        match step {
            StepModel::Row(x) => (m1, rest, Some(x), 0),
            StepModel::Done => (m1, rest, None, 0),
            StepModel::Pull(n) => {
                let t = if n < rest.len() {
                    n as int
                } else {
                    rest.len() as int
                };
                let m2 = refill_model(m1, rest.take(t), rest.len() > t);
                let r = advance(m2, rest.skip(t));
                (r.0, r.1, r.2, r.3 + 1)
            },
        }
    }
}

/// `calls` logical `next` calls: the rows yielded in order, the PULL exchanges
/// made, and whether the end was reported (after which the calls stop).
pub open spec fn drain(m: StreamModel, rest: Seq<ValueModel>, calls: nat) -> (Seq<ValueModel>, nat, bool)
    decreases calls,
{
    if calls == 0 {
        (Seq::empty(), 0, false)
    } else {
        let (m1, rest1, x, p) = advance(m, rest);
        match x {
            Some(v) => {
                let (ys, q, ended) = drain(m1, rest1, (calls - 1) as nat);
                (seq![v] + ys, p + q, ended)
            },
            None => (Seq::empty(), p, true),
        }
    }
}

/// `rounds` rounds of one logical `next` on stream `a`, then one on stream `b`.
pub open spec fn interleave(
    a: StreamModel,
    ra: Seq<ValueModel>,
    b: StreamModel,
    rb: Seq<ValueModel>,
    rounds: nat,
) -> (Seq<ValueModel>, Seq<ValueModel>)
    decreases rounds,
{
    if rounds == 0 {
        (Seq::empty(), Seq::empty())
    } else {
        let (a1, ra1, xa, _) = advance(a, ra);
        let (b1, rb1, xb, _) = advance(b, rb);
        let (ya, yb) = interleave(a1, ra1, b1, rb1, (rounds - 1) as nat);
        (
            match xa {
                Some(v) => seq![v] + ya,
                None => ya,
            },
            match xb {
                Some(v) => seq![v] + yb,
                None => yb,
            },
        )
    }
}

pub open spec fn ceil_div(n: int, f: int) -> int {
    (n + f - 1) / f
}

/// An ended stream stays ended: `next` reports the end again, with no exchange.
pub proof fn lemma_end_is_stable(m: StreamModel, rest: Seq<ValueModel>)
    requires
        m.exhausted,
        m.buffered.len() == 0,
        !m.awaiting,
    ensures
        next_model(m) == (m, StepModel::Done),
        m.fetch_size > 0 ==> advance(m, rest) == (m, rest, None::<ValueModel>, 0nat),
{
    assert(StreamModel { exhausted: true, ..m } == m);
}

proof fn lemma_drain_after_end(m: StreamModel, rest: Seq<ValueModel>, calls: nat)
    requires
        m.exhausted,
        m.buffered.len() == 0,
        !m.awaiting,
        m.fetch_size > 0,
        calls > 0,
    ensures
        drain(m, rest, calls) == (Seq::<ValueModel>::empty(), 0nat, true),
{
    lemma_end_is_stable(m, rest);
}

/// With nothing left on the server, the buffered rows come out and then the end.
proof fn lemma_drain_tail(m: StreamModel, rest: Seq<ValueModel>)
    requires
        !m.has_more,
        !m.awaiting,
        m.fetch_size > 0,
    ensures
        drain(m, rest, m.buffered.len() + 1) == (m.buffered, 0nat, true),
    decreases m.buffered.len(),
{
    let (m1, rest1, x, p) = advance(m, rest);
    if m.buffered.len() > 0 {
        lemma_drain_tail(m1, rest1);
        assert(seq![m.buffered[0]] + m1.buffered =~= m.buffered);
    }
}

/// While the server holds rows, each PULL brings the next `fetch_size` of them.
proof fn lemma_drain_open(m: StreamModel, rest: Seq<ValueModel>)
    requires
        m.has_more,
        !m.awaiting,
        !m.exhausted,
        m.fetch_size > 0,
        rest.len() > 0,
    ensures
        drain(m, rest, m.buffered.len() + rest.len() + 1) == (
            m.buffered + rest,
            ceil_div(rest.len() as int, m.fetch_size as int) as nat,
            true,
        ),
    decreases m.buffered.len() + 2 * rest.len(),
{
    let f = m.fetch_size as int;
    let n = rest.len() as int;
    if m.buffered.len() > 0 {
        let (m1, rest1, x, p) = advance(m, rest);
        lemma_drain_open(m1, rest1);
        assert(seq![m.buffered[0]] + (m1.buffered + rest) =~= m.buffered + rest);
    } else {
        let t = if f < n {
            f
        } else {
            n
        };
        let m1 = StreamModel { awaiting: true, ..m };
        let m2 = refill_model(m1, rest.take(t), n > t);
        assert(m2.buffered =~= rest.take(t));
        let rest2 = rest.skip(t);
        if n > t {
            lemma_drain_open(m2, rest2);
            assert(rest.take(t) + rest2 =~= rest);
            assert(ceil_div(n, f) == 1 + ceil_div(n - f, f)) by {
                assert((n + f - 1) / f == ((n - f + f - 1) + f) / f);
                vstd::arithmetic::div_mod::lemma_div_plus_one(n - f + f - 1, f);
            }
            let (a1, r1, x1, p1) = advance(m2, rest2);
            assert(advance(m, rest) == (a1, r1, x1, p1 + 1));
        } else {
            assert(m2.buffered.len() == n);
            lemma_drain_tail(m2, rest2);
            assert(rest.take(t) =~= rest);
            assert(ceil_div(n, f) == 1) by {
                vstd::arithmetic::div_mod::lemma_div_plus_one(n - 1, f);
                vstd::arithmetic::div_mod::lemma_basic_div(n - 1, f);
            }
            let (a1, r1, x1, p1) = advance(m2, rest2);
            assert(advance(m, rest) == (a1, r1, x1, p1 + 1));
        }
    }
}

/// A stream opened on a query of `rows.len()` rows with fetch size `f` makes
/// `ceil(N / f)` PULL exchanges over its life; its first `N` calls of `next`
/// yield every row once, in order, and only call `N + 1` reports the end.
pub proof fn lemma_pagination(f: nat, rows: Seq<ValueModel>)
    requires
        f >= 1,
        rows.len() >= 1,
    ensures
        drain(fresh(f), rows, rows.len() + 1) == (rows, ceil_div(rows.len() as int, f as int) as nat, true),
        drain(fresh(f), rows, rows.len()).0 == rows,
        !drain(fresh(f), rows, rows.len()).2,
{
    lemma_drain_open(fresh(f), rows);
    assert(fresh(f).buffered + rows =~= rows);
    lemma_drain_prefix(fresh(f), rows, rows.len());
}

/// One call fewer yields the same rows but the last, and has not yet seen the end.
proof fn lemma_drain_prefix(m: StreamModel, rest: Seq<ValueModel>, k: nat)
    requires
        drain(m, rest, k + 1).0.len() == k,
    ensures
        drain(m, rest, k).0 == drain(m, rest, k + 1).0,
        !drain(m, rest, k).2,
    decreases k,
{
    if k > 0 {
        let (m1, rest1, x, p) = advance(m, rest);
        if x is Some {
            lemma_drain_prefix(m1, rest1, (k - 1) as nat);
        }
    }
}

/// Once the end is seen, more calls change nothing.
proof fn lemma_drain_settled(m: StreamModel, rest: Seq<ValueModel>, k: nat, j: nat)
    requires
        drain(m, rest, k).2,
        k <= j,
        m.fetch_size > 0,
        !m.awaiting,
    ensures
        drain(m, rest, j).0 == drain(m, rest, k).0,
    decreases k,
{
    lemma_advance_none_ends(m, rest);
    let (m1, rest1, x, p) = advance(m, rest);
    if x is Some {
        lemma_drain_settled(m1, rest1, (k - 1) as nat, (j - 1) as nat);
    }
}

proof fn lemma_advance_none_ends(m: StreamModel, rest: Seq<ValueModel>)
    requires
        !m.awaiting,
        m.fetch_size > 0,
    ensures
        advance(m, rest).2 is None ==> advance(m, rest).0.exhausted && advance(m, rest).0.buffered.len() == 0
            && !advance(m, rest).0.awaiting && advance(m, rest).0.fetch_size == m.fetch_size,
        !advance(m, rest).0.awaiting,
        advance(m, rest).0.fetch_size == m.fetch_size,
    decreases stream_measure(m, rest),
{
    let (m1, step) = next_model(m);
    if let StepModel::Pull(n) = step {
        let t = if n < rest.len() {
            n as int
        } else {
            rest.len() as int
        };
        let m2 = refill_model(m1, rest.take(t), rest.len() > t);
        lemma_advance_none_ends(m2, rest.skip(t));
    }
}

/// Under interleaving, each stream yields what it yields on its own.
proof fn lemma_interleave_projects(
    a: StreamModel,
    ra: Seq<ValueModel>,
    b: StreamModel,
    rb: Seq<ValueModel>,
    k: nat,
)
    requires
        !a.awaiting,
        !b.awaiting,
        a.fetch_size > 0,
        b.fetch_size > 0,
    ensures
        interleave(a, ra, b, rb, k).0 == drain(a, ra, k).0,
        interleave(a, ra, b, rb, k).1 == drain(b, rb, k).0,
    decreases k,
{
    if k > 0 {
        let (a1, ra1, xa, pa) = advance(a, ra);
        let (b1, rb1, xb, pb) = advance(b, rb);
        lemma_advance_none_ends(a, ra);
        lemma_advance_none_ends(b, rb);
        lemma_interleave_projects(a1, ra1, b1, rb1, (k - 1) as nat);
        if xa is None && k > 1 {
            lemma_drain_after_end(a1, ra1, (k - 1) as nat);
        }
        if xb is None && k > 1 {
            lemma_drain_after_end(b1, rb1, (k - 1) as nat);
        }
    }
}

/// Two streams opened in one transaction and advanced in turn, A, B, A, B, ...,
/// each yield all of their own rows exactly once and in order.
pub proof fn lemma_interleaved_streams(fa: nat, ra: Seq<ValueModel>, fb: nat, rb: Seq<ValueModel>, rounds: nat)
    requires
        fa >= 1,
        fb >= 1,
        ra.len() >= 1,
        rb.len() >= 1,
        rounds > ra.len(),
        rounds > rb.len(),
    ensures
        interleave(fresh(fa), ra, fresh(fb), rb, rounds) == (ra, rb),
{
    lemma_interleave_projects(fresh(fa), ra, fresh(fb), rb, rounds);
    lemma_pagination(fa, ra);
    lemma_pagination(fb, rb);
    lemma_drain_settled(fresh(fa), ra, ra.len() + 1, rounds);
    lemma_drain_settled(fresh(fb), rb, rb.len() + 1, rounds);
}

/// What a call of `next` hands back.
#[derive(Debug)]
pub enum Step {
    Row(BoltType),
    /// Send this request and hand the response to `refill`.
    Pull(BoltRequest),
    Done,
}

pub open spec fn step_model(s: Step) -> StepModel {
    match s {
        Step::Row(v) => StepModel::Row(v@),
        Step::Pull(BoltRequest::Pull { n }) => StepModel::Pull(n as nat),
        Step::Pull(_) => StepModel::Done,
        Step::Done => StepModel::Done,
    }
}

/// A cursor over the rows of one query, bound to the transaction's connection.
#[derive(Debug)]
pub struct RowStream {
    id: u64,
    fetch_size: usize,
    /// Buffered rows, the next one last.
    pending: Vec<BoltType>,
    has_more: bool,
    awaiting: bool,
    exhausted: bool,
}

impl View for RowStream {
    type V = StreamModel;

    closed spec fn view(&self) -> StreamModel {
        StreamModel {
            buffered: Seq::new(
                self.pending@.len(),
                |i: int| self.pending@[self.pending@.len() - 1 - i]@,
            ),
            fetch_size: self.fetch_size as nat,
            has_more: self.has_more,
            awaiting: self.awaiting,
            exhausted: self.exhausted,
        }
    }
}

impl RowStream {
    /// The tag of this stream's exchanges on the connection.
    pub closed spec fn tag(&self) -> u64 {
        self.id
    }

    /// A stream just opened by a RUN with tag `id`.
    pub fn new(id: u64, fetch_size: usize) -> (r: RowStream)
        ensures
            r@ == fresh(fetch_size as nat),
            r.tag() == id,
    {
        let r = RowStream { id, fetch_size, pending: Vec::new(), has_more: true, awaiting: false, exhausted: false };
        assert(r@.buffered =~= Seq::<ValueModel>::empty());
        r
    }

    /// A PULL of this stream waits for its answer.
    pub fn is_awaiting(&self) -> (r: bool)
        ensures
            r == self@.awaiting,
    {
        self.awaiting
    }

    pub fn id(&self) -> (r: u64)
        ensures
            r == self.tag(),
    {
        self.id
    }

    /// The next row, or the PULL to send first, or the end. Each call that
    /// needs the network waits for the connection to be free.
    pub fn next(&mut self, conn: &mut ManagedConnection) -> (step: Step)
        requires
            !old(self)@.awaiting,
            old(conn).idle(),
        ensures
            (final(self)@, step_model(step)) == next_model(old(self)@),
            final(self).tag() == old(self).tag(),
            step is Pull ==> final(conn).outstanding() == Some(old(self).tag()),
            !(step is Pull) ==> final(conn).idle(),
            final(conn).is_poisoned() == old(conn).is_poisoned(),
    {
        let ghost before = self@;
        if self.pending.len() > 0 {
            let row = self.pending.pop().unwrap();
            assert(self@.buffered =~= before.buffered.drop_first());
            Step::Row(row)
        } else if self.exhausted || !self.has_more {
            self.exhausted = true;
            assert(self@.buffered =~= before.buffered);
            Step::Done
        } else {
            self.awaiting = true;
            conn.start(self.id);
            assert(self@.buffered =~= before.buffered);
            Step::Pull(BoltRequest::Pull { n: self.fetch_size })
        }
    }

    /// Takes the answer to the outstanding PULL.
    pub fn refill(&mut self, conn: &mut ManagedConnection, response: BoltResponse) -> (r: Result<(), Error>)
        requires
            old(self)@.awaiting,
            old(self)@.buffered.len() == 0,
            old(conn).outstanding() == Some(old(self).tag()),
        ensures
            final(conn).idle(),
            final(conn).is_poisoned() == old(conn).is_poisoned(),
            final(self).tag() == old(self).tag(),
            match response {
                BoltResponse::Records(rows, summary) => r is Ok && final(self)@ == refill_model(
                    old(self)@,
                    values_model(rows@),
                    summary.has_more,
                ),
                BoltResponse::Success(summary) => r is Ok && final(self)@ == refill_model(
                    old(self)@,
                    Seq::empty(),
                    summary.has_more,
                ),
                BoltResponse::Failure { .. } => r matches Err(e) && e is Failure && e.operation_of()
                    == Exchange::Pull && final(self)@ == failed_model(old(self)@),
            },
    {
        conn.finish(self.id);
        let ghost before = self@;
        match response {
            BoltResponse::Records(rows, summary) => {
                let ghost batch = values_model(rows@);
                let mut rows = rows;
                while rows.len() > 0
                    invariant
                        rows@.len() <= batch.len(),
                        values_model(rows@) == batch.subrange(0, rows@.len() as int),
                        self@.buffered == batch.subrange(rows@.len() as int, batch.len() as int),
                        self@.awaiting == before.awaiting,
                        self@.fetch_size == before.fetch_size,
                        self@.has_more == before.has_more,
                        self@.exhausted == before.exhausted,
                        self.id == old(self).id,
                    decreases rows@.len(),
                {
                    let ghost k = rows@.len();
                    let ghost old_rows = rows@;
                    let x = rows.pop().unwrap();
                    assert(x == old_rows[k - 1]);
                    assert(values_model(old_rows)[k - 1] == x@);
                    let ghost old_pending = self.pending@;
                    let ghost old_buf = self@.buffered;
                    let ghost l = old_pending.len() as int;
                    self.pending.push(x);
                    assert(values_model(rows@) =~= batch.subrange(0, rows@.len() as int)) by {
                        assert forall|i: int| 0 <= i < rows@.len() implies values_model(rows@)[i]
                            == batch.subrange(0, rows@.len() as int)[i] by {
                            assert(values_model(rows@)[i] == rows@[i]@);
                        }
                    }
                    assert(x@ == batch[k - 1]);
                    assert(old_buf == batch.subrange(k as int, batch.len() as int));
                    assert(old_buf.len() == l);
                    assert(self.pending@.len() == l + 1);
                    assert(self@.buffered.len() == l + 1);
                    assert(l + 1 == batch.len() - (k - 1));
                    assert forall|i: int| 0 <= i < self@.buffered.len() implies self@.buffered[i] == batch.subrange(
                        k - 1,
                        batch.len() as int,
                    )[i] by {
                        if i == 0 {
                            assert(self.pending@[l] == x);
                        } else {
                            assert(self.pending@[l - i] == old_pending[l - i]);
                            assert(old_buf[i - 1] == old_pending[l - 1 - (i - 1)]@);
                        }
                    }
                    assert(self@.buffered =~= batch.subrange(k - 1, batch.len() as int));
                }
                assert(before.buffered + batch =~= batch.subrange(0, batch.len() as int));
                self.has_more = summary.has_more;
                self.awaiting = false;
                Ok(())
            },
            BoltResponse::Success(summary) => {
                self.has_more = summary.has_more;
                self.awaiting = false;
                assert(self@.buffered =~= before.buffered + Seq::<ValueModel>::empty());
                Ok(())
            },
            BoltResponse::Failure { code, message } => {
                self.has_more = false;
                self.awaiting = false;
                self.exhausted = true;
                Err(Error::Failure { operation: Exchange::Pull, code, message })
            },
        }
    }

    /// The request that closes the stream when it is dropped before its end:
    /// a DISCARD while the server still holds rows for it.
    pub fn discard_request(&self) -> (r: Option<BoltRequest>)
        ensures
            r is Some <==> self@.has_more && !self@.exhausted,
            r matches Some(q) ==> q is Discard,
    {
        if self.has_more && !self.exhausted {
            Some(BoltRequest::Discard)
        } else {
            None
        }
    }
}

} // verus!
