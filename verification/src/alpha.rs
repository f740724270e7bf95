//! The round model and the per-process `Alpha` register, with both its
//! acceptor-side handlers and the proposer-side stage decisions.

use vstd::prelude::*;

verus! {

/// A per-process attempt counter.  Successive rounds initiated by one process
/// carry strictly increasing ticks.
#[derive(Copy, Clone, Debug, PartialEq, Eq, Structural, PartialOrd, Ord, Hash)]
pub struct Tick(pub u64);

impl Tick {
    /// The tick of the round that follows this one.
    pub fn next(self) -> (t: Self)
        requires
            self.0 < u64::MAX,
        ensures
            t.0 == self.0 + 1,
    {
        Tick(self.0 + 1)
    }
}

impl Default for Tick {
    /// The tick of a process's first round.
    fn default() -> (t: Self)
        ensures
            t.0 == 0,
    {
        Tick(0)
    }
}

/// A globally unique process identifier, used to break ties between rounds
/// with equal ticks.
#[derive(Copy, Clone, Debug, PartialEq, Eq, Structural, PartialOrd, Ord, Hash)]
pub struct Id(pub u64);

/// A totally ordered, globally unique round identifier: ticks compare first,
/// equal ticks break ties by the owning process's identifier.
#[derive(Copy, Clone, Debug, PartialEq, Eq, Structural, PartialOrd, Ord, Hash)]
pub struct Round {
    pub tick: Tick,
    pub process_id: Id,
}

impl Round {
    /// Strict total order on rounds: by tick, then by process identifier.
    pub open spec fn spec_lt(self, other: Round) -> bool {
        self.tick.0 < other.tick.0 || (self.tick.0 == other.tick.0
            && self.process_id.0 < other.process_id.0)
    }

    /// Reflexive closure of [`Round::spec_lt`].
    pub open spec fn spec_le(self, other: Round) -> bool {
        self.tick.0 < other.tick.0 || (self.tick.0 == other.tick.0
            && self.process_id.0 <= other.process_id.0)
    }

    /// The round below every round any process initiates: tick zero, process
    /// identifier zero.
    pub open spec fn zero() -> Round {
        Round { tick: Tick(0), process_id: Id(0) }
    }

    /// The first round of the process `process_id`: tick zero.
    pub fn new(process_id: Id) -> (r: Self)
        ensures
            r.tick.0 == 0,
            r.process_id == process_id,
    {
        Self { tick: Tick::default(), process_id }
    }

    /// The round that follows this one for the same process: the tick is
    /// incremented, the process identifier kept.
    pub fn next(self) -> (r: Self)
        requires
            self.tick.0 < u64::MAX,
        ensures
            r.tick.0 == self.tick.0 + 1,
            r.process_id == self.process_id,
            self.spec_lt(r),
    {
        Self { tick: self.tick.next(), process_id: self.process_id }
    }

    /// Executable strict comparison, agreeing with [`Round::spec_lt`].
    pub fn lt(&self, other: &Round) -> (b: bool)
        ensures
            b == self.spec_lt(*other),
    {
        self.tick.0 < other.tick.0 || (self.tick.0 == other.tick.0
            && self.process_id.0 < other.process_id.0)
    }

    /// Executable non-strict comparison, agreeing with [`Round::spec_le`].
    pub fn le(&self, other: &Round) -> (b: bool)
        ensures
            b == self.spec_le(*other),
    {
        self.tick.0 < other.tick.0 || (self.tick.0 == other.tick.0
            && self.process_id.0 <= other.process_id.0)
    }
}

/// A proposed value tagged with the round under which it was (or would be)
/// written into a register.
#[derive(Clone, Debug, PartialEq)]
pub struct Value<V> {
    pub value: V,
    pub last_round_with_write: Round,
}

/// The per-process register state: the highest round this process has
/// observed, and the most recently accepted value, if any.
#[derive(Clone, Debug, PartialEq)]
pub struct Alpha<V> {
    pub last_round_entered: Round,
    pub value: Option<Value<V>>,
}

/// An acceptor's answer to a `read(round)` request: the echoed round and a
/// snapshot of the acceptor's state.
#[derive(Clone, Debug, PartialEq)]
pub struct ReadResponse<V> {
    pub round: Round,
    pub state: Alpha<V>,
}

/// An acceptor's answer to a `write(value)` request: the round of the write
/// and the acceptor's `last_round_entered` after the call, whether or not the
/// write was accepted.
#[derive(Clone, Copy, Debug, PartialEq, Eq, Structural)]
pub struct WriteResponse {
    pub round: Round,
    pub last_round_entered: Round,
}

/// The one in-core error: the read stage cleared the majority threshold yet
/// collected no response to select from (a misconfigured quorum reporting a
/// majority of zero).
#[derive(Clone, Copy, Debug, PartialEq, Eq, Structural)]
pub enum Error {
    EmptyReadResponse,
}

/// Supplies the majority threshold over the current peer set.  For the quorum
/// intersection argument to hold, an implementation over `n` peers must pick
/// `majority() <= n` with `2 * majority() > n`; see
/// [`lemma_quorum_intersection`].
pub trait Quorum {
    fn majority(&self) -> usize;
}

/// `b` is the state snapshot an acceptor may hand out for `a`: the same
/// `last_round_entered`, the same write round, and a value that could have
/// come from cloning `a`'s.
pub open spec fn value_cloned<V: Clone>(a: Option<Value<V>>, b: Option<Value<V>>) -> bool {
    match (a, b) {
        (Option::None, Option::None) => true,
        (Option::Some(x), Option::Some(y)) => x.last_round_with_write == y.last_round_with_write
            && cloned(x.value, y.value),
        _ => false,
    }
}

impl<V> Alpha<V> {
    /// The register's internal invariant: an accepted value was written no
    /// later than the highest round observed.
    pub open spec fn wf(self) -> bool {
        self.value matches Some(v) ==> v.last_round_with_write.spec_le(self.last_round_entered)
    }

    /// The state after a `read(round)`: the promise is raised to `round` if
    /// that is higher, and the accepted value is untouched.
    pub open spec fn read_post(self, round: Round) -> Alpha<V> {
        Alpha {
            last_round_entered: if self.last_round_entered.spec_le(round) {
                round
            } else {
                self.last_round_entered
            },
            value: self.value,
        }
    }

    /// Whether a write under `round` is accepted: the register has promised no
    /// higher round, and holds no value written at `round` or later.
    pub open spec fn accepts(self, round: Round) -> bool {
        self.last_round_entered.spec_le(round) && (self.value matches Some(v)
            ==> v.last_round_with_write.spec_lt(round))
    }

    /// The state after a `write(v)`: the value and promise move to the write's
    /// round if the write is accepted, and nothing changes otherwise.
    pub open spec fn write_post(self, v: Value<V>) -> Alpha<V> {
        if self.accepts(v.last_round_with_write) {
            Alpha { last_round_entered: v.last_round_with_write, value: Some(v) }
        } else {
            self
        }
    }

    /// A fresh register: the zero round as its promise — so that any
    /// process's first round can be accepted — and no accepted value.
    pub fn new() -> (a: Self)
        ensures
            a.last_round_entered == Round::zero(),
            a.value is None,
            a.wf(),
    {
        Alpha { last_round_entered: Round { tick: Tick(0), process_id: Id(0) }, value: None }
    }

    /// An owned copy of the register state, as handed out to the transport in
    /// a [`ReadResponse`].
    fn snapshot(&self) -> (s: Alpha<V>) where V: Clone
        ensures
            s.last_round_entered == self.last_round_entered,
            value_cloned(self.value, s.value),
    {
        let value = match &self.value {
            None => None,
            Some(v) => Some(
                Value { value: v.value.clone(), last_round_with_write: v.last_round_with_write },
            ),
        };
        Alpha { last_round_entered: self.last_round_entered, value }
    }

    /// Acceptor-side read: record the promise for `round` (the promise never
    /// decreases and rises exactly to `max(last_round_entered, round)`), then
    /// answer with the requested round and a snapshot of the resulting state.
    pub fn read(&mut self, round: Round) -> (r: ReadResponse<V>) where V: Clone
        ensures
            *final(self) == old(self).read_post(round),
            r.round == round,
            r.state.last_round_entered == final(self).last_round_entered,
            value_cloned(final(self).value, r.state.value),
            old(self).last_round_entered.spec_le(final(self).last_round_entered),
            old(self).wf() ==> final(self).wf(),
    {
        if self.last_round_entered.lt(&round) {
            self.last_round_entered = round;
        }
        let state = self.snapshot();
        ReadResponse { round, state }
    }

    /// Acceptor-side write: accept the value iff its round satisfies
    /// [`Alpha::accepts`], otherwise leave the state untouched; either way
    /// answer with the write's round and the post-call `last_round_entered`,
    /// so a proposer can detect preemption even when its write was rejected.
    pub fn write(&mut self, value: Value<V>) -> (w: WriteResponse)
        ensures
            *final(self) == old(self).write_post(value),
            w.round == value.last_round_with_write,
            w.last_round_entered == final(self).last_round_entered,
            old(self).last_round_entered.spec_le(final(self).last_round_entered),
            old(self).wf() ==> final(self).wf(),
    {
        let round = value.last_round_with_write;
        let accept = self.last_round_entered.le(&round) && match &self.value {
            None => true,
            Some(v) => v.last_round_with_write.lt(&round),
        };
        if accept {
            self.last_round_entered = round;
            self.value = Some(value);
        }
        WriteResponse { round, last_round_entered: self.last_round_entered }
    }
}

/// Some response in the collected read quorum reports a round strictly above
/// the proposed one: the proposer has been preempted.
pub open spec fn read_preempted<V>(rs: Seq<ReadResponse<V>>, round: Round) -> bool {
    exists|i: int| 0 <= i < rs.len() && round.spec_lt(#[trigger] rs[i].round)
}

/// `j` is the index the read stage selects from a collected quorum: the last
/// index whose acceptor state has the highest `last_round_entered`.  At most
/// one index satisfies this ([`lemma_chosen_unique`]), which is what makes the
/// selection a deterministic reduction over whatever quorum arrived.
pub open spec fn read_chosen<V>(rs: Seq<ReadResponse<V>>, j: int) -> bool {
    &&& 0 <= j < rs.len()
    &&& forall|k: int| 0 <= k < rs.len() ==> (#[trigger] rs[k].state.last_round_entered).spec_le(
        rs[j].state.last_round_entered,
    )
    &&& forall|k: int| j < k < rs.len() ==> (#[trigger] rs[k].state.last_round_entered).spec_lt(
        rs[j].state.last_round_entered,
    )
}

/// The value the read stage carries into the write stage when it selects
/// `resp`: the value `resp`'s acceptor already holds, or the proposer's own
/// `candidate` if that acceptor holds none.
pub open spec fn carried_value<V>(resp: ReadResponse<V>, candidate: V) -> V {
    match resp.state.value {
        Some(v) => v.value,
        None => candidate,
    }
}

/// Some response in the collected write quorum reports a promise strictly
/// above the write's round: the proposer has been preempted mid-write.
pub open spec fn write_preempted(rs: Seq<WriteResponse>, round: Round) -> bool {
    exists|i: int| 0 <= i < rs.len() && round.spec_lt(#[trigger] rs[i].last_round_entered)
}

impl<V> Alpha<V> {
    /// Proposer-side read stage, deciding over a collected quorum of
    /// successful responses (failed peers were discarded before this point
    /// and never count).  Aborts with `Ok(None)` iff some response reports a
    /// round above the proposed one; otherwise selects the response with the
    /// highest `last_round_entered` and carries its accepted value forward —
    /// or the proposer's own `value` if that acceptor holds none.  Errs iff
    /// the collected quorum is empty.
    pub fn read_stage(round: Round, value: V, responses: Vec<ReadResponse<V>>) -> (r: Result<
        Option<V>,
        Error,
    >)
        ensures
            read_preempted(responses@, round) ==> r == Ok::<Option<V>, Error>(None),
            !read_preempted(responses@, round) && responses@.len() == 0 ==> r == Err::<
                Option<V>,
                Error,
            >(Error::EmptyReadResponse),
            !read_preempted(responses@, round) && responses@.len() > 0 ==> exists|j: int|
                #[trigger] read_chosen(responses@, j) && r == Ok::<Option<V>, Error>(
                    Some(carried_value(responses@[j], value)),
                ),
    {
        let ghost rs = responses@;
        let n = responses.len();
        let mut i: usize = 0;
        while i < n
            invariant
                rs == responses@,
                n == rs.len(),
                i <= n,
                forall|k: int| 0 <= k < i ==> !round.spec_lt(#[trigger] rs[k].round),
            decreases n - i,
        {
            if round.lt(&responses[i].round) {
                return Ok(None);
            }
            i += 1;
        }
        if n == 0 {
            return Err(Error::EmptyReadResponse);
        }
        let mut best: usize = 0;
        let mut i: usize = 1;
        while i < n
            invariant
                rs == responses@,
                n == rs.len(),
                1 <= i <= n,
                best < i,
                forall|k: int| 0 <= k < i ==> (#[trigger] rs[k].state.last_round_entered).spec_le(
                    rs[best as int].state.last_round_entered,
                ),
                forall|k: int| best < k < i ==> (
                #[trigger] rs[k].state.last_round_entered).spec_lt(
                    rs[best as int].state.last_round_entered,
                ),
            decreases n - i,
        {
            if responses[best].state.last_round_entered.le(
                &responses[i].state.last_round_entered,
            ) {
                best = i;
            }
            i += 1;
        }
        assert(read_chosen(rs, best as int));
        let mut rest = responses;
        let selected = rest.remove(best);
        match selected.state.value {
            Some(v) => Ok(Some(v.value)),
            None => Ok(Some(value)),
        }
    }

    /// The local half of the proposer-side write stage: apply the write rule
    /// to this process's own register (the local process is counted as an
    /// acceptor of its own proposal before anything is broadcast), and hand
    /// back the tagged value to broadcast to the peers.
    pub fn write_stage_local(&mut self, round: Round, value: V) -> (payload: Value<V>) where
        V: Clone,
        ensures
            *final(self) == old(self).write_post(
                (Value { value, last_round_with_write: round }),
            ),
            payload.last_round_with_write == round,
            cloned(value, payload.value),
            old(self).wf() ==> final(self).wf(),
    {
        let stored = Value { value, last_round_with_write: round };
        let payload = Value {
            value: stored.value.clone(),
            last_round_with_write: stored.last_round_with_write,
        };
        let _local = self.write(stored);
        payload
    }

    /// The closing half of the proposer-side write stage, deciding over the
    /// collected quorum of successful responses to the broadcast write.
    /// Aborts with `None` iff some response reports a promise strictly above
    /// the write's round; otherwise the value is decided and returned as it
    /// came in.
    pub fn write_stage_decide(round: Round, value: V, responses: Vec<WriteResponse>) -> (r: Option<
        V,
    >)
        ensures
            write_preempted(responses@, round) ==> r is None,
            !write_preempted(responses@, round) ==> r == Some(value),
    {
        let n = responses.len();
        let mut i: usize = 0;
        while i < n
            invariant
                n == responses@.len(),
                i <= n,
                forall|k: int| 0 <= k < i ==> !round.spec_lt(
                    (#[trigger] responses@[k]).last_round_entered,
                ),
            decreases n - i,
        {
            if round.lt(&responses[i].last_round_entered) {
                return None;
            }
            i += 1;
        }
        Some(value)
    }
}

/// `post` is a state the acceptor side can step `pre` to: the outcome of some
/// `read` or of some `write`.
pub open spec fn acceptor_step<V>(pre: Alpha<V>, post: Alpha<V>) -> bool {
    (exists|r: Round| post == pre.read_post(r)) || (exists|v: Value<V>| post == pre.write_post(v))
}

/// One acceptor step never lowers `last_round_entered`.
pub proof fn lemma_step_monotonic<V>(pre: Alpha<V>, post: Alpha<V>)
    requires
        acceptor_step(pre, post),
    ensures
        pre.last_round_entered.spec_le(post.last_round_entered),
{
}

/// Round monotonicity: over any sequence of states an `Alpha` register moves
/// through under `read` and `write` calls, `last_round_entered` is
/// non-decreasing across the whole sequence.
pub proof fn lemma_round_monotonic<V>(trace: Seq<Alpha<V>>)
    requires
        forall|i: int| 0 <= i < trace.len() - 1 ==> acceptor_step(
            trace[i],
            #[trigger] trace[i + 1],
        ),
    ensures
        forall|i: int, j: int| 0 <= i <= j < trace.len()
            ==> (#[trigger] trace[i].last_round_entered).spec_le(
            #[trigger] trace[j].last_round_entered,
        ),
{
    assert forall|i: int, j: int| 0 <= i <= j < trace.len() implies (
    #[trigger] trace[i].last_round_entered).spec_le(
        #[trigger] trace[j].last_round_entered,
    ) by {
        lemma_round_monotonic_span(trace, i, j);
    }
}

proof fn lemma_round_monotonic_span<V>(trace: Seq<Alpha<V>>, i: int, j: int)
    requires
        0 <= i <= j < trace.len(),
        forall|k: int| 0 <= k < trace.len() - 1 ==> acceptor_step(
            trace[k],
            #[trigger] trace[k + 1],
        ),
    ensures
        trace[i].last_round_entered.spec_le(trace[j].last_round_entered),
    decreases j - i,
{
    if i < j {
        lemma_round_monotonic_span(trace, i, j - 1);
        assert(acceptor_step(trace[j - 1], trace[(j - 1) + 1]));
        lemma_step_monotonic(trace[j - 1], trace[j]);
    }
}

/// Write rejection: a write whose round lies strictly below the register's
/// promise changes nothing, and neither does one whose round equals the round
/// of the value already held.
pub proof fn lemma_write_rejection<V>(a: Alpha<V>, v: Value<V>)
    requires
        v.last_round_with_write.spec_lt(a.last_round_entered) || (a.value matches Some(held)
            && v.last_round_with_write == held.last_round_with_write),
    ensures
        a.write_post(v) == a,
{
}

/// Idempotence of read: a second `read` at the same round, with no
/// intervening write, leaves the state exactly as the first left it, and the
/// first never raises `last_round_entered` beyond the larger of the old
/// promise and the requested round.
pub proof fn lemma_read_idempotent<V>(a: Alpha<V>, round: Round)
    ensures
        a.read_post(round).read_post(round) == a.read_post(round),
        round.spec_le(a.last_round_entered) ==> a.read_post(round) == a,
        a.read_post(round).last_round_entered == (if a.last_round_entered.spec_le(round) {
            round
        } else {
            a.last_round_entered
        }),
{
}

/// At most one index is selectable by the read stage: the selection over a
/// collected quorum is a deterministic reduction.
pub proof fn lemma_chosen_unique<V>(rs: Seq<ReadResponse<V>>, i: int, j: int)
    requires
        read_chosen(rs, i),
        read_chosen(rs, j),
    ensures
        i == j,
{
    if i < j {
        assert(rs[j].state.last_round_entered.spec_lt(rs[i].state.last_round_entered));
        assert(rs[i].state.last_round_entered.spec_le(rs[j].state.last_round_entered));
    }
    if j < i {
        assert(rs[i].state.last_round_entered.spec_lt(rs[j].state.last_round_entered));
        assert(rs[j].state.last_round_entered.spec_le(rs[i].state.last_round_entered));
    }
}

/// Validity: whatever the read stage carries forward is either the proposer's
/// own candidate or a value some acceptor in the collected quorum already
/// held — never a value invented by the stage.
pub proof fn lemma_validity<V>(rs: Seq<ReadResponse<V>>, candidate: V, j: int)
    requires
        read_chosen(rs, j),
    ensures
        carried_value(rs[j], candidate) == candidate || exists|k: int|
            0 <= k < rs.len() && (#[trigger] rs[k]).state.value is Some && carried_value(
                rs[j],
                candidate,
            ) == rs[k].state.value->Some_0.value,
{
    if rs[j].state.value is Some {
        assert(0 <= j < rs.len() && rs[j].state.value is Some && carried_value(rs[j], candidate)
            == rs[j].state.value->Some_0.value);
    }
}

/// Every acceptor step keeps the register well formed: the held value's
/// write round never passes the promise.
pub proof fn lemma_step_preserves_wf<V>(pre: Alpha<V>, post: Alpha<V>)
    requires
        acceptor_step(pre, post),
        pre.wf(),
    ensures
        post.wf(),
{
}

/// An accepted value never regresses: one acceptor step either leaves the
/// held value in place or replaces it with one written under a strictly
/// higher round.  A register that holds a value never returns to holding
/// none.
pub proof fn lemma_value_superseded_only_by_higher<V>(pre: Alpha<V>, post: Alpha<V>, v: Value<V>)
    requires
        acceptor_step(pre, post),
        pre.value == Some(v),
    ensures
        post.value is Some,
        post.value == Some(v) || v.last_round_with_write.spec_lt(
            post.value->Some_0.last_round_with_write,
        ),
{
}

/// Every acceptor in the set `q` currently holds exactly the tagged value
/// `v`: the cluster has decided `v` and the members of `q` still carry it.
pub open spec fn holds_decision<V>(cluster: Map<Id, Alpha<V>>, q: Set<Id>, v: Value<V>) -> bool {
    forall|p: Id| q.contains(p) ==> cluster.dom().contains(p) && (#[trigger] cluster[p]).value
        == Some(v)
}

/// The visibility half of agreement: once a majority holds a decided value,
/// a read quorum collected from any majority of the same peer set contains a
/// response carrying that value — a later proposer cannot assemble a quorum
/// of responses that misses it.
pub proof fn lemma_decided_value_visible<V>(
    cluster: Map<Id, Alpha<V>>,
    peers: Set<Id>,
    q: Set<Id>,
    v: Value<V>,
    q2: Set<Id>,
    rs: Seq<ReadResponse<V>>,
    m: nat,
)
    requires
        peers.finite(),
        q.subset_of(peers),
        q2.subset_of(peers),
        q.len() == m,
        q2.len() == m,
        2 * m > peers.len(),
        holds_decision(cluster, q, v),
        forall|p: Id| q2.contains(p) ==> exists|k: int|
            0 <= k < rs.len() && (#[trigger] rs[k]).state == cluster[p],
    ensures
        exists|k: int| 0 <= k < rs.len() && (#[trigger] rs[k]).state.value == Some(v),
{
    lemma_quorum_intersection(peers, q, q2, m);
    let shared = choose|p: Id| q.contains(p) && q2.contains(p);
    let k = choose|k: int| 0 <= k < rs.len() && (#[trigger] rs[k]).state == cluster[shared];
    assert(0 <= k < rs.len() && rs[k].state.value == Some(v));
}

/// Quorum intersection: over a finite peer set of size `n`, any two subsets
/// of size `m` intersect whenever `2 * m > n` — the reason a decided value
/// can never be missed by a later read quorum.
pub proof fn lemma_quorum_intersection(peers: Set<Id>, a: Set<Id>, b: Set<Id>, m: nat)
    requires
        peers.finite(),
        a.subset_of(peers),
        b.subset_of(peers),
        a.len() == m,
        b.len() == m,
        2 * m > peers.len(),
    ensures
        exists|p: Id| a.contains(p) && b.contains(p),
{
    vstd::set_lib::lemma_len_subset(a, peers);
    vstd::set_lib::lemma_len_subset(b, peers);
    if a.disjoint(b) {
        vstd::set_lib::lemma_set_disjoint_lens(a, b);
        assert((a + b).subset_of(peers));
        vstd::set_lib::lemma_len_subset(a + b, peers);
        assert(false);
    }
    assert(!(forall|p: Id| #[trigger] a.contains(p) ==> !b.contains(p)));
}

} // verus!
