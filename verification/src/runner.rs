//! The stage runner: drives many independent operations with at most a
//! given number of them under way at once.
//!
//! The runner only keeps the books. Its caller starts the operation that
//! [`StageRunner::start_next`] names, as long as it names one, waits for any
//! of the operations under way to end, reports that with
//! [`StageRunner::complete`], and goes on until the runner is finished.
//! Operations are started in the order of their numbers and may end in any
//! order; one that fails is recorded and holds up no other.

use vstd::prelude::*;

verus! {

/// The default number of operations under way at once.
pub const DEFAULT_PARALLEL: usize = 5;

/// The books of a stage, as plain values.
pub struct Stage {
    /// How many operations may be under way at once.
    pub limit: nat,
    /// How many operations the stage has in all; they are numbered from 0.
    pub total: nat,
    /// How many operations have been started: those numbered below this.
    pub started: nat,
    /// The operations under way.
    pub in_flight: Seq<usize>,
    /// The operations that ended well, in the order in which they ended.
    pub succeeded: Seq<usize>,
    /// The operations that failed, in the order in which they ended.
    pub failed: Seq<usize>,
}

/// What can happen to a stage.
pub enum StageEvent {
    /// The caller asks for the next operation to start.
    Start,
    /// The caller reports that operation `id` has ended.
    Complete { id: usize, ok: bool },
}

/// A stage of `total` operations before anything has been started.
pub open spec fn initial(total: nat, limit: nat) -> Stage {
    Stage {
        limit,
        total,
        started: 0,
        in_flight: Seq::empty(),
        succeeded: Seq::empty(),
        failed: Seq::empty(),
    }
}

/// Whether another operation may be started now: one is left to start and
/// fewer than the limit are under way.
pub open spec fn can_start(s: Stage) -> bool {
    s.in_flight.len() < s.limit && s.started < s.total
}

/// The stage after the caller has asked for the next operation.
pub open spec fn after_start(s: Stage) -> Stage {
    if can_start(s) {
        Stage { started: s.started + 1, in_flight: s.in_flight.push(s.started as usize), ..s }
    } else {
        s
    }
}

/// The index of the first of the first `n` operations under way that is
/// `id`, or `-1`.
pub open spec fn flight_index(in_flight: Seq<usize>, id: usize, n: int) -> int
    decreases n,
{
    if n <= 0 {
        -1
    } else if flight_index(in_flight, id, n - 1) >= 0 {
        flight_index(in_flight, id, n - 1)
    } else if in_flight[n - 1] == id {
        n - 1
    } else {
        -1
    }
}

/// Whether operation `id` is under way.
pub open spec fn is_in_flight(s: Stage, id: usize) -> bool {
    flight_index(s.in_flight, id, s.in_flight.len() as int) >= 0
}

/// The stage after operation `id` has been reported as ended. A report of
/// an operation that is not under way changes nothing.
pub open spec fn after_complete(s: Stage, id: usize, ok: bool) -> Stage {
    let at = flight_index(s.in_flight, id, s.in_flight.len() as int);
    if at < 0 {
        s
    } else if ok {
        Stage { in_flight: s.in_flight.remove(at), succeeded: s.succeeded.push(id), ..s }
    } else {
        Stage { in_flight: s.in_flight.remove(at), failed: s.failed.push(id), ..s }
    }
}

/// The stage after an event.
pub open spec fn after(s: Stage, event: StageEvent) -> Stage {
    match event {
        StageEvent::Start => after_start(s),
        StageEvent::Complete { id, ok } => after_complete(s, id, ok),
    }
}

/// The stage after the first `n` of the events, one after another.
pub open spec fn after_all(s: Stage, events: Seq<StageEvent>, n: int) -> Stage
    decreases n,
{
    if n <= 0 {
        s
    } else {
        after(after_all(s, events, n - 1), events[n - 1])
    }
}

/// Whether every operation has been started and has ended.
pub open spec fn is_finished(s: Stage) -> bool {
    s.started == s.total && s.in_flight.len() == 0
}

/// No number occurs twice in `ids`.
pub open spec fn distinct(ids: Seq<usize>) -> bool {
    forall|i: int, j: int| 0 <= i < j < ids.len() ==> ids[i] != ids[j]
}

/// No number occurs in both.
pub open spec fn apart(a: Seq<usize>, b: Seq<usize>) -> bool {
    forall|i: int, j: int| 0 <= i < a.len() && 0 <= j < b.len() ==> a[i] != b[j]
}

/// Every number in `ids` is below `bound`.
pub open spec fn all_below(ids: Seq<usize>, bound: nat) -> bool {
    forall|i: int| 0 <= i < ids.len() ==> ids[i] < bound
}

/// The books are in order: no more operations are under way than the limit
/// allows, and every operation that was started is, once and only once,
/// either under way, or ended well, or failed.
pub open spec fn well_formed(s: Stage) -> bool {
    &&& s.in_flight.len() <= s.limit
    &&& s.started <= s.total
    &&& s.in_flight.len() + s.succeeded.len() + s.failed.len() == s.started
    &&& all_below(s.in_flight, s.started)
    &&& all_below(s.succeeded, s.started)
    &&& all_below(s.failed, s.started)
    &&& distinct(s.in_flight)
    &&& distinct(s.succeeded)
    &&& distinct(s.failed)
    &&& apart(s.in_flight, s.succeeded)
    &&& apart(s.in_flight, s.failed)
    &&& apart(s.succeeded, s.failed)
}

/// The first operation under way with a number has that number, and none
/// before it has.
pub proof fn lemma_flight_index(in_flight: Seq<usize>, id: usize, n: int)
    requires
        0 <= n <= in_flight.len(),
    ensures
        -1 <= flight_index(in_flight, id, n) < n,
        flight_index(in_flight, id, n) >= 0 ==> in_flight[flight_index(in_flight, id, n)] == id,
        forall|j: int|
            0 <= j < n && (flight_index(in_flight, id, n) < 0 || j < flight_index(in_flight, id, n))
                ==> in_flight[j] != id,
    decreases n,
{
    if n > 0 {
        lemma_flight_index(in_flight, id, n - 1);
    }
}

/// A stage that has not begun has its books in order.
pub proof fn lemma_initial_is_well_formed(total: nat, limit: nat)
    ensures
        well_formed(initial(total, limit)),
{
}

/// Starting an operation keeps the books in order.
pub proof fn lemma_start_keeps_order(s: Stage)
    requires
        well_formed(s),
        s.total <= usize::MAX,
    ensures
        well_formed(after_start(s)),
{
    if can_start(s) {
        let r = after_start(s);
        let id = s.started as usize;
        assert forall|i: int, j: int| 0 <= i < j < r.in_flight.len() implies r.in_flight[i]
            != r.in_flight[j] by {
            if j == s.in_flight.len() {
                assert(s.in_flight[i] < s.started);
            }
        }
        assert forall|i: int, j: int|
            0 <= i < r.in_flight.len() && 0 <= j < r.succeeded.len() implies r.in_flight[i]
            != r.succeeded[j] by {
            if i == s.in_flight.len() {
                assert(s.succeeded[j] < s.started);
            }
        }
        assert forall|i: int, j: int|
            0 <= i < r.in_flight.len() && 0 <= j < r.failed.len() implies r.in_flight[i]
            != r.failed[j] by {
            if i == s.in_flight.len() {
                assert(s.failed[j] < s.started);
            }
        }
    }
}

/// Reporting the end of an operation keeps the books in order.
pub proof fn lemma_complete_keeps_order(s: Stage, id: usize, ok: bool)
    requires
        well_formed(s),
    ensures
        well_formed(after_complete(s, id, ok)),
{
    let at = flight_index(s.in_flight, id, s.in_flight.len() as int);
    lemma_flight_index(s.in_flight, id, s.in_flight.len() as int);
    if at >= 0 {
        let r = after_complete(s, id, ok);
        let rest = s.in_flight.remove(at);
        assert forall|i: int| 0 <= i < rest.len() implies #[trigger] rest[i] == s.in_flight[if i
            < at {
            i
        } else {
            i + 1
        }] by {}
        assert forall|i: int| 0 <= i < rest.len() implies rest[i] != id by {
            if i < at {
                assert(s.in_flight[i] != s.in_flight[at]);
            } else {
                assert(s.in_flight[at] != s.in_flight[i + 1]);
            }
        }
        assert(all_below(rest, s.started));
        assert(distinct(rest)) by {
            assert forall|i: int, j: int| 0 <= i < j < rest.len() implies rest[i] != rest[j] by {
                let a = if i < at {
                    i
                } else {
                    i + 1
                };
                let b = if j < at {
                    j
                } else {
                    j + 1
                };
                assert(s.in_flight[a] != s.in_flight[b]);
            }
        }
        assert(apart(rest, s.succeeded)) by {
            assert forall|i: int, j: int|
                0 <= i < rest.len() && 0 <= j < s.succeeded.len() implies rest[i]
                != s.succeeded[j] by {
                let a = if i < at {
                    i
                } else {
                    i + 1
                };
                assert(s.in_flight[a] != s.succeeded[j]);
            }
        }
        assert(apart(rest, s.failed)) by {
            assert forall|i: int, j: int|
                0 <= i < rest.len() && 0 <= j < s.failed.len() implies rest[i] != s.failed[j] by {
                let a = if i < at {
                    i
                } else {
                    i + 1
                };
                assert(s.in_flight[a] != s.failed[j]);
            }
        }
        if ok {
            let done = s.succeeded.push(id);
            assert(distinct(done)) by {
                assert forall|i: int, j: int| 0 <= i < j < done.len() implies done[i]
                    != done[j] by {
                    if j == s.succeeded.len() {
                        assert(s.in_flight[at] != s.succeeded[i]);
                    }
                }
            }
            assert(apart(rest, done));
            assert(apart(done, s.failed)) by {
                assert forall|i: int, j: int|
                    0 <= i < done.len() && 0 <= j < s.failed.len() implies done[i]
                    != s.failed[j] by {
                    if i == s.succeeded.len() {
                        assert(s.in_flight[at] != s.failed[j]);
                    }
                }
            }
            assert(all_below(done, s.started));
        } else {
            let done = s.failed.push(id);
            assert(distinct(done)) by {
                assert forall|i: int, j: int| 0 <= i < j < done.len() implies done[i]
                    != done[j] by {
                    if j == s.failed.len() {
                        assert(s.in_flight[at] != s.failed[i]);
                    }
                }
            }
            assert(apart(rest, done));
            assert(apart(s.succeeded, done)) by {
                assert forall|i: int, j: int|
                    0 <= i < s.succeeded.len() && 0 <= j < done.len() implies s.succeeded[i]
                    != done[j] by {
                    if j == s.failed.len() {
                        assert(s.in_flight[at] != s.succeeded[i]);
                    }
                }
            }
            assert(all_below(done, s.started));
        }
    }
}

/// The bound on concurrency: whatever is asked of a stage and reported to
/// it, in whatever order, at no point are more operations under way than
/// the limit allows. This holds for every limit and for every number of
/// operations, none included.
pub proof fn lemma_never_over_limit(total: nat, limit: nat, events: Seq<StageEvent>, n: int)
    requires
        total <= usize::MAX,
        0 <= n <= events.len(),
    ensures
        well_formed(after_all(initial(total, limit), events, n)),
        after_all(initial(total, limit), events, n).in_flight.len() <= limit,
        after_all(initial(total, limit), events, n).total == total,
        after_all(initial(total, limit), events, n).limit == limit,
    decreases n,
{
    if n > 0 {
        lemma_never_over_limit(total, limit, events, n - 1);
        let before = after_all(initial(total, limit), events, n - 1);
        match events[n - 1] {
            StageEvent::Start => lemma_start_keeps_order(before),
            StageEvent::Complete { id, ok } => lemma_complete_keeps_order(before, id, ok),
        }
    }
}

/// A stage without operations is finished before anything is done.
pub proof fn lemma_nothing_to_do(limit: nat)
    ensures
        is_finished(initial(0, limit)),
{
}

/// With a limit of at least one, a stage that is not finished is never
/// stuck: an operation is under way, or one can be started.
pub proof fn lemma_never_stuck(s: Stage)
    requires
        well_formed(s),
        s.limit >= 1,
        !is_finished(s),
    ensures
        s.in_flight.len() > 0 || can_start(s),
{
}

/// Whether an event changes the stage: a start when one may be started, a
/// report of an operation that is under way.
pub open spec fn takes_effect(s: Stage, event: StageEvent) -> bool {
    match event {
        StageEvent::Start => can_start(s),
        StageEvent::Complete { id, .. } => is_in_flight(s, id),
    }
}

/// How many events that take effect a stage is away from being finished:
/// two for each operation not yet started, one for each under way.
pub open spec fn remaining(s: Stage) -> int {
    2 * (s.total - s.started) + s.in_flight.len()
}

/// A stage comes to its end. Every event that takes effect brings it one
/// step closer, an event that does not changes nothing, and the stage is
/// finished exactly when no step remains: after twice as many effective
/// events as it has operations.
pub proof fn lemma_every_step_counts(s: Stage, event: StageEvent)
    requires
        well_formed(s),
    ensures
        remaining(s) >= 0,
        remaining(s) == 0 <==> is_finished(s),
        takes_effect(s, event) ==> remaining(after(s, event)) == remaining(s) - 1,
        !takes_effect(s, event) ==> after(s, event) == s,
{
    match event {
        StageEvent::Start => {},
        StageEvent::Complete { id, ok } => {
            lemma_flight_index(s.in_flight, id, s.in_flight.len() as int);
        },
    }
}

/// When a stage is finished, every one of its operations has ended, each
/// once: the two records hold `total` different numbers below `total`.
pub proof fn lemma_finished_accounts_for_all(s: Stage)
    requires
        well_formed(s),
        is_finished(s),
    ensures
        s.succeeded.len() + s.failed.len() == s.total,
        all_below(s.succeeded, s.total),
        all_below(s.failed, s.total),
        distinct(s.succeeded),
        distinct(s.failed),
        apart(s.succeeded, s.failed),
{
}

/// The limit to run with: the configured one, or the default of five.
pub open spec fn limit_of(configured: Option<usize>) -> usize {
    match configured {
        Some(k) => k,
        None => DEFAULT_PARALLEL,
    }
}

/// The limit to run with.
pub fn parallel_limit(configured: Option<usize>) -> (r: usize)
    ensures
        r == limit_of(configured),
{
    match configured {
        Some(k) => k,
        None => DEFAULT_PARALLEL,
    }
}

/// The books of one stage of a run.
#[derive(Debug)]
pub struct StageRunner {
    limit: usize,
    total: usize,
    started: usize,
    in_flight: Vec<usize>,
    succeeded: Vec<usize>,
    failed: Vec<usize>,
}

impl View for StageRunner {
    type V = Stage;

    closed spec fn view(&self) -> Stage {
        Stage {
            limit: self.limit as nat,
            total: self.total as nat,
            started: self.started as nat,
            in_flight: self.in_flight@,
            succeeded: self.succeeded@,
            failed: self.failed@,
        }
    }
}

impl StageRunner {
    /// The books of a stage of `total` operations, of which at most `limit`
    /// may be under way at once.
    pub fn new(total: usize, limit: usize) -> (r: StageRunner)
        ensures
            r@ == initial(total as nat, limit as nat),
            well_formed(r@),
    {
        StageRunner {
            limit,
            total,
            started: 0,
            in_flight: Vec::new(),
            succeeded: Vec::new(),
            failed: Vec::new(),
        }
    }

    /// The number of the operation to start now, if one may be started.
    pub fn start_next(&mut self) -> (r: Option<usize>)
        ensures
            final(self)@ == after_start(old(self)@),
            r is Some <==> can_start(old(self)@),
            r matches Some(id) ==> id == old(self)@.started,
            well_formed(old(self)@) ==> well_formed(final(self)@),
    {
        proof {
            if well_formed(self@) {
                lemma_start_keeps_order(self@);
            }
        }
        if self.in_flight.len() < self.limit && self.started < self.total {
            let id = self.started;
            self.in_flight.push(id);
            self.started = id + 1;
            Some(id)
        } else {
            None
        }
    }

    /// Records that operation `id` has ended, well or not. The result says
    /// whether the operation was under way; if it was not, nothing changes.
    pub fn complete(&mut self, id: usize, ok: bool) -> (r: bool)
        ensures
            final(self)@ == after_complete(old(self)@, id, ok),
            r == is_in_flight(old(self)@, id),
            well_formed(old(self)@) ==> well_formed(final(self)@),
    {
        proof {
            if well_formed(self@) {
                lemma_complete_keeps_order(self@, id, ok);
            }
        }
        let mut i: usize = 0;
        while i < self.in_flight.len()
            invariant
                i <= self.in_flight.len(),
                *self == *old(self),
                flight_index(self.in_flight@, id, i as int) < 0,
            decreases self.in_flight.len() - i,
        {
            if self.in_flight[i] == id {
                proof {
                    lemma_found_stays(self.in_flight@, id, i + 1, self.in_flight@.len() as int);
                }
                self.in_flight.remove(i);
                if ok {
                    self.succeeded.push(id);
                } else {
                    self.failed.push(id);
                }
                return true;
            }
            i = i + 1;
        }
        false
    }

    /// Whether every operation has been started and has ended.
    pub fn is_finished(&self) -> (r: bool)
        ensures
            r == is_finished(self@),
    {
        self.started == self.total && self.in_flight.len() == 0
    }

    /// How many operations may be under way at once.
    pub fn limit(&self) -> (r: usize)
        ensures
            r == self@.limit,
    {
        self.limit
    }

    /// How many operations the stage has in all.
    pub fn total(&self) -> (r: usize)
        ensures
            r == self@.total,
    {
        self.total
    }

    /// How many operations have been started.
    pub fn started(&self) -> (r: usize)
        ensures
            r == self@.started,
    {
        self.started
    }

    /// The operations under way.
    pub fn in_flight(&self) -> (r: &Vec<usize>)
        ensures
            r@ == self@.in_flight,
    {
        &self.in_flight
    }

    /// The operations that ended well, in the order in which they ended.
    pub fn succeeded(&self) -> (r: &Vec<usize>)
        ensures
            r@ == self@.succeeded,
    {
        &self.succeeded
    }

    /// The operations that failed, in the order in which they ended.
    pub fn failed(&self) -> (r: &Vec<usize>)
        ensures
            r@ == self@.failed,
    {
        &self.failed
    }
}

/// Once an operation has been found under way, looking further finds the
/// same one.
proof fn lemma_found_stays(in_flight: Seq<usize>, id: usize, n: int, m: int)
    requires
        0 < n <= m <= in_flight.len(),
        flight_index(in_flight, id, n) >= 0,
    ensures
        flight_index(in_flight, id, m) == flight_index(in_flight, id, n),
    decreases m - n,
{
    if n < m {
        lemma_found_stays(in_flight, id, n, m - 1);
    }
}

} // verus!
