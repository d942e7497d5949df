//! The books of a whole run.
//!
//! A run has two stages. In the first the version of every configured addon
//! is resolved; in the second the addons that the lock store holds to be
//! stale are downloaded and unpacked. The second stage begins only when the
//! first has ended, since the store must see everything that was resolved
//! before anything is fetched. Within a stage the operations are started in
//! order, a bounded number of them at a time, and end in any order. A
//! failure concerns its own addon only: it is recorded for the report and
//! holds up nothing else.
//!
//! The operations themselves are carried out by the caller, who asks for
//! the next one to start, reports each one that has ended, and at the end
//! takes the merged store and the report.

use vstd::prelude::*;
use vstd::string::*;
use crate::addon::{key_of, Addon, AddonLock, AddonView, LockView};
use crate::error::{ErrorView, SyncError};
use crate::install::{
    addon_views, failure_views, is_first_unknown, is_known, job_view, plan_locks, summarize,
    summary_of, Summary,
};
use crate::lock::{
    admits, admitted_by, current_by, lemma_merge_never_downgrades,
    lemma_select_parts_everything, lookup, merged, pair_views, unique_keys, views, LockStore,
};
use crate::progress::Phase;
use crate::runner::{
    after_complete, after_start, can_start, initial, is_finished, is_in_flight,
    lemma_complete_keeps_order, lemma_flight_index, lemma_start_keeps_order, limit_of,
    parallel_limit, well_formed, Stage, StageRunner,
};

verus! {

/// An addon to resolve, with the lock of the previous run if there is one.
pub type Job = (AddonView, Option<LockView>);

/// The books of a run, as plain values.
pub struct InstallView {
    /// The locks of what was installed before the run.
    pub store: Seq<LockView>,
    /// The stage that the run is in: `GettingLocks` or `Downloading`.
    pub phase: Phase,
    /// What there is to resolve; the operations of the first stage.
    pub jobs: Seq<Job>,
    /// The books of the present stage.
    pub stage: Stage,
    /// What has been resolved, in the order in which it was reported.
    pub resolved: Seq<(AddonView, LockView)>,
    /// What must be downloaded; the operations of the second stage.
    pub stale: Seq<(AddonView, LockView)>,
    /// What was found to be current.
    pub current: Seq<(AddonView, LockView)>,
    /// The locks of what has been downloaded and unpacked.
    pub installed: Seq<LockView>,
    /// What has failed, and why.
    pub failures: Seq<(AddonView, ErrorView)>,
}

/// The jobs of a sequence as plain values.
pub open spec fn job_views(jobs: Seq<(Addon, Option<AddonLock>)>) -> Seq<Job> {
    Seq::new(jobs.len(), |i: int| job_view(jobs[i]))
}

/// The jobs for a list of addons: each with the lock that the store holds
/// for it.
pub open spec fn jobs_of(addons: Seq<AddonView>, store: Seq<LockView>) -> Seq<Job> {
    Seq::new(
        addons.len(),
        |i: int| (addons[i], lookup(store, key_of(addons[i].provider, addons[i].name))),
    )
}

/// The run once the first stage has ended, if it has: the store parts what
/// was resolved into stale and current, and the second stage begins with
/// the stale addons as its operations. A run in which nothing is stale is
/// finished at that moment.
pub open spec fn settled(s: InstallView) -> InstallView {
    if s.phase == Phase::GettingLocks && is_finished(s.stage) {
        InstallView {
            phase: Phase::Downloading,
            stale: s.resolved.filter(admitted_by(s.store)),
            current: s.resolved.filter(current_by(s.store)),
            stage: initial(s.resolved.filter(admitted_by(s.store)).len(), s.stage.limit),
            ..s
        }
    } else {
        s
    }
}

/// The run at its beginning. Without addons it is finished at once.
pub open spec fn begun(addons: Seq<AddonView>, store: Seq<LockView>, limit: nat) -> InstallView {
    settled(
        InstallView {
            store,
            phase: Phase::GettingLocks,
            jobs: jobs_of(addons, store),
            stage: initial(addons.len(), limit),
            resolved: Seq::empty(),
            stale: Seq::empty(),
            current: Seq::empty(),
            installed: Seq::empty(),
            failures: Seq::empty(),
        },
    )
}

/// Whether an operation of stage `phase` may be started now.
pub open spec fn may_start(s: InstallView, phase: Phase) -> bool {
    s.phase == phase && can_start(s.stage)
}

/// The run after the caller has asked for the next operation of stage
/// `phase`: outside that stage nothing is started.
pub open spec fn after_next(s: InstallView, phase: Phase) -> InstallView {
    if s.phase == phase {
        InstallView { stage: after_start(s.stage), ..s }
    } else {
        s
    }
}

/// The run after the resolution of job `op` has been reported. A report
/// outside the first stage, or of a job that is not under way, changes
/// nothing. A failure is recorded and nothing more.
pub open spec fn after_lock_done(
    s: InstallView,
    op: usize,
    result: Result<LockView, ErrorView>,
) -> InstallView {
    if s.phase == Phase::GettingLocks && is_in_flight(s.stage, op) {
        settled(
            match result {
                Ok(lock) => InstallView {
                    stage: after_complete(s.stage, op, true),
                    resolved: s.resolved.push((s.jobs[op as int].0, lock)),
                    ..s
                },
                Err(e) => InstallView {
                    stage: after_complete(s.stage, op, false),
                    failures: s.failures.push((s.jobs[op as int].0, e)),
                    ..s
                },
            },
        )
    } else {
        s
    }
}

/// The run after the download of stale addon `op` has been reported: its
/// lock counts as installed if the archive was fetched and unpacked, else
/// the failure is recorded.
pub open spec fn after_download_done(
    s: InstallView,
    op: usize,
    result: Result<(), ErrorView>,
) -> InstallView {
    if s.phase == Phase::Downloading && is_in_flight(s.stage, op) {
        match result {
            Ok(_) => InstallView {
                stage: after_complete(s.stage, op, true),
                installed: s.installed.push(s.stale[op as int].1),
                ..s
            },
            Err(e) => InstallView {
                stage: after_complete(s.stage, op, false),
                failures: s.failures.push((s.stale[op as int].0, e)),
                ..s
            },
        }
    } else {
        s
    }
}

/// Whether the run has nothing left to do.
pub open spec fn run_finished(s: InstallView) -> bool {
    s.phase == Phase::Downloading && is_finished(s.stage)
}

/// The books of a run are in order: those of its stage are, the stage has
/// the operations of its phase, what was resolved has been parted into
/// stale and current as the store says, and every addon that has ended is
/// on record once.
pub open spec fn sound(s: InstallView) -> bool {
    &&& well_formed(s.stage)
    &&& unique_keys(s.store)
    &&& s.phase == Phase::GettingLocks || s.phase == Phase::Downloading
    &&& s.phase == Phase::GettingLocks ==> {
        &&& s.stage.total == s.jobs.len()
        &&& s.stale.len() == 0
        &&& s.current.len() == 0
        &&& s.installed.len() == 0
        &&& s.resolved.len() == s.stage.succeeded.len()
        &&& s.failures.len() == s.stage.failed.len()
    }
    &&& s.phase == Phase::Downloading ==> {
        &&& s.stage.total == s.stale.len()
        &&& s.installed.len() == s.stage.succeeded.len()
        &&& s.stale.len() + s.current.len() == s.resolved.len()
        &&& s.resolved.len() + s.failures.len() == s.jobs.len() + s.stage.failed.len()
    }
    &&& forall|i: int| 0 <= i < s.stale.len() ==> admits(s.store, (#[trigger] s.stale[i]).1)
    &&& forall|i: int| 0 <= i < s.current.len() ==> !admits(s.store, (#[trigger] s.current[i]).1)
    &&& forall|i: int| 0 <= i < s.installed.len() ==> admits(s.store, #[trigger] s.installed[i])
}

/// When a run is finished, every configured addon is in the report, once:
/// as installed, as current, or as failed.
pub proof fn lemma_report_names_every_addon(s: InstallView)
    requires
        sound(s),
        run_finished(s),
    ensures
        s.installed.len() + s.current.len() + s.failures.len() == s.jobs.len(),
{
}

/// An operation that is under way is one of the stage's operations.
pub proof fn lemma_in_flight_is_started(stage: Stage, op: usize)
    requires
        well_formed(stage),
        is_in_flight(stage, op),
    ensures
        op < stage.started,
        op < stage.total,
{
    lemma_flight_index(stage.in_flight, op, stage.in_flight.len() as int);
}

/// No download is started before every resolution has ended: as long as
/// the run is in its first stage, asking for a download starts nothing, and
/// the second stage is entered only when the first is finished.
pub proof fn lemma_downloads_wait_for_locks(s: InstallView)
    requires
        s.phase == Phase::GettingLocks,
    ensures
        !may_start(s, Phase::Downloading),
        after_next(s, Phase::Downloading) == s,
        settled(s).phase == Phase::Downloading <==> is_finished(s.stage),
{
}

/// A run without addons is finished before anything is done, whatever the
/// limit and whatever the store holds.
pub proof fn lemma_empty_run_is_finished(store: Seq<LockView>, limit: nat)
    ensures
        run_finished(begun(Seq::empty(), store, limit)),
        begun(Seq::empty(), store, limit).stale.len() == 0,
{
    let none = Seq::<(AddonView, LockView)>::empty();
    assert(none.filter(admitted_by(store)).len() == 0) by {
        none.lemma_filter_len(admitted_by(store));
    }
}

/// Passing from the first stage to the second keeps the books in order.
pub proof fn lemma_settled_is_sound(s: InstallView)
    requires
        sound(s),
    ensures
        sound(settled(s)),
{
    if s.phase == Phase::GettingLocks && is_finished(s.stage) {
        let r = settled(s);
        lemma_select_parts_everything(s.store, s.resolved);
        assert forall|i: int| 0 <= i < r.stale.len() implies admits(
            s.store,
            (#[trigger] r.stale[i]).1,
        ) by {
            s.resolved.lemma_filter_pred(admitted_by(s.store), i);
        }
        assert forall|i: int| 0 <= i < r.current.len() implies !admits(
            s.store,
            (#[trigger] r.current[i]).1,
        ) by {
            s.resolved.lemma_filter_pred(current_by(s.store), i);
        }
    }
}

/// A run begins with its books in order.
pub proof fn lemma_begun_is_sound(addons: Seq<AddonView>, store: Seq<LockView>, limit: nat)
    requires
        unique_keys(store),
    ensures
        sound(begun(addons, store, limit)),
{
    let first = InstallView {
        store,
        phase: Phase::GettingLocks,
        jobs: jobs_of(addons, store),
        stage: initial(addons.len(), limit),
        resolved: Seq::empty(),
        stale: Seq::empty(),
        current: Seq::empty(),
        installed: Seq::empty(),
        failures: Seq::empty(),
    };
    assert(sound(first));
    lemma_settled_is_sound(first);
}

/// Whatever is asked of a run and reported to it, its books stay in order.
/// In particular no more operations are ever under way than the limit
/// allows, in either stage.
pub proof fn lemma_run_stays_sound(
    s: InstallView,
    phase: Phase,
    op: usize,
    resolved: Result<LockView, ErrorView>,
    fetched: Result<(), ErrorView>,
)
    requires
        sound(s),
        s.stage.total <= usize::MAX,
    ensures
        sound(after_next(s, phase)),
        sound(after_lock_done(s, op, resolved)),
        sound(after_download_done(s, op, fetched)),
        after_next(s, phase).stage.in_flight.len() <= s.stage.limit,
        after_lock_done(s, op, resolved).stage.in_flight.len() <= s.stage.limit,
        after_download_done(s, op, fetched).stage.in_flight.len() <= s.stage.limit,
{
    lemma_start_keeps_order(s.stage);
    lemma_complete_keeps_order(s.stage, op, true);
    lemma_complete_keeps_order(s.stage, op, false);
    if is_in_flight(s.stage, op) {
        lemma_in_flight_is_started(s.stage, op);
    }
    if s.phase == Phase::GettingLocks && is_in_flight(s.stage, op) {
        let next = match resolved {
            Ok(lock) => InstallView {
                stage: after_complete(s.stage, op, true),
                resolved: s.resolved.push((s.jobs[op as int].0, lock)),
                ..s
            },
            Err(e) => InstallView {
                stage: after_complete(s.stage, op, false),
                failures: s.failures.push((s.jobs[op as int].0, e)),
                ..s
            },
        };
        assert(sound(next));
        lemma_settled_is_sound(next);
    }
}

/// A failure is not fatal to the run: reporting one records it and leaves
/// everything that was resolved or installed as it was.
pub proof fn lemma_failure_is_isolated(s: InstallView, op: usize, e: ErrorView)
    ensures
        s.phase == Phase::GettingLocks ==> after_lock_done(s, op, Err(e)).resolved == s.resolved,
        after_download_done(s, op, Err(e)).installed == s.installed,
        after_download_done(s, op, Err(e)).stale == s.stale,
        after_download_done(s, op, Err(e)).store == s.store,
{
}

/// The store that a run leaves behind never holds an older version than
/// the store it began with: each lock that was there is either untouched or
/// replaced by one that was published strictly later.
pub proof fn lemma_run_never_downgrades(s: InstallView, i: int)
    requires
        sound(s),
        0 <= i < s.store.len(),
    ensures
        merged(s.store, s.installed)[i].name == s.store[i].name,
        merged(s.store, s.installed)[i] == s.store[i] || merged(s.store, s.installed)[i].timestamp
            > s.store[i].timestamp,
{
    lemma_merge_never_downgrades(s.store, s.installed, i);
}

/// An operation to start in the first stage.
#[derive(Debug, PartialEq, Eq)]
pub struct LockJob {
    /// The number to report the operation under.
    pub op: usize,
    pub addon: Addon,
    /// The lock of the previous run, if there is one.
    pub old_lock: Option<AddonLock>,
}

/// An operation to start in the second stage.
#[derive(Debug, PartialEq, Eq)]
pub struct DownloadJob {
    /// The number to report the operation under.
    pub op: usize,
    pub addon: Addon,
    /// The lock that was resolved for the addon.
    pub lock: AddonLock,
}

/// The books of a run.
#[derive(Debug)]
pub struct Install {
    store: LockStore,
    phase: Phase,
    jobs: Vec<(Addon, Option<AddonLock>)>,
    runner: StageRunner,
    resolved: Vec<(Addon, AddonLock)>,
    stale: Vec<(Addon, AddonLock)>,
    current: Vec<(Addon, AddonLock)>,
    installed: Vec<AddonLock>,
    failures: Vec<(Addon, SyncError)>,
}

impl View for Install {
    type V = InstallView;

    closed spec fn view(&self) -> InstallView {
        InstallView {
            store: self.store@,
            phase: self.phase,
            jobs: job_views(self.jobs@),
            stage: self.runner@,
            resolved: pair_views(self.resolved@),
            stale: pair_views(self.stale@),
            current: pair_views(self.current@),
            installed: views(self.installed@),
            failures: failure_views(self.failures@),
        }
    }
}

impl Install {
    #[verifier::type_invariant]
    spec fn in_order(self) -> bool {
        sound(self@)
    }

    /// The run in its first stage moves on to the second if the first has
    /// ended.
    fn settle(
        store: LockStore,
        jobs: Vec<(Addon, Option<AddonLock>)>,
        runner: StageRunner,
        resolved: Vec<(Addon, AddonLock)>,
        failures: Vec<(Addon, SyncError)>,
    ) -> (r: Install)
        requires
            well_formed(runner@),
            runner@.total == jobs@.len(),
            resolved@.len() == runner@.succeeded.len(),
            failures@.len() == runner@.failed.len(),
        ensures
            r@ == settled(
                InstallView {
                    store: store@,
                    phase: Phase::GettingLocks,
                    jobs: job_views(jobs@),
                    stage: runner@,
                    resolved: pair_views(resolved@),
                    stale: Seq::empty(),
                    current: Seq::empty(),
                    installed: Seq::empty(),
                    failures: failure_views(failures@),
                },
            ),
    {
        let stale: Vec<(Addon, AddonLock)> = Vec::new();
        let current: Vec<(Addon, AddonLock)> = Vec::new();
        let installed: Vec<AddonLock> = Vec::new();
        let _entries = store.entries();
        assert(pair_views(stale@) =~= Seq::<(AddonView, LockView)>::empty());
        assert(pair_views(current@) =~= Seq::<(AddonView, LockView)>::empty());
        assert(views(installed@) =~= Seq::<LockView>::empty());
        if runner.is_finished() {
            let selection = store.select(&resolved);
            let limit = runner.limit();
            let next = StageRunner::new(selection.stale.len(), limit);
            proof {
                let all = pair_views(resolved@);
                let kept = pair_views(selection.stale@);
                let left = pair_views(selection.current@);
                assert forall|i: int| 0 <= i < kept.len() implies admits(
                    store@,
                    (#[trigger] kept[i]).1,
                ) by {
                    all.lemma_filter_pred(admitted_by(store@), i);
                }
                assert forall|i: int| 0 <= i < left.len() implies !admits(
                    store@,
                    (#[trigger] left[i]).1,
                ) by {
                    all.lemma_filter_pred(current_by(store@), i);
                }
                lemma_select_parts_everything(store@, all);
            }
            Install {
                store,
                phase: Phase::Downloading,
                jobs,
                runner: next,
                resolved,
                stale: selection.stale,
                current: selection.current,
                installed,
                failures,
            }
        } else {
            Install {
                store,
                phase: Phase::GettingLocks,
                jobs,
                runner,
                resolved,
                stale,
                current,
                installed,
                failures,
            }
        }
    }

    /// Begins a run over the configured addons, with the locks of what is
    /// installed and the configured limit on operations under way, five if
    /// none is configured. A limit of zero, under which nothing could ever
    /// start, is a configuration error. So is an addon with a provider that
    /// is not known; the error names the provider of the first such addon.
    /// With either no run begins.
    pub fn begin(addons: &Vec<Addon>, store: LockStore, parallel: Option<usize>) -> (r: Result<
        Install,
        SyncError,
    >)
        ensures
            match r {
                Ok(run) => {
                    &&& limit_of(parallel) >= 1
                    &&& forall|i: int|
                        0 <= i < addons@.len() ==> is_known(#[trigger] addon_views(addons@)[i])
                    &&& run@ == begun(addon_views(addons@), store@, limit_of(parallel) as nat)
                    &&& sound(run@)
                },
                Err(e) => if limit_of(parallel) == 0 {
                    e@ == ErrorView::ZeroLimit
                } else {
                    exists|i: int|
                        is_first_unknown(addon_views(addons@), i) && e@ == (
                        ErrorView::UnknownProvider { provider: addons@[i]@.provider })
                },
            },
    {
        let limit = parallel_limit(parallel);
        if limit == 0 {
            return Err(SyncError::ZeroLimit);
        }
        match plan_locks(addons, &store) {
            Err(e) => Err(e),
            Ok(jobs) => {
                let runner = StageRunner::new(jobs.len(), limit);
                let resolved: Vec<(Addon, AddonLock)> = Vec::new();
                let failures: Vec<(Addon, SyncError)> = Vec::new();
                proof {
                    assert(job_views(jobs@) =~= jobs_of(addon_views(addons@), store@));
                    assert(pair_views(resolved@) =~= Seq::<(AddonView, LockView)>::empty());
                    assert(failure_views(failures@) =~= Seq::<(AddonView, ErrorView)>::empty());
                }
                let run = Install::settle(store, jobs, runner, resolved, failures);
                proof {
                    use_type_invariant(&run);
                }
                Ok(run)
            },
        }
    }

    /// The stage that the run is in.
    pub fn phase(&self) -> (r: Phase)
        ensures
            r == self@.phase,
            sound(self@),
    {
        proof {
            use_type_invariant(self);
        }
        self.phase
    }

    /// Whether the run has nothing left to do.
    pub fn is_finished(&self) -> (r: bool)
        ensures
            r == run_finished(self@),
    {
        match self.phase {
            Phase::Downloading => self.runner.is_finished(),
            _ => false,
        }
    }

    /// How many operations are under way; never more than the limit.
    pub fn in_flight(&self) -> (r: usize)
        ensures
            r == self@.stage.in_flight.len(),
            r <= self@.stage.limit,
    {
        proof {
            use_type_invariant(self);
        }
        self.runner.in_flight().len()
    }

    /// The next resolution to start, if one may be started now.
    pub fn next_lock(self) -> (r: (Install, Option<LockJob>))
        ensures
            r.0@ == after_next(self@, Phase::GettingLocks),
            sound(r.0@),
            match r.1 {
                Some(job) => may_start(self@, Phase::GettingLocks) && job.op == self@.stage.started
                    && job.op < self@.jobs.len() && job_view((job.addon, job.old_lock))
                    == self@.jobs[job.op as int],
                None => !may_start(self@, Phase::GettingLocks),
            },
    {
        proof {
            use_type_invariant(&self);
        }
        let Install {
            store,
            phase,
            jobs,
            mut runner,
            resolved,
            stale,
            current,
            installed,
            failures,
        } = self;
        let job = match phase {
            Phase::GettingLocks => match runner.start_next() {
                Some(op) => {
                    let old_lock = match &jobs[op].1 {
                        Some(lock) => Some(lock.clone()),
                        None => None,
                    };
                    let addon = jobs[op].0.clone();
                    assert(job_views(jobs@)[op as int] == job_view(jobs@[op as int]));
                    assert(job_view((addon, old_lock)) == job_view(jobs@[op as int]));
                    Some(LockJob { op, addon, old_lock })
                },
                None => None,
            },
            _ => None,
        };
        (Install { store, phase, jobs, runner, resolved, stale, current, installed, failures }, job)
    }

    /// Records how the resolution of job `op` has ended. When it was the
    /// last of the first stage, the second stage begins.
    pub fn lock_done(self, op: usize, result: Result<AddonLock, SyncError>) -> (r: Install)
        ensures
            r@ == after_lock_done(
                self@,
                op,
                match result {
                    Ok(lock) => Ok(lock@),
                    Err(e) => Err(e@),
                },
            ),
            sound(r@),
    {
        proof {
            use_type_invariant(&self);
        }
        let Install {
            store,
            phase,
            jobs,
            mut runner,
            mut resolved,
            stale,
            current,
            installed,
            mut failures,
        } = self;
        let ghost before = runner@;
        let ghost resolved_before = pair_views(resolved@);
        let ghost failures_before = failure_views(failures@);
        let r = match phase {
            Phase::GettingLocks => {
                if runner.complete(op, result.is_ok()) {
                    proof {
                        lemma_in_flight_is_started(before, op);
                    }
                    let addon = jobs[op].0.clone();
                    assert(job_views(jobs@)[op as int].0 == addon@);
                    match result {
                        Ok(lock) => {
                            resolved.push((addon, lock));
                            assert(pair_views(resolved@) =~= resolved_before.push(
                                (addon@, lock@),
                            ));
                        },
                        Err(e) => {
                            failures.push((addon, e));
                            assert(failure_views(failures@) =~= failures_before.push(
                                (addon@, e@),
                            ));
                        },
                    }
                    assert(pair_views(stale@) =~= Seq::<(AddonView, LockView)>::empty());
                    assert(pair_views(current@) =~= Seq::<(AddonView, LockView)>::empty());
                    assert(views(installed@) =~= Seq::<LockView>::empty());
                    Install::settle(store, jobs, runner, resolved, failures)
                } else {
                    Install {
                        store,
                        phase,
                        jobs,
                        runner,
                        resolved,
                        stale,
                        current,
                        installed,
                        failures,
                    }
                }
            },
            _ => {
                Install { store, phase, jobs, runner, resolved, stale, current, installed, failures }
            },
        };
        proof {
            use_type_invariant(&r);
        }
        r
    }

    /// The next download to start, if one may be started now.
    pub fn next_download(self) -> (r: (Install, Option<DownloadJob>))
        ensures
            r.0@ == after_next(self@, Phase::Downloading),
            sound(r.0@),
            match r.1 {
                Some(job) => may_start(self@, Phase::Downloading) && job.op == self@.stage.started
                    && job.op < self@.stale.len() && (job.addon@, job.lock@)
                    == self@.stale[job.op as int],
                None => !may_start(self@, Phase::Downloading),
            },
    {
        proof {
            use_type_invariant(&self);
        }
        let Install {
            store,
            phase,
            jobs,
            mut runner,
            resolved,
            stale,
            current,
            installed,
            failures,
        } = self;
        let job = match phase {
            Phase::Downloading => match runner.start_next() {
                Some(op) => {
                    let addon = stale[op].0.clone();
                    let lock = stale[op].1.clone();
                    assert(pair_views(stale@)[op as int] == (addon@, lock@));
                    Some(DownloadJob { op, addon, lock })
                },
                None => None,
            },
            _ => None,
        };
        (Install { store, phase, jobs, runner, resolved, stale, current, installed, failures }, job)
    }

    /// Records how the download of stale addon `op` has ended: `Ok` when
    /// the archive was fetched and unpacked.
    pub fn download_done(self, op: usize, result: Result<(), SyncError>) -> (r: Install)
        ensures
            r@ == after_download_done(
                self@,
                op,
                match result {
                    Ok(_) => Ok(()),
                    Err(e) => Err(e@),
                },
            ),
            sound(r@),
    {
        proof {
            use_type_invariant(&self);
        }
        let Install {
            store,
            phase,
            jobs,
            mut runner,
            resolved,
            stale,
            current,
            mut installed,
            mut failures,
        } = self;
        let ghost before = runner@;
        let ghost installed_before = views(installed@);
        let ghost failures_before = failure_views(failures@);
        match phase {
            Phase::Downloading => {
                if runner.complete(op, result.is_ok()) {
                    proof {
                        lemma_in_flight_is_started(before, op);
                    }
                    match result {
                        Ok(_) => {
                            let lock = stale[op].1.clone();
                            installed.push(lock);
                            assert(views(installed@) =~= installed_before.push(
                                pair_views(stale@)[op as int].1,
                            ));
                        },
                        Err(e) => {
                            let addon = stale[op].0.clone();
                            failures.push((addon, e));
                            assert(failure_views(failures@) =~= failures_before.push(
                                (pair_views(stale@)[op as int].0, e@),
                            ));
                        },
                    }
                }
            },
            _ => {},
        }
        let r =
            Install { store, phase, jobs, runner, resolved, stale, current, installed, failures };
        proof {
            use_type_invariant(&r);
        }
        r
    }

    /// Ends the run: the store with the locks of what was installed merged
    /// in, to be persisted, and the report. This may be asked at any time;
    /// what has not been installed by then is not in the store.
    pub fn finish(self) -> (r: (LockStore, Summary))
        ensures
            r.0@ == merged(self@.store, self@.installed),
            unique_keys(r.0@),
            r.1@ == summary_of(self@.installed, self@.current, self@.failures),
    {
        let store = self.store.merge(&self.installed);
        let summary = summarize(&self.installed, &self.current, &self.failures);
        (store, summary)
    }
}

} // verus!
