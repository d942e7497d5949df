//! Planning a run: which addons to resolve, what to add, and what to report
//! at the end.
//!
//! A run resolves the version of every configured addon, lets the lock
//! store say which of them are stale, downloads those, and merges the locks
//! of what was downloaded into the store. Resolving and downloading are two
//! stages, each driven by a [`crate::runner::StageRunner`]; the second
//! begins when the first has ended.

use vstd::prelude::*;
use vstd::string::*;
use crate::addon::{key_of, provider_named, Addon, AddonLock, AddonView, LockView};
use crate::error::{described, ErrorView, SyncError};
use crate::lock::{find_existing_lock, lookup, pair_views, views, LockStore};
use crate::text::{
    after_last, chars_of, find_last, last_index, lemma_last_index, lowercase, slice_of,
    to_lowercase,
};

verus! {

/// The addon that `provider/name` names: the text must hold exactly one
/// slash, the provider before it and the name after it.
pub open spec fn split_addon(low: Seq<char>) -> Option<AddonView> {
    let slash = last_index(low, "/"@);
    if slash >= 0 && last_index(low.subrange(0, slash), "/"@) < 0 {
        Some(AddonView { name: after_last(low, "/"@), provider: low.subrange(0, slash) })
    } else {
        None
    }
}

/// What to do about a request to add an addon.
#[derive(Debug, PartialEq, Eq)]
pub enum AddPlan {
    /// The text is not of the form `provider/name`.
    BadFormat,
    /// The store has a lock for the addon already.
    AlreadyInstalled,
    /// The provider is not one that is known: a configuration error.
    UnknownProvider,
    /// Resolve and download the addon, then add it to the configuration.
    Install(Addon),
}

/// An `AddPlan` as plain values.
pub enum AddPlanView {
    BadFormat,
    AlreadyInstalled,
    UnknownProvider,
    Install(AddonView),
}

impl View for AddPlan {
    type V = AddPlanView;

    open spec fn view(&self) -> AddPlanView {
        match self {
            AddPlan::BadFormat => AddPlanView::BadFormat,
            AddPlan::AlreadyInstalled => AddPlanView::AlreadyInstalled,
            AddPlan::UnknownProvider => AddPlanView::UnknownProvider,
            AddPlan::Install(addon) => AddPlanView::Install(addon@),
        }
    }
}

/// The addon that a text names once it has been put in lower case.
pub open spec fn named_addon(text: Seq<char>) -> Option<AddonView> {
    split_addon(lowercase(text))
}

/// What to do about a request to add the addon that `low` names, a text in
/// lower case, given the locks of what is installed.
pub open spec fn add_plan(low: Seq<char>, store: Seq<LockView>) -> AddPlanView {
    match split_addon(low) {
        None => AddPlanView::BadFormat,
        Some(addon) => if lookup(store, low) is Some {
            AddPlanView::AlreadyInstalled
        } else if provider_named(addon.provider) is None {
            AddPlanView::UnknownProvider
        } else {
            AddPlanView::Install(addon)
        },
    }
}

/// The addon that a text names is stored under that very text: provider,
/// slash and name put together give the text back.
pub proof fn lemma_split_addon_gives_the_key(low: Seq<char>)
    ensures
        split_addon(low) matches Some(addon) ==> key_of(addon.provider, addon.name) == low,
{
    if split_addon(low) is Some {
        let slash = last_index(low, "/"@);
        lemma_last_index(low, "/"@);
        assert(low.subrange(slash, slash + "/"@.len()) == "/"@);
        assert(low =~= low.subrange(0, slash) + low.subrange(slash, slash + "/"@.len())
            + low.subrange(slash + "/"@.len(), low.len() as int));
    }
}

/// The addon that a text in lower case names, if it has the form
/// `provider/name`.
pub fn split_addon_name(low: &str) -> (r: Option<Addon>)
    ensures
        match r {
            Some(addon) => split_addon(low@) == Some(addon@),
            None => split_addon(low@) is None,
        },
{
    let hay = chars_of(low);
    let slash = chars_of("/");
    proof {
        lemma_last_index(low@, "/"@);
    }
    match find_last(&hay, &slash) {
        None => None,
        Some(at) => {
            let provider = slice_of(low, 0, at);
            let before = chars_of(provider.as_str());
            match find_last(&before, &slash) {
                Some(_) => None,
                None => {
                    let end = hay.len();
                    let name = slice_of(low, at + slash.len(), end);
                    Some(Addon { name, provider })
                },
            }
        },
    }
}

/// The addon that `text` names, if it has the form `provider/name`.
pub fn parse_addon_name(text: &str) -> (r: Option<Addon>)
    ensures
        match r {
            Some(addon) => named_addon(text@) == Some(addon@),
            None => named_addon(text@) is None,
        },
{
    let low = to_lowercase(text);
    split_addon_name(low.as_str())
}

/// What to do about a request to add the addon that `low` names, a text in
/// lower case.
pub fn plan_add_lowercase(low: String, store: &LockStore) -> (r: AddPlan)
    ensures
        r@ == add_plan(low@, store@),
{
    match split_addon_name(low.as_str()) {
        None => AddPlan::BadFormat,
        Some(addon) => {
            if store.get(&low).is_some() {
                AddPlan::AlreadyInstalled
            } else if addon.provider_kind().is_none() {
                AddPlan::UnknownProvider
            } else {
                AddPlan::Install(addon)
            }
        },
    }
}

/// What to do about a request to add the addon that `text` names.
pub fn plan_add(text: &str, store: &LockStore) -> (r: AddPlan)
    ensures
        r@ == add_plan(lowercase(text@), store@),
{
    plan_add_lowercase(to_lowercase(text), store)
}

/// The addons of a sequence as plain values.
pub open spec fn addon_views(addons: Seq<Addon>) -> Seq<AddonView> {
    Seq::new(addons.len(), |i: int| addons[i]@)
}

/// Whether the provider of an addon is a known one.
pub open spec fn is_known(addon: AddonView) -> bool {
    provider_named(addon.provider) is Some
}

/// Addon `i` is the first whose provider is not known.
pub open spec fn is_first_unknown(addons: Seq<AddonView>, i: int) -> bool {
    &&& 0 <= i < addons.len()
    &&& !is_known(addons[i])
    &&& forall|j: int| 0 <= j < i ==> is_known(#[trigger] addons[j])
}

/// The view of a job: an addon and the lock of the previous run, if any.
pub open spec fn job_view(job: (Addon, Option<AddonLock>)) -> (AddonView, Option<LockView>) {
    (
        job.0@,
        match job.1 {
            Some(lock) => Some(lock@),
            None => None,
        },
    )
}

/// What there is to resolve: every configured addon, in order, each with
/// the lock that the store holds for it. An addon with a provider that is
/// not known is a configuration error, which ends the run before it starts;
/// the error names the provider of the first such addon.
pub fn plan_locks(addons: &Vec<Addon>, store: &LockStore) -> (r: Result<
    Vec<(Addon, Option<AddonLock>)>,
    SyncError,
>)
    ensures
        match r {
            Ok(jobs) => {
                &&& jobs@.len() == addons@.len()
                &&& forall|i: int|
                    0 <= i < jobs@.len() ==> job_view(#[trigger] jobs@[i]) == (
                        addons@[i]@,
                        lookup(store@, key_of(addons@[i]@.provider, addons@[i]@.name)),
                    )
                &&& forall|i: int|
                    0 <= i < addons@.len() ==> is_known(#[trigger] addon_views(addons@)[i])
            },
            Err(e) => exists|i: int|
                is_first_unknown(addon_views(addons@), i) && e@ == (ErrorView::UnknownProvider {
                    provider: addons@[i]@.provider,
                }),
        },
{
    let ghost all = addon_views(addons@);
    let mut jobs: Vec<(Addon, Option<AddonLock>)> = Vec::new();
    let mut i: usize = 0;
    while i < addons.len()
        invariant
            i <= addons.len(),
            all == addon_views(addons@),
            jobs@.len() == i,
            forall|k: int|
                0 <= k < i ==> job_view(#[trigger] jobs@[k]) == (
                    addons@[k]@,
                    lookup(store@, key_of(addons@[k]@.provider, addons@[k]@.name)),
                ),
            forall|k: int| 0 <= k < i ==> is_known(#[trigger] all[k]),
        decreases addons.len() - i,
    {
        assert(all[i as int] == addons@[i as int]@);
        if addons[i].provider_kind().is_none() {
            assert(is_first_unknown(all, i as int));
            return Err(SyncError::UnknownProvider { provider: addons[i].provider.clone() });
        }
        let existing = find_existing_lock(store, &addons[i]);
        jobs.push((addons[i].clone(), existing));
        i = i + 1;
    }
    Ok(jobs)
}

/// What a run has come to, for the final report.
#[derive(Debug, PartialEq, Eq)]
pub struct Summary {
    /// The keys of the addons that were downloaded and installed.
    pub updated: Vec<String>,
    /// The keys of the addons that were current already.
    pub current: Vec<String>,
    /// The keys of the addons that failed, each with a short reason.
    pub failed: Vec<(String, String)>,
}

/// A `Summary` as plain values.
pub struct SummaryView {
    pub updated: Seq<Seq<char>>,
    pub current: Seq<Seq<char>>,
    pub failed: Seq<(Seq<char>, Seq<char>)>,
}

impl View for Summary {
    type V = SummaryView;

    open spec fn view(&self) -> SummaryView {
        SummaryView {
            updated: self.updated.deep_view(),
            current: self.current.deep_view(),
            failed: self.failed.deep_view(),
        }
    }
}

/// The failures of a vector as plain values.
pub open spec fn failure_views(failures: Seq<(Addon, SyncError)>) -> Seq<(AddonView, ErrorView)> {
    Seq::new(failures.len(), |i: int| (failures[i].0@, failures[i].1@))
}

/// The report of a run: the addons that were installed, by the key of their
/// lock; those that were current, likewise; and those that failed, each by
/// its key with the reason of its failure.
pub open spec fn summary_of(
    installed: Seq<LockView>,
    current: Seq<(AddonView, LockView)>,
    failures: Seq<(AddonView, ErrorView)>,
) -> SummaryView {
    SummaryView {
        updated: Seq::new(installed.len(), |i: int| installed[i].name),
        current: Seq::new(current.len(), |i: int| current[i].1.name),
        failed: Seq::new(
            failures.len(),
            |i: int| (key_of(failures[i].0.provider, failures[i].0.name), described(failures[i].1)),
        ),
    }
}

/// Whether a request to add an addon ends with the addon in the
/// configuration: exactly when the run has installed something.
pub open spec fn is_added(summary: SummaryView) -> bool {
    summary.updated.len() > 0
}

impl Summary {
    /// Whether the addon of a request to add one goes into the
    /// configuration: it does when it was installed, and is left out when
    /// it failed.
    pub fn added(&self) -> (r: bool)
        ensures
            r == is_added(self@),
    {
        self.updated.len() > 0
    }
}

/// The report of a run.
pub fn summarize(
    installed: &Vec<AddonLock>,
    current: &Vec<(Addon, AddonLock)>,
    failures: &Vec<(Addon, SyncError)>,
) -> (r: Summary)
    ensures
        r@ == summary_of(views(installed@), pair_views(current@), failure_views(failures@)),
{
    let mut updated: Vec<String> = Vec::new();
    let mut i: usize = 0;
    while i < installed.len()
        invariant
            i <= installed.len(),
            updated@.len() == i,
            forall|k: int| 0 <= k < i ==> (#[trigger] updated@[k])@ == installed@[k]@.name,
        decreases installed.len() - i,
    {
        updated.push(installed[i].name.clone());
        i = i + 1;
    }
    let mut unchanged: Vec<String> = Vec::new();
    let mut j: usize = 0;
    while j < current.len()
        invariant
            j <= current.len(),
            unchanged@.len() == j,
            forall|k: int| 0 <= k < j ==> (#[trigger] unchanged@[k])@ == current@[k].1@.name,
        decreases current.len() - j,
    {
        unchanged.push(current[j].1.name.clone());
        j = j + 1;
    }
    let mut failed: Vec<(String, String)> = Vec::new();
    let mut k: usize = 0;
    while k < failures.len()
        invariant
            k <= failures.len(),
            failed@.len() == k,
            forall|m: int|
                0 <= m < k ==> (#[trigger] failed@[m]).0@ == key_of(
                    failures@[m].0@.provider,
                    failures@[m].0@.name,
                ) && failed@[m].1@ == described(failures@[m].1@),
        decreases failures.len() - k,
    {
        failed.push((failures[k].0.key(), failures[k].1.describe()));
        k = k + 1;
    }
    let r = Summary { updated, current: unchanged, failed };
    proof {
        let want = summary_of(views(installed@), pair_views(current@), failure_views(failures@));
        assert(r@.updated =~= want.updated);
        assert(r@.current =~= want.current);
        assert(r@.failed =~= want.failed);
    }
    r
}

} // verus!
