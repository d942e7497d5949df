//! The lock store: the record of what is installed, one lock for each key.
//!
//! The store is read while versions are resolved and compared, and is never
//! changed in place. At the end of a run the locks of what was downloaded
//! are merged into it, which gives a new store to persist.

use vstd::prelude::*;
use vstd::string::*;
use crate::addon::{key_of, Addon, AddonLock, AddonView, LockView};

verus! {

/// The locks of a vector as plain values.
pub open spec fn views(locks: Seq<AddonLock>) -> Seq<LockView> {
    Seq::new(locks.len(), |i: int| locks[i]@)
}

/// The pairs of a vector as plain values.
pub open spec fn pair_views(pairs: Seq<(Addon, AddonLock)>) -> Seq<(AddonView, LockView)> {
    Seq::new(pairs.len(), |i: int| (pairs[i].0@, pairs[i].1@))
}

/// The index of the first of the first `n` locks that has the key, or `-1`.
pub open spec fn key_index(s: Seq<LockView>, key: Seq<char>, n: int) -> int
    decreases n,
{
    if n <= 0 {
        -1
    } else if key_index(s, key, n - 1) >= 0 {
        key_index(s, key, n - 1)
    } else if s[n - 1].name == key {
        n - 1
    } else {
        -1
    }
}

/// Where the lock for `key` stands in the store, or `-1`.
pub open spec fn position(s: Seq<LockView>, key: Seq<char>) -> int {
    key_index(s, key, s.len() as int)
}

/// The lock that the store holds for `key`.
pub open spec fn lookup(s: Seq<LockView>, key: Seq<char>) -> Option<LockView> {
    if position(s, key) >= 0 {
        Some(s[position(s, key)])
    } else {
        None
    }
}

/// No two locks have the same key.
pub open spec fn unique_keys(s: Seq<LockView>) -> bool {
    forall|i: int, j: int| 0 <= i < j < s.len() ==> (#[trigger] s[i]).name != (#[trigger] s[j]).name
}

/// Whether a freshly resolved lock goes on to be downloaded: when the store
/// has no lock for its key, or has one that was published strictly earlier.
pub open spec fn admits(s: Seq<LockView>, fresh: LockView) -> bool {
    match lookup(s, fresh.name) {
        None => true,
        Some(prior) => prior.timestamp < fresh.timestamp,
    }
}

/// The resolved addons that the store admits.
pub open spec fn admitted_by(s: Seq<LockView>) -> spec_fn((AddonView, LockView)) -> bool {
    |pair: (AddonView, LockView)| admits(s, pair.1)
}

/// The resolved addons that the store holds to be current.
pub open spec fn current_by(s: Seq<LockView>) -> spec_fn((AddonView, LockView)) -> bool {
    |pair: (AddonView, LockView)| !admits(s, pair.1)
}

/// The store with `lock` put in: in the place of the lock with the same
/// key where there is one, at the end otherwise.
pub open spec fn upserted(s: Seq<LockView>, lock: LockView) -> Seq<LockView> {
    if position(s, lock.name) >= 0 {
        s.update(position(s, lock.name), lock)
    } else {
        s.push(lock)
    }
}

/// The store with the first `n` of the new locks put in, one after another.
pub open spec fn merged_upto(s: Seq<LockView>, fresh: Seq<LockView>, n: int) -> Seq<LockView>
    decreases n,
{
    if n <= 0 {
        s
    } else {
        upserted(merged_upto(s, fresh, n - 1), fresh[n - 1])
    }
}

/// The store with all the new locks put in.
pub open spec fn merged(s: Seq<LockView>, fresh: Seq<LockView>) -> Seq<LockView> {
    merged_upto(s, fresh, fresh.len() as int)
}

/// The last of the first `n` new locks that has the key.
pub open spec fn last_with_key(fresh: Seq<LockView>, key: Seq<char>, n: int) -> Option<LockView>
    decreases n,
{
    if n <= 0 {
        None
    } else if fresh[n - 1].name == key {
        Some(fresh[n - 1])
    } else {
        last_with_key(fresh, key, n - 1)
    }
}

/// The first lock with a key has that key, and no lock before it has.
pub proof fn lemma_key_index(s: Seq<LockView>, key: Seq<char>, n: int)
    requires
        0 <= n <= s.len(),
    ensures
        -1 <= key_index(s, key, n) < n,
        key_index(s, key, n) >= 0 ==> s[key_index(s, key, n)].name == key,
        forall|j: int|
            0 <= j < n && (key_index(s, key, n) < 0 || j < key_index(s, key, n)) ==> (
            #[trigger] s[j]).name != key,
    decreases n,
{
    if n > 0 {
        lemma_key_index(s, key, n - 1);
    }
}

/// Where keys are unique, the lock at index `i` is the one found for its
/// key.
pub proof fn lemma_position_of_entry(s: Seq<LockView>, i: int)
    requires
        unique_keys(s),
        0 <= i < s.len(),
    ensures
        position(s, s[i].name) == i,
        lookup(s, s[i].name) == Some(s[i]),
{
    lemma_key_index(s, s[i].name, s.len() as int);
    let p = position(s, s[i].name);
    if p < 0 {
        assert(s[i].name != s[i].name);
    } else if p < i {
        assert(s[p].name != s[i].name);
    } else if p > i {
        assert(s[i].name != s[i].name);
    }
}

/// Putting a lock in keeps keys unique, keeps every other lock where it
/// was, and leaves the lock in the store under its key.
pub proof fn lemma_upserted(s: Seq<LockView>, lock: LockView)
    requires
        unique_keys(s),
    ensures
        unique_keys(upserted(s, lock)),
        s.len() <= upserted(s, lock).len() <= s.len() + 1,
        position(s, lock.name) >= 0 ==> upserted(s, lock).len() == s.len(),
        forall|i: int| 0 <= i < s.len() ==> (#[trigger] upserted(s, lock)[i]).name == s[i].name,
        forall|i: int|
            0 <= i < s.len() && s[i].name != lock.name ==> #[trigger] upserted(s, lock)[i] == s[i],
        forall|i: int|
            0 <= i < upserted(s, lock).len() && (#[trigger] upserted(s, lock)[i]).name
                == lock.name ==> upserted(s, lock)[i] == lock,
        position(upserted(s, lock), lock.name) >= 0,
{
    let p = position(s, lock.name);
    let r = upserted(s, lock);
    lemma_key_index(s, lock.name, s.len() as int);
    if p >= 0 {
        assert forall|i: int, j: int| 0 <= i < j < r.len() implies (#[trigger] r[i]).name != (
        #[trigger] r[j]).name by {
            assert(r[i].name == s[i].name);
            assert(r[j].name == s[j].name);
        }
        assert forall|i: int|
            0 <= i < r.len() && (#[trigger] r[i]).name == lock.name implies r[i] == lock by {
            if i != p {
                assert(r[i] == s[i]);
                if i < p {
                    assert(s[i].name != s[p].name);
                } else {
                    assert(s[p].name != s[i].name);
                }
            }
        }
        assert(r[p].name == lock.name);
    } else {
        assert forall|i: int, j: int| 0 <= i < j < r.len() implies (#[trigger] r[i]).name != (
        #[trigger] r[j]).name by {
            if j < s.len() {
                assert(r[i] == s[i] && r[j] == s[j]);
            } else {
                assert(r[i] == s[i]);
                assert(s[i].name != lock.name);
            }
        }
        assert(r[s.len() as int].name == lock.name);
    }
    lemma_key_index(r, lock.name, r.len() as int);
}

/// The last new lock with a key is one of the new locks and has that key.
pub proof fn lemma_last_with_key(fresh: Seq<LockView>, key: Seq<char>, n: int)
    requires
        0 <= n <= fresh.len(),
    ensures
        match last_with_key(fresh, key, n) {
            Some(lock) => lock.name == key && exists|k: int|
                0 <= k < n && #[trigger] fresh[k] == lock,
            None => forall|k: int| 0 <= k < n ==> (#[trigger] fresh[k]).name != key,
        },
    decreases n,
{
    if n > 0 {
        if fresh[n - 1].name == key {
            assert(fresh[n - 1] == fresh[n - 1]);
        } else {
            lemma_last_with_key(fresh, key, n - 1);
            if last_with_key(fresh, key, n - 1) is Some {
                let lock = last_with_key(fresh, key, n - 1)->0;
                let k = choose|k: int| 0 <= k < n - 1 && #[trigger] fresh[k] == lock;
                assert(fresh[k] == lock);
            }
        }
    }
}

/// What a store is after the first `n` new locks have been put in.
///
/// Keys stay unique. The locks that were there keep their places and their
/// keys. Each lock of the result is the last new lock with its key, or,
/// where no new lock has that key, the lock that stood there before. Every
/// key among the new locks is in the result, and the store grows only where
/// a key was not in it.
pub proof fn lemma_merged_upto(s: Seq<LockView>, fresh: Seq<LockView>, n: int)
    requires
        unique_keys(s),
        0 <= n <= fresh.len(),
    ensures
        unique_keys(merged_upto(s, fresh, n)),
        s.len() <= merged_upto(s, fresh, n).len(),
        forall|i: int|
            0 <= i < s.len() ==> (#[trigger] merged_upto(s, fresh, n)[i]).name == s[i].name,
        forall|i: int|
            0 <= i < merged_upto(s, fresh, n).len() ==> match last_with_key(
                fresh,
                (#[trigger] merged_upto(s, fresh, n)[i]).name,
                n,
            ) {
                Some(lock) => merged_upto(s, fresh, n)[i] == lock,
                None => i < s.len() && merged_upto(s, fresh, n)[i] == s[i],
            },
        forall|k: int|
            0 <= k < n ==> position(merged_upto(s, fresh, n), (#[trigger] fresh[k]).name) >= 0,
        (forall|k: int| 0 <= k < n ==> position(s, (#[trigger] fresh[k]).name) >= 0)
            ==> merged_upto(s, fresh, n).len() == s.len(),
    decreases n,
{
    if n > 0 {
        let m = n - 1;
        let before = merged_upto(s, fresh, m);
        let lock = fresh[m];
        let after = merged_upto(s, fresh, n);
        lemma_merged_upto(s, fresh, m);
        lemma_upserted(before, lock);
        lemma_key_index(before, lock.name, before.len() as int);
        assert(after == upserted(before, lock));
        assert forall|i: int| 0 <= i < after.len() implies match last_with_key(
            fresh,
            (#[trigger] after[i]).name,
            n,
        ) {
            Some(l) => after[i] == l,
            None => i < s.len() && after[i] == s[i],
        } by {
            if after[i].name == lock.name {
                assert(after[i] == lock);
            } else {
                assert(i < before.len());
                assert(after[i].name == before[i].name);
                assert(after[i] == before[i]);
            }
        }
        assert forall|k: int| 0 <= k < n implies position(after, (#[trigger] fresh[k]).name)
            >= 0 by {
            if k < m && fresh[k].name != lock.name {
                let key = fresh[k].name;
                let p = position(before, key);
                assert(p >= 0);
                lemma_key_index(before, key, before.len() as int);
                assert(after[p].name == before[p].name);
                lemma_key_index(after, key, after.len() as int);
            }
        }
        if forall|k: int| 0 <= k < n ==> position(s, (#[trigger] fresh[k]).name) >= 0 {
            assert(before.len() == s.len());
            let p = position(s, fresh[m].name);
            lemma_key_index(s, lock.name, s.len() as int);
            assert(before[p].name == s[p].name);
            assert(position(before, lock.name) >= 0);
        }
    }
}

/// After a merge no two locks of the store have the same key, whatever the
/// new locks are.
pub proof fn lemma_merge_keeps_keys_unique(s: Seq<LockView>, fresh: Seq<LockView>)
    requires
        unique_keys(s),
    ensures
        unique_keys(merged(s, fresh)),
{
    lemma_merged_upto(s, fresh, fresh.len() as int);
}

/// Merging is idempotent: putting the same new locks into the store a
/// second time changes nothing.
pub proof fn lemma_merge_is_idempotent(s: Seq<LockView>, fresh: Seq<LockView>)
    requires
        unique_keys(s),
    ensures
        merged(merged(s, fresh), fresh) == merged(s, fresh),
{
    let n = fresh.len() as int;
    let once = merged(s, fresh);
    let twice = merged(once, fresh);
    lemma_merged_upto(s, fresh, n);
    lemma_merged_upto(once, fresh, n);
    assert(twice.len() == once.len());
    assert forall|i: int| 0 <= i < once.len() implies twice[i] == once[i] by {
        assert(twice[i].name == once[i].name);
    }
    assert(twice =~= once);
}

/// Every lock of a merged store is either one of the new locks or a lock
/// that was in the store before, untouched and in its place.
pub proof fn lemma_merge_invents_nothing(s: Seq<LockView>, fresh: Seq<LockView>, i: int)
    requires
        unique_keys(s),
        0 <= i < merged(s, fresh).len(),
    ensures
        (exists|k: int| 0 <= k < fresh.len() && #[trigger] fresh[k] == merged(s, fresh)[i]) || (i
            < s.len() && merged(s, fresh)[i] == s[i]),
{
    let n = fresh.len() as int;
    lemma_merged_upto(s, fresh, n);
    lemma_last_with_key(fresh, merged(s, fresh)[i].name, n);
}

/// A lock whose key no new lock has is carried over unchanged, in its
/// place.
pub proof fn lemma_merge_carries_over(s: Seq<LockView>, fresh: Seq<LockView>, i: int)
    requires
        unique_keys(s),
        0 <= i < s.len(),
        forall|k: int| 0 <= k < fresh.len() ==> (#[trigger] fresh[k]).name != s[i].name,
    ensures
        merged(s, fresh)[i] == s[i],
{
    let n = fresh.len() as int;
    lemma_merged_upto(s, fresh, n);
    let r = merged(s, fresh);
    assert(r[i].name == s[i].name);
    lemma_last_with_key(fresh, r[i].name, n);
}

/// No lock is ever downgraded. Where every new lock is one that the store
/// admits, each lock that was in the store is, after the merge, either
/// untouched or replaced by a new lock with its key that was published
/// strictly later.
pub proof fn lemma_merge_never_downgrades(s: Seq<LockView>, fresh: Seq<LockView>, i: int)
    requires
        unique_keys(s),
        0 <= i < s.len(),
        forall|k: int| 0 <= k < fresh.len() ==> admits(s, #[trigger] fresh[k]),
    ensures
        merged(s, fresh)[i].name == s[i].name,
        merged(s, fresh)[i] == s[i] || (merged(s, fresh)[i].timestamp > s[i].timestamp
            && exists|k: int| 0 <= k < fresh.len() && #[trigger] fresh[k] == merged(s, fresh)[i]),
{
    let n = fresh.len() as int;
    lemma_merged_upto(s, fresh, n);
    let r = merged(s, fresh);
    assert(r[i].name == s[i].name);
    lemma_last_with_key(fresh, r[i].name, n);
    if last_with_key(fresh, r[i].name, n) is Some {
        let lock = last_with_key(fresh, r[i].name, n)->0;
        let k = choose|k: int| 0 <= k < n && #[trigger] fresh[k] == lock;
        assert(admits(s, fresh[k]));
        lemma_position_of_entry(s, i);
    }
}

/// The store parts what was resolved in two: everything is either admitted
/// or held to be current, and nothing is both.
pub proof fn lemma_select_parts_everything(s: Seq<LockView>, resolved: Seq<(AddonView, LockView)>)
    ensures
        resolved.filter(admitted_by(s)).len() + resolved.filter(current_by(s)).len()
            == resolved.len(),
    decreases resolved.len(),
{
    reveal(Seq::filter);
    if resolved.len() > 0 {
        lemma_select_parts_everything(s, resolved.drop_last());
    }
}

/// On a first synchronisation, when the store has no lock for the key, the
/// resolved lock is always admitted.
pub proof fn lemma_first_sync_is_admitted(s: Seq<LockView>, fresh: LockView)
    requires
        forall|i: int| 0 <= i < s.len() ==> (#[trigger] s[i]).name != fresh.name,
    ensures
        admits(s, fresh),
{
    lemma_key_index(s, fresh.name, s.len() as int);
}

/// A resolved lock with a prior lock of the same key is admitted exactly
/// when it was published strictly later; equal timestamps are never
/// admitted.
pub proof fn lemma_admitted_iff_newer(s: Seq<LockView>, fresh: LockView, i: int)
    requires
        unique_keys(s),
        0 <= i < s.len(),
        s[i].name == fresh.name,
    ensures
        admits(s, fresh) <==> fresh.timestamp > s[i].timestamp,
        fresh.timestamp == s[i].timestamp ==> !admits(s, fresh),
{
    lemma_position_of_entry(s, i);
}

/// The locks of what is installed, at most one for each key.
#[derive(Debug)]
pub struct LockStore {
    addons: Vec<AddonLock>,
}

/// What was resolved, parted by the store into what must be downloaded and
/// what is current already.
#[derive(Debug)]
pub struct Selection {
    pub stale: Vec<(Addon, AddonLock)>,
    pub current: Vec<(Addon, AddonLock)>,
}

impl View for LockStore {
    type V = Seq<LockView>;

    closed spec fn view(&self) -> Seq<LockView> {
        views(self.addons@)
    }
}

/// Where the lock for `key` stands among `locks`.
fn find_in(locks: &Vec<AddonLock>, key: &String) -> (r: Option<usize>)
    ensures
        match r {
            Some(i) => i as int == position(views(locks@), key@) && i < locks@.len(),
            None => position(views(locks@), key@) < 0,
        },
{
    let ghost s = views(locks@);
    let mut i: usize = 0;
    while i < locks.len()
        invariant
            i <= locks.len(),
            s == views(locks@),
            key_index(s, key@, i as int) < 0,
        decreases locks.len() - i,
    {
        assert(s[i as int] == locks@[i as int]@);
        if locks[i].name == *key {
            proof {
                lemma_found_stays(s, key@, i + 1, s.len() as int);
            }
            return Some(i);
        }
        i = i + 1;
    }
    None
}

/// Once a lock with the key has been found, looking further finds the same
/// one.
proof fn lemma_found_stays(s: Seq<LockView>, key: Seq<char>, n: int, m: int)
    requires
        0 < n <= m <= s.len(),
        key_index(s, key, n) >= 0,
    ensures
        key_index(s, key, m) == key_index(s, key, n),
    decreases m - n,
{
    if n < m {
        lemma_found_stays(s, key, n, m - 1);
    }
}

impl LockStore {
    #[verifier::type_invariant]
    spec fn keys_are_unique(self) -> bool {
        unique_keys(views(self.addons@))
    }

    /// The store of a first run: no locks.
    pub fn new() -> (r: LockStore)
        ensures
            r@.len() == 0,
    {
        let addons: Vec<AddonLock> = Vec::new();
        assert(views(addons@) =~= Seq::<LockView>::empty());
        LockStore { addons }
    }

    /// The store that persisted locks make up: the empty store with each of
    /// them put in, in order, so that of two locks with one key the later
    /// counts.
    pub fn from_entries(entries: &Vec<AddonLock>) -> (r: LockStore)
        ensures
            r@ == merged(Seq::<LockView>::empty(), views(entries@)),
            unique_keys(r@),
    {
        let empty = LockStore::new();
        assert(empty@ =~= Seq::<LockView>::empty());
        empty.merge(entries)
    }

    /// The locks of the store, in the order in which they are persisted.
    pub fn entries(&self) -> (r: &Vec<AddonLock>)
        ensures
            views(r@) == self@,
            unique_keys(self@),
    {
        proof {
            use_type_invariant(self);
        }
        &self.addons
    }

    /// How many locks the store holds.
    pub fn len(&self) -> (r: usize)
        ensures
            r == self@.len(),
    {
        self.addons.len()
    }

    /// The lock that the store holds for `key`.
    pub fn get(&self, key: &String) -> (r: Option<&AddonLock>)
        ensures
            match r {
                Some(lock) => lookup(self@, key@) == Some(lock@),
                None => lookup(self@, key@) is None,
            },
    {
        match find_in(&self.addons, key) {
            Some(i) => Some(&self.addons[i]),
            None => None,
        }
    }

    /// The staleness filter: whether a freshly resolved lock goes on to be
    /// downloaded.
    pub fn admits(&self, fresh: &AddonLock) -> (r: bool)
        ensures
            r == admits(self@, fresh@),
    {
        match self.get(&fresh.name) {
            None => true,
            Some(prior) => prior.timestamp < fresh.timestamp,
        }
    }

    /// Parts what was resolved into what the store admits and what it holds
    /// to be current, each in the order in which it was given.
    pub fn select(&self, resolved: &Vec<(Addon, AddonLock)>) -> (r: Selection)
        ensures
            pair_views(r.stale@) == pair_views(resolved@).filter(admitted_by(self@)),
            pair_views(r.current@) == pair_views(resolved@).filter(current_by(self@)),
    {
        let ghost all = pair_views(resolved@);
        let ghost yes = admitted_by(self@);
        let ghost no = current_by(self@);
        let mut stale: Vec<(Addon, AddonLock)> = Vec::new();
        let mut current: Vec<(Addon, AddonLock)> = Vec::new();
        let mut i: usize = 0;
        proof {
            reveal(Seq::filter);
            assert(all.take(0).filter(yes) =~= pair_views(stale@));
            assert(all.take(0).filter(no) =~= pair_views(current@));
        }
        while i < resolved.len()
            invariant
                i <= resolved.len(),
                all == pair_views(resolved@),
                yes == admitted_by(self@),
                no == current_by(self@),
                pair_views(stale@) == all.take(i as int).filter(yes),
                pair_views(current@) == all.take(i as int).filter(no),
            decreases resolved.len() - i,
        {
            proof {
                reveal(Seq::filter);
                assert(all.take(i + 1).drop_last() == all.take(i as int));
                assert(all.take(i + 1).last() == all[i as int]);
                assert(all[i as int] == (resolved@[i as int].0@, resolved@[i as int].1@));
            }
            let ghost stale_before = pair_views(stale@);
            let ghost current_before = pair_views(current@);
            let pair = (resolved[i].0.clone(), resolved[i].1.clone());
            if self.admits(&resolved[i].1) {
                stale.push(pair);
                assert(pair_views(stale@) =~= stale_before.push(all[i as int]));
            } else {
                current.push(pair);
                assert(pair_views(current@) =~= current_before.push(all[i as int]));
            }
            i = i + 1;
        }
        assert(all.take(resolved.len() as int) == all);
        Selection { stale, current }
    }

    /// The store with the new locks merged in: each takes the place of the
    /// lock with its key where there is one, and is appended otherwise.
    /// Locks whose key no new lock has are carried over unchanged.
    pub fn merge(&self, new_locks: &Vec<AddonLock>) -> (r: LockStore)
        ensures
            r@ == merged(self@, views(new_locks@)),
            unique_keys(r@),
    {
        proof {
            use_type_invariant(self);
        }
        let ghost s = self@;
        let ghost fresh = views(new_locks@);
        let mut locks = self.addons.clone();
        assert(views(locks@) =~= s) by {
            assert forall|i: int| 0 <= i < locks@.len() implies locks@[i]@ == self.addons@[i]@ by {
                assert(cloned(self.addons@[i], locks@[i]));
            }
        }
        let mut i: usize = 0;
        while i < new_locks.len()
            invariant
                i <= new_locks.len(),
                fresh == views(new_locks@),
                views(locks@) == merged_upto(s, fresh, i as int),
            decreases new_locks.len() - i,
        {
            let ghost before = views(locks@);
            let lock = new_locks[i].clone();
            assert(fresh[i as int] == lock@);
            match find_in(&locks, &lock.name) {
                Some(at) => {
                    locks.set(at, lock);
                    assert(views(locks@) =~= before.update(at as int, fresh[i as int]));
                },
                None => {
                    locks.push(lock);
                    assert(views(locks@) =~= before.push(fresh[i as int]));
                },
            }
            i = i + 1;
        }
        proof {
            lemma_merged_upto(s, fresh, fresh.len() as int);
        }
        LockStore { addons: locks }
    }
}

/// The lock that the store holds for an addon, under its key
/// `provider/name`.
pub fn find_existing_lock(store: &LockStore, addon: &Addon) -> (r: Option<AddonLock>)
    ensures
        match r {
            Some(lock) => lookup(store@, key_of(addon@.provider, addon@.name)) == Some(lock@),
            None => lookup(store@, key_of(addon@.provider, addon@.name)) is None,
        },
{
    let key = addon.key();
    match store.get(&key) {
        Some(lock) => Some(lock.clone()),
        None => None,
    }
}

} // verus!
