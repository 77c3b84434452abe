//! Registry of the contexts of connected systems. A context outlives a
//! short disconnect: it is dropped only when its time-to-live has run out.

use vstd::prelude::*;
use crate::text::{owned, str_eq};

verus! {

/// Time-to-live given to a context when none is named, in milliseconds.
pub const DEFAULT_TTL: u64 = 300_000;

/// Pause between two sweeps for expired contexts, in milliseconds.
pub const SWEEP_INTERVAL: u64 = 15_000;

/// Whether some entry of `s` has the key `k`.
spec fn has_key<V>(s: Seq<(String, V)>, k: Seq<char>) -> bool {
    exists|i: int| 0 <= i < s.len() && (#[trigger] s[i]).0@ == k
}

/// The index of an entry of `s` with the key `k`.
spec fn key_pos<V>(s: Seq<(String, V)>, k: Seq<char>) -> int {
    choose|i: int| 0 <= i < s.len() && (#[trigger] s[i]).0@ == k
}

/// No two entries of `s` have the same key.
spec fn distinct_keys<V>(s: Seq<(String, V)>) -> bool {
    forall|i: int, j: int|
        0 <= i < j < s.len() ==> (#[trigger] s[i]).0@ != (#[trigger] s[j]).0@
}

/// The entries of `s` as a map from key to value.
spec fn as_map<V>(s: Seq<(String, V)>) -> Map<Seq<char>, V> {
    Map::new(|k: Seq<char>| has_key(s, k), |k: Seq<char>| s[key_pos(s, k)].1)
}

proof fn lemma_entry<V>(s: Seq<(String, V)>, i: int)
    requires
        distinct_keys(s),
        0 <= i < s.len(),
    ensures
        has_key(s, s[i].0@),
        key_pos(s, s[i].0@) == i,
        as_map(s).contains_key(s[i].0@),
        as_map(s)[s[i].0@] == s[i].1,
{
    let k = s[i].0@;
    let p = key_pos(s, k);
    assert(0 <= p < s.len() && s[p].0@ == k);
    if p != i {
        if p < i {
            assert(s[p].0@ != s[i].0@);
        } else {
            assert(s[i].0@ != s[p].0@);
        }
    }
}

proof fn lemma_push<V>(s: Seq<(String, V)>, e: (String, V))
    requires
        distinct_keys(s),
        !has_key(s, e.0@),
    ensures
        distinct_keys(s.push(e)),
        as_map(s.push(e)) == as_map(s).insert(e.0@, e.1),
{
    let t = s.push(e);
    assert forall|i: int, j: int| 0 <= i < j < t.len() implies (#[trigger] t[i]).0@ != (
    #[trigger] t[j]).0@ by {
        if j == s.len() {
            assert(s[i].0@ != e.0@);
        } else {
            assert(s[i].0@ != s[j].0@);
        }
    }
    assert forall|k: Seq<char>| has_key(t, k) <==> (has_key(s, k) || k == e.0@) by {
        if has_key(t, k) {
            let i = key_pos(t, k);
            if i < s.len() {
                assert(s[i].0@ == k);
            }
        }
        if has_key(s, k) {
            let i = key_pos(s, k);
            assert(t[i].0@ == k);
        }
        if k == e.0@ {
            assert(t[s.len() as int].0@ == k);
        }
    }
    assert forall|k: Seq<char>| has_key(t, k) implies #[trigger] as_map(t)[k] == as_map(s).insert(
        e.0@,
        e.1,
    )[k] by {
        let i = key_pos(t, k);
        lemma_entry(t, i);
        if i < s.len() {
            lemma_entry(s, i);
        }
    }
    assert(as_map(t) =~= as_map(s).insert(e.0@, e.1));
}

proof fn lemma_remove<V>(s: Seq<(String, V)>, i: int)
    requires
        distinct_keys(s),
        0 <= i < s.len(),
    ensures
        distinct_keys(s.remove(i)),
        !has_key(s.remove(i), s[i].0@),
        as_map(s.remove(i)) == as_map(s).remove(s[i].0@),
{
    let t = s.remove(i);
    let gone = s[i].0@;
    assert forall|a: int, b: int| 0 <= a < b < t.len() implies (#[trigger] t[a]).0@ != (
    #[trigger] t[b]).0@ by {
        let a2 = if a < i { a } else { a + 1 };
        let b2 = if b < i { b } else { b + 1 };
        assert(s[a2].0@ != s[b2].0@);
    }
    assert forall|k: Seq<char>| has_key(t, k) <==> (has_key(s, k) && k != gone) by {
        if has_key(t, k) {
            let a = key_pos(t, k);
            let a2 = if a < i { a } else { a + 1 };
            assert(s[a2].0@ == k);
            if a2 < i {
                assert(s[a2].0@ != s[i].0@);
            } else {
                assert(s[i].0@ != s[a2].0@);
            }
        }
        if has_key(s, k) && k != gone {
            let a = key_pos(s, k);
            let a1 = if a < i { a } else { a - 1 };
            assert(t[a1].0@ == k);
        }
    }
    assert forall|k: Seq<char>| has_key(t, k) implies #[trigger] as_map(t)[k] == as_map(s).remove(
        gone,
    )[k] by {
        let a = key_pos(t, k);
        lemma_entry(t, a);
        let a2 = if a < i { a } else { a + 1 };
        lemma_entry(s, a2);
    }
    assert(as_map(t) =~= as_map(s).remove(gone));
}

/// Index of the entry with the given key.
fn position<V>(entries: &Vec<(String, V)>, key: &str) -> (found: Option<usize>)
    ensures
        match found {
            Some(i) => i < entries@.len() && entries@[i as int].0@ == key@,
            None => !has_key(entries@, key@),
        },
{
    let mut i: usize = 0;
    while i < entries.len()
        invariant
            i <= entries@.len(),
            forall|k: int| 0 <= k < i ==> (#[trigger] entries@[k]).0@ != key@,
        decreases entries@.len() - i,
    {
        if str_eq(entries[i].0.as_str(), key) {
            return Some(i);
        }
        i += 1;
    }
    None
}

/// Removes the entry with the given key, if there is one.
fn take<V>(entries: &mut Vec<(String, V)>, key: &str) -> (taken: Option<V>)
    requires
        distinct_keys(old(entries)@),
    ensures
        distinct_keys(final(entries)@),
        !has_key(final(entries)@, key@),
        as_map(final(entries)@) == as_map(old(entries)@).remove(key@),
        taken == if as_map(old(entries)@).contains_key(key@) {
            Some(as_map(old(entries)@)[key@])
        } else {
            None
        },
{
    match position(entries, key) {
        Some(i) => {
            proof {
                lemma_entry(entries@, i as int);
                lemma_remove(entries@, i as int);
            }
            let entry = entries.remove(i);
            Some(entry.1)
        },
        None => {
            assert(as_map(entries@) =~= as_map(entries@).remove(key@));
            None
        },
    }
}

/// Sets the value under the given key, replacing an earlier one.
fn put<V>(entries: &mut Vec<(String, V)>, key: &str, value: V)
    requires
        distinct_keys(old(entries)@),
    ensures
        distinct_keys(final(entries)@),
        as_map(final(entries)@) == as_map(old(entries)@).insert(key@, value),
{
    let ghost before = as_map(entries@);
    let _ = take(entries, key);
    let name = owned(key);
    proof {
        lemma_push(entries@, (name, value));
        assert(before.remove(key@).insert(key@, value) =~= before.insert(key@, value));
    }
    entries.push((name, value));
}

/// What a store holds: the contexts by system id, and the instants at
/// which contexts expire. A context without such an instant is in use.
pub struct StoreState<C> {
    pub contexts: Map<Seq<char>, C>,
    pub expiries: Map<Seq<char>, u64>,
}

impl<C> StoreState<C> {
    /// The context stored for a system.
    pub open spec fn lookup(self, id: Seq<char>) -> Option<C> {
        if self.contexts.contains_key(id) {
            Some(self.contexts[id])
        } else {
            None
        }
    }

    /// After storing a context: it replaces an earlier one, and no expiry
    /// instant changes.
    pub open spec fn stored(self, id: Seq<char>, context: C) -> Self {
        StoreState { contexts: self.contexts.insert(id, context), expiries: self.expiries }
    }

    /// After restoring a system: where it has a context, its expiry
    /// instant is gone.
    pub open spec fn restored(self, id: Seq<char>) -> Self {
        if self.contexts.contains_key(id) {
            StoreState { contexts: self.contexts, expiries: self.expiries.remove(id) }
        } else {
            self
        }
    }

    /// After dropping a system: its context and its expiry instant are
    /// gone, whether it had both, one or none of them.
    pub open spec fn dropped(self, id: Seq<char>) -> Self {
        StoreState { contexts: self.contexts.remove(id), expiries: self.expiries.remove(id) }
    }

    /// After starting a time-to-live that ends at `expiry`.
    pub open spec fn ttl_started(self, id: Seq<char>, expiry: u64) -> Self {
        StoreState { contexts: self.contexts, expiries: self.expiries.insert(id, expiry) }
    }

    /// The systems whose expiry instant has passed at `now`.
    pub open spec fn expired(self, now: u64) -> Set<Seq<char>> {
        Set::new(|id: Seq<char>| self.expiries.contains_key(id) && self.expiries[id] < now)
    }

    /// After a sweep at `now`: the expired systems have neither a context
    /// nor an expiry instant, the others are untouched.
    pub open spec fn swept(self, now: u64) -> Self {
        StoreState {
            contexts: self.contexts.remove_keys(self.expired(now)),
            expiries: self.expiries.remove_keys(self.expired(now)),
        }
    }
}

/// The life of a stored context. While its time-to-live is pending it can
/// be restored, which ends the time-to-live; from then on it is restored
/// again and again and no sweep drops it. A pending context survives every
/// sweep up to its expiry instant and is gone after the first sweep later
/// than that.
pub proof fn lemma_ttl_lifecycle<C>(
    state: StoreState<C>,
    id: Seq<char>,
    context: C,
    expiry: u64,
    now: u64,
)
    ensures
        ({
            let pending = state.stored(id, context).ttl_started(id, expiry);
            let active = pending.restored(id);
            &&& pending.lookup(id) == Some(context)
            &&& active.lookup(id) == Some(context)
            &&& !active.expiries.contains_key(id)
            &&& active.restored(id) == active
            &&& active.swept(now).lookup(id) == Some(context)
            &&& now <= expiry ==> pending.swept(now).lookup(id) == Some(context)
            &&& now > expiry ==> pending.swept(now).lookup(id) is None
            &&& now > expiry ==> pending.swept(now).restored(id) == pending.swept(now)
            &&& pending.dropped(id).lookup(id) is None
            &&& !pending.dropped(id).expiries.contains_key(id)
            &&& !state.ttl_started(id, expiry).dropped(id).expiries.contains_key(id)
        }),
{
    let pending = state.stored(id, context).ttl_started(id, expiry);
    let active = pending.restored(id);
    assert(pending.contexts.contains_key(id));
    assert(pending.expiries[id] == expiry);
    assert(!active.expired(now).contains(id));
    assert(active.expiries.remove(id) =~= active.expiries);
    assert(active.swept(now).contexts.contains_key(id));
    if now > expiry {
        assert(pending.expired(now).contains(id));
    } else {
        assert(!pending.expired(now).contains(id));
    }
}

/// Registry of contexts by system id, with the pending expiry instants.
pub struct ContextStore<C> {
    contexts: Vec<(String, C)>,
    time_to_live: Vec<(String, u64)>,
}

impl<C> View for ContextStore<C> {
    type V = StoreState<C>;

    closed spec fn view(&self) -> StoreState<C> {
        StoreState { contexts: as_map(self.contexts@), expiries: as_map(self.time_to_live@) }
    }
}

impl<C> ContextStore<C> {
    /// No system id occurs twice in either table.
    pub closed spec fn wf(self) -> bool {
        distinct_keys(self.contexts@) && distinct_keys(self.time_to_live@)
    }

    /// A store without contexts.
    pub fn new() -> (store: Self)
        ensures
            store.wf(),
            store@.contexts == Map::<Seq<char>, C>::empty(),
            store@.expiries == Map::<Seq<char>, u64>::empty(),
    {
        let store = ContextStore { contexts: Vec::new(), time_to_live: Vec::new() };
        assert(as_map(store.contexts@) =~= Map::<Seq<char>, C>::empty());
        assert(as_map(store.time_to_live@) =~= Map::<Seq<char>, u64>::empty());
        store
    }

    /// Stores the context of a system, in place of an earlier one. No
    /// time-to-live is started or ended.
    pub fn store(&mut self, system_id: &str, context: C)
        requires
            old(self).wf(),
        ensures
            final(self).wf(),
            final(self)@ == old(self)@.stored(system_id@, context),
    {
        put(&mut self.contexts, system_id, context);
    }

    /// Removes the context of the system at once and hands it out. With
    /// it goes the time-to-live of the system, also where there was no
    /// context.
    pub fn drop_now(&mut self, system_id: &str) -> (dropped: Option<C>)
        requires
            old(self).wf(),
        ensures
            final(self).wf(),
            dropped == old(self)@.lookup(system_id@),
            final(self)@ == old(self)@.dropped(system_id@),
    {
        let dropped = take(&mut self.contexts, system_id);
        let _ = take(&mut self.time_to_live, system_id);
        dropped
    }

    /// Starts the default time-to-live of the system at the instant `now`.
    pub fn start_ttl(&mut self, system_id: &str, now: u64)
        requires
            old(self).wf(),
            now + DEFAULT_TTL <= u64::MAX,
        ensures
            final(self).wf(),
            final(self)@ == old(self)@.ttl_started(system_id@, (now + DEFAULT_TTL) as u64),
    {
        self.start_custom_ttl(system_id, now, DEFAULT_TTL);
    }

    /// Starts a time-to-live of `ttl` milliseconds at the instant `now`:
    /// the context of the system expires once `now + ttl` has passed.
    pub fn start_custom_ttl(&mut self, system_id: &str, now: u64, ttl: u64)
        requires
            old(self).wf(),
            now + ttl <= u64::MAX,
        ensures
            final(self).wf(),
            final(self)@ == old(self)@.ttl_started(system_id@, (now + ttl) as u64),
    {
        put(&mut self.time_to_live, system_id, now + ttl);
    }

    /// Drops every context whose expiry instant has passed at `now`,
    /// together with that instant.
    pub fn drop_expired_contexts(&mut self, now: u64)
        requires
            old(self).wf(),
        ensures
            final(self).wf(),
            final(self)@ == old(self)@.swept(now),
    {
        let ghost ttl0 = as_map(self.time_to_live@);
        let ghost ctx0 = as_map(self.contexts@);
        let ghost target = old(self)@.expired(now);
        let ghost mut done: Set<Seq<char>> = Set::empty();
        let mut i: usize = 0;
        assert(ttl0.remove_keys(done) =~= ttl0);
        assert(ctx0.remove_keys(done) =~= ctx0);
        while i < self.time_to_live.len()
            invariant
                i <= self.time_to_live@.len(),
                distinct_keys(self.time_to_live@),
                distinct_keys(self.contexts@),
                as_map(self.time_to_live@) == ttl0.remove_keys(done),
                as_map(self.contexts@) == ctx0.remove_keys(done),
                done.subset_of(target),
                target == Set::new(|id: Seq<char>| ttl0.contains_key(id) && ttl0[id] < now),
                forall|k: int| 0 <= k < i ==> (#[trigger] self.time_to_live@[k]).1 >= now,
            decreases self.time_to_live@.len() - i,
        {
            proof {
                lemma_entry(self.time_to_live@, i as int);
            }
            if self.time_to_live[i].1 < now {
                let ghost id = self.time_to_live@[i as int].0@;
                proof {
                    lemma_remove(self.time_to_live@, i as int);
                }
                let entry = self.time_to_live.remove(i);
                let _ = take(&mut self.contexts, entry.0.as_str());
                proof {
                    assert(ttl0.contains_key(id) && ttl0[id] < now);
                    assert(ttl0.remove_keys(done).remove(id) =~= ttl0.remove_keys(done.insert(id)));
                    assert(ctx0.remove_keys(done).remove(id) =~= ctx0.remove_keys(done.insert(id)));
                    done = done.insert(id);
                }
            } else {
                i += 1;
            }
        }
        proof {
            assert forall|id: Seq<char>| target.contains(id) implies done.contains(id) by {
                if !done.contains(id) {
                    assert(as_map(self.time_to_live@).contains_key(id));
                    let p = key_pos(self.time_to_live@, id);
                    lemma_entry(self.time_to_live@, p);
                    assert(self.time_to_live@[p].1 >= now);
                }
            }
            assert(done =~= target);
        }
    }
}

impl<C: Clone> ContextStore<C> {
    /// The context of the system, if there is one. Restoring it ends its
    /// time-to-live: it stays until a new one is started.
    pub fn try_restore(&mut self, system_id: &str) -> (restored: Option<C>)
        requires
            old(self).wf(),
        ensures
            final(self).wf(),
            final(self)@ == old(self)@.restored(system_id@),
            restored is Some <==> old(self)@.contexts.contains_key(system_id@),
            restored matches Some(c) ==> cloned(old(self)@.contexts[system_id@], c),
    {
        match position(&self.contexts, system_id) {
            Some(i) => {
                proof {
                    lemma_entry(self.contexts@, i as int);
                }
                let context = self.contexts[i].1.clone();
                let _ = take(&mut self.time_to_live, system_id);
                Some(context)
            },
            None => None,
        }
    }
}

} // verus!
