use vstd::prelude::*;
use crate::notify;

verus! {

/// One locked key and the wake signals of the callers waiting for it.
/// The entry's presence in the registry is what "locked" means: a key with
/// an entry, even one with no waiters, is held for update.
pub struct LockEntry {
    /// The locked key.
    pub key: String,
    /// One wake signal per suspended waiter, fired on release.
    pub waiters: Vec<futures::channel::oneshot::Sender<()>>,
}

/// Whether some entry of `s` locks `k`.
pub open spec fn reg_has(s: Seq<LockEntry>, k: Seq<char>) -> bool {
    exists|i: int| 0 <= i < s.len() && (#[trigger] s[i]).key@ == k
}

/// The index of the entry of `s` that locks `k`.
pub open spec fn reg_idx(s: Seq<LockEntry>, k: Seq<char>) -> int {
    choose|i: int| 0 <= i < s.len() && (#[trigger] s[i]).key@ == k
}

/// No key is locked by two entries of `s`.
pub open spec fn distinct_keys(s: Seq<LockEntry>) -> bool {
    forall|i: int, j: int| 0 <= i < j < s.len() ==> (#[trigger] s[i]).key@ != (#[trigger] s[j]).key@
}

/// The state a registry holds: each locked key to its number of waiters.
pub open spec fn reg_map(s: Seq<LockEntry>) -> Map<Seq<char>, nat> {
    Map::new(|k: Seq<char>| reg_has(s, k), |k: Seq<char>| s[reg_idx(s, k)].waiters@.len())
}

/// Whether `k` is currently held for update.
pub open spec fn locked(m: Map<Seq<char>, nat>, k: Seq<char>) -> bool {
    m.contains_key(k)
}

/// The registry after a caller acquires the free key `k`.
pub open spec fn grant(m: Map<Seq<char>, nat>, k: Seq<char>) -> Map<Seq<char>, nat> {
    m.insert(k, 0)
}

/// The registry after a caller joins the waiters of the locked key `k`.
pub open spec fn enqueue(m: Map<Seq<char>, nat>, k: Seq<char>) -> Map<Seq<char>, nat> {
    m.insert(k, (m[k] + 1) as nat)
}

/// The registry after the holder of `k` releases it.
pub open spec fn free(m: Map<Seq<char>, nat>, k: Seq<char>) -> Map<Seq<char>, nat> {
    m.remove(k)
}

/// An entry's key is locked in the mapping, with its waiter count, as long
/// as no other entry shares the key.
proof fn lemma_at(s: Seq<LockEntry>, i: int)
    requires
        distinct_keys(s),
        0 <= i < s.len(),
    ensures
        reg_has(s, s[i].key@),
        reg_map(s).contains_key(s[i].key@),
        reg_map(s)[s[i].key@] == s[i].waiters@.len(),
{
    let k = s[i].key@;
    assert(reg_has(s, k));
    let j = reg_idx(s, k);
    assert(0 <= j < s.len() && s[j].key@ == k);
    if i < j {
        assert(s[i].key@ != s[j].key@);
    } else if j < i {
        assert(s[j].key@ != s[i].key@);
    }
}

/// Removing the entry at `i` unlocks exactly its key.
proof fn lemma_remove_point(s: Seq<LockEntry>, i: int, q: Seq<char>)
    requires
        distinct_keys(s),
        0 <= i < s.len(),
    ensures
        reg_has(s.remove(i), q) <==> (reg_has(s, q) && q != s[i].key@),
        reg_has(s.remove(i), q) ==> reg_map(s.remove(i))[q] == reg_map(s)[q],
        distinct_keys(s.remove(i)),
{
    let s2 = s.remove(i);
    let k = s[i].key@;
    assert(forall|j: int| 0 <= j < i ==> s2[j] == s[j]);
    assert(forall|j: int| i <= j < s2.len() ==> s2[j] == s[j + 1]);
    assert forall|a: int, b: int| 0 <= a < b < s2.len() implies (#[trigger] s2[a]).key@ != (
    #[trigger] s2[b]).key@ by {
        let a0 = if a < i {
            a
        } else {
            a + 1
        };
        let b0 = if b < i {
            b
        } else {
            b + 1
        };
        assert(s2[a] == s[a0] && s2[b] == s[b0]);
    }
    if reg_has(s2, q) {
        let j = choose|j: int| 0 <= j < s2.len() && (#[trigger] s2[j]).key@ == q;
        let j0 = if j < i {
            j
        } else {
            j + 1
        };
        assert(s[j0].key@ == q);
        assert(reg_has(s, q));
        if q == k {
            if j0 < i {
                assert(s[j0].key@ != s[i].key@);
            } else {
                assert(s[i].key@ != s[j0].key@);
            }
        }
        lemma_at(s, j0);
        lemma_at(s2, j);
    }
    if reg_has(s, q) && q != k {
        let j0 = choose|j0: int| 0 <= j0 < s.len() && (#[trigger] s[j0]).key@ == q;
        if j0 < i {
            assert(s2[j0].key@ == q);
        } else {
            assert(j0 != i);
            assert(s2[j0 - 1].key@ == q);
        }
        assert(reg_has(s2, q));
    }
}

/// Appending an entry for a key not yet locked locks exactly that key.
proof fn lemma_push_point(s: Seq<LockEntry>, e: LockEntry, q: Seq<char>)
    requires
        distinct_keys(s),
        !reg_has(s, e.key@),
    ensures
        reg_has(s.push(e), q) <==> (reg_has(s, q) || q == e.key@),
        (q != e.key@ && reg_has(s.push(e), q)) ==> reg_map(s.push(e))[q] == reg_map(s)[q],
        distinct_keys(s.push(e)),
        reg_map(s.push(e))[e.key@] == e.waiters@.len(),
{
    let s2 = s.push(e);
    assert(forall|j: int| 0 <= j < s.len() ==> s2[j] == s[j]);
    assert(s2[s.len() as int] == e);
    assert(forall|i: int| 0 <= i < s.len() ==> (#[trigger] s[i]).key@ != e.key@);
    assert forall|a: int, b: int| 0 <= a < b < s2.len() implies (#[trigger] s2[a]).key@ != (
    #[trigger] s2[b]).key@ by {
        if b == s.len() {
            assert(s2[a] == s[a]);
        } else {
            assert(s2[a] == s[a] && s2[b] == s[b]);
        }
    }
    if reg_has(s2, q) {
        let j = choose|j: int| 0 <= j < s2.len() && (#[trigger] s2[j]).key@ == q;
        if j < s.len() {
            assert(reg_has(s, q));
        } else {
            assert(q == e.key@);
        }
    }
    if q != e.key@ && reg_has(s2, q) {
        let j = choose|j: int| 0 <= j < s.len() && (#[trigger] s[j]).key@ == q;
        lemma_at(s, j);
        assert(s2[j].key@ == q);
        lemma_at(s2, j);
    }
    lemma_at(s2, s.len() as int);
}

/// The per-key lock registry of one topic handle: a key with an entry is
/// held for update; acquiring a held key only adds a wake signal to its
/// waiters; releasing removes the entry and fires every signal it held.
pub struct LockRegistry {
    entries: Vec<LockEntry>,
}

impl View for LockRegistry {
    type V = Map<Seq<char>, nat>;

    closed spec fn view(&self) -> Map<Seq<char>, nat> {
        reg_map(self.entries@)
    }
}

impl LockRegistry {
    /// A registry is well formed when no key has two entries.
    pub closed spec fn wf(self) -> bool {
        distinct_keys(self.entries@)
    }

    /// An empty registry: every key is free.
    pub fn new() -> (r: LockRegistry)
        ensures
            r.wf(),
            r@ == Map::<Seq<char>, nat>::empty(),
    {
        let r = LockRegistry { entries: Vec::new() };
        proof {
            assert(r@ =~= Map::<Seq<char>, nat>::empty());
        }
        r
    }

    /// The index of the entry locking `key`, if the key is held.
    fn find_index(&self, key: &String) -> (r: Option<usize>)
        ensures
            match r {
                Some(i) => 0 <= i < self.entries@.len() && self.entries@[i as int].key@ == key@,
                None => !reg_has(self.entries@, key@),
            },
    {
        let mut i: usize = 0;
        while i < self.entries.len()
            invariant
                i <= self.entries@.len(),
                forall|j: int| 0 <= j < i ==> (#[trigger] self.entries@[j]).key@ != key@,
            decreases self.entries@.len() - i,
        {
            if self.entries[i].key == *key {
                return Some(i);
            }
            i = i + 1;
        }
        None
    }

    /// One acquisition attempt. On a free key it creates the lock entry and
    /// returns nothing: the caller now holds the key. On a held key it adds
    /// a wake signal to the entry and returns the receiving side, on which
    /// the caller must wait before trying again.
    pub fn try_acquire(&mut self, key: &str) -> (r: Option<
        futures::channel::oneshot::Receiver<()>,
    >)
        requires
            old(self).wf(),
        ensures
            final(self).wf(),
            if locked(old(self)@, key@) {
                r is Some && final(self)@ == enqueue(old(self)@, key@)
            } else {
                r is None && final(self)@ == grant(old(self)@, key@)
            },
    {
        let key_owned = key.to_owned();
        match self.find_index(&key_owned) {
            Some(i) => {
                let ghost s = self.entries@;
                proof {
                    lemma_at(s, i as int);
                }
                let mut entry = self.entries.remove(i);
                let (tx, rx) = notify::wake_slot();
                entry.waiters.push(tx);
                let ghost e2 = entry;
                self.entries.push(entry);
                proof {
                    let s1 = s.remove(i as int);
                    let s2 = self.entries@;
                    assert(s2 == s1.push(e2));
                    assert forall|q: Seq<char>| true implies {
                        &&& (reg_has(s1, q) <==> (reg_has(s, q) && q != key@))
                        &&& (reg_has(s1, q) ==> reg_map(s1)[q] == reg_map(s)[q])
                    } by {
                        lemma_remove_point(s, i as int, q);
                    }
                    lemma_remove_point(s, i as int, key@);
                    assert forall|q: Seq<char>| true implies {
                        &&& (reg_has(s2, q) <==> (reg_has(s1, q) || q == key@))
                        &&& ((q != key@ && reg_has(s2, q)) ==> reg_map(s2)[q] == reg_map(s1)[q])
                    } by {
                        lemma_push_point(s1, e2, q);
                    }
                    lemma_push_point(s1, e2, key@);
                    assert(reg_map(s2)[key@] == e2.waiters@.len());
                    assert(e2.waiters@.len() == reg_map(s)[key@] + 1);
                    assert(self@ =~= enqueue(old(self)@, key@));
                }
                Some(rx)
            },
            None => {
                let ghost s = self.entries@;
                let entry = LockEntry { key: key_owned, waiters: Vec::new() };
                let ghost e2 = entry;
                self.entries.push(entry);
                proof {
                    let s2 = self.entries@;
                    assert forall|q: Seq<char>| true implies {
                        &&& (reg_has(s2, q) <==> (reg_has(s, q) || q == key@))
                        &&& ((q != key@ && reg_has(s2, q)) ==> reg_map(s2)[q] == reg_map(s)[q])
                    } by {
                        lemma_push_point(s, e2, q);
                    }
                    lemma_push_point(s, e2, key@);
                    assert(self@ =~= grant(old(self)@, key@));
                }
                None
            },
        }
    }

    /// Releases the held key: removes its entry and fires every wake signal
    /// it collected, so that all current waiters retry acquisition. Returns
    /// how many waiters were woken.
    pub fn release(&mut self, key: &str) -> (woken: usize)
        requires
            old(self).wf(),
            locked(old(self)@, key@),
        ensures
            final(self).wf(),
            final(self)@ == free(old(self)@, key@),
            woken == old(self)@[key@],
    {
        let key_owned = key.to_owned();
        match self.find_index(&key_owned) {
            Some(i) => {
                let ghost s = self.entries@;
                proof {
                    lemma_at(s, i as int);
                }
                let mut entry = self.entries.remove(i);
                proof {
                    let s1 = self.entries@;
                    assert forall|q: Seq<char>| true implies {
                        &&& (reg_has(s1, q) <==> (reg_has(s, q) && q != key@))
                        &&& (reg_has(s1, q) ==> reg_map(s1)[q] == reg_map(s)[q])
                    } by {
                        lemma_remove_point(s, i as int, q);
                    }
                    lemma_remove_point(s, i as int, key@);
                    assert(self@ =~= free(old(self)@, key@));
                }
                let woken = entry.waiters.len();
                loop
                    decreases entry.waiters@.len(),
                {
                    match entry.waiters.pop() {
                        Some(tx) => {
                            notify::fire(tx);
                        },
                        None => {
                            break ;
                        },
                    }
                }
                woken
            },
            None => {
                proof {
                    assert(false);
                }
                0
            },
        }
    }
}

/// At most one holder at a time: acquiring a free key locks it; an attempt
/// while it is held only joins the waiters, and the key stays locked; only
/// a release frees it, after which an attempt can acquire again. Keys other
/// than the one acquired are never touched.
pub proof fn lemma_mutual_exclusion(m: Map<Seq<char>, nat>, k: Seq<char>)
    requires
        !locked(m, k),
    ensures
        locked(grant(m, k), k),
        locked(enqueue(grant(m, k), k), k),
        !locked(free(enqueue(grant(m, k), k), k), k),
        forall|k2: Seq<char>|
            k2 != k ==> locked(#[trigger] grant(m, k), k2) == locked(m, k2) && locked(
                enqueue(grant(m, k), k),
                k2,
            ) == locked(m, k2) && locked(free(grant(m, k), k), k2) == locked(m, k2),
{
}

/// An abandoned lock leaves no trace: acquiring a free key and releasing it
/// without writing restores the registry exactly, so a later attempt on the
/// same key acquires immediately and finds the topic as it was.
pub proof fn lemma_abandoned_lock(m: Map<Seq<char>, nat>, k: Seq<char>)
    requires
        !locked(m, k),
    ensures
        free(grant(m, k), k) == m,
        !locked(free(grant(m, k), k), k),
{
    assert(free(grant(m, k), k) =~= m);
}

} // verus!
