use vstd::prelude::*;

verus! {

/// One not-yet-persisted expiry refresh: the next flush cycle will set the
/// row for `key` in the table named `table` to expire at `expiry`.
pub struct PendingRefresh {
    /// The table identifier of the topic the row belongs to.
    pub table: String,
    /// The key of the row whose expiry moves forward.
    pub key: String,
    /// The new absolute expiry, in epoch seconds.
    pub expiry: u64,
}

impl PendingRefresh {
    /// The (table, key) pair this refresh is addressed to.
    pub open spec fn pair(self) -> (Seq<char>, Seq<char>) {
        (self.table@, self.key@)
    }
}

/// Whether some entry of `s` is addressed to `p`.
pub open spec fn seq_has(s: Seq<PendingRefresh>, p: (Seq<char>, Seq<char>)) -> bool {
    exists|i: int| 0 <= i < s.len() && (#[trigger] s[i]).pair() == p
}

/// The index of the entry of `s` addressed to `p`.
pub open spec fn idx_of(s: Seq<PendingRefresh>, p: (Seq<char>, Seq<char>)) -> int {
    choose|i: int| 0 <= i < s.len() && (#[trigger] s[i]).pair() == p
}

/// No two entries of `s` are addressed to the same pair.
pub open spec fn distinct_pairs(s: Seq<PendingRefresh>) -> bool {
    forall|i: int, j: int|
        0 <= i < j < s.len() ==> (#[trigger] s[i]).pair() != (#[trigger] s[j]).pair()
}

/// The mapping a batch holds: each addressed pair to its pending expiry.
pub open spec fn map_of(s: Seq<PendingRefresh>) -> Map<(Seq<char>, Seq<char>), u64> {
    Map::new(
        |p: (Seq<char>, Seq<char>)| seq_has(s, p),
        |p: (Seq<char>, Seq<char>)| s[idx_of(s, p)].expiry,
    )
}

/// An entry's pair is in the mapping, with its expiry, as long as no other
/// entry shares the pair.
proof fn lemma_at(s: Seq<PendingRefresh>, i: int)
    requires
        distinct_pairs(s),
        0 <= i < s.len(),
    ensures
        seq_has(s, s[i].pair()),
        map_of(s).contains_key(s[i].pair()),
        map_of(s)[s[i].pair()] == s[i].expiry,
{
    let p = s[i].pair();
    assert(seq_has(s, p));
    let j = idx_of(s, p);
    assert(0 <= j < s.len() && s[j].pair() == p);
    if i < j {
        assert(s[i].pair() != s[j].pair());
    } else if j < i {
        assert(s[j].pair() != s[i].pair());
    }
}

/// Removing the entry at `i` drops exactly the pair it was addressed to.
proof fn lemma_remove_point(s: Seq<PendingRefresh>, i: int, q: (Seq<char>, Seq<char>))
    requires
        distinct_pairs(s),
        0 <= i < s.len(),
    ensures
        seq_has(s.remove(i), q) <==> (seq_has(s, q) && q != s[i].pair()),
        seq_has(s.remove(i), q) ==> map_of(s.remove(i))[q] == map_of(s)[q],
        distinct_pairs(s.remove(i)),
{
    let s2 = s.remove(i);
    let p = s[i].pair();
    assert(forall|j: int| 0 <= j < i ==> s2[j] == s[j]);
    assert(forall|j: int| i <= j < s2.len() ==> s2[j] == s[j + 1]);
    assert forall|a: int, b: int| 0 <= a < b < s2.len() implies (#[trigger] s2[a]).pair() != (
    #[trigger] s2[b]).pair() by {
        let a0 = if a < i {
            a
        } else {
            a + 1
        };
        let b0 = if b < i {
            b
        } else {
            b + 1
        };
        assert(s2[a] == s[a0] && s2[b] == s[b0]);
    }
    if seq_has(s2, q) {
        let j = choose|j: int| 0 <= j < s2.len() && (#[trigger] s2[j]).pair() == q;
        let j0 = if j < i {
            j
        } else {
            j + 1
        };
        assert(s[j0].pair() == q);
        assert(seq_has(s, q));
        if q == p {
            if j0 < i {
                assert(s[j0].pair() != s[i].pair());
            } else {
                assert(s[i].pair() != s[j0].pair());
            }
        }
        lemma_at(s, j0);
        lemma_at(s2, j);
    }
    if seq_has(s, q) && q != p {
        let j0 = choose|j0: int| 0 <= j0 < s.len() && (#[trigger] s[j0]).pair() == q;
        if j0 < i {
            assert(s2[j0].pair() == q);
        } else {
            assert(j0 != i);
            assert(s2[j0 - 1].pair() == q);
        }
        assert(seq_has(s2, q));
    }
}

/// Appending an entry for a pair not yet present adds exactly that pair.
proof fn lemma_push_point(s: Seq<PendingRefresh>, e: PendingRefresh, q: (Seq<char>, Seq<char>))
    requires
        distinct_pairs(s),
        !seq_has(s, e.pair()),
    ensures
        seq_has(s.push(e), q) <==> (seq_has(s, q) || q == e.pair()),
        (q != e.pair() && seq_has(s.push(e), q)) ==> map_of(s.push(e))[q] == map_of(s)[q],
        distinct_pairs(s.push(e)),
        map_of(s.push(e))[e.pair()] == e.expiry,
{
    let s2 = s.push(e);
    assert(forall|j: int| 0 <= j < s.len() ==> s2[j] == s[j]);
    assert(s2[s.len() as int] == e);
    assert(forall|i: int| 0 <= i < s.len() ==> (#[trigger] s[i]).pair() != e.pair());
    assert forall|a: int, b: int| 0 <= a < b < s2.len() implies (#[trigger] s2[a]).pair() != (
    #[trigger] s2[b]).pair() by {
        if b == s.len() {
            assert(s2[a] == s[a]);
        } else {
            assert(s2[a] == s[a] && s2[b] == s[b]);
        }
    }
    if seq_has(s2, q) {
        let j = choose|j: int| 0 <= j < s2.len() && (#[trigger] s2[j]).pair() == q;
        if j < s.len() {
            assert(seq_has(s, q));
        } else {
            assert(q == e.pair());
        }
    }
    if q != e.pair() && seq_has(s2, q) {
        let j = choose|j: int| 0 <= j < s.len() && (#[trigger] s[j]).pair() == q;
        lemma_at(s, j);
        assert(s2[j].pair() == q);
        lemma_at(s2, j);
    }
    lemma_at(s2, s.len() as int);
}

/// The deferred expiry update batch: an in-memory mapping from (table, key)
/// to a pending absolute expiry, recorded when a read refreshes an entry,
/// superseded by any later direct write for the same key, and consumed by
/// the next flush cycle.
pub struct ExpiryBatch {
    entries: Vec<PendingRefresh>,
}

impl View for ExpiryBatch {
    type V = Map<(Seq<char>, Seq<char>), u64>;

    closed spec fn view(&self) -> Map<(Seq<char>, Seq<char>), u64> {
        map_of(self.entries@)
    }
}

impl ExpiryBatch {
    /// A batch is well formed when no pair is recorded twice.
    pub closed spec fn wf(self) -> bool {
        distinct_pairs(self.entries@)
    }

    /// The batch's entries, for stating contracts about its exact contents.
    pub closed spec fn entries_view(self) -> Seq<PendingRefresh> {
        self.entries@
    }

    /// An empty batch.
    pub fn new() -> (r: ExpiryBatch)
        ensures
            r.wf(),
            r@ == Map::<(Seq<char>, Seq<char>), u64>::empty(),
    {
        let r = ExpiryBatch { entries: Vec::new() };
        proof {
            assert(r@ =~= Map::<(Seq<char>, Seq<char>), u64>::empty());
        }
        r
    }

    /// The index of the entry addressed to (`table`, `key`), if one is
    /// recorded.
    fn find_index(&self, table: &String, key: &String) -> (r: Option<usize>)
        ensures
            match r {
                Some(i) => 0 <= i < self.entries@.len() && self.entries@[i as int].pair() == (
                    table@,
                    key@,
                ),
                None => !seq_has(self.entries@, (table@, key@)),
            },
    {
        let mut i: usize = 0;
        while i < self.entries.len()
            invariant
                i <= self.entries@.len(),
                forall|j: int| 0 <= j < i ==> (#[trigger] self.entries@[j]).pair() != (table@, key@),
            decreases self.entries@.len() - i,
        {
            if self.entries[i].table == *table && self.entries[i].key == *key {
                return Some(i);
            }
            i = i + 1;
        }
        None
    }

    /// Drops any pending refresh addressed to (`table`, `key`); a pair with
    /// none recorded is left as it is.
    pub fn clear(&mut self, table: &String, key: &String)
        requires
            old(self).wf(),
        ensures
            final(self).wf(),
            final(self)@ == old(self)@.remove((table@, key@)),
            !seq_has(final(self).entries_view(), (table@, key@)),
    {
        let ghost p = (table@, key@);
        match self.find_index(table, key) {
            Some(i) => {
                let ghost s = self.entries@;
                self.entries.remove(i);
                proof {
                    let s2 = self.entries@;
                    assert(s2 == s.remove(i as int));
                    assert forall|q: (Seq<char>, Seq<char>)| #[trigger]
                        map_of(s2).contains_key(q)
                            == (map_of(s).remove(p).contains_key(q)) && (map_of(
                        s2,
                    ).contains_key(q) ==> map_of(s2)[q] == map_of(s).remove(p)[q]) by {
                        lemma_remove_point(s, i as int, q);
                    }
                    assert(self@ =~= old(self)@.remove(p));
                    lemma_remove_point(s, i as int, p);
                }
            },
            None => {
                proof {
                    assert(self@ =~= old(self)@.remove(p));
                }
            },
        }
    }

    /// Records that the row for (`table`, `key`) is to expire at `expiry`,
    /// overwriting any pending value for that pair.
    pub fn record(&mut self, table: &String, key: &String, expiry: u64)
        requires
            old(self).wf(),
        ensures
            final(self).wf(),
            final(self)@ == old(self)@.insert((table@, key@), expiry),
    {
        let ghost p = (table@, key@);
        self.clear(table, key);
        let ghost s = self.entries@;
        let entry = PendingRefresh { table: table.clone(), key: key.clone(), expiry };
        self.entries.push(entry);
        proof {
            let s2 = self.entries@;
            assert(s2 == s.push(entry));
            assert(entry.pair() == p);
            assert forall|q: (Seq<char>, Seq<char>)| #[trigger]
                map_of(s2).contains_key(q) == (map_of(s).insert(p, expiry).contains_key(q)) && (
            map_of(s2).contains_key(q) ==> map_of(s2)[q] == map_of(s).insert(p, expiry)[q]) by {
                lemma_push_point(s, entry, q);
            }
            assert(self@ =~= old(self)@.remove(p).insert(p, expiry));
            assert(old(self)@.remove(p).insert(p, expiry) =~= old(self)@.insert(p, expiry));
            lemma_push_point(s, entry, p);
        }
    }

    /// The pending expiry recorded for (`table`, `key`), if any.
    pub fn pending(&self, table: &String, key: &String) -> (r: Option<u64>)
        requires
            self.wf(),
        ensures
            match r {
                Some(e) => self@.contains_key((table@, key@)) && self@[(table@, key@)] == e,
                None => !self@.contains_key((table@, key@)),
            },
    {
        match self.find_index(table, key) {
            Some(i) => {
                proof {
                    lemma_at(self.entries@, i as int);
                }
                Some(self.entries[i].expiry)
            },
            None => None,
        }
    }

    /// Atomically drains the batch: the result holds exactly the recorded
    /// refreshes, and the batch is left empty.
    pub fn take(&mut self) -> (r: Vec<PendingRefresh>)
        requires
            old(self).wf(),
        ensures
            final(self).wf(),
            final(self)@ == Map::<(Seq<char>, Seq<char>), u64>::empty(),
            map_of(r@) == old(self)@,
            distinct_pairs(r@),
            forall|i: int|
                0 <= i < r@.len() ==> old(self)@.contains_key((#[trigger] r@[i]).pair()) && old(
                    self,
                )@[r@[i].pair()] == r@[i].expiry,
    {
        let mut out: Vec<PendingRefresh> = Vec::new();
        core::mem::swap(&mut out, &mut self.entries);
        proof {
            assert(out@ == old(self).entries_view());
            assert(self@ =~= Map::<(Seq<char>, Seq<char>), u64>::empty());
            assert forall|i: int| 0 <= i < out@.len() implies old(self)@.contains_key(
                (#[trigger] out@[i]).pair(),
            ) && old(self)@[out@[i].pair()] == out@[i].expiry by {
                lemma_at(out@, i);
            }
        }
        out
    }
}

/// A later read-refresh for a pair overwrites an earlier pending one: only
/// the latest recorded expiry is ever flushed.
pub proof fn lemma_later_refresh_overwrites(
    m: Map<(Seq<char>, Seq<char>), u64>,
    p: (Seq<char>, Seq<char>),
    e1: u64,
    e2: u64,
)
    ensures
        m.insert(p, e1).insert(p, e2) == m.insert(p, e2),
{
    assert(m.insert(p, e1).insert(p, e2) =~= m.insert(p, e2));
}

/// A direct write supersedes a pending read-refresh for the same pair:
/// recording a refresh and then clearing the pair on a write leaves nothing
/// pending for it, and leaves every other pair exactly as it was.
pub proof fn lemma_write_supersedes_refresh(
    m: Map<(Seq<char>, Seq<char>), u64>,
    p: (Seq<char>, Seq<char>),
    e: u64,
)
    ensures
        !m.insert(p, e).remove(p).contains_key(p),
        forall|q: (Seq<char>, Seq<char>)|
            q != p ==> #[trigger] m.insert(p, e).remove(p).contains_key(q) == m.contains_key(q),
        forall|q: (Seq<char>, Seq<char>)|
            q != p && m.contains_key(q) ==> #[trigger] m.insert(p, e).remove(p)[q] == m[q],
{
}

} // verus!
