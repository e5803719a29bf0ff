//! Render-world component table for one uniform kind.
//!
//! One table instance exists per uniform kind per frame; extraction fills
//! it, preparation reads it back in insertion order.  Keyed insertion
//! replaces an entity's previous record, so the table never holds two
//! records for the same entity however often extraction runs.

use vstd::prelude::*;

verus! {

/// Per-entity record table, keyed by entity identity, kept in first
/// insertion order.  That order is the stable iteration order that buffer
/// packing relies on within a frame.
pub struct UniformStore<U> {
    entries: Vec<(u64, U)>,
}

impl<U: Copy> UniformStore<U> {
    /// The table's records in iteration order.
    pub closed spec fn entries_seq(&self) -> Seq<(u64, U)> {
        self.entries@
    }

    /// Well-formed: no entity appears twice.
    pub open spec fn wf(&self) -> bool {
        forall|i: int, j: int|
            0 <= i < j < self.entries_seq().len()
                ==> (#[trigger] self.entries_seq()[i]).0 != (#[trigger] self.entries_seq()[j]).0
    }

    /// Whether the table holds a record for `id`.
    pub open spec fn spec_contains(&self, id: u64) -> bool {
        exists|i: int|
            0 <= i < self.entries_seq().len() && (#[trigger] self.entries_seq()[i]).0 == id
    }

    /// The record held for `id`; meaningful when `wf()` and
    /// `spec_contains(id)`.
    pub open spec fn spec_get(&self, id: u64) -> U {
        self.entries_seq()[choose|i: int|
            0 <= i < self.entries_seq().len() && (#[trigger] self.entries_seq()[i]).0 == id].1
    }

    /// In a well-formed table, the record at index `i` is the one that
    /// `spec_get` yields for that index's entity.
    pub proof fn lemma_get_at_index(&self, i: int)
        requires
            self.wf(),
            0 <= i < self.entries_seq().len(),
        ensures
            self.spec_contains(self.entries_seq()[i].0),
            self.spec_get(self.entries_seq()[i].0) == self.entries_seq()[i].1,
    {
        let id = self.entries_seq()[i].0;
        assert(self.spec_contains(id));
        let j = choose|j: int|
            0 <= j < self.entries_seq().len() && (#[trigger] self.entries_seq()[j]).0 == id;
        assert(j == i);
    }

    pub fn new() -> (s: Self)
        ensures
            s.wf(),
            s.entries_seq().len() == 0,
    {
        UniformStore { entries: Vec::new() }
    }

    pub fn len(&self) -> (n: usize)
        ensures
            n == self.entries_seq().len(),
    {
        self.entries.len()
    }

    pub fn entry(&self, i: usize) -> (e: (u64, U))
        requires
            i < self.entries_seq().len(),
        ensures
            e == self.entries_seq()[i as int],
    {
        self.entries[i]
    }

    /// Insert or replace the record for entity `id`: afterwards the table
    /// holds exactly `value` for `id` and is otherwise unchanged.  A fresh
    /// entity is appended, so iteration order of existing records is kept.
    #[verifier::loop_isolation(false)]
    pub fn insert(&mut self, id: u64, value: U)
        requires
            old(self).wf(),
        ensures
            final(self).wf(),
            final(self).spec_contains(id),
            final(self).spec_get(id) == value,
            forall|k: u64|
                k != id ==> (#[trigger] final(self).spec_contains(k)
                    <==> old(self).spec_contains(k)),
            forall|k: u64|
                k != id && old(self).spec_contains(k)
                    ==> #[trigger] final(self).spec_get(k) == old(self).spec_get(k),
            !old(self).spec_contains(id)
                ==> final(self).entries_seq() == old(self).entries_seq().push((id, value)),
            old(self).spec_contains(id)
                ==> final(self).entries_seq().len() == old(self).entries_seq().len(),
            forall|j: int|
                0 <= j < old(self).entries_seq().len()
                    ==> (#[trigger] final(self).entries_seq()[j]).0
                        == old(self).entries_seq()[j].0,
    {
        let ghost pre = *self;
        let n = self.entries.len();
        let mut i: usize = 0;
        while i < n
            invariant
                *self == pre,
                pre.wf(),
                n == pre.entries_seq().len(),
                i <= n,
                forall|j: int| 0 <= j < i ==> (#[trigger] pre.entries_seq()[j]).0 != id,
            decreases n - i,
        {
            if self.entries[i].0 == id {
                self.entries[i] = (id, value);
                proof {
                    let post = *self;
                    assert(post.entries_seq() =~= pre.entries_seq().update(i as int, (id, value)));
                    assert forall|a: int, b: int|
                        0 <= a < b < post.entries_seq().len() implies
                        (#[trigger] post.entries_seq()[a]).0
                            != (#[trigger] post.entries_seq()[b]).0 by {
                        assert(post.entries_seq()[a].0 == pre.entries_seq()[a].0);
                        assert(post.entries_seq()[b].0 == pre.entries_seq()[b].0);
                    }
                    assert(post.spec_contains(id)) by {
                        assert(post.entries_seq()[i as int].0 == id);
                    }
                    post.lemma_get_at_index(i as int);
                    assert forall|k: u64| k != id implies
                        (post.spec_contains(k) <==> pre.spec_contains(k)) by {
                        if post.spec_contains(k) {
                            let j = choose|j: int|
                                0 <= j < post.entries_seq().len()
                                    && (#[trigger] post.entries_seq()[j]).0 == k;
                            assert(pre.entries_seq()[j].0 == k);
                        }
                        if pre.spec_contains(k) {
                            let j = choose|j: int|
                                0 <= j < pre.entries_seq().len()
                                    && (#[trigger] pre.entries_seq()[j]).0 == k;
                            assert(post.entries_seq()[j].0 == k);
                        }
                    }
                    assert forall|k: u64| k != id && pre.spec_contains(k) implies
                        post.spec_get(k) == pre.spec_get(k) by {
                        let j = choose|j: int|
                            0 <= j < pre.entries_seq().len()
                                && (#[trigger] pre.entries_seq()[j]).0 == k;
                        assert(post.entries_seq()[j].0 == k);
                        pre.lemma_get_at_index(j);
                        post.lemma_get_at_index(j);
                    }
                    assert(pre.spec_contains(id)) by {
                        assert(pre.entries_seq()[i as int].0 == id);
                    }
                }
                return;
            }
            i = i + 1;
        }
        self.entries.push((id, value));
        proof {
            let post = *self;
            assert(post.entries_seq() == pre.entries_seq().push((id, value)));
            assert(!pre.spec_contains(id));
            assert forall|a: int, b: int|
                0 <= a < b < post.entries_seq().len() implies
                (#[trigger] post.entries_seq()[a]).0 != (#[trigger] post.entries_seq()[b]).0 by {
                if b < pre.entries_seq().len() {
                } else {
                    assert(post.entries_seq()[b] == (id, value));
                    assert(post.entries_seq()[a] == pre.entries_seq()[a]);
                }
            }
            assert(post.entries_seq()[pre.entries_seq().len() as int].0 == id);
            assert(post.spec_contains(id));
            post.lemma_get_at_index(pre.entries_seq().len() as int);
            assert forall|k: u64| k != id && pre.spec_contains(k) implies
                post.spec_get(k) == pre.spec_get(k) by {
                let j = choose|j: int|
                    0 <= j < pre.entries_seq().len()
                        && (#[trigger] pre.entries_seq()[j]).0 == k;
                assert(post.entries_seq()[j].0 == k);
                pre.lemma_get_at_index(j);
                post.lemma_get_at_index(j);
            }
            assert forall|k: u64| k != id implies
                (post.spec_contains(k) <==> pre.spec_contains(k)) by {
                if post.spec_contains(k) {
                    let j = choose|j: int|
                        0 <= j < post.entries_seq().len()
                            && (#[trigger] post.entries_seq()[j]).0 == k;
                    assert(j < pre.entries_seq().len());
                    assert(pre.entries_seq()[j].0 == k);
                }
                if pre.spec_contains(k) {
                    let j = choose|j: int|
                        0 <= j < pre.entries_seq().len()
                            && (#[trigger] pre.entries_seq()[j]).0 == k;
                    assert(post.entries_seq()[j].0 == k);
                }
            }
        }
    }
}

} // verus!
