//! Extraction stage: the once-per-frame copy of simulation-side parameter
//! components into the render-world uniform table.
//!
//! Extraction only reads the simulation snapshot and only writes the
//! render-world table; an entity that carries no parameter component this
//! frame is skipped and its table entry is left exactly as it was, never
//! refreshed or resurrected.

use vstd::prelude::*;
use crate::uniform::{AnimationParameters, DeformParameters, AnimationUniform, DeformUniform};
use crate::store::UniformStore;

verus! {

/// No entity occurs twice in a snapshot: the simulation world yields each
/// entity at most once per query.
pub open spec fn distinct_keys<T>(s: Seq<(u64, T)>) -> bool {
    forall|i: int, j: int|
        0 <= i < j < s.len() ==> (#[trigger] s[i]).0 != (#[trigger] s[j]).0
}

/// Whether entity `id` occurs in the snapshot.
pub open spec fn snapshot_has<T>(s: Seq<(u64, T)>, id: u64) -> bool {
    exists|i: int| 0 <= i < s.len() && (#[trigger] s[i]).0 == id
}

/// The uniform record one animation extraction writes for a snapshot entry:
/// the frame's global elapsed time and the entity's own rate.
pub open spec fn animation_uniform_of(p: AnimationParameters, time_millis_bits: u32)
    -> AnimationUniform {
    AnimationUniform { time_bits: time_millis_bits, rate_millis_bits: p.rate_millis_bits }
}

/// The uniform record one deform extraction writes for a snapshot entry.
pub open spec fn deform_uniform_of(p: DeformParameters) -> DeformUniform {
    DeformUniform { seed_bits: p.seed_bits }
}

/// The records animation extraction writes into a fresh render world, in
/// snapshot order: one per snapshot entity, each carrying the frame's
/// global elapsed time and the entity's own rate.
pub open spec fn animation_records(
    snapshot: Seq<(u64, AnimationParameters)>,
    time_millis_bits: u32,
) -> Seq<(u64, AnimationUniform)> {
    snapshot.map_values(
        |e: (u64, AnimationParameters)| (e.0, animation_uniform_of(e.1, time_millis_bits)),
    )
}

/// What one run of animation extraction does to the render-world table:
/// every snapshot entity holds exactly its derived uniform afterwards, and
/// entities outside the snapshot are untouched.
pub open spec fn animation_extracted(
    pre: UniformStore<AnimationUniform>,
    post: UniformStore<AnimationUniform>,
    snapshot: Seq<(u64, AnimationParameters)>,
    time_millis_bits: u32,
) -> bool {
    &&& post.wf()
    &&& pre.entries_seq().len() <= post.entries_seq().len()
    &&& forall|j: int|
        0 <= j < pre.entries_seq().len()
            ==> (#[trigger] post.entries_seq()[j]).0 == pre.entries_seq()[j].0
    &&& forall|i: int| 0 <= i < snapshot.len() ==> {
        &&& post.spec_contains((#[trigger] snapshot[i]).0)
        &&& post.spec_get(snapshot[i].0) == animation_uniform_of(snapshot[i].1, time_millis_bits)
    }
    &&& forall|k: u64|
        !snapshot_has(snapshot, k)
            ==> (#[trigger] post.spec_contains(k) <==> pre.spec_contains(k))
    &&& forall|k: u64|
        !snapshot_has(snapshot, k) && pre.spec_contains(k)
            ==> #[trigger] post.spec_get(k) == pre.spec_get(k)
}

/// What one run of deform extraction does to the render-world table.  A
/// snapshot entry whose computed outline carries no deform value is
/// skipped: its table entry is not refreshed.
pub open spec fn deform_extracted(
    pre: UniformStore<DeformUniform>,
    post: UniformStore<DeformUniform>,
    snapshot: Seq<(u64, Option<DeformParameters>)>,
) -> bool {
    &&& post.wf()
    &&& pre.entries_seq().len() <= post.entries_seq().len()
    &&& forall|j: int|
        0 <= j < pre.entries_seq().len()
            ==> (#[trigger] post.entries_seq()[j]).0 == pre.entries_seq()[j].0
    &&& forall|i: int| 0 <= i < snapshot.len() ==> match (#[trigger] snapshot[i]).1 {
        Some(p) => {
            &&& post.spec_contains(snapshot[i].0)
            &&& post.spec_get(snapshot[i].0) == deform_uniform_of(p)
        },
        None => {
            &&& (post.spec_contains(snapshot[i].0) <==> pre.spec_contains(snapshot[i].0))
            &&& (pre.spec_contains(snapshot[i].0)
                ==> post.spec_get(snapshot[i].0) == pre.spec_get(snapshot[i].0))
        },
    }
    &&& forall|k: u64|
        !snapshot_has(snapshot, k)
            ==> (#[trigger] post.spec_contains(k) <==> pre.spec_contains(k))
    &&& forall|k: u64|
        !snapshot_has(snapshot, k) && pre.spec_contains(k)
            ==> #[trigger] post.spec_get(k) == pre.spec_get(k)
}

/// Animation extraction: for every snapshot entity carrying
/// `AnimationParameters`, write the render-world `AnimationUniform` derived
/// from it and the frame's global elapsed time.  Keyed insertion means a
/// repeated run writes the same records again instead of duplicating them.
#[verifier::loop_isolation(false)]
pub fn extract_outline_animation_uniforms(
    store: &mut UniformStore<AnimationUniform>,
    snapshot: &Vec<(u64, AnimationParameters)>,
    time_millis_bits: u32,
)
    requires
        old(store).wf(),
        distinct_keys(snapshot@),
    ensures
        animation_extracted(*old(store), *final(store), snapshot@, time_millis_bits),
        old(store).entries_seq().len() == 0
            ==> final(store).entries_seq() == animation_records(snapshot@, time_millis_bits),
{
    let ghost pre = *store;
    let n = snapshot.len();
    let mut i: usize = 0;
    while i < n
        invariant
            store.wf(),
            i <= n,
            pre.entries_seq().len() <= store.entries_seq().len(),
            forall|j: int|
                0 <= j < pre.entries_seq().len()
                    ==> (#[trigger] store.entries_seq()[j]).0 == pre.entries_seq()[j].0,
            forall|j: int| 0 <= j < i ==> {
                &&& store.spec_contains((#[trigger] snapshot@[j]).0)
                &&& store.spec_get(snapshot@[j].0)
                    == animation_uniform_of(snapshot@[j].1, time_millis_bits)
            },
            forall|k: u64|
                !snapshot_has(snapshot@.take(i as int), k)
                    ==> (#[trigger] store.spec_contains(k) <==> pre.spec_contains(k)),
            forall|k: u64|
                !snapshot_has(snapshot@.take(i as int), k) && pre.spec_contains(k)
                    ==> #[trigger] store.spec_get(k) == pre.spec_get(k),
            pre.entries_seq().len() == 0
                ==> store.entries_seq()
                    == animation_records(snapshot@.take(i as int), time_millis_bits),
        decreases n - i,
    {
        let (id, params) = snapshot[i];
        let ghost before = *store;
        store.insert(id, AnimationUniform {
            time_bits: time_millis_bits,
            rate_millis_bits: params.rate_millis_bits,
        });
        proof {
            assert(snapshot@[i as int].0 == id);
            assert forall|k: u64|
                !snapshot_has(snapshot@.take(i + 1), k) implies
                (#[trigger] store.spec_contains(k) <==> pre.spec_contains(k)) by {
                assert(snapshot@.take(i + 1)[i as int].0 == id);
                assert(k != id);
                assert(!snapshot_has(snapshot@.take(i as int), k)) by {
                    if snapshot_has(snapshot@.take(i as int), k) {
                        let j = choose|j: int|
                            0 <= j < i && (#[trigger] snapshot@.take(i as int)[j]).0 == k;
                        assert(snapshot@.take(i + 1)[j].0 == k);
                    }
                }
            }
            assert forall|k: u64|
                !snapshot_has(snapshot@.take(i + 1), k) && pre.spec_contains(k) implies
                #[trigger] store.spec_get(k) == pre.spec_get(k) by {
                assert(snapshot@.take(i + 1)[i as int].0 == id);
                assert(k != id);
                assert(!snapshot_has(snapshot@.take(i as int), k)) by {
                    if snapshot_has(snapshot@.take(i as int), k) {
                        let j = choose|j: int|
                            0 <= j < i && (#[trigger] snapshot@.take(i as int)[j]).0 == k;
                        assert(snapshot@.take(i + 1)[j].0 == k);
                    }
                }
            }
            assert forall|j: int| 0 <= j < i + 1 implies {
                &&& store.spec_contains((#[trigger] snapshot@[j]).0)
                &&& store.spec_get(snapshot@[j].0)
                    == animation_uniform_of(snapshot@[j].1, time_millis_bits)
            } by {
                if j < i {
                    assert(snapshot@[j].0 != id);
                }
            }
            if pre.entries_seq().len() == 0 {
                assert(!before.spec_contains(id)) by {
                    if before.spec_contains(id) {
                        let j = choose|j: int|
                            0 <= j < before.entries_seq().len()
                                && (#[trigger] before.entries_seq()[j]).0 == id;
                        assert(animation_records(snapshot@.take(i as int), time_millis_bits)[j].0
                            == id);
                        assert(snapshot@[j].0 == id);
                    }
                }
                assert(store.entries_seq()
                    =~= animation_records(snapshot@.take(i + 1), time_millis_bits));
            }
        }
        i = i + 1;
    }
    proof {
        assert(snapshot@.take(n as int) =~= snapshot@);
    }
}

/// The records deform extraction writes into a fresh render world, in
/// snapshot order: one per snapshot entity that carries deform parameters,
/// entities without a value contribute nothing.
pub open spec fn deform_records(s: Seq<(u64, Option<DeformParameters>)>)
    -> Seq<(u64, DeformUniform)>
    decreases s.len(),
{
    if s.len() == 0 {
        Seq::empty()
    } else {
        let rest = deform_records(s.drop_last());
        match s.last().1 {
            Some(p) => rest.push((s.last().0, deform_uniform_of(p))),
            None => rest,
        }
    }
}

/// Whether the snapshot holds entity `k` with deform parameters present.
pub open spec fn snapshot_has_deform(s: Seq<(u64, Option<DeformParameters>)>, k: u64) -> bool {
    exists|i: int| 0 <= i < s.len() && (#[trigger] s[i]).0 == k && s[i].1 is Some
}

/// Every record extracted from a snapshot comes from a snapshot entity that
/// carries deform parameters, and there are no more records than snapshot
/// entries.
pub proof fn lemma_deform_records_keys(s: Seq<(u64, Option<DeformParameters>)>)
    ensures
        deform_records(s).len() <= s.len(),
        forall|j: int|
            0 <= j < deform_records(s).len()
                ==> snapshot_has_deform(s, (#[trigger] deform_records(s)[j]).0),
    decreases s.len(),
{
    if s.len() > 0 {
        let pre = s.drop_last();
        lemma_deform_records_keys(pre);
        assert forall|j: int|
            0 <= j < deform_records(s).len() implies
            snapshot_has_deform(s, (#[trigger] deform_records(s)[j]).0) by {
            if j < deform_records(pre).len() {
                assert(snapshot_has_deform(pre, deform_records(pre)[j].0));
                let w = choose|w: int|
                    0 <= w < pre.len()
                        && (#[trigger] pre[w]).0 == deform_records(pre)[j].0
                        && pre[w].1 is Some;
                assert(s[w].0 == deform_records(s)[j].0 && s[w].1 is Some);
            } else {
                let last = s.len() - 1;
                assert(s[last].0 == deform_records(s)[j].0 && s[last].1 is Some);
            }
        }
    }
}

/// Deform extraction: for every snapshot entity whose computed outline
/// carries deform parameters, write the render-world `DeformUniform`
/// derived from them; entities without a value are skipped.
#[verifier::loop_isolation(false)]
pub fn extract_outline_deform_uniforms(
    store: &mut UniformStore<DeformUniform>,
    snapshot: &Vec<(u64, Option<DeformParameters>)>,
)
    requires
        old(store).wf(),
        distinct_keys(snapshot@),
    ensures
        deform_extracted(*old(store), *final(store), snapshot@),
        old(store).entries_seq().len() == 0
            ==> final(store).entries_seq() == deform_records(snapshot@),
{
    let ghost pre = *store;
    let n = snapshot.len();
    let mut i: usize = 0;
    while i < n
        invariant
            store.wf(),
            i <= n,
            pre.entries_seq().len() <= store.entries_seq().len(),
            forall|j: int|
                0 <= j < pre.entries_seq().len()
                    ==> (#[trigger] store.entries_seq()[j]).0 == pre.entries_seq()[j].0,
            forall|j: int| 0 <= j < i ==> match (#[trigger] snapshot@[j]).1 {
                Some(p) => {
                    &&& store.spec_contains(snapshot@[j].0)
                    &&& store.spec_get(snapshot@[j].0) == deform_uniform_of(p)
                },
                None => {
                    &&& (store.spec_contains(snapshot@[j].0)
                        <==> pre.spec_contains(snapshot@[j].0))
                    &&& (pre.spec_contains(snapshot@[j].0)
                        ==> store.spec_get(snapshot@[j].0) == pre.spec_get(snapshot@[j].0))
                },
            },
            forall|k: u64|
                !snapshot_has(snapshot@.take(i as int), k)
                    ==> (#[trigger] store.spec_contains(k) <==> pre.spec_contains(k)),
            forall|k: u64|
                !snapshot_has(snapshot@.take(i as int), k) && pre.spec_contains(k)
                    ==> #[trigger] store.spec_get(k) == pre.spec_get(k),
            pre.entries_seq().len() == 0
                ==> store.entries_seq() == deform_records(snapshot@.take(i as int)),
        decreases n - i,
    {
        let (id, maybe_params) = snapshot[i];
        let ghost before = *store;
        proof {
            assert(snapshot@[i as int].0 == id);
        }
        if let Some(params) = maybe_params {
            proof {
                if pre.entries_seq().len() == 0 {
                    lemma_deform_records_keys(snapshot@.take(i as int));
                    assert(!before.spec_contains(id)) by {
                        if before.spec_contains(id) {
                            let j = choose|j: int|
                                0 <= j < before.entries_seq().len()
                                    && (#[trigger] before.entries_seq()[j]).0 == id;
                            assert(snapshot_has_deform(snapshot@.take(i as int), id));
                            let w = choose|w: int|
                                0 <= w < i
                                    && (#[trigger] snapshot@.take(i as int)[w]).0 == id
                                    && snapshot@.take(i as int)[w].1 is Some;
                            assert(snapshot@[w].0 == snapshot@[i as int].0);
                        }
                    }
                }
            }
            store.insert(id, DeformUniform { seed_bits: params.seed_bits });
        }
        proof {
            if pre.entries_seq().len() == 0 {
                assert(snapshot@.take(i + 1).drop_last() =~= snapshot@.take(i as int));
                assert(snapshot@.take(i + 1).last() == snapshot@[i as int]);
                assert(store.entries_seq() == deform_records(snapshot@.take(i + 1)));
            }
            assert forall|k: u64|
                !snapshot_has(snapshot@.take(i + 1), k) implies
                (#[trigger] store.spec_contains(k) <==> pre.spec_contains(k)) by {
                assert(snapshot@.take(i + 1)[i as int].0 == id);
                assert(k != id);
                assert(!snapshot_has(snapshot@.take(i as int), k)) by {
                    if snapshot_has(snapshot@.take(i as int), k) {
                        let j = choose|j: int|
                            0 <= j < i && (#[trigger] snapshot@.take(i as int)[j]).0 == k;
                        assert(snapshot@.take(i + 1)[j].0 == k);
                    }
                }
            }
            assert forall|k: u64|
                !snapshot_has(snapshot@.take(i + 1), k) && pre.spec_contains(k) implies
                #[trigger] store.spec_get(k) == pre.spec_get(k) by {
                assert(snapshot@.take(i + 1)[i as int].0 == id);
                assert(k != id);
                assert(!snapshot_has(snapshot@.take(i as int), k)) by {
                    if snapshot_has(snapshot@.take(i as int), k) {
                        let j = choose|j: int|
                            0 <= j < i && (#[trigger] snapshot@.take(i as int)[j]).0 == k;
                        assert(snapshot@.take(i + 1)[j].0 == k);
                    }
                }
            }
            assert forall|j: int| 0 <= j < i + 1 implies match (#[trigger] snapshot@[j]).1 {
                Some(p) => {
                    &&& store.spec_contains(snapshot@[j].0)
                    &&& store.spec_get(snapshot@[j].0) == deform_uniform_of(p)
                },
                None => {
                    &&& (store.spec_contains(snapshot@[j].0)
                        <==> pre.spec_contains(snapshot@[j].0))
                    &&& (pre.spec_contains(snapshot@[j].0)
                        ==> store.spec_get(snapshot@[j].0) == pre.spec_get(snapshot@[j].0))
                },
            } by {
                if j < i {
                    assert(snapshot@[j].0 != id);
                }
            }
        }
        i = i + 1;
    }
    proof {
        assert(snapshot@.take(n as int) =~= snapshot@);
    }
}

/// No-duplication: however often extraction runs over the same snapshot,
/// the render-world table holds the same single record per entity that one
/// run leaves — a second run changes neither which entities have a record
/// nor any record's value, and leaves the table identical entry for entry,
/// in the same iteration order, so repeated extraction also repacks the
/// very same buffer.
pub proof fn lemma_animation_extraction_idempotent(
    s0: UniformStore<AnimationUniform>,
    s1: UniformStore<AnimationUniform>,
    s2: UniformStore<AnimationUniform>,
    snapshot: Seq<(u64, AnimationParameters)>,
    time_millis_bits: u32,
)
    requires
        animation_extracted(s0, s1, snapshot, time_millis_bits),
        animation_extracted(s1, s2, snapshot, time_millis_bits),
    ensures
        forall|k: u64| #[trigger] s2.spec_contains(k) <==> s1.spec_contains(k),
        forall|k: u64|
            s1.spec_contains(k) ==> #[trigger] s2.spec_get(k) == s1.spec_get(k),
        s2.entries_seq() == s1.entries_seq(),
{
    assert forall|k: u64| #[trigger] s2.spec_contains(k) <==> s1.spec_contains(k) by {
        if snapshot_has(snapshot, k) {
            let i = choose|i: int| 0 <= i < snapshot.len() && (#[trigger] snapshot[i]).0 == k;
            assert(s1.spec_contains(snapshot[i].0));
            assert(s2.spec_contains(snapshot[i].0));
        }
    }
    assert forall|k: u64|
        s1.spec_contains(k) implies #[trigger] s2.spec_get(k) == s1.spec_get(k) by {
        if snapshot_has(snapshot, k) {
            let i = choose|i: int| 0 <= i < snapshot.len() && (#[trigger] snapshot[i]).0 == k;
            assert(s1.spec_get(snapshot[i].0)
                == animation_uniform_of(snapshot[i].1, time_millis_bits));
            assert(s2.spec_get(snapshot[i].0)
                == animation_uniform_of(snapshot[i].1, time_millis_bits));
        }
    }
    lemma_same_entries(s1, s2);
}

/// Two well-formed tables whose first holds no more entries, whose common
/// prefix lists the same entities, and whose contents agree entity for
/// entity, are the same table.
proof fn lemma_same_entries<U: Copy>(s1: UniformStore<U>, s2: UniformStore<U>)
    requires
        s1.wf(),
        s2.wf(),
        s1.entries_seq().len() <= s2.entries_seq().len(),
        forall|j: int|
            0 <= j < s1.entries_seq().len()
                ==> (#[trigger] s2.entries_seq()[j]).0 == s1.entries_seq()[j].0,
        forall|k: u64| #[trigger] s2.spec_contains(k) ==> s1.spec_contains(k),
        forall|k: u64|
            s1.spec_contains(k) ==> #[trigger] s2.spec_get(k) == s1.spec_get(k),
    ensures
        s2.entries_seq() == s1.entries_seq(),
{
    let n1 = s1.entries_seq().len() as int;
    if s2.entries_seq().len() > s1.entries_seq().len() {
        let k = s2.entries_seq()[n1].0;
        s2.lemma_get_at_index(n1);
        assert(s1.spec_contains(k));
        let j = choose|j: int|
            0 <= j < s1.entries_seq().len() && (#[trigger] s1.entries_seq()[j]).0 == k;
        assert(s2.entries_seq()[j].0 == k);
        assert(false);
    }
    assert forall|j: int|
        0 <= j < n1 implies #[trigger] s2.entries_seq()[j] == s1.entries_seq()[j] by {
        let k = s1.entries_seq()[j].0;
        s1.lemma_get_at_index(j);
        s2.lemma_get_at_index(j);
        assert(s2.spec_get(k) == s1.spec_get(k));
    }
    assert(s2.entries_seq() =~= s1.entries_seq());
}

/// No-duplication for the deform pipeline: a second run of deform
/// extraction over the same snapshot leaves the table identical entry for
/// entry.
pub proof fn lemma_deform_extraction_idempotent(
    s0: UniformStore<DeformUniform>,
    s1: UniformStore<DeformUniform>,
    s2: UniformStore<DeformUniform>,
    snapshot: Seq<(u64, Option<DeformParameters>)>,
)
    requires
        distinct_keys(snapshot),
        deform_extracted(s0, s1, snapshot),
        deform_extracted(s1, s2, snapshot),
    ensures
        forall|k: u64| #[trigger] s2.spec_contains(k) <==> s1.spec_contains(k),
        forall|k: u64|
            s1.spec_contains(k) ==> #[trigger] s2.spec_get(k) == s1.spec_get(k),
        s2.entries_seq() == s1.entries_seq(),
{
    assert forall|k: u64| #[trigger] s2.spec_contains(k) <==> s1.spec_contains(k) by {
        if snapshot_has(snapshot, k) {
            let i = choose|i: int| 0 <= i < snapshot.len() && (#[trigger] snapshot[i]).0 == k;
            match snapshot[i].1 {
                Some(p) => {
                    assert(s1.spec_contains(snapshot[i].0));
                    assert(s2.spec_contains(snapshot[i].0));
                },
                None => {},
            }
        }
    }
    assert forall|k: u64|
        s1.spec_contains(k) implies #[trigger] s2.spec_get(k) == s1.spec_get(k) by {
        if snapshot_has(snapshot, k) {
            let i = choose|i: int| 0 <= i < snapshot.len() && (#[trigger] snapshot[i]).0 == k;
            match snapshot[i].1 {
                Some(p) => {
                    assert(s1.spec_get(snapshot[i].0) == deform_uniform_of(p));
                    assert(s2.spec_get(snapshot[i].0) == deform_uniform_of(p));
                },
                None => {},
            }
        }
    }
    lemma_same_entries(s1, s2);
}

} // verus!
