//! Render command binder: per draw item, look up the entity's dynamic
//! offset in this frame's publication and record a set-bind-group command
//! at the pipeline's designated slot.
//!
//! When this frame published no bind group, or the entity has no slot in
//! it, no command is recorded at all: a draw never binds an undefined or
//! mismatched offset.

use vstd::prelude::*;
use crate::bind::BindGroupCache;
use crate::extract::{distinct_keys, snapshot_has};

verus! {

/// The dynamic offset listed for `entity`; meaningful when the table lists
/// it and lists every entity once.
pub open spec fn spec_offset_of(offsets: Seq<(u64, usize)>, entity: u64) -> usize {
    offsets[choose|i: int|
        0 <= i < offsets.len() && (#[trigger] offsets[i]).0 == entity].1
}

/// Linear lookup of an entity's published dynamic offset.
#[verifier::loop_isolation(false)]
pub fn lookup_offset(offsets: &Vec<(u64, usize)>, entity: u64) -> (r: Option<usize>)
    requires
        distinct_keys(offsets@),
    ensures
        match r {
            Some(off) => snapshot_has(offsets@, entity)
                && off == spec_offset_of(offsets@, entity),
            None => !snapshot_has(offsets@, entity),
        },
{
    let n = offsets.len();
    let mut i: usize = 0;
    while i < n
        invariant
            i <= n,
            forall|j: int| 0 <= j < i ==> (#[trigger] offsets@[j]).0 != entity,
        decreases n - i,
    {
        let e = offsets[i];
        if e.0 == entity {
            proof {
                let c = choose|c: int|
                    0 <= c < offsets@.len() && (#[trigger] offsets@[c]).0 == entity;
                assert(c == i);
            }
            return Some(e.1);
        }
        i = i + 1;
    }
    None
}

/// A recorded render pass: the bind group identity and dynamic offset
/// standing at each bind slot of the pass.  Slots are written only by
/// recorded set-bind-group commands; writing one slot leaves every other
/// slot untouched.
pub struct TrackedPass {
    bindings: Vec<Option<(u64, usize)>>,
}

/// What one recorded set-bind-group command does to a pass: the named slot
/// now holds the given bind group and offset, every other slot is as it
/// was.
pub open spec fn pass_set(
    pre: TrackedPass,
    post: TrackedPass,
    slot: int,
    group_id: u64,
    offset: usize,
) -> bool {
    &&& post.slot_count() == pre.slot_count()
    &&& 0 <= slot < pre.slot_count()
    &&& post.binding_at(slot) == Some((group_id, offset))
    &&& forall|s: int|
        0 <= s < pre.slot_count() && s != slot
            ==> #[trigger] post.binding_at(s) == pre.binding_at(s)
}

impl TrackedPass {
    /// The bindings, one per slot.
    pub closed spec fn spec_bindings(&self) -> Seq<Option<(u64, usize)>> {
        self.bindings@
    }

    pub open spec fn slot_count(&self) -> int {
        self.spec_bindings().len() as int
    }

    /// The bind group identity and dynamic offset bound at `slot`, if any.
    pub open spec fn binding_at(&self, slot: int) -> Option<(u64, usize)> {
        self.spec_bindings()[slot]
    }

    /// A fresh pass with `slot_count` bind slots, none of them bound.
    #[verifier::loop_isolation(false)]
    pub fn new(slot_count: usize) -> (p: Self)
        ensures
            p.slot_count() == slot_count,
            forall|s: int| 0 <= s < slot_count ==> #[trigger] p.binding_at(s) is None,
    {
        let mut bindings: Vec<Option<(u64, usize)>> = Vec::new();
        let mut i: usize = 0;
        while i < slot_count
            invariant
                i <= slot_count,
                bindings@.len() == i,
                forall|s: int| 0 <= s < i ==> #[trigger] bindings@[s] is None,
            decreases slot_count - i,
        {
            bindings.push(None);
            i = i + 1;
        }
        TrackedPass { bindings }
    }

    /// The bind group identity and dynamic offset currently bound at
    /// `slot`.
    pub fn binding(&self, slot: usize) -> (r: Option<(u64, usize)>)
        requires
            (slot as int) < self.slot_count(),
        ensures
            r == self.binding_at(slot as int),
    {
        self.bindings[slot]
    }

    /// Record a set-bind-group command: bind `group_id` at `slot` with one
    /// dynamic `offset`.
    pub fn set_bind_group(&mut self, slot: usize, group_id: u64, offset: usize)
        requires
            (slot as int) < old(self).slot_count(),
        ensures
            pass_set(*old(self), *final(self), slot as int, group_id, offset),
    {
        self.bindings[slot] = Some((group_id, offset));
        proof {
            assert(self.spec_bindings()
                =~= old(self).spec_bindings().update(slot as int, Some((group_id, offset))));
        }
    }
}

/// Per-draw binder for the animation pipeline: when this frame published an
/// animation bind group and it lists the draw item's entity, record the
/// set-bind-group command at the animation slot with that entity's dynamic
/// offset; otherwise record nothing and leave the pass untouched.
pub fn set_outline_animation_bind_group(
    cache: &BindGroupCache,
    frame: u64,
    entity: u64,
    slot: usize,
    pass: &mut TrackedPass,
) -> (issued: bool)
    requires
        cache.wf(),
        (slot as int) < old(pass).slot_count(),
    ensures
        issued == (cache.published_for(frame)
            && snapshot_has(cache.current_offsets(), entity)),
        issued ==> pass_set(
            *old(pass),
            *final(pass),
            slot as int,
            cache.current_group(),
            spec_offset_of(cache.current_offsets(), entity),
        ),
        !issued ==> *final(pass) == *old(pass),
{
    match cache.current_for_frame(frame) {
        Some(binding) => {
            match lookup_offset(&binding.offsets, entity) {
                Some(offset) => {
                    pass.set_bind_group(slot, binding.group_id, offset);
                    true
                },
                None => false,
            }
        },
        None => false,
    }
}

/// Per-draw binder for the deformation pipeline: same behaviour as the
/// animation binder, against the deform pipeline's own cache and its own
/// designated slot.
pub fn set_outline_deform_bind_group(
    cache: &BindGroupCache,
    frame: u64,
    entity: u64,
    slot: usize,
    pass: &mut TrackedPass,
) -> (issued: bool)
    requires
        cache.wf(),
        (slot as int) < old(pass).slot_count(),
    ensures
        issued == (cache.published_for(frame)
            && snapshot_has(cache.current_offsets(), entity)),
        issued ==> pass_set(
            *old(pass),
            *final(pass),
            slot as int,
            cache.current_group(),
            spec_offset_of(cache.current_offsets(), entity),
        ),
        !issued ==> *final(pass) == *old(pass),
{
    match cache.current_for_frame(frame) {
        Some(binding) => {
            match lookup_offset(&binding.offsets, entity) {
                Some(offset) => {
                    pass.set_bind_group(slot, binding.group_id, offset);
                    true
                },
                None => false,
            }
        },
        None => false,
    }
}

/// Independence: the animation and deformation pipelines bind at disjoint
/// slots, so recording the one never overwrites or invalidates the other —
/// after both commands, each slot still holds exactly its own binding.
pub proof fn lemma_disjoint_slots_independent(
    p0: TrackedPass,
    p1: TrackedPass,
    p2: TrackedPass,
    slot_a: int,
    group_a: u64,
    offset_a: usize,
    slot_b: int,
    group_b: u64,
    offset_b: usize,
)
    requires
        pass_set(p0, p1, slot_a, group_a, offset_a),
        pass_set(p1, p2, slot_b, group_b, offset_b),
        slot_a != slot_b,
    ensures
        p2.binding_at(slot_a) == Some((group_a, offset_a)),
        p2.binding_at(slot_b) == Some((group_b, offset_b)),
{
}

} // verus!
