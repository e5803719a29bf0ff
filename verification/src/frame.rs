//! One whole frame of each pipeline, in barrier order: extraction into a
//! fresh render world, uniform preparation, bind-group construction.
//!
//! The render world of a frame starts empty — uniform records never
//! outlive the frame they were extracted in — so everything a frame
//! publishes is determined by that frame's snapshot alone.  The stale
//! removal guarantee lives here: an entity missing from this frame's
//! snapshot cannot appear in this frame's offsets, whatever earlier frames
//! packed for it.

use vstd::prelude::*;
use vstd::arithmetic::mul::lemma_mul_inequality;
use crate::uniform::{AnimationParameters, DeformParameters, ANIMATION_UNIFORM_SIZE,
    DEFORM_UNIFORM_SIZE};
use crate::store::UniformStore;
use crate::extract::{distinct_keys, snapshot_has, snapshot_has_deform, animation_records,
    deform_records, lemma_deform_records_keys, extract_outline_animation_uniforms,
    extract_outline_deform_uniforms};
use crate::prepare::{PreparedUniforms, spec_stride, animation_prepared, deform_prepared,
    prepare_outline_animation_uniforms, prepare_outline_deform_uniforms,
    lemma_animation_offsets_distinct, lemma_deform_offsets_distinct, lemma_spec_stride_bounds};
use crate::bind::{BindGroupCache, queue_outline_animation_bind_group,
    prepare_outline_deform_bind_group};

verus! {

/// One frame of the animation pipeline.  With no animation-carrying entity
/// in the snapshot, no buffer is produced and nothing is published for this
/// frame; otherwise the packed buffer described by `animation_prepared`
/// over this frame's records is produced, and the bind group with identity
/// `group_id` is published for this frame together with the offsets.
pub fn run_animation_frame(
    snapshot: &Vec<(u64, AnimationParameters)>,
    time_millis_bits: u32,
    frame: u64,
    min_offset_alignment: usize,
    group_id: u64,
    cache: &mut BindGroupCache,
) -> (r: Option<PreparedUniforms>)
    requires
        distinct_keys(snapshot@),
        old(cache).wf(),
        !old(cache).published_for(frame),
        1 <= min_offset_alignment,
        ANIMATION_UNIFORM_SIZE + min_offset_alignment - 1 <= usize::MAX,
        snapshot@.len()
            * spec_stride(ANIMATION_UNIFORM_SIZE as int, min_offset_alignment as int)
            <= usize::MAX,
    ensures
        final(cache).wf(),
        match r {
            Some(p) => {
                &&& snapshot@.len() > 0
                &&& animation_prepared(
                    animation_records(snapshot@, time_millis_bits),
                    p,
                    min_offset_alignment,
                )
                &&& distinct_keys(p.offsets@)
                &&& final(cache).published_for(frame)
                &&& final(cache).current_group() == group_id
                &&& final(cache).current_offsets() == p.offsets@
            },
            None => {
                &&& snapshot@.len() == 0
                &&& *final(cache) == *old(cache)
                &&& !final(cache).published_for(frame)
            },
        },
{
    let mut store: UniformStore<crate::uniform::AnimationUniform> = UniformStore::new();
    extract_outline_animation_uniforms(&mut store, snapshot, time_millis_bits);
    proof {
        assert(store.entries_seq() == animation_records(snapshot@, time_millis_bits));
        assert(store.entries_seq().len() == snapshot@.len());
        assert(distinct_keys(store.entries_seq())) by {
            assert forall|i: int, j: int|
                0 <= i < j < store.entries_seq().len() implies
                (#[trigger] store.entries_seq()[i]).0
                    != (#[trigger] store.entries_seq()[j]).0 by {
                assert(store.entries_seq()[i].0 == snapshot@[i].0);
                assert(store.entries_seq()[j].0 == snapshot@[j].0);
            }
        }
    }
    let prepared = prepare_outline_animation_uniforms(&store, min_offset_alignment);
    proof {
        match &prepared {
            Some(p) => {
                lemma_animation_offsets_distinct(
                    store.entries_seq(),
                    *p,
                    min_offset_alignment,
                );
            },
            None => {},
        }
    }
    queue_outline_animation_bind_group(cache, &prepared, frame, group_id);
    prepared
}

/// One frame of the deformation pipeline.  Only snapshot entities whose
/// computed outline carries deform parameters are packed; with none of
/// them, no buffer is produced and nothing is published for this frame.
pub fn run_deform_frame(
    snapshot: &Vec<(u64, Option<DeformParameters>)>,
    frame: u64,
    min_offset_alignment: usize,
    group_id: u64,
    cache: &mut BindGroupCache,
) -> (r: Option<PreparedUniforms>)
    requires
        distinct_keys(snapshot@),
        old(cache).wf(),
        !old(cache).published_for(frame),
        1 <= min_offset_alignment,
        DEFORM_UNIFORM_SIZE + min_offset_alignment - 1 <= usize::MAX,
        snapshot@.len()
            * spec_stride(DEFORM_UNIFORM_SIZE as int, min_offset_alignment as int)
            <= usize::MAX,
    ensures
        final(cache).wf(),
        match r {
            Some(p) => {
                &&& deform_records(snapshot@).len() > 0
                &&& deform_prepared(deform_records(snapshot@), p, min_offset_alignment)
                &&& distinct_keys(p.offsets@)
                &&& final(cache).published_for(frame)
                &&& final(cache).current_group() == group_id
                &&& final(cache).current_offsets() == p.offsets@
            },
            None => {
                &&& deform_records(snapshot@).len() == 0
                &&& *final(cache) == *old(cache)
                &&& !final(cache).published_for(frame)
            },
        },
{
    let mut store: UniformStore<crate::uniform::DeformUniform> = UniformStore::new();
    extract_outline_deform_uniforms(&mut store, snapshot);
    proof {
        assert(store.entries_seq() == deform_records(snapshot@));
        lemma_deform_records_keys(snapshot@);
        lemma_mul_inequality(
            store.entries_seq().len() as int,
            snapshot@.len() as int,
            spec_stride(DEFORM_UNIFORM_SIZE as int, min_offset_alignment as int),
        );
        lemma_spec_stride_bounds(DEFORM_UNIFORM_SIZE as int, min_offset_alignment as int);
    }
    let prepared = prepare_outline_deform_uniforms(&store, min_offset_alignment);
    proof {
        match &prepared {
            Some(p) => {
                lemma_deform_offsets_distinct(store.entries_seq(), *p, min_offset_alignment);
            },
            None => {},
        }
    }
    prepare_outline_deform_bind_group(cache, &prepared, frame, group_id);
    prepared
}

/// Stale removal: an entity that carries no deform parameters in this
/// frame's snapshot — removed since an earlier frame, or never present —
/// has no slot in this frame's packed buffer and no published dynamic
/// offset, so no bind command can be issued for it this frame, whatever an
/// earlier frame packed.
pub proof fn lemma_stale_entity_unbound(
    snapshot: Seq<(u64, Option<DeformParameters>)>,
    p: PreparedUniforms,
    align: usize,
    entity: u64,
)
    requires
        deform_prepared(deform_records(snapshot), p, align),
        !snapshot_has_deform(snapshot, entity),
    ensures
        !snapshot_has(p.offsets@, entity),
{
    lemma_deform_records_keys(snapshot);
    if snapshot_has(p.offsets@, entity) {
        let j = choose|j: int|
            0 <= j < p.offsets@.len() && (#[trigger] p.offsets@[j]).0 == entity;
        assert(deform_records(snapshot)[j].0 == entity);
        assert(snapshot_has_deform(snapshot, entity));
    }
}

/// The animation-side counterpart: an entity absent from this frame's
/// animation snapshot has no published animation offset this frame.
pub proof fn lemma_absent_animation_entity_unbound(
    snapshot: Seq<(u64, AnimationParameters)>,
    time_millis_bits: u32,
    p: PreparedUniforms,
    align: usize,
    entity: u64,
)
    requires
        animation_prepared(animation_records(snapshot, time_millis_bits), p, align),
        !snapshot_has(snapshot, entity),
    ensures
        !snapshot_has(p.offsets@, entity),
{
    if snapshot_has(p.offsets@, entity) {
        let j = choose|j: int|
            0 <= j < p.offsets@.len() && (#[trigger] p.offsets@[j]).0 == entity;
        assert(animation_records(snapshot, time_millis_bits)[j].0 == entity);
        assert(snapshot[j].0 == entity);
    }
}

} // verus!
