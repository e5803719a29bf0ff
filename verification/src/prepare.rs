//! Uniform preparation stage: packing the frame's uniform records into one
//! contiguous, dynamically indexed buffer.
//!
//! Every record gets a slot of one fixed stride — its serialized size
//! rounded up to the device's minimum uniform-buffer offset alignment —
//! and a dynamic offset, its slot index times the stride.  An empty frame
//! produces no buffer at all.

use vstd::prelude::*;
use vstd::arithmetic::mul::{lemma_mul_inequality, lemma_mul_is_distributive_add_other_way,
    lemma_mul_is_commutative};
use vstd::arithmetic::div_mod::{lemma_fundamental_div_mod, lemma_mod_division_less_than_divisor,
    lemma_mod_multiples_basic};
use vstd::slice::slice_subrange;
use crate::uniform::{AnimationUniform, DeformUniform, ANIMATION_UNIFORM_SIZE,
    DEFORM_UNIFORM_SIZE, spec_encode_animation, spec_encode_deform, encode_animation_uniform,
    encode_deform_uniform, decode_animation_uniform, decode_deform_uniform,
    lemma_animation_encode_injective, lemma_deform_encode_injective};
use crate::store::UniformStore;
use crate::extract::{distinct_keys, snapshot_has};
use crate::binder::spec_offset_of;

verus! {

/// The slot stride for a record of `size` bytes under a device minimum
/// offset alignment: `size` rounded up to the next multiple of `align`.
pub open spec fn spec_stride(size: int, align: int) -> int {
    ((size + align - 1) / align) * align
}

/// The stride lies between the record size and the next alignment
/// boundary, and is a multiple of the alignment.
pub proof fn lemma_spec_stride_bounds(size: int, align: int)
    requires
        0 <= size,
        1 <= align,
    ensures
        size <= spec_stride(size, align),
        spec_stride(size, align) <= size + align - 1,
        spec_stride(size, align) % align == 0,
{
    lemma_fundamental_div_mod(size + align - 1, align);
    lemma_mod_division_less_than_divisor(size + align - 1, align);
    lemma_mul_is_commutative(align, (size + align - 1) / align);
    lemma_mod_multiples_basic((size + align - 1) / align, align);
}

pub fn round_up_to_alignment(size: usize, align: usize) -> (stride: usize)
    requires
        1 <= align,
        size + align - 1 <= usize::MAX,
    ensures
        stride as int == spec_stride(size as int, align as int),
        size <= stride,
        stride < size + align,
        stride as int % align as int == 0,
{
    let d = size + (align - 1);
    let q = d / align;
    proof {
        let di = d as int;
        let a = align as int;
        lemma_fundamental_div_mod(di, a);
        lemma_mod_division_less_than_divisor(di, a);
        lemma_mul_is_commutative(a, di / a);
        lemma_mod_multiples_basic(di / a, a);
    }
    q * align
}

/// Append one slot to the packed buffer: the record's serialized bytes
/// followed by zero padding up to the stride.
#[verifier::loop_isolation(false)]
fn push_padded_slot(buffer: &mut Vec<u8>, slot: &[u8], stride: usize)
    requires
        slot@.len() <= stride,
        old(buffer)@.len() + stride <= usize::MAX,
    ensures
        final(buffer)@.len() == old(buffer)@.len() + stride,
        forall|t: int| 0 <= t < old(buffer)@.len() ==> final(buffer)@[t] == old(buffer)@[t],
        forall|t: int|
            0 <= t < slot@.len() ==> final(buffer)@[old(buffer)@.len() + t] == slot@[t],
        forall|t: int|
            slot@.len() <= t < stride
                ==> #[trigger] final(buffer)@[old(buffer)@.len() + t] == 0u8,
{
    let base = buffer.len();
    let mut j: usize = 0;
    while j < slot.len()
        invariant
            j <= slot@.len(),
            buffer@.len() == base + j,
            forall|t: int| 0 <= t < base ==> buffer@[t] == old(buffer)@[t],
            forall|t: int| 0 <= t < j ==> buffer@[base + t] == slot@[t],
        decreases slot@.len() - j,
    {
        buffer.push(slot[j]);
        j = j + 1;
    }
    let mut k: usize = j;
    while k < stride
        invariant
            slot@.len() <= k <= stride,
            buffer@.len() == base + k,
            forall|t: int| 0 <= t < base ==> buffer@[t] == old(buffer)@[t],
            forall|t: int| 0 <= t < slot@.len() ==> buffer@[base + t] == slot@[t],
            forall|t: int| slot@.len() <= t < k ==> #[trigger] buffer@[base + t] == 0u8,
        decreases stride - k,
    {
        buffer.push(0u8);
        k = k + 1;
    }
}

/// Pack the serialized records into one contiguous buffer in iteration
/// order, one stride-aligned slot each: slot `i` starts at byte
/// `i * stride`.
#[verifier::loop_isolation(false)]
pub fn pack_slots(slots: &Vec<Vec<u8>>, size: usize, stride: usize) -> (buffer: Vec<u8>)
    requires
        forall|i: int| 0 <= i < slots@.len() ==> (#[trigger] slots@[i])@.len() == size,
        size <= stride,
        slots@.len() * stride <= usize::MAX,
    ensures
        buffer@.len() == slots@.len() * stride,
        forall|i: int|
            0 <= i < slots@.len()
                ==> #[trigger] buffer@.subrange(i * stride, i * stride + size as int)
                    == slots@[i]@,
        forall|i: int, t: int|
            0 <= i < slots@.len() && size <= t < stride
                ==> #[trigger] buffer@[i * stride + t] == 0u8,
{
    let n = slots.len();
    let mut buffer: Vec<u8> = Vec::new();
    let mut i: usize = 0;
    while i < n
        invariant
            i <= n,
            buffer@.len() == i * stride,
            forall|j: int|
                0 <= j < i
                    ==> #[trigger] buffer@.subrange(j * stride, j * stride + size as int)
                        == slots@[j]@,
            forall|j: int, t: int|
                0 <= j < i && size <= t < stride
                    ==> #[trigger] buffer@[j * stride + t] == 0u8,
        decreases n - i,
    {
        proof {
            lemma_mul_inequality(i + 1, n as int, stride as int);
            lemma_mul_is_distributive_add_other_way(stride as int, i as int, 1);
        }
        let ghost before = buffer@;
        push_padded_slot(&mut buffer, slots[i].as_slice(), stride);
        proof {
            assert forall|j: int|
                0 <= j < i + 1 implies
                #[trigger] buffer@.subrange(j * stride, j * stride + size as int)
                    == slots@[j]@ by {
                if j < i {
                    lemma_mul_inequality(j + 1, i as int, stride as int);
                    lemma_mul_is_distributive_add_other_way(stride as int, j, 1);
                    assert(buffer@.subrange(j * stride, j * stride + size as int)
                        =~= before.subrange(j * stride, j * stride + size as int));
                } else {
                    assert(buffer@.subrange(i as int * stride, i as int * stride + size as int)
                        =~= slots@[i as int]@);
                }
            }
            assert forall|j: int, t: int|
                0 <= j < i + 1 && size <= t < stride implies
                #[trigger] buffer@[j * stride + t] == 0u8 by {
                if j < i {
                    lemma_mul_inequality(j + 1, i as int, stride as int);
                    lemma_mul_is_distributive_add_other_way(stride as int, j, 1);
                } else {
                    assert(buffer@[before.len() + t] == 0u8);
                }
            }
        }
        i = i + 1;
    }
    buffer
}

/// The frame-scoped product of uniform preparation: the packed buffer that
/// is uploaded to the device this frame, and the dynamic offset published
/// for each packed entity, in iteration order.  Valid only for bind
/// operations recorded in the same frame.
pub struct PreparedUniforms {
    /// Contents of the GPU-visible buffer: one stride-aligned slot per
    /// entity.
    pub buffer: Vec<u8>,
    /// Entity identity paired with the byte offset of its slot.
    pub offsets: Vec<(u64, usize)>,
    /// Distance in bytes between consecutive slots.
    pub stride: usize,
}

/// The preparation contract for the animation pipeline: the buffer holds
/// one slot per table record in iteration order, each entity's published
/// offset is its slot index times the stride, and each slot begins with
/// that entity's serialized uniform.
pub open spec fn animation_prepared(
    entries: Seq<(u64, AnimationUniform)>,
    p: PreparedUniforms,
    align: usize,
) -> bool {
    &&& 1 <= align
    &&& p.stride as int == spec_stride(ANIMATION_UNIFORM_SIZE as int, align as int)
    &&& ANIMATION_UNIFORM_SIZE <= p.stride
    &&& p.offsets@.len() == entries.len()
    &&& p.buffer@.len() == entries.len() * p.stride
    &&& forall|i: int| 0 <= i < entries.len() ==> {
        &&& (#[trigger] p.offsets@[i]).0 == entries[i].0
        &&& p.offsets@[i].1 as int == i * p.stride as int
    }
    &&& forall|i: int|
        0 <= i < entries.len()
            ==> p.buffer@.subrange(
                i * p.stride as int,
                i * p.stride as int + ANIMATION_UNIFORM_SIZE as int,
            ) == spec_encode_animation((#[trigger] entries[i]).1)
    &&& forall|i: int, t: int|
        0 <= i < entries.len() && ANIMATION_UNIFORM_SIZE <= t < p.stride
            ==> #[trigger] p.buffer@[i * p.stride as int + t] == 0u8
}

/// The preparation contract for the deformation pipeline.
pub open spec fn deform_prepared(
    entries: Seq<(u64, DeformUniform)>,
    p: PreparedUniforms,
    align: usize,
) -> bool {
    &&& 1 <= align
    &&& p.stride as int == spec_stride(DEFORM_UNIFORM_SIZE as int, align as int)
    &&& DEFORM_UNIFORM_SIZE <= p.stride
    &&& p.offsets@.len() == entries.len()
    &&& p.buffer@.len() == entries.len() * p.stride
    &&& forall|i: int| 0 <= i < entries.len() ==> {
        &&& (#[trigger] p.offsets@[i]).0 == entries[i].0
        &&& p.offsets@[i].1 as int == i * p.stride as int
    }
    &&& forall|i: int|
        0 <= i < entries.len()
            ==> p.buffer@.subrange(
                i * p.stride as int,
                i * p.stride as int + DEFORM_UNIFORM_SIZE as int,
            ) == spec_encode_deform((#[trigger] entries[i]).1)
    &&& forall|i: int, t: int|
        0 <= i < entries.len() && DEFORM_UNIFORM_SIZE <= t < p.stride
            ==> #[trigger] p.buffer@[i * p.stride as int + t] == 0u8
}

/// Preparation for the animation pipeline: serialize this frame's animation
/// uniforms into one packed buffer and compute every entity's dynamic
/// offset.  An empty table publishes nothing.
#[verifier::loop_isolation(false)]
pub fn prepare_outline_animation_uniforms(
    store: &UniformStore<AnimationUniform>,
    min_offset_alignment: usize,
) -> (r: Option<PreparedUniforms>)
    requires
        1 <= min_offset_alignment,
        ANIMATION_UNIFORM_SIZE + min_offset_alignment - 1 <= usize::MAX,
        store.entries_seq().len()
            * spec_stride(ANIMATION_UNIFORM_SIZE as int, min_offset_alignment as int)
            <= usize::MAX,
    ensures
        match r {
            Some(p) => store.entries_seq().len() > 0
                && animation_prepared(store.entries_seq(), p, min_offset_alignment),
            None => store.entries_seq().len() == 0,
        },
{
    let n = store.len();
    if n == 0 {
        return None;
    }
    let stride = round_up_to_alignment(ANIMATION_UNIFORM_SIZE, min_offset_alignment);
    let mut slots: Vec<Vec<u8>> = Vec::new();
    let mut offsets: Vec<(u64, usize)> = Vec::new();
    let mut i: usize = 0;
    while i < n
        invariant
            i <= n,
            slots@.len() == i,
            offsets@.len() == i,
            forall|j: int|
                0 <= j < i ==> (#[trigger] slots@[j])@
                    == spec_encode_animation(store.entries_seq()[j].1),
            forall|j: int| 0 <= j < i ==> (#[trigger] slots@[j])@.len() == ANIMATION_UNIFORM_SIZE,
            forall|j: int| 0 <= j < i ==> {
                &&& (#[trigger] offsets@[j]).0 == store.entries_seq()[j].0
                &&& offsets@[j].1 as int == j * stride as int
            },
        decreases n - i,
    {
        let entry = store.entry(i);
        let bytes = encode_animation_uniform(&entry.1);
        proof {
            lemma_mul_inequality(i as int, n as int, stride as int);
        }
        let off = i * stride;
        offsets.push((entry.0, off));
        slots.push(bytes);
        i = i + 1;
    }
    let buffer = pack_slots(&slots, ANIMATION_UNIFORM_SIZE, stride);
    Some(PreparedUniforms { buffer, offsets, stride })
}

/// Preparation for the deformation pipeline.
#[verifier::loop_isolation(false)]
pub fn prepare_outline_deform_uniforms(
    store: &UniformStore<DeformUniform>,
    min_offset_alignment: usize,
) -> (r: Option<PreparedUniforms>)
    requires
        1 <= min_offset_alignment,
        DEFORM_UNIFORM_SIZE + min_offset_alignment - 1 <= usize::MAX,
        store.entries_seq().len()
            * spec_stride(DEFORM_UNIFORM_SIZE as int, min_offset_alignment as int)
            <= usize::MAX,
    ensures
        match r {
            Some(p) => store.entries_seq().len() > 0
                && deform_prepared(store.entries_seq(), p, min_offset_alignment),
            None => store.entries_seq().len() == 0,
        },
{
    let n = store.len();
    if n == 0 {
        return None;
    }
    let stride = round_up_to_alignment(DEFORM_UNIFORM_SIZE, min_offset_alignment);
    let mut slots: Vec<Vec<u8>> = Vec::new();
    let mut offsets: Vec<(u64, usize)> = Vec::new();
    let mut i: usize = 0;
    while i < n
        invariant
            i <= n,
            slots@.len() == i,
            offsets@.len() == i,
            forall|j: int|
                0 <= j < i ==> (#[trigger] slots@[j])@
                    == spec_encode_deform(store.entries_seq()[j].1),
            forall|j: int| 0 <= j < i ==> (#[trigger] slots@[j])@.len() == DEFORM_UNIFORM_SIZE,
            forall|j: int| 0 <= j < i ==> {
                &&& (#[trigger] offsets@[j]).0 == store.entries_seq()[j].0
                &&& offsets@[j].1 as int == j * stride as int
            },
        decreases n - i,
    {
        let entry = store.entry(i);
        let bytes = encode_deform_uniform(&entry.1);
        proof {
            lemma_mul_inequality(i as int, n as int, stride as int);
        }
        let off = i * stride;
        offsets.push((entry.0, off));
        slots.push(bytes);
        i = i + 1;
    }
    let buffer = pack_slots(&slots, DEFORM_UNIFORM_SIZE, stride);
    Some(PreparedUniforms { buffer, offsets, stride })
}

/// Read one animation uniform back from a packed buffer at a dynamic
/// offset, as the GPU does when drawing with that offset bound.
pub fn read_animation_uniform_at(buffer: &Vec<u8>, offset: usize) -> (u: AnimationUniform)
    requires
        offset + ANIMATION_UNIFORM_SIZE <= buffer@.len(),
    ensures
        spec_encode_animation(u)
            == buffer@.subrange(offset as int, offset as int + ANIMATION_UNIFORM_SIZE as int),
{
    let n = buffer.len();
    assert(offset + ANIMATION_UNIFORM_SIZE <= n);
    decode_animation_uniform(
        slice_subrange(buffer.as_slice(), offset, offset + ANIMATION_UNIFORM_SIZE),
    )
}

/// Read one deformation uniform back from a packed buffer at a dynamic
/// offset.
pub fn read_deform_uniform_at(buffer: &Vec<u8>, offset: usize) -> (u: DeformUniform)
    requires
        offset + DEFORM_UNIFORM_SIZE <= buffer@.len(),
    ensures
        spec_encode_deform(u)
            == buffer@.subrange(offset as int, offset as int + DEFORM_UNIFORM_SIZE as int),
{
    let n = buffer.len();
    assert(offset + DEFORM_UNIFORM_SIZE <= n);
    decode_deform_uniform(
        slice_subrange(buffer.as_slice(), offset, offset + DEFORM_UNIFORM_SIZE),
    )
}

/// Offset consistency for the animation pipeline: the dynamic offset
/// published for a packed entity addresses exactly that entity's serialized
/// uniform, and nothing but the original record serializes to those bytes —
/// packing then reading back at the offset recovers the original values.
pub proof fn lemma_animation_offset_round_trip(
    entries: Seq<(u64, AnimationUniform)>,
    p: PreparedUniforms,
    align: usize,
    i: int,
)
    requires
        animation_prepared(entries, p, align),
        0 <= i < entries.len(),
    ensures
        p.offsets@[i].1 as int + ANIMATION_UNIFORM_SIZE as int <= p.buffer@.len(),
        p.buffer@.subrange(
            p.offsets@[i].1 as int,
            p.offsets@[i].1 as int + ANIMATION_UNIFORM_SIZE as int,
        ) == spec_encode_animation(entries[i].1),
        forall|u: AnimationUniform|
            spec_encode_animation(u) == p.buffer@.subrange(
                p.offsets@[i].1 as int,
                p.offsets@[i].1 as int + ANIMATION_UNIFORM_SIZE as int,
            ) ==> u == entries[i].1,
{
    lemma_mul_inequality(i + 1, entries.len() as int, p.stride as int);
    lemma_mul_is_distributive_add_other_way(p.stride as int, i, 1);
    assert forall|u: AnimationUniform|
        spec_encode_animation(u) == p.buffer@.subrange(
            p.offsets@[i].1 as int,
            p.offsets@[i].1 as int + ANIMATION_UNIFORM_SIZE as int,
        ) implies u == entries[i].1 by {
        lemma_animation_encode_injective(u, entries[i].1);
    }
}

/// Offset consistency for the deformation pipeline.
pub proof fn lemma_deform_offset_round_trip(
    entries: Seq<(u64, DeformUniform)>,
    p: PreparedUniforms,
    align: usize,
    i: int,
)
    requires
        deform_prepared(entries, p, align),
        0 <= i < entries.len(),
    ensures
        p.offsets@[i].1 as int + DEFORM_UNIFORM_SIZE as int <= p.buffer@.len(),
        p.buffer@.subrange(
            p.offsets@[i].1 as int,
            p.offsets@[i].1 as int + DEFORM_UNIFORM_SIZE as int,
        ) == spec_encode_deform(entries[i].1),
        forall|u: DeformUniform|
            spec_encode_deform(u) == p.buffer@.subrange(
                p.offsets@[i].1 as int,
                p.offsets@[i].1 as int + DEFORM_UNIFORM_SIZE as int,
            ) ==> u == entries[i].1,
{
    lemma_mul_inequality(i + 1, entries.len() as int, p.stride as int);
    lemma_mul_is_distributive_add_other_way(p.stride as int, i, 1);
    assert forall|u: DeformUniform|
        spec_encode_deform(u) == p.buffer@.subrange(
            p.offsets@[i].1 as int,
            p.offsets@[i].1 as int + DEFORM_UNIFORM_SIZE as int,
        ) implies u == entries[i].1 by {
        lemma_deform_encode_injective(u, entries[i].1);
    }
}

/// An entity's published dynamic offset, as the render command binder
/// looks it up, addresses exactly that entity's serialized animation
/// uniform in the frame's packed buffer.
pub proof fn lemma_animation_offset_addresses_entity(
    entries: Seq<(u64, AnimationUniform)>,
    p: PreparedUniforms,
    align: usize,
    entity: u64,
)
    requires
        distinct_keys(entries),
        animation_prepared(entries, p, align),
        snapshot_has(entries, entity),
    ensures
        snapshot_has(p.offsets@, entity),
        forall|i: int|
            0 <= i < entries.len() && (#[trigger] entries[i]).0 == entity
                ==> p.buffer@.subrange(
                    spec_offset_of(p.offsets@, entity) as int,
                    spec_offset_of(p.offsets@, entity) as int + ANIMATION_UNIFORM_SIZE as int,
                ) == spec_encode_animation(entries[i].1),
{
    lemma_animation_offsets_distinct(entries, p, align);
    let w = choose|w: int| 0 <= w < entries.len() && (#[trigger] entries[w]).0 == entity;
    assert(p.offsets@[w].0 == entity);
    assert forall|i: int|
        0 <= i < entries.len() && (#[trigger] entries[i]).0 == entity implies
        p.buffer@.subrange(
            spec_offset_of(p.offsets@, entity) as int,
            spec_offset_of(p.offsets@, entity) as int + ANIMATION_UNIFORM_SIZE as int,
        ) == spec_encode_animation(entries[i].1) by {
        assert(p.offsets@[i].0 == entity);
        let c = choose|c: int|
            0 <= c < p.offsets@.len() && (#[trigger] p.offsets@[c]).0 == entity;
        assert(c == i);
        lemma_animation_offset_round_trip(entries, p, align, i);
    }
}

/// The deform counterpart: an entity's published dynamic offset addresses
/// exactly that entity's serialized deformation uniform.
pub proof fn lemma_deform_offset_addresses_entity(
    entries: Seq<(u64, DeformUniform)>,
    p: PreparedUniforms,
    align: usize,
    entity: u64,
)
    requires
        distinct_keys(entries),
        deform_prepared(entries, p, align),
        snapshot_has(entries, entity),
    ensures
        snapshot_has(p.offsets@, entity),
        forall|i: int|
            0 <= i < entries.len() && (#[trigger] entries[i]).0 == entity
                ==> p.buffer@.subrange(
                    spec_offset_of(p.offsets@, entity) as int,
                    spec_offset_of(p.offsets@, entity) as int + DEFORM_UNIFORM_SIZE as int,
                ) == spec_encode_deform(entries[i].1),
{
    lemma_deform_offsets_distinct(entries, p, align);
    let w = choose|w: int| 0 <= w < entries.len() && (#[trigger] entries[w]).0 == entity;
    assert(p.offsets@[w].0 == entity);
    assert forall|i: int|
        0 <= i < entries.len() && (#[trigger] entries[i]).0 == entity implies
        p.buffer@.subrange(
            spec_offset_of(p.offsets@, entity) as int,
            spec_offset_of(p.offsets@, entity) as int + DEFORM_UNIFORM_SIZE as int,
        ) == spec_encode_deform(entries[i].1) by {
        assert(p.offsets@[i].0 == entity);
        let c = choose|c: int|
            0 <= c < p.offsets@.len() && (#[trigger] p.offsets@[c]).0 == entity;
        assert(c == i);
        lemma_deform_offset_round_trip(entries, p, align, i);
    }
}

/// The published offset table inherits key distinctness from the uniform
/// table: no entity is listed twice.
pub proof fn lemma_animation_offsets_distinct(
    entries: Seq<(u64, AnimationUniform)>,
    p: PreparedUniforms,
    align: usize,
)
    requires
        distinct_keys(entries),
        animation_prepared(entries, p, align),
    ensures
        distinct_keys(p.offsets@),
{
    assert forall|i: int, j: int|
        0 <= i < j < p.offsets@.len() implies
        (#[trigger] p.offsets@[i]).0 != (#[trigger] p.offsets@[j]).0 by {
        assert(entries[i].0 != entries[j].0);
    }
}

/// The published offset table inherits key distinctness, deform pipeline.
pub proof fn lemma_deform_offsets_distinct(
    entries: Seq<(u64, DeformUniform)>,
    p: PreparedUniforms,
    align: usize,
)
    requires
        distinct_keys(entries),
        deform_prepared(entries, p, align),
    ensures
        distinct_keys(p.offsets@),
{
    assert forall|i: int, j: int|
        0 <= i < j < p.offsets@.len() implies
        (#[trigger] p.offsets@[i]).0 != (#[trigger] p.offsets@[j]).0 by {
        assert(entries[i].0 != entries[j].0);
    }
}

} // verus!
