//! Parameter components and the GPU-shaped uniform records derived from
//! them, with their byte-level serialization.

use vstd::prelude::*;
use vstd::bytes::{spec_u32_to_le_bytes, lemma_auto_spec_u32_to_from_le_bytes, u32_to_le_bytes,
    u32_from_le_bytes};
use vstd::slice::slice_subrange;

verus! {

/// Simulation-side component: the desired outline animation rate, as the
/// bit pattern of a 32-bit IEEE-754 value in milliseconds.
#[derive(Clone, Copy, PartialEq, Eq, Structural, Debug)]
pub struct AnimationParameters {
    pub rate_millis_bits: u32,
}

/// Simulation-side component: the per-entity deformation seed, as the bit
/// pattern of a 32-bit IEEE-754 value.
#[derive(Clone, Copy, PartialEq, Eq, Structural, Debug)]
pub struct DeformParameters {
    pub seed_bits: u32,
}

/// Render-side uniform record for the animation pipeline, rebuilt every
/// frame: the frame's global elapsed time in milliseconds and the rate
/// copied from the entity's `AnimationParameters`.  Both fields are bit
/// patterns of 32-bit IEEE-754 values.
#[derive(Clone, Copy, PartialEq, Eq, Structural, Debug)]
pub struct AnimationUniform {
    pub time_bits: u32,
    pub rate_millis_bits: u32,
}

/// Render-side uniform record for the deformation pipeline, rebuilt every
/// frame: the seed copied from the entity's `DeformParameters`.
#[derive(Clone, Copy, PartialEq, Eq, Structural, Debug)]
pub struct DeformUniform {
    pub seed_bits: u32,
}

/// Serialized size of an `AnimationUniform`: two 32-bit words, which also
/// meets the record's 8-byte alignment requirement.
pub const ANIMATION_UNIFORM_SIZE: usize = 8;

/// Serialized size of a `DeformUniform`: one 32-bit word, which also meets
/// the record's 4-byte alignment requirement.
pub const DEFORM_UNIFORM_SIZE: usize = 4;

/// Little-endian serialization of an animation uniform: the time word
/// followed by the rate word.
pub open spec fn spec_encode_animation(u: AnimationUniform) -> Seq<u8> {
    spec_u32_to_le_bytes(u.time_bits) + spec_u32_to_le_bytes(u.rate_millis_bits)
}

/// Little-endian serialization of a deformation uniform: the seed word.
pub open spec fn spec_encode_deform(u: DeformUniform) -> Seq<u8> {
    spec_u32_to_le_bytes(u.seed_bits)
}

pub fn encode_animation_uniform(u: &AnimationUniform) -> (bytes: Vec<u8>)
    ensures
        bytes@ == spec_encode_animation(*u),
        bytes@.len() == ANIMATION_UNIFORM_SIZE,
{
    proof {
        lemma_auto_spec_u32_to_from_le_bytes();
    }
    let mut bytes = u32_to_le_bytes(u.time_bits);
    let mut rate = u32_to_le_bytes(u.rate_millis_bits);
    bytes.append(&mut rate);
    bytes
}

pub fn encode_deform_uniform(u: &DeformUniform) -> (bytes: Vec<u8>)
    ensures
        bytes@ == spec_encode_deform(*u),
        bytes@.len() == DEFORM_UNIFORM_SIZE,
{
    proof {
        lemma_auto_spec_u32_to_from_le_bytes();
    }
    u32_to_le_bytes(u.seed_bits)
}

pub fn decode_animation_uniform(bytes: &[u8]) -> (u: AnimationUniform)
    requires
        bytes@.len() == ANIMATION_UNIFORM_SIZE,
    ensures
        spec_encode_animation(u) == bytes@,
{
    let time_bits = u32_from_le_bytes(slice_subrange(bytes, 0, 4));
    let rate_millis_bits = u32_from_le_bytes(slice_subrange(bytes, 4, 8));
    proof {
        lemma_auto_spec_u32_to_from_le_bytes();
        assert(bytes@ =~= bytes@.subrange(0, 4) + bytes@.subrange(4, 8));
    }
    AnimationUniform { time_bits, rate_millis_bits }
}

pub fn decode_deform_uniform(bytes: &[u8]) -> (u: DeformUniform)
    requires
        bytes@.len() == DEFORM_UNIFORM_SIZE,
    ensures
        spec_encode_deform(u) == bytes@,
{
    let seed_bits = u32_from_le_bytes(slice_subrange(bytes, 0, 4));
    proof {
        lemma_auto_spec_u32_to_from_le_bytes();
        assert(bytes@ =~= bytes@.subrange(0, 4));
    }
    DeformUniform { seed_bits }
}

/// Serialization is injective: equal encodings come from equal animation
/// uniforms, so decoding a packed slot recovers exactly the record that
/// was packed into it.
pub proof fn lemma_animation_encode_injective(a: AnimationUniform, b: AnimationUniform)
    requires
        spec_encode_animation(a) == spec_encode_animation(b),
    ensures
        a == b,
{
    lemma_auto_spec_u32_to_from_le_bytes();
    let sa = spec_u32_to_le_bytes(a.time_bits);
    let ra = spec_u32_to_le_bytes(a.rate_millis_bits);
    let sb = spec_u32_to_le_bytes(b.time_bits);
    let rb = spec_u32_to_le_bytes(b.rate_millis_bits);
    assert(sa =~= (sa + ra).subrange(0, 4));
    assert(ra =~= (sa + ra).subrange(4, 8));
    assert(sb =~= (sb + rb).subrange(0, 4));
    assert(rb =~= (sb + rb).subrange(4, 8));
}

/// Serialization is injective for deformation uniforms as well.
pub proof fn lemma_deform_encode_injective(a: DeformUniform, b: DeformUniform)
    requires
        spec_encode_deform(a) == spec_encode_deform(b),
    ensures
        a == b,
{
    lemma_auto_spec_u32_to_from_le_bytes();
    assert(spec_u32_to_le_bytes(a.seed_bits) == spec_u32_to_le_bytes(b.seed_bits));
}

} // verus!
