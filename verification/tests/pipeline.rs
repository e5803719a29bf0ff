use outline_uniforms::uniform::{
    AnimationParameters, DeformParameters, AnimationUniform, DeformUniform,
    encode_animation_uniform, encode_deform_uniform, decode_animation_uniform,
    decode_deform_uniform,
};
use outline_uniforms::store::UniformStore;
use outline_uniforms::extract::{
    extract_outline_animation_uniforms, extract_outline_deform_uniforms,
};
use outline_uniforms::prepare::{
    prepare_outline_animation_uniforms, prepare_outline_deform_uniforms,
    read_animation_uniform_at, read_deform_uniform_at, round_up_to_alignment,
};
use outline_uniforms::bind::BindGroupCache;
use outline_uniforms::binder::{
    TrackedPass, set_outline_animation_bind_group, set_outline_deform_bind_group, lookup_offset,
};
use outline_uniforms::frame::{run_animation_frame, run_deform_frame};

#[test]
fn animation_scenario_single_entity() {
    let snapshot = vec![(1u64, AnimationParameters { rate_millis_bits: 500.0f32.to_bits() })];
    let mut cache = BindGroupCache::new();
    let prepared = run_animation_frame(&snapshot, 1200.0f32.to_bits(), 1, 256, 7, &mut cache);
    let p = prepared.expect("one entity packs one slot");
    assert_eq!(p.offsets.len(), 1);
    assert_eq!(p.offsets[0], (1u64, 0usize));
    assert_eq!(p.stride, 256);
    assert_eq!(p.buffer.len(), 256);
    let u = read_animation_uniform_at(&p.buffer, 0);
    assert_eq!(f32::from_bits(u.time_bits), 1200.0);
    assert_eq!(f32::from_bits(u.rate_millis_bits), 500.0);
    let mut pass = TrackedPass::new(4);
    let issued = set_outline_animation_bind_group(&cache, 1, 1, 2, &mut pass);
    assert!(issued);
    assert_eq!(pass.binding(2), Some((7u64, 0usize)));
}

#[test]
fn deform_scenario_seed_without_animation() {
    let entity = 2u64;
    let deform_snapshot = vec![(entity, Some(DeformParameters { seed_bits: 0.75f32.to_bits() }))];
    let animation_snapshot: Vec<(u64, AnimationParameters)> = Vec::new();
    let mut deform_cache = BindGroupCache::new();
    let mut animation_cache = BindGroupCache::new();
    let deformed = run_deform_frame(&deform_snapshot, 1, 256, 9, &mut deform_cache);
    let p = deformed.expect("one seeded entity packs one slot");
    assert_eq!(p.offsets.len(), 1);
    assert_eq!(p.offsets[0], (entity, 0usize));
    let u = read_deform_uniform_at(&p.buffer, 0);
    assert_eq!(f32::from_bits(u.seed_bits), 0.75);
    let animated =
        run_animation_frame(&animation_snapshot, 0.0f32.to_bits(), 1, 256, 8, &mut animation_cache);
    assert!(animated.is_none());
    let mut pass = TrackedPass::new(4);
    let issued = set_outline_animation_bind_group(&animation_cache, 1, entity, 2, &mut pass);
    assert!(!issued);
    assert_eq!(pass.binding(2), None);
    let issued_deform = set_outline_deform_bind_group(&deform_cache, 1, entity, 3, &mut pass);
    assert!(issued_deform);
    assert_eq!(pass.binding(3), Some((9u64, 0usize)));
}

#[test]
fn empty_animation_frame_publishes_nothing() {
    let snapshot: Vec<(u64, AnimationParameters)> = Vec::new();
    let mut cache = BindGroupCache::new();
    let prepared = run_animation_frame(&snapshot, 42.0f32.to_bits(), 5, 256, 1, &mut cache);
    assert!(prepared.is_none());
    assert!(cache.current_for_frame(5).is_none());
    let mut pass = TrackedPass::new(4);
    let issued = set_outline_animation_bind_group(&cache, 5, 1, 2, &mut pass);
    assert!(!issued);
    assert_eq!(pass.binding(2), None);
}

#[test]
fn offsets_round_trip_every_entity() {
    let entities: Vec<(u64, AnimationParameters)> = (0..5u64)
        .map(|i| (100 + i, AnimationParameters { rate_millis_bits: (i as f32 * 12.5).to_bits() }))
        .collect();
    let mut cache = BindGroupCache::new();
    let p = run_animation_frame(&entities, 333.0f32.to_bits(), 1, 256, 4, &mut cache)
        .expect("five entities pack five slots");
    assert_eq!(p.offsets.len(), 5);
    for (i, (id, offset)) in p.offsets.iter().enumerate() {
        assert_eq!(*id, 100 + i as u64);
        assert_eq!(*offset, i * p.stride);
        let u = read_animation_uniform_at(&p.buffer, *offset);
        assert_eq!(u.time_bits, 333.0f32.to_bits());
        assert_eq!(u.rate_millis_bits, (i as f32 * 12.5).to_bits());
    }
}

#[test]
fn repeated_extraction_does_not_duplicate() {
    let snapshot = vec![
        (1u64, AnimationParameters { rate_millis_bits: 10.0f32.to_bits() }),
        (2u64, AnimationParameters { rate_millis_bits: 20.0f32.to_bits() }),
    ];
    let mut store: UniformStore<AnimationUniform> = UniformStore::new();
    extract_outline_animation_uniforms(&mut store, &snapshot, 7.0f32.to_bits());
    assert_eq!(store.len(), 2);
    extract_outline_animation_uniforms(&mut store, &snapshot, 7.0f32.to_bits());
    assert_eq!(store.len(), 2);
    let first = store.entry(0);
    let second = store.entry(1);
    assert_eq!(first.0, 1);
    assert_eq!(first.1.rate_millis_bits, 10.0f32.to_bits());
    assert_eq!(first.1.time_bits, 7.0f32.to_bits());
    assert_eq!(second.0, 2);
    assert_eq!(second.1.rate_millis_bits, 20.0f32.to_bits());
}

#[test]
fn stale_deform_entity_not_bound_next_frame() {
    let entity = 11u64;
    let mut cache = BindGroupCache::new();
    let frame_n = vec![(entity, Some(DeformParameters { seed_bits: 0.5f32.to_bits() }))];
    let p_n = run_deform_frame(&frame_n, 1, 64, 3, &mut cache);
    assert!(p_n.is_some());
    let mut pass_n = TrackedPass::new(4);
    assert!(set_outline_deform_bind_group(&cache, 1, entity, 3, &mut pass_n));

    // The component was removed before the next frame: the entity still
    // exists but carries no deform value.
    let frame_n1 = vec![(entity, None::<DeformParameters>)];
    let p_n1 = run_deform_frame(&frame_n1, 2, 64, 5, &mut cache);
    assert!(p_n1.is_none());
    let mut pass_n1 = TrackedPass::new(4);
    let issued = set_outline_deform_bind_group(&cache, 2, entity, 3, &mut pass_n1);
    assert!(!issued);
    assert_eq!(pass_n1.binding(3), None);
}

#[test]
fn deform_extraction_skips_missing_values() {
    let snapshot = vec![
        (1u64, Some(DeformParameters { seed_bits: 0.25f32.to_bits() })),
        (2u64, None),
        (3u64, Some(DeformParameters { seed_bits: 0.5f32.to_bits() })),
    ];
    let mut store: UniformStore<DeformUniform> = UniformStore::new();
    extract_outline_deform_uniforms(&mut store, &snapshot);
    assert_eq!(store.len(), 2);
    assert_eq!(store.entry(0).0, 1);
    assert_eq!(store.entry(1).0, 3);
    let prepared = prepare_outline_deform_uniforms(&store, 4).expect("two slots");
    assert_eq!(prepared.offsets, vec![(1u64, 0usize), (3u64, 4usize)]);
    assert_eq!(lookup_offset(&prepared.offsets, 2), None);
    assert_eq!(lookup_offset(&prepared.offsets, 3), Some(4));
}

#[test]
fn disjoint_slots_keep_both_bindings() {
    let entity = 21u64;
    let animation_snapshot =
        vec![(entity, AnimationParameters { rate_millis_bits: 250.0f32.to_bits() })];
    let deform_snapshot = vec![(entity, Some(DeformParameters { seed_bits: 0.125f32.to_bits() }))];
    let mut animation_cache = BindGroupCache::new();
    let mut deform_cache = BindGroupCache::new();
    run_animation_frame(&animation_snapshot, 90.0f32.to_bits(), 1, 256, 40, &mut animation_cache);
    run_deform_frame(&deform_snapshot, 1, 256, 41, &mut deform_cache);
    let mut pass = TrackedPass::new(4);
    assert!(set_outline_animation_bind_group(&animation_cache, 1, entity, 2, &mut pass));
    assert!(set_outline_deform_bind_group(&deform_cache, 1, entity, 3, &mut pass));
    assert_eq!(pass.binding(2), Some((40u64, 0usize)));
    assert_eq!(pass.binding(3), Some((41u64, 0usize)));
}

#[test]
fn extraction_copies_rate_and_time() {
    let snapshot = vec![
        (5u64, AnimationParameters { rate_millis_bits: 1.5f32.to_bits() }),
        (6u64, AnimationParameters { rate_millis_bits: 2.5f32.to_bits() }),
        (7u64, AnimationParameters { rate_millis_bits: 3.5f32.to_bits() }),
    ];
    let time = 12345.0f32.to_bits();
    let mut store: UniformStore<AnimationUniform> = UniformStore::new();
    extract_outline_animation_uniforms(&mut store, &snapshot, time);
    assert_eq!(store.len(), 3);
    for i in 0..3usize {
        let (id, uniform) = store.entry(i);
        assert_eq!(id, snapshot[i].0);
        assert_eq!(uniform.time_bits, time);
        assert_eq!(uniform.rate_millis_bits, snapshot[i].1.rate_millis_bits);
    }
}

#[test]
fn stride_rounds_up_to_alignment() {
    assert_eq!(round_up_to_alignment(8, 256), 256);
    assert_eq!(round_up_to_alignment(8, 8), 8);
    assert_eq!(round_up_to_alignment(8, 1), 8);
    assert_eq!(round_up_to_alignment(4, 4), 4);
    assert_eq!(round_up_to_alignment(4, 3), 6);
    assert_eq!(round_up_to_alignment(0, 16), 0);
}

#[test]
fn uniform_bytes_are_little_endian_words() {
    let u = AnimationUniform {
        time_bits: 1.0f32.to_bits(),
        rate_millis_bits: 2.0f32.to_bits(),
    };
    let bytes = encode_animation_uniform(&u);
    assert_eq!(bytes, vec![0x00, 0x00, 0x80, 0x3f, 0x00, 0x00, 0x00, 0x40]);
    let back = decode_animation_uniform(&bytes);
    assert_eq!(back, u);

    let d = DeformUniform { seed_bits: 0.75f32.to_bits() };
    let deform_bytes = encode_deform_uniform(&d);
    assert_eq!(deform_bytes, vec![0x00, 0x00, 0x40, 0x3f]);
    assert_eq!(decode_deform_uniform(&deform_bytes), d);
}

#[test]
fn keyed_insert_replaces_existing_record() {
    let mut store: UniformStore<DeformUniform> = UniformStore::new();
    store.insert(9, DeformUniform { seed_bits: 1 });
    store.insert(9, DeformUniform { seed_bits: 2 });
    assert_eq!(store.len(), 1);
    assert_eq!(store.entry(0), (9u64, DeformUniform { seed_bits: 2 }));
}

#[test]
fn stale_bind_group_invisible_to_later_frames() {
    let snapshot = vec![(1u64, AnimationParameters { rate_millis_bits: 100.0f32.to_bits() })];
    let mut cache = BindGroupCache::new();
    run_animation_frame(&snapshot, 10.0f32.to_bits(), 1, 256, 6, &mut cache);
    assert!(cache.current_for_frame(1).is_some());
    assert!(cache.current_for_frame(2).is_none());
    let mut pass = TrackedPass::new(4);
    let issued = set_outline_animation_bind_group(&cache, 2, 1, 2, &mut pass);
    assert!(!issued);
}

#[test]
fn padded_slots_are_zero_filled() {
    let mut store: UniformStore<DeformUniform> = UniformStore::new();
    store.insert(1, DeformUniform { seed_bits: u32::MAX });
    let p = prepare_outline_deform_uniforms(&store, 16).expect("one slot");
    assert_eq!(p.stride, 16);
    assert_eq!(p.buffer.len(), 16);
    assert_eq!(&p.buffer[0..4], &[0xff, 0xff, 0xff, 0xff]);
    assert_eq!(&p.buffer[4..16], &[0u8; 12]);
}
