use mistral_plan::arith::{align_up, checked_align_up, divide_up, saturating_product};
use mistral_plan::cache_map::{CacheKey, CacheMap};
use mistral_plan::ck_flash::{ck_flash_attn, ck_flash_launch, ck_is_in_range};
use mistral_plan::paged::attention::{
    attention_is_in_range, paged_attention, sink_values, AttentionKernel, PagedAttention,
};
use mistral_plan::paged::block_write::{reshape_and_cache_q4, reshape_and_cache_q8};
use mistral_plan::paged::cache_input::cache_input_layout;
use mistral_plan::paged::cache_write::{native_is_in_range, reshape_and_cache, CacheWrite};
use mistral_plan::paged::info::{
    slice_ptr, slice_ptr_fits, slice_ptr_on_stream, DType, Layout, Place, TensorInfo,
};
use mistral_plan::paged::quant::{side_cache_dtype, validate_side_scales, BlockQuantKind};
use mistral_plan::paged::scales::{
    lookup_block_scales, lookup_q8_scales, qjl_enabled, qjl_flag, register_block_scales,
    register_q8_scales, unregister_block_scales, unregister_q8_scales, BlockQuantScales,
    Q8LayerScales,
};
use mistral_plan::paged::workspace::{plan_workspace, workspace_fits, Workspaces};
use mistral_plan::sync::{maybe_synchronize, settled_override, softmax_dtype, sync_override};
use mistral_plan::text::Fault;

fn layout(dims: &[usize], stride: &[usize], start_offset: usize) -> Layout {
    Layout { dims: dims.to_vec(), stride: stride.to_vec(), start_offset }
}

fn dense(dims: &[usize]) -> Layout {
    let mut stride = vec![1; dims.len()];
    for i in (1..dims.len()).rev() {
        stride[i - 1] = stride[i] * dims[i];
    }
    layout(dims, &stride, 0)
}

fn on_device(dtype: DType, dims: &[usize], address: u64) -> TensorInfo {
    TensorInfo { dtype, layout: dense(dims), place: Place::Cuda, address }
}

fn message<T>(outcome: Result<T, Fault>) -> String {
    match outcome {
        Ok(_) => panic!("expected a refusal"),
        Err(fault) => fault.message,
    }
}

#[test]
fn cache_input_layout_flattens_uniform_rank_four_rows() {
    let prefill = layout(&[2, 3, 2, 4], &[48, 16, 4, 1], 7);
    assert_eq!(cache_input_layout(&prefill, "key", "test").unwrap(), (6, 2, 4, 16));

    let decode = layout(&[8, 1, 2, 4], &[24, 8, 4, 1], 5);
    assert_eq!(cache_input_layout(&decode, "value", "test").unwrap(), (8, 2, 4, 24));
}

/// The block math of the kernels on a CPU: the scale is the largest magnitude
/// over 127, halves round away from zero, and the range is symmetric.
fn quantize_block_q8_0_cpu(vals: &[f32; 32]) -> ([i8; 32], f32) {
    let amax = vals.iter().fold(0f32, |m, &v| m.max(v.abs()));
    let d = if amax != 0. { amax / 127. } else { 1. };
    let id = if d != 0. { 1. / d } else { 0. };
    let mut out = [0i8; 32];
    for (i, &v) in vals.iter().enumerate() {
        let q = (v * id).clamp(-127., 127.);
        out[i] = (if q >= 0. { q + 0.5 } else { q - 0.5 }) as i8;
    }
    (out, d)
}

#[test]
fn q8_block_math_matches_llama_reference_vectors() {
    // All-ones: amax 1 -> d = 1/127, every qs = 127.
    let (qs, d) = quantize_block_q8_0_cpu(&[1.; 32]);
    assert_eq!(d, 1. / 127.);
    assert!(qs.iter().all(|&q| q == 127));
    // Zero block: scale 1, all-zero output (no div-by-zero).
    let (qs, d) = quantize_block_q8_0_cpu(&[0.; 32]);
    assert_eq!((d, qs), (1., [0; 32]));
    // Ramp: max error from 7-bit steps stays under half a step.
    let mut ramp = [0f32; 32];
    for (i, v) in ramp.iter_mut().enumerate() {
        *v = -3. + 6. * i as f32 / 31.;
    }
    let (qs, d) = quantize_block_q8_0_cpu(&ramp);
    assert_eq!(d, 3. / 127.);
    for (i, &q) in qs.iter().enumerate() {
        assert!((q as f32 * d - ramp[i]).abs() <= d / 2. + 1e-6);
    }
    // Outlier: single large value sets the scale, small values survive.
    let mut outlier = [0.01f32; 32];
    outlier[7] = 100.;
    let (qs, d) = quantize_block_q8_0_cpu(&outlier);
    assert_eq!(d, 100. / 127.);
    assert_eq!(qs[7], 127);
    assert!(qs
        .iter()
        .enumerate()
        .all(|(i, &q)| i == 7 || q == 0 || q == 1));
}

// Layouts.

#[test]
fn rank_three_rows_keep_their_stride() {
    let rows = layout(&[5, 2, 4], &[32, 4, 1], 0);
    assert_eq!(cache_input_layout(&rows, "key", "test").unwrap(), (5, 2, 4, 32));
    assert!(cache_input_layout(&layout(&[5, 8], &[8, 1], 0), "key", "test").is_err());
    assert!(cache_input_layout(&layout(&[5, 2, 4], &[8, 1, 4], 0), "key", "test").is_err());
    let ragged = layout(&[2, 3, 2, 4], &[50, 16, 4, 1], 0);
    assert!(cache_input_layout(&ragged, "key", "test").is_err());
}

#[test]
fn addresses_count_elements() {
    assert!(slice_ptr_fits(1000, 3, 2));
    assert_eq!(slice_ptr(1000, 3, 2), 1006);
    assert_eq!(slice_ptr_on_stream(1000, 3, 4), 1012);
    assert!(!slice_ptr_fits(u64::MAX, 1, 1));
}

#[test]
fn sizes_and_names_of_types() {
    assert_eq!(DType::BF16.size_in_bytes(), 2);
    assert_eq!(DType::F64.size_in_bytes(), 8);
    assert_eq!(DType::F8E4M3.name(), "F8E4M3");
    assert_eq!(
        layout(&[2, 3], &[3, 1], 4).describe(),
        "Layout { shape: [2, 3], stride: [3, 1], start_offset: 4 }"
    );
}

// Arithmetic.

#[test]
fn multiples_round_up() {
    assert_eq!(align_up(0, 16), 0);
    assert_eq!(align_up(1, 16), 16);
    assert_eq!(align_up(32, 16), 32);
    assert_eq!(checked_align_up(usize::MAX, 16), None);
    assert_eq!(checked_align_up(17, 16), Some(32));
    assert_eq!(divide_up(513, 512), 2);
    assert_eq!(divide_up(512, 512), 1);
    assert_eq!(saturating_product(usize::MAX, 2), usize::MAX);
    assert_eq!(saturating_product(3, 4), 12);
}

// Codes and scales.

#[test]
fn kernel_codes_tell_caches_apart() {
    assert_eq!(BlockQuantKind::Q8_0.cache_dtype(), 4);
    assert_eq!(BlockQuantKind::Q4_0.cache_dtype(), 5);
    assert_eq!(side_cache_dtype(DType::F16, None), Some(0));
    assert_eq!(side_cache_dtype(DType::BF16, None), Some(1));
    assert_eq!(side_cache_dtype(DType::F32, None), Some(2));
    assert_eq!(side_cache_dtype(DType::F8E4M3, None), Some(3));
    assert_eq!(side_cache_dtype(DType::U8, Some(BlockQuantKind::Q4_0)), Some(5));
    assert_eq!(side_cache_dtype(DType::U8, None), None);
}

#[test]
fn scales_go_with_their_caches() {
    let scalar = Some(on_device(DType::F32, &[1], 64));
    let many = Some(on_device(DType::F32, &[2, 2], 64));
    let wrong = Some(on_device(DType::F16, &[1], 64));
    assert!(validate_side_scales(DType::F8E4M3, &scalar, "K", "op").is_ok());
    assert_eq!(
        message(validate_side_scales(DType::F8E4M3, &many, "K", "op")),
        "op requires a scalar f32 K scale for an f8e4m3 cache"
    );
    assert_eq!(
        message(validate_side_scales(DType::F8E4M3, &None, "K", "op")),
        "op requires an explicit K scale for an f8e4m3 cache"
    );
    assert!(validate_side_scales(DType::U8, &many, "V", "op").is_ok());
    assert_eq!(
        message(validate_side_scales(DType::U8, &wrong, "V", "op")),
        "op requires an f32 V scale sidecar for a block-quantized cache"
    );
    assert_eq!(
        message(validate_side_scales(DType::U8, &None, "V", "op")),
        "op requires an explicit V scale sidecar for a block-quantized cache"
    );
    assert!(validate_side_scales(DType::F16, &None, "V", "op").is_ok());
    assert_eq!(
        message(validate_side_scales(DType::F16, &scalar, "V", "op")),
        "op only accepts a V scale for an f8e4m3 or block-quantized cache"
    );
}

fn tensor(values: &[f32]) -> candle_core::Tensor {
    candle_core::Tensor::new(values, &candle_core::Device::Cpu).unwrap()
}

fn floats(tensor: &candle_core::Tensor) -> Vec<f32> {
    tensor.to_vec1::<f32>().unwrap()
}

#[test]
fn maps_keep_one_value_for_each_cache() {
    let key = |storage, start_offset| CacheKey { storage, start_offset };
    let mut map: CacheMap<u8> = CacheMap::new();
    map.insert(key(1, 0), 10);
    map.insert(key(1, 2), 20);
    map.insert(key(1, 0), 11);
    assert_eq!((map.get(key(1, 0)), map.get(key(1, 2))), (Some(&11), Some(&20)));
    assert_eq!(map.get(key(2, 0)), None);
    assert_eq!(map.remove(key(1, 0)), Some(11));
    assert_eq!(map.remove(key(1, 0)), None);
    assert_eq!(map.get(key(1, 2)), Some(&20));
}

#[test]
fn caches_find_their_own_scales() {
    let first = CacheKey { storage: 8, start_offset: 0 };
    let second = CacheKey { storage: 8, start_offset: 4 };
    let mut registry: CacheMap<BlockQuantScales> = CacheMap::new();
    assert!(lookup_block_scales(&registry, first).is_none());
    for (key, value) in [(first, 1.0), (second, 2.0), (first, 3.0)] {
        let scales = BlockQuantScales {
            k: Some(tensor(&[value])),
            v: None,
            k_kind: Some(BlockQuantKind::Q8_0),
            v_kind: None,
            k_res: None,
            v_res: None,
        };
        register_block_scales(&mut registry, key, scales);
    }
    let found = lookup_block_scales(&registry, first).unwrap();
    assert_eq!(floats(&found.k.unwrap()), vec![3.0]);
    assert!(found.v.is_none());
    assert_eq!(found.k_kind, Some(BlockQuantKind::Q8_0));
    unregister_block_scales(&mut registry, first);
    assert!(lookup_block_scales(&registry, first).is_none());
    let found = lookup_block_scales(&registry, second).unwrap();
    assert_eq!(floats(&found.k.unwrap()), vec![2.0]);
}

#[test]
fn eight_bit_scales_are_kept_by_cache() {
    let key = CacheKey { storage: 1, start_offset: 2 };
    let mut registry: CacheMap<Q8LayerScales> = CacheMap::new();
    register_q8_scales(
        &mut registry,
        key,
        Q8LayerScales { k: tensor(&[1.0]), v: tensor(&[2.0, 3.0]) },
    );
    let found = lookup_q8_scales(&registry, key).unwrap();
    assert_eq!((floats(&found.k), floats(&found.v)), (vec![1.0], vec![2.0, 3.0]));
    unregister_q8_scales(&mut registry, key);
    assert!(lookup_q8_scales(&registry, key).is_none());
}

#[test]
fn refinement_is_switched_on_by_words() {
    assert!(qjl_flag(Some("1")));
    assert!(qjl_flag(Some("TrUe")));
    assert!(!qjl_flag(Some("0")));
    assert!(!qjl_flag(Some("truee")));
    assert!(!qjl_flag(Some("")));
    assert!(!qjl_flag(None));
}

#[test]
fn refinement_stays_as_it_was_first_read() {
    let mut kept: Option<bool> = None;
    assert!(qjl_enabled(&mut kept, Some("true")));
    assert!(qjl_enabled(&mut kept, Some("0")));
    assert!(qjl_enabled(&mut kept, None));
    assert_eq!(kept, Some(true));
    let mut kept: Option<bool> = None;
    assert!(!qjl_enabled(&mut kept, None));
    assert!(!qjl_enabled(&mut kept, Some("1")));
}

// Workspaces.

#[test]
fn workspace_parts_are_aligned() {
    assert!(workspace_fits(3, 2, 5, 2));
    let plan = plan_workspace(3, 2, 5, 2);
    assert_eq!(plan.tmp_out, 0);
    assert_eq!(plan.exp_sums, 64);
    assert_eq!(plan.max_logits, 96);
    assert_eq!(plan.bytes, 120);
    assert!(!workspace_fits(usize::MAX, 2, 5, 2));
}

#[test]
fn workspaces_only_grow() {
    let mut slots = Workspaces::new();
    assert_eq!(slots.workspace_ensure(0, 0), Some(1));
    assert_eq!(slots.workspace_ensure(0, 100), Some(100));
    slots.allocated(0, 100);
    assert_eq!(slots.workspace_ensure(0, 100), None);
    assert_eq!(slots.workspace_ensure(0, 50), None);
    assert_eq!(slots.workspace_ensure(0, 200), Some(200));
    assert_eq!(slots.workspace_ensure(1, 50), Some(50));
}

// Attention.

fn attention() -> (PagedAttention, TensorInfo) {
    let op = PagedAttention {
        key_cache: on_device(DType::F16, &[10, 2, 8, 16, 8], 1 << 20),
        value_cache: on_device(DType::F16, &[10, 2, 64, 16], 2 << 20),
        block_tables: on_device(DType::U32, &[3, 40], 3 << 20),
        context_lens: on_device(DType::U32, &[3], 4 << 20),
        alibi_slopes: None,
        max_context_len: 600,
        k_scale: None,
        v_scale: None,
        k_res: None,
        v_res: None,
        sinks: None,
        k_quant: None,
        v_quant: None,
    };
    (op, on_device(DType::F16, &[3, 4, 64], 5 << 20))
}

#[test]
fn long_contexts_are_taken_in_partitions() {
    let (op, q) = attention();
    assert!(attention_is_in_range(&op, &q, true));
    let launch = paged_attention(&op, &q, true).unwrap();
    assert_eq!(launch.max_context_len, 600);
    assert_eq!(launch.out_elements, 3 * 4 * 64);
    assert_eq!(launch.q_stride, 256);
    assert_eq!(launch.kv_block_stride, 2 * 8 * 16 * 8);
    assert_eq!((launch.k_cache_dtype, launch.v_cache_dtype), (0, 0));
    match launch.kernel {
        AttentionKernel::V2 { partitions, workspace } => {
            assert_eq!(partitions, 2);
            assert_eq!(workspace.exp_sums, 3 * 4 * 2 * 64 * 2);
        }
        AttentionKernel::V1 => panic!("the context does not fit one partition"),
    }
}

#[test]
fn short_contexts_are_taken_whole() {
    let (mut op, q) = attention();
    op.max_context_len = 512;
    assert_eq!(paged_attention(&op, &q, true).unwrap().kernel, AttentionKernel::V1);
    op.max_context_len = 4000;
    op.block_tables = on_device(DType::U32, &[3, 4], 3 << 20);
    let launch = paged_attention(&op, &q, true).unwrap();
    assert_eq!((launch.max_context_len, launch.kernel), (64, AttentionKernel::V1));
}

#[test]
fn attention_refuses_what_the_kernels_cannot_take() {
    let (op, mut q) = attention();
    q.place = Place::Host;
    assert_eq!(message(paged_attention(&op, &q, true)), "no cpu support for paged-attention");
    let (op, mut q) = attention();
    q.dtype = DType::I64;
    assert_eq!(
        message(paged_attention(&op, &q, true)),
        "paged-attention is only supported for f32/f16/bf16 (I64)"
    );
    let (op, mut q) = attention();
    q.layout = dense(&[3, 4, 65]);
    assert_eq!(
        message(paged_attention(&op, &q, true)),
        "`head_size` must be one of 64, 80, 96, 112, 128, 192, 256 or 512"
    );
    let (mut op, q) = attention();
    op.context_lens = on_device(DType::U32, &[4], 4 << 20);
    assert_eq!(
        message(paged_attention(&op, &q, true)),
        "shape mismatch context_lens [4], expected 3"
    );
    let (mut op, q) = attention();
    op.block_tables.dtype = DType::I64;
    assert_eq!(
        message(paged_attention(&op, &q, true)),
        "unexpected dtype, expected: U32, got: I64"
    );
    let (mut op, q) = attention();
    op.key_cache.dtype = DType::F8E4M3;
    op.k_scale = Some(on_device(DType::F32, &[1], 6 << 20));
    assert_eq!(
        message(paged_attention(&op, &q, false)),
        "FP8 is not supported on this system."
    );
    assert_eq!(paged_attention(&op, &q, true).unwrap().k_cache_dtype, 3);
}

#[test]
fn sinks_of_any_type_are_read_as_floats() {
    assert!(sink_values(None).unwrap().is_none());
    let kept = tensor(&[0.5, -2.0, 3.0]);
    assert_eq!(floats(&sink_values(Some(&kept)).unwrap().unwrap()), vec![0.5, -2.0, 3.0]);
    for raw in [candle_core::DType::BF16, candle_core::DType::F16, candle_core::DType::F64] {
        let raw = kept.to_dtype(raw).unwrap();
        let values = sink_values(Some(&raw)).unwrap().unwrap();
        assert_eq!(values.dtype(), candle_core::DType::F32);
        assert_eq!(values.dims(), &[3]);
        assert_eq!(floats(&values), vec![0.5, -2.0, 3.0]);
    }
    let (mut op, q) = attention();
    op.sinks = Some(on_device(DType::F32, &[4], 7 << 20));
    assert_eq!(paged_attention(&op, &q, true).unwrap().sinks, Some(7 << 20));
    op.sinks.as_mut().unwrap().place = Place::Host;
    assert_eq!(message(paged_attention(&op, &q, true)), "sinks must be a cuda tensor");
}

// Writes.

fn write() -> CacheWrite {
    CacheWrite {
        key: on_device(DType::F16, &[5, 2, 64], 1 << 20),
        value: on_device(DType::F16, &[5, 2, 64], 2 << 20),
        key_cache: on_device(DType::F16, &[10, 2, 8, 16, 8], 3 << 20),
        value_cache: on_device(DType::F16, &[10, 2, 64, 16], 4 << 20),
        k_scale: None,
        v_scale: None,
        slot_mapping: on_device(DType::I64, &[5], 5 << 20),
        write_k: true,
        write_v: true,
    }
}

#[test]
fn native_writes_pass_both_sides() {
    let w = write();
    assert!(native_is_in_range(&w, true));
    let launch = reshape_and_cache(&w, true).unwrap();
    assert_eq!((launch.num_tokens, launch.num_heads, launch.head_size), (5, 2, 64));
    assert_eq!((launch.block_size, launch.x), (16, 8));
    assert_eq!((launch.key_stride, launch.value_stride), (128, 128));
    assert_eq!(launch.key_cache, Some(3 << 20));
    assert_eq!(launch.value_cache, Some(4 << 20));
    assert_eq!(launch.internal_type, 0);
}

#[test]
fn masked_sides_are_not_looked_at() {
    let mut w = write();
    w.write_v = false;
    w.value_cache.dtype = DType::U8;
    let launch = reshape_and_cache(&w, true).unwrap();
    assert_eq!((launch.value_cache, launch.v_cache_dtype), (None, 0));
    assert_eq!(launch.key_cache, Some(3 << 20));
    let mut w = write();
    w.key_cache.dtype = DType::U8;
    assert!(reshape_and_cache(&w, true).is_err());
}

#[test]
fn mismatched_writes_are_refused() {
    let mut w = write();
    w.slot_mapping = on_device(DType::I64, &[6], 5 << 20);
    assert_eq!(
        message(reshape_and_cache(&w, true)),
        "shape mismatch slot_mapping [6], expected 5"
    );
    let mut w = write();
    w.value = on_device(DType::F16, &[5, 2, 32], 2 << 20);
    assert_eq!(
        message(reshape_and_cache(&w, true)),
        "shape mismatch k [5, 2, 64] and v [5, 2, 32]"
    );
    let mut w = write();
    w.slot_mapping.dtype = DType::U32;
    assert_eq!(
        message(reshape_and_cache(&w, true)),
        "unexpected dtype, expected: I64, got: U32"
    );
}

fn block_write(kind: BlockQuantKind) -> CacheWrite {
    let mut w = write();
    let (chunks, slots) = match kind {
        BlockQuantKind::Q8_0 => (4, 16),
        BlockQuantKind::Q4_0 => (2, 8),
    };
    w.key_cache = on_device(DType::U8, &[10, 2, chunks, 16, 16], 3 << 20);
    w.value_cache = on_device(DType::U8, &[10, 2, 64, slots], 4 << 20);
    w.k_scale = Some(on_device(DType::F32, &[10, 2, 16, 2], 6 << 20));
    w.v_scale = Some(on_device(DType::F32, &[10, 2, 2, 16], 7 << 20));
    w
}

#[test]
fn eight_bit_writes_need_scales() {
    let w = block_write(BlockQuantKind::Q8_0);
    let launch = reshape_and_cache_q8(&w).unwrap();
    assert_eq!(launch.x, 16);
    assert_eq!((launch.k_scale, launch.v_scale), (Some(6 << 20), Some(7 << 20)));
    let mut w = block_write(BlockQuantKind::Q8_0);
    w.k_scale = None;
    assert_eq!(
        message(reshape_and_cache_q8(&w)),
        "reshape_and_cache_q8 needs k_scales to write K"
    );
    let mut w = block_write(BlockQuantKind::Q8_0);
    w.key_cache.dtype = DType::F16;
    assert_eq!(
        message(reshape_and_cache_q8(&w)),
        "reshape_and_cache_q8 requires an int8 (U8) K cache, got F16"
    );
    let mut w = block_write(BlockQuantKind::Q8_0);
    w.key_cache = on_device(DType::U8, &[10, 2, 4, 16, 8], 3 << 20);
    assert_eq!(
        message(reshape_and_cache_q8(&w)),
        "reshape_and_cache_q8 requires x = 16 packing, got 8"
    );
}

#[test]
fn four_bit_writes_pack_two_slots() {
    let w = block_write(BlockQuantKind::Q4_0);
    let k_res = Some(on_device(DType::U8, &[10, 2, 16, 2, 4], 8 << 20));
    let v_res = Some(on_device(DType::U8, &[10, 2, 2, 16, 4], 9 << 20));
    let launch = reshape_and_cache_q4(&w, &k_res, &v_res).unwrap();
    assert_eq!((launch.k_res, launch.v_res), (Some(8 << 20), Some(9 << 20)));
    assert!(reshape_and_cache_q4(&w, &None, &None).is_ok());
    assert_eq!(
        message(reshape_and_cache_q4(&w, &v_res, &None)),
        "shape mismatch k_res [10, 2, 2, 16, 4], expected [10, 2, 16, 2, 4]"
    );
    let mut w = block_write(BlockQuantKind::Q4_0);
    w.key = on_device(DType::F16, &[5, 2, 48], 1 << 20);
    w.value = on_device(DType::F16, &[5, 2, 48], 2 << 20);
    assert_eq!(
        message(reshape_and_cache_q4(&w, &None, &None)),
        "reshape_and_cache_q4 requires head_size % 32 == 0 and <= 512, got 48"
    );
}

// Flash attention.

#[test]
fn flash_attention_takes_prefill_of_two_head_sizes() {
    let q = on_device(DType::BF16, &[1, 8, 12, 128], 1 << 20);
    let k = on_device(DType::BF16, &[1, 2, 19, 128], 2 << 20);
    let v = on_device(DType::BF16, &[1, 2, 19, 128], 3 << 20);
    assert!(ck_is_in_range(&q, &k, &v));
    let shape = ck_flash_attn(&q, &k, &v).unwrap().unwrap();
    assert_eq!((shape.heads, shape.kv_heads, shape.seq_len, shape.kv_len), (8, 2, 12, 19));
    assert_eq!((shape.out_elements, shape.lse_elements), (8 * 12 * 128, 8 * 12));
    let launch = ck_flash_launch(&q, &k, &v, 2).unwrap();
    assert_eq!((launch.q_strides.token, launch.q_strides.head), (128, 12 * 128));
    assert_eq!(launch.mask_type, 2);
    let single = on_device(DType::BF16, &[1, 8, 1, 128], 1 << 20);
    assert!(ck_flash_attn(&single, &k, &v).unwrap().is_none());
    let narrow = on_device(DType::BF16, &[1, 8, 12, 64], 1 << 20);
    assert!(ck_flash_attn(&narrow, &k, &v).unwrap().is_none());
    let flat = on_device(DType::BF16, &[8, 12, 128], 1 << 20);
    assert!(ck_flash_attn(&flat, &k, &v).is_err());
    let mut host = on_device(DType::BF16, &[1, 2, 19, 128], 2 << 20);
    host.place = Place::Host;
    assert_eq!(message(ck_flash_launch(&q, &host, &v, 0)), "k must be cuda storage");
}

// Waiting for the device.

#[test]
fn the_host_never_waits() {
    assert_eq!(sync_override(Some("0")), Some(false));
    assert_eq!(sync_override(Some("1")), Some(true));
    assert_eq!(sync_override(Some("2")), None);
    assert_eq!(sync_override(None), None);
    assert!(!maybe_synchronize(true, Some(true), 0));
    assert!(maybe_synchronize(false, Some(true), usize::MAX));
    assert!(!maybe_synchronize(false, Some(false), 0));
    assert!(maybe_synchronize(false, None, 1024));
    assert!(!maybe_synchronize(false, None, usize::MAX));
    assert_eq!(softmax_dtype(DType::BF16), DType::F32);
    assert_eq!(softmax_dtype(DType::F16), DType::F32);
    assert_eq!(softmax_dtype(DType::F64), DType::F64);
}

#[test]
fn waiting_stays_as_it_was_first_asked_for() {
    let mut kept: Option<Option<bool>> = None;
    assert_eq!(settled_override(&mut kept, Some("0")), Some(false));
    assert_eq!(settled_override(&mut kept, Some("1")), Some(false));
    assert_eq!(settled_override(&mut kept, None), Some(false));
    assert_eq!(kept, Some(Some(false)));
    let mut kept: Option<Option<bool>> = None;
    assert_eq!(settled_override(&mut kept, Some("on")), None);
    assert_eq!(settled_override(&mut kept, Some("1")), None);
}
