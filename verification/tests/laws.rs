//! What holds of all inputs, on concrete values.

use rvllm::formats::{
    bf16_to_f32_bits, f16_to_f32_bits, f32_to_bf16_bits, f32_to_f16_bits, fp8_e4m3_encode,
};
use rvllm::loader::gemma4_arch::{Gemma4Arch, Gemma4LayerType};
use rvllm::loader::gemma4_nvfp4_weights::{
    Gemma4Nvfp4LayerLoaded, Gemma4Nvfp4LinearLoaded, Gemma4Nvfp4LoadedModel,
    Gemma4Nvfp4OutsideText,
};
use rvllm::loader::weights::{F16Weight, Nvfp4LinearShape};
use rvllm::runtime::gemma4_nvfp4_bring_up::kv_state::Gemma4Nvfp4KvState;
use rvllm::runtime::gemma4_nvfp4_bring_up::model::{ForwardTables, Gemma4Nvfp4Bringup};
use rvllm::runtime::step::{Buf, Dim3, KernelCall, Program, Step};
use rvllm::tensor::name_before;
use rvllm::text::decimal_text;

const HIDDEN: usize = 64;
const INTER: usize = 128;

fn arch() -> Gemma4Arch {
    Gemma4Arch {
        num_hidden_layers: 2,
        hidden_size: HIDDEN,
        num_attention_heads: 4,
        head_dim_sliding: 32,
        head_dim_global: 64,
        num_kv_heads_sliding: 2,
        num_kv_heads_global: 1,
        intermediate_size: INTER,
        vocab_size: 100,
        rms_norm_eps_bits: 1e-6f32.to_bits(),
        max_position_embeddings: 50,
        sliding_window_size: 16,
        rotary_dim_global: 16,
        logit_softcap_bits: 0,
        layer_types: vec![Gemma4LayerType::SlidingAttention, Gemma4LayerType::GlobalAttention],
        weight_prefix: "m".into(),
        hidden_size_per_layer_input: None,
        kv_share_sources: vec![None, None],
        assistant_shared_kv_sources: Some((0, 1)),
    }
}

fn weight(ptr: u64, shape: &[usize]) -> F16Weight {
    F16Weight { offset_bytes: ptr, shape: shape.to_vec() }
}

fn linear(n: usize, k: usize) -> Gemma4Nvfp4LinearLoaded {
    Gemma4Nvfp4LinearLoaded {
        shape: Nvfp4LinearShape { n, k },
        packed_ptr: 1,
        sfb_natural_ptr: 2,
        sfb_cutlass_ptr: 0,
        global_scale_ptr: 3,
        input_scale_ptr: 4,
        packed_bytes: n * k / 2,
        sfb_bytes: n * k / 16,
        bf16_ptr: 0,
    }
}

fn layer(base: u64, head_dim: usize, kv_heads: usize, values: bool) -> Gemma4Nvfp4LayerLoaded {
    let q = 4 * head_dim;
    let kv = kv_heads * head_dim;
    Gemma4Nvfp4LayerLoaded {
        input_layernorm: weight(base, &[HIDDEN]),
        post_attention_layernorm: weight(base + 1, &[HIDDEN]),
        pre_feedforward_layernorm: weight(base + 2, &[HIDDEN]),
        post_feedforward_layernorm: weight(base + 3, &[HIDDEN]),
        layer_scalar: weight(base + 4, &[1]),
        q_norm: weight(base + 5, &[head_dim]),
        k_norm: weight(base + 6, &[head_dim]),
        q_proj: weight(base + 7, &[q, HIDDEN]),
        k_proj: weight(base + 8, &[kv, HIDDEN]),
        v_proj: if values { Some(weight(base + 9, &[kv, HIDDEN])) } else { None },
        o_proj: weight(base + 10, &[HIDDEN, q]),
        gate_proj: linear(INTER, HIDDEN),
        up_proj: linear(INTER, HIDDEN),
        down_proj: linear(HIDDEN, INTER),
    }
}

fn model() -> Gemma4Nvfp4Bringup {
    Gemma4Nvfp4Bringup {
        arch: arch(),
        model: Gemma4Nvfp4LoadedModel {
            outside: Gemma4Nvfp4OutsideText {
                embed_tokens: weight(9000, &[100, HIDDEN]),
                final_norm: weight(9001, &[HIDDEN]),
            },
            layers: vec![layer(1000, 32, 2, true), layer(2000, 64, 1, false)],
        },
        tables: ForwardTables {
            lm_head_tokens: 9100,
            rope_cos_sliding: 9200,
            rope_sin_sliding: 9201,
            rope_cos_global: 9202,
            rope_sin_global: 9203,
        },
        forward_checkpoint: 0,
        kv_state_allocated: true,
        drafter: None,
        base_last_hidden_ptr: 4321,
    }
}

fn cache() -> Gemma4Nvfp4KvState {
    let ptrs: Vec<u64> = (100..113).collect();
    Gemma4Nvfp4KvState::from_regions(&arch(), 40, 8, &ptrs)
}

/// What a step reads or writes, with its extent in bytes.
fn touched(s: &Step) -> Vec<(Buf, i64)> {
    match *s {
        Step::WriteI32 { dst, .. } => vec![(dst, 4)],
        Step::WriteI32Pair { dst, .. } => vec![(dst, 8)],
        Step::WriteInput { dst, bytes, .. } => vec![(dst, bytes as i64)],
        Step::Copy { dst, src, bytes, .. } => vec![(dst, bytes as i64), (src, bytes as i64)],
        Step::Zero { dst, bytes, .. } => vec![(dst, bytes as i64)],
        Step::Read { src, bytes, .. } => vec![(src, bytes as i64)],
        Step::Embed { num_tokens, hidden, dst, ids, .. } => {
            vec![(dst, 2 * num_tokens as i64 * hidden as i64), (ids, 4 * num_tokens as i64)]
        }
        Step::RmsNorm { rows, width, data, .. } => vec![(data, 2 * rows as i64 * width as i64)],
        Step::Gemm { act, out, m, n, k, .. } => {
            vec![(act, 2 * m as i64 * k as i64), (out, 4 * m as i64 * n as i64)]
        }
        Step::Bf16ToF16Sat { dst, src, n } | Step::VectorAddBf16 { dst, src, n } => {
            vec![(dst, 2 * n as i64), (src, 2 * n as i64)]
        }
        Step::Prefill { args } => vec![
            (args.query, args.num_tokens as i64 * args.num_heads as i64 * args.head_dim as i64),
            (args.cu_seqlens, 8),
            (
                Buf::At(args.output),
                2 * args.num_tokens as i64 * args.num_heads as i64 * args.head_dim as i64,
            ),
        ],
        Step::Launch { call, grid, .. } => called(&call, grid),
        _ => vec![],
    }
}

fn called(call: &KernelCall, grid: Dim3) -> Vec<(Buf, i64)> {
    match *call {
        KernelCall::FillPosSlots { positions, slot_mapping, context_lens, num_tokens, .. } => vec![
            (Buf::At(positions), 4 * num_tokens as i64),
            (Buf::At(slot_mapping), 4 * num_tokens as i64),
            (Buf::At(context_lens), 4 * num_tokens as i64),
        ],
        KernelCall::F32ToBf16 { dst, src, n } => vec![(dst, 2 * n as i64), (src, 4 * n as i64)],
        KernelCall::VNormBf16 { v, head_dim, .. } => vec![(v, 2 * grid.x as i64 * head_dim as i64)],
        KernelCall::ScaledAddBf16 { dst, src, n, .. } => {
            vec![(dst, 2 * n as i64), (src, 2 * n as i64)]
        }
        KernelCall::ArgmaxF32 { logits, out, vocab } => vec![(logits, 4 * vocab as i64), (out, 4)],
        KernelCall::RopeKvWrite(a) => {
            let q = a.num_tokens as i64 * a.num_heads as i64 * a.head_dim as i64;
            let k = a.num_tokens as i64 * a.num_kv_heads as i64 * a.head_dim as i64;
            vec![(a.q_in, 2 * q), (a.k_in, 2 * k), (a.v_in, 2 * k), (a.q_out, q)]
        }
        KernelCall::Decode { args, .. } => {
            let q = args.num_heads as i64 * args.head_dim as i64;
            vec![(args.output, 2 * q), (args.query, q)]
        }
        KernelCall::W4a16Gemv { out, act, n, k, .. } => vec![(out, 2 * n as i64), (act, 2 * k as i64)],
        KernelCall::W4a16GateUp { out_gate, out_up, act, i_size, k, .. } => vec![
            (out_gate, 2 * i_size as i64),
            (out_up, 2 * i_size as i64),
            (act, 2 * k as i64),
        ],
        KernelCall::GeluTanhMul { out, gate, up, n } => {
            vec![(out, 2 * n as i64), (gate, 2 * n as i64), (up, 2 * n as i64)]
        }
        _ => vec![],
    }
}

fn assert_in_bounds(p: &Program) {
    let mut regions: Vec<usize> = Vec::new();
    for s in &p.steps {
        for (b, n) in touched(s) {
            if let Buf::In { region, offset } = b {
                assert!(region < regions.len(), "{s:?}");
                assert!(offset as i64 + n <= regions[region] as i64, "{s:?}");
            }
        }
        if let Step::Region { bytes, .. } = s {
            regions.push(*bytes);
        }
    }
}

#[test]
fn programs_stay_within_their_regions() {
    let m = model();
    let kv = cache();
    assert!(m.check_fits(5));
    for l in 0..2 {
        assert_in_bounds(&m.forward_layer_attn_from_residual(l, HIDDEN, 7, &kv, (0, 1)));
        let q = if l == 0 { 128 } else { 256 };
        assert_in_bounds(&m.forward_layer_post_attn(l, q, HIDDEN));
        assert_in_bounds(&m.forward_layer_post_attn_mlp(l, HIDDEN));
    }
    for p in m.full_stages(5, 3, &kv, 500, 600, (0, 1), false) {
        assert_in_bounds(&p);
    }
    for p in m.prompt_stages(&[1, 2, 3, 4, 5], 2, &kv, 500, 600, (0, 1), 16) {
        assert_in_bounds(&p);
    }
    assert_in_bounds(&m.forward_final_to_token(HIDDEN));
    assert_in_bounds(&m.forward_final_to_token_with_dump(HIDDEN));
    assert_in_bounds(&m.forward_layer0_qkv_only(1));
    assert_in_bounds(&m.pre_attn_one_token(1));
    assert_in_bounds(&m.embed_one_token_bf16(1));
}

/// Sizes of the regions that a program asks for.
fn sizes(p: &Program) -> Vec<usize> {
    p.steps
        .iter()
        .filter_map(|s| match s {
            Step::Region { bytes, .. } => Some(*bytes),
            _ => None,
        })
        .collect()
}

/// Nothing that starts in a buffer runs past its end.
fn assert_within(p: &Program, buffers: &[(u64, usize)]) {
    for s in &p.steps {
        for (b, n) in touched(s) {
            if let Buf::At(at) = b {
                for (base, len) in buffers {
                    if *base <= at && at < base + *len as u64 {
                        assert!(at as i64 + n <= *base as i64 + *len as i64, "{s:?}");
                    }
                }
            }
        }
    }
}

#[test]
fn passes_stay_within_their_buffers() {
    let m = model();
    let ptrs: Vec<u64> = (0..13).map(|i| 1_000_000 + 10_000 * i).collect();
    let kv = Gemma4Nvfp4KvState::from_regions(&arch(), 40, 8, &ptrs);
    let cache = sizes(&Gemma4Nvfp4KvState::allocate(&arch(), 40, 8));
    let mut buffers: Vec<(u64, usize)> = ptrs.iter().copied().zip(cache).collect();
    let (residual, out) = (5_000_000, 6_000_000);
    let one = sizes(&m.forward_full_to_token(3, &kv));
    assert_eq!(one, vec![2 * HIDDEN, 2 * 256]);
    buffers.push((residual, one[0]));
    buffers.push((out, one[1]));
    for p in m.full_stages(5, 3, &kv, residual, out, (0, 1), false) {
        assert_within(&p, &buffers);
    }
    buffers.truncate(ptrs.len());
    let many = sizes(&m.forward_prompt_to_token(5, 2, &kv));
    assert_eq!(many, vec![5 * one[0], 5 * one[1]]);
    buffers.push((residual, many[0]));
    buffers.push((out, many[1]));
    for p in m.prompt_stages(&[1, 2, 3, 4, 5], 2, &kv, residual, out, (0, 1), 16) {
        assert_within(&p, &buffers);
    }
}

fn written(s: &Step) -> Vec<Buf> {
    match *s {
        Step::WriteI32 { dst, .. }
        | Step::WriteI32Pair { dst, .. }
        | Step::WriteInput { dst, .. }
        | Step::Copy { dst, .. }
        | Step::Embed { dst, .. }
        | Step::VectorAddBf16 { dst, .. }
        | Step::Bf16ToF16Sat { dst, .. } => vec![dst],
        Step::RmsNorm { data, .. } => vec![data],
        Step::Gemm { out, .. } => vec![out],
        Step::Launch { call: KernelCall::Decode { args, .. }, .. } => vec![args.output],
        Step::Launch { call: KernelCall::ScaledAddBf16 { dst, .. }, .. } => vec![dst],
        Step::Prefill { args } => vec![Buf::At(args.output)],
        _ => vec![],
    }
}

#[test]
fn attention_leaves_the_residual_alone() {
    let m = model();
    let kv = cache();
    let one = m.forward_layer_attn_from_residual_dev(0, 500, 3, &kv, 600, (0, 1));
    let many = m.forward_layer_attn_batched_prefill_dev(0, 4, 500, 3, &kv, 600, (0, 1), 16);
    for p in [&one, &many] {
        let places: Vec<Buf> = p.steps.iter().flat_map(written).collect();
        assert!(!places.contains(&Buf::At(500)));
        assert!(places.contains(&Buf::At(600)));
    }
    let post = m.forward_layer_post_attn_dev(0, 600, 500);
    let places: Vec<Buf> = post.steps.iter().flat_map(written).collect();
    assert!(places.contains(&Buf::At(500)) && !places.contains(&Buf::At(600)));
}

#[test]
fn passes_run_each_layer_once_in_order() {
    let m = model();
    let kv = cache();
    let text = |p: &Program| format!("{p:?}");
    let stages = m.full_stages(5, 3, &kv, 500, 600, (0, 1), false);
    assert_eq!(stages.len(), 1 + 3 * 2 + 1);
    for l in 0..2 {
        let attn = m.forward_layer_attn_from_residual_dev(l, 500, 3, &kv, 600, (0, 1));
        assert_eq!(text(&stages[1 + 3 * l]), text(&attn));
        let post = m.forward_layer_post_attn_dev(l, 600, 500);
        assert_eq!(text(&stages[2 + 3 * l]), text(&post));
        let mlp = m.forward_layer_post_attn_mlp_dev(l, 500);
        assert_eq!(text(&stages[3 + 3 * l]), text(&mlp));
    }
    let prompt = [1, 2, 3];
    let stages = m.prompt_stages(&prompt, 2, &kv, 500, 600, (0, 1), 16);
    assert_eq!(stages.len(), 3 + 3 * 2 + 1);
    let mlp = m.forward_layer_post_attn_mlp_batched_dev(1, 3, 500);
    assert_eq!(text(&stages[3 + 3 + 2]), text(&mlp));
}

#[test]
fn dimensions_that_do_not_fit() {
    let mut m = model();
    assert!(m.check_fits(1));
    assert!(!m.check_fits(usize::MAX / 2));
    m.arch.num_hidden_layers = 3;
    assert!(!m.check_fits(1), "a layer without a type");
    m.arch.num_hidden_layers = 2;
    m.model.layers[1].k_proj.shape = vec![63, HIDDEN];
    assert!(!m.check_fits(1), "keys narrower than a head");
    m.model.layers[1].k_proj.shape = vec![];
    assert!(!m.check_fits(1));
}

#[test]
fn rows_of_the_cache_do_not_overlap() {
    let p = Gemma4Nvfp4KvState::allocate(&arch(), 40, 8);
    let sizes: Vec<usize> = p
        .steps
        .iter()
        .filter_map(|s| match s {
            Step::Region { bytes, .. } => Some(*bytes),
            _ => None,
        })
        .collect();
    let (heads, row) = (2usize, 16usize);
    let mut ends = 0;
    for slot in 0..40 {
        for head in 0..heads {
            let at = (slot * heads + head) * row;
            assert!(at >= ends);
            ends = at + row;
        }
    }
    assert_eq!(ends, sizes[5]);
    assert_eq!(16 * (sizes[5] + sizes[7]), 9 * 40 * 2 * 32);
}

#[test]
fn rounding_keeps_the_order() {
    let mut last = (0u16, 0u16, 0u8);
    for i in 0..2000u32 {
        let b = 0x3c00_0000 + i * 0x7123;
        let next = (f32_to_f16_bits(b), f32_to_bf16_bits(b), fp8_e4m3_encode(b));
        assert!(next.0 >= last.0 && next.1 >= last.1 && next.2 >= last.2);
        assert_eq!(f32_to_f16_bits(b | 0x8000_0000), next.0 + 0x8000);
        last = next;
    }
}

#[test]
fn widening_and_narrowing_give_back() {
    for h in (0..0x7c00u16).step_by(37) {
        assert_eq!(f32_to_f16_bits(f16_to_f32_bits(h)), h);
        assert_eq!(f32_to_bf16_bits(bf16_to_f32_bits(h)), h);
    }
}

#[test]
fn names_are_ordered() {
    let names = ["", "a", "a.b", "a.c", "b", "\u{e9}", "\u{1f600}"];
    for (i, a) in names.iter().enumerate() {
        for (j, b) in names.iter().enumerate() {
            assert_eq!(name_before(a, b), i < j, "{a} {b}");
            assert_eq!(name_before(a, b), a < b);
        }
    }
}

#[test]
fn decimals_are_distinct() {
    let mut texts: Vec<String> = (0..1200).map(decimal_text).collect();
    assert_eq!(texts[1007], "1007");
    texts.sort();
    texts.dedup();
    assert_eq!(texts.len(), 1200);
}
