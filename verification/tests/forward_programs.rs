//! Programs of the forward path.

use rvllm::loader::gemma4_arch::{Gemma4Arch, Gemma4LayerType};
use rvllm::loader::gemma4_nvfp4_weights::{
    Gemma4Nvfp4LayerLoaded, Gemma4Nvfp4LinearLoaded, Gemma4Nvfp4LoadedModel,
    Gemma4Nvfp4OutsideText,
};
use rvllm::loader::weights::{F16Weight, Nvfp4LinearShape};
use rvllm::runtime::gemma4_nvfp4_bring_up::drivers::{
    dump_label, dump_stages, is_traced, DumpStage,
};
use rvllm::runtime::gemma4_nvfp4_bring_up::host_passes::{
    carry_dump, dump_reading, dump_takes, zero_reading, zero_stages, zero_takes, Carried, Takes,
    ZeroStage,
};
use rvllm::runtime::gemma4_nvfp4_bring_up::kernels::{
    cublaslt_workspace, drafter_kernels, forward_kernels, kernel_of_step,
};
use rvllm::runtime::gemma4_nvfp4_bring_up::kv_state::{identity_block_table, Gemma4Nvfp4KvState};
use rvllm::runtime::gemma4_nvfp4_bring_up::launches::{decode_shared_bytes, fill_pos_slots};
use rvllm::runtime::gemma4_nvfp4_bring_up::model::{ForwardTables, Gemma4Nvfp4Bringup};
use rvllm::runtime::gemma4_nvfp4_ops::{
    gemma4_nvfp4_attn_proj_from_weight, gemma4_nvfp4_gate_up_fused, gemma4_nvfp4_mlp_forward,
    gemma4_nvfp4_mlp_forward_batched, gemma4_nvfp4_w4a16_gemm_mn,
};
use rvllm::runtime::step::{blocks_256, Buf, KernelCall, Program, Step};

const HIDDEN: usize = 64;

fn arch() -> Gemma4Arch {
    Gemma4Arch {
        num_hidden_layers: 2,
        hidden_size: HIDDEN,
        num_attention_heads: 4,
        head_dim_sliding: 32,
        head_dim_global: 64,
        num_kv_heads_sliding: 2,
        num_kv_heads_global: 1,
        intermediate_size: 128,
        vocab_size: 100,
        rms_norm_eps_bits: 1e-6f32.to_bits(),
        max_position_embeddings: 50,
        sliding_window_size: 16,
        rotary_dim_global: 16,
        logit_softcap_bits: 30.0f32.to_bits(),
        layer_types: vec![Gemma4LayerType::SlidingAttention, Gemma4LayerType::GlobalAttention],
        weight_prefix: "m".into(),
        hidden_size_per_layer_input: None,
        kv_share_sources: vec![None, None],
        assistant_shared_kv_sources: Some((0, 1)),
    }
}

fn weight(ptr: u64, shape: &[usize]) -> F16Weight {
    F16Weight { offset_bytes: ptr, shape: shape.to_vec() }
}

fn linear(ptr: u64, n: usize, k: usize) -> Gemma4Nvfp4LinearLoaded {
    Gemma4Nvfp4LinearLoaded {
        shape: Nvfp4LinearShape { n, k },
        packed_ptr: ptr,
        sfb_natural_ptr: ptr + 1,
        sfb_cutlass_ptr: 0,
        global_scale_ptr: ptr + 2,
        input_scale_ptr: ptr + 3,
        packed_bytes: n * k / 2,
        sfb_bytes: n * k / 16,
        bf16_ptr: 0,
    }
}

fn layer(base: u64, head_dim: usize, kv_heads: usize, values: bool) -> Gemma4Nvfp4LayerLoaded {
    let q = 4 * head_dim;
    let kv = kv_heads * head_dim;
    Gemma4Nvfp4LayerLoaded {
        input_layernorm: weight(base, &[HIDDEN]),
        post_attention_layernorm: weight(base + 1, &[HIDDEN]),
        pre_feedforward_layernorm: weight(base + 2, &[HIDDEN]),
        post_feedforward_layernorm: weight(base + 3, &[HIDDEN]),
        layer_scalar: weight(base + 4, &[1]),
        q_norm: weight(base + 5, &[head_dim]),
        k_norm: weight(base + 6, &[head_dim]),
        q_proj: weight(base + 7, &[q, HIDDEN]),
        k_proj: weight(base + 8, &[kv, HIDDEN]),
        v_proj: if values { Some(weight(base + 9, &[kv, HIDDEN])) } else { None },
        o_proj: weight(base + 10, &[HIDDEN, q]),
        gate_proj: linear(base + 20, 128, HIDDEN),
        up_proj: linear(base + 30, 128, HIDDEN),
        down_proj: linear(base + 40, HIDDEN, 128),
    }
}

fn model() -> Gemma4Nvfp4Bringup {
    Gemma4Nvfp4Bringup {
        arch: arch(),
        model: Gemma4Nvfp4LoadedModel {
            outside: Gemma4Nvfp4OutsideText {
                embed_tokens: weight(9000, &[100, HIDDEN]),
                final_norm: weight(9001, &[HIDDEN]),
            },
            layers: vec![layer(1000, 32, 2, true), layer(2000, 64, 1, false)],
        },
        tables: ForwardTables {
            lm_head_tokens: 9100,
            rope_cos_sliding: 9200,
            rope_sin_sliding: 9201,
            rope_cos_global: 9202,
            rope_sin_global: 9203,
        },
        forward_checkpoint: 77,
        kv_state_allocated: true,
        drafter: None,
        base_last_hidden_ptr: 0,
    }
}

fn cache() -> Gemma4Nvfp4KvState {
    let ptrs: Vec<u64> = (100..113).collect();
    Gemma4Nvfp4KvState::from_regions(&arch(), 40, 8, &ptrs)
}

fn regions(p: &Program) -> Vec<usize> {
    p.steps
        .iter()
        .filter_map(|s| match s {
            Step::Region { bytes, .. } => Some(*bytes),
            _ => None,
        })
        .collect()
}

fn failure(p: &Program) -> String {
    p.failure.expect("a report").message()
}

fn show(s: &Step) -> String {
    format!("{s:?}")
}

#[test]
fn cache_layout() {
    let p = Gemma4Nvfp4KvState::allocate(&arch(), 40, 8);
    assert!(p.failure.is_none());
    let packed = [40 * 2 * 16, 40 * 32];
    let scale = [40 * 2 * 2, 40 * 4];
    assert_eq!(
        regions(&p),
        vec![
            160, 32, 32, 32, 4, packed[0], packed[0], scale[0], scale[0], packed[1], packed[1],
            scale[1], scale[1]
        ]
    );
    let kv = cache();
    assert_eq!(kv.k_packed_layer_ptrs, vec![105, 109]);
    assert_eq!(kv.v_scale_layer_ptrs, vec![108, 112]);
    let total = 160 + 3 * 32 + 4 + 2 * (packed[0] + scale[0] + packed[1] + scale[1]);
    assert_eq!(kv.total_bytes, total as u64);
    let refused = Gemma4Nvfp4KvState::allocate(&arch(), 40, 0);
    assert!(failure(&refused).contains("max_query_tokens must be >= 1"));
    assert!(refused.steps.is_empty());
    assert_eq!(identity_block_table(3), vec![0, 0, 0, 0, 1, 0, 0, 0, 2, 0, 0, 0]);
}

#[test]
fn positions_must_fit_the_metadata() {
    let kv = cache();
    assert!(fill_pos_slots(&kv, 3, 3, 8).is_ok());
    assert!(fill_pos_slots(&kv, 3, 3, 9).is_err());
}

#[test]
fn host_attention_of_a_sliding_layer() {
    let m = model();
    let kv = cache();
    let p = m.forward_layer_attn_from_residual(0, HIDDEN, 7, &kv, (0, 1));
    assert!(p.failure.is_none(), "{:?}", p.failure);
    assert_eq!(
        regions(&p),
        vec![128, 4 * 128, 4 * 64, 4 * 64, 256, 128, 128, 128, 256]
    );
    let gemms: Vec<&Step> = p.steps.iter().filter(|s| matches!(s, Step::Gemm { .. })).collect();
    assert_eq!(gemms.len(), 3);
    assert!(show(gemms[2]).contains("weight: 1009"));
    let rope = p
        .steps
        .iter()
        .find_map(|s| match s {
            Step::Launch { call: KernelCall::RopeKvWrite(a), .. } => Some(*a),
            _ => None,
        })
        .unwrap();
    assert_eq!(rope.cos, 9200);
    assert_eq!(rope.rotary_dim, 32);
    assert_eq!((rope.k_policy, rope.v_policy), (0, 1));
    assert_eq!(rope.k_packed, 105);
    let decode = p
        .steps
        .iter()
        .find_map(|s| match s {
            Step::Launch { call: KernelCall::Decode { args, .. }, .. } => Some(*args),
            _ => None,
        })
        .unwrap();
    assert_eq!(decode.window_size_left, 15);
    assert_eq!(decode.num_heads, 4);
    assert_eq!(decode.num_kv_heads, 2);
    assert_eq!(decode.max_blocks_per_seq, 40);
    assert!(matches!(p.steps.last(), Some(Step::Release) | Some(Step::Read { .. })));
}

#[test]
fn global_layers_read_keys_as_values() {
    let m = model();
    let kv = cache();
    let p = m.forward_layer_attn_from_residual_dev(1, 500, 7, &kv, 600, (0, 1));
    assert!(p.failure.is_none(), "{:?}", p.failure);
    let gemms = p.steps.iter().filter(|s| matches!(s, Step::Gemm { .. })).count();
    assert_eq!(gemms, 2);
    let copies: Vec<String> = p
        .steps
        .iter()
        .filter(|s| matches!(s, Step::Copy { .. }))
        .map(show)
        .collect();
    assert!(copies.iter().any(|c| c.contains("region: 3") && c.contains("region: 2")));
    let decode = p
        .steps
        .iter()
        .find_map(|s| match s {
            Step::Launch { call: KernelCall::Decode { args, .. }, .. } => Some(*args),
            _ => None,
        })
        .unwrap();
    assert_eq!(decode.window_size_left, -1);
    assert_eq!(decode.output, Buf::At(600));
}

#[test]
fn attention_refuses() {
    let mut m = model();
    let kv = cache();
    let p = m.forward_layer_attn_from_residual(2, HIDDEN, 0, &kv, (0, 1));
    assert_eq!(
        failure(&p),
        "forward_layer_attn_from_residual: layer_idx=2 >= num_hidden_layers=2"
    );
    let p = m.forward_layer_attn_from_residual(0, HIDDEN, 40, &kv, (0, 1));
    assert!(failure(&p).contains("position=40 >= kv.max_pos=40"));
    let p = m.forward_layer_attn_from_residual(0, 63, 0, &kv, (0, 1));
    assert!(failure(&p).contains("residual length 63 != hidden 64"));
    m.model.layers[0].v_proj = Some(weight(1, &[32, HIDDEN]));
    let p = m.forward_layer_attn_from_residual(0, HIDDEN, 0, &kv, (0, 1));
    assert!(failure(&p).contains("K/V dim mismatch (64 vs 32)"));
    m.model.layers[0].v_proj = None;
    let p = m.forward_layer_attn_from_residual(0, HIDDEN, 0, &kv, (0, 1));
    assert!(failure(&p).contains("is sliding but v_proj is absent"));
    m.model.layers[1].v_proj = Some(weight(1, &[64, HIDDEN]));
    let p = m.forward_layer_attn_from_residual(1, HIDDEN, 0, &kv, (0, 1));
    assert!(failure(&p).contains("is Global but v_proj IS present"));
    assert!(p.steps.is_empty());
}

#[test]
fn batched_attention_scales_with_tokens() {
    let m = model();
    let kv = cache();
    let p = m.forward_layer_attn_batched_prefill_dev(0, 5, 500, 2, &kv, 600, (0, 1), 16);
    assert!(p.failure.is_none(), "{:?}", p.failure);
    let r = regions(&p);
    assert_eq!(&r[..8], &[5 * 128, 20 * 128, 20 * 64, 20 * 64, 10 * 128, 10 * 64, 10 * 64, 5 * 128]);
    let args = p
        .steps
        .iter()
        .find_map(|s| match s {
            Step::Prefill { args } => Some(*args),
            _ => None,
        })
        .unwrap();
    assert_eq!(args.num_tokens, 5);
    assert_eq!(args.num_queries_per_kv, 2);
    assert_eq!(args.block_q, 8);
    let p = m.forward_layer_attn_batched_prefill_dev(0, 0, 500, 2, &kv, 600, (0, 1), 16);
    assert!(p.failure.is_some());
    let p = m.forward_layer_attn_batched_prefill_dev(0, 9, 500, 2, &kv, 600, (0, 1), 16);
    assert!(p.failure.is_some(), "the metadata has room for 8");
}

#[test]
fn mlp_takes_two_halves_of_scratch() {
    let gate = linear(20, 128, 64);
    let up = linear(30, 128, 64);
    let down = linear(40, 64, 128);
    let p = gemma4_nvfp4_mlp_forward(
        Buf::At(1),
        Buf::At(2),
        &gate,
        &up,
        &down,
        Buf::In { region: 3, offset: 0 },
    );
    assert!(p.failure.is_none());
    let text: Vec<String> = p.steps.iter().map(show).collect();
    assert_eq!(text.len(), 3);
    assert!(text[0].contains("region: 3, offset: 0") && text[0].contains("offset: 256"));
    assert!(text[2].contains("packed: 40"));
    let narrow = linear(30, 96, 64);
    assert!(gemma4_nvfp4_gate_up_fused(Buf::At(1), &gate, &narrow, Buf::At(2), Buf::At(3)).is_err());
}

#[test]
fn batched_mlp_limits() {
    let gate = linear(20, 128, 64);
    let up = linear(30, 128, 64);
    let down = linear(40, 64, 128);
    let s = Buf::In { region: 0, offset: 0 };
    let p = gemma4_nvfp4_mlp_forward_batched(Buf::At(1), Buf::At(2), &gate, &up, &down, s, 3);
    assert!(p.failure.is_none(), "{:?}", p.failure);
    assert!(p.steps.iter().any(|x| show(x).contains("offset: 768")));
    assert!(gemma4_nvfp4_w4a16_gemm_mn(Buf::At(1), &gate, Buf::At(2), 3).is_ok());
    assert!(gemma4_nvfp4_w4a16_gemm_mn(Buf::At(1), &gate, Buf::At(2), 0).is_err());
}

#[test]
fn projection_from_a_weight() {
    let w = weight(7, &[32, 16]);
    let s = gemma4_nvfp4_attn_proj_from_weight(Buf::At(1), &w, Buf::At(2), 4).unwrap();
    assert!(show(&s).contains("m: 4, n: 32, k: 16"));
    let bad = weight(7, &[32]);
    assert!(gemma4_nvfp4_attn_proj_from_weight(Buf::At(1), &bad, Buf::At(2), 4).is_err());
}

#[test]
fn post_attention_and_mlp_programs() {
    let m = model();
    let p = m.forward_layer_post_attn(0, 128, HIDDEN);
    assert!(p.failure.is_none(), "{:?}", p.failure);
    let p = m.forward_layer_post_attn(0, 127, HIDDEN);
    assert!(p.failure.is_some());
    let p = m.forward_layer_post_attn_mlp(1, HIDDEN);
    assert!(p.failure.is_none());
    assert!(m.forward_layer_post_attn_mlp(1, HIDDEN + 1).failure.is_some());
    assert!(m.forward_layer_post_attn_mlp(2, HIDDEN).failure.is_some());
    let dev = m.forward_layer_post_attn_dev(0, 600, 500);
    assert!(dev.failure.is_none());
    assert!(dev.steps.iter().any(|s| show(s).contains("At(500)")));
    let mlp = m.forward_layer_post_attn_mlp_dev(0, 500);
    assert!(mlp.failure.is_none());
    let batched = m.forward_layer_post_attn_mlp_batched_dev(0, 3, 500);
    assert!(batched.failure.is_none(), "{:?}", batched.failure);
    let attn = m.forward_layer_post_attn_batched_dev(0, 3, 600, 500);
    assert!(attn.failure.is_none(), "{:?}", attn.failure);
}

#[test]
fn final_token_is_checked() {
    let m = model();
    let p = m.forward_final_to_token(HIDDEN);
    assert!(p.failure.is_none());
    assert!(p.steps.iter().any(|s| matches!(s, Step::Launch { call: KernelCall::ArgmaxF32 { .. }, .. })));
    assert!(p.steps.iter().any(|s| match s {
        Step::Launch { call: KernelCall::ArgmaxF32 { .. }, block, .. } => block.x == 100,
        _ => false,
    }));
    assert_eq!(m.final_token(42).unwrap(), 42);
    assert!(m.final_token(-1).is_err());
    assert!(m.final_token(100).is_err());
    assert!(m.forward_final_to_token(HIDDEN - 1).failure.is_some());
    let dumped = m.forward_final_to_token_with_dump(HIDDEN);
    let reads = |p: &Program| p.steps.iter().filter(|s| matches!(s, Step::Read { .. })).count();
    assert!(reads(&dumped) > reads(&p));
    let mut m = m;
    m.keep_base_last_hidden(4096, 0);
    let chain = |p: &Program| -> Vec<String> {
        let added = |s: &&Step| {
            !matches!(s, Step::Fence | Step::Read { .. } | Step::Region { .. })
        };
        p.steps.iter().filter(added).map(show).collect()
    };
    let plain = chain(&m.forward_final_to_token(HIDDEN));
    assert_eq!(chain(&m.forward_final_to_token_with_dump(HIDDEN)), plain);
    assert!(plain.iter().any(|s| s.contains("Bf16ToF16Sat") && s.contains("At(4096)")));
}

#[test]
fn whole_forward_runs_every_layer() {
    let m = model();
    let kv = cache();
    let p = m.forward_full_to_token(3, &kv);
    assert!(p.failure.is_none(), "{:?}", p.failure);
    let stages = m.full_stages(5, 3, &kv, 500, 600, (0, 1), false);
    assert!(stages.len() >= 1 + 3 * 2);
    assert!(stages.iter().all(|s| s.failure.is_none()));
    let traced = m.full_stages(5, 3, &kv, 500, 600, (0, 1), true);
    let reads = |v: &[Program]| -> usize {
        v.iter().map(|p| p.steps.iter().filter(|s| matches!(s, Step::Read { .. })).count()).sum()
    };
    assert!(reads(&traced) > reads(&stages));
    assert!(m.forward_full_to_token(40, &kv).failure.is_some());
}

#[test]
fn prompt_forward_checks_its_length() {
    let m = model();
    let kv = cache();
    assert!(m.forward_prompt_to_token(0, 0, &kv).failure.is_some());
    assert!(m.forward_prompt_to_token(4, 0, &kv).failure.is_none());
    let stages = m.prompt_stages(&[1, 2, 3, 4], 0, &kv, 500, 600, (0, 1), 16);
    assert!(stages.iter().all(|s| s.failure.is_none()));
}

#[test]
fn embedding_programs() {
    let m = model();
    let p = m.embed_one_token_bf16(99);
    assert!(p.failure.is_none());
    assert!(p.steps.iter().any(|s| show(s).contains("table: 9000")));
    let p = m.embed_one_token_to_device(1, 500);
    assert!(p.steps.iter().any(|s| show(s).contains("At(500)")));
    assert!(m.pre_attn_one_token(1).failure.is_none());
    assert!(m.forward_layer0_qkv_only(1).failure.is_none());
    assert!(m.forward_layer0_qk_norm(1).failure.is_none());
    assert!(m.forward_layer0_qk_rope(1, 0).failure.is_none());
    let p = m.forward_layer0_qk_rope(1, 2);
    assert!(p.steps.iter().any(|s| matches!(s, Step::Read { src: Buf::At(9264), bytes: 32, .. })));
}

#[test]
fn position_zero_repeats_values() {
    let m = model();
    let v: Vec<u32> = (0..64).map(|i| (i as f32).to_bits()).collect();
    let out = m.position_zero_attn_out(&v).unwrap();
    assert_eq!(out.len(), 128);
    assert_eq!(out[1], out[33]);
    assert_eq!(out[64], half::bf16::from_f32(32.0).to_bits());
    assert!(m.position_zero_attn_out(&v[..63]).is_err());
}

#[test]
fn dump_labels() {
    let labels: Vec<String> = dump_stages(3).iter().map(|s| dump_label(*s)).collect();
    let mut sorted = labels.clone();
    sorted.sort();
    sorted.dedup();
    assert_eq!(sorted.len(), labels.len());
    assert!(matches!(dump_stages(0)[0], DumpStage::Embed));
    assert!(is_traced(0, 60));
}

#[test]
fn every_launched_kernel_is_loaded() {
    let m = model();
    let kv = cache();
    let mut names: Vec<String> = forward_kernels().iter().map(|k| format!("{k:?}")).collect();
    names.extend(drafter_kernels().iter().map(|k| format!("{k:?}")));
    for p in m.full_stages(5, 3, &kv, 500, 600, (0, 1), true) {
        for s in &p.steps {
            if let Some(k) = kernel_of_step(s) {
                assert!(names.contains(&format!("{k:?}")), "{k:?}");
            }
        }
    }
    assert_eq!(regions(&cublaslt_workspace()).len(), 1);
}

#[test]
fn shared_memory_of_the_decode() {
    assert!(decode_shared_bytes(256, true) >= decode_shared_bytes(256, false));
    assert_eq!(blocks_256(1), 1);
    assert_eq!(blocks_256(256), 1);
    assert_eq!(blocks_256(257), 2);
}

#[test]
fn caches_are_allocated_once() {
    let mut m = model();
    m.kv_state_allocated = false;
    let p = m.allocate_kv_state(40);
    assert!(p.failure.is_none());
    assert_eq!(regions(&p)[1], 4, "room for one query token");
    let p = m.allocate_kv_state_with_chunk(40, 8);
    assert_eq!(regions(&p)[1], 32);
    m.keep_kv_state(123);
    assert!(m.kv_state_allocated);
    assert_eq!(m.forward_checkpoint, 123);
    assert!(m.allocate_kv_state(40).failure.is_some());
}

#[test]
fn programs_end_at_a_report() {
    let kv = cache();
    let m = model();
    let bad = m.forward_layer_attn_from_residual(9, HIDDEN, 0, &kv, (0, 1));
    let good = m.embed_one_token_bf16(1);
    let n = bad.steps.len();
    let both = bad.followed_by(good);
    assert_eq!(both.steps.len(), n);
    assert!(both.failure.is_some());
}

fn readings(p: &Program) -> Vec<usize> {
    p.steps
        .iter()
        .filter_map(|s| match s {
            Step::Read { bytes, .. } => Some(*bytes),
            _ => None,
        })
        .collect()
}

fn bytes_of(words: &[u16]) -> Vec<u8> {
    words.iter().flat_map(|w| w.to_le_bytes()).collect()
}

#[test]
fn a_prompt_of_one_token_does_a_tokens_work() {
    let m = model();
    let kv = cache();
    let one = m.full_stages(5, 7, &kv, 500, 600, (0, 1), false);
    let prompt = m.prompt_stages(&[5], 7, &kv, 500, 600, (0, 1), 64);
    assert_eq!(one.len(), prompt.len());
    assert_eq!(show(&one[0].steps[1]), show(&prompt[0].steps[1]));
    for l in 0..2 {
        let (a, b) = (&one[1 + 3 * l].steps, &prompt[1 + 3 * l].steps);
        let weights = |steps: &[Step]| -> Vec<String> {
            steps
                .iter()
                .filter(|s| matches!(s, Step::Gemm { .. } | Step::RmsNorm { .. }))
                .map(show)
                .collect()
        };
        assert_eq!(weights(a), weights(b), "layer {l}");
        let fill = |steps: &[Step]| {
            steps
                .iter()
                .find(|s| matches!(s, Step::Launch { call: KernelCall::FillPosSlots { .. }, .. }))
                .map(show)
        };
        assert!(fill(a).is_some());
        assert_eq!(fill(a), fill(b), "position and slot of layer {l}");
        let rope = |steps: &[Step]| {
            steps.iter().find_map(|s| match s {
                Step::Launch { call: KernelCall::RopeKvWrite(_), .. } => Some(show(s)),
                _ => None,
            })
        };
        assert!(rope(a).is_some());
        assert_eq!(rope(a), rope(b), "cache write of layer {l}");
        match (a.last(), b.last()) {
            (
                Some(Step::Launch { call: KernelCall::Decode { args: d, .. }, .. }),
                Some(Step::Prefill { args: p }),
            ) => {
                assert_eq!(d.output, Buf::At(p.output));
                assert_eq!((d.k_packed, d.v_packed), (p.k_packed, p.v_packed));
                assert_eq!((d.num_heads as u32, d.head_dim as u32), (p.num_heads, p.head_dim));
                assert_eq!(d.window_size_left, p.window_size_left);
                assert_eq!((p.num_seqs, p.num_tokens), (1, 1));
            }
            other => panic!("{other:?}"),
        }
        for k in 2..4 {
            let (x, y) = (&one[k + 3 * l].steps, &prompt[k + 3 * l].steps);
            assert_eq!(x.len(), y.len());
            assert_eq!(weights(x), weights(y));
        }
    }
    let last = |p: &Program| match p.steps.iter().find(|s| matches!(s, Step::Read { .. })) {
        Some(Step::Read { src, bytes, .. }) => (*src, *bytes),
        other => panic!("{other:?}"),
    };
    assert_eq!(last(one.last().unwrap()), (Buf::At(500), 128));
    assert_eq!(last(prompt.last().unwrap()), (Buf::At(500), 128));
}

#[test]
fn rotation_at_zero_reads_the_tables_start() {
    let m = model();
    assert!(m.check_probe() && m.check_row(0));
    let norm = m.forward_layer0_qk_norm(5);
    let rope = m.forward_layer0_qk_rope(5, 0);
    let rows: Vec<(Buf, usize)> = rope
        .steps
        .iter()
        .filter_map(|s| match s {
            Step::Read { src, bytes, .. } => Some((*src, *bytes)),
            _ => None,
        })
        .collect();
    assert!(rows.contains(&(Buf::At(9200), 32)) && rows.contains(&(Buf::At(9201), 32)));
    let (a, b) = (readings(&norm), readings(&rope));
    assert_eq!(a, b[..a.len()]);
    assert_eq!((b[7], b[8]), (a[3], a[4]), "rotation keeps the number of values");
    let later = m.forward_layer0_qk_rope(5, 3);
    assert!(later.steps.iter().any(|s| show(s).contains("At(9296)")));
}

#[test]
fn a_dump_hands_its_values_on() {
    let m = model();
    let kv = cache();
    let mut c = Carried::nothing();
    let mut seen: Vec<Vec<u8>> = Vec::new();
    for (i, stage) in dump_stages(2).into_iter().enumerate() {
        let given = c.inputs(dump_takes(stage));
        match stage {
            DumpStage::Embed => assert!(given.is_empty()),
            DumpStage::AttnOut(_) => assert_eq!(given, vec![seen[i - 1].clone()]),
            DumpStage::PostAttn(_) => {
                assert_eq!(given, vec![seen[i - 1].clone(), seen[i - 2].clone()])
            }
            DumpStage::PostMlp(_) => assert_eq!(given, vec![seen[i - 1].clone()]),
        }
        let p = m.dump_program(stage, 5, 7, &kv, (0, 1), &c);
        assert!(p.failure.is_none(), "{:?}", p.failure);
        let sizes = readings(&p);
        assert_eq!(dump_reading(stage), sizes.len() - 1, "the last reading of {stage:?}");
        let words: Vec<u16> =
            (0..sizes[dump_reading(stage)] / 2).map(|j| (1000 * i + j) as u16).collect();
        carry_dump(stage, &bytes_of(&words), &mut c);
        seen.push(bytes_of(&words));
    }
    assert_eq!(bytes_of(&c.residual), seen[6]);
    assert_eq!(c.residual.len(), HIDDEN);
    let p = m.dump_program(DumpStage::AttnOut(2), 5, 7, &kv, (0, 1), &c);
    assert!(failure(&p).contains("layer_idx=2"));
    let p = m.dump_program(DumpStage::PostAttn(0), 5, 7, &kv, (0, 1), &Carried::nothing());
    assert!(failure(&p).contains("attn_out length 0 != N_q 128"));
}

#[test]
fn position_zero_hands_its_values_on() {
    let m = model();
    assert!(m.check_zero());
    let mut c = Carried::nothing();
    let mut token = None;
    let mut orders = Vec::new();
    for stage in zero_stages() {
        let given = c.inputs(zero_takes(stage));
        let p = m.zero_program(stage, 5, &c);
        assert!(p.failure.is_none(), "{stage:?}: {:?}", p.failure);
        let size = readings(&p)[zero_reading(stage)];
        let reading: Vec<u8> = match stage {
            ZeroStage::Values => {
                (0..size / 4).flat_map(|j| ((1 + j) as f32).to_bits().to_le_bytes()).collect()
            }
            ZeroStage::Head => 42i32.to_le_bytes().to_vec(),
            ZeroStage::Embed => bytes_of(&vec![7; size / 2]),
            ZeroStage::PostAttn => bytes_of(&vec![8; size / 2]),
            ZeroStage::PostMlp => bytes_of(&vec![9; size / 2]),
        };
        assert_eq!(reading.len(), size, "{stage:?}");
        match stage {
            ZeroStage::Values | ZeroStage::Embed => assert!(given.is_empty()),
            ZeroStage::PostAttn => {
                let one = (1.0f32.to_bits() >> 16) as u16;
                assert_eq!(given[0][..2], one.to_le_bytes());
                assert_eq!(given[0][64..66], one.to_le_bytes(), "two query heads share a row");
                assert_eq!(given[0].len(), 2 * 128);
                assert_eq!(given[1], bytes_of(&[7; HIDDEN]));
            }
            ZeroStage::PostMlp => assert_eq!(given, vec![bytes_of(&[8; HIDDEN])]),
            ZeroStage::Head => assert_eq!(given, vec![bytes_of(&[9; HIDDEN])]),
        }
        token = m.carry_zero(stage, &reading, &mut c).unwrap();
        assert_eq!(token.is_some(), stage == ZeroStage::Head);
        orders.push(stage);
    }
    assert_eq!(token, Some(42));
    assert_eq!(orders[0], ZeroStage::Values);
    let before = c.residual.clone();
    let e = m.carry_zero(ZeroStage::Values, &[0; 12], &mut c).unwrap_err();
    assert!(e.message().contains("v_f32 length unexpected"));
    let e = m.carry_zero(ZeroStage::Head, &100i32.to_le_bytes(), &mut c).unwrap_err();
    assert!(e.message().contains("out-of-range token id"));
    assert_eq!(c.residual, before);
    assert_eq!(zero_takes(ZeroStage::Head), Takes::Residual);
}

#[test]
fn refused_inputs_need_no_limits() {
    let mut m = model();
    let kv = cache();
    m.arch.hidden_size = usize::MAX / 2;
    assert!(!m.check_fits(41));
    assert!(m.check_prompt(41, 0, &kv));
    assert!(failure(&m.forward_prompt_to_token(41, 0, &kv)).contains("n_tokens=41"));
    assert!(m.check_prompt(9, 0, &kv));
    assert!(failure(&m.forward_prompt_to_token(9, 0, &kv)).contains("max_query_tokens"));
    assert!(!m.check_prompt(8, 0, &kv));
    let empty = Gemma4Nvfp4KvState { k_packed_layer_ptrs: vec![], ..cache() };
    assert!(!empty.check_covers(1));
    let p = m.forward_layer_attn_batched_prefill_dev(0, 9, 500, 0, &empty, 600, (0, 1), 64);
    assert!(p.failure.is_some() && p.steps.is_empty());
    let p = m.allocate_kv_state_with_chunk(u32::MAX, u32::MAX);
    assert!(m.check_allocation(u32::MAX, u32::MAX) && failure(&p).contains("called twice"));
}

#[test]
fn sizes_of_a_cache_are_checked() {
    assert!(Gemma4Nvfp4KvState::check_fits(&arch(), 40, 8));
    assert!(Gemma4Nvfp4KvState::check_fits(&arch(), u32::MAX, u32::MAX));
    let mut a = arch();
    a.kv_share_sources.pop();
    assert!(!Gemma4Nvfp4KvState::check_fits(&a, 40, 8));
    let mut a = arch();
    a.num_kv_heads_global = usize::MAX / 64;
    assert!(Gemma4Nvfp4KvState::check_fits(&a, 0, 8));
    assert!(!Gemma4Nvfp4KvState::check_fits(&a, 2, 8), "one layer in 64 bits, both halves not");
    assert!(!Gemma4Nvfp4KvState::check_fits(&a, 40, 8));
    let m = model();
    assert!(m.check_rows(8, u64::MAX - 2 * 8 * 64));
    assert!(!m.check_rows(8, u64::MAX - 2 * 8 * 64 + 1));
    assert!(cache().check_covers(2) && !cache().check_covers(3));
    let mut m = model();
    m.tables.rope_sin_sliding = u64::MAX - 32;
    assert!(m.check_row(1) && !m.check_row(2));
    m.arch.head_dim_sliding = 0;
    assert!(!m.check_probe());
    assert!(!m.check_heads(64, 32, &cache()));
    let mut m = model();
    assert!(m.check_heads(128, 64, &cache()) && !m.check_heads(128, 31, &cache()));
    m.arch.num_kv_heads_sliding = 0;
    assert!(!m.check_zero());
}
