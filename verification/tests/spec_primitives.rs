//! Verifying drafted tokens and running the drafter.

use rvllm::loader::gemma4_arch::{Gemma4Arch, Gemma4LayerType};
use rvllm::loader::gemma4_drafter::{
    DrafterLayerType, Gemma4DrafterArch, Gemma4DrafterLayerOffsets, Gemma4DrafterTopOffsets,
    Gemma4DrafterWeightLayout,
};
use rvllm::loader::gemma4_nvfp4_weights::{Gemma4Nvfp4LoadedModel, Gemma4Nvfp4OutsideText};
use rvllm::loader::gemma4_weights::{Gemma4LayerWeights, Gemma4LoadedModel};
use rvllm::loader::weights::{F16Weight, Fp8Weight};
use rvllm::runtime::gemma4_drafter::workspace::DrafterStepWorkspace;
use rvllm::runtime::gemma4_drafter::{BaseKvSource, Gemma4DrafterRuntime, KvDtype};
use rvllm::runtime::gemma4_nvfp4_bring_up::drafter::Gemma4Nvfp4BaseKvSource;
use rvllm::runtime::gemma4_nvfp4_bring_up::kv_state::Gemma4Nvfp4KvState;
use rvllm::runtime::gemma4_nvfp4_bring_up::model::{ForwardTables, Gemma4Nvfp4Bringup};
use rvllm::runtime::gemma4_spec_primitives::{
    check_request, check_scratch, store_argmax, Gemma4Bringup, HadamardSigns, PrefixCacheState,
    ShadowCache, SpecPrefillScratch, SpecState, MAX_SPEC_K,
};
use rvllm::runtime::step::{Buf, KernelCall, Program, Step};
use rvllm::tensor::DType;

fn arch() -> Gemma4Arch {
    Gemma4Arch {
        num_hidden_layers: 2,
        hidden_size: 16,
        num_attention_heads: 4,
        head_dim_sliding: 32,
        head_dim_global: 64,
        num_kv_heads_sliding: 2,
        num_kv_heads_global: 1,
        intermediate_size: 48,
        vocab_size: 100,
        rms_norm_eps_bits: 1e-6f32.to_bits(),
        max_position_embeddings: 50,
        sliding_window_size: 16,
        rotary_dim_global: 16,
        logit_softcap_bits: 30.0f32.to_bits(),
        layer_types: vec![Gemma4LayerType::SlidingAttention, Gemma4LayerType::GlobalAttention],
        weight_prefix: "m".into(),
        hidden_size_per_layer_input: None,
        kv_share_sources: vec![None, None],
        assistant_shared_kv_sources: Some((0, 1)),
    }
}

fn half(ptr: u64) -> F16Weight {
    F16Weight { offset_bytes: ptr, shape: vec![1] }
}

fn fp8(ptr: u64) -> Fp8Weight {
    Fp8Weight {
        offset_bytes: ptr,
        scale_ptr: ptr + 1,
        shape: vec![1],
        scale_bits: 0,
        clamp_ppm_bits: 0,
        dtype: DType::Fp8E4M3,
        channelscale_ptr: None,
        blockscale_ptr: Some(ptr + 2),
        blockscale_n_blocks: 1,
        blockscale_k_blocks: 1,
    }
}

fn layer(base: u64) -> Gemma4LayerWeights {
    Gemma4LayerWeights {
        qkv: Some(fp8(base)),
        o_proj: None,
        gate_up: None,
        down_proj: None,
        qkv_f16: None,
        o_proj_f16: Some(half(base + 10)),
        gate_up_f16: None,
        down_proj_f16: None,
        input_layernorm: half(base + 11),
        post_attention_layernorm: half(base + 12),
        pre_feedforward_layernorm: half(base + 13),
        post_feedforward_layernorm: half(base + 14),
        q_norm: half(base + 15),
        k_norm: half(base + 16),
        layer_scalar: half(base + 17),
        per_layer_input_gate: None,
        per_layer_projection: None,
        post_per_layer_input_norm: None,
        awq: None,
    }
}

fn bringup() -> Gemma4Bringup {
    Gemma4Bringup {
        arch: arch(),
        model: Gemma4LoadedModel {
            embedding: half(800),
            lm_head_fp8: fp8(810),
            lm_head_f16: half(820),
            final_norm: half(830),
            rope_cos_sliding: half(840),
            rope_sin_sliding: half(841),
            rope_cos_global: half(842),
            rope_sin_global: half(843),
            layers: vec![layer(1000), layer(2000)],
            vision: None,
            audio: None,
            ple: None,
            num_kv_shared_layers: None,
        },
    }
}

fn state() -> SpecState {
    SpecState {
        prefix_cache: Some(PrefixCacheState {
            kv_cache_ptr: 1_000_000,
            kv_scale_ptr: 2_000_000,
            kv_layer_offsets: vec![0, 5000],
            kv_scale_layer_offsets: vec![0, 700],
            num_blocks_total: 10,
            identity_block_tables_ptr: 44,
            identity_block_tables_len: 10,
            block_size: 4,
        }),
        hadamard: None,
        shadow: None,
        kv_dtypes: vec![KvDtype::Nvfp4, KvDtype::Fp8],
        bf16_residual: false,
        per_token_q_scale: true,
        q_scale_bits: 0.1f32.to_bits(),
        kv_scale_bits: 1.0f32.to_bits(),
        layer_dump: false,
    }
}

fn scratch(b: &Gemma4Bringup) -> SpecPrefillScratch {
    let ptrs: Vec<u64> = (0..29).map(|i| 10_000_000 + 100_000 * i).collect();
    b.scratch_from_regions(8, &ptrs)
}

fn failure(p: &Program) -> String {
    p.failure.expect("a report").message()
}

#[test]
fn scratch_regions_scale_with_tokens() {
    let b = bringup();
    let p = b.prepare_spec_prefill_scratch(8);
    assert!(p.failure.is_none());
    let sizes: Vec<usize> = p
        .steps
        .iter()
        .map(|s| match s {
            Step::Region { bytes, .. } => *bytes,
            other => panic!("{other:?}"),
        })
        .collect();
    assert_eq!(sizes.len(), 29);
    assert_eq!(sizes[0], 8 * 16);
    assert_eq!(sizes[2], 2 * 8 * (256 + 2 * 64));
    assert_eq!(sizes[16], 4 * 8 * 256);
    assert_eq!(sizes[26], 4 * 9);
    assert_eq!(sizes[27], 4 * 8 * 100);
}

#[test]
fn requests_are_checked() {
    let mut s = state();
    assert!(check_request(8, 8, &s).is_ok());
    assert_eq!(check_request(0, 8, &s).unwrap_err().message(), "empty");
    assert_eq!(check_request(9, 9, &s).unwrap_err().message(), "9 exceeds MAX_SPEC_K=8");
    assert_eq!(check_request(3, 2, &s).unwrap_err().message(), "buf len 2 < new_tokens.len 3");
    s.prefix_cache.as_mut().unwrap().identity_block_tables_len = 9;
    assert!(check_request(1, 1, &s).unwrap_err().message().contains("wrong size"));
    s.prefix_cache = None;
    assert!(check_request(1, 1, &s).unwrap_err().message().contains("not initialised"));
    assert_eq!(MAX_SPEC_K, 8);
}

#[test]
fn a_chunk_runs_every_layer() {
    let b = bringup();
    let s = scratch(&b);
    let st = state();
    let p = b.verify_batched_suffix_k_only(&[5, 6, 7], 20, 0, 3, &s, &st);
    assert!(p.failure.is_none(), "{:?}", p.failure);
    let layers: Vec<_> = p
        .steps
        .iter()
        .filter_map(|x| match x {
            Step::LayerForward { args } => Some(*args),
            _ => None,
        })
        .collect();
    assert_eq!(layers.len(), 2);
    assert_eq!(layers[0].dims.num_tokens, 3);
    assert_eq!(layers[0].dims.head_dim, 32);
    assert_eq!(layers[1].dims.head_dim, 64);
    assert_eq!(layers[1].dims.rotary_dim, 16);
    assert_eq!(layers[0].weights.qkv_fp8, 1000);
    assert_eq!(layers[0].weights.qkv_blockscale, 1002);
    assert_eq!(layers[0].weights.o_f16, 1010);
    assert_eq!(layers[1].meta.cos, 842);
    assert_eq!(layers[0].scratch.k_cache, 1_000_000);
    assert_eq!(layers[1].scratch.k_cache, 1_005_000);
    assert_eq!(layers[0].dims.kv_dtype, KvDtype::Nvfp4);
    assert_eq!(layers[0].max_seqlen_q, 3);
    let argmax = p
        .steps
        .iter()
        .filter(|x| matches!(x, Step::Launch { call: KernelCall::ArgmaxF32 { .. }, .. }))
        .count();
    assert_eq!(argmax, 3);
    let positions: Vec<(i32, u32)> = p
        .steps
        .iter()
        .filter_map(|x| match x {
            Step::HostRange { first, count, .. } => Some((*first, *count)),
            _ => None,
        })
        .collect();
    assert!(positions.contains(&(20, 3)), "{positions:?}");
    let p = b.verify_batched_suffix_k_only(&[], 20, 0, 0, &s, &st);
    assert_eq!(failure(&p), "empty");
    assert!(p.steps.is_empty());
}

#[test]
fn one_token_is_committed() {
    let b = bringup();
    let s = scratch(&b);
    let p = b.commit_base_tokens_from_state(5, 20, 777, &s, &state());
    assert!(p.failure.is_none());
    assert!(p.steps.iter().any(|x| format!("{x:?}").contains("At(777)")));
    let mut out = vec![9, 9, 9];
    store_argmax(&[4, 5], &mut out);
    assert_eq!(out, vec![4, 5, 9]);
}

fn drafter_arch() -> Gemma4DrafterArch {
    Gemma4DrafterArch {
        hidden_size: 8,
        intermediate_size: 16,
        num_hidden_layers: 2,
        num_attention_heads: 2,
        num_key_value_heads: 1,
        head_dim_sliding: 32,
        head_dim_global: 64,
        vocab_size: 100,
        max_position_embeddings: 100,
        sliding_window: 16,
        rms_norm_eps_bits: 1e-6f32.to_bits(),
        layer_types: vec![DrafterLayerType::Sliding, DrafterLayerType::Full],
        num_centroids: 4,
        centroid_intermediate_top_k: 2,
        backbone_hidden_size: 16,
        pre_projection_in_dim: 32,
        use_ordered_embeddings: false,
    }
}

fn drafter() -> Gemma4DrafterRuntime {
    let lo = |head_dim: usize, layer_type: DrafterLayerType| Gemma4DrafterLayerOffsets {
        input_layernorm: 0,
        post_attention_layernorm: 0,
        pre_feedforward_layernorm: 0,
        post_feedforward_layernorm: 0,
        layer_scalar: 0,
        mlp_gate_proj: 0,
        mlp_up_proj: 0,
        mlp_down_proj: 0,
        self_attn_q_proj: 0,
        self_attn_q_norm: 0,
        self_attn_o_proj: 0,
        effective_head_dim: head_dim,
        layer_type,
    };
    let layout = Gemma4DrafterWeightLayout {
        arch: drafter_arch(),
        shard_path: "s".into(),
        top: Gemma4DrafterTopOffsets {
            centroids: None,
            token_ordering: None,
            embed_tokens: 0,
            pre_projection: 0,
            post_projection: 0,
            final_norm: 0,
        },
        layers: vec![lo(32, DrafterLayerType::Sliding), lo(64, DrafterLayerType::Full)],
    };
    let mut d = Gemma4DrafterRuntime::load_mock(&layout);
    d.top.embed_tokens = 70_001;
    d.top.pre_projection = 70_002;
    d.top.post_projection = 70_003;
    d.top.final_norm = 70_004;
    for (i, l) in d.layers.iter_mut().enumerate() {
        let at = 71_000 + 100 * i as u64;
        l.input_layernorm = at;
        l.post_attention_layernorm = at + 1;
        l.pre_feedforward_layernorm = at + 2;
        l.post_feedforward_layernorm = at + 3;
        l.layer_scalar = at + 4;
        l.mlp_gate_proj = at + 5;
        l.mlp_up_proj = at + 6;
        l.mlp_down_proj = at + 7;
        l.self_attn_q_proj = at + 8;
        l.self_attn_q_norm = at + 9;
        l.self_attn_o_proj = at + 10;
    }
    d
}

fn base() -> Gemma4Nvfp4Bringup {
    Gemma4Nvfp4Bringup {
        arch: arch(),
        model: Gemma4Nvfp4LoadedModel {
            outside: Gemma4Nvfp4OutsideText { embed_tokens: half(9000), final_norm: half(9001) },
            layers: vec![],
        },
        tables: ForwardTables {
            lm_head_tokens: 9100,
            rope_cos_sliding: 9200,
            rope_sin_sliding: 9201,
            rope_cos_global: 9202,
            rope_sin_global: 9203,
        },
        forward_checkpoint: 0,
        kv_state_allocated: true,
        drafter: None,
        base_last_hidden_ptr: 0,
    }
}

fn cache() -> Gemma4Nvfp4KvState {
    let ptrs: Vec<u64> = (0..13).map(|i| 100_000 * (i + 1)).collect();
    Gemma4Nvfp4KvState::from_regions(&arch(), 40, 8, &ptrs)
}

fn workspace(d: &Gemma4DrafterRuntime) -> DrafterStepWorkspace {
    let ptrs: Vec<u64> = (0..16).map(|i| 50_000_000 + 100_000 * i).collect();
    d.workspace_from_regions(&ptrs)
}

#[test]
fn the_base_cache_as_the_drafter_sees_it() {
    let b = base();
    let kv = cache();
    let v = b.drafter_base_kv_view(&kv, 1).unwrap();
    assert_eq!(v.k_cache, 1_000_000);
    assert_eq!(v.v_scale_cache, 1_300_000);
    assert_eq!(v.kv_dtype, KvDtype::Nvfp4);
    assert_eq!(v.max_blocks_per_seq, 40);
    assert!(b.drafter_base_kv_view(&kv, 2).is_err());
    let src = Gemma4Nvfp4BaseKvSource { bringup: &b, kv: &kv };
    assert_eq!(src.assistant_shared_kv_sources(), Some((0, 1)));
    let a = src.drafter_base_kv_view(0).unwrap();
    assert_ne!(a.k_cache, v.k_cache);
}

#[test]
fn a_drafter_must_match_its_base() {
    let mut b = base();
    assert!(b.check_drafter(&drafter_arch()).is_ok(), "{:?}", b.check_drafter(&drafter_arch()));
    let mut a = drafter_arch();
    a.backbone_hidden_size = 17;
    assert!(b.check_drafter(&a).unwrap_err().message().contains("17"));
    let mut a = drafter_arch();
    a.vocab_size = 99;
    assert!(b.check_drafter(&a).is_err());
    assert_eq!(b.ensure_drafter_nvfp4().unwrap(), Some((0, 1)));
    b.arch.assistant_shared_kv_sources = None;
    assert!(b.ensure_drafter_nvfp4().is_err());
    b.drafter = Some(drafter());
    assert_eq!(b.ensure_drafter_nvfp4().unwrap(), None);
}

#[test]
fn the_shadow_is_kept_with_the_drafter() {
    let mut b = base();
    let kv = cache();
    let p = b.allocate_drafter_shadow(&kv, (0, 1));
    assert!(p.failure.is_none());
    let sizes: Vec<usize> = p
        .steps
        .iter()
        .filter_map(|s| match s {
            Step::Region { bytes, .. } => Some(*bytes),
            _ => None,
        })
        .collect();
    assert_eq!(sizes, vec![2 * 40 * 64, 2 * 40 * 64, 2 * 40 * 64, 2 * 40 * 64]);
    b.keep_drafter(drafter(), &kv, (0, 1), (1, 2, 3, 4), 99);
    let d = b.drafter.as_ref().unwrap();
    let s = d.shadow_kv.unwrap();
    assert_eq!((s.sliding_k_ptr, s.full_v_ptr), (1, 4));
    assert_eq!(s.sliding_head_dim, 32);
    assert_eq!(s.full_num_kv_heads, 1);
    assert_eq!(b.forward_checkpoint, 99);
}

#[test]
fn the_shadow_is_filled_from_the_cache() {
    let mut b = base();
    let kv = cache();
    assert!(b.populate_drafter_shadow_kv(&kv, 0, 4).failure.is_some(), "no drafter");
    let mut d = drafter();
    d.attach_drafter_dequant_kernels();
    b.keep_drafter(d, &kv, (0, 1), (1 << 30, 2 << 30, 3 << 30, 4 << 30), 99);
    let p = b.populate_drafter_shadow_kv(&kv, 2, 3);
    assert!(p.failure.is_none(), "{:?}", p.failure);
    assert_eq!(p.steps.len(), 4);
    assert!(b.populate_drafter_shadow_kv(&kv, 2, 0).steps.is_empty());
}

#[test]
fn a_drafter_token_takes_every_stage() {
    let b = base();
    let kv = cache();
    let mut d = drafter();
    let w = workspace(&d);
    d.top.pre_projection = 0;
    let stages = b.run_drafter_forward_one_token(&d, &w, 3, &kv);
    assert!(failure(&stages[0]).contains("pre_projection weight is null"));
    d.top.pre_projection = 70_002;
    let stages = b.run_drafter_forward_one_token(&d, &w, 3, &kv);
    assert!(stages.iter().any(|p| p.failure.is_some()), "no shadow yet");
    d.attach_flash_attention_kernel();
    d.attach_flash_attention_bc16_kernel();
    d.attach_masked_embedder_kernel();
    let mut full = base();
    full.keep_drafter(d, &kv, (0, 1), (1 << 30, 2 << 30, 3 << 30, 4 << 30), 0);
    let d = full.drafter.as_ref().unwrap();
    let stages = full.run_drafter_forward_one_token(d, &w, 3, &kv);
    assert_eq!(stages.len(), 1 + 4 * 2 + 1);
    for (i, p) in stages.iter().enumerate() {
        assert!(p.failure.is_none(), "stage {i}: {:?}", p.failure);
    }
}

#[test]
fn the_last_hidden_state_has_a_buffer() {
    let mut b = base();
    assert_eq!(b.base_last_hidden_device_ptr(), 0);
    let p = b.ensure_base_last_hidden_buffer();
    assert!(matches!(p.steps[0], Step::Region { bytes: 32, .. }));
    let d = drafter();
    let w = workspace(&d);
    assert!(b.populate_drafter_pre_projection_input(&w, 5).failure.is_some());
    b.keep_base_last_hidden(4096, 12);
    assert!(b.ensure_base_last_hidden_buffer().steps.is_empty());
    let p = b.populate_drafter_pre_projection_input(&w, 5);
    assert!(p.failure.is_none(), "{:?}", p.failure);
    assert!(p.steps.iter().any(|s| matches!(
        s,
        Step::Copy { src: Buf::At(4096), bytes: 32, .. }
    )));
}

/// What a step reads or writes in buffers of its caller, with its extent in
/// bytes.
fn touched(s: &Step) -> Vec<(Buf, i64)> {
    match *s {
        Step::Copy { dst, src, bytes, .. } => vec![(dst, bytes as i64), (src, bytes as i64)],
        Step::Read { src, bytes, .. } => vec![(src, bytes as i64)],
        Step::HostBits { dst, .. } => vec![(dst, 4)],
        Step::HostRange { dst, count, .. } => vec![(dst, 4 * count as i64)],
        Step::HostPair { dst, .. } => vec![(dst, 8)],
        Step::HostInput { dst, bytes, .. } => vec![(dst, bytes as i64)],
        Step::Embed { num_tokens, hidden, dst, ids, .. } => {
            vec![(dst, 2 * num_tokens as i64 * hidden as i64), (ids, 4 * num_tokens as i64)]
        }
        Step::RmsNorm { rows, width, data, .. } => vec![(data, 2 * rows as i64 * width as i64)],
        Step::Gemm { act, out, m, n, k, .. } => {
            vec![(act, 2 * m as i64 * k as i64), (out, 4 * m as i64 * n as i64)]
        }
        Step::Bf16ToF16Sat { dst, src, n } => vec![(dst, 2 * n as i64), (src, 2 * n as i64)],
        Step::Softcap { logits, rows, vocab, .. } => {
            vec![(logits, 4 * rows as i64 * vocab as i64)]
        }
        Step::Launch { call, .. } => match call {
            KernelCall::ArgmaxF32 { logits, out, vocab } => {
                vec![(logits, 4 * vocab as i64), (out, 4)]
            }
            KernelCall::CastF32ToF16 { dst, src, n } => {
                vec![(dst, 2 * n as i64), (src, 4 * n as i64)]
            }
            KernelCall::VectorAddF16 { dst, src, n } => {
                vec![(dst, 2 * n as i64), (src, 2 * n as i64)]
            }
            KernelCall::ScaleInplaceF16 { x, n, .. } => vec![(x, 2 * n as i64)],
            KernelCall::RopePartialF16(a) => {
                let q = 2 * a.num_tokens as i64 * a.num_heads as i64 * a.head_dim as i64;
                vec![(Buf::At(a.q_in), q), (Buf::At(a.q_out), q)]
            }
            KernelCall::HalfDecode { args, .. } => {
                let q = 2 * args.num_heads as i64 * args.head_dim as i64;
                vec![(Buf::At(args.output), q), (Buf::At(args.query), q)]
            }
            _ => vec![],
        },
        _ => vec![],
    }
}

/// Every access starts in one of the buffers and ends there too.
fn assert_within(p: &Program, buffers: &[(u64, usize)]) {
    for s in &p.steps {
        for (b, n) in touched(s) {
            if let Buf::At(at) = b {
                let (base, len) = buffers
                    .iter()
                    .find(|(base, len)| *base <= at && at < base + *len as u64)
                    .unwrap_or_else(|| panic!("{s:?}"));
                assert!(at as i64 + n <= *base as i64 + *len as i64, "{s:?}");
            }
        }
    }
}

fn region_sizes(p: &Program) -> Vec<usize> {
    p.steps
        .iter()
        .filter_map(|s| match s {
            Step::Region { bytes, .. } => Some(*bytes),
            _ => None,
        })
        .collect()
}

#[test]
fn a_chunk_stays_within_the_prepared_scratch() {
    let b = bringup();
    let s = scratch(&b);
    let mut st = state();
    st.bf16_residual = true;
    st.layer_dump = true;
    let mut buffers: Vec<(u64, usize)> = region_sizes(&b.prepare_spec_prefill_scratch(8))
        .into_iter()
        .enumerate()
        .map(|(i, n)| (10_000_000 + 100_000 * i as u64, n))
        .collect();
    buffers.push((900_000, 2 * 8 * 16));
    for k in 1..9usize {
        let tokens: Vec<u32> = (0..k as u32).collect();
        let p = b.verify_batched_suffix_k_only(&tokens, 20, 900_000, k, &s, &st);
        assert!(p.failure.is_none());
        assert_within(&p, &buffers);
    }
}

#[test]
fn a_drafted_token_stays_within_its_workspace() {
    let kv = cache();
    let mut d = drafter();
    d.attach_flash_attention_kernel();
    d.attach_flash_attention_bc16_kernel();
    let w = workspace(&d);
    let mut buffers: Vec<(u64, usize)> = region_sizes(&d.alloc_step_workspace())
        .into_iter()
        .enumerate()
        .map(|(i, n)| (50_000_000 + 100_000 * i as u64, n))
        .collect();
    let mut full = base();
    full.keep_drafter(d, &kv, (0, 1), (1 << 30, 2 << 30, 3 << 30, 4 << 30), 0);
    let stages = full.run_drafter_forward_one_token(full.drafter.as_ref().unwrap(), &w, 3, &kv);
    for p in &stages {
        assert!(p.failure.is_none());
        assert_within(p, &buffers);
    }
    full.keep_base_last_hidden(4096, 12);
    buffers.push((4096, 32));
    assert_within(&full.populate_drafter_pre_projection_input(&w, 5), &buffers);
}

#[test]
fn hidden_rows_are_those_of_the_layers() {
    let b = bringup();
    let s = scratch(&b);
    let mut st = state();
    st.bf16_residual = true;
    let p = b.verify_batched_suffix_k_only(&[5, 6, 7], 20, 777, 3, &s, &st);
    let last = p.steps.iter().rposition(|x| matches!(x, Step::LayerForward { .. })).unwrap();
    match p.steps[last + 1] {
        Step::Copy { dst, src, bytes, .. } => {
            assert_eq!((dst, src), (Buf::At(777), Buf::At(s.residual)));
            assert_eq!(bytes, 2 * 3 * 16);
        }
        ref other => panic!("{other:?}"),
    }
    for x in &p.steps[last + 2..] {
        assert!(!format!("{x:?}").contains("At(777)"), "{x:?}");
    }
    match p.steps[last + 2] {
        Step::RmsNorm { data, .. } => assert_eq!(data, Buf::At(s.residual)),
        ref other => panic!("{other:?}"),
    }
}

#[test]
fn cache_and_drafter_are_taken_up_once() {
    let mut b = base();
    b.kv_state_allocated = false;
    assert!(b.allocate_kv_state_with_chunk(40, 0).failure.is_some());
    assert!(b.allocate_kv_state_with_chunk(40, 8).failure.is_none());
    b.keep_kv_state(9);
    for (max_pos, tokens) in [(40, 8), (40, 0), (1, 1)] {
        let p = b.allocate_kv_state_with_chunk(max_pos, tokens);
        assert!(failure(&p).contains("called twice") && p.steps.is_empty());
    }
    assert_eq!(b.forward_checkpoint, 9);
    assert_eq!(b.ensure_drafter_nvfp4().unwrap(), Some((0, 1)));
    let kv = cache();
    b.keep_drafter(drafter(), &kv, (0, 1), (1 << 30, 2 << 30, 3 << 30, 4 << 30), 11);
    assert_eq!(b.ensure_drafter_nvfp4().unwrap(), None);
    b.keep_base_last_hidden(4096, 12);
    assert_eq!(b.ensure_drafter_nvfp4().unwrap(), None);
    let d = b.drafter.as_ref().unwrap();
    let shadow = d.shadow_kv.as_ref().unwrap();
    assert_eq!(shadow.block_size, kv.block_size);
    assert_eq!((shadow.num_blocks_total, shadow.max_blocks_per_seq), (kv.max_pos, kv.max_pos));
    assert!(d.kernels.flash_attention && d.kernels.dequant_nvfp4);
}

#[test]
fn addresses_of_a_chunk_are_checked() {
    let b = bringup();
    let s = scratch(&b);
    assert!(b.check_reaches(8, 20, &s, &state()));
    assert!(!b.check_reaches(8, i32::MAX as u32, &s, &state()), "positions");
    let none = SpecState { prefix_cache: None, ..state() };
    assert!(b.check_reaches(8, 20, &s, &none));
    let far = SpecPrefillScratch { logits_f32: u64::MAX - 3200, ..s };
    assert!(b.check_reaches(8, 20, &far, &state()));
    let far = SpecPrefillScratch { logits_f32: u64::MAX - 3199, ..s };
    assert!(!b.check_reaches(8, 20, &far, &state()));
    let far = SpecPrefillScratch { qkv_out: u64::MAX, ..s };
    assert!(!b.check_reaches(8, 20, &far, &state()));
    let mut t = state();
    t.kv_dtypes.pop();
    assert!(!b.check_reaches(8, 20, &s, &t), "a layer without a format");
    let mut t = state();
    t.prefix_cache.as_mut().unwrap().kv_layer_offsets[1] = u64::MAX - 1_000_000;
    assert!(!b.check_reaches(8, 20, &s, &t), "the cache of a layer");
    let mut t = state();
    t.hadamard = Some(HadamardSigns { base_ptr: u64::MAX, head_dim: 64 });
    assert!(b.check_reaches(8, 20, &s, &t), "only the second layer is past the signs");
    t.kv_dtypes[1] = KvDtype::Nvfp4;
    assert!(!b.check_reaches(8, 20, &s, &t));
    let mut t = state();
    t.shadow = Some(ShadowCache {
        shadow_ptr: u64::MAX - 100,
        layer_offsets: vec![u64::MAX, 0],
        shadow_q_throwaway_ptr: 0,
    });
    assert!(b.check_reaches(8, 20, &s, &t), "no copy of the first layer");
    t.shadow.as_mut().unwrap().layer_offsets[0] = 0;
    assert!(!b.check_reaches(8, 20, &s, &t));
}

#[test]
fn sizes_of_a_scratch_are_checked() {
    assert!(check_scratch(&arch(), 8));
    let mut a = arch();
    a.vocab_size = 0x800_0000;
    assert!(!check_scratch(&a, 8) && check_scratch(&a, 7));
    let mut a = arch();
    a.num_kv_heads_global = 1 << 27;
    assert!(!check_scratch(&a, 1), "keys");
    let mut a = arch();
    a.layer_types.pop();
    assert!(!check_scratch(&a, 1));
}

#[test]
fn sizes_of_a_shadow_are_checked() {
    let b = base();
    let kv = cache();
    let d = drafter();
    assert!(b.check_shadow(&kv, 0) && b.check_shadow(&kv, 1) && !b.check_shadow(&kv, 2));
    assert!(b.check_drafter_fits(&d, &kv, (0, 1)));
    let mut full = drafter();
    full.bytes_resident = usize::MAX;
    assert!(!b.check_drafter_fits(&full, &kv, (0, 1)));
    let mut wide = base();
    wide.arch.head_dim_global = 1 << 31;
    wide.arch.num_kv_heads_global = 1 << 31;
    assert!(wide.check_shadow(&kv, 0) && !wide.check_shadow(&kv, 1));
    let mut b = base();
    b.keep_drafter(drafter(), &kv, (0, 1), (1_000, 2_000, 3_000, 4_000), 5);
    let d = b.drafter.as_ref().unwrap();
    assert!(d.check_fits());
    assert!(b.check_range(d, &kv, 3, 4) && b.check_range(d, &kv, 0, u32::MAX));
    let mut short = cache();
    short.v_scale_layer_ptrs.pop();
    assert!(!b.check_range(d, &short, 3, 4));
    let mut far = cache();
    far.k_packed_layer_ptrs[1] = u64::MAX;
    assert!(!b.check_range(d, &far, 3, 4));
    assert!(b.check_range(d, &far, 40, 4), "past the last slot there is nothing to fill");
    let mut d = drafter();
    d.arch.num_attention_heads = 1 << 26;
    assert!(!d.check_fits(), "rows of the global layer");
}
