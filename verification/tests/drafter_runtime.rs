//! The drafter on the device.

use rvllm::loader::gemma4_drafter::{
    DrafterLayerType, Gemma4DrafterArch, Gemma4DrafterLayerOffsets, Gemma4DrafterTopOffsets,
    Gemma4DrafterWeightLayout,
};
use rvllm::runtime::error::RuntimeError;
use rvllm::runtime::gemma4_audio_forward::{forward_gemma_audio, forward_gemma_audio_mock, Gemma4AudioDeps};
use rvllm::runtime::gemma4_drafter::cross_attn::{
    launch_masked_embedder_argmax_f16, CrossAttnBuffers,
};
use rvllm::runtime::gemma4_drafter::load::{bf16_to_f16_bytes, check_loadable, LoadKind};
use rvllm::runtime::gemma4_drafter::shadow::{Slots, SourceLayer};
use rvllm::runtime::gemma4_drafter::workspace::{check_workspace, DrafterStepWorkspace};
use rvllm::runtime::gemma4_drafter::{
    validate_ptr, DrafterBaseKvView, DrafterForwardStep, DrafterShadowKv, Gemma4DrafterRuntime,
    KvDtype,
};
use rvllm::runtime::step::{Buf, DecodeKernel, KernelCall, MaskedEmbedderArgs, Program, Step};

fn arch() -> Gemma4DrafterArch {
    Gemma4DrafterArch {
        hidden_size: 8,
        intermediate_size: 16,
        num_hidden_layers: 2,
        num_attention_heads: 2,
        num_key_value_heads: 1,
        head_dim_sliding: 4,
        head_dim_global: 8,
        vocab_size: 12,
        max_position_embeddings: 100,
        sliding_window: 16,
        rms_norm_eps_bits: 1e-6f32.to_bits(),
        layer_types: vec![DrafterLayerType::Sliding, DrafterLayerType::Full],
        num_centroids: 4,
        centroid_intermediate_top_k: 2,
        backbone_hidden_size: 10,
        pre_projection_in_dim: 20,
        use_ordered_embeddings: true,
    }
}

fn layer_offsets(at: u64, head_dim: usize, layer_type: DrafterLayerType) -> Gemma4DrafterLayerOffsets {
    Gemma4DrafterLayerOffsets {
        input_layernorm: at,
        post_attention_layernorm: at,
        pre_feedforward_layernorm: at,
        post_feedforward_layernorm: at,
        layer_scalar: at + 2,
        mlp_gate_proj: at,
        mlp_up_proj: at,
        mlp_down_proj: at,
        self_attn_q_proj: at,
        self_attn_q_norm: at,
        self_attn_o_proj: at,
        effective_head_dim: head_dim,
        layer_type,
    }
}

fn layout() -> Gemma4DrafterWeightLayout {
    Gemma4DrafterWeightLayout {
        arch: arch(),
        shard_path: "dir/model.safetensors".into(),
        top: Gemma4DrafterTopOffsets {
            centroids: Some(0),
            token_ordering: Some(0),
            embed_tokens: 0,
            pre_projection: 0,
            post_projection: 0,
            final_norm: 0,
        },
        layers: vec![
            layer_offsets(0, 4, DrafterLayerType::Sliding),
            layer_offsets(0, 8, DrafterLayerType::Full),
        ],
    }
}

fn shadow() -> DrafterShadowKv {
    DrafterShadowKv {
        sliding_k_ptr: 10_000,
        sliding_v_ptr: 20_000,
        full_k_ptr: 30_000,
        full_v_ptr: 40_000,
        sliding_layer_bytes: 2 * 10 * 32,
        full_layer_bytes: 2 * 10 * 64,
        block_size: 1,
        num_blocks_total: 10,
        max_blocks_per_seq: 10,
        sliding_num_kv_heads: 2,
        sliding_head_dim: 16,
        full_num_kv_heads: 1,
        full_head_dim: 64,
    }
}

fn ready() -> Gemma4DrafterRuntime {
    let mut d = Gemma4DrafterRuntime::load_mock(&layout());
    d.attach_masked_embedder_kernel();
    d.attach_flash_attention_kernel();
    d.attach_flash_attention_bc16_kernel();
    d.attach_drafter_dequant_kernels();
    d.attach_shadow_kv(shadow());
    d
}

fn source(base: u64, dtype: KvDtype) -> SourceLayer {
    SourceLayer { k: base, v: base + 100_000, k_scale: base + 200_000, v_scale: base + 300_000, dtype }
}

fn failure(p: &Program) -> String {
    p.failure.expect("a report").message()
}

#[test]
fn mock_has_the_right_shape() {
    let d = Gemma4DrafterRuntime::load_mock(&layout());
    assert_eq!(d.layers.len(), 2);
    assert_eq!(d.layers[1].effective_head_dim, 8);
    assert_eq!(d.layers[0].layer_scalar_bits, 1.0f32.to_bits());
    assert_eq!(d.bytes_resident, 0);
    assert!(d.shadow_kv.is_none());
    assert_eq!(d.shard_path, "dir/model.safetensors");
    assert!(!d.kernels.dequant_fp8);
    let d = ready();
    assert!(d.kernels.dequant_fp8 && d.kernels.dequant_nvfp4 && d.kernels.masked_embedder);
    assert_eq!(d.bytes_resident, 2 * (640 + 1280));
}

#[test]
fn load_plan_covers_the_shard() {
    let l = layout();
    let file = vec![0x80u8, 0x3f, 0x00, 0x40].repeat(200);
    let plan = Gemma4DrafterRuntime::load(&l, file.len());
    assert!(plan.failure.is_none(), "{:?}", plan.failure);
    assert_eq!(plan.items.len(), 6 + 12 * 2);
    assert_eq!(plan.items[0].bytes, 2 * 4 * 8);
    assert_eq!(plan.items[1].kind, LoadKind::WideInts);
    assert_eq!(plan.items[1].bytes, 8 * 12);
    assert_eq!(plan.items[6].kind, LoadKind::Scalar);
    let ptrs: Vec<u64> = (1..=30).collect();
    let d = Gemma4DrafterRuntime::from_uploads(&l, &file, &ptrs);
    assert_eq!(d.top.centroids, Some(1));
    assert_eq!(d.top.final_norm, 6);
    assert_eq!(f32::from_bits(d.layers[0].layer_scalar_bits), 2.0);
    assert!(d.bytes_resident > 0);
    let half = plan.items[5].device_bytes(&file);
    assert_eq!(half.len(), plan.items[5].bytes);
    assert_eq!(&half[..4], &[0x00, 0x3c, 0x00, 0x40]);
    assert_eq!(bf16_to_f16_bytes(&[0x80, 0x3f, 0x00]), vec![0x00, 0x3c]);
    let short = Gemma4DrafterRuntime::load(&l, 10);
    let report = short.failure.expect("a report");
    assert_eq!(report.path, l.shard_path);
    assert!(format!("{:?}", report.error).contains("masked_embedding.centroids.weight"));
    assert!(short.items.is_empty());
}

#[test]
fn workspace_sizes() {
    let d = Gemma4DrafterRuntime::load_mock(&layout());
    let p = d.alloc_step_workspace();
    let sizes: Vec<usize> = p
        .steps
        .iter()
        .map(|s| match s {
            Step::Region { bytes, .. } => *bytes,
            other => panic!("{other:?}"),
        })
        .collect();
    assert_eq!(
        sizes,
        vec![40, 16, 16, 80, 40, 32, 32, 32, 32, 20, 16, 16, 16, 16, 24, 24]
    );
    let ptrs: Vec<u64> = (1..=16).collect();
    let w = d.workspace_from_regions(&ptrs);
    assert_eq!(w.pre_projection_in, 1);
    assert_eq!(w.sparse_logits, 16);
    assert_eq!(w.bytes, 40 + 16 + 16 + 80 + 40 + 32 * 4 + 20 + 16 + 8 + 8 + 4 + 24 + 24);
    let mut dense = Gemma4DrafterRuntime::load_mock(&layout());
    dense.arch.use_ordered_embeddings = false;
    dense.arch.vocab_size = 1000;
    let p = dense.alloc_step_workspace();
    assert!(matches!(p.steps[3], Step::Region { bytes: 4000, .. }), "{:?}", p.steps[3]);
}

fn view() -> DrafterBaseKvView {
    DrafterBaseKvView {
        k_cache: 1,
        v_cache: 2,
        k_scale_cache: 3,
        v_scale_cache: 4,
        q_scale_cache: 0,
        block_tables: 5,
        context_lens: 6,
        block_size: 1,
        max_blocks_per_seq: 10,
        num_blocks_total: 10,
        kv_dtype: KvDtype::Nvfp4,
    }
}

fn step(embed: u64, hidden: u64) -> DrafterForwardStep {
    DrafterForwardStep {
        base_hidden_last_step: hidden,
        last_token_embed: embed,
        sliding_kv: view(),
        full_kv: view(),
        position: 3,
        out_logits: 1,
        out_hidden: 2,
        out_token_id: 3,
    }
}

fn workspace(first: u64) -> DrafterStepWorkspace {
    let d = Gemma4DrafterRuntime::load_mock(&layout());
    let mut ptrs: Vec<u64> = (1..=16).collect();
    ptrs[0] = first;
    d.workspace_from_regions(&ptrs)
}

#[test]
fn pre_projection_input_is_two_copies() {
    let d = ready();
    let p = d.prepare_pre_projection_input(&step(7, 8), &workspace(1000));
    assert!(p.failure.is_none());
    let text: Vec<String> = p.steps.iter().map(|s| format!("{s:?}")).collect();
    assert_eq!(text.len(), 2);
    assert!(text[0].contains("dst: At(1000)") && text[0].contains("src: At(7)"));
    assert!(text[1].contains("dst: At(1020)") && text[1].contains("src: At(8)"));
    assert!(text[1].contains("bytes: 20"));
    let p = d.prepare_pre_projection_input(&step(0, 0), &workspace(0));
    assert_eq!(failure(&p), "drafter.last_token_embed");
    let p = d.prepare_pre_projection_input(&step(7, 0), &workspace(0));
    assert_eq!(failure(&p), "drafter.base_hidden_last_step");
    let p = d.prepare_pre_projection_input(&step(7, 8), &workspace(0));
    assert_eq!(failure(&p), "drafter.pre_projection_in");
    let p = d.forward_step(step(7, 8), &workspace(1000));
    assert_eq!(p.steps.len(), 2);
    assert!(failure(&p).contains("pending"));
    assert!(validate_ptr("x", 1, 4).is_ok());
    assert!(matches!(
        validate_ptr("x", 0, 4),
        Err(RuntimeError::FeatureNotAvailable { op: "x", .. })
    ));
}

#[test]
fn shadow_of_a_half_precision_cache_is_copied() {
    let d = ready();
    let p = d.populate_shadow_kv_range_from_base(
        source(1_000_000, KvDtype::F16Kv),
        source(2_000_000, KvDtype::F16Kv),
        640,
        1280,
        2,
        3,
    );
    assert!(p.failure.is_none(), "{:?}", p.failure);
    let text: Vec<String> = p.steps.iter().map(|s| format!("{s:?}")).collect();
    assert_eq!(text.len(), 4);
    assert!(text[0].contains("dst: At(10128)") && text[0].contains("src: At(1000128)"));
    assert!(text[0].contains("bytes: 192"));
    assert!(text[3].contains("dst: At(40256)") && text[3].contains("bytes: 384"));
    for (t, buffer) in text.iter().zip(["sliding_k", "sliding_v", "full_k", "full_v"]) {
        assert!(t.contains("drafter_shadow_kv_dtoD") && t.contains(buffer), "{t}");
    }
}

#[test]
fn shadow_of_a_quantized_cache_is_decoded() {
    let d = ready();
    let p = d.populate_shadow_kv_range_from_base(
        source(1_000_000, KvDtype::Nvfp4),
        source(2_000_000, KvDtype::Fp8),
        640,
        1280,
        9,
        5,
    );
    assert!(p.failure.is_none(), "{:?}", p.failure);
    let calls: Vec<KernelCall> = p
        .steps
        .iter()
        .filter_map(|s| match s {
            Step::Launch { call, .. } => Some(*call),
            _ => None,
        })
        .collect();
    assert_eq!(calls.len(), 4);
    match calls[0] {
        KernelCall::DequantNvfp4 { packed, scales, dst, n } => {
            assert_eq!(packed, 1_000_000 + 9 * 32 / 2);
            assert_eq!(scales, 1_200_000 + 9 * 32 / 16);
            assert_eq!(dst, 10_000 + 9 * 32 * 2);
            assert_eq!(n, 32, "only one slot is left");
        }
        other => panic!("{other:?}"),
    }
    match calls[2] {
        KernelCall::DequantFp8 { src, scales, dst, n, .. } => {
            assert_eq!(src, 2_000_000 + 9 * 64);
            assert_eq!(scales, 2_200_000 + 9 * 4);
            assert_eq!(dst, 30_000 + 9 * 64 * 2);
            assert_eq!(n, 64);
        }
        other => panic!("{other:?}"),
    }
}

#[test]
fn shadow_ranges() {
    let d = ready();
    let s = source(1_000_000, KvDtype::F16Kv);
    let none = d.populate_shadow_kv_range_from_base(s, s, 640, 1280, 0, 0);
    assert!(none.failure.is_none() && none.steps.is_empty());
    let all = d.populate_shadow_kv_from_base(s, s, 640, 1280, 0);
    assert_eq!(all.steps.len(), 4);
    assert!(format!("{:?}", all.steps[0]).contains("bytes: 640"));
    let some = d.populate_shadow_kv_from_base(s, s, 640, 1280, 4);
    assert!(format!("{:?}", some.steps[0]).contains("bytes: 256"));
    let p = d.populate_shadow_kv_from_base(s, s, 641, 1280, 4);
    assert!(failure(&p).contains("caller layer-bytes mismatch"));
    let bare = Gemma4DrafterRuntime::load_mock(&layout());
    assert!(failure(&bare.populate_shadow_kv_from_base(s, s, 640, 1280, 4)).contains("not attached"));
    let mut no_kernel = Gemma4DrafterRuntime::load_mock(&layout());
    no_kernel.attach_shadow_kv(shadow());
    let q = source(1_000_000, KvDtype::Nvfp4);
    let p = no_kernel.populate_shadow_kv_from_base(q, q, 640, 1280, 4);
    assert!(failure(&p).contains("NVFP4 dequant kernel not attached"));
    let q = source(1_000_000, KvDtype::Fp8);
    let p = no_kernel.populate_shadow_kv_from_base(q, q, 640, 1280, 4);
    assert!(failure(&p).contains("FP8 dequant kernel not attached"));
}

fn buffers() -> CrossAttnBuffers {
    CrossAttnBuffers { output: 1, query: 2, block_tables: 3, context_lens: 4, scale_bits: 5 }
}

#[test]
fn cross_attention_picks_its_tile() {
    let mut d = Gemma4DrafterRuntime::load_mock(&layout());
    d.attach_shadow_kv(shadow());
    assert!(failure(&d.launch_cross_attn_global(buffers())).contains("neither BC=16 nor BC=32"));
    d.attach_flash_attention_kernel();
    let p = d.launch_cross_attn_global(buffers());
    assert!(p.failure.is_none(), "{:?}", p.failure);
    let kernel = |p: &Program| {
        p.steps
            .iter()
            .find_map(|s| match s {
                Step::Launch { call: KernelCall::HalfDecode { kernel, .. }, shared, .. } => {
                    Some((*kernel, *shared))
                }
                _ => None,
            })
            .unwrap()
    };
    assert_eq!(kernel(&p).1, 8 * 32 * 64 + 4 * 32 + 16);
    assert_eq!(kernel(&p).0, DecodeKernel::Half);
    let mut wide = shadow();
    wide.full_head_dim = 512;
    d.attach_shadow_kv(wide);
    assert!(failure(&d.launch_cross_attn_global(buffers())).contains("smem"));
    d.attach_flash_attention_bc16_kernel();
    let p = d.launch_cross_attn_global(buffers());
    assert!(p.failure.is_none(), "{:?}", p.failure);
    assert_eq!(kernel(&p).0, DecodeKernel::HalfBc16);
    assert_eq!(kernel(&p).1, 8 * 16 * 512 + 4 * 16 + 16);
    wide.full_head_dim = 1024;
    d.attach_shadow_kv(wide);
    assert!(failure(&d.launch_cross_attn_global(buffers())).contains("smem"));
    let p = d.launch_cross_attn_sliding(buffers(), 15);
    assert!(p.failure.is_none());
    assert!(p.steps.iter().any(|s| format!("{s:?}").contains("window_size_left: 15")));
    let bare = Gemma4DrafterRuntime::load_mock(&layout());
    assert!(failure(&bare.launch_cross_attn_sliding(buffers(), 15)).contains("shadow_kv"));
}

#[test]
fn masked_embedder_limits() {
    let a = MaskedEmbedderArgs {
        hidden: 1,
        centroids: 2,
        token_ordering: 3,
        lm_head: 4,
        hidden_size: 256,
        n_centroids: 2048,
        top_k: 32,
        per_centroid: 128,
        vocab: 262144,
        out_token_id: 5,
        out_logit: 6,
        out_sparse_ids: 7,
        out_sparse_logits: 8,
    };
    let s = launch_masked_embedder_argmax_f16(a).unwrap();
    match s {
        Step::Launch { call: KernelCall::MaskedEmbedder(_), shared, .. } => {
            assert_eq!(shared, 256 * 4 + 2048 * 4 + 32 * 4 + 64);
        }
        other => panic!("{other:?}"),
    }
    let e = launch_masked_embedder_argmax_f16(MaskedEmbedderArgs { top_k: 0, ..a }).unwrap_err();
    assert!(e.message().contains("non-positive dimension"));
}

#[test]
fn audio_is_not_there_yet() {
    let deps = Gemma4AudioDeps { hidden_size: 1024, num_attention_heads: 8 };
    assert!(forward_gemma_audio(&deps).is_err());
    assert!(forward_gemma_audio_mock().is_err());
}

/// What the cell at an address is taken from, by the last step that writes it.
fn taken_from(steps: &[Step], x: u64) -> Option<(u64, u64)> {
    let place = |dst: u64, n: u64| {
        if dst <= x && x < dst + 2 * n && (x - dst) % 2 == 0 { Some((x - dst) / 2) } else { None }
    };
    steps.iter().rev().find_map(|s| match *s {
        Step::Copy { dst: Buf::At(dst), src: Buf::At(src), bytes, .. } => {
            place(dst, bytes as u64 / 2).map(|j| (src + 2 * j, 0))
        }
        Step::Launch { call: KernelCall::DequantFp8 { src, scales, dst, head_dim, n, .. }, .. } => {
            place(dst, n as u64).map(|j| (src + j, scales + 4 * (j / head_dim as u64)))
        }
        Step::Launch { call: KernelCall::DequantNvfp4 { packed, scales, dst, n }, .. } => {
            place(dst, n as u64).map(|j| (2 * packed + j, scales + j / 16))
        }
        _ => None,
    })
}

#[test]
fn adjacent_ranges_fill_as_one() {
    let d = ready();
    for (a, b) in [
        (KvDtype::F16Kv, KvDtype::Fp8),
        (KvDtype::Fp8, KvDtype::Nvfp4),
        (KvDtype::Nvfp4, KvDtype::F16Kv),
    ] {
        let (s, f) = (source(1_000_000, a), source(2_000_000, b));
        let fill = |start, count| {
            let p = d.populate_shadow_kv_range_from_base(s, f, 640, 1280, start, count);
            assert!(p.failure.is_none());
            p.steps
        };
        let mut two = fill(2, 3);
        two.extend(fill(5, 4));
        let one = fill(2, 7);
        let mut filled = 0;
        for x in 9_990..45_000 {
            assert_eq!(taken_from(&two, x), taken_from(&one, x), "{x}");
            filled += taken_from(&one, x).is_some() as usize;
        }
        assert_eq!(filled, 2 * 7 * (32 + 64));
    }
}

#[test]
fn first_slots_are_a_range() {
    let d = ready();
    let s = source(1_000_000, KvDtype::Nvfp4);
    let first = d.populate_shadow_kv_from_base(s, s, 640, 1280, 4);
    let range = d.populate_shadow_kv_range_from_base(s, s, 640, 1280, 0, 4);
    assert_eq!(format!("{first:?}"), format!("{range:?}"));
    let all = d.populate_shadow_kv_from_base(s, s, 640, 1280, 0).steps;
    for (base, bytes) in [(10_000, 640), (20_000, 640), (30_000, 1280), (40_000, 1280)] {
        for x in (base..base + bytes).step_by(2) {
            assert!(taken_from(&all, x).is_some());
        }
    }
}

#[test]
fn sizes_of_a_drafter_are_checked() {
    assert!(check_loadable(&layout()));
    let mut l = layout();
    l.layers[1].self_attn_o_proj = u64::MAX - 255;
    assert!(!check_loadable(&l), "a tensor past the last address");
    l.layers[1].self_attn_o_proj = u64::MAX - 256;
    assert!(check_loadable(&l));
    let mut l = layout();
    l.arch.num_centroids = usize::MAX / 8;
    assert!(!check_loadable(&l));
    l.top.centroids = None;
    l.arch.use_ordered_embeddings = false;
    assert!(check_loadable(&l), "centroids that are not there need no room");
    let mut l = layout();
    l.arch.intermediate_size = usize::MAX / 16;
    assert!(!check_loadable(&l), "three of them");
    let mut l = layout();
    l.layers[0].effective_head_dim = usize::MAX;
    assert!(!check_loadable(&l));

    assert!(check_workspace(&arch()));
    let mut a = arch();
    a.num_centroids = 0;
    assert!(!check_workspace(&a));
    let mut a = arch();
    a.num_attention_heads = usize::MAX / 4;
    assert!(!check_workspace(&a));
    let mut a = arch();
    a.vocab_size = usize::MAX;
    assert!(!check_workspace(&a));
    a.centroid_intermediate_top_k = 0;
    assert!(check_workspace(&a), "with centroids the head has no dense logits");
}

#[test]
fn slots_of_a_shadow_are_checked() {
    let d = ready();
    let far = SourceLayer { v_scale: u64::MAX, ..source(500_000, KvDtype::Nvfp4) };
    let near = source(900_000, KvDtype::Fp8);
    let range = |start: u32, count: u32| Slots::Range { start, count };
    assert!(d.check_slots(near, near, Slots::All) && d.check_slots(near, near, range(3, 2)));
    assert!(d.check_slots(far, near, Slots::All), "the first scale has the last address");
    assert!(!d.check_slots(far, near, range(3, 2)));
    assert!(d.check_slots(far, near, range(10, 2)), "past the last slot nothing is filled");
    let mut bare = ready();
    bare.shadow_kv = None;
    assert!(bare.check_slots(far, far, range(3, 2)));
    let mut narrow = shadow();
    narrow.full_head_dim = 0;
    assert!(!narrow.check_wf() && shadow().check_wf());
    bare.attach_shadow_kv(narrow);
    assert!(!bare.check_slots(near, near, Slots::All));
}
