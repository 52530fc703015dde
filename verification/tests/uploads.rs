//! What goes to the device when a checkpoint is loaded.

use rvllm::loader::gemma4_arch::{Gemma4Arch, Gemma4LayerType};
use rvllm::loader::qwen35_load::{
    load_qwen35_model, load_qwen35_outside, load_qwen35_vision, model_from_uploads,
    outside_from_uploads, tensor_to_f16_bytes, vision_from_uploads, Conversion, LayerAttnType,
    Source,
};
use rvllm::loader::qwen35_weights::Qwen35LayerAttn;
use rvllm::loader::shards::ShardPool;
use rvllm::runtime::gemma4_nvfp4_load::{
    load_gemma4_nvfp4_text, text_from_uploads, upload_gemma4_nvfp4_linear,
    upload_gemma4_nvfp4_outside_text, upload_typed_tensor,
};
use rvllm::loader::weights::Nvfp4LinearShape;
use rvllm::tensor::{DType, LoaderError, TensorEntry, TensorMap};

struct Shard {
    bytes: Vec<u8>,
    tensors: TensorMap,
}

impl Shard {
    fn new() -> Shard {
        Shard { bytes: vec![0xee; 8], tensors: TensorMap::new() }
    }

    fn put(&mut self, name: &str, dtype: DType, shape: &[usize], data: &[u8]) {
        let entry = TensorEntry {
            name: name.into(),
            dtype,
            shape: shape.to_vec(),
            file_offset: self.bytes.len() as u64,
            nbytes: data.len() as u64,
        };
        self.bytes.extend_from_slice(data);
        self.tensors.insert(name.into(), entry);
    }

    fn fill(&mut self, name: &str, dtype: DType, shape: &[usize], width: usize) {
        let n: usize = shape.iter().product::<usize>() * width;
        self.put(name, dtype, shape, &vec![0u8; n]);
    }
}

fn pool<'a>(bytes: &'a [u8], tensors: TensorMap) -> ShardPool<'a> {
    ShardPool::open(vec![bytes], vec![tensors])
}

fn text(e: Option<LoaderError>) -> String {
    format!("{:?}", e.expect("a report"))
}

#[test]
fn later_shards_take_the_place_of_earlier_ones() {
    let mut a = Shard::new();
    a.put("x", DType::F16, &[1], &[1, 2]);
    a.put("y", DType::F16, &[1], &[3, 4]);
    let mut b = Shard::new();
    b.put("x", DType::F16, &[1], &[5, 6]);
    let pool = ShardPool::open(vec![&a.bytes, &b.bytes], vec![a.tensors, b.tensors]);
    let (si, e) = pool.must_get("x").unwrap();
    assert_eq!(si, 1);
    assert_eq!(pool.bytes_of(si, e), &[5, 6]);
    let (si, e) = pool.must_get("y").unwrap();
    assert_eq!(si, 0);
    assert_eq!(pool.bytes_of(si, e), &[3, 4]);
    assert!(pool.lookup("z").is_none());
    assert!(matches!(pool.must_get("z"), Err(LoaderError::MissingTensor { name }) if name == "z"));
    let merged = pool.merged();
    assert_eq!(merged.len(), 2);
    assert_eq!(merged.get("x").unwrap().file_offset, 8);
}

fn arch(layers: usize) -> Gemma4Arch {
    Gemma4Arch {
        num_hidden_layers: layers,
        hidden_size: 16,
        num_attention_heads: 2,
        head_dim_sliding: 4,
        head_dim_global: 8,
        num_kv_heads_sliding: 1,
        num_kv_heads_global: 1,
        intermediate_size: 32,
        vocab_size: 6,
        rms_norm_eps_bits: 1e-6f32.to_bits(),
        max_position_embeddings: 64,
        sliding_window_size: 16,
        rotary_dim_global: 4,
        logit_softcap_bits: 0,
        layer_types: (0..layers)
            .map(|l| {
                if l % 2 == 1 {
                    Gemma4LayerType::GlobalAttention
                } else {
                    Gemma4LayerType::SlidingAttention
                }
            })
            .collect(),
        weight_prefix: "m".into(),
        hidden_size_per_layer_input: None,
        kv_share_sources: vec![None; layers],
        assistant_shared_kv_sources: None,
    }
}

fn put_linear(s: &mut Shard, base: &str, n: usize, k: usize, global: f32) {
    s.fill(&format!("{base}.weight"), DType::U8, &[n, k / 2], 1);
    s.fill(&format!("{base}.weight_scale"), DType::Fp8E4M3, &[n, k / 16], 1);
    s.put(&format!("{base}.weight_scale_2"), DType::F32, &[], &global.to_le_bytes());
    s.put(&format!("{base}.input_scale"), DType::F32, &[1], &0.5f32.to_le_bytes());
}

fn checkpoint(a: &Gemma4Arch) -> Shard {
    let mut s = Shard::new();
    s.fill("m.embed_tokens.weight", DType::Bf16, &[a.vocab_size, a.hidden_size], 2);
    s.fill("m.norm.weight", DType::Bf16, &[a.hidden_size], 2);
    for l in 0..a.num_hidden_layers {
        let p = |t: &str| format!("m.layers.{l}.{t}");
        for t in [
            "input_layernorm.weight",
            "post_attention_layernorm.weight",
            "pre_feedforward_layernorm.weight",
            "post_feedforward_layernorm.weight",
        ] {
            s.fill(&p(t), DType::Bf16, &[a.hidden_size], 2);
        }
        s.fill(&p("layer_scalar"), DType::Bf16, &[1], 2);
        s.fill(&p("self_attn.q_norm.weight"), DType::Bf16, &[4], 2);
        s.fill(&p("self_attn.k_norm.weight"), DType::Bf16, &[4], 2);
        s.fill(&p("self_attn.q_proj.weight"), DType::Bf16, &[8, a.hidden_size], 2);
        s.fill(&p("self_attn.k_proj.weight"), DType::Bf16, &[4, a.hidden_size], 2);
        if l % 2 == 0 {
            s.fill(&p("self_attn.v_proj.weight"), DType::Bf16, &[4, a.hidden_size], 2);
        }
        s.fill(&p("self_attn.o_proj.weight"), DType::Bf16, &[a.hidden_size, 8], 2);
        put_linear(&mut s, &p("mlp.gate_proj"), a.intermediate_size, a.hidden_size, 4.0);
        put_linear(&mut s, &p("mlp.up_proj"), a.intermediate_size, a.hidden_size, 4.0);
        put_linear(&mut s, &p("mlp.down_proj"), a.hidden_size, a.intermediate_size, 4.0);
    }
    s
}

#[test]
fn a_linear_sends_four_tensors() {
    let mut s = Shard::new();
    put_linear(&mut s, "b", 32, 16, 4.0);
    let bytes = s.bytes.clone();
    let pool = pool(&bytes, s.tensors);
    let plan =
        upload_gemma4_nvfp4_linear(&pool, &"b".to_string(), Nvfp4LinearShape { n: 32, k: 16 });
    assert!(plan.failure.is_none());
    let sizes: Vec<usize> = plan.uploads.iter().map(|u| u.bytes).collect();
    assert_eq!(sizes, vec![256, 32, 4, 4]);
    let inverted: Vec<bool> = plan.uploads.iter().map(|u| u.inverse).collect();
    assert_eq!(inverted, vec![false, false, true, false]);
}

#[test]
fn a_linear_reports_what_is_wrong() {
    let shape = Nvfp4LinearShape { n: 32, k: 16 };
    let base = "b".to_string();
    let mut s = Shard::new();
    put_linear(&mut s, "b", 32, 16, 0.0);
    s.fill("b.weight", DType::U8, &[32, 9], 1);
    let bytes = s.bytes.clone();
    let p = pool(&bytes, s.tensors);
    let msg = text(upload_gemma4_nvfp4_linear(&p, &base, shape).failure);
    assert!(msg.contains("b.weight: expected shape [32, 8], got [32, 9]"), "{msg}");
    let mut s = Shard::new();
    put_linear(&mut s, "b", 32, 16, 0.0);
    s.tensors.remove("b.input_scale");
    let bytes = s.bytes.clone();
    let p = pool(&bytes, s.tensors);
    let plan = upload_gemma4_nvfp4_linear(&p, &base, shape);
    assert!(text(plan.failure).contains("b.input_scale"));
    assert_eq!(plan.uploads.len(), 3);
    assert!(!plan.uploads[2].inverse, "zero has no inverse");
    let mut s = Shard::new();
    put_linear(&mut s, "b", 32, 16, 4.0);
    s.put("b.weight_scale_2", DType::F32, &[2], &[0; 8]);
    let bytes = s.bytes.clone();
    let p = pool(&bytes, s.tensors);
    let msg = text(upload_gemma4_nvfp4_linear(&p, &base, shape).failure);
    assert!(msg.contains("expected scalar shape ([] or [1]), got [2]"), "{msg}");
}

#[test]
fn typed_tensors_are_checked() {
    let mut s = Shard::new();
    s.fill("t", DType::Bf16, &[3, 2], 2);
    s.put("short", DType::Bf16, &[4], &[0; 6]);
    let bytes = s.bytes.clone();
    let p = pool(&bytes, s.tensors);
    let t = "t".to_string();
    let plan = upload_typed_tensor(&p, "r", &t, DType::Bf16, Some(&[3, 2]));
    assert!(plan.failure.is_none());
    assert_eq!(plan.uploads[0].bytes, 12);
    assert_eq!(plan.uploads[0].offset, 8);
    let msg = text(upload_typed_tensor(&p, "r", &t, DType::Bf16, Some(&[6])).failure);
    assert!(msg.contains("t: shape=[3, 2] but loader expected [6]"), "{msg}");
    let msg = text(upload_typed_tensor(&p, "r", &t, DType::F16, None).failure);
    assert!(msg.contains("loader expected"), "{msg}");
    let short = "short".to_string();
    let msg = text(upload_typed_tensor(&p, "r", &short, DType::Bf16, None).failure);
    assert!(msg.contains("short: mmap len=6 but shape=[4] × 2 = 8 bytes"), "{msg}");
    assert!(matches!(
        upload_typed_tensor(&p, "r", &"u".to_string(), DType::Bf16, None).failure,
        Some(LoaderError::MissingTensor { .. })
    ));
}

#[test]
fn text_model_loads_in_order() {
    let a = arch(2);
    let s = checkpoint(&a);
    let bytes = s.bytes.clone();
    let p = pool(&bytes, s.tensors);
    let entries = p.merged();
    let plan = load_gemma4_nvfp4_text(&p, &a, &entries);
    assert!(plan.failure.is_none(), "{:?}", plan.failure);
    assert_eq!(plan.uploads.len(), 2 + (11 + 12) + (10 + 12));
    let ptrs: Vec<u64> = (1000..1000 + plan.uploads.len() as u64).collect();
    let m = text_from_uploads(&p, &a, &ptrs);
    assert_eq!(m.outside.embed_tokens.offset_bytes, 1000);
    assert_eq!(m.outside.final_norm.shape, vec![16]);
    assert_eq!(m.layers.len(), 2);
    assert!(m.layers[0].v_proj.is_some());
    assert!(m.layers[1].v_proj.is_none());
    assert_eq!(m.layers[0].gate_proj.shape, Nvfp4LinearShape { n: 32, k: 16 });
    assert_eq!(m.layers[0].gate_proj.packed_bytes, 256);
    let outside = upload_gemma4_nvfp4_outside_text(&p, &a);
    assert_eq!(outside.uploads.len(), 2);
}

#[test]
fn sliding_layers_need_values() {
    let a = arch(1);
    let mut s = checkpoint(&a);
    s.tensors.remove("m.layers.0.self_attn.v_proj.weight");
    let bytes = s.bytes.clone();
    let p = pool(&bytes, s.tensors);
    let entries = p.merged();
    let msg = text(load_gemma4_nvfp4_text(&p, &a, &entries).failure);
    assert!(msg.contains("v_proj absent on layer 0"), "{msg}");
}

fn put_fp8(s: &mut Shard, name: &str, n: usize, k: usize) {
    s.fill(name, DType::Fp8E4M3, &[n, k], 1);
    s.put(&format!("{name}_scale_inv"), DType::Bf16, &[1], &[0x80, 0x3f]);
}

fn qwen(types: &[LayerAttnType]) -> Shard {
    let mut s = Shard::new();
    s.put("model.language_model.embed_tokens.weight", DType::Bf16, &[2], &[0x80, 0x3f, 0, 0xc0]);
    s.put("model.language_model.norm.weight", DType::F16, &[1], &[0x00, 0x3c]);
    s.put("lm_head.weight", DType::F32, &[1], &0.5f32.to_le_bytes());
    for (l, ty) in types.iter().enumerate() {
        let p = |t: &str| format!("model.language_model.layers.{l}.{t}");
        s.fill(&p("input_layernorm.weight"), DType::Bf16, &[2], 2);
        s.fill(&p("post_attention_layernorm.weight"), DType::Bf16, &[2], 2);
        if *ty == LayerAttnType::Full {
            s.fill(&p("self_attn.q_norm.weight"), DType::Bf16, &[2], 2);
            s.fill(&p("self_attn.k_norm.weight"), DType::Bf16, &[2], 2);
            for t in ["q", "k", "v", "o"] {
                put_fp8(&mut s, &p(&format!("self_attn.{t}_proj.weight")), 130, 128);
            }
        } else {
            for t in ["A_log", "dt_bias", "conv1d.weight", "in_proj_a.weight", "in_proj_b.weight", "norm.weight"] {
                s.fill(&p(&format!("linear_attn.{t}")), DType::F32, &[1], 4);
            }
            for t in ["in_proj_qkv", "in_proj_z", "out_proj"] {
                put_fp8(&mut s, &p(&format!("linear_attn.{t}.weight")), 128, 129);
            }
        }
        for t in ["gate", "up", "down"] {
            put_fp8(&mut s, &p(&format!("mlp.{t}_proj.weight")), 3, 5);
        }
    }
    s
}

fn put_vision(s: &mut Shard) {
    s.fill("model.visual.patch_embed.proj.weight", DType::Bf16, &[4], 2);
    s.fill("model.visual.patch_embed.proj.bias", DType::Bf16, &[1], 2);
    s.fill("model.visual.pos_embed.weight", DType::Bf16, &[1], 2);
    for i in 0..27 {
        for t in ["norm1", "attn.qkv", "attn.proj", "norm2", "mlp.linear_fc1", "mlp.linear_fc2"] {
            s.fill(&format!("model.visual.blocks.{i}.{t}.weight"), DType::Bf16, &[1], 2);
            s.fill(&format!("model.visual.blocks.{i}.{t}.bias"), DType::Bf16, &[1], 2);
        }
    }
    for t in ["norm", "linear_fc1", "linear_fc2"] {
        s.fill(&format!("model.visual.merger.{t}.weight"), DType::Bf16, &[1], 2);
        s.fill(&format!("model.visual.merger.{t}.bias"), DType::Bf16, &[1], 2);
    }
}

#[test]
fn qwen_outside_is_converted() {
    let s = qwen(&[]);
    let bytes = s.bytes.clone();
    let p = pool(&bytes, s.tensors);
    let plan = load_qwen35_outside(&p);
    assert!(plan.failure.is_none());
    assert_eq!(plan.uploads.len(), 5);
    assert_eq!(plan.uploads[0].device_bytes(&p), vec![0x00, 0x3c, 0x00, 0xc0]);
    assert_eq!(plan.uploads[1].device_bytes(&p), vec![0x00, 0x40]);
    assert_eq!(plan.uploads[2].device_bytes(&p), vec![0x00, 0x38]);
    assert_eq!(plan.uploads[3].bytes, 1);
    assert!(matches!(plan.uploads[3].source, Source::QuantizedHead { .. }));
    assert_eq!(plan.uploads[4].source, Source::HeadScale);
    assert!(plan.uploads[4].device_bytes(&p).is_empty());
    let o = outside_from_uploads(&p, &vec![10, 20, 30, 40, 50], 7, 9);
    assert_eq!(o.final_norm.offset_bytes, 20);
    assert_eq!(o.lm_head_fp8.scale_ptr, 50);
    assert_eq!(o.lm_head_fp8.scale_bits, 7);
    assert_eq!(o.embed_tokens_bytes, 4);
    assert_eq!(o.lm_head_bytes, 2);
    assert_eq!(o.lm_head_fp8_bytes, 1);
}

#[test]
fn qwen_model_loads_in_order() {
    let types = [LayerAttnType::Linear, LayerAttnType::Full, LayerAttnType::SlidingAttention];
    let mut s = qwen(&types);
    put_vision(&mut s);
    let bytes = s.bytes.clone();
    let p = pool(&bytes, s.tensors);
    let plan = load_qwen35_model(&p, &types);
    assert!(plan.text.failure.is_none());
    assert_eq!(plan.text.uploads.len(), 5 + 26 + 25 + 26);
    assert!(plan.vision.failure.is_none());
    assert_eq!(plan.vision.uploads.len(), 333);
    let ptrs: Vec<u64> = (0..plan.text.uploads.len() as u64).collect();
    let vptrs: Vec<u64> = (5000..5333).collect();
    let vision = vision_from_uploads(&p, &vptrs);
    assert_eq!(vision.blocks.len(), 27);
    assert_eq!(vision.blocks[26].fc2_b.offset_bytes, 5000 + 3 + 26 * 12 + 11);
    assert_eq!(vision.merger.fc2_b.offset_bytes, 5332);
    let m = model_from_uploads(&p, &types, &ptrs, 1, 2, Some(vision));
    assert!(m.vision.is_some());
    match &m.layers[0].attn {
        Qwen35LayerAttn::Linear(a) => {
            assert_eq!(a.input_layernorm.offset_bytes, 5);
            assert_eq!(a.in_proj_qkv.offset_bytes, 13);
            assert_eq!(a.in_proj_qkv.blockscale_ptr, Some(14));
            assert_eq!(a.in_proj_qkv.scale_ptr, 15);
            assert_eq!(a.in_proj_qkv.blockscale_n_blocks, 1);
            assert_eq!(a.in_proj_qkv.blockscale_k_blocks, 2);
            assert_eq!(f32::from_bits(a.in_proj_qkv.scale_bits), 1.0);
        }
        other => panic!("{other:?}"),
    }
    match &m.layers[1].attn {
        Qwen35LayerAttn::Full(a) => {
            assert_eq!(a.input_layernorm.offset_bytes, 31);
            assert_eq!(a.o_proj.offset_bytes, 31 + 4 + 9);
            assert_eq!(a.q_proj.blockscale_n_blocks, 2);
            assert_eq!(a.q_proj.blockscale_k_blocks, 1);
        }
        other => panic!("{other:?}"),
    }
    assert!(matches!(m.layers[2].attn, Qwen35LayerAttn::Linear(_)));
    assert_eq!(m.layers[2].mlp.down_proj.offset_bytes, 56 + 17 + 6);
}

#[test]
fn qwen_block_scales_widen() {
    let types = [LayerAttnType::Full];
    let s = qwen(&types);
    let bytes = s.bytes.clone();
    let p = pool(&bytes, s.tensors);
    let plan = load_qwen35_model(&p, &types);
    let scales = &plan.text.uploads[5 + 4 + 1];
    assert_eq!(scales.region, "qwen35_fp8_blockscale");
    assert_eq!(scales.bytes, 4);
    assert_eq!(scales.device_bytes(&p), 1.0f32.to_le_bytes().to_vec());
    assert_eq!(plan.text.uploads[5 + 4 + 2].source, Source::One);
}

#[test]
fn qwen_faults() {
    let types = [LayerAttnType::Full];
    let mut s = qwen(&types);
    let k = "model.language_model.layers.0.self_attn.k_proj.weight";
    s.tensors.remove(&format!("{k}_scale_inv"));
    let bytes = s.bytes.clone();
    let p = pool(&bytes, s.tensors);
    let plan = load_qwen35_model(&p, &types);
    assert!(matches!(
        plan.text.failure,
        Some(LoaderError::MissingTensor { ref name }) if *name == format!("{k}_scale_inv")
    ));
    assert_eq!(plan.text.uploads.len(), 5 + 4 + 3 + 1, "the elements went");
    let mut s = qwen(&types);
    s.fill(k, DType::Bf16, &[2, 2], 2);
    let bytes = s.bytes.clone();
    let p = pool(&bytes, s.tensors);
    assert!(matches!(
        load_qwen35_model(&p, &types).text.failure,
        Some(LoaderError::DtypeMismatch { expected: DType::Fp8E4M3, got: DType::Bf16, .. })
    ));
    let mut s = qwen(&types);
    s.fill(&format!("{k}_scale_inv"), DType::F16, &[1], 2);
    let bytes = s.bytes.clone();
    let p = pool(&bytes, s.tensors);
    assert!(matches!(
        load_qwen35_model(&p, &types).text.failure,
        Some(LoaderError::DtypeMismatch { expected: DType::F32, got: DType::F16, .. })
    ));
    let mut s = qwen(&[]);
    s.fill("lm_head.weight", DType::U8, &[2], 1);
    let bytes = s.bytes.clone();
    let p = pool(&bytes, s.tensors);
    let plan = load_qwen35_outside(&p);
    assert_eq!(plan.uploads.len(), 2);
    assert!(matches!(
        plan.failure,
        Some(LoaderError::DtypeMismatch { expected: DType::F16, got: DType::U8, .. })
    ));
}

#[test]
fn qwen_without_vision_is_whole() {
    let s = qwen(&[]);
    let bytes = s.bytes.clone();
    let p = pool(&bytes, s.tensors);
    let plan = load_qwen35_model(&p, &[]);
    assert!(plan.text.failure.is_none());
    assert!(plan.vision.failure.is_some());
    assert!(plan.vision.uploads.is_empty());
    let m = model_from_uploads(&p, &[], &vec![1, 2, 3, 4, 5], 0, 0, None);
    assert!(m.vision.is_none() && m.layers.is_empty());
    let mut s = qwen(&[]);
    put_vision(&mut s);
    s.tensors.remove("model.visual.patch_embed.proj.bias");
    let bytes = s.bytes.clone();
    let p = pool(&bytes, s.tensors);
    assert!(load_qwen35_vision(&p).uploads.is_empty(), "both are looked up first");
}

#[test]
fn half_bytes_of_a_tensor() {
    let entry = |dtype| TensorEntry {
        name: "t".into(),
        dtype,
        shape: vec![1],
        file_offset: 0,
        nbytes: 4,
    };
    let one = 1.0f32.to_le_bytes();
    assert_eq!(tensor_to_f16_bytes(&entry(DType::F32), &one).unwrap(), vec![0, 0x3c]);
    assert_eq!(tensor_to_f16_bytes(&entry(DType::F16), &one).unwrap(), one.to_vec());
    assert_eq!(
        tensor_to_f16_bytes(&entry(DType::Bf16), &one).unwrap(),
        vec![0, 0, 0, 0x3c]
    );
    assert!(tensor_to_f16_bytes(&entry(DType::I64), &one).is_err());
    assert_ne!(Conversion::AsIs, Conversion::Bf16ToSingle);
}

#[test]
fn bytes_of_a_linear_follow_its_shape() {
    let shape = Nvfp4LinearShape { n: 1, k: 16 };
    let base = String::from("l");
    let plan = |weight: usize, scale: usize| {
        let mut s = Shard::new();
        s.put("l.weight", DType::U8, &[1, 8], &vec![0; weight]);
        s.put("l.weight_scale", DType::Fp8E4M3, &[1, 1], &vec![0; scale]);
        s.put("l.weight_scale_2", DType::F32, &[], &2.0f32.to_le_bytes());
        s.put("l.input_scale", DType::F32, &[1], &0.5f32.to_le_bytes());
        let p = upload_gemma4_nvfp4_linear(&pool(&s.bytes, s.tensors), &base, shape);
        (p.uploads.iter().map(|u| u.bytes).collect::<Vec<_>>(), p.failure)
    };
    let (sent, failure) = plan(8, 1);
    assert_eq!(sent, vec![8, 1, 4, 4]);
    assert!(failure.is_none());
    let (sent, failure) = plan(4, 1);
    assert!(sent.is_empty());
    assert_eq!(text(failure), "Corrupt { detail: \"l.weight: expected 8 bytes, got 4\" }");
    let (sent, failure) = plan(8, 2);
    assert_eq!(sent, vec![8]);
    assert_eq!(text(failure), "Corrupt { detail: \"l.weight_scale: expected 1 bytes, got 2\" }");
}
