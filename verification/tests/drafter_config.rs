//! Configuration and weight layout of the drafter.

use rvllm::loader::gemma4_drafter::{
    DrafterLayerType, Gemma4DrafterArch, Gemma4DrafterWeightLayout,
};
use rvllm::tensor::{DType, LoaderError, TensorEntry, TensorMap};

const CONFIG: &str = r#"{
  "architectures": ["Gemma4AssistantForCausalLM"],
  "backbone_hidden_size": 2560,
  "num_centroids": 2048,
  "centroid_intermediate_top_k": 32,
  "use_ordered_embeddings": true,
  "text_config": {
    "hidden_size": 256,
    "intermediate_size": 2048,
    "num_hidden_layers": 4,
    "num_attention_heads": 4,
    "num_key_value_heads": 2,
    "head_dim": 256,
    "global_head_dim": 512,
    "vocab_size": 262144,
    "max_position_embeddings": 131072,
    "sliding_window": 512,
    "rms_norm_eps": 1e-06,
    "layer_types": ["sliding_attention", "sliding_attention", "sliding_attention", "full_attention"]
  }
}"#;

fn parse(s: &str) -> Result<Gemma4DrafterArch, LoaderError> {
    Gemma4DrafterArch::from_config(s.as_bytes()).expect("interpretable")
}

fn detail(e: LoaderError) -> String {
    match e {
        LoaderError::Corrupt { detail } => detail,
        other => panic!("unexpected {other:?}"),
    }
}

#[test]
fn parses_arch() {
    let a = parse(CONFIG).expect("parse arch");
    assert_eq!(a.hidden_size, 256);
    assert_eq!(a.intermediate_size, 2048);
    assert_eq!(a.num_hidden_layers, 4);
    assert_eq!(a.num_attention_heads, 4);
    assert_eq!(a.num_key_value_heads, 2);
    assert_eq!(a.head_dim_sliding, 256);
    assert_eq!(a.head_dim_global, 512);
    assert_eq!(a.vocab_size, 262144);
    assert_eq!(a.num_centroids, 2048);
    assert_eq!(a.centroid_intermediate_top_k, 32);
    assert_eq!(a.backbone_hidden_size, 2560);
    assert_eq!(a.pre_projection_in_dim, 5120);
    assert_eq!(
        a.layer_types,
        vec![
            DrafterLayerType::Sliding,
            DrafterLayerType::Sliding,
            DrafterLayerType::Sliding,
            DrafterLayerType::Full,
        ]
    );
    assert_eq!(a.rms_norm_eps_bits, 1e-6f32.to_bits());
    assert!(a.use_ordered_embeddings);
    assert_eq!(a.max_position_embeddings, 131072);
    assert_eq!(a.sliding_window, 512);
}

#[test]
fn config_errors_name_what_is_wrong() {
    let bad = CONFIG.replace("Gemma4AssistantForCausalLM", "Other");
    let msg = detail(parse(&bad).unwrap_err());
    assert!(msg.contains("Other"), "{msg}");
    let bad = CONFIG.replace("\"hidden_size\": 256,", "");
    let msg = detail(parse(&bad).unwrap_err());
    assert!(msg.contains("hidden_size"), "{msg}");
    let bad = CONFIG.replace("\"num_hidden_layers\": 4", "\"num_hidden_layers\": 5");
    let msg = detail(parse(&bad).unwrap_err());
    assert!(msg.contains('5') && msg.contains('4'), "{msg}");
    let msg = detail(parse("{ not json").unwrap_err());
    assert!(msg.starts_with("config.json: "), "{msg}");
    let bad = CONFIG.replace("text_config", "other_config");
    assert!(parse(&bad).is_err());
}

fn entry(name: &str, dtype: DType, shape: &[usize], at: u64) -> TensorEntry {
    TensorEntry { name: name.into(), dtype, shape: shape.to_vec(), file_offset: at, nbytes: 0 }
}

fn shard(a: &Gemma4DrafterArch) -> TensorMap {
    let mut at = 100u64;
    let mut m = TensorMap::new();
    let mut put = |n: &str, d: DType, s: &[usize]| {
        m.insert(n.into(), entry(n, d, s, at));
        at += 1;
    };
    let h = a.hidden_size;
    put("model.norm.weight", DType::Bf16, &[h]);
    put("post_projection.weight", DType::Bf16, &[a.backbone_hidden_size, h]);
    put("pre_projection.weight", DType::Bf16, &[h, a.pre_projection_in_dim]);
    put("model.embed_tokens.weight", DType::Bf16, &[a.vocab_size, h]);
    put("masked_embedding.centroids.weight", DType::Bf16, &[a.num_centroids, h]);
    put("masked_embedding.token_ordering", DType::I64, &[a.vocab_size]);
    for l in 0..a.num_hidden_layers {
        let d = if l == 3 { 512 } else { 256 };
        let q = a.num_attention_heads * d;
        let p = |s: &str| format!("model.layers.{l}.{s}");
        put(&p("input_layernorm.weight"), DType::Bf16, &[h]);
        put(&p("post_attention_layernorm.weight"), DType::Bf16, &[h]);
        put(&p("pre_feedforward_layernorm.weight"), DType::Bf16, &[h]);
        put(&p("post_feedforward_layernorm.weight"), DType::Bf16, &[h]);
        put(&p("layer_scalar"), DType::Bf16, &[1]);
        put(&p("mlp.gate_proj.weight"), DType::Bf16, &[a.intermediate_size, h]);
        put(&p("mlp.up_proj.weight"), DType::Bf16, &[a.intermediate_size, h]);
        put(&p("mlp.down_proj.weight"), DType::Bf16, &[h, a.intermediate_size]);
        put(&p("self_attn.q_proj.weight"), DType::Bf16, &[q, h]);
        put(&p("self_attn.q_norm.weight"), DType::Bf16, &[d]);
        put(&p("self_attn.o_proj.weight"), DType::Bf16, &[h, q]);
    }
    m
}

#[test]
fn validates_safetensors_layout() {
    let a = parse(CONFIG).unwrap();
    let tensors = shard(&a);
    let layout =
        Gemma4DrafterWeightLayout::from_shard(a, "model.safetensors".into(), &tensors)
            .expect("layout");
    assert_eq!(layout.layers.len(), 4);
    for (i, l) in layout.layers.iter().enumerate() {
        let expected = if i == 3 { 512 } else { 256 };
        assert_eq!(l.effective_head_dim, expected, "layer {i} effective_head_dim");
    }
    assert_eq!(layout.layers[3].layer_type, DrafterLayerType::Full);
    assert_eq!(layout.top.final_norm, 100);
    assert_eq!(layout.top.token_ordering, Some(105));
    assert_eq!(layout.layers[0].input_layernorm, 106);
    assert_eq!(layout.layers[1].self_attn_o_proj, 106 + 11 + 10);
}

#[test]
fn layout_reports_the_first_fault() {
    let a = parse(CONFIG).unwrap();
    let mut tensors = shard(&a);
    tensors.remove("model.layers.2.layer_scalar");
    let name = "model.layers.3.self_attn.q_norm.weight";
    tensors.insert(name.into(), entry(name, DType::Bf16, &[256], 0));
    let err = Gemma4DrafterWeightLayout::from_shard(a, "s".into(), &tensors).unwrap_err();
    assert!(detail(err).contains("model.layers.2.layer_scalar"));
    let a = parse(CONFIG).unwrap();
    let mut tensors = shard(&a);
    tensors.insert(name.into(), entry(name, DType::Bf16, &[256], 0));
    let msg = detail(
        Gemma4DrafterWeightLayout::from_shard(a, "s".into(), &tensors).unwrap_err(),
    );
    assert!(msg.contains(name) && msg.contains("[512]") && msg.contains("[256]"), "{msg}");
    let a = parse(CONFIG).unwrap();
    let mut tensors = shard(&a);
    tensors.insert(name.into(), entry(name, DType::F16, &[512], 0));
    let msg = detail(
        Gemma4DrafterWeightLayout::from_shard(a, "s".into(), &tensors).unwrap_err(),
    );
    assert!(msg.contains(name), "{msg}");
}

#[test]
fn dense_head_needs_no_centroids() {
    let text = CONFIG.replace("\"use_ordered_embeddings\": true", "\"use_ordered_embeddings\": false");
    let a = parse(&text).unwrap();
    assert!(!a.use_ordered_embeddings);
    let mut tensors = shard(&a);
    tensors.remove("masked_embedding.centroids.weight");
    tensors.remove("masked_embedding.token_ordering");
    let layout = Gemma4DrafterWeightLayout::from_shard(a, "s".into(), &tensors).unwrap();
    assert_eq!(layout.top.centroids, None);
    assert_eq!(layout.top.token_ordering, None);
    let a = parse(CONFIG).unwrap();
    assert!(Gemma4DrafterWeightLayout::from_shard(a, "s".into(), &tensors).is_err());
}

#[test]
fn further_tensors_do_not_matter() {
    let a = parse(CONFIG).unwrap();
    let mut tensors = shard(&a);
    tensors.insert("spare".into(), entry("spare", DType::U8, &[3], 9));
    assert!(Gemma4DrafterWeightLayout::from_shard(a, "s".into(), &tensors).is_ok());
}

#[test]
fn non_string_layer_types_are_passed_over() {
    let text = CONFIG.replace(
        "[\"sliding_attention\", \"sliding_attention\"",
        "[\"sliding_attention\", 7, \"sliding_attention\"",
    );
    let a = parse(&text).unwrap();
    assert_eq!(a.layer_types.len(), 4);
}
