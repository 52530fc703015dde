//! The inventory of an NVFP4 checkpoint.

use rvllm::loader::gemma4_arch::{Gemma4Arch, Gemma4LayerType};
use rvllm::loader::gemma4_nvfp4_weights::{
    validate_gemma4_nvfp4_inventory, Gemma4Nvfp4LayerLoaded, Gemma4Nvfp4LinearLoaded,
    Gemma4Nvfp4MlpKind,
};
use rvllm::loader::weights::{F16Weight, Nvfp4LinearShape};
use rvllm::runtime::gemma4_nvfp4_bring_up::kv_state::{identity_block_table, Gemma4Nvfp4KvState};
use rvllm::tensor::{DType, LoaderError, TensorEntry, TensorMap};

fn arch_fixture(num_layers: usize) -> Gemma4Arch {
    let mut layer_types = Vec::with_capacity(num_layers);
    for i in 0..num_layers {
        layer_types.push(if (i + 1) % 6 == 0 {
            Gemma4LayerType::GlobalAttention
        } else {
            Gemma4LayerType::SlidingAttention
        });
    }
    Gemma4Arch {
        num_hidden_layers: num_layers,
        hidden_size: 5376,
        num_attention_heads: 32,
        head_dim_sliding: 256,
        head_dim_global: 512,
        num_kv_heads_sliding: 16,
        num_kv_heads_global: 4,
        intermediate_size: 21504,
        vocab_size: 262144,
        rms_norm_eps_bits: 1e-6f32.to_bits(),
        max_position_embeddings: 8192,
        sliding_window_size: 512,
        rotary_dim_global: 512,
        logit_softcap_bits: 0.0f32.to_bits(),
        layer_types,
        weight_prefix: "model.language_model".into(),
        hidden_size_per_layer_input: None,
        kv_share_sources: vec![None; num_layers],
        assistant_shared_kv_sources: None,
    }
}

fn fake_entry(name: &str, dtype: DType, shape: &[usize]) -> TensorEntry {
    TensorEntry { name: name.into(), dtype, shape: shape.to_vec(), file_offset: 0, nbytes: 0 }
}

fn populate_mlp_layers(tensors: &mut TensorMap, arch: &Gemma4Arch) {
    let prefix = &arch.weight_prefix;
    for layer_idx in 0..arch.num_hidden_layers {
        for kind in Gemma4Nvfp4MlpKind::ALL {
            let shape = kind.shape_for(arch);
            let base = format!("{prefix}.layers.{layer_idx}.{}", kind.name());
            tensors.insert(
                format!("{base}.weight"),
                fake_entry(&format!("{base}.weight"), DType::U8, &[shape.n, shape.packed_cols()]),
            );
            tensors.insert(
                format!("{base}.weight_scale"),
                fake_entry(
                    &format!("{base}.weight_scale"),
                    DType::Fp8E4M3,
                    &[shape.n, shape.scale_cols()],
                ),
            );
            tensors.insert(
                format!("{base}.weight_scale_2"),
                fake_entry(&format!("{base}.weight_scale_2"), DType::F32, &[]),
            );
            tensors.insert(
                format!("{base}.input_scale"),
                fake_entry(&format!("{base}.input_scale"), DType::F32, &[]),
            );
        }
    }
}

fn populate_attn_bf16(tensors: &mut TensorMap, arch: &Gemma4Arch) {
    let prefix = &arch.weight_prefix;
    for layer_idx in 0..arch.num_hidden_layers {
        for name in ["q_proj", "k_proj", "v_proj", "o_proj"] {
            let key = format!("{prefix}.layers.{layer_idx}.self_attn.{name}.weight");
            tensors.insert(key.clone(), fake_entry(&key, DType::Bf16, &[1, 1]));
        }
    }
}

#[test]
fn shape_helpers_match_31b_spec() {
    let arch = arch_fixture(60);
    let g = Gemma4Nvfp4MlpKind::GateProj.shape_for(&arch);
    assert_eq!(g, Nvfp4LinearShape { n: 21504, k: 5376 });
    assert_eq!(g.packed_cols(), 2688);
    assert_eq!(g.scale_cols(), 336);
    let d = Gemma4Nvfp4MlpKind::DownProj.shape_for(&arch);
    assert_eq!(d, Nvfp4LinearShape { n: 5376, k: 21504 });
    assert_eq!(d.packed_cols(), 10752);
    assert_eq!(d.scale_cols(), 1344);
}

#[test]
fn full_60_layer_inventory_validates() {
    let arch = arch_fixture(60);
    let mut tensors = TensorMap::new();
    populate_mlp_layers(&mut tensors, &arch);
    populate_attn_bf16(&mut tensors, &arch);
    let inv = validate_gemma4_nvfp4_inventory(&arch, &arch.weight_prefix.clone(), &tensors)
        .expect("valid");
    assert_eq!(inv.num_layers, 60);
    assert_eq!(inv.layers.len(), 60);
    assert_eq!(inv.counts.weight, 60 * 3);
    assert_eq!(inv.counts.weight_scale, 60 * 3);
    assert_eq!(inv.counts.weight_scale_2, 60 * 3);
    assert_eq!(inv.counts.input_scale, 60 * 3);
    assert_eq!(inv.counts.attn_bf16, 60 * 4);
}

#[test]
fn missing_weight_tensor_reports_named_error() {
    let arch = arch_fixture(2);
    let mut tensors = TensorMap::new();
    populate_mlp_layers(&mut tensors, &arch);
    let key = format!(
        "{}.layers.1.{}.weight",
        arch.weight_prefix,
        Gemma4Nvfp4MlpKind::GateProj.name()
    );
    tensors.remove(&key);
    let err = validate_gemma4_nvfp4_inventory(&arch, &arch.weight_prefix.clone(), &tensors)
        .unwrap_err();
    let msg = format!("{err:?}");
    assert!(msg.contains("weight"));
    assert!(msg.contains("layers.1"));
}

#[test]
fn quantized_attention_is_rejected() {
    let arch = arch_fixture(1);
    let mut tensors = TensorMap::new();
    populate_mlp_layers(&mut tensors, &arch);
    let key = format!("{}.layers.0.self_attn.q_proj.weight", arch.weight_prefix);
    tensors.insert(key, fake_entry("q_proj.weight", DType::U8, &[1, 1]));
    let err = validate_gemma4_nvfp4_inventory(&arch, &arch.weight_prefix.clone(), &tensors)
        .unwrap_err();
    let msg = format!("{err:?}");
    assert!(msg.contains("self_attn"));
    assert!(msg.contains("must stay unquantized"));
}

#[test]
fn scalar_shape_accepts_empty_or_one() {
    let arch = arch_fixture(1);
    let mut tensors = TensorMap::new();
    populate_mlp_layers(&mut tensors, &arch);
    let key = format!(
        "{}.layers.0.{}.weight_scale_2",
        arch.weight_prefix,
        Gemma4Nvfp4MlpKind::GateProj.name()
    );
    tensors.insert(key.clone(), fake_entry(&key, DType::F32, &[1]));
    populate_attn_bf16(&mut tensors, &arch);
    validate_gemma4_nvfp4_inventory(&arch, &arch.weight_prefix.clone(), &tensors)
        .expect("scalar [1] accepted same as []");
}

#[test]
fn inventory_rejects_wrong_shape_and_type() {
    let arch = arch_fixture(1);
    let name = "model.language_model.layers.0.mlp.up_proj.weight";
    let mut tensors = TensorMap::new();
    populate_mlp_layers(&mut tensors, &arch);
    tensors.insert(name.into(), fake_entry(name, DType::U8, &[21504, 2687]));
    let err = validate_gemma4_nvfp4_inventory(&arch, "model.language_model", &tensors).unwrap_err();
    assert!(format!("{err:?}").contains("2687"));
    tensors.insert(name.into(), fake_entry(name, DType::Bf16, &[21504, 2688]));
    let err = validate_gemma4_nvfp4_inventory(&arch, "model.language_model", &tensors).unwrap_err();
    assert!(matches!(
        err,
        LoaderError::Corrupt { .. } | LoaderError::DtypeMismatch { .. }
    ));
    let scale = "model.language_model.layers.0.mlp.down_proj.input_scale";
    tensors.insert(name.into(), fake_entry(name, DType::U8, &[21504, 2688]));
    tensors.insert(scale.into(), fake_entry(scale, DType::F32, &[2]));
    assert!(validate_gemma4_nvfp4_inventory(&arch, "model.language_model", &tensors).is_err());
    tensors.insert(scale.into(), fake_entry(scale, DType::F32, &[1]));
    assert!(validate_gemma4_nvfp4_inventory(&arch, "model.language_model", &tensors).is_ok());
}

#[test]
fn inventory_of_no_layers_is_empty() {
    let arch = arch_fixture(0);
    let tensors = TensorMap::new();
    let inv = validate_gemma4_nvfp4_inventory(&arch, "p", &tensors).unwrap();
    assert_eq!(inv.num_layers, 0);
    assert_eq!(inv.counts.attn_bf16, 0);
    assert_eq!(inv.weight_prefix, "p");
}

#[test]
fn kind_names_and_order() {
    assert_eq!(Gemma4Nvfp4MlpKind::GateProj.name(), "mlp.gate_proj");
    assert_eq!(Gemma4Nvfp4MlpKind::UpProj.name(), "mlp.up_proj");
    assert_eq!(Gemma4Nvfp4MlpKind::DownProj.name(), "mlp.down_proj");
    assert_eq!(Gemma4Nvfp4MlpKind::ALL[2], Gemma4Nvfp4MlpKind::DownProj);
}

fn linear(ptr: u64) -> Gemma4Nvfp4LinearLoaded {
    Gemma4Nvfp4LinearLoaded {
        shape: Nvfp4LinearShape { n: 32, k: 16 },
        packed_ptr: ptr,
        sfb_natural_ptr: 0,
        sfb_cutlass_ptr: 0,
        global_scale_ptr: 0,
        input_scale_ptr: 0,
        packed_bytes: 256,
        sfb_bytes: 32,
        bf16_ptr: 0,
    }
}

fn weight(ptr: u64) -> F16Weight {
    F16Weight { offset_bytes: ptr, shape: vec![1] }
}

#[test]
fn linears_come_gate_up_down() {
    let layer = Gemma4Nvfp4LayerLoaded {
        input_layernorm: weight(1),
        post_attention_layernorm: weight(2),
        pre_feedforward_layernorm: weight(3),
        post_feedforward_layernorm: weight(4),
        layer_scalar: weight(5),
        q_norm: weight(6),
        k_norm: weight(7),
        q_proj: weight(8),
        k_proj: weight(9),
        v_proj: None,
        o_proj: weight(10),
        gate_proj: linear(11),
        up_proj: linear(12),
        down_proj: linear(13),
    };
    let ptrs: Vec<u64> = layer.nvfp4_linears().iter().map(|l| l.packed_ptr).collect();
    assert_eq!(ptrs, vec![11, 12, 13]);
}

#[test]
fn tensor_map_keeps_names_in_order() {
    let mut m = TensorMap::new();
    for n in ["b", "a", "c", "a"] {
        m.insert(n.into(), fake_entry(n, DType::F16, &[n.len()]));
    }
    assert_eq!(m.len(), 3);
    assert_eq!(m.key_at(0).as_str(), "a");
    assert_eq!(m.key_at(1).as_str(), "b");
    assert_eq!(m.value_at(2).name, "c");
    m.remove("b");
    assert!(m.get("b").is_none());
    assert!(m.get("c").is_some());
    assert_eq!(m.len(), 2);
}

#[test]
fn tensors_outside_the_prefix_change_nothing() {
    let arch = arch_fixture(2);
    let prefix = arch.weight_prefix.clone();
    let mut tensors = TensorMap::new();
    populate_mlp_layers(&mut tensors, &arch);
    populate_attn_bf16(&mut tensors, &arch);
    let name = "a.layers.0.self_attn.q_proj.weight";
    tensors.insert(name.into(), fake_entry(name, DType::U8, &[3]));
    let inv = validate_gemma4_nvfp4_inventory(&arch, &prefix, &tensors).expect("valid");
    assert_eq!(inv.counts.attn_bf16, 2 * 4);
    assert_eq!(inv.counts.weight, 2 * 3);
    let quantized = format!("{prefix}.layers.1.self_attn.q_proj.weight");
    tensors.insert(quantized.clone(), fake_entry(&quantized, DType::U8, &[3]));
    let with = validate_gemma4_nvfp4_inventory(&arch, &prefix, &tensors).unwrap_err();
    tensors.remove(name);
    let without = validate_gemma4_nvfp4_inventory(&arch, &prefix, &tensors).unwrap_err();
    assert_eq!(format!("{with:?}"), format!("{without:?}"));
}

#[test]
fn cache_of_the_large_model() {
    let arch = arch_fixture(60);
    let ptrs: Vec<u64> = (0..5 + 4 * 60).collect();
    let kv = Gemma4Nvfp4KvState::from_regions(&arch, 4096, 1, &ptrs);
    assert_eq!(kv.total_bytes, 1_038_106_640);
    assert_eq!((kv.block_size, kv.max_pos, kv.max_query_tokens), (1, 4096, 1));
    for list in [
        &kv.k_packed_layer_ptrs,
        &kv.v_packed_layer_ptrs,
        &kv.k_scale_layer_ptrs,
        &kv.v_scale_layer_ptrs,
    ] {
        assert_eq!(list.len(), 60);
    }
    let table = identity_block_table(4096);
    assert_eq!(table.len(), 4 * 4096);
    for (i, c) in table.chunks(4).enumerate() {
        assert_eq!(i32::from_le_bytes([c[0], c[1], c[2], c[3]]), i as i32);
    }
}
