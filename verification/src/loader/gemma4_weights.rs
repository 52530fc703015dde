//! Gemma 4 weight structures.
//!
//! Sliding and global layers differ in their attention shapes; global layers
//! have no value projection and reuse the key projection. The audio tower's
//! linears carry four 32-bit clip bounds each, held as bit patterns.

use crate::loader::weights::{AwqLayerWeights, F16Weight, Fp8Weight};
use vstd::prelude::*;

verus! {

/// One text layer. A linear that a checkpoint stores in another format is
/// `None` here.
#[derive(Debug)]
pub struct Gemma4LayerWeights {
    pub qkv: Option<Fp8Weight>,
    pub o_proj: Option<Fp8Weight>,
    pub gate_up: Option<Fp8Weight>,
    pub down_proj: Option<Fp8Weight>,
    pub qkv_f16: Option<F16Weight>,
    pub o_proj_f16: Option<F16Weight>,
    pub gate_up_f16: Option<F16Weight>,
    pub down_proj_f16: Option<F16Weight>,
    pub input_layernorm: F16Weight,
    pub post_attention_layernorm: F16Weight,
    pub pre_feedforward_layernorm: F16Weight,
    pub post_feedforward_layernorm: F16Weight,
    pub q_norm: F16Weight,
    pub k_norm: F16Weight,
    pub layer_scalar: F16Weight,
    /// `[ple_dim, hidden]`, on models with per-layer embeddings.
    pub per_layer_input_gate: Option<F16Weight>,
    /// `[hidden, ple_dim]`.
    pub per_layer_projection: Option<F16Weight>,
    /// `[hidden]`.
    pub post_per_layer_input_norm: Option<F16Weight>,
    pub awq: Option<AwqLayerWeights>,
}

/// A loaded model.
#[derive(Debug)]
pub struct Gemma4LoadedModel {
    pub embedding: F16Weight,
    pub lm_head_fp8: Fp8Weight,
    pub lm_head_f16: F16Weight,
    pub final_norm: F16Weight,
    pub rope_cos_sliding: F16Weight,
    pub rope_sin_sliding: F16Weight,
    pub rope_cos_global: F16Weight,
    pub rope_sin_global: F16Weight,
    pub layers: Vec<Gemma4LayerWeights>,
    pub vision: Option<Gemma4Vision>,
    pub audio: Option<Gemma4Audio>,
    pub ple: Option<Gemma4Ple>,
    pub num_kv_shared_layers: Option<u32>,
}

/// Model-wide part of the per-layer embeddings.
#[derive(Debug)]
pub struct Gemma4Ple {
    /// `[vocab, num_layers * ple_dim]`, scaled when uploaded.
    pub embed_tokens_per_layer: F16Weight,
    /// `[num_layers * ple_dim, hidden_size]`.
    pub per_layer_model_projection: F16Weight,
    /// `[ple_dim]`, shared by all layers.
    pub per_layer_projection_norm: F16Weight,
}

/// The vision tower.
#[derive(Debug)]
pub struct Gemma4Vision {
    pub patch_embedder_input_proj: F16Weight,
    pub patch_embedder_pos_table: F16Weight,
    pub blocks: Vec<Gemma4VisionBlock>,
    pub std_bias: Option<F16Weight>,
    pub std_scale: Option<F16Weight>,
    pub embed_vision_projection: F16Weight,
}

/// A linear with its clip bounds.
#[derive(Debug)]
pub struct ClippedLinearWeight {
    pub weight: F16Weight,
    pub input_max_bits: u32,
    pub input_min_bits: u32,
    pub output_max_bits: u32,
    pub output_min_bits: u32,
}

#[derive(Debug)]
pub struct Gemma4AudioFfn {
    pub pre_norm: F16Weight,
    pub post_norm: F16Weight,
    pub layer_1: ClippedLinearWeight,
    pub layer_2: ClippedLinearWeight,
}

#[derive(Debug)]
pub struct Gemma4AudioLConv1d {
    pub pre_norm: F16Weight,
    pub conv_norm: F16Weight,
    pub depthwise: F16Weight,
    pub linear_start: ClippedLinearWeight,
    pub linear_end: ClippedLinearWeight,
}

#[derive(Debug)]
pub struct Gemma4AudioAttention {
    pub q: ClippedLinearWeight,
    pub k: ClippedLinearWeight,
    pub v: ClippedLinearWeight,
    pub post: ClippedLinearWeight,
    pub relative_k: F16Weight,
    pub per_dim_scale: F16Weight,
}

#[derive(Debug)]
pub struct Gemma4AudioBlock {
    pub norm_pre_attn: F16Weight,
    pub norm_post_attn: F16Weight,
    pub norm_out: F16Weight,
    pub feed_forward1: Gemma4AudioFfn,
    pub feed_forward2: Gemma4AudioFfn,
    pub lconv1d: Gemma4AudioLConv1d,
    pub self_attn: Gemma4AudioAttention,
}

#[derive(Debug)]
pub struct Gemma4AudioSubsample {
    pub input_proj: F16Weight,
    pub layer0_conv: F16Weight,
    pub layer0_norm: F16Weight,
    pub layer1_conv: F16Weight,
    pub layer1_norm: F16Weight,
}

/// The audio tower.
#[derive(Debug)]
pub struct Gemma4Audio {
    pub subsample: Gemma4AudioSubsample,
    pub blocks: Vec<Gemma4AudioBlock>,
    pub output_proj_w: F16Weight,
    pub output_proj_b: F16Weight,
    /// `[text_hidden, output_proj_dims]`.
    pub embed_audio_projection: F16Weight,
}

#[derive(Debug)]
pub struct Gemma4VisionBlock {
    pub input_layernorm_w: F16Weight,
    pub post_attention_layernorm_w: F16Weight,
    pub pre_feedforward_layernorm_w: F16Weight,
    pub post_feedforward_layernorm_w: F16Weight,
    pub q_proj_w: F16Weight,
    pub k_proj_w: F16Weight,
    pub v_proj_w: F16Weight,
    pub o_proj_w: F16Weight,
    pub q_norm_w: F16Weight,
    pub k_norm_w: F16Weight,
    pub gate_proj_w: F16Weight,
    pub up_proj_w: F16Weight,
    pub down_proj_w: F16Weight,
}

} // verus!
