//! Qwen 3.5 dense weight structures: hybrid linear and full attention with a
//! dense MLP in every layer.

use crate::loader::qwen36_weights::Qwen36Vision;
use crate::loader::weights::{F16Weight, Fp8Weight};
use vstd::prelude::*;

verus! {

/// Weights outside the layer stack.
#[derive(Debug)]
pub struct Qwen35LoadedOutside {
    pub embed_tokens: F16Weight,
    pub final_norm: F16Weight,
    pub lm_head: F16Weight,
    /// FP8 mirror of `lm_head`, quantized on the host.
    pub lm_head_fp8: Fp8Weight,
    pub embed_tokens_bytes: u64,
    pub final_norm_bytes: u64,
    pub lm_head_bytes: u64,
    pub lm_head_fp8_bytes: u64,
}

/// A layer with full attention.
#[derive(Debug)]
pub struct Qwen35FullAttnLayer {
    pub input_layernorm: F16Weight,
    pub post_attention_layernorm: F16Weight,
    pub q_norm: F16Weight,
    pub k_norm: F16Weight,
    pub q_proj: Fp8Weight,
    pub k_proj: Fp8Weight,
    pub v_proj: Fp8Weight,
    pub o_proj: Fp8Weight,
}

/// A layer with linear attention.
#[derive(Debug)]
pub struct Qwen35LinearAttnLayer {
    pub input_layernorm: F16Weight,
    pub post_attention_layernorm: F16Weight,
    pub a_log: F16Weight,
    pub dt_bias: F16Weight,
    pub conv1d: F16Weight,
    pub in_proj_a: F16Weight,
    pub in_proj_b: F16Weight,
    pub in_proj_qkv: Fp8Weight,
    pub in_proj_z: Fp8Weight,
    pub norm: F16Weight,
    pub out_proj: Fp8Weight,
}

/// The MLP of a layer.
#[derive(Debug)]
pub struct Qwen35DenseMlpBlock {
    pub gate_proj: Fp8Weight,
    pub up_proj: Fp8Weight,
    pub down_proj: Fp8Weight,
}

#[derive(Debug)]
pub enum Qwen35LayerAttn {
    Linear(Qwen35LinearAttnLayer),
    Full(Qwen35FullAttnLayer),
}

#[derive(Debug)]
pub struct Qwen35Layer {
    pub attn: Qwen35LayerAttn,
    pub mlp: Qwen35DenseMlpBlock,
}

/// A loaded model. A checkpoint without a vision tower gives `None` there.
#[derive(Debug)]
pub struct Qwen35LoadedModel {
    pub outside: Qwen35LoadedOutside,
    pub layers: Vec<Qwen35Layer>,
    pub vision: Option<Qwen36Vision>,
}

} // verus!
