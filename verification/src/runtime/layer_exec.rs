//! Arguments of one layer of the model with mixed weight formats.

use crate::loader::gemma4_arch::Gemma4LayerType;
use crate::runtime::gemma4_drafter::KvDtype;
use crate::runtime::step::Buf;
use vstd::prelude::*;

verus! {

/// Dimensions of a layer.
#[derive(Clone, Copy, Debug)]
pub struct Gemma4LayerDims {
    pub num_tokens: u32,
    pub hidden: u32,
    pub num_heads: u32,
    pub num_kv_heads: u32,
    pub head_dim: u32,
    pub rotary_dim: u32,
    pub intermediate: u32,
    pub ple_dim: u32,
    pub block_size: u32,
    pub max_blocks_per_seq: u32,
    pub num_blocks_total: u32,
    /// Bit pattern of a 32-bit number.
    pub attn_scale_bits: u32,
    /// Bit pattern of a 32-bit number.
    pub rms_eps_bits: u32,
    pub layer_type: Gemma4LayerType,
    pub sliding_window: u32,
    pub f16_kv: bool,
    pub kv_dtype: KvDtype,
    pub bf16_residual: bool,
    pub kv_share_source_layer: Option<u32>,
    pub current_max_context_len: Option<u32>,
}

/// Device addresses of a layer's weights; zero where there is none.
#[derive(Clone, Copy, Debug)]
pub struct Gemma4LayerWeightPtrs {
    pub attn_norm_gamma: u64,
    pub post_attn_norm_gamma: u64,
    pub pre_ff_norm_gamma: u64,
    pub post_ff_norm_gamma: u64,
    pub q_norm_gamma: u64,
    pub k_norm_gamma: u64,
    pub qkv_fp8: u64,
    pub qkv_scale: u64,
    pub o_fp8: u64,
    pub o_scale: u64,
    pub gate_up_fp8: u64,
    pub gate_up_scale: u64,
    pub down_fp8: u64,
    pub down_scale: u64,
    pub layer_scalar_ptr: u64,
    pub qkv_f16: u64,
    pub o_f16: u64,
    pub gate_up_f16: u64,
    pub down_f16: u64,
    pub qkv_chscale: u64,
    pub o_chscale: u64,
    pub gate_up_chscale: u64,
    pub down_chscale: u64,
    pub qkv_blockscale: u64,
    pub o_blockscale: u64,
    pub gate_up_blockscale: u64,
    pub down_blockscale: u64,
    /// Pointer table of 4-bit projections.
    pub awq: u64,
    pub ple_input_gate: u64,
    pub ple_projection: u64,
    pub ple_post_input_norm_gamma: u64,
    pub ple_per_layer_input: u64,
    pub ple_per_layer_stride_elems: u32,
}

/// Device addresses of a layer's scratch and cache.
#[derive(Clone, Copy, Debug)]
pub struct Gemma4LayerScratch {
    pub hidden_fp8: u64,
    pub hidden_scale: u64,
    pub q_out: u64,
    pub k_out: u64,
    pub v_out: u64,
    pub q_normed: u64,
    pub k_normed: u64,
    pub v_normed: u64,
    pub q_fp8: u64,
    pub k_cache: u64,
    pub v_cache: u64,
    pub k_cache_scale: u64,
    pub v_cache_scale: u64,
    pub q_scale_ptr: u64,
    pub kv_scale_ptr: u64,
    pub k_scale_cache: u64,
    pub v_scale_cache: u64,
    pub q_scale_cache: Buf,
    pub attn_out: u64,
    pub attn_out_fp8: u64,
    pub attn_out_scale: u64,
    pub delta_f16: u64,
    pub gate_up_out: u64,
    pub gate_up_fp8: u64,
    pub gate_up_scale: u64,
    pub mlp_out_fp8: u64,
    pub mlp_out_scale: u64,
    pub gemm_f32_tmp: u64,
    pub gemm_f32_tmp_bytes: usize,
    pub cutlass_workspace: u64,
    pub cutlass_workspace_bytes: usize,
    pub fa3_workspace: u64,
    pub fa3_workspace_bytes: u64,
    pub shadow_k_cache: u64,
    pub shadow_v_cache: u64,
    pub shadow_q_cache: u64,
    pub hadamard_signs_q: u64,
    pub hadamard_signs_k: u64,
}

/// Device addresses of the metadata of a chunk.
#[derive(Clone, Copy, Debug)]
pub struct Gemma4MetadataPtrs {
    pub positions: u64,
    pub slot_mapping: u64,
    pub cos: u64,
    pub sin: u64,
    pub block_tables: u64,
    pub context_lens: u64,
}

/// One layer on a prefill chunk.
#[derive(Clone, Copy, Debug)]
pub struct LayerForwardArgs {
    pub dims: Gemma4LayerDims,
    pub weights: Gemma4LayerWeightPtrs,
    pub scratch: Gemma4LayerScratch,
    pub meta: Gemma4MetadataPtrs,
    pub residual: u64,
    pub cu_seqlens_q: u64,
    pub max_seqlen_q: u32,
    pub num_seqs: u32,
}

} // verus!
