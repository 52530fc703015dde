//! Verifying a few drafted tokens against the persistent cache in one prefill
//! chunk, and committing a single token.

use crate::limits::{product, within};
use crate::loader::gemma4_arch::{Gemma4Arch, Gemma4LayerType};
use crate::loader::gemma4_weights::{Gemma4LayerWeights, Gemma4LoadedModel};
use crate::loader::weights::{AwqLayerWeights, F16Weight, Fp8Weight};
use crate::runtime::error::{Arg, Reason, RuntimeError};
use crate::runtime::footprint::{
    apart, held_after, in_bounds, law_in_bounds_joins, law_part_of_buffer, lemma_lent_stays,
    lemma_none_in_bounds, lends, room_in, step_in, writes, Held,
};
use crate::runtime::gemma4_drafter::KvDtype;
use crate::runtime::gemma4_nvfp4_bring_up::launches::{extend, UNIT_SCALE_BITS};
use crate::runtime::layer_exec::{
    Gemma4LayerDims, Gemma4LayerScratch, Gemma4LayerWeightPtrs, Gemma4MetadataPtrs,
    LayerForwardArgs,
};
use crate::runtime::step::{
    completes, refuses, Buf, Dim3, Format16, KernelCall, OnFail, Program, ProgramView, Step,
};
use crate::text::same_text;
use vstd::prelude::*;

verus! {

/// Most tokens that one call verifies.
pub const MAX_SPEC_K: usize = 8;

/// Bytes of the attention workspace.
pub const SPEC_FA3_WS_BYTES: usize = 16777216;

/// Bytes of the matrix library's workspace.
pub const SPEC_CUTLASS_WS_BYTES: usize = 16777216;

/// Scratch buffers of one call, by device address.
#[derive(Clone, Copy, Debug)]
pub struct SpecPrefillScratch {
    pub hidden_fp8: u64,
    pub hidden_scale: u64,
    pub qkv_out: u64,
    pub q_normed: u64,
    pub k_normed: u64,
    pub v_normed: u64,
    pub q_fp8: u64,
    pub attn_out: u64,
    pub attn_out_fp8: u64,
    pub attn_out_scale: u64,
    pub gate_up_out: u64,
    pub gate_up_fp8: u64,
    pub gate_up_scale: u64,
    pub mlp_out_fp8: u64,
    pub mlp_out_scale: u64,
    pub delta_f16: u64,
    pub gemm_f32_tmp: u64,
    pub gemm_f32_tmp_bytes: usize,
    pub q_scale_ptr: u64,
    pub kv_scale_ptr: u64,
    pub q_scale_cache: u64,
    pub cutlass_ws: u64,
    pub cutlass_ws_bytes: u64,
    pub fa3_ws: u64,
    pub residual: u64,
    pub token_ids: u64,
    pub positions: u64,
    pub slot_mapping: u64,
    pub context_lens: u64,
    pub cu_seqlens_q: u64,
    pub logits_f32: u64,
    pub argmax_dev: u64,
}

/// A model with mixed weight formats.
#[derive(Debug)]
pub struct Gemma4Bringup {
    pub arch: Gemma4Arch,
    pub model: Gemma4LoadedModel,
}

/// The persistent cache.
#[derive(Debug)]
pub struct PrefixCacheState {
    pub kv_cache_ptr: u64,
    pub kv_scale_ptr: u64,
    /// Byte offset of each layer's cache.
    pub kv_layer_offsets: Vec<u64>,
    /// Byte offset of each layer's scales.
    pub kv_scale_layer_offsets: Vec<u64>,
    pub num_blocks_total: u32,
    pub identity_block_tables_ptr: u64,
    pub identity_block_tables_len: u32,
    pub block_size: u32,
}

/// Signs of the Hadamard rotation, one row of `head_dim` bytes a layer.
#[derive(Clone, Copy, Debug)]
pub struct HadamardSigns {
    pub base_ptr: u64,
    pub head_dim: u32,
}

/// Unquantized copies of the cache of some layers.
#[derive(Debug)]
pub struct ShadowCache {
    pub shadow_ptr: u64,
    /// Byte offset of each layer's copy; the largest number where it has none.
    pub layer_offsets: Vec<u64>,
    pub shadow_q_throwaway_ptr: u64,
}

/// What a call reads besides the model.
#[derive(Debug)]
pub struct SpecState {
    pub prefix_cache: Option<PrefixCacheState>,
    pub hadamard: Option<HadamardSigns>,
    pub shadow: Option<ShadowCache>,
    /// Format of each layer's cache.
    pub kv_dtypes: Vec<KvDtype>,
    pub bf16_residual: bool,
    /// Whether queries have a scale for each token.
    pub per_token_q_scale: bool,
    /// Bit pattern of a 32-bit number.
    pub q_scale_bits: u32,
    /// Bit pattern of a 32-bit number.
    pub kv_scale_bits: u32,
    /// Whether the residual is read after every layer.
    pub layer_dump: bool,
}

/// Whether the setting turns these primitives on.
pub fn spec_new_primitives_enabled(value: Option<&str>) -> (r: bool)
    ensures
        r == (value matches Some(v) && v@ == "1"@),
{
    match value {
        Some(v) => same_text(v, "1"),
        None => false,
    }
}

/// Whether queries have a scale for each token: unless the setting is `0`.
pub fn per_token_q_scale_enabled(value: Option<&str>) -> (r: bool)
    ensures
        r == !(value matches Some(v) && v@ == "0"@),
{
    match value {
        Some(v) => !same_text(v, "0"),
        None => true,
    }
}

/// The larger of two numbers.
pub open spec fn larger(a: int, b: int) -> int {
    if a >= b {
        a
    } else {
        b
    }
}

fn larger_u32(a: u32, b: u32) -> (r: u32)
    ensures
        r == larger(a as int, b as int),
{
    if a >= b {
        a
    } else {
        b
    }
}

/// Width of the keys of a layer.
pub open spec fn layer_kv_dim(arch: &Gemma4Arch, l: int) -> int {
    (arch.num_kv_heads(l) as u32) * (arch.head_dim(l) as u32)
}

/// Width of the widest keys of the first `n` layers.
pub open spec fn widest_kv(arch: &Gemma4Arch, n: nat) -> int
    decreases n,
{
    if n == 0 {
        0
    } else {
        larger(widest_kv(arch, (n - 1) as nat), layer_kv_dim(arch, n - 1))
    }
}

/// Width of the widest queries.
pub open spec fn widest_q(arch: &Gemma4Arch) -> int {
    (arch.num_attention_heads as u32) * (larger(
        arch.head_dim_sliding as int,
        arch.head_dim_global as int,
    ) as usize as u32)
}

/// Width of the widest queries, keys and values together.
pub open spec fn widest_qkv(arch: &Gemma4Arch) -> int {
    widest_q(arch) + 2 * widest_kv(arch, arch.num_hidden_layers as nat)
}

/// Width of the widest matrix product.
pub open spec fn widest_gemm(arch: &Gemma4Arch) -> int {
    larger(
        larger(widest_q(arch), widest_kv(arch, arch.num_hidden_layers as nat)),
        larger(arch.hidden_size as u32 as int, 2 * (arch.intermediate_size as u32)),
    )
}

/// Widths and sizes that 32 bits can hold, for up to `k` tokens.
pub open spec fn scratch_fits(arch: &Gemma4Arch, k: nat) -> bool {
    &&& arch.wf()
    &&& forall|l: int| 0 <= l < arch.num_hidden_layers ==> #[trigger] layer_kv_dim(arch, l) <= u32::MAX
    &&& widest_q(arch) <= u32::MAX
    &&& widest_qkv(arch) <= u32::MAX
    &&& 2 * (k * widest_qkv(arch)) <= u32::MAX
    &&& 2 * (arch.intermediate_size as u32) <= u32::MAX
    &&& 4 * (k * widest_gemm(arch)) <= u32::MAX
    &&& 4 * (k * (arch.vocab_size as u32)) <= u32::MAX
    &&& 4 * (k + 1) <= u32::MAX
}

/// The regions of the scratch buffers, for up to `k` tokens.
pub open spec fn scratch_regions(arch: &Gemma4Arch, k: int) -> Seq<Step> {
    let hidden = arch.hidden_size as u32;
    let inter = arch.intermediate_size as u32;
    let vocab = arch.vocab_size as u32;
    let q = widest_q(arch);
    let kv = widest_kv(arch, arch.num_hidden_layers as nat);
    seq![
        Step::Region { name: "gemma4_spec_hidden_fp8", bytes: (k * hidden) as usize, align: 16 },
        Step::Region { name: "gemma4_spec_hidden_scale", bytes: (4 * k) as usize, align: 16 },
        Step::Region {
            name: "gemma4_spec_qkv",
            bytes: (2 * (k * widest_qkv(arch))) as usize,
            align: 16,
        },
        Step::Region { name: "gemma4_spec_q_normed", bytes: (2 * (k * q)) as usize, align: 16 },
        Step::Region { name: "gemma4_spec_k_normed", bytes: (2 * (k * kv)) as usize, align: 16 },
        Step::Region { name: "gemma4_spec_v_normed", bytes: (2 * (k * kv)) as usize, align: 16 },
        Step::Region { name: "gemma4_spec_q_fp8", bytes: (k * q) as usize, align: 16 },
        Step::Region { name: "gemma4_spec_attn_out", bytes: (2 * (k * q)) as usize, align: 16 },
        Step::Region { name: "gemma4_spec_attn_out_fp8", bytes: (k * q) as usize, align: 16 },
        Step::Region { name: "gemma4_spec_attn_out_scale", bytes: (4 * k) as usize, align: 16 },
        Step::Region { name: "gemma4_spec_gate_up", bytes: (4 * (k * inter)) as usize, align: 16 },
        Step::Region {
            name: "gemma4_spec_gate_up_fp8",
            bytes: (2 * (k * inter)) as usize,
            align: 16,
        },
        Step::Region { name: "gemma4_spec_gate_up_scale", bytes: (4 * k) as usize, align: 16 },
        Step::Region { name: "gemma4_spec_mlp_fp8", bytes: (k * inter) as usize, align: 16 },
        Step::Region { name: "gemma4_spec_mlp_scale", bytes: (4 * k) as usize, align: 16 },
        Step::Region { name: "gemma4_spec_delta", bytes: (2 * (k * hidden)) as usize, align: 16 },
        Step::Region {
            name: "gemma4_spec_gemm_f32",
            bytes: (4 * (k * widest_gemm(arch))) as usize,
            align: 16,
        },
        Step::Region { name: "gemma4_spec_q_scale", bytes: 4, align: 4 },
        Step::Region { name: "gemma4_spec_kv_scale", bytes: 4, align: 4 },
        Step::Region { name: "gemma4_spec_cutlass_ws", bytes: SPEC_CUTLASS_WS_BYTES, align: 256 },
        Step::Region { name: "gemma4_spec_fa3_ws", bytes: SPEC_FA3_WS_BYTES, align: 256 },
        Step::Region {
            name: "gemma4_spec_residual",
            bytes: (2 * (k * hidden)) as usize,
            align: 16,
        },
        Step::Region { name: "gemma4_spec_tok_ids", bytes: (4 * k) as usize, align: 16 },
        Step::Region { name: "gemma4_spec_pos", bytes: (4 * k) as usize, align: 16 },
        Step::Region { name: "gemma4_spec_slot", bytes: (4 * k) as usize, align: 16 },
        Step::Region { name: "gemma4_spec_ctx", bytes: 4, align: 16 },
        Step::Region { name: "gemma4_spec_cu_seqlens", bytes: (4 * (k + 1)) as usize, align: 16 },
        Step::Region {
            name: "gemma4_spec_logits_f32",
            bytes: (4 * (k * vocab)) as usize,
            align: 16,
        },
        Step::Region { name: "gemma4_spec_argmax", bytes: (4 * k) as usize, align: 16 },
    ]
}

proof fn lemma_widest(arch: &Gemma4Arch, n: nat)
    requires
        forall|l: int| 0 <= l < n ==> #[trigger] layer_kv_dim(arch, l) <= u32::MAX,
    ensures
        0 <= widest_kv(arch, n) <= u32::MAX,
        forall|l: int| 0 <= l < n ==> #[trigger] layer_kv_dim(arch, l) <= widest_kv(arch, n),
    decreases n,
{
    if n > 0 {
        lemma_widest(arch, (n - 1) as nat);
        let h = arch.num_kv_heads(n - 1) as u32;
        let d = arch.head_dim(n - 1) as u32;
        assert(h * d >= 0) by (nonlinear_arith);
        assert(layer_kv_dim(arch, n - 1) <= u32::MAX);
    }
}

fn plan_widest_kv(arch: &Gemma4Arch) -> (r: u32)
    requires
        arch.wf(),
        forall|l: int|
            0 <= l < arch.num_hidden_layers ==> #[trigger] layer_kv_dim(arch, l) <= u32::MAX,
    ensures
        r == widest_kv(arch, arch.num_hidden_layers as nat),
{
    let mut m: u32 = 0;
    let mut l: usize = 0;
    let n: usize = arch.num_hidden_layers;
    while l < n
        invariant
            arch.wf(),
            n == arch.num_hidden_layers,
            l <= n,
            forall|i: int|
                0 <= i < n ==> #[trigger] layer_kv_dim(arch, i) <= u32::MAX,
            m == widest_kv(arch, l as nat),
        decreases n - l,
    {
        let heads: u32 = arch.num_kv_heads_for_layer(l) as u32;
        let width: u32 = arch.head_dim_for_layer(l) as u32;
        assert(layer_kv_dim(arch, l as int) <= u32::MAX);
        let kv: u32 = heads * width;
        m = larger_u32(m, kv);
        l = l + 1;
    }
    m
}

/// Whether 32 bits can hold the widths and sizes, for up to `k` tokens.
pub fn check_scratch(arch: &Gemma4Arch, k: u32) -> (r: bool)
    ensures
        r == scratch_fits(arch, k as nat),
{
    if !arch.check_wf() {
        return false;
    }
    let most: u128 = u32::MAX as u128;
    let n: usize = arch.num_hidden_layers;
    let mut l: usize = 0;
    while l < n
        invariant
            arch.wf(),
            n == arch.num_hidden_layers,
            l <= n,
            most == u32::MAX,
            forall|i: int| 0 <= i < l ==> #[trigger] layer_kv_dim(arch, i) <= u32::MAX,
        decreases n - l,
    {
        let heads: u32 = arch.num_kv_heads_for_layer(l) as u32;
        let width: u32 = arch.head_dim_for_layer(l) as u32;
        let kv = product(heads as u128, width as u128);
        assert(kv@ == layer_kv_dim(arch, l as int));
        if !within(&kv, most) {
            return false;
        }
        l = l + 1;
    }
    let kv: u32 = plan_widest_kv(arch);
    let q_heads: u32 = arch.num_attention_heads as u32;
    let q_width: u32 = arch.max_head_dim() as u32;
    let q = match q_heads.checked_mul(q_width) {
        Some(q) => q,
        None => {
            return false;
        },
    };
    let hidden: u32 = arch.hidden_size as u32;
    let inter: u32 = arch.intermediate_size as u32;
    let vocab: u32 = arch.vocab_size as u32;
    let qkv: u128 = q as u128 + 2 * (kv as u128);
    if qkv > most || 2 * (inter as u128) > most || 4 * (k as u128 + 1) > most {
        return false;
    }
    let gemm: u32 = larger_u32(larger_u32(q, kv), larger_u32(hidden, inter * 2));
    within(&product(k as u128, qkv).mul_value(2), most) && within(
        &product(k as u128, gemm as u128).mul_value(4),
        most,
    ) && within(&product(k as u128, vocab as u128).mul_value(4), most)
}

impl Gemma4Bringup {
    /// The regions of the scratch buffers, for up to `k_max` tokens.
    #[verifier::spinoff_prover]
    #[verifier::rlimit(40)]
    pub fn prepare_spec_prefill_scratch(&self, k_max: u32) -> (r: Program)
        requires
            scratch_fits(&self.arch, k_max as nat),
        ensures
            r@ == completes(scratch_regions(&self.arch, k_max as int)),
    {
        let arch = &self.arch;
        let k: u32 = k_max;
        let hidden: u32 = arch.hidden_size as u32;
        let inter: u32 = arch.intermediate_size as u32;
        let vocab: u32 = arch.vocab_size as u32;
        let q: u32 = (arch.num_attention_heads as u32) * (arch.max_head_dim() as u32);
        let kv: u32 = plan_widest_kv(arch);
        let qkv: u32 = q + 2 * kv;
        let gemm: u32 = larger_u32(larger_u32(q, kv), larger_u32(hidden, inter * 2));
        proof {
            assert(k * q <= k * qkv && k * kv <= k * qkv && k * hidden <= k * gemm && k * inter
                <= k * gemm && 2 * (k * inter) <= k * gemm) by (nonlinear_arith)
                requires
                    q <= qkv,
                    kv <= qkv,
                    hidden <= gemm,
                    2 * inter <= gemm,
            ;
        }
        let tokens: u32 = k * 4;
        let rows: u32 = k * hidden;
        let queries: u32 = k * q;
        let keys: u32 = k * kv;
        let mlp: u32 = k * inter;
        let all: u32 = k * qkv;
        let products: u32 = k * gemm;
        let logits: u32 = k * vocab;
        let s: Vec<Step> =
            vec![
            Step::Region { name: "gemma4_spec_hidden_fp8", bytes: rows as usize, align: 16 },
            Step::Region { name: "gemma4_spec_hidden_scale", bytes: tokens as usize, align: 16 },
            Step::Region { name: "gemma4_spec_qkv", bytes: (all * 2) as usize, align: 16 },
            Step::Region { name: "gemma4_spec_q_normed", bytes: (queries * 2) as usize, align: 16 },
            Step::Region { name: "gemma4_spec_k_normed", bytes: (keys * 2) as usize, align: 16 },
            Step::Region { name: "gemma4_spec_v_normed", bytes: (keys * 2) as usize, align: 16 },
            Step::Region { name: "gemma4_spec_q_fp8", bytes: queries as usize, align: 16 },
            Step::Region { name: "gemma4_spec_attn_out", bytes: (queries * 2) as usize, align: 16 },
            Step::Region { name: "gemma4_spec_attn_out_fp8", bytes: queries as usize, align: 16 },
            Step::Region { name: "gemma4_spec_attn_out_scale", bytes: tokens as usize, align: 16 },
            Step::Region { name: "gemma4_spec_gate_up", bytes: (mlp * 4) as usize, align: 16 },
            Step::Region { name: "gemma4_spec_gate_up_fp8", bytes: (mlp * 2) as usize, align: 16 },
            Step::Region { name: "gemma4_spec_gate_up_scale", bytes: tokens as usize, align: 16 },
            Step::Region { name: "gemma4_spec_mlp_fp8", bytes: mlp as usize, align: 16 },
            Step::Region { name: "gemma4_spec_mlp_scale", bytes: tokens as usize, align: 16 },
            Step::Region { name: "gemma4_spec_delta", bytes: (rows * 2) as usize, align: 16 },
            Step::Region { name: "gemma4_spec_gemm_f32", bytes: (products * 4) as usize, align: 16 },
            Step::Region { name: "gemma4_spec_q_scale", bytes: 4, align: 4 },
            Step::Region { name: "gemma4_spec_kv_scale", bytes: 4, align: 4 },
            Step::Region {
                name: "gemma4_spec_cutlass_ws",
                bytes: SPEC_CUTLASS_WS_BYTES,
                align: 256,
            },
            Step::Region { name: "gemma4_spec_fa3_ws", bytes: SPEC_FA3_WS_BYTES, align: 256 },
            Step::Region { name: "gemma4_spec_residual", bytes: (rows * 2) as usize, align: 16 },
            Step::Region { name: "gemma4_spec_tok_ids", bytes: tokens as usize, align: 16 },
            Step::Region { name: "gemma4_spec_pos", bytes: tokens as usize, align: 16 },
            Step::Region { name: "gemma4_spec_slot", bytes: tokens as usize, align: 16 },
            Step::Region { name: "gemma4_spec_ctx", bytes: 4, align: 16 },
            Step::Region {
                name: "gemma4_spec_cu_seqlens",
                bytes: ((k + 1) * 4) as usize,
                align: 16,
            },
            Step::Region { name: "gemma4_spec_logits_f32", bytes: (logits * 4) as usize, align: 16 },
            Step::Region { name: "gemma4_spec_argmax", bytes: tokens as usize, align: 16 },
        ];
        assert(s@ =~= scratch_regions(&self.arch, k_max as int));
        Program::complete(s)
    }

    /// The scratch buffers at the addresses that the regions got.
    pub fn scratch_from_regions(&self, k_max: u32, ptrs: &[u64]) -> (r: SpecPrefillScratch)
        requires
            scratch_fits(&self.arch, k_max as nat),
            ptrs@.len() == 29,
        ensures
            r == scratch_at(&self.arch, k_max as int, ptrs@),
    {
        let arch = &self.arch;
        let hidden: u32 = arch.hidden_size as u32;
        let inter: u32 = arch.intermediate_size as u32;
        let q: u32 = (arch.num_attention_heads as u32) * (arch.max_head_dim() as u32);
        let kv: u32 = plan_widest_kv(arch);
        let gemm: u32 = larger_u32(larger_u32(q, kv), larger_u32(hidden, inter * 2));
        let bytes: u32 = k_max * gemm * 4;
        SpecPrefillScratch {
            hidden_fp8: ptrs[0],
            hidden_scale: ptrs[1],
            qkv_out: ptrs[2],
            q_normed: ptrs[3],
            k_normed: ptrs[4],
            v_normed: ptrs[5],
            q_fp8: ptrs[6],
            attn_out: ptrs[7],
            attn_out_fp8: ptrs[8],
            attn_out_scale: ptrs[9],
            gate_up_out: ptrs[10],
            gate_up_fp8: ptrs[11],
            gate_up_scale: ptrs[12],
            mlp_out_fp8: ptrs[13],
            mlp_out_scale: ptrs[14],
            delta_f16: ptrs[15],
            gemm_f32_tmp: ptrs[16],
            gemm_f32_tmp_bytes: bytes as usize,
            q_scale_ptr: ptrs[17],
            kv_scale_ptr: ptrs[18],
            q_scale_cache: 0,
            cutlass_ws: ptrs[19],
            cutlass_ws_bytes: SPEC_CUTLASS_WS_BYTES as u64,
            fa3_ws: ptrs[20],
            residual: ptrs[21],
            token_ids: ptrs[22],
            positions: ptrs[23],
            slot_mapping: ptrs[24],
            context_lens: ptrs[25],
            cu_seqlens_q: ptrs[26],
            logits_f32: ptrs[27],
            argmax_dev: ptrs[28],
        }
    }
}

/// The scratch buffers at the addresses that the regions got.
pub open spec fn scratch_at(arch: &Gemma4Arch, k: int, ptrs: Seq<u64>) -> SpecPrefillScratch {
    SpecPrefillScratch {
        hidden_fp8: ptrs[0],
        hidden_scale: ptrs[1],
        qkv_out: ptrs[2],
        q_normed: ptrs[3],
        k_normed: ptrs[4],
        v_normed: ptrs[5],
        q_fp8: ptrs[6],
        attn_out: ptrs[7],
        attn_out_fp8: ptrs[8],
        attn_out_scale: ptrs[9],
        gate_up_out: ptrs[10],
        gate_up_fp8: ptrs[11],
        gate_up_scale: ptrs[12],
        mlp_out_fp8: ptrs[13],
        mlp_out_scale: ptrs[14],
        delta_f16: ptrs[15],
        gemm_f32_tmp: ptrs[16],
        gemm_f32_tmp_bytes: (4 * (k * widest_gemm(arch))) as usize,
        q_scale_ptr: ptrs[17],
        kv_scale_ptr: ptrs[18],
        q_scale_cache: 0,
        cutlass_ws: ptrs[19],
        cutlass_ws_bytes: SPEC_CUTLASS_WS_BYTES as u64,
        fa3_ws: ptrs[20],
        residual: ptrs[21],
        token_ids: ptrs[22],
        positions: ptrs[23],
        slot_mapping: ptrs[24],
        context_lens: ptrs[25],
        cu_seqlens_q: ptrs[26],
        logits_f32: ptrs[27],
        argmax_dev: ptrs[28],
    }
}

/// For every layer, the rows of queries, keys and values of `k` tokens fit
/// their buffers, one behind another in the common one and each in its own.
pub proof fn law_rows_fit_scratch(arch: &Gemma4Arch, l: int, k: nat)
    requires
        scratch_fits(arch, k),
        0 <= l < arch.num_hidden_layers,
        arch.head_dim(l) as int == arch.head_dim(l) as u32,
        larger(arch.head_dim_sliding as int, arch.head_dim_global as int) <= u32::MAX,
    ensures
        ({
            let q = (arch.num_attention_heads as u32) * (arch.head_dim(l) as u32);
            let kv = layer_kv_dim(arch, l);
            &&& 2 * (k * (q + 2 * kv)) <= scratch_regions(arch, k as int)[2]->Region_bytes
            &&& 2 * (k * q) <= scratch_regions(arch, k as int)[3]->Region_bytes
            &&& 2 * (k * kv) <= scratch_regions(arch, k as int)[4]->Region_bytes
            &&& 4 * (k * q) <= scratch_regions(arch, k as int)[16]->Region_bytes
        }),
{
    lemma_widest(arch, arch.num_hidden_layers as nat);
    let heads = arch.num_attention_heads as u32 as int;
    let d = arch.head_dim(l) as u32 as int;
    let m = larger(arch.head_dim_sliding as int, arch.head_dim_global as int);
    let q = heads * d;
    let kv = layer_kv_dim(arch, l);
    assert(heads * d <= heads * m) by (nonlinear_arith)
        requires
            heads >= 0,
            d <= m,
    ;
    let (wq, wkv, all, g) = (
        widest_q(arch),
        widest_kv(arch, arch.num_hidden_layers as nat),
        widest_qkv(arch),
        widest_gemm(arch),
    );
    assert(k * (q + 2 * kv) <= k * all && k * q <= k * wq && k * kv <= k * wkv && k * wq <= k * g
        && k * wq <= k * all && k * wkv <= k * all) by (nonlinear_arith)
        requires
            q + 2 * kv <= all,
            q <= wq,
            kv <= wkv,
            wq <= g,
            wq <= all,
            wkv <= all,
            k >= 0,
    ;
}

/// Address of an optional 16-bit weight.
pub open spec fn half_ptr(w: Option<F16Weight>) -> u64 {
    match w {
        Some(w) => w.offset_bytes,
        None => 0,
    }
}

fn plan_half_ptr(w: &Option<F16Weight>) -> (r: u64)
    ensures
        r == half_ptr(*w),
{
    match w {
        Some(w) => w.offset_bytes,
        None => 0,
    }
}

/// Addresses of an optional FP8 weight: elements, scale, scales of channels
/// and of blocks.
pub open spec fn fp8_ptrs(w: Option<Fp8Weight>) -> (u64, u64, u64, u64) {
    match w {
        Some(w) => (
            w.offset_bytes,
            w.scale_ptr,
            match w.channelscale_ptr {
                Some(p) => p,
                None => 0,
            },
            match w.blockscale_ptr {
                Some(p) => p,
                None => 0,
            },
        ),
        None => (0, 0, 0, 0),
    }
}

fn plan_fp8_ptrs(w: &Option<Fp8Weight>) -> (r: (u64, u64, u64, u64))
    ensures
        r == fp8_ptrs(*w),
{
    match w {
        Some(w) => (
            w.offset_bytes,
            w.scale_ptr,
            match w.channelscale_ptr {
                Some(p) => p,
                None => 0,
            },
            match w.blockscale_ptr {
                Some(p) => p,
                None => 0,
            },
        ),
        None => (0, 0, 0, 0),
    }
}

/// Pointer table of optional 4-bit projections.
pub open spec fn awq_ptr(w: Option<AwqLayerWeights>) -> u64 {
    match w {
        Some(w) => w.table,
        None => 0,
    }
}

/// Addresses of a layer's weights. Nothing is added for each layer's own
/// embedding: the first prefill did that.
pub open spec fn weight_ptrs(layer: &Gemma4LayerWeights) -> Gemma4LayerWeightPtrs {
    let qkv = fp8_ptrs(layer.qkv);
    let o = fp8_ptrs(layer.o_proj);
    let gate_up = fp8_ptrs(layer.gate_up);
    let down = fp8_ptrs(layer.down_proj);
    Gemma4LayerWeightPtrs {
        attn_norm_gamma: layer.input_layernorm.offset_bytes,
        post_attn_norm_gamma: layer.post_attention_layernorm.offset_bytes,
        pre_ff_norm_gamma: layer.pre_feedforward_layernorm.offset_bytes,
        post_ff_norm_gamma: layer.post_feedforward_layernorm.offset_bytes,
        q_norm_gamma: layer.q_norm.offset_bytes,
        k_norm_gamma: layer.k_norm.offset_bytes,
        qkv_fp8: qkv.0,
        qkv_scale: qkv.1,
        o_fp8: o.0,
        o_scale: o.1,
        gate_up_fp8: gate_up.0,
        gate_up_scale: gate_up.1,
        down_fp8: down.0,
        down_scale: down.1,
        layer_scalar_ptr: layer.layer_scalar.offset_bytes,
        qkv_f16: half_ptr(layer.qkv_f16),
        o_f16: half_ptr(layer.o_proj_f16),
        gate_up_f16: half_ptr(layer.gate_up_f16),
        down_f16: half_ptr(layer.down_proj_f16),
        qkv_chscale: qkv.2,
        o_chscale: o.2,
        gate_up_chscale: gate_up.2,
        down_chscale: down.2,
        qkv_blockscale: qkv.3,
        o_blockscale: o.3,
        gate_up_blockscale: gate_up.3,
        down_blockscale: down.3,
        awq: awq_ptr(layer.awq),
        ple_input_gate: half_ptr(layer.per_layer_input_gate),
        ple_projection: half_ptr(layer.per_layer_projection),
        ple_post_input_norm_gamma: half_ptr(layer.post_per_layer_input_norm),
        ple_per_layer_input: 0,
        ple_per_layer_stride_elems: 0,
    }
}

fn plan_weight_ptrs(layer: &Gemma4LayerWeights) -> (r: Gemma4LayerWeightPtrs)
    ensures
        r == weight_ptrs(layer),
{
    let qkv = plan_fp8_ptrs(&layer.qkv);
    let o = plan_fp8_ptrs(&layer.o_proj);
    let gate_up = plan_fp8_ptrs(&layer.gate_up);
    let down = plan_fp8_ptrs(&layer.down_proj);
    let awq: u64 = match &layer.awq {
        Some(w) => w.table,
        None => 0,
    };
    Gemma4LayerWeightPtrs {
        attn_norm_gamma: layer.input_layernorm.offset_bytes,
        post_attn_norm_gamma: layer.post_attention_layernorm.offset_bytes,
        pre_ff_norm_gamma: layer.pre_feedforward_layernorm.offset_bytes,
        post_ff_norm_gamma: layer.post_feedforward_layernorm.offset_bytes,
        q_norm_gamma: layer.q_norm.offset_bytes,
        k_norm_gamma: layer.k_norm.offset_bytes,
        qkv_fp8: qkv.0,
        qkv_scale: qkv.1,
        o_fp8: o.0,
        o_scale: o.1,
        gate_up_fp8: gate_up.0,
        gate_up_scale: gate_up.1,
        down_fp8: down.0,
        down_scale: down.1,
        layer_scalar_ptr: layer.layer_scalar.offset_bytes,
        qkv_f16: plan_half_ptr(&layer.qkv_f16),
        o_f16: plan_half_ptr(&layer.o_proj_f16),
        gate_up_f16: plan_half_ptr(&layer.gate_up_f16),
        down_f16: plan_half_ptr(&layer.down_proj_f16),
        qkv_chscale: qkv.2,
        o_chscale: o.2,
        gate_up_chscale: gate_up.2,
        down_chscale: down.2,
        qkv_blockscale: qkv.3,
        o_blockscale: o.3,
        gate_up_blockscale: gate_up.3,
        down_blockscale: down.3,
        awq,
        ple_input_gate: plan_half_ptr(&layer.per_layer_input_gate),
        ple_projection: plan_half_ptr(&layer.per_layer_projection),
        ple_post_input_norm_gamma: plan_half_ptr(&layer.post_per_layer_input_norm),
        ple_per_layer_input: 0,
        ple_per_layer_stride_elems: 0,
    }
}

/// The format in which a prefill writes a layer's cache: NVFP4 or else FP8.
pub open spec fn prefill_dtype(d: KvDtype) -> KvDtype {
    if d == KvDtype::Nvfp4 {
        KvDtype::Nvfp4
    } else {
        KvDtype::Fp8
    }
}

/// Elements of a layer's cache, keys and values together.
pub open spec fn layer_elems(arch: &Gemma4Arch, pc: &PrefixCacheState, l: int) -> int {
    2 * pc.num_blocks_total * pc.block_size * (arch.num_kv_heads(l) as u32) * (arch.head_dim(
        l,
    ) as u32)
}

/// Slots of a layer's cache, times its heads.
pub open spec fn layer_scale_slots(arch: &Gemma4Arch, pc: &PrefixCacheState, l: int) -> int {
    pc.num_blocks_total * pc.block_size * (arch.num_kv_heads(l) as u32)
}

/// The layer whose cache a layer reads.
pub open spec fn cache_layer(arch: &Gemma4Arch, l: int) -> int {
    match arch.kv_share_sources@[l] {
        Some(s) => s as int,
        None => l,
    }
}

/// Bytes between the keys and the values of a layer.
pub open spec fn half_cache_bytes(d: KvDtype, elems: int) -> int {
    match d {
        KvDtype::F16Kv => elems,
        KvDtype::Fp8 => elems / 2,
        KvDtype::Nvfp4 => elems / 4,
    }
}

/// Whether a layer has an unquantized copy of its cache.
pub open spec fn has_shadow(state: &SpecState, l: int, d: KvDtype) -> bool {
    state.shadow matches Some(s) && s.shadow_ptr != 0 && d == KvDtype::Nvfp4 && l
        < s.layer_offsets@.len() && s.layer_offsets@[l] != u64::MAX
}

/// The signs of a layer's Hadamard rotation; zero without one.
pub open spec fn hadamard_row(state: &SpecState, l: int, d: KvDtype) -> u64 {
    match state.hadamard {
        Some(h) => if h.base_ptr != 0 && d == KvDtype::Nvfp4 {
            (h.base_ptr + l * h.head_dim) as u64
        } else {
            0
        },
        None => 0,
    }
}

/// Dimensions of a layer on `k` tokens that end at position `end`.
pub open spec fn layer_dims(
    arch: &Gemma4Arch,
    pc: &PrefixCacheState,
    state: &SpecState,
    l: int,
    k: u32,
    end: u32,
) -> Gemma4LayerDims {
    Gemma4LayerDims {
        num_tokens: k,
        hidden: arch.hidden_size as u32,
        num_heads: arch.num_attention_heads as u32,
        num_kv_heads: arch.num_kv_heads(l) as u32,
        head_dim: arch.head_dim(l) as u32,
        rotary_dim: arch.rotary_dim(l) as u32,
        intermediate: arch.intermediate_size as u32,
        ple_dim: (match arch.hidden_size_per_layer_input {
            Some(n) => n,
            None => 0,
        }) as u32,
        block_size: pc.block_size,
        max_blocks_per_seq: pc.num_blocks_total,
        num_blocks_total: pc.num_blocks_total,
        attn_scale_bits: UNIT_SCALE_BITS,
        rms_eps_bits: arch.rms_norm_eps_bits,
        layer_type: arch.layer_types@[l],
        sliding_window: arch.sliding_window_size as u32,
        f16_kv: false,
        kv_dtype: prefill_dtype(state.kv_dtypes@[l]),
        bf16_residual: state.bf16_residual,
        kv_share_source_layer: match arch.kv_share_sources@[l] {
            Some(s) => Some(s as u32),
            None => None,
        },
        current_max_context_len: Some(end),
    }
}

/// Scratch and cache of a layer. Queries, keys and values lie one behind
/// another in their common buffer, of which row 0 starts them.
pub open spec fn layer_scratch(
    arch: &Gemma4Arch,
    pc: &PrefixCacheState,
    state: &SpecState,
    s: &SpecPrefillScratch,
    l: int,
) -> Gemma4LayerScratch {
    let d = prefill_dtype(state.kv_dtypes@[l]);
    let elems = layer_elems(arch, pc, l);
    let at = cache_layer(arch, l);
    let kv = (pc.kv_cache_ptr + pc.kv_layer_offsets@[at]) as u64;
    let scales = (pc.kv_scale_ptr + pc.kv_scale_layer_offsets@[at]) as u64;
    let q_dim = (arch.num_attention_heads as u32) * (arch.head_dim(l) as u32);
    let k_out = (s.qkv_out + 2 * q_dim) as u64;
    let shadow = (state.shadow->Some_0.shadow_ptr + state.shadow->Some_0.layer_offsets@[l]) as u64;
    let copied = has_shadow(state, l, d);
    let signs = hadamard_row(state, l, d);
    Gemma4LayerScratch {
        hidden_fp8: s.hidden_fp8,
        hidden_scale: s.hidden_scale,
        q_out: s.qkv_out,
        k_out,
        v_out: (k_out + 2 * layer_kv_dim(arch, l)) as u64,
        q_normed: s.q_normed,
        k_normed: s.k_normed,
        v_normed: s.v_normed,
        q_fp8: s.q_fp8,
        k_cache: kv,
        v_cache: (kv + half_cache_bytes(d, elems)) as u64,
        k_cache_scale: if d == KvDtype::Nvfp4 {
            scales
        } else {
            0
        },
        v_cache_scale: if d == KvDtype::Nvfp4 {
            (scales + elems / 32) as u64
        } else {
            0
        },
        q_scale_ptr: s.q_scale_ptr,
        kv_scale_ptr: s.kv_scale_ptr,
        k_scale_cache: scales,
        v_scale_cache: (scales + 4 * layer_scale_slots(arch, pc, l)) as u64,
        q_scale_cache: if state.per_token_q_scale {
            Buf::start(0)
        } else {
            Buf::At(0)
        },
        attn_out: s.attn_out,
        attn_out_fp8: s.attn_out_fp8,
        attn_out_scale: s.attn_out_scale,
        delta_f16: s.delta_f16,
        gate_up_out: s.gate_up_out,
        gate_up_fp8: s.gate_up_fp8,
        gate_up_scale: s.gate_up_scale,
        mlp_out_fp8: s.mlp_out_fp8,
        mlp_out_scale: s.mlp_out_scale,
        gemm_f32_tmp: s.gemm_f32_tmp,
        gemm_f32_tmp_bytes: s.gemm_f32_tmp_bytes,
        cutlass_workspace: s.cutlass_ws,
        cutlass_workspace_bytes: s.cutlass_ws_bytes as usize,
        fa3_workspace: s.fa3_ws,
        fa3_workspace_bytes: SPEC_FA3_WS_BYTES as u64,
        shadow_k_cache: if copied {
            shadow
        } else {
            0
        },
        shadow_v_cache: if copied {
            (shadow + elems) as u64
        } else {
            0
        },
        shadow_q_cache: if copied {
            state.shadow->Some_0.shadow_q_throwaway_ptr
        } else {
            0
        },
        hadamard_signs_q: signs,
        hadamard_signs_k: signs,
    }
}

/// Whether the addresses of a layer's scratch and cache can be counted.
pub open spec fn layer_reaches(
    arch: &Gemma4Arch,
    pc: &PrefixCacheState,
    state: &SpecState,
    s: &SpecPrefillScratch,
    l: int,
) -> bool {
    let d = prefill_dtype(state.kv_dtypes@[l]);
    let elems = layer_elems(arch, pc, l);
    let at = cache_layer(arch, l);
    let q_dim = (arch.num_attention_heads as u32) * (arch.head_dim(l) as u32);
    let kv = pc.kv_cache_ptr + pc.kv_layer_offsets@[at];
    let scales = pc.kv_scale_ptr + pc.kv_scale_layer_offsets@[at];
    &&& at < pc.kv_layer_offsets@.len()
    &&& at < pc.kv_scale_layer_offsets@.len()
    &&& l < state.kv_dtypes@.len()
    &&& elems <= u64::MAX
    &&& layer_kv_dim(arch, l) <= u32::MAX
    &&& q_dim <= u32::MAX
    &&& s.qkv_out + 2 * q_dim + 2 * layer_kv_dim(arch, l) <= u64::MAX
    &&& kv + half_cache_bytes(d, elems) <= u64::MAX
    &&& scales + elems / 32 <= u64::MAX
    &&& scales + 4 * layer_scale_slots(arch, pc, l) <= u64::MAX
    &&& d == KvDtype::Nvfp4 ==> (state.hadamard matches Some(h) ==> h.base_ptr + l * h.head_dim
        <= u64::MAX)
    &&& has_shadow(state, l, d) ==> state.shadow->Some_0.shadow_ptr
        + state.shadow->Some_0.layer_offsets@[l] + elems <= u64::MAX
}

impl Gemma4Bringup {
    /// One layer on a chunk of `k` tokens.
    pub open spec fn layer_args(
        &self,
        pc: &PrefixCacheState,
        state: &SpecState,
        s: &SpecPrefillScratch,
        l: int,
        k: u32,
        end: u32,
    ) -> LayerForwardArgs {
        let global = self.arch.is_global(l);
        LayerForwardArgs {
            dims: layer_dims(&self.arch, pc, state, l, k, end),
            weights: weight_ptrs(&self.model.layers@[l]),
            scratch: layer_scratch(&self.arch, pc, state, s, l),
            meta: Gemma4MetadataPtrs {
                positions: s.positions,
                slot_mapping: s.slot_mapping,
                cos: if global {
                    self.model.rope_cos_global.offset_bytes
                } else {
                    self.model.rope_cos_sliding.offset_bytes
                },
                sin: if global {
                    self.model.rope_sin_global.offset_bytes
                } else {
                    self.model.rope_sin_sliding.offset_bytes
                },
                block_tables: pc.identity_block_tables_ptr,
                context_lens: s.context_lens,
            },
            residual: s.residual,
            cu_seqlens_q: s.cu_seqlens_q,
            max_seqlen_q: k,
            num_seqs: 1,
        }
    }

    fn plan_layer_dims(
        &self,
        pc: &PrefixCacheState,
        state: &SpecState,
        l: usize,
        k: u32,
        end: u32,
    ) -> (r: Gemma4LayerDims)
        requires
            self.arch.wf(),
            l < self.arch.num_hidden_layers,
            l < state.kv_dtypes@.len(),
        ensures
            r == layer_dims(&self.arch, pc, state, l as int, k, end),
    {
        let arch = &self.arch;
        let ple: usize = match arch.hidden_size_per_layer_input {
            Some(n) => n,
            None => 0,
        };
        Gemma4LayerDims {
            num_tokens: k,
            hidden: arch.hidden_size as u32,
            num_heads: arch.num_attention_heads as u32,
            num_kv_heads: arch.num_kv_heads_for_layer(l) as u32,
            head_dim: arch.head_dim_for_layer(l) as u32,
            rotary_dim: arch.rotary_dim_for_layer(l) as u32,
            intermediate: arch.intermediate_size as u32,
            ple_dim: ple as u32,
            block_size: pc.block_size,
            max_blocks_per_seq: pc.num_blocks_total,
            num_blocks_total: pc.num_blocks_total,
            attn_scale_bits: UNIT_SCALE_BITS,
            rms_eps_bits: arch.rms_norm_eps_bits,
            layer_type: arch.layer_types[l],
            sliding_window: arch.sliding_window_size as u32,
            f16_kv: false,
            kv_dtype: plan_prefill_dtype(state.kv_dtypes[l]),
            bf16_residual: state.bf16_residual,
            kv_share_source_layer: match arch.kv_share_sources[l] {
                Some(s) => Some(s as u32),
                None => None,
            },
            current_max_context_len: Some(end),
        }
    }

    #[verifier::spinoff_prover]
    #[verifier::rlimit(60)]
    fn plan_layer_scratch(
        &self,
        pc: &PrefixCacheState,
        state: &SpecState,
        s: &SpecPrefillScratch,
        l: usize,
    ) -> (r: Gemma4LayerScratch)
        requires
            self.arch.wf(),
            l < self.arch.num_hidden_layers,
            layer_reaches(&self.arch, pc, state, s, l as int),
        ensures
            r == layer_scratch(&self.arch, pc, state, s, l as int),
    {
        let arch = &self.arch;
        let d = plan_prefill_dtype(state.kv_dtypes[l]);
        let heads: u32 = arch.num_kv_heads_for_layer(l) as u32;
        let width: u32 = arch.head_dim_for_layer(l) as u32;
        let (slots, elems): (u64, u64) = plan_layer_elems(pc, heads, width);
        assert(slots == layer_scale_slots(arch, pc, l as int));
        assert(elems == layer_elems(arch, pc, l as int));
        let at: usize = match arch.kv_share_sources[l] {
            Some(x) => x,
            None => l,
        };
        let kv: u64 = pc.kv_cache_ptr + pc.kv_layer_offsets[at];
        let scales: u64 = pc.kv_scale_ptr + pc.kv_scale_layer_offsets[at];
        let q_dim: u32 = (arch.num_attention_heads as u32) * width;
        let kv_dim: u32 = heads * width;
        let k_out: u64 = s.qkv_out + q_dim as u64 * 2;
        let v_out: u64 = k_out + kv_dim as u64 * 2;
        let half: u64 = match d {
            KvDtype::F16Kv => elems,
            KvDtype::Fp8 => elems / 2,
            KvDtype::Nvfp4 => elems / 4,
        };
        let nvfp4 = match d {
            KvDtype::Nvfp4 => true,
            _ => false,
        };
        let (k_cache_scale, v_cache_scale): (u64, u64) = if nvfp4 {
            (scales, scales + elems / 32)
        } else {
            (0, 0)
        };
        let (shadow_k, shadow_v, shadow_q): (u64, u64, u64) = match &state.shadow {
            Some(sh) => if sh.shadow_ptr != 0 && nvfp4 && l < sh.layer_offsets.len()
                && sh.layer_offsets[l] != u64::MAX {
                let base: u64 = sh.shadow_ptr + sh.layer_offsets[l];
                (base, base + elems, sh.shadow_q_throwaway_ptr)
            } else {
                (0, 0, 0)
            },
            None => (0, 0, 0),
        };
        let signs: u64 = match &state.hadamard {
            Some(h) => if h.base_ptr != 0 && nvfp4 {
                h.base_ptr + l as u64 * h.head_dim as u64
            } else {
                0
            },
            None => 0,
        };
        let q_scale_cache = if state.per_token_q_scale {
            Buf::start(0)
        } else {
            Buf::At(0)
        };
        Gemma4LayerScratch {
            hidden_fp8: s.hidden_fp8,
            hidden_scale: s.hidden_scale,
            q_out: s.qkv_out,
            k_out,
            v_out,
            q_normed: s.q_normed,
            k_normed: s.k_normed,
            v_normed: s.v_normed,
            q_fp8: s.q_fp8,
            k_cache: kv,
            v_cache: kv + half,
            k_cache_scale,
            v_cache_scale,
            q_scale_ptr: s.q_scale_ptr,
            kv_scale_ptr: s.kv_scale_ptr,
            k_scale_cache: scales,
            v_scale_cache: scales + slots * 4,
            q_scale_cache,
            attn_out: s.attn_out,
            attn_out_fp8: s.attn_out_fp8,
            attn_out_scale: s.attn_out_scale,
            delta_f16: s.delta_f16,
            gate_up_out: s.gate_up_out,
            gate_up_fp8: s.gate_up_fp8,
            gate_up_scale: s.gate_up_scale,
            mlp_out_fp8: s.mlp_out_fp8,
            mlp_out_scale: s.mlp_out_scale,
            gemm_f32_tmp: s.gemm_f32_tmp,
            gemm_f32_tmp_bytes: s.gemm_f32_tmp_bytes,
            cutlass_workspace: s.cutlass_ws,
            cutlass_workspace_bytes: s.cutlass_ws_bytes as usize,
            fa3_workspace: s.fa3_ws,
            fa3_workspace_bytes: SPEC_FA3_WS_BYTES as u64,
            shadow_k_cache: shadow_k,
            shadow_v_cache: shadow_v,
            shadow_q_cache: shadow_q,
            hadamard_signs_q: signs,
            hadamard_signs_k: signs,
        }
    }

    fn plan_layer_args(
        &self,
        pc: &PrefixCacheState,
        state: &SpecState,
        s: &SpecPrefillScratch,
        l: usize,
        k: u32,
        end: u32,
    ) -> (r: LayerForwardArgs)
        requires
            self.arch.wf(),
            l < self.arch.num_hidden_layers,
            l < self.model.layers@.len(),
            layer_reaches(&self.arch, pc, state, s, l as int),
        ensures
            r == self.layer_args(pc, state, s, l as int, k, end),
    {
        let (cos, sin): (u64, u64) = match self.arch.layer_types[l] {
            Gemma4LayerType::SlidingAttention => (
                self.model.rope_cos_sliding.offset_bytes,
                self.model.rope_sin_sliding.offset_bytes,
            ),
            Gemma4LayerType::GlobalAttention => (
                self.model.rope_cos_global.offset_bytes,
                self.model.rope_sin_global.offset_bytes,
            ),
        };
        LayerForwardArgs {
            dims: self.plan_layer_dims(pc, state, l, k, end),
            weights: plan_weight_ptrs(&self.model.layers[l]),
            scratch: self.plan_layer_scratch(pc, state, s, l),
            meta: Gemma4MetadataPtrs {
                positions: s.positions,
                slot_mapping: s.slot_mapping,
                cos,
                sin,
                block_tables: pc.identity_block_tables_ptr,
                context_lens: s.context_lens,
            },
            residual: s.residual,
            cu_seqlens_q: s.cu_seqlens_q,
            max_seqlen_q: k,
            num_seqs: 1,
        }
    }
}

fn plan_prefill_dtype(d: KvDtype) -> (r: KvDtype)
    ensures
        r == prefill_dtype(d),
{
    match d {
        KvDtype::Nvfp4 => KvDtype::Nvfp4,
        _ => KvDtype::Fp8,
    }
}

/// Slots times heads, and elements, of a layer's cache.
fn plan_layer_elems(pc: &PrefixCacheState, heads: u32, width: u32) -> (r: (u64, u64))
    requires
        2 * pc.num_blocks_total * pc.block_size * heads * width <= u64::MAX,
        4 * (pc.num_blocks_total * pc.block_size * heads) <= u64::MAX,
    ensures
        r.0 == pc.num_blocks_total * pc.block_size * heads,
        r.1 == 2 * pc.num_blocks_total * pc.block_size * heads * width,
{
    let n = pc.num_blocks_total;
    let b = pc.block_size;
    assert(0 <= n * b <= 0xffff_ffff * 0xffff_ffff && 0 <= n * b * heads) by (nonlinear_arith)
        requires
            n <= 0xffff_ffff,
            b <= 0xffff_ffff,
    ;
    let blocks: u64 = n as u64 * b as u64;
    let slots: u64 = blocks * heads as u64;
    assert(2 * n * b * heads * width == 2 * (slots * width)) by (nonlinear_arith)
        requires
            slots == n * b * heads,
    ;
    assert(slots * width >= 0) by (nonlinear_arith);
    let elems: u64 = 2 * (slots * width as u64);
    (slots, elems)
}

/// Whether the addresses of a layer's scratch and cache can be counted.
fn check_layer(
    arch: &Gemma4Arch,
    pc: &PrefixCacheState,
    state: &SpecState,
    s: &SpecPrefillScratch,
    l: usize,
) -> (r: bool)
    requires
        arch.wf(),
        l < arch.num_hidden_layers,
    ensures
        r == layer_reaches(arch, pc, state, s, l as int),
{
    let at: usize = match arch.kv_share_sources[l] {
        Some(source) => source,
        None => l,
    };
    if at >= pc.kv_layer_offsets.len() || at >= pc.kv_scale_layer_offsets.len() || l
        >= state.kv_dtypes.len() {
        return false;
    }
    let most: u128 = u64::MAX as u128;
    let d = plan_prefill_dtype(state.kv_dtypes[l]);
    let heads: u32 = arch.num_kv_heads_for_layer(l) as u32;
    let width: u32 = arch.head_dim_for_layer(l) as u32;
    let q_heads: u32 = arch.num_attention_heads as u32;
    let blocks = product(2, pc.num_blocks_total as u128).mul_value(pc.block_size as u128);
    let counted = blocks.mul_value(heads as u128).mul_value(width as u128);
    let slots = product(pc.num_blocks_total as u128, pc.block_size as u128).mul_value(
        heads as u128,
    );
    let kv_dim = product(heads as u128, width as u128);
    let q_dim = product(q_heads as u128, width as u128);
    let joint = q_dim.mul_value(2).add_checked(&kv_dim.mul_value(2)).add_value(s.qkv_out as u128);
    let kv: u128 = pc.kv_cache_ptr as u128 + pc.kv_layer_offsets[at] as u128;
    let scales: u128 = pc.kv_scale_ptr as u128 + pc.kv_scale_layer_offsets[at] as u128;
    if !within(&counted, most) {
        return false;
    }
    let elems: u128 = counted.unwrap();
    let half: u128 = match d {
        KvDtype::F16Kv => elems,
        KvDtype::Fp8 => elems / 2,
        KvDtype::Nvfp4 => elems / 4,
    };
    if !within(&kv_dim, u32::MAX as u128) || !within(&q_dim, u32::MAX as u128) || !within(
        &joint,
        most,
    ) || kv + half > most || scales + elems / 32 > most || !within(
        &slots.mul_value(4).add_value(scales),
        most,
    ) {
        return false;
    }
    match d {
        KvDtype::Nvfp4 => {
            let signs_reach = match &state.hadamard {
                Some(h) => within(
                    &product(l as u128, h.head_dim as u128).add_value(h.base_ptr as u128),
                    most,
                ),
                None => true,
            };
            let copy_reaches = match &state.shadow {
                Some(copy) => copy.shadow_ptr == 0 || l >= copy.layer_offsets.len()
                    || copy.layer_offsets[l] == u64::MAX || copy.shadow_ptr as u128
                    + copy.layer_offsets[l] as u128 + elems <= most,
                None => true,
            };
            signs_reach && copy_reaches
        },
        _ => true,
    }
}

/// An unusable field.
pub open spec fn field_fault(field: &'static str, reason: Reason) -> RuntimeError {
    RuntimeError::InvalidField { field, reason }
}

/// An unusable field.
#[verifier::when_used_as_spec(field_fault)]
pub fn field_err(field: &'static str, reason: Reason) -> (r: RuntimeError)
    ensures
        r == field_fault(field, reason),
{
    RuntimeError::InvalidField { field, reason }
}

/// Why a request to verify `len` tokens is refused.
pub open spec fn request_fault(len: usize, argmax_len: usize, state: &SpecState) -> Option<
    RuntimeError,
> {
    if len == 0 {
        Some(field_err("new_tokens", Reason::plain("empty")))
    } else if len > MAX_SPEC_K {
        Some(
            field_err(
                "new_tokens.len",
                Reason::two(
                    "",
                    Arg::U(len as u64),
                    " exceeds MAX_SPEC_K=",
                    Arg::U(MAX_SPEC_K as u64),
                    "",
                ),
            ),
        )
    } else if argmax_len < len {
        Some(
            field_err(
                "k_argmax_out",
                Reason::two(
                    "buf len ",
                    Arg::U(argmax_len as u64),
                    " < new_tokens.len ",
                    Arg::U(len as u64),
                    "",
                ),
            ),
        )
    } else {
        match state.prefix_cache {
            None => Some(
                field_err(
                    "prefix_cache",
                    Reason::plain(
                        "verify_batched_suffix_k_only: prefix_cache not initialised; call init_prefix_cache first",
                    ),
                ),
            ),
            Some(pc) => if pc.identity_block_tables_ptr == 0 || pc.identity_block_tables_len
                != pc.num_blocks_total {
                Some(
                    field_err(
                        "identity_block_tables",
                        Reason::plain(
                            "verify_batched_suffix_k_only: persistent identity block table missing or wrong size",
                        ),
                    ),
                )
            } else {
                None
            },
        }
    }
}

/// Whether a request to verify tokens can be served: it has one to eight
/// tokens, room for their results, and a cache with its block table.
pub fn check_request(len: usize, argmax_len: usize, state: &SpecState) -> (r: Result<
    &PrefixCacheState,
    RuntimeError,
>)
    ensures
        match r {
            Ok(pc) => request_fault(len, argmax_len, state) is None && state.prefix_cache == Some(
                *pc,
            ),
            Err(e) => request_fault(len, argmax_len, state) == Some(e),
        },
{
    if len == 0 {
        return Err(field_err("new_tokens", Reason::plain("empty")));
    }
    if len > MAX_SPEC_K {
        return Err(
            field_err(
                "new_tokens.len",
                Reason::two(
                    "",
                    Arg::U(len as u64),
                    " exceeds MAX_SPEC_K=",
                    Arg::U(MAX_SPEC_K as u64),
                    "",
                ),
            ),
        );
    }
    if argmax_len < len {
        return Err(
            field_err(
                "k_argmax_out",
                Reason::two(
                    "buf len ",
                    Arg::U(argmax_len as u64),
                    " < new_tokens.len ",
                    Arg::U(len as u64),
                    "",
                ),
            ),
        );
    }
    match &state.prefix_cache {
        None => Err(
            field_err(
                "prefix_cache",
                Reason::plain(
                    "verify_batched_suffix_k_only: prefix_cache not initialised; call init_prefix_cache first",
                ),
            ),
        ),
        Some(pc) => if pc.identity_block_tables_ptr == 0 || pc.identity_block_tables_len
            != pc.num_blocks_total {
            Err(
                field_err(
                    "identity_block_tables",
                    Reason::plain(
                        "verify_batched_suffix_k_only: persistent identity block table missing or wrong size",
                    ),
                ),
            )
        } else {
            Ok(pc)
        },
    }
}

/// Where the index of a token goes.
pub open spec fn argmax_at(s: &SpecPrefillScratch, row: int) -> u64 {
    (s.argmax_dev + 4 * row) as u64
}

/// The index of the largest logit of one row.
pub open spec fn argmax_row(s: &SpecPrefillScratch, vocab: u32, row: int) -> Step {
    Step::Launch {
        call: KernelCall::ArgmaxF32 {
            logits: Buf::At((s.logits_f32 + row * (4 * vocab)) as u64),
            out: Buf::At(argmax_at(s, row)),
            vocab: vocab as i32,
        },
        grid: Dim3::line(1),
        block: Dim3::line(
            if vocab < 1024 {
                vocab
            } else {
                1024
            },
        ),
        shared: 0,
        on_fail: OnFail::Launch("spec_verify argmax launch"),
    }
}

/// Whether the setting caps logits: a positive number.
pub open spec fn caps_logits(bits: u32) -> bool {
    0 < bits <= 0x7f80_0000
}

impl Gemma4Bringup {
    /// The scales and the metadata of a chunk: positions and slots from the
    /// start on, the length of the context, and the tokens.
    pub open spec fn chunk_steps(
        &self,
        state: &SpecState,
        s: &SpecPrefillScratch,
        start: u32,
        k: u32,
    ) -> Seq<Step> {
        let q_bytes = (4 * (MAX_SPEC_K * self.arch.num_attention_heads)) as usize;
        let end = (start + k) as u32;
        (if state.per_token_q_scale {
            seq![
                Step::Region { name: "gemma4_spec_q_scale_cache", bytes: q_bytes, align: 16 },
                Step::Zero {
                    dst: Buf::start(0),
                    bytes: q_bytes,
                    on_fail: OnFail::Memcpy("spec_verify q_scale_cache memset"),
                },
            ]
        } else {
            Seq::empty()
        }) + seq![
            Step::HostBits {
                dst: Buf::At(s.q_scale_ptr),
                bits: state.q_scale_bits,
                on_fail: OnFail::Memcpy("spec_verify q_scale htod"),
            },
            Step::HostBits {
                dst: Buf::At(s.kv_scale_ptr),
                bits: state.kv_scale_bits,
                on_fail: OnFail::Memcpy("spec_verify kv_scale htod"),
            },
            Step::HostRange {
                dst: Buf::At(s.positions),
                first: start as i32,
                count: k,
                on_fail: OnFail::Memcpy("spec_verify positions htod"),
            },
            Step::HostRange {
                dst: Buf::At(s.slot_mapping),
                first: start as i32,
                count: k,
                on_fail: OnFail::Memcpy("spec_verify slot_mapping htod"),
            },
            Step::HostRange {
                dst: Buf::At(s.context_lens),
                first: end as i32,
                count: 1,
                on_fail: OnFail::Memcpy("spec_verify context_lens htod"),
            },
            Step::HostPair {
                dst: Buf::At(s.cu_seqlens_q),
                first: 0,
                second: k as i32,
                on_fail: OnFail::Memcpy("spec_verify cu_seqlens_q htod"),
            },
            Step::HostInput {
                dst: Buf::At(s.token_ids),
                input: 0,
                bytes: (4 * k) as usize,
                on_fail: OnFail::Memcpy("spec_verify token_ids htod"),
            },
            Step::Embed {
                num_tokens: k,
                hidden: self.arch.hidden_size as u32,
                vocab: self.arch.vocab_size as u32,
                dst: Buf::At(s.residual),
                table: self.model.embedding.offset_bytes,
                ids: Buf::At(s.token_ids),
            },
        ] + if state.bf16_residual {
            seq![
                Step::F16ToBf16 {
                    data: Buf::At(s.residual),
                    n: (k * (self.arch.hidden_size as u32)) as u32,
                },
            ]
        } else {
            Seq::empty()
        }
    }

    /// One layer, and the reading of the residual where it is wanted.
    pub open spec fn verify_layer(
        &self,
        pc: &PrefixCacheState,
        state: &SpecState,
        s: &SpecPrefillScratch,
        l: int,
        k: u32,
        end: u32,
    ) -> Seq<Step> {
        seq![Step::LayerForward { args: self.layer_args(pc, state, s, l, k, end) }]
            + if state.layer_dump {
            seq![
                Step::Fence,
                Step::Read {
                    src: Buf::At(s.residual),
                    bytes: (2 * (k * (self.arch.hidden_size as u32))) as usize,
                    on_fail: OnFail::Dropped,
                },
            ]
        } else {
            Seq::empty()
        }
    }

    /// The first `n` layers.
    pub open spec fn verify_layers(
        &self,
        pc: &PrefixCacheState,
        state: &SpecState,
        s: &SpecPrefillScratch,
        n: nat,
        k: u32,
        end: u32,
    ) -> Seq<Step>
        decreases n,
    {
        if n == 0 {
            Seq::empty()
        } else {
            self.verify_layers(pc, state, s, (n - 1) as nat, k, end) + self.verify_layer(
                pc,
                state,
                s,
                n - 1,
                k,
                end,
            )
        }
    }

    /// Hidden states and tokens: the residual rows go to the caller's buffer as
    /// the layers leave them, in the format of the residual. The rows in the
    /// scratch are then normalized and give a token each.
    pub open spec fn verify_tail(
        &self,
        state: &SpecState,
        s: &SpecPrefillScratch,
        k: u32,
        out: u64,
    ) -> Seq<Step> {
        let hidden = self.arch.hidden_size as u32;
        let vocab = self.arch.vocab_size as u32;
        let elems = (k * hidden) as u32;
        seq![
            Step::Copy {
                dst: Buf::At(out),
                src: Buf::At(s.residual),
                bytes: (2 * (k * hidden)) as usize,
                on_fail: OnFail::Memcpy("spec_verify k_hidden_out DtoD"),
            },
            Step::RmsNorm {
                format: if state.bf16_residual {
                    Format16::Bf16
                } else {
                    Format16::F16Format
                },
                rows: k,
                width: hidden,
                eps_bits: self.arch.rms_norm_eps_bits,
                data: Buf::At(s.residual),
                gamma: self.model.final_norm.offset_bytes,
            },
        ] + (if state.bf16_residual {
            seq![
                Step::Bf16ToF16Sat {
                    dst: Buf::At(s.residual),
                    src: Buf::At(s.residual),
                    n: elems,
                },
            ]
        } else {
            Seq::empty()
        }) + seq![
            Step::Gemm {
                format: Format16::F16Format,
                act: Buf::At(s.residual),
                weight: self.model.lm_head_f16.offset_bytes,
                out: Buf::At(s.logits_f32),
                m: k as i32,
                n: vocab as i32,
                k: hidden as i32,
            },
        ] + (if caps_logits(self.arch.logit_softcap_bits) {
            seq![
                Step::Softcap {
                    logits: Buf::At(s.logits_f32),
                    rows: k,
                    vocab,
                    cap_bits: self.arch.logit_softcap_bits,
                },
            ]
        } else {
            Seq::empty()
        }) + Seq::new(k as nat, |row: int| argmax_row(s, vocab, row)) + seq![
            Step::Fence,
            Step::Read {
                src: Buf::At(s.argmax_dev),
                bytes: (4 * k) as usize,
                on_fail: OnFail::Memcpy("spec_verify argmax DtoH"),
            },
        ]
    }

    /// Verifying `len` tokens from a position on.
    pub open spec fn verify_program(
        &self,
        len: usize,
        start: u32,
        out: u64,
        argmax_len: usize,
        s: &SpecPrefillScratch,
        state: &SpecState,
    ) -> ProgramView {
        match request_fault(len, argmax_len, state) {
            Some(e) => refuses(e),
            None => {
                let pc = state.prefix_cache->Some_0;
                let k = len as u32;
                completes(
                    self.chunk_steps(state, s, start, k) + self.verify_layers(
                        &pc,
                        state,
                        s,
                        self.model.layers@.len(),
                        k,
                        (start + k) as u32,
                    ) + self.verify_tail(state, s, k, out),
                )
            },
        }
    }

    /// What verifying `len` tokens needs of sizes and addresses.
    pub open spec fn verify_reaches(
        &self,
        len: usize,
        start: u32,
        s: &SpecPrefillScratch,
        state: &SpecState,
    ) -> bool {
        let vocab = self.arch.vocab_size as u32;
        &&& self.arch.wf()
        &&& self.model.layers@.len() <= self.arch.num_hidden_layers
        &&& 4 * (MAX_SPEC_K * self.arch.num_attention_heads) <= usize::MAX
        &&& 2 * (len * (self.arch.hidden_size as u32)) <= u32::MAX
        &&& start + len <= i32::MAX
        &&& s.logits_f32 + len * (4 * vocab) <= u64::MAX
        &&& s.argmax_dev + 4 * len <= u64::MAX
        &&& state.prefix_cache matches Some(pc) ==> forall|l: int|
            0 <= l < self.model.layers@.len() ==> #[trigger] layer_reaches(
                &self.arch,
                &pc,
                state,
                s,
                l,
            )
    }

    /// Whether the sizes and addresses of verifying `len` tokens can be
    /// counted.
    pub fn check_reaches(
        &self,
        len: usize,
        start: u32,
        s: &SpecPrefillScratch,
        state: &SpecState,
    ) -> (r: bool)
        ensures
            r == self.verify_reaches(len, start, s, state),
    {
        let n: usize = self.model.layers.len();
        if !self.arch.check_wf() || n > self.arch.num_hidden_layers {
            return false;
        }
        let vocab: u32 = self.arch.vocab_size as u32;
        let hidden: u32 = self.arch.hidden_size as u32;
        let rows: u128 = len as u128;
        let most: u128 = u64::MAX as u128;
        let scales: u128 = 4 * (MAX_SPEC_K as u128 * self.arch.num_attention_heads as u128);
        let halves = product(rows, hidden as u128).mul_value(2);
        let logits = product(rows, 4 * (vocab as u128)).add_value(s.logits_f32 as u128);
        if scales > usize::MAX as u128 || !within(&halves, u32::MAX as u128) || start as u128 + rows
            > i32::MAX as u128 || !within(&logits, most) || s.argmax_dev as u128 + 4 * rows > most {
            return false;
        }
        let pc = match &state.prefix_cache {
            Some(pc) => pc,
            None => {
                return true;
            },
        };
        let mut l: usize = 0;
        while l < n
            invariant
                n == self.model.layers@.len(),
                l <= n,
                self.arch.wf(),
                n <= self.arch.num_hidden_layers,
                state.prefix_cache == Some(*pc),
                forall|i: int|
                    0 <= i < l ==> #[trigger] layer_reaches(&self.arch, pc, state, s, i),
            decreases n - l,
        {
            if !check_layer(&self.arch, pc, state, s, l) {
                assert(!layer_reaches(&self.arch, &state.prefix_cache->Some_0, state, s, l as int));
                return false;
            }
            l = l + 1;
        }
        true
    }

    fn plan_chunk(&self, state: &SpecState, s: &SpecPrefillScratch, start: u32, k: u32) -> (r: Vec<
        Step,
    >)
        requires
            4 * (MAX_SPEC_K * self.arch.num_attention_heads) <= usize::MAX,
            k <= MAX_SPEC_K,
            k * (self.arch.hidden_size as u32) <= u32::MAX,
            start + k <= u32::MAX,
        ensures
            r@ == self.chunk_steps(state, s, start, k),
    {
        let hidden: u32 = self.arch.hidden_size as u32;
        let end: u32 = start + k;
        let head: Vec<Step> = if state.per_token_q_scale {
            let q_bytes: usize = MAX_SPEC_K * self.arch.num_attention_heads * 4;
            vec![
                Step::Region { name: "gemma4_spec_q_scale_cache", bytes: q_bytes, align: 16 },
                Step::Zero {
                    dst: Buf::start(0),
                    bytes: q_bytes,
                    on_fail: OnFail::Memcpy("spec_verify q_scale_cache memset"),
                },
            ]
        } else {
            Vec::new()
        };
        let body: Vec<Step> =
            vec![
            Step::HostBits {
                dst: Buf::At(s.q_scale_ptr),
                bits: state.q_scale_bits,
                on_fail: OnFail::Memcpy("spec_verify q_scale htod"),
            },
            Step::HostBits {
                dst: Buf::At(s.kv_scale_ptr),
                bits: state.kv_scale_bits,
                on_fail: OnFail::Memcpy("spec_verify kv_scale htod"),
            },
            Step::HostRange {
                dst: Buf::At(s.positions),
                first: start as i32,
                count: k,
                on_fail: OnFail::Memcpy("spec_verify positions htod"),
            },
            Step::HostRange {
                dst: Buf::At(s.slot_mapping),
                first: start as i32,
                count: k,
                on_fail: OnFail::Memcpy("spec_verify slot_mapping htod"),
            },
            Step::HostRange {
                dst: Buf::At(s.context_lens),
                first: end as i32,
                count: 1,
                on_fail: OnFail::Memcpy("spec_verify context_lens htod"),
            },
            Step::HostPair {
                dst: Buf::At(s.cu_seqlens_q),
                first: 0,
                second: k as i32,
                on_fail: OnFail::Memcpy("spec_verify cu_seqlens_q htod"),
            },
            Step::HostInput {
                dst: Buf::At(s.token_ids),
                input: 0,
                bytes: k as usize * 4,
                on_fail: OnFail::Memcpy("spec_verify token_ids htod"),
            },
            Step::Embed {
                num_tokens: k,
                hidden,
                vocab: self.arch.vocab_size as u32,
                dst: Buf::At(s.residual),
                table: self.model.embedding.offset_bytes,
                ids: Buf::At(s.token_ids),
            },
        ];
        let tail: Vec<Step> = if state.bf16_residual {
            vec![Step::F16ToBf16 { data: Buf::At(s.residual), n: k * hidden }]
        } else {
            Vec::new()
        };
        let r = extend(extend(head, body), tail);
        assert(r@ =~= self.chunk_steps(state, s, start, k));
        r
    }

    fn plan_verify_layers(
        &self,
        pc: &PrefixCacheState,
        state: &SpecState,
        s: &SpecPrefillScratch,
        k: u32,
        end: u32,
    ) -> (r: Vec<Step>)
        requires
            self.arch.wf(),
            self.model.layers@.len() <= self.arch.num_hidden_layers,
            2 * (k * (self.arch.hidden_size as u32)) <= u32::MAX,
            forall|l: int|
                0 <= l < self.model.layers@.len() ==> #[trigger] layer_reaches(
                    &self.arch,
                    pc,
                    state,
                    s,
                    l,
                ),
        ensures
            r@ == self.verify_layers(pc, state, s, self.model.layers@.len(), k, end),
    {
        let hidden: u32 = self.arch.hidden_size as u32;
        let bytes: u32 = k * hidden * 2;
        let n: usize = self.model.layers.len();
        let mut r: Vec<Step> = Vec::new();
        let mut l: usize = 0;
        while l < n
            invariant
                self.arch.wf(),
                n == self.model.layers@.len(),
                n <= self.arch.num_hidden_layers,
                l <= n,
                bytes == 2 * (k * (self.arch.hidden_size as u32)),
                forall|i: int|
                    0 <= i < self.model.layers@.len() ==> #[trigger] layer_reaches(
                        &self.arch,
                        pc,
                        state,
                        s,
                        i,
                    ),
                r@ == self.verify_layers(pc, state, s, l as nat, k, end),
            decreases n - l,
        {
            let ghost before = r@;
            assert(layer_reaches(&self.arch, pc, state, s, l as int));
            r.push(
                Step::LayerForward { args: self.plan_layer_args(pc, state, s, l, k, end) },
            );
            if state.layer_dump {
                r.push(Step::Fence);
                r.push(
                    Step::Read {
                        src: Buf::At(s.residual),
                        bytes: bytes as usize,
                        on_fail: OnFail::Dropped,
                    },
                );
            }
            assert(r@ =~= before + self.verify_layer(pc, state, s, l as int, k, end));
            l = l + 1;
        }
        r
    }

    fn plan_argmax_rows(s: &SpecPrefillScratch, vocab: u32, k: u32) -> (r: Vec<Step>)
        requires
            s.logits_f32 + k * (4 * vocab) <= u64::MAX,
            s.argmax_dev + 4 * k <= u64::MAX,
        ensures
            r@ == Seq::new(k as nat, |row: int| argmax_row(s, vocab, row)),
    {
        let threads: u32 = if vocab < 1024 {
            vocab
        } else {
            1024
        };
        let mut r: Vec<Step> = Vec::new();
        let mut row: u32 = 0;
        while row < k
            invariant
                row <= k,
                threads == (if vocab < 1024 {
                    vocab
                } else {
                    1024
                }),
                s.logits_f32 + k * (4 * vocab) <= u64::MAX,
                s.argmax_dev + 4 * k <= u64::MAX,
                r@ =~= Seq::new(row as nat, |i: int| argmax_row(s, vocab, i)),
            decreases k - row,
        {
            assert(row * (4 * vocab) <= k * (4 * vocab) && row * vocab * 4 == row * (4 * vocab)
                && 0 <= row * vocab <= row * vocab * 4) by (nonlinear_arith)
                requires
                    row <= k,
            ;
            let at: u64 = s.logits_f32 + row as u64 * vocab as u64 * 4;
            r.push(
                Step::Launch {
                    call: KernelCall::ArgmaxF32 {
                        logits: Buf::At(at),
                        out: Buf::At(s.argmax_dev + row as u64 * 4),
                        vocab: vocab as i32,
                    },
                    grid: Dim3::line(1),
                    block: Dim3::line(threads),
                    shared: 0,
                    on_fail: OnFail::Launch("spec_verify argmax launch"),
                },
            );
            row = row + 1;
        }
        r
    }

    fn plan_verify_tail(&self, state: &SpecState, s: &SpecPrefillScratch, k: u32, out: u64) -> (r:
        Vec<Step>)
        requires
            k <= MAX_SPEC_K,
            2 * (k * (self.arch.hidden_size as u32)) <= u32::MAX,
            s.logits_f32 + k * (4 * (self.arch.vocab_size as u32)) <= u64::MAX,
            s.argmax_dev + 4 * k <= u64::MAX,
        ensures
            r@ == self.verify_tail(state, s, k, out),
    {
        let hidden: u32 = self.arch.hidden_size as u32;
        let vocab: u32 = self.arch.vocab_size as u32;
        let elems: u32 = k * hidden;
        let format = if state.bf16_residual {
            Format16::Bf16
        } else {
            Format16::F16Format
        };
        let head: Vec<Step> =
            vec![
            Step::Copy {
                dst: Buf::At(out),
                src: Buf::At(s.residual),
                bytes: (elems * 2) as usize,
                on_fail: OnFail::Memcpy("spec_verify k_hidden_out DtoD"),
            },
            Step::RmsNorm {
                format,
                rows: k,
                width: hidden,
                eps_bits: self.arch.rms_norm_eps_bits,
                data: Buf::At(s.residual),
                gamma: self.model.final_norm.offset_bytes,
            },
        ];
        let narrow: Vec<Step> = if state.bf16_residual {
            vec![
                Step::Bf16ToF16Sat {
                    dst: Buf::At(s.residual),
                    src: Buf::At(s.residual),
                    n: elems,
                },
            ]
        } else {
            Vec::new()
        };
        let product: Vec<Step> =
            vec![
            Step::Gemm {
                format: Format16::F16Format,
                act: Buf::At(s.residual),
                weight: self.model.lm_head_f16.offset_bytes,
                out: Buf::At(s.logits_f32),
                m: k as i32,
                n: vocab as i32,
                k: hidden as i32,
            },
        ];
        let cap_bits: u32 = self.arch.logit_softcap_bits;
        let cap: Vec<Step> = if 0 < cap_bits && cap_bits <= 0x7f80_0000 {
            vec![
                Step::Softcap { logits: Buf::At(s.logits_f32), rows: k, vocab, cap_bits },
            ]
        } else {
            Vec::new()
        };
        let rows = Self::plan_argmax_rows(s, vocab, k);
        let tail: Vec<Step> =
            vec![
            Step::Fence,
            Step::Read {
                src: Buf::At(s.argmax_dev),
                bytes: k as usize * 4,
                on_fail: OnFail::Memcpy("spec_verify argmax DtoH"),
            },
        ];
        let r = extend(extend(extend(extend(extend(head, narrow), product), cap), rows), tail);
        assert(r@ =~= self.verify_tail(state, s, k, out));
        r
    }

    /// Verifies tokens from `start_pos` on against the persistent cache: the
    /// host argument is the tokens, the last reading an index for each. The
    /// residual rows go to `k_hidden_out` as the layers leave them: in half
    /// precision, or in bf16 where the residual is.
    pub fn verify_batched_suffix_k_only(
        &self,
        new_tokens: &[u32],
        start_pos: u32,
        k_hidden_out: u64,
        argmax_len: usize,
        s: &SpecPrefillScratch,
        state: &SpecState,
    ) -> (r: Program)
        requires
            request_fault(new_tokens@.len() as usize, argmax_len, state) is None
                ==> self.verify_reaches(new_tokens@.len() as usize, start_pos, s, state),
        ensures
            r@ == self.verify_program(
                new_tokens@.len() as usize,
                start_pos,
                k_hidden_out,
                argmax_len,
                s,
                state,
            ),
    {
        let len: usize = new_tokens.len();
        let pc = match check_request(len, argmax_len, state) {
            Ok(pc) => pc,
            Err(e) => {
                return Program::refuse(e);
            },
        };
        let k: u32 = len as u32;
        assert(k * (self.arch.hidden_size as u32) >= 0) by (nonlinear_arith);
        let head = self.plan_chunk(state, s, start_pos, k);
        let layers = self.plan_verify_layers(pc, state, s, k, start_pos + k);
        let tail = self.plan_verify_tail(state, s, k, k_hidden_out);
        Program::complete(extend(extend(head, layers), tail))
    }

    /// What commits one token at `start_pos`.
    pub open spec fn commit_program(
        &self,
        start_pos: u32,
        k_hidden_out: u64,
        s: &SpecPrefillScratch,
        state: &SpecState,
    ) -> ProgramView {
        self.verify_program(1, start_pos, k_hidden_out, 1, s, state)
    }

    /// Commits one token at `start_pos`: the same as verifying it alone.
    pub fn commit_base_tokens_from_state(
        &self,
        new_token: u32,
        start_pos: u32,
        k_hidden_out: u64,
        s: &SpecPrefillScratch,
        state: &SpecState,
    ) -> (r: Program)
        requires
            request_fault(1, 1, state) is None ==> self.verify_reaches(1, start_pos, s, state),
        ensures
            r@ == self.commit_program(start_pos, k_hidden_out, s, state),
    {
        let tokens: Vec<u32> = vec![new_token];
        self.verify_batched_suffix_k_only(
            tokens.as_slice(),
            start_pos,
            k_hidden_out,
            1,
            s,
            state,
        )
    }
}

/// The token behind an index: a negative one stands for the first.
pub open spec fn token_of(id: i32) -> u32 {
    if id > 0 {
        id as u32
    } else {
        0
    }
}

/// Puts the verified tokens at the head of a buffer and leaves the rest.
pub fn store_argmax(ids: &[i32], out: &mut Vec<u32>)
    requires
        ids@.len() <= old(out)@.len(),
    ensures
        final(out)@.len() == old(out)@.len(),
        forall|i: int| 0 <= i < ids@.len() ==> #[trigger] final(out)@[i] == token_of(ids@[i]),
        forall|i: int|
            ids@.len() <= i < old(out)@.len() ==> #[trigger] final(out)@[i] == old(out)@[i],
{
    let ghost before = out@;
    let mut i: usize = 0;
    while i < ids.len()
        invariant
            i <= ids@.len(),
            ids@.len() <= out@.len(),
            out@.len() == before.len(),
            forall|j: int| 0 <= j < i ==> #[trigger] out@[j] == token_of(ids@[j]),
            forall|j: int| i <= j < before.len() ==> #[trigger] out@[j] == before[j],
        decreases ids@.len() - i,
    {
        let id: i32 = ids[i];
        let t: u32 = if id > 0 {
            id as u32
        } else {
            0
        };
        out.set(i, t);
        i = i + 1;
    }
}

/// A request that is not refused writes the cache from its position on, one
/// slot a token, with the positions in step with the slots and the context as
/// long as what is then written.
pub proof fn law_chunk_metadata(
    b: &Gemma4Bringup,
    state: &SpecState,
    s: &SpecPrefillScratch,
    start: u32,
    k: u32,
)
    requires
        start + k <= i32::MAX,
    ensures
        ({
            let steps = b.chunk_steps(state, s, start, k);
            let o: int = if state.per_token_q_scale {
                2
            } else {
                0
            };
            &&& steps[o + 2] matches Step::HostRange { dst, first, count, .. } && dst == Buf::At(
                s.positions,
            ) && first == start && count == k
            &&& steps[o + 3] matches Step::HostRange { dst, first, count, .. } && dst == Buf::At(
                s.slot_mapping,
            ) && first == start && count == k
            &&& steps[o + 4] matches Step::HostRange { dst, first, count, .. } && dst == Buf::At(
                s.context_lens,
            ) && first == start + k && count == 1
        }),
{
}

/// Keys and values of a layer do not overlap in the cache: half of its bytes
/// lie between them, in every format that a prefill writes.
pub proof fn law_cache_halves(arch: &Gemma4Arch, pc: &PrefixCacheState, l: int, d: KvDtype)
    requires
        d == prefill_dtype(d),
    ensures
        ({
            let elems = layer_elems(arch, pc, l);
            let half = elems / 2;
            &&& elems == 2 * half
            &&& d == KvDtype::Fp8 ==> half_cache_bytes(d, elems) == half
            &&& d == KvDtype::Nvfp4 && half % 2 == 0 ==> 2 * half_cache_bytes(d, elems) == half
        }),
{
    let n = pc.num_blocks_total as int;
    let b = pc.block_size as int;
    let h = arch.num_kv_heads(l) as u32 as int;
    let w = arch.head_dim(l) as u32 as int;
    assert(2 * n * b * h * w == 2 * (n * b * h * w)) by (nonlinear_arith);
}

impl Gemma4Bringup {
    /// A chunk runs each layer once and in order.
    pub proof fn law_verify_order(
        &self,
        pc: &PrefixCacheState,
        state: &SpecState,
        s: &SpecPrefillScratch,
        n: nat,
        k: u32,
        end: u32,
    )
        requires
            !state.layer_dump,
        ensures
            self.verify_layers(pc, state, s, n, k, end) == Seq::new(
                n,
                |l: int| Step::LayerForward { args: self.layer_args(pc, state, s, l, k, end) },
            ),
        decreases n,
    {
        let all = Seq::new(
            n,
            |l: int| Step::LayerForward { args: self.layer_args(pc, state, s, l, k, end) },
        );
        if n > 0 {
            let m = (n - 1) as nat;
            self.law_verify_order(pc, state, s, m, k, end);
            assert(self.verify_layer(pc, state, s, m as int, k, end) =~= seq![all[m as int]]);
        }
        assert(self.verify_layers(pc, state, s, n, k, end) =~= all);
    }

    /// What `k_hidden_out` holds in the end is what the layers leave in the
    /// residual: it is copied there right behind the last layer, and no later
    /// step writes the buffer, unless it is part of the scratch.
    pub proof fn law_hidden_rows_stay(
        &self,
        state: &SpecState,
        s: &SpecPrefillScratch,
        k: u32,
        out: u64,
    )
        requires
            out != s.residual,
            out != s.logits_f32,
            forall|row: int| 0 <= row < k ==> out != #[trigger] argmax_at(s, row),
        ensures
            ({
                let tail = self.verify_tail(state, s, k, out);
                &&& tail[0] matches Step::Copy { dst, src, bytes, .. } && dst == Buf::At(out)
                    && src == Buf::At(s.residual) && bytes == (2 * (k * (
                self.arch.hidden_size as u32))) as usize
                &&& forall|i: int|
                    1 <= i < tail.len() ==> !writes(#[trigger] tail[i]).contains(out)
            }),
    {
        let tail = self.verify_tail(state, s, k, out);
        let rows: int = tail.len() - k - 2;
        assert forall|i: int| 1 <= i < tail.len() implies !writes(
            #[trigger] tail[i],
        ).contains(out) by {
            if rows <= i < rows + k {
                assert(tail[i] == argmax_row(s, self.arch.vocab_size as u32, i - rows));
                assert(out != argmax_at(s, i - rows));
            }
        }
    }

    /// Whether the scales of every query token of a chunk have room.
    spec fn has_scales(&self, state: &SpecState, h: Held) -> bool {
        state.per_token_q_scale ==> h.regions.len() >= 1 && h.regions[0] >= 4 * (MAX_SPEC_K * (
        self.arch.num_attention_heads as u32))
    }

    /// Whether the buffers that a chunk of `k` tokens passes through have room.
    pub open spec fn has_rows(&self, s: &SpecPrefillScratch, k: u32, out: u64, h: Held) -> bool {
        let hidden = self.arch.hidden_size as u32;
        let vocab = self.arch.vocab_size as u32;
        &&& h.has(Buf::At(s.q_scale_ptr), 4)
        &&& h.has(Buf::At(s.kv_scale_ptr), 4)
        &&& h.has(Buf::At(s.positions), 4 * k)
        &&& h.has(Buf::At(s.slot_mapping), 4 * k)
        &&& h.has(Buf::At(s.context_lens), 4)
        &&& h.has(Buf::At(s.cu_seqlens_q), 8)
        &&& h.has(Buf::At(s.token_ids), 4 * k)
        &&& h.has(Buf::At(s.residual), 2 * (k * hidden))
        &&& h.has(Buf::At(out), 2 * (k * hidden))
        &&& h.has(Buf::At(s.logits_f32), 4 * (k * vocab))
        &&& h.has(Buf::At(s.argmax_dev), 4 * k)
        &&& forall|row: int|
            0 <= row < k ==> h.has(#[trigger] self.logits_row(s, row), 4 * vocab) && h.has(
                Buf::At((s.argmax_dev + 4 * row) as u64),
                4,
            )
    }

    /// Where the logits of a token lie.
    pub open spec fn logits_row(&self, s: &SpecPrefillScratch, row: int) -> Buf {
        Buf::At((s.logits_f32 + row * (4 * (self.arch.vocab_size as u32))) as u64)
    }

    proof fn lemma_layers_in_bounds(
        &self,
        pc: &PrefixCacheState,
        state: &SpecState,
        s: &SpecPrefillScratch,
        n: nat,
        k: u32,
        end: u32,
        out: u64,
        h: Held,
    )
        requires
            k <= MAX_SPEC_K,
            self.has_scales(state, h),
            self.has_rows(s, k, out, h),
            2 * (k * (self.arch.hidden_size as u32)) <= usize::MAX,
        ensures
            ({
                let steps = self.verify_layers(pc, state, s, n, k, end);
                in_bounds(steps, h) && held_after(steps, steps.len(), h).regions == h.regions
            }),
        decreases n,
    {
        if n == 0 {
            lemma_none_in_bounds(h);
        } else {
            let m = (n - 1) as nat;
            self.lemma_layers_in_bounds(pc, state, s, m, k, end, out, h);
            let before = self.verify_layers(pc, state, s, m, k, end);
            let g = held_after(before, before.len(), h);
            let own = self.verify_layer(pc, state, s, m as int, k, end);
            lemma_lent_stays(before, before.len(), h);
            self.lemma_rows_stay(s, k, out, h, g);
            self.lemma_layer_in_bounds(pc, state, s, m as int, k, end, out, g);
            law_in_bounds_joins(before, own, h);
        }
    }

    proof fn lemma_rows_stay(&self, s: &SpecPrefillScratch, k: u32, out: u64, h: Held, g: Held)
        requires
            self.has_rows(s, k, out, h),
            g.lent == h.lent,
        ensures
            self.has_rows(s, k, out, g),
    {
        assert forall|row: int| 0 <= row < k implies g.has(
            #[trigger] self.logits_row(s, row),
            4 * (self.arch.vocab_size as u32),
        ) && g.has(Buf::At((s.argmax_dev + 4 * row) as u64), 4) by {
            assert(h.has(self.logits_row(s, row), 4 * (self.arch.vocab_size as u32)));
        }
    }

    proof fn lemma_layer_in_bounds(
        &self,
        pc: &PrefixCacheState,
        state: &SpecState,
        s: &SpecPrefillScratch,
        l: int,
        k: u32,
        end: u32,
        out: u64,
        h: Held,
    )
        requires
            k <= MAX_SPEC_K,
            self.has_scales(state, h),
            self.has_rows(s, k, out, h),
            2 * (k * (self.arch.hidden_size as u32)) <= usize::MAX,
        ensures
            ({
                let steps = self.verify_layer(pc, state, s, l, k, end);
                in_bounds(steps, h) && held_after(steps, steps.len(), h).regions == h.regions
            }),
    {
        let steps = self.verify_layer(pc, state, s, l, k, end);
        let heads = self.arch.num_attention_heads as u32;
        assert(k * heads <= MAX_SPEC_K * heads) by (nonlinear_arith)
            requires
                k <= MAX_SPEC_K,
        ;
        assert(k * (self.arch.hidden_size as u32) >= 0) by (nonlinear_arith);
        reveal(in_bounds);
        reveal_with_fuel(held_after, 4);
        assert(step_in(steps[0], h));
        if state.layer_dump {
            assert(step_in(steps[2], h));
        }
    }

    proof fn lemma_chunk_in_bounds(
        &self,
        state: &SpecState,
        s: &SpecPrefillScratch,
        start: u32,
        k: u32,
        out: u64,
        lent: Map<u64, nat>,
    )
        requires
            4 * (MAX_SPEC_K * self.arch.num_attention_heads) <= usize::MAX,
            4 * (k * (self.arch.hidden_size as u32)) <= u32::MAX,
            4 * k <= usize::MAX,
            self.has_rows(s, k, out, lends(lent)),
        ensures
            ({
                let steps = self.chunk_steps(state, s, start, k);
                &&& in_bounds(steps, lends(lent))
                &&& self.has_scales(state, held_after(steps, steps.len(), lends(lent)))
            }),
    {
        let steps = self.chunk_steps(state, s, start, k);
        let h = lends(lent);
        let c = if state.per_token_q_scale {
            2int
        } else {
            0int
        };
        let a = steps.take(c);
        let b = steps.subrange(c, steps.len() as int);
        let bytes = 4 * (MAX_SPEC_K * self.arch.num_attention_heads);
        assert(in_bounds(a, h) && self.has_scales(state, held_after(a, a.len(), h))) by {
            reveal(in_bounds);
            reveal_with_fuel(held_after, 3);
            if c == 2 {
                let one = Held { regions: seq![bytes as nat], ..h };
                assert(held_after(a, 1, h) =~= one);
                assert(step_in(a[1], one));
            }
        }
        let g = held_after(a, a.len(), h);
        lemma_lent_stays(a, a.len(), h);
        self.lemma_rows_stay(s, k, out, h, g);
        self.lemma_inputs_in_bounds(state, s, start, k, out, g, b);
        law_in_bounds_joins(a, b, h);
        assert(steps =~= a + b);
    }

    #[verifier::spinoff_prover]
    #[verifier::rlimit(40)]
    proof fn lemma_inputs_in_bounds(
        &self,
        state: &SpecState,
        s: &SpecPrefillScratch,
        start: u32,
        k: u32,
        out: u64,
        h: Held,
        b: Seq<Step>,
    )
        requires
            4 * (k * (self.arch.hidden_size as u32)) <= u32::MAX,
            4 * k <= usize::MAX,
            self.has_rows(s, k, out, h),
            b == self.chunk_steps(state, s, start, k).subrange(
                if state.per_token_q_scale {
                    2
                } else {
                    0
                },
                self.chunk_steps(state, s, start, k).len() as int,
            ),
        ensures
            in_bounds(b, h),
            held_after(b, b.len(), h) == h,
    {
        assert(k * (self.arch.hidden_size as u32) >= 0) by (nonlinear_arith);
        reveal(in_bounds);
        reveal_with_fuel(held_after, 10);
        assert(step_in(b[0], h));
        assert(step_in(b[1], h));
        assert(step_in(b[2], h));
        assert(step_in(b[3], h));
        assert(step_in(b[4], h));
        assert(step_in(b[5], h));
        assert(step_in(b[6], h));
        assert(step_in(b[7], h));
        if state.bf16_residual {
            assert(step_in(b[8], h));
        }
    }

    #[verifier::spinoff_prover]
    #[verifier::rlimit(40)]
    proof fn lemma_tail_in_bounds(
        &self,
        state: &SpecState,
        s: &SpecPrefillScratch,
        k: u32,
        out: u64,
        h: Held,
    )
        requires
            4 * (k * (self.arch.hidden_size as u32)) <= u32::MAX,
            2 * (k * (self.arch.hidden_size as u32)) <= usize::MAX,
            4 * k <= usize::MAX,
            k <= i32::MAX,
            self.arch.hidden_size as u32 <= i32::MAX,
            self.arch.vocab_size as u32 <= i32::MAX,
            self.has_rows(s, k, out, h),
        ensures
            in_bounds(self.verify_tail(state, s, k, out), h),
    {
        let c = self.verify_tail(state, s, k, out);
        assert(k * (self.arch.hidden_size as u32) >= 0) by (nonlinear_arith);
        reveal(in_bounds);
        let rows: int = c.len() - k - 2;
        assert forall|i: int| 0 <= i < c.len() implies step_in(
            #[trigger] c[i],
            held_after(c, i as nat, h),
        ) by {
            let g = held_after(c, i as nat, h);
            lemma_lent_stays(c, i as nat, h);
            self.lemma_rows_stay(s, k, out, h, g);
            if rows <= i < rows + k {
                let row = i - rows;
                assert(c[i] == argmax_row(s, self.arch.vocab_size as u32, row));
                assert(g.has(self.logits_row(s, row), 4 * (self.arch.vocab_size as u32)));
            }
        }
    }

    /// Verifying a chunk stays within the region of its query scales, and
    /// within the buffers that it is given where they have room for its rows.
    #[verifier::spinoff_prover]
    pub proof fn law_verify_in_bounds(
        &self,
        len: usize,
        start: u32,
        out: u64,
        argmax_len: usize,
        s: &SpecPrefillScratch,
        state: &SpecState,
        lent: Map<u64, nat>,
    )
        requires
            4 * (MAX_SPEC_K * self.arch.num_attention_heads) <= usize::MAX,
            4 * (len * (self.arch.hidden_size as u32)) <= u32::MAX,
            self.arch.hidden_size as u32 <= i32::MAX,
            self.arch.vocab_size as u32 <= i32::MAX,
            self.has_rows(s, len as u32, out, lends(lent)),
        ensures
            in_bounds(
                self.verify_program(len, start, out, argmax_len, s, state).steps,
                lends(lent),
            ),
    {
        let h = lends(lent);
        lemma_none_in_bounds(h);
        if request_fault(len, argmax_len, state) is None {
            let pc = state.prefix_cache->Some_0;
            let k = len as u32;
            let n = self.model.layers@.len();
            let a = self.chunk_steps(state, s, start, k);
            self.lemma_chunk_in_bounds(state, s, start, k, out, lent);
            let g = held_after(a, a.len(), h);
            lemma_lent_stays(a, a.len(), h);
            self.lemma_rows_stay(s, k, out, h, g);
            let b = self.verify_layers(&pc, state, s, n, k, (start + k) as u32);
            self.lemma_layers_in_bounds(&pc, state, s, n, k, (start + k) as u32, out, g);
            let f = held_after(b, b.len(), g);
            let c = self.verify_tail(state, s, k, out);
            lemma_lent_stays(b, b.len(), g);
            self.lemma_rows_stay(s, k, out, g, f);
            self.lemma_tail_in_bounds(state, s, k, out, f);
            law_in_bounds_joins(a, b, h);
            law_in_bounds_joins(a + b, c, h);
        }
    }

    /// The scratch that is prepared for `k_max` tokens is enough for any chunk
    /// of up to `k_max` tokens: verifying it leaves none of its buffers.
    pub proof fn law_prepared_scratch_is_enough(
        &self,
        len: usize,
        start: u32,
        out: u64,
        argmax_len: usize,
        state: &SpecState,
        k_max: u32,
        ptrs: Seq<u64>,
        buffers: Map<u64, nat>,
    )
        requires
            scratch_fits(&self.arch, k_max as nat),
            4 * (MAX_SPEC_K * self.arch.num_attention_heads) <= usize::MAX,
            1 <= len <= k_max,
            self.arch.hidden_size as u32 <= i32::MAX,
            self.arch.vocab_size as u32 <= i32::MAX,
            ptrs.len() == 29,
            apart(buffers),
            forall|i: int|
                0 <= i < 29 ==> buffers.contains_key(#[trigger] ptrs[i]) && buffers[ptrs[i]]
                    == scratch_regions(&self.arch, k_max as int)[i]->Region_bytes && ptrs[i]
                    + buffers[ptrs[i]] <= u64::MAX,
            lends(room_in(buffers)).has(
                Buf::At(out),
                2 * (len * (self.arch.hidden_size as u32)),
            ),
        ensures
            in_bounds(
                self.verify_program(
                    len,
                    start,
                    out,
                    argmax_len,
                    &scratch_at(&self.arch, k_max as int, ptrs),
                    state,
                ).steps,
                lends(room_in(buffers)),
            ),
    {
        let lent = room_in(buffers);
        let h = lends(lent);
        let s = &scratch_at(&self.arch, k_max as int, ptrs);
        let regions = scratch_regions(&self.arch, k_max as int);
        let hidden = self.arch.hidden_size as u32 as int;
        let vocab = self.arch.vocab_size as u32 as int;
        let k = len as u32;
        assert(k * hidden <= k_max * hidden && k * vocab <= k_max * vocab && hidden * 1 <= hidden
            * k_max && 0 <= k * hidden && 0 <= k * vocab && k_max * hidden <= k_max * widest_gemm(
            &self.arch,
        )) by (nonlinear_arith)
            requires
                1 <= k <= k_max,
                0 <= hidden <= widest_gemm(&self.arch),
                0 <= vocab,
        ;
        self.lemma_scratch_has_rows(k, k_max, out, ptrs, buffers);
        self.law_verify_in_bounds(len, start, out, argmax_len, s, state, lent);
    }

    #[verifier::spinoff_prover]
    #[verifier::rlimit(40)]
    proof fn lemma_scratch_has_rows(
        &self,
        k: u32,
        k_max: u32,
        out: u64,
        ptrs: Seq<u64>,
        buffers: Map<u64, nat>,
    )
        requires
            scratch_fits(&self.arch, k_max as nat),
            1 <= k <= k_max,
            ptrs.len() == 29,
            apart(buffers),
            forall|i: int|
                0 <= i < 29 ==> buffers.contains_key(#[trigger] ptrs[i]) && buffers[ptrs[i]]
                    == scratch_regions(&self.arch, k_max as int)[i]->Region_bytes && ptrs[i]
                    + buffers[ptrs[i]] <= u64::MAX,
            lends(room_in(buffers)).has(Buf::At(out), 2 * (k * (self.arch.hidden_size as u32))),
        ensures
            self.has_rows(
                &scratch_at(&self.arch, k_max as int, ptrs),
                k,
                out,
                lends(room_in(buffers)),
            ),
    {
        let h = lends(room_in(buffers));
        let s = &scratch_at(&self.arch, k_max as int, ptrs);
        let hidden = self.arch.hidden_size as u32 as int;
        let vocab = self.arch.vocab_size as u32 as int;
        assert(k * hidden <= k_max * hidden && k * vocab <= k_max * vocab && 0 <= k * hidden && 0
            <= k * vocab && k_max * hidden <= k_max * widest_gemm(&self.arch)) by (nonlinear_arith)
            requires
                1 <= k <= k_max,
                0 <= hidden <= widest_gemm(&self.arch),
                0 <= vocab,
        ;
        law_part_of_buffer(buffers, h, ptrs[17], 0, 4);
        law_part_of_buffer(buffers, h, ptrs[18], 0, 4);
        law_part_of_buffer(buffers, h, ptrs[21], 0, 2 * (k * hidden));
        law_part_of_buffer(buffers, h, ptrs[22], 0, 4 * k);
        law_part_of_buffer(buffers, h, ptrs[23], 0, 4 * k);
        law_part_of_buffer(buffers, h, ptrs[24], 0, 4 * k);
        law_part_of_buffer(buffers, h, ptrs[25], 0, 4);
        law_part_of_buffer(buffers, h, ptrs[26], 0, 8);
        law_part_of_buffer(buffers, h, ptrs[27], 0, 4 * (k * vocab));
        law_part_of_buffer(buffers, h, ptrs[28], 0, 4 * k);
        assert forall|row: int| 0 <= row < k implies h.has(
            #[trigger] self.logits_row(s, row),
            4 * vocab,
        ) && h.has(Buf::At((s.argmax_dev + 4 * row) as u64), 4) by {
            assert(0 <= row * (4 * vocab) && row * (4 * vocab) + 4 * vocab <= 4 * (k_max * vocab))
                by (nonlinear_arith)
                requires
                    0 <= row < k <= k_max,
                    0 <= vocab,
            ;
            law_part_of_buffer(buffers, h, ptrs[27], row * (4 * vocab), 4 * vocab);
            law_part_of_buffer(buffers, h, ptrs[28], 4 * row, 4);
        }
    }
}

} // verus!
