//! What verifying a chunk of drafted tokens computes: where keys and values of
//! each layer go, what each layer runs on, and where the tokens come from.

use crate::loader::gemma4_arch::Gemma4LayerType;
use crate::loader::weights::{F16Weight, Fp8Weight};
use crate::runtime::dataflow::{
    after_steps, copied, embedded, law_leaves_joins, leaves, norm, product, Memory, Val,
};
use crate::runtime::gemma4_drafter::KvDtype;
use crate::runtime::gemma4_spec_primitives::{
    argmax_row, layer_elems, layer_reaches, layer_scale_slots, request_fault, token_of,
    Gemma4Bringup, PrefixCacheState, SpecPrefillScratch, SpecState,
};
use crate::runtime::layer_exec::{Gemma4LayerWeightPtrs, LayerForwardArgs};
use crate::runtime::step::{Buf, Format16, KernelCall, Step};
use vstd::prelude::*;

verus! {

/// Whether a layer attends to all positions.
pub open spec fn spec_attends_globally(b: &Gemma4Bringup, l: int) -> bool {
    b.arch.layer_types@[l] == Gemma4LayerType::GlobalAttention
}

/// Key/value heads of a layer.
pub open spec fn kv_heads(b: &Gemma4Bringup, l: int) -> int {
    (if spec_attends_globally(b, l) {
        b.arch.num_kv_heads_global
    } else {
        b.arch.num_kv_heads_sliding
    }) as u32 as int
}

/// Width of a layer's heads.
pub open spec fn width(b: &Gemma4Bringup, l: int) -> int {
    (if spec_attends_globally(b, l) {
        b.arch.head_dim_global
    } else {
        b.arch.head_dim_sliding
    }) as u32 as int
}

/// Elements of the keys of a layer in the cache; as many values.
pub open spec fn key_elements(b: &Gemma4Bringup, pc: &PrefixCacheState, l: int) -> int {
    pc.num_blocks_total * pc.block_size * kv_heads(b, l) * width(b, l)
}

/// Whether two ranges of `n` bytes each are next to each other and make up the
/// `2 * n` bytes from `base` on.
pub open spec fn halves_of(base: int, first: u64, second: u64, n: int) -> bool {
    &&& first == base
    &&& first + n == second
    &&& second + n == base + 2 * n
}

/// Where keys and values of a layer, and their scales, lie in the cache: in
/// two halves of what the layer has there, or the layer whose cache it shares.
/// FP8 has a byte an element and a 32-bit scale for each slot and head; NVFP4
/// has half a byte an element and a scale byte for sixteen.
pub open spec fn cache_halves(
    b: &Gemma4Bringup,
    pc: &PrefixCacheState,
    state: &SpecState,
    l: int,
    args: LayerForwardArgs,
) -> bool {
    let source = match b.arch.kv_share_sources@[l] {
        Some(other) => other as int,
        None => l,
    };
    let elems = key_elements(b, pc, l);
    let slots = pc.num_blocks_total * pc.block_size * kv_heads(b, l);
    let at = pc.kv_cache_ptr + pc.kv_layer_offsets@[source];
    let scales = pc.kv_scale_ptr + pc.kv_scale_layer_offsets@[source];
    let m = args.scratch;
    &&& halves_of(scales, m.k_scale_cache, m.v_scale_cache, 4 * slots)
    &&& if state.kv_dtypes@[l] == KvDtype::Nvfp4 {
        &&& args.dims.kv_dtype == KvDtype::Nvfp4
        &&& halves_of(at, m.k_cache, m.v_cache, elems / 2)
        &&& halves_of(scales, m.k_cache_scale, m.v_cache_scale, elems / 16)
    } else {
        &&& args.dims.kv_dtype == KvDtype::Fp8
        &&& halves_of(at, m.k_cache, m.v_cache, elems)
        &&& m.k_cache_scale == 0
        &&& m.v_cache_scale == 0
    }
}

/// Where the unquantized copy of a layer's cache lies, and the signs of its
/// rotation: only an NVFP4 layer has them.
pub open spec fn cache_extras(
    b: &Gemma4Bringup,
    pc: &PrefixCacheState,
    state: &SpecState,
    l: int,
    args: LayerForwardArgs,
) -> bool {
    let nvfp4 = state.kv_dtypes@[l] == KvDtype::Nvfp4;
    let m = args.scratch;
    &&& match state.shadow {
        Some(c) => if nvfp4 && c.shadow_ptr != 0 && l < c.layer_offsets@.len()
            && c.layer_offsets@[l] != u64::MAX {
            &&& halves_of(
                c.shadow_ptr + c.layer_offsets@[l],
                m.shadow_k_cache,
                m.shadow_v_cache,
                2 * key_elements(b, pc, l),
            )
            &&& m.shadow_q_cache == c.shadow_q_throwaway_ptr
        } else {
            m.shadow_k_cache == 0 && m.shadow_v_cache == 0 && m.shadow_q_cache == 0
        },
        None => m.shadow_k_cache == 0 && m.shadow_v_cache == 0 && m.shadow_q_cache == 0,
    }
    &&& m.hadamard_signs_q == m.hadamard_signs_k
    &&& match state.hadamard {
        Some(h) => if nvfp4 && h.base_ptr != 0 {
            m.hadamard_signs_k == h.base_ptr + l * h.head_dim
        } else {
            m.hadamard_signs_k == 0
        },
        None => m.hadamard_signs_k == 0,
    }
}

/// Whether addresses are those of a weight in half precision, or zero.
pub open spec fn half_at(w: Option<F16Weight>, ptr: u64) -> bool {
    match w {
        Some(w) => ptr == w.offset_bytes,
        None => ptr == 0,
    }
}

/// Whether addresses are those of a weight in FP8 and its scales, or zero.
pub open spec fn fp8_at(w: Option<Fp8Weight>, ptr: u64, scale: u64, channels: u64, blocks: u64) -> bool {
    match w {
        Some(w) => {
            &&& ptr == w.offset_bytes
            &&& scale == w.scale_ptr
            &&& match w.channelscale_ptr {
                Some(p) => channels == p,
                None => channels == 0,
            }
            &&& match w.blockscale_ptr {
                Some(p) => blocks == p,
                None => blocks == 0,
            }
        },
        None => ptr == 0 && scale == 0 && channels == 0 && blocks == 0,
    }
}

/// Whether a layer runs on its own weights, each in the place that is for it.
pub open spec fn own_weights(b: &Gemma4Bringup, l: int, w: Gemma4LayerWeightPtrs) -> bool {
    let layer = b.model.layers@[l];
    &&& w.attn_norm_gamma == layer.input_layernorm.offset_bytes
    &&& w.post_attn_norm_gamma == layer.post_attention_layernorm.offset_bytes
    &&& w.pre_ff_norm_gamma == layer.pre_feedforward_layernorm.offset_bytes
    &&& w.post_ff_norm_gamma == layer.post_feedforward_layernorm.offset_bytes
    &&& w.q_norm_gamma == layer.q_norm.offset_bytes
    &&& w.k_norm_gamma == layer.k_norm.offset_bytes
    &&& w.layer_scalar_ptr == layer.layer_scalar.offset_bytes
    &&& fp8_at(layer.qkv, w.qkv_fp8, w.qkv_scale, w.qkv_chscale, w.qkv_blockscale)
    &&& fp8_at(layer.o_proj, w.o_fp8, w.o_scale, w.o_chscale, w.o_blockscale)
    &&& fp8_at(
        layer.gate_up,
        w.gate_up_fp8,
        w.gate_up_scale,
        w.gate_up_chscale,
        w.gate_up_blockscale,
    )
    &&& fp8_at(layer.down_proj, w.down_fp8, w.down_scale, w.down_chscale, w.down_blockscale)
    &&& half_at(layer.qkv_f16, w.qkv_f16)
    &&& half_at(layer.o_proj_f16, w.o_f16)
    &&& half_at(layer.gate_up_f16, w.gate_up_f16)
    &&& half_at(layer.down_proj_f16, w.down_f16)
    &&& match layer.awq {
        Some(a) => w.awq == a.table,
        None => w.awq == 0,
    }
    &&& half_at(layer.per_layer_input_gate, w.ple_input_gate)
    &&& half_at(layer.per_layer_projection, w.ple_projection)
    &&& half_at(layer.post_per_layer_input_norm, w.ple_post_input_norm_gamma)
    &&& w.ple_per_layer_input == 0
    &&& w.ple_per_layer_stride_elems == 0
}

/// Whether a layer has the dimensions of the model and of the chunk.
pub open spec fn own_dims(
    b: &Gemma4Bringup,
    pc: &PrefixCacheState,
    state: &SpecState,
    l: int,
    k: u32,
    end: u32,
    args: LayerForwardArgs,
) -> bool {
    let d = args.dims;
    let a = b.arch;
    &&& d.num_tokens == k
    &&& d.hidden == a.hidden_size as u32
    &&& d.num_heads == a.num_attention_heads as u32
    &&& d.num_kv_heads == kv_heads(b, l)
    &&& d.head_dim == width(b, l)
    &&& d.rotary_dim == (if spec_attends_globally(b, l) {
        a.rotary_dim_global
    } else {
        a.head_dim_sliding
    }) as u32
    &&& d.intermediate == a.intermediate_size as u32
    &&& d.ple_dim == match a.hidden_size_per_layer_input {
        Some(n) => n as u32,
        None => 0,
    }
    &&& d.block_size == pc.block_size
    &&& d.max_blocks_per_seq == pc.num_blocks_total
    &&& d.num_blocks_total == pc.num_blocks_total
    &&& d.attn_scale_bits == 0x3f80_0000
    &&& d.rms_eps_bits == a.rms_norm_eps_bits
    &&& d.layer_type == a.layer_types@[l]
    &&& d.sliding_window == a.sliding_window_size as u32
    &&& !d.f16_kv
    &&& d.bf16_residual == state.bf16_residual
    &&& match a.kv_share_sources@[l] {
        Some(other) => d.kv_share_source_layer == Some(other as u32),
        None => d.kv_share_source_layer is None,
    }
    &&& d.current_max_context_len == Some(end)
    &&& args.max_seqlen_q == k
    &&& args.num_seqs == 1
}

/// Whether a layer works in the buffers that are for it: queries, keys and
/// values one behind another in the projections' buffer.
pub open spec fn own_buffers(
    b: &Gemma4Bringup,
    pc: &PrefixCacheState,
    state: &SpecState,
    s: &SpecPrefillScratch,
    l: int,
    args: LayerForwardArgs,
) -> bool {
    let m = args.scratch;
    let q = (b.arch.num_attention_heads as u32) * width(b, l);
    &&& m.q_out == s.qkv_out
    &&& m.k_out == s.qkv_out + 2 * q
    &&& m.v_out == m.k_out + 2 * (kv_heads(b, l) * width(b, l))
    &&& m.hidden_fp8 == s.hidden_fp8 && m.hidden_scale == s.hidden_scale
    &&& m.q_normed == s.q_normed && m.k_normed == s.k_normed && m.v_normed == s.v_normed
    &&& m.q_fp8 == s.q_fp8
    &&& m.q_scale_ptr == s.q_scale_ptr && m.kv_scale_ptr == s.kv_scale_ptr
    &&& m.q_scale_cache == if state.per_token_q_scale {
        Buf::start(0)
    } else {
        Buf::At(0)
    }
    &&& m.attn_out == s.attn_out && m.attn_out_fp8 == s.attn_out_fp8 && m.attn_out_scale
        == s.attn_out_scale
    &&& m.delta_f16 == s.delta_f16
    &&& m.gate_up_out == s.gate_up_out && m.gate_up_fp8 == s.gate_up_fp8 && m.gate_up_scale
        == s.gate_up_scale
    &&& m.mlp_out_fp8 == s.mlp_out_fp8 && m.mlp_out_scale == s.mlp_out_scale
    &&& m.gemm_f32_tmp == s.gemm_f32_tmp && m.gemm_f32_tmp_bytes == s.gemm_f32_tmp_bytes
    &&& m.cutlass_workspace == s.cutlass_ws && m.cutlass_workspace_bytes == s.cutlass_ws_bytes as usize
    &&& m.fa3_workspace == s.fa3_ws && m.fa3_workspace_bytes == 16 * 1024 * 1024
    &&& args.residual == s.residual
    &&& args.cu_seqlens_q == s.cu_seqlens_q
    &&& args.meta.positions == s.positions
    &&& args.meta.slot_mapping == s.slot_mapping
    &&& args.meta.context_lens == s.context_lens
    &&& args.meta.block_tables == pc.identity_block_tables_ptr
    &&& args.meta.cos == if spec_attends_globally(b, l) {
        b.model.rope_cos_global.offset_bytes
    } else {
        b.model.rope_cos_sliding.offset_bytes
    }
    &&& args.meta.sin == if spec_attends_globally(b, l) {
        b.model.rope_sin_global.offset_bytes
    } else {
        b.model.rope_sin_sliding.offset_bytes
    }
}

#[verifier::spinoff_prover]
#[verifier::rlimit(40)]
proof fn lemma_cache_halves(
    b: &Gemma4Bringup,
    pc: &PrefixCacheState,
    state: &SpecState,
    s: &SpecPrefillScratch,
    l: int,
    k: u32,
    end: u32,
)
    requires
        0 <= l,
        layer_reaches(&b.arch, pc, state, s, l),
    ensures
        cache_halves(b, pc, state, l, b.layer_args(pc, state, s, l, k, end)),
        cache_extras(b, pc, state, l, b.layer_args(pc, state, s, l, k, end)),
{
    let n = pc.num_blocks_total as int;
    let z = pc.block_size as int;
    let h = kv_heads(b, l);
    let w = width(b, l);
    let e = key_elements(b, pc, l);
    assert(2 * n * z * h * w == 2 * (n * z * h * w)) by (nonlinear_arith);
    assert(layer_elems(&b.arch, pc, l) == 2 * e);
    assert(n * z * h * w >= 0 && n * z * h >= 0) by (nonlinear_arith)
        requires
            n >= 0,
            z >= 0,
            h >= 0,
            w >= 0,
    ;
    assert(layer_scale_slots(&b.arch, pc, l) == n * z * h);
    let signs = state.hadamard->Some_0.head_dim;
    assert(l * signs >= 0) by (nonlinear_arith)
        requires
            l >= 0,
            signs >= 0,
    ;
}

#[verifier::spinoff_prover]
#[verifier::rlimit(40)]
proof fn lemma_own(
    b: &Gemma4Bringup,
    pc: &PrefixCacheState,
    state: &SpecState,
    s: &SpecPrefillScratch,
    l: int,
    k: u32,
    end: u32,
)
    requires
        layer_reaches(&b.arch, pc, state, s, l),
    ensures
        own_weights(b, l, b.layer_args(pc, state, s, l, k, end).weights),
        own_dims(b, pc, state, l, k, end, b.layer_args(pc, state, s, l, k, end)),
        own_buffers(b, pc, state, s, l, b.layer_args(pc, state, s, l, k, end)),
{
    let q = b.arch.num_attention_heads as u32;
    let h = kv_heads(b, l);
    let w = width(b, l);
    assert(q * w >= 0 && h * w >= 0) by (nonlinear_arith)
        requires
            w >= 0,
            h >= 0,
    ;
}

/// Whether a step runs layer `l` on the chunk: keys and values go to the two
/// halves of the layer's cache and its scales, and the layer has its own
/// weights, dimensions and buffers.
pub open spec fn runs_layer(
    b: &Gemma4Bringup,
    state: &SpecState,
    s: &SpecPrefillScratch,
    l: int,
    k: u32,
    end: u32,
    step: Step,
) -> bool {
    let pc = state.prefix_cache->Some_0;
    step matches Step::LayerForward { args } && {
        &&& cache_halves(b, &pc, state, l, args)
        &&& cache_extras(b, &pc, state, l, args)
        &&& own_weights(b, l, args.weights)
        &&& own_dims(b, &pc, state, l, k, end, args)
        &&& own_buffers(b, &pc, state, s, l, args)
    }
}

/// Steps that a layer has in a chunk.
pub open spec fn layer_steps(state: &SpecState) -> int {
    if state.layer_dump {
        3
    } else {
        1
    }
}

proof fn lemma_layer_steps(
    b: &Gemma4Bringup,
    pc: &PrefixCacheState,
    state: &SpecState,
    s: &SpecPrefillScratch,
    n: nat,
    k: u32,
    end: u32,
    l: int,
)
    requires
        0 <= l < n,
    ensures
        ({
            let v = b.verify_layers(pc, state, s, n, k, end);
            &&& v.len() == n * layer_steps(state)
            &&& v[l * layer_steps(state)] == (Step::LayerForward {
                args: b.layer_args(pc, state, s, l, k, end),
            })
            &&& state.layer_dump ==> (v[l * 3 + 2] matches Step::Read { src, bytes, .. } && src
                == Buf::At(s.residual) && bytes == (2 * (k * (b.arch.hidden_size as u32))) as usize)
        }),
    decreases n,
{
    let m = (n - 1) as nat;
    let v = b.verify_layers(pc, state, s, n, k, end);
    let before = b.verify_layers(pc, state, s, m, k, end);
    if n == 1 {
        assert(before =~= Seq::empty());
        assert(v =~= b.verify_layer(pc, state, s, 0, k, end));
    } else {
        lemma_layer_steps(
            b,
            pc,
            state,
            s,
            m,
            k,
            end,
            if l < m {
                l
            } else {
                0
            },
        );
        assert(v == before + b.verify_layer(pc, state, s, m as int, k, end));
    }
}

/// A chunk that is not refused runs every layer in order behind its metadata:
/// keys and values of each go to disjoint halves of the layer's bytes in the
/// cache, of which they are all, and so do their scales.
pub proof fn law_chunk_layers(
    b: &Gemma4Bringup,
    len: usize,
    start: u32,
    out: u64,
    argmax_len: usize,
    s: &SpecPrefillScratch,
    state: &SpecState,
    l: int,
)
    requires
        request_fault(len, argmax_len, state) is None,
        b.verify_reaches(len, start, s, state),
        0 <= l < b.model.layers@.len(),
    ensures
        ({
            let p = b.verify_program(len, start, out, argmax_len, s, state);
            let first = b.chunk_steps(state, s, start, len as u32).len();
            &&& p.failure is None
            &&& runs_layer(
                b,
                state,
                s,
                l,
                len as u32,
                (start + len) as u32,
                p.steps[first + l * layer_steps(state)],
            )
        }),
{
    let pc = state.prefix_cache->Some_0;
    let k = len as u32;
    let end = (start + k) as u32;
    let n = b.model.layers@.len();
    let p = b.verify_program(len, start, out, argmax_len, s, state);
    let chunk = b.chunk_steps(state, s, start, k);
    let v = b.verify_layers(&pc, state, s, n, k, end);
    lemma_layer_steps(b, &pc, state, s, n, k, end, l);
    assert(layer_reaches(&b.arch, &pc, state, s, l));
    lemma_cache_halves(b, &pc, state, s, l, k, end);
    lemma_own(b, &pc, state, s, l, k, end);
    assert(l * layer_steps(state) < n * layer_steps(state) && 0 <= l * layer_steps(state))
        by (nonlinear_arith)
        requires
            0 <= l < n,
            layer_steps(state) >= 1,
    ;
    assert(p.steps[chunk.len() + l * layer_steps(state)] == v[l * layer_steps(state)]);
}

/// The buffers that a chunk's inputs go to have different addresses.
pub open spec fn inputs_apart(s: &SpecPrefillScratch) -> bool {
    &&& s.q_scale_ptr != s.kv_scale_ptr && s.q_scale_ptr != s.positions && s.q_scale_ptr
        != s.slot_mapping && s.q_scale_ptr != s.context_lens && s.q_scale_ptr != s.cu_seqlens_q
        && s.q_scale_ptr != s.token_ids && s.q_scale_ptr != s.residual
    &&& s.kv_scale_ptr != s.positions && s.kv_scale_ptr != s.slot_mapping && s.kv_scale_ptr
        != s.context_lens && s.kv_scale_ptr != s.cu_seqlens_q && s.kv_scale_ptr != s.token_ids
        && s.kv_scale_ptr != s.residual
    &&& s.positions != s.slot_mapping && s.positions != s.context_lens && s.positions
        != s.cu_seqlens_q && s.positions != s.token_ids && s.positions != s.residual
    &&& s.slot_mapping != s.context_lens && s.slot_mapping != s.cu_seqlens_q && s.slot_mapping
        != s.token_ids && s.slot_mapping != s.residual
    &&& s.context_lens != s.cu_seqlens_q && s.context_lens != s.token_ids && s.context_lens
        != s.residual
    &&& s.cu_seqlens_q != s.token_ids && s.cu_seqlens_q != s.residual
    &&& s.token_ids != s.residual
}

/// Before the first layer a chunk has its positions and slots from its start
/// on, the length of its context, one sequence of its tokens, both scales, and
/// in the residual the tokens' rows of the embedding.
#[verifier::spinoff_prover]
#[verifier::rlimit(80)]
pub proof fn law_chunk_inputs(
    b: &Gemma4Bringup,
    state: &SpecState,
    s: &SpecPrefillScratch,
    start: u32,
    k: u32,
    m: Memory,
)
    requires
        start + k <= i32::MAX,
        4 * k <= usize::MAX,
        k * (b.arch.hidden_size as u32) <= u32::MAX,
        inputs_apart(s),
    ensures
        ({
            let r = leaves(b.chunk_steps(state, s, start, k), m);
            let hidden = b.arch.hidden_size as u32;
            let rows = embedded(
                b.model.embedding.offset_bytes,
                Val::Input { index: 0, bytes: 4 * k },
                k as int,
                hidden as int,
                b.arch.vocab_size as u32 as int,
            );
            &&& r.get(Buf::At(s.positions)) == (Val::Range { first: start as int, count: k as int })
            &&& r.get(Buf::At(s.slot_mapping)) == (Val::Range {
                first: start as int,
                count: k as int,
            })
            &&& r.get(Buf::At(s.context_lens)) == (Val::Range { first: start + k, count: 1 })
            &&& r.get(Buf::At(s.cu_seqlens_q)) == Val::Pair(0, k as int)
            &&& r.get(Buf::At(s.q_scale_ptr)) == Val::Bits(state.q_scale_bits)
            &&& r.get(Buf::At(s.kv_scale_ptr)) == Val::Bits(state.kv_scale_bits)
            &&& r.get(Buf::At(s.residual)) == if state.bf16_residual {
                Val::ToBf16 { of: Box::new(rows), n: k * hidden }
            } else {
                rows
            }
            &&& state.per_token_q_scale ==> r.get(Buf::start(0)) == (Val::Zeros {
                bytes: (4 * (8 * b.arch.num_attention_heads)) as usize as int,
            })
        }),
{
    let c = b.chunk_steps(state, s, start, k);
    let o: int = if state.per_token_q_scale {
        2
    } else {
        0
    };
    let e: int = if state.bf16_residual {
        1
    } else {
        0
    };
    assert(c.len() == o + 8 + e);
    let a = c.take(o);
    let body = c.subrange(o, o + 8);
    let tail = c.subrange(o + 8, o + 8 + e);
    assert(c =~= a + body + tail);
    law_leaves_joins(a + body, tail, m);
    law_leaves_joins(a, body, m);
    let m1 = leaves(a, m);
    assert(state.per_token_q_scale ==> m1.get(Buf::start(0)) == (Val::Zeros {
        bytes: (4 * (8 * b.arch.num_attention_heads)) as usize as int,
    })) by {
        reveal(leaves);
        reveal_with_fuel(after_steps, 3);
    }
    let m2 = leaves(body, m1);
    lemma_chunk_body(b, state, s, start, k, body, m1);
    reveal(leaves);
    reveal_with_fuel(after_steps, 2);
}

#[verifier::spinoff_prover]
#[verifier::rlimit(60)]
proof fn lemma_chunk_body(
    b: &Gemma4Bringup,
    state: &SpecState,
    s: &SpecPrefillScratch,
    start: u32,
    k: u32,
    body: Seq<Step>,
    m: Memory,
)
    requires
        start + k <= i32::MAX,
        4 * k <= usize::MAX,
        inputs_apart(s),
        ({
            let o: int = if state.per_token_q_scale {
                2
            } else {
                0
            };
            body == b.chunk_steps(state, s, start, k).subrange(o, o + 8)
        }),
    ensures
        ({
            let r = leaves(body, m);
            &&& r.get(Buf::At(s.positions)) == (Val::Range { first: start as int, count: k as int })
            &&& r.get(Buf::At(s.slot_mapping)) == (Val::Range {
                first: start as int,
                count: k as int,
            })
            &&& r.get(Buf::At(s.context_lens)) == (Val::Range { first: start + k, count: 1 })
            &&& r.get(Buf::At(s.cu_seqlens_q)) == Val::Pair(0, k as int)
            &&& r.get(Buf::At(s.q_scale_ptr)) == Val::Bits(state.q_scale_bits)
            &&& r.get(Buf::At(s.kv_scale_ptr)) == Val::Bits(state.kv_scale_bits)
            &&& r.get(Buf::At(s.residual)) == embedded(
                b.model.embedding.offset_bytes,
                Val::Input { index: 0, bytes: 4 * k },
                k as int,
                b.arch.hidden_size as u32 as int,
                b.arch.vocab_size as u32 as int,
            )
            &&& r.get(Buf::start(0)) == m.get(Buf::start(0))
        }),
{
    assert(body.len() == 8);
    reveal(leaves);
    reveal_with_fuel(after_steps, 9);
}

/// The logits of a chunk's rows.
pub open spec fn chunk_logits(b: &Gemma4Bringup, state: &SpecState, k: int, residual: Val) -> Val {
    let hidden = b.arch.hidden_size as u32 as int;
    let vocab = b.arch.vocab_size as u32 as int;
    let normed = norm(
        residual,
        b.model.final_norm.offset_bytes,
        k,
        hidden,
        b.arch.rms_norm_eps_bits,
        if state.bf16_residual {
            Format16::Bf16
        } else {
            Format16::F16Format
        },
    );
    let logits = product(
        if state.bf16_residual {
            Val::FromBf16 { of: Box::new(normed), n: k * hidden }
        } else {
            normed
        },
        b.model.lm_head_f16.offset_bytes,
        k,
        vocab,
        hidden,
        Format16::F16Format,
    );
    if 0 < b.arch.logit_softcap_bits <= 0x7f80_0000 {
        Val::Capped {
            of: Box::new(logits),
            cap_bits: b.arch.logit_softcap_bits,
            rows: k,
            width: vocab,
        }
    } else {
        logits
    }
}

/// Behind the layers a chunk's residual rows go to the caller as they are;
/// the logits are those of the rows behind the final norm, capped where the
/// model caps them; and the token of each row is the place of the largest of
/// that row's logits, in the order in which the tokens are read back.
#[verifier::spinoff_prover]
#[verifier::rlimit(80)]
pub proof fn law_chunk_outputs(
    b: &Gemma4Bringup,
    state: &SpecState,
    s: &SpecPrefillScratch,
    k: u32,
    out: u64,
    m: Memory,
)
    requires
        k <= i32::MAX,
        b.arch.hidden_size as u32 <= i32::MAX,
        b.arch.vocab_size as u32 <= i32::MAX,
        2 * (k * (b.arch.hidden_size as u32)) <= u32::MAX,
        4 * k <= usize::MAX,
        2 * (k * (b.arch.hidden_size as u32)) <= usize::MAX,
        s.logits_f32 + k * (4 * (b.arch.vocab_size as u32)) <= u64::MAX,
        s.argmax_dev + 4 * k <= u64::MAX,
        out != s.residual,
        out != s.logits_f32,
        s.residual != s.logits_f32,
    ensures
        ({
            let t = b.verify_tail(state, s, k, out);
            let vocab = b.arch.vocab_size as u32;
            let i = t.len() - k - 2;
            let r = leaves(t.take(i), m);
            let x = m.get(Buf::At(s.residual));
            &&& i >= 3
            &&& r.get(Buf::At(out)) == copied(x, 2 * (k * (b.arch.hidden_size as u32)))
            &&& r.get(Buf::At(s.logits_f32)) == chunk_logits(b, state, k as int, x)
            &&& forall|row: int|
                0 <= row < k ==> (#[trigger] t[i + row] matches Step::Launch { call, .. } && (
                call matches KernelCall::ArgmaxF32 { logits, out: token, vocab: n } && logits
                    == Buf::At((s.logits_f32 + row * 4 * vocab) as u64) && token == Buf::At(
                    (s.argmax_dev + row * 4) as u64,
                ) && n == vocab))
            &&& t.last() matches Step::Read { src, bytes, .. } && src == Buf::At(s.argmax_dev)
                && bytes == 4 * k
        }),
{
    let t = b.verify_tail(state, s, k, out);
    let i = t.len() - k - 2;
    let vocab = b.arch.vocab_size as u32;
    assert forall|row: int| 0 <= row < k implies (#[trigger] t[i + row] matches Step::Launch {
        call,
        ..
    } && (call matches KernelCall::ArgmaxF32 { logits, out: token, vocab: n } && logits == Buf::At(
        (s.logits_f32 + row * 4 * vocab) as u64,
    ) && token == Buf::At((s.argmax_dev + row * 4) as u64) && n == vocab)) by {
        assert(t[i + row] == argmax_row(s, vocab, row));
        assert(row * (4 * vocab) == row * 4 * vocab) by (nonlinear_arith);
    }
    let a = t.take(i);
    reveal(leaves);
    if state.bf16_residual {
        if 0 < b.arch.logit_softcap_bits <= 0x7f80_0000 {
            assert(a.len() == 5);
            reveal_with_fuel(after_steps, 6);
        } else {
            assert(a.len() == 4);
            reveal_with_fuel(after_steps, 5);
        }
    } else {
        if 0 < b.arch.logit_softcap_bits <= 0x7f80_0000 {
            assert(a.len() == 4);
            reveal_with_fuel(after_steps, 5);
        } else {
            assert(a.len() == 3);
            reveal_with_fuel(after_steps, 4);
        }
    }
}

/// A token is committed as a chunk of one: the same layers run at the same
/// position, and the one index that is left is its own.
pub proof fn law_commit_is_a_chunk_of_one(
    b: &Gemma4Bringup,
    start: u32,
    out: u64,
    s: &SpecPrefillScratch,
    state: &SpecState,
)
    ensures
        b.commit_program(start, out, s, state) == b.verify_program(1, start, out, 1, s, state),
{
}

/// An index is the token of that number; below zero it is the first token.
pub proof fn law_indices_are_tokens(id: i32)
    ensures
        id >= 0 ==> token_of(id) == id,
        id < 0 ==> token_of(id) == 0,
{
}

} // verus!
