//! What a step of the drafter computes.

use crate::loader::gemma4_drafter::DrafterLayerType;
use crate::runtime::dataflow::{
    after, after_steps, attended, copied, gated, halved, largest, law_leaves_joins, leaves,
    lemma_leaves_one, norm, product, rotated, scaled, sum, Attention, Cache, Memory, Val,
};
use crate::runtime::gemma4_drafter::shadow::nvfp4_dequant;
use crate::runtime::gemma4_drafter::workspace::DrafterStepWorkspace;
use crate::runtime::gemma4_drafter::{DrafterForwardStep, Gemma4DrafterRuntime, KvDtype};
use crate::runtime::gemma4_nvfp4_bring_up::drafter::{law_quarter_rotation, law_shadow_covers_cache};
use crate::runtime::gemma4_nvfp4_bring_up::flow_attention::layer_cache;
use crate::runtime::gemma4_nvfp4_bring_up::flow_layer::embedding;
use crate::runtime::gemma4_nvfp4_bring_up::kv_state::Gemma4Nvfp4KvState;
use crate::runtime::gemma4_nvfp4_bring_up::launches::cast_spec;
use crate::runtime::gemma4_nvfp4_bring_up::model::Gemma4Nvfp4Bringup;
use crate::runtime::layouts::distinct;
use crate::runtime::step::{Buf, Format16, Step};
use vstd::prelude::*;

verus! {

/// The buffers of a step have different addresses.
pub open spec fn workspace_apart(w: &DrafterStepWorkspace) -> bool {
    &&& w.hidden != w.residual1 && w.hidden != w.gemm_f32 && w.hidden != w.q && w.hidden
        != w.attn_out && w.hidden != w.proj_f16 && w.hidden != w.out_hidden && w.hidden
        != w.out_token_id
    &&& w.residual1 != w.gemm_f32 && w.residual1 != w.q && w.residual1 != w.attn_out && w.residual1
        != w.proj_f16
    &&& w.gemm_f32 != w.q && w.gemm_f32 != w.attn_out && w.gemm_f32 != w.proj_f16 && w.gemm_f32
        != w.out_hidden && w.gemm_f32 != w.out_token_id
    &&& w.q != w.attn_out && w.q != w.proj_f16
    &&& w.attn_out != w.proj_f16
    &&& w.out_hidden != w.out_token_id
}

/// Dimensions of a drafter that has something to compute.
pub open spec fn has_width(d: &Gemma4DrafterRuntime) -> bool {
    &&& d.arch.hidden_size > 0
    &&& d.arch.intermediate_size > 0
    &&& d.arch.backbone_hidden_size > 0
    &&& forall|i: int| 0 <= i < d.layers@.len() ==> #[trigger] d.rows(i) > 0
}

proof fn lemma_cast(dst: Buf, src: Buf, n: u32, m: Memory)
    requires
        0 < n <= 0x7fff_ffff,
    ensures
        leaves(cast_spec(dst, src, n), m) == m.put(dst, halved(m.get(src), n as int)),
{
    lemma_leaves_one(cast_spec(dst, src, n)[0], m);
    assert(cast_spec(dst, src, n) =~= seq![cast_spec(dst, src, n)[0]]);
}

/// The first projection: the hidden state is the input times the first
/// projection's matrix.
pub proof fn law_drafter_pre_projection_flow(
    b: &Gemma4Nvfp4Bringup,
    d: &Gemma4DrafterRuntime,
    w: &DrafterStepWorkspace,
    m: Memory,
)
    requires
        d.fits(),
        has_width(d),
        b.drafter_pre_projection(d, w).failure is None,
    ensures
        leaves(b.drafter_pre_projection(d, w).steps, m).get(Buf::At(w.hidden)) == halved(
            product(
                m.get(Buf::At(w.pre_projection_in)),
                d.top.pre_projection,
                1,
                d.arch.hidden_size as int,
                d.arch.pre_projection_in_dim as i32 as int,
                Format16::F16Format,
            ),
            d.arch.hidden_size as int,
        ),
{
    let s = b.drafter_pre_projection(d, w).steps;
    assert(s.len() == 2);
    reveal(leaves);
    reveal_with_fuel(after_steps, 3);
}

/// The queries of a drafter layer at a position.
pub open spec fn drafter_queries(
    b: &Gemma4Nvfp4Bringup,
    d: &Gemma4DrafterRuntime,
    l: int,
    position: u32,
    hidden: Val,
) -> Val {
    let layer = d.layers@[l];
    let full = layer.layer_type == DrafterLayerType::Full;
    let width = layer.effective_head_dim as int;
    let heads = d.arch.num_attention_heads as int;
    let eps = d.arch.rms_norm_eps_bits;
    let (cos, sin) = if full {
        (b.tables.rope_cos_global, b.tables.rope_sin_global)
    } else {
        (b.tables.rope_cos_sliding, b.tables.rope_sin_sliding)
    };
    rotated(
        norm(
            halved(
                product(
                    norm(
                        hidden,
                        layer.input_layernorm,
                        1,
                        d.arch.hidden_size as int,
                        eps,
                        Format16::F16Format,
                    ),
                    layer.self_attn_q_proj,
                    1,
                    heads * width,
                    d.arch.hidden_size as int,
                    Format16::F16Format,
                ),
                heads * width,
            ),
            layer.self_attn_q_norm,
            heads,
            width,
            eps,
            Format16::F16Format,
        ),
        Val::Before(Buf::At(cos)),
        Val::Before(Buf::At(sin)),
        Val::Int(position as int),
        1,
        heads,
        width,
        if full {
            width / 4
        } else {
            width
        },
    )
}

/// The rotary tables are no buffers of the step, and hold what they held at
/// first.
pub open spec fn tables_outside(
    b: &Gemma4Nvfp4Bringup,
    d: &Gemma4DrafterRuntime,
    w: &DrafterStepWorkspace,
    l: int,
    m: Memory,
) -> bool {
    let (cos, sin) = if d.layers@[l].layer_type == DrafterLayerType::Full {
        (b.tables.rope_cos_global, b.tables.rope_sin_global)
    } else {
        (b.tables.rope_cos_sliding, b.tables.rope_sin_sliding)
    };
    &&& m.get(Buf::At(cos)) == Val::Before(Buf::At(cos))
    &&& m.get(Buf::At(sin)) == Val::Before(Buf::At(sin))
    &&& cos != w.residual1 && cos != w.hidden && cos != w.gemm_f32 && cos != w.q
    &&& sin != w.residual1 && sin != w.hidden && sin != w.gemm_f32 && sin != w.q
}

/// The queries of a drafter layer: the hidden state is kept as the residual,
/// and its normalized projection is turned by the rows of the tables that
/// belong to the step's position.
#[verifier::spinoff_prover]
#[verifier::rlimit(60)]
pub proof fn law_drafter_queries_flow(
    b: &Gemma4Nvfp4Bringup,
    d: &Gemma4DrafterRuntime,
    w: &DrafterStepWorkspace,
    l: int,
    position: u32,
    m: Memory,
)
    requires
        d.fits(),
        has_width(d),
        0 <= l < d.layers@.len(),
        d.layers@[l].effective_head_dim < 0x100_0000,
        position <= i32::MAX,
        workspace_apart(w),
        tables_outside(b, d, w, l, m),
    ensures
        ({
            let p = b.drafter_q_side(d, w, l, position);
            let r = leaves(p.steps, m);
            let x = m.get(Buf::At(w.hidden));
            &&& p.failure is None
            &&& r.get(Buf::At(w.q)) == drafter_queries(b, d, l, position, x)
            &&& r.get(Buf::At(w.residual1)) == copied(x, 2 * d.arch.hidden_size)
            &&& forall|a: u64|
                a != w.q && a != w.residual1 && a != w.hidden && a != w.gemm_f32
                    ==> #[trigger] r.get(Buf::At(a)) == m.get(Buf::At(a))
        }),
{
    let p = b.drafter_q_side(d, w, l, position);
    let layer = d.layers@[l];
    assert(d.layer_fits(l));
    assert(d.rows(l) > 0);
    law_quarter_rotation(layer.effective_head_dim);
    let first = p.steps.take(3);
    let cast = cast_spec(Buf::At(w.q), Buf::At(w.gemm_f32), d.rows(l) as u32);
    let tail = p.steps.subrange(4, 8);
    assert(p.steps =~= first + cast + tail);
    law_leaves_joins(first + cast, tail, m);
    law_leaves_joins(first, cast, m);
    let m1 = leaves(first, m);
    lemma_cast(Buf::At(w.q), Buf::At(w.gemm_f32), d.rows(l) as u32, m1);
    let m2 = leaves(cast, m1);
    let x = m.get(Buf::At(w.hidden));
    let hidden = d.arch.hidden_size as int;
    let normed = norm(
        x,
        layer.input_layernorm,
        1,
        hidden,
        d.arch.rms_norm_eps_bits,
        Format16::F16Format,
    );
    assert(m1 == m.put(Buf::At(w.residual1), copied(x, 2 * hidden)).put(
        Buf::At(w.hidden),
        normed,
    ).put(
        Buf::At(w.gemm_f32),
        product(normed, layer.self_attn_q_proj, 1, d.rows(l), hidden, Format16::F16Format),
    )) by {
        reveal(leaves);
        reveal_with_fuel(after_steps, 4);
    }
    reveal(leaves);
    reveal_with_fuel(after_steps, 5);
}

/// The attention of a drafter layer over the shadow cache: a global layer
/// attends to the cache of the global source without a window, a sliding one
/// to that of the sliding source within the base model's.
#[verifier::spinoff_prover]
#[verifier::rlimit(40)]
pub proof fn law_drafter_attention_flow(
    b: &Gemma4Nvfp4Bringup,
    d: &Gemma4DrafterRuntime,
    w: &DrafterStepWorkspace,
    l: int,
    kv: &Gemma4Nvfp4KvState,
    m: Memory,
)
    requires
        d.fits(),
        b.arch.sliding_window_size <= 0x7fff_ffff,
        0 <= l < d.layers@.len(),
        b.drafter_cross_attn(d, w, l, kv).failure is None,
    ensures
        d.shadow_kv is Some,
        ({
            let s = d.shadow_kv->Some_0;
            let r = leaves(b.drafter_cross_attn(d, w, l, kv).steps, m);
            let full = d.layers@[l].layer_type == DrafterLayerType::Full;
            &&& r.get(Buf::At(w.attn_out)) == attended(
                m.get(Buf::At(w.q)),
                m.get(Buf::At(kv.context_lens_ptr)),
                Val::Pair(0, 1),
                Cache {
                    keys: if full {
                        s.full_k_ptr
                    } else {
                        s.sliding_k_ptr
                    },
                    values: if full {
                        s.full_v_ptr
                    } else {
                        s.sliding_v_ptr
                    },
                    key_scales: 0,
                    value_scales: 0,
                },
                Attention {
                    tokens: 1,
                    heads: d.arch.num_attention_heads as int,
                    kv_heads: (if full {
                        s.full_num_kv_heads
                    } else {
                        s.sliding_num_kv_heads
                    }) as i32 as int,
                    head_dim: (if full {
                        s.full_head_dim
                    } else {
                        s.sliding_head_dim
                    }) as int,
                    window: if full {
                        -1
                    } else {
                        b.arch.sliding_window_size - 1
                    },
                    block_size: s.block_size as i32 as int,
                    blocks: s.max_blocks_per_seq as i32 as int,
                    scale_bits: 0x3f80_0000,
                    q_descale: 0,
                    q_scales: 0,
                    tables: kv.block_tables_ptr,
                },
            )
            &&& forall|a: u64|
                a != w.attn_out ==> #[trigger] r.get(Buf::At(a)) == m.get(Buf::At(a))
        }),
{
    reveal(leaves);
    reveal_with_fuel(after_steps, 3);
}

/// The hidden state behind a drafter layer's attention.
pub open spec fn drafter_behind_attention(
    d: &Gemma4DrafterRuntime,
    l: int,
    attn: Val,
    residual: Val,
) -> Val {
    let layer = d.layers@[l];
    let hidden = d.arch.hidden_size as int;
    sum(
        copied(residual, 2 * hidden),
        norm(
            halved(
                product(
                    attn,
                    layer.self_attn_o_proj,
                    1,
                    hidden,
                    d.arch.num_attention_heads * layer.effective_head_dim,
                    Format16::F16Format,
                ),
                hidden,
            ),
            layer.post_attention_layernorm,
            1,
            hidden,
            d.arch.rms_norm_eps_bits,
            Format16::F16Format,
        ),
        hidden,
    )
}

/// The output projection of a drafter layer: normalized and added to the
/// residual that was kept.
#[verifier::spinoff_prover]
#[verifier::rlimit(60)]
pub proof fn law_drafter_output_flow(
    b: &Gemma4Nvfp4Bringup,
    d: &Gemma4DrafterRuntime,
    w: &DrafterStepWorkspace,
    l: int,
    m: Memory,
)
    requires
        d.fits(),
        has_width(d),
        0 <= l < d.layers@.len(),
        workspace_apart(w),
    ensures
        ({
            let p = b.drafter_attn_finisher(d, w, l);
            let r = leaves(p.steps, m);
            &&& p.failure is None
            &&& r.get(Buf::At(w.hidden)) == drafter_behind_attention(
                d,
                l,
                m.get(Buf::At(w.attn_out)),
                m.get(Buf::At(w.residual1)),
            )
            &&& forall|a: u64|
                a != w.hidden && a != w.gemm_f32 && a != w.proj_f16 ==> #[trigger] r.get(
                    Buf::At(a),
                ) == m.get(Buf::At(a))
        }),
{
    let p = b.drafter_attn_finisher(d, w, l);
    assert(d.layer_fits(l));
    assert(p.steps.len() == 5);
    reveal(leaves);
    reveal_with_fuel(after_steps, 6);
}

/// The MLP of a drafter layer: `down(gelu(gate(x)) * up(x))`.
pub open spec fn drafter_mlp(d: &Gemma4DrafterRuntime, l: int, x: Val) -> Val {
    let layer = d.layers@[l];
    let hidden = d.arch.hidden_size as int;
    let inter = d.arch.intermediate_size as int;
    let f = Format16::F16Format;
    halved(
        product(
            gated(
                halved(product(x, layer.mlp_gate_proj, 1, inter, hidden, f), inter),
                halved(product(x, layer.mlp_up_proj, 1, inter, hidden, f), inter),
                inter,
            ),
            layer.mlp_down_proj,
            1,
            hidden,
            inter,
            f,
        ),
        hidden,
    )
}

/// The hidden state behind a drafter layer's MLP: the normalized output and
/// the hidden state before it, times the layer's scalar.
pub open spec fn drafter_behind_mlp(d: &Gemma4DrafterRuntime, l: int, x: Val) -> Val {
    let layer = d.layers@[l];
    let hidden = d.arch.hidden_size as int;
    let eps = d.arch.rms_norm_eps_bits;
    let f = Format16::F16Format;
    scaled(
        sum(
            norm(
                drafter_mlp(d, l, norm(x, layer.pre_feedforward_layernorm, 1, hidden, eps, f)),
                layer.post_feedforward_layernorm,
                1,
                hidden,
                eps,
                f,
            ),
            copied(x, 2 * hidden),
            hidden,
        ),
        Val::Bits(layer.layer_scalar_bits),
        hidden,
    )
}

/// The MLP block of a drafter layer.
#[verifier::spinoff_prover]
#[verifier::rlimit(80)]
pub proof fn law_drafter_mlp_flow(
    b: &Gemma4Nvfp4Bringup,
    d: &Gemma4DrafterRuntime,
    w: &DrafterStepWorkspace,
    l: int,
    m: Memory,
)
    requires
        d.fits(),
        has_width(d),
        0 <= l < d.layers@.len(),
        w.hidden != w.gemm_f32,
    ensures
        ({
            let p = b.drafter_mlp_finisher(d, w, l);
            let r = leaves(p.steps, m);
            &&& p.failure is None
            &&& r.get(Buf::At(w.hidden)) == drafter_behind_mlp(d, l, m.get(Buf::At(w.hidden)))
            &&& forall|a: u64|
                a != w.hidden && a != w.gemm_f32 ==> #[trigger] r.get(Buf::At(a)) == m.get(
                    Buf::At(a),
                )
        }),
{
    let p = b.drafter_mlp_finisher(d, w, l);
    assert(p.steps.len() == 14);
    let a = p.steps.take(8);
    let c = p.steps.subrange(8, 14);
    assert(p.steps =~= a + c);
    law_leaves_joins(a, c, m);
    let m1 = leaves(a, m);
    let layer = d.layers@[l];
    let hidden = d.arch.hidden_size as int;
    let inter = d.arch.intermediate_size as int;
    let f = Format16::F16Format;
    let x = m.get(Buf::At(w.hidden));
    let n = norm(x, layer.pre_feedforward_layernorm, 1, hidden, d.arch.rms_norm_eps_bits, f);
    let up = Buf::In { region: 1, offset: (2 * inter) as u64 };
    assert(m1.get(Buf::start(0)) == copied(x, 2 * hidden) && m1.get(Buf::start(1)) == halved(
        product(n, layer.mlp_gate_proj, 1, inter, hidden, f),
        inter,
    ) && m1.get(up) == halved(product(n, layer.mlp_up_proj, 1, inter, hidden, f), inter)
        && m1.at.contains_key(up) && forall|q: u64|
        q != w.hidden && q != w.gemm_f32 ==> #[trigger] m1.get(Buf::At(q)) == m.get(Buf::At(q)))
        by {
        reveal(leaves);
        reveal_with_fuel(after_steps, 9);
    }
    reveal(leaves);
    reveal_with_fuel(after_steps, 7);
}

/// The end of a drafter step: the drafted token is the place of the largest
/// product of the normalized hidden state with a row of the embedding, and
/// the next step's hidden state its product with the last projection.
#[verifier::spinoff_prover]
#[verifier::rlimit(60)]
pub proof fn law_drafter_final_flow(
    b: &Gemma4Nvfp4Bringup,
    d: &Gemma4DrafterRuntime,
    w: &DrafterStepWorkspace,
    m: Memory,
)
    requires
        d.fits(),
        has_width(d),
        workspace_apart(w),
        d.arch.vocab_size <= i32::MAX,
        b.drafter_final(d, w).failure is None,
    ensures
        ({
            let r = leaves(b.drafter_final(d, w).steps, m);
            let hidden = d.arch.hidden_size as int;
            let x = norm(
                m.get(Buf::At(w.hidden)),
                d.top.final_norm,
                1,
                hidden,
                d.arch.rms_norm_eps_bits,
                Format16::F16Format,
            );
            &&& r.get(Buf::At(w.out_token_id)) == largest(
                product(
                    x,
                    d.top.embed_tokens,
                    1,
                    d.arch.vocab_size as int,
                    hidden,
                    Format16::F16Format,
                ),
                d.arch.vocab_size as int,
            )
            &&& r.get(Buf::At(w.out_hidden)) == halved(
                product(
                    x,
                    d.top.post_projection,
                    1,
                    d.arch.backbone_hidden_size as int,
                    hidden,
                    Format16::F16Format,
                ),
                d.arch.backbone_hidden_size as int,
            )
        }),
{
    let p = b.drafter_final(d, w);
    assert(p.steps.len() == 5);
    reveal(leaves);
    reveal_with_fuel(after_steps, 6);
}

/// The drafter's input: the token's row of the base model's embedding in half
/// precision, and right behind it the last hidden state.
#[verifier::spinoff_prover]
#[verifier::rlimit(40)]
pub proof fn law_drafter_input_flow(
    b: &Gemma4Nvfp4Bringup,
    w: &DrafterStepWorkspace,
    token: u32,
    m: Memory,
)
    requires
        0 < b.arch.hidden_size <= u32::MAX,
        b.arch.vocab_size <= u32::MAX,
        2 * b.arch.hidden_size <= usize::MAX,
        w.pre_projection_in + 2 * b.arch.hidden_size <= u64::MAX,
        b.base_last_hidden_ptr != w.pre_projection_in,
        b.drafter_input(w, token).failure is None,
    ensures
        b.base_last_hidden_ptr != 0,
        ({
            let r = leaves(b.drafter_input(w, token).steps, m);
            &&& r.get(Buf::At(w.pre_projection_in)) == (Val::FromBf16 {
                of: Box::new(embedding(b, token)),
                n: b.arch.hidden_size as int,
            })
            &&& r.get(Buf::At((w.pre_projection_in + 2 * b.arch.hidden_size) as u64)) == copied(
                m.get(Buf::At(b.base_last_hidden_ptr)),
                2 * b.arch.hidden_size,
            )
        }),
{
    let p = b.drafter_input(w, token);
    assert(p.steps.len() == 7);
    reveal(leaves);
    reveal_with_fuel(after_steps, 8);
}

/// Elements of the base cache in half precision.
pub open spec fn mirrored(cache: u64, scales: u64, first: int, n: int) -> Val {
    Val::Decoded {
        from: Box::new(Val::Before(Buf::At((cache + first / 2) as u64))),
        scales: Box::new(Val::Before(Buf::At((scales + first / 16) as u64))),
        n,
    }
}

/// Filling a range of slots mirrors them: keys and values of the sliding
/// source go to the sliding keys and values, and those of the global source to
/// the global ones, each slot to the same slot.
#[verifier::spinoff_prover]
#[verifier::rlimit(40)]
pub proof fn law_shadow_fill_flow(
    b: &Gemma4Nvfp4Bringup,
    d: &Gemma4DrafterRuntime,
    kv: &Gemma4Nvfp4KvState,
    sources: (usize, usize),
    ptrs: (u64, u64, u64, u64),
    start: u32,
    count: u32,
)
    requires
        b.arch.assistant_shared_kv_sources == Some(sources),
        d.shadow_kv == Some(b.shadow_of(kv, sources, ptrs)),
        b.shadow_fits(kv, sources.0),
        b.shadow_fits(kv, sources.1),
        kv.block_size == 1,
        0 < count,
        start + count <= kv.max_pos,
        b.range_reaches(d, kv, start, count),
        b.shadow_fill(d, kv, start, count).failure is None,
        ({
            let s = b.shadow_of(kv, sources, ptrs);
            &&& count * s.sliding_per_slot() <= 0xff_ffff_ff00
            &&& count * s.full_per_slot() <= 0xff_ffff_ff00
            &&& s.sliding_per_slot() > 0
            &&& s.full_per_slot() > 0
        }),
        ({
            let s = b.shadow_of(kv, sources, ptrs);
            let (o, p) = (start * s.sliding_per_slot(), start * s.full_per_slot());
            let to = seq![
                (ptrs.0 + 2 * o) as u64,
                (ptrs.1 + 2 * o) as u64,
                (ptrs.2 + 2 * p) as u64,
                (ptrs.3 + 2 * p) as u64,
            ];
            let from = seq![
                (kv.k_packed_layer_ptrs@[sources.0 as int] + o / 2) as u64,
                (kv.k_scale_layer_ptrs@[sources.0 as int] + o / 16) as u64,
                (kv.v_packed_layer_ptrs@[sources.0 as int] + o / 2) as u64,
                (kv.v_scale_layer_ptrs@[sources.0 as int] + o / 16) as u64,
                (kv.k_packed_layer_ptrs@[sources.1 as int] + p / 2) as u64,
                (kv.k_scale_layer_ptrs@[sources.1 as int] + p / 16) as u64,
                (kv.v_packed_layer_ptrs@[sources.1 as int] + p / 2) as u64,
                (kv.v_scale_layer_ptrs@[sources.1 as int] + p / 16) as u64,
            ];
            &&& distinct(to)
            &&& forall|i: int, j: int|
                0 <= i < 4 && 0 <= j < 8 ==> #[trigger] to[i] != #[trigger] from[j]
        }),
    ensures
        ({
            let s = b.shadow_of(kv, sources, ptrs);
            let (o, p) = (start * s.sliding_per_slot(), start * s.full_per_slot());
            let (n, k) = (count * s.sliding_per_slot(), count * s.full_per_slot());
            let r = leaves(b.shadow_fill(d, kv, start, count).steps, Memory::fresh());
            let (x, y) = (sources.0 as int, sources.1 as int);
            &&& r.get(Buf::At((s.sliding_k_ptr + 2 * o) as u64)) == mirrored(
                kv.k_packed_layer_ptrs@[x],
                kv.k_scale_layer_ptrs@[x],
                o,
                n,
            )
            &&& r.get(Buf::At((s.sliding_v_ptr + 2 * o) as u64)) == mirrored(
                kv.v_packed_layer_ptrs@[x],
                kv.v_scale_layer_ptrs@[x],
                o,
                n,
            )
            &&& r.get(Buf::At((s.full_k_ptr + 2 * p) as u64)) == mirrored(
                kv.k_packed_layer_ptrs@[y],
                kv.k_scale_layer_ptrs@[y],
                p,
                k,
            )
            &&& r.get(Buf::At((s.full_v_ptr + 2 * p) as u64)) == mirrored(
                kv.v_packed_layer_ptrs@[y],
                kv.v_scale_layer_ptrs@[y],
                p,
                k,
            )
        }),
{
    let s = b.shadow_of(kv, sources, ptrs);
    law_shadow_covers_cache(b, kv, sources, ptrs, start, count);
    let (o, p) = (start * s.sliding_per_slot(), start * s.full_per_slot());
    let (n, k) = (count * s.sliding_per_slot(), count * s.full_per_slot());
    let (u, v) = (s.sliding_per_slot(), s.full_per_slot());
    assert(n > 0 && k > 0 && o >= 0 && p >= 0) by (nonlinear_arith)
        requires
            n == count * u,
            k == count * v,
            o == start * u,
            p == start * v,
            u > 0,
            v > 0,
            count > 0,
    ;
    let (x, y) = (sources.0 as int, sources.1 as int);
    let t = b.shadow_fill(d, kv, start, count).steps;
    let ks = nvfp4_dequant(
        (kv.k_packed_layer_ptrs@[x] + o / 2) as u64,
        (kv.k_scale_layer_ptrs@[x] + o / 16) as u64,
        (ptrs.0 + 2 * o) as u64,
        n as i64,
    );
    let vs = nvfp4_dequant(
        (kv.v_packed_layer_ptrs@[x] + o / 2) as u64,
        (kv.v_scale_layer_ptrs@[x] + o / 16) as u64,
        (ptrs.1 + 2 * o) as u64,
        n as i64,
    );
    let kf = nvfp4_dequant(
        (kv.k_packed_layer_ptrs@[y] + p / 2) as u64,
        (kv.k_scale_layer_ptrs@[y] + p / 16) as u64,
        (ptrs.2 + 2 * p) as u64,
        k as i64,
    );
    let vf = nvfp4_dequant(
        (kv.v_packed_layer_ptrs@[y] + p / 2) as u64,
        (kv.v_scale_layer_ptrs@[y] + p / 16) as u64,
        (ptrs.3 + 2 * p) as u64,
        k as i64,
    );
    let packed = seq![
        (kv.k_packed_layer_ptrs@[x] + o / 2) as u64,
        (kv.v_packed_layer_ptrs@[x] + o / 2) as u64,
        (kv.k_packed_layer_ptrs@[y] + p / 2) as u64,
        (kv.v_packed_layer_ptrs@[y] + p / 2) as u64,
    ];
    let scales = seq![
        (kv.k_scale_layer_ptrs@[x] + o / 16) as u64,
        (kv.v_scale_layer_ptrs@[x] + o / 16) as u64,
        (kv.k_scale_layer_ptrs@[y] + p / 16) as u64,
        (kv.v_scale_layer_ptrs@[y] + p / 16) as u64,
    ];
    let to = seq![
        (ptrs.0 + 2 * o) as u64,
        (ptrs.1 + 2 * o) as u64,
        (ptrs.2 + 2 * p) as u64,
        (ptrs.3 + 2 * p) as u64,
    ];
    let from = seq![
        packed[0],
        scales[0],
        packed[1],
        scales[1],
        packed[2],
        scales[2],
        packed[3],
        scales[3],
    ];
    assert(t =~= ks + vs + (kf + vf));
    assert(t.len() == 4 && t[0] == ks[0] && t[1] == vs[0] && t[2] == kf[0] && t[3] == vf[0]);
    assert forall|i: int, j: int| 0 <= i < 4 && 0 <= j < 4 implies #[trigger] to[i]
        != #[trigger] packed[j] && to[i] != scales[j] by {
        assert(from[2 * j] == packed[j] && from[2 * j + 1] == scales[j]);
        assert(to[i] != from[2 * j] && to[i] != from[2 * j + 1]);
    }
    lemma_four_fills(packed, scales, to, seq![n as i64, n as i64, k as i64, k as i64], t);
    let r = leaves(t, Memory::fresh());
    assert(r.get(Buf::At(to[0])) == mirrored(
        kv.k_packed_layer_ptrs@[x],
        kv.k_scale_layer_ptrs@[x],
        o,
        n,
    ));
}

/// Four decodes in a row, none of which writes what another reads or writes.
#[verifier::spinoff_prover]
#[verifier::rlimit(20)]
proof fn lemma_four_fills(
    packed: Seq<u64>,
    scales: Seq<u64>,
    to: Seq<u64>,
    n: Seq<i64>,
    t: Seq<Step>,
)
    requires
        packed.len() == 4,
        scales.len() == 4,
        to.len() == 4,
        n.len() == 4,
        t.len() == 4,
        forall|i: int| 0 <= i < 4 ==> 0 < #[trigger] n[i] <= 0xff_ffff_ff00,
        t[0] == nvfp4_dequant(packed[0], scales[0], to[0], n[0])[0],
        t[1] == nvfp4_dequant(packed[1], scales[1], to[1], n[1])[0],
        t[2] == nvfp4_dequant(packed[2], scales[2], to[2], n[2])[0],
        t[3] == nvfp4_dequant(packed[3], scales[3], to[3], n[3])[0],
        distinct(to),
        forall|i: int, j: int|
            0 <= i < 4 && 0 <= j < 4 ==> #[trigger] to[i] != #[trigger] packed[j] && to[i]
                != scales[j],
    ensures
        forall|i: int|
            0 <= i < 4 ==> leaves(t, Memory::fresh()).get(Buf::At(#[trigger] to[i])) == (
            Val::Decoded {
                from: Box::new(Val::Before(Buf::At(packed[i]))),
                scales: Box::new(Val::Before(Buf::At(scales[i]))),
                n: n[i] as int,
            }),
{
    let m = Memory::fresh();
    let m1 = after(t[0], m);
    assert(n[0] > 0 && n[1] > 0 && n[2] > 0 && n[3] > 0);
    assert(to[0] != to[1] && to[0] != to[2] && to[0] != to[3] && to[1] != to[2] && to[1] != to[3]
        && to[2] != to[3]);
    assert(to[0] != packed[1] && to[0] != packed[2] && to[0] != packed[3] && to[1] != packed[2]
        && to[1] != packed[3] && to[2] != packed[3]);
    let v = |i: int|
        Val::Decoded {
            from: Box::new(Val::Before(Buf::At(packed[i]))),
            scales: Box::new(Val::Before(Buf::At(scales[i]))),
            n: n[i] as int,
        };
    assert(m1 == m.put(Buf::At(to[0]), v(0)));
    let m2 = after(t[1], m1);
    assert(m2 == m1.put(Buf::At(to[1]), v(1)));
    let m3 = after(t[2], m2);
    assert(m3 == m2.put(Buf::At(to[2]), v(2)));
    let m4 = after(t[3], m3);
    assert(m4 == m3.put(Buf::At(to[3]), v(3)));
    assert(leaves(t, m) == m4) by {
        reveal(leaves);
        reveal_with_fuel(after_steps, 5);
    }
    assert forall|i: int| 0 <= i < 4 implies leaves(t, m).get(Buf::At(#[trigger] to[i])) == v(i) by {
        if i == 0 {
        } else if i == 1 {
        } else if i == 2 {
        } else {
        }
    }
}

/// What the drafter is shown of a layer's cache is what the layer's attention
/// writes and reads: the same keys, values and scales, in NVFP4, with the same
/// table of blocks and the same lengths.
pub proof fn law_view_is_the_cache(b: &Gemma4Nvfp4Bringup, kv: &Gemma4Nvfp4KvState, l: int)
    requires
        0 <= l < b.arch.num_hidden_layers,
    ensures
        b.base_kv_view(kv, l) matches Ok(v) && {
            &&& layer_cache(kv, l) == (Cache {
                keys: v.k_cache,
                values: v.v_cache,
                key_scales: v.k_scale_cache,
                value_scales: v.v_scale_cache,
            })
            &&& v.kv_dtype == KvDtype::Nvfp4
            &&& v.q_scale_cache == 0
            &&& v.block_tables == kv.block_tables_ptr
            &&& v.context_lens == kv.context_lens_ptr
            &&& v.block_size == kv.block_size
            &&& v.max_blocks_per_seq == kv.max_pos
            &&& v.num_blocks_total == kv.max_pos
        },
        Gemma4Nvfp4Bringup::source_of(kv, l).dtype == KvDtype::Nvfp4,
        layer_cache(kv, l) == (Cache {
            keys: Gemma4Nvfp4Bringup::source_of(kv, l).k,
            values: Gemma4Nvfp4Bringup::source_of(kv, l).v,
            key_scales: Gemma4Nvfp4Bringup::source_of(kv, l).k_scale,
            value_scales: Gemma4Nvfp4Bringup::source_of(kv, l).v_scale,
        }),
{
}

/// The input that a step prepares: the token's embedding, and right behind it
/// the base model's hidden state.
pub proof fn law_prepared_input_flow(
    d: &Gemma4DrafterRuntime,
    step: &DrafterForwardStep,
    w: &DrafterStepWorkspace,
    m: Memory,
)
    requires
        0 < 2 * d.arch.backbone_hidden_size <= usize::MAX,
        w.pre_projection_in + 2 * d.arch.backbone_hidden_size <= u64::MAX,
        step.base_hidden_last_step != w.pre_projection_in,
        d.pre_projection_input(step, w).failure is None,
    ensures
        ({
            let r = leaves(d.pre_projection_input(step, w).steps, m);
            let half = 2 * d.arch.backbone_hidden_size;
            &&& r.get(Buf::At(w.pre_projection_in)) == copied(
                m.get(Buf::At(step.last_token_embed)),
                half,
            )
            &&& r.get(Buf::At((w.pre_projection_in + half) as u64)) == copied(
                m.get(Buf::At(step.base_hidden_last_step)),
                half,
            )
        }),
{
    reveal(leaves);
    reveal_with_fuel(after_steps, 3);
}

} // verus!
