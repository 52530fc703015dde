//! What the attention of a layer computes, in each of its three programs: which
//! weights reach the queries, the keys and the values, what goes to which
//! cache, and what the queries attend to.

use crate::loader::gemma4_arch::Gemma4LayerType;
use crate::loader::gemma4_nvfp4_weights::Gemma4Nvfp4LayerLoaded;
use crate::runtime::dataflow::{
    after, after_steps, attended, copied, law_leaves_joins, leaves, lemma_leaves_none,
    lemma_leaves_one, narrowed, norm, product, rotated, scaled8, value_norm, Attention, Cache,
    CacheWrite, Memory, Val,
};
use crate::runtime::gemma4_nvfp4_bring_up::attention::{
    batch_names, dev_names, head_norm_steps, host_names, lemma_layer_limits, narrow_regions,
    narrowing_steps, projection_steps, AttnNames,
};
use crate::runtime::gemma4_nvfp4_bring_up::kv_state::Gemma4Nvfp4KvState;
use crate::runtime::gemma4_nvfp4_bring_up::launches::{
    decode_spec, fill_spec, narrow_spec, rope_write_spec, HeadPlan,
};
use crate::runtime::gemma4_nvfp4_bring_up::model::{Gemma4Nvfp4Bringup, ProjPlan};
use crate::runtime::step::{Buf, Format16, Step};
use vstd::prelude::*;

verus! {

/// Whether a layer attends to all positions.
pub open spec fn attends_globally(b: &Gemma4Nvfp4Bringup, l: int) -> bool {
    b.arch.layer_types@[l] == Gemma4LayerType::GlobalAttention
}

/// Width of a layer's heads.
pub open spec fn head_width(b: &Gemma4Nvfp4Bringup, l: int) -> int {
    if attends_globally(b, l) {
        b.arch.head_dim_global as int
    } else {
        b.arch.head_dim_sliding as int
    }
}

/// How much of a head is turned: a part in a global layer, else all of it.
pub open spec fn turned_width(b: &Gemma4Nvfp4Bringup, l: int) -> int {
    if attends_globally(b, l) {
        b.arch.rotary_dim_global as i32 as int
    } else {
        b.arch.head_dim_sliding as int
    }
}

/// A residual as the projections see it.
pub open spec fn attention_input(b: &Gemma4Nvfp4Bringup, l: int, n: int, residual: Val) -> Val {
    norm(
        residual,
        b.model.layers@[l].input_layernorm.offset_bytes,
        n,
        b.arch.hidden_size as int,
        b.arch.rms_norm_eps_bits,
        Format16::Bf16,
    )
}

/// A residual times a weight of `width` rows, as bf16.
pub open spec fn projected(
    b: &Gemma4Nvfp4Bringup,
    l: int,
    n: int,
    residual: Val,
    weight: u64,
    width: int,
) -> Val {
    narrowed(
        product(
            attention_input(b, l, n, residual),
            weight,
            n,
            width,
            b.arch.hidden_size as int,
            Format16::Bf16,
        ),
        n * width,
    )
}

/// Queries of `n` tokens: the query projection, normalized head by head.
pub open spec fn queries(b: &Gemma4Nvfp4Bringup, l: int, n: int, residual: Val) -> Val {
    let layer = b.model.layers@[l];
    let width = layer.q_proj.shape@[0] as int;
    norm(
        projected(b, l, n, residual, layer.q_proj.offset_bytes, width),
        layer.q_norm.offset_bytes,
        n * (width / head_width(b, l)),
        head_width(b, l),
        b.arch.rms_norm_eps_bits,
        Format16::Bf16,
    )
}

/// Keys of `n` tokens: the key projection, normalized head by head.
pub open spec fn keys(b: &Gemma4Nvfp4Bringup, l: int, n: int, residual: Val) -> Val {
    let layer = b.model.layers@[l];
    let width = layer.k_proj.shape@[0] as int;
    norm(
        projected(b, l, n, residual, layer.k_proj.offset_bytes, width),
        layer.k_norm.offset_bytes,
        n * (width / head_width(b, l)),
        head_width(b, l),
        b.arch.rms_norm_eps_bits,
        Format16::Bf16,
    )
}

/// Values of `n` tokens, normalized head by head without weights: the value
/// projection, or what the key projection gives where there is none.
pub open spec fn values(b: &Gemma4Nvfp4Bringup, l: int, n: int, residual: Val) -> Val {
    let layer = b.model.layers@[l];
    let heads = n * (layer.k_proj.shape@[0] as int / head_width(b, l));
    value_norm(
        match layer.v_proj {
            Some(w) => projected(b, l, n, residual, w.offset_bytes, w.shape@[0] as int),
            None => narrowed(
                copied(
                    product(
                        attention_input(b, l, n, residual),
                        layer.k_proj.offset_bytes,
                        n,
                        layer.k_proj.shape@[0] as int,
                        b.arch.hidden_size as int,
                        Format16::Bf16,
                    ),
                    4 * (n * layer.k_proj.shape@[0]),
                ),
                n * layer.k_proj.shape@[0],
            ),
        },
        heads,
        head_width(b, l),
        b.arch.rms_norm_eps_bits,
    )
}

/// Heads turned as their positions ask for.
pub open spec fn turned(
    b: &Gemma4Nvfp4Bringup,
    l: int,
    n: int,
    position: int,
    of: Val,
    heads: int,
) -> Val {
    let (cos, sin) = if attends_globally(b, l) {
        (b.tables.rope_cos_global, b.tables.rope_sin_global)
    } else {
        (b.tables.rope_cos_sliding, b.tables.rope_sin_sliding)
    };
    rotated(
        of,
        Val::Before(Buf::At(cos)),
        Val::Before(Buf::At(sin)),
        Val::Range { first: position, count: n },
        n,
        heads,
        head_width(b, l),
        turned_width(b, l),
    )
}

/// Where a layer's keys and values lie.
pub open spec fn layer_cache(kv: &Gemma4Nvfp4KvState, l: int) -> Cache {
    Cache {
        keys: kv.k_packed_layer_ptrs@[l],
        values: kv.v_packed_layer_ptrs@[l],
        key_scales: kv.k_scale_layer_ptrs@[l],
        value_scales: kv.v_scale_layer_ptrs@[l],
    }
}

/// What `n` tokens from a position on put into a layer's cache.
pub open spec fn cached(
    b: &Gemma4Nvfp4Bringup,
    l: int,
    n: int,
    position: int,
    residual: Val,
    kv: &Gemma4Nvfp4KvState,
    policies: (i32, i32),
) -> CacheWrite {
    let heads = b.model.layers@[l].k_proj.shape@[0] as int / head_width(b, l);
    CacheWrite {
        cache: layer_cache(kv, l),
        keys: turned(b, l, n, position, keys(b, l, n, residual), heads),
        values: values(b, l, n, residual),
        slots: Val::Range { first: position, count: n },
        tokens: n,
        kv_heads: heads,
        head_dim: head_width(b, l),
        key_policy: policies.0 as int,
        value_policy: policies.1 as int,
        plain: true,
    }
}

/// The attention of `n` tokens from a position on over a layer's cache.
pub open spec fn attention(
    b: &Gemma4Nvfp4Bringup,
    l: int,
    n: int,
    position: int,
    residual: Val,
    kv: &Gemma4Nvfp4KvState,
    lengths: Val,
    rows: Val,
) -> Val {
    let layer = b.model.layers@[l];
    let heads = layer.q_proj.shape@[0] as int / head_width(b, l);
    attended(
        scaled8(
            turned(b, l, n, position, queries(b, l, n, residual), heads),
            kv.q_scale_ptr,
        ),
        lengths,
        rows,
        layer_cache(kv, l),
        Attention {
            tokens: n,
            heads,
            kv_heads: layer.k_proj.shape@[0] as int / head_width(b, l),
            head_dim: head_width(b, l),
            window: if attends_globally(b, l) {
                -1
            } else {
                b.arch.sliding_window_size - 1
            },
            block_size: kv.block_size as i32 as int,
            blocks: kv.max_pos as i32 as int,
            scale_bits: 0x3f80_0000,
            q_descale: kv.q_scale_ptr,
            q_scales: 0,
            tables: kv.block_tables_ptr,
        },
    )
}

/// The metadata buffers, the tables and the attention's own buffers have
/// different addresses.
pub open spec fn buffers_differ(
    b: &Gemma4Nvfp4Bringup,
    l: int,
    kv: &Gemma4Nvfp4KvState,
) -> bool {
    let (cos, sin) = if attends_globally(b, l) {
        (b.tables.rope_cos_global, b.tables.rope_sin_global)
    } else {
        (b.tables.rope_cos_sliding, b.tables.rope_sin_sliding)
    };
    &&& kv.positions_ptr != kv.slot_mapping_ptr
    &&& kv.positions_ptr != kv.context_lens_ptr
    &&& kv.slot_mapping_ptr != kv.context_lens_ptr
    &&& cos != kv.positions_ptr && cos != kv.slot_mapping_ptr && cos != kv.context_lens_ptr
    &&& sin != kv.positions_ptr && sin != kv.slot_mapping_ptr && sin != kv.context_lens_ptr
}

/// A layer whose matrices have rows.
pub open spec fn has_rows(b: &Gemma4Nvfp4Bringup, l: int) -> bool {
    let layer = b.model.layers@[l];
    &&& layer.q_proj.shape@[0] > 0
    &&& layer.v_proj matches Some(w) ==> w.shape@[0] > 0
}

#[verifier::spinoff_prover]
#[verifier::rlimit(40)]
proof fn lemma_projections(
    names: AttnNames,
    p: ProjPlan,
    layer: &Gemma4Nvfp4LayerLoaded,
    hidden: u32,
    n: u32,
    label: &'static str,
    m: Memory,
)
    ensures
        leaves(projection_steps(names, p, layer, hidden, n, label), m) == ({
            let x = m.get(Buf::start(0));
            let k = hidden as i32 as int;
            let rows = n as i32 as int;
            let key = product(
                x,
                layer.k_proj.offset_bytes,
                rows,
                p.n_kv as int,
                k,
                Format16::Bf16,
            );
            m.put(
                Buf::start(1),
                product(x, layer.q_proj.offset_bytes, rows, p.n_q as int, k, Format16::Bf16),
            ).put(Buf::start(2), key).put(
                Buf::start(3),
                match p.v_weight {
                    Some(w) => product(x, w, rows, p.n_v as int, k, Format16::Bf16),
                    None => copied(key, (n * p.n_v * 4) as usize as int),
                },
            )
        }),
{
    reveal(leaves);
    reveal_with_fuel(after_steps, 7);
}

proof fn lemma_narrow(dst: Buf, src: Buf, n: u32, m: Memory)
    requires
        0 < n <= 0x7fff_ffff,
    ensures
        leaves(narrow_spec(dst, src, n), m) == m.put(dst, narrowed(m.get(src), n as int)),
{
    lemma_leaves_one(narrow_spec(dst, src, n)[0], m);
    assert(narrow_spec(dst, src, n) =~= seq![narrow_spec(dst, src, n)[0]]);
}

proof fn lemma_narrowing(p: ProjPlan, n: u32, m: Memory)
    requires
        0 < n * p.n_q <= 0x7fff_ffff,
        0 < n * p.n_kv <= 0x7fff_ffff,
        0 < n * p.n_v <= 0x7fff_ffff,
    ensures
        leaves(narrowing_steps(p, n), m) == m.put(
            Buf::start(4),
            narrowed(m.get(Buf::start(1)), n * p.n_q),
        ).put(Buf::start(5), narrowed(m.get(Buf::start(2)), n * p.n_kv)).put(
            Buf::start(6),
            narrowed(m.get(Buf::start(3)), n * p.n_v),
        ),
{
    let a = narrow_spec(Buf::start(4), Buf::start(1), (n * p.n_q) as u32);
    let b = narrow_spec(Buf::start(5), Buf::start(2), (n * p.n_kv) as u32);
    let c = narrow_spec(Buf::start(6), Buf::start(3), (n * p.n_v) as u32);
    law_leaves_joins(a + b, c, m);
    law_leaves_joins(a, b, m);
    lemma_narrow(Buf::start(4), Buf::start(1), (n * p.n_q) as u32, m);
    lemma_narrow(Buf::start(5), Buf::start(2), (n * p.n_kv) as u32, leaves(a, m));
    lemma_narrow(
        Buf::start(6),
        Buf::start(3),
        (n * p.n_v) as u32,
        leaves(b, leaves(a, m)),
    );
}

proof fn lemma_head_norms(
    h: HeadPlan,
    layer: &Gemma4Nvfp4LayerLoaded,
    n: u32,
    eps_bits: u32,
    m: Memory,
)
    requires
        0 < h.head_dim <= 0x7fff_ffff,
        n * h.num_q_heads <= u32::MAX,
        n * h.num_kv_heads <= u32::MAX,
    ensures
        leaves(head_norm_steps(h, layer, n, eps_bits), m) == ({
            let w = h.head_dim as int;
            m.put(
                Buf::start(4),
                norm(
                    m.get(Buf::start(4)),
                    layer.q_norm.offset_bytes,
                    n * h.num_q_heads,
                    w,
                    eps_bits,
                    Format16::Bf16,
                ),
            ).put(
                Buf::start(5),
                norm(
                    m.get(Buf::start(5)),
                    layer.k_norm.offset_bytes,
                    n * h.num_kv_heads,
                    w,
                    eps_bits,
                    Format16::Bf16,
                ),
            ).put(
                Buf::start(6),
                value_norm(m.get(Buf::start(6)), n * h.num_kv_heads, w, eps_bits),
            )
        }),
{
    reveal(leaves);
    reveal_with_fuel(after_steps, 4);
    assert(n * h.num_q_heads >= 0 && n * h.num_kv_heads >= 0) by (nonlinear_arith);
}

/// Whether the caller's memory, the readings and the caches are as before.
pub open spec fn same_outside(a: Memory, b: Memory) -> bool {
    &&& forall|p: u64| #[trigger] a.get(Buf::At(p)) == b.get(Buf::At(p))
    &&& a.readings == b.readings
    &&& a.writes == b.writes
    &&& a.limits == b.limits
}

/// Whether queries, keys and values lie in regions 4 to 6.
pub open spec fn heads_ready(
    b: &Gemma4Nvfp4Bringup,
    l: int,
    n: int,
    residual: Val,
    m: Memory,
) -> bool {
    &&& m.get(Buf::start(4)) == queries(b, l, n, residual)
    &&& m.get(Buf::start(5)) == keys(b, l, n, residual)
    &&& m.get(Buf::start(6)) == values(b, l, n, residual)
}

#[verifier::spinoff_prover]
#[verifier::rlimit(60)]
proof fn lemma_heads(
    b: &Gemma4Nvfp4Bringup,
    l: int,
    n: u32,
    residual: Val,
    names: AttnNames,
    label: &'static str,
    more: Seq<Step>,
    m: Memory,
)
    requires
        n >= 1,
        b.fits(n as nat),
        0 <= l < b.arch.num_hidden_layers,
        b.value_fault(l) is None,
        has_rows(b, l),
        m.get(Buf::start(0)) == attention_input(b, l, n as int, residual),
        forall|x: Memory| #[trigger] leaves(more, x) == x,
    ensures
        ({
            let p = b.proj(l);
            let layer = &b.model.layers@[l];
            let hidden = b.arch.hidden_size as u32;
            let s = projection_steps(names, p, layer, hidden, n, label) + narrow_regions(
                names,
                p,
                n,
            ) + more + narrowing_steps(p, n) + head_norm_steps(
                b.heads(l),
                layer,
                n,
                b.arch.rms_norm_eps_bits,
            );
            &&& heads_ready(b, l, n as int, residual, leaves(s, m))
            &&& same_outside(leaves(s, m), m)
        }),
{
    let p = b.proj(l);
    let layer = &b.model.layers@[l];
    let hidden = b.arch.hidden_size as u32;
    let h = b.heads(l);
    let s1 = projection_steps(names, p, layer, hidden, n, label);
    let s2 = narrow_regions(names, p, n);
    let s3 = narrowing_steps(p, n);
    let s4 = head_norm_steps(h, layer, n, b.arch.rms_norm_eps_bits);
    lemma_layer_limits(b, l, n as nat);
    assert(b.layer_fits(l, n as nat));
    lemma_fit(b, n as nat, p.n_q as int, p.n_kv as int, p.n_v as int);
    law_leaves_joins(s1 + s2 + more + s3, s4, m);
    law_leaves_joins(s1 + s2 + more, s3, m);
    law_leaves_joins(s1 + s2, more, m);
    law_leaves_joins(s1, s2, m);
    lemma_projections(names, p, layer, hidden, n, label, m);
    let m1 = leaves(s1, m);
    assert(leaves(s2, m1) == m1) by {
        reveal(leaves);
        reveal_with_fuel(after_steps, 5);
    }
    lemma_narrowing(p, n, m1);
    let m3 = leaves(s3, m1);
    lemma_head_norms(h, layer, n, b.arch.rms_norm_eps_bits, m3);
    assert(n * p.n_v * 4 == 4 * (n * p.n_v));
    let m4 = leaves(s4, m3);
    assert(m4.get(Buf::start(4)) == queries(b, l, n as int, residual));
    assert(m4.get(Buf::start(5)) == keys(b, l, n as int, residual));
    assert(m4.get(Buf::start(6)) == values(b, l, n as int, residual));
    assert(same_outside(m4, m));
}

proof fn lemma_fit(b: &Gemma4Nvfp4Bringup, n: nat, q: int, k: int, v: int)
    requires
        n >= 1,
        b.fits(n),
        q > 0,
        k > 0,
        v > 0,
        n * k <= 0x7fff_ffff,
    ensures
        n <= 0x7fff_ffff,
        b.arch.hidden_size <= 0x7fff_ffff,
        n * q > 0,
        n * k > 0,
        n * v > 0,
{
    let hs = b.arch.hidden_size as nat;
    assert(n * q > 0 && n * k > 0 && n * v > 0) by (nonlinear_arith)
        requires
            n >= 1,
            q > 0,
            k > 0,
            v > 0,
    ;
    assert(hs <= n * hs) by (nonlinear_arith)
        requires
            n >= 1,
    ;
    assert(n <= n * k) by (nonlinear_arith)
        requires
            k > 0,
    ;
}

/// Whether the rotary tables of a layer hold what they held at first.
pub open spec fn tables_kept(b: &Gemma4Nvfp4Bringup, l: int, m: Memory) -> bool {
    if attends_globally(b, l) {
        &&& m.get(Buf::At(b.tables.rope_cos_global)) == Val::Before(
            Buf::At(b.tables.rope_cos_global),
        )
        &&& m.get(Buf::At(b.tables.rope_sin_global)) == Val::Before(
            Buf::At(b.tables.rope_sin_global),
        )
    } else {
        &&& m.get(Buf::At(b.tables.rope_cos_sliding)) == Val::Before(
            Buf::At(b.tables.rope_cos_sliding),
        )
        &&& m.get(Buf::At(b.tables.rope_sin_sliding)) == Val::Before(
            Buf::At(b.tables.rope_sin_sliding),
        )
    }
}

/// The metadata of `n` tokens, and then the rotation and the cache.
#[verifier::spinoff_prover]
#[verifier::rlimit(60)]
proof fn lemma_fill_and_rope(
    b: &Gemma4Nvfp4Bringup,
    l: int,
    n: u32,
    position: u32,
    residual: Val,
    kv: &Gemma4Nvfp4KvState,
    policies: (i32, i32),
    more: Seq<Step>,
    m: Memory,
)
    requires
        n >= 1,
        b.fits(n as nat),
        0 <= l < b.arch.num_hidden_layers,
        b.value_fault(l) is None,
        n <= kv.max_query_tokens,
        position + n <= i32::MAX,
        buffers_differ(b, l, kv),
        tables_kept(b, l, m),
        heads_ready(b, l, n as int, residual, m),
        forall|x: Memory| #[trigger]
            leaves(more, x).get(Buf::start(4)) == x.get(Buf::start(4)) && leaves(more, x).get(
                Buf::start(5),
            ) == x.get(Buf::start(5)) && leaves(more, x).get(Buf::start(6)) == x.get(
                Buf::start(6),
            ),
        forall|x: Memory, p: u64|
            p != kv.context_lens_ptr ==> #[trigger] leaves(more, x).get(Buf::At(p)) == x.get(
                Buf::At(p),
            ),
        forall|x: Memory| #[trigger] leaves(more, x).writes == x.writes,
        forall|x: Memory| #[trigger] leaves(more, x).limits == x.limits,
    ensures
        fill_spec(kv, position as i32, position as i32, n as i32) is Ok,
        ({
            let fill = fill_spec(kv, position as i32, position as i32, n as i32)->Ok_0;
            let rope = rope_write_spec(
                b.heads(l),
                kv,
                l,
                n,
                Buf::start(4),
                Buf::start(5),
                Buf::start(6),
                Buf::start(7),
                policies,
            );
            let f = leaves(seq![fill], m);
            let r = leaves(seq![fill] + more + seq![rope], m);
            let layer = b.model.layers@[l];
            &&& r.writes == m.writes.push(
                cached(b, l, n as int, position as int, residual, kv, policies),
            )
            &&& r.get(Buf::start(7)) == scaled8(
                turned(
                    b,
                    l,
                    n as int,
                    position as int,
                    queries(b, l, n as int, residual),
                    layer.q_proj.shape@[0] as int / head_width(b, l),
                ),
                kv.q_scale_ptr,
            )
            &&& f.get(Buf::At(kv.context_lens_ptr)) == Val::Range {
                first: position + 1,
                count: n as int,
            }
            &&& r.get(Buf::At(kv.context_lens_ptr)) == leaves(more, f).get(
                Buf::At(kv.context_lens_ptr),
            )
            &&& forall|region: usize|
                region != 7 ==> #[trigger] r.get(Buf::start(region)) == leaves(more, f).get(
                    Buf::start(region),
                )
            &&& forall|p: u64|
                p != kv.positions_ptr && p != kv.slot_mapping_ptr && p != kv.context_lens_ptr
                    ==> #[trigger] r.get(Buf::At(p)) == m.get(Buf::At(p))
        }),
{
    let fill = fill_spec(kv, position as i32, position as i32, n as i32)->Ok_0;
    let h = b.heads(l);
    let rope = rope_write_spec(
        h,
        kv,
        l,
        n,
        Buf::start(4),
        Buf::start(5),
        Buf::start(6),
        Buf::start(7),
        policies,
    );
    lemma_layer_limits(b, l, n as nat);
    assert(b.layer_fits(l, n as nat));
    law_leaves_joins(seq![fill] + more, seq![rope], m);
    law_leaves_joins(seq![fill], more, m);
    lemma_leaves_one(fill, m);
    let f = after(fill, m);
    assert(f.writes == m.writes);
    let g = leaves(more, f);
    lemma_leaves_one(rope, g);
    let r = after(rope, g);
    assert(g.get(Buf::start(4)) == m.get(Buf::start(4)));
    assert(g.get(Buf::start(5)) == m.get(Buf::start(5)));
    assert(g.get(Buf::start(6)) == m.get(Buf::start(6)));
    let at = Val::Range { first: position as int, count: n as int };
    assert(g.get(Buf::At(kv.positions_ptr)) == at);
    assert(g.get(Buf::At(kv.slot_mapping_ptr)) == at);
    assert(g.get(Buf::At(h.cos)) == Val::Before(Buf::At(h.cos)));
    assert(g.get(Buf::At(h.sin)) == Val::Before(Buf::At(h.sin)));
    assert(r.writes =~= m.writes.push(
        cached(b, l, n as int, position as int, residual, kv, policies),
    ));
    assert forall|p: u64|
        p != kv.positions_ptr && p != kv.slot_mapping_ptr && p != kv.context_lens_ptr implies
        #[trigger] r.get(Buf::At(p)) == m.get(Buf::At(p)) by {
        assert(g.get(Buf::At(p)) == f.get(Buf::At(p)));
    }
}

#[verifier::spinoff_prover]
#[verifier::rlimit(40)]
proof fn lemma_decode(
    b: &Gemma4Nvfp4Bringup,
    l: int,
    position: u32,
    residual: Val,
    kv: &Gemma4Nvfp4KvState,
    out: Buf,
    label: &'static str,
    m: Memory,
)
    requires
        b.fits(1),
        0 <= l < b.arch.num_hidden_layers,
        b.value_fault(l) is None,
        m.get(Buf::start(7)) == scaled8(
            turned(
                b,
                l,
                1,
                position as int,
                queries(b, l, 1, residual),
                b.model.layers@[l].q_proj.shape@[0] as int / head_width(b, l),
            ),
            kv.q_scale_ptr,
        ),
        m.get(Buf::At(kv.context_lens_ptr)) == (Val::Range { first: position + 1, count: 1 }),
    ensures
        ({
            let s = decode_spec(b.heads(l), kv, l, out, Buf::start(7), label);
            let r = leaves(s, m);
            &&& r.get(out) == attention(
                b,
                l,
                1,
                position as int,
                residual,
                kv,
                Val::Range { first: position + 1, count: 1 },
                Val::Pair(0, 1),
            )
            &&& r.writes == m.writes
            &&& r.readings == m.readings
            &&& forall|p: u64|
                out != Buf::At(p) ==> #[trigger] r.get(Buf::At(p)) == m.get(Buf::At(p))
        }),
{
    lemma_layer_limits(b, l, 1);
    assert(b.layer_fits(l, 1));
    let s = decode_spec(b.heads(l), kv, l, out, Buf::start(7), label);
    reveal(leaves);
    reveal_with_fuel(after_steps, 3);
}

/// Attention of one token on the device. Keys come from the key projection of
/// the normalized residual, queries from the query projection and values from
/// the value projection or, without one, the key projection; keys and values
/// go to the layer's cache in the position's slot, and the queries attend to
/// that same cache up to the position.
#[verifier::spinoff_prover]
#[verifier::rlimit(60)]
pub proof fn law_dev_attention_flow(
    b: &Gemma4Nvfp4Bringup,
    l: int,
    residual: u64,
    position: u32,
    kv: &Gemma4Nvfp4KvState,
    attn_out: u64,
    policies: (i32, i32),
    m: Memory,
)
    requires
        b.fits(1),
        0 <= l < b.arch.num_hidden_layers,
        position < i32::MAX,
        has_rows(b, l),
        buffers_differ(b, l, kv),
        tables_kept(b, l, m),
        b.dev_attn(l, residual, position, kv, attn_out, policies).failure is None,
    ensures
        ({
            let r = leaves(b.dev_attn(l, residual, position, kv, attn_out, policies).steps, m);
            let x = copied(m.get(Buf::At(residual)), 2 * b.arch.hidden_size);
            &&& r.writes == m.writes.push(cached(b, l, 1, position as int, x, kv, policies))
            &&& r.get(Buf::At(attn_out)) == attention(
                b,
                l,
                1,
                position as int,
                x,
                kv,
                Val::Range { first: position + 1, count: 1 },
                Val::Pair(0, 1),
            )
            &&& r.readings == m.readings
            &&& forall|p: u64|
                p != kv.positions_ptr && p != kv.slot_mapping_ptr && p != kv.context_lens_ptr && p
                    != attn_out ==> #[trigger] r.get(Buf::At(p)) == m.get(Buf::At(p))
        }),
{
    let s = b.dev_attn(l, residual, position, kv, attn_out, policies).steps;
    let x = copied(m.get(Buf::At(residual)), 2 * b.arch.hidden_size);
    let head = b.dev_attn_head(
        dev_names(),
        l,
        1,
        residual,
        "forward_layer_attn_from_residual_dev: residual DtoD copy",
        "forward_layer_attn_from_residual_dev: k_eq_v DtoD",
    );
    let none: Seq<Step> = Seq::empty();
    assert forall|y: Memory| #[trigger] leaves(none, y) == y by {
        lemma_leaves_none(none, y);
    }
    lemma_dev_head(
        b,
        l,
        1,
        residual,
        dev_names(),
        "forward_layer_attn_from_residual_dev: residual DtoD copy",
        "forward_layer_attn_from_residual_dev: k_eq_v DtoD",
        m,
    );
    let m1 = leaves(head, m);
    lemma_fill_and_rope(b, l, 1, position, x, kv, policies, none, m1);
    let fill = fill_spec(kv, position as i32, position as i32, 1)->Ok_0;
    let rope = rope_write_spec(
        b.heads(l),
        kv,
        l,
        1,
        Buf::start(4),
        Buf::start(5),
        Buf::start(6),
        Buf::start(7),
        policies,
    );
    let decode = decode_spec(
        b.heads(l),
        kv,
        l,
        Buf::At(attn_out),
        Buf::start(7),
        "forward_layer_attn_from_residual_dev: cuFuncSetAttribute",
    );
    assert(seq![fill] + none + seq![rope] =~= seq![fill, rope]);
    assert(s =~= head + seq![fill, rope] + decode);
    law_leaves_joins(head + seq![fill, rope], decode, m);
    law_leaves_joins(head, seq![fill, rope], m);
    let m2 = leaves(seq![fill, rope], m1);
    assert(m2.readings == m.readings) by {
        reveal(leaves);
        reveal_with_fuel(after_steps, 3);
        lemma_layer_limits(b, l, 1);
        assert(b.layer_fits(l, 1));
    }
    lemma_decode(
        b,
        l,
        position,
        x,
        kv,
        Buf::At(attn_out),
        "forward_layer_attn_from_residual_dev: cuFuncSetAttribute",
        m2,
    );
}

#[verifier::spinoff_prover]
#[verifier::rlimit(40)]
proof fn lemma_dev_head(
    b: &Gemma4Nvfp4Bringup,
    l: int,
    n: u32,
    residual: u64,
    names: AttnNames,
    residual_label: &'static str,
    value_label: &'static str,
    m: Memory,
)
    requires
        n >= 1,
        b.fits(n as nat),
        0 <= l < b.arch.num_hidden_layers,
        b.value_fault(l) is None,
        has_rows(b, l),
    ensures
        ({
            let head = b.dev_attn_head(names, l, n, residual, residual_label, value_label);
            let x = copied(m.get(Buf::At(residual)), 2 * (n * b.arch.hidden_size));
            &&& heads_ready(b, l, n as int, x, leaves(head, m))
            &&& same_outside(leaves(head, m), m)
        }),
{
    let head = b.dev_attn_head(names, l, n, residual, residual_label, value_label);
    let x = copied(m.get(Buf::At(residual)), 2 * (n * b.arch.hidden_size));
    let p = b.proj(l);
    let layer = &b.model.layers@[l];
    let hidden = b.arch.hidden_size as u32;
    let none: Seq<Step> = Seq::empty();
    assert forall|y: Memory| #[trigger] leaves(none, y) == y by {
        lemma_leaves_none(none, y);
    }
    lemma_layer_limits(b, l, n as nat);
    assert(b.layer_fits(l, n as nat));
    lemma_fit(b, n as nat, p.n_q as int, p.n_kv as int, p.n_v as int);
    let first = head.take(3);
    let rest = projection_steps(names, p, layer, hidden, n, value_label) + narrow_regions(
        names,
        p,
        n,
    ) + none + narrowing_steps(p, n) + head_norm_steps(
        b.heads(l),
        layer,
        n,
        b.arch.rms_norm_eps_bits,
    );
    assert(head =~= first + rest);
    law_leaves_joins(first, rest, m);
    let m1 = leaves(first, m);
    assert(n * hidden * 2 == 2 * (n * b.arch.hidden_size));
    assert(4 * n * b.arch.hidden_size == 4 * (n * b.arch.hidden_size)) by (nonlinear_arith);
    assert(m1.get(Buf::start(0)) == attention_input(b, l, n as int, x) && same_outside(m1, m)) by {
        reveal(leaves);
        reveal_with_fuel(after_steps, 4);
    }
    lemma_heads(b, l, n, x, names, value_label, none, m1);
}

/// Attention of one token whose residual the host holds does the same with
/// the host's residual, and reads the output back.
#[verifier::spinoff_prover]
#[verifier::rlimit(60)]
pub proof fn law_host_attention_flow(
    b: &Gemma4Nvfp4Bringup,
    l: int,
    residual_len: usize,
    position: u32,
    kv: &Gemma4Nvfp4KvState,
    policies: (i32, i32),
    m: Memory,
)
    requires
        b.fits(1),
        0 <= l < b.arch.num_hidden_layers,
        position < i32::MAX,
        has_rows(b, l),
        buffers_differ(b, l, kv),
        tables_kept(b, l, m),
        b.host_attn(l, residual_len, position, kv, policies).failure is None,
    ensures
        ({
            let r = leaves(b.host_attn(l, residual_len, position, kv, policies).steps, m);
            let x = Val::Input { index: 0, bytes: 2 * b.arch.hidden_size };
            let heads = b.model.layers@[l].q_proj.shape@[0] as int / head_width(b, l);
            &&& r.writes == m.writes.push(cached(b, l, 1, position as int, x, kv, policies))
            &&& r.readings == m.readings.push(
                (
                    attention(
                        b,
                        l,
                        1,
                        position as int,
                        x,
                        kv,
                        Val::Range { first: position + 1, count: 1 },
                        Val::Pair(0, 1),
                    ),
                    heads * head_width(b, l) * 2,
                ),
            )
        }),
{
    let s = b.host_attn(l, residual_len, position, kv, policies).steps;
    let x = Val::Input { index: 0, bytes: 2 * b.arch.hidden_size };
    let p = b.proj(l);
    let h = b.heads(l);
    let layer = &b.model.layers@[l];
    let hidden = b.arch.hidden_size as u32;
    let head = b.host_attn_head(l);
    let none: Seq<Step> = Seq::empty();
    assert forall|y: Memory| #[trigger] leaves(none, y) == y by {
        lemma_leaves_none(none, y);
    }
    let room = seq![
        Step::Region {
            name: "g4n_lN_attn_out_bf16",
            bytes: (h.num_q_heads * h.head_dim * 2) as usize,
            align: 256,
        },
    ];
    assert forall|y: Memory| #[trigger] leaves(room, y) == y by {
        lemma_leaves_one(room[0], y);
        assert(room =~= seq![room[0]]);
    }
    lemma_layer_limits(b, l, 1);
    assert(b.layer_fits(l, 1));
    let first = head.take(3);
    let rest = projection_steps(
        host_names(),
        p,
        layer,
        hidden,
        1,
        "forward_layer_attn_from_residual: k_eq_v DtoD copy",
    ) + narrow_regions(host_names(), p, 1) + room + narrowing_steps(p, 1) + head_norm_steps(
        h,
        layer,
        1,
        b.arch.rms_norm_eps_bits,
    );
    assert(head =~= first + rest);
    law_leaves_joins(first, rest, m);
    let m0 = leaves(first, m);
    assert(m0.get(Buf::start(0)) == attention_input(b, l, 1, x) && same_outside(m0, m)) by {
        reveal(leaves);
        reveal_with_fuel(after_steps, 4);
    }
    lemma_heads(
        b,
        l,
        1,
        x,
        host_names(),
        "forward_layer_attn_from_residual: k_eq_v DtoD copy",
        room,
        m0,
    );
    let m1 = leaves(head, m);
    lemma_fill_and_rope(b, l, 1, position, x, kv, policies, none, m1);
    let fill = fill_spec(kv, position as i32, position as i32, 1)->Ok_0;
    let rope = rope_write_spec(
        h,
        kv,
        l,
        1,
        Buf::start(4),
        Buf::start(5),
        Buf::start(6),
        Buf::start(7),
        policies,
    );
    let label = "forward_layer_attn_from_residual: cuFuncSetAttribute(MAX_DYNAMIC_SHARED_SIZE)";
    let decode = decode_spec(h, kv, l, Buf::start(8), Buf::start(7), label);
    let tail = s.subrange(s.len() - 3, s.len() as int);
    assert(seq![fill] + none + seq![rope] =~= seq![fill, rope]);
    assert(s =~= head + seq![fill, rope] + decode + tail);
    law_leaves_joins(head + seq![fill, rope] + decode, tail, m);
    law_leaves_joins(head + seq![fill, rope], decode, m);
    law_leaves_joins(head, seq![fill, rope], m);
    let m2 = leaves(seq![fill, rope], m1);
    assert(m2.readings == m.readings) by {
        reveal(leaves);
        reveal_with_fuel(after_steps, 3);
    }
    lemma_decode(b, l, position, x, kv, Buf::start(8), label, m2);
    let m3 = leaves(decode, m2);
    assert(h.num_q_heads * h.head_dim * 2 == 2 * (h.num_q_heads * h.head_dim));
    assert(leaves(tail, m3).writes == m3.writes && leaves(tail, m3).readings == m3.readings.push(
        (m3.get(Buf::start(8)), h.num_q_heads * h.head_dim * 2),
    )) by {
        reveal(leaves);
        reveal_with_fuel(after_steps, 4);
    }
}

/// How the prefill attention of a layer is laid out: one sequence over all
/// blocks of the cache, bf16 output, and blocks of queries that together have
/// no more rows than a block of the kernel, unless one query alone does.
pub open spec fn prefill_shape(
    b: &Gemma4Nvfp4Bringup,
    l: int,
    kv: &Gemma4Nvfp4KvState,
    block_m: u32,
    s: Step,
) -> bool {
    let layer = b.model.layers@[l];
    let heads = layer.q_proj.shape@[0] as int / head_width(b, l);
    let kv_heads = layer.k_proj.shape@[0] as int / head_width(b, l);
    s matches Step::Prefill { args } && {
        &&& args.num_seqs == 1
        &&& args.num_blocks_total == kv.max_pos
        &&& args.num_queries_per_kv == heads / kv_heads
        &&& args.block_q >= 1
        &&& args.block_q == 1 || args.block_q * args.num_queries_per_kv <= block_m
        &&& args.num_queries_per_kv >= 1 ==> (args.block_q + 1) * args.num_queries_per_kv > block_m
        &&& args.tile_size == if head_width(b, l) <= 256 {
            32int
        } else {
            16
        }
        &&& args.use_mma && args.output_bf16
        &&& args.global_backend == attends_globally(b, l)
    }
}

/// Attention of a prompt's chunk does the same for each of its tokens, with
/// consecutive positions and slots; the length of the context is that up to
/// the chunk's end, and one sequence has all the queries.
#[verifier::spinoff_prover]
#[verifier::rlimit(60)]
pub proof fn law_batched_attention_flow(
    b: &Gemma4Nvfp4Bringup,
    l: int,
    n: u32,
    residual: u64,
    position: u32,
    kv: &Gemma4Nvfp4KvState,
    attn_out: u64,
    policies: (i32, i32),
    block_m: u32,
    m: Memory,
)
    requires
        b.fits(n as nat),
        0 <= l < b.arch.num_hidden_layers,
        position + n <= i32::MAX,
        has_rows(b, l),
        buffers_differ(b, l, kv),
        tables_kept(b, l, m),
        b.batched_attn(l, n, residual, position, kv, attn_out, policies, block_m).failure is None,
        kv.max_pos <= i32::MAX,
        kv.block_size <= i32::MAX,
    ensures
        ({
            let r = leaves(
                b.batched_attn(l, n, residual, position, kv, attn_out, policies, block_m).steps,
                m,
            );
            let x = copied(m.get(Buf::At(residual)), 2 * (n * b.arch.hidden_size));
            &&& r.writes == m.writes.push(
                cached(b, l, n as int, position as int, x, kv, policies),
            )
            &&& r.get(Buf::At(attn_out)) == attention(
                b,
                l,
                n as int,
                position as int,
                x,
                kv,
                copied(Val::Int(position + n), 4),
                Val::Pair(0, n as int),
            )
            &&& prefill_shape(b, l, kv, block_m, b.batched_attn(
                l,
                n,
                residual,
                position,
                kv,
                attn_out,
                policies,
                block_m,
            ).steps.last())
        }),
{
    let s = b.batched_attn(l, n, residual, position, kv, attn_out, policies, block_m).steps;
    let x = copied(m.get(Buf::At(residual)), 2 * (n * b.arch.hidden_size));
    let head = b.dev_attn_head(
        batch_names(),
        l,
        n,
        residual,
        "batched: residual DtoD",
        "batched: k_eq_v DtoD",
    );
    lemma_layer_limits(b, l, n as nat);
    assert(b.layer_fits(l, n as nat));
    lemma_dev_head(
        b,
        l,
        n,
        residual,
        batch_names(),
        "batched: residual DtoD",
        "batched: k_eq_v DtoD",
        m,
    );
    let m1 = leaves(head, m);
    let k = head.len() as int;
    let more = s.subrange(k + 1, k + 6);
    assert forall|y: Memory| #[trigger]
        leaves(more, y) == y.put(Buf::start(8), Val::Int(position + n)).put(
            Buf::At(kv.context_lens_ptr),
            copied(Val::Int(position + n), 4),
        ).put(Buf::start(9), Val::Pair(0, n as int)) by {
        reveal(leaves);
        reveal_with_fuel(after_steps, 6);
    }
    lemma_fill_and_rope(b, l, n, position, x, kv, policies, more, m1);
    let fill = fill_spec(kv, position as i32, position as i32, n as i32)->Ok_0;
    let rope = s[k + 6];
    let prefill = s[k + 7];
    let mid = seq![fill] + more + seq![rope];
    assert(s =~= head + mid + seq![prefill]);
    law_leaves_joins(head + mid, seq![prefill], m);
    law_leaves_joins(head, mid, m);
    let m2 = leaves(mid, m1);
    lemma_leaves_one(prefill, m2);
    lemma_prefill_shape(b, l, n, kv, attn_out, block_m);
}

#[verifier::spinoff_prover]
proof fn lemma_prefill_shape(
    b: &Gemma4Nvfp4Bringup,
    l: int,
    n: u32,
    kv: &Gemma4Nvfp4KvState,
    attn_out: u64,
    block_m: u32,
)
    requires
        n >= 1,
        b.fits(n as nat),
        0 <= l < b.arch.num_hidden_layers,
        b.value_fault(l) is None,
    ensures
        prefill_shape(
            b,
            l,
            kv,
            block_m,
            Step::Prefill { args: b.prefill_args(l, n, kv, attn_out, block_m) },
        ),
{
    lemma_layer_limits(b, l, n as nat);
    let h = b.heads(l);
    let args = b.prefill_args(l, n, kv, attn_out, block_m);
    let per_kv = h.num_q_heads as int / h.num_kv_heads as int;
    assert(0 <= per_kv <= h.num_q_heads) by (nonlinear_arith)
        requires
            per_kv == h.num_q_heads as int / h.num_kv_heads as int,
            h.num_kv_heads > 0,
            h.num_q_heads >= 0,
    ;
    assert(args.num_queries_per_kv == per_kv);
    let divisor = if per_kv >= 1 {
        per_kv
    } else {
        1
    };
    vstd::arithmetic::div_mod::lemma_fundamental_div_mod(block_m as int, divisor);
    let share = block_m as int / divisor;
    assert(share * divisor <= block_m < (share + 1) * divisor && 0 <= share <= block_m)
        by (nonlinear_arith)
        requires
            block_m == divisor * share + block_m as int % divisor,
            0 <= block_m as int % divisor < divisor,
            divisor >= 1,
            block_m >= 0,
    ;
    let q = args.block_q as int;
    assert(q == if share >= 1 {
        share
    } else {
        1
    });
    if per_kv >= 1 && share < 1 {
        assert((q + 1) * per_kv > block_m) by (nonlinear_arith)
            requires
                q == 1,
                per_kv >= 1,
                block_m < (share + 1) * per_kv,
                share == 0,
        ;
    }
    assert(b.layer_fits(l, n as nat));
}

} // verus!
