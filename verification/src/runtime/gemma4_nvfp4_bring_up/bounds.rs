//! The programs of the forward path stay within the regions they ask for.

use crate::loader::gemma4_nvfp4_weights::Gemma4Nvfp4LayerLoaded;
use crate::runtime::footprint::{
    after_step, held_after, in_bounds, law_in_bounds_joins, lemma_none_in_bounds,
    lemma_lent_stays, lemma_one_in_bounds, lends, nothing_held, step_in, Held,
};
use crate::runtime::gemma4_nvfp4_bring_up::attention::{
    batch_names, dev_names, head_norm_steps, host_names, lemma_layer_limits, narrow_regions,
    narrowing_steps, projection_steps, AttnNames,
};
use crate::runtime::gemma4_nvfp4_bring_up::kv_state::Gemma4Nvfp4KvState;
use crate::runtime::gemma4_nvfp4_bring_up::launches::{
    decode_launch, decode_spec, elementwise, fill_spec, narrow_spec, rope_write_spec, HeadPlan,
};
use crate::runtime::gemma4_nvfp4_bring_up::model::{Gemma4Nvfp4Bringup, ProjPlan};
use crate::runtime::step::{Buf, Format16, KernelCall, OnFail, Step};
use vstd::prelude::*;

verus! {

/// The widths of `n` tokens' projections that sizes and extents can hold.
spec fn widths_fit(p: ProjPlan, n: u32) -> bool {
    &&& 0 <= p.n_q && 0 <= p.n_kv && 0 <= p.n_v
    &&& 0 <= n * p.n_q <= 0x7fff_ffff && 0 <= n * p.n_kv <= 0x7fff_ffff && 0 <= n * p.n_v
        <= 0x7fff_ffff
    &&& 4 * (n * p.n_q) <= usize::MAX && 4 * (n * p.n_kv) <= usize::MAX && 4 * (n * p.n_v)
        <= usize::MAX
    &&& n <= 0x7fff_ffff
    &&& p.v_weight is None ==> p.n_v == p.n_kv
}

/// The regions of the 32-bit projections behind the input.
spec fn wide_regions(p: ProjPlan, n: u32) -> Seq<nat> {
    seq![(4 * (n * p.n_q)) as nat, (4 * (n * p.n_kv)) as nat, (4 * (n * p.n_v)) as nat]
}

/// The regions of the narrow projections and the FP8 queries.
spec fn slim_regions(p: ProjPlan, n: u32) -> Seq<nat> {
    seq![
        (2 * (n * p.n_q)) as nat,
        (2 * (n * p.n_kv)) as nat,
        (2 * (n * p.n_v)) as nat,
        (n * p.n_q) as nat,
    ]
}

proof fn lemma_projections(
    names: AttnNames,
    p: ProjPlan,
    layer: &Gemma4Nvfp4LayerLoaded,
    hidden: u32,
    n: u32,
    label: &'static str,
    h: Held,
)
    requires
        widths_fit(p, n),
        hidden <= 0x7fff_ffff,
        h.regions.len() == 1,
        h.regions[0] >= 2 * (n * hidden),
    ensures
        in_bounds(projection_steps(names, p, layer, hidden, n, label), h),
        held_after(projection_steps(names, p, layer, hidden, n, label), 6, h) == (Held {
            regions: h.regions + wide_regions(p, n),
            ..h
        }),
{
    let s = projection_steps(names, p, layer, hidden, n, label);
    reveal(in_bounds);
    reveal_with_fuel(held_after, 7);
    let h3 = held_after(s, 3, h);
    assert(h3.regions =~= h.regions + wide_regions(p, n));
    assert(held_after(s, 6, h) == h3);
    assert forall|i: int| 0 <= i < s.len() implies step_in(
        #[trigger] s[i],
        held_after(s, i as nat, h),
    ) by {
        if i == 3 {
        } else if i == 4 {
        } else if i == 5 {
        }
    }
}

proof fn lemma_narrow_regions(names: AttnNames, p: ProjPlan, n: u32, h: Held)
    requires
        widths_fit(p, n),
    ensures
        in_bounds(narrow_regions(names, p, n), h),
        held_after(narrow_regions(names, p, n), 4, h) == (Held {
            regions: h.regions + slim_regions(p, n),
            ..h
        }),
{
    reveal(in_bounds);
    reveal_with_fuel(held_after, 5);
    assert(held_after(narrow_regions(names, p, n), 4, h).regions =~= h.regions + slim_regions(
        p,
        n,
    ));
}

/// An element-wise launch is in bounds where what it touches is there.
pub proof fn lemma_elementwise(call: KernelCall, n: u32, h: Held)
    requires
        n > 0 ==> step_in(elementwise(call, n)[0], h),
    ensures
        in_bounds(elementwise(call, n), h),
        held_after(elementwise(call, n), elementwise(call, n).len(), h) == h,
{
    reveal(in_bounds);
    reveal_with_fuel(held_after, 2);
}

/// The eight regions that the attention programs share.
spec fn attn_regions(h: Held, p: ProjPlan, hidden: u32, n: u32) -> bool {
    &&& h.regions.len() >= 8
    &&& h.regions[0] >= 2 * (n * hidden)
    &&& h.regions[1] == 4 * (n * p.n_q)
    &&& h.regions[2] == 4 * (n * p.n_kv)
    &&& h.regions[3] == 4 * (n * p.n_v)
    &&& h.regions[4] == 2 * (n * p.n_q)
    &&& h.regions[5] == 2 * (n * p.n_kv)
    &&& h.regions[6] == 2 * (n * p.n_v)
    &&& h.regions[7] == n * p.n_q
}

proof fn lemma_narrowing(p: ProjPlan, n: u32, hidden: u32, h: Held)
    requires
        widths_fit(p, n),
        attn_regions(h, p, hidden, n),
    ensures
        in_bounds(narrowing_steps(p, n), h),
        held_after(narrowing_steps(p, n), narrowing_steps(p, n).len(), h) == h,
{
    let (q, k, v) = ((n * p.n_q) as u32, (n * p.n_kv) as u32, (n * p.n_v) as u32);
    let a = narrow_spec(Buf::start(4), Buf::start(1), q);
    let b = narrow_spec(Buf::start(5), Buf::start(2), k);
    let c = narrow_spec(Buf::start(6), Buf::start(3), v);
    lemma_elementwise(
        KernelCall::F32ToBf16 { dst: Buf::start(4), src: Buf::start(1), n: q as i32 },
        q,
        h,
    );
    lemma_elementwise(
        KernelCall::F32ToBf16 { dst: Buf::start(5), src: Buf::start(2), n: k as i32 },
        k,
        h,
    );
    lemma_elementwise(
        KernelCall::F32ToBf16 { dst: Buf::start(6), src: Buf::start(3), n: v as i32 },
        v,
        h,
    );
    law_in_bounds_joins(a, b, h);
    law_in_bounds_joins(a + b, c, h);
}

/// Heads of `n` tokens that fit their projections.
spec fn heads_fit(g: HeadPlan, p: ProjPlan, n: u32) -> bool {
    &&& g.head_dim <= 0x7fff_ffff
    &&& g.num_q_heads <= 0x7fff_ffff
    &&& g.num_kv_heads <= 0x7fff_ffff
    &&& n * g.num_q_heads <= 0x7fff_ffff
    &&& n * g.num_kv_heads <= 0x7fff_ffff
    &&& n * (g.num_q_heads * g.head_dim) <= n * p.n_q
    &&& n * (g.num_kv_heads * g.head_dim) <= n * p.n_kv
    &&& n * (g.num_kv_heads * g.head_dim) <= n * p.n_v
}

/// The value projection of a layer is as wide as the heads of its keys.
pub open spec fn values_fit(b: &Gemma4Nvfp4Bringup, l: int) -> bool {
    b.heads(l).num_kv_heads * b.heads(l).head_dim <= b.proj(l).n_v
}

proof fn lemma_head_norms(
    g: HeadPlan,
    layer: &Gemma4Nvfp4LayerLoaded,
    p: ProjPlan,
    n: u32,
    hidden: u32,
    eps: u32,
    h: Held,
)
    requires
        widths_fit(p, n),
        heads_fit(g, p, n),
        attn_regions(h, p, hidden, n),
    ensures
        in_bounds(head_norm_steps(g, layer, n, eps), h),
        held_after(head_norm_steps(g, layer, n, eps), 3, h) == h,
{
    let s = head_norm_steps(g, layer, n, eps);
    reveal(in_bounds);
    reveal_with_fuel(held_after, 4);
    let (a, b, d) = (g.num_q_heads as int, g.num_kv_heads as int, g.head_dim as int);
    assert((n * a) * d == n * (a * d) && (n * b) * d == n * (b * d)) by (nonlinear_arith);
    assert(step_in(s[0], h));
    assert(step_in(s[1], h));
    assert(step_in(s[2], h));
}

/// Whether the metadata of every token in flight has room.
pub open spec fn has_metadata(kv: &Gemma4Nvfp4KvState, h: Held) -> bool {
    &&& h.has(Buf::At(kv.positions_ptr), 4 * kv.max_query_tokens)
    &&& h.has(Buf::At(kv.slot_mapping_ptr), 4 * kv.max_query_tokens)
    &&& h.has(Buf::At(kv.context_lens_ptr), 4 * kv.max_query_tokens)
}

/// Whether the residual of `n` tokens has room.
pub open spec fn has_residual(b: &Gemma4Nvfp4Bringup, n: u32, residual: u64, h: Held) -> bool {
    h.has(Buf::At(residual), 2 * (n * (b.arch.hidden_size as u32)))
}

/// Whether the attention output of `n` tokens has room.
pub open spec fn has_output(b: &Gemma4Nvfp4Bringup, l: int, n: u32, out: u64, h: Held) -> bool {
    h.has(Buf::At(out), 2 * (n * (b.heads(l).num_q_heads * b.heads(l).head_dim)))
}

/// From a residual on the device to normalized heads.
proof fn lemma_dev_head(
    b: &Gemma4Nvfp4Bringup,
    names: AttnNames,
    l: int,
    n: u32,
    residual: u64,
    residual_label: &'static str,
    value_label: &'static str,
    lent: Map<u64, nat>,
)
    requires
        has_residual(b, n, residual, lends(lent)),
        n >= 1,
        b.fits(n as nat),
        0 <= l < b.arch.num_hidden_layers,
        b.value_fault(l) is None,
        values_fit(b, l),
    ensures
        ({
            let s = b.dev_attn_head(names, l, n, residual, residual_label, value_label);
            let end = held_after(s, s.len(), lends(lent));
            &&& in_bounds(s, lends(lent))
            &&& end.regions.len() == 8
            &&& attn_regions(end, b.proj(l), b.arch.hidden_size as u32, n)
        }),
{
    let layer = &b.model.layers@[l];
    let hidden = b.arch.hidden_size as u32;
    let eps = b.arch.rms_norm_eps_bits;
    let p = b.proj(l);
    let g = b.heads(l);
    lemma_limits(b, l, n);
    let h = lends(lent);
    let first = input_steps(names, layer, hidden, n, residual, eps, residual_label);
    lemma_input(names, layer, hidden, n, residual, eps, residual_label, lent);
    let h1 = held_after(first, 3, h);
    let proj = projection_steps(names, p, layer, hidden, n, value_label);
    lemma_projections(names, p, layer, hidden, n, value_label, h1);
    let h2 = held_after(proj, 6, h1);
    let regions = narrow_regions(names, p, n);
    lemma_narrow_regions(names, p, n, h2);
    let h3 = held_after(regions, 4, h2);
    assert(attn_regions(h3, p, hidden, n));
    let narrowing = narrowing_steps(p, n);
    lemma_narrowing(p, n, hidden, h3);
    let norms = head_norm_steps(g, layer, n, eps);
    lemma_head_norms(g, layer, p, n, hidden, eps, h3);
    lemma_chain(first, proj, regions, narrowing, norms, h, h1, h2, h3);
}

/// The copy of the residual and its norm.
spec fn input_steps(
    names: AttnNames,
    layer: &Gemma4Nvfp4LayerLoaded,
    hidden: u32,
    n: u32,
    residual: u64,
    eps: u32,
    label: &'static str,
) -> Seq<Step> {
    let bytes = (n * hidden * 2) as usize;
    seq![
        Step::Region { name: names.input, bytes, align: 256 },
        Step::Copy {
            dst: Buf::start(0),
            src: Buf::At(residual),
            bytes,
            on_fail: OnFail::Memcpy(label),
        },
        Step::RmsNorm {
            format: Format16::Bf16,
            rows: n,
            width: hidden,
            eps_bits: eps,
            data: Buf::start(0),
            gamma: layer.input_layernorm.offset_bytes,
        },
    ]
}

proof fn lemma_input(
    names: AttnNames,
    layer: &Gemma4Nvfp4LayerLoaded,
    hidden: u32,
    n: u32,
    residual: u64,
    eps: u32,
    label: &'static str,
    lent: Map<u64, nat>,
)
    requires
        n * hidden * 2 <= usize::MAX,
        lends(lent).has(Buf::At(residual), 2 * (n * hidden)),
    ensures
        ({
            let s = input_steps(names, layer, hidden, n, residual, eps, label);
            &&& in_bounds(s, lends(lent))
            &&& held_after(s, 3, lends(lent)) == (Held {
                regions: seq![(2 * (n * hidden)) as nat],
                ..lends(lent)
            })
        }),
{
    let s = input_steps(names, layer, hidden, n, residual, eps, label);
    reveal(in_bounds);
    reveal_with_fuel(held_after, 4);
    assert(n * hidden >= 0) by (nonlinear_arith);
    let h = lends(lent);
    assert(held_after(s, 1, h).regions =~= seq![(2 * (n * hidden)) as nat]);
    assert(step_in(s[0], h));
    assert(step_in(s[1], held_after(s, 1, h)));
    assert(step_in(s[2], held_after(s, 2, h)));
}

/// Five parts in a row.
proof fn lemma_chain(
    a: Seq<Step>,
    b: Seq<Step>,
    c: Seq<Step>,
    d: Seq<Step>,
    e: Seq<Step>,
    h: Held,
    h1: Held,
    h2: Held,
    h3: Held,
)
    requires
        in_bounds(a, h) && held_after(a, a.len(), h) == h1,
        in_bounds(b, h1) && held_after(b, b.len(), h1) == h2,
        in_bounds(c, h2) && held_after(c, c.len(), h2) == h3,
        in_bounds(d, h3) && held_after(d, d.len(), h3) == h3,
        in_bounds(e, h3) && held_after(e, e.len(), h3) == h3,
    ensures
        in_bounds(a + b + c + d + e, h),
        held_after(a + b + c + d + e, (a + b + c + d + e).len(), h) == h3,
{
    law_in_bounds_joins(a, b, h);
    law_in_bounds_joins(a + b, c, h);
    law_in_bounds_joins(a + b + c, d, h);
    law_in_bounds_joins(a + b + c + d, e, h);
}

/// Values as wide as the keys are as wide as the heads.
proof fn lemma_equal_values(b: &Gemma4Nvfp4Bringup, l: int)
    requires
        b.fits(1),
        0 <= l < b.arch.num_hidden_layers,
        b.value_fault(l) is None,
        b.proj(l).n_kv == b.proj(l).n_v,
    ensures
        values_fit(b, l),
{
    lemma_layer_limits(b, l, 1);
}

/// What a fitting model gives for a layer and `n` tokens.
proof fn lemma_limits(b: &Gemma4Nvfp4Bringup, l: int, n: u32)
    requires
        n >= 1,
        b.fits(n as nat),
        0 <= l < b.arch.num_hidden_layers,
        b.value_fault(l) is None,
        values_fit(b, l),
    ensures
        widths_fit(b.proj(l), n),
        heads_fit(b.heads(l), b.proj(l), n),
        b.arch.hidden_size <= 0x7fff_ffff,
        n * (b.arch.hidden_size as u32) * 2 <= usize::MAX,
        n * (b.arch.hidden_size as u32) <= 0x7fff_ffff,
{
    lemma_layer_limits(b, l, n as nat);
    let p = b.proj(l);
    let g = b.heads(l);
    let x = g.num_kv_heads * g.head_dim;
    let hs = b.arch.hidden_size as int;
    assert(n * x <= n * p.n_kv && n * x <= n * p.n_v && hs <= n * hs && 2 * (n * hs) <= 4 * n * hs)
        by (nonlinear_arith)
        requires
            x <= p.n_kv,
            x <= p.n_v,
            n >= 1,
            hs >= 0,
    ;
    assert(n * p.n_q >= 0 && n * p.n_kv >= 0 && n * p.n_v >= 0) by (nonlinear_arith)
        requires
            p.n_q >= 0,
            p.n_kv >= 0,
            p.n_v >= 0,
            n >= 1,
    ;
    assert(b.layer_fits(l, n as nat));
    assert(n <= n * p.n_kv) by (nonlinear_arith)
        requires
            p.n_kv >= 1,
    ;
}

proof fn lemma_rope_write(
    g: HeadPlan,
    p: ProjPlan,
    kv: &Gemma4Nvfp4KvState,
    l: int,
    n: u32,
    hidden: u32,
    policies: (i32, i32),
    h: Held,
)
    requires
        widths_fit(p, n),
        heads_fit(g, p, n),
        attn_regions(h, p, hidden, n),
    ensures
        step_in(
            rope_write_spec(
                g,
                kv,
                l,
                n,
                Buf::start(4),
                Buf::start(5),
                Buf::start(6),
                Buf::start(7),
                policies,
            ),
            h,
        ),
{
}

proof fn lemma_decode(
    g: HeadPlan,
    p: ProjPlan,
    kv: &Gemma4Nvfp4KvState,
    l: int,
    output: Buf,
    hidden: u32,
    label: &'static str,
    h: Held,
)
    requires
        widths_fit(p, 1),
        heads_fit(g, p, 1),
        attn_regions(h, p, hidden, 1),
        h.has(output, 2 * (g.num_q_heads * g.head_dim)),
    ensures
        in_bounds(decode_spec(g, kv, l, output, Buf::start(7), label), h),
        held_after(
            decode_spec(g, kv, l, output, Buf::start(7), label),
            decode_spec(g, kv, l, output, Buf::start(7), label).len(),
            h,
        ) == h,
{
    reveal(in_bounds);
    reveal_with_fuel(held_after, 3);
    let gqa = g.num_q_heads / g.num_kv_heads <= 4;
    let launch = decode_launch(g, kv, l, output, Buf::start(7), gqa);
    assert(step_in(launch, h));
}

proof fn lemma_two(a: Step, b: Step, h: Held)
    requires
        step_in(a, h),
        after_step(a, h) == h,
        step_in(b, h),
        after_step(b, h) == h,
    ensures
        in_bounds(seq![a, b], h),
        held_after(seq![a, b], 2, h) == h,
{
    reveal(in_bounds);
    reveal_with_fuel(held_after, 3);
}

/// The attention of one token on the device stays within its regions, and
/// within the residual, the output and the metadata where they have room.
pub proof fn law_dev_attention_in_bounds(
    b: &Gemma4Nvfp4Bringup,
    l: int,
    residual: u64,
    position: u32,
    kv: &Gemma4Nvfp4KvState,
    attn_out: u64,
    policies: (i32, i32),
    lent: Map<u64, nat>,
)
    requires
        b.fits(1),
        0 <= l,
        has_residual(b, 1, residual, lends(lent)),
        l < b.arch.num_hidden_layers ==> has_output(b, l, 1, attn_out, lends(lent)),
        has_metadata(kv, lends(lent)),
    ensures
        in_bounds(
            b.dev_attn(l, residual, position, kv, attn_out, policies).steps,
            lends(lent),
        ),
{
    lemma_none_in_bounds(lends(lent));
    if b.dev_attn_fault(l, position, kv) is None {
        lemma_equal_values(b, l);
        let head = b.dev_attn_head(
            dev_names(),
            l,
            1,
            residual,
            "forward_layer_attn_from_residual_dev: residual DtoD copy",
            "forward_layer_attn_from_residual_dev: k_eq_v DtoD",
        );
        lemma_dev_head(
            b,
            dev_names(),
            l,
            1,
            residual,
            "forward_layer_attn_from_residual_dev: residual DtoD copy",
            "forward_layer_attn_from_residual_dev: k_eq_v DtoD",
            lent,
        );
        if let Ok(fill) = fill_spec(kv, position as i32, position as i32, 1) {
            let h = held_after(head, head.len(), lends(lent));
            lemma_lent_stays(head, head.len(), lends(lent));
            lemma_fill(kv, position as i32, position as i32, 1, h);
            lemma_dev_tail(b, head, l, kv, attn_out, fill, policies, lent);
        }
    }
}

/// Filling the metadata stays within it.
proof fn lemma_fill(
    kv: &Gemma4Nvfp4KvState,
    position_offset: i32,
    start_slot: i32,
    num_tokens: i32,
    h: Held,
)
    requires
        has_metadata(kv, h),
    ensures
        fill_spec(kv, position_offset, start_slot, num_tokens) matches Ok(fill) ==> step_in(fill, h)
            && after_step(fill, h) == h,
{
    if let Ok(fill) = fill_spec(kv, position_offset, start_slot, num_tokens) {
        assert(num_tokens as u32 == num_tokens);
    }
}

proof fn lemma_dev_tail(
    b: &Gemma4Nvfp4Bringup,
    head: Seq<Step>,
    l: int,
    kv: &Gemma4Nvfp4KvState,
    attn_out: u64,
    fill: Step,
    policies: (i32, i32),
    lent: Map<u64, nat>,
)
    requires
        b.fits(1),
        0 <= l < b.arch.num_hidden_layers,
        b.value_fault(l) is None,
        values_fit(b, l),
        has_output(b, l, 1, attn_out, lends(lent)),
        in_bounds(head, lends(lent)),
        attn_regions(
            held_after(head, head.len(), lends(lent)),
            b.proj(l),
            b.arch.hidden_size as u32,
            1,
        ),
        step_in(fill, held_after(head, head.len(), lends(lent))),
        fill is Launch,
    ensures
        in_bounds(
            head + seq![
                fill,
                rope_write_spec(
                    b.heads(l),
                    kv,
                    l,
                    1,
                    Buf::start(4),
                    Buf::start(5),
                    Buf::start(6),
                    Buf::start(7),
                    policies,
                ),
            ] + decode_spec(
                b.heads(l),
                kv,
                l,
                Buf::At(attn_out),
                Buf::start(7),
                "forward_layer_attn_from_residual_dev: cuFuncSetAttribute",
            ),
            lends(lent),
        ),
{
    let g = b.heads(l);
    let p = b.proj(l);
    let hidden = b.arch.hidden_size as u32;
    lemma_limits(b, l, 1);
    let h = held_after(head, head.len(), lends(lent));
    lemma_lent_stays(head, head.len(), lends(lent));
    let rope = rope_write_spec(
        g,
        kv,
        l,
        1,
        Buf::start(4),
        Buf::start(5),
        Buf::start(6),
        Buf::start(7),
        policies,
    );
    lemma_rope_write(g, p, kv, l, 1, hidden, policies, h);
    lemma_two(fill, rope, h);
    let label = "forward_layer_attn_from_residual_dev: cuFuncSetAttribute";
    let decode = decode_spec(g, kv, l, Buf::At(attn_out), Buf::start(7), label);
    lemma_decode(g, p, kv, l, Buf::At(attn_out), hidden, label, h);
    law_in_bounds_joins(head, seq![fill, rope], lends(lent));
    law_in_bounds_joins(head + seq![fill, rope], decode, lends(lent));
}

/// The attention of a prompt chunk stays within its regions, where the value
/// projection is as wide as the heads of the keys, and within the residual, the
/// output and the metadata where they have room.
pub proof fn law_batched_attention_in_bounds(
    b: &Gemma4Nvfp4Bringup,
    l: int,
    num_tokens: u32,
    residual: u64,
    position_start: u32,
    kv: &Gemma4Nvfp4KvState,
    attn_out: u64,
    policies: (i32, i32),
    block_m: u32,
    lent: Map<u64, nat>,
)
    requires
        b.fits(num_tokens as nat),
        0 <= l,
        l < b.arch.num_hidden_layers ==> values_fit(b, l) && has_output(
            b,
            l,
            num_tokens,
            attn_out,
            lends(lent),
        ),
        has_residual(b, num_tokens, residual, lends(lent)),
        has_metadata(kv, lends(lent)),
    ensures
        in_bounds(
            b.batched_attn(
                l,
                num_tokens,
                residual,
                position_start,
                kv,
                attn_out,
                policies,
                block_m,
            ).steps,
            lends(lent),
        ),
{
    let n = num_tokens;
    lemma_none_in_bounds(lends(lent));
    if b.batched_attn_fault(l, n, position_start, kv) is None {
        let head = b.dev_attn_head(
            batch_names(),
            l,
            n,
            residual,
            "batched: residual DtoD",
            "batched: k_eq_v DtoD",
        );
        lemma_dev_head(
            b,
            batch_names(),
            l,
            n,
            residual,
            "batched: residual DtoD",
            "batched: k_eq_v DtoD",
            lent,
        );
        if let Ok(fill) = fill_spec(kv, position_start as i32, position_start as i32, n as i32) {
            let h = held_after(head, head.len(), lends(lent));
            lemma_lent_stays(head, head.len(), lends(lent));
            lemma_fill(kv, position_start as i32, position_start as i32, n as i32, h);
            lemma_limits(b, l, n);
            let tail = batched_tail(
                b,
                l,
                n,
                kv,
                attn_out,
                block_m,
                (position_start + n) as i32,
                fill,
                policies,
            );
            lemma_batched_tail(
                b,
                l,
                n,
                kv,
                attn_out,
                block_m,
                (position_start + n) as i32,
                fill,
                policies,
                h,
            );
            law_in_bounds_joins(head, tail, lends(lent));
        }
    }
}

/// What follows the heads of a prompt chunk.
spec fn batched_tail(
    b: &Gemma4Nvfp4Bringup,
    l: int,
    n: u32,
    kv: &Gemma4Nvfp4KvState,
    attn_out: u64,
    block_m: u32,
    context: i32,
    fill: Step,
    policies: (i32, i32),
) -> Seq<Step> {
    seq![
        fill,
        Step::Region { name: "g4n_batch_ctx_override", bytes: 4, align: 16 },
        Step::WriteI32 { dst: Buf::start(8), value: context },
        Step::Copy {
            dst: Buf::At(kv.context_lens_ptr),
            src: Buf::start(8),
            bytes: 4,
            on_fail: OnFail::Memcpy("batched: context_lens[0] override DtoD"),
        },
        Step::Region { name: "g4n_batch_cu_seqlens", bytes: 8, align: 16 },
        Step::WriteI32Pair { dst: Buf::start(9), first: 0, second: n as i32 },
        rope_write_spec(
            b.heads(l),
            kv,
            l,
            n,
            Buf::start(4),
            Buf::start(5),
            Buf::start(6),
            Buf::start(7),
            policies,
        ),
        Step::Prefill { args: b.prefill_args(l, n, kv, attn_out, block_m) },
    ]
}

proof fn lemma_batched_tail(
    b: &Gemma4Nvfp4Bringup,
    l: int,
    n: u32,
    kv: &Gemma4Nvfp4KvState,
    attn_out: u64,
    block_m: u32,
    context: i32,
    fill: Step,
    policies: (i32, i32),
    h: Held,
)
    requires
        widths_fit(b.proj(l), n),
        heads_fit(b.heads(l), b.proj(l), n),
        attn_regions(h, b.proj(l), b.arch.hidden_size as u32, n),
        h.regions.len() == 8,
        has_output(b, l, n, attn_out, h),
        h.has(Buf::At(kv.context_lens_ptr), 4),
        step_in(fill, h),
        after_step(fill, h) == h,
    ensures
        in_bounds(batched_tail(b, l, n, kv, attn_out, block_m, context, fill, policies), h),
{
    let s = batched_tail(b, l, n, kv, attn_out, block_m, context, fill, policies);
    reveal(in_bounds);
    reveal_with_fuel(held_after, 9);
    let h2 = held_after(s, 2, h);
    let h5 = held_after(s, 5, h);
    assert(h2.regions =~= h.regions.push(4));
    assert(h5.regions =~= h.regions.push(4).push(8));
    assert(h5 == held_after(s, 6, h) && h5 == held_after(s, 7, h));
    assert(attn_regions(h5, b.proj(l), b.arch.hidden_size as u32, n));
    lemma_rope_write(b.heads(l), b.proj(l), kv, l, n, b.arch.hidden_size as u32, policies, h5);
    assert(step_in(s[2], h2));
    assert(step_in(s[3], held_after(s, 3, h)));
    assert(step_in(s[5], h5));
    assert(step_in(s[6], h5));
    assert(step_in(s[7], h5));
}

/// The host program up to its norms.
proof fn lemma_host_head(b: &Gemma4Nvfp4Bringup, l: int)
    requires
        b.fits(1),
        0 <= l < b.arch.num_hidden_layers,
        b.value_fault(l) is None,
        values_fit(b, l),
    ensures
        ({
            let s = b.host_attn_head(l);
            let end = held_after(s, s.len(), nothing_held());
            &&& in_bounds(s, nothing_held())
            &&& end.regions.len() == 9
            &&& end.regions[8] == 2 * (b.heads(l).num_q_heads * b.heads(l).head_dim)
            &&& attn_regions(end, b.proj(l), b.arch.hidden_size as u32, 1)
        }),
{
    let layer = &b.model.layers@[l];
    let hidden = b.arch.hidden_size as u32;
    let eps = b.arch.rms_norm_eps_bits;
    let p = b.proj(l);
    let g = b.heads(l);
    lemma_limits(b, l, 1);
    let h = nothing_held();
    let out = (2 * (g.num_q_heads * g.head_dim)) as nat;
    let first = host_input_steps(b, l);
    lemma_host_input(b, l);
    let h1 = held_after(first, 3, h);
    let label = "forward_layer_attn_from_residual: k_eq_v DtoD copy";
    let proj = projection_steps(host_names(), p, layer, hidden, 1, label);
    lemma_projections(host_names(), p, layer, hidden, 1, label, h1);
    let h2 = held_after(proj, 6, h1);
    let regions = narrow_regions(host_names(), p, 1);
    lemma_narrow_regions(host_names(), p, 1, h2);
    let h3 = held_after(regions, 4, h2);
    let room = Step::Region {
        name: "g4n_lN_attn_out_bf16",
        bytes: (g.num_q_heads * g.head_dim * 2) as usize,
        align: 256,
    };
    lemma_one_in_bounds(room, h3);
    let h4 = after_step(room, h3);
    assert(h4.regions =~= h3.regions.push(out));
    assert(attn_regions(h4, p, hidden, 1));
    let narrowing = narrowing_steps(p, 1);
    lemma_narrowing(p, 1, hidden, h4);
    let norms = head_norm_steps(g, layer, 1, eps);
    lemma_head_norms(g, layer, p, 1, hidden, eps, h4);
    law_in_bounds_joins(first, proj, h);
    law_in_bounds_joins(first + proj, regions, h);
    lemma_none_in_bounds(h4);
    lemma_chain(first + proj + regions, seq![room], Seq::empty(), narrowing, norms, h, h3, h4, h4);
    assert(first + proj + regions + seq![room] + Seq::empty() =~= first + proj + regions
        + seq![room]);
}

/// The host's residual and its norm.
spec fn host_input_steps(b: &Gemma4Nvfp4Bringup, l: int) -> Seq<Step> {
    let hidden = b.arch.hidden_size as u32;
    seq![
        Step::Region { name: host_names().input, bytes: (hidden * 2) as usize, align: 256 },
        Step::WriteInput { dst: Buf::start(0), input: 0, bytes: (hidden * 2) as usize },
        Step::RmsNorm {
            format: Format16::Bf16,
            rows: 1,
            width: hidden,
            eps_bits: b.arch.rms_norm_eps_bits,
            data: Buf::start(0),
            gamma: b.model.layers@[l].input_layernorm.offset_bytes,
        },
    ]
}

proof fn lemma_host_input(b: &Gemma4Nvfp4Bringup, l: int)
    requires
        b.fits(1),
    ensures
        in_bounds(host_input_steps(b, l), nothing_held()),
        held_after(host_input_steps(b, l), 3, nothing_held()) == (Held {
            regions: seq![(2 * (1 * (b.arch.hidden_size as u32))) as nat],
            ..nothing_held()
        }),
{
    let s = host_input_steps(b, l);
    let h = nothing_held();
    let one = Held {
        regions: seq![(2 * (b.arch.hidden_size as u32)) as nat],
        ..nothing_held()
    };
    reveal(in_bounds);
    reveal_with_fuel(held_after, 4);
    assert(held_after(s, 1, h) =~= one);
    assert(one.has(Buf::start(0), 2 * (1u32 * (b.arch.hidden_size as u32))));
    assert(step_in(s[1], one));
    assert(step_in(s[2], one));
}

/// The attention of one token whose residual the host holds stays within its
/// regions.
pub proof fn law_host_attention_in_bounds(
    b: &Gemma4Nvfp4Bringup,
    l: int,
    residual_len: usize,
    position: u32,
    kv: &Gemma4Nvfp4KvState,
    policies: (i32, i32),
)
    requires
        b.fits(1),
        0 <= l,
    ensures
        in_bounds(
            b.host_attn(l, residual_len, position, kv, policies).steps,
            nothing_held(),
        ),
{
    lemma_none_in_bounds(nothing_held());
    if b.host_attn_fault(l, residual_len, position, kv) is None {
        lemma_equal_values(b, l);
        let head = b.host_attn_head(l);
        lemma_host_head(b, l);
        if let Ok(fill) = fill_spec(kv, position as i32, position as i32, 1) {
            let h = held_after(head, head.len(), nothing_held());
            lemma_lent_stays(head, head.len(), nothing_held());
            lemma_fill(kv, position as i32, position as i32, 1, h);
            lemma_host_tail(b, head, l, kv, fill, policies);
        }
    }
}

proof fn lemma_host_tail(
    b: &Gemma4Nvfp4Bringup,
    head: Seq<Step>,
    l: int,
    kv: &Gemma4Nvfp4KvState,
    fill: Step,
    policies: (i32, i32),
)
    requires
        b.fits(1),
        0 <= l < b.arch.num_hidden_layers,
        b.value_fault(l) is None,
        values_fit(b, l),
        in_bounds(head, nothing_held()),
        attn_regions(
            held_after(head, head.len(), nothing_held()),
            b.proj(l),
            b.arch.hidden_size as u32,
            1,
        ),
        held_after(head, head.len(), nothing_held()).regions.len() == 9,
        held_after(head, head.len(), nothing_held()).regions[8] == 2 * (b.heads(l).num_q_heads
            * b.heads(l).head_dim),
        step_in(fill, held_after(head, head.len(), nothing_held())),
        fill is Launch,
    ensures
        in_bounds(
            head + seq![
                fill,
                rope_write_spec(
                    b.heads(l),
                    kv,
                    l,
                    1,
                    Buf::start(4),
                    Buf::start(5),
                    Buf::start(6),
                    Buf::start(7),
                    policies,
                ),
            ] + decode_spec(
                b.heads(l),
                kv,
                l,
                Buf::start(8),
                Buf::start(7),
                "forward_layer_attn_from_residual: cuFuncSetAttribute(MAX_DYNAMIC_SHARED_SIZE)",
            ) + host_read_steps(b.heads(l)),
            nothing_held(),
        ),
{
    let g = b.heads(l);
    let p = b.proj(l);
    let hidden = b.arch.hidden_size as u32;
    lemma_limits(b, l, 1);
    let h = held_after(head, head.len(), nothing_held());
    let rope = rope_write_spec(
        g,
        kv,
        l,
        1,
        Buf::start(4),
        Buf::start(5),
        Buf::start(6),
        Buf::start(7),
        policies,
    );
    lemma_rope_write(g, p, kv, l, 1, hidden, policies, h);
    lemma_two(fill, rope, h);
    let label = "forward_layer_attn_from_residual: cuFuncSetAttribute(MAX_DYNAMIC_SHARED_SIZE)";
    let decode = decode_spec(g, kv, l, Buf::start(8), Buf::start(7), label);
    lemma_decode(g, p, kv, l, Buf::start(8), hidden, label, h);
    let read = host_read_steps(g);
    lemma_host_read(g, h);
    law_in_bounds_joins(head, seq![fill, rope], nothing_held());
    law_in_bounds_joins(head + seq![fill, rope], decode, nothing_held());
    law_in_bounds_joins(head + seq![fill, rope] + decode, read, nothing_held());
}

proof fn lemma_host_read(g: HeadPlan, h: Held)
    requires
        h.regions.len() == 9,
        h.regions[8] == 2 * (g.num_q_heads * g.head_dim),
        g.num_q_heads * g.head_dim * 2 <= usize::MAX,
    ensures
        in_bounds(host_read_steps(g), h),
{
    let read = host_read_steps(g);
    reveal(in_bounds);
    reveal_with_fuel(held_after, 4);
    assert(step_in(read[1], h));
}

/// The reading of the attention output.
spec fn host_read_steps(g: HeadPlan) -> Seq<Step> {
    seq![
        Step::Fence,
        Step::Read {
            src: Buf::start(8),
            bytes: (g.num_q_heads * g.head_dim * 2) as usize,
            on_fail: OnFail::Memcpy("forward_layer_attn_from_residual: attn_out DtoH"),
        },
        Step::Release,
    ]
}

} // verus!
