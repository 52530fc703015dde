//! A drafted token stays within the workspace of its step.

use crate::loader::gemma4_drafter::Gemma4DrafterArch;
use crate::runtime::footprint::{
    after_step, apart, held_after, in_bounds, law_in_bounds_joins, law_part_of_buffer,
    lemma_none_in_bounds, lemma_one_in_bounds, lends, room_in, step_in, Held,
};
use crate::runtime::gemma4_drafter::workspace::{
    buffer_bytes, lemma_sizes, query_rows, widest_projection, workspace_at, workspace_fits,
    workspace_regions, DrafterStepWorkspace,
};
use crate::runtime::gemma4_drafter::Gemma4DrafterRuntime;
use crate::runtime::gemma4_nvfp4_bring_up::kv_state::Gemma4Nvfp4KvState;
use crate::runtime::gemma4_nvfp4_bring_up::model::Gemma4Nvfp4Bringup;
use crate::runtime::step::{Buf, Step};
use vstd::prelude::*;

verus! {

/// Whether the buffers of a step have room for what they are made for.
pub open spec fn has_workspace(
    d: &Gemma4DrafterRuntime,
    w: &DrafterStepWorkspace,
    h: Held,
) -> bool {
    let a = d.arch;
    &&& h.has(Buf::At(w.pre_projection_in), 2 * a.pre_projection_in_dim)
    &&& h.has(Buf::At(w.hidden), 2 * a.hidden_size)
    &&& h.has(Buf::At(w.residual1), 2 * a.hidden_size)
    &&& h.has(Buf::At(w.gemm_f32), 4 * widest_projection(a))
    &&& h.has(Buf::At(w.proj_f16), 2 * widest_projection(a))
    &&& h.has(Buf::At(w.q), 2 * query_rows(a))
    &&& h.has(Buf::At(w.attn_out), 2 * query_rows(a))
    &&& h.has(Buf::At(w.out_hidden), 2 * a.backbone_hidden_size)
    &&& h.has(Buf::At(w.out_token_id), 4)
}

/// No head of the drafter is wider than those of its global layers.
pub open spec fn heads_match(d: &Gemma4DrafterRuntime) -> bool {
    &&& forall|l: int|
        0 <= l < d.layers@.len() ==> (#[trigger] d.layers@[l]).effective_head_dim
            <= d.arch.head_dim_global
    &&& d.shadow_kv matches Some(s) ==> s.full_head_dim <= d.arch.head_dim_global
        && s.sliding_head_dim <= d.arch.head_dim_global
}

/// Widths that 32-bit arguments hold, beside those of every drafter.
pub open spec fn widths_match(d: &Gemma4DrafterRuntime) -> bool {
    d.arch.pre_projection_in_dim <= 0x7fff_ffff && d.arch.vocab_size <= 0x7fff_ffff
}

/// Steps that leave what is held as it is.
proof fn lemma_steady(s: Seq<Step>, h: Held)
    requires
        forall|i: int|
            0 <= i < s.len() ==> step_in(#[trigger] s[i], h) && after_step(s[i], h) == h,
    ensures
        in_bounds(s, h),
        held_after(s, s.len(), h) == h,
    decreases s.len(),
{
    if s.len() == 0 {
        assert(s =~= Seq::empty());
        lemma_none_in_bounds(h);
    } else {
        let before = s.drop_last();
        let last = s.last();
        assert forall|i: int| 0 <= i < before.len() implies step_in(#[trigger] before[i], h)
            && after_step(before[i], h) == h by {
            assert(before[i] == s[i]);
        }
        lemma_steady(before, h);
        lemma_one_in_bounds(s[s.len() - 1], h);
        law_in_bounds_joins(before, seq![last], h);
        assert(s =~= before + seq![last]);
    }
}

proof fn lemma_pre_projection(
    b: &Gemma4Nvfp4Bringup,
    d: &Gemma4DrafterRuntime,
    w: &DrafterStepWorkspace,
    h: Held,
)
    requires
        d.fits(),
        widths_match(d),
        has_workspace(d, w, h),
    ensures
        in_bounds(b.drafter_pre_projection(d, w).steps, h),
{
    let s = b.drafter_pre_projection(d, w).steps;
    lemma_steady(s, h);
}

proof fn lemma_rows(d: &Gemma4DrafterRuntime, head_dim: int)
    requires
        0 <= head_dim <= d.arch.head_dim_global,
    ensures
        0 <= d.arch.num_attention_heads * head_dim <= query_rows(d.arch) <= widest_projection(
            d.arch,
        ),
{
    let n = d.arch.num_attention_heads as int;
    let g = d.arch.head_dim_global as int;
    assert(0 <= n * head_dim <= n * g) by (nonlinear_arith)
        requires
            0 <= head_dim <= g,
            0 <= n,
    ;
}

proof fn lemma_q_side(
    b: &Gemma4Nvfp4Bringup,
    d: &Gemma4DrafterRuntime,
    w: &DrafterStepWorkspace,
    l: int,
    position: u32,
    h: Held,
)
    requires
        d.fits(),
        heads_match(d),
        0 <= l,
        has_workspace(d, w, h),
        h.regions.len() == 0,
    ensures
        in_bounds(b.drafter_q_side(d, w, l, position).steps, h),
{
    let s = b.drafter_q_side(d, w, l, position).steps;
    lemma_none_in_bounds(h);
    if l < d.layers@.len() {
        let layer = d.layers@[l];
        assert(d.layer_fits(l));
        lemma_rows(d, layer.effective_head_dim as int);
        let n = s.len() - 3;
        let first = s.take(n as int);
        let region = s[n as int];
        let rest = s.subrange(n + 1, s.len() as int);
        let hidden = d.arch.hidden_size as u32;
        let heads = d.arch.num_attention_heads as u32;
        assert(h.has(Buf::At(w.hidden), 2 * (1u32 * hidden)));
        assert(h.has(Buf::At(w.q), 2 * (heads * (layer.effective_head_dim as u32))));
        lemma_steady(first, h);
        lemma_one_in_bounds(region, h);
        let one = after_step(region, h);
        assert(one.regions =~= seq![4nat]);
        lemma_steady(rest, one);
        law_in_bounds_joins(first, seq![region], h);
        law_in_bounds_joins(first + seq![region], rest, h);
        assert(s =~= first + seq![region] + rest);
    }
}

proof fn lemma_cross_attn(
    b: &Gemma4Nvfp4Bringup,
    d: &Gemma4DrafterRuntime,
    w: &DrafterStepWorkspace,
    l: int,
    kv: &Gemma4Nvfp4KvState,
    h: Held,
)
    requires
        d.fits(),
        heads_match(d),
        0 <= l,
        has_workspace(d, w, h),
    ensures
        in_bounds(b.drafter_cross_attn(d, w, l, kv).steps, h),
{
    let s = b.drafter_cross_attn(d, w, l, kv).steps;
    lemma_none_in_bounds(h);
    if let Some(shadow) = d.shadow_kv {
        lemma_rows(d, shadow.full_head_dim as int);
        lemma_rows(d, shadow.sliding_head_dim as int);
        let heads = d.arch.num_attention_heads as i32;
        assert(h.has(Buf::At(w.q), 2 * (heads * (shadow.full_head_dim as i32))));
        assert(h.has(Buf::At(w.q), 2 * (heads * (shadow.sliding_head_dim as i32))));
    }
    lemma_steady(s, h);
}

proof fn lemma_attn_finisher(
    b: &Gemma4Nvfp4Bringup,
    d: &Gemma4DrafterRuntime,
    w: &DrafterStepWorkspace,
    l: int,
    h: Held,
)
    requires
        d.fits(),
        heads_match(d),
        0 <= l,
        has_workspace(d, w, h),
    ensures
        in_bounds(b.drafter_attn_finisher(d, w, l).steps, h),
{
    let s = b.drafter_attn_finisher(d, w, l).steps;
    if l < d.layers@.len() {
        assert(d.layer_fits(l));
        lemma_rows(d, d.layers@[l].effective_head_dim as int);
        assert(h.has(Buf::At(w.proj_f16), 2 * (1u32 * (d.arch.hidden_size as u32))));
        assert(h.has(Buf::At(w.attn_out), 2 * (1i32 * (d.rows(l) as i32))));
        assert(h.has(Buf::At(w.gemm_f32), 4 * (1i32 * (d.arch.hidden_size as i32))));
    }
    lemma_steady(s, h);
}

proof fn lemma_mlp_finisher(
    b: &Gemma4Nvfp4Bringup,
    d: &Gemma4DrafterRuntime,
    w: &DrafterStepWorkspace,
    l: int,
    h: Held,
)
    requires
        d.fits(),
        0 <= l,
        has_workspace(d, w, h),
        h.regions.len() == 0,
    ensures
        in_bounds(b.drafter_mlp_finisher(d, w, l).steps, h),
{
    let s = b.drafter_mlp_finisher(d, w, l).steps;
    lemma_none_in_bounds(h);
    if l < d.layers@.len() {
        let first = s.take(2);
        let rest = s.subrange(2, s.len() as int);
        let two = Held {
            regions: seq![(2 * d.arch.hidden_size) as nat, (4 * d.arch.intermediate_size) as nat],
            ..h
        };
        assert(in_bounds(first, h) && held_after(first, 2, h) == two) by {
            reveal(in_bounds);
            reveal_with_fuel(held_after, 3);
            assert(held_after(first, 2, h) =~= two);
        }
        let inter = d.arch.intermediate_size;
        assert(two.has(Buf::At(w.hidden), 2 * (1u32 * (d.arch.hidden_size as u32))));
        assert(two.has(Buf::At(w.hidden), 2 * (1i32 * (d.arch.hidden_size as i32))));
        assert(two.has(Buf::At(w.gemm_f32), 4 * (1i32 * (d.arch.hidden_size as i32))));
        assert(two.has(Buf::At(w.gemm_f32), 4 * (1i32 * (inter as i32))));
        assert(two.has(Buf::start(1), 2 * (1i32 * (inter as i32))));
        assert(two.has(Buf::start(1).plus((2 * inter) as u64), 2 * (inter as i32)));
        lemma_steady(rest, two);
        law_in_bounds_joins(first, rest, h);
        assert(s =~= first + rest);
    }
}

proof fn lemma_final(
    b: &Gemma4Nvfp4Bringup,
    d: &Gemma4DrafterRuntime,
    w: &DrafterStepWorkspace,
    h: Held,
)
    requires
        d.fits(),
        widths_match(d),
        has_workspace(d, w, h),
    ensures
        in_bounds(b.drafter_final(d, w).steps, h),
{
    let s = b.drafter_final(d, w).steps;
    assert(h.has(Buf::At(w.hidden), 2 * (1u32 * (d.arch.hidden_size as u32))));
    assert(h.has(Buf::At(w.hidden), 2 * (1i32 * (d.arch.hidden_size as i32))));
    assert(h.has(Buf::At(w.gemm_f32), 4 * (1i32 * (d.arch.backbone_hidden_size as i32))));
    if !d.arch.use_ordered_embeddings {
        assert(h.has(Buf::At(w.gemm_f32), 4 * (1i32 * (d.arch.vocab_size as i32))));
    }
    lemma_steady(s, h);
}

/// Drafting a token leaves none of its own regions, nor the buffers of the
/// step where they have room, if no head is wider than the global ones.
pub proof fn law_drafter_pass_in_bounds(
    b: &Gemma4Nvfp4Bringup,
    d: &Gemma4DrafterRuntime,
    w: &DrafterStepWorkspace,
    n: nat,
    position: u32,
    kv: &Gemma4Nvfp4KvState,
    lent: Map<u64, nat>,
)
    requires
        d.fits(),
        heads_match(d),
        widths_match(d),
        has_workspace(d, w, lends(lent)),
    ensures
        ({
            let s = b.drafter_layers(d, w, n, position, kv).push(b.drafter_final(d, w));
            forall|i: int| 0 <= i < s.len() ==> in_bounds((#[trigger] s[i]).steps, lends(lent))
        }),
    decreases n,
{
    let h = lends(lent);
    let layers = b.drafter_layers(d, w, n, position, kv);
    let s = layers.push(b.drafter_final(d, w));
    lemma_pre_projection(b, d, w, h);
    lemma_final(b, d, w, h);
    if n > 0 {
        let m = (n - 1) as nat;
        let l = m as int;
        law_drafter_pass_in_bounds(b, d, w, m, position, kv, lent);
        let before = b.drafter_layers(d, w, m, position, kv);
        let longer = before.push(b.drafter_final(d, w));
        let own = b.drafter_layer(d, w, l, position, kv);
        lemma_q_side(b, d, w, l, position, h);
        lemma_cross_attn(b, d, w, l, kv, h);
        lemma_attn_finisher(b, d, w, l, h);
        lemma_mlp_finisher(b, d, w, l, h);
        assert forall|i: int| 0 <= i < s.len() implies in_bounds((#[trigger] s[i]).steps, h) by {
            if i < before.len() {
                assert(s[i] == longer[i]);
            } else if i < layers.len() {
                assert(s[i] == own[i - before.len()]);
            }
        }
    }
}

/// The input of a step leaves neither its regions nor the buffers it is copied
/// between, where both halves of the input have room.
pub proof fn law_drafter_input_in_bounds(
    b: &Gemma4Nvfp4Bringup,
    w: &DrafterStepWorkspace,
    token: u32,
    lent: Map<u64, nat>,
)
    requires
        b.fits(1),
        ({
            let half = 2 * b.arch.hidden_size;
            &&& w.pre_projection_in + half <= u64::MAX
            &&& lends(lent).has(Buf::At(w.pre_projection_in), half)
            &&& lends(lent).has(Buf::At((w.pre_projection_in + half) as u64), half)
            &&& lends(lent).has(Buf::At(b.base_last_hidden_ptr), half)
        }),
    ensures
        in_bounds(b.drafter_input(w, token).steps, lends(lent)),
{
    let s = b.drafter_input(w, token).steps;
    let h = lends(lent);
    let half = (2 * b.arch.hidden_size) as nat;
    let one = Held { regions: seq![half], ..h };
    let two = Held { regions: seq![half, 4nat], ..h };
    reveal(in_bounds);
    reveal_with_fuel(held_after, 7);
    assert(held_after(s, 1, h) =~= one);
    assert(held_after(s, 2, h) =~= two);
    assert(two.has(Buf::start(0), 2 * (1u32 * (b.arch.hidden_size as u32))));
    assert(step_in(s[2], two));
    assert(step_in(s[3], two));
    assert(step_in(s[4], two));
    if b.base_last_hidden_ptr != 0 {
        assert(step_in(s[5], two));
    }
}

/// The workspace that a drafter asks for is enough: no program of a drafted
/// token leaves it, if no head is wider than the global ones.
pub proof fn law_drafter_workspace_is_enough(
    b: &Gemma4Nvfp4Bringup,
    d: &Gemma4DrafterRuntime,
    position: u32,
    kv: &Gemma4Nvfp4KvState,
    ptrs: Seq<u64>,
    buffers: Map<u64, nat>,
)
    requires
        d.fits(),
        heads_match(d),
        widths_match(d),
        workspace_fits(d.arch),
        ptrs.len() == 16,
        apart(buffers),
        forall|i: int|
            0 <= i < 16 ==> buffers.contains_pair(
                #[trigger] ptrs[i],
                workspace_regions(d.arch)[i]->Region_bytes as nat,
            ),
    ensures
        ({
            let w = workspace_at(d.arch, ptrs);
            let s = b.drafter_layers(d, &w, d.layers@.len(), position, kv).push(
                b.drafter_final(d, &w),
            );
            forall|i: int|
                0 <= i < s.len() ==> in_bounds((#[trigger] s[i]).steps, lends(room_in(buffers)))
        }),
{
    let h = lends(room_in(buffers));
    let w = workspace_at(d.arch, ptrs);
    let bytes = buffer_bytes(d.arch);
    lemma_sizes(d.arch);
    assert forall|i: int| 0 <= i < 16 implies h.has(Buf::At(#[trigger] ptrs[i]), bytes[i]) by {
        assert(0 <= bytes[i]);
        lemma_size_fits(d.arch, i);
        law_part_of_buffer(buffers, h, ptrs[i], 0, bytes[i]);
    }
    assert(h.has(Buf::At(ptrs[0]), bytes[0]) && h.has(Buf::At(ptrs[1]), bytes[1]) && h.has(
        Buf::At(ptrs[2]),
        bytes[2],
    ) && h.has(Buf::At(ptrs[3]), bytes[3]) && h.has(Buf::At(ptrs[4]), bytes[4]) && h.has(
        Buf::At(ptrs[5]),
        bytes[5],
    ) && h.has(Buf::At(ptrs[6]), bytes[6]) && h.has(Buf::At(ptrs[9]), bytes[9]) && h.has(
        Buf::At(ptrs[13]),
        bytes[13],
    ));
    law_drafter_pass_in_bounds(b, d, &w, d.layers@.len(), position, kv, room_in(buffers));
}

/// Each region is as large as its buffer.
proof fn lemma_size_fits(a: Gemma4DrafterArch, i: int)
    requires
        workspace_fits(a),
        0 <= i < 16,
    ensures
        buffer_bytes(a)[i] <= workspace_regions(a)[i]->Region_bytes,
{
    let b = buffer_bytes(a);
    lemma_sizes(a);
    assert(b[0] >= 0 && b[1] >= 0 && b[2] >= 0 && b[3] >= 0 && b[4] >= 0 && b[5] >= 0 && b[6] >= 0
        && b[7] >= 0 && b[8] >= 0 && b[9] >= 0 && b[10] >= 0 && b[11] >= 0 && b[12] >= 0 && b[13]
        >= 0 && b[14] >= 0 && b[15] >= 0);
}

} // verus!
