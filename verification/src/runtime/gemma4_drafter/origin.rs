//! Where the contents of the shadow cache come from, cell by cell.

use crate::loader::gemma4_drafter::DrafterLayerType;
use crate::runtime::gemma4_drafter::shadow::{
    fill_layer, fill_reaches, law_span_in_bounds, law_spans_compose, span, Slots, SourceLayer,
};
use crate::runtime::gemma4_drafter::{DrafterShadowKv, Gemma4DrafterRuntime, KvDtype};
use crate::runtime::step::{Buf, KernelCall, Step};
use vstd::prelude::*;

verus! {

/// What a 16-bit cell was taken from.
pub enum Origin {
    /// A 16-bit number at an address.
    Cell(int),
    /// An FP8 number and its 32-bit scale.
    Fp8 { byte: int, scale: int },
    /// Half a byte, counted from address zero on, and its scale byte.
    Nvfp4 { nibble: int, scale: int },
}

/// The place of a cell in a run of `n` cells.
pub open spec fn place_in(dst: u64, n: int, x: int) -> Option<int> {
    if dst <= x < dst + 2 * n && (x - dst) % 2 == 0 {
        Some((x - dst) / 2)
    } else {
        None
    }
}

/// What a copy or a decoding step puts into the cell at an address, if it
/// writes the cell.
pub open spec fn origin(s: Step, x: int) -> Option<Origin> {
    match s {
        Step::Copy { dst: Buf::At(dst), src: Buf::At(src), bytes, .. } => match place_in(
            dst,
            bytes as int / 2,
            x,
        ) {
            Some(j) => Some(Origin::Cell(src + 2 * j)),
            None => None,
        },
        Step::Launch {
            call: KernelCall::DequantFp8 { src, scales, dst, head_dim, n, .. },
            ..
        } => match place_in(dst, n as int, x) {
            Some(j) => Some(Origin::Fp8 { byte: src + j, scale: scales + 4 * (j / head_dim as int) }),
            None => None,
        },
        Step::Launch { call: KernelCall::DequantNvfp4 { packed, scales, dst, n }, .. } => {
            match place_in(dst, n as int, x) {
                Some(j) => Some(Origin::Nvfp4 { nibble: 2 * packed + j, scale: scales + j / 16 }),
                None => None,
            }
        },
        _ => None,
    }
}

/// What the cell at an address holds after copies and decoding steps: the last
/// of them that writes it decides.
pub open spec fn last_origin(steps: Seq<Step>, x: int) -> Option<Origin>
    decreases steps.len(),
{
    if steps.len() == 0 {
        None
    } else if origin(steps.last(), x) is Some {
        origin(steps.last(), x)
    } else {
        last_origin(steps.drop_last(), x)
    }
}

/// The later of two decides.
pub open spec fn later(a: Option<Origin>, b: Option<Origin>) -> Option<Origin> {
    if b is Some {
        b
    } else {
        a
    }
}

/// Of steps in a row the later ones decide.
pub proof fn law_later_steps_decide(a: Seq<Step>, b: Seq<Step>, x: int)
    ensures
        last_origin(a + b, x) == later(last_origin(a, x), last_origin(b, x)),
    decreases b.len(),
{
    if b.len() == 0 {
        assert(a + b =~= a);
    } else {
        assert((a + b).last() == b.last());
        assert((a + b).drop_last() =~= a + b.drop_last());
        law_later_steps_decide(a, b.drop_last(), x);
    }
}

/// What element `e` of a shadow buffer stands for: the same element of the
/// base cache, with its scale.
pub open spec fn element_origin(
    dtype: KvDtype,
    cache: u64,
    scales: u64,
    head_dim: int,
    e: int,
) -> Origin {
    match dtype {
        KvDtype::F16Kv => Origin::Cell(cache + 2 * e),
        KvDtype::Fp8 => Origin::Fp8 { byte: cache + e, scale: scales + 4 * (e / head_dim) },
        KvDtype::Nvfp4 => Origin::Nvfp4 { nibble: 2 * cache + e, scale: scales + e / 16 },
    }
}

/// What a cell is taken from where elements `off` to `off + n` of a shadow
/// buffer are filled.
pub open spec fn taken(
    dtype: KvDtype,
    cache: u64,
    scales: u64,
    head_dim: int,
    shadow: u64,
    off: int,
    n: int,
    x: int,
) -> Option<Origin> {
    if shadow + 2 * off <= x < shadow + 2 * (off + n) && (x - shadow) % 2 == 0 {
        Some(element_origin(dtype, cache, scales, head_dim, (x - shadow) / 2))
    } else {
        None
    }
}

proof fn lemma_one(s: Step, x: int)
    ensures
        last_origin(seq![s], x) == origin(s, x),
{
    reveal_with_fuel(last_origin, 2);
    assert(seq![s].drop_last() =~= Seq::<Step>::empty());
}

proof fn lemma_two(a: Step, b: Step, x: int)
    ensures
        last_origin(seq![a, b], x) == later(origin(a, x), origin(b, x)),
{
    lemma_one(a, x);
    lemma_one(b, x);
    law_later_steps_decide(seq![a], seq![b], x);
    assert(seq![a] + seq![b] =~= seq![a, b]);
}

/// Scales of FP8 elements behind a slot.
proof fn lemma_scale(slot: int, nkvh: int, head_dim: int, j: int)
    requires
        slot >= 0,
        nkvh > 0,
        head_dim > 0,
        j >= 0,
    ensures
        (slot * (nkvh * head_dim)) / (nkvh * head_dim) == slot,
        (slot * (nkvh * head_dim) + j) / head_dim == slot * nkvh + j / head_dim,
{
    let per = nkvh * head_dim;
    assert(per > 0) by (nonlinear_arith)
        requires
            per == nkvh * head_dim,
            nkvh > 0,
            head_dim > 0,
    ;
    vstd::arithmetic::div_mod::lemma_div_multiples_vanish(slot, per);
    assert(per * slot == slot * per) by (nonlinear_arith);
    let k = slot * nkvh;
    assert(slot * per == head_dim * k) by (nonlinear_arith)
        requires
            per == nkvh * head_dim,
            k == slot * nkvh,
    ;
    vstd::arithmetic::div_mod::lemma_hoist_over_denominator(j, k, head_dim as nat);
    assert(k * head_dim == head_dim * k) by (nonlinear_arith);
}

/// What filling a layer from a slot on leaves in a cell.
#[verifier::spinoff_prover]
#[verifier::rlimit(40)]
proof fn lemma_fill(
    d: &Gemma4DrafterRuntime,
    which: DrafterLayerType,
    shadow_k: u64,
    shadow_v: u64,
    base: SourceLayer,
    nkvh: i32,
    head_dim: i32,
    slot: int,
    n: i64,
    x: int,
)
    requires
        nkvh > 0,
        head_dim > 0,
        slot >= 0,
        ({
            let off = slot * (nkvh * head_dim);
            &&& fill_reaches(
                shadow_k,
                shadow_v,
                base,
                nkvh as int,
                head_dim as int,
                off,
                n as int,
            )
            &&& fill_layer(
                d,
                which,
                shadow_k,
                shadow_v,
                base,
                nkvh,
                head_dim,
                off,
                n,
            ).failure is None
        }),
    ensures
        ({
            let off = slot * (nkvh * head_dim);
            let hd = head_dim as int;
            last_origin(
                fill_layer(d, which, shadow_k, shadow_v, base, nkvh, head_dim, off, n).steps,
                x,
            ) == later(
                taken(base.dtype, base.k, base.k_scale, hd, shadow_k, off, n as int, x),
                taken(base.dtype, base.v, base.v_scale, hd, shadow_v, off, n as int, x),
            )
        }),
{
    let per = nkvh * head_dim;
    let off = slot * per;
    let s = fill_layer(d, which, shadow_k, shadow_v, base, nkvh, head_dim, off, n).steps;
    if n > 0 {
        assert(off >= 0) by (nonlinear_arith)
            requires
                off == slot * (nkvh * head_dim),
                slot >= 0,
                nkvh > 0,
                head_dim > 0,
        ;
        lemma_scale(slot, nkvh as int, head_dim as int, 0);
        assert(slot * nkvh * 4 >= 0) by (nonlinear_arith)
            requires
                slot >= 0,
                nkvh > 0,
        ;
        assert(s.len() == 2);
        assert(s =~= seq![s[0], s[1]]);
        lemma_two(s[0], s[1], x);
        lemma_half(base.dtype, base.k, base.k_scale, shadow_k, nkvh, head_dim, slot, n, s[0], x);
        lemma_half(base.dtype, base.v, base.v_scale, shadow_v, nkvh, head_dim, slot, n, s[1], x);
    } else {
        assert(s =~= Seq::empty());
    }
}

/// One step of a fill.
spec fn is_half(
    dtype: KvDtype,
    cache: u64,
    scales: u64,
    shadow: u64,
    nkvh: i32,
    head_dim: i32,
    slot: int,
    n: i64,
    s: Step,
) -> bool {
    let off = slot * (nkvh * head_dim);
    match dtype {
        KvDtype::F16Kv => s matches Step::Copy { dst: Buf::At(dst), src: Buf::At(src), bytes, .. }
            && dst == shadow + 2 * off && src == cache + 2 * off && bytes == 2 * n,
        KvDtype::Fp8 => s matches Step::Launch {
            call: KernelCall::DequantFp8 { src, scales: t, dst, head_dim: hd, n: m, .. },
            ..
        } && dst == shadow + 2 * off && src == cache + off && t == scales + off / (nkvh * head_dim)
            * nkvh * 4 && hd == head_dim && m == n,
        KvDtype::Nvfp4 => (nkvh * head_dim) % 16 == 0 && (s matches Step::Launch {
            call: KernelCall::DequantNvfp4 { packed, scales: t, dst, n: m },
            ..
        } && dst == shadow + 2 * off && packed == cache + off / 2 && t == scales + off / 16 && m
            == n),
    }
}

proof fn lemma_half(
    dtype: KvDtype,
    cache: u64,
    scales: u64,
    shadow: u64,
    nkvh: i32,
    head_dim: i32,
    slot: int,
    n: i64,
    s: Step,
    x: int,
)
    requires
        nkvh > 0,
        head_dim > 0,
        slot >= 0,
        n > 0,
        is_half(dtype, cache, scales, shadow, nkvh, head_dim, slot, n, s),
    ensures
        origin(s, x) == taken(
            dtype,
            cache,
            scales,
            head_dim as int,
            shadow,
            slot * (nkvh * head_dim),
            n as int,
            x,
        ),
{
    let per = nkvh * head_dim;
    let off = slot * per;
    let d = (shadow + 2 * off) as int;
    if d <= x < d + 2 * n && (x - shadow) % 2 == 0 {
        let j = (x - d) / 2;
        assert((x - shadow) / 2 == off + j);
        lemma_scale(slot, nkvh as int, head_dim as int, j);
        if dtype == KvDtype::Fp8 {
            assert(slot * nkvh * 4 == 4 * (slot * nkvh)) by (nonlinear_arith);
        }
        if dtype == KvDtype::Nvfp4 {
            let q = per / 16;
            assert(slot * (16 * q) == 16 * (slot * q)) by (nonlinear_arith);
            assert(off == 16 * (slot * q));
        }
    }
}

/// Whether the keys and values of both layers of a shadow lie apart.
pub open spec fn buffers_apart(s: &DrafterShadowKv) -> bool {
    let (sb, fb) = (s.sliding_layer_bytes as int, s.full_layer_bytes as int);
    &&& two_apart(s.sliding_k_ptr, sb, s.sliding_v_ptr, sb)
    &&& two_apart(s.sliding_k_ptr, sb, s.full_k_ptr, fb)
    &&& two_apart(s.sliding_k_ptr, sb, s.full_v_ptr, fb)
    &&& two_apart(s.sliding_v_ptr, sb, s.full_k_ptr, fb)
    &&& two_apart(s.sliding_v_ptr, sb, s.full_v_ptr, fb)
    &&& two_apart(s.full_k_ptr, fb, s.full_v_ptr, fb)
}

/// Whether two buffers do not overlap.
pub open spec fn two_apart(p: u64, p_bytes: int, q: u64, q_bytes: int) -> bool {
    p + p_bytes <= q || q + q_bytes <= p
}

/// The cells of one buffer: filling two ranges in a row takes every cell from
/// where filling them at once does, and no cell beyond the buffer is taken.
proof fn lemma_cells(
    dtype: KvDtype,
    cache: u64,
    scales: u64,
    head_dim: int,
    shadow: u64,
    bytes: int,
    per: int,
    start: u32,
    a: u32,
    b: u32,
    x: int,
)
    requires
        0 <= per,
        0 <= bytes,
        start + a <= u32::MAX,
        a + b <= u32::MAX,
    ensures
        ({
            let room = bytes / 2;
            let sa = span(Slots::Range { start, count: a }, per, room);
            let sb = span(Slots::Range { start: (start + a) as u32, count: b }, per, room);
            let sc = span(Slots::Range { start, count: (a + b) as u32 }, per, room);
            let ta = taken(dtype, cache, scales, head_dim, shadow, sa.0, sa.1, x);
            let tb = taken(dtype, cache, scales, head_dim, shadow, sb.0, sb.1, x);
            let tc = taken(dtype, cache, scales, head_dim, shadow, sc.0, sc.1, x);
            &&& tc == later(ta, tb)
            &&& ta is Some ==> shadow <= x < shadow + bytes
            &&& tb is Some ==> shadow <= x < shadow + bytes
            &&& tc is Some ==> shadow <= x < shadow + bytes
        }),
{
    let room = bytes / 2;
    law_spans_compose(start, a, b, per, room);
    law_span_in_bounds(Slots::Range { start, count: a }, per, room);
    law_span_in_bounds(Slots::Range { start: (start + a) as u32, count: b }, per, room);
    law_span_in_bounds(Slots::Range { start, count: (a + b) as u32 }, per, room);
}

/// What a fill of both layers leaves in a cell.
proof fn lemma_slots(
    d: &Gemma4DrafterRuntime,
    sliding: SourceLayer,
    full: SourceLayer,
    start: u32,
    count: u32,
    x: int,
)
    requires
        d.shadow_kv is Some,
        d.slots_reach(sliding, full, Slots::Range { start, count }),
        d.fill_slots(sliding, full, Slots::Range { start, count }).failure is None,
    ensures
        ({
            let h = d.shadow_kv->Some_0;
            let slots = Slots::Range { start, count };
            let (so, sn) = span(slots, h.sliding_per_slot(), (h.sliding_layer_bytes / 2) as int);
            let (fo, fn_) = span(slots, h.full_per_slot(), (h.full_layer_bytes / 2) as int);
            let (sd, fd) = (h.sliding_head_dim as int, h.full_head_dim as int);
            let (s, f) = (sliding, full);
            last_origin(d.fill_slots(sliding, full, slots).steps, x) == later(
                later(
                    taken(s.dtype, s.k, s.k_scale, sd, h.sliding_k_ptr, so, sn, x),
                    taken(s.dtype, s.v, s.v_scale, sd, h.sliding_v_ptr, so, sn, x),
                ),
                later(
                    taken(f.dtype, f.k, f.k_scale, fd, h.full_k_ptr, fo, fn_, x),
                    taken(f.dtype, f.v, f.v_scale, fd, h.full_v_ptr, fo, fn_, x),
                ),
            )
        }),
{
    let h = d.shadow_kv->Some_0;
    let slots = Slots::Range { start, count };
    let (so, sn) = span(slots, h.sliding_per_slot(), (h.sliding_layer_bytes / 2) as int);
    let (fo, fn_) = span(slots, h.full_per_slot(), (h.full_layer_bytes / 2) as int);
    let (snh, shd) = (h.sliding_num_kv_heads as i32, h.sliding_head_dim as i32);
    let (fnh, fhd) = (h.full_num_kv_heads as i32, h.full_head_dim as i32);
    assert(h.sliding_per_slot() > 0 && h.full_per_slot() > 0) by (nonlinear_arith)
        requires
            h.sliding_per_slot() == h.sliding_num_kv_heads * h.sliding_head_dim,
            h.full_per_slot() == h.full_num_kv_heads * h.full_head_dim,
            h.sliding_num_kv_heads > 0,
            h.sliding_head_dim > 0,
            h.full_num_kv_heads > 0,
            h.full_head_dim > 0,
    ;
    law_span_in_bounds(slots, h.sliding_per_slot(), (h.sliding_layer_bytes / 2) as int);
    law_span_in_bounds(slots, h.full_per_slot(), (h.full_layer_bytes / 2) as int);
    let a = fill_layer(
        d,
        DrafterLayerType::Sliding,
        h.sliding_k_ptr,
        h.sliding_v_ptr,
        sliding,
        snh,
        shd,
        so,
        sn as i64,
    );
    let b = fill_layer(
        d,
        DrafterLayerType::Full,
        h.full_k_ptr,
        h.full_v_ptr,
        full,
        fnh,
        fhd,
        fo,
        fn_ as i64,
    );
    lemma_fill(
        d,
        DrafterLayerType::Sliding,
        h.sliding_k_ptr,
        h.sliding_v_ptr,
        sliding,
        snh,
        shd,
        start as int,
        sn as i64,
        x,
    );
    lemma_fill(
        d,
        DrafterLayerType::Full,
        h.full_k_ptr,
        h.full_v_ptr,
        full,
        fnh,
        fhd,
        start as int,
        fn_ as i64,
        x,
    );
    law_later_steps_decide(a.steps, b.steps, x);
}

/// Filling two adjacent ranges of slots leaves every cell of the four shadow
/// buffers as filling them at once does: taken from the same element of the
/// base cache, or not at all.
pub proof fn law_adjacent_fills_are_one(
    d: &Gemma4DrafterRuntime,
    sliding: SourceLayer,
    full: SourceLayer,
    sliding_bytes: usize,
    full_bytes: usize,
    start: u32,
    a: u32,
    b: u32,
)
    requires
        a > 0,
        b > 0,
        start + a <= u32::MAX,
        a + b <= u32::MAX,
        d.shadow_kv matches Some(h) && buffers_apart(&h),
        d.slots_reach(sliding, full, Slots::Range { start, count: a }),
        d.slots_reach(sliding, full, Slots::Range { start: (start + a) as u32, count: b }),
        d.slots_reach(sliding, full, Slots::Range { start, count: (a + b) as u32 }),
        d.range_fill(sliding, full, sliding_bytes, full_bytes, start, a).failure is None,
        d.range_fill(
            sliding,
            full,
            sliding_bytes,
            full_bytes,
            (start + a) as u32,
            b,
        ).failure is None,
        d.range_fill(
            sliding,
            full,
            sliding_bytes,
            full_bytes,
            start,
            (a + b) as u32,
        ).failure is None,
    ensures
        forall|x: int|
            last_origin(
                d.range_fill(sliding, full, sliding_bytes, full_bytes, start, a).steps
                    + d.range_fill(
                    sliding,
                    full,
                    sliding_bytes,
                    full_bytes,
                    (start + a) as u32,
                    b,
                ).steps,
                x,
            ) == #[trigger] last_origin(
                d.range_fill(
                    sliding,
                    full,
                    sliding_bytes,
                    full_bytes,
                    start,
                    (a + b) as u32,
                ).steps,
                x,
            ),
{
    let h = d.shadow_kv->Some_0;
    let next = (start + a) as u32;
    let both = (a + b) as u32;
    let pa = d.range_fill(sliding, full, sliding_bytes, full_bytes, start, a);
    let pb = d.range_fill(sliding, full, sliding_bytes, full_bytes, next, b);
    let pc = d.range_fill(sliding, full, sliding_bytes, full_bytes, start, both);
    let (sb, fb) = (h.sliding_layer_bytes as int, h.full_layer_bytes as int);
    let (sp, fp) = (h.sliding_per_slot(), h.full_per_slot());
    let (sd, fd) = (h.sliding_head_dim as int, h.full_head_dim as int);
    let (s, f) = (sliding, full);
    assert(sp >= 0 && fp >= 0) by (nonlinear_arith)
        requires
            sp == h.sliding_num_kv_heads * h.sliding_head_dim,
            fp == h.full_num_kv_heads * h.full_head_dim,
    ;
    assert forall|x: int|
        last_origin(pa.steps + pb.steps, x) == #[trigger] last_origin(pc.steps, x) by {
        law_later_steps_decide(pa.steps, pb.steps, x);
        lemma_slots(d, sliding, full, start, a, x);
        lemma_slots(d, sliding, full, next, b, x);
        lemma_slots(d, sliding, full, start, both, x);
        lemma_cells(s.dtype, s.k, s.k_scale, sd, h.sliding_k_ptr, sb, sp, start, a, b, x);
        lemma_cells(s.dtype, s.v, s.v_scale, sd, h.sliding_v_ptr, sb, sp, start, a, b, x);
        lemma_cells(f.dtype, f.k, f.k_scale, fd, h.full_k_ptr, fb, fp, start, a, b, x);
        lemma_cells(f.dtype, f.v, f.v_scale, fd, h.full_v_ptr, fb, fp, start, a, b, x);
    }
}

} // verus!
