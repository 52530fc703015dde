//! The shadow cache: a 16-bit mirror of two layers of the base model's cache.
//!
//! Every buffer is `[slots, heads, width]`, so the elements of slot `s` lie at
//! `s * heads * width` whatever the format. An element takes two bytes in
//! the shadow, and two, one or half a byte in the base cache; FP8 has a 32-bit
//! scale for each slot and head, NVFP4 a scale byte for sixteen elements.

use crate::limits::{product, within};
use crate::loader::gemma4_drafter::DrafterLayerType;
use crate::runtime::error::{drafter_err, RuntimeError};
use crate::runtime::gemma4_drafter::{DrafterShadowKv, Gemma4DrafterRuntime, KvDtype};
use crate::runtime::step::{
    completes, refuses, Buf, Dim3, KernelCall, OnFail, Program, ProgramView, Step,
};
use vstd::arithmetic::overflow::CheckedU128;
use vstd::prelude::*;

verus! {

impl DrafterShadowKv {
    /// Heads and widths that kernel arguments can hold, and buffers whose
    /// elements can be counted.
    pub open spec fn wf(&self) -> bool {
        &&& 0 < self.sliding_num_kv_heads <= i32::MAX
        &&& 0 < self.sliding_head_dim <= i32::MAX
        &&& 0 < self.full_num_kv_heads <= i32::MAX
        &&& 0 < self.full_head_dim <= i32::MAX
        &&& self.sliding_layer_bytes <= i64::MAX
        &&& self.full_layer_bytes <= i64::MAX
    }

    /// Whether kernel arguments can hold heads and widths, and the elements of
    /// the buffers can be counted.
    pub fn check_wf(&self) -> (r: bool)
        ensures
            r == self.wf(),
    {
        let most: u32 = 0x7fff_ffff;
        0 < self.sliding_num_kv_heads && self.sliding_num_kv_heads <= most && 0
            < self.sliding_head_dim && self.sliding_head_dim <= most && 0 < self.full_num_kv_heads
            && self.full_num_kv_heads <= most && 0 < self.full_head_dim && self.full_head_dim
            <= most && self.sliding_layer_bytes as u128 <= i64::MAX as u128
            && self.full_layer_bytes as u128 <= i64::MAX as u128
    }

    /// Elements of a slot of the sliding layer.
    pub open spec fn sliding_per_slot(&self) -> int {
        self.sliding_num_kv_heads * self.sliding_head_dim
    }

    /// Elements of a slot of the global layer.
    pub open spec fn full_per_slot(&self) -> int {
        self.full_num_kv_heads * self.full_head_dim
    }
}

/// The base model's cache at one source layer.
#[derive(Clone, Copy, Debug)]
pub struct SourceLayer {
    pub k: u64,
    pub v: u64,
    pub k_scale: u64,
    pub v_scale: u64,
    pub dtype: KvDtype,
}

/// The slots to fill: all of them, or a range.
#[derive(Clone, Copy, Debug, PartialEq, Eq, Structural)]
pub enum Slots {
    All,
    Range { start: u32, count: u32 },
}

/// First element and number of elements of the slots, where a slot has
/// `per_slot` and the buffer has room for `room`.
pub open spec fn span(slots: Slots, per_slot: int, room: int) -> (int, int) {
    match slots {
        Slots::All => (0, room),
        Slots::Range { start, count } => {
            let off = start * per_slot;
            let want = count * per_slot;
            let left = if room > off {
                room - off
            } else {
                0
            };
            (
                off,
                if want <= left {
                    want
                } else {
                    left
                },
            )
        },
    }
}

/// Whether the elements of the slots can be counted.
pub open spec fn span_fits(slots: Slots, per_slot: int) -> bool {
    match slots {
        Slots::All => true,
        Slots::Range { start, count } => start * per_slot <= i64::MAX && count * per_slot
            <= i64::MAX,
    }
}

fn plan_span(slots: Slots, per_slot: i64, room: i64) -> (r: (i64, i64))
    requires
        0 <= per_slot,
        0 <= room,
        span_fits(slots, per_slot as int),
    ensures
        (r.0 as int, r.1 as int) == span(slots, per_slot as int, room as int),
        0 <= r.0,
        0 <= r.1,
{
    match slots {
        Slots::All => (0, room),
        Slots::Range { start, count } => {
            assert(start * per_slot >= 0 && count * per_slot >= 0) by (nonlinear_arith)
                requires
                    per_slot >= 0,
            ;
            let off: i64 = start as i64 * per_slot;
            let want: i64 = count as i64 * per_slot;
            let left: i64 = if room > off {
                room - off
            } else {
                0
            };
            let n: i64 = if want <= left {
                want
            } else {
                left
            };
            (off, n)
        },
    }
}

/// What is filled stays within the buffer.
pub proof fn law_span_in_bounds(slots: Slots, per_slot: int, room: int)
    requires
        0 <= per_slot,
        0 <= room,
    ensures
        ({
            let (off, n) = span(slots, per_slot, room);
            0 <= off && 0 <= n && (n > 0 ==> off + n <= room)
        }),
{
    if let Slots::Range { start, count } = slots {
        assert(start * per_slot >= 0 && count * per_slot >= 0) by (nonlinear_arith)
            requires
                per_slot >= 0,
        ;
    }
}

/// Filling a range in two parts fills what filling it at once does: the parts
/// meet, and their elements add up.
pub proof fn law_spans_compose(start: u32, first: u32, second: u32, per_slot: int, room: int)
    requires
        0 <= per_slot,
        0 <= room,
        start + first <= u32::MAX,
        first + second <= u32::MAX,
    ensures
        ({
            let a = span(Slots::Range { start, count: first }, per_slot, room);
            let b = span(
                Slots::Range { start: (start + first) as u32, count: second },
                per_slot,
                room,
            );
            let c = span(Slots::Range { start, count: (first + second) as u32 }, per_slot, room);
            &&& c.0 == a.0
            &&& c.1 == a.1 + b.1
            &&& b.1 > 0 ==> b.0 == a.0 + a.1
        }),
{
    assert((start + first) * per_slot == start * per_slot + first * per_slot && (first + second)
        * per_slot == first * per_slot + second * per_slot && start * per_slot >= 0 && first
        * per_slot >= 0 && second * per_slot >= 0) by (nonlinear_arith)
        requires
            per_slot >= 0,
    ;
}

/// A range from the start that covers every slot fills the whole buffer.
pub proof fn law_whole_range_is_all(count: u32, per_slot: int, room: int)
    requires
        0 <= room <= count * per_slot,
    ensures
        span(Slots::Range { start: 0, count }, per_slot, room) == span(
            Slots::All,
            per_slot,
            room,
        ),
{
}

/// Blocks of 256 threads that cover `n` elements.
pub open spec fn dequant_grid(n: int) -> u32 {
    ((n + 255) / 256) as u32
}

/// Decodes `n` FP8 elements into the shadow.
pub open spec fn fp8_dequant(
    src: u64,
    scales: u64,
    dst: u64,
    nkvh: i32,
    head_dim: i32,
    n: i64,
) -> Seq<Step> {
    if n <= 0 {
        Seq::empty()
    } else {
        seq![
            Step::Launch {
                call: KernelCall::DequantFp8 {
                    src,
                    scales,
                    dst,
                    num_kv_heads: nkvh,
                    head_dim,
                    n,
                },
                grid: Dim3::line(dequant_grid(n as int)),
                block: Dim3::line(256),
                shared: 0,
                on_fail: OnFail::Launch("gemma4_drafter_dequant_fp8_to_f16"),
            },
        ]
    }
}

/// Decodes `n` FP8 elements into the shadow; nothing for none.
pub fn launch_fp8_dequant_to_shadow(
    src: u64,
    scales: u64,
    dst: u64,
    nkvh: i32,
    head_dim: i32,
    n_elems: i64,
) -> (r: Vec<Step>)
    requires
        n_elems <= i64::MAX - 255,
    ensures
        r@ == fp8_dequant(src, scales, dst, nkvh, head_dim, n_elems),
{
    if n_elems <= 0 {
        return Vec::new();
    }
    let grid: u32 = ((n_elems + 255) / 256) as u32;
    vec![
        Step::Launch {
            call: KernelCall::DequantFp8 {
                src,
                scales,
                dst,
                num_kv_heads: nkvh,
                head_dim,
                n: n_elems,
            },
            grid: Dim3::line(grid),
            block: Dim3::line(256),
            shared: 0,
            on_fail: OnFail::Launch("gemma4_drafter_dequant_fp8_to_f16"),
        },
    ]
}

/// Decodes `n` NVFP4 elements into the shadow.
pub open spec fn nvfp4_dequant(packed: u64, scales: u64, dst: u64, n: i64) -> Seq<Step> {
    if n <= 0 {
        Seq::empty()
    } else {
        seq![
            Step::Launch {
                call: KernelCall::DequantNvfp4 { packed, scales, dst, n },
                grid: Dim3::line(dequant_grid(n as int)),
                block: Dim3::line(256),
                shared: 0,
                on_fail: OnFail::Launch("gemma4_drafter_dequant_nvfp4_to_f16"),
            },
        ]
    }
}

/// Decodes `n` NVFP4 elements into the shadow; nothing for none.
pub fn launch_nvfp4_dequant_to_shadow(packed: u64, scales: u64, dst: u64, n_elems: i64) -> (r: Vec<
    Step,
>)
    requires
        n_elems <= i64::MAX - 255,
    ensures
        r@ == nvfp4_dequant(packed, scales, dst, n_elems),
{
    if n_elems <= 0 {
        return Vec::new();
    }
    let grid: u32 = ((n_elems + 255) / 256) as u32;
    vec![
        Step::Launch {
            call: KernelCall::DequantNvfp4 { packed, scales, dst, n: n_elems },
            grid: Dim3::line(grid),
            block: Dim3::line(256),
            shared: 0,
            on_fail: OnFail::Launch("gemma4_drafter_dequant_nvfp4_to_f16"),
        },
    ]
}

/// Bytes before an element of a base cache.
pub open spec fn source_offset(dtype: KvDtype, elem: int) -> int {
    match dtype {
        KvDtype::F16Kv => 2 * elem,
        KvDtype::Fp8 => elem,
        KvDtype::Nvfp4 => elem / 2,
    }
}

/// Bytes before the scale of an element that starts a slot.
pub open spec fn scale_offset(dtype: KvDtype, elem: int, nkvh: int, head_dim: int) -> int {
    match dtype {
        KvDtype::F16Kv => 0,
        KvDtype::Fp8 => elem / (nkvh * head_dim) * nkvh * 4,
        KvDtype::Nvfp4 => elem / 16,
    }
}

/// Where slots have a multiple of sixteen elements, the NVFP4 offsets of a
/// slot are exact: nothing of another slot lies in its bytes or its scales.
/// FP8 has one scale for each head of each slot before it.
pub proof fn law_slot_offsets_exact(slot: nat, nkvh: nat, head_dim: nat)
    requires
        nkvh > 0,
        head_dim > 0,
    ensures
        (nkvh * head_dim) % 16 == 0 ==> {
            let elem = slot * (nkvh * head_dim);
            &&& source_offset(KvDtype::Nvfp4, elem as int) * 2 == elem
            &&& scale_offset(KvDtype::Nvfp4, elem as int, nkvh as int, head_dim as int) * 16
                == elem
        },
        scale_offset(
            KvDtype::Fp8,
            (slot * (nkvh * head_dim)) as int,
            nkvh as int,
            head_dim as int,
        ) == 4 * (slot * nkvh),
{
    let per = (nkvh * head_dim) as int;
    assert(per > 0) by (nonlinear_arith)
        requires
            per == nkvh * head_dim,
            nkvh > 0,
            head_dim > 0,
    ;
    let elem = slot * per;
    vstd::arithmetic::div_mod::lemma_div_multiples_vanish(slot as int, per);
    assert(per * slot == slot * per) by (nonlinear_arith);
    assert(elem / per == slot);
    assert(slot * nkvh * 4 == 4 * (slot * nkvh)) by (nonlinear_arith);
    if per % 16 == 0 {
        let q = per / 16;
        assert(slot * (16 * q) == 16 * (slot * q)) by (nonlinear_arith);
        assert(elem == 16 * (slot * q));
    }
}

/// Name of the keys or values of a source layer.
pub open spec fn buffer_name_spec(which: DrafterLayerType, values: bool) -> &'static str {
    match which {
        DrafterLayerType::Sliding => if values {
            "sliding_v"
        } else {
            "sliding_k"
        },
        DrafterLayerType::Full => if values {
            "full_v"
        } else {
            "full_k"
        },
    }
}

/// Name of the keys or values of a source layer.
#[verifier::when_used_as_spec(buffer_name_spec)]
pub fn buffer_name(which: DrafterLayerType, values: bool) -> (r: &'static str)
    ensures
        r == buffer_name_spec(which, values),
{
    match which {
        DrafterLayerType::Sliding => if values {
            "sliding_v"
        } else {
            "sliding_k"
        },
        DrafterLayerType::Full => if values {
            "full_v"
        } else {
            "full_k"
        },
    }
}

/// Fills both halves of one source layer, from element `off` on.
pub open spec fn fill_layer(
    runtime: &Gemma4DrafterRuntime,
    which: DrafterLayerType,
    shadow_k: u64,
    shadow_v: u64,
    base: SourceLayer,
    nkvh: i32,
    head_dim: i32,
    off: int,
    n: i64,
) -> ProgramView {
    let src = source_offset(base.dtype, off);
    let scale = scale_offset(base.dtype, off, nkvh as int, head_dim as int);
    let dst = 2 * off;
    let k_src = (base.k + src) as u64;
    let v_src = (base.v + src) as u64;
    let k_scale = (base.k_scale + scale) as u64;
    let v_scale = (base.v_scale + scale) as u64;
    let k_dst = (shadow_k + dst) as u64;
    let v_dst = (shadow_v + dst) as u64;
    let hd_global = runtime.arch.head_dim_global as u32;
    if n <= 0 {
        completes(Seq::empty())
    } else {
        match base.dtype {
            KvDtype::F16Kv => completes(
                seq![
                    Step::Copy {
                        dst: Buf::At(k_dst),
                        src: Buf::At(k_src),
                        bytes: (2 * n) as usize,
                        on_fail: OnFail::MemcpyOf {
                            op: "drafter_shadow_kv_dtoD",
                            buffer: buffer_name(which, false),
                        },
                    },
                    Step::Copy {
                        dst: Buf::At(v_dst),
                        src: Buf::At(v_src),
                        bytes: (2 * n) as usize,
                        on_fail: OnFail::MemcpyOf {
                            op: "drafter_shadow_kv_dtoD",
                            buffer: buffer_name(which, true),
                        },
                    },
                ],
            ),
            KvDtype::Fp8 => if !runtime.kernels.dequant_fp8 {
                refuses(
                    drafter_err(
                        "populate_shadow_kv_from_base: FP8 dequant kernel not attached",
                        "populate_shadow_kv_from_base(fp8)",
                        hd_global,
                    ),
                )
            } else {
                completes(
                    fp8_dequant(k_src, k_scale, k_dst, nkvh, head_dim, n) + fp8_dequant(
                        v_src,
                        v_scale,
                        v_dst,
                        nkvh,
                        head_dim,
                        n,
                    ),
                )
            },
            KvDtype::Nvfp4 => if !runtime.kernels.dequant_nvfp4 {
                refuses(
                    drafter_err(
                        "populate_shadow_kv_from_base: NVFP4 dequant kernel not attached",
                        "populate_shadow_kv_from_base(nvfp4)",
                        hd_global,
                    ),
                )
            } else if (nkvh * head_dim) % 16 != 0 {
                refuses(
                    drafter_err(
                        "populate_shadow_kv_range(nvfp4): per_slot_elems not 16-aligned",
                        "populate_shadow_kv_range(nvfp4)",
                        head_dim as u32,
                    ),
                )
            } else {
                completes(
                    nvfp4_dequant(k_src, k_scale, k_dst, n) + nvfp4_dequant(
                        v_src,
                        v_scale,
                        v_dst,
                        n,
                    ),
                )
            },
        }
    }
}

/// Whether what is filled of a layer, and what it is filled from, has
/// addresses.
pub open spec fn fill_reaches(
    shadow_k: u64,
    shadow_v: u64,
    base: SourceLayer,
    nkvh: int,
    head_dim: int,
    off: int,
    n: int,
) -> bool {
    n > 0 ==> {
        let src = source_offset(base.dtype, off);
        let scale = scale_offset(base.dtype, off, nkvh, head_dim);
        &&& shadow_k + 2 * off <= u64::MAX
        &&& shadow_v + 2 * off <= u64::MAX
        &&& base.k + src <= u64::MAX
        &&& base.v + src <= u64::MAX
        &&& base.k_scale + scale <= u64::MAX
        &&& base.v_scale + scale <= u64::MAX
        &&& scale <= u64::MAX
        &&& n <= i64::MAX - 255
        &&& 2 * n <= usize::MAX
    }
}

/// Whether an offset behind each of some addresses is one.
fn check_offset(ptrs: &[u64], offset: &CheckedU128) -> (r: bool)
    ensures
        r == (forall|i: int| 0 <= i < ptrs@.len() ==> #[trigger] ptrs@[i] + offset@ <= u64::MAX),
{
    let n: usize = ptrs.len();
    let mut i: usize = 0;
    while i < n
        invariant
            n == ptrs@.len(),
            i <= n,
            forall|j: int| 0 <= j < i ==> #[trigger] ptrs@[j] + offset@ <= u64::MAX,
        decreases n - i,
    {
        if !within(&offset.add_value(ptrs[i] as u128), u64::MAX as u128) {
            assert(ptrs@[i as int] + offset@ > u64::MAX);
            return false;
        }
        i = i + 1;
    }
    true
}

/// Whether a fill stays within the addresses.
fn check_fill(
    shadow_k: u64,
    shadow_v: u64,
    base: SourceLayer,
    nkvh: u32,
    head_dim: u32,
    off: i64,
    n: i64,
) -> (r: bool)
    requires
        0 <= off,
        0 < nkvh <= i32::MAX,
        0 < head_dim <= i32::MAX,
    ensures
        r == fill_reaches(
            shadow_k,
            shadow_v,
            base,
            nkvh as int,
            head_dim as int,
            off as int,
            n as int,
        ),
{
    if n <= 0 {
        return true;
    }
    assert(0 < nkvh * head_dim <= 0x7fff_ffff * 0x7fff_ffff) by (nonlinear_arith)
        requires
            0 < nkvh <= 0x7fff_ffff,
            0 < head_dim <= 0x7fff_ffff,
    ;
    let elem: u128 = off as u128;
    let per_slot: u128 = nkvh as u128 * head_dim as u128;
    let (src, scale) = match base.dtype {
        KvDtype::F16Kv => (product(elem, 2), CheckedU128::new(0)),
        KvDtype::Fp8 => (
            CheckedU128::new(elem),
            product(elem / per_slot, nkvh as u128).mul_value(4),
        ),
        KvDtype::Nvfp4 => (CheckedU128::new(elem / 2), CheckedU128::new(elem / 16)),
    };
    check_offset(&[shadow_k, shadow_v], &product(elem, 2)) && check_offset(
        &[base.k, base.v],
        &src,
    ) && check_offset(&[base.k_scale, base.v_scale], &scale) && within(&scale, u64::MAX as u128)
        && n <= i64::MAX - 255 && 2 * (n as u128) <= usize::MAX as u128
}

/// Whether the slots of one layer have addresses.
fn check_layer_slots(
    shadow_k: u64,
    shadow_v: u64,
    base: SourceLayer,
    nkvh: u32,
    head_dim: u32,
    layer_bytes: usize,
    slots: Slots,
) -> (r: bool)
    requires
        0 < nkvh <= i32::MAX,
        0 < head_dim <= i32::MAX,
        layer_bytes <= i64::MAX,
    ensures
        r == ({
            let per_slot = nkvh * head_dim;
            let (off, n) = span(slots, per_slot, (layer_bytes / 2) as int);
            span_fits(slots, per_slot) && fill_reaches(
                shadow_k,
                shadow_v,
                base,
                nkvh as int,
                head_dim as int,
                off,
                n,
            )
        }),
{
    assert(0 < nkvh * head_dim <= 0x7fff_ffff * 0x7fff_ffff) by (nonlinear_arith)
        requires
            0 < nkvh <= 0x7fff_ffff,
            0 < head_dim <= 0x7fff_ffff,
    ;
    let per_slot: i64 = nkvh as i64 * head_dim as i64;
    if let Slots::Range { start, count } = slots {
        let most: u128 = i64::MAX as u128;
        if !within(&product(start as u128, per_slot as u128), most) || !within(
            &product(count as u128, per_slot as u128),
            most,
        ) {
            return false;
        }
    }
    let (off, n): (i64, i64) = plan_span(slots, per_slot, (layer_bytes / 2) as i64);
    check_fill(shadow_k, shadow_v, base, nkvh, head_dim, off, n)
}

impl Gemma4DrafterRuntime {
    /// Fills keys and values of one source layer in the format of its cache.
    pub fn populate_one_source_layer(
        &self,
        which: DrafterLayerType,
        shadow_k: u64,
        shadow_v: u64,
        base: SourceLayer,
        nkvh: i32,
        head_dim: i32,
        elem_offset: i64,
        n_elems: i64,
    ) -> (r: Program)
        requires
            n_elems > 0 ==> nkvh > 0 && head_dim > 0 && elem_offset >= 0,
            fill_reaches(
                shadow_k,
                shadow_v,
                base,
                nkvh as int,
                head_dim as int,
                elem_offset as int,
                n_elems as int,
            ),
        ensures
            r@ == fill_layer(
                self,
                which,
                shadow_k,
                shadow_v,
                base,
                nkvh,
                head_dim,
                elem_offset as int,
                n_elems,
            ),
    {
        if n_elems <= 0 {
            return Program::complete(Vec::new());
        }
        assert(0 < nkvh * head_dim <= 0x7fff_ffff * 0x7fff_ffff) by (nonlinear_arith)
            requires
                0 < nkvh <= 0x7fff_ffff,
                0 < head_dim <= 0x7fff_ffff,
        ;
        let per_slot: i64 = nkvh as i64 * head_dim as i64;
        let off: u64 = elem_offset as u64;
        match base.dtype {
            KvDtype::F16Kv => {
                let s: Vec<Step> =
                    vec![
                    Step::Copy {
                        dst: Buf::At(shadow_k + off * 2),
                        src: Buf::At(base.k + off * 2),
                        bytes: n_elems as usize * 2,
                        on_fail: OnFail::MemcpyOf {
                            op: "drafter_shadow_kv_dtoD",
                            buffer: buffer_name(which, false),
                        },
                    },
                    Step::Copy {
                        dst: Buf::At(shadow_v + off * 2),
                        src: Buf::At(base.v + off * 2),
                        bytes: n_elems as usize * 2,
                        on_fail: OnFail::MemcpyOf {
                            op: "drafter_shadow_kv_dtoD",
                            buffer: buffer_name(which, true),
                        },
                    },
                ];
                let r = Program::complete(s);
                assert(r@ =~= fill_layer(
                    self,
                    which,
                    shadow_k,
                    shadow_v,
                    base,
                    nkvh,
                    head_dim,
                    elem_offset as int,
                    n_elems,
                ));
                r
            },
            KvDtype::Fp8 => {
                if !self.kernels.dequant_fp8 {
                    return Program::refuse(
                        drafter_err(
                            "populate_shadow_kv_from_base: FP8 dequant kernel not attached",
                            "populate_shadow_kv_from_base(fp8)",
                            self.arch.head_dim_global as u32,
                        ),
                    );
                }
                let slot: i64 = elem_offset / per_slot;
                let ghost q = elem_offset as int / (nkvh * head_dim);
                assert(slot == q && q >= 0) by {
                    vstd::arithmetic::div_mod::lemma_div_pos_is_pos(
                        elem_offset as int,
                        nkvh * head_dim,
                    );
                }
                assert(q * nkvh <= q * nkvh * 4 && q * nkvh >= 0) by (nonlinear_arith)
                    requires
                        q >= 0,
                        nkvh > 0,
                ;
                let scale: u64 = slot as u64 * nkvh as u64 * 4;
                let mut s = launch_fp8_dequant_to_shadow(
                    base.k + off,
                    base.k_scale + scale,
                    shadow_k + off * 2,
                    nkvh,
                    head_dim,
                    n_elems,
                );
                let mut v = launch_fp8_dequant_to_shadow(
                    base.v + off,
                    base.v_scale + scale,
                    shadow_v + off * 2,
                    nkvh,
                    head_dim,
                    n_elems,
                );
                s.append(&mut v);
                Program::complete(s)
            },
            KvDtype::Nvfp4 => {
                if !self.kernels.dequant_nvfp4 {
                    return Program::refuse(
                        drafter_err(
                            "populate_shadow_kv_from_base: NVFP4 dequant kernel not attached",
                            "populate_shadow_kv_from_base(nvfp4)",
                            self.arch.head_dim_global as u32,
                        ),
                    );
                }
                if per_slot % 16 != 0 || per_slot % 2 != 0 {
                    return Program::refuse(
                        drafter_err(
                            "populate_shadow_kv_range(nvfp4): per_slot_elems not 16-aligned",
                            "populate_shadow_kv_range(nvfp4)",
                            head_dim as u32,
                        ),
                    );
                }
                let mut s = launch_nvfp4_dequant_to_shadow(
                    base.k + off / 2,
                    base.k_scale + off / 16,
                    shadow_k + off * 2,
                    n_elems,
                );
                let mut v = launch_nvfp4_dequant_to_shadow(
                    base.v + off / 2,
                    base.v_scale + off / 16,
                    shadow_v + off * 2,
                    n_elems,
                );
                s.append(&mut v);
                Program::complete(s)
            },
        }
    }

    /// What keeps the shadow from being filled at all.
    pub open spec fn shadow_fault(&self, sliding_bytes: usize, full_bytes: usize) -> Option<
        RuntimeError,
    > {
        match self.shadow_kv {
            None => Some(
                drafter_err(
                    "populate_shadow_kv_from_base: shadow_kv not attached",
                    "populate_shadow_kv_from_base",
                    self.arch.head_dim_global as u32,
                ),
            ),
            Some(shadow) => if sliding_bytes != shadow.sliding_layer_bytes || full_bytes
                != shadow.full_layer_bytes {
                Some(
                    drafter_err(
                        "populate_shadow_kv_from_base: caller layer-bytes mismatch shadow layout",
                        "populate_shadow_kv_from_base",
                        self.arch.head_dim_global as u32,
                    ),
                )
            } else {
                None
            },
        }
    }

    /// Fills the slots of both source layers, the sliding one first.
    pub open spec fn fill_slots(
        &self,
        sliding: SourceLayer,
        full: SourceLayer,
        slots: Slots,
    ) -> ProgramView {
        let shadow = self.shadow_kv->Some_0;
        let (s_off, s_n) = span(
            slots,
            shadow.sliding_per_slot(),
            (shadow.sliding_layer_bytes / 2) as int,
        );
        let (f_off, f_n) = span(
            slots,
            shadow.full_per_slot(),
            (shadow.full_layer_bytes / 2) as int,
        );
        fill_layer(
            self,
            DrafterLayerType::Sliding,
            shadow.sliding_k_ptr,
            shadow.sliding_v_ptr,
            sliding,
            shadow.sliding_num_kv_heads as i32,
            shadow.sliding_head_dim as i32,
            s_off,
            s_n as i64,
        ).followed_by(
            fill_layer(
                self,
                DrafterLayerType::Full,
                shadow.full_k_ptr,
                shadow.full_v_ptr,
                full,
                shadow.full_num_kv_heads as i32,
                shadow.full_head_dim as i32,
                f_off,
                f_n as i64,
            ),
        )
    }

    /// Whether the slots of both layers have addresses.
    pub open spec fn slots_reach(
        &self,
        sliding: SourceLayer,
        full: SourceLayer,
        slots: Slots,
    ) -> bool {
        self.shadow_kv matches Some(shadow) ==> {
            let (s_off, s_n) = span(
                slots,
                shadow.sliding_per_slot(),
                (shadow.sliding_layer_bytes / 2) as int,
            );
            let (f_off, f_n) = span(
                slots,
                shadow.full_per_slot(),
                (shadow.full_layer_bytes / 2) as int,
            );
            &&& shadow.wf()
            &&& span_fits(slots, shadow.sliding_per_slot())
            &&& span_fits(slots, shadow.full_per_slot())
            &&& fill_reaches(
                shadow.sliding_k_ptr,
                shadow.sliding_v_ptr,
                sliding,
                shadow.sliding_num_kv_heads as int,
                shadow.sliding_head_dim as int,
                s_off,
                s_n,
            )
            &&& fill_reaches(
                shadow.full_k_ptr,
                shadow.full_v_ptr,
                full,
                shadow.full_num_kv_heads as int,
                shadow.full_head_dim as int,
                f_off,
                f_n,
            )
        }
    }

    /// Whether the slots of both layers have addresses.
    pub fn check_slots(&self, sliding: SourceLayer, full: SourceLayer, slots: Slots) -> (r: bool)
        ensures
            r == self.slots_reach(sliding, full, slots),
    {
        match &self.shadow_kv {
            None => true,
            Some(shadow) => {
                if !shadow.check_wf() {
                    return false;
                }
                check_layer_slots(
                    shadow.sliding_k_ptr,
                    shadow.sliding_v_ptr,
                    sliding,
                    shadow.sliding_num_kv_heads,
                    shadow.sliding_head_dim,
                    shadow.sliding_layer_bytes,
                    slots,
                ) && check_layer_slots(
                    shadow.full_k_ptr,
                    shadow.full_v_ptr,
                    full,
                    shadow.full_num_kv_heads,
                    shadow.full_head_dim,
                    shadow.full_layer_bytes,
                    slots,
                )
            },
        }
    }

    fn plan_fill_slots(
        &self,
        shadow: &DrafterShadowKv,
        sliding: SourceLayer,
        full: SourceLayer,
        slots: Slots,
    ) -> (r: Program)
        requires
            self.shadow_kv == Some(*shadow),
            self.slots_reach(sliding, full, slots),
        ensures
            r@ == self.fill_slots(sliding, full, slots),
    {
        let snh: i64 = shadow.sliding_num_kv_heads as i64;
        let shd: i64 = shadow.sliding_head_dim as i64;
        let fnh: i64 = shadow.full_num_kv_heads as i64;
        let fhd: i64 = shadow.full_head_dim as i64;
        assert(0 < snh * shd <= 0x7fff_ffff * 0x7fff_ffff && 0 < fnh * fhd <= 0x7fff_ffff
            * 0x7fff_ffff) by (nonlinear_arith)
            requires
                0 < snh <= 0x7fff_ffff,
                0 < shd <= 0x7fff_ffff,
                0 < fnh <= 0x7fff_ffff,
                0 < fhd <= 0x7fff_ffff,
        ;
        let s_room: i64 = (shadow.sliding_layer_bytes / 2) as i64;
        let f_room: i64 = (shadow.full_layer_bytes / 2) as i64;
        let (s_off, s_n): (i64, i64) = plan_span(slots, snh * shd, s_room);
        let (f_off, f_n): (i64, i64) = plan_span(slots, fnh * fhd, f_room);
        let first = self.populate_one_source_layer(
            DrafterLayerType::Sliding,
            shadow.sliding_k_ptr,
            shadow.sliding_v_ptr,
            sliding,
            shadow.sliding_num_kv_heads as i32,
            shadow.sliding_head_dim as i32,
            s_off,
            s_n,
        );
        let second = self.populate_one_source_layer(
            DrafterLayerType::Full,
            shadow.full_k_ptr,
            shadow.full_v_ptr,
            full,
            shadow.full_num_kv_heads as i32,
            shadow.full_head_dim as i32,
            f_off,
            f_n,
        );
        first.followed_by(second)
    }

    /// What fills a range of slots: nothing for an empty range.
    pub open spec fn range_fill(
        &self,
        sliding: SourceLayer,
        full: SourceLayer,
        sliding_bytes: usize,
        full_bytes: usize,
        start: u32,
        count: u32,
    ) -> ProgramView {
        match self.shadow_fault(sliding_bytes, full_bytes) {
            Some(e) => refuses(e),
            None => if count == 0 {
                completes(Seq::empty())
            } else {
                self.fill_slots(sliding, full, Slots::Range { start, count })
            },
        }
    }

    /// What fills the first slots: zero stands for the whole buffer.
    pub open spec fn first_fill(
        &self,
        sliding: SourceLayer,
        full: SourceLayer,
        sliding_bytes: usize,
        full_bytes: usize,
        valid_len_slots: u32,
    ) -> ProgramView {
        match self.shadow_fault(sliding_bytes, full_bytes) {
            Some(e) => refuses(e),
            None => self.fill_slots(sliding, full, Self::valid_slots(valid_len_slots)),
        }
    }

    /// Filling the first `n` slots is filling a range of `n` slots from the
    /// first on; filling the first zero slots fills every element of the shadow,
    /// of both layers.
    pub proof fn law_first_slots_are_a_range(
        &self,
        sliding: SourceLayer,
        full: SourceLayer,
        sliding_bytes: usize,
        full_bytes: usize,
        n: u32,
    )
        ensures
            n > 0 ==> self.first_fill(sliding, full, sliding_bytes, full_bytes, n)
                == self.range_fill(sliding, full, sliding_bytes, full_bytes, 0, n),
            self.shadow_fault(sliding_bytes, full_bytes) is None ==> self.first_fill(
                sliding,
                full,
                sliding_bytes,
                full_bytes,
                0,
            ) == self.fill_slots(sliding, full, Slots::All),
            self.shadow_kv matches Some(shadow) ==> {
                &&& span(
                    Slots::All,
                    shadow.sliding_per_slot(),
                    (shadow.sliding_layer_bytes / 2) as int,
                ) == (0int, (shadow.sliding_layer_bytes / 2) as int)
                &&& span(
                    Slots::All,
                    shadow.full_per_slot(),
                    (shadow.full_layer_bytes / 2) as int,
                ) == (0int, (shadow.full_layer_bytes / 2) as int)
            },
    {
    }

    /// Fills a range of slots from the base cache; nothing for an empty range.
    pub fn populate_shadow_kv_range_from_base(
        &self,
        sliding: SourceLayer,
        full: SourceLayer,
        sliding_bytes: usize,
        full_bytes: usize,
        slot_start: u32,
        slot_count: u32,
    ) -> (r: Program)
        requires
            self.slots_reach(
                sliding,
                full,
                Slots::Range { start: slot_start, count: slot_count },
            ),
        ensures
            r@ == self.range_fill(
                sliding,
                full,
                sliding_bytes,
                full_bytes,
                slot_start,
                slot_count,
            ),
    {
        let shadow = match &self.shadow_kv {
            Some(s) => s,
            None => {
                return Program::refuse(
                    drafter_err(
                        "populate_shadow_kv_from_base: shadow_kv not attached",
                        "populate_shadow_kv_from_base",
                        self.arch.head_dim_global as u32,
                    ),
                );
            },
        };
        if sliding_bytes != shadow.sliding_layer_bytes || full_bytes != shadow.full_layer_bytes {
            return Program::refuse(
                drafter_err(
                    "populate_shadow_kv_from_base: caller layer-bytes mismatch shadow layout",
                    "populate_shadow_kv_from_base",
                    self.arch.head_dim_global as u32,
                ),
            );
        }
        if slot_count == 0 {
            return Program::complete(Vec::new());
        }
        self.plan_fill_slots(
            shadow,
            sliding,
            full,
            Slots::Range { start: slot_start, count: slot_count },
        )
    }

    /// The slots that a number of valid slots stands for: zero means all.
    pub open spec fn valid_slots(valid_len_slots: u32) -> Slots {
        if valid_len_slots == 0 {
            Slots::All
        } else {
            Slots::Range { start: 0, count: valid_len_slots }
        }
    }

    /// Fills the first slots from the base cache; zero stands for the whole
    /// buffer.
    pub fn populate_shadow_kv_from_base(
        &self,
        sliding: SourceLayer,
        full: SourceLayer,
        sliding_bytes: usize,
        full_bytes: usize,
        valid_len_slots: u32,
    ) -> (r: Program)
        requires
            self.slots_reach(sliding, full, Self::valid_slots(valid_len_slots)),
        ensures
            r@ == self.first_fill(sliding, full, sliding_bytes, full_bytes, valid_len_slots),
    {
        if valid_len_slots != 0 {
            return self.populate_shadow_kv_range_from_base(
                sliding,
                full,
                sliding_bytes,
                full_bytes,
                0,
                valid_len_slots,
            );
        }
        let shadow = match &self.shadow_kv {
            Some(s) => s,
            None => {
                return Program::refuse(
                    drafter_err(
                        "populate_shadow_kv_from_base: shadow_kv not attached",
                        "populate_shadow_kv_from_base",
                        self.arch.head_dim_global as u32,
                    ),
                );
            },
        };
        if sliding_bytes != shadow.sliding_layer_bytes || full_bytes != shadow.full_layer_bytes {
            return Program::refuse(
                drafter_err(
                    "populate_shadow_kv_from_base: caller layer-bytes mismatch shadow layout",
                    "populate_shadow_kv_from_base",
                    self.arch.head_dim_global as u32,
                ),
            );
        }
        self.plan_fill_slots(shadow, sliding, full, Slots::All)
    }
}

} // verus!
