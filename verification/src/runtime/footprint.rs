//! Memory that the steps of a program touch, in the regions it asks for and in
//! the caller's buffers.
//!
//! What a step touches follows from the extents among its arguments. A program
//! is in bounds where each of its steps touches only regions that were asked
//! for before it, and in them only bytes that they have; and where nothing runs
//! past the end of a buffer of known size.

use crate::runtime::step::{Buf, Dim3, KernelCall, Step};
use vstd::prelude::*;

verus! {

/// What a program holds: the bytes of each of its regions, and of each of its
/// readings. A region that was given back has none. Of the caller's memory the
/// bytes are known that follow some addresses.
#[verifier::ext_equal]
pub struct Held {
    pub regions: Seq<nat>,
    pub readings: Seq<nat>,
    pub lent: Map<u64, nat>,
}

/// Nothing, and nothing known of the caller's memory.
pub open spec fn nothing_held() -> Held {
    lends(Map::empty())
}

/// Nothing of the program's own, and the caller's buffers.
pub open spec fn lends(lent: Map<u64, nat>) -> Held {
    Held { regions: Seq::empty(), readings: Seq::empty(), lent }
}

/// Whether an address lies in a buffer.
pub open spec fn lies_in(buffers: Map<u64, nat>, p: u64, base: u64) -> bool {
    buffers.contains_key(base) && base <= p < base + buffers[base]
}

/// Whether no two buffers overlap.
pub open spec fn apart(buffers: Map<u64, nat>) -> bool {
    forall|p: u64, q: u64|
        #[trigger] buffers.contains_key(p) && #[trigger] buffers.contains_key(q) && p < q ==> p
            + buffers[p] <= q
}

/// The bytes that follow each address in some buffers, up to the end of the
/// buffer it lies in.
pub open spec fn room_in(buffers: Map<u64, nat>) -> Map<u64, nat> {
    Map::new(
        |p: u64| exists|base: u64| #[trigger] lies_in(buffers, p, base),
        |p: u64|
            {
                let base = choose|base: u64| #[trigger] lies_in(buffers, p, base);
                (base + buffers[base] - p) as nat
            },
    )
}

/// A part of one of several buffers that do not overlap has room for what ends
/// where the buffer does or before.
pub proof fn law_part_of_buffer(
    buffers: Map<u64, nat>,
    h: Held,
    base: u64,
    offset: int,
    n: int,
)
    requires
        apart(buffers),
        h.lent == room_in(buffers),
        buffers.contains_key(base),
        0 <= offset,
        base + offset <= u64::MAX,
        offset + n <= buffers[base],
    ensures
        h.has(Buf::At((base + offset) as u64), n),
{
    let p = (base + offset) as u64;
    if h.lent.contains_key(p) {
        let found = choose|q: u64| #[trigger] lies_in(buffers, p, q);
        assert(lies_in(buffers, p, found));
    }
}

/// What is held after a step.
pub open spec fn after_step(s: Step, h: Held) -> Held {
    match s {
        Step::Region { bytes, .. } => Held { regions: h.regions.push(bytes as nat), ..h },
        Step::Read { bytes, .. } => Held { readings: h.readings.push(bytes as nat), ..h },
        Step::Release => Held { regions: Seq::new(h.regions.len(), |i: int| 0nat), ..h },
        _ => h,
    }
}

/// What is held after the first `n` steps.
pub open spec fn held_after(steps: Seq<Step>, n: nat, h: Held) -> Held
    decreases n,
{
    if n == 0 {
        h
    } else {
        after_step(steps[n - 1], held_after(steps, (n - 1) as nat, h))
    }
}

impl Held {
    /// Whether `n` bytes from a place on are there. In the caller's memory they
    /// are, unless fewer are known to follow the address.
    pub open spec fn has(self, b: Buf, n: int) -> bool {
        match b {
            Buf::At(p) => self.lent.contains_key(p) ==> n <= self.lent[p],
            Buf::In { region, offset } => region < self.regions.len() && offset + n
                <= self.regions[region as int],
        }
    }
}

/// Whether what a kernel touches is there.
pub open spec fn call_in(call: KernelCall, grid: Dim3, h: Held) -> bool {
    match call {
        KernelCall::FillPosSlots { positions, slot_mapping, context_lens, num_tokens, .. } => {
            &&& h.has(Buf::At(positions), 4 * num_tokens)
            &&& h.has(Buf::At(slot_mapping), 4 * num_tokens)
            &&& h.has(Buf::At(context_lens), 4 * num_tokens)
        },
        KernelCall::F32ToBf16 { dst, src, n } => h.has(dst, 2 * n) && h.has(src, 4 * n),
        KernelCall::VNormBf16 { v, head_dim, .. } => h.has(v, 2 * (grid.x * head_dim)),
        KernelCall::ScaledAddBf16 { dst, src, n, .. } => h.has(dst, 2 * n) && h.has(src, 2 * n),
        KernelCall::CastF32ToF16 { dst, src, n } => h.has(dst, 2 * n) && h.has(src, 4 * n),
        KernelCall::VectorAddF16 { dst, src, n } => h.has(dst, 2 * n) && h.has(src, 2 * n),
        KernelCall::FusedGeluMulF16 { out, gate_up, intermediate } => h.has(out, 2 * intermediate)
            && h.has(gate_up, 4 * intermediate),
        KernelCall::ScaleInplaceF16 { x, n, .. } => h.has(x, 2 * n),
        KernelCall::ArgmaxF32 { logits, out, vocab } => h.has(logits, 4 * vocab) && h.has(out, 4),
        KernelCall::RopeSplitHalfBf16 { qk, cos, sin, head_dim, pos } => {
            &&& h.has(qk, 2 * (grid.x * head_dim))
            &&& h.has(cos, 4 * ((pos + 1) * (head_dim / 2)))
            &&& h.has(sin, 4 * ((pos + 1) * (head_dim / 2)))
        },
        KernelCall::RopePartialF16(a) => {
            &&& h.has(a.positions, 4 * a.num_tokens)
            &&& h.has(Buf::At(a.q_in), 2 * (a.num_tokens * (a.num_heads * a.head_dim)))
            &&& h.has(Buf::At(a.q_out), 2 * (a.num_tokens * (a.num_heads * a.head_dim)))
        },
        KernelCall::RopeKvWrite(a) => {
            &&& h.has(a.q_in, 2 * (a.num_tokens * (a.num_heads * a.head_dim)))
            &&& h.has(a.k_in, 2 * (a.num_tokens * (a.num_kv_heads * a.head_dim)))
            &&& h.has(a.v_in, 2 * (a.num_tokens * (a.num_kv_heads * a.head_dim)))
            &&& h.has(a.q_out, a.num_tokens * (a.num_heads * a.head_dim))
        },
        KernelCall::Decode { args, .. } => {
            &&& h.has(args.output, 2 * (args.num_heads * args.head_dim))
            &&& h.has(args.query, args.num_heads * args.head_dim)
        },
        KernelCall::HalfDecode { args, .. } => {
            &&& h.has(Buf::At(args.output), 2 * (args.num_heads * args.head_dim))
            &&& h.has(Buf::At(args.query), 2 * (args.num_heads * args.head_dim))
        },
        KernelCall::W4a16Gemv { out, act, n, k, .. } => h.has(out, 2 * n) && h.has(act, 2 * k),
        KernelCall::W4a16GemmMn { out, act, m, n, k, .. } => h.has(out, 2 * (m * n)) && h.has(
            act,
            2 * (m * k),
        ),
        KernelCall::W4a16GateUp { out_gate, out_up, act, i_size, k, .. } => {
            &&& h.has(out_gate, 2 * i_size)
            &&& h.has(out_up, 2 * i_size)
            &&& h.has(act, 2 * k)
        },
        KernelCall::GeluTanhMul { out, gate, up, n } => h.has(out, 2 * n) && h.has(gate, 2 * n)
            && h.has(up, 2 * n),
        KernelCall::DequantFp8 { .. } => true,
        KernelCall::DequantNvfp4 { .. } => true,
        KernelCall::MaskedEmbedder(_) => true,
    }
}

/// Whether what a step touches is there.
pub open spec fn step_in(s: Step, h: Held) -> bool {
    match s {
        Step::Region { .. } | Step::SharedLimit { .. } | Step::Fence | Step::Release => true,
        Step::WriteI32 { dst, .. } => h.has(dst, 4),
        Step::WriteI32Pair { dst, .. } => h.has(dst, 8),
        Step::WriteInput { dst, bytes, .. } => h.has(dst, bytes as int),
        Step::Copy { dst, src, bytes, .. } => h.has(dst, bytes as int) && h.has(src, bytes as int),
        Step::Zero { dst, bytes, .. } => h.has(dst, bytes as int),
        Step::Read { src, bytes, .. } => h.has(src, bytes as int),
        Step::Embed { num_tokens, hidden, dst, ids, .. } => h.has(dst, 2 * (num_tokens * hidden))
            && h.has(ids, 4 * num_tokens),
        Step::RmsNorm { rows, width, data, .. } => h.has(data, 2 * (rows * width)),
        Step::Gemm { act, out, m, n, k, .. } => h.has(act, 2 * (m * k)) && h.has(out, 4 * (m * n)),
        Step::Bf16ToF16Sat { dst, src, n } => h.has(dst, 2 * n) && h.has(src, 2 * n),
        Step::VectorAddBf16 { dst, src, n } => h.has(dst, 2 * n) && h.has(src, 2 * n),
        Step::Launch { call, grid, .. } => call_in(call, grid, h),
        Step::Prefill { args } => {
            &&& h.has(args.query, args.num_tokens * (args.num_heads * args.head_dim))
            &&& h.has(args.cu_seqlens, 4 * (args.num_seqs + 1))
            &&& h.has(
                Buf::At(args.output),
                2 * (args.num_tokens * (args.num_heads * args.head_dim)),
            )
        },
        Step::WriteReading { reading, dst } => reading < h.readings.len() && h.has(
            dst,
            h.readings[reading as int] as int,
        ),
        Step::NarrowReading { reading, dst } => reading < h.readings.len() && h.has(
            dst,
            h.readings[reading as int] as int / 2,
        ),
        Step::WidenReading { reading, dst } => reading < h.readings.len() && h.has(
            dst,
            2 * (h.readings[reading as int] as int),
        ),
        Step::ScaleReading { values, scalar, dst } => {
            &&& values < h.readings.len()
            &&& scalar < h.readings.len()
            &&& h.readings[scalar as int] >= 2
            &&& h.has(dst, h.readings[values as int] as int)
        },
        Step::HostBits { dst, .. } => h.has(dst, 4),
        Step::HostRange { dst, count, .. } => h.has(dst, 4 * count),
        Step::HostPair { dst, .. } => h.has(dst, 8),
        Step::HostInput { dst, bytes, .. } => h.has(dst, bytes as int),
        Step::F16ToBf16 { data, n } => h.has(data, 2 * n),
        Step::Softcap { logits, rows, vocab, .. } => h.has(logits, 4 * (rows * vocab)),
        Step::LayerForward { args } => args.scratch.q_scale_cache == Buf::At(0) || h.has(
            args.scratch.q_scale_cache,
            4 * (args.dims.num_tokens * args.dims.num_heads),
        ),
    }
}

/// Whether every step touches only what is there when its turn comes.
#[verifier::opaque]
pub open spec fn in_bounds(steps: Seq<Step>, h: Held) -> bool {
    forall|i: int|
        0 <= i < steps.len() ==> step_in(#[trigger] steps[i], held_after(steps, i as nat, h))
}

proof fn lemma_held_prefix(a: Seq<Step>, b: Seq<Step>, n: nat, h: Held)
    requires
        n <= a.len(),
    ensures
        held_after(a + b, n, h) == held_after(a, n, h),
    decreases n,
{
    if n > 0 {
        lemma_held_prefix(a, b, (n - 1) as nat, h);
        assert((a + b)[n - 1] == a[n - 1]);
    }
}

proof fn lemma_held_suffix(a: Seq<Step>, b: Seq<Step>, m: nat, h: Held)
    requires
        m <= b.len(),
    ensures
        held_after(a + b, a.len() + m, h) == held_after(b, m, held_after(a, a.len(), h)),
    decreases m,
{
    if m == 0 {
        lemma_held_prefix(a, b, a.len(), h);
    } else {
        lemma_held_suffix(a, b, (m - 1) as nat, h);
        assert((a + b)[a.len() + m - 1] == b[m - 1]);
    }
}

/// The caller's memory stays as it is.
pub proof fn lemma_lent_stays(steps: Seq<Step>, n: nat, h: Held)
    ensures
        held_after(steps, n, h).lent == h.lent,
    decreases n,
{
    if n > 0 {
        lemma_lent_stays(steps, (n - 1) as nat, h);
    }
}

/// Programs in a row are in bounds exactly where the first is, and the second
/// is with what the first leaves.
pub proof fn law_in_bounds_joins(a: Seq<Step>, b: Seq<Step>, h: Held)
    ensures
        in_bounds(a + b, h) <==> in_bounds(a, h) && in_bounds(b, held_after(a, a.len(), h)),
        held_after(a + b, (a + b).len(), h) == held_after(b, b.len(), held_after(a, a.len(), h)),
{
    reveal(in_bounds);
    lemma_held_suffix(a, b, b.len(), h);
    let g = held_after(a, a.len(), h);
    assert forall|i: int| 0 <= i < a.len() implies held_after(a + b, i as nat, h) == held_after(
        a,
        i as nat,
        h,
    ) && (a + b)[i] == a[i] by {
        lemma_held_prefix(a, b, i as nat, h);
    }
    assert forall|j: int| 0 <= j < b.len() implies held_after(a + b, (a.len() + j) as nat, h)
        == held_after(b, j as nat, g) && (a + b)[a.len() + j] == b[j] by {
        lemma_held_suffix(a, b, j as nat, h);
    }
    if in_bounds(a + b, h) {
        assert forall|i: int| 0 <= i < a.len() implies step_in(
            #[trigger] a[i],
            held_after(a, i as nat, h),
        ) by {
            assert(step_in((a + b)[i], held_after(a + b, i as nat, h)));
        }
        assert forall|j: int| 0 <= j < b.len() implies step_in(
            #[trigger] b[j],
            held_after(b, j as nat, g),
        ) by {
            assert(step_in((a + b)[a.len() + j], held_after(a + b, (a.len() + j) as nat, h)));
        }
    }
    if in_bounds(a, h) && in_bounds(b, g) {
        assert forall|i: int| 0 <= i < (a + b).len() implies step_in(
            #[trigger] (a + b)[i],
            held_after(a + b, i as nat, h),
        ) by {
            if i < a.len() {
                assert(step_in(a[i], held_after(a, i as nat, h)));
            } else {
                let j = i - a.len();
                assert(step_in(b[j], held_after(b, j as nat, g)));
            }
        }
    }
}

/// A single step is in bounds where what it touches is there.
pub proof fn lemma_one_in_bounds(s: Step, h: Held)
    requires
        step_in(s, h),
    ensures
        in_bounds(seq![s], h),
        held_after(seq![s], 1, h) == after_step(s, h),
{
    reveal(in_bounds);
    reveal_with_fuel(held_after, 2);
}

/// Nothing is in bounds.
pub proof fn lemma_none_in_bounds(h: Held)
    ensures
        in_bounds(Seq::empty(), h),
        held_after(Seq::empty(), 0, h) == h,
{
    reveal(in_bounds);
}

/// The caller's memory at a place; zero stands for none.
pub open spec fn at(b: Buf) -> Set<u64> {
    match b {
        Buf::At(p) => if p == 0 {
            Set::empty()
        } else {
            set![p]
        },
        Buf::In { .. } => Set::empty(),
    }
}

/// Where in the caller's memory a kernel writes.
pub open spec fn call_writes(call: KernelCall) -> Set<u64> {
    match call {
        KernelCall::FillPosSlots { positions, slot_mapping, context_lens, .. } => set![
            positions,
            slot_mapping,
            context_lens,
        ],
        KernelCall::F32ToBf16 { dst, .. } => at(dst),
        KernelCall::VNormBf16 { v, .. } => at(v),
        KernelCall::ScaledAddBf16 { dst, .. } => at(dst),
        KernelCall::CastF32ToF16 { dst, .. } => at(dst),
        KernelCall::VectorAddF16 { dst, .. } => at(dst),
        KernelCall::FusedGeluMulF16 { out, .. } => at(out),
        KernelCall::ScaleInplaceF16 { x, .. } => at(x),
        KernelCall::ArgmaxF32 { out, .. } => at(out),
        KernelCall::RopeSplitHalfBf16 { qk, .. } => at(qk),
        KernelCall::RopePartialF16(a) => at(Buf::At(a.q_out)).union(
            at(Buf::At(a.key_cache)),
        ).union(at(Buf::At(a.value_cache))),
        KernelCall::RopeKvWrite(a) => at(a.q_out).union(
            set![a.k_packed, a.v_packed, a.k_scale, a.v_scale],
        ).union(at(Buf::At(a.q_scale_cache))),
        KernelCall::Decode { args, .. } => at(args.output),
        KernelCall::HalfDecode { args, .. } => set![args.output],
        KernelCall::W4a16Gemv { out, .. } => at(out),
        KernelCall::W4a16GemmMn { out, .. } => at(out),
        KernelCall::W4a16GateUp { out_gate, out_up, .. } => at(out_gate).union(at(out_up)),
        KernelCall::GeluTanhMul { out, .. } => at(out),
        KernelCall::DequantFp8 { dst, .. } => set![dst],
        KernelCall::DequantNvfp4 { dst, .. } => set![dst],
        KernelCall::MaskedEmbedder(a) => at(Buf::At(a.out_token_id)).union(
            at(Buf::At(a.out_logit)),
        ).union(at(Buf::At(a.out_sparse_ids))).union(at(Buf::At(a.out_sparse_logits))),
    }
}

/// Where in the caller's memory a step writes; anywhere, for a whole layer of
/// the model with mixed weight formats.
pub open spec fn writes(s: Step) -> Set<u64> {
    match s {
        Step::Region { .. } | Step::SharedLimit { .. } | Step::Fence | Step::Release => Set::empty(),
        Step::Read { .. } => Set::empty(),
        Step::WriteI32 { dst, .. } => at(dst),
        Step::WriteI32Pair { dst, .. } => at(dst),
        Step::WriteInput { dst, .. } => at(dst),
        Step::Copy { dst, .. } => at(dst),
        Step::Zero { dst, .. } => at(dst),
        Step::Embed { dst, .. } => at(dst),
        Step::RmsNorm { data, .. } => at(data),
        Step::Gemm { out, .. } => at(out),
        Step::Bf16ToF16Sat { dst, .. } => at(dst),
        Step::VectorAddBf16 { dst, .. } => at(dst),
        Step::Launch { call, .. } => call_writes(call),
        Step::Prefill { args } => set![args.output],
        Step::WriteReading { dst, .. } => at(dst),
        Step::NarrowReading { dst, .. } => at(dst),
        Step::WidenReading { dst, .. } => at(dst),
        Step::ScaleReading { dst, .. } => at(dst),
        Step::HostBits { dst, .. } => at(dst),
        Step::HostRange { dst, .. } => at(dst),
        Step::HostPair { dst, .. } => at(dst),
        Step::HostInput { dst, .. } => at(dst),
        Step::F16ToBf16 { data, .. } => at(data),
        Step::Softcap { logits, .. } => at(logits),
        Step::LayerForward { .. } => Set::full(),
    }
}

/// Whether a program writes nowhere in the caller's memory but at the given
/// addresses.
#[verifier::opaque]
pub open spec fn writes_only(steps: Seq<Step>, allowed: Set<u64>) -> bool {
    forall|i: int, p: u64|
        0 <= i < steps.len() && #[trigger] writes(steps[i]).contains(p) ==> allowed.contains(p)
}

/// Programs in a row write only where each of them does.
pub proof fn law_writes_only_joins(a: Seq<Step>, b: Seq<Step>, allowed: Set<u64>)
    ensures
        writes_only(a + b, allowed) <==> writes_only(a, allowed) && writes_only(b, allowed),
{
    reveal(writes_only);
    assert forall|i: int| 0 <= i < a.len() implies (a + b)[i] == a[i] by {}
    assert forall|j: int| 0 <= j < b.len() implies (a + b)[a.len() + j] == b[j] by {}
    if writes_only(a + b, allowed) {
        assert forall|i: int, p: u64|
            0 <= i < a.len() && #[trigger] writes(a[i]).contains(p) implies allowed.contains(p) by {
            assert(writes((a + b)[i]).contains(p));
        }
        assert forall|j: int, p: u64|
            0 <= j < b.len() && #[trigger] writes(b[j]).contains(p) implies allowed.contains(p) by {
            assert(writes((a + b)[a.len() + j]).contains(p));
        }
    }
}

} // verus!
