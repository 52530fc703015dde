//! Which of the regions that a program asks for each buffer is, and that it
//! has the bytes for its use.

use crate::loader::gemma4_arch::{Gemma4Arch, Gemma4LayerType};
use crate::loader::gemma4_drafter::Gemma4DrafterArch;
use crate::runtime::dataflow::{after_steps, law_leaves_joins, leaves, Memory, Val};
use crate::runtime::gemma4_drafter::workspace::{
    buffer_bytes, lemma_sizes, workspace_at, workspace_fits, workspace_regions,
    DrafterStepWorkspace,
};
use crate::runtime::gemma4_nvfp4_bring_up::kv_state::{
    allocation, cache_fits, is_cache, layer_regions, layers_bytes, layers_regions,
    packed_bytes, scale_bytes, Gemma4Nvfp4KvState,
};
use crate::runtime::gemma4_nvfp4_bring_up::model::Gemma4Nvfp4Bringup;
use crate::runtime::gemma4_spec_primitives::{
    larger, law_rows_fit_scratch, layer_kv_dim, scratch_at, scratch_fits, scratch_regions,
    widest_gemm, widest_kv, widest_q, SpecPrefillScratch,
};
use crate::runtime::step::{Buf, Step};
use vstd::prelude::*;

verus! {

/// The bytes of the regions that steps ask for, in order.
pub open spec fn rooms(s: Seq<Step>) -> Seq<int>
    decreases s.len(),
{
    if s.len() == 0 {
        Seq::empty()
    } else {
        match s.last() {
            Step::Region { bytes, .. } => rooms(s.drop_last()).push(bytes as int),
            _ => rooms(s.drop_last()),
        }
    }
}

proof fn lemma_rooms(a: Seq<Step>, b: Seq<Step>)
    ensures
        rooms(a + b) == rooms(a) + rooms(b),
    decreases b.len(),
{
    if b.len() == 0 {
        assert(a + b =~= a);
        assert(rooms(a) + rooms(b) =~= rooms(a));
    } else {
        lemma_rooms(a, b.drop_last());
        assert((a + b).drop_last() =~= a + b.drop_last());
        assert(rooms(a + b) =~= rooms(a) + rooms(b));
    }
}

/// The sum of some sizes.
pub open spec fn total(s: Seq<int>) -> int
    decreases s.len(),
{
    if s.len() == 0 {
        0
    } else {
        total(s.drop_last()) + s.last()
    }
}

proof fn lemma_total(a: Seq<int>, b: Seq<int>)
    ensures
        total(a + b) == total(a) + total(b),
    decreases b.len(),
{
    if b.len() == 0 {
        assert(a + b =~= a);
    } else {
        lemma_total(a, b.drop_last());
        assert((a + b).drop_last() =~= a + b.drop_last());
    }
}

/// Whether no two addresses are the same.
pub open spec fn distinct(ptrs: Seq<u64>) -> bool {
    forall|i: int, j: int| 0 <= i < j < ptrs.len() ==> #[trigger] ptrs[i] != #[trigger] ptrs[j]
}

/// Whether an address is that of a region of exactly so many bytes.
pub open spec fn region_of(ptrs: Seq<u64>, sizes: Seq<int>, ptr: u64, bytes: int) -> bool {
    exists|i: int| 0 <= i < sizes.len() && #[trigger] ptrs[i] == ptr && sizes[i] == bytes
}

/// Whether an address is that of a region that holds a value at first.
pub open spec fn filled(ptrs: Seq<u64>, m: Memory, ptr: u64, v: Val) -> bool {
    exists|i: int|
        0 <= i < ptrs.len() && #[trigger] ptrs[i] == ptr && m.get(Buf::start(i as usize)) == v
}

/// Key/value heads of a layer.
pub open spec fn heads_in(arch: &Gemma4Arch, l: int) -> int {
    (if arch.layer_types@[l] == Gemma4LayerType::GlobalAttention {
        arch.num_kv_heads_global
    } else {
        arch.num_kv_heads_sliding
    }) as int
}

/// Width of a layer's heads.
pub open spec fn width_in(arch: &Gemma4Arch, l: int) -> int {
    (if arch.layer_types@[l] == Gemma4LayerType::GlobalAttention {
        arch.head_dim_global
    } else {
        arch.head_dim_sliding
    }) as int
}

/// The four regions of a layer's cache.
pub open spec fn four(kv: Gemma4Nvfp4KvState, l: int) -> Seq<u64> {
    seq![
        kv.k_packed_layer_ptrs@[l],
        kv.v_packed_layer_ptrs@[l],
        kv.k_scale_layer_ptrs@[l],
        kv.v_scale_layer_ptrs@[l],
    ]
}

/// The regions of a cache outside its layers.
pub open spec fn five(kv: Gemma4Nvfp4KvState) -> Seq<u64> {
    seq![
        kv.block_tables_ptr,
        kv.context_lens_ptr,
        kv.positions_ptr,
        kv.slot_mapping_ptr,
        kv.q_scale_ptr,
    ]
}

#[verifier::spinoff_prover]
#[verifier::rlimit(40)]
proof fn lemma_layers_rooms(arch: &Gemma4Arch, n: nat, max_pos: nat)
    requires
        forall|l: int|
            0 <= l < n ==> #[trigger] packed_bytes(arch, l, max_pos) <= usize::MAX && scale_bytes(
                arch,
                l,
                max_pos,
            ) <= usize::MAX,
    ensures
        ({
            let r = rooms(layers_regions(arch, n, max_pos));
            &&& r.len() == 4 * n
            &&& total(r) == layers_bytes(arch, n, max_pos)
            &&& forall|l: int|
                0 <= l < n ==> {
                    &&& r[4 * l] == #[trigger] packed_bytes(arch, l, max_pos)
                    &&& r[4 * l + 1] == packed_bytes(arch, l, max_pos)
                    &&& r[4 * l + 2] == scale_bytes(arch, l, max_pos)
                    &&& r[4 * l + 3] == scale_bytes(arch, l, max_pos)
                }
        }),
    decreases n,
{
    if n == 0 {
        assert(layers_regions(arch, n, max_pos) =~= Seq::empty());
    } else {
        let m = (n - 1) as nat;
        assert forall|l: int| 0 <= l < m implies #[trigger] packed_bytes(arch, l, max_pos)
            <= usize::MAX && scale_bytes(arch, l, max_pos) <= usize::MAX by {
        }
        lemma_layers_rooms(arch, m, max_pos);
        assert(packed_bytes(arch, m as int, max_pos) <= usize::MAX);
        let a = layers_regions(arch, m, max_pos);
        let b = layer_regions(arch, m as int, max_pos);
        lemma_rooms(a, b);
        let (p, s) = (packed_bytes(arch, m as int, max_pos) as int, scale_bytes(arch, m as int, max_pos) as int);
        assert(rooms(b) =~= seq![p, p, s, s]) by {
            reveal_with_fuel(rooms, 5);
            assert(b.drop_last().drop_last().drop_last().drop_last() =~= Seq::empty());
        }
        lemma_total(rooms(a), rooms(b));
        assert(total(rooms(b)) == 2 * (p + s)) by {
            reveal_with_fuel(total, 5);
            let t = rooms(b);
            assert(t.drop_last().drop_last().drop_last().drop_last() =~= Seq::empty());
        }
        let r = rooms(layers_regions(arch, n, max_pos));
        assert(r == rooms(a) + rooms(b));
        assert(r.len() == 4 * n);
        assert(total(r) == layers_bytes(arch, n, max_pos));
        assert forall|l: int| 0 <= l < n implies {
            &&& r[4 * l] == #[trigger] packed_bytes(arch, l, max_pos)
            &&& r[4 * l + 1] == packed_bytes(arch, l, max_pos)
            &&& r[4 * l + 2] == scale_bytes(arch, l, max_pos)
            &&& r[4 * l + 3] == scale_bytes(arch, l, max_pos)
        } by {
            if l < m {
                assert(r[4 * l] == rooms(a)[4 * l]);
                assert(r[4 * l + 1] == rooms(a)[4 * l + 1]);
                assert(r[4 * l + 2] == rooms(a)[4 * l + 2]);
                assert(r[4 * l + 3] == rooms(a)[4 * l + 3]);
            } else {
                assert(r[4 * l] == rooms(b)[0]);
                assert(r[4 * l + 1] == rooms(b)[1]);
                assert(r[4 * l + 2] == rooms(b)[2]);
                assert(r[4 * l + 3] == rooms(b)[3]);
            }
        }
    }
}

proof fn lemma_no_writes(s: Seq<Step>, n: nat, m: Memory)
    requires
        n <= s.len(),
        forall|i: int| 0 <= i < s.len() ==> #[trigger] s[i] is Region,
    ensures
        after_steps(s, n, m) == m,
    decreases n,
{
    if n > 0 {
        lemma_no_writes(s, (n - 1) as nat, m);
        assert(s[n - 1] is Region);
    }
}

proof fn lemma_only_regions(arch: &Gemma4Arch, n: nat, max_pos: nat)
    ensures
        forall|i: int|
            0 <= i < layers_regions(arch, n, max_pos).len() ==> #[trigger] layers_regions(
                arch,
                n,
                max_pos,
            )[i] is Region,
    decreases n,
{
    if n > 0 {
        let m = (n - 1) as nat;
        lemma_only_regions(arch, m, max_pos);
        let a = layers_regions(arch, m, max_pos);
        let b = layer_regions(arch, m as int, max_pos);
        assert forall|i: int| 0 <= i < layers_regions(arch, n, max_pos).len() implies
            #[trigger] layers_regions(arch, n, max_pos)[i] is Region by {
            if i < a.len() {
                assert(layers_regions(arch, n, max_pos)[i] == a[i]);
            } else {
                assert(layers_regions(arch, n, max_pos)[i] == b[i - a.len()]);
            }
        }
    }
}

proof fn lemma_scales_smaller(arch: &Gemma4Arch, l: int, max_pos: nat)
    ensures
        scale_bytes(arch, l, max_pos) <= packed_bytes(arch, l, max_pos),
{
    let a = max_pos * arch.num_kv_heads(l) as nat;
    let (b, c) = ((arch.head_dim(l) / 16) as nat, (arch.head_dim(l) / 2) as nat);
    assert(a * b <= a * c) by (nonlinear_arith)
        requires
            b <= c,
    ;
}

/// A cache has a region of its own for everything in it: for each layer the
/// packed keys and values with half a byte an element and their scales with a
/// byte for sixteen, the table with a block for each position, and positions,
/// slots and lengths for each query token. It counts all their bytes, and its
/// table and query scale hold the host's at first.
#[verifier::spinoff_prover]
#[verifier::rlimit(80)]
pub proof fn law_cache_regions(
    arch: &Gemma4Arch,
    max_pos: u32,
    q: u32,
    ptrs: Seq<u64>,
    r: Gemma4Nvfp4KvState,
)
    requires
        cache_fits(arch, max_pos, q),
        q > 0,
        ptrs.len() == 5 + 4 * arch.num_hidden_layers,
        distinct(ptrs),
        is_cache(arch, max_pos, q, ptrs, r),
    ensures
        ({
            let p = allocation(arch, max_pos, q);
            let sizes = rooms(p.steps);
            let m = leaves(p.steps, Memory::fresh());
            &&& p.failure is None
            &&& sizes.len() == ptrs.len()
            &&& r.total_bytes == total(sizes)
            &&& region_of(ptrs, sizes, r.block_tables_ptr, 4 * max_pos)
            &&& region_of(ptrs, sizes, r.context_lens_ptr, 4 * q)
            &&& region_of(ptrs, sizes, r.positions_ptr, 4 * q)
            &&& region_of(ptrs, sizes, r.slot_mapping_ptr, 4 * q)
            &&& region_of(ptrs, sizes, r.q_scale_ptr, 4)
            &&& filled(
                ptrs,
                m,
                r.block_tables_ptr,
                Val::Input { index: 0, bytes: 4 * max_pos },
            )
            &&& filled(ptrs, m, r.q_scale_ptr, Val::Input { index: 1, bytes: 4 })
            &&& forall|l: int|
                0 <= l < arch.num_hidden_layers ==> {
                    let packed = max_pos * heads_in(arch, l) * (width_in(arch, l) / 2);
                    let scales = max_pos * heads_in(arch, l) * (width_in(arch, l) / 16);
                    &&& region_of(ptrs, sizes, #[trigger] four(r, l)[0], packed)
                    &&& region_of(ptrs, sizes, four(r, l)[1], packed)
                    &&& region_of(ptrs, sizes, four(r, l)[2], scales)
                    &&& region_of(ptrs, sizes, four(r, l)[3], scales)
                }
        }),
        distinct(five(r)),
        forall|l: int, i: int, k: int|
            0 <= l < arch.num_hidden_layers && 0 <= i < 4 && 0 <= k < 5 ==> #[trigger] four(
                r,
                l,
            )[i] != #[trigger] five(r)[k],
        forall|l: int, m: int, i: int, k: int|
            0 <= l < arch.num_hidden_layers && 0 <= m < arch.num_hidden_layers && 0 <= i < 4 && 0
                <= k < 4 && (l != m || i != k) ==> #[trigger] four(r, l)[i] != #[trigger] four(
                r,
                m,
            )[k],
        r.max_pos == max_pos && r.block_size == 1 && r.max_query_tokens == q,
{
    let n = arch.num_hidden_layers as nat;
    let p = allocation(arch, max_pos, q);
    let head = p.steps.take(7);
    let rest = layers_regions(arch, n, max_pos as nat);
    assert(p.steps =~= head + rest);
    lemma_rooms(head, rest);
    assert forall|l: int| 0 <= l < n implies #[trigger] packed_bytes(arch, l, max_pos as nat)
        <= usize::MAX && scale_bytes(arch, l, max_pos as nat) <= usize::MAX by {
        lemma_scales_smaller(arch, l, max_pos as nat);
    }
    lemma_layers_rooms(arch, n, max_pos as nat);
    let (t, z) = (4 * max_pos as int, 4 * q as int);
    assert(rooms(head) =~= seq![t, z, z, z, 4int]) by {
        reveal_with_fuel(rooms, 8);
        assert(head.drop_last().drop_last().drop_last().drop_last().drop_last().drop_last().drop_last()
            =~= Seq::empty());
    }
    assert(total(rooms(head)) == t + 3 * z + 4) by {
        reveal_with_fuel(total, 6);
        let s = rooms(head);
        assert(s.drop_last().drop_last().drop_last().drop_last().drop_last() =~= Seq::empty());
    }
    lemma_total(rooms(head), rooms(rest));
    let sizes = rooms(p.steps);
    assert(sizes == rooms(head) + rooms(rest));
    law_leaves_joins(head, rest, Memory::fresh());
    lemma_only_regions(arch, n, max_pos as nat);
    let m = leaves(p.steps, Memory::fresh());
    assert(m == Memory::fresh().put(
        Buf::start(0),
        Val::Input { index: 0, bytes: t },
    ).put(Buf::start(4), Val::Input { index: 1, bytes: 4 })) by {
        reveal(leaves);
        lemma_no_writes(rest, rest.len(), leaves(head, Memory::fresh()));
        reveal_with_fuel(after_steps, 8);
    }
    assert(ptrs[0] == r.block_tables_ptr && ptrs[1] == r.context_lens_ptr && ptrs[2]
        == r.positions_ptr && ptrs[3] == r.slot_mapping_ptr && ptrs[4] == r.q_scale_ptr);
    assert(sizes[0] == t && sizes[1] == z && sizes[2] == z && sizes[3] == z && sizes[4] == 4);
    assert forall|l: int| 0 <= l < arch.num_hidden_layers implies {
        let packed = max_pos * heads_in(arch, l) * (width_in(arch, l) / 2);
        let scales = max_pos * heads_in(arch, l) * (width_in(arch, l) / 16);
        &&& region_of(ptrs, sizes, #[trigger] four(r, l)[0], packed)
        &&& region_of(ptrs, sizes, four(r, l)[1], packed)
        &&& region_of(ptrs, sizes, four(r, l)[2], scales)
        &&& region_of(ptrs, sizes, four(r, l)[3], scales)
    } by {
        lemma_four(arch, max_pos, q, ptrs, r, l);
        let s = rooms(rest);
        assert(s[4 * l] == packed_bytes(arch, l, max_pos as nat));
        assert(sizes[5 + 4 * l] == s[4 * l] && sizes[6 + 4 * l] == s[4 * l + 1] && sizes[7 + 4 * l]
            == s[4 * l + 2] && sizes[8 + 4 * l] == s[4 * l + 3]);
    }
    assert forall|l: int, i: int, k: int|
        0 <= l < arch.num_hidden_layers && 0 <= i < 4 && 0 <= k < 5 implies #[trigger] four(r, l)[i]
        != #[trigger] five(r)[k] by {
        lemma_four(arch, max_pos, q, ptrs, r, l);
        assert(five(r)[k] == ptrs[k]);
        assert(four(r, l)[i] == ptrs[5 + 4 * l + i]);
    }
    assert forall|l: int, m: int, i: int, k: int|
        0 <= l < arch.num_hidden_layers && 0 <= m < arch.num_hidden_layers && 0 <= i < 4 && 0 <= k
            < 4 && (l != m || i != k) implies #[trigger] four(r, l)[i] != #[trigger] four(r, m)[k] by {
        lemma_four(arch, max_pos, q, ptrs, r, l);
        lemma_four(arch, max_pos, q, ptrs, r, m);
        assert(four(r, l)[i] == ptrs[5 + 4 * l + i]);
        assert(four(r, m)[k] == ptrs[5 + 4 * m + k]);
    }
    assert forall|i: int, j: int| 0 <= i < j < five(r).len() implies #[trigger] five(r)[i]
        != #[trigger] five(r)[j] by {
        assert(five(r)[i] == ptrs[i] && five(r)[j] == ptrs[j]);
    }
}

proof fn lemma_four(
    arch: &Gemma4Arch,
    max_pos: u32,
    q: u32,
    ptrs: Seq<u64>,
    r: Gemma4Nvfp4KvState,
    l: int,
)
    requires
        is_cache(arch, max_pos, q, ptrs, r),
        0 <= l < arch.num_hidden_layers,
    ensures
        forall|i: int| 0 <= i < 4 ==> #[trigger] four(r, l)[i] == ptrs[5 + 4 * l + i],
        four(r, l)[0] == ptrs[5 + 4 * l],
        four(r, l)[1] == ptrs[6 + 4 * l],
        four(r, l)[2] == ptrs[7 + 4 * l],
        four(r, l)[3] == ptrs[8 + 4 * l],
{
    assert(r.k_packed_layer_ptrs@[l] == ptrs[5 + 4 * l]);
}

/// Whether an address is that of a region of at least so many bytes.
pub open spec fn room_for(ptrs: Seq<u64>, sizes: Seq<int>, ptr: u64, bytes: int) -> bool {
    exists|i: int| 0 <= i < sizes.len() && #[trigger] ptrs[i] == ptr && bytes <= sizes[i]
}

/// A drafter's shadow cache has a zeroed region of its own for keys and for
/// values of each source layer, with two bytes an element for every slot of
/// the base cache; the first source is the sliding one. It uses the blocks of
/// the base cache.
#[verifier::spinoff_prover]
#[verifier::rlimit(60)]
pub proof fn law_shadow_regions(
    b: &Gemma4Nvfp4Bringup,
    kv: &Gemma4Nvfp4KvState,
    sources: (usize, usize),
    ptrs: Seq<u64>,
)
    requires
        b.shadow_fits(kv, sources.0),
        b.shadow_fits(kv, sources.1),
        ptrs.len() == 4,
        distinct(ptrs),
    ensures
        ({
            let p = b.shadow_allocation(kv, sources);
            let sizes = rooms(p.steps);
            let m = leaves(p.steps, Memory::fresh());
            let s = b.shadow_of(kv, sources, (ptrs[0], ptrs[1], ptrs[2], ptrs[3]));
            let slots = kv.max_pos * kv.block_size;
            let sliding = slots * s.sliding_num_kv_heads * s.sliding_head_dim * 2;
            let full = slots * s.full_num_kv_heads * s.full_head_dim * 2;
            &&& p.failure is None
            &&& s.sliding_num_kv_heads == heads_in(&b.arch, sources.0 as int) as u32
            &&& s.sliding_head_dim == width_in(&b.arch, sources.0 as int) as u32
            &&& s.full_num_kv_heads == heads_in(&b.arch, sources.1 as int) as u32
            &&& s.full_head_dim == width_in(&b.arch, sources.1 as int) as u32
            &&& s.sliding_layer_bytes == sliding
            &&& s.full_layer_bytes == full
            &&& room_for(ptrs, sizes, s.sliding_k_ptr, sliding)
            &&& room_for(ptrs, sizes, s.sliding_v_ptr, sliding)
            &&& room_for(ptrs, sizes, s.full_k_ptr, full)
            &&& room_for(ptrs, sizes, s.full_v_ptr, full)
            &&& filled(ptrs, m, s.sliding_k_ptr, Val::Zeros { bytes: sliding })
            &&& filled(ptrs, m, s.sliding_v_ptr, Val::Zeros { bytes: sliding })
            &&& filled(ptrs, m, s.full_k_ptr, Val::Zeros { bytes: full })
            &&& filled(ptrs, m, s.full_v_ptr, Val::Zeros { bytes: full })
            &&& distinct(seq![s.sliding_k_ptr, s.sliding_v_ptr, s.full_k_ptr, s.full_v_ptr])
            &&& s.block_size == kv.block_size
            &&& s.num_blocks_total == kv.max_pos
            &&& s.max_blocks_per_seq == kv.max_pos
        }),
{
    let p = b.shadow_allocation(kv, sources);
    let s = b.shadow_of(kv, sources, (ptrs[0], ptrs[1], ptrs[2], ptrs[3]));
    let m = leaves(p.steps, Memory::fresh());
    let x = b.shadow_bytes(kv, sources.0 as int);
    let y = b.shadow_bytes(kv, sources.1 as int);
    let (h0, w0) = (s.sliding_num_kv_heads, s.sliding_head_dim);
    let (h1, w1) = (s.full_num_kv_heads, s.full_head_dim);
    assert(kv.max_pos * kv.block_size * h0 * w0 * 2 >= 0 && kv.max_pos * kv.block_size * h1 * w1
        * 2 >= 0) by (nonlinear_arith);
    assert(p.steps.len() == 8);
    let t = p.steps;
    assert(rooms(t).len() == 4 && rooms(t)[0] >= x && rooms(t)[1] >= x && rooms(t)[2] >= y && rooms(
        t,
    )[3] >= y) by {
        reveal_with_fuel(rooms, 9);
        assert(t.drop_last().drop_last().drop_last().drop_last().drop_last().drop_last().drop_last().drop_last()
            =~= Seq::empty());
    }
    assert(m.get(Buf::start(0)) == (Val::Zeros { bytes: x }) && m.get(Buf::start(1)) == (Val::Zeros {
        bytes: x,
    }) && m.get(Buf::start(2)) == (Val::Zeros { bytes: y }) && m.get(Buf::start(3)) == (Val::Zeros {
        bytes: y,
    })) by {
        reveal(leaves);
        reveal_with_fuel(after_steps, 9);
    }
    assert(ptrs[0] == s.sliding_k_ptr && ptrs[1] == s.sliding_v_ptr && ptrs[2] == s.full_k_ptr
        && ptrs[3] == s.full_v_ptr);
}

/// The buffers of a chunk's scratch.
pub open spec fn scratch_buffers(s: SpecPrefillScratch) -> Seq<u64> {
    seq![
        s.hidden_fp8,
        s.hidden_scale,
        s.qkv_out,
        s.q_normed,
        s.k_normed,
        s.v_normed,
        s.q_fp8,
        s.attn_out,
        s.attn_out_fp8,
        s.attn_out_scale,
        s.gate_up_out,
        s.gate_up_fp8,
        s.gate_up_scale,
        s.mlp_out_fp8,
        s.mlp_out_scale,
        s.delta_f16,
        s.gemm_f32_tmp,
        s.q_scale_ptr,
        s.kv_scale_ptr,
        s.cutlass_ws,
        s.fa3_ws,
        s.residual,
        s.token_ids,
        s.positions,
        s.slot_mapping,
        s.context_lens,
        s.cu_seqlens_q,
        s.logits_f32,
        s.argmax_dev,
    ]
}

/// Every buffer of a chunk's scratch is a region of its own, with the bytes
/// that `k` tokens take there in a layer whose queries are `q` and whose keys
/// are `kv` wide.
#[verifier::spinoff_prover]
#[verifier::rlimit(80)]
pub proof fn law_scratch_regions(arch: &Gemma4Arch, l: int, k: nat, ptrs: Seq<u64>)
    requires
        scratch_fits(arch, k),
        0 <= l < arch.num_hidden_layers,
        arch.head_dim(l) as int == arch.head_dim(l) as u32,
        arch.head_dim_sliding <= u32::MAX,
        arch.head_dim_global <= u32::MAX,
        k > 0,
        ptrs.len() == 29,
        distinct(ptrs),
    ensures
        ({
            let s = scratch_at(arch, k as int, ptrs);
            let r = Seq::new(
                29,
                |i: int| scratch_regions(arch, k as int)[i]->Region_bytes as int,
            );
            let hidden = arch.hidden_size as u32 as int;
            let inter = arch.intermediate_size as u32 as int;
            let vocab = arch.vocab_size as u32 as int;
            let q = (arch.num_attention_heads as u32) * (width_in(arch, l) as u32);
            let kv = (heads_in(arch, l) as u32) * (width_in(arch, l) as u32);
            &&& distinct(scratch_buffers(s))
            &&& room_for(ptrs, r, s.hidden_fp8, k * hidden)
            &&& room_for(ptrs, r, s.hidden_scale, 4 * (k as int))
            &&& room_for(ptrs, r, s.qkv_out, 2 * (k * (q + 2 * kv)))
            &&& room_for(ptrs, r, s.q_normed, 2 * (k * q))
            &&& room_for(ptrs, r, s.k_normed, 2 * (k * kv))
            &&& room_for(ptrs, r, s.v_normed, 2 * (k * kv))
            &&& room_for(ptrs, r, s.q_fp8, k * q)
            &&& room_for(ptrs, r, s.attn_out, 2 * (k * q))
            &&& room_for(ptrs, r, s.attn_out_fp8, k * q)
            &&& room_for(ptrs, r, s.attn_out_scale, 4 * (k as int))
            &&& room_for(ptrs, r, s.gate_up_out, 4 * (k * inter))
            &&& room_for(ptrs, r, s.gate_up_fp8, 2 * (k * inter))
            &&& room_for(ptrs, r, s.gate_up_scale, 4 * (k as int))
            &&& room_for(ptrs, r, s.mlp_out_fp8, k * inter)
            &&& room_for(ptrs, r, s.mlp_out_scale, 4 * (k as int))
            &&& room_for(ptrs, r, s.delta_f16, 2 * (k * hidden))
            &&& room_for(ptrs, r, s.gemm_f32_tmp, 4 * (k * q))
            &&& room_for(ptrs, r, s.gemm_f32_tmp, 4 * (k * hidden))
            &&& room_for(ptrs, r, s.gemm_f32_tmp, 8 * (k * inter))
            &&& region_of(ptrs, r, s.gemm_f32_tmp, s.gemm_f32_tmp_bytes as int)
            &&& room_for(ptrs, r, s.q_scale_ptr, 4)
            &&& room_for(ptrs, r, s.kv_scale_ptr, 4)
            &&& region_of(ptrs, r, s.cutlass_ws, s.cutlass_ws_bytes as int)
            &&& region_of(ptrs, r, s.fa3_ws, 16777216)
            &&& room_for(ptrs, r, s.residual, 2 * (k * hidden))
            &&& room_for(ptrs, r, s.token_ids, 4 * (k as int))
            &&& room_for(ptrs, r, s.positions, 4 * (k as int))
            &&& room_for(ptrs, r, s.slot_mapping, 4 * (k as int))
            &&& room_for(ptrs, r, s.context_lens, 4)
            &&& room_for(ptrs, r, s.cu_seqlens_q, 8)
            &&& room_for(ptrs, r, s.logits_f32, 4 * (k * vocab))
            &&& room_for(ptrs, r, s.argmax_dev, 4 * (k as int))
            &&& s.q_scale_cache == 0
        }),
{
    let s = scratch_at(arch, k as int, ptrs);
    let r = Seq::new(29, |i: int| scratch_regions(arch, k as int)[i]->Region_bytes as int);
    assert(scratch_buffers(s) =~= ptrs);
    law_rows_fit_scratch(arch, l, k);
    let hidden = arch.hidden_size as u32 as int;
    let inter = arch.intermediate_size as u32 as int;
    let vocab = arch.vocab_size as u32 as int;
    let g = widest_gemm(arch);
    let q = (arch.num_attention_heads as u32) * (width_in(arch, l) as u32);
    let kv = layer_kv_dim(arch, l);
    assert(k * hidden <= k * g && 2 * (k * inter) <= k * g && 0 <= k * hidden && 0 <= k * inter
        && 0 <= k * vocab && 0 <= k * q && 0 <= k * kv) by (nonlinear_arith)
        requires
            k > 0,
            0 <= hidden <= g,
            0 <= inter,
            2 * inter <= g,
            0 <= vocab,
            0 <= q,
            0 <= kv,
    ;
    lemma_scratch_sizes(arch, l, k, r);
    assert(ptrs[0] == s.hidden_fp8 && ptrs[1] == s.hidden_scale && ptrs[2] == s.qkv_out
        && ptrs[3] == s.q_normed && ptrs[4] == s.k_normed && ptrs[5] == s.v_normed && ptrs[6]
        == s.q_fp8 && ptrs[7] == s.attn_out && ptrs[8] == s.attn_out_fp8 && ptrs[9]
        == s.attn_out_scale && ptrs[10] == s.gate_up_out && ptrs[11] == s.gate_up_fp8
        && ptrs[12] == s.gate_up_scale && ptrs[13] == s.mlp_out_fp8 && ptrs[14]
        == s.mlp_out_scale && ptrs[15] == s.delta_f16 && ptrs[16] == s.gemm_f32_tmp && ptrs[17]
        == s.q_scale_ptr && ptrs[18] == s.kv_scale_ptr && ptrs[19] == s.cutlass_ws && ptrs[20]
        == s.fa3_ws && ptrs[21] == s.residual && ptrs[22] == s.token_ids && ptrs[23]
        == s.positions && ptrs[24] == s.slot_mapping && ptrs[25] == s.context_lens && ptrs[26]
        == s.cu_seqlens_q && ptrs[27] == s.logits_f32 && ptrs[28] == s.argmax_dev);
}

#[verifier::spinoff_prover]
#[verifier::rlimit(60)]
proof fn lemma_scratch_sizes(arch: &Gemma4Arch, l: int, k: nat, r: Seq<int>)
    requires
        scratch_fits(arch, k),
        0 <= l < arch.num_hidden_layers,
        arch.head_dim(l) as int == arch.head_dim(l) as u32,
        arch.head_dim_sliding <= u32::MAX,
        arch.head_dim_global <= u32::MAX,
        k > 0,
        r == Seq::new(29, |i: int| scratch_regions(arch, k as int)[i]->Region_bytes as int),
    ensures
        ({
            let hidden = arch.hidden_size as u32 as int;
            let inter = arch.intermediate_size as u32 as int;
            let vocab = arch.vocab_size as u32 as int;
            let q = (arch.num_attention_heads as u32) * (width_in(arch, l) as u32);
            let kv = (heads_in(arch, l) as u32) * (width_in(arch, l) as u32);
            &&& r[0] == k * hidden
            &&& r[1] == 4 * k
            &&& r[2] >= 2 * (k * (q + 2 * kv))
            &&& r[3] >= 2 * (k * q)
            &&& r[4] >= 2 * (k * kv)
            &&& r[5] >= 2 * (k * kv)
            &&& r[6] >= k * q
            &&& r[7] >= 2 * (k * q)
            &&& r[8] >= k * q
            &&& r[9] == 4 * k
            &&& r[10] == 4 * (k * inter)
            &&& r[11] == 2 * (k * inter)
            &&& r[12] == 4 * k
            &&& r[13] == k * inter
            &&& r[14] == 4 * k
            &&& r[15] == 2 * (k * hidden)
            &&& r[16] >= 4 * (k * q)
            &&& r[16] >= 4 * (k * hidden)
            &&& r[16] >= 8 * (k * inter)
            &&& r[16] == 4 * (k * widest_gemm(arch))
            &&& r[17] == 4 && r[18] == 4
            &&& r[19] == 16777216 && r[20] == 16777216
            &&& r[21] == 2 * (k * hidden)
            &&& r[22] == 4 * k && r[23] == 4 * k && r[24] == 4 * k
            &&& r[25] == 4
            &&& r[26] == 4 * (k + 1)
            &&& r[27] == 4 * (k * vocab)
            &&& r[28] == 4 * k
        }),
{
    law_rows_fit_scratch(arch, l, k);
    let n = arch.num_hidden_layers as nat;
    let hidden = arch.hidden_size as u32 as int;
    let inter = arch.intermediate_size as u32 as int;
    let vocab = arch.vocab_size as u32 as int;
    let g = widest_gemm(arch);
    let wq = widest_q(arch);
    let wkv = widest_kv(arch, n);
    let heads = arch.num_attention_heads as u32 as int;
    let kv = layer_kv_dim(arch, l);
    lemma_widest_is_not_negative(arch, n);
    assert(wq >= 0) by (nonlinear_arith)
        requires
            wq == heads * (wq_width(arch)),
            heads >= 0,
            wq_width(arch) >= 0,
    ;
    assert(kv >= 0) by (nonlinear_arith)
        requires
            kv == (arch.num_kv_heads(l) as u32) * (arch.head_dim(l) as u32),
    ;
    assert(0 <= k * hidden <= k * g && 2 * (k * inter) <= k * g && 0 <= k * inter && 0 <= k * vocab
        && 0 <= k * wq <= k * g && 0 <= k * wkv <= k * g && k * wq <= k * (wq + 2 * wkv) && k * wkv
        <= k * (wq + 2 * wkv) && k * kv >= 0) by (nonlinear_arith)
        requires
            k > 0,
            0 <= hidden <= g,
            0 <= inter,
            2 * inter <= g,
            0 <= vocab,
            0 <= wq <= g,
            0 <= wkv <= g,
            kv >= 0,
    ;
}

/// Width of the widest heads.
spec fn wq_width(arch: &Gemma4Arch) -> int {
    (larger(arch.head_dim_sliding as int, arch.head_dim_global as int) as usize as u32) as int
}

proof fn lemma_widest_is_not_negative(arch: &Gemma4Arch, n: nat)
    ensures
        widest_kv(arch, n) >= 0,
    decreases n,
{
    if n > 0 {
        lemma_widest_is_not_negative(arch, (n - 1) as nat);
    }
}

/// The buffers of a drafter's step.
pub open spec fn workspace_buffers(w: DrafterStepWorkspace) -> Seq<u64> {
    seq![
        w.pre_projection_in,
        w.hidden,
        w.residual1,
        w.gemm_f32,
        w.proj_f16,
        w.q,
        w.attn_out,
        w.mlp_gate,
        w.mlp_up,
        w.out_hidden,
        w.centroid_logits,
        w.top_centroid_ids,
        w.top_centroid_scores,
        w.out_token_id,
        w.sparse_ids,
        w.sparse_logits,
    ]
}

/// Every buffer of a drafter's step is a region of its own, with the bytes for
/// what it holds.
#[verifier::spinoff_prover]
#[verifier::rlimit(60)]
pub proof fn law_workspace_regions(a: Gemma4DrafterArch, ptrs: Seq<u64>)
    requires
        workspace_fits(a),
        ptrs.len() == 16,
        distinct(ptrs),
    ensures
        ({
            let w = workspace_at(a, ptrs);
            let r = Seq::new(16, |i: int| workspace_regions(a)[i]->Region_bytes as int);
            let q = a.num_attention_heads * a.head_dim_global;
            &&& distinct(workspace_buffers(w))
            &&& room_for(ptrs, r, w.pre_projection_in, 2 * a.pre_projection_in_dim)
            &&& room_for(ptrs, r, w.hidden, 2 * a.hidden_size)
            &&& room_for(ptrs, r, w.residual1, 2 * a.hidden_size)
            &&& room_for(ptrs, r, w.gemm_f32, 4 * a.hidden_size)
            &&& room_for(ptrs, r, w.gemm_f32, 4 * a.intermediate_size)
            &&& room_for(ptrs, r, w.gemm_f32, 4 * q)
            &&& room_for(ptrs, r, w.gemm_f32, 4 * a.backbone_hidden_size)
            &&& !a.use_ordered_embeddings ==> room_for(ptrs, r, w.gemm_f32, 4 * a.vocab_size)
            &&& room_for(ptrs, r, w.proj_f16, 2 * a.hidden_size)
            &&& room_for(ptrs, r, w.q, 2 * q)
            &&& room_for(ptrs, r, w.attn_out, 2 * q)
            &&& room_for(ptrs, r, w.mlp_gate, 2 * a.intermediate_size)
            &&& room_for(ptrs, r, w.mlp_up, 2 * a.intermediate_size)
            &&& room_for(ptrs, r, w.out_hidden, 2 * a.backbone_hidden_size)
            &&& room_for(ptrs, r, w.centroid_logits, 4 * a.num_centroids)
            &&& room_for(ptrs, r, w.top_centroid_ids, 4 * a.centroid_intermediate_top_k)
            &&& room_for(ptrs, r, w.top_centroid_scores, 4 * a.centroid_intermediate_top_k)
            &&& room_for(ptrs, r, w.out_token_id, 4)
            &&& room_for(
                ptrs,
                r,
                w.sparse_ids,
                4 * (a.centroid_intermediate_top_k * (a.vocab_size as int / a.num_centroids as int)),
            )
            &&& room_for(
                ptrs,
                r,
                w.sparse_logits,
                4 * (a.centroid_intermediate_top_k * (a.vocab_size as int / a.num_centroids as int)),
            )
        }),
{
    let w = workspace_at(a, ptrs);
    let r = Seq::new(16, |i: int| workspace_regions(a)[i]->Region_bytes as int);
    let b = buffer_bytes(a);
    lemma_sizes(a);
    assert(workspace_buffers(w) =~= ptrs);
    assert(b[0] >= 0 && b[1] >= 0 && b[2] >= 0 && b[3] >= 0 && b[4] >= 0 && b[5] >= 0 && b[6] >= 0
        && b[7] >= 0 && b[8] >= 0 && b[9] >= 0 && b[10] >= 0 && b[11] >= 0 && b[12] >= 0 && b[13]
        >= 0 && b[14] >= 0 && b[15] >= 0);
    assert(r[0] >= b[0] && r[1] >= b[1] && r[2] >= b[2] && r[3] >= b[3] && r[4] >= b[4] && r[5]
        >= b[5] && r[6] >= b[6] && r[7] >= b[7] && r[8] >= b[8] && r[9] >= b[9] && r[10] >= b[10]
        && r[11] >= b[11] && r[12] >= b[12] && r[13] >= b[13] && r[14] >= b[14] && r[15] >= b[15]);
    assert(ptrs[0] == w.pre_projection_in && ptrs[1] == w.hidden && ptrs[2] == w.residual1
        && ptrs[3] == w.gemm_f32 && ptrs[4] == w.proj_f16 && ptrs[5] == w.q && ptrs[6] == w.attn_out
        && ptrs[7] == w.mlp_gate && ptrs[8] == w.mlp_up && ptrs[9] == w.out_hidden && ptrs[10]
        == w.centroid_logits && ptrs[11] == w.top_centroid_ids && ptrs[12] == w.top_centroid_scores
        && ptrs[13] == w.out_token_id && ptrs[14] == w.sparse_ids && ptrs[15] == w.sparse_logits);
}

} // verus!
