//! The persistent NVFP4 key/value cache.

use crate::limits::{product, within};
use crate::loader::gemma4_arch::Gemma4Arch;
use crate::runtime::error::{corrupt_runtime_err, Reason};
use crate::runtime::step::{completes, refuses, Buf, Program, ProgramView, Step};
use crate::weight_bytes::word32;
use vstd::arithmetic::overflow::CheckedU128;
use vstd::prelude::*;

verus! {

/// Cache of a model, in blocks of one position. For each layer there is one
/// contiguous region for packed keys, packed values and the microscales of
/// both; position `s`, head `h` of a layer lies `s * heads + h` rows into it.
#[derive(Debug)]
pub struct Gemma4Nvfp4KvState {
    /// Number of positions.
    pub max_pos: u32,
    pub block_size: u32,
    /// Query tokens for which the metadata buffers have room.
    pub max_query_tokens: u32,
    /// `[max_pos]` identity block table.
    pub block_tables_ptr: u64,
    /// `[max_query_tokens]` context lengths.
    pub context_lens_ptr: u64,
    /// `[max_query_tokens]` positions.
    pub positions_ptr: u64,
    /// `[max_query_tokens]` slots.
    pub slot_mapping_ptr: u64,
    /// One 32-bit query scale.
    pub q_scale_ptr: u64,
    pub k_packed_layer_ptrs: Vec<u64>,
    pub v_packed_layer_ptrs: Vec<u64>,
    pub k_scale_layer_ptrs: Vec<u64>,
    pub v_scale_layer_ptrs: Vec<u64>,
    /// Bytes of the whole cache.
    pub total_bytes: u64,
}

/// Packed bytes of a layer's keys: half a byte an element.
pub open spec fn packed_bytes(arch: &Gemma4Arch, layer: int, max_pos: nat) -> nat {
    max_pos * arch.num_kv_heads(layer) as nat * (arch.head_dim(layer) / 2) as nat
}

/// Microscale bytes of a layer's keys: one byte to sixteen elements.
pub open spec fn scale_bytes(arch: &Gemma4Arch, layer: int, max_pos: nat) -> nat {
    max_pos * arch.num_kv_heads(layer) as nat * (arch.head_dim(layer) / 16) as nat
}

/// The regions of one layer.
pub open spec fn layer_regions(arch: &Gemma4Arch, layer: int, max_pos: nat) -> Seq<Step> {
    let packed = packed_bytes(arch, layer, max_pos) as usize;
    let scale = scale_bytes(arch, layer, max_pos) as usize;
    seq![
        Step::Region { name: "gemma4_nvfp4_kv_k_packed", bytes: packed, align: 256 },
        Step::Region { name: "gemma4_nvfp4_kv_v_packed", bytes: packed, align: 256 },
        Step::Region { name: "gemma4_nvfp4_kv_k_scale", bytes: scale, align: 256 },
        Step::Region { name: "gemma4_nvfp4_kv_v_scale", bytes: scale, align: 256 },
    ]
}

/// The regions of the first `n` layers.
pub open spec fn layers_regions(arch: &Gemma4Arch, n: nat, max_pos: nat) -> Seq<Step>
    decreases n,
{
    if n == 0 {
        Seq::empty()
    } else {
        layers_regions(arch, (n - 1) as nat, max_pos) + layer_regions(
            arch,
            n - 1,
            max_pos,
        )
    }
}

/// Bytes of the first `n` layers: packed and scales, for keys and values.
pub open spec fn layers_bytes(arch: &Gemma4Arch, n: nat, max_pos: nat) -> nat
    decreases n,
{
    if n == 0 {
        0
    } else {
        layers_bytes(arch, (n - 1) as nat, max_pos) + 2 * (packed_bytes(arch, n - 1, max_pos)
            + scale_bytes(arch, n - 1, max_pos))
    }
}

/// Bytes of the whole cache: block table, metadata, query scale and layers.
pub open spec fn cache_bytes(arch: &Gemma4Arch, max_pos: nat, max_query_tokens: nat) -> nat {
    max_pos * 4 + 3 * max_query_tokens * 4 + 4 + layers_bytes(
        arch,
        arch.num_hidden_layers as nat,
        max_pos,
    )
}

/// Whether the bytes of a cache can be counted: those of each region, and all
/// of them.
pub open spec fn cache_fits(arch: &Gemma4Arch, max_pos: u32, max_query_tokens: u32) -> bool {
    &&& arch.wf()
    &&& max_pos * 4 <= usize::MAX
    &&& max_query_tokens * 4 <= usize::MAX
    &&& forall|l: int|
        0 <= l < arch.num_hidden_layers ==> #[trigger] packed_bytes(arch, l, max_pos as nat)
            <= usize::MAX
    &&& cache_bytes(arch, max_pos as nat, max_query_tokens as nat) <= u64::MAX
}

/// A cache over the regions that were allocated for it.
pub open spec fn is_cache(
    arch: &Gemma4Arch,
    max_pos: u32,
    max_query_tokens: u32,
    ptrs: Seq<u64>,
    r: Gemma4Nvfp4KvState,
) -> bool {
    &&& r.max_pos == max_pos
    &&& r.block_size == 1
    &&& r.max_query_tokens == max_query_tokens
    &&& r.block_tables_ptr == ptrs[0]
    &&& r.context_lens_ptr == ptrs[1]
    &&& r.positions_ptr == ptrs[2]
    &&& r.slot_mapping_ptr == ptrs[3]
    &&& r.q_scale_ptr == ptrs[4]
    &&& r.k_packed_layer_ptrs@.len() == arch.num_hidden_layers
    &&& r.v_packed_layer_ptrs@.len() == arch.num_hidden_layers
    &&& r.k_scale_layer_ptrs@.len() == arch.num_hidden_layers
    &&& r.v_scale_layer_ptrs@.len() == arch.num_hidden_layers
    &&& forall|l: int|
        0 <= l < arch.num_hidden_layers ==> {
            &&& #[trigger] r.k_packed_layer_ptrs@[l] == ptrs[5 + 4 * l]
            &&& r.v_packed_layer_ptrs@[l] == ptrs[6 + 4 * l]
            &&& r.k_scale_layer_ptrs@[l] == ptrs[7 + 4 * l]
            &&& r.v_scale_layer_ptrs@[l] == ptrs[8 + 4 * l]
        }
    &&& r.total_bytes == cache_bytes(arch, max_pos as nat, max_query_tokens as nat)
}

/// The regions and the first contents of a cache. The host arguments are the
/// identity block table and the query scale.
pub open spec fn allocation(arch: &Gemma4Arch, max_pos: u32, max_query_tokens: u32) -> ProgramView {
    if max_query_tokens == 0 {
        refuses(
            corrupt_runtime_err(
                Reason::plain("Gemma4Nvfp4KvState::allocate: max_query_tokens must be >= 1"),
            ),
        )
    } else {
        let table = (max_pos * 4) as usize;
        let meta = (max_query_tokens * 4) as usize;
        completes(
            seq![
                Step::Region { name: "gemma4_nvfp4_kv_block_tables", bytes: table, align: 256 },
                Step::Region { name: "gemma4_nvfp4_kv_context_lens", bytes: meta, align: 16 },
                Step::Region { name: "gemma4_nvfp4_kv_positions", bytes: meta, align: 16 },
                Step::Region { name: "gemma4_nvfp4_kv_slot_mapping", bytes: meta, align: 16 },
                Step::Region { name: "gemma4_nvfp4_kv_q_scale", bytes: 4, align: 16 },
                Step::WriteInput { dst: Buf::start(0), input: 0, bytes: table },
                Step::WriteInput { dst: Buf::start(4), input: 1, bytes: 4 },
            ] + layers_regions(arch, arch.num_hidden_layers as nat, max_pos as nat),
        )
    }
}

proof fn lemma_layers_bytes_monotone(arch: &Gemma4Arch, m: nat, n: nat, max_pos: nat)
    requires
        m <= n,
    ensures
        layers_bytes(arch, m, max_pos) <= layers_bytes(arch, n, max_pos),
    decreases n,
{
    if m < n {
        lemma_layers_bytes_monotone(arch, m, (n - 1) as nat, max_pos);
    }
}

/// Bytes of packed elements and of microscales of a layer.
fn layer_sizes(arch: &Gemma4Arch, layer: usize, max_pos: u32) -> (r: (usize, usize))
    requires
        layer < arch.layer_types@.len(),
        packed_bytes(arch, layer as int, max_pos as nat) <= usize::MAX,
    ensures
        r.0 == packed_bytes(arch, layer as int, max_pos as nat),
        r.1 == scale_bytes(arch, layer as int, max_pos as nat),
{
    let heads: usize = arch.num_kv_heads_for_layer(layer);
    let dim: usize = arch.head_dim_for_layer(layer);
    let ghost p = max_pos as int * heads as int;
    proof {
        let h = (dim / 2) as int;
        let g = (dim / 16) as int;
        assert(p >= 0) by (nonlinear_arith)
            requires
                p == max_pos as int * heads as int,
        ;
        assert(p * g <= p * h) by (nonlinear_arith)
            requires
                p >= 0,
                0 <= g <= h,
        ;
        if h == 0 {
            assert(p * h == 0 && p * g == 0) by (nonlinear_arith)
                requires
                    h == 0,
                    g == 0,
            ;
        } else {
            assert(p <= p * h) by (nonlinear_arith)
                requires
                    p >= 0,
                    h >= 1,
            ;
        }
    }
    if dim / 2 == 0 {
        proof {
            assert(p * 0 == 0);
        }
        return (0, 0);
    }
    let rows: usize = max_pos as usize * heads;
    (rows * (dim / 2), rows * (dim / 16))
}

impl Gemma4Nvfp4KvState {
    /// Whether the bytes of a cache can be counted, which an allocation asks
    /// for.
    pub fn check_fits(arch: &Gemma4Arch, max_pos: u32, max_query_tokens: u32) -> (r: bool)
        ensures
            r == cache_fits(arch, max_pos, max_query_tokens),
    {
        let n: usize = arch.num_hidden_layers;
        if !arch.check_wf() {
            return false;
        }
        let most: u128 = usize::MAX as u128;
        if max_pos as u128 * 4 > most || max_query_tokens as u128 * 4 > most {
            return false;
        }
        let mut total = CheckedU128::new(
            max_pos as u128 * 4 + 3 * (max_query_tokens as u128) * 4 + 4,
        );
        let ghost base = total@;
        let mut l: usize = 0;
        while l < n
            invariant
                l <= n,
                n == arch.num_hidden_layers,
                arch.wf(),
                most == usize::MAX,
                total@ == base + layers_bytes(arch, l as nat, max_pos as nat),
                forall|i: int|
                    0 <= i < l ==> #[trigger] packed_bytes(arch, i, max_pos as nat) <= usize::MAX,
            decreases n - l,
        {
            let heads: usize = arch.num_kv_heads_for_layer(l);
            let dim: usize = arch.head_dim_for_layer(l);
            let rows = product(max_pos as u128, heads as u128);
            let packed = rows.mul_value((dim / 2) as u128);
            let scale = rows.mul_value((dim / 16) as u128);
            assert(packed@ == packed_bytes(arch, l as int, max_pos as nat));
            assert(scale@ == scale_bytes(arch, l as int, max_pos as nat));
            if !within(&packed, most) {
                return false;
            }
            total = total.add_checked(&packed.add_checked(&scale).mul_value(2));
            l = l + 1;
        }
        within(&total, u64::MAX as u128)
    }

    /// Whether every one of `n` layers has its regions.
    pub fn check_covers(&self, n: usize) -> (r: bool)
        ensures
            r == self.covers(n as nat),
    {
        self.k_packed_layer_ptrs.len() >= n && self.v_packed_layer_ptrs.len() >= n
            && self.k_scale_layer_ptrs.len() >= n && self.v_scale_layer_ptrs.len() >= n
    }

    /// The regions and the first contents of a cache; one without room for a
    /// query token is refused.
    pub fn allocate(arch: &Gemma4Arch, max_pos: u32, max_query_tokens: u32) -> (r: Program)
        requires
            max_query_tokens > 0 ==> cache_fits(arch, max_pos, max_query_tokens),
        ensures
            r@ == allocation(arch, max_pos, max_query_tokens),
    {
        if max_query_tokens == 0 {
            return Program::refuse(
                corrupt_runtime_err(
                    Reason::plain("Gemma4Nvfp4KvState::allocate: max_query_tokens must be >= 1"),
                ),
            );
        }
        let table: usize = max_pos as usize * 4;
        let meta: usize = max_query_tokens as usize * 4;
        let mut steps: Vec<Step> =
            vec![
            Step::Region { name: "gemma4_nvfp4_kv_block_tables", bytes: table, align: 256 },
            Step::Region { name: "gemma4_nvfp4_kv_context_lens", bytes: meta, align: 16 },
            Step::Region { name: "gemma4_nvfp4_kv_positions", bytes: meta, align: 16 },
            Step::Region { name: "gemma4_nvfp4_kv_slot_mapping", bytes: meta, align: 16 },
            Step::Region { name: "gemma4_nvfp4_kv_q_scale", bytes: 4, align: 16 },
            Step::WriteInput { dst: Buf::start(0), input: 0, bytes: table },
            Step::WriteInput { dst: Buf::start(4), input: 1, bytes: 4 },
        ];
        let ghost head = steps@;
        let mut l: usize = 0;
        assert(steps@ =~= head + layers_regions(arch, 0, max_pos as nat));
        while l < arch.num_hidden_layers
            invariant
                l <= arch.num_hidden_layers,
                arch.wf(),
                forall|l: int|
                    0 <= l < arch.num_hidden_layers ==> #[trigger] packed_bytes(
                        arch,
                        l,
                        max_pos as nat,
                    ) <= usize::MAX,
                steps@ == head + layers_regions(arch, l as nat, max_pos as nat),
            decreases arch.num_hidden_layers - l,
        {
            let (packed, scale) = layer_sizes(arch, l, max_pos);
            let mut more: Vec<Step> =
                vec![
                Step::Region { name: "gemma4_nvfp4_kv_k_packed", bytes: packed, align: 256 },
                Step::Region { name: "gemma4_nvfp4_kv_v_packed", bytes: packed, align: 256 },
                Step::Region { name: "gemma4_nvfp4_kv_k_scale", bytes: scale, align: 256 },
                Step::Region { name: "gemma4_nvfp4_kv_v_scale", bytes: scale, align: 256 },
            ];
            assert(more@ =~= layer_regions(arch, l as int, max_pos as nat));
            steps.append(&mut more);
            assert(steps@ =~= head + layers_regions(arch, (l + 1) as nat, max_pos as nat));
            l = l + 1;
        }
        let r = Program::complete(steps);
        assert(r@ =~= allocation(arch, max_pos, max_query_tokens));
        r
    }

    /// The state of a cache whose regions lie at the given addresses, in the
    /// order in which they were asked for.
    pub fn from_regions(
        arch: &Gemma4Arch,
        max_pos: u32,
        max_query_tokens: u32,
        ptrs: &[u64],
    ) -> (r: Gemma4Nvfp4KvState)
        requires
            cache_fits(arch, max_pos, max_query_tokens),
            ptrs@.len() == 5 + 4 * arch.num_hidden_layers,
        ensures
            is_cache(arch, max_pos, max_query_tokens, ptrs@, r),
            r.covers(arch.num_hidden_layers as nat),
    {
        let n: usize = arch.num_hidden_layers;
        let count: usize = ptrs.len();
        let mut k_packed: Vec<u64> = Vec::new();
        let mut v_packed: Vec<u64> = Vec::new();
        let mut k_scale: Vec<u64> = Vec::new();
        let mut v_scale: Vec<u64> = Vec::new();
        let mut total: u64 = max_pos as u64 * 4 + 3 * (max_query_tokens as u64) * 4 + 4;
        let ghost base = total;
        let mut l: usize = 0;
        while l < n
            invariant
                l <= n,
                n == arch.num_hidden_layers,
                arch.wf(),
                count == ptrs@.len(),
                count == 5 + 4 * n,
                base == max_pos * 4 + 3 * max_query_tokens * 4 + 4,
                base + layers_bytes(arch, n as nat, max_pos as nat) <= u64::MAX,
                total == base + layers_bytes(arch, l as nat, max_pos as nat),
                forall|l: int|
                    0 <= l < arch.num_hidden_layers ==> #[trigger] packed_bytes(
                        arch,
                        l,
                        max_pos as nat,
                    ) <= usize::MAX,
                k_packed@.len() == l,
                v_packed@.len() == l,
                k_scale@.len() == l,
                v_scale@.len() == l,
                forall|j: int|
                    0 <= j < l ==> {
                        &&& #[trigger] k_packed@[j] == ptrs@[5 + 4 * j]
                        &&& v_packed@[j] == ptrs@[6 + 4 * j]
                        &&& k_scale@[j] == ptrs@[7 + 4 * j]
                        &&& v_scale@[j] == ptrs@[8 + 4 * j]
                    },
            decreases n - l,
        {
            let (packed, scale) = layer_sizes(arch, l, max_pos);
            proof {
                lemma_layers_bytes_monotone(arch, (l + 1) as nat, n as nat, max_pos as nat);
                assert(layers_bytes(arch, (l + 1) as nat, max_pos as nat) == layers_bytes(
                    arch,
                    l as nat,
                    max_pos as nat,
                ) + 2 * (packed + scale));
            }
            k_packed.push(ptrs[5 + 4 * l]);
            v_packed.push(ptrs[6 + 4 * l]);
            k_scale.push(ptrs[7 + 4 * l]);
            v_scale.push(ptrs[8 + 4 * l]);
            total = total + 2 * (packed as u64 + scale as u64);
            l = l + 1;
        }
        Gemma4Nvfp4KvState {
            max_pos,
            block_size: 1,
            max_query_tokens,
            block_tables_ptr: ptrs[0],
            context_lens_ptr: ptrs[1],
            positions_ptr: ptrs[2],
            slot_mapping_ptr: ptrs[3],
            q_scale_ptr: ptrs[4],
            k_packed_layer_ptrs: k_packed,
            v_packed_layer_ptrs: v_packed,
            k_scale_layer_ptrs: k_scale,
            v_scale_layer_ptrs: v_scale,
            total_bytes: total,
        }
    }

    /// Every one of `n` layers has its regions.
    pub open spec fn covers(&self, n: nat) -> bool {
        &&& self.k_packed_layer_ptrs@.len() >= n
        &&& self.v_packed_layer_ptrs@.len() >= n
        &&& self.k_scale_layer_ptrs@.len() >= n
        &&& self.v_scale_layer_ptrs@.len() >= n
    }
}

/// Little-endian bytes of the block table that maps every block to itself.
pub fn identity_block_table(max_pos: u32) -> (r: Vec<u8>)
    requires
        max_pos * 4 <= usize::MAX,
    ensures
        r@.len() == 4 * max_pos,
        forall|i: int| 0 <= i < max_pos ==> #[trigger] word32(r@, i) == i,
{
    let mut r: Vec<u8> = Vec::new();
    let mut i: u32 = 0;
    while i < max_pos
        invariant
            i <= max_pos,
            r@.len() == 4 * i,
            forall|j: int| 0 <= j < i ==> #[trigger] word32(r@, j) == j,
        decreases max_pos - i,
    {
        let ghost before = r@;
        r.push((i % 0x100) as u8);
        r.push(((i / 0x100) % 0x100) as u8);
        r.push(((i / 0x1_0000) % 0x100) as u8);
        r.push((i / 0x100_0000) as u8);
        assert forall|j: int| 0 <= j < i + 1 implies #[trigger] word32(r@, j) == j by {
            if j < i {
                assert(word32(r@, j) == word32(before, j));
            }
        }
        i = i + 1;
    }
    r
}

/// Bytes of a row: a position's elements of one head.
pub open spec fn row_offset(slot: nat, head: nat, heads: nat, row: nat) -> nat {
    (slot * heads + head) * row
}

/// Every row of every position lies within its layer's region.
pub proof fn law_rows_fit(arch: &Gemma4Arch, layer: int, max_pos: nat, slot: nat, head: nat)
    requires
        slot < max_pos,
        head < arch.num_kv_heads(layer),
    ensures
        row_offset(
            slot,
            head,
            arch.num_kv_heads(layer) as nat,
            (arch.head_dim(layer) / 2) as nat,
        ) + arch.head_dim(layer) / 2 <= packed_bytes(arch, layer, max_pos),
        row_offset(
            slot,
            head,
            arch.num_kv_heads(layer) as nat,
            (arch.head_dim(layer) / 16) as nat,
        ) + arch.head_dim(layer) / 16 <= scale_bytes(arch, layer, max_pos),
{
    let heads = arch.num_kv_heads(layer) as nat;
    let a = (arch.head_dim(layer) / 2) as nat;
    let b = (arch.head_dim(layer) / 16) as nat;
    assert(slot * heads + head + 1 <= max_pos * heads) by (nonlinear_arith)
        requires
            slot + 1 <= max_pos,
            head + 1 <= heads,
    ;
    let rows = slot * heads + head;
    assert(rows * a + a <= max_pos * heads * a) by (nonlinear_arith)
        requires
            rows + 1 <= max_pos * heads,
    ;
    assert(rows * b + b <= max_pos * heads * b) by (nonlinear_arith)
        requires
            rows + 1 <= max_pos * heads,
    ;
}

/// Rows of different positions or heads do not overlap.
pub proof fn law_rows_disjoint(
    s1: nat,
    h1: nat,
    s2: nat,
    h2: nat,
    heads: nat,
    row: nat,
)
    requires
        h1 < heads,
        h2 < heads,
        s1 < s2 || (s1 == s2 && h1 < h2),
    ensures
        row_offset(s1, h1, heads, row) + row <= row_offset(s2, h2, heads, row),
{
    assert(s1 * heads + h1 + 1 <= s2 * heads + h2) by (nonlinear_arith)
        requires
            h1 < heads,
            s1 < s2 || (s1 == s2 && h1 < h2),
    ;
    let (a, b) = (s1 * heads + h1, s2 * heads + h2);
    assert(a * row + row <= b * row) by (nonlinear_arith)
        requires
            a + 1 <= b,
    ;
}

/// With a head width that is a multiple of sixteen, keys and values of a
/// layer take nine sixteenths of a byte an element.
pub proof fn law_bytes_per_element(arch: &Gemma4Arch, layer: int, max_pos: nat)
    requires
        arch.head_dim(layer) % 16 == 0,
    ensures
        16 * (packed_bytes(arch, layer, max_pos) + scale_bytes(arch, layer, max_pos)) == 9 * (
        max_pos * arch.num_kv_heads(layer) as nat * arch.head_dim(layer) as nat),
{
    let p = max_pos * arch.num_kv_heads(layer) as nat;
    let d = arch.head_dim(layer) as nat;
    let q = d / 16;
    assert(d == 16 * q && d / 2 == 8 * q);
    assert(16 * (p * (8 * q) + p * q) == 9 * (p * (16 * q))) by (nonlinear_arith);
}

} // verus!
