//! What the steps of a program compute: for every buffer the expression of
//! weights, host arguments and earlier contents that it holds.
//!
//! A buffer goes by the place where it starts. An expression says which
//! operation was applied to what, with which weights and on how many elements;
//! it leaves open how a kernel rounds.

use crate::runtime::step::{Buf, DecodeKernel, Dim3, Format16, KernelCall, Step};
use vstd::prelude::*;

verus! {

/// What a buffer holds.
#[allow(inconsistent_fields)]
pub enum Val {
    /// What it held before the program.
    Before(Buf),
    /// What lies some bytes behind the start of something larger.
    Part { of: Box<Val>, offset: int },
    /// A host argument, by its place.
    Input { index: int, bytes: int },
    Zeros { bytes: int },
    Int(int),
    Pair(int, int),
    /// Consecutive integers.
    Range { first: int, count: int },
    /// The bit pattern of a 32-bit number.
    Bits(u32),
    Copied { of: Box<Val>, bytes: int },
    /// Rows of a table.
    Embedded { table: u64, ids: Box<Val>, tokens: int, width: int, vocab: int },
    /// Rows divided by their root mean square and weighed.
    Norm {
        of: Box<Val>,
        gamma: u64,
        rows: int,
        width: int,
        eps_bits: u32,
        format: Format16,
    },
    /// Rows divided by their root mean square.
    ValueNorm { of: Box<Val>, rows: int, width: int, eps_bits: u32 },
    /// `m` rows of `k` elements times the transpose of an `n` by `k` matrix.
    Product { of: Box<Val>, weight: u64, m: int, n: int, k: int, format: Format16 },
    /// The same with an NVFP4 matrix.
    Linear { of: Box<Val>, packed: u64, scales: u64, global_scale: u64, m: int, n: int, k: int },
    /// 32-bit numbers as bf16.
    Narrowed { of: Box<Val>, n: int },
    /// 32-bit numbers in half precision.
    Halved { of: Box<Val>, n: int },
    /// Half-precision numbers in 32 bits.
    Widened { of: Box<Val>, n: int },
    /// bf16 numbers in half precision.
    FromBf16 { of: Box<Val>, n: int },
    /// Half-precision numbers as bf16.
    ToBf16 { of: Box<Val>, n: int },
    Sum { a: Box<Val>, b: Box<Val>, n: int },
    /// All elements times one number.
    Scaled { of: Box<Val>, by: Box<Val>, n: int },
    /// `gelu(gate) * up`.
    Gated { gate: Box<Val>, up: Box<Val>, n: int },
    Capped { of: Box<Val>, cap_bits: u32, rows: int, width: int },
    /// The place of the largest number.
    Largest { of: Box<Val>, n: int },
    /// Heads turned by the rows of two tables that belong to some positions.
    Rotated {
        of: Box<Val>,
        cos: Box<Val>,
        sin: Box<Val>,
        positions: Box<Val>,
        tokens: int,
        heads: int,
        head_dim: int,
        rotary_dim: int,
    },
    /// Numbers divided by a scale, in FP8.
    Scaled8 { of: Box<Val>, scale: u64 },
    /// Queries attending to a cache.
    Attended { query: Box<Val>, lengths: Box<Val>, rows: Box<Val>, cache: Cache, how: Attention },
    /// A cache in half precision.
    Decoded { from: Box<Val>, scales: Box<Val>, n: int },
    /// The token of the sparse head.
    Sparse {
        of: Box<Val>,
        centroids: u64,
        ordering: u64,
        table: u64,
        width: int,
        centroid_count: int,
        top_k: int,
        per_centroid: int,
        vocab: int,
    },
    /// An expression that is not written out.
    Other,
}

/// Where keys and values lie, and their scales.
pub struct Cache {
    pub keys: u64,
    pub values: u64,
    pub key_scales: u64,
    pub value_scales: u64,
}

/// How an attention is made.
pub struct Attention {
    pub tokens: int,
    pub heads: int,
    pub kv_heads: int,
    pub head_dim: int,
    /// Positions to the left of a query that it sees; below zero all.
    pub window: int,
    pub block_size: int,
    pub blocks: int,
    pub scale_bits: u32,
    pub q_descale: u64,
    pub q_scales: u64,
    pub tables: u64,
}

/// Keys and values that go to a cache.
pub struct CacheWrite {
    pub cache: Cache,
    pub keys: Val,
    pub values: Val,
    pub slots: Val,
    pub tokens: int,
    pub kv_heads: int,
    pub head_dim: int,
    pub key_policy: int,
    pub value_policy: int,
    /// Whether nothing but the cache is written, unrotated values by rounding
    /// to nearest.
    pub plain: bool,
}

/// What is known of memory at some step.
pub struct Memory {
    pub at: Map<Buf, Val>,
    /// Readings with their bytes.
    pub readings: Seq<(Val, int)>,
    /// What went to the caches, in order.
    pub writes: Seq<CacheWrite>,
    /// Bytes of shared memory that a kernel may ask for beyond the default.
    pub limits: Map<DecodeKernel, int>,
}

impl Memory {
    /// Nothing was written yet.
    pub open spec fn fresh() -> Memory {
        Memory {
            at: Map::empty(),
            readings: Seq::empty(),
            writes: Seq::empty(),
            limits: Map::empty(),
        }
    }

    /// What a buffer holds.
    pub open spec fn get(self, b: Buf) -> Val {
        if self.at.contains_key(b) {
            self.at[b]
        } else {
            match b {
                Buf::In { region, offset } => if offset > 0 && self.at.contains_key(
                    Buf::start(region),
                ) {
                    Val::Part { of: Box::new(self.at[Buf::start(region)]), offset: offset as int }
                } else {
                    Val::Before(b)
                },
                Buf::At(_) => Val::Before(b),
            }
        }
    }

    /// Nothing is known.
    pub open spec fn lost() -> Memory {
        Memory { at: Map::total(|b: Buf| Val::Other), ..Memory::fresh() }
    }

    /// Whether a kernel may ask for that much shared memory.
    pub open spec fn allows(self, kernel: DecodeKernel, shared: u32) -> bool {
        shared < 48 * 1024 || self.limits.contains_key(kernel) && self.limits[kernel] >= shared
    }

    pub open spec fn put(self, b: Buf, v: Val) -> Memory {
        Memory { at: self.at.insert(b, v), ..self }
    }
}

pub open spec fn norm(
    of: Val,
    gamma: u64,
    rows: int,
    width: int,
    eps_bits: u32,
    format: Format16,
) -> Val {
    Val::Norm { of: Box::new(of), gamma, rows, width, eps_bits, format }
}

pub open spec fn value_norm(of: Val, rows: int, width: int, eps_bits: u32) -> Val {
    Val::ValueNorm { of: Box::new(of), rows, width, eps_bits }
}

pub open spec fn product(of: Val, weight: u64, m: int, n: int, k: int, format: Format16) -> Val {
    Val::Product { of: Box::new(of), weight, m, n, k, format }
}

pub open spec fn linear(
    of: Val,
    packed: u64,
    scales: u64,
    global_scale: u64,
    m: int,
    n: int,
    k: int,
) -> Val {
    Val::Linear { of: Box::new(of), packed, scales, global_scale, m, n, k }
}

pub open spec fn narrowed(of: Val, n: int) -> Val {
    Val::Narrowed { of: Box::new(of), n }
}

pub open spec fn halved(of: Val, n: int) -> Val {
    Val::Halved { of: Box::new(of), n }
}

pub open spec fn sum(a: Val, b: Val, n: int) -> Val {
    Val::Sum { a: Box::new(a), b: Box::new(b), n }
}

pub open spec fn scaled(of: Val, by: Val, n: int) -> Val {
    Val::Scaled { of: Box::new(of), by: Box::new(by), n }
}

pub open spec fn gated(gate: Val, up: Val, n: int) -> Val {
    Val::Gated { gate: Box::new(gate), up: Box::new(up), n }
}

pub open spec fn copied(of: Val, bytes: int) -> Val {
    Val::Copied { of: Box::new(of), bytes }
}

pub open spec fn largest(of: Val, n: int) -> Val {
    Val::Largest { of: Box::new(of), n }
}

pub open spec fn part(of: Val, offset: int) -> Val {
    Val::Part { of: Box::new(of), offset }
}

pub open spec fn embedded(table: u64, ids: Val, tokens: int, width: int, vocab: int) -> Val {
    Val::Embedded { table, ids: Box::new(ids), tokens, width, vocab }
}

pub open spec fn rotated(
    of: Val,
    cos: Val,
    sin: Val,
    positions: Val,
    tokens: int,
    heads: int,
    head_dim: int,
    rotary_dim: int,
) -> Val {
    Val::Rotated {
        of: Box::new(of),
        cos: Box::new(cos),
        sin: Box::new(sin),
        positions: Box::new(positions),
        tokens,
        heads,
        head_dim,
        rotary_dim,
    }
}

pub open spec fn scaled8(of: Val, scale: u64) -> Val {
    Val::Scaled8 { of: Box::new(of), scale }
}

pub open spec fn attended(
    query: Val,
    lengths: Val,
    rows: Val,
    cache: Cache,
    how: Attention,
) -> Val {
    Val::Attended {
        query: Box::new(query),
        lengths: Box::new(lengths),
        rows: Box::new(rows),
        cache,
        how,
    }
}

/// Whether blocks of 256 threads have one for each of `n` elements.
pub open spec fn a_thread_each(n: int, grid: Dim3, block: Dim3) -> bool {
    block == Dim3::line(256) && grid.y == 1 && grid.z == 1 && n <= 256 * grid.x
}

/// The smaller of a width and the most threads of a block.
pub open spec fn up_to_1024(n: int) -> int {
    if n < 1024 {
        n
    } else {
        1024
    }
}

/// Whether a launch has the threads and the shared memory for its work.
pub open spec fn enough(call: KernelCall, grid: Dim3, block: Dim3, shared: u32, m: Memory) -> bool {
    match call {
        KernelCall::FillPosSlots { num_tokens, .. } => a_thread_each(
            num_tokens as int,
            grid,
            block,
        ),
        KernelCall::F32ToBf16 { n, .. } => a_thread_each(n as int, grid, block),
        KernelCall::ScaledAddBf16 { n, .. } => a_thread_each(n as int, grid, block),
        KernelCall::CastF32ToF16 { n, .. } => a_thread_each(n as int, grid, block),
        KernelCall::VectorAddF16 { n, .. } => a_thread_each(n as int, grid, block),
        KernelCall::ScaleInplaceF16 { n, .. } => a_thread_each(n as int, grid, block),
        KernelCall::GeluTanhMul { n, .. } => a_thread_each(n as int, grid, block),
        KernelCall::DequantFp8 { n, .. } => a_thread_each(n as int, grid, block),
        KernelCall::DequantNvfp4 { n, .. } => a_thread_each(n as int, grid, block),
        KernelCall::VNormBf16 { head_dim, .. } => {
            &&& grid == Dim3::line(grid.x)
            &&& block == Dim3::line(block.x)
            &&& block.x == up_to_1024(head_dim as int)
        },
        KernelCall::FusedGeluMulF16 { intermediate, .. } => {
            &&& grid == Dim3::line(1)
            &&& block == Dim3::line(block.x)
            &&& block.x == up_to_1024(intermediate as int)
        },
        KernelCall::ArgmaxF32 { vocab, .. } => {
            &&& grid == Dim3::line(1)
            &&& block == Dim3::line(block.x)
            &&& block.x == up_to_1024(vocab as int)
        },
        KernelCall::RopeSplitHalfBf16 { head_dim, .. } => {
            &&& grid == Dim3::line(grid.x)
            &&& block == Dim3::line(block.x)
            &&& block.x == head_dim as int / 2
        },
        KernelCall::RopePartialF16(a) => {
            &&& grid == Dim3::plane(grid.x, grid.y)
            &&& grid.x == a.num_tokens
            &&& grid.y == a.num_heads
            &&& block == Dim3::line(block.x)
            &&& block.x == a.head_dim as int / 2
        },
        KernelCall::RopeKvWrite(a) => {
            &&& grid == Dim3::plane(grid.x, grid.y)
            &&& grid.x == a.num_tokens
            &&& grid.y >= a.num_heads
            &&& grid.y >= a.num_kv_heads
            &&& block == Dim3::line(block.x)
            &&& block.x == a.head_dim
        },
        KernelCall::Decode { kernel, args } => {
            // Two tiles of 32 positions in 16 bits, the scores of a tile, and
            // a slot for each of four warps.
            let queries: int = if kernel == DecodeKernel::Nvfp4Gqa {
                4
            } else {
                1
            };
            &&& kernel == DecodeKernel::Nvfp4Gqa || kernel == DecodeKernel::Nvfp4
            &&& grid == Dim3::plane(1, grid.y)
            &&& kernel == DecodeKernel::Nvfp4Gqa ==> args.num_heads as int / args.num_kv_heads as int
                <= 4
            &&& grid.y == if kernel == DecodeKernel::Nvfp4Gqa {
                args.num_kv_heads
            } else {
                args.num_heads
            }
            &&& block == Dim3::line(128)
            &&& shared >= 2 * (32 * 2) * args.head_dim + 32 * 4 * queries + 4 * 4
            &&& m.allows(kernel, shared)
        },
        KernelCall::HalfDecode { kernel, args } => {
            &&& kernel == DecodeKernel::Half || kernel == DecodeKernel::HalfBc16
            &&& grid == Dim3::plane(1, grid.y)
            &&& grid.y == args.num_heads
            &&& block == Dim3::line(128)
            &&& shared >= if kernel == DecodeKernel::Half {
                2 * (32 * 4) * args.head_dim + 32 * 4 + 4 * 4
            } else {
                2 * (16 * 4) * args.head_dim + 16 * 4 + 4 * 4
            }
            &&& m.allows(kernel, shared)
        },
        KernelCall::W4a16Gemv { n, .. } => {
            &&& grid == Dim3::line(grid.x)
            &&& grid.x == n
            &&& block == Dim3::line(256)
        },
        KernelCall::W4a16GemmMn { m: rows, n, .. } => {
            &&& grid == Dim3::plane(grid.x, grid.y)
            &&& grid.x == n
            &&& rows <= 8 * grid.y
            &&& block == Dim3::line(256)
        },
        KernelCall::W4a16GateUp { i_size, .. } => {
            &&& grid == Dim3::line(grid.x)
            &&& grid.x == 2 * i_size
            &&& block == Dim3::line(256)
        },
        KernelCall::MaskedEmbedder(a) => {
            &&& grid == Dim3::line(1)
            &&& block == Dim3::line(256)
            &&& shared >= 4 * (a.hidden_size + a.n_centroids + a.top_k) + 2 * 8 * 4
        },
    }
}

/// What a kernel leaves.
pub open spec fn after_call(call: KernelCall, grid_x: u32, m: Memory) -> Memory {
    match call {
        KernelCall::FillPosSlots {
            positions,
            slot_mapping,
            context_lens,
            position_offset,
            start_slot,
            num_tokens,
        } => m.put(
            Buf::At(positions),
            Val::Range { first: position_offset as int, count: num_tokens as int },
        ).put(
            Buf::At(slot_mapping),
            Val::Range { first: start_slot as int, count: num_tokens as int },
        ).put(
            Buf::At(context_lens),
            Val::Range { first: position_offset + 1, count: num_tokens as int },
        ),
        KernelCall::F32ToBf16 { dst, src, n } => m.put(dst, narrowed(m.get(src), n as int)),
        KernelCall::VNormBf16 { v, eps_bits, head_dim } => m.put(
            v,
            value_norm(m.get(v), grid_x as int, head_dim as int, eps_bits),
        ),
        KernelCall::ScaledAddBf16 { dst, src, alpha, n } => m.put(
            dst,
            sum(m.get(dst), scaled(m.get(src), m.get(Buf::At(alpha)), n as int), n as int),
        ),
        KernelCall::CastF32ToF16 { dst, src, n } => m.put(dst, halved(m.get(src), n as int)),
        KernelCall::VectorAddF16 { dst, src, n } => m.put(
            dst,
            sum(m.get(dst), m.get(src), n as int),
        ),
        KernelCall::FusedGeluMulF16 { out, gate_up, intermediate } => m.put(
            out,
            gated(
                m.get(gate_up),
                m.get(gate_up.plus((2 * intermediate) as u64)),
                intermediate as int,
            ),
        ),
        KernelCall::ScaleInplaceF16 { x, scalar_bits, n } => m.put(
            x,
            scaled(m.get(x), Val::Bits(scalar_bits), n as int),
        ),
        KernelCall::ArgmaxF32 { logits, out, vocab } => m.put(
            out,
            largest(m.get(logits), vocab as int),
        ),
        KernelCall::RopeSplitHalfBf16 { qk, cos, sin, head_dim, pos } => m.put(
            qk,
            rotated(
                m.get(qk),
                m.get(cos),
                m.get(sin),
                Val::Int(pos as int),
                1,
                grid_x as int,
                head_dim as int,
                head_dim as int,
            ),
        ),
        KernelCall::RopePartialF16(a) => m.put(
            Buf::At(a.q_out),
            rotated(
                m.get(Buf::At(a.q_in)),
                m.get(Buf::At(a.cos)),
                m.get(Buf::At(a.sin)),
                m.get(a.positions),
                a.num_tokens as int,
                a.num_heads as int,
                a.head_dim as int,
                a.rotary_dim as int,
            ),
        ),
        KernelCall::RopeKvWrite(a) => {
            let cos = m.get(Buf::At(a.cos));
            let sin = m.get(Buf::At(a.sin));
            let positions = m.get(Buf::At(a.positions));
            let write = CacheWrite {
                cache: Cache {
                    keys: a.k_packed,
                    values: a.v_packed,
                    key_scales: a.k_scale,
                    value_scales: a.v_scale,
                },
                keys: rotated(
                    m.get(a.k_in),
                    cos,
                    sin,
                    positions,
                    a.num_tokens as int,
                    a.num_kv_heads as int,
                    a.head_dim as int,
                    a.rotary_dim as int,
                ),
                values: m.get(a.v_in),
                slots: m.get(Buf::At(a.slot_mapping)),
                tokens: a.num_tokens as int,
                kv_heads: a.num_kv_heads as int,
                head_dim: a.head_dim as int,
                key_policy: a.k_policy as int,
                value_policy: a.v_policy as int,
                plain: a.q_scale_cache == 0 && a.hadamard_q == 0 && a.hadamard_k == 0 && a.rotate_v
                    == 0 && a.debug_k == 0 && a.debug_v == 0 && a.stochastic_v == 0,
            };
            Memory {
                writes: m.writes.push(write),
                ..m.put(
                    a.q_out,
                    scaled8(
                        rotated(
                            m.get(a.q_in),
                            cos,
                            sin,
                            positions,
                            a.num_tokens as int,
                            a.num_heads as int,
                            a.head_dim as int,
                            a.rotary_dim as int,
                        ),
                        a.q_scale,
                    ),
                )
            }
        },
        KernelCall::Decode { args, .. } => m.put(
            args.output,
            attended(
                m.get(args.query),
                m.get(Buf::At(args.context_lens)),
                Val::Pair(0, 1),
                Cache {
                    keys: args.k_packed,
                    values: args.v_packed,
                    key_scales: args.k_scale,
                    value_scales: args.v_scale,
                },
                Attention {
                    tokens: 1,
                    heads: args.num_heads as int,
                    kv_heads: args.num_kv_heads as int,
                    head_dim: args.head_dim as int,
                    window: args.window_size_left as int,
                    block_size: args.block_size as int,
                    blocks: args.max_blocks_per_seq as int,
                    scale_bits: args.scale_bits,
                    q_descale: args.q_descale,
                    q_scales: args.q_scale_cache,
                    tables: args.block_tables,
                },
            ),
        ),
        KernelCall::HalfDecode { args, .. } => m.put(
            Buf::At(args.output),
            attended(
                m.get(Buf::At(args.query)),
                m.get(Buf::At(args.context_lens)),
                Val::Pair(0, 1),
                Cache {
                    keys: args.key_cache,
                    values: args.value_cache,
                    key_scales: 0,
                    value_scales: 0,
                },
                Attention {
                    tokens: 1,
                    heads: args.num_heads as int,
                    kv_heads: args.num_kv_heads as int,
                    head_dim: args.head_dim as int,
                    window: args.window_size_left as int,
                    block_size: args.block_size as int,
                    blocks: args.max_blocks_per_seq as int,
                    scale_bits: args.scale_bits,
                    q_descale: 0,
                    q_scales: 0,
                    tables: args.block_tables,
                },
            ),
        ),
        KernelCall::W4a16Gemv { out, packed, scales, global_scale, act, n, k } => m.put(
            out,
            linear(m.get(act), packed, scales, global_scale, 1, n as int, k as int),
        ),
        KernelCall::W4a16GemmMn { out, packed, scales, global_scale, act, m: rows, n, k } => m.put(
            out,
            linear(m.get(act), packed, scales, global_scale, rows as int, n as int, k as int),
        ),
        KernelCall::W4a16GateUp {
            out_gate,
            out_up,
            gate_packed,
            gate_scales,
            gate_global_scale,
            up_packed,
            up_scales,
            up_global_scale,
            act,
            i_size,
            k,
        } => m.put(
            out_gate,
            linear(
                m.get(act),
                gate_packed,
                gate_scales,
                gate_global_scale,
                1,
                i_size as int,
                k as int,
            ),
        ).put(
            out_up,
            linear(m.get(act), up_packed, up_scales, up_global_scale, 1, i_size as int, k as int),
        ),
        KernelCall::GeluTanhMul { out, gate, up, n } => m.put(
            out,
            gated(m.get(gate), m.get(up), n as int),
        ),
        KernelCall::DequantFp8 { src, scales, dst, n, .. } => m.put(
            Buf::At(dst),
            Val::Decoded {
                from: Box::new(m.get(Buf::At(src))),
                scales: Box::new(m.get(Buf::At(scales))),
                n: n as int,
            },
        ),
        KernelCall::DequantNvfp4 { packed, scales, dst, n } => m.put(
            Buf::At(dst),
            Val::Decoded {
                from: Box::new(m.get(Buf::At(packed))),
                scales: Box::new(m.get(Buf::At(scales))),
                n: n as int,
            },
        ),
        KernelCall::MaskedEmbedder(a) => m.put(
            Buf::At(a.out_token_id),
            Val::Sparse {
                of: Box::new(m.get(Buf::At(a.hidden))),
                centroids: a.centroids,
                ordering: a.token_ordering,
                table: a.lm_head,
                width: a.hidden_size as int,
                centroid_count: a.n_centroids as int,
                top_k: a.top_k as int,
                per_centroid: a.per_centroid as int,
                vocab: a.vocab as int,
            },
        ),
    }
}

/// What a step leaves.
pub open spec fn after(s: Step, m: Memory) -> Memory {
    match s {
        Step::Region { .. } | Step::Fence | Step::Release => m,
        Step::SharedLimit { kernel, bytes, .. } => Memory {
            limits: m.limits.insert(kernel, bytes as int),
            ..m
        },
        Step::WriteI32 { dst, value } => m.put(dst, Val::Int(value as int)),
        Step::WriteI32Pair { dst, first, second } => m.put(
            dst,
            Val::Pair(first as int, second as int),
        ),
        Step::WriteInput { dst, input, bytes } => m.put(
            dst,
            Val::Input { index: input as int, bytes: bytes as int },
        ),
        Step::Copy { dst, src, bytes, .. } => m.put(dst, copied(m.get(src), bytes as int)),
        Step::Zero { dst, bytes, .. } => m.put(dst, Val::Zeros { bytes: bytes as int }),
        Step::Read { src, bytes, .. } => Memory {
            readings: m.readings.push((m.get(src), bytes as int)),
            ..m
        },
        Step::Embed { num_tokens, hidden, vocab, dst, table, ids } => m.put(
            dst,
            embedded(table, m.get(ids), num_tokens as int, hidden as int, vocab as int),
        ),
        Step::RmsNorm { format, rows, width, eps_bits, data, gamma } => m.put(
            data,
            norm(m.get(data), gamma, rows as int, width as int, eps_bits, format),
        ),
        Step::Gemm { format, act, weight, out, m: rows, n, k } => m.put(
            out,
            product(m.get(act), weight, rows as int, n as int, k as int, format),
        ),
        Step::Bf16ToF16Sat { dst, src, n } => m.put(
            dst,
            Val::FromBf16 { of: Box::new(m.get(src)), n: n as int },
        ),
        Step::VectorAddBf16 { dst, src, n } => m.put(dst, sum(m.get(dst), m.get(src), n as int)),
        Step::Launch { call, grid, block, shared, .. } => if enough(call, grid, block, shared, m) {
            after_call(call, grid.x, m)
        } else {
            Memory::lost()
        },
        Step::Prefill { args } => m.put(
            Buf::At(args.output),
            attended(
                m.get(args.query),
                m.get(Buf::At(args.context_lens)),
                m.get(args.cu_seqlens),
                Cache {
                    keys: args.k_packed,
                    values: args.v_packed,
                    key_scales: args.k_scale,
                    value_scales: args.v_scale,
                },
                Attention {
                    tokens: args.num_tokens as int,
                    heads: args.num_heads as int,
                    kv_heads: args.num_kv_heads as int,
                    head_dim: args.head_dim as int,
                    window: args.window_size_left as int,
                    block_size: args.block_size as int,
                    blocks: args.max_blocks_per_seq as int,
                    scale_bits: args.scale_bits,
                    q_descale: args.q_descale,
                    q_scales: args.q_scale_cache,
                    tables: args.block_tables,
                },
            ),
        ),
        Step::WriteReading { reading, dst } => m.put(dst, m.readings[reading as int].0),
        Step::NarrowReading { reading, dst } => m.put(
            dst,
            narrowed(m.readings[reading as int].0, m.readings[reading as int].1 / 4),
        ),
        Step::WidenReading { reading, dst } => m.put(
            dst,
            Val::Widened {
                of: Box::new(m.readings[reading as int].0),
                n: m.readings[reading as int].1 / 2,
            },
        ),
        Step::ScaleReading { values, scalar, dst } => m.put(
            dst,
            scaled(
                m.readings[values as int].0,
                m.readings[scalar as int].0,
                m.readings[values as int].1 / 2,
            ),
        ),
        Step::HostBits { dst, bits, .. } => m.put(dst, Val::Bits(bits)),
        Step::HostRange { dst, first, count, .. } => m.put(
            dst,
            Val::Range { first: first as int, count: count as int },
        ),
        Step::HostPair { dst, first, second, .. } => m.put(
            dst,
            Val::Pair(first as int, second as int),
        ),
        Step::HostInput { dst, input, bytes, .. } => m.put(
            dst,
            Val::Input { index: input as int, bytes: bytes as int },
        ),
        Step::F16ToBf16 { data, n } => m.put(
            data,
            Val::ToBf16 { of: Box::new(m.get(data)), n: n as int },
        ),
        Step::Softcap { logits, rows, vocab, cap_bits } => m.put(
            logits,
            Val::Capped {
                of: Box::new(m.get(logits)),
                cap_bits,
                rows: rows as int,
                width: vocab as int,
            },
        ),
        Step::LayerForward { args } => m.put(Buf::At(args.residual), Val::Other),
    }
}

/// What the first `n` steps leave.
pub open spec fn after_steps(steps: Seq<Step>, n: nat, m: Memory) -> Memory
    decreases n,
{
    if n == 0 {
        m
    } else {
        after(steps[n - 1], after_steps(steps, (n - 1) as nat, m))
    }
}

/// What a list of steps leaves.
#[verifier::opaque]
pub open spec fn leaves(steps: Seq<Step>, m: Memory) -> Memory {
    after_steps(steps, steps.len(), m)
}

proof fn lemma_prefix(a: Seq<Step>, b: Seq<Step>, n: nat, m: Memory)
    requires
        n <= a.len(),
    ensures
        after_steps(a + b, n, m) == after_steps(a, n, m),
    decreases n,
{
    if n > 0 {
        lemma_prefix(a, b, (n - 1) as nat, m);
        assert((a + b)[n - 1] == a[n - 1]);
    }
}

proof fn lemma_suffix(a: Seq<Step>, b: Seq<Step>, n: nat, m: Memory)
    requires
        n <= b.len(),
    ensures
        after_steps(a + b, a.len() + n, m) == after_steps(b, n, after_steps(a, a.len(), m)),
    decreases n,
{
    if n == 0 {
        lemma_prefix(a, b, a.len(), m);
    } else {
        lemma_suffix(a, b, (n - 1) as nat, m);
        assert((a + b)[a.len() + n - 1] == b[n - 1]);
    }
}

/// What one list of steps after another leaves is what the second leaves of
/// what the first left.
pub proof fn law_leaves_joins(a: Seq<Step>, b: Seq<Step>, m: Memory)
    ensures
        leaves(a + b, m) == leaves(b, leaves(a, m)),
{
    reveal(leaves);
    lemma_suffix(a, b, b.len(), m);
}

/// Nothing leaves everything as it was.
pub proof fn lemma_leaves_none(s: Seq<Step>, m: Memory)
    requires
        s.len() == 0,
    ensures
        leaves(s, m) == m,
{
    reveal(leaves);
}

/// What a single step leaves.
pub proof fn lemma_leaves_one(s: Step, m: Memory)
    ensures
        leaves(seq![s], m) == after(s, m),
{
    reveal(leaves);
    reveal_with_fuel(after_steps, 2);
}

} // verus!
