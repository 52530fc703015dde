//! What the pieces of the first layer compute.

use crate::runtime::dataflow::{
    after, after_steps, attended, law_leaves_joins, leaves, narrowed, norm, product, rotated,
    scaled8, Attention, CacheWrite, Memory, Val,
};
use crate::runtime::gemma4_nvfp4_bring_up::flow_attention::layer_cache;
use crate::runtime::gemma4_nvfp4_bring_up::flow_layer::embedding;
use crate::runtime::gemma4_nvfp4_bring_up::kv_state::Gemma4Nvfp4KvState;
use crate::runtime::gemma4_nvfp4_bring_up::launches::decode_shared;
use crate::runtime::gemma4_nvfp4_bring_up::layer0::rope_row_spec;
use crate::runtime::gemma4_nvfp4_bring_up::model::Gemma4Nvfp4Bringup;
use crate::runtime::gemma4_nvfp4_bring_up::post_attn::rms_bf16;
use crate::runtime::step::{Buf, Format16, OnFail, Step};
use vstd::prelude::*;

verus! {

/// The embedding of a token behind the first layer's input norm, times a
/// weight.
pub open spec fn first_projection(
    b: &Gemma4Nvfp4Bringup,
    token: u32,
    weight: u64,
    width: int,
) -> Val {
    product(
        norm(
            embedding(b, token),
            b.model.layers@[0].input_layernorm.offset_bytes,
            1,
            b.arch.hidden_size as int,
            b.arch.rms_norm_eps_bits,
            Format16::Bf16,
        ),
        weight,
        1,
        width,
        b.arch.hidden_size as int,
        Format16::Bf16,
    )
}

/// Queries of the first layer: projected, rounded and normalized.
pub open spec fn first_queries(b: &Gemma4Nvfp4Bringup, token: u32) -> Val {
    let layer = b.model.layers@[0];
    let width = layer.q_proj.shape@[0] as int;
    norm(
        narrowed(first_projection(b, token, layer.q_proj.offset_bytes, width), width),
        layer.q_norm.offset_bytes,
        width / b.arch.head_dim_sliding as int,
        b.arch.head_dim_sliding as int,
        b.arch.rms_norm_eps_bits,
        Format16::Bf16,
    )
}

/// Keys of the first layer: projected, rounded and normalized.
pub open spec fn first_keys(b: &Gemma4Nvfp4Bringup, token: u32) -> Val {
    let layer = b.model.layers@[0];
    let width = layer.k_proj.shape@[0] as int;
    norm(
        narrowed(first_projection(b, token, layer.k_proj.offset_bytes, width), width),
        layer.k_norm.offset_bytes,
        width / b.arch.head_dim_sliding as int,
        b.arch.head_dim_sliding as int,
        b.arch.rms_norm_eps_bits,
        Format16::Bf16,
    )
}

proof fn lemma_first_sizes(b: &Gemma4Nvfp4Bringup)
    requires
        b.fits(1),
        b.arch.num_hidden_layers > 0,
    ensures
        b.layer_fits(0, 1),
        b.arch.hidden_size <= 0x7fff_ffff,
        2 * b.arch.hidden_size <= usize::MAX,
{
    assert(b.layer_fits(0, 1));
}

/// The first query projection alone.
#[verifier::spinoff_prover]
#[verifier::rlimit(40)]
pub proof fn law_first_query_flow(b: &Gemma4Nvfp4Bringup, token: u32)
    requires
        b.fits(1),
        b.arch.num_hidden_layers > 0,
    ensures
        ({
            let w = b.model.layers@[0].q_proj;
            let p = b.pre_attn(token);
            &&& p.failure is None
            &&& leaves(p.steps, Memory::fresh()).readings =~= seq![
                (
                    first_projection(b, token, w.offset_bytes, w.shape@[0] as int),
                    4 * w.shape@[0],
                ),
            ]
        }),
{
    lemma_first_sizes(b);
    let p = b.pre_attn(token);
    assert(p.steps.len() == 10);
    reveal(leaves);
    reveal_with_fuel(after_steps, 11);
}

/// The readings of the first projections: queries, keys and values, each by
/// its own weight.
pub open spec fn first_readings(b: &Gemma4Nvfp4Bringup, token: u32) -> Seq<(Val, int)> {
    let layer = b.model.layers@[0];
    let v = layer.v_proj->Some_0;
    seq![
        (
            first_projection(
                b,
                token,
                layer.q_proj.offset_bytes,
                layer.q_proj.shape@[0] as int,
            ),
            4 * layer.q_proj.shape@[0],
        ),
        (
            first_projection(
                b,
                token,
                layer.k_proj.offset_bytes,
                layer.k_proj.shape@[0] as int,
            ),
            4 * layer.k_proj.shape@[0],
        ),
        (
            first_projection(b, token, v.offset_bytes, v.shape@[0] as int),
            4 * v.shape@[0],
        ),
    ]
}

/// The first projections: queries, keys and values in this order.
#[verifier::spinoff_prover]
#[verifier::rlimit(80)]
pub proof fn law_first_projections_flow(b: &Gemma4Nvfp4Bringup, token: u32)
    requires
        b.fits(1),
        b.arch.num_hidden_layers > 0,
        b.qkv_only(token).failure is None,
    ensures
        b.model.layers@[0].v_proj is Some,
        leaves(b.qkv_only(token).steps, Memory::fresh()).readings =~= first_readings(b, token),
        untouched(leaves(b.qkv_only(token).steps, Memory::fresh())),
{
    lemma_first_sizes(b);
    let p = b.qkv_only(token);
    assert(p.steps.len() == 16);
    let a = p.steps.take(11);
    let c = p.steps.subrange(11, 16);
    assert(p.steps =~= a + c);
    law_leaves_joins(a, c, Memory::fresh());
    let m = leaves(a, Memory::fresh());
    let r = first_readings(b, token);
    assert(m.get(Buf::start(2)) == r[0].0 && m.get(Buf::start(3)) == r[1].0 && m.get(Buf::start(4))
        == r[2].0 && m.readings.len() == 0 && untouched(m)) by {
        reveal(leaves);
        reveal_with_fuel(after_steps, 12);
    }
    reveal(leaves);
    reveal_with_fuel(after_steps, 6);
}

/// Whether no memory of the caller's was written.
pub open spec fn untouched(m: Memory) -> bool {
    forall|x: u64| #[trigger] m.get(Buf::At(x)) == Val::Before(Buf::At(x))
}

/// Two readings rounded to bf16 and normalized, and read back.
#[verifier::spinoff_prover]
#[verifier::rlimit(20)]
proof fn lemma_norm_tail(
    c: Seq<Step>,
    m: Memory,
    heads: (u32, u32),
    width: u32,
    eps_bits: u32,
    gamma: (u64, u64),
    bytes: (usize, usize),
    fail: (OnFail, OnFail),
)
    requires
        c.len() == 10,
        c[0] is Region,
        c[1] is Region,
        c[2] == (Step::NarrowReading { reading: 0, dst: Buf::start(5) }),
        c[3] == (Step::NarrowReading { reading: 1, dst: Buf::start(6) }),
        c[4] == rms_bf16(heads.0, width, eps_bits, Buf::start(5), gamma.0),
        c[5] == rms_bf16(heads.1, width, eps_bits, Buf::start(6), gamma.1),
        c[6] is Fence,
        c[7] == (Step::Read { src: Buf::start(5), bytes: bytes.0, on_fail: fail.0 }),
        c[8] == (Step::Read { src: Buf::start(6), bytes: bytes.1, on_fail: fail.1 }),
        c[9] is Release,
        m.readings.len() == 3,
        untouched(m),
    ensures
        untouched(leaves(c, m)),
        leaves(c, m).readings == m.readings.push(
            (
                norm(
                    narrowed(m.readings[0].0, m.readings[0].1 / 4),
                    gamma.0,
                    heads.0 as int,
                    width as int,
                    eps_bits,
                    Format16::Bf16,
                ),
                bytes.0 as int,
            ),
        ).push(
            (
                norm(
                    narrowed(m.readings[1].0, m.readings[1].1 / 4),
                    gamma.1,
                    heads.1 as int,
                    width as int,
                    eps_bits,
                    Format16::Bf16,
                ),
                bytes.1 as int,
            ),
        ),
{
    let q = narrowed(m.readings[0].0, m.readings[0].1 / 4);
    let k = narrowed(m.readings[1].0, m.readings[1].1 / 4);
    let (w, h0, h1) = (width as int, heads.0 as int, heads.1 as int);
    let r = leaves(c, m);
    assert(r.at == m.at.insert(Buf::start(5), q).insert(Buf::start(6), k).insert(
        Buf::start(5),
        norm(q, gamma.0, h0, w, eps_bits, Format16::Bf16),
    ).insert(Buf::start(6), norm(k, gamma.1, h1, w, eps_bits, Format16::Bf16)) && r.readings
        == m.readings.push((norm(q, gamma.0, h0, w, eps_bits, Format16::Bf16), bytes.0 as int)).push(
        (norm(k, gamma.1, h1, w, eps_bits, Format16::Bf16), bytes.1 as int),
    )) by {
        reveal(leaves);
        reveal_with_fuel(after_steps, 11);
    }
    assert forall|x: u64| #[trigger] r.get(Buf::At(x)) == Val::Before(Buf::At(x)) by {
        assert(m.get(Buf::At(x)) == Val::Before(Buf::At(x)));
    }
}

/// Two readings turned by the widened rows of two tables, and read back.
#[verifier::spinoff_prover]
#[verifier::rlimit(20)]
proof fn lemma_rope_tail(
    c: Seq<Step>,
    m: Memory,
    tables: (u64, u64),
    row: usize,
    heads: (u32, u32),
    width: u32,
    bytes: (usize, usize),
    fail: (OnFail, OnFail, OnFail, OnFail),
)
    requires
        c.len() == 16,
        c[0] is Region,
        c[1] is Region,
        c[2] == (Step::WriteReading { reading: 3, dst: Buf::start(7) }),
        c[3] == (Step::WriteReading { reading: 4, dst: Buf::start(8) }),
        c[4] == (Step::Read { src: Buf::At(tables.0), bytes: row, on_fail: fail.0 }),
        c[5] == (Step::Read { src: Buf::At(tables.1), bytes: row, on_fail: fail.1 }),
        c[6] is Region,
        c[7] is Region,
        c[8] == (Step::WidenReading { reading: 5, dst: Buf::start(9) }),
        c[9] == (Step::WidenReading { reading: 6, dst: Buf::start(10) }),
        c[10] == rope_row_spec(Buf::start(7), heads.0, width, Buf::start(9), Buf::start(10)),
        c[11] == rope_row_spec(Buf::start(8), heads.1, width, Buf::start(9), Buf::start(10)),
        c[12] is Fence,
        c[13] == (Step::Read { src: Buf::start(7), bytes: bytes.0, on_fail: fail.2 }),
        c[14] == (Step::Read { src: Buf::start(8), bytes: bytes.1, on_fail: fail.3 }),
        c[15] is Release,
        m.readings.len() == 5,
        untouched(m),
        width <= i32::MAX,
    ensures
        ({
            let r = leaves(c, m).readings;
            let cos = Val::Widened {
                of: Box::new(Val::Before(Buf::At(tables.0))),
                n: row as int / 2,
            };
            let sin = Val::Widened {
                of: Box::new(Val::Before(Buf::At(tables.1))),
                n: row as int / 2,
            };
            let (w, h0, h1) = (width as int, heads.0 as int, heads.1 as int);
            &&& r.len() == 9
            &&& r[7] == (
                rotated(m.readings[3].0, cos, sin, Val::Int(0), 1, h0, w, w),
                bytes.0 as int,
            )
            &&& r[8] == (
                rotated(m.readings[4].0, cos, sin, Val::Int(0), 1, h1, w, w),
                bytes.1 as int,
            )
        }),
{
    let a = c.take(10);
    let b = c.subrange(10, 16);
    assert(c =~= a + b);
    law_leaves_joins(a, b, m);
    let m1 = leaves(a, m);
    let cos = Val::Widened { of: Box::new(Val::Before(Buf::At(tables.0))), n: row as int / 2 };
    let sin = Val::Widened { of: Box::new(Val::Before(Buf::At(tables.1))), n: row as int / 2 };
    assert(m.get(Buf::At(tables.0)) == Val::Before(Buf::At(tables.0)));
    assert(m.get(Buf::At(tables.1)) == Val::Before(Buf::At(tables.1)));
    assert(m1.at == m.at.insert(Buf::start(7), m.readings[3].0).insert(
        Buf::start(8),
        m.readings[4].0,
    ).insert(Buf::start(9), cos).insert(Buf::start(10), sin) && m1.readings.len() == 7) by {
        reveal(leaves);
        reveal_with_fuel(after_steps, 11);
    }
    lemma_rope_end(b, m1, cos, sin, m.readings[3].0, m.readings[4].0, heads, width, bytes, fail);
}

#[verifier::spinoff_prover]
#[verifier::rlimit(20)]
proof fn lemma_rope_end(
    b: Seq<Step>,
    m: Memory,
    cos: Val,
    sin: Val,
    q: Val,
    k: Val,
    heads: (u32, u32),
    width: u32,
    bytes: (usize, usize),
    fail: (OnFail, OnFail, OnFail, OnFail),
)
    requires
        b.len() == 6,
        b[0] == rope_row_spec(Buf::start(7), heads.0, width, Buf::start(9), Buf::start(10)),
        b[1] == rope_row_spec(Buf::start(8), heads.1, width, Buf::start(9), Buf::start(10)),
        b[2] is Fence,
        b[3] == (Step::Read { src: Buf::start(7), bytes: bytes.0, on_fail: fail.2 }),
        b[4] == (Step::Read { src: Buf::start(8), bytes: bytes.1, on_fail: fail.3 }),
        b[5] is Release,
        m.readings.len() == 7,
        width <= i32::MAX,
        m.get(Buf::start(7)) == q,
        m.get(Buf::start(8)) == k,
        m.get(Buf::start(9)) == cos,
        m.get(Buf::start(10)) == sin,
    ensures
        ({
            let r = leaves(b, m).readings;
            let (w, h0, h1) = (width as int, heads.0 as int, heads.1 as int);
            r == m.readings.push(
                (rotated(q, cos, sin, Val::Int(0), 1, h0, w, w), bytes.0 as int),
            ).push((rotated(k, cos, sin, Val::Int(0), 1, h1, w, w), bytes.1 as int))
        }),
{
    let (w, h0, h1) = (width as int, heads.0 as int, heads.1 as int);
    let m1 = after(b[0], m);
    assert(m1 == m.put(Buf::start(7), rotated(q, cos, sin, Val::Int(0), 1, h0, w, w)));
    let m2 = after(b[1], m1);
    assert(m2 == m1.put(Buf::start(8), rotated(k, cos, sin, Val::Int(0), 1, h1, w, w)));
    assert(leaves(b, m) == after(b[5], after(b[4], after(b[3], after(b[2], m2))))) by {
        reveal(leaves);
        reveal_with_fuel(after_steps, 7);
    }
}

/// The first projections with queries and keys normalized head by head: they
/// are the two further readings, in this order.
#[verifier::spinoff_prover]
#[verifier::rlimit(20)]
pub proof fn law_first_norms_flow(b: &Gemma4Nvfp4Bringup, token: u32)
    requires
        b.fits(1),
        b.arch.num_hidden_layers > 0,
        0 < b.arch.head_dim_sliding <= u32::MAX,
        b.qk_norm(token).failure is None,
    ensures
        leaves(b.qk_norm(token).steps, Memory::fresh()).readings =~= first_readings(b, token).push(
            (first_queries(b, token), 2 * b.model.layers@[0].q_proj.shape@[0]),
        ).push((first_keys(b, token), 2 * b.model.layers@[0].k_proj.shape@[0])),
        untouched(leaves(b.qk_norm(token).steps, Memory::fresh())),
{
    lemma_first_sizes(b);
    law_first_projections_flow(b, token);
    lemma_norm_parts(b, token);
    let a = b.qkv_only(token).steps;
    let p = b.qk_norm(token);
    let c = p.steps.subrange(a.len() as int, a.len() as int + 10);
    law_leaves_joins(a, c, Memory::fresh());
    let m = leaves(a, Memory::fresh());
    let layer = b.model.layers@[0];
    let (q, k) = (layer.q_proj.shape@[0], layer.k_proj.shape@[0]);
    lemma_heads_of(b, q);
    lemma_heads_of(b, k);
    lemma_norm_tail(
        c,
        m,
        (b.layer0_heads(q as i32), b.layer0_heads(k as i32)),
        b.arch.head_dim_sliding as u32,
        b.arch.rms_norm_eps_bits,
        (layer.q_norm.offset_bytes, layer.k_norm.offset_bytes),
        ((2 * q) as usize, (2 * k) as usize),
        (OnFail::Memcpy("qk_norm: q DtoH failed"), OnFail::Memcpy("qk_norm: k DtoH failed")),
    );
}

#[verifier::spinoff_prover]
#[verifier::rlimit(20)]
proof fn lemma_norm_parts(b: &Gemma4Nvfp4Bringup, token: u32)
    requires
        b.fits(1),
        b.arch.num_hidden_layers > 0,
        b.qk_norm(token).failure is None,
    ensures
        ({
            let a = b.qkv_only(token).steps;
            let c = b.qk_norm(token).steps.subrange(a.len() as int, a.len() as int + 10);
            let layer = b.model.layers@[0];
            let (q, k) = (layer.q_proj.shape@[0], layer.k_proj.shape@[0]);
            let d = b.arch.head_dim_sliding as u32;
            let eps = b.arch.rms_norm_eps_bits;
            &&& b.qkv_only(token).failure is None
            &&& b.qk_norm(token).steps == a + c
            &&& c.len() == 10
            &&& c[0] is Region && c[1] is Region && c[6] is Fence && c[9] is Release
            &&& c[2] == (Step::NarrowReading { reading: 0, dst: Buf::start(5) })
            &&& c[3] == (Step::NarrowReading { reading: 1, dst: Buf::start(6) })
            &&& c[4] == rms_bf16(
                b.layer0_heads(q as i32),
                d,
                eps,
                Buf::start(5),
                layer.q_norm.offset_bytes,
            )
            &&& c[5] == rms_bf16(
                b.layer0_heads(k as i32),
                d,
                eps,
                Buf::start(6),
                layer.k_norm.offset_bytes,
            )
            &&& c[7] == (Step::Read {
                src: Buf::start(5),
                bytes: (2 * q) as usize,
                on_fail: OnFail::Memcpy("qk_norm: q DtoH failed"),
            })
            &&& c[8] == (Step::Read {
                src: Buf::start(6),
                bytes: (2 * k) as usize,
                on_fail: OnFail::Memcpy("qk_norm: k DtoH failed"),
            })
        }),
{
    lemma_first_sizes(b);
    let a = b.qkv_only(token).steps;
    let p = b.qk_norm(token).steps;
    assert(p =~= a + p.subrange(a.len() as int, a.len() as int + 10));
}

proof fn lemma_heads_of(b: &Gemma4Nvfp4Bringup, n: usize)
    requires
        n <= 0x7fff_ffff,
        0 < b.arch.head_dim_sliding <= u32::MAX,
    ensures
        b.layer0_heads(n as i32) == n as int / b.arch.head_dim_sliding as int,
{
    let d = b.arch.head_dim_sliding as int;
    assert(0 <= n as int / d <= n) by (nonlinear_arith)
        requires
            d > 0,
            n >= 0,
    ;
}

/// The row of a rotary table that belongs to a position, widened to 32 bits.
pub open spec fn table_row(table: u64, position: u32, width: int) -> Val {
    let bytes = 2 * (width / 2);
    Val::Widened {
        of: Box::new(Val::Before(Buf::At((table + position * bytes) as u64))),
        n: bytes / 2,
    }
}

/// The first projections with queries and keys normalized, and turned by the
/// rows of the sliding tables that belong to the position: they are the last
/// two readings.
#[verifier::spinoff_prover]
#[verifier::rlimit(20)]
pub proof fn law_first_rotation_flow(b: &Gemma4Nvfp4Bringup, token: u32, position: u32)
    requires
        b.probe_fits(),
        b.row_fits(position),
        b.arch.head_dim_sliding <= i32::MAX,
        b.qk_rope(token, position).failure is None,
    ensures
        ({
            let r = leaves(b.qk_rope(token, position).steps, Memory::fresh()).readings;
            let d = b.arch.head_dim_sliding as int;
            let q = b.model.layers@[0].q_proj.shape@[0];
            let k = b.model.layers@[0].k_proj.shape@[0];
            let cos = table_row(b.tables.rope_cos_sliding, position, d);
            let sin = table_row(b.tables.rope_sin_sliding, position, d);
            &&& r.len() == 9
            &&& r[7] == (
                rotated(
                    first_queries(b, token),
                    cos,
                    sin,
                    Val::Int(0),
                    1,
                    q as int / d,
                    d,
                    d,
                ),
                2 * q,
            )
            &&& r[8] == (
                rotated(first_keys(b, token), cos, sin, Val::Int(0), 1, k as int / d, d, d),
                2 * k,
            )
        }),
{
    lemma_first_sizes(b);
    law_first_norms_flow(b, token);
    lemma_rope_parts(b, token, position);
    let a = b.qk_norm(token).steps;
    let c = b.qk_rope(token, position).steps.subrange(a.len() as int, a.len() as int + 16);
    law_leaves_joins(a, c, Memory::fresh());
    let m = leaves(a, Memory::fresh());
    let layer = b.model.layers@[0];
    let (q, k) = (layer.q_proj.shape@[0], layer.k_proj.shape@[0]);
    lemma_heads_of(b, q);
    lemma_heads_of(b, k);
    let d = b.arch.head_dim_sliding as int;
    let off = position * b.rope_row_bytes();
    assert(b.rope_row_bytes() == 2 * (d / 2));
    lemma_rope_tail(
        c,
        m,
        (
            (b.tables.rope_cos_sliding + off) as u64,
            (b.tables.rope_sin_sliding + off) as u64,
        ),
        b.rope_row_bytes() as usize,
        (b.layer0_heads(q as i32), b.layer0_heads(k as i32)),
        b.arch.head_dim_sliding as u32,
        ((2 * q) as usize, (2 * k) as usize),
        (
            OnFail::Memcpy("forward_layer0_qk_rope: cos row DtoH"),
            OnFail::Memcpy("forward_layer0_qk_rope: sin row DtoH"),
            OnFail::Memcpy("qk_rope: DtoH failed"),
            OnFail::Memcpy("qk_rope: DtoH failed"),
        ),
    );
}

#[verifier::spinoff_prover]
#[verifier::rlimit(20)]
proof fn lemma_rope_parts(b: &Gemma4Nvfp4Bringup, token: u32, position: u32)
    requires
        b.fits(1),
        b.arch.num_hidden_layers > 0,
        b.qk_rope(token, position).failure is None,
    ensures
        ({
            let a = b.qk_norm(token).steps;
            let c = b.qk_rope(token, position).steps.subrange(a.len() as int, a.len() as int + 16);
            let layer = b.model.layers@[0];
            let (q, k) = (layer.q_proj.shape@[0], layer.k_proj.shape@[0]);
            let d = b.arch.head_dim_sliding as u32;
            let row = b.rope_row_bytes();
            let off = position * row;
            &&& b.qk_norm(token).failure is None
            &&& b.qk_rope(token, position).steps == a + c
            &&& c.len() == 16
            &&& c[0] is Region && c[1] is Region && c[6] is Region && c[7] is Region && c[12]
                is Fence && c[15] is Release
            &&& c[2] == (Step::WriteReading { reading: 3, dst: Buf::start(7) })
            &&& c[3] == (Step::WriteReading { reading: 4, dst: Buf::start(8) })
            &&& c[4] == (Step::Read {
                src: Buf::At((b.tables.rope_cos_sliding + off) as u64),
                bytes: row as usize,
                on_fail: OnFail::Memcpy("forward_layer0_qk_rope: cos row DtoH"),
            })
            &&& c[5] == (Step::Read {
                src: Buf::At((b.tables.rope_sin_sliding + off) as u64),
                bytes: row as usize,
                on_fail: OnFail::Memcpy("forward_layer0_qk_rope: sin row DtoH"),
            })
            &&& c[8] == (Step::WidenReading { reading: 5, dst: Buf::start(9) })
            &&& c[9] == (Step::WidenReading { reading: 6, dst: Buf::start(10) })
            &&& c[10] == rope_row_spec(
                Buf::start(7),
                b.layer0_heads(q as i32),
                d,
                Buf::start(9),
                Buf::start(10),
            )
            &&& c[11] == rope_row_spec(
                Buf::start(8),
                b.layer0_heads(k as i32),
                d,
                Buf::start(9),
                Buf::start(10),
            )
            &&& c[13] == (Step::Read {
                src: Buf::start(7),
                bytes: (2 * q) as usize,
                on_fail: OnFail::Memcpy("qk_rope: DtoH failed"),
            })
            &&& c[14] == (Step::Read {
                src: Buf::start(8),
                bytes: (2 * k) as usize,
                on_fail: OnFail::Memcpy("qk_rope: DtoH failed"),
            })
        }),
{
    lemma_first_sizes(b);
    let a = b.qk_norm(token).steps;
    let p = b.qk_rope(token, position).steps;
    assert(p =~= a + p.subrange(a.len() as int, a.len() as int + 16));
}

/// The attention of the first layer on the host's queries, keys and values, in
/// this order: keys are turned and go with the values to the cache of layer
/// zero in the position's slot, and the queries attend to it within the
/// window.
#[verifier::spinoff_prover]
#[verifier::rlimit(80)]
pub proof fn law_first_attention_flow(
    b: &Gemma4Nvfp4Bringup,
    q_len: usize,
    k_len: usize,
    position: u32,
    kv: &Gemma4Nvfp4KvState,
    policies: (i32, i32),
)
    requires
        b.heads_fit(q_len, k_len, kv),
        q_len <= i32::MAX,
        k_len <= i32::MAX,
        position < i32::MAX,
        kv.positions_ptr != kv.slot_mapping_ptr,
        kv.positions_ptr != kv.context_lens_ptr,
        kv.slot_mapping_ptr != kv.context_lens_ptr,
        b.tables.rope_cos_sliding != kv.positions_ptr,
        b.tables.rope_cos_sliding != kv.slot_mapping_ptr,
        b.tables.rope_cos_sliding != kv.context_lens_ptr,
        b.tables.rope_sin_sliding != kv.positions_ptr,
        b.tables.rope_sin_sliding != kv.slot_mapping_ptr,
        b.tables.rope_sin_sliding != kv.context_lens_ptr,
        decode_shared(b.arch.head_dim_sliding as nat, true) < 48 * 1024,
        b.layer0_attn_heads(q_len, k_len, position, kv, policies).failure is None,
    ensures
        ({
            let p = b.layer0_attn_heads(q_len, k_len, position, kv, policies);
            let r = leaves(p.steps, Memory::fresh());
            let d = b.arch.head_dim_sliding as int;
            let heads = q_len as int / d;
            let kv_heads = k_len as int / d;
            let cos = Val::Before(Buf::At(b.tables.rope_cos_sliding));
            let sin = Val::Before(Buf::At(b.tables.rope_sin_sliding));
            let at = Val::Range { first: position as int, count: 1 };
            &&& r.writes =~= seq![
                CacheWrite {
                    cache: layer_cache(kv, 0),
                    keys: rotated(
                        Val::Input { index: 1, bytes: 2 * k_len },
                        cos,
                        sin,
                        at,
                        1,
                        kv_heads,
                        d,
                        d,
                    ),
                    values: Val::Input { index: 2, bytes: 2 * (kv_heads * d) },
                    slots: at,
                    tokens: 1,
                    kv_heads,
                    head_dim: d,
                    key_policy: policies.0 as int,
                    value_policy: policies.1 as int,
                    plain: true,
                },
            ]
            &&& r.readings =~= seq![
                (
                    attended(
                        scaled8(
                            rotated(
                                Val::Input { index: 0, bytes: 2 * q_len },
                                cos,
                                sin,
                                at,
                                1,
                                heads,
                                d,
                                d,
                            ),
                            kv.q_scale_ptr,
                        ),
                        Val::Range { first: position + 1, count: 1 },
                        Val::Pair(0, 1),
                        layer_cache(kv, 0),
                        Attention {
                            tokens: 1,
                            heads,
                            kv_heads,
                            head_dim: d,
                            window: b.arch.sliding_window_size - 1,
                            block_size: kv.block_size as i32 as int,
                            blocks: kv.max_pos as i32 as int,
                            scale_bits: 0x3f80_0000,
                            q_descale: kv.q_scale_ptr,
                            q_scales: 0,
                            tables: kv.block_tables_ptr,
                        },
                    ),
                    2 * (heads * d),
                ),
            ]
        }),
{
    let p = b.layer0_attn_heads(q_len, k_len, position, kv, policies);
    let d = b.arch.head_dim_sliding as int;
    let heads = q_len as int / d;
    let kv_heads = k_len as int / d;
    vstd::arithmetic::div_mod::lemma_fundamental_div_mod(q_len as int, d);
    vstd::arithmetic::div_mod::lemma_fundamental_div_mod(k_len as int, d);
    assert(0 <= heads <= q_len && 0 <= heads * d <= q_len && 1 <= kv_heads <= k_len && kv_heads * d
        <= k_len) by (nonlinear_arith)
        requires
            q_len == d * heads + q_len as int % d,
            k_len == d * kv_heads + k_len as int % d,
            0 <= q_len as int % d < d,
            0 <= k_len as int % d < d,
            k_len >= d,
            d > 0,
            q_len >= 0,
    ;
    let a = p.steps.take(8);
    let c = p.steps.subrange(8, 14);
    assert(p.steps =~= a + c);
    law_leaves_joins(a, c, Memory::fresh());
    let m = leaves(a, Memory::fresh());
    assert(m == Memory::fresh().put(
        Buf::start(0),
        Val::Input { index: 0, bytes: 2 * q_len },
    ).put(Buf::start(1), Val::Input { index: 1, bytes: 2 * k_len }).put(
        Buf::start(2),
        Val::Input { index: 2, bytes: 2 * (kv_heads * d) },
    )) by {
        reveal(leaves);
        reveal_with_fuel(after_steps, 9);
    }
    let c1 = c.take(2);
    let c2 = c.subrange(2, 6);
    assert(c =~= c1 + c2);
    law_leaves_joins(c1, c2, m);
    let m1 = leaves(c1, m);
    reveal(leaves);
    reveal_with_fuel(after_steps, 5);
}

} // verus!
