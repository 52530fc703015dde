//! Which tensor of the checkpoint lies at each address of a loaded Qwen 3.5
//! model, and in which form.

use crate::formats::{half_bits_with_payload, half_plus_one};
use crate::loader::qwen35_load::{
    attn_requests, converts, fp8_plan, full_attn_requests, half_plan, is_fp8,
    is_full_attn, is_half, is_layer, is_linear_attn, is_merger, is_mlp, is_outside, is_plus_one,
    is_vision, is_vision_block, law_joined_requests, layer_base, lemma_counts, lemma_model_count,
    lemma_vision_count, linear_attn_requests, list_plan, merger_requests, mlp_requests,
    model_requests, outside_requests, pool_counts, request_plan, requests_plan, sent,
    upload_count, uploads_of, vision_block_requests, vision_entry_requests, vision_requests,
    vision_requests_to, LayerAttnType, QwenUpload, RequestKind, RequestView, Source,
};
use crate::loader::qwen35_weights::{
    Qwen35DenseMlpBlock, Qwen35FullAttnLayer, Qwen35Layer, Qwen35LayerAttn, Qwen35LinearAttnLayer,
    Qwen35LoadedOutside,
};
use crate::loader::qwen36_weights::{Qwen36PatchMerger, Qwen36Vision, Qwen36VisionBlock};
use crate::loader::shards::{entry_ok, law_merged_is_found, ShardPool};
use crate::loader::weights::{F16Weight, Fp8Weight};
use crate::tensor::DType;
use crate::text::decimal;
use crate::weight_bytes::{word16, word32};
use vstd::prelude::*;
use vstd::string::*;

verus! {

/// The bytes of a tensor of the checkpoint.
pub open spec fn stored(pool: &ShardPool, name: Seq<char>) -> Seq<u8> {
    let (shard, e) = pool.found(name)->Some_0;
    pool.mmaps@[shard]@.subrange(e.file_offset as int, e.file_offset + e.nbytes)
}

/// Elements of a stored tensor of 16- or 32-bit numbers.
pub open spec fn stored_count(pool: &ShardPool, name: Seq<char>) -> int {
    let (shard, e) = pool.found(name)->Some_0;
    if e.dtype == DType::F32 {
        e.nbytes as int / 4
    } else {
        e.nbytes as int / 2
    }
}

/// Element `i` of a stored tensor in half precision.
pub open spec fn stored_half(pool: &ShardPool, name: Seq<char>, i: int) -> nat {
    let s = stored(pool, name);
    match (pool.found(name)->Some_0).1.dtype {
        DType::F32 => half_bits_with_payload(word32(s, i) as u32),
        DType::Bf16 => half_bits_with_payload((0x1_0000 * word16(s, i)) as u32),
        _ => word16(s, i),
    }
}

/// Whether bytes are a stored tensor in half precision, element by element,
/// where wanted with one added.
pub open spec fn is_stored_half(
    pool: &ShardPool,
    name: Seq<char>,
    plus_one: bool,
    out: Seq<u8>,
) -> bool {
    &&& out.len() / 2 == stored_count(pool, name)
    &&& forall|i: int|
        0 <= i < stored_count(pool, name) ==> #[trigger] word16(out, i) == if plus_one {
            half_plus_one(stored_half(pool, name, i) as u16)
        } else {
            stored_half(pool, name, i)
        }
}

/// Whether the upload at an address sends a tensor in half precision, where
/// wanted with one added to every element.
#[verifier::opaque]
pub open spec fn holds_half(
    pool: &ShardPool,
    u: Seq<QwenUpload>,
    ptrs: Seq<u64>,
    w: F16Weight,
    name: Seq<char>,
    plus_one: bool,
) -> bool {
    &&& w.shape@ == (pool.found(name)->Some_0).1.shape
    &&& exists|i: int|
        0 <= i < u.len() && #[trigger] ptrs[i] == w.offset_bytes && forall|out: Seq<u8>|
            #![trigger sent(u[i], pool, out)]
            sent(u[i], pool, out) ==> is_stored_half(pool, name, plus_one, out)
}

/// Whether bytes are the scales of a stored FP8 tensor, as 32-bit numbers.
pub open spec fn is_stored_scales(pool: &ShardPool, name: Seq<char>, out: Seq<u8>) -> bool {
    let s = stored(pool, name);
    match (pool.found(name)->Some_0).1.dtype {
        DType::Bf16 => out.len() == 4 * (s.len() / 2) && forall|i: int|
            0 <= i < s.len() / 2 ==> #[trigger] word32(out, i) == 0x1_0000 * word16(s, i),
        _ => out == s,
    }
}

/// Whether the uploads at the addresses of an FP8 weight send its elements as
/// they are stored, the scales of its blocks of 128 and the number one.
#[verifier::opaque]
pub open spec fn holds_fp8(
    pool: &ShardPool,
    u: Seq<QwenUpload>,
    ptrs: Seq<u64>,
    w: Fp8Weight,
    name: Seq<char>,
) -> bool {
    let shape = (pool.found(name)->Some_0).1.shape;
    &&& w.shape@ == shape
    &&& w.dtype == DType::Fp8E4M3
    &&& w.scale_bits == 0x3f80_0000
    &&& w.clamp_ppm_bits == 0
    &&& w.channelscale_ptr is None
    &&& w.blockscale_n_blocks == ((shape[0] + 127) / 128) as u32
    &&& w.blockscale_k_blocks == if shape.len() >= 2 {
        ((shape[1] + 127) / 128) as u32
    } else {
        0
    }
    &&& exists|i: int|
        0 <= i < u.len() && #[trigger] ptrs[i] == w.offset_bytes && forall|out: Seq<u8>|
            #![trigger sent(u[i], pool, out)]
            sent(u[i], pool, out) ==> out == stored(pool, name)
    &&& w.blockscale_ptr is Some
    &&& exists|i: int|
        0 <= i < u.len() && #[trigger] ptrs[i] == w.blockscale_ptr->Some_0 && forall|
            out: Seq<u8>,
        |
            #![trigger sent(u[i], pool, out)]
            sent(u[i], pool, out) ==> is_stored_scales(pool, name + "_scale_inv"@, out)
    &&& exists|i: int|
        0 <= i < u.len() && #[trigger] ptrs[i] == w.scale_ptr && u[i].source == Source::One
}

/// A tensor that is found lies in its shard.
proof fn lemma_found(pool: &ShardPool, name: Seq<char>)
    requires
        pool.wf(),
        pool_counts(pool),
        pool.found(name) is Some,
    ensures
        ({
            let (shard, e) = pool.found(name)->Some_0;
            &&& 0 <= shard < pool.mmaps@.len() <= usize::MAX
            &&& e.file_offset + e.nbytes <= pool.mmaps@[shard]@.len()
            &&& 2 * pool.mmaps@[shard]@.len() <= usize::MAX
            &&& stored(pool, name).len() == e.nbytes
        }),
{
    law_merged_is_found(pool.shards@, pool.shards@.len(), name);
    let (shard, e) = pool.found(name)->Some_0;
    assert(pool.shards@[shard]@.contains_key(name));
    assert(entry_ok(pool.mmaps@[shard]@, e));
    assert(pool.mmaps.len() == pool.mmaps@.len());
    assert(2 * pool.mmaps@[shard]@.len() <= usize::MAX);
}

/// What a request for half precision sends.
#[verifier::spinoff_prover]
proof fn lemma_half_sent(
    pool: &ShardPool,
    region: &'static str,
    name: Seq<char>,
    plus_one: bool,
    out: Seq<u8>,
)
    requires
        pool.wf(),
        pool_counts(pool),
        half_plan(pool, region, name, plus_one).failure is None,
        sent(half_plan(pool, region, name, plus_one).uploads[0], pool, out),
    ensures
        is_stored_half(pool, name, plus_one, out),
{
    lemma_found(pool, name);
    let (shard, e) = pool.found(name)->Some_0;
    let u = half_plan(pool, region, name, plus_one).uploads[0];
    if let Source::Tensor { shard: s, offset, bytes, conversion, plus_one: p } = u.source {
        let src = pool.mmaps@[s as int]@.subrange(offset as int, offset + bytes);
        assert(src == stored(pool, name));
        if plus_one {
            let half = choose|half: Seq<u8>| #[trigger]
                converts(conversion, src, half) && is_plus_one(half, out);
            assert forall|i: int| 0 <= i < stored_count(pool, name) implies #[trigger] word16(
                out,
                i,
            ) == half_plus_one(stored_half(pool, name, i) as u16) by {
                assert(word16(half, i) == stored_half(pool, name, i));
            }
        } else {
            assert forall|i: int| 0 <= i < stored_count(pool, name) implies #[trigger] word16(
                out,
                i,
            ) == stored_half(pool, name, i) by {
            }
        }
    }
}

/// A weight in half precision whose upload stands at `i`.
proof fn lemma_half_at(
    pool: &ShardPool,
    u: Seq<QwenUpload>,
    ptrs: Seq<u64>,
    i: int,
    region: &'static str,
    name: Seq<char>,
    plus_one: bool,
    w: F16Weight,
)
    requires
        pool.wf(),
        pool_counts(pool),
        half_plan(pool, region, name, plus_one).failure is None,
        0 <= i < u.len(),
        u[i] == half_plan(pool, region, name, plus_one).uploads[0],
        is_half(w, pool, name, ptrs[i]),
    ensures
        holds_half(pool, u, ptrs, w, name, plus_one),
{
    reveal(holds_half);
    assert forall|out: Seq<u8>| #![trigger sent(u[i], pool, out)]
        sent(u[i], pool, out) implies is_stored_half(pool, name, plus_one, out) by {
        lemma_half_sent(pool, region, name, plus_one, out);
    }
    assert(ptrs[i] == w.offset_bytes);
}

/// An FP8 weight whose uploads stand from `i` on.
#[verifier::spinoff_prover]
proof fn lemma_fp8_at(
    pool: &ShardPool,
    u: Seq<QwenUpload>,
    ptrs: Seq<u64>,
    i: int,
    region: &'static str,
    name: Seq<char>,
    w: Fp8Weight,
)
    requires
        pool.wf(),
        pool_counts(pool),
        fp8_plan(pool, region, name).failure is None,
        0 <= i,
        i + 3 <= u.len(),
        u[i] == fp8_plan(pool, region, name).uploads[0],
        u[i + 1] == fp8_plan(pool, region, name).uploads[1],
        u[i + 2] == fp8_plan(pool, region, name).uploads[2],
        is_fp8(w, pool, name, ptrs, i),
    ensures
        holds_fp8(pool, u, ptrs, w, name),
{
    reveal(holds_fp8);
    lemma_found(pool, name);
    lemma_found(pool, name + "_scale_inv"@);
    assert forall|out: Seq<u8>| #![trigger sent(u[i], pool, out)]
        sent(u[i], pool, out) implies out == stored(pool, name) by {
    }
    assert(ptrs[i] == w.offset_bytes);
    let s = stored(pool, name + "_scale_inv"@);
    assert forall|out: Seq<u8>| #![trigger sent(u[i + 1], pool, out)]
        sent(u[i + 1], pool, out) implies is_stored_scales(pool, name + "_scale_inv"@, out) by {
    }
    assert(ptrs[i + 1] == w.blockscale_ptr->Some_0);
    assert(ptrs[i + 2] == w.scale_ptr);
}

/// The uploads of a request stand behind those of the requests before it.
proof fn lemma_request_place(pool: &ShardPool, list: Seq<RequestView>, n: nat, k: nat)
    requires
        requests_plan(pool, list, n).failure is None,
        k < n,
    ensures
        ({
            let own = request_plan(pool, list[k as int]);
            let o = upload_count(list, k) as int;
            let all = requests_plan(pool, list, n).uploads;
            &&& own.failure is None
            &&& own.uploads.len() == uploads_of(list[k as int].kind)
            &&& o + own.uploads.len() <= all.len()
            &&& own.uploads =~= all.subrange(o, o + own.uploads.len())
        }),
    decreases n,
{
    let last = (n - 1) as nat;
    let before = requests_plan(pool, list, last);
    lemma_count(pool, list, last);
    let all = requests_plan(pool, list, n).uploads;
    assert(all == before.uploads + request_plan(pool, list[n - 1]).uploads);
    if k < last {
        lemma_request_place(pool, list, last, k);
        let own = request_plan(pool, list[k as int]);
        let o = upload_count(list, k) as int;
        assert(all.subrange(o, o + own.uploads.len()) =~= before.uploads.subrange(
            o,
            o + own.uploads.len(),
        ));
    }
}

proof fn lemma_count(pool: &ShardPool, list: Seq<RequestView>, n: nat)
    requires
        requests_plan(pool, list, n).failure is None,
    ensures
        requests_plan(pool, list, n).uploads.len() == upload_count(list, n),
    decreases n,
{
    if n > 0 {
        lemma_count(pool, list, (n - 1) as nat);
    }
}

/// A request of a list whose uploads stand at `at` in a longer one.
proof fn lemma_in_longer(
    pool: &ShardPool,
    list: Seq<RequestView>,
    u: Seq<QwenUpload>,
    at: int,
    k: nat,
)
    requires
        list_plan(pool, list).failure is None,
        k < list.len(),
        0 <= at,
        at + list_plan(pool, list).uploads.len() <= u.len(),
        list_plan(pool, list).uploads == u.subrange(
            at,
            at + list_plan(pool, list).uploads.len(),
        ),
    ensures
        ({
            let own = request_plan(pool, list[k as int]);
            let o = at + upload_count(list, k);
            &&& own.failure is None
            &&& own.uploads.len() == uploads_of(list[k as int].kind)
            &&& o + own.uploads.len() <= u.len()
            &&& forall|i: int| 0 <= i < own.uploads.len() ==> #[trigger] own.uploads[i] == u[o + i]
        }),
{
    lemma_request_place(pool, list, list.len(), k);
    let own = request_plan(pool, list[k as int]);
    let o = upload_count(list, k) as int;
    let all = list_plan(pool, list).uploads;
    assert forall|i: int| 0 <= i < own.uploads.len() implies #[trigger] own.uploads[i] == u[at + o
        + i] by {
        assert(own.uploads[i] == all[o + i]);
        assert(all[o + i] == u[at + (o + i)]);
    }
}

/// A weight in half precision, by its place in a list of requests.
proof fn lemma_half_in(
    pool: &ShardPool,
    list: Seq<RequestView>,
    u: Seq<QwenUpload>,
    ptrs: Seq<u64>,
    at: int,
    k: nat,
    plus_one: bool,
    w: F16Weight,
)
    requires
        pool.wf(),
        pool_counts(pool),
        list_plan(pool, list).failure is None,
        k < list.len(),
        0 <= at,
        at + list_plan(pool, list).uploads.len() <= u.len(),
        list_plan(pool, list).uploads == u.subrange(
            at,
            at + list_plan(pool, list).uploads.len(),
        ),
        list[k as int].kind == if plus_one {
            RequestKind::HalfPlusOne
        } else {
            RequestKind::Half
        },
        is_half(w, pool, list[k as int].name, ptrs[at + upload_count(list, k)]),
    ensures
        holds_half(pool, u, ptrs, w, list[k as int].name, plus_one),
{
    lemma_in_longer(pool, list, u, at, k);
    let r = list[k as int];
    let own = request_plan(pool, r);
    assert(own.uploads[0] == u[at + upload_count(list, k) + 0]);
    lemma_half_at(
        pool,
        u,
        ptrs,
        at + upload_count(list, k),
        r.region,
        r.name,
        plus_one,
        w,
    );
}

/// An FP8 weight, by its place in a list of requests.
proof fn lemma_fp8_in(
    pool: &ShardPool,
    list: Seq<RequestView>,
    u: Seq<QwenUpload>,
    ptrs: Seq<u64>,
    at: int,
    k: nat,
    w: Fp8Weight,
)
    requires
        pool.wf(),
        pool_counts(pool),
        list_plan(pool, list).failure is None,
        k < list.len(),
        0 <= at,
        at + list_plan(pool, list).uploads.len() <= u.len(),
        list_plan(pool, list).uploads == u.subrange(
            at,
            at + list_plan(pool, list).uploads.len(),
        ),
        list[k as int].kind == RequestKind::Fp8Blocks,
        is_fp8(w, pool, list[k as int].name, ptrs, at + upload_count(list, k)),
    ensures
        holds_fp8(pool, u, ptrs, w, list[k as int].name),
{
    lemma_in_longer(pool, list, u, at, k);
    let r = list[k as int];
    let own = request_plan(pool, r);
    let o = at + upload_count(list, k);
    assert(own.uploads[0] == u[o + 0] && own.uploads[1] == u[o + 1] && own.uploads[2] == u[o + 2]);
    lemma_fp8_at(pool, u, ptrs, o, r.region, r.name, w);
}

/// The name of a tensor of a layer.
pub open spec fn of_layer(l: nat, s: Seq<char>) -> Seq<char> {
    "model.language_model.layers."@ + decimal(l) + "."@ + s
}

/// Whether every weight of a layer of full attention is the tensor of its
/// name: the four norms with one added, the projections in FP8.
#[verifier::opaque]
pub open spec fn holds_full_attn(
    pool: &ShardPool,
    u: Seq<QwenUpload>,
    ptrs: Seq<u64>,
    l: nat,
    w: Qwen35FullAttnLayer,
) -> bool {
    &&& holds_half(pool, u, ptrs, w.input_layernorm, of_layer(l, "input_layernorm.weight"@), true)
    &&& holds_half(
        pool,
        u,
        ptrs,
        w.post_attention_layernorm,
        of_layer(l, "post_attention_layernorm.weight"@),
        true,
    )
    &&& holds_half(pool, u, ptrs, w.q_norm, of_layer(l, "self_attn.q_norm.weight"@), true)
    &&& holds_half(pool, u, ptrs, w.k_norm, of_layer(l, "self_attn.k_norm.weight"@), true)
    &&& holds_fp8(pool, u, ptrs, w.q_proj, of_layer(l, "self_attn.q_proj.weight"@))
    &&& holds_fp8(pool, u, ptrs, w.k_proj, of_layer(l, "self_attn.k_proj.weight"@))
    &&& holds_fp8(pool, u, ptrs, w.v_proj, of_layer(l, "self_attn.v_proj.weight"@))
    &&& holds_fp8(pool, u, ptrs, w.o_proj, of_layer(l, "self_attn.o_proj.weight"@))
}

/// Whether every weight of a layer of linear attention is the tensor of its
/// name: the norms before and behind the attention with one added, its own as
/// it is.
#[verifier::opaque]
pub open spec fn holds_linear_attn(
    pool: &ShardPool,
    u: Seq<QwenUpload>,
    ptrs: Seq<u64>,
    l: nat,
    w: Qwen35LinearAttnLayer,
) -> bool {
    &&& holds_half(pool, u, ptrs, w.input_layernorm, of_layer(l, "input_layernorm.weight"@), true)
    &&& holds_half(
        pool,
        u,
        ptrs,
        w.post_attention_layernorm,
        of_layer(l, "post_attention_layernorm.weight"@),
        true,
    )
    &&& holds_half(pool, u, ptrs, w.a_log, of_layer(l, "linear_attn.A_log"@), false)
    &&& holds_half(pool, u, ptrs, w.dt_bias, of_layer(l, "linear_attn.dt_bias"@), false)
    &&& holds_half(pool, u, ptrs, w.conv1d, of_layer(l, "linear_attn.conv1d.weight"@), false)
    &&& holds_half(pool, u, ptrs, w.in_proj_a, of_layer(l, "linear_attn.in_proj_a.weight"@), false)
    &&& holds_half(pool, u, ptrs, w.in_proj_b, of_layer(l, "linear_attn.in_proj_b.weight"@), false)
    &&& holds_half(pool, u, ptrs, w.norm, of_layer(l, "linear_attn.norm.weight"@), false)
    &&& holds_fp8(pool, u, ptrs, w.in_proj_qkv, of_layer(l, "linear_attn.in_proj_qkv.weight"@))
    &&& holds_fp8(pool, u, ptrs, w.in_proj_z, of_layer(l, "linear_attn.in_proj_z.weight"@))
    &&& holds_fp8(pool, u, ptrs, w.out_proj, of_layer(l, "linear_attn.out_proj.weight"@))
}

/// Whether every weight of an MLP is the tensor of its name.
#[verifier::opaque]
pub open spec fn holds_mlp(
    pool: &ShardPool,
    u: Seq<QwenUpload>,
    ptrs: Seq<u64>,
    l: nat,
    w: Qwen35DenseMlpBlock,
) -> bool {
    &&& holds_fp8(pool, u, ptrs, w.gate_proj, of_layer(l, "mlp.gate_proj.weight"@))
    &&& holds_fp8(pool, u, ptrs, w.up_proj, of_layer(l, "mlp.up_proj.weight"@))
    &&& holds_fp8(pool, u, ptrs, w.down_proj, of_layer(l, "mlp.down_proj.weight"@))
}

/// A layer of full attention holds the tensors of its names: at the addresses
/// of its norms lie the stored weights plus one.
#[verifier::spinoff_prover]
#[verifier::rlimit(60)]
pub proof fn law_full_attn_addresses(
    pool: &ShardPool,
    u: Seq<QwenUpload>,
    ptrs: Seq<u64>,
    l: nat,
    at: int,
    w: Qwen35FullAttnLayer,
)
    requires
        pool.wf(),
        pool_counts(pool),
        list_plan(pool, full_attn_requests(l)).failure is None,
        0 <= at,
        at + list_plan(pool, full_attn_requests(l)).uploads.len() <= u.len(),
        list_plan(pool, full_attn_requests(l)).uploads == u.subrange(
            at,
            at + list_plan(pool, full_attn_requests(l)).uploads.len(),
        ),
        is_full_attn(w, pool, l, ptrs, at),
    ensures
        holds_full_attn(pool, u, ptrs, l, w),
{
    reveal(holds_full_attn);
    let list = full_attn_requests(l);
    assert(upload_count(list, 0) == 0 && upload_count(list, 1) == 1 && upload_count(list, 2) == 2
        && upload_count(list, 3) == 3 && upload_count(list, 4) == 4 && upload_count(list, 5) == 7
        && upload_count(list, 6) == 10 && upload_count(list, 7) == 13) by {
        reveal_with_fuel(upload_count, 8);
    }
    lemma_half_in(pool, list, u, ptrs, at, 0, true, w.input_layernorm);
    lemma_half_in(pool, list, u, ptrs, at, 1, true, w.post_attention_layernorm);
    lemma_half_in(pool, list, u, ptrs, at, 2, true, w.q_norm);
    lemma_half_in(pool, list, u, ptrs, at, 3, true, w.k_norm);
    lemma_fp8_in(pool, list, u, ptrs, at, 4, w.q_proj);
    lemma_fp8_in(pool, list, u, ptrs, at, 5, w.k_proj);
    lemma_fp8_in(pool, list, u, ptrs, at, 6, w.v_proj);
    lemma_fp8_in(pool, list, u, ptrs, at, 7, w.o_proj);
}

/// A layer of linear attention holds the tensors of its names.
#[verifier::spinoff_prover]
#[verifier::rlimit(60)]
pub proof fn law_linear_attn_addresses(
    pool: &ShardPool,
    u: Seq<QwenUpload>,
    ptrs: Seq<u64>,
    l: nat,
    at: int,
    w: Qwen35LinearAttnLayer,
)
    requires
        pool.wf(),
        pool_counts(pool),
        list_plan(pool, linear_attn_requests(l)).failure is None,
        0 <= at,
        at + list_plan(pool, linear_attn_requests(l)).uploads.len() <= u.len(),
        list_plan(pool, linear_attn_requests(l)).uploads == u.subrange(
            at,
            at + list_plan(pool, linear_attn_requests(l)).uploads.len(),
        ),
        is_linear_attn(w, pool, l, ptrs, at),
    ensures
        holds_linear_attn(pool, u, ptrs, l, w),
{
    reveal(holds_linear_attn);
    let list = linear_attn_requests(l);
    assert(upload_count(list, 0) == 0 && upload_count(list, 1) == 1 && upload_count(list, 2) == 2
        && upload_count(list, 3) == 3 && upload_count(list, 4) == 4 && upload_count(list, 5) == 5
        && upload_count(list, 6) == 6 && upload_count(list, 7) == 7 && upload_count(list, 8) == 8
        && upload_count(list, 9) == 11 && upload_count(list, 10) == 14) by {
        reveal_with_fuel(upload_count, 11);
    }
    lemma_half_in(pool, list, u, ptrs, at, 0, true, w.input_layernorm);
    lemma_half_in(pool, list, u, ptrs, at, 1, true, w.post_attention_layernorm);
    lemma_half_in(pool, list, u, ptrs, at, 2, false, w.a_log);
    lemma_half_in(pool, list, u, ptrs, at, 3, false, w.dt_bias);
    lemma_half_in(pool, list, u, ptrs, at, 4, false, w.conv1d);
    lemma_half_in(pool, list, u, ptrs, at, 5, false, w.in_proj_a);
    lemma_half_in(pool, list, u, ptrs, at, 6, false, w.in_proj_b);
    lemma_half_in(pool, list, u, ptrs, at, 7, false, w.norm);
    lemma_fp8_in(pool, list, u, ptrs, at, 8, w.in_proj_qkv);
    lemma_fp8_in(pool, list, u, ptrs, at, 9, w.in_proj_z);
    lemma_fp8_in(pool, list, u, ptrs, at, 10, w.out_proj);
}

/// An MLP holds the tensors of its names.
#[verifier::spinoff_prover]
#[verifier::rlimit(40)]
pub proof fn law_mlp_addresses(
    pool: &ShardPool,
    u: Seq<QwenUpload>,
    ptrs: Seq<u64>,
    l: nat,
    at: int,
    w: Qwen35DenseMlpBlock,
)
    requires
        pool.wf(),
        pool_counts(pool),
        list_plan(pool, mlp_requests(l)).failure is None,
        0 <= at,
        at + list_plan(pool, mlp_requests(l)).uploads.len() <= u.len(),
        list_plan(pool, mlp_requests(l)).uploads == u.subrange(
            at,
            at + list_plan(pool, mlp_requests(l)).uploads.len(),
        ),
        is_mlp(w, pool, l, ptrs, at),
    ensures
        holds_mlp(pool, u, ptrs, l, w),
{
    reveal(holds_mlp);
    let list = mlp_requests(l);
    assert(upload_count(list, 0) == 0 && upload_count(list, 1) == 3 && upload_count(list, 2) == 6)
        by {
        reveal_with_fuel(upload_count, 3);
    }
    lemma_fp8_in(pool, list, u, ptrs, at, 0, w.gate_proj);
    lemma_fp8_in(pool, list, u, ptrs, at, 1, w.up_proj);
    lemma_fp8_in(pool, list, u, ptrs, at, 2, w.down_proj);
}

/// Where the parts of two lists in a row stand in the whole.
proof fn lemma_joined_places(pool: &ShardPool, a: Seq<RequestView>, b: Seq<RequestView>)
    requires
        list_plan(pool, a + b).failure is None,
    ensures
        list_plan(pool, a).failure is None,
        list_plan(pool, b).failure is None,
        ({
            let u = list_plan(pool, a + b).uploads;
            let x = list_plan(pool, a).uploads;
            let y = list_plan(pool, b).uploads;
            &&& u == x + y
            &&& x.len() == upload_count(a, a.len())
            &&& y.len() == upload_count(b, b.len())
            &&& x =~= u.subrange(0, x.len() as int)
            &&& y =~= u.subrange(x.len() as int, (x.len() + y.len()) as int)
        }),
{
    law_joined_requests(pool, a, b);
    lemma_count(pool, a, a.len());
    lemma_count(pool, b, b.len());
}

/// Uploads of the attention of a layer.
pub open spec fn attn_count(ty: LayerAttnType) -> int {
    if ty == LayerAttnType::Full {
        16
    } else {
        17
    }
}

/// The uploads of a layer stand behind those of the layers before it.
#[verifier::spinoff_prover]
#[verifier::rlimit(40)]
proof fn lemma_layer_place(pool: &ShardPool, types: Seq<LayerAttnType>, n: nat, l: nat)
    requires
        list_plan(pool, model_requests(types, n)).failure is None,
        l < n,
    ensures
        ({
            let u = list_plan(pool, model_requests(types, n)).uploads;
            let a = list_plan(pool, attn_requests(types[l as int], l));
            let b = list_plan(pool, mlp_requests(l));
            let at = layer_base(types, l) as int;
            let k = attn_count(types[l as int]);
            &&& a.failure is None
            &&& b.failure is None
            &&& a.uploads.len() == k
            &&& b.uploads.len() == 9
            &&& at + k + 9 <= u.len()
            &&& a.uploads =~= u.subrange(at, at + k)
            &&& b.uploads =~= u.subrange(at + k, at + k + 9)
        }),
    decreases n,
{
    let last = (n - 1) as nat;
    let front = model_requests(types, last);
    let attn = attn_requests(types[last as int], last);
    let mlp = mlp_requests(last);
    assert(model_requests(types, n) == front + attn + mlp);
    lemma_joined_places(pool, front + attn, mlp);
    lemma_joined_places(pool, front, attn);
    lemma_counts(last);
    lemma_model_count(pool, types, last);
    let u = list_plan(pool, model_requests(types, n)).uploads;
    let f = list_plan(pool, front).uploads;
    if l < last {
        lemma_layer_place(pool, types, last, l);
        let at = layer_base(types, l) as int;
        let k = attn_count(types[l as int]);
        assert(u.subrange(at, at + k) =~= f.subrange(at, at + k));
        assert(u.subrange(at + k, at + k + 9) =~= f.subrange(at + k, at + k + 9));
    } else {
        let at = layer_base(types, l) as int;
        let k = attn_count(types[l as int]);
        assert(f.len() == at);
    }
}

/// Whether every weight of a layer is the tensor of its name.
pub open spec fn holds_layer(
    pool: &ShardPool,
    u: Seq<QwenUpload>,
    ptrs: Seq<u64>,
    ty: LayerAttnType,
    l: nat,
    w: Qwen35Layer,
) -> bool {
    &&& match w.attn {
        Qwen35LayerAttn::Full(a) => ty == LayerAttnType::Full && holds_full_attn(
            pool,
            u,
            ptrs,
            l,
            a,
        ),
        Qwen35LayerAttn::Linear(a) => ty != LayerAttnType::Full && holds_linear_attn(
            pool,
            u,
            ptrs,
            l,
            a,
        ),
    }
    &&& holds_mlp(pool, u, ptrs, l, w.mlp)
}

/// A loaded layer of a model holds, at every address, the tensor of the
/// checkpoint that its place names, in the form that it is used in.
#[verifier::spinoff_prover]
#[verifier::rlimit(40)]
pub proof fn law_layer_addresses(
    pool: &ShardPool,
    types: Seq<LayerAttnType>,
    ptrs: Seq<u64>,
    l: nat,
    w: Qwen35Layer,
)
    requires
        pool.wf(),
        pool_counts(pool),
        list_plan(pool, model_requests(types, types.len())).failure is None,
        l < types.len(),
        is_layer(w, pool, types[l as int], l, ptrs, layer_base(types, l) as int),
    ensures
        holds_layer(
            pool,
            list_plan(pool, model_requests(types, types.len())).uploads,
            ptrs,
            types[l as int],
            l,
            w,
        ),
{
    let u = list_plan(pool, model_requests(types, types.len())).uploads;
    let at = layer_base(types, l) as int;
    let k = attn_count(types[l as int]);
    lemma_layer_place(pool, types, types.len(), l);
    match w.attn {
        Qwen35LayerAttn::Full(a) => {
            law_full_attn_addresses(pool, u, ptrs, l, at, a);
        },
        Qwen35LayerAttn::Linear(a) => {
            law_linear_attn_addresses(pool, u, ptrs, l, at, a);
        },
    }
    law_mlp_addresses(pool, u, ptrs, l, at + k, w.mlp);
}

proof fn lemma_outside_place(pool: &ShardPool, types: Seq<LayerAttnType>, n: nat)
    requires
        list_plan(pool, model_requests(types, n)).failure is None,
    ensures
        ({
            let u = list_plan(pool, model_requests(types, n)).uploads;
            let a = list_plan(pool, outside_requests());
            &&& a.failure is None
            &&& a.uploads.len() == 5
            &&& u.len() >= 5
            &&& a.uploads =~= u.subrange(0, 5)
        }),
    decreases n,
{
    lemma_counts(0);
    if n == 0 {
        lemma_count(pool, outside_requests(), 4);
    } else {
        let last = (n - 1) as nat;
        let front = model_requests(types, last);
        let attn = attn_requests(types[last as int], last);
        let mlp = mlp_requests(last);
        assert(model_requests(types, n) == front + attn + mlp);
        lemma_joined_places(pool, front + attn, mlp);
        lemma_joined_places(pool, front, attn);
        lemma_outside_place(pool, types, last);
        let u = list_plan(pool, model_requests(types, n)).uploads;
        let f = list_plan(pool, front).uploads;
        assert(u.subrange(0, 5) =~= f.subrange(0, 5));
    }
}

/// What lies outside the layers: the embedding and the head as they are, the
/// final norm with one added, and the head once more, quantized, with its
/// scale.
#[verifier::spinoff_prover]
#[verifier::rlimit(40)]
pub proof fn law_outside_addresses(
    pool: &ShardPool,
    types: Seq<LayerAttnType>,
    ptrs: Seq<u64>,
    scale_bits: u32,
    clamp_ppm_bits: u32,
    w: Qwen35LoadedOutside,
)
    requires
        pool.wf(),
        pool_counts(pool),
        list_plan(pool, model_requests(types, types.len())).failure is None,
        is_outside(w, pool, ptrs, scale_bits, clamp_ppm_bits),
    ensures
        ({
            let u = list_plan(pool, model_requests(types, types.len())).uploads;
            let head = pool.found("lm_head.weight"@)->Some_0;
            &&& holds_half(
                pool,
                u,
                ptrs,
                w.embed_tokens,
                "model.language_model.embed_tokens.weight"@,
                false,
            )
            &&& holds_half(
                pool,
                u,
                ptrs,
                w.final_norm,
                "model.language_model.norm.weight"@,
                true,
            )
            &&& holds_half(pool, u, ptrs, w.lm_head, "lm_head.weight"@, false)
            &&& exists|i: int|
                0 <= i < u.len() && #[trigger] ptrs[i] == w.lm_head_fp8.offset_bytes && (
                u[i].source matches Source::QuantizedHead { shard, offset, bytes, .. } && shard
                    == head.0 && offset == head.1.file_offset && bytes == head.1.nbytes)
            &&& exists|i: int|
                0 <= i < u.len() && #[trigger] ptrs[i] == w.lm_head_fp8.scale_ptr && u[i].source
                    == Source::HeadScale
            &&& w.lm_head_fp8.shape@ == head.1.shape
            &&& w.lm_head_fp8.scale_bits == scale_bits
            &&& w.lm_head_fp8.clamp_ppm_bits == clamp_ppm_bits
            &&& w.lm_head_fp8.blockscale_ptr is None
            &&& w.embed_tokens_bytes as int / 2 == stored_count(
                pool,
                "model.language_model.embed_tokens.weight"@,
            )
            &&& w.final_norm_bytes as int / 2 == stored_count(
                pool,
                "model.language_model.norm.weight"@,
            )
            &&& w.lm_head_bytes as int / 2 == stored_count(pool, "lm_head.weight"@)
            &&& w.lm_head_fp8_bytes == stored_count(pool, "lm_head.weight"@)
        }),
{
    let u = list_plan(pool, model_requests(types, types.len())).uploads;
    let list = outside_requests();
    lemma_outside_place(pool, types, types.len());
    assert(upload_count(list, 0) == 0 && upload_count(list, 1) == 1 && upload_count(list, 2) == 2
        && upload_count(list, 3) == 3) by {
        reveal_with_fuel(upload_count, 4);
    }
    lemma_half_in(pool, list, u, ptrs, 0, 0, false, w.embed_tokens);
    lemma_half_in(pool, list, u, ptrs, 0, 1, true, w.final_norm);
    lemma_half_in(pool, list, u, ptrs, 0, 2, false, w.lm_head);
    lemma_in_longer(pool, list, u, 0, 3);
    lemma_in_longer(pool, list, u, 0, 2);
    lemma_in_longer(pool, list, u, 0, 1);
    lemma_in_longer(pool, list, u, 0, 0);
    let own = request_plan(pool, list[3]).uploads;
    let o = 0 + upload_count(list, 3) as int;
    assert(own[0] == u[o + 0] && own[1] == u[o + 1]);
    lemma_found(pool, "lm_head.weight"@);
    lemma_found(pool, "model.language_model.norm.weight"@);
    lemma_found(pool, "model.language_model.embed_tokens.weight"@);
    assert(ptrs[3] == w.lm_head_fp8.offset_bytes);
    assert(ptrs[4] == w.lm_head_fp8.scale_ptr);
    reveal(holds_half);
}

/// The name of a tensor of a block of the vision tower.
pub open spec fn of_block(l: nat, s: Seq<char>) -> Seq<char> {
    "model.visual.blocks."@ + decimal(l) + "."@ + s
}

/// Whether every weight of a block of the vision tower is the tensor of its
/// name.
#[verifier::opaque]
pub open spec fn holds_vision_block(
    pool: &ShardPool,
    u: Seq<QwenUpload>,
    ptrs: Seq<u64>,
    l: nat,
    w: Qwen36VisionBlock,
) -> bool {
    &&& holds_half(pool, u, ptrs, w.norm1_w, of_block(l, "norm1.weight"@), false)
    &&& holds_half(pool, u, ptrs, w.norm1_b, of_block(l, "norm1.bias"@), false)
    &&& holds_half(pool, u, ptrs, w.qkv_w, of_block(l, "attn.qkv.weight"@), false)
    &&& holds_half(pool, u, ptrs, w.qkv_b, of_block(l, "attn.qkv.bias"@), false)
    &&& holds_half(pool, u, ptrs, w.proj_w, of_block(l, "attn.proj.weight"@), false)
    &&& holds_half(pool, u, ptrs, w.proj_b, of_block(l, "attn.proj.bias"@), false)
    &&& holds_half(pool, u, ptrs, w.norm2_w, of_block(l, "norm2.weight"@), false)
    &&& holds_half(pool, u, ptrs, w.norm2_b, of_block(l, "norm2.bias"@), false)
    &&& holds_half(pool, u, ptrs, w.fc1_w, of_block(l, "mlp.linear_fc1.weight"@), false)
    &&& holds_half(pool, u, ptrs, w.fc1_b, of_block(l, "mlp.linear_fc1.bias"@), false)
    &&& holds_half(pool, u, ptrs, w.fc2_w, of_block(l, "mlp.linear_fc2.weight"@), false)
    &&& holds_half(pool, u, ptrs, w.fc2_b, of_block(l, "mlp.linear_fc2.bias"@), false)
}

/// Whether every weight of the merger is the tensor of its name.
#[verifier::opaque]
pub open spec fn holds_merger(
    pool: &ShardPool,
    u: Seq<QwenUpload>,
    ptrs: Seq<u64>,
    w: Qwen36PatchMerger,
) -> bool {
    let p = "model.visual.merger."@;
    &&& holds_half(pool, u, ptrs, w.norm_w, p + "norm.weight"@, false)
    &&& holds_half(pool, u, ptrs, w.norm_b, p + "norm.bias"@, false)
    &&& holds_half(pool, u, ptrs, w.fc1_w, p + "linear_fc1.weight"@, false)
    &&& holds_half(pool, u, ptrs, w.fc1_b, p + "linear_fc1.bias"@, false)
    &&& holds_half(pool, u, ptrs, w.fc2_w, p + "linear_fc2.weight"@, false)
    &&& holds_half(pool, u, ptrs, w.fc2_b, p + "linear_fc2.bias"@, false)
}

#[verifier::spinoff_prover]
#[verifier::rlimit(60)]
proof fn lemma_vision_block(
    pool: &ShardPool,
    u: Seq<QwenUpload>,
    ptrs: Seq<u64>,
    l: nat,
    at: int,
    w: Qwen36VisionBlock,
)
    requires
        pool.wf(),
        pool_counts(pool),
        list_plan(pool, vision_block_requests(l)).failure is None,
        0 <= at,
        at + list_plan(pool, vision_block_requests(l)).uploads.len() <= u.len(),
        list_plan(pool, vision_block_requests(l)).uploads == u.subrange(
            at,
            at + list_plan(pool, vision_block_requests(l)).uploads.len(),
        ),
        is_vision_block(w, pool, l, ptrs, at),
    ensures
        holds_vision_block(pool, u, ptrs, l, w),
{
    reveal(holds_vision_block);
    let list = vision_block_requests(l);
    assert(upload_count(list, 0) == 0 && upload_count(list, 1) == 1 && upload_count(list, 2) == 2
        && upload_count(list, 3) == 3 && upload_count(list, 4) == 4 && upload_count(list, 5) == 5
        && upload_count(list, 6) == 6 && upload_count(list, 7) == 7 && upload_count(list, 8) == 8
        && upload_count(list, 9) == 9 && upload_count(list, 10) == 10 && upload_count(list, 11)
        == 11) by {
        reveal_with_fuel(upload_count, 12);
    }
    lemma_half_in(pool, list, u, ptrs, at, 0, false, w.norm1_w);
    lemma_half_in(pool, list, u, ptrs, at, 1, false, w.norm1_b);
    lemma_half_in(pool, list, u, ptrs, at, 2, false, w.qkv_w);
    lemma_half_in(pool, list, u, ptrs, at, 3, false, w.qkv_b);
    lemma_half_in(pool, list, u, ptrs, at, 4, false, w.proj_w);
    lemma_half_in(pool, list, u, ptrs, at, 5, false, w.proj_b);
    lemma_half_in(pool, list, u, ptrs, at, 6, false, w.norm2_w);
    lemma_half_in(pool, list, u, ptrs, at, 7, false, w.norm2_b);
    lemma_half_in(pool, list, u, ptrs, at, 8, false, w.fc1_w);
    lemma_half_in(pool, list, u, ptrs, at, 9, false, w.fc1_b);
    lemma_half_in(pool, list, u, ptrs, at, 10, false, w.fc2_w);
    lemma_half_in(pool, list, u, ptrs, at, 11, false, w.fc2_b);
}

#[verifier::spinoff_prover]
#[verifier::rlimit(40)]
proof fn lemma_merger(
    pool: &ShardPool,
    u: Seq<QwenUpload>,
    ptrs: Seq<u64>,
    at: int,
    w: Qwen36PatchMerger,
)
    requires
        pool.wf(),
        pool_counts(pool),
        list_plan(pool, merger_requests()).failure is None,
        0 <= at,
        at + list_plan(pool, merger_requests()).uploads.len() <= u.len(),
        list_plan(pool, merger_requests()).uploads == u.subrange(
            at,
            at + list_plan(pool, merger_requests()).uploads.len(),
        ),
        is_merger(w, pool, ptrs, at),
    ensures
        holds_merger(pool, u, ptrs, w),
{
    reveal(holds_merger);
    let list = merger_requests();
    assert(upload_count(list, 0) == 0 && upload_count(list, 1) == 1 && upload_count(list, 2) == 2
        && upload_count(list, 3) == 3 && upload_count(list, 4) == 4 && upload_count(list, 5) == 5)
        by {
        reveal_with_fuel(upload_count, 6);
    }
    lemma_half_in(pool, list, u, ptrs, at, 0, false, w.norm_w);
    lemma_half_in(pool, list, u, ptrs, at, 1, false, w.norm_b);
    lemma_half_in(pool, list, u, ptrs, at, 2, false, w.fc1_w);
    lemma_half_in(pool, list, u, ptrs, at, 3, false, w.fc1_b);
    lemma_half_in(pool, list, u, ptrs, at, 4, false, w.fc2_w);
    lemma_half_in(pool, list, u, ptrs, at, 5, false, w.fc2_b);
}

/// The uploads of a block stand behind those of the blocks before it, and
/// those of what comes before the blocks stand first.
#[verifier::spinoff_prover]
#[verifier::rlimit(40)]
proof fn lemma_block_place(pool: &ShardPool, n: nat, l: nat)
    requires
        list_plan(pool, vision_requests_to(n)).failure is None,
        l <= n,
    ensures
        ({
            let u = list_plan(pool, vision_requests_to(n)).uploads;
            let e = list_plan(pool, vision_entry_requests());
            let b = list_plan(pool, vision_block_requests(l));
            &&& u.len() == 3 + 12 * n
            &&& e.failure is None
            &&& e.uploads.len() == 3
            &&& e.uploads =~= u.subrange(0, 3)
            &&& l < n ==> b.failure is None && b.uploads.len() == 12 && b.uploads =~= u.subrange(
                3 + 12 * (l as int),
                15 + 12 * (l as int),
            )
        }),
    decreases n,
{
    lemma_counts(l);
    lemma_vision_count(pool, n);
    lemma_count(pool, vision_requests_to(n), vision_requests_to(n).len());
    if n > 0 {
        let last = (n - 1) as nat;
        let front = vision_requests_to(last);
        let block = vision_block_requests(last);
        assert(vision_requests_to(n) == front + block);
        lemma_joined_places(pool, front, block);
        lemma_counts(last);
        let u = list_plan(pool, vision_requests_to(n)).uploads;
        let f = list_plan(pool, front).uploads;
        lemma_vision_count(pool, last);
        lemma_count(pool, front, front.len());
        lemma_block_place(
            pool,
            last,
            if l < last {
                l
            } else {
                last
            },
        );
        assert(u.subrange(0, 3) =~= f.subrange(0, 3));
        if l < last {
            let o = 12 * (l as int);
            assert(u.subrange(3 + o, 15 + o) =~= f.subrange(3 + o, 15 + o));
        }
    } else {
        lemma_count(pool, vision_entry_requests(), 5);
    }
}

/// A loaded vision tower holds, at every address, the tensor that its place
/// names, in half precision.
#[verifier::spinoff_prover]
#[verifier::rlimit(60)]
pub proof fn law_vision_addresses(pool: &ShardPool, ptrs: Seq<u64>, w: Qwen36Vision)
    requires
        pool.wf(),
        pool_counts(pool),
        list_plan(pool, vision_requests()).failure is None,
        is_vision(w, pool, ptrs),
    ensures
        ({
            let u = list_plan(pool, vision_requests()).uploads;
            &&& holds_half(
                pool,
                u,
                ptrs,
                w.patch_embed.proj_weight,
                "model.visual.patch_embed.proj.weight"@,
                false,
            )
            &&& holds_half(
                pool,
                u,
                ptrs,
                w.patch_embed.proj_bias,
                "model.visual.patch_embed.proj.bias"@,
                false,
            )
            &&& holds_half(pool, u, ptrs, w.pos_embed, "model.visual.pos_embed.weight"@, false)
            &&& w.blocks@.len() == 27
            &&& forall|i: int|
                0 <= i < 27 ==> holds_vision_block(
                    pool,
                    u,
                    ptrs,
                    i as nat,
                    #[trigger] w.blocks@[i],
                )
            &&& holds_merger(pool, u, ptrs, w.merger)
        }),
{
    let u = list_plan(pool, vision_requests()).uploads;
    let front = vision_requests_to(27);
    lemma_joined_places(pool, front, merger_requests());
    lemma_counts(0);
    let f = list_plan(pool, front).uploads;
    lemma_block_place(pool, 27, 27);
    lemma_merger(pool, u, ptrs, 327, w.merger);
    let list = vision_entry_requests();
    assert(list_plan(pool, list).uploads =~= u.subrange(0, 3));
    assert(upload_count(list, 2) == 0 && upload_count(list, 3) == 1 && upload_count(list, 4) == 2)
        by {
        reveal_with_fuel(upload_count, 5);
    }
    lemma_half_in(pool, list, u, ptrs, 0, 2, false, w.patch_embed.proj_weight);
    lemma_half_in(pool, list, u, ptrs, 0, 3, false, w.patch_embed.proj_bias);
    lemma_half_in(pool, list, u, ptrs, 0, 4, false, w.pos_embed);
    assert forall|i: int| 0 <= i < 27 implies holds_vision_block(
        pool,
        u,
        ptrs,
        i as nat,
        #[trigger] w.blocks@[i],
    ) by {
        lemma_block_place(pool, 27, i as nat);
        assert(u.subrange(3 + 12 * i, 15 + 12 * i) =~= f.subrange(3 + 12 * i, 15 + 12 * i));
        lemma_vision_block(pool, u, ptrs, i as nat, 3 + 12 * i, w.blocks@[i]);
    }
}

} // verus!
