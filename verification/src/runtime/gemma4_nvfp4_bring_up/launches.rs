//! Single launches of the forward path.

use crate::runtime::error::{corrupt_runtime_err, Arg, Reason, RuntimeError};
use crate::runtime::gemma4_nvfp4_bring_up::kv_state::Gemma4Nvfp4KvState;
use crate::runtime::step::{
    blocks_256, Buf, DecodeArgs, DecodeKernel, Dim3, KernelCall, OnFail, RopeKvWriteArgs, Step,
};
use vstd::prelude::*;

verus! {

/// The bit pattern of `1.0` in 32 bits.
pub const UNIT_SCALE_BITS: u32 = 0x3f80_0000;

/// Appends steps to a list.
pub fn extend(steps: Vec<Step>, more: Vec<Step>) -> (r: Vec<Step>)
    ensures
        r@ == steps@ + more@,
{
    let mut r = steps;
    let mut rest = more;
    r.append(&mut rest);
    r
}

/// Fills positions, slots and context lengths of `num_tokens` tokens.
pub open spec fn fill_spec(
    kv: &Gemma4Nvfp4KvState,
    position_offset: i32,
    start_slot: i32,
    num_tokens: i32,
) -> Result<Step, RuntimeError> {
    if num_tokens as u32 > kv.max_query_tokens {
        Err(
            corrupt_runtime_err(
                Reason::two(
                    "fill_pos_slots: num_tokens=",
                    Arg::I(num_tokens),
                    " > kv.max_query_tokens=",
                    Arg::U(kv.max_query_tokens as u64),
                    "",
                ),
            ),
        )
    } else if num_tokens <= 0 {
        Err(
            corrupt_runtime_err(
                Reason::one("fill_pos_slots: num_tokens=", Arg::I(num_tokens), " must be > 0"),
            ),
        )
    } else {
        Ok(
            Step::Launch {
                call: KernelCall::FillPosSlots {
                    positions: kv.positions_ptr,
                    slot_mapping: kv.slot_mapping_ptr,
                    context_lens: kv.context_lens_ptr,
                    position_offset,
                    start_slot,
                    num_tokens,
                },
                grid: Dim3::line(blocks_256(num_tokens as u32)),
                block: Dim3::line(256),
                shared: 0,
                on_fail: OnFail::Launcher,
            },
        )
    }
}

/// Fills positions, slots and context lengths of `num_tokens` tokens; refused
/// where the buffers have no room for them or there are none.
pub fn fill_pos_slots(
    kv: &Gemma4Nvfp4KvState,
    position_offset: i32,
    start_slot: i32,
    num_tokens: i32,
) -> (r: Result<Step, RuntimeError>)
    ensures
        r == fill_spec(kv, position_offset, start_slot, num_tokens),
{
    if num_tokens as u32 > kv.max_query_tokens {
        return Err(
            corrupt_runtime_err(
                Reason::two(
                    "fill_pos_slots: num_tokens=",
                    Arg::I(num_tokens),
                    " > kv.max_query_tokens=",
                    Arg::U(kv.max_query_tokens as u64),
                    "",
                ),
            ),
        );
    }
    if num_tokens <= 0 {
        return Err(
            corrupt_runtime_err(
                Reason::one("fill_pos_slots: num_tokens=", Arg::I(num_tokens), " must be > 0"),
            ),
        );
    }
    Ok(
        Step::Launch {
            call: KernelCall::FillPosSlots {
                positions: kv.positions_ptr,
                slot_mapping: kv.slot_mapping_ptr,
                context_lens: kv.context_lens_ptr,
                position_offset,
                start_slot,
                num_tokens,
            },
            grid: Dim3::line(blocks_256(num_tokens as u32)),
            block: Dim3::line(256),
            shared: 0,
            on_fail: OnFail::Launcher,
        },
    )
}

/// An element-wise launch of blocks of 256 threads; nothing for no elements.
pub open spec fn elementwise(call: KernelCall, n: u32) -> Seq<Step> {
    if n == 0 {
        Seq::empty()
    } else {
        seq![
            Step::Launch {
                call,
                grid: Dim3::line(blocks_256(n)),
                block: Dim3::line(256),
                shared: 0,
                on_fail: OnFail::Launcher,
            },
        ]
    }
}

fn launch_elementwise(call: KernelCall, n: u32) -> (r: Vec<Step>)
    requires
        n <= 0xffff_ff00,
    ensures
        r@ == elementwise(call, n),
{
    if n == 0 {
        let r: Vec<Step> = Vec::new();
        assert(r@ =~= Seq::<Step>::empty());
        return r;
    }
    let step = Step::Launch {
        call,
        grid: Dim3::line(blocks_256(n)),
        block: Dim3::line(256),
        shared: 0,
        on_fail: OnFail::Launcher,
    };
    let r: Vec<Step> = vec![step];
    assert(r@ =~= seq![step]);
    r
}

/// Narrows 32-bit numbers to bf16.
pub open spec fn narrow_spec(dst: Buf, src: Buf, n: u32) -> Seq<Step> {
    elementwise(KernelCall::F32ToBf16 { dst, src, n: n as i32 }, n)
}

/// Narrows 32-bit numbers to bf16.
pub fn launch_f32_to_bf16(dst: Buf, src: Buf, n: u32) -> (r: Vec<Step>)
    requires
        n <= 0xffff_ff00,
    ensures
        r@ == narrow_spec(dst, src, n),
{
    launch_elementwise(KernelCall::F32ToBf16 { dst, src, n: n as i32 }, n)
}

/// Narrows 32-bit numbers to half precision.
pub open spec fn cast_spec(dst: Buf, src: Buf, n: u32) -> Seq<Step> {
    elementwise(KernelCall::CastF32ToF16 { dst, src, n: n as i32 }, n)
}

/// Narrows 32-bit numbers to half precision.
pub fn launch_cast_f32_to_f16(dst: Buf, src: Buf, n: u32) -> (r: Vec<Step>)
    requires
        n <= 0xffff_ff00,
    ensures
        r@ == cast_spec(dst, src, n),
{
    launch_elementwise(KernelCall::CastF32ToF16 { dst, src, n: n as i32 }, n)
}

/// `dst[i] += alpha * src[i]`.
pub open spec fn scaled_add_spec(dst: Buf, src: Buf, alpha: u64, n: u32) -> Seq<Step> {
    elementwise(KernelCall::ScaledAddBf16 { dst, src, alpha, n: n as i32 }, n)
}

/// `dst[i] += alpha * src[i]`.
pub fn launch_scaled_add_bf16(dst: Buf, src: Buf, alpha: u64, n: u32) -> (r: Vec<Step>)
    requires
        n <= 0xffff_ff00,
    ensures
        r@ == scaled_add_spec(dst, src, alpha, n),
{
    launch_elementwise(KernelCall::ScaledAddBf16 { dst, src, alpha, n: n as i32 }, n)
}

/// Normalizes values row by row, without weights: a block for each row, a
/// thread for each element up to 1024.
pub open spec fn vnorm_spec(v: Buf, rows: u32, head_dim: u32, eps_bits: u32) -> Step {
    Step::Launch {
        call: KernelCall::VNormBf16 { v, eps_bits, head_dim: head_dim as i32 },
        grid: Dim3::line(rows),
        block: Dim3::line(
            if head_dim < 1024 {
                head_dim
            } else {
                1024
            },
        ),
        shared: 0,
        on_fail: OnFail::Launcher,
    }
}

/// Normalizes values row by row, without weights.
#[verifier::when_used_as_spec(vnorm_spec)]
pub fn launch_vnorm_bf16(v: Buf, rows: u32, head_dim: u32, eps_bits: u32) -> (r: Step)
    ensures
        r == vnorm_spec(v, rows, head_dim, eps_bits),
{
    let threads: u32 = if head_dim < 1024 {
        head_dim
    } else {
        1024
    };
    Step::Launch {
        call: KernelCall::VNormBf16 { v, eps_bits, head_dim: head_dim as i32 },
        grid: Dim3::line(rows),
        block: Dim3::line(threads),
        shared: 0,
        on_fail: OnFail::Launcher,
    }
}

/// Finds the largest of `vocab` logits: one block, with a thread for each logit
/// up to 1024.
pub open spec fn argmax_spec(logits: Buf, out: Buf, vocab: i32) -> Step {
    Step::Launch {
        call: KernelCall::ArgmaxF32 { logits, out, vocab },
        grid: Dim3::line(1),
        block: Dim3::line(
            if 0 <= vocab < 1024 {
                vocab as u32
            } else {
                1024
            },
        ),
        shared: 0,
        on_fail: OnFail::Launcher,
    }
}

/// Finds the largest of `vocab` logits.
#[verifier::when_used_as_spec(argmax_spec)]
pub fn launch_argmax(logits: Buf, out: Buf, vocab: i32) -> (r: Step)
    ensures
        r == argmax_spec(logits, out, vocab),
{
    let threads: u32 = if 0 <= vocab && vocab < 1024 {
        vocab as u32
    } else {
        1024
    };
    Step::Launch {
        call: KernelCall::ArgmaxF32 { logits, out, vocab },
        grid: Dim3::line(1),
        block: Dim3::line(threads),
        shared: 0,
        on_fail: OnFail::Launcher,
    }
}

/// Heads, rotation and policies of one layer's attention.
#[derive(Clone, Copy, Debug)]
pub struct HeadPlan {
    pub num_q_heads: usize,
    pub num_kv_heads: usize,
    pub head_dim: usize,
    pub rotary_dim: usize,
    pub window_size_left: i32,
    pub cos: u64,
    pub sin: u64,
}

/// Rotates queries and keys and writes keys and values of `tokens` tokens
/// into the cache of a layer; queries come out in FP8.
pub open spec fn rope_write_spec(
    h: HeadPlan,
    kv: &Gemma4Nvfp4KvState,
    layer: int,
    tokens: u32,
    q: Buf,
    k: Buf,
    v: Buf,
    q_fp8: Buf,
    policies: (i32, i32),
) -> Step {
    Step::Launch {
        call: KernelCall::RopeKvWrite(
            RopeKvWriteArgs {
                q_in: q,
                k_in: k,
                v_in: v,
                q_out: q_fp8,
                k_packed: kv.k_packed_layer_ptrs@[layer],
                v_packed: kv.v_packed_layer_ptrs@[layer],
                k_scale: kv.k_scale_layer_ptrs@[layer],
                v_scale: kv.v_scale_layer_ptrs@[layer],
                cos: h.cos,
                sin: h.sin,
                positions: kv.positions_ptr,
                slot_mapping: kv.slot_mapping_ptr,
                q_scale: kv.q_scale_ptr,
                q_scale_cache: 0,
                num_tokens: tokens as i32,
                num_heads: h.num_q_heads as i32,
                num_kv_heads: h.num_kv_heads as i32,
                head_dim: h.head_dim as i32,
                rotary_dim: h.rotary_dim as i32,
                k_policy: policies.0,
                v_policy: policies.1,
                hadamard_q: 0,
                hadamard_k: 0,
                rotate_v: 0,
                debug_k: 0,
                debug_v: 0,
                stochastic_v: 0,
            },
        ),
        grid: Dim3::plane(
            tokens,
            if h.num_q_heads >= h.num_kv_heads {
                h.num_q_heads as u32
            } else {
                h.num_kv_heads as u32
            },
        ),
        block: Dim3::line(h.head_dim as u32),
        shared: 0,
        on_fail: OnFail::Launcher,
    }
}

/// Rotates queries and keys and writes keys and values into the cache.
pub fn launch_rope_write(
    h: HeadPlan,
    kv: &Gemma4Nvfp4KvState,
    layer: usize,
    tokens: u32,
    q: Buf,
    k: Buf,
    v: Buf,
    q_fp8: Buf,
    policies: (i32, i32),
) -> (r: Step)
    requires
        layer < kv.k_packed_layer_ptrs@.len(),
        layer < kv.v_packed_layer_ptrs@.len(),
        layer < kv.k_scale_layer_ptrs@.len(),
        layer < kv.v_scale_layer_ptrs@.len(),
    ensures
        r == rope_write_spec(h, kv, layer as int, tokens, q, k, v, q_fp8, policies),
{
    let max_heads: u32 = if h.num_q_heads >= h.num_kv_heads {
        h.num_q_heads as u32
    } else {
        h.num_kv_heads as u32
    };
    Step::Launch {
        call: KernelCall::RopeKvWrite(
            RopeKvWriteArgs {
                q_in: q,
                k_in: k,
                v_in: v,
                q_out: q_fp8,
                k_packed: kv.k_packed_layer_ptrs[layer],
                v_packed: kv.v_packed_layer_ptrs[layer],
                k_scale: kv.k_scale_layer_ptrs[layer],
                v_scale: kv.v_scale_layer_ptrs[layer],
                cos: h.cos,
                sin: h.sin,
                positions: kv.positions_ptr,
                slot_mapping: kv.slot_mapping_ptr,
                q_scale: kv.q_scale_ptr,
                q_scale_cache: 0,
                num_tokens: tokens as i32,
                num_heads: h.num_q_heads as i32,
                num_kv_heads: h.num_kv_heads as i32,
                head_dim: h.head_dim as i32,
                rotary_dim: h.rotary_dim as i32,
                k_policy: policies.0,
                v_policy: policies.1,
                hadamard_q: 0,
                hadamard_k: 0,
                rotate_v: 0,
                debug_k: 0,
                debug_v: 0,
                stochastic_v: 0,
            },
        ),
        grid: Dim3::plane(tokens, max_heads),
        block: Dim3::line(h.head_dim as u32),
        shared: 0,
        on_fail: OnFail::Launcher,
    }
}

/// Shared memory of the decode: two tiles of 32 positions in 16 bits, scores
/// in 32 bits for up to four queries a head where they share a block, and a
/// slot for each of four warps.
pub open spec fn decode_shared(head_dim: nat, gqa: bool) -> nat {
    if gqa {
        128 * head_dim + 528
    } else {
        128 * head_dim + 144
    }
}

/// The decode of one query token over a layer's cache.
pub open spec fn decode_launch(
    h: HeadPlan,
    kv: &Gemma4Nvfp4KvState,
    layer: int,
    output: Buf,
    query: Buf,
    gqa: bool,
) -> Step {
    Step::Launch {
        call: KernelCall::Decode {
            kernel: if gqa {
                DecodeKernel::Nvfp4Gqa
            } else {
                DecodeKernel::Nvfp4
            },
            args: DecodeArgs {
                output,
                query,
                k_packed: kv.k_packed_layer_ptrs@[layer],
                v_packed: kv.v_packed_layer_ptrs@[layer],
                k_scale: kv.k_scale_layer_ptrs@[layer],
                v_scale: kv.v_scale_layer_ptrs@[layer],
                q_scale_cache: 0,
                block_tables: kv.block_tables_ptr,
                context_lens: kv.context_lens_ptr,
                q_descale: kv.q_scale_ptr,
                scale_bits: UNIT_SCALE_BITS,
                num_heads: h.num_q_heads as i32,
                num_kv_heads: h.num_kv_heads as i32,
                head_dim: h.head_dim as i32,
                block_size: kv.block_size as i32,
                max_blocks_per_seq: kv.max_pos as i32,
                window_size_left: h.window_size_left,
            },
        },
        grid: Dim3::plane(
            1,
            if gqa {
                h.num_kv_heads as u32
            } else {
                h.num_q_heads as u32
            },
        ),
        block: Dim3::line(128),
        shared: decode_shared(h.head_dim as nat, gqa) as u32,
        on_fail: OnFail::Launcher,
    }
}

/// The decode of one query token over a layer's cache, where up to four
/// queries of a head share a block; the shared memory limit is raised first
/// where the default does not suffice.
pub open spec fn decode_spec(
    h: HeadPlan,
    kv: &Gemma4Nvfp4KvState,
    layer: int,
    output: Buf,
    query: Buf,
    limit_label: &'static str,
) -> Seq<Step> {
    let gqa = h.num_q_heads / h.num_kv_heads <= 4;
    let shared = decode_shared(h.head_dim as nat, gqa) as u32;
    let launch = decode_launch(h, kv, layer, output, query, gqa);
    if shared >= 48 * 1024 {
        seq![
            Step::SharedLimit {
                kernel: if gqa {
                    DecodeKernel::Nvfp4Gqa
                } else {
                    DecodeKernel::Nvfp4
                },
                bytes: shared,
                on_fail: OnFail::Launch(limit_label),
            },
            launch,
        ]
    } else {
        seq![launch]
    }
}

/// The launch of the decode of one query token.
pub fn plan_decode_launch(
    h: HeadPlan,
    kv: &Gemma4Nvfp4KvState,
    layer: usize,
    output: Buf,
    query: Buf,
    gqa: bool,
) -> (r: Step)
    requires
        layer < kv.k_packed_layer_ptrs@.len(),
        layer < kv.v_packed_layer_ptrs@.len(),
        layer < kv.k_scale_layer_ptrs@.len(),
        layer < kv.v_scale_layer_ptrs@.len(),
        decode_shared(h.head_dim as nat, true) <= u32::MAX,
    ensures
        r == decode_launch(h, kv, layer as int, output, query, gqa),
{
    let kernel = if gqa {
        DecodeKernel::Nvfp4Gqa
    } else {
        DecodeKernel::Nvfp4
    };
    let grid_y: u32 = if gqa {
        h.num_kv_heads as u32
    } else {
        h.num_q_heads as u32
    };
    let shared: u32 = decode_shared_bytes(h.head_dim, gqa);
    Step::Launch {
        call: KernelCall::Decode {
            kernel,
            args: DecodeArgs {
                output,
                query,
                k_packed: kv.k_packed_layer_ptrs[layer],
                v_packed: kv.v_packed_layer_ptrs[layer],
                k_scale: kv.k_scale_layer_ptrs[layer],
                v_scale: kv.v_scale_layer_ptrs[layer],
                q_scale_cache: 0,
                block_tables: kv.block_tables_ptr,
                context_lens: kv.context_lens_ptr,
                q_descale: kv.q_scale_ptr,
                scale_bits: UNIT_SCALE_BITS,
                num_heads: h.num_q_heads as i32,
                num_kv_heads: h.num_kv_heads as i32,
                head_dim: h.head_dim as i32,
                block_size: kv.block_size as i32,
                max_blocks_per_seq: kv.max_pos as i32,
                window_size_left: h.window_size_left,
            },
        },
        grid: Dim3::plane(1, grid_y),
        block: Dim3::line(128),
        shared,
        on_fail: OnFail::Launcher,
    }
}

/// Shared memory of the decode.
pub fn decode_shared_bytes(head_dim: usize, gqa: bool) -> (r: u32)
    requires
        decode_shared(head_dim as nat, true) <= u32::MAX,
    ensures
        r == decode_shared(head_dim as nat, gqa),
{
    let tiles: u32 = 128 * (head_dim as u32);
    if gqa {
        tiles + 528
    } else {
        tiles + 144
    }
}

/// The decode of one query token over a layer's cache.
pub fn plan_decode(
    h: HeadPlan,
    kv: &Gemma4Nvfp4KvState,
    layer: usize,
    output: Buf,
    query: Buf,
    limit_label: &'static str,
) -> (r: Vec<Step>)
    requires
        layer < kv.k_packed_layer_ptrs@.len(),
        layer < kv.v_packed_layer_ptrs@.len(),
        layer < kv.k_scale_layer_ptrs@.len(),
        layer < kv.v_scale_layer_ptrs@.len(),
        h.num_kv_heads > 0,
        decode_shared(h.head_dim as nat, true) <= u32::MAX,
    ensures
        r@ == decode_spec(h, kv, layer as int, output, query, limit_label),
{
    let gqa = h.num_q_heads / h.num_kv_heads <= 4;
    let shared: u32 = decode_shared_bytes(h.head_dim, gqa);
    let launch = plan_decode_launch(h, kv, layer, output, query, gqa);
    if shared >= 48 * 1024 {
        let kernel = if gqa {
            DecodeKernel::Nvfp4Gqa
        } else {
            DecodeKernel::Nvfp4
        };
        let limit = Step::SharedLimit {
            kernel,
            bytes: shared,
            on_fail: OnFail::Launch(limit_label),
        };
        let r: Vec<Step> = vec![limit, launch];
        assert(r@ =~= seq![limit, launch]);
        r
    } else {
        let r: Vec<Step> = vec![launch];
        assert(r@ =~= seq![launch]);
        r
    }
}

} // verus!
