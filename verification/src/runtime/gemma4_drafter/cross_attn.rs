//! The drafter's attention over the shadow cache, and its sparse head.

use crate::runtime::error::{drafter_err, RuntimeError};
use crate::runtime::gemma4_drafter::{DrafterShadowKv, Gemma4DrafterRuntime};
use crate::runtime::step::{
    completes, refuses, DecodeKernel, Dim3, HalfDecodeArgs, KernelCall, MaskedEmbedderArgs, OnFail,
    Program, ProgramView, Step,
};
use vstd::prelude::*;

verus! {

/// Most shared memory that a block can ask for.
pub const SM121_MAX_DYN_SMEM_BYTES: i32 = 98304;

/// Shared memory of the 16-bit decode: two tiles in 32 bits, a score for each
/// position of a tile and a slot for each of four warps.
pub open spec fn half_decode_shared(tile: int, head_dim: int) -> int {
    8 * tile * head_dim + 4 * tile + 16
}

/// One layer of the shadow cache.
#[derive(Clone, Copy, Debug)]
pub struct ShadowLayer {
    pub k: u64,
    pub v: u64,
    pub num_kv_heads: u32,
    pub head_dim: u32,
}

impl DrafterShadowKv {
    /// The sliding layer.
    pub open spec fn sliding_layer(&self) -> ShadowLayer {
        ShadowLayer {
            k: self.sliding_k_ptr,
            v: self.sliding_v_ptr,
            num_kv_heads: self.sliding_num_kv_heads,
            head_dim: self.sliding_head_dim,
        }
    }

    /// The global layer.
    pub open spec fn full_layer(&self) -> ShadowLayer {
        ShadowLayer {
            k: self.full_k_ptr,
            v: self.full_v_ptr,
            num_kv_heads: self.full_num_kv_heads,
            head_dim: self.full_head_dim,
        }
    }
}

/// The buffers of one attention of the drafter.
#[derive(Clone, Copy, Debug)]
pub struct CrossAttnBuffers {
    pub output: u64,
    pub query: u64,
    pub block_tables: u64,
    pub context_lens: u64,
    /// Bit pattern of a 32-bit number.
    pub scale_bits: u32,
}

/// The decode over one layer of the shadow cache, with its shared memory limit
/// raised where the default does not suffice.
pub open spec fn half_decode(
    shadow: &DrafterShadowKv,
    layer: ShadowLayer,
    b: CrossAttnBuffers,
    num_heads: i32,
    kernel: DecodeKernel,
    tile: int,
    window: i32,
    limit_label: &'static str,
    label: &'static str,
) -> Seq<Step> {
    let shared = half_decode_shared(tile, layer.head_dim as int) as u32;
    let launch = Step::Launch {
        call: KernelCall::HalfDecode {
            kernel,
            args: HalfDecodeArgs {
                output: b.output,
                query: b.query,
                key_cache: layer.k,
                value_cache: layer.v,
                block_tables: b.block_tables,
                context_lens: b.context_lens,
                scale_bits: b.scale_bits,
                num_heads,
                num_kv_heads: layer.num_kv_heads as i32,
                head_dim: layer.head_dim as i32,
                block_size: shadow.block_size as i32,
                max_blocks_per_seq: shadow.max_blocks_per_seq as i32,
                window_size_left: window,
            },
        },
        grid: Dim3::plane(1, num_heads as u32),
        block: Dim3::line(128),
        shared,
        on_fail: OnFail::Launch(label),
    };
    if shared >= 48 * 1024 {
        seq![
            Step::SharedLimit { kernel, bytes: shared, on_fail: OnFail::Launch(limit_label) },
            launch,
        ]
    } else {
        seq![launch]
    }
}

fn plan_half_decode(
    shadow: &DrafterShadowKv,
    layer: ShadowLayer,
    b: CrossAttnBuffers,
    num_heads: i32,
    kernel: DecodeKernel,
    tile: u32,
    window: i32,
    limit_label: &'static str,
    label: &'static str,
) -> (r: Vec<Step>)
    requires
        tile <= 32,
        half_decode_shared(32, layer.head_dim as int) <= i32::MAX,
    ensures
        r@ == half_decode(
            shadow,
            layer,
            b,
            num_heads,
            kernel,
            tile as int,
            window,
            limit_label,
            label,
        ),
{
    let hd: u32 = layer.head_dim;
    assert(8 * tile * hd <= 8 * 32 * hd) by (nonlinear_arith)
        requires
            tile <= 32,
    ;
    let shared: u32 = 8 * tile * hd + 4 * tile + 16;
    let launch = Step::Launch {
        call: KernelCall::HalfDecode {
            kernel,
            args: HalfDecodeArgs {
                output: b.output,
                query: b.query,
                key_cache: layer.k,
                value_cache: layer.v,
                block_tables: b.block_tables,
                context_lens: b.context_lens,
                scale_bits: b.scale_bits,
                num_heads,
                num_kv_heads: layer.num_kv_heads as i32,
                head_dim: layer.head_dim as i32,
                block_size: shadow.block_size as i32,
                max_blocks_per_seq: shadow.max_blocks_per_seq as i32,
                window_size_left: window,
            },
        },
        grid: Dim3::plane(1, num_heads as u32),
        block: Dim3::line(128),
        shared,
        on_fail: OnFail::Launch(label),
    };
    if shared >= 48 * 1024 {
        vec![
            Step::SharedLimit { kernel, bytes: shared, on_fail: OnFail::Launch(limit_label) },
            launch,
        ]
    } else {
        vec![launch]
    }
}

impl Gemma4DrafterRuntime {
    /// Attention over the global layer, without a window. Tiles of 16
    /// positions are preferred, since wide heads leave no room for more.
    pub open spec fn cross_attn_global(&self, b: CrossAttnBuffers) -> ProgramView {
        let hd_global = self.arch.head_dim_global as u32;
        match self.shadow_kv {
            None => refuses(
                drafter_err(
                    "launch_cross_attn_global: shadow_kv not attached",
                    "launch_cross_attn_global",
                    hd_global,
                ),
            ),
            Some(shadow) => {
                let bc16 = self.kernels.flash_attention_bc16;
                let tile: int = if bc16 {
                    16
                } else {
                    32
                };
                if !bc16 && !self.kernels.flash_attention {
                    refuses(
                        drafter_err(
                            "launch_cross_attn_global: neither BC=16 nor BC=32 f16io kernel attached",
                            "launch_cross_attn_global",
                            hd_global,
                        ),
                    )
                } else if half_decode_shared(tile, shadow.full_head_dim as int)
                    > SM121_MAX_DYN_SMEM_BYTES {
                    refuses(
                        drafter_err(
                            "launch_cross_attn_global: smem requirement exceeds the sm_121 ~100 KiB per-CTA cap even at BC=16; head_dim probably too large for the current kernel build",
                            "launch_cross_attn_global",
                            shadow.full_head_dim,
                        ),
                    )
                } else {
                    completes(
                        half_decode(
                            &shadow,
                            shadow.full_layer(),
                            b,
                            self.arch.num_attention_heads as i32,
                            if bc16 {
                                DecodeKernel::HalfBc16
                            } else {
                                DecodeKernel::Half
                            },
                            tile,
                            -1i32,
                            "launch_cross_attn_global: cuFuncSetAttribute",
                            "launch_cross_attn_global: flash_attention_2_decode_f16io",
                        ),
                    )
                }
            },
        }
    }

    /// Attention over the global layer of the shadow cache.
    pub fn launch_cross_attn_global(&self, b: CrossAttnBuffers) -> (r: Program)
        requires
            self.shadow_kv matches Some(s) ==> half_decode_shared(32, s.full_head_dim as int)
                <= i32::MAX,
        ensures
            r@ == self.cross_attn_global(b),
    {
        let hd_global: u32 = self.arch.head_dim_global as u32;
        let shadow = match &self.shadow_kv {
            Some(s) => s,
            None => {
                return Program::refuse(
                    drafter_err(
                        "launch_cross_attn_global: shadow_kv not attached",
                        "launch_cross_attn_global",
                        hd_global,
                    ),
                );
            },
        };
        let (kernel, tile): (DecodeKernel, u32) = if self.kernels.flash_attention_bc16 {
            (DecodeKernel::HalfBc16, 16)
        } else if self.kernels.flash_attention {
            (DecodeKernel::Half, 32)
        } else {
            return Program::refuse(
                drafter_err(
                    "launch_cross_attn_global: neither BC=16 nor BC=32 f16io kernel attached",
                    "launch_cross_attn_global",
                    hd_global,
                ),
            );
        };
        let hd: i32 = shadow.full_head_dim as i32;
        let bc: i32 = tile as i32;
        assert(8 * bc * hd <= 8 * 32 * hd && 8 * bc * hd >= 0) by (nonlinear_arith)
            requires
                0 <= bc <= 32,
                hd >= 0,
        ;
        let shared: i32 = 8 * bc * hd + 4 * bc + 16;
        if shared > SM121_MAX_DYN_SMEM_BYTES {
            return Program::refuse(
                drafter_err(
                    "launch_cross_attn_global: smem requirement exceeds the sm_121 ~100 KiB per-CTA cap even at BC=16; head_dim probably too large for the current kernel build",
                    "launch_cross_attn_global",
                    shadow.full_head_dim,
                ),
            );
        }
        let layer = ShadowLayer {
            k: shadow.full_k_ptr,
            v: shadow.full_v_ptr,
            num_kv_heads: shadow.full_num_kv_heads,
            head_dim: shadow.full_head_dim,
        };
        Program::complete(
            plan_half_decode(
                shadow,
                layer,
                b,
                self.arch.num_attention_heads as i32,
                kernel,
                tile,
                -1,
                "launch_cross_attn_global: cuFuncSetAttribute",
                "launch_cross_attn_global: flash_attention_2_decode_f16io",
            ),
        )
    }

    /// Attention over the sliding layer, within a window.
    pub open spec fn cross_attn_sliding(&self, b: CrossAttnBuffers, window: i32) -> ProgramView {
        let hd_sliding = self.arch.head_dim_sliding as u32;
        match self.shadow_kv {
            None => refuses(
                drafter_err(
                    "launch_cross_attn_sliding: shadow_kv not attached",
                    "launch_cross_attn_sliding",
                    hd_sliding,
                ),
            ),
            Some(shadow) => if !self.kernels.flash_attention {
                refuses(
                    drafter_err(
                        "launch_cross_attn_sliding: flash_attention_2_decode_f16io kernel not attached",
                        "launch_cross_attn_sliding",
                        hd_sliding,
                    ),
                )
            } else {
                completes(
                    half_decode(
                        &shadow,
                        shadow.sliding_layer(),
                        b,
                        self.arch.num_attention_heads as i32,
                        DecodeKernel::Half,
                        32,
                        window,
                        "launch_cross_attn_sliding: cuFuncSetAttribute",
                        "launch_cross_attn_sliding: flash_attention_2_decode_f16io",
                    ),
                )
            },
        }
    }

    /// Attention over the sliding layer of the shadow cache.
    pub fn launch_cross_attn_sliding(&self, b: CrossAttnBuffers, sliding_window: i32) -> (r: Program)
        requires
            self.shadow_kv matches Some(s) ==> half_decode_shared(32, s.sliding_head_dim as int)
                <= i32::MAX,
        ensures
            r@ == self.cross_attn_sliding(b, sliding_window),
    {
        let hd_sliding: u32 = self.arch.head_dim_sliding as u32;
        let shadow = match &self.shadow_kv {
            Some(s) => s,
            None => {
                return Program::refuse(
                    drafter_err(
                        "launch_cross_attn_sliding: shadow_kv not attached",
                        "launch_cross_attn_sliding",
                        hd_sliding,
                    ),
                );
            },
        };
        if !self.kernels.flash_attention {
            return Program::refuse(
                drafter_err(
                    "launch_cross_attn_sliding: flash_attention_2_decode_f16io kernel not attached",
                    "launch_cross_attn_sliding",
                    hd_sliding,
                ),
            );
        }
        let layer = ShadowLayer {
            k: shadow.sliding_k_ptr,
            v: shadow.sliding_v_ptr,
            num_kv_heads: shadow.sliding_num_kv_heads,
            head_dim: shadow.sliding_head_dim,
        };
        Program::complete(
            plan_half_decode(
                shadow,
                layer,
                b,
                self.arch.num_attention_heads as i32,
                DecodeKernel::Half,
                32,
                sliding_window,
                "launch_cross_attn_sliding: cuFuncSetAttribute",
                "launch_cross_attn_sliding: flash_attention_2_decode_f16io",
            ),
        )
    }
}

/// With tiles of 16 positions heads up to 767 wide fit the shared memory of a
/// block, with tiles of 32 only heads up to 383; none wider do.
pub proof fn law_tile_limits(head_dim: int)
    requires
        head_dim >= 0,
    ensures
        half_decode_shared(16, head_dim) <= SM121_MAX_DYN_SMEM_BYTES <==> head_dim <= 767,
        half_decode_shared(32, head_dim) <= SM121_MAX_DYN_SMEM_BYTES <==> head_dim <= 383,
{
    assert(8 * 16 * head_dim == 128 * head_dim) by (nonlinear_arith);
    assert(8 * 32 * head_dim == 256 * head_dim) by (nonlinear_arith);
}

/// Shared memory of the sparse head: the hidden state, a score for each
/// centroid and each selected one, and two slots for each of eight warps.
pub open spec fn masked_embedder_shared(a: MaskedEmbedderArgs) -> int {
    4 * a.hidden_size + 4 * a.n_centroids + 4 * a.top_k + 64
}

/// Whether every dimension of the sparse head is positive.
pub open spec fn masked_embedder_positive(a: MaskedEmbedderArgs) -> bool {
    a.hidden_size > 0 && a.n_centroids > 0 && a.top_k > 0 && a.per_centroid > 0 && a.vocab > 0
}

/// The largest logit among the candidates of the best centroids: one block of
/// 256 threads. Refused unless every dimension is positive.
pub fn launch_masked_embedder_argmax_f16(a: MaskedEmbedderArgs) -> (r: Result<Step, RuntimeError>)
    requires
        masked_embedder_positive(a) ==> masked_embedder_shared(a) <= u32::MAX,
    ensures
        r == (if masked_embedder_positive(a) {
            Ok(
                Step::Launch {
                    call: KernelCall::MaskedEmbedder(a),
                    grid: Dim3::line(1),
                    block: Dim3::line(256),
                    shared: masked_embedder_shared(a) as u32,
                    on_fail: OnFail::Launch("gemma4_masked_embedder_argmax_f16"),
                },
            )
        } else {
            Err(
                drafter_err(
                    "launch_masked_embedder_argmax_f16: non-positive dimension argument",
                    "launch_masked_embedder_argmax_f16",
                    if a.hidden_size > 0 {
                        a.hidden_size as u32
                    } else {
                        0
                    },
                ),
            )
        }),
{
    if a.hidden_size <= 0 || a.n_centroids <= 0 || a.top_k <= 0 || a.per_centroid <= 0 || a.vocab
        <= 0 {
        let head_dim: u32 = if a.hidden_size > 0 {
            a.hidden_size as u32
        } else {
            0
        };
        return Err(
            drafter_err(
                "launch_masked_embedder_argmax_f16: non-positive dimension argument",
                "launch_masked_embedder_argmax_f16",
                head_dim,
            ),
        );
    }
    let shared: u32 = a.hidden_size as u32 * 4 + a.n_centroids as u32 * 4 + a.top_k as u32 * 4
        + 64;
    Ok(
        Step::Launch {
            call: KernelCall::MaskedEmbedder(a),
            grid: Dim3::line(1),
            block: Dim3::line(256),
            shared,
            on_fail: OnFail::Launch("gemma4_masked_embedder_argmax_f16"),
        },
    )
}

} // verus!
