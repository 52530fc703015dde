//! The drafter beside the base model: its forward step, its shadow cache and
//! the buffers that both share.

use crate::formats::{single_of_units, single_units};
use crate::limits::{product, within};
use crate::loader::gemma4_drafter::{DrafterLayerType, Gemma4DrafterArch};
use crate::runtime::error::{corrupt_runtime_err, Arg, Reason, RuntimeError};
use crate::runtime::gemma4_drafter::cross_attn::{half_decode_shared, CrossAttnBuffers};
use crate::runtime::gemma4_drafter::shadow::{Slots, SourceLayer};
use crate::runtime::gemma4_drafter::workspace::DrafterStepWorkspace;
use crate::runtime::gemma4_drafter::{
    BaseKvSource, DrafterBaseKvView, DrafterKernels, DrafterShadowKv, Gemma4DrafterLayerPtrs,
    Gemma4DrafterRuntime, KvDtype,
};
use crate::runtime::gemma4_nvfp4_bring_up::drivers::programs;
use crate::runtime::gemma4_nvfp4_bring_up::kv_state::{
    allocation, cache_fits, Gemma4Nvfp4KvState,
};
use crate::runtime::gemma4_nvfp4_bring_up::launches::{
    cast_spec, extend, launch_argmax, launch_cast_f32_to_f16, UNIT_SCALE_BITS,
};
use crate::runtime::gemma4_nvfp4_bring_up::model::Gemma4Nvfp4Bringup;
use crate::runtime::step::{
    blocks_256, completes, fails, refuses, Buf, Dim3, Format16, KernelCall, OnFail, Program,
    ProgramView, RopePartialArgs, Step,
};
use vstd::arithmetic::overflow::CheckedU128;
use vstd::prelude::*;

verus! {

/// Normalizes half-precision rows in place.
pub open spec fn rms_half_spec(rows: u32, width: u32, eps_bits: u32, data: Buf, gamma: u64) -> Step {
    Step::RmsNorm { format: Format16::F16Format, rows, width, eps_bits, data, gamma }
}

/// Normalizes half-precision rows in place.
#[verifier::when_used_as_spec(rms_half_spec)]
pub fn rms_half(rows: u32, width: u32, eps_bits: u32, data: Buf, gamma: u64) -> (r: Step)
    ensures
        r == rms_half_spec(rows, width, eps_bits, data, gamma),
{
    Step::RmsNorm { format: Format16::F16Format, rows, width, eps_bits, data, gamma }
}

/// A half-precision projection of one row.
pub open spec fn half_gemm_spec(act: Buf, weight: u64, out: Buf, n: i32, k: i32) -> Step {
    Step::Gemm { format: Format16::F16Format, act, weight, out, m: 1, n, k }
}

/// A half-precision projection of one row.
#[verifier::when_used_as_spec(half_gemm_spec)]
pub fn half_gemm(act: Buf, weight: u64, out: Buf, n: i32, k: i32) -> (r: Step)
    ensures
        r == half_gemm_spec(act, weight, out, n, k),
{
    Step::Gemm { format: Format16::F16Format, act, weight, out, m: 1, n, k }
}

/// Blocks of 256 threads for `n` elements, one at least.
pub open spec fn some_blocks_spec(n: u32) -> u32 {
    if n == 0 {
        1
    } else {
        blocks_256(n)
    }
}

/// Blocks of 256 threads for `n` elements, one at least.
#[verifier::when_used_as_spec(some_blocks_spec)]
pub fn some_blocks(n: u32) -> (r: u32)
    requires
        n <= 0xffff_ff00,
    ensures
        r == some_blocks_spec(n),
{
    if n == 0 {
        1
    } else {
        blocks_256(n)
    }
}

/// A half-precision kernel over `n` elements.
pub open spec fn half_launch_spec(call: KernelCall, n: u32, label: &'static str) -> Step {
    Step::Launch {
        call,
        grid: Dim3::line(some_blocks(n)),
        block: Dim3::line(256),
        shared: 0,
        on_fail: OnFail::Launch(label),
    }
}

/// A half-precision kernel over `n` elements.
#[verifier::when_used_as_spec(half_launch_spec)]
pub fn half_launch(call: KernelCall, n: u32, label: &'static str) -> (r: Step)
    requires
        n <= 0xffff_ff00,
    ensures
        r == half_launch_spec(call, n, label),
{
    Step::Launch {
        call,
        grid: Dim3::line(some_blocks(n)),
        block: Dim3::line(256),
        shared: 0,
        on_fail: OnFail::Launch(label),
    }
}

/// The rotated part of a head: all of it in a sliding layer, a quarter of its
/// width as a 32-bit number in a global one.
pub open spec fn drafter_rotary(layer_type: DrafterLayerType, head_dim: usize) -> i32 {
    if layer_type == DrafterLayerType::Full {
        (single_units(head_dim as nat) / 4) as i32
    } else {
        head_dim as i32
    }
}

fn plan_rotary(layer_type: DrafterLayerType, head_dim: usize) -> (r: i32)
    requires
        head_dim <= 0x7fff_ffff,
    ensures
        r == drafter_rotary(layer_type, head_dim),
{
    match layer_type {
        DrafterLayerType::Full => {
            let w: u64 = single_of_units(head_dim as u64);
            (w / 4) as i32
        },
        DrafterLayerType::Sliding => head_dim as i32,
    }
}

/// Heads of up to 2^24 elements rotate exactly a quarter of their width in a
/// global layer.
pub proof fn law_quarter_rotation(head_dim: usize)
    requires
        head_dim < 0x100_0000,
    ensures
        drafter_rotary(DrafterLayerType::Full, head_dim) == head_dim / 4,
        drafter_rotary(DrafterLayerType::Sliding, head_dim) == head_dim,
{
    vstd::arithmetic::power2::lemma2_to64();
    assert(crate::formats::grid_step(head_dim as nat, 24) == 0);
    crate::formats::lemma_rne_exact(head_dim as nat, 1);
}

impl Gemma4DrafterRuntime {
    /// Dimensions that 32-bit kernel arguments and region sizes can hold.
    pub open spec fn fits(&self) -> bool {
        &&& self.arch.hidden_size <= 0x7fff_ffff
        &&& 2 * self.arch.hidden_size <= usize::MAX
        &&& self.arch.intermediate_size <= 0x7fff_ffff
        &&& 4 * self.arch.intermediate_size <= usize::MAX
        &&& self.arch.num_attention_heads <= 0x7fff_ffff
        &&& self.arch.backbone_hidden_size <= 0x7fff_ffff
        &&& self.shadow_kv matches Some(s) ==> {
            &&& half_decode_shared(32, s.full_head_dim as int) <= i32::MAX
            &&& half_decode_shared(32, s.sliding_head_dim as int) <= i32::MAX
        }
        &&& forall|i: int| 0 <= i < self.layers@.len() ==> #[trigger] self.layer_fits(i)
    }

    /// The same of one layer.
    pub open spec fn layer_fits(&self, i: int) -> bool {
        &&& self.layers@[i].effective_head_dim <= 0x7fff_ffff
        &&& self.rows(i) <= 0x7fff_ffff
    }

    /// Rows of a layer's query projection.
    pub open spec fn rows(&self, i: int) -> int {
        self.arch.num_attention_heads * self.layers@[i].effective_head_dim
    }

    /// Whether 32-bit kernel arguments and region sizes can hold the
    /// dimensions.
    pub fn check_fits(&self) -> (r: bool)
        ensures
            r == self.fits(),
    {
        let a = &self.arch;
        let most: u128 = usize::MAX as u128;
        if a.hidden_size > 0x7fff_ffff || 2 * (a.hidden_size as u128) > most || a.intermediate_size
            > 0x7fff_ffff || 4 * (a.intermediate_size as u128) > most || a.num_attention_heads
            > 0x7fff_ffff || a.backbone_hidden_size > 0x7fff_ffff {
            return false;
        }
        if let Some(s) = &self.shadow_kv {
            if 256 * (s.full_head_dim as u64) + 144 > 0x7fff_ffff || 256 * (
            s.sliding_head_dim as u64) + 144 > 0x7fff_ffff {
                return false;
            }
        }
        let n: usize = self.layers.len();
        let mut i: usize = 0;
        while i < n
            invariant
                n == self.layers@.len(),
                i <= n,
                forall|j: int| 0 <= j < i ==> #[trigger] self.layer_fits(j),
            decreases n - i,
        {
            let width: usize = self.layers[i].effective_head_dim;
            let rows = product(self.arch.num_attention_heads as u128, width as u128);
            assert(rows@ == self.rows(i as int));
            if width > 0x7fff_ffff || !within(&rows, 0x7fff_ffff) {
                assert(!self.layer_fits(i as int));
                return false;
            }
            i = i + 1;
        }
        true
    }

    fn plan_rows(&self, i: usize) -> (r: usize)
        requires
            self.fits(),
            i < self.layers@.len(),
        ensures
            r == self.rows(i as int),
            r <= 0x7fff_ffff,
    {
        assert(self.layer_fits(i as int));
        self.arch.num_attention_heads * self.layers[i].effective_head_dim
    }
}

impl Gemma4Nvfp4Bringup {
    /// The first projection of a step.
    pub open spec fn drafter_pre_projection(
        &self,
        drafter: &Gemma4DrafterRuntime,
        w: &DrafterStepWorkspace,
    ) -> ProgramView {
        let hidden = drafter.arch.hidden_size;
        if w.pre_projection_in == 0 || w.gemm_f32 == 0 || w.hidden == 0 {
            refuses(
                corrupt_runtime_err(
                    Reason::plain(
                        "forward_drafter_pre_projection: workspace has null device pointers — caller must call drafter.alloc_step_workspace(arena) first",
                    ),
                ),
            )
        } else if drafter.top.pre_projection == 0 {
            refuses(
                corrupt_runtime_err(
                    Reason::plain(
                        "forward_drafter_pre_projection: drafter pre_projection weight is null",
                    ),
                ),
            )
        } else {
            completes(
                seq![
                    half_gemm(
                        Buf::At(w.pre_projection_in),
                        drafter.top.pre_projection,
                        Buf::At(w.gemm_f32),
                        hidden as i32,
                        drafter.arch.pre_projection_in_dim as i32,
                    ),
                ] + cast_spec(Buf::At(w.hidden), Buf::At(w.gemm_f32), hidden as u32),
            )
        }
    }

    /// The first projection of a step: the drafter's hidden state from the
    /// last token and the base model's hidden state.
    pub fn forward_drafter_pre_projection(
        &self,
        drafter: &Gemma4DrafterRuntime,
        workspace: &DrafterStepWorkspace,
    ) -> (r: Program)
        requires
            drafter.fits(),
        ensures
            r@ == self.drafter_pre_projection(drafter, workspace),
    {
        if workspace.pre_projection_in == 0 || workspace.gemm_f32 == 0 || workspace.hidden == 0 {
            return Program::refuse(
                corrupt_runtime_err(
                    Reason::plain(
                        "forward_drafter_pre_projection: workspace has null device pointers — caller must call drafter.alloc_step_workspace(arena) first",
                    ),
                ),
            );
        }
        if drafter.top.pre_projection == 0 {
            return Program::refuse(
                corrupt_runtime_err(
                    Reason::plain(
                        "forward_drafter_pre_projection: drafter pre_projection weight is null",
                    ),
                ),
            );
        }
        let hidden: usize = drafter.arch.hidden_size;
        let s: Vec<Step> =
            vec![
            half_gemm(
                Buf::At(workspace.pre_projection_in),
                drafter.top.pre_projection,
                Buf::At(workspace.gemm_f32),
                hidden as i32,
                drafter.arch.pre_projection_in_dim as i32,
            ),
        ];
        let cast = launch_cast_f32_to_f16(
            Buf::At(workspace.hidden),
            Buf::At(workspace.gemm_f32),
            hidden as u32,
        );
        let r = Program::complete(extend(s, cast));
        assert(r@ =~= self.drafter_pre_projection(drafter, workspace));
        r
    }

    /// The rotation of a layer's queries, with tables of the base model. There
    /// are no keys, so their buffers are null.
    pub open spec fn drafter_rope(
        &self,
        drafter: &Gemma4DrafterRuntime,
        w: &DrafterStepWorkspace,
        layer: Gemma4DrafterLayerPtrs,
    ) -> Step {
        let global = layer.layer_type == DrafterLayerType::Full;
        Step::Launch {
            call: KernelCall::RopePartialF16(
                RopePartialArgs {
                    q_in: w.q,
                    k_in: 0,
                    v_in: 0,
                    q_out: w.q,
                    key_cache: 0,
                    value_cache: 0,
                    cos: if global {
                        self.tables.rope_cos_global
                    } else {
                        self.tables.rope_cos_sliding
                    },
                    sin: if global {
                        self.tables.rope_sin_global
                    } else {
                        self.tables.rope_sin_sliding
                    },
                    positions: Buf::start(0),
                    slot_mapping: 0,
                    num_tokens: 1,
                    num_heads: drafter.arch.num_attention_heads as i32,
                    num_kv_heads: 0,
                    head_dim: layer.effective_head_dim as i32,
                    rotary_dim: drafter_rotary(layer.layer_type, layer.effective_head_dim),
                },
            ),
            grid: Dim3::plane(1, drafter.arch.num_attention_heads as u32),
            block: Dim3::line((layer.effective_head_dim as u32) / 2),
            shared: 0,
            on_fail: OnFail::Launch("drafter_q_side rope launch"),
        }
    }

    fn plan_drafter_rope(
        &self,
        drafter: &Gemma4DrafterRuntime,
        w: &DrafterStepWorkspace,
        layer: &Gemma4DrafterLayerPtrs,
    ) -> (r: Step)
        requires
            layer.effective_head_dim <= 0x7fff_ffff,
        ensures
            r == self.drafter_rope(drafter, w, *layer),
    {
        let (cos, sin): (u64, u64) = match layer.layer_type {
            DrafterLayerType::Full => (self.tables.rope_cos_global, self.tables.rope_sin_global),
            DrafterLayerType::Sliding => (
                self.tables.rope_cos_sliding,
                self.tables.rope_sin_sliding,
            ),
        };
        Step::Launch {
            call: KernelCall::RopePartialF16(
                RopePartialArgs {
                    q_in: w.q,
                    k_in: 0,
                    v_in: 0,
                    q_out: w.q,
                    key_cache: 0,
                    value_cache: 0,
                    cos,
                    sin,
                    positions: Buf::start(0),
                    slot_mapping: 0,
                    num_tokens: 1,
                    num_heads: drafter.arch.num_attention_heads as i32,
                    num_kv_heads: 0,
                    head_dim: layer.effective_head_dim as i32,
                    rotary_dim: plan_rotary(layer.layer_type, layer.effective_head_dim),
                },
            ),
            grid: Dim3::plane(1, drafter.arch.num_attention_heads as u32),
            block: Dim3::line((layer.effective_head_dim as u32) / 2),
            shared: 0,
            on_fail: OnFail::Launch("drafter_q_side rope launch"),
        }
    }

    /// The queries of a layer: the residual is kept, the hidden state
    /// normalized, projected, normalized by heads and rotated.
    pub open spec fn drafter_q_side(
        &self,
        drafter: &Gemma4DrafterRuntime,
        w: &DrafterStepWorkspace,
        l: int,
        position: u32,
    ) -> ProgramView {
        let hidden = drafter.arch.hidden_size;
        let heads = drafter.arch.num_attention_heads;
        let eps = drafter.arch.rms_norm_eps_bits;
        let layer = drafter.layers@[l];
        let rows = drafter.rows(l);
        if l >= drafter.layers@.len() {
            refuses(
                corrupt_runtime_err(
                    Reason::two(
                        "forward_drafter_layer_q_side: layer_idx ",
                        Arg::U(l as u64),
                        " out of range (drafter has ",
                        Arg::U(drafter.layers@.len() as u64),
                        ")",
                    ),
                ),
            )
        } else {
            completes(
                seq![
                    Step::Copy {
                        dst: Buf::At(w.residual1),
                        src: Buf::At(w.hidden),
                        bytes: (2 * hidden) as usize,
                        on_fail: OnFail::Memcpy("drafter_q_side residual1 snapshot"),
                    },
                    rms_half(1, hidden as u32, eps, Buf::At(w.hidden), layer.input_layernorm),
                    half_gemm(
                        Buf::At(w.hidden),
                        layer.self_attn_q_proj,
                        Buf::At(w.gemm_f32),
                        rows as i32,
                        hidden as i32,
                    ),
                ] + cast_spec(Buf::At(w.q), Buf::At(w.gemm_f32), rows as u32) + seq![
                    rms_half(
                        heads as u32,
                        layer.effective_head_dim as u32,
                        eps,
                        Buf::At(w.q),
                        layer.self_attn_q_norm,
                    ),
                    Step::Region { name: "g4n_drafter_q_rope_pos", bytes: 4, align: 16 },
                    Step::WriteI32 { dst: Buf::start(0), value: position as i32 },
                    self.drafter_rope(drafter, w, layer),
                ],
            )
        }
    }

    /// The queries of a layer.
    pub fn forward_drafter_layer_q_side(
        &self,
        drafter: &Gemma4DrafterRuntime,
        workspace: &DrafterStepWorkspace,
        layer_idx: usize,
        position: u32,
    ) -> (r: Program)
        requires
            drafter.fits(),
        ensures
            r@ == self.drafter_q_side(drafter, workspace, layer_idx as int, position),
    {
        if layer_idx >= drafter.layers.len() {
            return Program::refuse(
                corrupt_runtime_err(
                    Reason::two(
                        "forward_drafter_layer_q_side: layer_idx ",
                        Arg::U(layer_idx as u64),
                        " out of range (drafter has ",
                        Arg::U(drafter.layers.len() as u64),
                        ")",
                    ),
                ),
            );
        }
        assert(drafter.layer_fits(layer_idx as int));
        let layer = &drafter.layers[layer_idx];
        let hidden: usize = drafter.arch.hidden_size;
        let eps: u32 = drafter.arch.rms_norm_eps_bits;
        let rows: usize = drafter.plan_rows(layer_idx);
        let s: Vec<Step> =
            vec![
            Step::Copy {
                dst: Buf::At(workspace.residual1),
                src: Buf::At(workspace.hidden),
                bytes: hidden * 2,
                on_fail: OnFail::Memcpy("drafter_q_side residual1 snapshot"),
            },
            rms_half(1, hidden as u32, eps, Buf::At(workspace.hidden), layer.input_layernorm),
            half_gemm(
                Buf::At(workspace.hidden),
                layer.self_attn_q_proj,
                Buf::At(workspace.gemm_f32),
                rows as i32,
                hidden as i32,
            ),
        ];
        let s = extend(
            s,
            launch_cast_f32_to_f16(
                Buf::At(workspace.q),
                Buf::At(workspace.gemm_f32),
                rows as u32,
            ),
        );
        let tail: Vec<Step> =
            vec![
            rms_half(
                drafter.arch.num_attention_heads as u32,
                layer.effective_head_dim as u32,
                eps,
                Buf::At(workspace.q),
                layer.self_attn_q_norm,
            ),
            Step::Region { name: "g4n_drafter_q_rope_pos", bytes: 4, align: 16 },
            Step::WriteI32 { dst: Buf::start(0), value: position as i32 },
            self.plan_drafter_rope(drafter, workspace, layer),
        ];
        let r = Program::complete(extend(s, tail));
        assert(r@ =~= self.drafter_q_side(drafter, workspace, layer_idx as int, position));
        r
    }

    /// The buffers of a step's attention, over the base model's table and
    /// context length.
    pub open spec fn drafter_attn_buffers(
        &self,
        w: &DrafterStepWorkspace,
        kv: &Gemma4Nvfp4KvState,
    ) -> CrossAttnBuffers {
        CrossAttnBuffers {
            output: w.attn_out,
            query: w.q,
            block_tables: kv.block_tables_ptr,
            context_lens: kv.context_lens_ptr,
            scale_bits: UNIT_SCALE_BITS,
        }
    }

    /// Attention of a layer over the shadow cache.
    pub open spec fn drafter_cross_attn(
        &self,
        drafter: &Gemma4DrafterRuntime,
        w: &DrafterStepWorkspace,
        l: int,
        kv: &Gemma4Nvfp4KvState,
    ) -> ProgramView {
        let b = self.drafter_attn_buffers(w, kv);
        if l >= drafter.layers@.len() {
            refuses(
                corrupt_runtime_err(
                    Reason::one(
                        "forward_drafter_layer_cross_attn: layer_idx ",
                        Arg::U(l as u64),
                        " out of range",
                    ),
                ),
            )
        } else if drafter.layers@[l].layer_type == DrafterLayerType::Full {
            drafter.cross_attn_global(b)
        } else {
            drafter.cross_attn_sliding(b, (self.arch.sliding_window_size - 1) as i32)
        }
    }

    /// Attention of a layer over the shadow cache: the global or the sliding
    /// one, the latter within the base model's window.
    pub fn forward_drafter_layer_cross_attn(
        &self,
        drafter: &Gemma4DrafterRuntime,
        workspace: &DrafterStepWorkspace,
        layer_idx: usize,
        kv: &Gemma4Nvfp4KvState,
    ) -> (r: Program)
        requires
            drafter.fits(),
            self.arch.sliding_window_size <= 0x7fff_ffff,
        ensures
            r@ == self.drafter_cross_attn(drafter, workspace, layer_idx as int, kv),
    {
        if layer_idx >= drafter.layers.len() {
            return Program::refuse(
                corrupt_runtime_err(
                    Reason::one(
                        "forward_drafter_layer_cross_attn: layer_idx ",
                        Arg::U(layer_idx as u64),
                        " out of range",
                    ),
                ),
            );
        }
        let b = CrossAttnBuffers {
            output: workspace.attn_out,
            query: workspace.q,
            block_tables: kv.block_tables_ptr,
            context_lens: kv.context_lens_ptr,
            scale_bits: UNIT_SCALE_BITS,
        };
        match drafter.layers[layer_idx].layer_type {
            DrafterLayerType::Full => drafter.launch_cross_attn_global(b),
            DrafterLayerType::Sliding => drafter.launch_cross_attn_sliding(
                b,
                self.arch.sliding_window_size as i32 - 1,
            ),
        }
    }

    /// The output projection of a layer, normalized and added to the residual
    /// that was kept.
    pub open spec fn drafter_attn_finisher(
        &self,
        drafter: &Gemma4DrafterRuntime,
        w: &DrafterStepWorkspace,
        l: int,
    ) -> ProgramView {
        let hidden = drafter.arch.hidden_size;
        let eps = drafter.arch.rms_norm_eps_bits;
        let layer = drafter.layers@[l];
        if l >= drafter.layers@.len() {
            refuses(
                corrupt_runtime_err(
                    Reason::one(
                        "forward_drafter_layer_attn_finisher: layer_idx ",
                        Arg::U(l as u64),
                        " out of range",
                    ),
                ),
            )
        } else {
            completes(
                seq![
                    half_gemm(
                        Buf::At(w.attn_out),
                        layer.self_attn_o_proj,
                        Buf::At(w.gemm_f32),
                        hidden as i32,
                        drafter.rows(l) as i32,
                    ),
                ] + cast_spec(Buf::At(w.proj_f16), Buf::At(w.gemm_f32), hidden as u32) + seq![
                    rms_half(
                        1,
                        hidden as u32,
                        eps,
                        Buf::At(w.proj_f16),
                        layer.post_attention_layernorm,
                    ),
                    Step::Copy {
                        dst: Buf::At(w.hidden),
                        src: Buf::At(w.residual1),
                        bytes: (2 * hidden) as usize,
                        on_fail: OnFail::Memcpy("attn_finisher residual1 reload"),
                    },
                    half_launch(
                        KernelCall::VectorAddF16 {
                            dst: Buf::At(w.hidden),
                            src: Buf::At(w.proj_f16),
                            n: hidden as i32,
                        },
                        hidden as u32,
                        "attn_finisher residual_1 vector_add",
                    ),
                ],
            )
        }
    }

    /// The output projection of a layer.
    pub fn forward_drafter_layer_attn_finisher(
        &self,
        drafter: &Gemma4DrafterRuntime,
        workspace: &DrafterStepWorkspace,
        layer_idx: usize,
    ) -> (r: Program)
        requires
            drafter.fits(),
        ensures
            r@ == self.drafter_attn_finisher(drafter, workspace, layer_idx as int),
    {
        if layer_idx >= drafter.layers.len() {
            return Program::refuse(
                corrupt_runtime_err(
                    Reason::one(
                        "forward_drafter_layer_attn_finisher: layer_idx ",
                        Arg::U(layer_idx as u64),
                        " out of range",
                    ),
                ),
            );
        }
        let layer = &drafter.layers[layer_idx];
        let hidden: usize = drafter.arch.hidden_size;
        let eps: u32 = drafter.arch.rms_norm_eps_bits;
        let rows: usize = drafter.plan_rows(layer_idx);
        let s: Vec<Step> =
            vec![
            half_gemm(
                Buf::At(workspace.attn_out),
                layer.self_attn_o_proj,
                Buf::At(workspace.gemm_f32),
                hidden as i32,
                rows as i32,
            ),
        ];
        let s = extend(
            s,
            launch_cast_f32_to_f16(
                Buf::At(workspace.proj_f16),
                Buf::At(workspace.gemm_f32),
                hidden as u32,
            ),
        );
        let tail: Vec<Step> =
            vec![
            rms_half(
                1,
                hidden as u32,
                eps,
                Buf::At(workspace.proj_f16),
                layer.post_attention_layernorm,
            ),
            Step::Copy {
                dst: Buf::At(workspace.hidden),
                src: Buf::At(workspace.residual1),
                bytes: hidden * 2,
                on_fail: OnFail::Memcpy("attn_finisher residual1 reload"),
            },
            half_launch(
                KernelCall::VectorAddF16 {
                    dst: Buf::At(workspace.hidden),
                    src: Buf::At(workspace.proj_f16),
                    n: hidden as i32,
                },
                hidden as u32,
                "attn_finisher residual_1 vector_add",
            ),
        ];
        let r = Program::complete(extend(s, tail));
        assert(r@ =~= self.drafter_attn_finisher(drafter, workspace, layer_idx as int));
        r
    }

    /// The MLP block of a layer: region 0 keeps the residual, region 1 holds
    /// gate outputs and behind them up outputs. The layer's scalar weighs the
    /// sum.
    pub open spec fn drafter_mlp_finisher(
        &self,
        drafter: &Gemma4DrafterRuntime,
        w: &DrafterStepWorkspace,
        l: int,
    ) -> ProgramView {
        let hidden = drafter.arch.hidden_size;
        let inter = drafter.arch.intermediate_size;
        let eps = drafter.arch.rms_norm_eps_bits;
        let layer = drafter.layers@[l];
        let up = Buf::start(1).plus((2 * inter) as u64);
        if l >= drafter.layers@.len() {
            refuses(
                corrupt_runtime_err(
                    Reason::one(
                        "forward_drafter_layer_mlp_finisher: layer_idx ",
                        Arg::U(l as u64),
                        " out of range",
                    ),
                ),
            )
        } else {
            completes(
                seq![
                    Step::Region {
                        name: "g4n_drafter_residual2",
                        bytes: (2 * hidden) as usize,
                        align: 16,
                    },
                    Step::Region {
                        name: "g4n_drafter_gate_up",
                        bytes: (4 * inter) as usize,
                        align: 16,
                    },
                    Step::Copy {
                        dst: Buf::start(0),
                        src: Buf::At(w.hidden),
                        bytes: (2 * hidden) as usize,
                        on_fail: OnFail::Memcpy("mlp_finisher residual_2 snapshot"),
                    },
                    rms_half(
                        1,
                        hidden as u32,
                        eps,
                        Buf::At(w.hidden),
                        layer.pre_feedforward_layernorm,
                    ),
                    half_gemm(
                        Buf::At(w.hidden),
                        layer.mlp_gate_proj,
                        Buf::At(w.gemm_f32),
                        inter as i32,
                        hidden as i32,
                    ),
                ] + cast_spec(Buf::start(1), Buf::At(w.gemm_f32), inter as u32) + seq![
                    half_gemm(
                        Buf::At(w.hidden),
                        layer.mlp_up_proj,
                        Buf::At(w.gemm_f32),
                        inter as i32,
                        hidden as i32,
                    ),
                ] + cast_spec(up, Buf::At(w.gemm_f32), inter as u32) + seq![
                    Step::Launch {
                        call: KernelCall::FusedGeluMulF16 {
                            out: Buf::start(1),
                            gate_up: Buf::start(1),
                            intermediate: inter as i32,
                        },
                        grid: Dim3::line(1),
                        block: Dim3::line(
                            if inter == 0 {
                                1
                            } else if inter < 1024 {
                                inter as u32
                            } else {
                                1024
                            },
                        ),
                        shared: 0,
                        on_fail: OnFail::Launch("mlp_finisher fused_gelu_mul_f16"),
                    },
                    half_gemm(
                        Buf::start(1),
                        layer.mlp_down_proj,
                        Buf::At(w.gemm_f32),
                        hidden as i32,
                        inter as i32,
                    ),
                ] + cast_spec(Buf::At(w.hidden), Buf::At(w.gemm_f32), hidden as u32) + seq![
                    rms_half(
                        1,
                        hidden as u32,
                        eps,
                        Buf::At(w.hidden),
                        layer.post_feedforward_layernorm,
                    ),
                    half_launch(
                        KernelCall::VectorAddF16 {
                            dst: Buf::At(w.hidden),
                            src: Buf::start(0),
                            n: hidden as i32,
                        },
                        hidden as u32,
                        "mlp_finisher residual_2 vector_add",
                    ),
                    half_launch(
                        KernelCall::ScaleInplaceF16 {
                            x: Buf::At(w.hidden),
                            scalar_bits: layer.layer_scalar_bits,
                            n: hidden as i32,
                        },
                        hidden as u32,
                        "mlp_finisher layer_scalar scale_inplace",
                    ),
                ],
            )
        }
    }

    /// The MLP block of a layer.
    pub fn forward_drafter_layer_mlp_finisher(
        &self,
        drafter: &Gemma4DrafterRuntime,
        workspace: &DrafterStepWorkspace,
        layer_idx: usize,
    ) -> (r: Program)
        requires
            drafter.fits(),
        ensures
            r@ == self.drafter_mlp_finisher(drafter, workspace, layer_idx as int),
    {
        if layer_idx >= drafter.layers.len() {
            return Program::refuse(
                corrupt_runtime_err(
                    Reason::one(
                        "forward_drafter_layer_mlp_finisher: layer_idx ",
                        Arg::U(layer_idx as u64),
                        " out of range",
                    ),
                ),
            );
        }
        let layer = &drafter.layers[layer_idx];
        let hidden: usize = drafter.arch.hidden_size;
        let inter: usize = drafter.arch.intermediate_size;
        let eps: u32 = drafter.arch.rms_norm_eps_bits;
        let h = Buf::At(workspace.hidden);
        let gemm = Buf::At(workspace.gemm_f32);
        let up = Buf::start(1).plus(inter as u64 * 2);
        let threads: u32 = if inter == 0 {
            1
        } else if inter < 1024 {
            inter as u32
        } else {
            1024
        };
        let s: Vec<Step> =
            vec![
            Step::Region { name: "g4n_drafter_residual2", bytes: hidden * 2, align: 16 },
            Step::Region { name: "g4n_drafter_gate_up", bytes: inter * 4, align: 16 },
            Step::Copy {
                dst: Buf::start(0),
                src: h,
                bytes: hidden * 2,
                on_fail: OnFail::Memcpy("mlp_finisher residual_2 snapshot"),
            },
            rms_half(1, hidden as u32, eps, h, layer.pre_feedforward_layernorm),
            half_gemm(h, layer.mlp_gate_proj, gemm, inter as i32, hidden as i32),
        ];
        let s = extend(s, launch_cast_f32_to_f16(Buf::start(1), gemm, inter as u32));
        let s = extend(
            s,
            vec![half_gemm(h, layer.mlp_up_proj, gemm, inter as i32, hidden as i32)],
        );
        let s = extend(s, launch_cast_f32_to_f16(up, gemm, inter as u32));
        let middle: Vec<Step> =
            vec![
            Step::Launch {
                call: KernelCall::FusedGeluMulF16 {
                    out: Buf::start(1),
                    gate_up: Buf::start(1),
                    intermediate: inter as i32,
                },
                grid: Dim3::line(1),
                block: Dim3::line(threads),
                shared: 0,
                on_fail: OnFail::Launch("mlp_finisher fused_gelu_mul_f16"),
            },
            half_gemm(Buf::start(1), layer.mlp_down_proj, gemm, hidden as i32, inter as i32),
        ];
        let s = extend(s, middle);
        let s = extend(s, launch_cast_f32_to_f16(h, gemm, hidden as u32));
        let tail: Vec<Step> =
            vec![
            rms_half(1, hidden as u32, eps, h, layer.post_feedforward_layernorm),
            half_launch(
                KernelCall::VectorAddF16 { dst: h, src: Buf::start(0), n: hidden as i32 },
                hidden as u32,
                "mlp_finisher residual_2 vector_add",
            ),
            half_launch(
                KernelCall::ScaleInplaceF16 {
                    x: h,
                    scalar_bits: layer.layer_scalar_bits,
                    n: hidden as i32,
                },
                hidden as u32,
                "mlp_finisher layer_scalar scale_inplace",
            ),
        ];
        let r = Program::complete(extend(s, tail));
        assert(r@ =~= self.drafter_mlp_finisher(drafter, workspace, layer_idx as int));
        r
    }

    /// The end of a step: the drafted token from the full head, and the hidden
    /// state for the next step.
    pub open spec fn drafter_final(
        &self,
        drafter: &Gemma4DrafterRuntime,
        w: &DrafterStepWorkspace,
    ) -> ProgramView {
        let hidden = drafter.arch.hidden_size;
        let backbone = drafter.arch.backbone_hidden_size;
        let vocab = drafter.arch.vocab_size as i32;
        let norm = rms_half(
            1,
            hidden as u32,
            drafter.arch.rms_norm_eps_bits,
            Buf::At(w.hidden),
            drafter.top.final_norm,
        );
        if drafter.arch.use_ordered_embeddings {
            fails(
                seq![norm],
                corrupt_runtime_err(
                    Reason::plain(
                        "forward_drafter_final_to_token: drafter has use_ordered_embeddings=true (E4B masked-embedder path); not wired for Option B yet",
                    ),
                ),
            )
        } else {
            completes(
                seq![
                    norm,
                    half_gemm(
                        Buf::At(w.hidden),
                        drafter.top.embed_tokens,
                        Buf::At(w.gemm_f32),
                        vocab,
                        hidden as i32,
                    ),
                    launch_argmax(Buf::At(w.gemm_f32), Buf::At(w.out_token_id), vocab),
                    half_gemm(
                        Buf::At(w.hidden),
                        drafter.top.post_projection,
                        Buf::At(w.gemm_f32),
                        backbone as i32,
                        hidden as i32,
                    ),
                ] + cast_spec(Buf::At(w.out_hidden), Buf::At(w.gemm_f32), backbone as u32),
            )
        }
    }

    /// The end of a step.
    pub fn forward_drafter_final_to_token(
        &self,
        drafter: &Gemma4DrafterRuntime,
        workspace: &DrafterStepWorkspace,
    ) -> (r: Program)
        requires
            drafter.fits(),
        ensures
            r@ == self.drafter_final(drafter, workspace),
    {
        let hidden: usize = drafter.arch.hidden_size;
        let backbone: usize = drafter.arch.backbone_hidden_size;
        let vocab: i32 = drafter.arch.vocab_size as i32;
        let norm = rms_half(
            1,
            hidden as u32,
            drafter.arch.rms_norm_eps_bits,
            Buf::At(workspace.hidden),
            drafter.top.final_norm,
        );
        if drafter.arch.use_ordered_embeddings {
            let r = Program::fail(
                vec![norm],
                corrupt_runtime_err(
                    Reason::plain(
                        "forward_drafter_final_to_token: drafter has use_ordered_embeddings=true (E4B masked-embedder path); not wired for Option B yet",
                    ),
                ),
            );
            assert(r@ =~= self.drafter_final(drafter, workspace));
            return r;
        }
        let s: Vec<Step> =
            vec![
            norm,
            half_gemm(
                Buf::At(workspace.hidden),
                drafter.top.embed_tokens,
                Buf::At(workspace.gemm_f32),
                vocab,
                hidden as i32,
            ),
            launch_argmax(Buf::At(workspace.gemm_f32), Buf::At(workspace.out_token_id), vocab),
            half_gemm(
                Buf::At(workspace.hidden),
                drafter.top.post_projection,
                Buf::At(workspace.gemm_f32),
                backbone as i32,
                hidden as i32,
            ),
        ];
        let cast = launch_cast_f32_to_f16(
            Buf::At(workspace.out_hidden),
            Buf::At(workspace.gemm_f32),
            backbone as u32,
        );
        let r = Program::complete(extend(s, cast));
        assert(r@ =~= self.drafter_final(drafter, workspace));
        r
    }

    /// The programs of one drafter layer.
    pub open spec fn drafter_layer(
        &self,
        drafter: &Gemma4DrafterRuntime,
        w: &DrafterStepWorkspace,
        l: int,
        position: u32,
        kv: &Gemma4Nvfp4KvState,
    ) -> Seq<ProgramView> {
        seq![
            self.drafter_q_side(drafter, w, l, position),
            self.drafter_cross_attn(drafter, w, l, kv),
            self.drafter_attn_finisher(drafter, w, l),
            self.drafter_mlp_finisher(drafter, w, l),
        ]
    }

    /// The programs of a step up to layer `n`.
    pub open spec fn drafter_layers(
        &self,
        drafter: &Gemma4DrafterRuntime,
        w: &DrafterStepWorkspace,
        n: nat,
        position: u32,
        kv: &Gemma4Nvfp4KvState,
    ) -> Seq<ProgramView>
        decreases n,
    {
        if n == 0 {
            seq![self.drafter_pre_projection(drafter, w)]
        } else {
            self.drafter_layers(drafter, w, (n - 1) as nat, position, kv) + self.drafter_layer(
                drafter,
                w,
                n - 1,
                position,
                kv,
            )
        }
    }

    /// The programs of one step of the drafter.
    pub open spec fn drafter_programs(
        &self,
        drafter: &Gemma4DrafterRuntime,
        w: &DrafterStepWorkspace,
        position: u32,
        kv: &Gemma4Nvfp4KvState,
    ) -> Seq<ProgramView> {
        self.drafter_layers(
            drafter,
            w,
            drafter.arch.num_hidden_layers as nat,
            position,
            kv,
        ).push(self.drafter_final(drafter, w))
    }

    /// One step of the drafter: the first projection, every layer in order and
    /// the drafted token.
    pub fn run_drafter_forward_one_token(
        &self,
        drafter: &Gemma4DrafterRuntime,
        workspace: &DrafterStepWorkspace,
        position: u32,
        kv: &Gemma4Nvfp4KvState,
    ) -> (r: Vec<Program>)
        requires
            drafter.fits(),
            self.arch.sliding_window_size <= 0x7fff_ffff,
        ensures
            programs(r@) == self.drafter_programs(drafter, workspace, position, kv),
    {
        let mut r: Vec<Program> = vec![self.forward_drafter_pre_projection(drafter, workspace)];
        let n: usize = drafter.arch.num_hidden_layers;
        let mut l: usize = 0;
        assert(programs(r@) =~= self.drafter_layers(drafter, workspace, 0, position, kv));
        while l < n
            invariant
                n == drafter.arch.num_hidden_layers,
                l <= n,
                drafter.fits(),
                self.arch.sliding_window_size <= 0x7fff_ffff,
                programs(r@) == self.drafter_layers(drafter, workspace, l as nat, position, kv),
            decreases n - l,
        {
            let ghost before = r@;
            r.push(self.forward_drafter_layer_q_side(drafter, workspace, l, position));
            r.push(self.forward_drafter_layer_cross_attn(drafter, workspace, l, kv));
            r.push(self.forward_drafter_layer_attn_finisher(drafter, workspace, l));
            r.push(self.forward_drafter_layer_mlp_finisher(drafter, workspace, l));
            assert(programs(r@) =~= programs(before) + self.drafter_layer(
                drafter,
                workspace,
                l as int,
                position,
                kv,
            ));
            l = l + 1;
        }
        let ghost before = r@;
        r.push(self.forward_drafter_final_to_token(drafter, workspace));
        assert(programs(r@) =~= programs(before).push(self.drafter_final(drafter, workspace)));
        r
    }

    /// Device address of the last hidden state; zero where there is none yet.
    pub fn base_last_hidden_device_ptr(&self) -> (r: u64)
        ensures
            r == self.base_last_hidden_ptr,
    {
        self.base_last_hidden_ptr
    }

    /// The buffer of the last hidden state, zeroed; nothing where it is there.
    pub open spec fn last_hidden_buffer(&self) -> ProgramView {
        let bytes = (2 * self.arch.hidden_size) as usize;
        if self.base_last_hidden_ptr != 0 {
            completes(Seq::empty())
        } else {
            completes(
                seq![
                    Step::Region { name: "g4n_base_last_hidden_f16", bytes, align: 16 },
                    Step::Zero {
                        dst: Buf::start(0),
                        bytes,
                        on_fail: OnFail::Runtime("ensure_base_last_hidden_buffer: zero-init"),
                    },
                ],
            )
        }
    }

    /// The buffer of the last hidden state; nothing where it is there.
    pub fn ensure_base_last_hidden_buffer(&self) -> (r: Program)
        requires
            self.base_last_hidden_ptr == 0 ==> 2 * self.arch.hidden_size <= usize::MAX,
        ensures
            r@ == self.last_hidden_buffer(),
    {
        if self.base_last_hidden_ptr != 0 {
            return Program::complete(Vec::new());
        }
        let bytes: usize = self.arch.hidden_size * 2;
        let s: Vec<Step> =
            vec![
            Step::Region { name: "g4n_base_last_hidden_f16", bytes, align: 16 },
            Step::Zero {
                dst: Buf::start(0),
                bytes,
                on_fail: OnFail::Runtime("ensure_base_last_hidden_buffer: zero-init"),
            },
        ];
        let r = Program::complete(s);
        assert(r@ =~= self.last_hidden_buffer());
        r
    }

    /// The model with a buffer of the last hidden state.
    pub open spec fn with_last_hidden(self, ptr: u64, checkpoint: usize) -> Gemma4Nvfp4Bringup {
        Gemma4Nvfp4Bringup {
            base_last_hidden_ptr: ptr,
            forward_checkpoint: checkpoint,
            ..self
        }
    }

    /// Takes up the buffer of the last hidden state: scratch is given back
    /// down to behind it from now on.
    pub fn keep_base_last_hidden(&mut self, ptr: u64, checkpoint: usize)
        ensures
            *final(self) == old(self).with_last_hidden(ptr, checkpoint),
    {
        self.forward_checkpoint = checkpoint;
        self.base_last_hidden_ptr = ptr;
    }

    /// The drafter's input from the base model.
    pub open spec fn drafter_input(&self, w: &DrafterStepWorkspace, token: u32) -> ProgramView {
        let half = (2 * self.arch.hidden_size) as usize;
        let head = seq![
            Step::Region { name: "g4n_drafter_last_token_embed_bf16", bytes: half, align: 16 },
        ] + self.embed_steps("g4n_embed_tok", token, 1, Buf::start(0)) + seq![
            Step::Bf16ToF16Sat {
                dst: Buf::At(w.pre_projection_in),
                src: Buf::start(0),
                n: self.arch.hidden_size as u32,
            },
        ];
        if self.base_last_hidden_ptr == 0 {
            fails(
                head,
                corrupt_runtime_err(
                    Reason::plain(
                        "populate_drafter_pre_projection_input: base_last_hidden_ptr is 0 — call ensure_base_last_hidden_buffer (and run a base forward to populate it) before invoking this",
                    ),
                ),
            )
        } else {
            completes(
                head + seq![
                    Step::Copy {
                        dst: Buf::At((w.pre_projection_in + half) as u64),
                        src: Buf::At(self.base_last_hidden_ptr),
                        bytes: half,
                        on_fail: OnFail::Runtime(
                            "populate_drafter_pre_projection_input: hidden half DtoDAsync",
                        ),
                    },
                    Step::Release,
                ],
            )
        }
    }

    /// The drafter's input from the base model: the embedding of a token, and
    /// behind it the last hidden state.
    pub fn populate_drafter_pre_projection_input(
        &self,
        workspace: &DrafterStepWorkspace,
        token_id: u32,
    ) -> (r: Program)
        requires
            2 * self.arch.hidden_size <= usize::MAX,
            workspace.pre_projection_in + 2 * self.arch.hidden_size <= u64::MAX,
        ensures
            r@ == self.drafter_input(workspace, token_id),
    {
        let half: usize = self.arch.hidden_size * 2;
        let s: Vec<Step> =
            vec![
            Step::Region { name: "g4n_drafter_last_token_embed_bf16", bytes: half, align: 16 },
            Step::Region { name: "g4n_embed_tok", bytes: 4, align: 16 },
            Step::WriteI32 { dst: Buf::start(1), value: token_id as i32 },
            self.plan_embed(Buf::start(0), Buf::start(1)),
            Step::Bf16ToF16Sat {
                dst: Buf::At(workspace.pre_projection_in),
                src: Buf::start(0),
                n: self.arch.hidden_size as u32,
            },
        ];
        if self.base_last_hidden_ptr == 0 {
            let r = Program::fail(
                s,
                corrupt_runtime_err(
                    Reason::plain(
                        "populate_drafter_pre_projection_input: base_last_hidden_ptr is 0 — call ensure_base_last_hidden_buffer (and run a base forward to populate it) before invoking this",
                    ),
                ),
            );
            assert(r@ =~= self.drafter_input(workspace, token_id));
            return r;
        }
        let tail: Vec<Step> =
            vec![
            Step::Copy {
                dst: Buf::At(workspace.pre_projection_in + half as u64),
                src: Buf::At(self.base_last_hidden_ptr),
                bytes: half,
                on_fail: OnFail::Runtime(
                    "populate_drafter_pre_projection_input: hidden half DtoDAsync",
                ),
            },
            Step::Release,
        ];
        let r = Program::complete(extend(s, tail));
        assert(r@ =~= self.drafter_input(workspace, token_id));
        r
    }

    /// Whether the bytes of a cache that is not refused can be counted.
    pub open spec fn allocation_fits(&self, max_pos: u32, max_query_tokens: u32) -> bool {
        !self.kv_state_allocated && max_query_tokens > 0 ==> cache_fits(
            &self.arch,
            max_pos,
            max_query_tokens,
        )
    }

    /// Whether the bytes of a cache that is not refused can be counted.
    pub fn check_allocation(&self, max_pos: u32, max_query_tokens: u32) -> (r: bool)
        ensures
            r == self.allocation_fits(max_pos, max_query_tokens),
    {
        self.kv_state_allocated || max_query_tokens == 0 || Gemma4Nvfp4KvState::check_fits(
            &self.arch,
            max_pos,
            max_query_tokens,
        )
    }

    /// The regions of a cache for one token at a time.
    pub fn allocate_kv_state(&self, max_pos: u32) -> (r: Program)
        requires
            self.allocation_fits(max_pos, 1),
        ensures
            r@ == self.kv_allocation(max_pos, 1),
    {
        self.allocate_kv_state_with_chunk(max_pos, 1)
    }

    /// The regions of a cache; refused once there is one.
    pub open spec fn kv_allocation(&self, max_pos: u32, max_query_tokens: u32) -> ProgramView {
        if self.kv_state_allocated {
            refuses(
                corrupt_runtime_err(
                    Reason::plain(
                        "allocate_kv_state called twice: arena would leak the first allocation (no API to free a single region) and the caller's prior `Gemma4Nvfp4KvState` would silently point at stale memory once a forward runs. If you need a fresh state, rebuild the Gemma4Nvfp4Bringup.",
                    ),
                ),
            )
        } else {
            allocation(&self.arch, max_pos, max_query_tokens)
        }
    }

    /// The regions of a cache with room for the metadata of a chunk of query
    /// tokens; refused once there is a cache.
    pub fn allocate_kv_state_with_chunk(&self, max_pos: u32, max_query_tokens: u32) -> (r: Program)
        requires
            self.allocation_fits(max_pos, max_query_tokens),
        ensures
            r@ == self.kv_allocation(max_pos, max_query_tokens),
    {
        if self.kv_state_allocated {
            return Program::refuse(
                corrupt_runtime_err(
                    Reason::plain(
                        "allocate_kv_state called twice: arena would leak the first allocation (no API to free a single region) and the caller's prior `Gemma4Nvfp4KvState` would silently point at stale memory once a forward runs. If you need a fresh state, rebuild the Gemma4Nvfp4Bringup.",
                    ),
                ),
            );
        }
        Gemma4Nvfp4KvState::allocate(&self.arch, max_pos, max_query_tokens)
    }

    /// The model with a cache.
    pub open spec fn with_kv_state(self, checkpoint: usize) -> Gemma4Nvfp4Bringup {
        Gemma4Nvfp4Bringup { kv_state_allocated: true, forward_checkpoint: checkpoint, ..self }
    }

    /// Takes up a cache: scratch is given back down to behind it from now on.
    pub fn keep_kv_state(&mut self, checkpoint: usize)
        ensures
            *final(self) == old(self).with_kv_state(checkpoint),
    {
        self.forward_checkpoint = checkpoint;
        self.kv_state_allocated = true;
    }

    /// A cache is allocated once: from the time it was taken up every request
    /// for one is refused without a region, whatever else is taken up later. A
    /// request that was refused before does not count.
    pub proof fn law_cache_is_allocated_once(
        self,
        checkpoint: usize,
        later: usize,
        ptr: u64,
        max_pos: u32,
        max_query_tokens: u32,
    )
        ensures
            ({
                let kept = self.with_kv_state(checkpoint);
                let p = kept.kv_allocation(max_pos, max_query_tokens);
                &&& p.steps.len() == 0
                &&& p.failure is Some
                &&& kept.forward_checkpoint == checkpoint
                &&& kept.with_last_hidden(ptr, later).kv_allocation(max_pos, max_query_tokens) == p
            }),
            !self.kv_state_allocated ==> self.kv_allocation(max_pos, max_query_tokens)
                == allocation(&self.arch, max_pos, max_query_tokens),
            !self.kv_state_allocated ==> (self.kv_allocation(
                max_pos,
                max_query_tokens,
            ).failure is None <==> max_query_tokens > 0),
    {
    }

    /// Whether a drafter has to be loaded, and for which two layers.
    pub open spec fn drafter_wanted(&self) -> Result<Option<(usize, usize)>, RuntimeError> {
        if self.drafter is Some {
            Ok(None)
        } else if self.arch.assistant_shared_kv_sources is None {
            Err(
                corrupt_runtime_err(
                    Reason::plain(
                        "ensure_drafter_nvfp4: base arch has no assistant_shared_kv_sources — Gemma 4 assistant cross-attends to (sliding, full) layer pair; 31B returns (58, 59). Unsupported checkpoint.",
                    ),
                ),
            )
        } else {
            Ok(self.arch.assistant_shared_kv_sources)
        }
    }

    /// Whether a drafter has to be loaded, and for which two layers: nothing
    /// where there is one, refused where the model has no such layers.
    pub fn ensure_drafter_nvfp4(&self) -> (r: Result<Option<(usize, usize)>, RuntimeError>)
        ensures
            r == self.drafter_wanted(),
    {
        if self.drafter.is_some() {
            return Ok(None);
        }
        match self.arch.assistant_shared_kv_sources {
            Some(pair) => Ok(Some(pair)),
            None => Err(
                corrupt_runtime_err(
                    Reason::plain(
                        "ensure_drafter_nvfp4: base arch has no assistant_shared_kv_sources — Gemma 4 assistant cross-attends to (sliding, full) layer pair; 31B returns (58, 59). Unsupported checkpoint.",
                    ),
                ),
            ),
        }
    }

    /// What keeps a drafter from going with the base model.
    pub open spec fn drafter_mismatch(&self, a: &Gemma4DrafterArch) -> Option<RuntimeError> {
        if a.backbone_hidden_size != self.arch.hidden_size {
            Some(
                corrupt_runtime_err(
                    Reason::two(
                        "ensure_drafter_nvfp4: drafter backbone_hidden_size=",
                        Arg::U(a.backbone_hidden_size as u64),
                        " != base hidden_size=",
                        Arg::U(self.arch.hidden_size as u64),
                        "",
                    ),
                ),
            )
        } else if a.vocab_size != self.arch.vocab_size {
            Some(
                corrupt_runtime_err(
                    Reason::two(
                        "ensure_drafter_nvfp4: drafter vocab_size=",
                        Arg::U(a.vocab_size as u64),
                        " != base vocab_size=",
                        Arg::U(self.arch.vocab_size as u64),
                        "",
                    ),
                ),
            )
        } else if a.pre_projection_in_dim != 2 * self.arch.hidden_size {
            Some(
                corrupt_runtime_err(
                    Reason::two(
                        "ensure_drafter_nvfp4: drafter pre_projection_in_dim=",
                        Arg::U(a.pre_projection_in_dim as u64),
                        " != 2 * base hidden_size=",
                        Arg::U(self.arch.hidden_size as u64),
                        "",
                    ),
                ),
            )
        } else {
            None
        }
    }

    /// Whether a drafter goes with the base model: hidden size, vocabulary and
    /// the width of its input.
    pub fn check_drafter(&self, a: &Gemma4DrafterArch) -> (r: Result<(), RuntimeError>)
        requires
            a.backbone_hidden_size == self.arch.hidden_size ==> 2 * self.arch.hidden_size
                <= usize::MAX,
        ensures
            match r {
                Ok(_) => self.drafter_mismatch(a) is None,
                Err(e) => self.drafter_mismatch(a) == Some(e),
            },
    {
        if a.backbone_hidden_size != self.arch.hidden_size {
            return Err(
                corrupt_runtime_err(
                    Reason::two(
                        "ensure_drafter_nvfp4: drafter backbone_hidden_size=",
                        Arg::U(a.backbone_hidden_size as u64),
                        " != base hidden_size=",
                        Arg::U(self.arch.hidden_size as u64),
                        "",
                    ),
                ),
            );
        }
        if a.vocab_size != self.arch.vocab_size {
            return Err(
                corrupt_runtime_err(
                    Reason::two(
                        "ensure_drafter_nvfp4: drafter vocab_size=",
                        Arg::U(a.vocab_size as u64),
                        " != base vocab_size=",
                        Arg::U(self.arch.vocab_size as u64),
                        "",
                    ),
                ),
            );
        }
        if a.pre_projection_in_dim != 2 * self.arch.hidden_size {
            return Err(
                corrupt_runtime_err(
                    Reason::two(
                        "ensure_drafter_nvfp4: drafter pre_projection_in_dim=",
                        Arg::U(a.pre_projection_in_dim as u64),
                        " != 2 * base hidden_size=",
                        Arg::U(self.arch.hidden_size as u64),
                        "",
                    ),
                ),
            );
        }
        Ok(())
    }

    /// Bytes of the keys of a shadow layer: every slot of the cache in 16 bits.
    pub open spec fn shadow_bytes(&self, kv: &Gemma4Nvfp4KvState, l: int) -> int {
        kv.max_pos * kv.block_size * (self.arch.num_kv_heads(l) as u32) * (self.arch.head_dim(
            l,
        ) as u32) * 2
    }

    /// The shadow cache over regions at given addresses: keys and values of
    /// the sliding layer, then of the global one.
    pub open spec fn shadow_of(
        &self,
        kv: &Gemma4Nvfp4KvState,
        sources: (usize, usize),
        ptrs: (u64, u64, u64, u64),
    ) -> DrafterShadowKv {
        let s = sources.0 as int;
        let f = sources.1 as int;
        DrafterShadowKv {
            sliding_k_ptr: ptrs.0,
            sliding_v_ptr: ptrs.1,
            full_k_ptr: ptrs.2,
            full_v_ptr: ptrs.3,
            sliding_layer_bytes: self.shadow_bytes(kv, s) as usize,
            full_layer_bytes: self.shadow_bytes(kv, f) as usize,
            block_size: kv.block_size,
            num_blocks_total: kv.max_pos,
            max_blocks_per_seq: kv.max_pos,
            sliding_num_kv_heads: self.arch.num_kv_heads(s) as u32,
            sliding_head_dim: self.arch.head_dim(s) as u32,
            full_num_kv_heads: self.arch.num_kv_heads(f) as u32,
            full_head_dim: self.arch.head_dim(f) as u32,
        }
    }

    fn plan_shadow_bytes(&self, kv: &Gemma4Nvfp4KvState, l: usize) -> (r: usize)
        requires
            l < self.arch.layer_types@.len(),
            self.shadow_bytes(kv, l as int) <= usize::MAX,
            kv.max_pos * kv.block_size <= usize::MAX,
            kv.max_pos * kv.block_size * (self.arch.num_kv_heads(l as int) as u32) <= usize::MAX,
        ensures
            r == self.shadow_bytes(kv, l as int),
    {
        let heads: u32 = self.arch.num_kv_heads_for_layer(l) as u32;
        let width: u32 = self.arch.head_dim_for_layer(l) as u32;
        let slots: usize = kv.max_pos as usize * kv.block_size as usize;
        assert(slots * heads >= 0 && slots * heads * width >= 0) by (nonlinear_arith);
        slots * heads as usize * width as usize * 2
    }

    /// Whether the sizes of a shadow layer can be counted.
    pub open spec fn shadow_fits(&self, kv: &Gemma4Nvfp4KvState, l: usize) -> bool {
        &&& l < self.arch.layer_types@.len()
        &&& self.shadow_bytes(kv, l as int) <= usize::MAX
        &&& kv.max_pos * kv.block_size <= usize::MAX
        &&& kv.max_pos * kv.block_size * (self.arch.num_kv_heads(l as int) as u32) <= usize::MAX
    }

    /// The bytes of one buffer of a shadow layer.
    fn count_shadow(&self, kv: &Gemma4Nvfp4KvState, l: usize) -> (r: CheckedU128)
        requires
            l < self.arch.layer_types@.len(),
        ensures
            r@ == self.shadow_bytes(kv, l as int),
    {
        let heads: u32 = self.arch.num_kv_heads_for_layer(l) as u32;
        let width: u32 = self.arch.head_dim_for_layer(l) as u32;
        product(kv.max_pos as u128, kv.block_size as u128).mul_value(heads as u128).mul_value(
            width as u128,
        ).mul_value(2)
    }

    /// Whether the sizes of a shadow layer can be counted.
    pub fn check_shadow(&self, kv: &Gemma4Nvfp4KvState, l: usize) -> (r: bool)
        ensures
            r == self.shadow_fits(kv, l),
    {
        if l >= self.arch.layer_types.len() {
            return false;
        }
        let heads: u32 = self.arch.num_kv_heads_for_layer(l) as u32;
        let most: u128 = usize::MAX as u128;
        let slots = product(kv.max_pos as u128, kv.block_size as u128);
        let rows = slots.mul_value(heads as u128);
        within(&self.count_shadow(kv, l), most) && within(&slots, most) && within(&rows, most)
    }

    /// Whether a drafter can be taken up: its shadow cache can be counted, and
    /// so can its bytes on the device with those of the shadow cache.
    pub open spec fn drafter_fits(
        &self,
        drafter: &Gemma4DrafterRuntime,
        kv: &Gemma4Nvfp4KvState,
        sources: (usize, usize),
    ) -> bool {
        &&& self.shadow_fits(kv, sources.0)
        &&& self.shadow_fits(kv, sources.1)
        &&& drafter.bytes_resident + 2 * (self.shadow_bytes(kv, sources.0 as int)
            + self.shadow_bytes(kv, sources.1 as int)) <= usize::MAX
    }

    /// Whether a drafter can be taken up.
    pub fn check_drafter_fits(
        &self,
        drafter: &Gemma4DrafterRuntime,
        kv: &Gemma4Nvfp4KvState,
        sources: (usize, usize),
    ) -> (r: bool)
        ensures
            r == self.drafter_fits(drafter, kv, sources),
    {
        if !self.check_shadow(kv, sources.0) || !self.check_shadow(kv, sources.1) {
            return false;
        }
        let both = self.count_shadow(kv, sources.0).add_checked(&self.count_shadow(kv, sources.1));
        within(
            &both.mul_value(2).add_value(drafter.bytes_resident as u128),
            usize::MAX as u128,
        )
    }

    /// One zeroed buffer of the shadow cache.
    pub open spec fn zeroed(name: &'static str, bytes: usize, region: usize) -> Seq<Step> {
        seq![
            Step::Region {
                name,
                bytes: if bytes >= 16 {
                    bytes
                } else {
                    16
                },
                align: 256,
            },
            Step::Zero {
                dst: Buf::start(region),
                bytes,
                on_fail: OnFail::Memcpy("drafter shadow KV zero-init"),
            },
        ]
    }

    /// The regions of the shadow cache.
    pub open spec fn shadow_allocation(
        &self,
        kv: &Gemma4Nvfp4KvState,
        sources: (usize, usize),
    ) -> ProgramView {
        let s = self.shadow_bytes(kv, sources.0 as int) as usize;
        let f = self.shadow_bytes(kv, sources.1 as int) as usize;
        completes(
            Self::zeroed("g4n_drafter_shadow_k_sliding", s, 0) + Self::zeroed(
                "g4n_drafter_shadow_v_sliding",
                s,
                1,
            ) + Self::zeroed("g4n_drafter_shadow_k_full", f, 2) + Self::zeroed(
                "g4n_drafter_shadow_v_full",
                f,
                3,
            ),
        )
    }

    fn plan_zeroed(name: &'static str, bytes: usize, region: usize) -> (r: Vec<Step>)
        ensures
            r@ == Self::zeroed(name, bytes, region),
    {
        let size: usize = if bytes >= 16 {
            bytes
        } else {
            16
        };
        vec![
            Step::Region { name, bytes: size, align: 256 },
            Step::Zero {
                dst: Buf::start(region),
                bytes,
                on_fail: OnFail::Memcpy("drafter shadow KV zero-init"),
            },
        ]
    }

    /// The regions of the shadow cache, zeroed.
    pub fn allocate_drafter_shadow(&self, kv: &Gemma4Nvfp4KvState, sources: (usize, usize)) -> (r:
        Program)
        requires
            self.shadow_fits(kv, sources.0),
            self.shadow_fits(kv, sources.1),
        ensures
            r@ == self.shadow_allocation(kv, sources),
    {
        let s: usize = self.plan_shadow_bytes(kv, sources.0);
        let f: usize = self.plan_shadow_bytes(kv, sources.1);
        let steps = extend(
            Self::plan_zeroed("g4n_drafter_shadow_k_sliding", s, 0),
            Self::plan_zeroed("g4n_drafter_shadow_v_sliding", s, 1),
        );
        let steps = extend(steps, Self::plan_zeroed("g4n_drafter_shadow_k_full", f, 2));
        let steps = extend(steps, Self::plan_zeroed("g4n_drafter_shadow_v_full", f, 3));
        Program::complete(steps)
    }

    /// The model with a loaded drafter.
    pub open spec fn with_drafter(
        self,
        drafter: Gemma4DrafterRuntime,
        kv: &Gemma4Nvfp4KvState,
        sources: (usize, usize),
        ptrs: (u64, u64, u64, u64),
        checkpoint: usize,
    ) -> Gemma4Nvfp4Bringup {
        Gemma4Nvfp4Bringup {
            drafter: Some(
                Gemma4DrafterRuntime {
                    kernels: DrafterKernels {
                        masked_embedder: true,
                        flash_attention: true,
                        flash_attention_bc16: true,
                        dequant_fp8: true,
                        dequant_nvfp4: true,
                    },
                    shadow_kv: Some(self.shadow_of(kv, sources, ptrs)),
                    bytes_resident: (drafter.bytes_resident + 2 * (self.shadow_bytes(
                        kv,
                        sources.0 as int,
                    ) + self.shadow_bytes(kv, sources.1 as int))) as usize,
                    ..drafter
                },
            ),
            forward_checkpoint: checkpoint,
            ..self
        }
    }

    /// A drafter is loaded once: from the time it was taken up none is wanted,
    /// whatever else is taken up later. It has all its kernels, and a shadow in
    /// the blocks of the cache it was loaded for.
    pub proof fn law_drafter_is_loaded_once(
        self,
        drafter: Gemma4DrafterRuntime,
        kv: &Gemma4Nvfp4KvState,
        sources: (usize, usize),
        ptrs: (u64, u64, u64, u64),
        checkpoint: usize,
        later: usize,
        ptr: u64,
    )
        ensures
            ({
                let kept = self.with_drafter(drafter, kv, sources, ptrs, checkpoint);
                let d = kept.drafter->Some_0;
                let shadow = d.shadow_kv->Some_0;
                &&& kept.drafter is Some
                &&& kept.drafter_wanted() == Ok::<Option<(usize, usize)>, RuntimeError>(None)
                &&& kept.with_kv_state(later).drafter_wanted() == kept.drafter_wanted()
                &&& kept.with_kv_state(later).drafter == kept.drafter
                &&& kept.with_last_hidden(ptr, later).drafter == kept.drafter
                &&& d.kernels.masked_embedder && d.kernels.flash_attention
                    && d.kernels.flash_attention_bc16 && d.kernels.dequant_fp8
                    && d.kernels.dequant_nvfp4
                &&& d.shadow_kv is Some
                &&& shadow.block_size == kv.block_size
                &&& shadow.num_blocks_total == kv.max_pos
                &&& shadow.max_blocks_per_seq == kv.max_pos
            }),
    {
    }

    /// Takes up a loaded drafter: all its kernels, its shadow cache over the
    /// regions that were allocated for it, and a checkpoint behind them.
    pub fn keep_drafter(
        &mut self,
        drafter: Gemma4DrafterRuntime,
        kv: &Gemma4Nvfp4KvState,
        sources: (usize, usize),
        ptrs: (u64, u64, u64, u64),
        checkpoint: usize,
    )
        requires
            old(self).drafter_fits(&drafter, kv, sources),
        ensures
            *final(self) == old(self).with_drafter(drafter, kv, sources, ptrs, checkpoint),
    {
        let s: usize = self.plan_shadow_bytes(kv, sources.0);
        let f: usize = self.plan_shadow_bytes(kv, sources.1);
        proof {
            self.lemma_shadow_bytes_positive(kv, sources.0 as int);
            self.lemma_shadow_bytes_positive(kv, sources.1 as int);
        }
        let shadow = DrafterShadowKv {
            sliding_k_ptr: ptrs.0,
            sliding_v_ptr: ptrs.1,
            full_k_ptr: ptrs.2,
            full_v_ptr: ptrs.3,
            sliding_layer_bytes: s,
            full_layer_bytes: f,
            block_size: kv.block_size,
            num_blocks_total: kv.max_pos,
            max_blocks_per_seq: kv.max_pos,
            sliding_num_kv_heads: self.arch.num_kv_heads_for_layer(sources.0) as u32,
            sliding_head_dim: self.arch.head_dim_for_layer(sources.0) as u32,
            full_num_kv_heads: self.arch.num_kv_heads_for_layer(sources.1) as u32,
            full_head_dim: self.arch.head_dim_for_layer(sources.1) as u32,
        };
        let mut rt = drafter;
        rt.attach_masked_embedder_kernel();
        rt.attach_flash_attention_kernel();
        rt.attach_flash_attention_bc16_kernel();
        rt.attach_drafter_dequant_kernels();
        rt.attach_shadow_kv(shadow);
        self.forward_checkpoint = checkpoint;
        self.drafter = Some(rt);
    }

    proof fn lemma_shadow_bytes_positive(&self, kv: &Gemma4Nvfp4KvState, l: int)
        ensures
            self.shadow_bytes(kv, l) >= 0,
    {
        let heads = self.arch.num_kv_heads(l) as u32;
        let width = self.arch.head_dim(l) as u32;
        assert(kv.max_pos * kv.block_size * heads * width * 2 >= 0) by (nonlinear_arith);
    }

    /// The base cache at a source layer.
    pub open spec fn source_of(kv: &Gemma4Nvfp4KvState, l: int) -> SourceLayer {
        SourceLayer {
            k: kv.k_packed_layer_ptrs@[l],
            v: kv.v_packed_layer_ptrs@[l],
            k_scale: kv.k_scale_layer_ptrs@[l],
            v_scale: kv.v_scale_layer_ptrs@[l],
            dtype: KvDtype::Nvfp4,
        }
    }

    fn plan_source(kv: &Gemma4Nvfp4KvState, l: usize) -> (r: SourceLayer)
        requires
            kv.covers(l as nat + 1),
        ensures
            r == Self::source_of(kv, l as int),
    {
        SourceLayer {
            k: kv.k_packed_layer_ptrs[l],
            v: kv.v_packed_layer_ptrs[l],
            k_scale: kv.k_scale_layer_ptrs[l],
            v_scale: kv.v_scale_layer_ptrs[l],
            dtype: KvDtype::Nvfp4,
        }
    }

    /// Fills a range of slots of the shadow cache from the base cache.
    pub open spec fn shadow_fill(
        &self,
        drafter: &Gemma4DrafterRuntime,
        kv: &Gemma4Nvfp4KvState,
        start: u32,
        count: u32,
    ) -> ProgramView {
        if drafter.shadow_kv is None {
            refuses(
                corrupt_runtime_err(
                    Reason::plain(
                        "populate_drafter_shadow_kv: shadow KV not attached (ensure_drafter_nvfp4 should have done this)",
                    ),
                ),
            )
        } else {
            match self.arch.assistant_shared_kv_sources {
                None => refuses(
                    corrupt_runtime_err(
                        Reason::plain("populate_drafter_shadow_kv: arch has no source pair"),
                    ),
                ),
                Some((s, f)) => if count == 0 {
                    completes(Seq::empty())
                } else {
                    drafter.fill_slots(
                        Self::source_of(kv, s as int),
                        Self::source_of(kv, f as int),
                        Slots::Range { start, count },
                    )
                },
            }
        }
    }

    /// Whether a range of slots has addresses in the shadow cache and in the
    /// source layers of the base cache.
    pub open spec fn range_reaches(
        &self,
        drafter: &Gemma4DrafterRuntime,
        kv: &Gemma4Nvfp4KvState,
        start: u32,
        count: u32,
    ) -> bool {
        self.arch.assistant_shared_kv_sources matches Some((s, f)) ==> {
            &&& kv.covers(s as nat + 1)
            &&& kv.covers(f as nat + 1)
            &&& drafter.slots_reach(
                Self::source_of(kv, s as int),
                Self::source_of(kv, f as int),
                Slots::Range { start, count },
            )
        }
    }

    /// Whether a range of slots has addresses in both caches.
    pub fn check_range(
        &self,
        drafter: &Gemma4DrafterRuntime,
        kv: &Gemma4Nvfp4KvState,
        start: u32,
        count: u32,
    ) -> (r: bool)
        ensures
            r == self.range_reaches(drafter, kv, start, count),
    {
        match self.arch.assistant_shared_kv_sources {
            None => true,
            Some((s, f)) => {
                let layers: usize = kv.k_packed_layer_ptrs.len();
                if s >= layers || f >= layers {
                    return false;
                }
                kv.check_covers(s + 1) && kv.check_covers(f + 1) && drafter.check_slots(
                    Self::plan_source(kv, s),
                    Self::plan_source(kv, f),
                    Slots::Range { start, count },
                )
            },
        }
    }

    /// Fills a range of slots of the shadow cache from both source layers;
    /// nothing for an empty range.
    pub fn populate_drafter_shadow_kv_with_rt(
        &self,
        drafter: &Gemma4DrafterRuntime,
        kv: &Gemma4Nvfp4KvState,
        slot_start: u32,
        slot_count: u32,
    ) -> (r: Program)
        requires
            self.range_reaches(drafter, kv, slot_start, slot_count),
        ensures
            r@ == self.shadow_fill(drafter, kv, slot_start, slot_count),
    {
        let shadow = match &drafter.shadow_kv {
            Some(s) => s,
            None => {
                return Program::refuse(
                    corrupt_runtime_err(
                        Reason::plain(
                            "populate_drafter_shadow_kv: shadow KV not attached (ensure_drafter_nvfp4 should have done this)",
                        ),
                    ),
                );
            },
        };
        let (sliding, full): (usize, usize) = match self.arch.assistant_shared_kv_sources {
            Some(pair) => pair,
            None => {
                return Program::refuse(
                    corrupt_runtime_err(
                        Reason::plain("populate_drafter_shadow_kv: arch has no source pair"),
                    ),
                );
            },
        };
        drafter.populate_shadow_kv_range_from_base(
            Self::plan_source(kv, sliding),
            Self::plan_source(kv, full),
            shadow.sliding_layer_bytes,
            shadow.full_layer_bytes,
            slot_start,
            slot_count,
        )
    }

    /// Fills a range of slots of the loaded drafter's shadow cache; refused
    /// where no drafter is loaded.
    pub fn populate_drafter_shadow_kv(
        &self,
        kv: &Gemma4Nvfp4KvState,
        slot_start: u32,
        slot_count: u32,
    ) -> (r: Program)
        requires
            self.drafter matches Some(d) ==> self.range_reaches(&d, kv, slot_start, slot_count),
        ensures
            r@ == (match self.drafter {
                None => refuses(
                    corrupt_runtime_err(
                        Reason::plain(
                            "populate_drafter_shadow_kv: drafter not loaded; call ensure_drafter_nvfp4 first",
                        ),
                    ),
                ),
                Some(d) => self.shadow_fill(&d, kv, slot_start, slot_count),
            }),
    {
        match &self.drafter {
            None => Program::refuse(
                corrupt_runtime_err(
                    Reason::plain(
                        "populate_drafter_shadow_kv: drafter not loaded; call ensure_drafter_nvfp4 first",
                    ),
                ),
            ),
            Some(d) => self.populate_drafter_shadow_kv_with_rt(d, kv, slot_start, slot_count),
        }
    }

    /// What the cache holds of a layer, for the drafter.
    pub open spec fn base_kv_view(&self, kv: &Gemma4Nvfp4KvState, l: int) -> Result<
        DrafterBaseKvView,
        RuntimeError,
    > {
        if l >= self.arch.num_hidden_layers {
            Err(
                corrupt_runtime_err(
                    Reason::two(
                        "drafter_base_kv_view: layer_idx=",
                        Arg::U(l as u64),
                        " >= num_hidden_layers=",
                        Arg::U(self.arch.num_hidden_layers as u64),
                        "",
                    ),
                ),
            )
        } else {
            Ok(
                DrafterBaseKvView {
                    k_cache: kv.k_packed_layer_ptrs@[l],
                    v_cache: kv.v_packed_layer_ptrs@[l],
                    k_scale_cache: kv.k_scale_layer_ptrs@[l],
                    v_scale_cache: kv.v_scale_layer_ptrs@[l],
                    q_scale_cache: 0,
                    block_tables: kv.block_tables_ptr,
                    context_lens: kv.context_lens_ptr,
                    block_size: kv.block_size,
                    max_blocks_per_seq: kv.max_pos,
                    num_blocks_total: kv.max_pos,
                    kv_dtype: KvDtype::Nvfp4,
                },
            )
        }
    }

    /// What the cache holds of a layer, for the drafter.
    pub fn drafter_base_kv_view(&self, kv: &Gemma4Nvfp4KvState, layer_idx: usize) -> (r: Result<
        DrafterBaseKvView,
        RuntimeError,
    >)
        requires
            kv.covers(self.arch.num_hidden_layers as nat),
        ensures
            r == self.base_kv_view(kv, layer_idx as int),
    {
        if layer_idx >= self.arch.num_hidden_layers {
            return Err(
                corrupt_runtime_err(
                    Reason::two(
                        "drafter_base_kv_view: layer_idx=",
                        Arg::U(layer_idx as u64),
                        " >= num_hidden_layers=",
                        Arg::U(self.arch.num_hidden_layers as u64),
                        "",
                    ),
                ),
            );
        }
        Ok(
            DrafterBaseKvView {
                k_cache: kv.k_packed_layer_ptrs[layer_idx],
                v_cache: kv.v_packed_layer_ptrs[layer_idx],
                k_scale_cache: kv.k_scale_layer_ptrs[layer_idx],
                v_scale_cache: kv.v_scale_layer_ptrs[layer_idx],
                q_scale_cache: 0,
                block_tables: kv.block_tables_ptr,
                context_lens: kv.context_lens_ptr,
                block_size: kv.block_size,
                max_blocks_per_seq: kv.max_pos,
                num_blocks_total: kv.max_pos,
                kv_dtype: KvDtype::Nvfp4,
            },
        )
    }
}

/// A model and its cache as the source of a drafter.
pub struct Gemma4Nvfp4BaseKvSource<'a> {
    pub bringup: &'a Gemma4Nvfp4Bringup,
    pub kv: &'a Gemma4Nvfp4KvState,
}

impl<'a> BaseKvSource for Gemma4Nvfp4BaseKvSource<'a> {
    open spec fn valid(&self) -> bool {
        self.kv.covers(self.bringup.arch.num_hidden_layers as nat)
    }

    open spec fn kv_view(&self, layer: int) -> Result<DrafterBaseKvView, RuntimeError> {
        self.bringup.base_kv_view(self.kv, layer)
    }

    open spec fn sources(&self) -> Option<(usize, usize)> {
        self.bringup.arch.assistant_shared_kv_sources
    }

    fn drafter_base_kv_view(&self, layer_idx: usize) -> (r: Result<
        DrafterBaseKvView,
        RuntimeError,
    >) {
        self.bringup.drafter_base_kv_view(self.kv, layer_idx)
    }

    fn assistant_shared_kv_sources(&self) -> (r: Option<(usize, usize)>) {
        self.bringup.arch.assistant_shared_kv_sources
    }
}

/// A range of slots that the cache has is mirrored whole: the shadow cache is
/// as long as the base cache, whose blocks hold one position.
pub proof fn law_shadow_covers_cache(
    b: &Gemma4Nvfp4Bringup,
    kv: &Gemma4Nvfp4KvState,
    sources: (usize, usize),
    ptrs: (u64, u64, u64, u64),
    start: u32,
    count: u32,
)
    requires
        kv.block_size == 1,
        start + count <= kv.max_pos,
        b.shadow_fits(kv, sources.0),
        b.shadow_fits(kv, sources.1),
    ensures
        ({
            let shadow = b.shadow_of(kv, sources, ptrs);
            let slots = Slots::Range { start, count };
            &&& crate::runtime::gemma4_drafter::shadow::span(
                slots,
                shadow.sliding_per_slot(),
                (shadow.sliding_layer_bytes / 2) as int,
            ) == (start * shadow.sliding_per_slot(), count * shadow.sliding_per_slot())
            &&& crate::runtime::gemma4_drafter::shadow::span(
                slots,
                shadow.full_per_slot(),
                (shadow.full_layer_bytes / 2) as int,
            ) == (start * shadow.full_per_slot(), count * shadow.full_per_slot())
        }),
{
    let shadow = b.shadow_of(kv, sources, ptrs);
    let (h, w) = (shadow.sliding_num_kv_heads as int, shadow.sliding_head_dim as int);
    let (g, v) = (shadow.full_num_kv_heads as int, shadow.full_head_dim as int);
    let p = kv.max_pos as int;
    let (s, c) = (start as int, count as int);
    b.lemma_shadow_bytes_positive(kv, sources.0 as int);
    b.lemma_shadow_bytes_positive(kv, sources.1 as int);
    assert(p * 1 * h * w * 2 == 2 * (p * (h * w)) && p * 1 * g * v * 2 == 2 * (p * (g * v)))
        by (nonlinear_arith);
    assert(s * (h * w) + c * (h * w) <= p * (h * w) && s * (g * v) + c * (g * v) <= p * (g * v)
        && 0 <= s * (h * w) && 0 <= c * (h * w) && 0 <= s * (g * v) && 0 <= c * (g * v))
        by (nonlinear_arith)
        requires
            0 <= s,
            0 <= c,
            s + c <= p,
            0 <= h,
            0 <= w,
            0 <= g,
            0 <= v,
    ;
}

} // verus!
