//! The drafter on the device: its weights, its shadow cache and the programs
//! that fill and read them.

pub mod addresses;
pub mod cross_attn;
pub mod load;
pub mod origin;
pub mod shadow;
pub mod workspace;

use crate::loader::gemma4_drafter::{
    DrafterLayerType, Gemma4DrafterArch, Gemma4DrafterWeightLayout,
};
use crate::runtime::error::{drafter_err, RuntimeError};
use crate::runtime::gemma4_drafter::workspace::DrafterStepWorkspace;
use crate::runtime::step::{completes, refuses, Buf, OnFail, Program, ProgramView, Step};
use vstd::prelude::*;

verus! {

/// Element format of a key/value cache.
#[derive(Clone, Copy, Debug, PartialEq, Eq, Structural)]
pub enum KvDtype {
    F16Kv,
    Fp8,
    Nvfp4,
}

/// Device addresses of one layer's weights.
#[derive(Clone, Debug)]
pub struct Gemma4DrafterLayerPtrs {
    pub input_layernorm: u64,
    pub post_attention_layernorm: u64,
    pub pre_feedforward_layernorm: u64,
    pub post_feedforward_layernorm: u64,
    pub layer_scalar: u64,
    /// Bit pattern of the layer scalar as a 32-bit number.
    pub layer_scalar_bits: u32,
    pub mlp_gate_proj: u64,
    pub mlp_up_proj: u64,
    pub mlp_down_proj: u64,
    pub self_attn_q_proj: u64,
    pub self_attn_q_norm: u64,
    pub self_attn_o_proj: u64,
    pub effective_head_dim: usize,
    pub layer_type: DrafterLayerType,
}

/// Device addresses of the weights outside the layers.
#[derive(Clone, Debug)]
pub struct Gemma4DrafterTopPtrs {
    pub centroids: Option<u64>,
    pub token_ordering: Option<u64>,
    pub embed_tokens: u64,
    pub pre_projection: u64,
    pub post_projection: u64,
    pub final_norm: u64,
}

/// 16-bit mirror of the base model's cache at the two layers that the drafter
/// reads.
#[derive(Clone, Copy, Debug)]
pub struct DrafterShadowKv {
    pub sliding_k_ptr: u64,
    pub sliding_v_ptr: u64,
    pub full_k_ptr: u64,
    pub full_v_ptr: u64,
    /// Bytes of the keys, and of the values, of each layer.
    pub sliding_layer_bytes: usize,
    pub full_layer_bytes: usize,
    pub block_size: u32,
    pub num_blocks_total: u32,
    pub max_blocks_per_seq: u32,
    pub sliding_num_kv_heads: u32,
    pub sliding_head_dim: u32,
    pub full_num_kv_heads: u32,
    pub full_head_dim: u32,
}

/// Which kernels of the drafter are loaded.
#[derive(Clone, Copy, Debug, PartialEq, Eq, Structural)]
pub struct DrafterKernels {
    pub masked_embedder: bool,
    pub flash_attention: bool,
    pub flash_attention_bc16: bool,
    pub dequant_fp8: bool,
    pub dequant_nvfp4: bool,
}

/// An uploaded drafter.
#[derive(Debug)]
pub struct Gemma4DrafterRuntime {
    pub arch: Gemma4DrafterArch,
    pub top: Gemma4DrafterTopPtrs,
    pub layers: Vec<Gemma4DrafterLayerPtrs>,
    /// Bytes on the device.
    pub bytes_resident: usize,
    pub shard_path: String,
    pub kernels: DrafterKernels,
    pub shadow_kv: Option<DrafterShadowKv>,
}

/// A layer of the base model's cache, as the drafter's attention sees it.
#[derive(Clone, Copy, Debug, PartialEq, Eq, Structural)]
pub struct DrafterBaseKvView {
    pub k_cache: u64,
    pub v_cache: u64,
    /// Scales of the keys; zero for a 16-bit cache.
    pub k_scale_cache: u64,
    /// Scales of the values; zero for a 16-bit cache.
    pub v_scale_cache: u64,
    /// Scales of the queries; zero where there are none for each token.
    pub q_scale_cache: u64,
    pub block_tables: u64,
    /// One 32-bit length of the context.
    pub context_lens: u64,
    pub block_size: u32,
    pub max_blocks_per_seq: u32,
    pub num_blocks_total: u32,
    pub kv_dtype: KvDtype,
}

/// The cache of a base model that a drafter reads.
pub trait BaseKvSource {
    /// Whether the source can be asked.
    spec fn valid(&self) -> bool;

    /// What the cache holds of a layer.
    spec fn kv_view(&self, layer: int) -> Result<DrafterBaseKvView, RuntimeError>;

    /// The two layers that the drafter reads.
    spec fn sources(&self) -> Option<(usize, usize)>;

    /// What the cache holds of a layer.
    fn drafter_base_kv_view(&self, layer_idx: usize) -> (r: Result<
        DrafterBaseKvView,
        RuntimeError,
    >)
        requires
            self.valid(),
        ensures
            r == self.kv_view(layer_idx as int),
    ;

    /// The sliding and the global layer that the drafter reads; none where the
    /// checkpoint has no drafter.
    fn assistant_shared_kv_sources(&self) -> (r: Option<(usize, usize)>)
        ensures
            r == self.sources(),
    ;
}

/// One step of the drafter; all pointers are device addresses.
#[derive(Clone, Copy, Debug)]
pub struct DrafterForwardStep {
    /// Normalized hidden state of the base model for the last accepted token.
    pub base_hidden_last_step: u64,
    /// The base model's embedding of the last accepted token.
    pub last_token_embed: u64,
    pub sliding_kv: DrafterBaseKvView,
    pub full_kv: DrafterBaseKvView,
    /// Position of the token that is drafted.
    pub position: u32,
    pub out_logits: u64,
    /// Hidden state for the next step.
    pub out_hidden: u64,
    /// One 32-bit token.
    pub out_token_id: u64,
}

/// Refuses a missing pointer.
pub fn validate_ptr(name: &'static str, ptr: u64, head_dim: u32) -> (r: Result<(), RuntimeError>)
    ensures
        r == (if ptr != 0 {
            Ok(())
        } else {
            Err(drafter_err(name, name, head_dim))
        }),
{
    if ptr != 0 {
        return Ok(());
    }
    Err(drafter_err(name, name, head_dim))
}

/// The first of three pointers that is missing.
pub open spec fn pointer_fault(
    step: &DrafterForwardStep,
    workspace: &DrafterStepWorkspace,
    head_dim: u32,
) -> Option<RuntimeError> {
    if step.last_token_embed == 0 {
        Some(
            drafter_err("drafter.last_token_embed", "drafter.last_token_embed", head_dim),
        )
    } else if step.base_hidden_last_step == 0 {
        Some(
            drafter_err(
                "drafter.base_hidden_last_step",
                "drafter.base_hidden_last_step",
                head_dim,
            ),
        )
    } else if workspace.pre_projection_in == 0 {
        Some(
            drafter_err("drafter.pre_projection_in", "drafter.pre_projection_in", head_dim),
        )
    } else {
        None
    }
}

impl Gemma4DrafterRuntime {
    /// The input of the first projection: the embedding of the last token, and
    /// behind it the base model's hidden state.
    pub open spec fn pre_projection_input(
        &self,
        step: &DrafterForwardStep,
        workspace: &DrafterStepWorkspace,
    ) -> ProgramView {
        let half = (2 * self.arch.backbone_hidden_size) as usize;
        match pointer_fault(step, workspace, self.arch.head_dim_global as u32) {
            Some(e) => refuses(e),
            None => completes(
                seq![
                    Step::Copy {
                        dst: Buf::At(workspace.pre_projection_in),
                        src: Buf::At(step.last_token_embed),
                        bytes: half,
                        on_fail: OnFail::Memcpy("drafter_pre_projection_last_token_dtoD"),
                    },
                    Step::Copy {
                        dst: Buf::At((workspace.pre_projection_in + half) as u64),
                        src: Buf::At(step.base_hidden_last_step),
                        bytes: half,
                        on_fail: OnFail::Memcpy("drafter_pre_projection_base_hidden_dtoD"),
                    },
                ],
            ),
        }
    }

    /// The input of the first projection.
    pub fn prepare_pre_projection_input(
        &self,
        step: &DrafterForwardStep,
        workspace: &DrafterStepWorkspace,
    ) -> (r: Program)
        requires
            2 * self.arch.backbone_hidden_size <= usize::MAX,
            workspace.pre_projection_in + 2 * self.arch.backbone_hidden_size <= u64::MAX,
        ensures
            r@ == self.pre_projection_input(step, workspace),
    {
        let hd: u32 = self.arch.head_dim_global as u32;
        if let Err(e) = validate_ptr("drafter.last_token_embed", step.last_token_embed, hd) {
            return Program::refuse(e);
        }
        if let Err(e) = validate_ptr(
            "drafter.base_hidden_last_step",
            step.base_hidden_last_step,
            hd,
        ) {
            return Program::refuse(e);
        }
        if let Err(e) = validate_ptr(
            "drafter.pre_projection_in",
            workspace.pre_projection_in,
            hd,
        ) {
            return Program::refuse(e);
        }
        let half: usize = self.arch.backbone_hidden_size * 2;
        let s: Vec<Step> =
            vec![
            Step::Copy {
                dst: Buf::At(workspace.pre_projection_in),
                src: Buf::At(step.last_token_embed),
                bytes: half,
                on_fail: OnFail::Memcpy("drafter_pre_projection_last_token_dtoD"),
            },
            Step::Copy {
                dst: Buf::At(workspace.pre_projection_in + half as u64),
                src: Buf::At(step.base_hidden_last_step),
                bytes: half,
                on_fail: OnFail::Memcpy("drafter_pre_projection_base_hidden_dtoD"),
            },
        ];
        let r = Program::complete(s);
        assert(r@ =~= self.pre_projection_input(step, workspace));
        r
    }

    /// One step of the drafter. Only the input of the first projection is
    /// prepared; then the step reports that the rest is not there.
    pub fn forward_step(&self, step: DrafterForwardStep, workspace: &DrafterStepWorkspace) -> (r:
        Program)
        requires
            2 * self.arch.backbone_hidden_size <= usize::MAX,
            workspace.pre_projection_in + 2 * self.arch.backbone_hidden_size <= u64::MAX,
        ensures
            r@ == self.pre_projection_input(&step, workspace).followed_by(
                refuses(
                    drafter_err(
                        "Gemma4DrafterRuntime::forward_step (pre_projection + cross-attn + MaskedEmbedder pending)",
                        "Gemma4DrafterRuntime::forward_step",
                        self.arch.head_dim_global as u32,
                    ),
                ),
            ),
    {
        self.prepare_pre_projection_input(&step, workspace).followed_by(
            Program::refuse(
                drafter_err(
                    "Gemma4DrafterRuntime::forward_step (pre_projection + cross-attn + MaskedEmbedder pending)",
                    "Gemma4DrafterRuntime::forward_step",
                    self.arch.head_dim_global as u32,
                ),
            ),
        )
    }

    /// Takes up the kernel of the sparse head.
    pub fn attach_masked_embedder_kernel(&mut self)
        ensures
            *final(self) == (Gemma4DrafterRuntime {
                kernels: DrafterKernels { masked_embedder: true, ..old(self).kernels },
                ..*old(self)
            }),
    {
        self.kernels.masked_embedder = true;
    }

    /// Takes up the attention kernel with tiles of 32 positions.
    pub fn attach_flash_attention_kernel(&mut self)
        ensures
            *final(self) == (Gemma4DrafterRuntime {
                kernels: DrafterKernels { flash_attention: true, ..old(self).kernels },
                ..*old(self)
            }),
    {
        self.kernels.flash_attention = true;
    }

    /// Takes up the attention kernel with tiles of 16 positions.
    pub fn attach_flash_attention_bc16_kernel(&mut self)
        ensures
            *final(self) == (Gemma4DrafterRuntime {
                kernels: DrafterKernels { flash_attention_bc16: true, ..old(self).kernels },
                ..*old(self)
            }),
    {
        self.kernels.flash_attention_bc16 = true;
    }

    /// Takes up both kernels that decode a base cache.
    pub fn attach_drafter_dequant_kernels(&mut self)
        ensures
            *final(self) == (Gemma4DrafterRuntime {
                kernels: DrafterKernels {
                    dequant_fp8: true,
                    dequant_nvfp4: true,
                    ..old(self).kernels
                },
                ..*old(self)
            }),
    {
        self.kernels.dequant_fp8 = true;
        self.kernels.dequant_nvfp4 = true;
    }

    /// Takes up the shadow cache and counts its bytes: keys and values of both
    /// layers.
    pub fn attach_shadow_kv(&mut self, shadow: DrafterShadowKv)
        requires
            old(self).bytes_resident + 2 * (shadow.sliding_layer_bytes + shadow.full_layer_bytes)
                <= usize::MAX,
        ensures
            *final(self) == (Gemma4DrafterRuntime {
                shadow_kv: Some(shadow),
                bytes_resident: (old(self).bytes_resident + 2 * (shadow.sliding_layer_bytes
                    + shadow.full_layer_bytes)) as usize,
                ..*old(self)
            }),
    {
        self.shadow_kv = Some(shadow);
        self.bytes_resident = self.bytes_resident + 2 * (shadow.sliding_layer_bytes
            + shadow.full_layer_bytes);
    }

    /// A drafter of the right shape without a device: every pointer is zero,
    /// every layer scalar one.
    pub fn load_mock(layout: &Gemma4DrafterWeightLayout) -> (r: Gemma4DrafterRuntime)
        ensures
            r.arch@ == layout.arch@,
            r.shard_path@ == layout.shard_path@,
            r.bytes_resident == 0,
            r.shadow_kv is None,
            r.kernels == no_kernels(),
            r.top == (Gemma4DrafterTopPtrs {
                centroids: None,
                token_ordering: None,
                embed_tokens: 0,
                pre_projection: 0,
                post_projection: 0,
                final_norm: 0,
            }),
            r.layers@ == Seq::new(
                layout.layers@.len(),
                |i: int|
                    mock_layer(
                        layout.layers@[i].effective_head_dim,
                        layout.layers@[i].layer_type,
                    ),
            ),
    {
        let mut layers: Vec<Gemma4DrafterLayerPtrs> = Vec::new();
        let n: usize = layout.layers.len();
        let mut i: usize = 0;
        while i < n
            invariant
                n == layout.layers@.len(),
                i <= n,
                layers@ =~= Seq::new(
                    i as nat,
                    |j: int|
                        mock_layer(
                            layout.layers@[j].effective_head_dim,
                            layout.layers@[j].layer_type,
                        ),
                ),
            decreases n - i,
        {
            layers.push(
                Gemma4DrafterLayerPtrs {
                    input_layernorm: 0,
                    post_attention_layernorm: 0,
                    pre_feedforward_layernorm: 0,
                    post_feedforward_layernorm: 0,
                    layer_scalar: 0,
                    layer_scalar_bits: 0x3f80_0000,
                    mlp_gate_proj: 0,
                    mlp_up_proj: 0,
                    mlp_down_proj: 0,
                    self_attn_q_proj: 0,
                    self_attn_q_norm: 0,
                    self_attn_o_proj: 0,
                    effective_head_dim: layout.layers[i].effective_head_dim,
                    layer_type: layout.layers[i].layer_type,
                },
            );
            i = i + 1;
        }
        Gemma4DrafterRuntime {
            arch: layout.arch.dup(),
            top: Gemma4DrafterTopPtrs {
                centroids: None,
                token_ordering: None,
                embed_tokens: 0,
                pre_projection: 0,
                post_projection: 0,
                final_norm: 0,
            },
            layers,
            bytes_resident: 0,
            shard_path: layout.shard_path.clone(),
            kernels: DrafterKernels {
                masked_embedder: false,
                flash_attention: false,
                flash_attention_bc16: false,
                dequant_fp8: false,
                dequant_nvfp4: false,
            },
            shadow_kv: None,
        }
    }
}

/// No kernel is loaded.
pub open spec fn no_kernels() -> DrafterKernels {
    DrafterKernels {
        masked_embedder: false,
        flash_attention: false,
        flash_attention_bc16: false,
        dequant_fp8: false,
        dequant_nvfp4: false,
    }
}

/// A layer without a device.
pub open spec fn mock_layer(head_dim: usize, layer_type: DrafterLayerType) -> Gemma4DrafterLayerPtrs {
    Gemma4DrafterLayerPtrs {
        input_layernorm: 0,
        post_attention_layernorm: 0,
        pre_feedforward_layernorm: 0,
        post_feedforward_layernorm: 0,
        layer_scalar: 0,
        layer_scalar_bits: 0x3f80_0000,
        mlp_gate_proj: 0,
        mlp_up_proj: 0,
        mlp_down_proj: 0,
        self_attn_q_proj: 0,
        self_attn_q_norm: 0,
        self_attn_o_proj: 0,
        effective_head_dim: head_dim,
        layer_type,
    }
}

} // verus!
