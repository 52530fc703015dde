//! The loaded model and the limits that its dimensions keep to.

use crate::loader::gemma4_arch::Gemma4Arch;
use crate::loader::gemma4_nvfp4_weights::Gemma4Nvfp4LoadedModel;
use crate::runtime::gemma4_drafter::Gemma4DrafterRuntime;
use crate::runtime::gemma4_nvfp4_bring_up::launches::{decode_shared, HeadPlan};
use vstd::prelude::*;

verus! {

/// Tables beside the checkpoint's weights: the head of the language model and
/// the rotary tables of both kinds of layers, by device address.
#[derive(Clone, Copy, Debug)]
pub struct ForwardTables {
    pub lm_head_tokens: u64,
    pub rope_cos_sliding: u64,
    pub rope_sin_sliding: u64,
    pub rope_cos_global: u64,
    pub rope_sin_global: u64,
}

/// The model as the forward path sees it.
#[derive(Debug)]
pub struct Gemma4Nvfp4Bringup {
    pub arch: Gemma4Arch,
    pub model: Gemma4Nvfp4LoadedModel,
    pub tables: ForwardTables,
    /// High-water mark of the arena to which scratch is given back.
    pub forward_checkpoint: usize,
    /// Whether a cache was allocated.
    pub kv_state_allocated: bool,
    /// The drafter, once it was loaded.
    pub drafter: Option<Gemma4DrafterRuntime>,
    /// Buffer for the last hidden state, zero until it is allocated.
    pub base_last_hidden_ptr: u64,
}

/// Widths of a layer's projections.
#[derive(Clone, Copy, Debug)]
pub struct ProjPlan {
    pub n_q: i32,
    pub n_kv: i32,
    pub n_v: i32,
    /// Address of the value projection; the keys serve as values without one.
    pub v_weight: Option<u64>,
}

/// What is wrong with a layer's value projection.
#[derive(Clone, Copy, Debug, PartialEq, Eq, Structural)]
pub enum ValueFault {
    /// A global layer has one.
    Present,
    /// A sliding layer has none.
    Absent,
}

impl Gemma4Nvfp4Bringup {
    /// Dimensions that 32-bit kernel arguments and region sizes can hold, for
    /// `n` tokens at a time.
    pub open spec fn fits(&self, n: nat) -> bool {
        &&& self.arch.wf()
        &&& self.model.layers@.len() == self.arch.num_hidden_layers
        &&& 4 * n * self.arch.hidden_size <= usize::MAX
        &&& n * self.arch.hidden_size <= 0x7fff_ffff
        &&& 4 * self.arch.vocab_size <= usize::MAX
        &&& self.arch.vocab_size <= 0x7fff_ffff
        &&& 4 * self.arch.intermediate_size <= usize::MAX
        &&& self.arch.intermediate_size <= 0x3fff_ffff
        &&& self.arch.sliding_window_size <= 0x7fff_ffff
        &&& forall|l: int| 0 <= l < self.model.layers@.len() ==> #[trigger] self.layer_fits(l, n)
    }

    /// The same of one layer.
    pub open spec fn layer_fits(&self, l: int, n: nat) -> bool {
        let layer = self.model.layers@[l];
        &&& layer.q_proj.shape@.len() >= 1
        &&& layer.k_proj.shape@.len() >= 1
        &&& layer.o_proj.shape@.len() >= 2
        &&& layer.v_proj matches Some(w) ==> w.shape@.len() >= 1 && w.shape@[0] <= 0x7fff_ffff && n
            * w.shape@[0] <= 0x7fff_ffff && 4 * (n * w.shape@[0]) <= usize::MAX
        &&& layer.q_proj.shape@[0] <= 0x7fff_ffff
        &&& layer.k_proj.shape@[0] <= 0x7fff_ffff
        &&& layer.o_proj.shape@[1] <= 0x7fff_ffff
        &&& 2 * layer.o_proj.shape@[1] <= usize::MAX
        &&& n * layer.q_proj.shape@[0] <= 0x7fff_ffff
        &&& n * layer.k_proj.shape@[0] <= 0x7fff_ffff
        &&& 4 * (n * layer.q_proj.shape@[0]) <= usize::MAX
        &&& 4 * (n * layer.k_proj.shape@[0]) <= usize::MAX
        &&& 0 < self.arch.head_dim(l) <= layer.k_proj.shape@[0]
        &&& decode_shared(self.arch.head_dim(l) as nat, true) <= u32::MAX
        &&& layer.gate_proj.shape.n <= 0x3fff_ffff
    }

    /// What is wrong with the value projection of a layer: global layers have
    /// none, sliding layers have one.
    pub open spec fn value_fault(&self, l: int) -> Option<ValueFault> {
        if self.arch.is_global(l) {
            if self.model.layers@[l].v_proj is Some {
                Some(ValueFault::Present)
            } else {
                None
            }
        } else if self.model.layers@[l].v_proj is None {
            Some(ValueFault::Absent)
        } else {
            None
        }
    }

    /// Widths of a layer's projections.
    pub open spec fn proj(&self, l: int) -> ProjPlan {
        let layer = self.model.layers@[l];
        let n_kv = layer.k_proj.shape@[0] as i32;
        ProjPlan {
            n_q: layer.q_proj.shape@[0] as i32,
            n_kv,
            n_v: match layer.v_proj {
                Some(w) => w.shape@[0] as i32,
                None => n_kv,
            },
            v_weight: match layer.v_proj {
                Some(w) => Some(w.offset_bytes),
                None => None,
            },
        }
    }

    /// Heads and rotation of a layer.
    pub open spec fn heads(&self, l: int) -> HeadPlan {
        let head_dim = self.arch.head_dim(l);
        let layer = self.model.layers@[l];
        HeadPlan {
            num_q_heads: (layer.q_proj.shape@[0] / head_dim) as usize,
            num_kv_heads: (layer.k_proj.shape@[0] / head_dim) as usize,
            head_dim,
            rotary_dim: self.arch.rotary_dim(l),
            window_size_left: if self.arch.is_global(l) {
                -1i32
            } else {
                (self.arch.sliding_window_size - 1) as i32
            },
            cos: if self.arch.is_global(l) {
                self.tables.rope_cos_global
            } else {
                self.tables.rope_cos_sliding
            },
            sin: if self.arch.is_global(l) {
                self.tables.rope_sin_global
            } else {
                self.tables.rope_sin_sliding
            },
        }
    }

    /// Widths of a layer's projections, or what is wrong with its values.
    pub fn plan_proj(&self, layer_idx: usize) -> (r: Result<ProjPlan, ValueFault>)
        requires
            self.fits(1),
            layer_idx < self.arch.num_hidden_layers,
        ensures
            match r {
                Ok(p) => self.value_fault(layer_idx as int) is None && p == self.proj(
                    layer_idx as int,
                ),
                Err(f) => self.value_fault(layer_idx as int) == Some(f),
            },
    {
        assert(self.layer_fits(layer_idx as int, 1));
        let layer = &self.model.layers[layer_idx];
        let n_q: i32 = layer.q_proj.shape[0] as i32;
        let n_kv: i32 = layer.k_proj.shape[0] as i32;
        if self.is_global_layer(layer_idx) {
            match &layer.v_proj {
                Some(_) => Err(ValueFault::Present),
                None => Ok(ProjPlan { n_q, n_kv, n_v: n_kv, v_weight: None }),
            }
        } else {
            match &layer.v_proj {
                Some(w) => Ok(
                    ProjPlan {
                        n_q,
                        n_kv,
                        n_v: w.shape[0] as i32,
                        v_weight: Some(w.offset_bytes),
                    },
                ),
                None => Err(ValueFault::Absent),
            }
        }
    }

    /// Whether a layer attends globally.
    pub fn is_global_layer(&self, layer_idx: usize) -> (r: bool)
        requires
            layer_idx < self.arch.layer_types@.len(),
        ensures
            r == self.arch.is_global(layer_idx as int),
    {
        match self.arch.layer_types[layer_idx] {
            crate::loader::gemma4_arch::Gemma4LayerType::GlobalAttention => true,
            crate::loader::gemma4_arch::Gemma4LayerType::SlidingAttention => false,
        }
    }

    /// Heads and rotation of a layer.
    pub fn plan_heads(&self, layer_idx: usize) -> (r: HeadPlan)
        requires
            self.fits(1),
            layer_idx < self.arch.num_hidden_layers,
        ensures
            r == self.heads(layer_idx as int),
            r.num_kv_heads > 0,
    {
        assert(self.layer_fits(layer_idx as int, 1));
        let layer = &self.model.layers[layer_idx];
        let head_dim: usize = self.arch.head_dim_for_layer(layer_idx);
        let global = self.is_global_layer(layer_idx);
        let window: i32 = if global {
            -1
        } else {
            self.arch.sliding_window_size as i32 - 1
        };
        let num_kv_heads: usize = layer.k_proj.shape[0] / head_dim;
        assert(num_kv_heads >= 1) by (nonlinear_arith)
            requires
                num_kv_heads == layer.k_proj.shape@[0] / head_dim,
                layer.k_proj.shape@[0] >= head_dim,
                head_dim > 0,
        ;
        HeadPlan {
            num_q_heads: layer.q_proj.shape[0] / head_dim,
            num_kv_heads,
            head_dim,
            rotary_dim: self.arch.rotary_dim_for_layer(layer_idx),
            window_size_left: window,
            cos: if global {
                self.tables.rope_cos_global
            } else {
                self.tables.rope_cos_sliding
            },
            sin: if global {
                self.tables.rope_sin_global
            } else {
                self.tables.rope_sin_sliding
            },
        }
    }

    /// Whether the dimensions of a layer are ones that kernel arguments and
    /// region sizes can hold, for `n` tokens at a time.
    fn layer_is_small(&self, l: usize, n: usize) -> (r: bool)
        requires
            self.arch.wf(),
            l < self.model.layers@.len(),
            self.model.layers@.len() == self.arch.num_hidden_layers,
        ensures
            r == self.layer_fits(l as int, n as nat),
    {
        let layer = &self.model.layers[l];
        if layer.q_proj.shape.len() < 1 || layer.k_proj.shape.len() < 1 || layer.o_proj.shape.len()
            < 2 {
            return false;
        }
        if let Some(w) = &layer.v_proj {
            if w.shape.len() < 1 || !rows_are_small(w.shape[0], n) {
                return false;
            }
        }
        let head_dim: usize = self.arch.head_dim_for_layer(l);
        let o: usize = layer.o_proj.shape[1];
        rows_are_small(layer.q_proj.shape[0], n) && rows_are_small(layer.k_proj.shape[0], n) && o
            <= 0x7fff_ffff && o <= usize::MAX / 2 && 0 < head_dim && head_dim
            <= layer.k_proj.shape[0] && 128 * (head_dim as u128) + 528 <= 0xffff_ffff
            && layer.gate_proj.shape.n <= 0x3fff_ffff
    }

    /// Whether the dimensions are ones that kernel arguments and region sizes
    /// can hold, for `n` tokens at a time: every plan asks for that.
    pub fn check_fits(&self, n: usize) -> (r: bool)
        ensures
            r == self.fits(n as nat),
    {
        let layers: usize = self.model.layers.len();
        if self.arch.layer_types.len() != self.arch.num_hidden_layers
            || self.arch.kv_share_sources.len() != self.arch.num_hidden_layers || layers
            != self.arch.num_hidden_layers {
            return false;
        }
        let tokens: u128 = n as u128;
        let width: u128 = self.arch.hidden_size as u128;
        proof {
            lemma_product_small(n as int, self.arch.hidden_size as int);
        }
        let elems: u128 = tokens * width;
        assert(4 * (n as nat) * self.arch.hidden_size == 4 * elems) by (nonlinear_arith)
            requires
                elems == n * self.arch.hidden_size,
        ;
        if !(elems <= (usize::MAX as u128) / 4 && elems <= 0x7fff_ffff && self.arch.vocab_size
            <= usize::MAX / 4 && self.arch.vocab_size <= 0x7fff_ffff
            && self.arch.intermediate_size <= usize::MAX / 4 && self.arch.intermediate_size
            <= 0x3fff_ffff && self.arch.sliding_window_size <= 0x7fff_ffff) {
            return false;
        }
        let mut l: usize = 0;
        while l < layers
            invariant
                l <= layers,
                layers == self.model.layers@.len(),
                self.arch.wf(),
                self.model.layers@.len() == self.arch.num_hidden_layers,
                forall|i: int| 0 <= i < l ==> #[trigger] self.layer_fits(i, n as nat),
            decreases layers - l,
        {
            if !self.layer_is_small(l, n) {
                return false;
            }
            l = l + 1;
        }
        true
    }
}

/// A product of two sizes has 128 bits at most.
proof fn lemma_product_small(a: int, b: int)
    requires
        0 <= a <= usize::MAX,
        0 <= b <= usize::MAX,
    ensures
        0 <= a * b <= u128::MAX,
{
    assert(0 <= a * b <= u64::MAX * u64::MAX) by (nonlinear_arith)
        requires
            0 <= a <= u64::MAX,
            0 <= b <= u64::MAX,
    ;
}

/// Whether `n` rows of a projection can be counted in bytes and elements.
fn rows_are_small(rows: usize, n: usize) -> (r: bool)
    ensures
        r == (rows <= 0x7fff_ffff && n * rows <= 0x7fff_ffff && 4 * (n * rows) <= usize::MAX),
{
    proof {
        lemma_product_small(n as int, rows as int);
    }
    let elems: u128 = n as u128 * rows as u128;
    rows <= 0x7fff_ffff && elems <= 0x7fff_ffff && elems <= (usize::MAX as u128) / 4
}

} // verus!
