//! Architecture of a Gemma 4 text model.

use vstd::prelude::*;

verus! {

/// Attention class of a layer.
#[derive(Clone, Copy, Debug, PartialEq, Eq, Structural)]
pub enum Gemma4LayerType {
    SlidingAttention,
    GlobalAttention,
}

/// Dimensions of a Gemma 4 text model, as far as planning reads them.
#[derive(Clone, Debug)]
pub struct Gemma4Arch {
    pub num_hidden_layers: usize,
    pub hidden_size: usize,
    pub num_attention_heads: usize,
    pub head_dim_sliding: usize,
    pub head_dim_global: usize,
    pub num_kv_heads_sliding: usize,
    pub num_kv_heads_global: usize,
    pub intermediate_size: usize,
    pub vocab_size: usize,
    /// Bit pattern of the 32-bit RMSNorm epsilon.
    pub rms_norm_eps_bits: u32,
    pub max_position_embeddings: usize,
    pub sliding_window_size: usize,
    /// Rotated part of the head in global layers.
    pub rotary_dim_global: usize,
    /// Bit pattern of the 32-bit cap on logits.
    pub logit_softcap_bits: u32,
    pub layer_types: Vec<Gemma4LayerType>,
    pub weight_prefix: String,
    pub hidden_size_per_layer_input: Option<usize>,
    /// For each layer, the layer whose cache it reads in place of its own.
    pub kv_share_sources: Vec<Option<usize>>,
    /// The sliding and the full layer whose caches a drafter reads.
    pub assistant_shared_kv_sources: Option<(usize, usize)>,
}

impl Gemma4Arch {
    /// Every layer has a type and a cache source.
    pub open spec fn wf(&self) -> bool {
        &&& self.layer_types@.len() == self.num_hidden_layers
        &&& self.kv_share_sources@.len() == self.num_hidden_layers
    }

    /// Whether every layer has a type and a cache source.
    pub fn check_wf(&self) -> (r: bool)
        ensures
            r == self.wf(),
    {
        self.layer_types.len() == self.num_hidden_layers && self.kv_share_sources.len()
            == self.num_hidden_layers
    }

    /// Whether a layer attends globally.
    pub open spec fn is_global(&self, layer: int) -> bool {
        self.layer_types@[layer] == Gemma4LayerType::GlobalAttention
    }

    /// Head width of a layer.
    pub open spec fn head_dim(&self, layer: int) -> usize {
        if self.is_global(layer) {
            self.head_dim_global
        } else {
            self.head_dim_sliding
        }
    }

    /// Key/value heads of a layer.
    pub open spec fn num_kv_heads(&self, layer: int) -> usize {
        if self.is_global(layer) {
            self.num_kv_heads_global
        } else {
            self.num_kv_heads_sliding
        }
    }

    /// Rotated part of the head in a layer; sliding layers rotate all of it.
    pub open spec fn rotary_dim(&self, layer: int) -> usize {
        if self.is_global(layer) {
            self.rotary_dim_global
        } else {
            self.head_dim_sliding
        }
    }

    /// Head width of a layer.
    pub fn head_dim_for_layer(&self, layer_idx: usize) -> (r: usize)
        requires
            layer_idx < self.layer_types@.len(),
        ensures
            r == self.head_dim(layer_idx as int),
    {
        match self.layer_types[layer_idx] {
            Gemma4LayerType::SlidingAttention => self.head_dim_sliding,
            Gemma4LayerType::GlobalAttention => self.head_dim_global,
        }
    }

    /// Key/value heads of a layer.
    pub fn num_kv_heads_for_layer(&self, layer_idx: usize) -> (r: usize)
        requires
            layer_idx < self.layer_types@.len(),
        ensures
            r == self.num_kv_heads(layer_idx as int),
    {
        match self.layer_types[layer_idx] {
            Gemma4LayerType::SlidingAttention => self.num_kv_heads_sliding,
            Gemma4LayerType::GlobalAttention => self.num_kv_heads_global,
        }
    }

    /// Rotated part of the head in a layer.
    pub fn rotary_dim_for_layer(&self, layer_idx: usize) -> (r: usize)
        requires
            layer_idx < self.layer_types@.len(),
        ensures
            r == self.rotary_dim(layer_idx as int),
    {
        match self.layer_types[layer_idx] {
            Gemma4LayerType::SlidingAttention => self.head_dim_sliding,
            Gemma4LayerType::GlobalAttention => self.rotary_dim_global,
        }
    }

    /// The larger of the two head widths.
    pub fn max_head_dim(&self) -> (r: usize)
        ensures
            r == (if self.head_dim_sliding >= self.head_dim_global {
                self.head_dim_sliding
            } else {
                self.head_dim_global
            }),
    {
        if self.head_dim_sliding >= self.head_dim_global {
            self.head_dim_sliding
        } else {
            self.head_dim_global
        }
    }
}

} // verus!
