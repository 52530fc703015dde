//! Configuration and weight layout of a Gemma 4 assistant drafter.
//!
//! The drafter is a small decoder without keys and values of its own: each
//! layer has a query and an output projection and reads the base model's
//! cache. Sliding layers and full layers differ in head width.

use crate::formats::{f64_to_f32_bits, single_bits};
use crate::json::{
    bool_of, double_member, double_of, json_as_array, json_as_bool, json_as_str, json_document,
    json_get, json_tree, list_of, member, parse_json, text_of, tree_of, unsigned_member,
    unsigned_of, JsonTree,
};
use crate::tensor::{
    cat_dtype, corrupt, dtype_text, first_fault, same_shape, DType, LoaderError, LoaderFault,
    TensorMap, TensorView,
};
use crate::text::{cat, cat_list, cat_num, decimal, list_text, quote, quoted, same_text};
use vstd::prelude::*;
use vstd::string::*;

verus! {

/// Attention class of a drafter layer.
#[derive(Clone, Copy, Debug, PartialEq, Eq, Structural)]
pub enum DrafterLayerType {
    Sliding,
    Full,
}

/// Dimensions of a drafter.
#[derive(Clone, Debug)]
pub struct Gemma4DrafterArch {
    pub hidden_size: usize,
    pub intermediate_size: usize,
    pub num_hidden_layers: usize,
    pub num_attention_heads: usize,
    pub num_key_value_heads: usize,
    pub head_dim_sliding: usize,
    pub head_dim_global: usize,
    pub vocab_size: usize,
    pub max_position_embeddings: usize,
    pub sliding_window: usize,
    /// Bit pattern of the 32-bit RMSNorm epsilon.
    pub rms_norm_eps_bits: u32,
    pub layer_types: Vec<DrafterLayerType>,
    /// Size of the centroid codebook.
    pub num_centroids: usize,
    /// Centroids that are expanded into the vocabulary.
    pub centroid_intermediate_top_k: usize,
    /// Hidden size of the base model.
    pub backbone_hidden_size: usize,
    /// Twice the base model's hidden size.
    pub pre_projection_in_dim: usize,
    /// Whether the head goes through the centroids; else it is the full
    /// vocabulary, tied to the embedding.
    pub use_ordered_embeddings: bool,
}

/// Offsets of one layer's tensors in the shard.
#[derive(Clone, Debug)]
pub struct Gemma4DrafterLayerOffsets {
    pub input_layernorm: u64,
    pub post_attention_layernorm: u64,
    pub pre_feedforward_layernorm: u64,
    pub post_feedforward_layernorm: u64,
    pub layer_scalar: u64,
    pub mlp_gate_proj: u64,
    pub mlp_up_proj: u64,
    pub mlp_down_proj: u64,
    pub self_attn_q_proj: u64,
    pub self_attn_q_norm: u64,
    pub self_attn_o_proj: u64,
    /// Head width of the layer.
    pub effective_head_dim: usize,
    pub layer_type: DrafterLayerType,
}

/// Offsets of the tensors outside the layers.
#[derive(Clone, Debug)]
pub struct Gemma4DrafterTopOffsets {
    /// Present exactly where the head goes through the centroids.
    pub centroids: Option<u64>,
    /// Present exactly where the head goes through the centroids.
    pub token_ordering: Option<u64>,
    pub embed_tokens: u64,
    pub pre_projection: u64,
    pub post_projection: u64,
    pub final_norm: u64,
}

/// Dimensions of a drafter and where its weights lie.
#[derive(Clone, Debug)]
pub struct Gemma4DrafterWeightLayout {
    pub arch: Gemma4DrafterArch,
    /// The shard that the offsets refer to.
    pub shard_path: String,
    pub top: Gemma4DrafterTopOffsets,
    pub layers: Vec<Gemma4DrafterLayerOffsets>,
}

/// The entries of a drafter configuration that are read, each `None` where
/// it is absent or of another type.
#[derive(Clone, Debug)]
pub struct DrafterConfigFields {
    /// First of the architectures, if it is a string.
    pub architecture: Option<String>,
    pub has_text_config: bool,
    pub hidden_size: Option<u64>,
    pub intermediate_size: Option<u64>,
    pub num_hidden_layers: Option<u64>,
    pub num_attention_heads: Option<u64>,
    pub num_key_value_heads: Option<u64>,
    pub head_dim: Option<u64>,
    pub global_head_dim: Option<u64>,
    pub vocab_size: Option<u64>,
    pub max_position_embeddings: Option<u64>,
    pub sliding_window: Option<u64>,
    /// Bit pattern of a 64-bit number.
    pub rms_norm_eps: Option<u64>,
    /// The strings among the layer types.
    pub layer_types: Option<Vec<String>>,
    pub num_centroids: Option<u64>,
    pub centroid_intermediate_top_k: Option<u64>,
    pub backbone_hidden_size: Option<u64>,
    pub use_ordered_embeddings: Option<bool>,
}

/// What [`DrafterConfigFields`] stand for.
#[verifier::ext_equal]
pub struct DrafterConfigView {
    pub architecture: Option<Seq<char>>,
    pub has_text_config: bool,
    pub hidden_size: Option<u64>,
    pub intermediate_size: Option<u64>,
    pub num_hidden_layers: Option<u64>,
    pub num_attention_heads: Option<u64>,
    pub num_key_value_heads: Option<u64>,
    pub head_dim: Option<u64>,
    pub global_head_dim: Option<u64>,
    pub vocab_size: Option<u64>,
    pub max_position_embeddings: Option<u64>,
    pub sliding_window: Option<u64>,
    pub rms_norm_eps: Option<u64>,
    pub layer_types: Option<Seq<Seq<char>>>,
    pub num_centroids: Option<u64>,
    pub centroid_intermediate_top_k: Option<u64>,
    pub backbone_hidden_size: Option<u64>,
    pub use_ordered_embeddings: Option<bool>,
}

/// The texts of a list of strings.
pub open spec fn texts(v: Seq<String>) -> Seq<Seq<char>> {
    Seq::new(v.len(), |i: int| v[i]@)
}

impl View for DrafterConfigFields {
    type V = DrafterConfigView;

    open spec fn view(&self) -> DrafterConfigView {
        DrafterConfigView {
            architecture: match self.architecture {
                Some(s) => Some(s@),
                None => None,
            },
            has_text_config: self.has_text_config,
            hidden_size: self.hidden_size,
            intermediate_size: self.intermediate_size,
            num_hidden_layers: self.num_hidden_layers,
            num_attention_heads: self.num_attention_heads,
            num_key_value_heads: self.num_key_value_heads,
            head_dim: self.head_dim,
            global_head_dim: self.global_head_dim,
            vocab_size: self.vocab_size,
            max_position_embeddings: self.max_position_embeddings,
            sliding_window: self.sliding_window,
            rms_norm_eps: self.rms_norm_eps,
            layer_types: match self.layer_types {
                Some(v) => Some(texts(v@)),
                None => None,
            },
            num_centroids: self.num_centroids,
            centroid_intermediate_top_k: self.centroid_intermediate_top_k,
            backbone_hidden_size: self.backbone_hidden_size,
            use_ordered_embeddings: self.use_ordered_embeddings,
        }
    }
}

/// What a [`Gemma4DrafterArch`] stands for.
#[verifier::ext_equal]
pub struct DrafterArchView {
    pub hidden_size: usize,
    pub intermediate_size: usize,
    pub num_hidden_layers: usize,
    pub num_attention_heads: usize,
    pub num_key_value_heads: usize,
    pub head_dim_sliding: usize,
    pub head_dim_global: usize,
    pub vocab_size: usize,
    pub max_position_embeddings: usize,
    pub sliding_window: usize,
    pub rms_norm_eps_bits: u32,
    pub layer_types: Seq<DrafterLayerType>,
    pub num_centroids: usize,
    pub centroid_intermediate_top_k: usize,
    pub backbone_hidden_size: usize,
    pub pre_projection_in_dim: usize,
    pub use_ordered_embeddings: bool,
}

impl View for Gemma4DrafterArch {
    type V = DrafterArchView;

    open spec fn view(&self) -> DrafterArchView {
        DrafterArchView {
            hidden_size: self.hidden_size,
            intermediate_size: self.intermediate_size,
            num_hidden_layers: self.num_hidden_layers,
            num_attention_heads: self.num_attention_heads,
            num_key_value_heads: self.num_key_value_heads,
            head_dim_sliding: self.head_dim_sliding,
            head_dim_global: self.head_dim_global,
            vocab_size: self.vocab_size,
            max_position_embeddings: self.max_position_embeddings,
            sliding_window: self.sliding_window,
            rms_norm_eps_bits: self.rms_norm_eps_bits,
            layer_types: self.layer_types@,
            num_centroids: self.num_centroids,
            centroid_intermediate_top_k: self.centroid_intermediate_top_k,
            backbone_hidden_size: self.backbone_hidden_size,
            pre_projection_in_dim: self.pre_projection_in_dim,
            use_ordered_embeddings: self.use_ordered_embeddings,
        }
    }
}

/// The strings among the elements of a list.
pub open spec fn strings_in(s: Seq<JsonTree>) -> Seq<Seq<char>>
    decreases s.len(),
{
    if s.len() == 0 {
        Seq::empty()
    } else {
        match s.last() {
            JsonTree::Text(t) => strings_in(s.drop_last()).push(t),
            _ => strings_in(s.drop_last()),
        }
    }
}

/// The first element of a list.
pub open spec fn first_of(l: Option<Seq<JsonTree>>) -> Option<JsonTree> {
    match l {
        Some(s) => if s.len() > 0 {
            Some(s[0])
        } else {
            None
        },
        None => None,
    }
}

/// A member of the text section, if there is a section.
pub open spec fn text_member(t: JsonTree, key: Seq<char>) -> Option<JsonTree> {
    match member(t, "text_config"@) {
        Some(tc) => member(tc, key),
        None => None,
    }
}

/// The entries of a document.
pub open spec fn config_of(t: JsonTree) -> DrafterConfigView {
    DrafterConfigView {
        architecture: text_of(first_of(list_of(member(t, "architectures"@)))),
        has_text_config: member(t, "text_config"@) is Some,
        hidden_size: unsigned_of(text_member(t, "hidden_size"@)),
        intermediate_size: unsigned_of(text_member(t, "intermediate_size"@)),
        num_hidden_layers: unsigned_of(text_member(t, "num_hidden_layers"@)),
        num_attention_heads: unsigned_of(text_member(t, "num_attention_heads"@)),
        num_key_value_heads: unsigned_of(text_member(t, "num_key_value_heads"@)),
        head_dim: unsigned_of(text_member(t, "head_dim"@)),
        global_head_dim: unsigned_of(text_member(t, "global_head_dim"@)),
        vocab_size: unsigned_of(text_member(t, "vocab_size"@)),
        max_position_embeddings: unsigned_of(text_member(t, "max_position_embeddings"@)),
        sliding_window: unsigned_of(text_member(t, "sliding_window"@)),
        rms_norm_eps: double_of(text_member(t, "rms_norm_eps"@)),
        layer_types: match list_of(text_member(t, "layer_types"@)) {
            Some(s) => Some(strings_in(s)),
            None => None,
        },
        num_centroids: unsigned_of(member(t, "num_centroids"@)),
        centroid_intermediate_top_k: unsigned_of(member(t, "centroid_intermediate_top_k"@)),
        backbone_hidden_size: unsigned_of(member(t, "backbone_hidden_size"@)),
        use_ordered_embeddings: bool_of(member(t, "use_ordered_embeddings"@)),
    }
}

/// A configuration that is not as it should be.
pub open spec fn config_fault(detail: Seq<char>) -> Option<LoaderFault> {
    Some(LoaderFault::Corrupt { detail })
}

/// What is wrong with an entry of the text section that must be an unsigned
/// integer.
pub open spec fn uint_fault(key: Seq<char>, v: Option<u64>) -> Option<LoaderFault> {
    if v is Some {
        None
    } else {
        config_fault("text_config."@ + key + " missing/not-uint"@)
    }
}

/// What is wrong with a top-level entry that must be an unsigned integer.
pub open spec fn top_fault(key: Seq<char>, v: Option<u64>) -> Option<LoaderFault> {
    if v is Some {
        None
    } else {
        config_fault(key + " missing"@)
    }
}

/// The text of an architecture entry; empty where there is none.
pub open spec fn architecture_text(a: Option<Seq<char>>) -> Seq<char> {
    match a {
        Some(s) => s,
        None => Seq::empty(),
    }
}

/// The first thing wrong with a configuration before its layer types are
/// interpreted.
pub open spec fn text_fault(c: DrafterConfigView) -> Option<LoaderFault> {
    let name = architecture_text(c.architecture);
    if name != "Gemma4AssistantForCausalLM"@ {
        config_fault(
            "expected architectures=[Gemma4AssistantForCausalLM], got "@ + quoted(name),
        )
    } else if !c.has_text_config {
        config_fault("missing text_config"@)
    } else {
        let tail = shape_fault(c);
        let tail = first_fault(uint_fault("sliding_window"@, c.sliding_window), tail);
        let tail = first_fault(
            uint_fault("max_position_embeddings"@, c.max_position_embeddings),
            tail,
        );
        let tail = first_fault(uint_fault("vocab_size"@, c.vocab_size), tail);
        let tail = first_fault(uint_fault("global_head_dim"@, c.global_head_dim), tail);
        let tail = first_fault(uint_fault("head_dim"@, c.head_dim), tail);
        let tail = first_fault(uint_fault("num_key_value_heads"@, c.num_key_value_heads), tail);
        let tail = first_fault(uint_fault("num_attention_heads"@, c.num_attention_heads), tail);
        let tail = first_fault(uint_fault("num_hidden_layers"@, c.num_hidden_layers), tail);
        let tail = first_fault(uint_fault("intermediate_size"@, c.intermediate_size), tail);
        let tail = first_fault(uint_fault("hidden_size"@, c.hidden_size), tail);
        tail
    }
}

/// What is wrong with the epsilon and the number of layer types.
pub open spec fn shape_fault(c: DrafterConfigView) -> Option<LoaderFault> {
    if c.rms_norm_eps is None {
        config_fault("text_config.rms_norm_eps missing/not-float"@)
    } else if c.layer_types is None {
        config_fault("text_config.layer_types missing"@)
    } else if c.layer_types->0.len() != c.num_hidden_layers->0 as usize {
        config_fault(
            "layer_types len "@ + decimal(c.layer_types->0.len()) + " != num_hidden_layers "@
                + decimal((c.num_hidden_layers->0 as usize) as nat),
        )
    } else {
        None
    }
}

/// The first thing wrong with a configuration.
pub open spec fn arch_fault(c: DrafterConfigView) -> Option<LoaderFault> {
    first_fault(
        text_fault(c),
        first_fault(
            top_fault("num_centroids"@, c.num_centroids),
            first_fault(
                top_fault("centroid_intermediate_top_k"@, c.centroid_intermediate_top_k),
                top_fault("backbone_hidden_size"@, c.backbone_hidden_size),
            ),
        ),
    )
}

/// A layer type that a drafter can have.
pub open spec fn is_known_layer_type(s: Seq<char>) -> bool {
    s == "sliding_attention"@ || s == "full_attention"@
}

/// Attention class of a layer type.
pub open spec fn layer_type_of(s: Seq<char>) -> DrafterLayerType {
    if s == "sliding_attention"@ {
        DrafterLayerType::Sliding
    } else {
        DrafterLayerType::Full
    }
}

/// Whether a configuration can be interpreted at all: unless something is
/// wrong with it earlier, its layer types are known ones and twice the base
/// model's hidden size can be represented.
pub open spec fn interpretable(c: DrafterConfigView) -> bool {
    &&& text_fault(c) is None ==> forall|i: int|
        0 <= i < c.layer_types->0.len() ==> is_known_layer_type(#[trigger] c.layer_types->0[i])
    &&& arch_fault(c) is None ==> 2 * (c.backbone_hidden_size->0 as usize) <= usize::MAX
}

/// The dimensions that a configuration describes.
pub open spec fn arch_of(c: DrafterConfigView) -> DrafterArchView {
    DrafterArchView {
        hidden_size: c.hidden_size->0 as usize,
        intermediate_size: c.intermediate_size->0 as usize,
        num_hidden_layers: c.num_hidden_layers->0 as usize,
        num_attention_heads: c.num_attention_heads->0 as usize,
        num_key_value_heads: c.num_key_value_heads->0 as usize,
        head_dim_sliding: c.head_dim->0 as usize,
        head_dim_global: c.global_head_dim->0 as usize,
        vocab_size: c.vocab_size->0 as usize,
        max_position_embeddings: c.max_position_embeddings->0 as usize,
        sliding_window: c.sliding_window->0 as usize,
        rms_norm_eps_bits: single_bits(c.rms_norm_eps->0) as u32,
        layer_types: Seq::new(
            c.layer_types->0.len(),
            |i: int| layer_type_of(c.layer_types->0[i]),
        ),
        num_centroids: c.num_centroids->0 as usize,
        centroid_intermediate_top_k: c.centroid_intermediate_top_k->0 as usize,
        backbone_hidden_size: c.backbone_hidden_size->0 as usize,
        pre_projection_in_dim: (2 * (c.backbone_hidden_size->0 as usize)) as usize,
        use_ordered_embeddings: match c.use_ordered_embeddings {
            Some(b) => b,
            None => true,
        },
    }
}

fn need_uint(key: &str, v: Option<u64>) -> (r: Result<usize, LoaderError>)
    ensures
        match r {
            Ok(n) => uint_fault(key@, v) is None && n == v->0 as usize,
            Err(e) => uint_fault(key@, v) == Some(e@),
        },
{
    match v {
        Some(n) => Ok(n as usize),
        None => Err(corrupt(cat(cat(String::from_str("text_config."), key), " missing/not-uint"))),
    }
}

fn need_top(key: &str, v: Option<u64>) -> (r: Result<usize, LoaderError>)
    ensures
        match r {
            Ok(n) => top_fault(key@, v) is None && n == v->0 as usize,
            Err(e) => top_fault(key@, v) == Some(e@),
        },
{
    match v {
        Some(n) => Ok(n as usize),
        None => Err(corrupt(cat(String::from_str(key), " missing"))),
    }
}

fn known_layer_types(v: &Vec<String>) -> (r: bool)
    ensures
        r == forall|i: int| 0 <= i < v@.len() ==> is_known_layer_type(#[trigger] texts(v@)[i]),
{
    let mut i: usize = 0;
    while i < v.len()
        invariant
            i <= v@.len(),
            forall|j: int| 0 <= j < i ==> is_known_layer_type(#[trigger] texts(v@)[j]),
        decreases v@.len() - i,
    {
        let s = v[i].as_str();
        if !same_text(s, "sliding_attention") && !same_text(s, "full_attention") {
            assert(!is_known_layer_type(texts(v@)[i as int]));
            return false;
        }
        i = i + 1;
    }
    true
}

fn interpret_layer_types(v: &Vec<String>) -> (r: Vec<DrafterLayerType>)
    ensures
        r@ == Seq::new(v@.len(), |i: int| layer_type_of(texts(v@)[i])),
{
    let mut r: Vec<DrafterLayerType> = Vec::new();
    let mut i: usize = 0;
    while i < v.len()
        invariant
            i <= v@.len(),
            r@.len() == i,
            forall|j: int| 0 <= j < i ==> #[trigger] r@[j] == layer_type_of(texts(v@)[j]),
        decreases v@.len() - i,
    {
        if same_text(v[i].as_str(), "sliding_attention") {
            r.push(DrafterLayerType::Sliding);
        } else {
            r.push(DrafterLayerType::Full);
        }
        i = i + 1;
    }
    assert(r@ =~= Seq::new(v@.len(), |i: int| layer_type_of(texts(v@)[i])));
    r
}

impl Gemma4DrafterArch {
    /// The dimensions that the entries of a configuration describe, or what
    /// is wrong with them.
    pub fn from_fields(c: &DrafterConfigFields) -> (r: Result<Gemma4DrafterArch, LoaderError>)
        requires
            interpretable(c@),
        ensures
            match r {
                Ok(a) => arch_fault(c@) is None && a@ == arch_of(c@),
                Err(e) => arch_fault(c@) == Some(e@),
            },
    {
        let name = match &c.architecture {
            Some(s) => s.clone(),
            None => String::new(),
        };
        if !same_text(name.as_str(), "Gemma4AssistantForCausalLM") {
            let s = String::from_str("expected architectures=[Gemma4AssistantForCausalLM], got ");
            return Err(corrupt(cat(s, quote(name.as_str()).as_str())));
        }
        if !c.has_text_config {
            return Err(corrupt(String::from_str("missing text_config")));
        }
        let hidden_size: usize = match need_uint("hidden_size", c.hidden_size) {
            Ok(n) => n,
            Err(e) => {
                return Err(e);
            },
        };
        let intermediate_size: usize = match need_uint("intermediate_size", c.intermediate_size) {
            Ok(n) => n,
            Err(e) => {
                return Err(e);
            },
        };
        let num_hidden_layers: usize = match need_uint("num_hidden_layers", c.num_hidden_layers) {
            Ok(n) => n,
            Err(e) => {
                return Err(e);
            },
        };
        let num_attention_heads: usize = match need_uint("num_attention_heads", c.num_attention_heads) {
            Ok(n) => n,
            Err(e) => {
                return Err(e);
            },
        };
        let num_key_value_heads: usize = match need_uint("num_key_value_heads", c.num_key_value_heads) {
            Ok(n) => n,
            Err(e) => {
                return Err(e);
            },
        };
        let head_dim_sliding: usize = match need_uint("head_dim", c.head_dim) {
            Ok(n) => n,
            Err(e) => {
                return Err(e);
            },
        };
        let head_dim_global: usize = match need_uint("global_head_dim", c.global_head_dim) {
            Ok(n) => n,
            Err(e) => {
                return Err(e);
            },
        };
        let vocab_size: usize = match need_uint("vocab_size", c.vocab_size) {
            Ok(n) => n,
            Err(e) => {
                return Err(e);
            },
        };
        let max_position_embeddings: usize = match need_uint("max_position_embeddings", c.max_position_embeddings) {
            Ok(n) => n,
            Err(e) => {
                return Err(e);
            },
        };
        let sliding_window: usize = match need_uint("sliding_window", c.sliding_window) {
            Ok(n) => n,
            Err(e) => {
                return Err(e);
            },
        };
        let rms_norm_eps: u64 = match c.rms_norm_eps {
            Some(x) => x,
            None => {
                return Err(
                    corrupt(String::from_str("text_config.rms_norm_eps missing/not-float")),
                );
            },
        };
        let layer_type_strs = match &c.layer_types {
            Some(v) => v,
            None => {
                return Err(corrupt(String::from_str("text_config.layer_types missing")));
            },
        };
        if layer_type_strs.len() != num_hidden_layers {
            let s = cat_num(String::from_str("layer_types len "), layer_type_strs.len() as u64);
            let s = cat_num(cat(s, " != num_hidden_layers "), num_hidden_layers as u64);
            return Err(corrupt(s));
        }
        let layer_types = interpret_layer_types(layer_type_strs);
        let num_centroids: usize = match need_top("num_centroids", c.num_centroids) {
            Ok(n) => n,
            Err(e) => {
                return Err(e);
            },
        };
        let centroid_intermediate_top_k: usize = match need_top("centroid_intermediate_top_k", c.centroid_intermediate_top_k) {
            Ok(n) => n,
            Err(e) => {
                return Err(e);
            },
        };
        let backbone_hidden_size: usize = match need_top("backbone_hidden_size", c.backbone_hidden_size) {
            Ok(n) => n,
            Err(e) => {
                return Err(e);
            },
        };
        let pre_projection_in_dim: usize = 2 * backbone_hidden_size;
        let use_ordered_embeddings = match c.use_ordered_embeddings {
            Some(b) => b,
            None => true,
        };
        let a = Gemma4DrafterArch {
            hidden_size,
            intermediate_size,
            num_hidden_layers,
            num_attention_heads,
            num_key_value_heads,
            head_dim_sliding,
            head_dim_global,
            vocab_size,
            max_position_embeddings,
            sliding_window,
            rms_norm_eps_bits: f64_to_f32_bits(rms_norm_eps),
            layer_types,
            num_centroids,
            centroid_intermediate_top_k,
            backbone_hidden_size,
            pre_projection_in_dim,
            use_ordered_embeddings,
        };
        assert(a@ =~= arch_of(c@));
        Ok(a)
    }
}

/// What follows the parse of a document: its entries, if they can be
/// interpreted.
pub open spec fn arch_outcome(doc: Result<JsonTree, Seq<char>>) -> Option<
    Result<DrafterArchView, LoaderFault>,
> {
    match doc {
        Err(e) => Some(Err(LoaderFault::Corrupt { detail: "config.json: "@ + e })),
        Ok(t) => {
            let c = config_of(t);
            if !interpretable(c) {
                None
            } else {
                match arch_fault(c) {
                    Some(f) => Some(Err(f)),
                    None => Some(Ok(arch_of(c))),
                }
            }
        },
    }
}

/// The strings among the elements of an array.
fn strings_of(a: &Vec<serde_json::Value>) -> (r: Vec<String>)
    ensures
        texts(r@) == strings_in(Seq::new(a@.len(), |i: int| json_tree(a@[i]))),
{
    let ghost trees = Seq::new(a@.len(), |i: int| json_tree(a@[i]));
    let mut r: Vec<String> = Vec::new();
    let mut i: usize = 0;
    while i < a.len()
        invariant
            i <= a@.len(),
            trees == Seq::new(a@.len(), |i: int| json_tree(a@[i])),
            texts(r@) == strings_in(trees.subrange(0, i as int)),
        decreases a@.len() - i,
    {
        let ghost after = trees.subrange(0, i + 1);
        assert(after.drop_last() =~= trees.subrange(0, i as int));
        assert(after.last() == json_tree(a@[i as int]));
        match json_as_str(&a[i]) {
            Some(s) => {
                let ghost before = texts(r@);
                r.push(String::from_str(s));
                assert(texts(r@) =~= before.push(s@));
            },
            None => {},
        }
        i = i + 1;
    }
    assert(trees.subrange(0, trees.len() as int) =~= trees);
    r
}

/// The entries of a parsed document.
fn read_fields(v: &serde_json::Value) -> (r: DrafterConfigFields)
    ensures
        r@ == config_of(json_tree(*v)),
{
    let architecture = match json_get(v, "architectures") {
        Some(a) => match json_as_array(a) {
            Some(a) => if a.len() > 0 {
                match json_as_str(&a[0]) {
                    Some(s) => Some(String::from_str(s)),
                    None => None,
                }
            } else {
                None
            },
            None => None,
        },
        None => None,
    };
    let use_ordered_embeddings = match json_get(v, "use_ordered_embeddings") {
        Some(x) => json_as_bool(x),
        None => None,
    };
    let tc = json_get(v, "text_config");
    let layer_types = match tc {
        Some(tc) => match json_get(tc, "layer_types") {
            Some(x) => match json_as_array(x) {
                Some(a) => Some(strings_of(a)),
                None => None,
            },
            None => None,
        },
        None => None,
    };
    let r = DrafterConfigFields {
        architecture,
        has_text_config: tc.is_some(),
        hidden_size: text_uint(tc, "hidden_size"),
        intermediate_size: text_uint(tc, "intermediate_size"),
        num_hidden_layers: text_uint(tc, "num_hidden_layers"),
        num_attention_heads: text_uint(tc, "num_attention_heads"),
        num_key_value_heads: text_uint(tc, "num_key_value_heads"),
        head_dim: text_uint(tc, "head_dim"),
        global_head_dim: text_uint(tc, "global_head_dim"),
        vocab_size: text_uint(tc, "vocab_size"),
        max_position_embeddings: text_uint(tc, "max_position_embeddings"),
        sliding_window: text_uint(tc, "sliding_window"),
        rms_norm_eps: match tc {
            Some(tc) => double_member(tc, "rms_norm_eps"),
            None => None,
        },
        layer_types,
        num_centroids: unsigned_member(v, "num_centroids"),
        centroid_intermediate_top_k: unsigned_member(v, "centroid_intermediate_top_k"),
        backbone_hidden_size: unsigned_member(v, "backbone_hidden_size"),
        use_ordered_embeddings,
    };
    assert(r@ =~= config_of(json_tree(*v)));
    r
}

fn text_uint(tc: Option<&serde_json::Value>, key: &str) -> (r: Option<u64>)
    ensures
        r == unsigned_of(
            match tree_of(tc) {
                Some(t) => member(t, key@),
                None => None,
            },
        ),
{
    match tc {
        Some(tc) => unsigned_member(tc, key),
        None => None,
    }
}

fn can_interpret(c: &DrafterConfigFields) -> (r: bool)
    ensures
        r == interpretable(c@),
{
    let named = match &c.architecture {
        Some(s) => same_text(s.as_str(), "Gemma4AssistantForCausalLM"),
        None => same_text("", "Gemma4AssistantForCausalLM"),
    };
    proof {
        reveal_strlit("");
        assert(""@ =~= Seq::<char>::empty());
    }
    let has_uints = c.hidden_size.is_some() && c.intermediate_size.is_some()
        && c.num_hidden_layers.is_some() && c.num_attention_heads.is_some()
        && c.num_key_value_heads.is_some() && c.head_dim.is_some() && c.global_head_dim.is_some()
        && c.vocab_size.is_some() && c.max_position_embeddings.is_some()
        && c.sliding_window.is_some();
    if !named || !c.has_text_config || !has_uints || c.rms_norm_eps.is_none() {
        return true;
    }
    match (&c.layer_types, c.num_hidden_layers) {
        (Some(v), Some(n)) => {
            if v.len() != n as usize {
                return true;
            }
            assert(text_fault(c@) is None);
            if !known_layer_types(v) {
                return false;
            }
        },
        _ => {
            return true;
        },
    }
    if c.num_centroids.is_none() || c.centroid_intermediate_top_k.is_none() {
        return true;
    }
    match c.backbone_hidden_size {
        Some(n) => n as usize <= usize::MAX / 2,
        None => true,
    }
}

impl Gemma4DrafterArch {
    /// Reads the dimensions out of the bytes of a `config.json`. `None` where
    /// a layer type is unknown or a dimension cannot be represented.
    pub fn from_config(json_bytes: &[u8]) -> (r: Option<Result<Gemma4DrafterArch, LoaderError>>)
        ensures
            match r {
                None => arch_outcome(json_document(json_bytes@)) is None,
                Some(Ok(a)) => arch_outcome(json_document(json_bytes@)) == Some(
                    Ok::<DrafterArchView, LoaderFault>(a@),
                ),
                Some(Err(e)) => arch_outcome(json_document(json_bytes@)) == Some(
                    Err::<DrafterArchView, LoaderFault>(e@),
                ),
            },
    {
        let v = match parse_json(json_bytes) {
            Ok(v) => v,
            Err(e) => {
                return Some(Err(corrupt(cat(String::from_str("config.json: "), e.as_str()))));
            },
        };
        let c = read_fields(&v);
        if !can_interpret(&c) {
            return None;
        }
        Some(Gemma4DrafterArch::from_fields(&c))
    }
}

/// Why a tensor of the shard is not the one wanted: absent, of another
/// element type, or of another shape, in this order.
pub open spec fn layout_fault(
    tensors: Map<Seq<char>, TensorView>,
    name: Seq<char>,
    dtype: DType,
    shape: Seq<usize>,
) -> Option<LoaderFault> {
    if !tensors.contains_key(name) {
        config_fault("missing tensor "@ + name)
    } else if tensors[name].dtype != dtype {
        config_fault(
            "tensor "@ + name + ": dtype "@ + dtype_text(tensors[name].dtype) + " != expected "@
                + dtype_text(dtype),
        )
    } else if tensors[name].shape != shape {
        config_fault(
            "tensor "@ + name + ": shape "@ + list_text(tensors[name].shape) + " != expected "@
                + list_text(shape),
        )
    } else {
        None
    }
}

/// The first thing wrong with the tensors outside the layers.
pub open spec fn top_layout_fault(
    a: DrafterArchView,
    tensors: Map<Seq<char>, TensorView>,
) -> Option<LoaderFault> {
    let tail = layout_fault(tensors, "model.norm.weight"@, DType::Bf16, seq![a.hidden_size]);
    let tail = first_fault(
        layout_fault(
            tensors,
            "post_projection.weight"@,
            DType::Bf16,
            seq![a.backbone_hidden_size, a.hidden_size],
        ),
        tail,
    );
    let tail = first_fault(
        layout_fault(
            tensors,
            "pre_projection.weight"@,
            DType::Bf16,
            seq![a.hidden_size, a.pre_projection_in_dim],
        ),
        tail,
    );
    let tail = first_fault(
        layout_fault(
            tensors,
            "model.embed_tokens.weight"@,
            DType::Bf16,
            seq![a.vocab_size, a.hidden_size],
        ),
        tail,
    );
    if a.use_ordered_embeddings {
        first_fault(
            layout_fault(
                tensors,
                "masked_embedding.centroids.weight"@,
                DType::Bf16,
                seq![a.num_centroids, a.hidden_size],
            ),
            first_fault(
                layout_fault(
                    tensors,
                    "masked_embedding.token_ordering"@,
                    DType::I64,
                    seq![a.vocab_size],
                ),
                tail,
            ),
        )
    } else {
        tail
    }
}

/// Offsets of the tensors outside the layers.
pub open spec fn top_offsets(
    a: DrafterArchView,
    tensors: Map<Seq<char>, TensorView>,
) -> Gemma4DrafterTopOffsets {
    Gemma4DrafterTopOffsets {
        centroids: if a.use_ordered_embeddings {
            Some(tensors["masked_embedding.centroids.weight"@].file_offset)
        } else {
            None
        },
        token_ordering: if a.use_ordered_embeddings {
            Some(tensors["masked_embedding.token_ordering"@].file_offset)
        } else {
            None
        },
        embed_tokens: tensors["model.embed_tokens.weight"@].file_offset,
        pre_projection: tensors["pre_projection.weight"@].file_offset,
        post_projection: tensors["post_projection.weight"@].file_offset,
        final_norm: tensors["model.norm.weight"@].file_offset,
    }
}

/// Name of a tensor of a layer.
pub open spec fn layer_tensor(layer: nat, t: Seq<char>) -> Seq<char> {
    "model.layers."@ + decimal(layer) + "."@ + t
}

/// Head width of a layer.
pub open spec fn layer_head_dim(a: DrafterArchView, layer: int) -> usize {
    match a.layer_types[layer] {
        DrafterLayerType::Sliding => a.head_dim_sliding,
        DrafterLayerType::Full => a.head_dim_global,
    }
}

/// The first thing wrong with the tensors of one layer.
pub open spec fn layer_fault(
    a: DrafterArchView,
    tensors: Map<Seq<char>, TensorView>,
    layer: nat,
) -> Option<LoaderFault> {
    let hidden = a.hidden_size;
    let inter = a.intermediate_size;
    let head = layer_head_dim(a, layer as int);
    let q_rows = (a.num_attention_heads * head) as usize;
    let tail = layout_fault(
        tensors,
        layer_tensor(layer, "self_attn.o_proj.weight"@),
        DType::Bf16,
        seq![hidden, q_rows],
    );
    let tail = first_fault(
        layout_fault(
            tensors,
            layer_tensor(layer, "self_attn.q_norm.weight"@),
            DType::Bf16,
            seq![head],
        ),
        tail,
    );
    let tail = first_fault(
        layout_fault(
            tensors,
            layer_tensor(layer, "self_attn.q_proj.weight"@),
            DType::Bf16,
            seq![q_rows, hidden],
        ),
        tail,
    );
    let tail = first_fault(
        layout_fault(
            tensors,
            layer_tensor(layer, "mlp.down_proj.weight"@),
            DType::Bf16,
            seq![hidden, inter],
        ),
        tail,
    );
    let tail = first_fault(
        layout_fault(
            tensors,
            layer_tensor(layer, "mlp.up_proj.weight"@),
            DType::Bf16,
            seq![inter, hidden],
        ),
        tail,
    );
    let tail = first_fault(
        layout_fault(
            tensors,
            layer_tensor(layer, "mlp.gate_proj.weight"@),
            DType::Bf16,
            seq![inter, hidden],
        ),
        tail,
    );
    let tail = first_fault(
        layout_fault(tensors, layer_tensor(layer, "layer_scalar"@), DType::Bf16, seq![1usize]),
        tail,
    );
    let tail = first_fault(
        layout_fault(
            tensors,
            layer_tensor(layer, "post_feedforward_layernorm.weight"@),
            DType::Bf16,
            seq![hidden],
        ),
        tail,
    );
    let tail = first_fault(
        layout_fault(
            tensors,
            layer_tensor(layer, "pre_feedforward_layernorm.weight"@),
            DType::Bf16,
            seq![hidden],
        ),
        tail,
    );
    let tail = first_fault(
        layout_fault(
            tensors,
            layer_tensor(layer, "post_attention_layernorm.weight"@),
            DType::Bf16,
            seq![hidden],
        ),
        tail,
    );
    let tail = first_fault(
        layout_fault(
            tensors,
            layer_tensor(layer, "input_layernorm.weight"@),
            DType::Bf16,
            seq![hidden],
        ),
        tail,
    );
    tail
}

/// Offsets of the tensors of one layer.
pub open spec fn layer_offsets(
    a: DrafterArchView,
    tensors: Map<Seq<char>, TensorView>,
    layer: nat,
) -> Gemma4DrafterLayerOffsets {
    Gemma4DrafterLayerOffsets {
        input_layernorm: tensors[layer_tensor(layer, "input_layernorm.weight"@)].file_offset,
        post_attention_layernorm: tensors[layer_tensor(layer, "post_attention_layernorm.weight"@)].file_offset,
        pre_feedforward_layernorm: tensors[layer_tensor(layer, "pre_feedforward_layernorm.weight"@)].file_offset,
        post_feedforward_layernorm: tensors[layer_tensor(layer, "post_feedforward_layernorm.weight"@)].file_offset,
        layer_scalar: tensors[layer_tensor(layer, "layer_scalar"@)].file_offset,
        mlp_gate_proj: tensors[layer_tensor(layer, "mlp.gate_proj.weight"@)].file_offset,
        mlp_up_proj: tensors[layer_tensor(layer, "mlp.up_proj.weight"@)].file_offset,
        mlp_down_proj: tensors[layer_tensor(layer, "mlp.down_proj.weight"@)].file_offset,
        self_attn_q_proj: tensors[layer_tensor(layer, "self_attn.q_proj.weight"@)].file_offset,
        self_attn_q_norm: tensors[layer_tensor(layer, "self_attn.q_norm.weight"@)].file_offset,
        self_attn_o_proj: tensors[layer_tensor(layer, "self_attn.o_proj.weight"@)].file_offset,
        effective_head_dim: layer_head_dim(a, layer as int),
        layer_type: a.layer_types[layer as int],
    }
}

/// The first thing wrong with the first `n` layers.
pub open spec fn layers_fault(
    a: DrafterArchView,
    tensors: Map<Seq<char>, TensorView>,
    n: nat,
) -> Option<LoaderFault>
    decreases n,
{
    if n == 0 {
        None
    } else {
        first_fault(
            layers_fault(a, tensors, (n - 1) as nat),
            layer_fault(a, tensors, (n - 1) as nat),
        )
    }
}

/// The first thing wrong with a shard.
pub open spec fn shard_fault(a: DrafterArchView, tensors: Map<Seq<char>, TensorView>) -> Option<
    LoaderFault,
> {
    first_fault(
        top_layout_fault(a, tensors),
        layers_fault(a, tensors, a.layer_types.len()),
    )
}

proof fn lemma_layers_stop(
    a: DrafterArchView,
    tensors: Map<Seq<char>, TensorView>,
    m: nat,
    n: nat,
)
    requires
        m <= n,
        layers_fault(a, tensors, m) is Some,
    ensures
        layers_fault(a, tensors, n) == layers_fault(a, tensors, m),
    decreases n,
{
    if m < n {
        lemma_layers_stop(a, tensors, m, (n - 1) as nat);
    }
}

proof fn lemma_layers_all(a: DrafterArchView, tensors: Map<Seq<char>, TensorView>, n: nat)
    ensures
        layers_fault(a, tensors, n) is None <==> forall|l: nat|
            l < n ==> #[trigger] layer_fault(a, tensors, l) is None,
    decreases n,
{
    if n > 0 {
        lemma_layers_all(a, tensors, (n - 1) as nat);
    }
}

/// A shard is accepted exactly where nothing is wrong with the tensors outside
/// its layers, nor with those of any layer.
pub proof fn law_shard_accepted(a: DrafterArchView, tensors: Map<Seq<char>, TensorView>)
    ensures
        shard_fault(a, tensors) is None <==> top_layout_fault(a, tensors) is None && forall|l: nat|
            l < a.layer_types.len() ==> #[trigger] layer_fault(a, tensors, l) is None,
{
    lemma_layers_all(a, tensors, a.layer_types.len());
}

/// A shard that is accepted stays so with a further tensor in it.
pub proof fn law_shard_extra_tensors(
    a: DrafterArchView,
    tensors: Map<Seq<char>, TensorView>,
    name: Seq<char>,
    extra: TensorView,
)
    requires
        !tensors.contains_key(name),
        shard_fault(a, tensors) is None,
    ensures
        shard_fault(a, tensors.insert(name, extra)) is None,
{
    let more = tensors.insert(name, extra);
    law_shard_accepted(a, tensors);
    law_shard_accepted(a, more);
    assert forall|l: nat| l < a.layer_types.len() implies #[trigger] layer_fault(a, more, l)
        is None by {
        assert(layer_fault(a, tensors, l) is None);
    }
}

/// Offset of a tensor that must be there.
fn require(tensors: &TensorMap, name: &str, dtype: DType, shape: &[usize]) -> (r: Result<
    u64,
    LoaderError,
>)
    requires
        tensors.wf(),
    ensures
        match r {
            Ok(x) => layout_fault(tensors@, name@, dtype, shape@) is None && x
                == tensors@[name@].file_offset,
            Err(e) => layout_fault(tensors@, name@, dtype, shape@) == Some(e@),
        },
{
    let e = match tensors.get(name) {
        Some(e) => e,
        None => {
            return Err(corrupt(cat(String::from_str("missing tensor "), name)));
        },
    };
    if e.dtype != dtype {
        let s = cat(cat(String::from_str("tensor "), name), ": dtype ");
        let s = cat_dtype(cat(cat_dtype(s, e.dtype), " != expected "), dtype);
        return Err(corrupt(s));
    }
    if !same_shape(e.shape.as_slice(), shape) {
        let s = cat(cat(String::from_str("tensor "), name), ": shape ");
        let s = cat_list(cat(cat_list(s, e.shape.as_slice()), " != expected "), shape);
        return Err(corrupt(s));
    }
    Ok(e.file_offset)
}

fn require_vector(tensors: &TensorMap, name: &str, dtype: DType, n: usize) -> (r: Result<
    u64,
    LoaderError,
>)
    requires
        tensors.wf(),
    ensures
        match r {
            Ok(x) => layout_fault(tensors@, name@, dtype, seq![n]) is None && x
                == tensors@[name@].file_offset,
            Err(e) => layout_fault(tensors@, name@, dtype, seq![n]) == Some(e@),
        },
{
    let dims: [usize; 1] = [n];
    assert(dims@ =~= seq![n]);
    require(tensors, name, dtype, dims.as_slice())
}

fn require_matrix(tensors: &TensorMap, name: &str, dtype: DType, rows: usize, cols: usize) -> (r:
    Result<u64, LoaderError>)
    requires
        tensors.wf(),
    ensures
        match r {
            Ok(x) => layout_fault(tensors@, name@, dtype, seq![rows, cols]) is None && x
                == tensors@[name@].file_offset,
            Err(e) => layout_fault(tensors@, name@, dtype, seq![rows, cols]) == Some(e@),
        },
{
    let dims: [usize; 2] = [rows, cols];
    assert(dims@ =~= seq![rows, cols]);
    require(tensors, name, dtype, dims.as_slice())
}

fn layer_name(layer: usize, t: &str) -> (r: String)
    ensures
        r@ == layer_tensor(layer as nat, t@),
{
    cat(cat(cat_num(String::from_str("model.layers."), layer as u64), "."), t)
}

fn require_top(arch: &Gemma4DrafterArch, tensors: &TensorMap) -> (r: Result<
    Gemma4DrafterTopOffsets,
    LoaderError,
>)
    requires
        tensors.wf(),
    ensures
        match r {
            Ok(t) => top_layout_fault(arch@, tensors@) is None && t == top_offsets(arch@, tensors@),
            Err(e) => top_layout_fault(arch@, tensors@) == Some(e@),
        },
{
    let hidden: usize = arch.hidden_size;
    let vocab: usize = arch.vocab_size;
    let (centroids, token_ordering) = if arch.use_ordered_embeddings {
        let c: u64 = match require_matrix(
            tensors,
            "masked_embedding.centroids.weight",
            DType::Bf16,
            arch.num_centroids,
            hidden,
        ) {
            Ok(x) => x,
            Err(e) => {
                return Err(e);
            },
        };
        let t: u64 = match require_vector(
            tensors,
            "masked_embedding.token_ordering",
            DType::I64,
            vocab,
        ) {
            Ok(x) => x,
            Err(e) => {
                return Err(e);
            },
        };
        (Some(c), Some(t))
    } else {
        (None, None)
    };
    let embed_tokens: u64 = match require_matrix(
        tensors,
        "model.embed_tokens.weight",
        DType::Bf16,
        vocab,
        hidden,
    ) {
        Ok(x) => x,
        Err(e) => {
            return Err(e);
        },
    };
    let pre_projection: u64 = match require_matrix(
        tensors,
        "pre_projection.weight",
        DType::Bf16,
        hidden,
        arch.pre_projection_in_dim,
    ) {
        Ok(x) => x,
        Err(e) => {
            return Err(e);
        },
    };
    let post_projection: u64 = match require_matrix(
        tensors,
        "post_projection.weight",
        DType::Bf16,
        arch.backbone_hidden_size,
        hidden,
    ) {
        Ok(x) => x,
        Err(e) => {
            return Err(e);
        },
    };
    let final_norm: u64 = match require_vector(tensors, "model.norm.weight", DType::Bf16, hidden) {
        Ok(x) => x,
        Err(e) => {
            return Err(e);
        },
    };
    Ok(
        Gemma4DrafterTopOffsets {
            centroids,
            token_ordering,
            embed_tokens,
            pre_projection,
            post_projection,
            final_norm,
        },
    )
}

fn require_layer(arch: &Gemma4DrafterArch, tensors: &TensorMap, li: usize) -> (r: Result<
    Gemma4DrafterLayerOffsets,
    LoaderError,
>)
    requires
        tensors.wf(),
        li < arch.layer_types@.len(),
        arch.num_attention_heads * layer_head_dim(arch@, li as int) <= usize::MAX,
    ensures
        match r {
            Ok(o) => layer_fault(arch@, tensors@, li as nat) is None && o == layer_offsets(
                arch@,
                tensors@,
                li as nat,
            ),
            Err(e) => layer_fault(arch@, tensors@, li as nat) == Some(e@),
        },
{
    let hidden: usize = arch.hidden_size;
    let inter: usize = arch.intermediate_size;
    let layer_type = arch.layer_types[li];
    let head: usize = match layer_type {
        DrafterLayerType::Sliding => arch.head_dim_sliding,
        DrafterLayerType::Full => arch.head_dim_global,
    };
    let q_rows: usize = arch.num_attention_heads * head;
    let input_layernorm: u64 = match require_vector(
        tensors,
        layer_name(li, "input_layernorm.weight").as_str(),
        DType::Bf16,
        hidden,
    ) {
        Ok(x) => x,
        Err(e) => {
            return Err(e);
        },
    };
    let post_attention_layernorm: u64 = match require_vector(
        tensors,
        layer_name(li, "post_attention_layernorm.weight").as_str(),
        DType::Bf16,
        hidden,
    ) {
        Ok(x) => x,
        Err(e) => {
            return Err(e);
        },
    };
    let pre_feedforward_layernorm: u64 = match require_vector(
        tensors,
        layer_name(li, "pre_feedforward_layernorm.weight").as_str(),
        DType::Bf16,
        hidden,
    ) {
        Ok(x) => x,
        Err(e) => {
            return Err(e);
        },
    };
    let post_feedforward_layernorm: u64 = match require_vector(
        tensors,
        layer_name(li, "post_feedforward_layernorm.weight").as_str(),
        DType::Bf16,
        hidden,
    ) {
        Ok(x) => x,
        Err(e) => {
            return Err(e);
        },
    };
    let layer_scalar: u64 = match require_vector(
        tensors,
        layer_name(li, "layer_scalar").as_str(),
        DType::Bf16,
        1,
    ) {
        Ok(x) => x,
        Err(e) => {
            return Err(e);
        },
    };
    let mlp_gate_proj: u64 = match require_matrix(
        tensors,
        layer_name(li, "mlp.gate_proj.weight").as_str(),
        DType::Bf16,
        inter,
        hidden,
    ) {
        Ok(x) => x,
        Err(e) => {
            return Err(e);
        },
    };
    let mlp_up_proj: u64 = match require_matrix(
        tensors,
        layer_name(li, "mlp.up_proj.weight").as_str(),
        DType::Bf16,
        inter,
        hidden,
    ) {
        Ok(x) => x,
        Err(e) => {
            return Err(e);
        },
    };
    let mlp_down_proj: u64 = match require_matrix(
        tensors,
        layer_name(li, "mlp.down_proj.weight").as_str(),
        DType::Bf16,
        hidden,
        inter,
    ) {
        Ok(x) => x,
        Err(e) => {
            return Err(e);
        },
    };
    let self_attn_q_proj: u64 = match require_matrix(
        tensors,
        layer_name(li, "self_attn.q_proj.weight").as_str(),
        DType::Bf16,
        q_rows,
        hidden,
    ) {
        Ok(x) => x,
        Err(e) => {
            return Err(e);
        },
    };
    let self_attn_q_norm: u64 = match require_vector(
        tensors,
        layer_name(li, "self_attn.q_norm.weight").as_str(),
        DType::Bf16,
        head,
    ) {
        Ok(x) => x,
        Err(e) => {
            return Err(e);
        },
    };
    let self_attn_o_proj: u64 = match require_matrix(
        tensors,
        layer_name(li, "self_attn.o_proj.weight").as_str(),
        DType::Bf16,
        hidden,
        q_rows,
    ) {
        Ok(x) => x,
        Err(e) => {
            return Err(e);
        },
    };
    Ok(
        Gemma4DrafterLayerOffsets {
            input_layernorm,
            post_attention_layernorm,
            pre_feedforward_layernorm,
            post_feedforward_layernorm,
            layer_scalar,
            mlp_gate_proj,
            mlp_up_proj,
            mlp_down_proj,
            self_attn_q_proj,
            self_attn_q_norm,
            self_attn_o_proj,
            effective_head_dim: head,
            layer_type,
        },
    )
}

impl Gemma4DrafterWeightLayout {
    /// Finds every tensor of a drafter in the directory of its shard, or
    /// reports the first that is absent or not as expected.
    pub fn from_shard(arch: Gemma4DrafterArch, shard_path: String, tensors: &TensorMap) -> (r: Result<
        Gemma4DrafterWeightLayout,
        LoaderError,
    >)
        requires
            tensors.wf(),
            forall|l: int|
                0 <= l < arch.layer_types@.len() ==> arch.num_attention_heads
                    * #[trigger] layer_head_dim(arch@, l) <= usize::MAX,
        ensures
            match r {
                Ok(w) => {
                    &&& shard_fault(arch@, tensors@) is None
                    &&& w.arch == arch
                    &&& w.shard_path == shard_path
                    &&& w.top == top_offsets(arch@, tensors@)
                    &&& w.layers@.len() == arch.layer_types@.len()
                    &&& forall|l: int|
                        0 <= l < w.layers@.len() ==> #[trigger] w.layers@[l] == layer_offsets(
                            arch@,
                            tensors@,
                            l as nat,
                        )
                },
                Err(e) => shard_fault(arch@, tensors@) == Some(e@),
            },
    {
        let top = match require_top(&arch, tensors) {
            Ok(t) => t,
            Err(e) => {
                return Err(e);
            },
        };
        let mut layers: Vec<Gemma4DrafterLayerOffsets> = Vec::new();
        let mut li: usize = 0;
        while li < arch.layer_types.len()
            invariant
                li <= arch.layer_types@.len(),
                tensors.wf(),
                layers@.len() == li,
                forall|l: int|
                    0 <= l < arch.layer_types@.len() ==> arch.num_attention_heads
                        * #[trigger] layer_head_dim(arch@, l) <= usize::MAX,
                top_layout_fault(arch@, tensors@) is None,
                layers_fault(arch@, tensors@, li as nat) is None,
                forall|l: int|
                    0 <= l < li ==> #[trigger] layers@[l] == layer_offsets(
                        arch@,
                        tensors@,
                        l as nat,
                    ),
            decreases arch.layer_types@.len() - li,
        {
            match require_layer(&arch, tensors, li) {
                Ok(o) => {
                    layers.push(o);
                },
                Err(e) => {
                    proof {
                        lemma_layers_stop(
                            arch@,
                            tensors@,
                            (li + 1) as nat,
                            arch.layer_types@.len(),
                        );
                    }
                    return Err(e);
                },
            }
            li = li + 1;
        }
        Ok(Gemma4DrafterWeightLayout { arch, shard_path, top, layers })
    }
}

impl Gemma4DrafterArch {
    /// A copy.
    pub fn dup(&self) -> (r: Gemma4DrafterArch)
        ensures
            r@ == self@,
    {
        let mut layer_types: Vec<DrafterLayerType> = Vec::new();
        let n: usize = self.layer_types.len();
        let mut i: usize = 0;
        while i < n
            invariant
                n == self.layer_types@.len(),
                i <= n,
                layer_types@ =~= self.layer_types@.take(i as int),
            decreases n - i,
        {
            layer_types.push(self.layer_types[i]);
            i = i + 1;
        }
        assert(layer_types@ =~= self.layer_types@);
        Gemma4DrafterArch {
            hidden_size: self.hidden_size,
            intermediate_size: self.intermediate_size,
            num_hidden_layers: self.num_hidden_layers,
            num_attention_heads: self.num_attention_heads,
            num_key_value_heads: self.num_key_value_heads,
            head_dim_sliding: self.head_dim_sliding,
            head_dim_global: self.head_dim_global,
            vocab_size: self.vocab_size,
            max_position_embeddings: self.max_position_embeddings,
            sliding_window: self.sliding_window,
            rms_norm_eps_bits: self.rms_norm_eps_bits,
            layer_types,
            num_centroids: self.num_centroids,
            centroid_intermediate_top_k: self.centroid_intermediate_top_k,
            backbone_hidden_size: self.backbone_hidden_size,
            pre_projection_in_dim: self.pre_projection_in_dim,
            use_ordered_embeddings: self.use_ordered_embeddings,
        }
    }
}

} // verus!
