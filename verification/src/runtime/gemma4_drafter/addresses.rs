//! Which tensor of the shard lies at each address of a loaded drafter, and
//! which entry of the configuration gives each of its dimensions.

use crate::formats::single_bits;
use crate::json::{member, JsonTree};
use crate::loader::gemma4_drafter::{
    arch_outcome, law_shard_accepted, layer_fault, layer_offsets, shard_fault, strings_in,
    top_offsets, DrafterArchView, DrafterLayerType,
    Gemma4DrafterWeightLayout,
};
use crate::loader::shards::elems;
use crate::runtime::gemma4_drafter::load::{
    layer_fits, layer_items, layer_pointers, lemma_item_count, load_items, loadable, top_base,
    top_items, top_pointers, LoadItemView, LoadKind,
};
use crate::runtime::gemma4_drafter::{Gemma4DrafterLayerPtrs, Gemma4DrafterTopPtrs};
use crate::tensor::{DType, LoaderFault, TensorView};
use crate::text::decimal;
use vstd::prelude::*;
use vstd::string::*;

verus! {

/// Whether an item is a whole tensor of the shard: where it lies, and all of
/// its elements.
pub open spec fn is_tensor(
    item: LoadItemView,
    tensors: Map<Seq<char>, TensorView>,
    name: Seq<char>,
    dtype: DType,
    bytes_per_element: int,
    kind: LoadKind,
) -> bool {
    &&& tensors.contains_key(name)
    &&& tensors[name].dtype == dtype
    &&& item.offset == tensors[name].file_offset
    &&& item.bytes == bytes_per_element * elems(tensors[name].shape)
    &&& item.kind == kind
}

/// Whether at an address lies a bf16 tensor of the shard in half precision.
pub open spec fn has_weight(
    items: Seq<LoadItemView>,
    ptrs: Seq<u64>,
    tensors: Map<Seq<char>, TensorView>,
    ptr: u64,
    name: Seq<char>,
) -> bool {
    exists|i: int|
        0 <= i < items.len() && #[trigger] ptrs[i] == ptr && is_tensor(
            items[i],
            tensors,
            name,
            DType::Bf16,
            2,
            LoadKind::HalfWeight,
        )
}

proof fn lemma_vector(n: usize)
    ensures
        elems(seq![n]) == n,
{
    reveal_with_fuel(elems, 2);
    assert(seq![n].drop_last() =~= Seq::<usize>::empty());
    assert(elems(Seq::<usize>::empty()) == 1);
    assert(1 * (n as nat) == n);
}

proof fn lemma_matrix(rows: usize, cols: usize)
    ensures
        elems(seq![rows, cols]) == rows * cols,
{
    reveal_with_fuel(elems, 3);
    assert(seq![rows, cols].drop_last() =~= seq![rows]);
    lemma_vector(rows);
}

/// Whether a layout is that of a shard.
pub open spec fn is_layout(
    l: &Gemma4DrafterWeightLayout,
    tensors: Map<Seq<char>, TensorView>,
) -> bool {
    &&& shard_fault(l.arch@, tensors) is None
    &&& l.top == top_offsets(l.arch@, tensors)
    &&& l.layers@.len() == l.arch.layer_types@.len()
    &&& forall|i: int|
        0 <= i < l.layers@.len() ==> #[trigger] l.layers@[i] == layer_offsets(
            l.arch@,
            tensors,
            i as nat,
        )
}

/// The tensors outside the layers of a loaded drafter: each address holds the
/// tensor of its name, the token ordering as it is and all else in half
/// precision. The centroids are there where the configuration has them.
#[verifier::spinoff_prover]
#[verifier::rlimit(60)]
pub proof fn law_drafter_top_addresses(
    l: &Gemma4DrafterWeightLayout,
    tensors: Map<Seq<char>, TensorView>,
    ptrs: Seq<u64>,
    r: Gemma4DrafterTopPtrs,
)
    requires
        is_layout(l, tensors),
        loadable(l),
        r == top_pointers(l, ptrs),
    ensures
        ({
            let items = load_items(l, l.layers@.len());
            let ordered = l.arch.use_ordered_embeddings;
            &&& has_weight(items, ptrs, tensors, r.embed_tokens, "model.embed_tokens.weight"@)
            &&& has_weight(items, ptrs, tensors, r.pre_projection, "pre_projection.weight"@)
            &&& has_weight(items, ptrs, tensors, r.post_projection, "post_projection.weight"@)
            &&& has_weight(items, ptrs, tensors, r.final_norm, "model.norm.weight"@)
            &&& r.centroids is Some == ordered
            &&& r.token_ordering is Some == ordered
            &&& ordered ==> has_weight(
                items,
                ptrs,
                tensors,
                r.centroids->Some_0,
                "masked_embedding.centroids.weight"@,
            )
            &&& ordered ==> exists|i: int|
                0 <= i < items.len() && #[trigger] ptrs[i] == r.token_ordering->Some_0
                    && is_tensor(
                    items[i],
                    tensors,
                    "masked_embedding.token_ordering"@,
                    DType::I64,
                    8,
                    LoadKind::WideInts,
                )
        }),
{
    let n = l.layers@.len();
    let items = load_items(l, n);
    let a = l.arch;
    law_shard_accepted(a@, tensors);
    lemma_item_count(l, n);
    lemma_top_first(l, n);
    lemma_matrix(a.vocab_size, a.hidden_size);
    lemma_matrix(a.hidden_size, a.pre_projection_in_dim);
    lemma_matrix(a.backbone_hidden_size, a.hidden_size);
    lemma_matrix(a.num_centroids, a.hidden_size);
    lemma_vector(a.hidden_size);
    lemma_vector(a.vocab_size);
    let t = top_items(l);
    let b = top_base(l);
    assert(items[b] == t[b] && items[b + 1] == t[b + 1] && items[b + 2] == t[b + 2] && items[b + 3]
        == t[b + 3]);
    assert(a.vocab_size * a.hidden_size >= 0 && a.hidden_size * a.pre_projection_in_dim >= 0
        && a.backbone_hidden_size * a.hidden_size >= 0 && a.num_centroids * a.hidden_size >= 0)
        by (nonlinear_arith);
    assert(ptrs[b] == r.embed_tokens && ptrs[b + 1] == r.pre_projection && ptrs[b + 2]
        == r.post_projection && ptrs[b + 3] == r.final_norm);
    if a.use_ordered_embeddings {
        assert(items[0] == t[0] && items[1] == t[1]);
        assert(ptrs[0] == r.centroids->Some_0 && ptrs[1] == r.token_ordering->Some_0);
    }
}

proof fn lemma_top_first(l: &Gemma4DrafterWeightLayout, n: nat)
    ensures
        top_items(l).len() == top_base(l) + 4,
        load_items(l, n).len() >= top_base(l) + 4,
        forall|i: int|
            0 <= i < top_base(l) + 4 ==> #[trigger] load_items(l, n)[i] == top_items(l)[i],
    decreases n,
{
    if n > 0 {
        lemma_top_first(l, (n - 1) as nat);
    }
}

proof fn lemma_layer_first(l: &Gemma4DrafterWeightLayout, n: nat, i: nat)
    requires
        i < n,
    ensures
        load_items(l, n).len() == top_base(l) + 4 + 12 * n,
        forall|j: int|
            0 <= j < 12 ==> load_items(l, n)[top_base(l) + 4 + 12 * i + j]
                == #[trigger] layer_items(l, i as int)[j],
    decreases n,
{
    lemma_item_count(l, n);
    lemma_item_count(l, (n - 1) as nat);
    if i < n - 1 {
        lemma_layer_first(l, (n - 1) as nat, i);
    }
}

/// The name of a tensor of a layer.
pub open spec fn in_layer(i: nat, t: Seq<char>) -> Seq<char> {
    "model.layers."@ + decimal(i) + "."@ + t
}

/// Whether every weight of a layer is the tensor of its name, and its scalar
/// the number that the shard has for it.
pub open spec fn has_layer(
    l: &Gemma4DrafterWeightLayout,
    tensors: Map<Seq<char>, TensorView>,
    file: Seq<u8>,
    ptrs: Seq<u64>,
    i: nat,
    r: Gemma4DrafterLayerPtrs,
) -> bool {
    let items = load_items(l, l.layers@.len());
    let at = tensors[in_layer(i, "layer_scalar"@)].file_offset as int;
    let word = file[at] + 0x100 * file[at + 1];
    &&& has_weight(
        items,
        ptrs,
        tensors,
        r.input_layernorm,
        in_layer(i, "input_layernorm.weight"@),
    )
    &&& has_weight(
        items,
        ptrs,
        tensors,
        r.post_attention_layernorm,
        in_layer(i, "post_attention_layernorm.weight"@),
    )
    &&& has_weight(
        items,
        ptrs,
        tensors,
        r.pre_feedforward_layernorm,
        in_layer(i, "pre_feedforward_layernorm.weight"@),
    )
    &&& has_weight(
        items,
        ptrs,
        tensors,
        r.post_feedforward_layernorm,
        in_layer(i, "post_feedforward_layernorm.weight"@),
    )
    &&& has_weight(items, ptrs, tensors, r.layer_scalar, in_layer(i, "layer_scalar"@))
    &&& word % 0x8000 <= 0x7f80 ==> r.layer_scalar_bits == 0x1_0000 * word
    &&& has_weight(items, ptrs, tensors, r.mlp_gate_proj, in_layer(i, "mlp.gate_proj.weight"@))
    &&& has_weight(items, ptrs, tensors, r.mlp_up_proj, in_layer(i, "mlp.up_proj.weight"@))
    &&& has_weight(items, ptrs, tensors, r.mlp_down_proj, in_layer(i, "mlp.down_proj.weight"@))
    &&& has_weight(
        items,
        ptrs,
        tensors,
        r.self_attn_q_proj,
        in_layer(i, "self_attn.q_proj.weight"@),
    )
    &&& has_weight(
        items,
        ptrs,
        tensors,
        r.self_attn_q_norm,
        in_layer(i, "self_attn.q_norm.weight"@),
    )
    &&& has_weight(
        items,
        ptrs,
        tensors,
        r.self_attn_o_proj,
        in_layer(i, "self_attn.o_proj.weight"@),
    )
    &&& r.layer_type == l.arch.layer_types@[i as int]
    &&& r.effective_head_dim == if l.arch.layer_types@[i as int] == DrafterLayerType::Full {
        l.arch.head_dim_global
    } else {
        l.arch.head_dim_sliding
    }
}

#[verifier::spinoff_prover]
#[verifier::rlimit(60)]
proof fn lemma_layer_shapes(
    l: &Gemma4DrafterWeightLayout,
    tensors: Map<Seq<char>, TensorView>,
    i: nat,
)
    requires
        is_layout(l, tensors),
        loadable(l),
        i < l.layers@.len(),
    ensures
        ({
            let s = layer_items(l, i as int);
            let h = LoadKind::HalfWeight;
            let b = DType::Bf16;
            &&& is_tensor(s[1], tensors, in_layer(i, "input_layernorm.weight"@), b, 2, h)
            &&& is_tensor(s[2], tensors, in_layer(i, "post_attention_layernorm.weight"@), b, 2, h)
            &&& is_tensor(s[3], tensors, in_layer(i, "pre_feedforward_layernorm.weight"@), b, 2, h)
            &&& is_tensor(s[4], tensors, in_layer(i, "post_feedforward_layernorm.weight"@), b, 2, h)
            &&& is_tensor(s[5], tensors, in_layer(i, "layer_scalar"@), b, 2, h)
            &&& is_tensor(s[6], tensors, in_layer(i, "mlp.gate_proj.weight"@), b, 2, h)
            &&& is_tensor(s[7], tensors, in_layer(i, "mlp.up_proj.weight"@), b, 2, h)
            &&& is_tensor(s[8], tensors, in_layer(i, "mlp.down_proj.weight"@), b, 2, h)
            &&& is_tensor(s[9], tensors, in_layer(i, "self_attn.q_proj.weight"@), b, 2, h)
            &&& is_tensor(s[10], tensors, in_layer(i, "self_attn.q_norm.weight"@), b, 2, h)
            &&& is_tensor(s[11], tensors, in_layer(i, "self_attn.o_proj.weight"@), b, 2, h)
        }),
{
    let a = l.arch;
    law_shard_accepted(a@, tensors);
    assert(layer_fault(a@, tensors, i) is None);
    assert(layer_fits(l, i as int));
    let lo = l.layers@[i as int];
    assert(lo == layer_offsets(a@, tensors, i));
    let rows = (a.num_attention_heads * lo.effective_head_dim) as usize;
    let (hidden, inter) = (a.hidden_size, a.intermediate_size);
    lemma_vector(hidden);
    lemma_vector(1);
    lemma_vector(lo.effective_head_dim);
    lemma_matrix(inter, hidden);
    lemma_matrix(hidden, inter);
    lemma_matrix(rows, hidden);
    lemma_matrix(hidden, rows);
    assert(a.num_attention_heads * lo.effective_head_dim >= 0 && hidden * inter == inter * hidden
        && 0 <= inter * hidden && hidden * rows == rows * hidden && 0 <= rows * hidden)
        by (nonlinear_arith);
}

/// A layer of a loaded drafter: each address holds the tensor of its name in
/// half precision.
#[verifier::spinoff_prover]
#[verifier::rlimit(60)]
pub proof fn law_drafter_layer_addresses(
    l: &Gemma4DrafterWeightLayout,
    tensors: Map<Seq<char>, TensorView>,
    file: Seq<u8>,
    ptrs: Seq<u64>,
    i: nat,
    r: Gemma4DrafterLayerPtrs,
)
    requires
        is_layout(l, tensors),
        loadable(l),
        i < l.layers@.len(),
        r == layer_pointers(l, file, ptrs, i as int),
    ensures
        has_layer(l, tensors, file, ptrs, i, r),
{
    let n = l.layers@.len();
    let items = load_items(l, n);
    let s = layer_items(l, i as int);
    lemma_layer_first(l, n, i);
    lemma_layer_shapes(l, tensors, i);
    let o = top_base(l) + 4 + 12 * i;
    assert(items[o + 1] == s[1] && items[o + 2] == s[2] && items[o + 3] == s[3] && items[o + 4]
        == s[4] && items[o + 5] == s[5] && items[o + 6] == s[6] && items[o + 7] == s[7] && items[o
        + 8] == s[8] && items[o + 9] == s[9] && items[o + 10] == s[10] && items[o + 11] == s[11]);
    assert(ptrs[o + 1] == r.input_layernorm && ptrs[o + 2] == r.post_attention_layernorm && ptrs[o
        + 3] == r.pre_feedforward_layernorm && ptrs[o + 4] == r.post_feedforward_layernorm
        && ptrs[o + 5] == r.layer_scalar && ptrs[o + 6] == r.mlp_gate_proj && ptrs[o + 7]
        == r.mlp_up_proj && ptrs[o + 8] == r.mlp_down_proj && ptrs[o + 9] == r.self_attn_q_proj
        && ptrs[o + 10] == r.self_attn_q_norm && ptrs[o + 11] == r.self_attn_o_proj);
    assert(l.layers@[i as int] == layer_offsets(l.arch@, tensors, i));
}

/// Whether a dimension is the unsigned integer of an entry.
pub open spec fn comes_from(n: usize, entry: Option<JsonTree>) -> bool {
    entry matches Some(JsonTree::Number { unsigned: Some(u), .. }) && n == u as usize
}

/// Every dimension of a drafter is that of the entry of its name: those of the
/// text model in its section, the others at the top. The input of the first
/// projection is two hidden states of the base model wide, and embeddings are
/// ordered unless the configuration says otherwise.
pub proof fn law_drafter_dimensions(t: JsonTree, a: DrafterArchView)
    requires
        arch_outcome(Ok(t)) == Some(Ok::<DrafterArchView, LoaderFault>(a)),
    ensures
        ({
            let text = member(t, "text_config"@)->Some_0;
            &&& member(t, "text_config"@) is Some
            &&& comes_from(a.hidden_size, member(text, "hidden_size"@))
            &&& comes_from(a.intermediate_size, member(text, "intermediate_size"@))
            &&& comes_from(a.num_hidden_layers, member(text, "num_hidden_layers"@))
            &&& comes_from(a.num_attention_heads, member(text, "num_attention_heads"@))
            &&& comes_from(a.num_key_value_heads, member(text, "num_key_value_heads"@))
            &&& comes_from(a.head_dim_sliding, member(text, "head_dim"@))
            &&& comes_from(a.head_dim_global, member(text, "global_head_dim"@))
            &&& comes_from(a.vocab_size, member(text, "vocab_size"@))
            &&& comes_from(a.max_position_embeddings, member(text, "max_position_embeddings"@))
            &&& comes_from(a.sliding_window, member(text, "sliding_window"@))
            &&& comes_from(a.num_centroids, member(t, "num_centroids"@))
            &&& comes_from(
                a.centroid_intermediate_top_k,
                member(t, "centroid_intermediate_top_k"@),
            )
            &&& comes_from(a.backbone_hidden_size, member(t, "backbone_hidden_size"@))
            &&& a.pre_projection_in_dim == a.backbone_hidden_size + a.backbone_hidden_size
            &&& a.use_ordered_embeddings == !(member(t, "use_ordered_embeddings"@) == Some(
                JsonTree::Bool(false),
            ))
            &&& member(text, "rms_norm_eps"@) matches Some(
                JsonTree::Number { double: Some(d), .. },
            ) && a.rms_norm_eps_bits == single_bits(d)
            &&& a.layer_types.len() == a.num_hidden_layers
            &&& member(text, "layer_types"@) matches Some(JsonTree::List(names)) && {
                &&& strings_in(names).len() == a.layer_types.len()
                &&& forall|i: int|
                    0 <= i < a.layer_types.len() ==> match #[trigger] a.layer_types[i] {
                        DrafterLayerType::Sliding => strings_in(names)[i] == "sliding_attention"@,
                        DrafterLayerType::Full => strings_in(names)[i] == "full_attention"@,
                    }
            }
        }),
{
}

} // verus!
