//! Uploading a drafter: which bytes of its shard go to the device, in which
//! order, and what the uploaded drafter holds.

use crate::formats::{bf16_to_f32_bits_quiet, half_bits_with_payload, widened_quiet};
use crate::limits::{product, within};
use crate::loader::gemma4_drafter::Gemma4DrafterWeightLayout;
use crate::runtime::gemma4_drafter::{
    no_kernels, DrafterKernels, Gemma4DrafterLayerPtrs, Gemma4DrafterRuntime, Gemma4DrafterTopPtrs,
};
use crate::tensor::{corrupt, LoaderError, LoaderFault};
use crate::text::{cat, cat_num, decimal};
use crate::weight_bytes::{bf16_bytes_to_f16_bytes, word16};
use vstd::arithmetic::overflow::CheckedU128;
use vstd::prelude::*;
use vstd::string::*;

verus! {

/// What is done with a tensor of the shard.
#[derive(Clone, Copy, Debug, PartialEq, Eq, Structural)]
pub enum LoadKind {
    /// bf16, which goes to the device in half precision.
    HalfWeight,
    /// 64-bit integers, which go to the device as they are.
    WideInts,
    /// One bf16 number that the host keeps.
    Scalar,
}

/// A tensor of the shard, in the order of use.
#[derive(Debug)]
pub struct LoadItem {
    pub name: String,
    pub offset: u64,
    pub bytes: usize,
    pub kind: LoadKind,
}

/// What a [`LoadItem`] stands for.
pub struct LoadItemView {
    pub name: Seq<char>,
    pub offset: u64,
    pub bytes: usize,
    pub kind: LoadKind,
}

impl View for LoadItem {
    type V = LoadItemView;

    open spec fn view(&self) -> LoadItemView {
        LoadItemView { name: self.name@, offset: self.offset, bytes: self.bytes, kind: self.kind }
    }
}

/// What is reported of a shard.
#[derive(Debug)]
pub struct ShardReport {
    /// The shard.
    pub path: String,
    pub error: LoaderError,
}

/// Tensors in use, and the first that does not lie in the file, if any.
#[derive(Debug)]
pub struct DrafterLoadPlan {
    pub items: Vec<LoadItem>,
    pub failure: Option<ShardReport>,
}

/// What a list of tensors stands for.
pub open spec fn item_views(v: Seq<LoadItem>) -> Seq<LoadItemView> {
    v.map_values(|i: LoadItem| i@)
}

/// A tensor of half-precision weights.
pub open spec fn half_item(name: Seq<char>, offset: u64, elems: int) -> LoadItemView {
    LoadItemView { name, offset, bytes: (2 * elems) as usize, kind: LoadKind::HalfWeight }
}

/// Name of a layer's tensor in reports.
pub open spec fn report_name(layer: nat, t: Seq<char>) -> Seq<char> {
    "layer_"@ + decimal(layer) + t
}

/// The tensors outside the layers.
pub open spec fn top_items(l: &Gemma4DrafterWeightLayout) -> Seq<LoadItemView> {
    let a = l.arch;
    let hidden = a.hidden_size;
    (match l.top.centroids {
        Some(off) => seq![
            half_item("masked_embedding.centroids.weight"@, off, a.num_centroids * hidden),
        ],
        None => Seq::empty(),
    }) + (match l.top.token_ordering {
        Some(off) => seq![
            LoadItemView {
                name: "masked_embedding.token_ordering"@,
                offset: off,
                bytes: (8 * a.vocab_size) as usize,
                kind: LoadKind::WideInts,
            },
        ],
        None => Seq::empty(),
    }) + seq![
        half_item("model.embed_tokens.weight"@, l.top.embed_tokens, a.vocab_size * hidden),
        half_item("pre_projection.weight"@, l.top.pre_projection, hidden * a.pre_projection_in_dim),
        half_item(
            "post_projection.weight"@,
            l.top.post_projection,
            a.backbone_hidden_size * hidden,
        ),
        half_item("model.norm.weight"@, l.top.final_norm, hidden as int),
    ]
}

/// Rows of a layer's query projection.
pub open spec fn layer_rows(l: &Gemma4DrafterWeightLayout, i: int) -> int {
    l.arch.num_attention_heads * l.layers@[i].effective_head_dim
}

/// The tensors of one layer: first its scalar for the host.
pub open spec fn layer_items(l: &Gemma4DrafterWeightLayout, i: int) -> Seq<LoadItemView> {
    let lo = l.layers@[i];
    let hidden = l.arch.hidden_size as int;
    let inter = l.arch.intermediate_size as int;
    let rows = layer_rows(l, i);
    seq![
        LoadItemView {
            name: report_name(i as nat, ".layer_scalar"@),
            offset: lo.layer_scalar,
            bytes: 2,
            kind: LoadKind::Scalar,
        },
        half_item(report_name(i as nat, ".input_layernorm.weight"@), lo.input_layernorm, hidden),
        half_item(
            report_name(i as nat, ".post_attention_layernorm.weight"@),
            lo.post_attention_layernorm,
            hidden,
        ),
        half_item(
            report_name(i as nat, ".pre_feedforward_layernorm.weight"@),
            lo.pre_feedforward_layernorm,
            hidden,
        ),
        half_item(
            report_name(i as nat, ".post_feedforward_layernorm.weight"@),
            lo.post_feedforward_layernorm,
            hidden,
        ),
        half_item(report_name(i as nat, ".layer_scalar"@), lo.layer_scalar, 1),
        half_item(report_name(i as nat, ".mlp.gate_proj.weight"@), lo.mlp_gate_proj, inter * hidden),
        half_item(report_name(i as nat, ".mlp.up_proj.weight"@), lo.mlp_up_proj, inter * hidden),
        half_item(report_name(i as nat, ".mlp.down_proj.weight"@), lo.mlp_down_proj, hidden * inter),
        half_item(
            report_name(i as nat, ".self_attn.q_proj.weight"@),
            lo.self_attn_q_proj,
            rows * hidden,
        ),
        half_item(
            report_name(i as nat, ".self_attn.q_norm.weight"@),
            lo.self_attn_q_norm,
            lo.effective_head_dim as int,
        ),
        half_item(
            report_name(i as nat, ".self_attn.o_proj.weight"@),
            lo.self_attn_o_proj,
            hidden * rows,
        ),
    ]
}

/// The tensors outside the layers and of the first `n` layers.
pub open spec fn load_items(l: &Gemma4DrafterWeightLayout, n: nat) -> Seq<LoadItemView>
    decreases n,
{
    if n == 0 {
        top_items(l)
    } else {
        load_items(l, (n - 1) as nat) + layer_items(l, n - 1)
    }
}

/// Whether a tensor lies in a file of `len` bytes.
pub open spec fn lies_in(item: LoadItemView, len: int) -> bool {
    item.offset + item.bytes <= len
}

/// The first of the tensors from `k` on that does not lie in the file, or
/// their number.
pub open spec fn first_past(items: Seq<LoadItemView>, len: int, k: int) -> int
    decreases items.len() - k,
{
    if k >= items.len() {
        items.len() as int
    } else if !lies_in(items[k], len) {
        k
    } else {
        first_past(items, len, k + 1)
    }
}

/// The report of a tensor that does not lie in the file.
pub open spec fn past_fault(item: LoadItemView, len: nat) -> LoaderFault {
    LoaderFault::Corrupt {
        detail: if item.kind == LoadKind::Scalar {
            item.name + " offset "@ + decimal(item.offset as nat) + " past file len "@ + decimal(len)
        } else {
            "tensor "@ + item.name + ": range ["@ + decimal(item.offset as nat) + ", "@ + decimal(
                (item.offset + item.bytes) as nat,
            ) + ") past file len "@ + decimal(len)
        },
    }
}

/// Element counts that can be counted, outside the layers.
pub open spec fn top_fits(l: &Gemma4DrafterWeightLayout) -> bool {
    let a = l.arch;
    let hidden = a.hidden_size;
    &&& l.top.centroids is Some ==> 2 * (a.num_centroids * hidden) <= usize::MAX
    &&& l.top.token_ordering is Some ==> 8 * a.vocab_size <= usize::MAX
    &&& 2 * (a.vocab_size * hidden) <= usize::MAX
    &&& 2 * (hidden * a.pre_projection_in_dim) <= usize::MAX
    &&& 2 * (a.backbone_hidden_size * hidden) <= usize::MAX
    &&& 2 * hidden <= usize::MAX
}

/// Element counts that can be counted, of a layer.
pub open spec fn layer_fits(l: &Gemma4DrafterWeightLayout, i: int) -> bool {
    let hidden = l.arch.hidden_size;
    let inter = l.arch.intermediate_size;
    &&& 2 * (inter * hidden) <= usize::MAX
    &&& layer_rows(l, i) <= usize::MAX
    &&& 2 * (layer_rows(l, i) * hidden) <= usize::MAX
    &&& 2 * l.layers@[i].effective_head_dim <= usize::MAX
}

/// Bytes on the device of what lies outside the layers.
pub open spec fn top_bytes(l: &Gemma4DrafterWeightLayout) -> int {
    let a = l.arch;
    let hidden = a.hidden_size;
    2 * (a.vocab_size * hidden + hidden * a.pre_projection_in_dim + a.backbone_hidden_size * hidden
        + hidden) + if a.use_ordered_embeddings {
        2 * (a.num_centroids * hidden) + 8 * a.vocab_size
    } else {
        0
    }
}

/// Bytes on the device of one layer.
pub open spec fn layer_bytes(l: &Gemma4DrafterWeightLayout, i: int) -> int {
    let hidden = l.arch.hidden_size as int;
    let inter = l.arch.intermediate_size as int;
    2 * (4 * hidden + 1 + 3 * (inter * hidden) + layer_rows(l, i) * hidden
        + l.layers@[i].effective_head_dim + hidden * layer_rows(l, i))
}

/// Bytes on the device up to layer `n`.
pub open spec fn resident_bytes(l: &Gemma4DrafterWeightLayout, n: nat) -> int
    decreases n,
{
    if n == 0 {
        top_bytes(l)
    } else {
        resident_bytes(l, (n - 1) as nat) + layer_bytes(l, n - 1)
    }
}

/// Limits of a layout that can be loaded.
pub open spec fn loadable(l: &Gemma4DrafterWeightLayout) -> bool {
    &&& top_fits(l)
    &&& forall|i: int| 0 <= i < l.layers@.len() ==> #[trigger] layer_fits(l, i)
    &&& forall|i: int|
        0 <= i < load_items(l, l.layers@.len()).len() ==> {
            let item = #[trigger] load_items(l, l.layers@.len())[i];
            item.offset + item.bytes <= usize::MAX
        }
    &&& resident_bytes(l, l.layers@.len()) <= usize::MAX
}

fn layer_name(layer: usize, t: &str) -> (r: String)
    ensures
        r@ == report_name(layer as nat, t@),
{
    cat(cat_num(String::from_str("layer_"), layer as u64), t)
}

fn plan_half(name: String, offset: u64, elems: usize) -> (r: LoadItem)
    requires
        2 * elems <= usize::MAX,
    ensures
        r@ == half_item(name@, offset, elems as int),
{
    LoadItem { name, offset, bytes: elems * 2, kind: LoadKind::HalfWeight }
}

/// The tensors outside the layers.
fn plan_top_items(l: &Gemma4DrafterWeightLayout) -> (r: Vec<LoadItem>)
    requires
        top_fits(l),
    ensures
        item_views(r@) == top_items(l),
{
    let a = &l.arch;
    let hidden: usize = a.hidden_size;
    let mut r: Vec<LoadItem> = Vec::new();
    if let Some(off) = l.top.centroids {
        r.push(
            plan_half(
                String::from_str("masked_embedding.centroids.weight"),
                off,
                a.num_centroids * hidden,
            ),
        );
    }
    if let Some(off) = l.top.token_ordering {
        r.push(
            LoadItem {
                name: String::from_str("masked_embedding.token_ordering"),
                offset: off,
                bytes: a.vocab_size * 8,
                kind: LoadKind::WideInts,
            },
        );
    }
    r.push(
        plan_half(
            String::from_str("model.embed_tokens.weight"),
            l.top.embed_tokens,
            a.vocab_size * hidden,
        ),
    );
    r.push(
        plan_half(
            String::from_str("pre_projection.weight"),
            l.top.pre_projection,
            hidden * a.pre_projection_in_dim,
        ),
    );
    r.push(
        plan_half(
            String::from_str("post_projection.weight"),
            l.top.post_projection,
            a.backbone_hidden_size * hidden,
        ),
    );
    r.push(plan_half(String::from_str("model.norm.weight"), l.top.final_norm, hidden));
    assert(item_views(r@) =~= top_items(l));
    r
}

/// The tensors of one layer.
#[verifier::spinoff_prover]
#[verifier::rlimit(40)]
fn plan_layer_items(l: &Gemma4DrafterWeightLayout, i: usize) -> (r: Vec<LoadItem>)
    requires
        i < l.layers@.len(),
        top_fits(l),
        layer_fits(l, i as int),
    ensures
        item_views(r@) == layer_items(l, i as int),
{
    let lo = &l.layers[i];
    let hidden: usize = l.arch.hidden_size;
    let inter: usize = l.arch.intermediate_size;
    let rows: usize = l.arch.num_attention_heads * lo.effective_head_dim;
    assert(hidden * rows == rows * hidden && hidden * inter == inter * hidden)
        by (nonlinear_arith);
    let r: Vec<LoadItem> =
        vec![
        LoadItem {
            name: layer_name(i, ".layer_scalar"),
            offset: lo.layer_scalar,
            bytes: 2,
            kind: LoadKind::Scalar,
        },
        plan_half(layer_name(i, ".input_layernorm.weight"), lo.input_layernorm, hidden),
        plan_half(
            layer_name(i, ".post_attention_layernorm.weight"),
            lo.post_attention_layernorm,
            hidden,
        ),
        plan_half(
            layer_name(i, ".pre_feedforward_layernorm.weight"),
            lo.pre_feedforward_layernorm,
            hidden,
        ),
        plan_half(
            layer_name(i, ".post_feedforward_layernorm.weight"),
            lo.post_feedforward_layernorm,
            hidden,
        ),
        plan_half(layer_name(i, ".layer_scalar"), lo.layer_scalar, 1),
        plan_half(layer_name(i, ".mlp.gate_proj.weight"), lo.mlp_gate_proj, inter * hidden),
        plan_half(layer_name(i, ".mlp.up_proj.weight"), lo.mlp_up_proj, inter * hidden),
        plan_half(layer_name(i, ".mlp.down_proj.weight"), lo.mlp_down_proj, hidden * inter),
        plan_half(layer_name(i, ".self_attn.q_proj.weight"), lo.self_attn_q_proj, rows * hidden),
        plan_half(
            layer_name(i, ".self_attn.q_norm.weight"),
            lo.self_attn_q_norm,
            lo.effective_head_dim,
        ),
        plan_half(layer_name(i, ".self_attn.o_proj.weight"), lo.self_attn_o_proj, hidden * rows),
    ];
    assert(item_views(r@) =~= layer_items(l, i as int));
    r
}

/// The tensors of a layout in the order of use.
pub fn plan_load_items(l: &Gemma4DrafterWeightLayout) -> (r: Vec<LoadItem>)
    requires
        top_fits(l),
        forall|i: int| 0 <= i < l.layers@.len() ==> #[trigger] layer_fits(l, i),
    ensures
        item_views(r@) == load_items(l, l.layers@.len()),
{
    let mut r = plan_top_items(l);
    let n: usize = l.layers.len();
    let mut i: usize = 0;
    while i < n
        invariant
            n == l.layers@.len(),
            i <= n,
            top_fits(l),
            forall|j: int| 0 <= j < l.layers@.len() ==> #[trigger] layer_fits(l, j),
            item_views(r@) == load_items(l, i as nat),
        decreases n - i,
    {
        assert(layer_fits(l, i as int));
        let ghost before = r@;
        let mut more = plan_layer_items(l, i);
        let ghost added = more@;
        r.append(&mut more);
        assert(item_views(r@) =~= item_views(before) + item_views(added));
        i = i + 1;
    }
    r
}

/// Whether the tensors outside the layers can be counted.
fn check_top(l: &Gemma4DrafterWeightLayout) -> (r: bool)
    ensures
        r == top_fits(l),
{
    let a = &l.arch;
    let hidden: u128 = a.hidden_size as u128;
    let most: u128 = usize::MAX as u128;
    let centroids = product(a.num_centroids as u128, hidden).mul_value(2);
    let embedding = product(a.vocab_size as u128, hidden).mul_value(2);
    let before = product(hidden, a.pre_projection_in_dim as u128).mul_value(2);
    let after = product(a.backbone_hidden_size as u128, hidden).mul_value(2);
    (l.top.centroids.is_none() || within(&centroids, most)) && (l.top.token_ordering.is_none()
        || a.vocab_size as u128 * 8 <= most) && within(&embedding, most) && within(&before, most)
        && within(&after, most) && 2 * hidden <= most
}

/// Whether the tensors of a layer can be counted.
fn check_layer(l: &Gemma4DrafterWeightLayout, i: usize) -> (r: bool)
    requires
        i < l.layers@.len(),
    ensures
        r == layer_fits(l, i as int),
{
    let hidden: u128 = l.arch.hidden_size as u128;
    let width: u128 = l.layers[i].effective_head_dim as u128;
    let most: u128 = usize::MAX as u128;
    let mlp = product(l.arch.intermediate_size as u128, hidden).mul_value(2);
    let rows = product(l.arch.num_attention_heads as u128, width);
    let projection = rows.mul_value(hidden).mul_value(2);
    within(&mlp, most) && within(&rows, most) && within(&projection, most) && 2 * width <= most
}

/// The bytes on the device of a layer.
fn count_layer(l: &Gemma4DrafterWeightLayout, i: usize) -> (r: CheckedU128)
    requires
        i < l.layers@.len(),
    ensures
        r@ == layer_bytes(l, i as int),
{
    let hidden: u128 = l.arch.hidden_size as u128;
    let width: u128 = l.layers[i].effective_head_dim as u128;
    let mlp = product(l.arch.intermediate_size as u128, hidden);
    let projection = product(l.arch.num_attention_heads as u128, width).mul_value(hidden);
    proof {
        let rows = layer_rows(l, i as int);
        assert(rows * l.arch.hidden_size == l.arch.hidden_size * rows) by (nonlinear_arith);
    }
    mlp.mul_value(3).add_checked(&projection.mul_value(2)).add_value(4 * hidden + 1 + width).mul_value(
        2,
    )
}

/// The bytes on the device of what lies outside the layers.
fn count_top(l: &Gemma4DrafterWeightLayout) -> (r: CheckedU128)
    ensures
        r@ == top_bytes(l),
{
    let a = &l.arch;
    let hidden: u128 = a.hidden_size as u128;
    let embedding = product(a.vocab_size as u128, hidden);
    let before = product(hidden, a.pre_projection_in_dim as u128);
    let after = product(a.backbone_hidden_size as u128, hidden);
    let r = embedding.add_checked(&before).add_checked(&after).add_value(hidden).mul_value(2);
    if a.use_ordered_embeddings {
        let centroids = product(a.num_centroids as u128, hidden).mul_value(2);
        r.add_checked(&centroids).add_value(a.vocab_size as u128 * 8)
    } else {
        r
    }
}

/// Whether a layout can be loaded: its tensors, their places in the shard and
/// their bytes on the device can be counted.
pub fn check_loadable(l: &Gemma4DrafterWeightLayout) -> (r: bool)
    ensures
        r == loadable(l),
{
    if !check_top(l) {
        return false;
    }
    let n: usize = l.layers.len();
    let mut resident = count_top(l);
    let mut i: usize = 0;
    while i < n
        invariant
            n == l.layers@.len(),
            i <= n,
            forall|j: int| 0 <= j < i ==> #[trigger] layer_fits(l, j),
            resident@ == resident_bytes(l, i as nat),
        decreases n - i,
    {
        if !check_layer(l, i) {
            return false;
        }
        resident = resident.add_checked(&count_layer(l, i));
        i = i + 1;
    }
    let items = plan_load_items(l);
    let count: usize = items.len();
    let mut k: usize = 0;
    while k < count
        invariant
            count == items@.len(),
            item_views(items@) == load_items(l, l.layers@.len()),
            k <= count,
            forall|j: int|
                0 <= j < k ==> {
                    let item = #[trigger] load_items(l, l.layers@.len())[j];
                    item.offset + item.bytes <= usize::MAX
                },
        decreases count - k,
    {
        assert(load_items(l, l.layers@.len())[k as int] == items@[k as int]@);
        if items[k].offset as u128 + items[k].bytes as u128 > usize::MAX as u128 {
            return false;
        }
        k = k + 1;
    }
    within(&resident, usize::MAX as u128)
}

fn past_error(item: &LoadItem, len: usize) -> (r: LoaderError)
    requires
        item.offset + item.bytes <= usize::MAX,
    ensures
        r@ == past_fault(item@, len as nat),
{
    if item.kind == LoadKind::Scalar {
        let s = cat(item.name.clone(), " offset ");
        let s = cat(cat_num(s, item.offset), " past file len ");
        corrupt(cat_num(s, len as u64))
    } else {
        let s = cat(String::from_str("tensor "), item.name.as_str());
        let s = cat_num(cat(s, ": range ["), item.offset);
        let s = cat_num(cat(s, ", "), item.offset + item.bytes as u64);
        corrupt(cat_num(cat(s, ") past file len "), len as u64))
    }
}

impl Gemma4DrafterRuntime {
    /// Which tensors of a shard of `file_len` bytes are used, in order, up to
    /// the first that does not lie in it, which is reported with the shard.
    pub fn load(layout: &Gemma4DrafterWeightLayout, file_len: usize) -> (r: DrafterLoadPlan)
        requires
            loadable(layout),
        ensures
            ({
                let items = load_items(layout, layout.layers@.len());
                let k = first_past(items, file_len as int, 0);
                &&& item_views(r.items@) == items.take(k)
                &&& match r.failure {
                    None => k == items.len(),
                    Some(e) => {
                        &&& k < items.len()
                        &&& e.path@ == layout.shard_path@
                        &&& e.error@ == past_fault(items[k], file_len as nat)
                    },
                }
            }),
    {
        let all = plan_load_items(layout);
        let ghost items = load_items(layout, layout.layers@.len());
        let n: usize = all.len();
        let mut k: usize = 0;
        let mut fault: Option<LoaderError> = None;
        assert(items.len() == n);
        while k < n
            invariant_except_break
                fault is None,
                first_past(items, file_len as int, 0) == first_past(
                    items,
                    file_len as int,
                    k as int,
                ),
            invariant
                n == all@.len(),
                items == item_views(all@),
                items == load_items(layout, layout.layers@.len()),
                loadable(layout),
                k <= n,
            ensures
                k == first_past(items, file_len as int, 0),
                match fault {
                    None => k == n,
                    Some(e) => k < n && e@ == past_fault(items[k as int], file_len as nat),
                },
            decreases n - k,
        {
            assert(items[k as int] == all@[k as int]@);
            if all[k].offset as usize + all[k].bytes > file_len {
                fault = Some(past_error(&all[k], file_len));
                break;
            }
            k = k + 1;
        }
        let mut used: Vec<LoadItem> = Vec::new();
        let mut rest = all;
        let ghost whole = rest@;
        rest.truncate(k);
        used.append(&mut rest);
        assert(item_views(used@) =~= items.take(k as int));
        let failure = match fault {
            Some(error) => Some(ShardReport { path: layout.shard_path.clone(), error }),
            None => None,
        };
        DrafterLoadPlan { items: used, failure }
    }

    /// The uploaded drafter: `ptrs` are the device addresses of the tensors in
    /// their order, with an entry that nobody reads for each host scalar.
    pub fn from_uploads(layout: &Gemma4DrafterWeightLayout, file: &[u8], ptrs: &[u64]) -> (r:
        Gemma4DrafterRuntime)
        requires
            loadable(layout),
            first_past(load_items(layout, layout.layers@.len()), file@.len() as int, 0)
                == load_items(layout, layout.layers@.len()).len(),
            ptrs@.len() == load_items(layout, layout.layers@.len()).len(),
        ensures
            r.arch@ == layout.arch@,
            r.shard_path@ == layout.shard_path@,
            r.shadow_kv is None,
            r.kernels == no_kernels(),
            r.bytes_resident == resident_bytes(layout, layout.layers@.len()),
            r.top == top_pointers(layout, ptrs@),
            r.layers@ == Seq::new(
                layout.layers@.len(),
                |i: int| layer_pointers(layout, file@, ptrs@, i),
            ),
    {
        let n: usize = layout.layers.len();
        proof {
            lemma_item_count(layout, n as nat);
        }
        let mut base: usize = 0;
        let mut centroids: Option<u64> = None;
        if layout.top.centroids.is_some() {
            centroids = Some(ptrs[base]);
            base = base + 1;
        }
        let mut token_ordering: Option<u64> = None;
        if layout.top.token_ordering.is_some() {
            token_ordering = Some(ptrs[base]);
            base = base + 1;
        }
        assert(base == top_base(layout));
        let top = Gemma4DrafterTopPtrs {
            centroids,
            token_ordering,
            embed_tokens: ptrs[base],
            pre_projection: ptrs[base + 1],
            post_projection: ptrs[base + 2],
            final_norm: ptrs[base + 3],
        };
        proof {
            lemma_resident_grows(layout, 0, n as nat);
        }
        let mut resident: usize = plan_top_bytes(layout);
        let mut layers: Vec<Gemma4DrafterLayerPtrs> = Vec::new();
        let mut i: usize = 0;
        let mut o: usize = base + 4;
        while i < n
            invariant
                n == layout.layers@.len(),
                i <= n,
                loadable(layout),
                first_past(load_items(layout, n as nat), file@.len() as int, 0) == load_items(
                    layout,
                    n as nat,
                ).len(),
                load_items(layout, n as nat).len() == top_base(layout) + 4 + 12 * n,
                ptrs@.len() == top_base(layout) + 4 + 12 * n,
                o == top_base(layout) + 4 + 12 * i,
                resident == resident_bytes(layout, i as nat),
                layers@ =~= Seq::new(
                    i as nat,
                    |j: int| layer_pointers(layout, file@, ptrs@, j),
                ),
            decreases n - i,
        {
            let lo = &layout.layers[i];
            proof {
                assert(layer_fits(layout, i as int));
                lemma_layer_item(layout, n as nat, i as nat);
                lemma_all_lie_in(
                    load_items(layout, n as nat),
                    file@.len() as int,
                    0,
                    top_base(layout) + 4 + 12 * i,
                );
                lemma_resident_grows(layout, (i + 1) as nat, n as nat);
            }
            let at: usize = lo.layer_scalar as usize;
            let lo_byte: u8 = file[at];
            let hi_byte: u8 = file[at + 1];
            let bits: u32 = bf16_to_f32_bits_quiet(
                lo_byte as u16 + 0x100 * (hi_byte as u16),
            );
            layers.push(
                Gemma4DrafterLayerPtrs {
                    input_layernorm: ptrs[o + 1],
                    post_attention_layernorm: ptrs[o + 2],
                    pre_feedforward_layernorm: ptrs[o + 3],
                    post_feedforward_layernorm: ptrs[o + 4],
                    layer_scalar: ptrs[o + 5],
                    layer_scalar_bits: bits,
                    mlp_gate_proj: ptrs[o + 6],
                    mlp_up_proj: ptrs[o + 7],
                    mlp_down_proj: ptrs[o + 8],
                    self_attn_q_proj: ptrs[o + 9],
                    self_attn_q_norm: ptrs[o + 10],
                    self_attn_o_proj: ptrs[o + 11],
                    effective_head_dim: lo.effective_head_dim,
                    layer_type: lo.layer_type,
                },
            );
            resident = resident + plan_layer_bytes(layout, i);
            i = i + 1;
            o = o + 12;
        }
        Gemma4DrafterRuntime {
            arch: layout.arch.dup(),
            top,
            layers,
            bytes_resident: resident,
            shard_path: layout.shard_path.clone(),
            kernels: DrafterKernels {
                masked_embedder: false,
                flash_attention: false,
                flash_attention_bc16: false,
                dequant_fp8: false,
                dequant_nvfp4: false,
            },
            shadow_kv: None,
        }
    }
}

/// Number of tensors before the embedding.
pub open spec fn top_base(l: &Gemma4DrafterWeightLayout) -> int {
    (if l.top.centroids is Some {
        1int
    } else {
        0
    }) + if l.top.token_ordering is Some {
        1int
    } else {
        0
    }
}

/// Addresses of what lies outside the layers.
pub open spec fn top_pointers(l: &Gemma4DrafterWeightLayout, ptrs: Seq<u64>) -> Gemma4DrafterTopPtrs {
    let b = top_base(l);
    Gemma4DrafterTopPtrs {
        centroids: if l.top.centroids is Some {
            Some(ptrs[0])
        } else {
            None
        },
        token_ordering: if l.top.token_ordering is Some {
            Some(ptrs[b - 1])
        } else {
            None
        },
        embed_tokens: ptrs[b],
        pre_projection: ptrs[b + 1],
        post_projection: ptrs[b + 2],
        final_norm: ptrs[b + 3],
    }
}

/// The little-endian 16-bit word at a byte.
pub open spec fn word_at(file: Seq<u8>, at: int) -> u16 {
    (file[at] as nat + 0x100 * file[at + 1] as nat) as u16
}

/// Addresses of one layer, and its scalar.
pub open spec fn layer_pointers(
    l: &Gemma4DrafterWeightLayout,
    file: Seq<u8>,
    ptrs: Seq<u64>,
    i: int,
) -> Gemma4DrafterLayerPtrs {
    let o = top_base(l) + 4 + 12 * i;
    let lo = l.layers@[i];
    Gemma4DrafterLayerPtrs {
        input_layernorm: ptrs[o + 1],
        post_attention_layernorm: ptrs[o + 2],
        pre_feedforward_layernorm: ptrs[o + 3],
        post_feedforward_layernorm: ptrs[o + 4],
        layer_scalar: ptrs[o + 5],
        layer_scalar_bits: widened_quiet(word_at(file, lo.layer_scalar as int)) as u32,
        mlp_gate_proj: ptrs[o + 6],
        mlp_up_proj: ptrs[o + 7],
        mlp_down_proj: ptrs[o + 8],
        self_attn_q_proj: ptrs[o + 9],
        self_attn_q_norm: ptrs[o + 10],
        self_attn_o_proj: ptrs[o + 11],
        effective_head_dim: lo.effective_head_dim,
        layer_type: lo.layer_type,
    }
}

fn plan_top_bytes(l: &Gemma4DrafterWeightLayout) -> (r: usize)
    requires
        top_fits(l),
        top_bytes(l) <= usize::MAX,
    ensures
        r == top_bytes(l),
{
    let a = &l.arch;
    let hidden: usize = a.hidden_size;
    assert(a.vocab_size * hidden >= 0 && hidden * a.pre_projection_in_dim >= 0
        && a.backbone_hidden_size * hidden >= 0 && a.num_centroids * hidden >= 0)
        by (nonlinear_arith);
    let weights: usize = 2 * (a.vocab_size * hidden + hidden * a.pre_projection_in_dim
        + a.backbone_hidden_size * hidden + hidden);
    if a.use_ordered_embeddings {
        weights + (2 * (a.num_centroids * hidden) + 8 * a.vocab_size)
    } else {
        weights
    }
}

fn plan_layer_bytes(l: &Gemma4DrafterWeightLayout, i: usize) -> (r: usize)
    requires
        i < l.layers@.len(),
        layer_fits(l, i as int),
        layer_bytes(l, i as int) <= usize::MAX,
    ensures
        r == layer_bytes(l, i as int),
{
    let hidden: usize = l.arch.hidden_size;
    let inter: usize = l.arch.intermediate_size;
    let hd: usize = l.layers[i].effective_head_dim;
    let rows: usize = l.arch.num_attention_heads * hd;
    assert(hidden * rows == rows * hidden && rows * hidden >= 0 && inter * hidden >= 0)
        by (nonlinear_arith);
    2 * (4 * hidden + 1 + 3 * (inter * hidden) + rows * hidden + hd + hidden * rows)
}

/// Tensors of the first `n` layers and outside them.
pub proof fn lemma_item_count(l: &Gemma4DrafterWeightLayout, n: nat)
    ensures
        load_items(l, n).len() == top_base(l) + 4 + 12 * n,
    decreases n,
{
    if n > 0 {
        lemma_item_count(l, (n - 1) as nat);
    }
}

/// Where a layer's tensors stand in the list.
proof fn lemma_layer_item(l: &Gemma4DrafterWeightLayout, n: nat, i: nat)
    requires
        i < n,
    ensures
        load_items(l, n).len() == top_base(l) + 4 + 12 * n,
        load_items(l, n)[top_base(l) + 4 + 12 * i] == layer_items(l, i as int)[0],
    decreases n,
{
    lemma_item_count(l, n);
    lemma_item_count(l, (n - 1) as nat);
    if i < n - 1 {
        lemma_layer_item(l, (n - 1) as nat, i);
    }
}

/// Where none is past the file, each tensor lies in it.
proof fn lemma_all_lie_in(items: Seq<LoadItemView>, len: int, k: int, i: int)
    requires
        0 <= k <= i < items.len(),
        first_past(items, len, k) == items.len(),
    ensures
        lies_in(items[i], len),
    decreases items.len() - k,
{
    if k < i {
        lemma_all_lie_in(items, len, k + 1, i);
    }
}

proof fn lemma_layer_bytes_positive(l: &Gemma4DrafterWeightLayout, i: int)
    ensures
        layer_bytes(l, i) >= 0,
{
    let hidden = l.arch.hidden_size as int;
    let inter = l.arch.intermediate_size as int;
    let rows = layer_rows(l, i);
    let heads = l.arch.num_attention_heads as int;
    let hd = l.layers@[i].effective_head_dim as int;
    assert(rows >= 0) by (nonlinear_arith)
        requires
            rows == heads * hd,
            heads >= 0,
            hd >= 0,
    ;
    assert(hidden * rows >= 0 && rows * hidden >= 0 && inter * hidden >= 0) by (nonlinear_arith)
        requires
            hidden >= 0,
            rows >= 0,
            inter >= 0,
    ;
}

proof fn lemma_top_bytes_positive(l: &Gemma4DrafterWeightLayout)
    ensures
        top_bytes(l) >= 0,
{
    let a = l.arch;
    let hidden = a.hidden_size;
    assert(a.vocab_size * hidden >= 0 && hidden * a.pre_projection_in_dim >= 0
        && a.backbone_hidden_size * hidden >= 0 && a.num_centroids * hidden >= 0)
        by (nonlinear_arith);
}

proof fn lemma_resident_grows(l: &Gemma4DrafterWeightLayout, i: nat, n: nat)
    requires
        i <= n,
    ensures
        0 <= resident_bytes(l, i) <= resident_bytes(l, n),
        i > 0 ==> layer_bytes(l, i - 1) <= resident_bytes(l, i),
    decreases n,
{
    if i < n {
        lemma_resident_grows(l, i, (n - 1) as nat);
        lemma_layer_bytes_positive(l, n - 1);
    } else if n > 0 {
        lemma_resident_grows(l, (n - 1) as nat, (n - 1) as nat);
        lemma_layer_bytes_positive(l, n - 1);
    } else {
        lemma_top_bytes_positive(l);
    }
}

/// Bytes that a list of tensors takes on the device.
pub open spec fn uploaded_bytes(items: Seq<LoadItemView>) -> int
    decreases items.len(),
{
    if items.len() == 0 {
        0
    } else {
        uploaded_bytes(items.drop_last()) + if items.last().kind == LoadKind::Scalar {
            0
        } else {
            items.last().bytes as int
        }
    }
}

proof fn lemma_uploaded_sum(a: Seq<LoadItemView>, b: Seq<LoadItemView>)
    ensures
        uploaded_bytes(a + b) == uploaded_bytes(a) + uploaded_bytes(b),
    decreases b.len(),
{
    if b.len() == 0 {
        assert(a + b =~= a);
    } else {
        assert((a + b).drop_last() =~= a + b.drop_last());
        lemma_uploaded_sum(a, b.drop_last());
    }
}

proof fn lemma_uploaded_four(s: Seq<LoadItemView>)
    requires
        s.len() == 4,
        forall|i: int| 0 <= i < 4 ==> (#[trigger] s[i]).kind != LoadKind::Scalar,
    ensures
        uploaded_bytes(s) == s[0].bytes + s[1].bytes + s[2].bytes + s[3].bytes,
{
    reveal_with_fuel(uploaded_bytes, 5);
    let a = s.drop_last();
    let b = a.drop_last();
    let c = b.drop_last();
    assert(c.drop_last() =~= Seq::<LoadItemView>::empty());
    assert(a.last() == s[2] && b.last() == s[1] && c.last() == s[0]);
}

proof fn lemma_layer_uploaded(l: &Gemma4DrafterWeightLayout, i: int)
    requires
        top_fits(l),
        layer_fits(l, i),
    ensures
        uploaded_bytes(layer_items(l, i)) == layer_bytes(l, i),
{
    let s = layer_items(l, i);
    let hidden = l.arch.hidden_size as int;
    let inter = l.arch.intermediate_size as int;
    let rows = layer_rows(l, i);
    assert(rows >= 0) by (nonlinear_arith)
        requires
            rows == l.arch.num_attention_heads * l.layers@[i].effective_head_dim,
    ;
    assert(hidden * rows == rows * hidden && hidden * inter == inter * hidden && rows * hidden >= 0
        && inter * hidden >= 0) by (nonlinear_arith)
        requires
            hidden >= 0,
            rows >= 0,
            inter >= 0,
    ;
    let a = s.subrange(0, 4);
    let b = s.subrange(4, 8);
    let c = s.subrange(8, 12);
    assert(s =~= a + b + c);
    lemma_uploaded_sum(a + b, c);
    lemma_uploaded_sum(a, b);
    let head = seq![s[0]];
    let tail = s.subrange(1, 4);
    assert(a =~= head + tail);
    lemma_uploaded_sum(head, tail);
    reveal_with_fuel(uploaded_bytes, 4);
    assert(head.drop_last() =~= Seq::<LoadItemView>::empty());
    assert(tail.drop_last().drop_last().drop_last() =~= Seq::<LoadItemView>::empty());
    assert(tail.drop_last().drop_last().last() == s[1]);
    assert(tail.drop_last().last() == s[2]);
    assert(tail.last() == s[3]);
    lemma_uploaded_four(b);
    lemma_uploaded_four(c);
}

/// The bytes that an uploaded drafter counts are those of the tensors that
/// went to the device, where the centroid tensors are there exactly if the
/// head goes through them.
pub proof fn law_resident_counts_uploads(l: &Gemma4DrafterWeightLayout, n: nat)
    requires
        loadable(l),
        n <= l.layers@.len(),
        l.top.centroids is Some <==> l.arch.use_ordered_embeddings,
        l.top.token_ordering is Some <==> l.arch.use_ordered_embeddings,
    ensures
        resident_bytes(l, n) == uploaded_bytes(load_items(l, n)),
    decreases n,
{
    if n > 0 {
        law_resident_counts_uploads(l, (n - 1) as nat);
        assert(layer_fits(l, n - 1));
        lemma_layer_uploaded(l, n - 1);
        lemma_uploaded_sum(load_items(l, (n - 1) as nat), layer_items(l, n - 1));
    } else {
        let a = l.arch;
        let hidden = a.hidden_size;
        let s = top_items(l);
        assert(a.vocab_size * hidden >= 0 && hidden * a.pre_projection_in_dim >= 0
            && a.backbone_hidden_size * hidden >= 0 && a.num_centroids * hidden >= 0)
            by (nonlinear_arith);
        let k = top_base(l);
        let head = s.subrange(0, k);
        let tail = s.subrange(k, k + 4);
        assert(s =~= head + tail);
        lemma_uploaded_sum(head, tail);
        lemma_uploaded_four(tail);
        reveal_with_fuel(uploaded_bytes, 3);
        if k == 2 {
            assert(head.drop_last().drop_last() =~= Seq::<LoadItemView>::empty());
            assert(head.drop_last().last() == s[0]);
            assert(head.last() == s[1]);
        } else {
            assert(head =~= Seq::<LoadItemView>::empty());
        }
    }
}

/// Where each tensor lies in the file nothing is reported, and every tensor is
/// used.
pub proof fn law_whole_shard_loads(l: &Gemma4DrafterWeightLayout, len: int)
    requires
        forall|i: int|
            0 <= i < load_items(l, l.layers@.len()).len() ==> lies_in(
                #[trigger] load_items(l, l.layers@.len())[i],
                len,
            ),
    ensures
        first_past(load_items(l, l.layers@.len()), len, 0) == load_items(l, l.layers@.len()).len(),
{
    lemma_none_past(load_items(l, l.layers@.len()), len, 0);
}

proof fn lemma_none_past(items: Seq<LoadItemView>, len: int, k: int)
    requires
        0 <= k <= items.len(),
        forall|i: int| 0 <= i < items.len() ==> lies_in(#[trigger] items[i], len),
    ensures
        first_past(items, len, k) == items.len(),
    decreases items.len() - k,
{
    if k < items.len() {
        lemma_none_past(items, len, k + 1);
    }
}

impl LoadItem {
    /// What goes to the device of a tensor: half-precision numbers for bf16,
    /// the bytes themselves for integers, nothing for a host scalar.
    pub fn device_bytes(&self, file: &[u8]) -> (r: Vec<u8>)
        requires
            self.offset + self.bytes <= file@.len(),
        ensures
            ({
                let src = file@.subrange(self.offset as int, self.offset + self.bytes);
                match self.kind {
                    LoadKind::Scalar => r@.len() == 0,
                    LoadKind::WideInts => r@ == src,
                    LoadKind::HalfWeight => {
                        &&& r@.len() == 2 * (src.len() / 2)
                        &&& forall|i: int|
                            0 <= i < src.len() / 2 ==> #[trigger] word16(r@, i)
                                == half_bits_with_payload((0x1_0000 * word16(src, i)) as u32)
                    },
                }
            }),
    {
        let len: usize = file.len();
        assert(self.offset + self.bytes <= len);
        let start: usize = self.offset as usize;
        let mut src: Vec<u8> = Vec::new();
        if self.kind == LoadKind::Scalar {
            return src;
        }
        let end: usize = start + self.bytes;
        let mut i: usize = start;
        while i < end
            invariant
                start <= i <= end,
                end <= file@.len(),
                src@ =~= file@.subrange(start as int, i as int),
            decreases end - i,
        {
            src.push(file[i]);
            i = i + 1;
        }
        if self.kind == LoadKind::WideInts {
            src
        } else {
            bf16_bytes_to_f16_bytes(src.as_slice())
        }
    }
}

/// bf16 bytes to half-precision bytes, as an upload converts them.
pub fn bf16_to_f16_bytes(raw: &[u8]) -> (r: Vec<u8>)
    ensures
        r@.len() == 2 * (raw@.len() / 2),
        forall|i: int|
            0 <= i < raw@.len() / 2 ==> #[trigger] word16(r@, i) == half_bits_with_payload(
                (0x1_0000 * word16(raw@, i)) as u32,
            ),
{
    bf16_bytes_to_f16_bytes(raw)
}

} // verus!
