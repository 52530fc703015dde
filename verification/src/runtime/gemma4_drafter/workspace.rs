//! Scratch buffers of one drafter step.

use crate::loader::gemma4_drafter::Gemma4DrafterArch;
use crate::runtime::gemma4_drafter::Gemma4DrafterRuntime;
use crate::runtime::step::{completes, Program, Step};
use vstd::prelude::*;

verus! {

/// Scratch buffers of one drafter step, by device address.
#[derive(Clone, Copy, Debug)]
pub struct DrafterStepWorkspace {
    /// The embedding of the last token and the base model's hidden state.
    pub pre_projection_in: u64,
    /// The drafter's hidden state.
    pub hidden: u64,
    /// The residual from before a layer's input norm.
    pub residual1: u64,
    /// 32-bit outputs of projections.
    pub gemm_f32: u64,
    /// 16-bit outputs of projections.
    pub proj_f16: u64,
    pub q: u64,
    pub attn_out: u64,
    pub mlp_gate: u64,
    pub mlp_up: u64,
    /// Hidden state for the next step.
    pub out_hidden: u64,
    pub centroid_logits: u64,
    pub top_centroid_ids: u64,
    pub top_centroid_scores: u64,
    /// One 32-bit token.
    pub out_token_id: u64,
    /// Candidates of the sparse head.
    pub sparse_ids: u64,
    /// Their logits.
    pub sparse_logits: u64,
    /// Bytes of all buffers.
    pub bytes: usize,
}

/// The larger of two numbers.
pub open spec fn larger(a: int, b: int) -> int {
    if a >= b {
        a
    } else {
        b
    }
}

/// Width of the widest query projection.
pub open spec fn query_rows(a: Gemma4DrafterArch) -> int {
    a.num_attention_heads * a.head_dim_global
}

/// Width of the widest projection: without centroids the head gives a logit
/// for every token.
pub open spec fn widest_projection(a: Gemma4DrafterArch) -> int {
    let head: int = if a.use_ordered_embeddings {
        0
    } else {
        a.vocab_size as int
    };
    larger(
        larger(
            larger(
                larger(
                    larger(
                        larger(a.pre_projection_in_dim as int, a.hidden_size as int),
                        a.intermediate_size as int,
                    ),
                    query_rows(a),
                ),
                a.backbone_hidden_size as int,
            ),
            a.num_centroids as int,
        ),
        head,
    )
}

/// Candidates of the sparse head.
pub open spec fn sparse_len(a: Gemma4DrafterArch) -> int {
    a.centroid_intermediate_top_k * (a.vocab_size as int / a.num_centroids as int)
}

/// Bytes of each buffer, in the order of the fields.
pub open spec fn buffer_bytes(a: Gemma4DrafterArch) -> Seq<int> {
    seq![
        2 * a.pre_projection_in_dim,
        2 * a.hidden_size,
        2 * a.hidden_size,
        4 * widest_projection(a),
        2 * widest_projection(a),
        2 * query_rows(a),
        2 * query_rows(a),
        2 * a.intermediate_size,
        2 * a.intermediate_size,
        2 * a.backbone_hidden_size,
        4 * a.num_centroids,
        4 * a.centroid_intermediate_top_k,
        4 * a.centroid_intermediate_top_k,
        4,
        4 * sparse_len(a),
        4 * sparse_len(a),
    ]
}

/// Names of the buffers.
pub open spec fn buffer_names() -> Seq<&'static str> {
    seq![
        "drafter_preproj_in",
        "drafter_hidden",
        "drafter_residual1",
        "drafter_gemm_f32",
        "drafter_proj_f16",
        "drafter_q",
        "drafter_attn_out",
        "drafter_mlp_gate",
        "drafter_mlp_up",
        "drafter_out_hidden",
        "drafter_centroid_logits",
        "drafter_top_centroid_ids",
        "drafter_top_centroid_scores",
        "drafter_out_token_id",
        "drafter_sparse_ids",
        "drafter_sparse_logits",
    ]
}

/// Sum of a list of sizes.
pub open spec fn sum_of(s: Seq<int>) -> int
    decreases s.len(),
{
    if s.len() == 0 {
        0
    } else {
        sum_of(s.drop_last()) + s.last()
    }
}

/// The regions: at least sixteen bytes each, aligned to sixteen, but for the
/// token.
pub open spec fn workspace_regions(a: Gemma4DrafterArch) -> Seq<Step> {
    Seq::new(
        16,
        |i: int|
            Step::Region {
                name: buffer_names()[i],
                bytes: larger(buffer_bytes(a)[i], 16) as usize,
                align: if i == 13 {
                    4
                } else {
                    16
                },
            },
    )
}

/// The scratch buffers at the addresses that the regions got.
pub open spec fn workspace_at(a: Gemma4DrafterArch, ptrs: Seq<u64>) -> DrafterStepWorkspace {
    DrafterStepWorkspace {
        pre_projection_in: ptrs[0],
        hidden: ptrs[1],
        residual1: ptrs[2],
        gemm_f32: ptrs[3],
        proj_f16: ptrs[4],
        q: ptrs[5],
        attn_out: ptrs[6],
        mlp_gate: ptrs[7],
        mlp_up: ptrs[8],
        out_hidden: ptrs[9],
        centroid_logits: ptrs[10],
        top_centroid_ids: ptrs[11],
        top_centroid_scores: ptrs[12],
        out_token_id: ptrs[13],
        sparse_ids: ptrs[14],
        sparse_logits: ptrs[15],
        bytes: sum_of(buffer_bytes(a)) as usize,
    }
}

/// The sizes can be counted.
pub open spec fn workspace_fits(a: Gemma4DrafterArch) -> bool {
    &&& a.num_centroids > 0
    &&& sum_of(buffer_bytes(a)) <= usize::MAX
}

fn at_least(n: usize, least: usize) -> (r: usize)
    ensures
        r == larger(n as int, least as int),
{
    if n >= least {
        n
    } else {
        least
    }
}

/// The sizes, and their sum.
pub proof fn lemma_sizes(a: Gemma4DrafterArch)
    requires
        a.num_centroids > 0,
    ensures
        ({
            let b = buffer_bytes(a);
            &&& b.len() == 16
            &&& forall|i: int| 0 <= i < 16 ==> 0 <= #[trigger] b[i]
            &&& sum_of(b) == b[0] + b[1] + b[2] + b[3] + b[4] + b[5] + b[6] + b[7] + b[8] + b[9]
                + b[10] + b[11] + b[12] + b[13] + b[14] + b[15]
        }),
        0 <= query_rows(a),
        0 <= sparse_len(a),
        0 <= a.vocab_size as int / a.num_centroids as int <= a.vocab_size,
{
    let b = buffer_bytes(a);
    assert(query_rows(a) >= 0) by (nonlinear_arith)
        requires
            query_rows(a) == a.num_attention_heads * a.head_dim_global,
    ;
    let per = a.vocab_size as int / a.num_centroids as int;
    assert(0 <= per <= a.vocab_size) by (nonlinear_arith)
        requires
            per == a.vocab_size as int / a.num_centroids as int,
            a.num_centroids > 0,
    ;
    assert(sparse_len(a) >= 0) by (nonlinear_arith)
        requires
            sparse_len(a) == a.centroid_intermediate_top_k * per,
            per >= 0,
    ;
    reveal_with_fuel(sum_of, 17);
    assert(b.drop_last() =~= b.take(15));
    assert(b.take(15).drop_last() =~= b.take(14));
    assert(b.take(14).drop_last() =~= b.take(13));
    assert(b.take(13).drop_last() =~= b.take(12));
    assert(b.take(12).drop_last() =~= b.take(11));
    assert(b.take(11).drop_last() =~= b.take(10));
    assert(b.take(10).drop_last() =~= b.take(9));
    assert(b.take(9).drop_last() =~= b.take(8));
    assert(b.take(8).drop_last() =~= b.take(7));
    assert(b.take(7).drop_last() =~= b.take(6));
    assert(b.take(6).drop_last() =~= b.take(5));
    assert(b.take(5).drop_last() =~= b.take(4));
    assert(b.take(4).drop_last() =~= b.take(3));
    assert(b.take(3).drop_last() =~= b.take(2));
    assert(b.take(2).drop_last() =~= b.take(1));
    assert(b.take(1).drop_last() =~= Seq::<int>::empty());
}

/// Whether the sizes can be counted.
pub fn check_workspace(a: &Gemma4DrafterArch) -> (r: bool)
    ensures
        r == workspace_fits(*a),
{
    if a.num_centroids == 0 {
        return false;
    }
    proof {
        lemma_sizes(*a);
        let b = buffer_bytes(*a);
        assert(b[0] >= 0 && b[1] >= 0 && b[2] >= 0 && b[3] >= 0 && b[4] >= 0 && b[5] >= 0 && b[6]
            >= 0 && b[7] >= 0 && b[8] >= 0 && b[9] >= 0 && b[10] >= 0 && b[11] >= 0 && b[12] >= 0
            && b[13] >= 0 && b[14] >= 0 && b[15] >= 0);
    }
    let rows: usize = match a.num_attention_heads.checked_mul(a.head_dim_global) {
        Some(n) => n,
        None => {
            return false;
        },
    };
    let per_centroid: usize = a.vocab_size / a.num_centroids;
    let sparse: usize = match a.centroid_intermediate_top_k.checked_mul(per_centroid) {
        Some(n) => n,
        None => {
            return false;
        },
    };
    let head: usize = if a.use_ordered_embeddings {
        0
    } else {
        a.vocab_size
    };
    let widest: usize = at_least(
        at_least(
            at_least(
                at_least(
                    at_least(at_least(a.pre_projection_in_dim, a.hidden_size), a.intermediate_size),
                    rows,
                ),
                a.backbone_hidden_size,
            ),
            a.num_centroids,
        ),
        head,
    );
    let halves: u128 = a.pre_projection_in_dim as u128 + 2 * (a.hidden_size as u128) + 2 * (
    rows as u128) + 2 * (a.intermediate_size as u128) + a.backbone_hidden_size as u128;
    let words: u128 = a.num_centroids as u128 + 2 * (a.centroid_intermediate_top_k as u128) + 1 + 2
        * (sparse as u128);
    2 * halves + 6 * (widest as u128) + 4 * words <= usize::MAX as u128
}

impl Gemma4DrafterRuntime {
    /// Sizes of the buffers, in the order of the fields.
    fn plan_buffers(&self) -> (r: Vec<usize>)
        requires
            workspace_fits(self.arch),
        ensures
            r@.len() == 16,
            forall|i: int| 0 <= i < 16 ==> #[trigger] r@[i] == buffer_bytes(self.arch)[i],
    {
        let a = &self.arch;
        proof {
            lemma_sizes(self.arch);
            let b = buffer_bytes(self.arch);
            assert(b[0] >= 0 && b[1] >= 0 && b[2] >= 0 && b[3] >= 0 && b[4] >= 0 && b[5] >= 0
                && b[6] >= 0 && b[7] >= 0 && b[8] >= 0 && b[9] >= 0 && b[10] >= 0 && b[11] >= 0
                && b[12] >= 0 && b[13] >= 0 && b[14] >= 0 && b[15] >= 0);
        }
        let rows: usize = a.num_attention_heads * a.head_dim_global;
        let head: usize = if a.use_ordered_embeddings {
            0
        } else {
            a.vocab_size
        };
        let widest: usize = at_least(
            at_least(
                at_least(
                    at_least(
                        at_least(
                            at_least(a.pre_projection_in_dim, a.hidden_size),
                            a.intermediate_size,
                        ),
                        rows,
                    ),
                    a.backbone_hidden_size,
                ),
                a.num_centroids,
            ),
            head,
        );
        let sparse: usize = a.centroid_intermediate_top_k * (a.vocab_size / a.num_centroids);
        let r: Vec<usize> =
            vec![
            a.pre_projection_in_dim * 2,
            a.hidden_size * 2,
            a.hidden_size * 2,
            widest * 4,
            widest * 2,
            rows * 2,
            rows * 2,
            a.intermediate_size * 2,
            a.intermediate_size * 2,
            a.backbone_hidden_size * 2,
            a.num_centroids * 4,
            a.centroid_intermediate_top_k * 4,
            a.centroid_intermediate_top_k * 4,
            4,
            sparse * 4,
            sparse * 4,
        ];
        r
    }

    /// The regions of one step's scratch buffers.
    pub fn alloc_step_workspace(&self) -> (r: Program)
        requires
            workspace_fits(self.arch),
        ensures
            r@ == completes(workspace_regions(self.arch)),
    {
        let sizes = self.plan_buffers();
        let names: Vec<&'static str> =
            vec![
            "drafter_preproj_in",
            "drafter_hidden",
            "drafter_residual1",
            "drafter_gemm_f32",
            "drafter_proj_f16",
            "drafter_q",
            "drafter_attn_out",
            "drafter_mlp_gate",
            "drafter_mlp_up",
            "drafter_out_hidden",
            "drafter_centroid_logits",
            "drafter_top_centroid_ids",
            "drafter_top_centroid_scores",
            "drafter_out_token_id",
            "drafter_sparse_ids",
            "drafter_sparse_logits",
        ];
        assert(names@ =~= buffer_names());
        let mut steps: Vec<Step> = Vec::new();
        let mut i: usize = 0;
        while i < 16
            invariant
                i <= 16,
                sizes@.len() == 16,
                names@ == buffer_names(),
                forall|j: int| 0 <= j < 16 ==> #[trigger] sizes@[j] == buffer_bytes(self.arch)[j],
                steps@ =~= workspace_regions(self.arch).take(i as int),
            decreases 16 - i,
        {
            let align: usize = if i == 13 {
                4
            } else {
                16
            };
            steps.push(
                Step::Region { name: names[i], bytes: at_least(sizes[i], 16), align },
            );
            i = i + 1;
        }
        assert(steps@ =~= workspace_regions(self.arch));
        Program::complete(steps)
    }

    /// The scratch buffers at the addresses that the regions got, with the
    /// bytes that were asked for.
    pub fn workspace_from_regions(&self, ptrs: &[u64]) -> (r: DrafterStepWorkspace)
        requires
            workspace_fits(self.arch),
            ptrs@.len() == 16,
        ensures
            r == workspace_at(self.arch, ptrs@),
    {
        let s = self.plan_buffers();
        proof {
            lemma_sizes(self.arch);
            let b = buffer_bytes(self.arch);
            assert(s@[0] == b[0] && s@[1] == b[1] && s@[2] == b[2] && s@[3] == b[3] && s@[4]
                == b[4] && s@[5] == b[5] && s@[6] == b[6] && s@[7] == b[7] && s@[8] == b[8]
                && s@[9] == b[9] && s@[10] == b[10] && s@[11] == b[11] && s@[12] == b[12]
                && s@[13] == b[13] && s@[14] == b[14] && s@[15] == b[15]);
        }
        let bytes: usize = s[0] + s[1] + s[2] + s[3] + s[4] + s[5] + s[6] + s[7] + s[8] + s[9]
            + s[10] + s[11] + s[12] + s[13] + s[14] + s[15];
        DrafterStepWorkspace {
            pre_projection_in: ptrs[0],
            hidden: ptrs[1],
            residual1: ptrs[2],
            gemm_f32: ptrs[3],
            proj_f16: ptrs[4],
            q: ptrs[5],
            attn_out: ptrs[6],
            mlp_gate: ptrs[7],
            mlp_up: ptrs[8],
            out_hidden: ptrs[9],
            centroid_logits: ptrs[10],
            top_centroid_ids: ptrs[11],
            top_centroid_scores: ptrs[12],
            out_token_id: ptrs[13],
            sparse_ids: ptrs[14],
            sparse_logits: ptrs[15],
            bytes,
        }
    }
}

/// Whether some projection has outputs of this width.
pub open spec fn is_projection(a: Gemma4DrafterArch, w: int) -> bool {
    ||| w == a.pre_projection_in_dim
    ||| w == a.hidden_size
    ||| w == a.intermediate_size
    ||| w == query_rows(a)
    ||| w == a.backbone_hidden_size
    ||| w == a.num_centroids
    ||| !a.use_ordered_embeddings && w == a.vocab_size
}

/// The projection buffers hold the output of every projection, in 32 and in 16
/// bits, and the query buffers that of every layer.
pub proof fn law_projections_fit(a: Gemma4DrafterArch)
    requires
        workspace_fits(a),
    ensures
        ({
            let wide = buffer_bytes(a)[3];
            let narrow = buffer_bytes(a)[4];
            &&& forall|w: int| #[trigger] is_projection(a, w) ==> 4 * w <= wide && 2 * w <= narrow
            &&& a.head_dim_sliding <= a.head_dim_global ==> 2 * (a.num_attention_heads
                * a.head_dim_sliding) <= buffer_bytes(a)[5]
        }),
{
    if a.head_dim_sliding <= a.head_dim_global {
        assert(a.num_attention_heads * a.head_dim_sliding <= a.num_attention_heads
            * a.head_dim_global) by (nonlinear_arith)
            requires
                a.head_dim_sliding <= a.head_dim_global,
        ;
    }
}

} // verus!
