//! The drafter leaves the base model alone: it writes its own workspace, and
//! never the cache that it reads.

use crate::runtime::footprint::writes_only;
use crate::runtime::gemma4_drafter::workspace::DrafterStepWorkspace;
use crate::runtime::gemma4_drafter::Gemma4DrafterRuntime;
use crate::runtime::gemma4_nvfp4_bring_up::kv_state::Gemma4Nvfp4KvState;
use crate::runtime::gemma4_nvfp4_bring_up::model::Gemma4Nvfp4Bringup;
use vstd::prelude::*;

verus! {

/// The buffers of a drafter step.
pub open spec fn workspace_of(w: &DrafterStepWorkspace) -> Set<u64> {
    set![
        w.pre_projection_in,
        w.hidden,
        w.residual1,
        w.gemm_f32,
        w.proj_f16,
        w.q,
        w.attn_out,
        w.mlp_gate,
        w.mlp_up,
        w.out_hidden,
        w.centroid_logits,
        w.top_centroid_ids,
        w.top_centroid_scores,
        w.out_token_id,
        w.sparse_ids,
        w.sparse_logits,
    ]
}

proof fn lemma_members(w: &DrafterStepWorkspace)
    ensures
        workspace_of(w).contains(w.pre_projection_in),
        workspace_of(w).contains(w.hidden),
        workspace_of(w).contains(w.residual1),
        workspace_of(w).contains(w.gemm_f32),
        workspace_of(w).contains(w.proj_f16),
        workspace_of(w).contains(w.q),
        workspace_of(w).contains(w.attn_out),
        workspace_of(w).contains(w.mlp_gate),
        workspace_of(w).contains(w.mlp_up),
        workspace_of(w).contains(w.out_hidden),
        workspace_of(w).contains(w.centroid_logits),
        workspace_of(w).contains(w.top_centroid_ids),
        workspace_of(w).contains(w.top_centroid_scores),
        workspace_of(w).contains(w.out_token_id),
        workspace_of(w).contains(w.sparse_ids),
        workspace_of(w).contains(w.sparse_logits),
{
}

proof fn lemma_pre_projection(
    b: &Gemma4Nvfp4Bringup,
    d: &Gemma4DrafterRuntime,
    w: &DrafterStepWorkspace,
)
    ensures
        writes_only(b.drafter_pre_projection(d, w).steps, workspace_of(w)),
{
    lemma_members(w);
    reveal(writes_only);
}

proof fn lemma_q_side(
    b: &Gemma4Nvfp4Bringup,
    d: &Gemma4DrafterRuntime,
    w: &DrafterStepWorkspace,
    l: int,
    position: u32,
)
    ensures
        writes_only(b.drafter_q_side(d, w, l, position).steps, workspace_of(w)),
{
    lemma_members(w);
    reveal(writes_only);
}

proof fn lemma_cross_attn(
    b: &Gemma4Nvfp4Bringup,
    d: &Gemma4DrafterRuntime,
    w: &DrafterStepWorkspace,
    l: int,
    kv: &Gemma4Nvfp4KvState,
)
    ensures
        writes_only(b.drafter_cross_attn(d, w, l, kv).steps, workspace_of(w)),
{
    lemma_members(w);
    reveal(writes_only);
}

proof fn lemma_attn_finisher(
    b: &Gemma4Nvfp4Bringup,
    d: &Gemma4DrafterRuntime,
    w: &DrafterStepWorkspace,
    l: int,
)
    ensures
        writes_only(b.drafter_attn_finisher(d, w, l).steps, workspace_of(w)),
{
    lemma_members(w);
    reveal(writes_only);
}

proof fn lemma_mlp_finisher(
    b: &Gemma4Nvfp4Bringup,
    d: &Gemma4DrafterRuntime,
    w: &DrafterStepWorkspace,
    l: int,
)
    ensures
        writes_only(b.drafter_mlp_finisher(d, w, l).steps, workspace_of(w)),
{
    lemma_members(w);
    reveal(writes_only);
}

proof fn lemma_final(
    b: &Gemma4Nvfp4Bringup,
    d: &Gemma4DrafterRuntime,
    w: &DrafterStepWorkspace,
)
    ensures
        writes_only(b.drafter_final(d, w).steps, workspace_of(w)),
{
    lemma_members(w);
    reveal(writes_only);
}

/// A drafted token takes each of the drafter's layers once, in order, between
/// the first projection and the head.
pub proof fn law_drafter_pass_order(
    b: &Gemma4Nvfp4Bringup,
    d: &Gemma4DrafterRuntime,
    w: &DrafterStepWorkspace,
    n: nat,
    position: u32,
    kv: &Gemma4Nvfp4KvState,
)
    ensures
        ({
            let s = b.drafter_layers(d, w, n, position, kv);
            &&& s.len() == 1 + 4 * n
            &&& s[0] == b.drafter_pre_projection(d, w)
            &&& forall|l: int|
                0 <= l < n ==> s.subrange(1 + 4 * l, 5 + 4 * l) == #[trigger] b.drafter_layer(
                    d,
                    w,
                    l,
                    position,
                    kv,
                )
        }),
    decreases n,
{
    if n > 0 {
        let m = (n - 1) as nat;
        law_drafter_pass_order(b, d, w, m, position, kv);
        let before = b.drafter_layers(d, w, m, position, kv);
        let own = b.drafter_layer(d, w, m as int, position, kv);
        let s = b.drafter_layers(d, w, n, position, kv);
        assert forall|l: int| 0 <= l < n implies s.subrange(1 + 4 * l, 5 + 4 * l)
            == #[trigger] b.drafter_layer(d, w, l, position, kv) by {
            if l < m {
                assert(s.subrange(1 + 4 * l, 5 + 4 * l) =~= before.subrange(
                    1 + 4 * l,
                    5 + 4 * l,
                ));
            } else {
                assert(s.subrange(1 + 4 * l, 5 + 4 * l) =~= own);
            }
        }
    }
}

/// Drafting a token writes the buffers of the drafter's step and nothing else:
/// the base model's cache, its weights and the shadow stay as they are.
pub proof fn law_drafter_pass_writes(
    b: &Gemma4Nvfp4Bringup,
    d: &Gemma4DrafterRuntime,
    w: &DrafterStepWorkspace,
    n: nat,
    position: u32,
    kv: &Gemma4Nvfp4KvState,
)
    ensures
        ({
            let s = b.drafter_layers(d, w, n, position, kv).push(b.drafter_final(d, w));
            forall|i: int|
                0 <= i < s.len() ==> writes_only((#[trigger] s[i]).steps, workspace_of(w))
        }),
    decreases n,
{
    let layers = b.drafter_layers(d, w, n, position, kv);
    let s = layers.push(b.drafter_final(d, w));
    lemma_pre_projection(b, d, w);
    lemma_final(b, d, w);
    if n > 0 {
        let m = (n - 1) as nat;
        let l = m as int;
        law_drafter_pass_writes(b, d, w, m, position, kv);
        let before = b.drafter_layers(d, w, m, position, kv);
        let longer = before.push(b.drafter_final(d, w));
        let own = b.drafter_layer(d, w, l, position, kv);
        lemma_q_side(b, d, w, l, position);
        lemma_cross_attn(b, d, w, l, kv);
        lemma_attn_finisher(b, d, w, l);
        lemma_mlp_finisher(b, d, w, l);
        assert forall|i: int| 0 <= i < s.len() implies writes_only(
            (#[trigger] s[i]).steps,
            workspace_of(w),
        ) by {
            if i < before.len() {
                assert(s[i] == longer[i]);
            } else if i < layers.len() {
                assert(s[i] == own[i - before.len()]);
            }
        }
    }
}

} // verus!
