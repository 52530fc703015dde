//! What runs and what is refused: exactly which requests go through.

use crate::loader::gemma4_drafter::Gemma4DrafterArch;
use crate::runtime::gemma4_nvfp4_bring_up::flow_attention::attends_globally;
use crate::runtime::gemma4_nvfp4_bring_up::kv_state::Gemma4Nvfp4KvState;
use crate::runtime::gemma4_nvfp4_bring_up::model::Gemma4Nvfp4Bringup;
use crate::runtime::gemma4_spec_primitives::{request_fault, SpecState};
use vstd::prelude::*;

verus! {

/// Whether a layer has the values that its kind asks for: a sliding layer a
/// projection of its own, a global layer none.
pub open spec fn values_as_expected(b: &Gemma4Nvfp4Bringup, l: int) -> bool {
    b.model.layers@[l].v_proj is Some == !attends_globally(b, l)
}

/// Whether keys and values of a layer are as wide as each other.
pub open spec fn widths_agree(b: &Gemma4Nvfp4Bringup, l: int) -> bool {
    b.model.layers@[l].v_proj matches Some(w) ==> w.shape@[0]
        == b.model.layers@[l].k_proj.shape@[0]
}

/// The attention of one token runs exactly where there is such a layer with
/// values as expected, and the cache and the rotary tables have the position;
/// on the host also the residual must be as long as the model is wide. What is
/// refused does nothing.
#[verifier::spinoff_prover]
pub proof fn law_token_attention_runs(
    b: &Gemma4Nvfp4Bringup,
    l: int,
    residual: u64,
    residual_len: usize,
    position: u32,
    kv: &Gemma4Nvfp4KvState,
    attn_out: u64,
    policies: (i32, i32),
)
    requires
        b.fits(1),
        0 <= l < b.arch.num_hidden_layers,
        kv.max_query_tokens >= 1,
    ensures
        ({
            let dev = b.dev_attn(l, residual, position, kv, attn_out, policies);
            let host = b.host_attn(l, residual_len, position, kv, policies);
            let ok = values_as_expected(b, l) && widths_agree(b, l) && position < kv.max_pos
                && position < b.arch.max_position_embeddings;
            &&& dev.failure is None <==> ok
            &&& host.failure is None <==> ok && residual_len == b.arch.hidden_size
            &&& dev.failure is Some ==> dev.steps.len() == 0
            &&& !(position < kv.max_pos && values_as_expected(b, l)) ==> host.steps.len() == 0
        }),
{
    assert(b.layer_fits(l, 1));
}

/// The attention of a chunk runs exactly where it has tokens, no more than the
/// cache has room for at a time, the cache has all their positions, and the
/// layer has values as expected. What is refused does nothing.
#[verifier::spinoff_prover]
pub proof fn law_chunk_attention_runs(
    b: &Gemma4Nvfp4Bringup,
    l: int,
    n: u32,
    residual: u64,
    position: u32,
    kv: &Gemma4Nvfp4KvState,
    attn_out: u64,
    policies: (i32, i32),
    block_m: u32,
)
    requires
        0 <= l < b.arch.num_hidden_layers,
        n <= i32::MAX,
    ensures
        ({
            let p = b.batched_attn(l, n, residual, position, kv, attn_out, policies, block_m);
            &&& p.failure is None <==> 1 <= n <= kv.max_query_tokens && position + n <= kv.max_pos
                && values_as_expected(b, l)
            &&& p.failure is Some ==> p.steps.len() == 0
        }),
{
}

/// There is no layer behind the last: every stage refuses it and does nothing.
pub proof fn law_no_layer_behind_the_last(
    b: &Gemma4Nvfp4Bringup,
    l: usize,
    n: u32,
    residual: u64,
    len: usize,
    position: u32,
    kv: &Gemma4Nvfp4KvState,
    attn_out: u64,
    policies: (i32, i32),
    block_m: u32,
)
    requires
        l >= b.arch.num_hidden_layers,
    ensures
        ({
            let a = b.dev_attn(l as int, residual, position, kv, attn_out, policies);
            let c = b.host_attn(l as int, len, position, kv, policies);
            let d = b.batched_attn(l as int, n, residual, position, kv, attn_out, policies, block_m);
            let e = b.post_attn_dev(l as int, attn_out, residual);
            let f = b.post_attn_batched_dev(l as int, n, attn_out, residual);
            let g = b.post_attn_mlp_dev(l as int, residual);
            let h = b.post_attn_mlp_batched_dev(l as int, n, residual);
            let i = b.host_post_attn(l, len, len);
            let j = b.host_mlp(l, len);
            &&& a.failure is Some && a.steps.len() == 0
            &&& c.failure is Some && c.steps.len() == 0
            &&& d.failure is Some && d.steps.len() == 0
            &&& e.failure is Some && e.steps.len() == 0
            &&& f.failure is Some && f.steps.len() == 0
            &&& g.failure is Some && g.steps.len() == 0
            &&& h.failure is Some && h.steps.len() == 0
            &&& i.failure is Some && i.steps.len() == 0
            &&& j.failure is Some && j.steps.len() == 0
        }),
{
}

/// Values that the host hands over must be as long as the layer asks for.
pub proof fn law_lengths_are_checked(
    b: &Gemma4Nvfp4Bringup,
    l: usize,
    attn_len: usize,
    residual_len: usize,
)
    requires
        b.fits(1),
        l < b.arch.num_hidden_layers,
        b.model.layers@[l as int].gate_proj.shape == b.model.layers@[l as int].up_proj.shape,
    ensures
        ({
            let o = b.model.layers@[l as int].o_proj.shape@[1];
            let hidden = b.arch.hidden_size;
            &&& b.host_post_attn(l, attn_len, residual_len).failure is None <==> attn_len == o
                && residual_len == hidden
            &&& l == 0 ==> (b.first_post_attn(attn_len, residual_len).failure is None <==> attn_len
                == o && residual_len == hidden)
            &&& b.host_mlp(l, residual_len).failure is None <==> residual_len == hidden
            &&& l == 0 ==> (b.first_mlp(residual_len).failure is None <==> residual_len == hidden)
            &&& b.final_to_token(residual_len).failure is None <==> residual_len == hidden
            &&& b.final_to_token_with_dump(residual_len).failure is None <==> residual_len
                == hidden
        }),
{
    assert(b.layer_fits(l as int, 1));
}

/// A pass gets its buffers exactly where the cache has its positions: one
/// token its own, a prompt those of all its tokens, which must be some and no
/// more than the cache has room for at a time.
pub proof fn law_pass_gets_buffers(
    b: &Gemma4Nvfp4Bringup,
    n: usize,
    position: u32,
    kv: &Gemma4Nvfp4KvState,
)
    ensures
        b.full_workspace(position, kv).failure is None <==> position < kv.max_pos,
        b.prompt_workspace(n, position, kv).failure is None <==> 1 <= n <= kv.max_query_tokens
            && position + n <= kv.max_pos,
        b.full_workspace(position, kv).failure is Some ==> b.full_workspace(
            position,
            kv,
        ).steps.len() == 0,
        b.prompt_workspace(n, position, kv).failure is Some ==> b.prompt_workspace(
            n,
            position,
            kv,
        ).steps.len() == 0,
{
}

/// A chunk of drafted tokens is verified exactly where it has one to eight
/// tokens, room for their results, and a persistent cache with a table for all
/// of its blocks.
pub proof fn law_chunk_is_accepted(len: usize, argmax_len: usize, state: &SpecState)
    ensures
        request_fault(len, argmax_len, state) is None <==> {
            &&& 1 <= len <= 8
            &&& len <= argmax_len
            &&& state.prefix_cache matches Some(pc) && pc.identity_block_tables_ptr != 0
                && pc.identity_block_tables_len == pc.num_blocks_total
        },
{
}

/// A drafter goes with a base model exactly where it is made for its width and
/// its vocabulary, and its first projection takes two hidden states.
pub proof fn law_drafter_goes_with_base(b: &Gemma4Nvfp4Bringup, a: &Gemma4DrafterArch)
    ensures
        b.drafter_mismatch(a) is None <==> {
            &&& a.backbone_hidden_size == b.arch.hidden_size
            &&& a.vocab_size == b.arch.vocab_size
            &&& a.pre_projection_in_dim == b.arch.hidden_size + b.arch.hidden_size
        },
{
}

/// The norms of the first layer's attention run at each position that the cache
/// has, and at no other; what they do does not depend on the position.
pub proof fn law_first_attention_runs(
    b: &Gemma4Nvfp4Bringup,
    token: u32,
    position: u32,
    kv: &Gemma4Nvfp4KvState,
)
    ensures
        position < kv.max_pos ==> b.attn_program(token, position, kv) == b.qk_norm(token),
        position >= kv.max_pos ==> {
            let p = b.attn_program(token, position, kv);
            p.failure is Some && p.steps.len() == 0
        },
{
}

} // verus!
