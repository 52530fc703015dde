//! A prompt of one token and the pass of a single token do the same work, but
//! for the kernel that attends.

use crate::runtime::gemma4_nvfp4_bring_up::attention::{
    batch_names, dev_names, lemma_layer_limits,
};
use crate::runtime::gemma4_nvfp4_bring_up::kv_state::Gemma4Nvfp4KvState;
use crate::runtime::gemma4_nvfp4_bring_up::launches::{decode_spec, fill_spec};
use crate::runtime::gemma4_nvfp4_bring_up::model::Gemma4Nvfp4Bringup;
use crate::runtime::gemma4_nvfp4_bring_up::passes::{law_full_pass_order, law_prompt_pass_order};
use crate::runtime::step::{
    Buf, DecodeArgs, KernelCall, OnFail, PrefillArgs, ProgramView, Step,
};
use vstd::prelude::*;

verus! {

/// A step without the name of its region and without what it reports.
pub open spec fn unnamed(s: Step) -> Step {
    match s {
        Step::Region { bytes, align, .. } => Step::Region { name: "", bytes, align },
        Step::Copy { dst, src, bytes, .. } => Step::Copy {
            dst,
            src,
            bytes,
            on_fail: OnFail::Ignored,
        },
        Step::Read { src, bytes, .. } => Step::Read { src, bytes, on_fail: OnFail::Ignored },
        _ => s,
    }
}

/// Whether two lists of steps differ in names and reports alone.
pub open spec fn same_work(a: Seq<Step>, b: Seq<Step>) -> bool {
    a.len() == b.len() && forall|i: int|
        0 <= i < a.len() ==> unnamed(#[trigger] a[i]) == unnamed(b[i])
}

/// Whether a prefill attends with the query, over the cache and into the output
/// of a decode.
pub open spec fn same_attention(d: DecodeArgs, p: PrefillArgs) -> bool {
    &&& d.output == Buf::At(p.output)
    &&& d.query == p.query
    &&& d.k_packed == p.k_packed
    &&& d.v_packed == p.v_packed
    &&& d.k_scale == p.k_scale
    &&& d.v_scale == p.v_scale
    &&& d.q_scale_cache == p.q_scale_cache
    &&& d.block_tables == p.block_tables
    &&& d.context_lens == p.context_lens
    &&& d.q_descale == p.q_descale
    &&& d.scale_bits == p.scale_bits
    &&& d.num_heads == p.num_heads
    &&& d.num_kv_heads == p.num_kv_heads
    &&& d.head_dim == p.head_dim
    &&& d.block_size == p.block_size as i32
    &&& d.max_blocks_per_seq == p.max_blocks_per_seq as i32
    &&& d.window_size_left == p.window_size_left
    &&& p.num_seqs == 1
    &&& p.num_tokens == 1
}

/// Whether the attention of a prompt of one token is that of a single token:
/// the same projections and norms, the same position and slot, the same rotation
/// into the same slot of the cache, and an attention with the same arguments.
/// The prefill kernel finds the context length of the sequence, which is the
/// position and one.
pub open spec fn same_layer_attention(
    b: &Gemma4Nvfp4Bringup,
    l: int,
    position: u32,
    kv: &Gemma4Nvfp4KvState,
    one: ProgramView,
    prompt: ProgramView,
) -> bool {
    let n = one.steps.len() - decode_spec(
        b.heads(l),
        kv,
        l,
        Buf::start(0),
        Buf::start(7),
        "",
    ).len() - 2;
    &&& one.failure is None
    &&& prompt.failure is None
    &&& prompt.steps.len() == n + 8
    &&& same_work(one.steps.take(n), prompt.steps.take(n))
    &&& one.steps[n] == prompt.steps[n]
    &&& Ok::<Step, crate::runtime::error::RuntimeError>(one.steps[n]) == fill_spec(
        kv,
        position as i32,
        position as i32,
        1,
    )
    &&& one.steps[n + 1] == prompt.steps[n + 6]
    &&& prompt.steps[n + 2] matches Step::WriteI32 { dst, value } && dst == Buf::start(8)
        && value == position + 1
    &&& prompt.steps[n + 3] matches Step::Copy { dst, src, bytes, .. } && dst == Buf::At(
        kv.context_lens_ptr,
    ) && src == Buf::start(8) && bytes == 4
    &&& one.steps.last() matches Step::Launch { call: KernelCall::Decode { args: d, .. }, .. } && (
    prompt.steps.last() matches Step::Prefill { args: p } && same_attention(d, p))
}

#[verifier::spinoff_prover]
#[verifier::rlimit(40)]
proof fn lemma_attention(
    b: &Gemma4Nvfp4Bringup,
    l: int,
    position: u32,
    kv: &Gemma4Nvfp4KvState,
    residual: u64,
    attn_out: u64,
    policies: (i32, i32),
    block_m: u32,
)
    requires
        b.fits(1),
        0 <= l < b.arch.num_hidden_layers,
        position < i32::MAX,
        kv.max_query_tokens >= 1,
        b.dev_attn_fault(l, position, kv) is None,
    ensures
        same_layer_attention(
            b,
            l,
            position,
            kv,
            b.dev_attn(l, residual, position, kv, attn_out, policies),
            b.batched_attn(l, 1, residual, position, kv, attn_out, policies, block_m),
        ),
{
    let one = b.dev_attn(l, residual, position, kv, attn_out, policies);
    let many = b.batched_attn(l, 1, residual, position, kv, attn_out, policies, block_m);
    let a = b.dev_attn_head(
        dev_names(),
        l,
        1,
        residual,
        "forward_layer_attn_from_residual_dev: residual DtoD copy",
        "forward_layer_attn_from_residual_dev: k_eq_v DtoD",
    );
    let c = b.dev_attn_head(
        batch_names(),
        l,
        1,
        residual,
        "batched: residual DtoD",
        "batched: k_eq_v DtoD",
    );
    lemma_head(b, l, residual);
    let n = a.len() as int;
    assert(b.layer_fits(l, 1));
    assert(one.steps.take(n) =~= a);
    assert(many.steps.take(n) =~= c);
    lemma_layer_limits(b, l, 1);
}

/// The heads of both attention programs.
proof fn lemma_head(b: &Gemma4Nvfp4Bringup, l: int, residual: u64)
    ensures
        same_work(
            b.dev_attn_head(
                dev_names(),
                l,
                1,
                residual,
                "forward_layer_attn_from_residual_dev: residual DtoD copy",
                "forward_layer_attn_from_residual_dev: k_eq_v DtoD",
            ),
            b.dev_attn_head(
                batch_names(),
                l,
                1,
                residual,
                "batched: residual DtoD",
                "batched: k_eq_v DtoD",
            ),
        ),
{
}

/// Whether two programs differ in names and reports of failing steps alone.
pub open spec fn same_program(a: ProgramView, b: ProgramView) -> bool {
    same_work(a.steps, b.steps) && a.failure == b.failure
}

proof fn lemma_rest(b: &Gemma4Nvfp4Bringup, l: int, residual: u64, attn_out: u64)
    requires
        0 <= l < b.arch.num_hidden_layers,
    ensures
        same_program(
            b.post_attn_dev(l, attn_out, residual),
            b.post_attn_batched_dev(l, 1, attn_out, residual),
        ),
        same_program(b.post_attn_mlp_dev(l, residual), b.post_attn_mlp_batched_dev(l, 1, residual)),
{
}

/// Whether layer `l` of both passes does the same work.
pub open spec fn same_layer(
    b: &Gemma4Nvfp4Bringup,
    l: int,
    position: u32,
    kv: &Gemma4Nvfp4KvState,
    one: Seq<ProgramView>,
    prompt: Seq<ProgramView>,
) -> bool {
    &&& b.dev_attn_fault(l, position, kv) is None ==> same_layer_attention(
        b,
        l,
        position,
        kv,
        one[1 + 3 * l],
        prompt[1 + 3 * l],
    )
    &&& same_program(one[2 + 3 * l], prompt[2 + 3 * l])
    &&& same_program(one[3 + 3 * l], prompt[3 + 3 * l])
}

proof fn lemma_layer(
    b: &Gemma4Nvfp4Bringup,
    l: int,
    position: u32,
    kv: &Gemma4Nvfp4KvState,
    residual: u64,
    attn_out: u64,
    policies: (i32, i32),
    block_m: u32,
    one: Seq<ProgramView>,
    prompt: Seq<ProgramView>,
)
    requires
        b.fits(1),
        0 <= l < b.arch.num_hidden_layers,
        position < i32::MAX,
        kv.max_query_tokens >= 1,
        3 + 3 * l < prompt.len(),
        one[1 + 3 * l] == b.dev_attn(l, residual, position, kv, attn_out, policies),
        one[2 + 3 * l] == b.post_attn_dev(l, attn_out, residual),
        one[3 + 3 * l] == b.post_attn_mlp_dev(l, residual),
        prompt.subrange(1 + 3 * l, 1 + 3 * l + 3) == b.prompt_layer(
            l,
            1,
            position,
            kv,
            residual,
            attn_out,
            policies,
            block_m,
        ),
    ensures
        same_layer(b, l, position, kv, one, prompt),
{
    let own = b.prompt_layer(l, 1, position, kv, residual, attn_out, policies, block_m);
    let part = prompt.subrange(1 + 3 * l, 1 + 3 * l + 3);
    assert(part[0] == prompt[1 + 3 * l] && part[1] == prompt[2 + 3 * l] && part[2] == prompt[3 + 3
        * l]);
    assert(own[0] == b.batched_attn(
        l,
        1,
        residual,
        position,
        kv,
        attn_out,
        policies,
        block_m,
    ));
    lemma_rest(b, l, residual, attn_out);
    if b.dev_attn_fault(l, position, kv) is None {
        lemma_attention(b, l, position, kv, residual, attn_out, policies, block_m);
    }
}

/// The buffers and the last readings of both passes.
proof fn lemma_ends(b: &Gemma4Nvfp4Bringup, position: u32, kv: &Gemma4Nvfp4KvState, residual: u64)
    requires
        kv.max_query_tokens >= 1,
        position < kv.max_pos,
    ensures
        same_program(b.full_workspace(position, kv), b.prompt_workspace(1, position, kv)),
        same_program(
            b.last_residual(residual, "forward_full_to_token: residual DtoH"),
            b.last_residual(residual, "forward_prompt_to_token: last residual DtoH"),
        ),
{
}

/// A prompt of one token does the work of the single-token pass at the same
/// position: the same buffers in bytes, the same embedding row, in every layer
/// the same weights in the same order, position and slot, and the same reading
/// at the end. Only the kernel that attends differs, and it gets the same
/// arguments. A layer that the single-token pass does not refuse is not refused.
pub proof fn law_prompt_of_one_token(
    b: &Gemma4Nvfp4Bringup,
    token: u32,
    position: u32,
    kv: &Gemma4Nvfp4KvState,
    residual: u64,
    attn_out: u64,
    policies: (i32, i32),
    block_m: u32,
)
    requires
        b.fits(1),
        kv.max_query_tokens >= 1,
        position < kv.max_pos,
        position < i32::MAX,
    ensures
        ({
            let n = b.arch.num_hidden_layers as nat;
            let one = b.full_layers(
                n,
                token,
                position,
                kv,
                residual,
                attn_out,
                policies,
                false,
            );
            let prompt = b.prompt_layers(
                n,
                seq![token],
                position,
                kv,
                residual,
                attn_out,
                policies,
                block_m,
            );
            &&& same_program(
                b.full_workspace(position, kv),
                b.prompt_workspace(1, position, kv),
            )
            &&& one.len() == 1 + 3 * n
            &&& prompt.len() == one.len()
            &&& one[0] == prompt[0]
            &&& forall|l: int|
                0 <= l < n ==> #[trigger] same_layer(b, l, position, kv, one, prompt)
            &&& same_program(
                b.last_residual(residual, "forward_full_to_token: residual DtoH"),
                b.last_residual(
                    b.prompt_row(residual, 0),
                    "forward_prompt_to_token: last residual DtoH",
                ),
            )
        }),
{
    let n = b.arch.num_hidden_layers as nat;
    let one = b.full_layers(n, token, position, kv, residual, attn_out, policies, false);
    let prompt = b.prompt_layers(
        n,
        seq![token],
        position,
        kv,
        residual,
        attn_out,
        policies,
        block_m,
    );
    law_full_pass_order(b, n, token, position, kv, residual, attn_out, policies);
    law_prompt_pass_order(
        b,
        n,
        seq![token],
        position,
        kv,
        residual,
        attn_out,
        policies,
        block_m,
    );
    assert(b.prompt_row(residual, 0) == residual);
    assert(prompt[0] == prompt.take(1)[0]);
    lemma_ends(b, position, kv, residual);
    assert forall|l: int| 0 <= l < n implies #[trigger] same_layer(
        b,
        l,
        position,
        kv,
        one,
        prompt,
    ) by {
        assert(one[1 + 3 * l] == b.dev_attn(l, residual, position, kv, attn_out, policies));
        assert(one[2 + 3 * l] == b.post_attn_dev(l, attn_out, residual));
        assert(one[3 + 3 * l] == b.post_attn_mlp_dev(l, residual));
        assert(prompt.subrange(1 + 3 * l, 1 + 3 * l + 3) == b.prompt_layer(
            l,
            1,
            position,
            kv,
            residual,
            attn_out,
            policies,
            block_m,
        ));
        lemma_layer(
            b,
            l,
            position,
            kv,
            residual,
            attn_out,
            policies,
            block_m,
            one,
            prompt,
        );
    }
}

} // verus!
