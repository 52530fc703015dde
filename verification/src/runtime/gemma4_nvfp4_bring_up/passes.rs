//! What holds of a whole pass: every layer runs once and in order, no program
//! leaves its regions, and only the pass's own buffers and the cache change.

use crate::runtime::footprint::{
    apart, held_after, in_bounds, law_part_of_buffer, lends, room_in, step_in, writes_only, Held,
};
use crate::runtime::gemma4_nvfp4_bring_up::attention::lemma_fits_one;
use crate::runtime::gemma4_nvfp4_bring_up::bounds::{
    has_metadata, has_output, has_residual, law_batched_attention_in_bounds,
    law_dev_attention_in_bounds, values_fit,
};
use crate::runtime::gemma4_nvfp4_bring_up::bounds_mlp::{
    law_dev_mlp_in_bounds, law_dev_post_attention_in_bounds, mlp_matches,
};
use crate::runtime::gemma4_nvfp4_bring_up::frames::{
    cache_of, law_batched_attention_writes, law_dev_attention_writes, law_dev_mlp_writes,
    law_dev_post_attention_writes,
};
use crate::runtime::gemma4_nvfp4_bring_up::kv_state::Gemma4Nvfp4KvState;
use crate::runtime::gemma4_nvfp4_bring_up::model::Gemma4Nvfp4Bringup;
use crate::runtime::gemma4_nvfp4_bring_up::post_attn::MlpDevNames;
use crate::runtime::step::{completes, Buf, Step};
use vstd::prelude::*;

verus! {

/// One token's pass runs its embedding and each layer once, in order: the
/// attention, the output projection and the MLP.
pub proof fn law_full_pass_order(
    b: &Gemma4Nvfp4Bringup,
    n: nat,
    token: u32,
    position: u32,
    kv: &Gemma4Nvfp4KvState,
    residual: u64,
    attn_out: u64,
    policies: (i32, i32),
)
    ensures
        ({
            let s = b.full_layers(n, token, position, kv, residual, attn_out, policies, false);
            &&& s.len() == 1 + 3 * n
            &&& s[0] == completes(b.embed_steps("g4n_embed_tok", token, 0, Buf::At(residual)))
            &&& forall|l: int|
                0 <= l < n ==> s[1 + 3 * l] == #[trigger] b.dev_attn(
                    l,
                    residual,
                    position,
                    kv,
                    attn_out,
                    policies,
                )
            &&& forall|l: int|
                0 <= l < n ==> s[2 + 3 * l] == #[trigger] b.post_attn_dev(l, attn_out, residual)
            &&& forall|l: int|
                0 <= l < n ==> s[3 + 3 * l] == #[trigger] b.post_attn_mlp_dev(l, residual)
        }),
    decreases n,
{
    if n > 0 {
        let m = (n - 1) as nat;
        law_full_pass_order(b, m, token, position, kv, residual, attn_out, policies);
        let before = b.full_layers(m, token, position, kv, residual, attn_out, policies, false);
        let s = b.full_layers(n, token, position, kv, residual, attn_out, policies, false);
        let own = b.full_layer(m as int, position, kv, residual, attn_out, policies, false);
        assert(own.len() == 3);
        assert(s =~= before + own);
        assert forall|l: int| 0 <= l < n implies s[1 + 3 * l] == #[trigger] b.dev_attn(
            l,
            residual,
            position,
            kv,
            attn_out,
            policies,
        ) by {
            if l < m {
                assert(s[1 + 3 * l] == before[1 + 3 * l]);
            }
        }
        assert forall|l: int| 0 <= l < n implies s[2 + 3 * l] == #[trigger] b.post_attn_dev(
            l,
            attn_out,
            residual,
        ) by {
            if l < m {
                assert(s[2 + 3 * l] == before[2 + 3 * l]);
            }
        }
        assert forall|l: int| 0 <= l < n implies s[3 + 3 * l] == #[trigger] b.post_attn_mlp_dev(
            l,
            residual,
        ) by {
            if l < m {
                assert(s[3 + 3 * l] == before[3 + 3 * l]);
            }
        }
    }
}

/// The buffer of the attention output holds the output of every layer.
pub proof fn law_output_buffer_fits(b: &Gemma4Nvfp4Bringup, n: nat, l: int)
    requires
        b.fits(1),
        0 <= l < n <= b.arch.num_hidden_layers,
    ensures
        b.heads(l).num_q_heads * b.heads(l).head_dim <= b.widest_query(n),
    decreases n,
{
    if l < n - 1 {
        law_output_buffer_fits(b, (n - 1) as nat, l);
    } else {
        assert(b.layer_fits(l, 1));
        let q = b.model.layers@[l].q_proj.shape@[0] as int;
        let d = b.arch.head_dim(l) as int;
        vstd::arithmetic::div_mod::lemma_fundamental_div_mod(q, d);
        assert((q / d) * d <= q) by (nonlinear_arith)
            requires
                q == d * (q / d) + q % d,
                0 <= q % d,
        ;
        assert(q / d <= q) by (nonlinear_arith)
            requires
                q >= 0,
                d > 0,
        ;
    }
}

/// The linears of every layer have the widths of the model.
pub open spec fn all_match(b: &Gemma4Nvfp4Bringup) -> bool {
    forall|l: int|
        0 <= l < b.arch.num_hidden_layers ==> mlp_matches(
            #[trigger] &b.model.layers@[l],
            b.arch.hidden_size as u32,
            b.arch.intermediate_size as u32,
        )
}

proof fn lemma_embed(b: &Gemma4Nvfp4Bringup, token: u32, at: u64, lent: Map<u64, nat>)
    requires
        has_residual(b, 1, at, lends(lent)),
    ensures
        in_bounds(b.embed_steps("g4n_embed_tok", token, 0, Buf::At(at)), lends(lent)),
{
    let s = b.embed_steps("g4n_embed_tok", token, 0, Buf::At(at));
    let h = lends(lent);
    reveal(in_bounds);
    reveal_with_fuel(held_after, 4);
    let one = Held { regions: seq![4nat], ..h };
    assert(held_after(s, 1, h) =~= one);
    assert(step_in(s[1], one));
    assert(step_in(s[2], one));
}

proof fn lemma_embed_writes(b: &Gemma4Nvfp4Bringup, token: u32, at: u64)
    ensures
        writes_only(b.embed_steps("g4n_embed_tok", token, 0, Buf::At(at)), set![at]),
{
    reveal(writes_only);
}

proof fn lemma_layer_in_bounds(
    b: &Gemma4Nvfp4Bringup,
    l: int,
    n: u32,
    attn_out: u64,
    residual: u64,
    lent: Map<u64, nat>,
)
    requires
        n >= 1,
        b.fits(n as nat),
        0 <= l < b.arch.num_hidden_layers,
        all_match(b),
        has_residual(b, n, residual, lends(lent)),
        lends(lent).has(Buf::At(attn_out), 2 * (n * b.model.layers@[l].o_proj.shape@[1])),
    ensures
        in_bounds(b.post_attn_dev(l, attn_out, residual).steps, lends(lent)),
        in_bounds(b.post_attn_mlp_dev(l, residual).steps, lends(lent)),
        in_bounds(b.post_attn_batched_dev(l, n, attn_out, residual).steps, lends(lent)),
        in_bounds(b.post_attn_mlp_batched_dev(l, n, residual).steps, lends(lent)),
{
    let layer = &b.model.layers@[l];
    assert(b.model.layers@[l] == *layer);
    let hidden = b.arch.hidden_size as u32;
    let inter = b.arch.intermediate_size as u32;
    let eps = b.arch.rms_norm_eps_bits;
    assert(mlp_matches(&b.model.layers@[l], hidden, inter));
    let hs = b.arch.hidden_size as int;
    let k = layer.k_proj.shape@[0] as int;
    assert(b.layer_fits(l, n as nat));
    let o = layer.o_proj.shape@[1] as int;
    assert(hs <= n * hs && 4 * (n * hs) == 4 * n * hs && n <= n * k && o <= n * o)
        by (nonlinear_arith)
        requires
            n >= 1,
            hs >= 0,
            k >= 1,
            o >= 0,
    ;
    law_dev_post_attention_in_bounds(
        "g4n_dev_post_attn_o_f32",
        "g4n_dev_post_attn_o_bf16",
        layer,
        hidden,
        eps,
        1,
        attn_out,
        residual,
        lent,
    );
    law_dev_post_attention_in_bounds(
        "g4n_batch_o_f32",
        "g4n_batch_o_bf16",
        layer,
        hidden,
        eps,
        n,
        attn_out,
        residual,
        lent,
    );
    law_dev_mlp_in_bounds(
        MlpDevNames {
            normed: "g4n_dev_pamlp_normed",
            scratch: "g4n_dev_pamlp_scratch",
            out: "g4n_dev_pamlp_out",
            copy: "forward_layer_post_attn_mlp_dev: residual DtoD",
        },
        layer,
        hidden,
        inter,
        eps,
        1,
        residual,
        lent,
    );
    law_dev_mlp_in_bounds(
        MlpDevNames {
            normed: "g4n_batch_pamlp_normed",
            scratch: "g4n_batch_pamlp_scratch",
            out: "g4n_batch_pamlp_out",
            copy: "post_attn_mlp_batched_dev: residual DtoD",
        },
        layer,
        hidden,
        inter,
        eps,
        n,
        residual,
        lent,
    );
}

/// Whether the attention output of `n` tokens of every layer has room, as it is
/// written and as it is projected.
pub open spec fn has_outputs(b: &Gemma4Nvfp4Bringup, n: u32, out: u64, h: Held) -> bool {
    forall|l: int|
        0 <= l < b.arch.num_hidden_layers ==> #[trigger] has_output(b, l, n, out, h) && h.has(
            Buf::At(out),
            2 * (n * b.model.layers@[l].o_proj.shape@[1]),
        )
}

/// No program of one token's pass leaves its regions, nor the residual, the
/// attention output and the metadata where they have room.
pub proof fn law_full_pass_in_bounds(
    b: &Gemma4Nvfp4Bringup,
    n: nat,
    token: u32,
    position: u32,
    kv: &Gemma4Nvfp4KvState,
    residual: u64,
    attn_out: u64,
    policies: (i32, i32),
    lent: Map<u64, nat>,
)
    requires
        b.fits(1),
        all_match(b),
        n <= b.arch.num_hidden_layers,
        has_residual(b, 1, residual, lends(lent)),
        has_outputs(b, 1, attn_out, lends(lent)),
        has_metadata(kv, lends(lent)),
    ensures
        ({
            let s = b.full_layers(n, token, position, kv, residual, attn_out, policies, false);
            forall|i: int| 0 <= i < s.len() ==> in_bounds((#[trigger] s[i]).steps, lends(lent))
        }),
    decreases n,
{
    lemma_embed(b, token, residual, lent);
    if n > 0 {
        let m = (n - 1) as nat;
        law_full_pass_in_bounds(b, m, token, position, kv, residual, attn_out, policies, lent);
        assert(has_output(b, m as int, 1, attn_out, lends(lent)));
        law_dev_attention_in_bounds(b, m as int, residual, position, kv, attn_out, policies, lent);
        lemma_layer_in_bounds(b, m as int, 1, attn_out, residual, lent);
        let before = b.full_layers(m, token, position, kv, residual, attn_out, policies, false);
        let s = b.full_layers(n, token, position, kv, residual, attn_out, policies, false);
        let own = b.full_layer(m as int, position, kv, residual, attn_out, policies, false);
        assert(own.len() == 3);
        assert forall|i: int| 0 <= i < s.len() implies in_bounds(
            (#[trigger] s[i]).steps,
            lends(lent),
        ) by {
            if i < before.len() {
                assert(s[i] == before[i]);
            } else {
                assert(s[i] == own[i - before.len()]);
            }
        }
    }
}

/// No program of a prompt's pass leaves its regions, where the value projection
/// of every layer is as wide as the heads of its keys, nor the residual, the
/// attention output and the metadata where they have room.
pub proof fn law_prompt_pass_in_bounds(
    b: &Gemma4Nvfp4Bringup,
    k: nat,
    prompt: Seq<u32>,
    position_start: u32,
    kv: &Gemma4Nvfp4KvState,
    residual: u64,
    attn_out: u64,
    policies: (i32, i32),
    block_m: u32,
    lent: Map<u64, nat>,
)
    requires
        1 <= prompt.len() <= u32::MAX,
        b.fits(prompt.len()),
        all_match(b),
        has_residual(b, prompt.len() as u32, residual, lends(lent)),
        forall|i: int|
            0 <= i < prompt.len() ==> has_residual(
                b,
                1,
                #[trigger] b.prompt_row(residual, i),
                lends(lent),
            ),
        has_outputs(b, prompt.len() as u32, attn_out, lends(lent)),
        has_metadata(kv, lends(lent)),
        forall|l: int| 0 <= l < b.arch.num_hidden_layers ==> #[trigger] values_fit(b, l),
        k <= b.arch.num_hidden_layers,
    ensures
        ({
            let s = b.prompt_layers(
                k,
                prompt,
                position_start,
                kv,
                residual,
                attn_out,
                policies,
                block_m,
            );
            forall|i: int| 0 <= i < s.len() ==> in_bounds((#[trigger] s[i]).steps, lends(lent))
        }),
    decreases k,
{
    let s = b.prompt_layers(
        k,
        prompt,
        position_start,
        kv,
        residual,
        attn_out,
        policies,
        block_m,
    );
    if k == 0 {
        assert forall|i: int| 0 <= i < s.len() implies in_bounds(
            (#[trigger] s[i]).steps,
            lends(lent),
        ) by {
            lemma_embed(b, prompt[i], b.prompt_row(residual, i), lent);
        }
    } else {
        let m = (k - 1) as nat;
        let n = prompt.len() as u32;
        law_prompt_pass_in_bounds(
            b,
            m,
            prompt,
            position_start,
            kv,
            residual,
            attn_out,
            policies,
            block_m,
            lent,
        );
        assert(values_fit(b, m as int) && has_output(b, m as int, n, attn_out, lends(lent)));
        law_batched_attention_in_bounds(
            b,
            m as int,
            n,
            residual,
            position_start,
            kv,
            attn_out,
            policies,
            block_m,
            lent,
        );
        lemma_layer_in_bounds(b, m as int, n, attn_out, residual, lent);
        let before = b.prompt_layers(
            m,
            prompt,
            position_start,
            kv,
            residual,
            attn_out,
            policies,
            block_m,
        );
        let own = b.prompt_layer(
            m as int,
            n,
            position_start,
            kv,
            residual,
            attn_out,
            policies,
            block_m,
        );
        assert forall|i: int| 0 <= i < s.len() implies in_bounds(
            (#[trigger] s[i]).steps,
            lends(lent),
        ) by {
            if i < before.len() {
                assert(s[i] == before[i]);
            } else {
                assert(s[i] == own[i - before.len()]);
            }
        }
    }
}

/// The output projection of every layer takes no more than the widest layer's
/// queries give.
pub open spec fn outputs_match(b: &Gemma4Nvfp4Bringup) -> bool {
    forall|l: int|
        0 <= l < b.arch.num_hidden_layers ==> (#[trigger] b.model.layers@[l]).o_proj.shape@[1]
            <= b.widest_query(b.model.layers@.len())
}

/// Whether the metadata of a cache lies in buffers with room for every token
/// that may be in flight.
pub open spec fn metadata_lies_in(kv: &Gemma4Nvfp4KvState, buffers: Map<u64, nat>) -> bool {
    let bytes = (4 * kv.max_query_tokens) as nat;
    &&& buffers.contains_pair(kv.positions_ptr, bytes)
    &&& buffers.contains_pair(kv.slot_mapping_ptr, bytes)
    &&& buffers.contains_pair(kv.context_lens_ptr, bytes)
}

proof fn lemma_buffers(
    b: &Gemma4Nvfp4Bringup,
    n: u32,
    kv: &Gemma4Nvfp4KvState,
    residual: u64,
    attn_out: u64,
    buffers: Map<u64, nat>,
)
    requires
        n >= 1,
        b.fits(n as nat),
        outputs_match(b),
        apart(buffers),
        metadata_lies_in(kv, buffers),
        buffers.contains_pair(residual, (2 * (n * (b.arch.hidden_size as u32))) as nat),
        residual + 2 * (n * (b.arch.hidden_size as u32)) <= u64::MAX,
        buffers.contains_pair(
            attn_out,
            (2 * (n * b.widest_query(b.model.layers@.len()))) as nat,
        ),
    ensures
        ({
            let h = lends(room_in(buffers));
            &&& has_residual(b, n, residual, h)
            &&& has_outputs(b, n, attn_out, h)
            &&& has_metadata(kv, h)
            &&& forall|i: int|
                0 <= i < n ==> has_residual(b, 1, #[trigger] b.prompt_row(residual, i), h)
        }),
{
    let h = lends(room_in(buffers));
    let hidden = b.arch.hidden_size as u32 as int;
    let widest = b.widest_query(b.model.layers@.len());
    assert(n * hidden >= 0) by (nonlinear_arith)
        requires
            hidden >= 0,
    ;
    law_part_of_buffer(buffers, h, residual, 0, 2 * (n * hidden));
    law_part_of_buffer(buffers, h, kv.positions_ptr, 0, 4 * kv.max_query_tokens);
    law_part_of_buffer(buffers, h, kv.slot_mapping_ptr, 0, 4 * kv.max_query_tokens);
    law_part_of_buffer(buffers, h, kv.context_lens_ptr, 0, 4 * kv.max_query_tokens);
    assert forall|l: int| 0 <= l < b.arch.num_hidden_layers implies #[trigger] has_output(
        b,
        l,
        n,
        attn_out,
        h,
    ) && h.has(Buf::At(attn_out), 2 * (n * b.model.layers@[l].o_proj.shape@[1])) by {
        lemma_fits_one(b, n as nat);
        law_output_buffer_fits(b, b.model.layers@.len(), l);
        let q = b.heads(l).num_q_heads * b.heads(l).head_dim;
        let o = b.model.layers@[l].o_proj.shape@[1] as int;
        assert(n * q <= n * widest && n * o <= n * widest) by (nonlinear_arith)
            requires
                q <= widest,
                o <= widest,
        ;
        law_part_of_buffer(buffers, h, attn_out, 0, 2 * (n * q));
        law_part_of_buffer(buffers, h, attn_out, 0, 2 * (n * o));
    }
    assert forall|i: int| 0 <= i < n implies has_residual(
        b,
        1,
        #[trigger] b.prompt_row(residual, i),
        h,
    ) by {
        assert(0 <= i * (2 * hidden) && i * (2 * hidden) + 2 * hidden <= 2 * (n * hidden))
            by (nonlinear_arith)
            requires
                0 <= i < n,
                hidden >= 0,
        ;
        law_part_of_buffer(buffers, h, residual, i * (2 * hidden), 2 * hidden);
    }
}

/// The buffers that one token's pass asks for are enough: no program of it
/// leaves them, where the linears of every layer have the widths of the model.
pub proof fn law_full_buffers_are_enough(
    b: &Gemma4Nvfp4Bringup,
    token: u32,
    position: u32,
    kv: &Gemma4Nvfp4KvState,
    residual: u64,
    attn_out: u64,
    policies: (i32, i32),
    buffers: Map<u64, nat>,
)
    requires
        b.fits(1),
        all_match(b),
        outputs_match(b),
        apart(buffers),
        metadata_lies_in(kv, buffers),
        ({
            let w = b.full_workspace(position, kv);
            &&& w.failure is None
            &&& buffers.contains_pair(residual, w.steps[0]->Region_bytes as nat)
            &&& buffers.contains_pair(attn_out, w.steps[1]->Region_bytes as nat)
            &&& residual + buffers[residual] <= u64::MAX
        }),
    ensures
        ({
            let s = b.full_layers(
                b.model.layers@.len(),
                token,
                position,
                kv,
                residual,
                attn_out,
                policies,
                false,
            );
            forall|i: int|
                0 <= i < s.len() ==> in_bounds((#[trigger] s[i]).steps, lends(room_in(buffers)))
        }),
{
    let layers = b.model.layers@.len();
    lemma_widest_fits(b, 1, layers);
    assert(1 * b.widest_query(layers) == b.widest_query(layers));
    lemma_buffers(b, 1, kv, residual, attn_out, buffers);
    law_full_pass_in_bounds(
        b,
        layers,
        token,
        position,
        kv,
        residual,
        attn_out,
        policies,
        room_in(buffers),
    );
}

proof fn lemma_widest_fits(b: &Gemma4Nvfp4Bringup, n: nat, layers: nat)
    requires
        n >= 1,
        b.fits(n),
        layers <= b.model.layers@.len(),
    ensures
        n * b.widest_query(layers) <= 0x7fff_ffff,
        4 * (n * b.widest_query(layers)) <= usize::MAX,
    decreases layers,
{
    if layers == 0 {
        assert(n * 0 == 0) by (nonlinear_arith);
    } else {
        lemma_widest_fits(b, n, (layers - 1) as nat);
        assert(b.layer_fits(layers - 1, n));
    }
}

/// The buffers that a prompt's pass asks for are enough: no program of it
/// leaves them, where the linears of every layer have the widths of the model.
pub proof fn law_prompt_buffers_are_enough(
    b: &Gemma4Nvfp4Bringup,
    prompt: Seq<u32>,
    position_start: u32,
    kv: &Gemma4Nvfp4KvState,
    residual: u64,
    attn_out: u64,
    policies: (i32, i32),
    block_m: u32,
    buffers: Map<u64, nat>,
)
    requires
        prompt.len() <= usize::MAX,
        b.fits(prompt.len()),
        all_match(b),
        outputs_match(b),
        forall|l: int| 0 <= l < b.arch.num_hidden_layers ==> #[trigger] values_fit(b, l),
        apart(buffers),
        metadata_lies_in(kv, buffers),
        ({
            let w = b.prompt_workspace(prompt.len() as usize, position_start, kv);
            &&& w.failure is None
            &&& buffers.contains_pair(residual, w.steps[0]->Region_bytes as nat)
            &&& buffers.contains_pair(attn_out, w.steps[1]->Region_bytes as nat)
            &&& residual + buffers[residual] <= u64::MAX
        }),
    ensures
        ({
            let s = b.prompt_layers(
                b.model.layers@.len(),
                prompt,
                position_start,
                kv,
                residual,
                attn_out,
                policies,
                block_m,
            );
            forall|i: int|
                0 <= i < s.len() ==> in_bounds((#[trigger] s[i]).steps, lends(room_in(buffers)))
        }),
{
    let layers = b.model.layers@.len();
    let n = prompt.len() as u32;
    let hidden = b.arch.hidden_size as u32 as int;
    lemma_widest_fits(b, prompt.len(), layers);
    lemma_fits_one(b, prompt.len());
    assert(0 <= prompt.len() * hidden && 2 * (prompt.len() * hidden) <= 4 * prompt.len() * hidden)
        by (nonlinear_arith)
        requires
            hidden >= 0,
    ;
    lemma_buffers(b, n, kv, residual, attn_out, buffers);
    law_prompt_pass_in_bounds(
        b,
        layers,
        prompt,
        position_start,
        kv,
        residual,
        attn_out,
        policies,
        block_m,
        room_in(buffers),
    );
}

/// The caches of the first `n` layers and the metadata of the tokens in flight.
pub open spec fn caches(kv: &Gemma4Nvfp4KvState, n: nat) -> Set<u64>
    decreases n,
{
    if n == 0 {
        Set::empty()
    } else {
        caches(kv, (n - 1) as nat).union(cache_of(kv, n - 1))
    }
}

proof fn lemma_writes_more(steps: Seq<Step>, a: Set<u64>, b: Set<u64>)
    requires
        writes_only(steps, a),
        a.subset_of(b),
    ensures
        writes_only(steps, b),
{
    reveal(writes_only);
}

/// One token's pass writes its residual, its attention output and the caches of
/// the layers it ran, and nothing else.
pub proof fn law_full_pass_writes(
    b: &Gemma4Nvfp4Bringup,
    n: nat,
    token: u32,
    position: u32,
    kv: &Gemma4Nvfp4KvState,
    residual: u64,
    attn_out: u64,
    policies: (i32, i32),
)
    ensures
        ({
            let s = b.full_layers(n, token, position, kv, residual, attn_out, policies, false);
            forall|i: int|
                0 <= i < s.len() ==> writes_only(
                    (#[trigger] s[i]).steps,
                    caches(kv, n).insert(residual).insert(attn_out),
                )
        }),
    decreases n,
{
    let allowed = caches(kv, n).insert(residual).insert(attn_out);
    let s = b.full_layers(n, token, position, kv, residual, attn_out, policies, false);
    lemma_embed_writes(b, token, residual);
    if n == 0 {
        lemma_writes_more(s[0].steps, set![residual], allowed);
    } else {
        let m = (n - 1) as nat;
        let l = m as int;
        law_full_pass_writes(b, m, token, position, kv, residual, attn_out, policies);
        let before = b.full_layers(m, token, position, kv, residual, attn_out, policies, false);
        let fewer = caches(kv, m).insert(residual).insert(attn_out);
        let own = b.full_layer(l, position, kv, residual, attn_out, policies, false);
        assert(own.len() == 3);
        assert(fewer.subset_of(allowed));
        law_dev_attention_writes(b, l, residual, position, kv, attn_out, policies);
        assert(cache_of(kv, l).insert(attn_out).subset_of(allowed));
        lemma_writes_more(own[0].steps, cache_of(kv, l).insert(attn_out), allowed);
        lemma_layer_writes(b, l, attn_out, residual);
        lemma_writes_more(own[1].steps, set![residual], allowed);
        lemma_writes_more(own[2].steps, set![residual], allowed);
        assert forall|i: int| 0 <= i < s.len() implies writes_only(
            (#[trigger] s[i]).steps,
            allowed,
        ) by {
            if i < before.len() {
                assert(s[i] == before[i]);
                lemma_writes_more(before[i].steps, fewer, allowed);
            } else {
                assert(s[i] == own[i - before.len()]);
            }
        }
    }
}

proof fn lemma_layer_writes(b: &Gemma4Nvfp4Bringup, l: int, attn_out: u64, residual: u64)
    ensures
        writes_only(b.post_attn_dev(l, attn_out, residual).steps, set![residual]),
        writes_only(b.post_attn_mlp_dev(l, residual).steps, set![residual]),
{
    let layer = &b.model.layers@[l];
    let hidden = b.arch.hidden_size as u32;
    let inter = b.arch.intermediate_size as u32;
    let eps = b.arch.rms_norm_eps_bits;
    assert(writes_only(Seq::empty(), set![residual])) by {
        reveal(writes_only);
    }
    law_dev_post_attention_writes(
        "g4n_dev_post_attn_o_f32",
        "g4n_dev_post_attn_o_bf16",
        layer,
        hidden,
        eps,
        1,
        attn_out,
        residual,
    );
    law_dev_mlp_writes(
        MlpDevNames {
            normed: "g4n_dev_pamlp_normed",
            scratch: "g4n_dev_pamlp_scratch",
            out: "g4n_dev_pamlp_out",
            copy: "forward_layer_post_attn_mlp_dev: residual DtoD",
        },
        layer,
        hidden,
        inter,
        eps,
        1,
        residual,
    );
}

/// A prompt's pass embeds each token and runs each layer once on all of them,
/// in order: the attention, the output projection and the MLP.
pub proof fn law_prompt_pass_order(
    b: &Gemma4Nvfp4Bringup,
    k: nat,
    prompt: Seq<u32>,
    position_start: u32,
    kv: &Gemma4Nvfp4KvState,
    residual: u64,
    attn_out: u64,
    policies: (i32, i32),
    block_m: u32,
)
    ensures
        ({
            let s = b.prompt_layers(
                k,
                prompt,
                position_start,
                kv,
                residual,
                attn_out,
                policies,
                block_m,
            );
            let e = prompt.len() as int;
            &&& s.len() == e + 3 * k
            &&& s.take(e) == b.prompt_embeds(prompt, residual)
            &&& forall|l: int|
                0 <= l < k ==> s.subrange(e + 3 * l, e + 3 * l + 3) == #[trigger] b.prompt_layer(
                    l,
                    prompt.len() as u32,
                    position_start,
                    kv,
                    residual,
                    attn_out,
                    policies,
                    block_m,
                )
        }),
    decreases k,
{
    let s = b.prompt_layers(
        k,
        prompt,
        position_start,
        kv,
        residual,
        attn_out,
        policies,
        block_m,
    );
    let e = prompt.len() as int;
    if k == 0 {
        assert(s.take(e) =~= b.prompt_embeds(prompt, residual));
    } else {
        let m = (k - 1) as nat;
        law_prompt_pass_order(
            b,
            m,
            prompt,
            position_start,
            kv,
            residual,
            attn_out,
            policies,
            block_m,
        );
        let before = b.prompt_layers(
            m,
            prompt,
            position_start,
            kv,
            residual,
            attn_out,
            policies,
            block_m,
        );
        assert(s.take(e) =~= before.take(e));
        assert forall|l: int| 0 <= l < k implies s.subrange(e + 3 * l, e + 3 * l + 3)
            == #[trigger] b.prompt_layer(
            l,
            prompt.len() as u32,
            position_start,
            kv,
            residual,
            attn_out,
            policies,
            block_m,
        ) by {
            let own = b.prompt_layer(
                l,
                prompt.len() as u32,
                position_start,
                kv,
                residual,
                attn_out,
                policies,
                block_m,
            );
            if l < m {
                assert(s.subrange(e + 3 * l, e + 3 * l + 3) =~= before.subrange(
                    e + 3 * l,
                    e + 3 * l + 3,
                ));
            } else {
                assert(s.subrange(e + 3 * l, e + 3 * l + 3) =~= own);
            }
        }
    }
}

/// Where the residuals of a prompt's tokens start.
pub open spec fn rows_of(b: &Gemma4Nvfp4Bringup, prompt: Seq<u32>, residual: u64) -> Set<u64> {
    Seq::new(prompt.len(), |t: int| b.prompt_row(residual, t)).to_set()
}

/// A prompt's pass writes the residuals of its tokens, its attention output and
/// the caches of the layers it ran, and nothing else.
pub proof fn law_prompt_pass_writes(
    b: &Gemma4Nvfp4Bringup,
    k: nat,
    prompt: Seq<u32>,
    position_start: u32,
    kv: &Gemma4Nvfp4KvState,
    residual: u64,
    attn_out: u64,
    policies: (i32, i32),
    block_m: u32,
)
    ensures
        ({
            let s = b.prompt_layers(
                k,
                prompt,
                position_start,
                kv,
                residual,
                attn_out,
                policies,
                block_m,
            );
            forall|i: int|
                0 <= i < s.len() ==> writes_only(
                    (#[trigger] s[i]).steps,
                    caches(kv, k).union(rows_of(b, prompt, residual)).insert(residual).insert(
                        attn_out,
                    ),
                )
        }),
    decreases k,
{
    let rows = rows_of(b, prompt, residual);
    let allowed = caches(kv, k).union(rows).insert(residual).insert(attn_out);
    let s = b.prompt_layers(
        k,
        prompt,
        position_start,
        kv,
        residual,
        attn_out,
        policies,
        block_m,
    );
    if k == 0 {
        let starts = Seq::new(prompt.len(), |t: int| b.prompt_row(residual, t));
        assert forall|i: int| 0 <= i < s.len() implies writes_only(
            (#[trigger] s[i]).steps,
            allowed,
        ) by {
            let p = b.prompt_row(residual, i);
            lemma_embed_writes(b, prompt[i], p);
            assert(starts[i] == p);
            assert(starts.contains(p));
            assert(rows.contains(p));
            lemma_writes_more(s[i].steps, set![p], allowed);
        }
    } else {
        let m = (k - 1) as nat;
        let l = m as int;
        let n = prompt.len() as u32;
        law_prompt_pass_writes(
            b,
            m,
            prompt,
            position_start,
            kv,
            residual,
            attn_out,
            policies,
            block_m,
        );
        let before = b.prompt_layers(
            m,
            prompt,
            position_start,
            kv,
            residual,
            attn_out,
            policies,
            block_m,
        );
        let fewer = caches(kv, m).union(rows).insert(residual).insert(attn_out);
        let own = b.prompt_layer(
            l,
            n,
            position_start,
            kv,
            residual,
            attn_out,
            policies,
            block_m,
        );
        assert(fewer.subset_of(allowed));
        law_batched_attention_writes(
            b,
            l,
            n,
            residual,
            position_start,
            kv,
            attn_out,
            policies,
            block_m,
        );
        assert(cache_of(kv, l).insert(attn_out).subset_of(allowed));
        lemma_writes_more(own[0].steps, cache_of(kv, l).insert(attn_out), allowed);
        lemma_batched_layer_writes(b, l, n, attn_out, residual);
        lemma_writes_more(own[1].steps, set![residual], allowed);
        lemma_writes_more(own[2].steps, set![residual], allowed);
        assert forall|i: int| 0 <= i < s.len() implies writes_only(
            (#[trigger] s[i]).steps,
            allowed,
        ) by {
            if i < before.len() {
                assert(s[i] == before[i]);
                lemma_writes_more(before[i].steps, fewer, allowed);
            } else {
                assert(s[i] == own[i - before.len()]);
            }
        }
    }
}

proof fn lemma_batched_layer_writes(
    b: &Gemma4Nvfp4Bringup,
    l: int,
    n: u32,
    attn_out: u64,
    residual: u64,
)
    ensures
        writes_only(b.post_attn_batched_dev(l, n, attn_out, residual).steps, set![residual]),
        writes_only(b.post_attn_mlp_batched_dev(l, n, residual).steps, set![residual]),
{
    let layer = &b.model.layers@[l];
    let hidden = b.arch.hidden_size as u32;
    let inter = b.arch.intermediate_size as u32;
    let eps = b.arch.rms_norm_eps_bits;
    assert(writes_only(Seq::empty(), set![residual])) by {
        reveal(writes_only);
    }
    law_dev_post_attention_writes(
        "g4n_batch_o_f32",
        "g4n_batch_o_bf16",
        layer,
        hidden,
        eps,
        n,
        attn_out,
        residual,
    );
    law_dev_mlp_writes(
        MlpDevNames {
            normed: "g4n_batch_pamlp_normed",
            scratch: "g4n_batch_pamlp_scratch",
            out: "g4n_batch_pamlp_out",
            copy: "post_attn_mlp_batched_dev: residual DtoD",
        },
        layer,
        hidden,
        inter,
        eps,
        n,
        residual,
    );
}

} // verus!
