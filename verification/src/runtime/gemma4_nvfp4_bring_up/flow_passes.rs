//! What whole passes compute: a token's pass as one expression, a prompt's
//! pass and a drafter's step stage by stage.

use crate::runtime::dataflow::{after_steps, copied, leaves, CacheWrite, Memory, Val};
use crate::runtime::gemma4_drafter::workspace::DrafterStepWorkspace;
use crate::runtime::gemma4_drafter::Gemma4DrafterRuntime;
use crate::runtime::gemma4_nvfp4_bring_up::attention::lemma_fits_one;
use crate::runtime::gemma4_nvfp4_bring_up::flow_attention::{
    attends_globally, attention, buffers_differ, cached, has_rows, law_dev_attention_flow,
    tables_kept,
};
use crate::runtime::gemma4_nvfp4_bring_up::flow_layer::{
    behind_attention, behind_mlp, embedding, law_embedding_flow, law_mlp_flow,
    law_post_attention_flow, mlp, mlp_input, mlp_runs,
};
use crate::runtime::gemma4_nvfp4_bring_up::frames_drafter::law_drafter_pass_order;
use crate::runtime::gemma4_nvfp4_bring_up::kv_state::Gemma4Nvfp4KvState;
use crate::runtime::gemma4_nvfp4_bring_up::model::Gemma4Nvfp4Bringup;
use crate::runtime::gemma4_nvfp4_bring_up::passes::law_prompt_pass_order;
use crate::runtime::step::{completes, Buf, ProgramView};
use vstd::prelude::*;

verus! {

/// Memory between two programs: the regions of the first are gone.
pub open spec fn between(m: Memory) -> Memory {
    Memory {
        at: Map::new(|b: Buf| m.at.contains_key(b) && b is At, |b: Buf| m.at[b]),
        ..m
    }
}

/// What programs leave one after another.
pub open spec fn run_all(s: Seq<ProgramView>, m: Memory) -> Memory
    decreases s.len(),
{
    if s.len() == 0 {
        m
    } else {
        between(leaves(s.last().steps, run_all(s.drop_last(), m)))
    }
}

proof fn lemma_run_joins(a: Seq<ProgramView>, b: Seq<ProgramView>, m: Memory)
    ensures
        run_all(a + b, m) == run_all(b, run_all(a, m)),
    decreases b.len(),
{
    if b.len() == 0 {
        assert(a + b =~= a);
    } else {
        lemma_run_joins(a, b.drop_last(), m);
        assert((a + b).drop_last() =~= a + b.drop_last());
    }
}

proof fn lemma_between(m: Memory)
    ensures
        forall|p: u64| #[trigger] between(m).get(Buf::At(p)) == m.get(Buf::At(p)),
        forall|r: usize, o: u64| !#[trigger] between(m).at.contains_key(
            Buf::In { region: r, offset: o },
        ),
{
}

/// A layer of the model on the residual of one token: the attention is added
/// to it, and then the MLP of that.
pub open spec fn layer_on(
    b: &Gemma4Nvfp4Bringup,
    l: int,
    position: u32,
    kv: &Gemma4Nvfp4KvState,
    residual: Val,
) -> Val {
    let layer = b.model.layers@[l];
    let hidden = b.arch.hidden_size as int;
    let eps = b.arch.rms_norm_eps_bits;
    let attended = behind_attention(
        layer,
        hidden,
        eps,
        1,
        attention(
            b,
            l,
            1,
            position as int,
            copied(residual, 2 * hidden),
            kv,
            Val::Range { first: position + 1, count: 1 },
            Val::Pair(0, 1),
        ),
        residual,
    );
    behind_mlp(
        layer,
        hidden,
        eps,
        1,
        mlp(layer, mlp_input(layer, hidden, eps, 1, copied(attended, 2 * hidden))),
        attended,
        Val::Before(Buf::At(layer.layer_scalar.offset_bytes)),
    )
}

/// The residual of a token behind the first `n` layers.
pub open spec fn residual_behind(
    b: &Gemma4Nvfp4Bringup,
    n: nat,
    token: u32,
    position: u32,
    kv: &Gemma4Nvfp4KvState,
) -> Val
    decreases n,
{
    if n == 0 {
        embedding(b, token)
    } else {
        layer_on(
            b,
            n - 1,
            position,
            kv,
            residual_behind(b, (n - 1) as nat, token, position, kv),
        )
    }
}

/// Whether an address is none that a pass writes.
pub open spec fn spared(kv: &Gemma4Nvfp4KvState, residual: u64, attn_out: u64, p: u64) -> bool {
    p != residual && p != attn_out && p != kv.positions_ptr && p != kv.slot_mapping_ptr && p
        != kv.context_lens_ptr
}

/// Whether a layer can run, and what it reads is not what the pass writes.
pub open spec fn layer_ready(
    b: &Gemma4Nvfp4Bringup,
    l: int,
    position: u32,
    kv: &Gemma4Nvfp4KvState,
    residual: u64,
    attn_out: u64,
    policies: (i32, i32),
) -> bool {
    &&& has_rows(b, l)
    &&& mlp_runs(b.model.layers@[l])
    &&& buffers_differ(b, l, kv)
    &&& spared(kv, residual, attn_out, b.model.layers@[l].layer_scalar.offset_bytes)
    &&& b.dev_attn(l, residual, position, kv, attn_out, policies).failure is None
    &&& if attends_globally(b, l) {
        spared(kv, residual, attn_out, b.tables.rope_cos_global) && spared(
            kv,
            residual,
            attn_out,
            b.tables.rope_sin_global,
        )
    } else {
        spared(kv, residual, attn_out, b.tables.rope_cos_sliding) && spared(
            kv,
            residual,
            attn_out,
            b.tables.rope_sin_sliding,
        )
    }
}

/// What holds between two layers of a pass.
pub open spec fn pass_at(
    kv: &Gemma4Nvfp4KvState,
    residual: u64,
    attn_out: u64,
    x: Val,
    m: Memory,
) -> bool {
    &&& m.get(Buf::At(residual)) == x
    &&& forall|p: u64|
        spared(kv, residual, attn_out, p) ==> #[trigger] m.get(Buf::At(p)) == Val::Before(
            Buf::At(p),
        )
    &&& forall|r: usize, o: u64| !#[trigger] m.at.contains_key(Buf::In { region: r, offset: o })
}

#[verifier::spinoff_prover]
#[verifier::rlimit(40)]
proof fn lemma_one_layer(
    b: &Gemma4Nvfp4Bringup,
    l: int,
    position: u32,
    kv: &Gemma4Nvfp4KvState,
    residual: u64,
    attn_out: u64,
    policies: (i32, i32),
    x: Val,
    m: Memory,
)
    requires
        b.fits(1),
        b.arch.hidden_size > 0,
        0 <= l < b.arch.num_hidden_layers,
        position < i32::MAX,
        residual != attn_out,
        residual != kv.positions_ptr && residual != kv.slot_mapping_ptr && residual
            != kv.context_lens_ptr,
        layer_ready(b, l, position, kv, residual, attn_out, policies),
        pass_at(kv, residual, attn_out, x, m),
    ensures
        ({
            let s = seq![
                b.dev_attn(l, residual, position, kv, attn_out, policies),
                b.post_attn_dev(l, attn_out, residual),
                b.post_attn_mlp_dev(l, residual),
            ];
            let r = run_all(s, m);
            &&& pass_at(kv, residual, attn_out, layer_on(b, l, position, kv, x), r)
            &&& r.writes == m.writes.push(
                cached(
                    b,
                    l,
                    1,
                    position as int,
                    copied(x, 2 * b.arch.hidden_size),
                    kv,
                    policies,
                ),
            )
            &&& r.readings == m.readings
        }),
{
    let p1 = b.dev_attn(l, residual, position, kv, attn_out, policies);
    let p2 = b.post_attn_dev(l, attn_out, residual);
    let p3 = b.post_attn_mlp_dev(l, residual);
    assert(tables_kept(b, l, m));
    law_dev_attention_flow(b, l, residual, position, kv, attn_out, policies, m);
    let n1 = leaves(p1.steps, m);
    let m1 = between(n1);
    lemma_between(n1);
    assert(m1.get(Buf::At(residual)) == x);
    law_post_attention_flow(b, l, 1, attn_out, residual, m1);
    let n2 = leaves(p2.steps, m1);
    let m2 = between(n2);
    lemma_between(n2);
    law_mlp_flow(b, l, 1, residual, m2);
    let n3 = leaves(p3.steps, m2);
    let m3 = between(n3);
    lemma_between(n3);
    let scalar = b.model.layers@[l].layer_scalar.offset_bytes;
    assert(m2.get(Buf::At(scalar)) == Val::Before(Buf::At(scalar))) by {
        assert(m.get(Buf::At(scalar)) == Val::Before(Buf::At(scalar)));
        assert(m1.get(Buf::At(scalar)) == n1.get(Buf::At(scalar)));
        assert(m2.get(Buf::At(scalar)) == n2.get(Buf::At(scalar)));
    }
    assert(m3.get(Buf::At(residual)) == layer_on(b, l, position, kv, x)) by {
        assert(2 * (1 * b.arch.hidden_size) == 2 * b.arch.hidden_size);
    }
    assert forall|p: u64| spared(kv, residual, attn_out, p) implies #[trigger] m3.get(Buf::At(p))
        == Val::Before(Buf::At(p)) by {
        assert(m.get(Buf::At(p)) == Val::Before(Buf::At(p)));
        assert(m1.get(Buf::At(p)) == n1.get(Buf::At(p)));
        assert(m2.get(Buf::At(p)) == n2.get(Buf::At(p)));
        assert(m3.get(Buf::At(p)) == n3.get(Buf::At(p)));
    }
    let s = seq![p1, p2, p3];
    assert(run_all(s, m) == m3) by {
        reveal_with_fuel(run_all, 4);
        assert(s.drop_last() =~= seq![p1, p2]);
        assert(s.drop_last().drop_last() =~= seq![p1]);
        assert(s.drop_last().drop_last().drop_last() =~= Seq::<ProgramView>::empty());
    }
}

/// What the caches got from the first `n` layers of a pass.
pub open spec fn caches_got(
    b: &Gemma4Nvfp4Bringup,
    n: nat,
    token: u32,
    position: u32,
    kv: &Gemma4Nvfp4KvState,
    policies: (i32, i32),
) -> Seq<CacheWrite> {
    Seq::new(
        n,
        |l: int|
            cached(
                b,
                l,
                1,
                position as int,
                copied(
                    residual_behind(b, l as nat, token, position, kv),
                    2 * b.arch.hidden_size,
                ),
                kv,
                policies,
            ),
    )
}

#[verifier::spinoff_prover]
#[verifier::rlimit(20)]
proof fn lemma_start(
    b: &Gemma4Nvfp4Bringup,
    token: u32,
    kv: &Gemma4Nvfp4KvState,
    residual: u64,
    attn_out: u64,
)
    requires
        b.fits(1),
    ensures
        ({
            let s = seq![
                completes(b.embed_steps("g4n_embed_tok", token, 0, Buf::At(residual))),
            ];
            let m = run_all(s, Memory::fresh());
            &&& pass_at(kv, residual, attn_out, embedding(b, token), m)
            &&& m.writes.len() == 0
        }),
{
    law_embedding_flow(b, token, residual, Memory::fresh());
    let e = b.embed_steps("g4n_embed_tok", token, 0, Buf::At(residual));
    let s = seq![completes(e)];
    let m = run_all(s, Memory::fresh());
    let f = leaves(e, Memory::fresh());
    lemma_between(f);
    assert(s.drop_last() =~= Seq::<ProgramView>::empty());
    assert(run_all(s.drop_last(), Memory::fresh()) == Memory::fresh());
    assert(m == between(f));
    assert(f.writes.len() == 0 && forall|p: u64|
        p != residual ==> #[trigger] f.get(Buf::At(p)) == Val::Before(Buf::At(p))) by {
        reveal(leaves);
        reveal_with_fuel(after_steps, 4);
    }
    assert forall|p: u64| spared(kv, residual, attn_out, p) implies #[trigger] m.get(Buf::At(p))
        == Val::Before(Buf::At(p)) by {
        assert(m.get(Buf::At(p)) == f.get(Buf::At(p)));
    }
}

#[verifier::spinoff_prover]
#[verifier::rlimit(20)]
proof fn lemma_next(
    b: &Gemma4Nvfp4Bringup,
    l: int,
    position: u32,
    kv: &Gemma4Nvfp4KvState,
    residual: u64,
    attn_out: u64,
    policies: (i32, i32),
    trace: bool,
    y: Val,
    m0: Memory,
)
    requires
        b.fits(1),
        b.arch.hidden_size > 0,
        0 <= l < b.arch.num_hidden_layers,
        position < i32::MAX,
        residual != attn_out,
        residual != kv.positions_ptr && residual != kv.slot_mapping_ptr && residual
            != kv.context_lens_ptr,
        layer_ready(b, l, position, kv, residual, attn_out, policies),
        pass_at(kv, residual, attn_out, y, m0),
    ensures
        ({
            let m = run_all(
                b.full_layer(l, position, kv, residual, attn_out, policies, trace),
                m0,
            );
            &&& pass_at(kv, residual, attn_out, layer_on(b, l, position, kv, y), m)
            &&& m.writes == m0.writes.push(
                cached(
                    b,
                    l,
                    1,
                    position as int,
                    copied(y, 2 * b.arch.hidden_size),
                    kv,
                    policies,
                ),
            )
        }),
{
    let own = b.full_layer(l, position, kv, residual, attn_out, policies, trace);
    lemma_one_layer(b, l, position, kv, residual, attn_out, policies, y, m0);
    let three = own.take(3);
    let rest = own.subrange(3, own.len() as int);
    assert(own =~= three + rest);
    assert(three =~= seq![
        b.dev_attn(l, residual, position, kv, attn_out, policies),
        b.post_attn_dev(l, attn_out, residual),
        b.post_attn_mlp_dev(l, residual),
    ]);
    lemma_run_joins(three, rest, m0);
    let m1 = run_all(three, m0);
    lemma_trace(b, rest, residual, m1);
    let m = run_all(own, m0);
    assert forall|p: u64| spared(kv, residual, attn_out, p) implies #[trigger] m.get(Buf::At(p))
        == Val::Before(Buf::At(p)) by {
        assert(m1.get(Buf::At(p)) == Val::Before(Buf::At(p)));
    }
}

/// One token's pass is the model: behind the first `n` layers the residual is
/// the token's embedding with each of them in order on it, and each layer's
/// keys and values went to that layer's cache, once. A trace changes nothing
/// of it.
#[verifier::spinoff_prover]
#[verifier::rlimit(20)]
pub proof fn law_full_pass_flow(
    b: &Gemma4Nvfp4Bringup,
    n: nat,
    token: u32,
    position: u32,
    kv: &Gemma4Nvfp4KvState,
    residual: u64,
    attn_out: u64,
    policies: (i32, i32),
    trace: bool,
)
    requires
        b.fits(1),
        b.arch.hidden_size > 0,
        n <= b.arch.num_hidden_layers,
        position < i32::MAX,
        residual != attn_out,
        residual != kv.positions_ptr && residual != kv.slot_mapping_ptr && residual
            != kv.context_lens_ptr,
        forall|l: int|
            0 <= l < n ==> #[trigger] layer_ready(
                b,
                l,
                position,
                kv,
                residual,
                attn_out,
                policies,
            ),
    ensures
        ({
            let s = b.full_layers(n, token, position, kv, residual, attn_out, policies, trace);
            let m = run_all(s, Memory::fresh());
            &&& pass_at(
                kv,
                residual,
                attn_out,
                residual_behind(b, n, token, position, kv),
                m,
            )
            &&& m.writes =~= caches_got(b, n, token, position, kv, policies)
        }),
    decreases n,
{
    let s = b.full_layers(n, token, position, kv, residual, attn_out, policies, trace);
    if n == 0 {
        lemma_start(b, token, kv, residual, attn_out);
    } else {
        let k = (n - 1) as nat;
        law_full_pass_flow(
            b,
            k,
            token,
            position,
            kv,
            residual,
            attn_out,
            policies,
            trace,
        );
        let before = b.full_layers(k, token, position, kv, residual, attn_out, policies, trace);
        let own = b.full_layer(k as int, position, kv, residual, attn_out, policies, trace);
        let m0 = run_all(before, Memory::fresh());
        assert(s == before + own);
        lemma_run_joins(before, own, Memory::fresh());
        let y = residual_behind(b, k, token, position, kv);
        assert(layer_ready(b, k as int, position, kv, residual, attn_out, policies));
        lemma_next(b, k as int, position, kv, residual, attn_out, policies, trace, y, m0);
    }
}

/// What a token's pass reads back last is the residual behind all layers.
#[verifier::spinoff_prover]
#[verifier::rlimit(20)]
pub proof fn law_full_pass_reading(
    b: &Gemma4Nvfp4Bringup,
    token: u32,
    position: u32,
    kv: &Gemma4Nvfp4KvState,
    residual: u64,
    attn_out: u64,
    policies: (i32, i32),
    trace: bool,
)
    requires
        b.fits(1),
        b.arch.hidden_size > 0,
        position < i32::MAX,
        residual != attn_out,
        residual != kv.positions_ptr && residual != kv.slot_mapping_ptr && residual
            != kv.context_lens_ptr,
        forall|l: int|
            0 <= l < b.arch.num_hidden_layers ==> #[trigger] layer_ready(
                b,
                l,
                position,
                kv,
                residual,
                attn_out,
                policies,
            ),
    ensures
        ({
            let s = b.full_programs(token, position, kv, residual, attn_out, policies, trace);
            let n = b.arch.num_hidden_layers as nat;
            run_all(s, Memory::fresh()).readings.last() == (
                residual_behind(b, n, token, position, kv),
                2 * b.arch.hidden_size,
            )
        }),
{
    let n = b.arch.num_hidden_layers as nat;
    law_full_pass_flow(b, n, token, position, kv, residual, attn_out, policies, trace);
    let v = b.full_layers(n, token, position, kv, residual, attn_out, policies, trace);
    let s = b.full_programs(token, position, kv, residual, attn_out, policies, trace);
    let m = run_all(v, Memory::fresh());
    let last = b.last_residual(residual, "forward_full_to_token: residual DtoH");
    assert(s.drop_last() =~= v);
    let f = leaves(last.steps, m);
    assert(f.readings == m.readings.push((m.get(Buf::At(residual)), 2 * b.arch.hidden_size))) by {
        reveal(leaves);
        reveal_with_fuel(after_steps, 3);
    }
}

/// Reading the residual leaves memory as it is.
proof fn lemma_trace(b: &Gemma4Nvfp4Bringup, rest: Seq<ProgramView>, residual: u64, m: Memory)
    requires
        rest.len() == 0 || rest =~= seq![b.trace_program(residual)],
        forall|r: usize, o: u64| !#[trigger] m.at.contains_key(Buf::In { region: r, offset: o }),
    ensures
        ({
            let r = run_all(rest, m);
            &&& r.writes == m.writes
            &&& forall|p: u64| #[trigger] r.get(Buf::At(p)) == m.get(Buf::At(p))
            &&& forall|i: usize, o: u64| !#[trigger] r.at.contains_key(
                Buf::In { region: i, offset: o },
            )
        }),
{
    if rest.len() > 0 {
        let t = b.trace_program(residual);
        let f = leaves(t.steps, m);
        assert(f.at == m.at && f.writes == m.writes) by {
            reveal(leaves);
            reveal_with_fuel(after_steps, 3);
        }
        lemma_between(f);
        assert(rest.drop_last() =~= Seq::<ProgramView>::empty());
        assert(run_all(rest.drop_last(), m) == m);
        assert forall|p: u64| #[trigger] run_all(rest, m).get(Buf::At(p)) == m.get(Buf::At(p)) by {
            assert(between(f).get(Buf::At(p)) == f.get(Buf::At(p)));
        }
    }
}

/// A prompt's pass: token `t` goes to row `t` of the residual, every layer
/// runs once and in order on all rows, and the row of the last token is read
/// back.
#[verifier::spinoff_prover]
#[verifier::rlimit(40)]
pub proof fn law_prompt_pass_stages(
    b: &Gemma4Nvfp4Bringup,
    prompt: Seq<u32>,
    position: u32,
    kv: &Gemma4Nvfp4KvState,
    residual: u64,
    attn_out: u64,
    policies: (i32, i32),
    block_m: u32,
    t: int,
    l: int,
    m: Memory,
)
    requires
        b.fits(prompt.len()),
        1 <= prompt.len() <= u32::MAX,
        0 <= t < prompt.len(),
        0 <= l < b.arch.num_hidden_layers,
        residual + 2 * (prompt.len() * b.arch.hidden_size) <= u64::MAX,
    ensures
        ({
            let s = b.prompt_programs(prompt, position, kv, residual, attn_out, policies, block_m);
            let n = prompt.len() as u32;
            let hidden = b.arch.hidden_size as int;
            let row = Buf::At((residual + t * 2 * hidden) as u64);
            let last = Buf::At((residual + (n - 1) * 2 * hidden) as u64);
            &&& s.len() == n + 3 * b.arch.num_hidden_layers + 1
            &&& leaves(s[t].steps, m).get(row) == embedding(b, prompt[t])
            &&& s[n + 3 * l] == b.batched_attn(
                l,
                n,
                residual,
                position,
                kv,
                attn_out,
                policies,
                block_m,
            )
            &&& s[n + 3 * l + 1] == b.post_attn_batched_dev(l, n, attn_out, residual)
            &&& s[n + 3 * l + 2] == b.post_attn_mlp_batched_dev(l, n, residual)
            &&& leaves(s.last().steps, m).readings == m.readings.push((m.get(last), 2 * hidden))
        }),
{
    let k = b.arch.num_hidden_layers as nat;
    let n = prompt.len() as int;
    let h = b.arch.hidden_size as int;
    let s = b.prompt_programs(prompt, position, kv, residual, attn_out, policies, block_m);
    let v = b.prompt_layers(k, prompt, position, kv, residual, attn_out, policies, block_m);
    law_prompt_pass_order(b, k, prompt, position, kv, residual, attn_out, policies, block_m);
    assert(h <= 0x7fff_ffff && 4 * h <= usize::MAX) by (nonlinear_arith)
        requires
            n >= 1,
            h >= 0,
            n * h <= 0x7fff_ffff,
            4 * n * h <= usize::MAX,
    ;
    lemma_fits_one(b, prompt.len());
    assert(v[t] == v.take(n)[t]);
    assert(t * (2 * h) == t * 2 * h && (n - 1) * (2 * h) == (n - 1) * 2 * h && 0 <= t * 2 * h
        && t * 2 * h <= 2 * (n * h) && 0 <= (n - 1) * 2 * h && (n - 1) * 2 * h <= 2 * (n * h))
        by (nonlinear_arith)
        requires
            0 <= t < n,
            h >= 0,
    ;
    law_embedding_flow(b, prompt[t], (residual + t * 2 * h) as u64, m);
    let own = v.subrange(n + 3 * l, n + 3 * l + 3);
    assert(own == b.prompt_layer(
        l,
        n as u32,
        position,
        kv,
        residual,
        attn_out,
        policies,
        block_m,
    ));
    assert(own[0] == v[n + 3 * l] && own[1] == v[n + 3 * l + 1] && own[2] == v[n + 3 * l + 2]);
    let last = s.last();
    reveal(leaves);
    reveal_with_fuel(after_steps, 3);
}

/// A drafter's step: the first projection, then for each layer in order its
/// queries at the step's position, its attention, its output projection and
/// its MLP, and then the head.
pub proof fn law_drafter_step_stages(
    b: &Gemma4Nvfp4Bringup,
    d: &Gemma4DrafterRuntime,
    w: &DrafterStepWorkspace,
    position: u32,
    kv: &Gemma4Nvfp4KvState,
    l: int,
)
    requires
        0 <= l < d.arch.num_hidden_layers,
    ensures
        ({
            let s = b.drafter_programs(d, w, position, kv);
            let n = d.arch.num_hidden_layers as int;
            &&& s.len() == 4 * n + 2
            &&& s[0] == b.drafter_pre_projection(d, w)
            &&& s[1 + 4 * l] == b.drafter_q_side(d, w, l, position)
            &&& s[2 + 4 * l] == b.drafter_cross_attn(d, w, l, kv)
            &&& s[3 + 4 * l] == b.drafter_attn_finisher(d, w, l)
            &&& s[4 + 4 * l] == b.drafter_mlp_finisher(d, w, l)
            &&& s.last() == b.drafter_final(d, w)
        }),
{
    let n = d.arch.num_hidden_layers as nat;
    law_drafter_pass_order(b, d, w, n, position, kv);
    let v = b.drafter_layers(d, w, n, position, kv);
    let own = v.subrange(1 + 4 * l, 5 + 4 * l);
    assert(own == b.drafter_layer(d, w, l, position, kv));
    assert(own[0] == v[1 + 4 * l] && own[1] == v[2 + 4 * l] && own[2] == v[3 + 4 * l] && own[3]
        == v[4 + 4 * l]);
}

} // verus!
