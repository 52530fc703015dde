//! What the rest of a layer, the embedding and the head compute.

use crate::loader::gemma4_nvfp4_weights::{Gemma4Nvfp4LayerLoaded, Gemma4Nvfp4LinearLoaded};
use crate::runtime::dataflow::{
    after_steps, copied, embedded, gated, largest, law_leaves_joins, leaves, lemma_leaves_none,
    linear, narrowed, norm, part, product, scaled, sum, Memory, Val,
};
use crate::runtime::gemma4_nvfp4_bring_up::launches::scaled_add_spec;
use crate::runtime::gemma4_nvfp4_bring_up::model::Gemma4Nvfp4Bringup;
use crate::runtime::gemma4_nvfp4_bring_up::post_attn::{
    mlp_dev, mlp_host, mlp_rows, post_attn_dev_steps, post_attn_host_steps, rms_bf16, MlpDevNames,
    MlpNames, PostAttnNames,
};
use crate::runtime::gemma4_nvfp4_ops::{mlp_batched_spec, mlp_spec};
use crate::runtime::step::{Buf, Format16, ProgramView, Step};
use vstd::prelude::*;

verus! {

/// The residual of `n` tokens behind the attention: the attention's output
/// times the output projection, normalized and added.
pub open spec fn behind_attention(
    layer: Gemma4Nvfp4LayerLoaded,
    hidden: int,
    eps_bits: u32,
    n: int,
    attn: Val,
    residual: Val,
) -> Val {
    sum(
        residual,
        norm(
            narrowed(
                product(
                    attn,
                    layer.o_proj.offset_bytes,
                    n,
                    hidden,
                    layer.o_proj.shape@[1] as int,
                    Format16::Bf16,
                ),
                n * hidden,
            ),
            layer.post_attention_layernorm.offset_bytes,
            n,
            hidden,
            eps_bits,
            Format16::Bf16,
        ),
        n * hidden,
    )
}

/// A row times the matrix of an NVFP4 linear.
pub open spec fn by_linear(of: Val, w: Gemma4Nvfp4LinearLoaded, m: int) -> Val {
    linear(
        of,
        w.packed_ptr,
        w.sfb_natural_ptr,
        w.global_scale_ptr,
        m,
        w.shape.n as i32 as int,
        w.shape.k as i32 as int,
    )
}

/// The MLP of one row: `down(gelu(gate(x)) * up(x))`.
pub open spec fn mlp(layer: Gemma4Nvfp4LayerLoaded, x: Val) -> Val {
    by_linear(
        gated(
            by_linear(x, layer.gate_proj, 1),
            by_linear(x, layer.up_proj, 1),
            layer.gate_proj.shape.n as int,
        ),
        layer.down_proj,
        1,
    )
}

/// A residual as the MLP sees it.
pub open spec fn mlp_input(
    layer: Gemma4Nvfp4LayerLoaded,
    hidden: int,
    eps_bits: u32,
    n: int,
    residual: Val,
) -> Val {
    norm(
        residual,
        layer.pre_feedforward_layernorm.offset_bytes,
        n,
        hidden,
        eps_bits,
        Format16::Bf16,
    )
}

/// The residual of `n` tokens behind the MLP: its output, normalized, times
/// the layer's scalar and added.
pub open spec fn behind_mlp(
    layer: Gemma4Nvfp4LayerLoaded,
    hidden: int,
    eps_bits: u32,
    n: int,
    output: Val,
    residual: Val,
    scalar: Val,
) -> Val {
    sum(
        residual,
        scaled(
            norm(
                output,
                layer.post_feedforward_layernorm.offset_bytes,
                n,
                hidden,
                eps_bits,
                Format16::Bf16,
            ),
            scalar,
            n * hidden,
        ),
        n * hidden,
    )
}

/// Whether nothing but one buffer of the caller's was written.
pub open spec fn only_changes(residual: u64, before: Memory, after: Memory) -> bool {
    &&& after.writes == before.writes
    &&& after.readings == before.readings
    &&& forall|p: u64|
        p != residual ==> #[trigger] after.get(Buf::At(p)) == before.get(Buf::At(p))
}

#[verifier::spinoff_prover]
#[verifier::rlimit(40)]
proof fn lemma_post_dev(
    single: &'static str,
    bf16: &'static str,
    layer: &Gemma4Nvfp4LayerLoaded,
    hidden: u32,
    eps_bits: u32,
    n: u32,
    attn_out: u64,
    residual: u64,
    m: Memory,
)
    requires
        0 < n * hidden <= 0x7fff_ffff,
        n <= 0x7fff_ffff,
        hidden <= 0x7fff_ffff,
        layer.o_proj.shape@[1] <= 0x7fff_ffff,
    ensures
        ({
            let r = leaves(
                post_attn_dev_steps(single, bf16, layer, hidden, eps_bits, n, attn_out, residual),
                m,
            );
            &&& r.get(Buf::At(residual)) == behind_attention(
                *layer,
                hidden as int,
                eps_bits,
                n as int,
                m.get(Buf::At(attn_out)),
                m.get(Buf::At(residual)),
            )
            &&& only_changes(residual, m, r)
        }),
{
    let s = post_attn_dev_steps(single, bf16, layer, hidden, eps_bits, n, attn_out, residual);
    assert(s.len() == 6);
    reveal(leaves);
    reveal_with_fuel(after_steps, 7);
}

/// The output projection of a chunk of tokens on the device adds to their
/// residuals the normalized product of the attention's output and the layer's
/// output projection; that of one token does the same.
pub proof fn law_post_attention_flow(
    b: &Gemma4Nvfp4Bringup,
    l: int,
    n: u32,
    attn_out: u64,
    residual: u64,
    m: Memory,
)
    requires
        b.fits(n as nat),
        n >= 1,
        b.arch.hidden_size > 0,
        0 <= l < b.arch.num_hidden_layers,
    ensures
        ({
            let x = m.get(Buf::At(residual));
            let o = m.get(Buf::At(attn_out));
            let hidden = b.arch.hidden_size as int;
            let eps = b.arch.rms_norm_eps_bits;
            let many = b.post_attn_batched_dev(l, n, attn_out, residual);
            let one = b.post_attn_dev(l, attn_out, residual);
            &&& many.failure is None
            &&& leaves(many.steps, m).get(Buf::At(residual)) == behind_attention(
                b.model.layers@[l],
                hidden,
                eps,
                n as int,
                o,
                x,
            )
            &&& one.failure is None
            &&& leaves(one.steps, m).get(Buf::At(residual)) == behind_attention(
                b.model.layers@[l],
                hidden,
                eps,
                1,
                o,
                x,
            )
            &&& only_changes(residual, m, leaves(many.steps, m))
            &&& only_changes(residual, m, leaves(one.steps, m))
        }),
{
    lemma_sizes(b, l, n as nat);
    let layer = &b.model.layers@[l];
    let hidden = b.arch.hidden_size as u32;
    let eps = b.arch.rms_norm_eps_bits;
    lemma_post_dev(
        "g4n_batch_o_f32",
        "g4n_batch_o_bf16",
        layer,
        hidden,
        eps,
        n,
        attn_out,
        residual,
        m,
    );
    lemma_post_dev(
        "g4n_dev_post_attn_o_f32",
        "g4n_dev_post_attn_o_bf16",
        layer,
        hidden,
        eps,
        1,
        attn_out,
        residual,
        m,
    );
}

proof fn lemma_sizes(b: &Gemma4Nvfp4Bringup, l: int, n: nat)
    requires
        b.fits(n),
        n >= 1,
        b.arch.hidden_size > 0,
        0 <= l < b.arch.num_hidden_layers,
    ensures
        b.arch.hidden_size <= 0x7fff_ffff,
        n <= 0x7fff_ffff,
        0 < n * b.arch.hidden_size <= 0x7fff_ffff,
        4 * (n * b.arch.hidden_size) <= usize::MAX,
        4 * b.arch.hidden_size <= usize::MAX,
        b.layer_fits(l, n),
{
    let h = b.arch.hidden_size as nat;
    assert(h <= n * h && n <= n * h && 0 < n * h && 4 * n * h == 4 * (n * h)) by (nonlinear_arith)
        requires
            n >= 1,
            h > 0,
    ;
    assert(b.layer_fits(l, n));
}

#[verifier::spinoff_prover]
#[verifier::rlimit(40)]
proof fn lemma_post_host(
    names: PostAttnNames,
    label: Option<&'static str>,
    layer: &Gemma4Nvfp4LayerLoaded,
    hidden: u32,
    eps_bits: u32,
    m: Memory,
)
    requires
        0 < hidden <= 0x7fff_ffff,
        4 * hidden <= usize::MAX,
        layer.o_proj.shape@[1] <= 0x7fff_ffff,
        2 * layer.o_proj.shape@[1] <= usize::MAX,
        label is None || m.readings.len() == 0,
    ensures
        ({
            let r = leaves(post_attn_host_steps(names, label, layer, hidden, eps_bits), m);
            r.readings.last() == (
                behind_attention(
                    *layer,
                    hidden as int,
                    eps_bits,
                    1,
                    Val::Input { index: 0, bytes: 2 * layer.o_proj.shape@[1] },
                    Val::Input { index: 1, bytes: 2 * hidden },
                ),
                2 * hidden,
            ) && r.readings.len() == m.readings.len() + if label is None {
                1int
            } else {
                2
            }
        }),
{
    let s = post_attn_host_steps(names, label, layer, hidden, eps_bits);
    reveal(leaves);
    if label is None {
        assert(s.len() == 13);
        reveal_with_fuel(after_steps, 14);
    } else {
        assert(s.len() == 15);
        reveal_with_fuel(after_steps, 16);
    }
}

/// The output projection of one token whose values the host holds gives the
/// host the same, of the attention's output and the residual in that order;
/// so does that of the first layer.
pub proof fn law_host_post_attention_flow(b: &Gemma4Nvfp4Bringup, l: usize, attn_len: usize)
    requires
        b.fits(1),
        b.arch.hidden_size > 0,
        l < b.arch.num_hidden_layers,
        attn_len == b.model.layers@[l as int].o_proj.shape@[1],
    ensures
        ({
            let p = b.host_post_attn(l, attn_len, b.arch.hidden_size);
            let r = leaves(p.steps, Memory::fresh());
            &&& p.failure is None
            &&& r.readings =~= seq![
                (
                    behind_attention(
                        b.model.layers@[l as int],
                        b.arch.hidden_size as int,
                        b.arch.rms_norm_eps_bits,
                        1,
                        Val::Input { index: 0, bytes: 2 * attn_len },
                        Val::Input { index: 1, bytes: 2 * b.arch.hidden_size },
                    ),
                    2 * b.arch.hidden_size,
                ),
            ]
        }),
        l == 0 ==> {
            let p = b.first_post_attn(attn_len, b.arch.hidden_size);
            let r = leaves(p.steps, Memory::fresh());
            &&& p.failure is None
            &&& r.readings.len() == 2
            &&& r.readings[1] == (
                behind_attention(
                    b.model.layers@[0],
                    b.arch.hidden_size as int,
                    b.arch.rms_norm_eps_bits,
                    1,
                    Val::Input { index: 0, bytes: 2 * attn_len },
                    Val::Input { index: 1, bytes: 2 * b.arch.hidden_size },
                ),
                2 * b.arch.hidden_size,
            )
        },
{
    lemma_sizes(b, l as int, 1);
    let layer = &b.model.layers@[l as int];
    let hidden = b.arch.hidden_size as u32;
    lemma_post_host(
        PostAttnNames {
            input: "g4n_lN_post_attn_in",
            resid: "g4n_lN_post_attn_resid",
            single: "g4n_lN_post_attn_o_f32",
            bf16: "g4n_lN_post_attn_o_bf16",
            read_out: "forward_layer_post_attn: residual DtoH",
        },
        None,
        layer,
        hidden,
        b.arch.rms_norm_eps_bits,
        Memory::fresh(),
    );
    lemma_post_host(
        PostAttnNames {
            input: "gemma4_nvfp4_post_attn_in",
            resid: "gemma4_nvfp4_post_attn_resid",
            single: "gemma4_nvfp4_post_attn_o_f32",
            bf16: "gemma4_nvfp4_post_attn_o_bf16",
            read_out: "post_attn: h_residual DtoH",
        },
        Some("post_attn: o f32 DtoH"),
        layer,
        hidden,
        b.arch.rms_norm_eps_bits,
        Memory::fresh(),
    );
}

/// The MLP of one row, of what its input holds; the scratch is region
/// `scratch`.
#[verifier::spinoff_prover]
#[verifier::rlimit(40)]
proof fn lemma_mlp(
    layer: &Gemma4Nvfp4LayerLoaded,
    act: Buf,
    out: Buf,
    scratch: usize,
    m: Memory,
)
    requires
        0 < layer.gate_proj.shape.n <= 0x3fff_ffff,
        layer.gate_proj.shape == layer.up_proj.shape,
        layer.down_proj.shape.n <= 0x7fff_ffff,
    ensures
        ({
            let p = mlp_spec(
                act,
                out,
                &layer.gate_proj,
                &layer.up_proj,
                &layer.down_proj,
                Buf::start(scratch),
            );
            let r = leaves(p.steps, m);
            &&& p.failure is None
            &&& r.get(out) == mlp(*layer, m.get(act))
            &&& r.readings == m.readings
            &&& r.writes == m.writes
            &&& r.at.dom() =~= m.at.dom().insert(out).insert(Buf::start(scratch)).insert(
                Buf::In { region: scratch, offset: (2 * layer.gate_proj.shape.n) as u64 },
            )
            &&& forall|q: Buf|
                q != out && !(q matches Buf::In { region, .. } && region == scratch)
                    && m.at.contains_key(q) ==> #[trigger] r.at[q] == m.at[q]
        }),
{
    reveal(leaves);
    reveal_with_fuel(after_steps, 4);
}

/// A layer whose MLP can run.
pub open spec fn mlp_runs(layer: Gemma4Nvfp4LayerLoaded) -> bool {
    &&& 0 < layer.gate_proj.shape.n <= 0x3fff_ffff
    &&& layer.gate_proj.shape == layer.up_proj.shape
    &&& layer.down_proj.shape.n <= 0x7fff_ffff
}

/// One row of some rows.
pub open spec fn row_of(x: Val, t: int, bytes: int) -> Val {
    if t == 0 {
        x
    } else {
        part(x, t * bytes)
    }
}

/// The place of row `t` in a region.
pub open spec fn row_at(region: usize, t: int, bytes: int) -> Buf {
    Buf::In { region, offset: (t * bytes) as u64 }
}

#[verifier::spinoff_prover]
#[verifier::rlimit(60)]
proof fn lemma_mlp_rows(layer: &Gemma4Nvfp4LayerLoaded, hidden: u32, n: nat, x: Val, m: Memory)
    requires
        mlp_runs(*layer),
        hidden > 0,
        n * hidden <= 0x7fff_ffff,
        m.at.contains_key(Buf::start(0)),
        m.at[Buf::start(0)] == x,
        forall|off: u64| off > 0 ==> !#[trigger] m.at.contains_key(Buf::In { region: 0, offset: off }),
    ensures
        ({
            let p = mlp_rows(layer, hidden, n);
            let r = leaves(p.steps, m);
            &&& p.failure is None
            &&& r.readings == m.readings
            &&& r.writes == m.writes
            &&& r.at.contains_key(Buf::start(0)) && r.at[Buf::start(0)] == x
            &&& forall|off: u64|
                off > 0 ==> !#[trigger] r.at.contains_key(Buf::In { region: 0, offset: off })
            &&& forall|t: int|
                0 <= t < n ==> #[trigger] r.get(row_at(2, t, 2 * hidden)) == mlp(
                    *layer,
                    row_of(x, t, 2 * hidden),
                ) && r.at.contains_key(row_at(2, t, 2 * hidden))
            &&& forall|a: u64| #[trigger] r.get(Buf::At(a)) == m.get(Buf::At(a))
        }),
    decreases n,
{
    let p = mlp_rows(layer, hidden, n);
    if n == 0 {
        lemma_leaves_none(p.steps, m);
    } else {
        let k = (n - 1) as nat;
        assert(k * hidden <= n * hidden && k * (2 * hidden) == 2 * (k * hidden))
            by (nonlinear_arith)
            requires
                k <= n,
        ;
        lemma_mlp_rows(layer, hidden, k, x, m);
        let a = mlp_rows(layer, hidden, k);
        let r = leaves(a.steps, m);
        let off = (k * (2 * hidden)) as u64;
        let act = Buf::start(0).plus(off);
        let out = Buf::start(2).plus(off);
        let c = mlp_spec(
            act,
            out,
            &layer.gate_proj,
            &layer.up_proj,
            &layer.down_proj,
            Buf::start(1),
        );
        law_leaves_joins(a.steps, c.steps, m);
        lemma_mlp(layer, act, out, 1, r);
        assert(p.steps == a.steps + c.steps);
        let z = leaves(c.steps, r);
        if k > 0 {
            assert(k * (2 * hidden) > 0) by (nonlinear_arith)
                requires
                    k > 0,
                    hidden > 0,
            ;
        }
        assert(r.get(act) == row_of(x, k as int, 2 * hidden));
        assert forall|t: int| 0 <= t < n implies #[trigger] z.get(row_at(2, t, 2 * hidden)) == mlp(
            *layer,
            row_of(x, t, 2 * hidden),
        ) && z.at.contains_key(row_at(2, t, 2 * hidden)) by {
            assert(t * (2 * hidden) <= k * (2 * hidden) && 0 <= t * (2 * hidden))
                by (nonlinear_arith)
                requires
                    0 <= t <= k,
            ;
            if t < k {
                assert(t * (2 * hidden) < k * (2 * hidden)) by (nonlinear_arith)
                    requires
                        t < k,
                        hidden > 0,
                ;
                assert(r.get(row_at(2, t, 2 * hidden)) == mlp(
                    *layer,
                    row_of(x, t, 2 * hidden),
                ));
                assert(row_at(2, t, 2 * hidden) != out);
                assert(z.at[row_at(2, t, 2 * hidden)] == r.at[row_at(2, t, 2 * hidden)]);
            } else {
                assert(row_at(2, t, 2 * hidden) == out);
            }
        }
        assert forall|q: u64| #[trigger] z.get(Buf::At(q)) == r.get(Buf::At(q)) by {
            if r.at.contains_key(Buf::At(q)) {
                assert(z.at[Buf::At(q)] == r.at[Buf::At(q)]);
            }
        }
        assert(z.at[Buf::start(0)] == r.at[Buf::start(0)]);
    }
}

/// The MLP block of a chunk of tokens on the device: when all rows are done,
/// row `t` of the output is the MLP of row `t` of the normalized residual; the
/// steps after that add the normalized output, times the layer's scalar, to
/// the residual.
#[verifier::spinoff_prover]
#[verifier::rlimit(60)]
proof fn lemma_mlp_dev(
    names: MlpDevNames,
    layer: &Gemma4Nvfp4LayerLoaded,
    hidden: u32,
    intermediate: u32,
    eps_bits: u32,
    n: u32,
    residual: u64,
    m: Memory,
)
    requires
        mlp_runs(*layer),
        n >= 1,
        n <= 0x7fff_ffff,
        0 < hidden <= 0x7fff_ffff,
        0 < n * hidden <= 0x7fff_ffff,
        4 * (n * hidden) <= usize::MAX,
        forall|off: u64| off > 0 ==> !#[trigger] m.at.contains_key(Buf::In { region: 0, offset: off }),
    ensures
        mlp_flows(
            *layer,
            hidden as int,
            eps_bits,
            n as int,
            residual,
            mlp_dev(names, layer, hidden, intermediate, eps_bits, n, residual),
            m,
        ),
{
    let p = mlp_dev(names, layer, hidden, intermediate, eps_bits, n, residual);
    let rows = mlp_rows(layer, hidden, n as nat);
    let head = p.steps.take(5);
    let x = mlp_input(
        *layer,
        hidden as int,
        eps_bits,
        n as int,
        copied(m.get(Buf::At(residual)), 2 * (n * hidden)),
    );
    let m1 = leaves(head, m);
    assert(m1 == m.put(Buf::start(0), copied(m.get(Buf::At(residual)), 2 * (n * hidden))).put(
        Buf::start(0),
        x,
    )) by {
        reveal(leaves);
        reveal_with_fuel(after_steps, 6);
    }
    lemma_mlp_rows(layer, hidden, n as nat, x, m1);
    let k = p.steps.len() - 2;
    let tail = p.steps.subrange(k, k + 2);
    assert(p.steps.len() == 5 + rows.steps.len() + 2);
    assert(p.steps.take(k) =~= head + rows.steps);
    assert(p.steps =~= p.steps.take(k) + tail);
    law_leaves_joins(head, rows.steps, m);
    law_leaves_joins(p.steps.take(k), tail, m);
    let m2 = leaves(p.steps.take(k), m);
    assert(tail[0] == rms_bf16(
        n,
        hidden,
        eps_bits,
        Buf::start(2),
        layer.post_feedforward_layernorm.offset_bytes,
    ));
    assert(tail[1] == scaled_add_spec(
        Buf::At(residual),
        Buf::start(2),
        layer.layer_scalar.offset_bytes,
        (n * hidden) as u32,
    )[0]);
    assert(leaves(tail, m2).get(Buf::At(residual)) == behind_mlp(
        *layer,
        hidden as int,
        eps_bits,
        n as int,
        m2.get(Buf::start(2)),
        m2.get(Buf::At(residual)),
        m2.get(Buf::At(layer.layer_scalar.offset_bytes)),
    ) && only_changes(residual, m2, leaves(tail, m2))) by {
        reveal(leaves);
        reveal_with_fuel(after_steps, 3);
    }
    if n == 1 {
        assert(row_at(2, 0, 2 * hidden) == Buf::start(2));
    }
}

/// Whether a program is the MLP block of `n` tokens: before its last two
/// steps each row of region 2 is the MLP of that row of the normalized
/// residual, and they add the normalized rows, times the layer's scalar, to
/// the residual.
pub open spec fn mlp_flows(
    layer: Gemma4Nvfp4LayerLoaded,
    hidden: int,
    eps_bits: u32,
    n: int,
    residual: u64,
    p: ProgramView,
    m: Memory,
) -> bool {
    let x = mlp_input(
        layer,
        hidden,
        eps_bits,
        n,
        copied(m.get(Buf::At(residual)), 2 * (n * hidden)),
    );
    let done = leaves(p.steps.take(p.steps.len() - 2), m);
    let r = leaves(p.steps, m);
    &&& p.failure is None
    &&& only_changes(residual, m, r)
    &&& forall|t: int|
        0 <= t < n ==> #[trigger] done.get(row_at(2, t, 2 * hidden)) == mlp(
            layer,
            row_of(x, t, 2 * hidden),
        )
    &&& r.get(Buf::At(residual)) == behind_mlp(
        layer,
        hidden,
        eps_bits,
        n,
        done.get(Buf::start(2)),
        m.get(Buf::At(residual)),
        m.get(Buf::At(layer.layer_scalar.offset_bytes)),
    )
    &&& n == 1 ==> r.get(Buf::At(residual)) == behind_mlp(
        layer,
        hidden,
        eps_bits,
        1,
        mlp(layer, x),
        m.get(Buf::At(residual)),
        m.get(Buf::At(layer.layer_scalar.offset_bytes)),
    )
}

/// The MLP block on the device, of one token and of a chunk.
pub proof fn law_mlp_flow(b: &Gemma4Nvfp4Bringup, l: int, n: u32, residual: u64, m: Memory)
    requires
        b.fits(n as nat),
        n >= 1,
        b.arch.hidden_size > 0,
        0 <= l < b.arch.num_hidden_layers,
        mlp_runs(b.model.layers@[l]),
        forall|off: u64| off > 0 ==> !#[trigger] m.at.contains_key(Buf::In { region: 0, offset: off }),
    ensures
        mlp_flows(
            b.model.layers@[l],
            b.arch.hidden_size as int,
            b.arch.rms_norm_eps_bits,
            n as int,
            residual,
            b.post_attn_mlp_batched_dev(l, n, residual),
            m,
        ),
        mlp_flows(
            b.model.layers@[l],
            b.arch.hidden_size as int,
            b.arch.rms_norm_eps_bits,
            1,
            residual,
            b.post_attn_mlp_dev(l, residual),
            m,
        ),
{
    lemma_sizes(b, l, n as nat);
    let layer = &b.model.layers@[l];
    let hidden = b.arch.hidden_size as u32;
    let inter = b.arch.intermediate_size as u32;
    let eps = b.arch.rms_norm_eps_bits;
    lemma_mlp_dev(
        MlpDevNames {
            normed: "g4n_dev_pamlp_normed",
            scratch: "g4n_dev_pamlp_scratch",
            out: "g4n_dev_pamlp_out",
            copy: "forward_layer_post_attn_mlp_dev: residual DtoD",
        },
        layer,
        hidden,
        inter,
        eps,
        1,
        residual,
        m,
    );
    lemma_mlp_dev(
        MlpDevNames {
            normed: "g4n_batch_pamlp_normed",
            scratch: "g4n_batch_pamlp_scratch",
            out: "g4n_batch_pamlp_out",
            copy: "post_attn_mlp_batched_dev: residual DtoD",
        },
        layer,
        hidden,
        inter,
        eps,
        n,
        residual,
        m,
    );
}

#[verifier::spinoff_prover]
#[verifier::rlimit(60)]
proof fn lemma_mlp_host(
    names: MlpNames,
    layer: &Gemma4Nvfp4LayerLoaded,
    hidden: u32,
    intermediate: u32,
    eps_bits: u32,
)
    requires
        mlp_runs(*layer),
        0 < hidden <= 0x7fff_ffff,
        4 * hidden <= usize::MAX,
    ensures
        ({
            let p = mlp_host(names, layer, hidden, intermediate, eps_bits);
            let r = leaves(p.steps, Memory::fresh());
            let x = Val::Input { index: 0, bytes: 2 * hidden };
            &&& p.failure is None
            &&& r.readings.len() == 3
            &&& r.readings[2] == (
                behind_mlp(
                    *layer,
                    hidden as int,
                    eps_bits,
                    1,
                    mlp(*layer, mlp_input(*layer, hidden as int, eps_bits, 1, x)),
                    x,
                    Val::Before(Buf::At(layer.layer_scalar.offset_bytes)),
                ),
                2 * hidden,
            )
        }),
{
    let m = Memory::fresh();
    let p = mlp_host(names, layer, hidden, intermediate, eps_bits);
    let body = mlp_spec(
        Buf::start(1),
        Buf::start(3),
        &layer.gate_proj,
        &layer.up_proj,
        &layer.down_proj,
        Buf::start(2),
    );
    let head = p.steps.take(7);
    let tail = p.steps.subrange(10, 18);
    assert(p.steps =~= head + body.steps + tail);
    law_leaves_joins(head + body.steps, tail, m);
    law_leaves_joins(head, body.steps, m);
    let m1 = leaves(head, m);
    let x = Val::Input { index: 0, bytes: 2 * hidden };
    assert(m1.get(Buf::start(0)) == x && m1.get(Buf::start(1)) == mlp_input(
        *layer,
        hidden as int,
        eps_bits,
        1,
        x,
    ) && m1.readings.len() == 0 && m1.at.dom() =~= set![Buf::start(0), Buf::start(1)]) by {
        reveal(leaves);
        reveal_with_fuel(after_steps, 8);
    }
    lemma_mlp(layer, Buf::start(1), Buf::start(3), 2, m1);
    let m2 = leaves(body.steps, m1);
    assert(m2.at[Buf::start(0)] == m1.at[Buf::start(0)]);
    assert(!m2.at.contains_key(Buf::At(layer.layer_scalar.offset_bytes)));
    reveal(leaves);
    reveal_with_fuel(after_steps, 9);
}

/// The MLP block of one token whose residual the host holds gives the host
/// the same; so does that of the first layer.
pub proof fn law_host_mlp_flow(b: &Gemma4Nvfp4Bringup, l: usize)
    requires
        b.fits(1),
        b.arch.hidden_size > 0,
        l < b.arch.num_hidden_layers,
        mlp_runs(b.model.layers@[l as int]),
    ensures
        ({
            let layer = b.model.layers@[l as int];
            let hidden = b.arch.hidden_size as int;
            let eps = b.arch.rms_norm_eps_bits;
            let x = Val::Input { index: 0, bytes: 2 * hidden };
            let y = behind_mlp(
                layer,
                hidden,
                eps,
                1,
                mlp(layer, mlp_input(layer, hidden, eps, 1, x)),
                x,
                Val::Before(Buf::At(layer.layer_scalar.offset_bytes)),
            );
            let p = b.host_mlp(l, b.arch.hidden_size);
            let q = b.first_mlp(b.arch.hidden_size);
            &&& p.failure is None
            &&& leaves(p.steps, Memory::fresh()).readings.len() == 3
            &&& leaves(p.steps, Memory::fresh()).readings[2] == (y, 2 * hidden)
            &&& l == 0 ==> q.failure is None && leaves(q.steps, Memory::fresh()).readings.len()
                == 3 && leaves(q.steps, Memory::fresh()).readings[2] == (y, 2 * hidden)
        }),
{
    lemma_sizes(b, l as int, 1);
    let layer = &b.model.layers@[l as int];
    let hidden = b.arch.hidden_size as u32;
    let inter = b.arch.intermediate_size as u32;
    let eps = b.arch.rms_norm_eps_bits;
    lemma_mlp_host(
        MlpNames {
            resid: "g4n_lN_pamlp_resid",
            normed: "g4n_lN_pamlp_normed",
            scratch: "g4n_lN_pamlp_scratch",
            out: "g4n_lN_pamlp_out",
            read_values: "forward_layer_post_attn_mlp: mlp_normed DtoH",
            read_scalar: "forward_layer_post_attn_mlp: layer_scalar DtoH",
            read_out: "forward_layer_post_attn_mlp: residual DtoH",
        },
        layer,
        hidden,
        inter,
        eps,
    );
    lemma_mlp_host(
        MlpNames {
            resid: "gemma4_nvfp4_post_attn_mlp_resid",
            normed: "gemma4_nvfp4_post_attn_mlp_normed",
            scratch: "gemma4_nvfp4_post_attn_mlp_scratch",
            out: "gemma4_nvfp4_post_attn_mlp_out",
            read_values: "post_attn_mlp: mlp_normed DtoH",
            read_scalar: "post_attn_mlp: layer_scalar DtoH",
            read_out: "post_attn_mlp: h_out DtoH",
        },
        layer,
        hidden,
        inter,
        eps,
    );
}

/// The MLP block on `m` rows at once: `down(gelu(gate(x)) * up(x))` of all of
/// them.
#[verifier::spinoff_prover]
#[verifier::rlimit(40)]
pub proof fn law_batched_mlp_flow(
    act: Buf,
    out: Buf,
    gate: &Gemma4Nvfp4LinearLoaded,
    up: &Gemma4Nvfp4LinearLoaded,
    down: &Gemma4Nvfp4LinearLoaded,
    scratch: usize,
    rows: u32,
    m: Memory,
)
    requires
        gate.shape == up.shape,
        0 < rows <= 0x7fff_ffff,
        0 < rows * gate.shape.n <= 0x7fff_ffff,
        gate.shape.n <= 0x7fff_ffff,
        down.shape.n <= 0x7fff_ffff,
        !(act matches Buf::In { region, .. } && region == scratch),
    ensures
        ({
            let p = mlp_batched_spec(act, out, gate, up, down, Buf::start(scratch), rows);
            let x = m.get(act);
            &&& p.failure is None
            &&& leaves(p.steps, m).get(out) == by_linear(
                gated(
                    by_linear(x, *gate, rows as int),
                    by_linear(x, *up, rows as int),
                    rows * gate.shape.n,
                ),
                *down,
                rows as int,
            )
        }),
{
    reveal(leaves);
    reveal_with_fuel(after_steps, 5);
}

/// The row of a token in the embedding.
pub open spec fn embedding(b: &Gemma4Nvfp4Bringup, token: u32) -> Val {
    embedded(
        b.model.outside.embed_tokens.offset_bytes,
        Val::Int(token as i32 as int),
        1,
        b.arch.hidden_size as int,
        b.arch.vocab_size as int,
    )
}

/// The embedding of a token: its row, on the device where the caller wants
/// it, or read back.
pub proof fn law_embedding_flow(b: &Gemma4Nvfp4Bringup, token: u32, dst: u64, m: Memory)
    requires
        b.fits(1),
    ensures
        leaves(b.embed_steps("g4n_embed_tok", token, 0, Buf::At(dst)), m).get(Buf::At(dst))
            == embedding(b, token),
        b.embed_one(token).failure is None,
        leaves(b.embed_one(token).steps, m).readings == m.readings.push(
            (embedding(b, token), 2 * b.arch.hidden_size),
        ),
        b.zero_residual(token).failure is None,
        leaves(b.zero_residual(token).steps, m).readings == m.readings.push(
            (embedding(b, token), 2 * b.arch.hidden_size),
        ),
{
    reveal(leaves);
    reveal_with_fuel(after_steps, 9);
    assert(b.embed_one(token).steps.len() == 7);
}

/// The logits of a residual.
pub open spec fn logits(b: &Gemma4Nvfp4Bringup, residual: Val) -> Val {
    product(
        last_hidden(b, residual),
        b.tables.lm_head_tokens,
        1,
        b.arch.vocab_size as int,
        b.arch.hidden_size as int,
        Format16::Bf16,
    )
}

/// A residual behind the final norm.
pub open spec fn last_hidden(b: &Gemma4Nvfp4Bringup, residual: Val) -> Val {
    norm(
        residual,
        b.model.outside.final_norm.offset_bytes,
        1,
        b.arch.hidden_size as int,
        b.arch.rms_norm_eps_bits,
        Format16::Bf16,
    )
}

/// The head reads back the place of the largest logit; where there is a
/// buffer for the last hidden state, it gets the residual behind the final
/// norm. The dump reads back that and the logits besides.
#[verifier::spinoff_prover]
#[verifier::rlimit(60)]
pub proof fn law_final_flow(b: &Gemma4Nvfp4Bringup)
    requires
        b.fits(1),
    ensures
        ({
            let x = Val::Input { index: 0, bytes: 2 * b.arch.hidden_size };
            let token = largest(logits(b, x), b.arch.vocab_size as int);
            let p = b.final_to_token(b.arch.hidden_size);
            let q = b.final_to_token_with_dump(b.arch.hidden_size);
            let r = leaves(p.steps, Memory::fresh());
            let d = leaves(q.steps, Memory::fresh());
            &&& p.failure is None && q.failure is None
            &&& r.readings =~= seq![(token, 4int)]
            &&& d.readings =~= seq![
                (last_hidden(b, x), 2 * b.arch.hidden_size),
                (logits(b, x), 4 * b.arch.vocab_size),
                (token, 4int),
            ]
            &&& b.base_last_hidden_ptr != 0 ==> r.get(Buf::At(b.base_last_hidden_ptr))
                == (Val::FromBf16 {
                of: Box::new(last_hidden(b, x)),
                n: b.arch.hidden_size as int,
            }) && d.get(Buf::At(b.base_last_hidden_ptr)) == r.get(Buf::At(b.base_last_hidden_ptr))
        }),
{
    let m = Memory::fresh();
    let p = b.final_to_token(b.arch.hidden_size);
    let q = b.final_to_token_with_dump(b.arch.hidden_size);
    let k = b.snapshot().len() as int + 5;
    let a = b.final_head(
        "gemma4_nvfp4_final_h",
        "gemma4_nvfp4_final_logits",
        "gemma4_nvfp4_final_token",
    );
    let c = b.final_head("g4n_final_dump_h", "g4n_final_dump_logits", "g4n_final_dump_token");
    lemma_final_head(
        b,
        "gemma4_nvfp4_final_h",
        "gemma4_nvfp4_final_logits",
        "gemma4_nvfp4_final_token",
    );
    lemma_final_head(
        b,
        "g4n_final_dump_h",
        "g4n_final_dump_logits",
        "g4n_final_dump_token",
    );
    let s = p.steps.subrange(k, k + 5);
    let t = q.steps.subrange(k, k + 9);
    assert(p.steps =~= a + b.snapshot() + s);
    assert(q.steps =~= c + b.snapshot() + t);
    law_leaves_joins(a + b.snapshot(), s, m);
    law_leaves_joins(c + b.snapshot(), t, m);
    let m1 = leaves(a + b.snapshot(), m);
    let m2 = leaves(c + b.snapshot(), m);
    lemma_final_tails(b, s, t, m1, m2);
}

proof fn lemma_final_head(
    b: &Gemma4Nvfp4Bringup,
    h: &'static str,
    logits: &'static str,
    token: &'static str,
)
    requires
        b.fits(1),
    ensures
        ({
            let x = Val::Input { index: 0, bytes: 2 * b.arch.hidden_size };
            let r = leaves(b.final_head(h, logits, token) + b.snapshot(), Memory::fresh());
            &&& r.get(Buf::start(0)) == last_hidden(b, x)
            &&& r.readings.len() == 0
            &&& b.base_last_hidden_ptr != 0 ==> r.get(Buf::At(b.base_last_hidden_ptr))
                == (Val::FromBf16 {
                of: Box::new(last_hidden(b, x)),
                n: b.arch.hidden_size as int,
            })
        }),
{
    let m = Memory::fresh();
    law_leaves_joins(b.final_head(h, logits, token), b.snapshot(), m);
    reveal(leaves);
    reveal_with_fuel(after_steps, 6);
}

#[verifier::spinoff_prover]
#[verifier::rlimit(40)]
proof fn lemma_final_tails(
    b: &Gemma4Nvfp4Bringup,
    s: Seq<Step>,
    t: Seq<Step>,
    m1: Memory,
    m2: Memory,
)
    requires
        b.fits(1),
        ({
            let k = b.snapshot().len() as int + 5;
            &&& s == b.final_to_token(b.arch.hidden_size).steps.subrange(k, k + 5)
            &&& t == b.final_to_token_with_dump(b.arch.hidden_size).steps.subrange(
                k,
                k + 9,
            )
        }),
        m1.readings.len() == 0,
        m2.readings.len() == 0,
    ensures
        ({
            let h = b.arch.hidden_size as int;
            let v = b.arch.vocab_size as int;
            let x1 = product(
                m1.get(Buf::start(0)),
                b.tables.lm_head_tokens,
                1,
                v,
                h,
                Format16::Bf16,
            );
            let x2 = product(
                m2.get(Buf::start(0)),
                b.tables.lm_head_tokens,
                1,
                v,
                h,
                Format16::Bf16,
            );
            &&& leaves(s, m1).readings =~= seq![(largest(x1, v), 4int)]
            &&& leaves(t, m2).readings =~= seq![
                (m2.get(Buf::start(0)), 2 * h),
                (x2, 4 * v),
                (largest(x2, v), 4int),
            ]
            &&& forall|p: u64| #[trigger] leaves(s, m1).get(Buf::At(p)) == m1.get(Buf::At(p))
            &&& forall|p: u64| #[trigger] leaves(t, m2).get(Buf::At(p)) == m2.get(Buf::At(p))
        }),
{
    let k = b.snapshot().len() as int + 5;
    assert(s.len() == 5 && t.len() == 9);
    reveal(leaves);
    reveal_with_fuel(after_steps, 10);
}

} // verus!
