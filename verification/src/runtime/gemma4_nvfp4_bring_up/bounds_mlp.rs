//! The output projection, the MLP and the head stay within their regions.

use crate::loader::gemma4_nvfp4_weights::Gemma4Nvfp4LayerLoaded;
use crate::runtime::footprint::{
    held_after, in_bounds, law_in_bounds_joins, lemma_none_in_bounds, lends, nothing_held,
    step_in, Held,
};
use crate::runtime::gemma4_nvfp4_bring_up::bounds::lemma_elementwise;
use crate::runtime::gemma4_nvfp4_bring_up::launches::{narrow_spec, scaled_add_spec};
use crate::runtime::gemma4_nvfp4_bring_up::model::Gemma4Nvfp4Bringup;
use crate::runtime::gemma4_nvfp4_bring_up::post_attn::{
    mlp_dev, mlp_host, mlp_rows, post_attn_dev_steps, post_attn_host_steps, rms_bf16,
    MlpDevNames, MlpNames, PostAttnNames,
};
use crate::runtime::gemma4_nvfp4_ops::{gemma4_nvfp4_attn_proj, mlp_spec};
use crate::runtime::step::{Buf, KernelCall, OnFail, Step};
use vstd::prelude::*;

verus! {

/// The output projection of tokens on the device stays within its regions, and
/// within the attention output and the residual where they have room.
pub proof fn law_dev_post_attention_in_bounds(
    single: &'static str,
    bf16: &'static str,
    layer: &Gemma4Nvfp4LayerLoaded,
    hidden: u32,
    eps_bits: u32,
    n: u32,
    attn_out: u64,
    residual: u64,
    lent: Map<u64, nat>,
)
    requires
        layer.o_proj.shape@[1] <= 0x7fff_ffff,
        lends(lent).has(Buf::At(attn_out), 2 * (n * layer.o_proj.shape@[1])),
        lends(lent).has(Buf::At(residual), 2 * (n * hidden)),
        n * hidden <= 0x7fff_ffff,
        4 * (n * hidden) <= usize::MAX,
        n <= 0x7fff_ffff,
        hidden <= 0x7fff_ffff,
    ensures
        in_bounds(
            post_attn_dev_steps(single, bf16, layer, hidden, eps_bits, n, attn_out, residual),
            lends(lent),
        ),
{
    let s = post_attn_dev_steps(single, bf16, layer, hidden, eps_bits, n, attn_out, residual);
    let h = lends(lent);
    let a = s.take(3);
    let e = (n * hidden) as u32;
    assert(n * hidden >= 0) by (nonlinear_arith);
    let b = narrow_spec(Buf::start(1), Buf::start(0), e);
    let c = seq![s[s.len() - 2], s[s.len() - 1]];
    let end = Held {
        regions: seq![(4 * (n * hidden)) as nat, (2 * (n * hidden)) as nat],
        ..lends(lent)
    };
    assert(in_bounds(a, h) && held_after(a, 3, h) == end) by {
        reveal(in_bounds);
        reveal_with_fuel(held_after, 4);
        assert(held_after(a, 2, h) =~= end);
        assert(step_in(a[2], end));
    }
    lemma_elementwise(
        KernelCall::F32ToBf16 { dst: Buf::start(1), src: Buf::start(0), n: e as i32 },
        e,
        end,
    );
    assert(in_bounds(c, end)) by {
        reveal(in_bounds);
        reveal_with_fuel(held_after, 3);
        assert(step_in(c[0], end));
        assert(step_in(c[1], end));
    }
    law_in_bounds_joins(a, b, h);
    law_in_bounds_joins(a + b, c, h);
    assert(s =~= a + b + c);
}

/// The output projection of a token whose residual the host holds stays within
/// its regions, whoever narrows it.
pub proof fn law_host_post_attention_in_bounds(
    names: PostAttnNames,
    narrow_label: Option<&'static str>,
    layer: &Gemma4Nvfp4LayerLoaded,
    hidden: u32,
    eps_bits: u32,
)
    requires
        hidden <= 0x7fff_ffff,
        4 * hidden <= usize::MAX,
        layer.o_proj.shape@[1] <= 0x7fff_ffff,
        2 * layer.o_proj.shape@[1] <= usize::MAX,
    ensures
        in_bounds(
            post_attn_host_steps(names, narrow_label, layer, hidden, eps_bits),
            nothing_held(),
        ),
{
    let s = post_attn_host_steps(names, narrow_label, layer, hidden, eps_bits);
    let n_q = layer.o_proj.shape@[1] as i32;
    let h = nothing_held();
    let a = s.take(7);
    let b = s.subrange(7, s.len() - 5);
    let c = s.subrange(s.len() - 5, s.len() as int);
    let mid = Held {
        regions: seq![
            (2 * n_q) as nat,
            (2 * hidden) as nat,
            (4 * hidden) as nat,
            (2 * hidden) as nat,
        ],
        ..nothing_held()
    };
    assert(in_bounds(a, h) && held_after(a, 7, h) == mid) by {
        reveal(in_bounds);
        reveal_with_fuel(held_after, 8);
        assert(held_after(a, 4, h) =~= mid);
        assert(step_in(a[4], mid));
        assert(step_in(a[5], mid));
        assert(a[6] == gemma4_nvfp4_attn_proj(
            Buf::start(0),
            layer.o_proj.offset_bytes,
            Buf::start(2),
            1,
            hidden as i32,
            n_q,
        ));
        assert(mid.has(Buf::start(0), 2 * (1i32 * n_q)));
        assert(mid.has(Buf::start(2), 4 * (1i32 * (hidden as i32))));
        assert(step_in(a[6], mid));
    }
    let late = match narrow_label {
        None => mid,
        Some(_) => Held { readings: seq![(4 * hidden) as nat], ..mid },
    };
    match narrow_label {
        None => {
            lemma_elementwise(
                KernelCall::F32ToBf16 {
                    dst: Buf::start(3),
                    src: Buf::start(2),
                    n: hidden as i32,
                },
                hidden,
                mid,
            );
            assert(b =~= narrow_spec(Buf::start(3), Buf::start(2), hidden));
        },
        Some(label) => {
            assert(b =~= seq![
                Step::Fence,
                Step::Read {
                    src: Buf::start(2),
                    bytes: (4 * hidden) as usize,
                    on_fail: OnFail::Memcpy(label),
                },
                Step::NarrowReading { reading: 0, dst: Buf::start(3) },
            ]);
            assert(in_bounds(b, mid) && held_after(b, 3, mid) == late) by {
                reveal(in_bounds);
                reveal_with_fuel(held_after, 4);
                assert(held_after(b, 2, mid) =~= late);
                assert(step_in(b[1], mid));
                assert(step_in(b[2], late));
            }
        },
    }
    assert(in_bounds(c, late)) by {
        reveal(in_bounds);
        reveal_with_fuel(held_after, 6);
        assert(step_in(c[0], late));
        assert(step_in(c[1], late));
        assert(step_in(c[3], late));
    }
    law_in_bounds_joins(a, b, h);
    law_in_bounds_joins(a + b, c, h);
    assert(s =~= a + b + c);
}

/// The linears of a layer's MLP have the widths of the model.
pub open spec fn mlp_matches(
    layer: &Gemma4Nvfp4LayerLoaded,
    hidden: u32,
    intermediate: u32,
) -> bool {
    &&& layer.gate_proj.shape.n == intermediate
    &&& layer.gate_proj.shape.k == hidden
    &&& layer.down_proj.shape.n == hidden
    &&& layer.down_proj.shape.k == intermediate
}

proof fn lemma_mlp_row(
    layer: &Gemma4Nvfp4LayerLoaded,
    hidden: u32,
    intermediate: u32,
    act: Buf,
    out: Buf,
    scratch: usize,
    h: Held,
)
    requires
        mlp_matches(layer, hidden, intermediate),
        hidden <= 0x7fff_ffff,
        intermediate <= 0x3fff_ffff,
        h.has(act, 2 * hidden),
        h.has(out, 2 * hidden),
        h.has(Buf::start(scratch), 4 * intermediate),
    ensures
        ({
            let s = mlp_spec(
                act,
                out,
                &layer.gate_proj,
                &layer.up_proj,
                &layer.down_proj,
                Buf::start(scratch),
            ).steps;
            in_bounds(s, h) && held_after(s, s.len(), h) == h
        }),
{
    let s = mlp_spec(
        act,
        out,
        &layer.gate_proj,
        &layer.up_proj,
        &layer.down_proj,
        Buf::start(scratch),
    ).steps;
    reveal(in_bounds);
    reveal_with_fuel(held_after, 4);
    if layer.gate_proj.shape == layer.up_proj.shape {
        assert(step_in(s[0], h));
        assert(step_in(s[1], h));
        assert(step_in(s[2], h));
    }
}

/// The MLP of a token whose residual the host holds stays within its regions:
/// what both halves of the scratch hold fits.
pub proof fn law_host_mlp_in_bounds(
    names: MlpNames,
    layer: &Gemma4Nvfp4LayerLoaded,
    hidden: u32,
    intermediate: u32,
    eps_bits: u32,
)
    requires
        mlp_matches(layer, hidden, intermediate),
        hidden <= 0x7fff_ffff,
        4 * hidden <= usize::MAX,
        intermediate <= 0x3fff_ffff,
        4 * intermediate <= usize::MAX,
    ensures
        in_bounds(mlp_host(names, layer, hidden, intermediate, eps_bits).steps, nothing_held()),
{
    let all = mlp_host(names, layer, hidden, intermediate, eps_bits);
    let h = nothing_held();
    let bytes = (2 * hidden) as nat;
    let a = all.steps.take(7);
    let mid = Held {
        regions: seq![bytes, bytes, (4 * intermediate) as nat, bytes],
        ..nothing_held()
    };
    assert(in_bounds(a, h) && held_after(a, 7, h) == mid) by {
        reveal(in_bounds);
        reveal_with_fuel(held_after, 8);
        assert(held_after(a, 4, h) =~= mid);
        assert(step_in(a[4], mid));
        assert(step_in(a[5], mid));
        assert(a[6] == rms_bf16(
            1,
            hidden,
            eps_bits,
            Buf::start(1),
            layer.pre_feedforward_layernorm.offset_bytes,
        ));
        assert(mid.has(Buf::start(1), 2 * (1u32 * hidden)));
        assert(step_in(a[6], mid));
    }
    lemma_mlp_row(layer, hidden, intermediate, Buf::start(1), Buf::start(3), 2, mid);
    let row = mlp_spec(
        Buf::start(1),
        Buf::start(3),
        &layer.gate_proj,
        &layer.up_proj,
        &layer.down_proj,
        Buf::start(2),
    );
    law_in_bounds_joins(a, row.steps, h);
    if row.failure is None {
        let c = all.steps.subrange(10, 18);
        assert(in_bounds(c, mid)) by {
            reveal(in_bounds);
            reveal_with_fuel(held_after, 9);
            let one = Held { readings: seq![bytes], ..mid };
            let two = Held { readings: seq![bytes, 2nat], ..mid };
            assert(held_after(c, 2, mid) =~= one);
            assert(held_after(c, 3, mid) =~= two);
            assert(step_in(c[0], mid));
            assert(step_in(c[1], mid));
            assert(step_in(c[3], two));
            assert(step_in(c[4], two));
            assert(step_in(c[6], two));
        }
        law_in_bounds_joins(a + row.steps, c, h);
        assert(all.steps =~= a + row.steps + c);
    } else {
        assert(all.steps =~= a + row.steps);
    }
}

proof fn lemma_mlp_rows(
    layer: &Gemma4Nvfp4LayerLoaded,
    hidden: u32,
    intermediate: u32,
    n: nat,
    rows: nat,
    h: Held,
)
    requires
        mlp_matches(layer, hidden, intermediate),
        hidden <= 0x7fff_ffff,
        intermediate <= 0x3fff_ffff,
        n <= rows,
        rows * (2 * hidden) <= u64::MAX,
        h.regions.len() == 3,
        h.regions[0] == rows * (2 * hidden),
        h.regions[1] == 4 * intermediate,
        h.regions[2] == rows * (2 * hidden),
    ensures
        in_bounds(mlp_rows(layer, hidden, n).steps, h),
        held_after(
            mlp_rows(layer, hidden, n).steps,
            mlp_rows(layer, hidden, n).steps.len(),
            h,
        ) == h,
    decreases n,
{
    if n == 0 {
        lemma_none_in_bounds(h);
    } else {
        let m = (n - 1) as nat;
        lemma_mlp_rows(layer, hidden, intermediate, m, rows, h);
        let before = mlp_rows(layer, hidden, m);
        let two = (2 * hidden) as int;
        assert(m * two + two <= rows * two && m * two >= 0) by (nonlinear_arith)
            requires
                m + 1 <= rows,
                two >= 0,
        ;
        let off = (m * (2 * hidden)) as u64;
        let act = Buf::start(0).plus(off);
        let out = Buf::start(2).plus(off);
        lemma_mlp_row(layer, hidden, intermediate, act, out, 1, h);
        let row = mlp_spec(
            act,
            out,
            &layer.gate_proj,
            &layer.up_proj,
            &layer.down_proj,
            Buf::start(1),
        );
        if before.failure is None {
            law_in_bounds_joins(before.steps, row.steps, h);
            assert(mlp_rows(layer, hidden, n).steps =~= before.steps + row.steps);
        }
    }
}

/// The MLP of tokens on the device stays within its regions: every row takes
/// its own part of input and output, and both halves of the scratch fit. The
/// residual is not left where it has room.
pub proof fn law_dev_mlp_in_bounds(
    names: MlpDevNames,
    layer: &Gemma4Nvfp4LayerLoaded,
    hidden: u32,
    intermediate: u32,
    eps_bits: u32,
    n: u32,
    residual: u64,
    lent: Map<u64, nat>,
)
    requires
        mlp_matches(layer, hidden, intermediate),
        lends(lent).has(Buf::At(residual), 2 * (n * hidden)),
        hidden <= 0x7fff_ffff,
        n * hidden <= 0x7fff_ffff,
        4 * (n * hidden) <= usize::MAX,
        intermediate <= 0x3fff_ffff,
        4 * intermediate <= usize::MAX,
    ensures
        in_bounds(
            mlp_dev(names, layer, hidden, intermediate, eps_bits, n, residual).steps,
            lends(lent),
        ),
{
    let all = mlp_dev(names, layer, hidden, intermediate, eps_bits, n, residual);
    let h = lends(lent);
    let e = n * hidden;
    assert(e >= 0 && n * (2 * hidden) == 2 * e) by (nonlinear_arith)
        requires
            e == n * hidden,
    ;
    let bytes = (2 * e) as nat;
    let a = all.steps.take(5);
    let mid = Held {
        regions: seq![bytes, (4 * intermediate) as nat, bytes],
        ..lends(lent)
    };
    assert(in_bounds(a, h) && held_after(a, 5, h) == mid) by {
        reveal(in_bounds);
        reveal_with_fuel(held_after, 6);
        assert(held_after(a, 3, h) =~= mid);
        assert(step_in(a[3], mid));
        assert(step_in(a[4], mid));
    }
    lemma_mlp_rows(layer, hidden, intermediate, n as nat, n as nat, mid);
    let rows = mlp_rows(layer, hidden, n as nat);
    law_in_bounds_joins(a, rows.steps, h);
    if rows.failure is None {
        let norm = rms_bf16(
            n,
            hidden,
            eps_bits,
            Buf::start(2),
            layer.post_feedforward_layernorm.offset_bytes,
        );
        let add = scaled_add_spec(
            Buf::At(residual),
            Buf::start(2),
            layer.layer_scalar.offset_bytes,
            e as u32,
        );
        assert(in_bounds(seq![norm], mid) && held_after(seq![norm], 1, mid) == mid) by {
            reveal(in_bounds);
            reveal_with_fuel(held_after, 2);
            assert(step_in(norm, mid));
        }
        lemma_elementwise(
            KernelCall::ScaledAddBf16 {
                dst: Buf::At(residual),
                src: Buf::start(2),
                alpha: layer.layer_scalar.offset_bytes,
                n: e as u32 as i32,
            },
            e as u32,
            mid,
        );
        law_in_bounds_joins(seq![norm], add, mid);
        law_in_bounds_joins(a + rows.steps, seq![norm] + add, h);
        assert(all.steps =~= a + rows.steps + (seq![norm] + add));
    } else {
        assert(all.steps =~= a + rows.steps);
    }
}

impl Gemma4Nvfp4Bringup {
    /// The head stays within its regions, and within the buffer of the last
    /// hidden state where it has room.
    #[verifier::spinoff_prover]
    pub proof fn law_final_in_bounds(&self, residual_len: usize, lent: Map<u64, nat>)
        requires
            self.fits(1),
            self.base_last_hidden_ptr != 0 ==> lends(lent).has(
                Buf::At(self.base_last_hidden_ptr),
                2 * self.arch.hidden_size,
            ),
        ensures
            in_bounds(self.final_to_token(residual_len).steps, lends(lent)),
            in_bounds(self.final_to_token_with_dump(residual_len).steps, lends(lent)),
    {
        let h = lends(lent);
        lemma_none_in_bounds(h);
        let hidden = self.arch.hidden_size as u32;
        let vocab = self.arch.vocab_size as u32;
        if residual_len == hidden as usize {
            let s = self.final_to_token(residual_len).steps;
            let d = self.final_to_token_with_dump(residual_len).steps;
            let mid = Held {
                regions: seq![(2 * hidden) as nat, (4 * vocab) as nat, 4nat],
                ..lends(lent)
            };
            self.lemma_final_head(
                "gemma4_nvfp4_final_h",
                "gemma4_nvfp4_final_logits",
                "gemma4_nvfp4_final_token",
                lent,
            );
            self.lemma_final_head(
                "g4n_final_dump_h",
                "g4n_final_dump_logits",
                "g4n_final_dump_token",
                lent,
            );
            let a = s.take(5);
            let b = s.subrange(5, s.len() as int);
            assert(a =~= self.final_head(
                "gemma4_nvfp4_final_h",
                "gemma4_nvfp4_final_logits",
                "gemma4_nvfp4_final_token",
            ));
            assert(mid.has(Buf::start(0), 2 * (1i32 * (hidden as i32))) && mid.has(
                Buf::start(1),
                4 * (1i32 * (vocab as i32)),
            ));
            assert(in_bounds(b, mid)) by {
                reveal(in_bounds);
                reveal_with_fuel(held_after, 7);
                let m = b.len() - 5;
                assert(step_in(b[m as int], mid));
                assert(step_in(b[m + 1], mid));
                assert(step_in(b[m + 3], mid));
                if m == 1 {
                    assert(step_in(b[0], mid));
                }
            }
            law_in_bounds_joins(a, b, h);
            assert(s =~= a + b);
            let c = d.subrange(5, d.len() as int);
            let e = d.take(5);
            assert(e =~= self.final_head(
                "g4n_final_dump_h",
                "g4n_final_dump_logits",
                "g4n_final_dump_token",
            ));
            assert(in_bounds(c, mid)) by {
                reveal(in_bounds);
                reveal_with_fuel(held_after, 11);
                let m: int = c.len() - 9;
                if m == 1 {
                    assert(step_in(c[0], mid));
                }
                assert(step_in(c[m + 1], held_after(c, (m + 1) as nat, mid)));
                assert(step_in(c[m + 2], held_after(c, (m + 2) as nat, mid)));
                assert(step_in(c[m + 4], held_after(c, (m + 4) as nat, mid)));
                assert(step_in(c[m + 5], held_after(c, (m + 5) as nat, mid)));
                assert(step_in(c[m + 7], held_after(c, (m + 7) as nat, mid)));
            }
            law_in_bounds_joins(e, c, h);
            assert(d =~= e + c);
        }
    }

    proof fn lemma_final_head(
        &self,
        h: &'static str,
        logits: &'static str,
        token: &'static str,
        lent: Map<u64, nat>,
    )
        requires
            self.fits(1),
        ensures
            in_bounds(self.final_head(h, logits, token), lends(lent)),
            held_after(self.final_head(h, logits, token), 5, lends(lent)) == (Held {
                regions: seq![
                    (2 * (self.arch.hidden_size as u32)) as nat,
                    (4 * (self.arch.vocab_size as u32)) as nat,
                    4nat,
                ],
                ..lends(lent)
            }),
    {
        let s = self.final_head(h, logits, token);
        let e = lends(lent);
        let mid = Held {
            regions: seq![
                (2 * (self.arch.hidden_size as u32)) as nat,
                (4 * (self.arch.vocab_size as u32)) as nat,
                4nat,
            ],
            ..lends(lent)
        };
        reveal(in_bounds);
        reveal_with_fuel(held_after, 6);
        assert(held_after(s, 3, e) =~= mid);
        assert(step_in(s[3], mid));
        assert(step_in(s[4], mid));
    }
}

} // verus!
