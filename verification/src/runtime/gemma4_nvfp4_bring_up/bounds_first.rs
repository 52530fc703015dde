//! The probes of the first layer stay within their regions and readings, and what
//! the rotation does at position zero.

use crate::runtime::footprint::{
    held_after, in_bounds, law_in_bounds_joins, lemma_none_in_bounds, nothing_held, step_in, Held,
};
use crate::runtime::gemma4_nvfp4_bring_up::kv_state::Gemma4Nvfp4KvState;
use crate::runtime::gemma4_nvfp4_bring_up::layer0::rope_row_spec;
use crate::runtime::gemma4_nvfp4_bring_up::model::Gemma4Nvfp4Bringup;
use crate::runtime::step::{Buf, Step};
use vstd::prelude::*;

verus! {

impl Gemma4Nvfp4Bringup {
    /// The probe of one token's embedding stays within its regions.
    pub proof fn law_embed_in_bounds(&self, token: u32)
        requires
            self.fits(1),
        ensures
            in_bounds(self.embed_one(token).steps, nothing_held()),
    {
        let s = self.embed_one(token).steps;
        let h = nothing_held();
        let hidden = self.arch.hidden_size as u32;
        let two = Held { regions: seq![(2 * hidden) as nat, 4nat], ..nothing_held() };
        reveal(in_bounds);
        reveal_with_fuel(held_after, 8);
        assert(s.len() == 7);
        assert(held_after(s, 2, h) =~= two);
        assert(two.has(Buf::start(0), 2 * (1u32 * hidden)));
        assert(step_in(s[2], two));
        assert(step_in(s[3], two));
        assert(step_in(s[5], two));
    }

    /// The probe of the first query projection stays within its regions.
    pub proof fn law_pre_attention_in_bounds(&self, token: u32)
        requires
            self.fits(1),
            self.arch.num_hidden_layers > 0,
        ensures
            in_bounds(self.pre_attn(token).steps, nothing_held()),
    {
        assert(self.layer_fits(0, 1));
        let s = self.pre_attn(token).steps;
        let h = nothing_held();
        let hidden = self.arch.hidden_size as u32;
        let n_q = self.model.layers@[0].q_proj.shape@[0] as i32;
        let one = Held { regions: seq![4nat], ..nothing_held() };
        let all = Held {
            regions: seq![4nat, (2 * hidden) as nat, (4 * n_q) as nat],
            ..nothing_held()
        };
        reveal(in_bounds);
        reveal_with_fuel(held_after, 11);
        assert(held_after(s, 1, h) =~= one);
        assert(held_after(s, 4, h) =~= all);
        assert(all.has(Buf::start(1), 2 * (1u32 * hidden)));
        assert(all.has(Buf::start(1), 2 * (1i32 * (hidden as i32))));
        assert(all.has(Buf::start(2), 4 * (1i32 * n_q)));
        assert(step_in(s[1], one));
        assert(step_in(s[4], all));
        assert(step_in(s[5], all));
        assert(step_in(s[6], all));
        assert(step_in(s[8], all));
    }

    /// What the probe of the projections leaves.
    spec fn qkv_left(&self) -> Held {
        let p = self.proj(0);
        Held {
            regions: seq![0nat, 0, 0, 0, 0],
            readings: seq![(4 * p.n_q) as nat, (4 * p.n_kv) as nat, (4 * p.n_v) as nat],
            ..nothing_held()
        }
    }

    #[verifier::spinoff_prover]
    #[verifier::rlimit(30)]
    proof fn lemma_qkv(&self, token: u32)
        requires
            self.fits(1),
            self.arch.num_hidden_layers > 0,
        ensures
            in_bounds(self.qkv_only(token).steps, nothing_held()),
            self.qkv_only(token).failure is None ==> held_after(
                self.qkv_only(token).steps,
                self.qkv_only(token).steps.len(),
                nothing_held(),
            ) == self.qkv_left(),
    {
        assert(self.layer_fits(0, 1));
        let s = self.qkv_only(token).steps;
        let h = nothing_held();
        lemma_none_in_bounds(h);
        let hidden = self.arch.hidden_size as u32;
        let p = self.proj(0);
        if self.qkv_only(token).failure is None {
            let a = s.take(6);
            let c = s.subrange(6, 16);
            let one = Held { regions: seq![4nat], ..nothing_held() };
            let all = Held {
                regions: seq![
                    4nat,
                    (2 * hidden) as nat,
                    (4 * p.n_q) as nat,
                    (4 * p.n_kv) as nat,
                    (4 * p.n_v) as nat,
                ],
                ..nothing_held()
            };
            assert(in_bounds(a, h) && held_after(a, 6, h) == all) by {
                reveal(in_bounds);
                reveal_with_fuel(held_after, 7);
                assert(held_after(a, 1, h) =~= one);
                assert(held_after(a, 6, h) =~= all);
                assert(step_in(a[1], one));
            }
            assert(in_bounds(c, all) && held_after(c, 10, all) == self.qkv_left()) by {
                reveal(in_bounds);
                reveal_with_fuel(held_after, 11);
                assert(all.has(Buf::start(1), 2 * (1u32 * hidden)));
                assert(all.has(Buf::start(1), 2 * (1i32 * (hidden as i32))));
                assert(all.has(Buf::start(2), 4 * (1i32 * p.n_q)));
                assert(all.has(Buf::start(3), 4 * (1i32 * p.n_kv)));
                assert(all.has(Buf::start(4), 4 * (1i32 * p.n_v)));
                assert(step_in(c[0], all));
                assert(step_in(c[1], all));
                assert(step_in(c[2], all));
                assert(step_in(c[3], all));
                assert(step_in(c[4], all));
                assert(held_after(c, 6, all) == all);
                assert(step_in(c[6], all));
                assert(step_in(c[7], held_after(c, 7, all)));
                assert(step_in(c[8], held_after(c, 8, all)));
                assert(held_after(c, 10, all) =~= self.qkv_left());
            }
            law_in_bounds_joins(a, c, h);
            assert(s =~= a + c);
        }
    }

    /// The probe of the projections stays within its regions.
    pub proof fn law_qkv_in_bounds(&self, token: u32)
        requires
            self.fits(1),
            self.arch.num_hidden_layers > 0,
        ensures
            in_bounds(self.qkv_only(token).steps, nothing_held()),
    {
        self.lemma_qkv(token);
    }

    /// The heads of a projection are no wider than it.
    proof fn lemma_heads_fit(&self, width: i32)
        requires
            width >= 0,
            0 < self.arch.head_dim_sliding <= u32::MAX,
        ensures
            self.layer0_heads(width) * (self.arch.head_dim_sliding as u32) <= width,
    {
        let d = self.arch.head_dim_sliding as int;
        let w = width as int;
        vstd::arithmetic::div_mod::lemma_fundamental_div_mod(w, d);
        assert(w / d <= w && (w / d) * d <= w) by (nonlinear_arith)
            requires
                w == d * (w / d) + w % d,
                0 <= w % d,
                w >= 0,
                d > 0,
        ;
    }

    /// What the probe of the norms leaves.
    spec fn norm_left(&self) -> Held {
        let p = self.proj(0);
        Held {
            regions: seq![0nat, 0, 0, 0, 0, 0, 0],
            readings: seq![
                (4 * p.n_q) as nat,
                (4 * p.n_kv) as nat,
                (4 * p.n_v) as nat,
                (2 * p.n_q) as nat,
                (2 * p.n_kv) as nat,
            ],
            ..nothing_held()
        }
    }

    #[verifier::spinoff_prover]
    #[verifier::rlimit(30)]
    proof fn lemma_qk_norm(&self, token: u32)
        requires
            self.fits(1),
            self.arch.num_hidden_layers > 0,
            0 < self.arch.head_dim_sliding <= u32::MAX,
        ensures
            in_bounds(self.qk_norm(token).steps, nothing_held()),
            self.qk_norm(token).failure is None ==> held_after(
                self.qk_norm(token).steps,
                self.qk_norm(token).steps.len(),
                nothing_held(),
            ) == self.norm_left(),
    {
        assert(self.layer_fits(0, 1));
        self.lemma_qkv(token);
        let first = self.qkv_only(token);
        let p = self.proj(0);
        if first.failure is None {
            let s = self.qk_norm(token).steps;
            let n = first.steps.len() as int;
            let c = s.subrange(n, n + 10);
            let h = self.qkv_left();
            let two = Held {
                regions: seq![0nat, 0, 0, 0, 0, (2 * p.n_q) as nat, (2 * p.n_kv) as nat],
                ..h
            };
            self.lemma_heads_fit(p.n_q);
            self.lemma_heads_fit(p.n_kv);
            assert(in_bounds(c, h) && held_after(c, 10, h) == self.norm_left()) by {
                reveal(in_bounds);
                reveal_with_fuel(held_after, 11);
                assert(held_after(c, 2, h) =~= two);
                assert(step_in(c[2], two));
                assert(step_in(c[3], two));
                assert(step_in(c[4], two));
                assert(step_in(c[5], two));
                assert(held_after(c, 7, h) == two);
                assert(step_in(c[7], two));
                assert(step_in(c[8], held_after(c, 8, h)));
                assert(held_after(c, 10, h) =~= self.norm_left());
            }
            law_in_bounds_joins(first.steps, c, nothing_held());
            assert(s =~= first.steps + c);
        }
    }

    /// The probe of the norms stays within its regions, and takes no more of a
    /// reading than there is.
    pub proof fn law_qk_norm_in_bounds(&self, token: u32)
        requires
            self.fits(1),
            self.arch.num_hidden_layers > 0,
            0 < self.arch.head_dim_sliding <= u32::MAX,
        ensures
            in_bounds(self.qk_norm(token).steps, nothing_held()),
    {
        self.lemma_qk_norm(token);
    }

    /// The probe of the rotation stays within its regions, and takes no more of
    /// a reading than there is.
    #[verifier::spinoff_prover]
    #[verifier::rlimit(40)]
    pub proof fn law_qk_rope_in_bounds(&self, token: u32, position: u32)
        requires
            self.fits(1),
            self.arch.num_hidden_layers > 0,
            0 < self.arch.head_dim_sliding <= 0x7fff_ffff,
            2 * self.arch.head_dim_sliding <= usize::MAX,
        ensures
            in_bounds(self.qk_rope(token, position).steps, nothing_held()),
    {
        assert(self.layer_fits(0, 1));
        self.lemma_qk_norm(token);
        let first = self.qk_norm(token);
        let p = self.proj(0);
        if first.failure is None {
            let s = self.qk_rope(token, position).steps;
            let n = first.steps.len() as int;
            let c = s.subrange(n, n + 16);
            let h = self.norm_left();
            self.lemma_heads_fit(p.n_q);
            self.lemma_heads_fit(p.n_kv);
            self.lemma_rope_tail(token, position, c, h);
            law_in_bounds_joins(first.steps, c, nothing_held());
            assert(s =~= first.steps + c);
        }
    }

    /// Rotation at position zero follows the norms and takes both of its rows
    /// from the start of the tables. It rotates the normalized queries and keys
    /// head by head and reads back as many bytes of each as the norms gave. The
    /// first five readings are those of the norms, the values among them.
    pub proof fn law_rotation_at_zero(&self, token: u32)
        requires
            self.fits(1),
            self.arch.num_hidden_layers > 0,
            0 < self.arch.head_dim_sliding <= 0x7fff_ffff,
            2 * self.arch.head_dim_sliding <= usize::MAX,
            self.qk_norm(token).failure is None,
        ensures
            ({
                let norm = self.qk_norm(token).steps;
                let rope = self.qk_rope(token, 0).steps;
                let n = norm.len() as int;
                let p = self.proj(0);
                let row = self.rope_row_bytes();
                let before = held_after(norm, norm.len(), nothing_held()).readings;
                let after = held_after(rope, rope.len(), nothing_held()).readings;
                &&& self.qk_rope(token, 0).failure is None
                &&& rope.len() == n + 16
                &&& rope.take(n) == norm
                &&& rope[n + 2] == (Step::WriteReading { reading: 3, dst: Buf::start(7) })
                &&& rope[n + 3] == (Step::WriteReading { reading: 4, dst: Buf::start(8) })
                &&& rope[n + 4] matches Step::Read { src, bytes, .. } && src == Buf::At(
                    self.tables.rope_cos_sliding,
                ) && bytes == row
                &&& rope[n + 5] matches Step::Read { src, bytes, .. } && src == Buf::At(
                    self.tables.rope_sin_sliding,
                ) && bytes == row
                &&& rope[n + 8] == (Step::WidenReading { reading: 5, dst: Buf::start(9) })
                &&& rope[n + 9] == (Step::WidenReading { reading: 6, dst: Buf::start(10) })
                &&& rope[n + 10] == rope_row_spec(
                    Buf::start(7),
                    self.layer0_heads(p.n_q),
                    self.arch.head_dim_sliding as u32,
                    Buf::start(9),
                    Buf::start(10),
                )
                &&& rope[n + 11] == rope_row_spec(
                    Buf::start(8),
                    self.layer0_heads(p.n_kv),
                    self.arch.head_dim_sliding as u32,
                    Buf::start(9),
                    Buf::start(10),
                )
                &&& before.len() == 5
                &&& after.len() == 9
                &&& after.take(5) == before
                &&& after[7] == before[3]
                &&& after[8] == before[4]
            }),
    {
        self.lemma_qk_norm(token);
        let norm = self.qk_norm(token).steps;
        let rope = self.qk_rope(token, 0).steps;
        let n = norm.len() as int;
        let c = rope.subrange(n, n + 16);
        let h = self.norm_left();
        self.lemma_rope_tail(token, 0, c, h);
        law_in_bounds_joins(norm, c, nothing_held());
        assert(rope =~= norm + c);
        assert(rope.take(n) =~= norm);
        let after = held_after(rope, rope.len(), nothing_held()).readings;
        assert(after.take(5) =~= h.readings);
    }

    #[verifier::spinoff_prover]
    #[verifier::rlimit(40)]
    proof fn lemma_rope_tail(&self, token: u32, position: u32, c: Seq<Step>, h: Held)
        requires
            self.fits(1),
            self.arch.num_hidden_layers > 0,
            0 < self.arch.head_dim_sliding <= 0x7fff_ffff,
            2 * self.arch.head_dim_sliding <= usize::MAX,
            h == self.norm_left(),
            self.qk_norm(token).failure is None,
            c == self.qk_rope(token, position).steps.subrange(
                self.qk_norm(token).steps.len() as int,
                (self.qk_norm(token).steps.len() + 16) as int,
            ),
        ensures
            in_bounds(c, h),
            held_after(c, 16, h).readings == h.readings.push(self.rope_row_bytes()).push(
                self.rope_row_bytes(),
            ).push((2 * self.proj(0).n_q) as nat).push((2 * self.proj(0).n_kv) as nat),
    {
        assert(self.layer_fits(0, 1));
        let p = self.proj(0);
        let row = self.rope_row_bytes();
        self.lemma_heads_fit(p.n_q);
        self.lemma_heads_fit(p.n_kv);
        let two = Held {
            regions: seq![
                0nat,
                0,
                0,
                0,
                0,
                0,
                0,
                (2 * p.n_q) as nat,
                (2 * p.n_kv) as nat,
            ],
            ..h
        };
        let read = Held { readings: h.readings.push(row).push(row), ..two };
        let all = Held { regions: two.regions.push(2 * row).push(2 * row), ..read };
        reveal(in_bounds);
        reveal_with_fuel(held_after, 17);
        assert(held_after(c, 2, h) =~= two);
        assert(held_after(c, 4, h) == two);
        assert(held_after(c, 6, h) =~= read);
        assert(held_after(c, 8, h) =~= all);
        assert(held_after(c, 13, h) == all);
        assert(step_in(c[2], two));
        assert(step_in(c[3], two));
        assert(step_in(c[8], all));
        assert(step_in(c[9], all));
        let d = self.arch.head_dim_sliding as u32 as i32;
        assert((0i32 + 1) * (d / 2) == d / 2) by (nonlinear_arith);
        assert(all.has(Buf::start(9), 4 * ((0i32 + 1) * (d / 2))));
        assert(all.has(Buf::start(10), 4 * ((0i32 + 1) * (d / 2))));
        assert(all.has(Buf::start(7), 2 * (self.layer0_heads(p.n_q) * d)));
        assert(all.has(Buf::start(8), 2 * (self.layer0_heads(p.n_kv) * d)));
        assert(step_in(c[10], all));
        assert(step_in(c[11], all));
        assert(step_in(c[13], all));
        assert(step_in(c[14], held_after(c, 14, h)));
    }

    /// The attention of the first layer stays within its regions.
    #[verifier::spinoff_prover]
    #[verifier::rlimit(40)]
    pub proof fn law_first_attention_in_bounds(
        &self,
        q_len: usize,
        k_len: usize,
        position: u32,
        kv: &Gemma4Nvfp4KvState,
        policies: (i32, i32),
    )
        requires
            0 < self.arch.head_dim_sliding <= 0x7fff_ffff,
            q_len <= 0x7fff_ffff,
            k_len <= 0x7fff_ffff,
            2 * q_len <= usize::MAX,
            2 * k_len <= usize::MAX,
        ensures
            in_bounds(
                self.layer0_attn_heads(q_len, k_len, position, kv, policies).steps,
                nothing_held(),
            ),
    {
        let s = self.layer0_attn_heads(q_len, k_len, position, kv, policies).steps;
        let g = self.layer0_plan(q_len as nat, k_len as nat);
        let h = nothing_held();
        lemma_none_in_bounds(h);
        self.lemma_heads_fit(q_len as i32);
        self.lemma_heads_fit(k_len as i32);
        let q = g.num_q_heads * g.head_dim;
        let k = g.num_kv_heads * g.head_dim;
        assert(0 <= q <= q_len && 0 <= k <= k_len) by (nonlinear_arith)
            requires
                q == (q_len as int / self.arch.head_dim_sliding as int)
                    * self.arch.head_dim_sliding,
                k == (k_len as int / self.arch.head_dim_sliding as int)
                    * self.arch.head_dim_sliding,
                self.arch.head_dim_sliding > 0,
        ;
        let all = Held {
            regions: seq![
                (2 * q_len) as nat,
                (2 * k_len) as nat,
                (2 * k) as nat,
                q_len as nat,
                (2 * q) as nat,
            ],
            ..nothing_held()
        };
        if s.len() > 0 {
            let a = s.take(8);
            let c = s.subrange(8, s.len() as int);
            assert(in_bounds(a, h) && held_after(a, 8, h) == all) by {
                reveal(in_bounds);
                reveal_with_fuel(held_after, 9);
                assert(held_after(a, 5, h) =~= all);
                assert(step_in(a[5], all));
                assert(step_in(a[6], all));
                assert(step_in(a[7], all));
            }
            assert(in_bounds(c, all)) by {
                reveal(in_bounds);
                reveal_with_fuel(held_after, 7);
                if c.len() > 0 {
                    assert(step_in(c[0], all));
                    assert(1i32 * ((g.num_q_heads as i32) * (g.head_dim as i32)) == q);
                    assert(1i32 * ((g.num_kv_heads as i32) * (g.head_dim as i32)) == k);
                    assert(step_in(c[1], all));
                    assert(step_in(c[2], all));
                    assert(step_in(c[4], all));
                }
            }
            law_in_bounds_joins(a, c, h);
            assert(s =~= a + c);
        }
    }
}

} // verus!
