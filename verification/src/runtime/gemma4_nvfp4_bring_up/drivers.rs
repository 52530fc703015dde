//! Whole forward passes: the device programs of every layer in order.
//!
//! A pass is a list of programs, each with regions of its own, that run one
//! after another until one reports.

use crate::limits::{product, within};
use crate::runtime::error::{corrupt_runtime_err, Arg, Reason};
use crate::runtime::gemma4_nvfp4_bring_up::kv_state::Gemma4Nvfp4KvState;
use crate::runtime::gemma4_nvfp4_bring_up::model::Gemma4Nvfp4Bringup;
use crate::runtime::step::{
    completes, refuses, Buf, OnFail, Program, ProgramView, Step,
};
use crate::text::{cat, cat_num, decimal};
use vstd::prelude::*;
use vstd::string::*;

verus! {

/// What a list of programs stands for.
pub open spec fn programs(v: Seq<Program>) -> Seq<ProgramView> {
    v.map_values(|p: Program| p@)
}

/// Layers whose residual a trace shows: every tenth and the last.
pub open spec fn traced(layer: int, layers: nat) -> bool {
    layer % 10 == 0 || layer == layers - 1
}

/// Whether a trace shows a layer's residual.
pub fn is_traced(layer: usize, layers: usize) -> (r: bool)
    requires
        layer < layers,
    ensures
        r == traced(layer as int, layers as nat),
{
    layer % 10 == 0 || layer == layers - 1
}

/// A value that a dump keeps.
#[derive(Clone, Copy, Debug, PartialEq, Eq, Structural)]
pub enum DumpStage {
    Embed,
    AttnOut(usize),
    PostAttn(usize),
    PostMlp(usize),
}

/// The values of the first `n` layers of a dump, in order.
pub open spec fn dump_order(n: nat) -> Seq<DumpStage>
    decreases n,
{
    if n == 0 {
        seq![DumpStage::Embed]
    } else {
        dump_order((n - 1) as nat) + seq![
            DumpStage::AttnOut((n - 1) as usize),
            DumpStage::PostAttn((n - 1) as usize),
            DumpStage::PostMlp((n - 1) as usize),
        ]
    }
}

/// The values of a dump, in order.
pub fn dump_stages(layers: usize) -> (r: Vec<DumpStage>)
    ensures
        r@ == dump_order(layers as nat),
{
    let mut r: Vec<DumpStage> = vec![DumpStage::Embed];
    let mut l: usize = 0;
    assert(r@ =~= dump_order(0));
    while l < layers
        invariant
            l <= layers,
            r@ == dump_order(l as nat),
        decreases layers - l,
    {
        r.push(DumpStage::AttnOut(l));
        r.push(DumpStage::PostAttn(l));
        r.push(DumpStage::PostMlp(l));
        l = l + 1;
        assert(r@ =~= dump_order(l as nat));
    }
    r
}

/// A number with two digits at least.
pub open spec fn two_digits(n: nat) -> Seq<char> {
    if n < 10 {
        "0"@ + decimal(n)
    } else {
        decimal(n)
    }
}

fn cat_two_digits(s: String, n: u64) -> (r: String)
    ensures
        r@ == s@ + two_digits(n as nat),
{
    let ghost before = s@;
    if n < 10 {
        let r = cat_num(cat(s, "0"), n);
        assert(r@ =~= before + two_digits(n as nat));
        r
    } else {
        cat_num(s, n)
    }
}

/// Name of the file that keeps a value, without its ending.
pub open spec fn dump_label_text(stage: DumpStage) -> Seq<char> {
    match stage {
        DumpStage::Embed => "step_00_embed"@,
        DumpStage::AttnOut(l) => "step_"@ + two_digits(l as nat) + "_attn_out"@,
        DumpStage::PostAttn(l) => "step_"@ + two_digits(l as nat) + "_post_attn"@,
        DumpStage::PostMlp(l) => "step_"@ + two_digits(l as nat) + "_post_mlp"@,
    }
}

/// Name of the file that keeps a value, without its ending.
pub fn dump_label(stage: DumpStage) -> (r: String)
    ensures
        r@ == dump_label_text(stage),
{
    let (layer, what): (usize, &'static str) = match stage {
        DumpStage::Embed => {
            return String::from_str("step_00_embed");
        },
        DumpStage::AttnOut(l) => (l, "_attn_out"),
        DumpStage::PostAttn(l) => (l, "_post_attn"),
        DumpStage::PostMlp(l) => (l, "_post_mlp"),
    };
    cat(cat_two_digits(String::from_str("step_"), layer as u64), what)
}

/// Layer of a stage, and what follows it in the name of its file.
spec fn stage_parts(stage: DumpStage) -> (nat, Seq<char>) {
    match stage {
        DumpStage::Embed => (0, "_embed"@),
        DumpStage::AttnOut(l) => (l as nat, "_attn_out"@),
        DumpStage::PostAttn(l) => (l as nat, "_post_attn"@),
        DumpStage::PostMlp(l) => (l as nat, "_post_mlp"@),
    }
}

proof fn lemma_label_parts(stage: DumpStage)
    ensures
        dump_label_text(stage) == "step_"@ + (two_digits(stage_parts(stage).0) + stage_parts(
            stage,
        ).1),
{
    reveal_strlit("step_00_embed");
    reveal_strlit("step_");
    reveal_strlit("_embed");
    reveal_strlit("0");
    assert(dump_label_text(stage) =~= "step_"@ + (two_digits(stage_parts(stage).0) + stage_parts(
        stage,
    ).1));
}

/// Numbers from ten on do not begin with a zero.
proof fn lemma_leading_digit(n: nat)
    requires
        n > 0,
    ensures
        decimal(n).len() > 0,
        decimal(n)[0] != '0',
        n >= 10 ==> decimal(n).len() >= 2,
    decreases n,
{
    if n >= 10 {
        lemma_leading_digit(n / 10);
    }
}

/// No two values of a dump share a file.
pub proof fn law_dump_labels_distinct(a: DumpStage, b: DumpStage)
    requires
        dump_label_text(a) == dump_label_text(b),
    ensures
        a == b,
{
    reveal_strlit("_embed");
    reveal_strlit("_attn_out");
    reveal_strlit("_post_attn");
    reveal_strlit("_post_mlp");
    lemma_label_parts(a);
    lemma_label_parts(b);
    let (l, x) = stage_parts(a);
    let (m, y) = stage_parts(b);
    let s = two_digits(l) + x;
    let t = two_digits(m) + y;
    let n = "step_"@.len() as int;
    assert(s =~= dump_label_text(a).subrange(n, dump_label_text(a).len() as int));
    assert(t =~= dump_label_text(b).subrange(n, dump_label_text(b).len() as int));
    lemma_two_digits_prefix(l, m, x, y);
    assert(x[x.len() - 1] == y[y.len() - 1]);
}

/// Padded numbers before text that is no digit are told apart.
proof fn lemma_two_digits_prefix(a: nat, b: nat, x: Seq<char>, y: Seq<char>)
    requires
        two_digits(a) + x == two_digits(b) + y,
        x.len() > 0 && !crate::text::is_digit(x[0]),
        y.len() > 0 && !crate::text::is_digit(y[0]),
    ensures
        a == b,
        x == y,
{
    reveal_strlit("0");
    let s = two_digits(a) + x;
    let t = two_digits(b) + y;
    crate::text::lemma_decimal_digits(a);
    crate::text::lemma_decimal_digits(b);
    if a < 10 {
        assert(s =~= seq!['0'] + (decimal(a) + x));
    }
    if b < 10 {
        assert(t =~= seq!['0'] + (decimal(b) + y));
    }
    if a < 10 && b < 10 {
        assert(decimal(a) + x =~= s.subrange(1, s.len() as int));
        assert(decimal(b) + y =~= t.subrange(1, t.len() as int));
        crate::text::lemma_decimal_prefix(a, b, x, y);
    } else if a >= 10 && b >= 10 {
        crate::text::lemma_decimal_prefix(a, b, x, y);
    } else if a < 10 {
        lemma_leading_digit(b);
        assert(s[0] == '0' && t[0] == decimal(b)[0]);
    } else {
        lemma_leading_digit(a);
        assert(t[0] == '0' && s[0] == decimal(a)[0]);
    }
}

impl Gemma4Nvfp4Bringup {
    /// Width of the widest query projection of the first `n` layers.
    pub open spec fn widest_query(&self, n: nat) -> nat
        decreases n,
    {
        if n == 0 {
            0
        } else {
            let w = self.model.layers@[n - 1].q_proj.shape@[0] as nat;
            let m = self.widest_query((n - 1) as nat);
            if w > m {
                w
            } else {
                m
            }
        }
    }

    fn max_n_q(&self, Ghost(n): Ghost<nat>) -> (r: usize)
        requires
            n >= 1,
            self.fits(n),
        ensures
            r == self.widest_query(self.model.layers@.len()),
            n * r <= 0x7fff_ffff,
            4 * (n * r) <= usize::MAX,
    {
        let mut m: usize = 0;
        let mut i: usize = 0;
        assert(n * 0 == 0) by (nonlinear_arith);
        while i < self.model.layers.len()
            invariant
                self.fits(n),
                i <= self.model.layers@.len(),
                m == self.widest_query(i as nat),
                n * m <= 0x7fff_ffff,
                4 * (n * m) <= usize::MAX,
            decreases self.model.layers@.len() - i,
        {
            assert(self.layer_fits(i as int, n));
            let w: usize = self.model.layers[i].q_proj.shape[0];
            if w > m {
                m = w;
            }
            i = i + 1;
        }
        m
    }

    /// Where one token's pass keeps its residual and attention output.
    pub open spec fn full_workspace(&self, position: u32, kv: &Gemma4Nvfp4KvState) -> ProgramView {
        if position >= kv.max_pos {
            refuses(
                corrupt_runtime_err(
                    Reason::two(
                        "forward_full_to_token: position=",
                        Arg::U(position as u64),
                        " >= kv.max_pos=",
                        Arg::U(kv.max_pos as u64),
                        "",
                    ),
                ),
            )
        } else {
            completes(
                seq![
                    Step::Region {
                        name: "g4n_drv_residual_bf16",
                        bytes: (2 * (self.arch.hidden_size as u32)) as usize,
                        align: 256,
                    },
                    Step::Region {
                        name: "g4n_drv_attn_out_bf16",
                        bytes: (2 * self.widest_query(self.model.layers@.len())) as usize,
                        align: 256,
                    },
                ],
            )
        }
    }

    /// The buffers of one token's pass, or why there is none: the residual,
    /// and attention output for the widest layer.
    pub fn forward_full_to_token(&self, position: u32, kv: &Gemma4Nvfp4KvState) -> (r: Program)
        requires
            self.fits(1),
        ensures
            r@ == self.full_workspace(position, kv),
    {
        if position >= kv.max_pos {
            return Program::refuse(
                corrupt_runtime_err(
                    Reason::two(
                        "forward_full_to_token: position=",
                        Arg::U(position as u64),
                        " >= kv.max_pos=",
                        Arg::U(kv.max_pos as u64),
                        "",
                    ),
                ),
            );
        }
        let widest: usize = self.max_n_q(Ghost(1));
        let s: Vec<Step> =
            vec![
            Step::Region {
                name: "g4n_drv_residual_bf16",
                bytes: self.arch.hidden_size as u32 as usize * 2,
                align: 256,
            },
            Step::Region { name: "g4n_drv_attn_out_bf16", bytes: widest * 2, align: 256 },
        ];
        let r = Program::complete(s);
        assert(r@ =~= self.full_workspace(position, kv));
        r
    }

    /// The residual of a traced layer.
    pub open spec fn trace_program(&self, residual: u64) -> ProgramView {
        completes(
            seq![
                Step::Fence,
                Step::Read {
                    src: Buf::At(residual),
                    bytes: (2 * (self.arch.hidden_size as u32)) as usize,
                    on_fail: OnFail::Ignored,
                },
            ],
        )
    }

    /// The programs of one layer for one token.
    pub open spec fn full_layer(
        &self,
        l: int,
        position: u32,
        kv: &Gemma4Nvfp4KvState,
        residual: u64,
        attn_out: u64,
        policies: (i32, i32),
        trace: bool,
    ) -> Seq<ProgramView> {
        seq![
            self.dev_attn(l, residual, position, kv, attn_out, policies),
            self.post_attn_dev(l, attn_out, residual),
            self.post_attn_mlp_dev(l, residual),
        ] + if trace && traced(l, self.arch.num_hidden_layers as nat) {
            seq![self.trace_program(residual)]
        } else {
            Seq::empty()
        }
    }

    /// The programs up to layer `n` for one token.
    pub open spec fn full_layers(
        &self,
        n: nat,
        token: u32,
        position: u32,
        kv: &Gemma4Nvfp4KvState,
        residual: u64,
        attn_out: u64,
        policies: (i32, i32),
        trace: bool,
    ) -> Seq<ProgramView>
        decreases n,
    {
        if n == 0 {
            seq![completes(self.embed_steps("g4n_embed_tok", token, 0, Buf::At(residual)))]
        } else {
            self.full_layers(
                (n - 1) as nat,
                token,
                position,
                kv,
                residual,
                attn_out,
                policies,
                trace,
            ) + self.full_layer(n - 1, position, kv, residual, attn_out, policies, trace)
        }
    }

    /// The last reading of a pass: the residual of one token.
    pub open spec fn last_residual(&self, at: u64, label: &'static str) -> ProgramView {
        completes(
            seq![
                Step::Fence,
                Step::Read {
                    src: Buf::At(at),
                    bytes: (2 * (self.arch.hidden_size as u32)) as usize,
                    on_fail: OnFail::Runtime(label),
                },
            ],
        )
    }

    /// The programs of one token's pass.
    pub open spec fn full_programs(
        &self,
        token: u32,
        position: u32,
        kv: &Gemma4Nvfp4KvState,
        residual: u64,
        attn_out: u64,
        policies: (i32, i32),
        trace: bool,
    ) -> Seq<ProgramView> {
        self.full_layers(
            self.arch.num_hidden_layers as nat,
            token,
            position,
            kv,
            residual,
            attn_out,
            policies,
            trace,
        ).push(self.last_residual(residual, "forward_full_to_token: residual DtoH"))
    }

    /// The programs of a prompt's pass.
    pub open spec fn prompt_programs(
        &self,
        prompt: Seq<u32>,
        position_start: u32,
        kv: &Gemma4Nvfp4KvState,
        residual: u64,
        attn_out: u64,
        policies: (i32, i32),
        block_m: u32,
    ) -> Seq<ProgramView> {
        self.prompt_layers(
            self.arch.num_hidden_layers as nat,
            prompt,
            position_start,
            kv,
            residual,
            attn_out,
            policies,
            block_m,
        ).push(
            self.last_residual(
                self.prompt_row(residual, prompt.len() - 1),
                "forward_prompt_to_token: last residual DtoH",
            ),
        )
    }

    fn plan_last_residual(&self, at: u64, label: &'static str) -> (r: Program)
        requires
            self.fits(1),
        ensures
            r@ == self.last_residual(at, label),
    {
        let s: Vec<Step> =
            vec![
            Step::Fence,
            Step::Read {
                src: Buf::At(at),
                bytes: self.arch.hidden_size as u32 as usize * 2,
                on_fail: OnFail::Runtime(label),
            },
        ];
        let r = Program::complete(s);
        assert(r@ =~= self.last_residual(at, label));
        r
    }

    /// One token's pass: its embedding, every layer in order, and the reading
    /// of the residual, which the head turns into a token.
    pub fn full_stages(
        &self,
        token_id: u32,
        position: u32,
        kv: &Gemma4Nvfp4KvState,
        residual_dev: u64,
        attn_out_dev: u64,
        policies: (i32, i32),
        trace: bool,
    ) -> (r: Vec<Program>)
        requires
            self.fits(1),
            kv.covers(self.arch.num_hidden_layers as nat),
        ensures
            programs(r@) == self.full_programs(
                token_id,
                position,
                kv,
                residual_dev,
                attn_out_dev,
                policies,
                trace,
            ),
    {
        let mut r: Vec<Program> = vec![self.embed_one_token_to_device(token_id, residual_dev)];
        let layers: usize = self.arch.num_hidden_layers;
        let mut l: usize = 0;
        assert(programs(r@) =~= self.full_layers(
            0,
            token_id,
            position,
            kv,
            residual_dev,
            attn_out_dev,
            policies,
            trace,
        ));
        while l < layers
            invariant
                l <= layers,
                layers == self.arch.num_hidden_layers,
                self.fits(1),
                kv.covers(self.arch.num_hidden_layers as nat),
                programs(r@) == self.full_layers(
                    l as nat,
                    token_id,
                    position,
                    kv,
                    residual_dev,
                    attn_out_dev,
                    policies,
                    trace,
                ),
            decreases layers - l,
        {
            let ghost before = r@;
            r.push(
                self.forward_layer_attn_from_residual_dev(
                    l,
                    residual_dev,
                    position,
                    kv,
                    attn_out_dev,
                    policies,
                ),
            );
            r.push(self.forward_layer_post_attn_dev(l, attn_out_dev, residual_dev));
            r.push(self.forward_layer_post_attn_mlp_dev(l, residual_dev));
            if trace && is_traced(l, layers) {
                let s: Vec<Step> =
                    vec![
                    Step::Fence,
                    Step::Read {
                        src: Buf::At(residual_dev),
                        bytes: self.arch.hidden_size as u32 as usize * 2,
                        on_fail: OnFail::Ignored,
                    },
                ];
                let t = Program::complete(s);
                assert(t@ =~= self.trace_program(residual_dev));
                r.push(t);
            }
            assert(programs(r@) =~= programs(before) + self.full_layer(
                l as int,
                position,
                kv,
                residual_dev,
                attn_out_dev,
                policies,
                trace,
            ));
            l = l + 1;
        }
        let ghost before = r@;
        r.push(
            self.plan_last_residual(residual_dev, "forward_full_to_token: residual DtoH"),
        );
        assert(programs(r@) =~= programs(before).push(
            self.last_residual(residual_dev, "forward_full_to_token: residual DtoH"),
        ));
        r
    }

    /// Where a prompt's pass keeps its residuals and attention outputs.
    pub open spec fn prompt_workspace(
        &self,
        n: usize,
        position_start: u32,
        kv: &Gemma4Nvfp4KvState,
    ) -> ProgramView {
        if n == 0 {
            refuses(
                corrupt_runtime_err(Reason::plain("forward_prompt_to_token: prompt is empty")),
            )
        } else if position_start + n > kv.max_pos {
            refuses(
                corrupt_runtime_err(
                    Reason::three(
                        "forward_prompt_to_token: position_start=",
                        Arg::U(position_start as u64),
                        " + n_tokens=",
                        Arg::U(n as u64),
                        " exceeds kv.max_pos=",
                        Arg::U(kv.max_pos as u64),
                        "",
                    ),
                ),
            )
        } else if n > kv.max_query_tokens {
            refuses(
                corrupt_runtime_err(
                    Reason::three(
                        "forward_prompt_to_token: prompt length ",
                        Arg::U(n as u64),
                        " > kv.max_query_tokens=",
                        Arg::U(kv.max_query_tokens as u64),
                        ". Re-allocate KV via `allocate_kv_state_with_chunk(max_pos, >= ",
                        Arg::U(n as u64),
                        ")`.",
                    ),
                ),
            )
        } else {
            completes(
                seq![
                    Step::Region {
                        name: "g4n_prompt_residual_bf16",
                        bytes: (2 * (n * (self.arch.hidden_size as u32))) as usize,
                        align: 256,
                    },
                    Step::Region {
                        name: "g4n_prompt_attn_out_bf16",
                        bytes: (2 * (n * self.widest_query(self.model.layers@.len()))) as usize,
                        align: 256,
                    },
                ],
            )
        }
    }

    /// Whether a prompt can be counted, and kernel arguments and region sizes
    /// can hold its dimensions where it is not refused.
    pub open spec fn prompt_fits(
        &self,
        prompt_len: usize,
        position_start: u32,
        kv: &Gemma4Nvfp4KvState,
    ) -> bool {
        &&& prompt_len <= u32::MAX
        &&& 1 <= prompt_len <= kv.max_query_tokens && position_start + prompt_len <= kv.max_pos
            ==> self.fits(prompt_len as nat)
    }

    /// Whether a prompt's pass can be planned.
    pub fn check_prompt(
        &self,
        prompt_len: usize,
        position_start: u32,
        kv: &Gemma4Nvfp4KvState,
    ) -> (r: bool)
        ensures
            r == self.prompt_fits(prompt_len, position_start, kv),
    {
        let n: u128 = prompt_len as u128;
        n <= u32::MAX as u128 && (n == 0 || n > kv.max_query_tokens as u128 || position_start
            as u128 + n > kv.max_pos as u128 || self.check_fits(prompt_len))
    }

    /// Whether the rows of a prompt's residual have addresses.
    pub open spec fn rows_reach(&self, prompt_len: nat, residual_dev: u64) -> bool {
        residual_dev + 2 * (prompt_len * (self.arch.hidden_size as u32)) <= u64::MAX
    }

    /// Whether the rows of a prompt's residual have addresses.
    pub fn check_rows(&self, prompt_len: usize, residual_dev: u64) -> (r: bool)
        ensures
            r == self.rows_reach(prompt_len as nat, residual_dev),
    {
        let hidden: u32 = self.arch.hidden_size as u32;
        let bytes = product(prompt_len as u128, hidden as u128).mul_value(2);
        within(&bytes.add_value(residual_dev as u128), u64::MAX as u128)
    }

    /// The buffers of a prompt's pass, or why there is none.
    pub fn forward_prompt_to_token(
        &self,
        prompt_len: usize,
        position_start: u32,
        kv: &Gemma4Nvfp4KvState,
    ) -> (r: Program)
        requires
            self.prompt_fits(prompt_len, position_start, kv),
        ensures
            r@ == self.prompt_workspace(prompt_len, position_start, kv),
    {
        if prompt_len == 0 {
            return Program::refuse(
                corrupt_runtime_err(Reason::plain("forward_prompt_to_token: prompt is empty")),
            );
        }
        let n_tokens: u32 = prompt_len as u32;
        if position_start as u64 + n_tokens as u64 > kv.max_pos as u64 {
            return Program::refuse(
                corrupt_runtime_err(
                    Reason::three(
                        "forward_prompt_to_token: position_start=",
                        Arg::U(position_start as u64),
                        " + n_tokens=",
                        Arg::U(n_tokens as u64),
                        " exceeds kv.max_pos=",
                        Arg::U(kv.max_pos as u64),
                        "",
                    ),
                ),
            );
        }
        if n_tokens > kv.max_query_tokens {
            return Program::refuse(
                corrupt_runtime_err(
                    Reason::three(
                        "forward_prompt_to_token: prompt length ",
                        Arg::U(n_tokens as u64),
                        " > kv.max_query_tokens=",
                        Arg::U(kv.max_query_tokens as u64),
                        ". Re-allocate KV via `allocate_kv_state_with_chunk(max_pos, >= ",
                        Arg::U(n_tokens as u64),
                        ")`.",
                    ),
                ),
            );
        }
        let widest: usize = self.max_n_q(Ghost(prompt_len as nat));
        let hidden: usize = self.arch.hidden_size as u32 as usize;
        proof {
            self.lemma_prompt_bytes(prompt_len as nat);
        }
        let s: Vec<Step> =
            vec![
            Step::Region {
                name: "g4n_prompt_residual_bf16",
                bytes: prompt_len * hidden * 2,
                align: 256,
            },
            Step::Region {
                name: "g4n_prompt_attn_out_bf16",
                bytes: prompt_len * widest * 2,
                align: 256,
            },
        ];
        let r = Program::complete(s);
        assert(r@ =~= self.prompt_workspace(prompt_len, position_start, kv));
        r
    }

    proof fn lemma_prompt_bytes(&self, n: nat)
        requires
            self.fits(n),
        ensures
            n * (self.arch.hidden_size as u32) <= 0x7fff_ffff,
            4 * (n * (self.arch.hidden_size as u32)) <= usize::MAX,
    {
        let hs = self.arch.hidden_size as nat;
        let h = self.arch.hidden_size as u32 as nat;
        assert(n * h <= n * hs && 4 * n * hs == 4 * (n * hs)) by (nonlinear_arith)
            requires
                h <= hs,
        ;
    }

    /// Address of a prompt token's residual.
    pub open spec fn prompt_row(&self, residual: u64, t: int) -> u64 {
        (residual + t * (2 * (self.arch.hidden_size as u32))) as u64
    }

    /// The embeddings of a prompt, one row after another.
    pub open spec fn prompt_embeds(&self, prompt: Seq<u32>, residual: u64) -> Seq<ProgramView> {
        Seq::new(
            prompt.len(),
            |t: int|
                completes(
                    self.embed_steps(
                        "g4n_embed_tok",
                        prompt[t],
                        0,
                        Buf::At(self.prompt_row(residual, t)),
                    ),
                ),
        )
    }

    /// The programs of one layer for a prompt.
    pub open spec fn prompt_layer(
        &self,
        l: int,
        n: u32,
        position_start: u32,
        kv: &Gemma4Nvfp4KvState,
        residual: u64,
        attn_out: u64,
        policies: (i32, i32),
        block_m: u32,
    ) -> Seq<ProgramView> {
        seq![
            self.batched_attn(
                l,
                n,
                residual,
                position_start,
                kv,
                attn_out,
                policies,
                block_m,
            ),
            self.post_attn_batched_dev(l, n, attn_out, residual),
            self.post_attn_mlp_batched_dev(l, n, residual),
        ]
    }

    /// The programs up to layer `k` for a prompt.
    pub open spec fn prompt_layers(
        &self,
        k: nat,
        prompt: Seq<u32>,
        position_start: u32,
        kv: &Gemma4Nvfp4KvState,
        residual: u64,
        attn_out: u64,
        policies: (i32, i32),
        block_m: u32,
    ) -> Seq<ProgramView>
        decreases k,
    {
        if k == 0 {
            self.prompt_embeds(prompt, residual)
        } else {
            self.prompt_layers(
                (k - 1) as nat,
                prompt,
                position_start,
                kv,
                residual,
                attn_out,
                policies,
                block_m,
            ) + self.prompt_layer(
                k - 1,
                prompt.len() as u32,
                position_start,
                kv,
                residual,
                attn_out,
                policies,
                block_m,
            )
        }
    }

    fn plan_prompt_embeds(&self, prompt: &[u32], residual_dev: u64) -> (r: Vec<Program>)
        requires
            self.fits(prompt@.len()),
            residual_dev + 2 * (prompt@.len() * (self.arch.hidden_size as u32)) <= u64::MAX,
        ensures
            programs(r@) == self.prompt_embeds(prompt@, residual_dev),
    {
        proof {
            self.lemma_prompt_bytes(prompt@.len());
        }
        let hidden: u64 = self.arch.hidden_size as u32 as u64;
        let mut r: Vec<Program> = Vec::new();
        let mut t: usize = 0;
        while t < prompt.len()
            invariant
                t <= prompt@.len(),
                hidden == self.arch.hidden_size as u32,
                prompt@.len() * (self.arch.hidden_size as u32) <= 0x7fff_ffff,
                residual_dev + 2 * (prompt@.len() * (self.arch.hidden_size as u32)) <= u64::MAX,
                r@.len() == t,
                forall|i: int|
                    0 <= i < t ==> (#[trigger] r@[i])@ == self.prompt_embeds(
                        prompt@,
                        residual_dev,
                    )[i],
            decreases prompt@.len() - t,
        {
            let ghost n = prompt@.len();
            assert(t * hidden <= n * hidden && t * (2 * hidden) == 2 * (t * hidden) && t as u64
                * (2 * hidden) <= 2 * (n * hidden)) by (nonlinear_arith)
                requires
                    t <= n,
            ;
            let at: u64 = residual_dev + t as u64 * (2 * hidden);
            r.push(self.embed_one_token_to_device(prompt[t], at));
            t = t + 1;
        }
        assert(programs(r@) =~= self.prompt_embeds(prompt@, residual_dev));
        r
    }

    /// A prompt's pass: the embeddings of its tokens, every layer in order on
    /// all of them, and the reading of the last token's residual, which the
    /// head turns into a token.
    pub fn prompt_stages(
        &self,
        prompt: &[u32],
        position_start: u32,
        kv: &Gemma4Nvfp4KvState,
        residual_dev: u64,
        attn_out_dev: u64,
        policies: (i32, i32),
        block_m: u32,
    ) -> (r: Vec<Program>)
        requires
            1 <= prompt@.len() <= u32::MAX,
            self.fits(prompt@.len()),
            kv.covers(self.arch.num_hidden_layers as nat),
            self.rows_reach(prompt@.len(), residual_dev),
        ensures
            programs(r@) == self.prompt_programs(
                prompt@,
                position_start,
                kv,
                residual_dev,
                attn_out_dev,
                policies,
                block_m,
            ),
    {
        let n: u32 = prompt.len() as u32;
        let mut r = self.plan_prompt_embeds(prompt, residual_dev);
        let layers: usize = self.arch.num_hidden_layers;
        let mut l: usize = 0;
        while l < layers
            invariant
                l <= layers,
                layers == self.arch.num_hidden_layers,
                n == prompt@.len(),
                n >= 1,
                self.fits(n as nat),
                kv.covers(self.arch.num_hidden_layers as nat),
                programs(r@) == self.prompt_layers(
                    l as nat,
                    prompt@,
                    position_start,
                    kv,
                    residual_dev,
                    attn_out_dev,
                    policies,
                    block_m,
                ),
            decreases layers - l,
        {
            let ghost before = r@;
            r.push(
                self.forward_layer_attn_batched_prefill_dev(
                    l,
                    n,
                    residual_dev,
                    position_start,
                    kv,
                    attn_out_dev,
                    policies,
                    block_m,
                ),
            );
            r.push(
                self.forward_layer_post_attn_batched_dev(l, n, attn_out_dev, residual_dev),
            );
            r.push(self.forward_layer_post_attn_mlp_batched_dev(l, n, residual_dev));
            assert(programs(r@) =~= programs(before) + self.prompt_layer(
                l as int,
                n,
                position_start,
                kv,
                residual_dev,
                attn_out_dev,
                policies,
                block_m,
            ));
            l = l + 1;
        }
        proof {
            self.lemma_prompt_bytes(n as nat);
            crate::runtime::gemma4_nvfp4_bring_up::attention::lemma_fits_one(self, n as nat);
        }
        let hidden: u64 = self.arch.hidden_size as u32 as u64;
        let ghost last = (n - 1) as nat;
        assert(last * hidden <= n * hidden && last * (2 * hidden) == 2 * (last * hidden))
            by (nonlinear_arith)
            requires
                last <= n,
        ;
        let at: u64 = residual_dev + (n as u64 - 1) * (2 * hidden);
        let ghost before = r@;
        r.push(self.plan_last_residual(at, "forward_prompt_to_token: last residual DtoH"));
        assert(programs(r@) =~= programs(before).push(
            self.last_residual(at, "forward_prompt_to_token: last residual DtoH"),
        ));
        r
    }
}

} // verus!
