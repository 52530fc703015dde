//! The rest of a layer behind its attention: the output projection and the
//! MLP block, each with its norms and its addition to the residual.

use crate::loader::gemma4_nvfp4_weights::Gemma4Nvfp4LayerLoaded;
use crate::runtime::error::{corrupt_runtime_err, cuda_err, Arg, Reason};
use crate::runtime::gemma4_nvfp4_bring_up::launches::{
    extend, launch_f32_to_bf16, launch_scaled_add_bf16, narrow_spec, scaled_add_spec,
};
use crate::runtime::gemma4_nvfp4_bring_up::model::Gemma4Nvfp4Bringup;
use crate::runtime::gemma4_nvfp4_ops::{
    gemma4_nvfp4_attn_proj, gemma4_nvfp4_mlp_forward, mlp_spec,
};
use crate::runtime::step::{
    completes, refuses, Buf, Format16, OnFail, Program, ProgramView, Step,
};
use vstd::prelude::*;

verus! {

/// Normalizes bf16 rows in place.
pub open spec fn rms_spec(rows: u32, width: u32, eps_bits: u32, data: Buf, gamma: u64) -> Step {
    Step::RmsNorm { format: Format16::Bf16, rows, width, eps_bits, data, gamma }
}

/// Normalizes bf16 rows in place.
#[verifier::when_used_as_spec(rms_spec)]
pub fn rms_bf16(rows: u32, width: u32, eps_bits: u32, data: Buf, gamma: u64) -> (r: Step)
    ensures
        r == rms_spec(rows, width, eps_bits, data, gamma),
{
    Step::RmsNorm { format: Format16::Bf16, rows, width, eps_bits, data, gamma }
}

/// Names of the regions and readings of an output projection on the host.
#[derive(Clone, Copy, Debug)]
pub struct PostAttnNames {
    pub input: &'static str,
    pub resid: &'static str,
    pub single: &'static str,
    pub bf16: &'static str,
    pub read_out: &'static str,
}

/// The output projection of one token: regions 0 and 1 hold the attention
/// output and the residual. `narrow_label` is the reading by which the host
/// narrows the projection; without one the device does.
pub open spec fn post_attn_host_steps(
    names: PostAttnNames,
    narrow_label: Option<&'static str>,
    layer: &Gemma4Nvfp4LayerLoaded,
    hidden: u32,
    eps_bits: u32,
) -> Seq<Step> {
    let n_q = layer.o_proj.shape@[1] as i32;
    seq![
        Step::Region { name: names.input, bytes: (2 * n_q) as usize, align: 256 },
        Step::Region { name: names.resid, bytes: (2 * hidden) as usize, align: 256 },
        Step::Region { name: names.single, bytes: (4 * hidden) as usize, align: 256 },
        Step::Region { name: names.bf16, bytes: (2 * hidden) as usize, align: 256 },
        Step::WriteInput { dst: Buf::start(0), input: 0, bytes: (2 * n_q) as usize },
        Step::WriteInput { dst: Buf::start(1), input: 1, bytes: (2 * hidden) as usize },
        gemma4_nvfp4_attn_proj(
            Buf::start(0),
            layer.o_proj.offset_bytes,
            Buf::start(2),
            1,
            hidden as i32,
            n_q,
        ),
    ] + (match narrow_label {
        None => narrow_spec(Buf::start(3), Buf::start(2), hidden),
        Some(label) => seq![
            Step::Fence,
            Step::Read {
                src: Buf::start(2),
                bytes: (4 * hidden) as usize,
                on_fail: OnFail::Memcpy(label),
            },
            Step::NarrowReading { reading: 0, dst: Buf::start(3) },
        ],
    }) + seq![
        rms_bf16(
            1,
            hidden,
            eps_bits,
            Buf::start(3),
            layer.post_attention_layernorm.offset_bytes,
        ),
        Step::VectorAddBf16 { dst: Buf::start(1), src: Buf::start(3), n: hidden },
        Step::Fence,
        Step::Read {
            src: Buf::start(1),
            bytes: (2 * hidden) as usize,
            on_fail: OnFail::Memcpy(names.read_out),
        },
        Step::Release,
    ]
}

fn plan_post_attn_host(
    names: PostAttnNames,
    narrow_label: Option<&'static str>,
    layer: &Gemma4Nvfp4LayerLoaded,
    hidden: u32,
    eps_bits: u32,
) -> (r: Vec<Step>)
    requires
        layer.o_proj.shape@.len() >= 2,
        layer.o_proj.shape@[1] <= 0x7fff_ffff,
        2 * layer.o_proj.shape@[1] <= usize::MAX,
        hidden <= 0x7fff_ffff,
        4 * hidden <= usize::MAX,
    ensures
        r@ == post_attn_host_steps(names, narrow_label, layer, hidden, eps_bits),
{
    let n_q: i32 = layer.o_proj.shape[1] as i32;
    let h: usize = hidden as usize;
    let in_bytes: usize = n_q as usize * 2;
    let s: Vec<Step> =
        vec![
        Step::Region { name: names.input, bytes: in_bytes, align: 256 },
        Step::Region { name: names.resid, bytes: h * 2, align: 256 },
        Step::Region { name: names.single, bytes: h * 4, align: 256 },
        Step::Region { name: names.bf16, bytes: h * 2, align: 256 },
        Step::WriteInput { dst: Buf::start(0), input: 0, bytes: in_bytes },
        Step::WriteInput { dst: Buf::start(1), input: 1, bytes: h * 2 },
        gemma4_nvfp4_attn_proj(
            Buf::start(0),
            layer.o_proj.offset_bytes,
            Buf::start(2),
            1,
            hidden as i32,
            n_q,
        ),
    ];
    let narrow: Vec<Step> = match narrow_label {
        None => launch_f32_to_bf16(Buf::start(3), Buf::start(2), hidden),
        Some(label) => vec![
            Step::Fence,
            Step::Read { src: Buf::start(2), bytes: h * 4, on_fail: OnFail::Memcpy(label) },
            Step::NarrowReading { reading: 0, dst: Buf::start(3) },
        ],
    };
    let s = extend(s, narrow);
    let tail: Vec<Step> =
        vec![
        rms_bf16(
            1,
            hidden,
            eps_bits,
            Buf::start(3),
            layer.post_attention_layernorm.offset_bytes,
        ),
        Step::VectorAddBf16 { dst: Buf::start(1), src: Buf::start(3), n: hidden },
        Step::Fence,
        Step::Read {
            src: Buf::start(1),
            bytes: h * 2,
            on_fail: OnFail::Memcpy(names.read_out),
        },
        Step::Release,
    ];
    let r = extend(s, tail);
    assert(r@ =~= post_attn_host_steps(names, narrow_label, layer, hidden, eps_bits));
    r
}

/// The output projection of `n` tokens on the device.
pub open spec fn post_attn_dev_steps(
    single: &'static str,
    bf16: &'static str,
    layer: &Gemma4Nvfp4LayerLoaded,
    hidden: u32,
    eps_bits: u32,
    n: u32,
    attn_out: u64,
    residual: u64,
) -> Seq<Step> {
    seq![
        Step::Region { name: single, bytes: (4 * (n * hidden)) as usize, align: 256 },
        Step::Region { name: bf16, bytes: (2 * (n * hidden)) as usize, align: 256 },
        gemma4_nvfp4_attn_proj(
            Buf::At(attn_out),
            layer.o_proj.offset_bytes,
            Buf::start(0),
            n as i32,
            hidden as i32,
            layer.o_proj.shape@[1] as i32,
        ),
    ] + narrow_spec(Buf::start(1), Buf::start(0), (n * hidden) as u32) + seq![
        rms_bf16(
            n,
            hidden,
            eps_bits,
            Buf::start(1),
            layer.post_attention_layernorm.offset_bytes,
        ),
        Step::VectorAddBf16 {
            dst: Buf::At(residual),
            src: Buf::start(1),
            n: (n * hidden) as u32,
        },
    ]
}

fn plan_post_attn_dev(
    single: &'static str,
    bf16: &'static str,
    layer: &Gemma4Nvfp4LayerLoaded,
    hidden: u32,
    eps_bits: u32,
    n: u32,
    attn_out: u64,
    residual: u64,
) -> (r: Vec<Step>)
    requires
        layer.o_proj.shape@.len() >= 2,
        n * hidden <= 0x7fff_ffff,
        4 * (n * hidden) <= usize::MAX,
    ensures
        r@ == post_attn_dev_steps(single, bf16, layer, hidden, eps_bits, n, attn_out, residual),
{
    let elems: u32 = n * hidden;
    let s: Vec<Step> =
        vec![
        Step::Region { name: single, bytes: elems as usize * 4, align: 256 },
        Step::Region { name: bf16, bytes: elems as usize * 2, align: 256 },
        gemma4_nvfp4_attn_proj(
            Buf::At(attn_out),
            layer.o_proj.offset_bytes,
            Buf::start(0),
            n as i32,
            hidden as i32,
            layer.o_proj.shape[1] as i32,
        ),
    ];
    let s = extend(s, launch_f32_to_bf16(Buf::start(1), Buf::start(0), elems));
    let tail: Vec<Step> =
        vec![
        rms_bf16(
            n,
            hidden,
            eps_bits,
            Buf::start(1),
            layer.post_attention_layernorm.offset_bytes,
        ),
        Step::VectorAddBf16 { dst: Buf::At(residual), src: Buf::start(1), n: elems },
    ];
    let r = extend(s, tail);
    assert(r@ =~= post_attn_dev_steps(
        single,
        bf16,
        layer,
        hidden,
        eps_bits,
        n,
        attn_out,
        residual,
    ));
    r
}

/// Names of the regions and readings of an MLP block on the host.
#[derive(Clone, Copy, Debug)]
pub struct MlpNames {
    pub resid: &'static str,
    pub normed: &'static str,
    pub scratch: &'static str,
    pub out: &'static str,
    pub read_values: &'static str,
    pub read_scalar: &'static str,
    pub read_out: &'static str,
}

/// The MLP block of one token whose residual the host holds: regions 0 to 3
/// are the residual, its normalized copy, the scratch and the output. The
/// host scales the output by the layer's scalar.
pub open spec fn mlp_host(
    names: MlpNames,
    layer: &Gemma4Nvfp4LayerLoaded,
    hidden: u32,
    intermediate: u32,
    eps_bits: u32,
) -> ProgramView {
    let bytes = (2 * hidden) as usize;
    completes(
        seq![
            Step::Region { name: names.resid, bytes, align: 256 },
            Step::Region { name: names.normed, bytes, align: 256 },
            Step::Region {
                name: names.scratch,
                bytes: (4 * intermediate) as usize,
                align: 256,
            },
            Step::Region { name: names.out, bytes, align: 256 },
            Step::WriteInput { dst: Buf::start(0), input: 0, bytes },
            Step::WriteInput { dst: Buf::start(1), input: 0, bytes },
            rms_bf16(
                1,
                hidden,
                eps_bits,
                Buf::start(1),
                layer.pre_feedforward_layernorm.offset_bytes,
            ),
        ],
    ).followed_by(
        mlp_spec(
            Buf::start(1),
            Buf::start(3),
            &layer.gate_proj,
            &layer.up_proj,
            &layer.down_proj,
            Buf::start(2),
        ),
    ).followed_by(
        completes(
            seq![
                rms_bf16(
                    1,
                    hidden,
                    eps_bits,
                    Buf::start(3),
                    layer.post_feedforward_layernorm.offset_bytes,
                ),
                Step::Read {
                    src: Buf::start(3),
                    bytes,
                    on_fail: OnFail::Memcpy(names.read_values),
                },
                Step::Read {
                    src: Buf::At(layer.layer_scalar.offset_bytes),
                    bytes: 2,
                    on_fail: OnFail::Memcpy(names.read_scalar),
                },
                Step::ScaleReading { values: 0, scalar: 1, dst: Buf::start(3) },
                Step::VectorAddBf16 { dst: Buf::start(0), src: Buf::start(3), n: hidden },
                Step::Fence,
                Step::Read {
                    src: Buf::start(0),
                    bytes,
                    on_fail: OnFail::Memcpy(names.read_out),
                },
                Step::Release,
            ],
        ),
    )
}

fn plan_mlp_host(
    names: MlpNames,
    layer: &Gemma4Nvfp4LayerLoaded,
    hidden: u32,
    intermediate: u32,
    eps_bits: u32,
) -> (r: Program)
    requires
        layer.gate_proj.shape.n <= 0x3fff_ffff,
        4 * hidden <= usize::MAX,
        4 * intermediate <= usize::MAX,
    ensures
        r@ == mlp_host(names, layer, hidden, intermediate, eps_bits),
{
    let bytes: usize = hidden as usize * 2;
    let head: Vec<Step> =
        vec![
        Step::Region { name: names.resid, bytes, align: 256 },
        Step::Region { name: names.normed, bytes, align: 256 },
        Step::Region { name: names.scratch, bytes: intermediate as usize * 4, align: 256 },
        Step::Region { name: names.out, bytes, align: 256 },
        Step::WriteInput { dst: Buf::start(0), input: 0, bytes },
        Step::WriteInput { dst: Buf::start(1), input: 0, bytes },
        rms_bf16(
            1,
            hidden,
            eps_bits,
            Buf::start(1),
            layer.pre_feedforward_layernorm.offset_bytes,
        ),
    ];
    let middle = gemma4_nvfp4_mlp_forward(
        Buf::start(1),
        Buf::start(3),
        &layer.gate_proj,
        &layer.up_proj,
        &layer.down_proj,
        Buf::start(2),
    );
    let tail: Vec<Step> =
        vec![
        rms_bf16(
            1,
            hidden,
            eps_bits,
            Buf::start(3),
            layer.post_feedforward_layernorm.offset_bytes,
        ),
        Step::Read { src: Buf::start(3), bytes, on_fail: OnFail::Memcpy(names.read_values) },
        Step::Read {
            src: Buf::At(layer.layer_scalar.offset_bytes),
            bytes: 2,
            on_fail: OnFail::Memcpy(names.read_scalar),
        },
        Step::ScaleReading { values: 0, scalar: 1, dst: Buf::start(3) },
        Step::VectorAddBf16 { dst: Buf::start(0), src: Buf::start(3), n: hidden },
        Step::Fence,
        Step::Read { src: Buf::start(0), bytes, on_fail: OnFail::Memcpy(names.read_out) },
        Step::Release,
    ];
    let r = Program::complete(head).followed_by(middle).followed_by(Program::complete(tail));
    assert(r@ =~= mlp_host(names, layer, hidden, intermediate, eps_bits));
    r
}

/// The MLP on the first `n` rows, row by row: inputs from region 0, outputs to
/// region 2, the scratch of region 1 shared.
pub open spec fn mlp_rows(layer: &Gemma4Nvfp4LayerLoaded, hidden: u32, n: nat) -> ProgramView
    decreases n,
{
    if n == 0 {
        completes(Seq::empty())
    } else {
        let off = ((n - 1) * (2 * hidden)) as u64;
        mlp_rows(layer, hidden, (n - 1) as nat).followed_by(
            mlp_spec(
                Buf::start(0).plus(off),
                Buf::start(2).plus(off),
                &layer.gate_proj,
                &layer.up_proj,
                &layer.down_proj,
                Buf::start(1),
            ),
        )
    }
}

/// Names of the regions of an MLP block on the device.
#[derive(Clone, Copy, Debug)]
pub struct MlpDevNames {
    pub normed: &'static str,
    pub scratch: &'static str,
    pub out: &'static str,
    pub copy: &'static str,
}

/// The MLP block of `n` tokens on the device: regions 0 to 2 are the
/// normalized copy of the residual, the scratch of one row and the output,
/// which the layer's scalar weighs in the residual.
pub open spec fn mlp_dev(
    names: MlpDevNames,
    layer: &Gemma4Nvfp4LayerLoaded,
    hidden: u32,
    intermediate: u32,
    eps_bits: u32,
    n: u32,
    residual: u64,
) -> ProgramView {
    let bytes = (2 * (n * hidden)) as usize;
    completes(
        seq![
            Step::Region { name: names.normed, bytes, align: 256 },
            Step::Region {
                name: names.scratch,
                bytes: (4 * intermediate) as usize,
                align: 256,
            },
            Step::Region { name: names.out, bytes, align: 256 },
            Step::Copy {
                dst: Buf::start(0),
                src: Buf::At(residual),
                bytes,
                on_fail: OnFail::Memcpy(names.copy),
            },
            rms_bf16(
                n,
                hidden,
                eps_bits,
                Buf::start(0),
                layer.pre_feedforward_layernorm.offset_bytes,
            ),
        ],
    ).followed_by(mlp_rows(layer, hidden, n as nat)).followed_by(
        completes(
            seq![
                rms_bf16(
                    n,
                    hidden,
                    eps_bits,
                    Buf::start(2),
                    layer.post_feedforward_layernorm.offset_bytes,
                ),
            ] + scaled_add_spec(
                Buf::At(residual),
                Buf::start(2),
                layer.layer_scalar.offset_bytes,
                (n * hidden) as u32,
            ),
        ),
    )
}

fn plan_mlp_rows(layer: &Gemma4Nvfp4LayerLoaded, hidden: u32, n: u32) -> (r: Program)
    requires
        layer.gate_proj.shape.n <= 0x3fff_ffff,
        n * hidden <= 0x7fff_ffff,
    ensures
        r@ == mlp_rows(layer, hidden, n as nat),
{
    let mut r = Program::complete(Vec::new());
    let mut t: u32 = 0;
    assert(r@ =~= mlp_rows(layer, hidden, 0));
    while t < n
        invariant
            t <= n,
            layer.gate_proj.shape.n <= 0x3fff_ffff,
            n * hidden <= 0x7fff_ffff,
            r@ == mlp_rows(layer, hidden, t as nat),
        decreases n - t,
    {
        assert(t * hidden <= n * hidden && t * (2 * hidden) == 2 * (t * hidden))
            by (nonlinear_arith)
            requires
                t <= n,
        ;
        let off: u64 = t as u64 * (2 * hidden as u64);
        let row = gemma4_nvfp4_mlp_forward(
            Buf::start(0).plus(off),
            Buf::start(2).plus(off),
            &layer.gate_proj,
            &layer.up_proj,
            &layer.down_proj,
            Buf::start(1),
        );
        r = r.followed_by(row);
        t = t + 1;
    }
    r
}

fn plan_mlp_dev(
    names: MlpDevNames,
    layer: &Gemma4Nvfp4LayerLoaded,
    hidden: u32,
    intermediate: u32,
    eps_bits: u32,
    n: u32,
    residual: u64,
) -> (r: Program)
    requires
        layer.gate_proj.shape.n <= 0x3fff_ffff,
        n * hidden <= 0x7fff_ffff,
        4 * (n * hidden) <= usize::MAX,
        4 * intermediate <= usize::MAX,
    ensures
        r@ == mlp_dev(names, layer, hidden, intermediate, eps_bits, n, residual),
{
    let elems: u32 = n * hidden;
    let bytes: usize = elems as usize * 2;
    let head: Vec<Step> =
        vec![
        Step::Region { name: names.normed, bytes, align: 256 },
        Step::Region { name: names.scratch, bytes: intermediate as usize * 4, align: 256 },
        Step::Region { name: names.out, bytes, align: 256 },
        Step::Copy {
            dst: Buf::start(0),
            src: Buf::At(residual),
            bytes,
            on_fail: OnFail::Memcpy(names.copy),
        },
        rms_bf16(
            n,
            hidden,
            eps_bits,
            Buf::start(0),
            layer.pre_feedforward_layernorm.offset_bytes,
        ),
    ];
    let middle = plan_mlp_rows(layer, hidden, n);
    let norm: Vec<Step> =
        vec![
        rms_bf16(
            n,
            hidden,
            eps_bits,
            Buf::start(2),
            layer.post_feedforward_layernorm.offset_bytes,
        ),
    ];
    let tail = extend(
        norm,
        launch_scaled_add_bf16(
            Buf::At(residual),
            Buf::start(2),
            layer.layer_scalar.offset_bytes,
            elems,
        ),
    );
    let r = Program::complete(head).followed_by(middle).followed_by(Program::complete(tail));
    assert(r@ =~= mlp_dev(names, layer, hidden, intermediate, eps_bits, n, residual));
    r
}

/// The layer's limits that this module needs.
proof fn lemma_post_limits(b: &Gemma4Nvfp4Bringup, l: int, n: nat)
    requires
        b.fits(n),
        0 <= l < b.arch.num_hidden_layers,
    ensures
        b.model.layers@[l].o_proj.shape@.len() >= 2,
        b.model.layers@[l].o_proj.shape@[1] <= 0x7fff_ffff,
        2 * b.model.layers@[l].o_proj.shape@[1] <= usize::MAX,
        b.model.layers@[l].gate_proj.shape.n <= 0x3fff_ffff,
        n * (b.arch.hidden_size as u32) <= 0x7fff_ffff,
        4 * (n * (b.arch.hidden_size as u32)) <= usize::MAX,
        4 * (b.arch.intermediate_size as u32) <= usize::MAX,
{
    assert(b.layer_fits(l, n));
    let hs = b.arch.hidden_size as nat;
    let h = b.arch.hidden_size as u32 as nat;
    assert(h <= hs);
    assert(n * h <= n * hs && 4 * n * hs == 4 * (n * hs)) by (nonlinear_arith)
        requires
            h <= hs,
    ;
}

impl Gemma4Nvfp4Bringup {
    /// The output projection of one token whose values the host holds.
    pub open spec fn host_post_attn(
        &self,
        layer_idx: usize,
        attn_out_len: usize,
        residual_len: usize,
    ) -> ProgramView {
        let layer = &self.model.layers@[layer_idx as int];
        let n_q = layer.o_proj.shape@[1] as i32;
        let hidden = self.arch.hidden_size as u32;
        if layer_idx >= self.arch.num_hidden_layers {
            refuses(
                corrupt_runtime_err(
                    Reason::two(
                        "forward_layer_post_attn: layer_idx=",
                        Arg::U(layer_idx as u64),
                        " >= num_hidden_layers=",
                        Arg::U(self.arch.num_hidden_layers as u64),
                        "",
                    ),
                ),
            )
        } else if attn_out_len != n_q as usize {
            refuses(
                corrupt_runtime_err(
                    Reason::two(
                        "forward_layer_post_attn: attn_out length ",
                        Arg::U(attn_out_len as u64),
                        " != N_q ",
                        Arg::I(n_q),
                        "",
                    ),
                ),
            )
        } else if residual_len != hidden as usize {
            refuses(
                corrupt_runtime_err(
                    Reason::two(
                        "forward_layer_post_attn: residual length ",
                        Arg::U(residual_len as u64),
                        " != hidden ",
                        Arg::U(hidden as u64),
                        "",
                    ),
                ),
            )
        } else {
            completes(
                post_attn_host_steps(
                    PostAttnNames {
                        input: "g4n_lN_post_attn_in",
                        resid: "g4n_lN_post_attn_resid",
                        single: "g4n_lN_post_attn_o_f32",
                        bf16: "g4n_lN_post_attn_o_bf16",
                        read_out: "forward_layer_post_attn: residual DtoH",
                    },
                    None,
                    layer,
                    hidden,
                    self.arch.rms_norm_eps_bits,
                ),
            )
        }
    }

    /// The output projection of one token whose values the host holds: the
    /// host arguments are attention output and residual, the reading the new
    /// residual, all in bf16.
    pub fn forward_layer_post_attn(
        &self,
        layer_idx: usize,
        attn_out_len: usize,
        residual_len: usize,
    ) -> (r: Program)
        requires
            self.fits(1),
        ensures
            r@ == self.host_post_attn(layer_idx, attn_out_len, residual_len),
    {
        if layer_idx >= self.arch.num_hidden_layers {
            return Program::refuse(
                corrupt_runtime_err(
                    Reason::two(
                        "forward_layer_post_attn: layer_idx=",
                        Arg::U(layer_idx as u64),
                        " >= num_hidden_layers=",
                        Arg::U(self.arch.num_hidden_layers as u64),
                        "",
                    ),
                ),
            );
        }
        proof {
            lemma_post_limits(self, layer_idx as int, 1);
        }
        let layer = &self.model.layers[layer_idx];
        let n_q: i32 = layer.o_proj.shape[1] as i32;
        let hidden: u32 = self.arch.hidden_size as u32;
        if attn_out_len != n_q as usize {
            return Program::refuse(
                corrupt_runtime_err(
                    Reason::two(
                        "forward_layer_post_attn: attn_out length ",
                        Arg::U(attn_out_len as u64),
                        " != N_q ",
                        Arg::I(n_q),
                        "",
                    ),
                ),
            );
        }
        if residual_len != hidden as usize {
            return Program::refuse(
                corrupt_runtime_err(
                    Reason::two(
                        "forward_layer_post_attn: residual length ",
                        Arg::U(residual_len as u64),
                        " != hidden ",
                        Arg::U(hidden as u64),
                        "",
                    ),
                ),
            );
        }
        let names = PostAttnNames {
            input: "g4n_lN_post_attn_in",
            resid: "g4n_lN_post_attn_resid",
            single: "g4n_lN_post_attn_o_f32",
            bf16: "g4n_lN_post_attn_o_bf16",
            read_out: "forward_layer_post_attn: residual DtoH",
        };
        Program::complete(
            plan_post_attn_host(names, None, layer, hidden, self.arch.rms_norm_eps_bits),
        )
    }

    /// The output projection of the first layer.
    pub open spec fn first_post_attn(&self, attn_out_len: usize, residual_len: usize) -> ProgramView {
        let layer = &self.model.layers@[0];
        let hidden = self.arch.hidden_size as u32;
        if attn_out_len != layer.o_proj.shape@[1] as i32 as usize {
            refuses(cuda_err("forward_layer0_post_attn: attn_out length != N_q"))
        } else if residual_len != hidden as usize {
            refuses(cuda_err("forward_layer0_post_attn: h_residual length != hidden"))
        } else {
            completes(
                post_attn_host_steps(
                    PostAttnNames {
                        input: "gemma4_nvfp4_post_attn_in",
                        resid: "gemma4_nvfp4_post_attn_resid",
                        single: "gemma4_nvfp4_post_attn_o_f32",
                        bf16: "gemma4_nvfp4_post_attn_o_bf16",
                        read_out: "post_attn: h_residual DtoH",
                    },
                    Some("post_attn: o f32 DtoH"),
                    layer,
                    hidden,
                    self.arch.rms_norm_eps_bits,
                ),
            )
        }
    }

    /// The output projection of the first layer, narrowed on the host.
    pub fn forward_layer0_post_attn(&self, attn_out_len: usize, residual_len: usize) -> (r: Program)
        requires
            self.fits(1),
            self.arch.num_hidden_layers > 0,
        ensures
            r@ == self.first_post_attn(attn_out_len, residual_len),
    {
        proof {
            lemma_post_limits(self, 0, 1);
        }
        let layer = &self.model.layers[0];
        let n_q: i32 = layer.o_proj.shape[1] as i32;
        let hidden: u32 = self.arch.hidden_size as u32;
        if attn_out_len != n_q as usize {
            return Program::refuse(cuda_err("forward_layer0_post_attn: attn_out length != N_q"));
        }
        if residual_len != hidden as usize {
            return Program::refuse(
                cuda_err("forward_layer0_post_attn: h_residual length != hidden"),
            );
        }
        let names = PostAttnNames {
            input: "gemma4_nvfp4_post_attn_in",
            resid: "gemma4_nvfp4_post_attn_resid",
            single: "gemma4_nvfp4_post_attn_o_f32",
            bf16: "gemma4_nvfp4_post_attn_o_bf16",
            read_out: "post_attn: h_residual DtoH",
        };
        Program::complete(
            plan_post_attn_host(
                names,
                Some("post_attn: o f32 DtoH"),
                layer,
                hidden,
                self.arch.rms_norm_eps_bits,
            ),
        )
    }

    /// The output projection of one token on the device.
    pub open spec fn post_attn_dev(&self, l: int, attn_out: u64, residual: u64) -> ProgramView {
        if l >= self.arch.num_hidden_layers {
            refuses(
                corrupt_runtime_err(
                    Reason::two(
                        "forward_layer_post_attn_dev: layer_idx=",
                        Arg::U(l as u64),
                        " >= ",
                        Arg::U(self.arch.num_hidden_layers as u64),
                        "",
                    ),
                ),
            )
        } else {
            completes(
                post_attn_dev_steps(
                    "g4n_dev_post_attn_o_f32",
                    "g4n_dev_post_attn_o_bf16",
                    &self.model.layers@[l],
                    self.arch.hidden_size as u32,
                    self.arch.rms_norm_eps_bits,
                    1,
                    attn_out,
                    residual,
                ),
            )
        }
    }

    /// The output projection of one token on the device, added to the
    /// residual in place.
    pub fn forward_layer_post_attn_dev(
        &self,
        layer_idx: usize,
        attn_out_dev: u64,
        residual_dev: u64,
    ) -> (r: Program)
        requires
            self.fits(1),
        ensures
            r@ == self.post_attn_dev(layer_idx as int, attn_out_dev, residual_dev),
    {
        if layer_idx >= self.arch.num_hidden_layers {
            return Program::refuse(
                corrupt_runtime_err(
                    Reason::two(
                        "forward_layer_post_attn_dev: layer_idx=",
                        Arg::U(layer_idx as u64),
                        " >= ",
                        Arg::U(self.arch.num_hidden_layers as u64),
                        "",
                    ),
                ),
            );
        }
        proof {
            lemma_post_limits(self, layer_idx as int, 1);
        }
        Program::complete(
            plan_post_attn_dev(
                "g4n_dev_post_attn_o_f32",
                "g4n_dev_post_attn_o_bf16",
                &self.model.layers[layer_idx],
                self.arch.hidden_size as u32,
                self.arch.rms_norm_eps_bits,
                1,
                attn_out_dev,
                residual_dev,
            ),
        )
    }

    /// The output projection of a prompt chunk on the device.
    pub open spec fn post_attn_batched_dev(
        &self,
        l: int,
        n: u32,
        attn_out: u64,
        residual: u64,
    ) -> ProgramView {
        if l >= self.arch.num_hidden_layers {
            refuses(
                corrupt_runtime_err(
                    Reason::two(
                        "post_attn_batched_dev: layer_idx=",
                        Arg::U(l as u64),
                        " >= ",
                        Arg::U(self.arch.num_hidden_layers as u64),
                        "",
                    ),
                ),
            )
        } else {
            completes(
                post_attn_dev_steps(
                    "g4n_batch_o_f32",
                    "g4n_batch_o_bf16",
                    &self.model.layers@[l],
                    self.arch.hidden_size as u32,
                    self.arch.rms_norm_eps_bits,
                    n,
                    attn_out,
                    residual,
                ),
            )
        }
    }

    /// The output projection of a prompt chunk on the device, added to the
    /// residuals in place.
    pub fn forward_layer_post_attn_batched_dev(
        &self,
        layer_idx: usize,
        num_tokens: u32,
        attn_out_dev: u64,
        residual_dev: u64,
    ) -> (r: Program)
        requires
            self.fits(num_tokens as nat),
        ensures
            r@ == self.post_attn_batched_dev(
                layer_idx as int,
                num_tokens,
                attn_out_dev,
                residual_dev,
            ),
    {
        if layer_idx >= self.arch.num_hidden_layers {
            return Program::refuse(
                corrupt_runtime_err(
                    Reason::two(
                        "post_attn_batched_dev: layer_idx=",
                        Arg::U(layer_idx as u64),
                        " >= ",
                        Arg::U(self.arch.num_hidden_layers as u64),
                        "",
                    ),
                ),
            );
        }
        proof {
            lemma_post_limits(self, layer_idx as int, num_tokens as nat);
        }
        Program::complete(
            plan_post_attn_dev(
                "g4n_batch_o_f32",
                "g4n_batch_o_bf16",
                &self.model.layers[layer_idx],
                self.arch.hidden_size as u32,
                self.arch.rms_norm_eps_bits,
                num_tokens,
                attn_out_dev,
                residual_dev,
            ),
        )
    }

    /// The MLP block of one token whose residual the host holds.
    pub open spec fn host_mlp(&self, layer_idx: usize, residual_len: usize) -> ProgramView {
        let hidden = self.arch.hidden_size as u32;
        if layer_idx >= self.arch.num_hidden_layers {
            refuses(
                corrupt_runtime_err(
                    Reason::two(
                        "forward_layer_post_attn_mlp: layer_idx=",
                        Arg::U(layer_idx as u64),
                        " >= num_hidden_layers=",
                        Arg::U(self.arch.num_hidden_layers as u64),
                        "",
                    ),
                ),
            )
        } else if residual_len != hidden as usize {
            refuses(
                corrupt_runtime_err(
                    Reason::two(
                        "forward_layer_post_attn_mlp: residual length ",
                        Arg::U(residual_len as u64),
                        " != hidden ",
                        Arg::U(hidden as u64),
                        "",
                    ),
                ),
            )
        } else {
            mlp_host(
                MlpNames {
                    resid: "g4n_lN_pamlp_resid",
                    normed: "g4n_lN_pamlp_normed",
                    scratch: "g4n_lN_pamlp_scratch",
                    out: "g4n_lN_pamlp_out",
                    read_values: "forward_layer_post_attn_mlp: mlp_normed DtoH",
                    read_scalar: "forward_layer_post_attn_mlp: layer_scalar DtoH",
                    read_out: "forward_layer_post_attn_mlp: residual DtoH",
                },
                &self.model.layers@[layer_idx as int],
                hidden,
                self.arch.intermediate_size as u32,
                self.arch.rms_norm_eps_bits,
            )
        }
    }

    /// The MLP block of one token whose residual the host holds: the host
    /// argument is the bf16 residual, the last reading the new one.
    pub fn forward_layer_post_attn_mlp(&self, layer_idx: usize, residual_len: usize) -> (r: Program)
        requires
            self.fits(1),
        ensures
            r@ == self.host_mlp(layer_idx, residual_len),
    {
        if layer_idx >= self.arch.num_hidden_layers {
            return Program::refuse(
                corrupt_runtime_err(
                    Reason::two(
                        "forward_layer_post_attn_mlp: layer_idx=",
                        Arg::U(layer_idx as u64),
                        " >= num_hidden_layers=",
                        Arg::U(self.arch.num_hidden_layers as u64),
                        "",
                    ),
                ),
            );
        }
        let hidden: u32 = self.arch.hidden_size as u32;
        if residual_len != hidden as usize {
            return Program::refuse(
                corrupt_runtime_err(
                    Reason::two(
                        "forward_layer_post_attn_mlp: residual length ",
                        Arg::U(residual_len as u64),
                        " != hidden ",
                        Arg::U(hidden as u64),
                        "",
                    ),
                ),
            );
        }
        proof {
            lemma_post_limits(self, layer_idx as int, 1);
        }
        let names = MlpNames {
            resid: "g4n_lN_pamlp_resid",
            normed: "g4n_lN_pamlp_normed",
            scratch: "g4n_lN_pamlp_scratch",
            out: "g4n_lN_pamlp_out",
            read_values: "forward_layer_post_attn_mlp: mlp_normed DtoH",
            read_scalar: "forward_layer_post_attn_mlp: layer_scalar DtoH",
            read_out: "forward_layer_post_attn_mlp: residual DtoH",
        };
        plan_mlp_host(
            names,
            &self.model.layers[layer_idx],
            hidden,
            self.arch.intermediate_size as u32,
            self.arch.rms_norm_eps_bits,
        )
    }

    /// The MLP block of the first layer.
    pub open spec fn first_mlp(&self, residual_len: usize) -> ProgramView {
        if residual_len != self.arch.hidden_size as u32 as usize {
            refuses(cuda_err("forward_layer0_post_attn_mlp: h_residual length != hidden"))
        } else {
            mlp_host(
                MlpNames {
                    resid: "gemma4_nvfp4_post_attn_mlp_resid",
                    normed: "gemma4_nvfp4_post_attn_mlp_normed",
                    scratch: "gemma4_nvfp4_post_attn_mlp_scratch",
                    out: "gemma4_nvfp4_post_attn_mlp_out",
                    read_values: "post_attn_mlp: mlp_normed DtoH",
                    read_scalar: "post_attn_mlp: layer_scalar DtoH",
                    read_out: "post_attn_mlp: h_out DtoH",
                },
                &self.model.layers@[0],
                self.arch.hidden_size as u32,
                self.arch.intermediate_size as u32,
                self.arch.rms_norm_eps_bits,
            )
        }
    }

    /// The MLP block of the first layer.
    pub fn forward_layer0_post_attn_mlp(&self, residual_len: usize) -> (r: Program)
        requires
            self.fits(1),
            self.arch.num_hidden_layers > 0,
        ensures
            r@ == self.first_mlp(residual_len),
    {
        let hidden: u32 = self.arch.hidden_size as u32;
        if residual_len != hidden as usize {
            return Program::refuse(
                cuda_err("forward_layer0_post_attn_mlp: h_residual length != hidden"),
            );
        }
        proof {
            lemma_post_limits(self, 0, 1);
        }
        let names = MlpNames {
            resid: "gemma4_nvfp4_post_attn_mlp_resid",
            normed: "gemma4_nvfp4_post_attn_mlp_normed",
            scratch: "gemma4_nvfp4_post_attn_mlp_scratch",
            out: "gemma4_nvfp4_post_attn_mlp_out",
            read_values: "post_attn_mlp: mlp_normed DtoH",
            read_scalar: "post_attn_mlp: layer_scalar DtoH",
            read_out: "post_attn_mlp: h_out DtoH",
        };
        plan_mlp_host(
            names,
            &self.model.layers[0],
            hidden,
            self.arch.intermediate_size as u32,
            self.arch.rms_norm_eps_bits,
        )
    }

    /// The MLP block of one token on the device.
    pub open spec fn post_attn_mlp_dev(&self, l: int, residual: u64) -> ProgramView {
        if l >= self.arch.num_hidden_layers {
            refuses(
                corrupt_runtime_err(
                    Reason::two(
                        "forward_layer_post_attn_mlp_dev: layer_idx=",
                        Arg::U(l as u64),
                        " >= ",
                        Arg::U(self.arch.num_hidden_layers as u64),
                        "",
                    ),
                ),
            )
        } else {
            mlp_dev(
                MlpDevNames {
                    normed: "g4n_dev_pamlp_normed",
                    scratch: "g4n_dev_pamlp_scratch",
                    out: "g4n_dev_pamlp_out",
                    copy: "forward_layer_post_attn_mlp_dev: residual DtoD",
                },
                &self.model.layers@[l],
                self.arch.hidden_size as u32,
                self.arch.intermediate_size as u32,
                self.arch.rms_norm_eps_bits,
                1,
                residual,
            )
        }
    }

    /// The MLP block of one token on the device, added to the residual in
    /// place.
    pub fn forward_layer_post_attn_mlp_dev(&self, layer_idx: usize, residual_dev: u64) -> (r:
        Program)
        requires
            self.fits(1),
        ensures
            r@ == self.post_attn_mlp_dev(layer_idx as int, residual_dev),
    {
        if layer_idx >= self.arch.num_hidden_layers {
            return Program::refuse(
                corrupt_runtime_err(
                    Reason::two(
                        "forward_layer_post_attn_mlp_dev: layer_idx=",
                        Arg::U(layer_idx as u64),
                        " >= ",
                        Arg::U(self.arch.num_hidden_layers as u64),
                        "",
                    ),
                ),
            );
        }
        proof {
            lemma_post_limits(self, layer_idx as int, 1);
        }
        let names = MlpDevNames {
            normed: "g4n_dev_pamlp_normed",
            scratch: "g4n_dev_pamlp_scratch",
            out: "g4n_dev_pamlp_out",
            copy: "forward_layer_post_attn_mlp_dev: residual DtoD",
        };
        plan_mlp_dev(
            names,
            &self.model.layers[layer_idx],
            self.arch.hidden_size as u32,
            self.arch.intermediate_size as u32,
            self.arch.rms_norm_eps_bits,
            1,
            residual_dev,
        )
    }

    /// The MLP block of a prompt chunk on the device.
    pub open spec fn post_attn_mlp_batched_dev(
        &self,
        l: int,
        n: u32,
        residual: u64,
    ) -> ProgramView {
        if l >= self.arch.num_hidden_layers {
            refuses(
                corrupt_runtime_err(
                    Reason::two(
                        "post_attn_mlp_batched_dev: layer_idx=",
                        Arg::U(l as u64),
                        " >= ",
                        Arg::U(self.arch.num_hidden_layers as u64),
                        "",
                    ),
                ),
            )
        } else {
            mlp_dev(
                MlpDevNames {
                    normed: "g4n_batch_pamlp_normed",
                    scratch: "g4n_batch_pamlp_scratch",
                    out: "g4n_batch_pamlp_out",
                    copy: "post_attn_mlp_batched_dev: residual DtoD",
                },
                &self.model.layers@[l],
                self.arch.hidden_size as u32,
                self.arch.intermediate_size as u32,
                self.arch.rms_norm_eps_bits,
                n,
                residual,
            )
        }
    }

    /// The MLP block of a prompt chunk on the device, row by row between
    /// norms of all rows.
    pub fn forward_layer_post_attn_mlp_batched_dev(
        &self,
        layer_idx: usize,
        num_tokens: u32,
        residual_dev: u64,
    ) -> (r: Program)
        requires
            self.fits(num_tokens as nat),
        ensures
            r@ == self.post_attn_mlp_batched_dev(layer_idx as int, num_tokens, residual_dev),
    {
        if layer_idx >= self.arch.num_hidden_layers {
            return Program::refuse(
                corrupt_runtime_err(
                    Reason::two(
                        "post_attn_mlp_batched_dev: layer_idx=",
                        Arg::U(layer_idx as u64),
                        " >= ",
                        Arg::U(self.arch.num_hidden_layers as u64),
                        "",
                    ),
                ),
            );
        }
        proof {
            lemma_post_limits(self, layer_idx as int, num_tokens as nat);
        }
        let names = MlpDevNames {
            normed: "g4n_batch_pamlp_normed",
            scratch: "g4n_batch_pamlp_scratch",
            out: "g4n_batch_pamlp_out",
            copy: "post_attn_mlp_batched_dev: residual DtoD",
        };
        plan_mlp_dev(
            names,
            &self.model.layers[layer_idx],
            self.arch.hidden_size as u32,
            self.arch.intermediate_size as u32,
            self.arch.rms_norm_eps_bits,
            num_tokens,
            residual_dev,
        )
    }
}

} // verus!
