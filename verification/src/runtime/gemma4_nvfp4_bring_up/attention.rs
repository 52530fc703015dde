//! Attention of one layer: from the residual to the attention output.
//!
//! Three programs share their middle: one for a host that holds the residual,
//! one that keeps it on the device, and one that runs a whole prompt at once.
//! In each, region 0 holds the normalized input, regions 1 to 3 the 32-bit
//! projections, 4 to 6 the bf16 ones and 7 the FP8 queries.

use crate::loader::gemma4_nvfp4_weights::Gemma4Nvfp4LayerLoaded;
use crate::runtime::error::{corrupt_runtime_err, Arg, Reason, RuntimeError};
use crate::runtime::gemma4_nvfp4_bring_up::kv_state::Gemma4Nvfp4KvState;
use crate::runtime::gemma4_nvfp4_bring_up::launches::{
    decode_shared, decode_spec, extend, fill_pos_slots, fill_spec, launch_f32_to_bf16,
    launch_rope_write, launch_vnorm_bf16, narrow_spec, plan_decode, rope_write_spec, HeadPlan,
    UNIT_SCALE_BITS,
};
use crate::runtime::gemma4_nvfp4_bring_up::model::{Gemma4Nvfp4Bringup, ProjPlan, ValueFault};
use crate::runtime::gemma4_nvfp4_ops::gemma4_nvfp4_attn_proj;
use crate::runtime::step::{
    completes, fails, refuses, Buf, Format16, OnFail, PrefillArgs, Program, ProgramView, Step,
};
use vstd::prelude::*;

verus! {

/// Names of the scratch regions of an attention program.
#[derive(Clone, Copy, Debug)]
pub struct AttnNames {
    pub input: &'static str,
    pub q_single: &'static str,
    pub k_single: &'static str,
    pub v_single: &'static str,
    pub q_bf16: &'static str,
    pub k_bf16: &'static str,
    pub v_bf16: &'static str,
    pub q_fp8: &'static str,
}

/// Query, key and value projections of `n` tokens from region 0 into regions
/// 1 to 3. Without a value projection the values are a copy of the keys.
pub open spec fn projection_steps(
    names: AttnNames,
    p: ProjPlan,
    layer: &Gemma4Nvfp4LayerLoaded,
    hidden: u32,
    n: u32,
    copy_label: &'static str,
) -> Seq<Step> {
    let m = n as i32;
    let k = hidden as i32;
    seq![
        Step::Region { name: names.q_single, bytes: (n * p.n_q * 4) as usize, align: 256 },
        Step::Region { name: names.k_single, bytes: (n * p.n_kv * 4) as usize, align: 256 },
        Step::Region { name: names.v_single, bytes: (n * p.n_v * 4) as usize, align: 256 },
        gemma4_nvfp4_attn_proj(
            Buf::start(0),
            layer.q_proj.offset_bytes,
            Buf::start(1),
            m,
            p.n_q,
            k,
        ),
        gemma4_nvfp4_attn_proj(
            Buf::start(0),
            layer.k_proj.offset_bytes,
            Buf::start(2),
            m,
            p.n_kv,
            k,
        ),
        match p.v_weight {
            Some(w) => gemma4_nvfp4_attn_proj(Buf::start(0), w, Buf::start(3), m, p.n_v, k),
            None => Step::Copy {
                dst: Buf::start(3),
                src: Buf::start(2),
                bytes: (n * p.n_v * 4) as usize,
                on_fail: OnFail::Memcpy(copy_label),
            },
        },
    ]
}

/// The regions of the bf16 projections and the FP8 queries.
pub open spec fn narrow_regions(names: AttnNames, p: ProjPlan, n: u32) -> Seq<Step> {
    seq![
        Step::Region { name: names.q_bf16, bytes: (n * p.n_q * 2) as usize, align: 256 },
        Step::Region { name: names.k_bf16, bytes: (n * p.n_kv * 2) as usize, align: 256 },
        Step::Region { name: names.v_bf16, bytes: (n * p.n_v * 2) as usize, align: 256 },
        Step::Region { name: names.q_fp8, bytes: (n * p.n_q) as usize, align: 256 },
    ]
}

/// Narrows the three projections.
pub open spec fn narrowing_steps(p: ProjPlan, n: u32) -> Seq<Step> {
    narrow_spec(Buf::start(4), Buf::start(1), (n * p.n_q) as u32) + narrow_spec(
        Buf::start(5),
        Buf::start(2),
        (n * p.n_kv) as u32,
    ) + narrow_spec(Buf::start(6), Buf::start(3), (n * p.n_v) as u32)
}

/// Normalizes queries, keys and values head by head.
pub open spec fn head_norm_steps(
    h: HeadPlan,
    layer: &Gemma4Nvfp4LayerLoaded,
    n: u32,
    eps_bits: u32,
) -> Seq<Step> {
    seq![
        Step::RmsNorm {
            format: Format16::Bf16,
            rows: (n * h.num_q_heads) as u32,
            width: h.head_dim as u32,
            eps_bits,
            data: Buf::start(4),
            gamma: layer.q_norm.offset_bytes,
        },
        Step::RmsNorm {
            format: Format16::Bf16,
            rows: (n * h.num_kv_heads) as u32,
            width: h.head_dim as u32,
            eps_bits,
            data: Buf::start(5),
            gamma: layer.k_norm.offset_bytes,
        },
        launch_vnorm_bf16(
            Buf::start(6),
            (n * h.num_kv_heads) as u32,
            h.head_dim as u32,
            eps_bits,
        ),
    ]
}

fn plan_projections(
    names: AttnNames,
    p: ProjPlan,
    layer: &Gemma4Nvfp4LayerLoaded,
    hidden: u32,
    n: u32,
    copy_label: &'static str,
) -> (r: Vec<Step>)
    requires
        p.n_q >= 0,
        p.n_kv >= 0,
        p.n_v >= 0,
        4 * (n * p.n_q) <= usize::MAX,
        4 * (n * p.n_kv) <= usize::MAX,
        4 * (n * p.n_v) <= usize::MAX,
    ensures
        r@ == projection_steps(names, p, layer, hidden, n, copy_label),
{
    let m: i32 = n as i32;
    let k: i32 = hidden as i32;
    let q: usize = n as usize * p.n_q as usize;
    let kk: usize = n as usize * p.n_kv as usize;
    let v: usize = n as usize * p.n_v as usize;
    let value = match p.v_weight {
        Some(w) => gemma4_nvfp4_attn_proj(Buf::start(0), w, Buf::start(3), m, p.n_v, k),
        None => Step::Copy {
            dst: Buf::start(3),
            src: Buf::start(2),
            bytes: v * 4,
            on_fail: OnFail::Memcpy(copy_label),
        },
    };
    let r: Vec<Step> =
        vec![
        Step::Region { name: names.q_single, bytes: q * 4, align: 256 },
        Step::Region { name: names.k_single, bytes: kk * 4, align: 256 },
        Step::Region { name: names.v_single, bytes: v * 4, align: 256 },
        gemma4_nvfp4_attn_proj(
            Buf::start(0),
            layer.q_proj.offset_bytes,
            Buf::start(1),
            m,
            p.n_q,
            k,
        ),
        gemma4_nvfp4_attn_proj(
            Buf::start(0),
            layer.k_proj.offset_bytes,
            Buf::start(2),
            m,
            p.n_kv,
            k,
        ),
        value,
    ];
    assert(r@ =~= projection_steps(names, p, layer, hidden, n, copy_label));
    r
}

fn plan_narrow_regions(names: AttnNames, p: ProjPlan, n: u32) -> (r: Vec<Step>)
    requires
        p.n_q >= 0,
        p.n_kv >= 0,
        p.n_v >= 0,
        4 * (n * p.n_q) <= usize::MAX,
        4 * (n * p.n_kv) <= usize::MAX,
        4 * (n * p.n_v) <= usize::MAX,
    ensures
        r@ == narrow_regions(names, p, n),
{
    let q: usize = n as usize * p.n_q as usize;
    let k: usize = n as usize * p.n_kv as usize;
    let v: usize = n as usize * p.n_v as usize;
    let r: Vec<Step> =
        vec![
        Step::Region { name: names.q_bf16, bytes: q * 2, align: 256 },
        Step::Region { name: names.k_bf16, bytes: k * 2, align: 256 },
        Step::Region { name: names.v_bf16, bytes: v * 2, align: 256 },
        Step::Region { name: names.q_fp8, bytes: q, align: 256 },
    ];
    assert(r@ =~= narrow_regions(names, p, n));
    r
}

fn plan_narrowing(p: ProjPlan, n: u32) -> (r: Vec<Step>)
    requires
        p.n_q >= 0,
        p.n_kv >= 0,
        p.n_v >= 0,
        n * p.n_q <= 0x7fff_ffff,
        n * p.n_kv <= 0x7fff_ffff,
        n * p.n_v <= 0x7fff_ffff,
    ensures
        r@ == narrowing_steps(p, n),
{
    let q: u32 = n * p.n_q as u32;
    let k: u32 = n * p.n_kv as u32;
    let v: u32 = n * p.n_v as u32;
    let a = launch_f32_to_bf16(Buf::start(4), Buf::start(1), q);
    let b = launch_f32_to_bf16(Buf::start(5), Buf::start(2), k);
    let c = launch_f32_to_bf16(Buf::start(6), Buf::start(3), v);
    extend(extend(a, b), c)
}

fn plan_head_norms(h: HeadPlan, layer: &Gemma4Nvfp4LayerLoaded, n: u32, eps_bits: u32) -> (r: Vec<
    Step,
>)
    requires
        n * h.num_q_heads <= u32::MAX,
        n * h.num_kv_heads <= u32::MAX,
        h.num_q_heads <= u32::MAX,
        h.num_kv_heads <= u32::MAX,
    ensures
        r@ == head_norm_steps(h, layer, n, eps_bits),
{
    let q_rows: u32 = n * h.num_q_heads as u32;
    let kv_rows: u32 = n * h.num_kv_heads as u32;
    let width: u32 = h.head_dim as u32;
    let r: Vec<Step> =
        vec![
        Step::RmsNorm {
            format: Format16::Bf16,
            rows: q_rows,
            width,
            eps_bits,
            data: Buf::start(4),
            gamma: layer.q_norm.offset_bytes,
        },
        Step::RmsNorm {
            format: Format16::Bf16,
            rows: kv_rows,
            width,
            eps_bits,
            data: Buf::start(5),
            gamma: layer.k_norm.offset_bytes,
        },
        launch_vnorm_bf16(Buf::start(6), kv_rows, width, eps_bits),
    ];
    assert(r@ =~= head_norm_steps(h, layer, n, eps_bits));
    r
}

/// What a fitting layer gives for `n` tokens.
pub proof fn lemma_layer_limits(b: &Gemma4Nvfp4Bringup, l: int, n: nat)
    requires
        b.fits(n),
        n >= 1,
        0 <= l < b.arch.num_hidden_layers,
        b.value_fault(l) is None,
    ensures
        ({
            let p = b.proj(l);
            let h = b.heads(l);
            &&& 0 <= p.n_q && 0 <= p.n_kv && 0 <= p.n_v
            &&& n * p.n_q <= 0x7fff_ffff && n * p.n_kv <= 0x7fff_ffff && n * p.n_v <= 0x7fff_ffff
            &&& 4 * (n * p.n_q) <= usize::MAX && 4 * (n * p.n_kv) <= usize::MAX && 4 * (n
                * p.n_v) <= usize::MAX
            &&& h.num_kv_heads > 0
            &&& h.num_q_heads * h.head_dim <= p.n_q
            &&& h.num_kv_heads * h.head_dim <= p.n_kv
            &&& n * h.num_q_heads <= 0x7fff_ffff && n * h.num_kv_heads <= 0x7fff_ffff
            &&& h.num_q_heads <= 0x7fff_ffff && h.num_kv_heads <= 0x7fff_ffff
            &&& n * (h.num_q_heads * h.head_dim) <= n * p.n_q
            &&& decode_shared(h.head_dim as nat, true) <= u32::MAX
        }),
        b.fits(1),
{
    assert(b.layer_fits(l, n));
    let p = b.proj(l);
    let h = b.heads(l);
    let q = b.model.layers@[l].q_proj.shape@[0] as int;
    let k = b.model.layers@[l].k_proj.shape@[0] as int;
    let d = h.head_dim as int;
    vstd::arithmetic::div_mod::lemma_fundamental_div_mod(q, d);
    vstd::arithmetic::div_mod::lemma_fundamental_div_mod(k, d);
    assert((q / d) * d <= q && (k / d) * d <= k && q / d <= q && k / d <= k && k / d >= 1)
        by (nonlinear_arith)
        requires
            q == d * (q / d) + q % d,
            k == d * (k / d) + k % d,
            0 <= q % d < d,
            0 <= k % d < d,
            q >= 0,
            k >= d,
            d > 0,
    ;
    let a = q / d;
    let c = k / d;
    assert(n * a <= n * q && n * c <= n * k && n * (a * d) <= n * q && a <= n * q && c <= n * k)
        by (nonlinear_arith)
        requires
            0 <= a <= q,
            0 <= c <= k,
            a * d <= q,
            n >= 1,
    ;
    lemma_fits_one(b, n);
}

/// A model that fits for some tokens fits for one.
pub proof fn lemma_fits_one(b: &Gemma4Nvfp4Bringup, n: nat)
    requires
        b.fits(n),
        n >= 1,
    ensures
        b.fits(1),
{
    let hs = b.arch.hidden_size as nat;
    assert(hs <= n * hs && 4 * 1 * hs <= 4 * n * hs) by (nonlinear_arith)
        requires
            n >= 1,
    ;
    assert forall|l: int| 0 <= l < b.model.layers@.len() implies #[trigger] b.layer_fits(l, 1) by {
        assert(b.layer_fits(l, n));
        let layer = b.model.layers@[l];
        let q = layer.q_proj.shape@[0] as nat;
        let k = layer.k_proj.shape@[0] as nat;
        assert(q <= n * q && k <= n * k) by (nonlinear_arith)
            requires
                n >= 1,
        ;
        if let Some(w) = layer.v_proj {
            let v = w.shape@[0] as nat;
            assert(v <= n * v) by (nonlinear_arith)
                requires
                    n >= 1,
            ;
        }
    }
}

/// Names of the regions of the host program.
pub open spec fn host_names() -> AttnNames {
    AttnNames {
        input: "g4n_lN_resid_bf16",
        q_single: "g4n_lN_q_f32",
        k_single: "g4n_lN_k_f32",
        v_single: "g4n_lN_v_f32",
        q_bf16: "g4n_lN_q_bf16",
        k_bf16: "g4n_lN_k_bf16",
        v_bf16: "g4n_lN_v_bf16",
        q_fp8: "g4n_lN_q_fp8",
    }
}

/// Names of the regions of the device program.
pub open spec fn dev_names() -> AttnNames {
    AttnNames {
        input: "g4n_dev_h_normed",
        q_single: "g4n_dev_q_f32",
        k_single: "g4n_dev_k_f32",
        v_single: "g4n_dev_v_f32",
        q_bf16: "g4n_dev_q_bf16",
        k_bf16: "g4n_dev_k_bf16",
        v_bf16: "g4n_dev_v_bf16",
        q_fp8: "g4n_dev_q_fp8",
    }
}

/// Names of the regions of the batched program.
pub open spec fn batch_names() -> AttnNames {
    AttnNames {
        input: "g4n_batch_h_normed",
        q_single: "g4n_batch_q_f32",
        k_single: "g4n_batch_k_f32",
        v_single: "g4n_batch_v_f32",
        q_bf16: "g4n_batch_q_bf16",
        k_bf16: "g4n_batch_k_bf16",
        v_bf16: "g4n_batch_v_bf16",
        q_fp8: "g4n_batch_q_fp8",
    }
}

impl Gemma4Nvfp4Bringup {
    /// What the host program refuses before it does anything.
    pub open spec fn host_attn_fault(
        &self,
        l: int,
        residual_len: usize,
        position: u32,
        kv: &Gemma4Nvfp4KvState,
    ) -> Option<RuntimeError> {
        let p = self.proj(l);
        if l >= self.arch.num_hidden_layers {
            Some(
                corrupt_runtime_err(
                    Reason::two(
                        "forward_layer_attn_from_residual: layer_idx=",
                        Arg::U(l as u64),
                        " >= num_hidden_layers=",
                        Arg::U(self.arch.num_hidden_layers as u64),
                        "",
                    ),
                ),
            )
        } else if position >= kv.max_pos {
            Some(
                corrupt_runtime_err(
                    Reason::two(
                        "forward_layer_attn_from_residual: position=",
                        Arg::U(position as u64),
                        " >= kv.max_pos=",
                        Arg::U(kv.max_pos as u64),
                        "",
                    ),
                ),
            )
        } else if self.value_fault(l) == Some(ValueFault::Present) {
            Some(
                corrupt_runtime_err(
                    Reason::one(
                        "forward_layer_attn_from_residual: layer ",
                        Arg::U(l as u64),
                        " is Global but v_proj IS present — attention_k_eq_v expected to drop v_proj from the modelopt checkpoint",
                    ),
                ),
            )
        } else if self.value_fault(l) == Some(ValueFault::Absent) {
            Some(
                corrupt_runtime_err(
                    Reason::one(
                        "forward_layer_attn_from_residual: layer ",
                        Arg::U(l as u64),
                        " is sliding but v_proj is absent",
                    ),
                ),
            )
        } else if p.n_kv != p.n_v {
            Some(
                corrupt_runtime_err(
                    Reason::three(
                        "forward_layer_attn_from_residual: layer ",
                        Arg::U(l as u64),
                        " K/V dim mismatch (",
                        Arg::I(p.n_kv),
                        " vs ",
                        Arg::I(p.n_v),
                        ")",
                    ),
                ),
            )
        } else if residual_len != self.arch.hidden_size as u32 as usize {
            Some(
                corrupt_runtime_err(
                    Reason::two(
                        "forward_layer_attn_from_residual: residual length ",
                        Arg::U(residual_len as u64),
                        " != hidden ",
                        Arg::U(self.arch.hidden_size as u32 as u64),
                        "",
                    ),
                ),
            )
        } else {
            None
        }
    }

    /// The host program up to the norms of the heads.
    pub open spec fn host_attn_head(&self, l: int) -> Seq<Step> {
        let layer = &self.model.layers@[l];
        let hidden = self.arch.hidden_size as u32;
        let eps = self.arch.rms_norm_eps_bits;
        let p = self.proj(l);
        let h = self.heads(l);
        seq![
            Step::Region {
                name: host_names().input,
                bytes: (hidden * 2) as usize,
                align: 256,
            },
            Step::WriteInput { dst: Buf::start(0), input: 0, bytes: (hidden * 2) as usize },
            Step::RmsNorm {
                format: Format16::Bf16,
                rows: 1,
                width: hidden,
                eps_bits: eps,
                data: Buf::start(0),
                gamma: layer.input_layernorm.offset_bytes,
            },
        ] + projection_steps(
            host_names(),
            p,
            layer,
            hidden,
            1,
            "forward_layer_attn_from_residual: k_eq_v DtoD copy",
        ) + narrow_regions(host_names(), p, 1) + seq![
            Step::Region {
                name: "g4n_lN_attn_out_bf16",
                bytes: (h.num_q_heads * h.head_dim * 2) as usize,
                align: 256,
            },
        ] + narrowing_steps(p, 1) + head_norm_steps(h, layer, 1, eps)
    }

    /// Attention of one token whose residual the host holds.
    pub open spec fn host_attn(
        &self,
        l: int,
        residual_len: usize,
        position: u32,
        kv: &Gemma4Nvfp4KvState,
        policies: (i32, i32),
    ) -> ProgramView {
        let h = self.heads(l);
        let head = self.host_attn_head(l);
        if let Some(e) = self.host_attn_fault(l, residual_len, position, kv) {
            refuses(e)
        } else if position as usize >= self.arch.max_position_embeddings {
            fails(
                head,
                corrupt_runtime_err(
                    Reason::two(
                        "forward_layer_attn_from_residual: position=",
                        Arg::U(position as u64),
                        " >= max_position_embeddings=",
                        Arg::U(self.arch.max_position_embeddings as u64),
                        "",
                    ),
                ),
            )
        } else {
            match fill_spec(kv, position as i32, position as i32, 1) {
                Err(e) => fails(head, e),
                Ok(fill) => completes(
                    head + seq![
                        fill,
                        rope_write_spec(
                            h,
                            kv,
                            l,
                            1,
                            Buf::start(4),
                            Buf::start(5),
                            Buf::start(6),
                            Buf::start(7),
                            policies,
                        ),
                    ] + decode_spec(
                        h,
                        kv,
                        l,
                        Buf::start(8),
                        Buf::start(7),
                        "forward_layer_attn_from_residual: cuFuncSetAttribute(MAX_DYNAMIC_SHARED_SIZE)",
                    ) + seq![
                        Step::Fence,
                        Step::Read {
                            src: Buf::start(8),
                            bytes: (h.num_q_heads * h.head_dim * 2) as usize,
                            on_fail: OnFail::Memcpy(
                                "forward_layer_attn_from_residual: attn_out DtoH",
                            ),
                        },
                        Step::Release,
                    ],
                ),
            }
        }
    }

    /// Attention of one token whose residual the host holds: the host argument
    /// is the bf16 residual, the reading the bf16 attention output.
    pub fn forward_layer_attn_from_residual(
        &self,
        layer_idx: usize,
        residual_len: usize,
        position: u32,
        kv: &Gemma4Nvfp4KvState,
        policies: (i32, i32),
    ) -> (r: Program)
        requires
            self.fits(1),
            kv.covers(self.arch.num_hidden_layers as nat),
        ensures
            r@ == self.host_attn(layer_idx as int, residual_len, position, kv, policies),
    {
        if layer_idx >= self.arch.num_hidden_layers {
            return Program::refuse(
                corrupt_runtime_err(
                    Reason::two(
                        "forward_layer_attn_from_residual: layer_idx=",
                        Arg::U(layer_idx as u64),
                        " >= num_hidden_layers=",
                        Arg::U(self.arch.num_hidden_layers as u64),
                        "",
                    ),
                ),
            );
        }
        if position >= kv.max_pos {
            return Program::refuse(
                corrupt_runtime_err(
                    Reason::two(
                        "forward_layer_attn_from_residual: position=",
                        Arg::U(position as u64),
                        " >= kv.max_pos=",
                        Arg::U(kv.max_pos as u64),
                        "",
                    ),
                ),
            );
        }
        let p = match self.plan_proj(layer_idx) {
            Ok(p) => p,
            Err(ValueFault::Present) => {
                return Program::refuse(
                    corrupt_runtime_err(
                        Reason::one(
                            "forward_layer_attn_from_residual: layer ",
                            Arg::U(layer_idx as u64),
                            " is Global but v_proj IS present — attention_k_eq_v expected to drop v_proj from the modelopt checkpoint",
                        ),
                    ),
                );
            },
            Err(ValueFault::Absent) => {
                return Program::refuse(
                    corrupt_runtime_err(
                        Reason::one(
                            "forward_layer_attn_from_residual: layer ",
                            Arg::U(layer_idx as u64),
                            " is sliding but v_proj is absent",
                        ),
                    ),
                );
            },
        };
        if p.n_kv != p.n_v {
            return Program::refuse(
                corrupt_runtime_err(
                    Reason::three(
                        "forward_layer_attn_from_residual: layer ",
                        Arg::U(layer_idx as u64),
                        " K/V dim mismatch (",
                        Arg::I(p.n_kv),
                        " vs ",
                        Arg::I(p.n_v),
                        ")",
                    ),
                ),
            );
        }
        let hidden: u32 = self.arch.hidden_size as u32;
        if residual_len != hidden as usize {
            return Program::refuse(
                corrupt_runtime_err(
                    Reason::two(
                        "forward_layer_attn_from_residual: residual length ",
                        Arg::U(residual_len as u64),
                        " != hidden ",
                        Arg::U(hidden as u64),
                        "",
                    ),
                ),
            );
        }
        let h = self.plan_heads(layer_idx);
        let layer = &self.model.layers[layer_idx];
        let eps: u32 = self.arch.rms_norm_eps_bits;
        let names = AttnNames {
            input: "g4n_lN_resid_bf16",
            q_single: "g4n_lN_q_f32",
            k_single: "g4n_lN_k_f32",
            v_single: "g4n_lN_v_f32",
            q_bf16: "g4n_lN_q_bf16",
            k_bf16: "g4n_lN_k_bf16",
            v_bf16: "g4n_lN_v_bf16",
            q_fp8: "g4n_lN_q_fp8",
        };
        proof {
            lemma_layer_limits(self, layer_idx as int, 1);
        }
        let out_elems: usize = h.num_q_heads * h.head_dim;
        let start: Vec<Step> =
            vec![
            Step::Region { name: names.input, bytes: hidden as usize * 2, align: 256 },
            Step::WriteInput { dst: Buf::start(0), input: 0, bytes: hidden as usize * 2 },
            Step::RmsNorm {
                format: Format16::Bf16,
                rows: 1,
                width: hidden,
                eps_bits: eps,
                data: Buf::start(0),
                gamma: layer.input_layernorm.offset_bytes,
            },
        ];
        let s = extend(
            start,
            plan_projections(
                names,
                p,
                layer,
                hidden,
                1,
                "forward_layer_attn_from_residual: k_eq_v DtoD copy",
            ),
        );
        let s = extend(s, plan_narrow_regions(names, p, 1));
        let out_region: Vec<Step> =
            vec![
            Step::Region { name: "g4n_lN_attn_out_bf16", bytes: out_elems * 2, align: 256 },
        ];
        let s = extend(s, out_region);
        let s = extend(s, plan_narrowing(p, 1));
        let s = extend(s, plan_head_norms(h, layer, 1, eps));
        assert(s@ =~= self.host_attn_head(layer_idx as int));
        if position as usize >= self.arch.max_position_embeddings {
            return Program::fail(
                s,
                corrupt_runtime_err(
                    Reason::two(
                        "forward_layer_attn_from_residual: position=",
                        Arg::U(position as u64),
                        " >= max_position_embeddings=",
                        Arg::U(self.arch.max_position_embeddings as u64),
                        "",
                    ),
                ),
            );
        }
        let fill = match fill_pos_slots(kv, position as i32, position as i32, 1) {
            Ok(f) => f,
            Err(e) => {
                return Program::fail(s, e);
            },
        };
        let rope = launch_rope_write(
            h,
            kv,
            layer_idx,
            1,
            Buf::start(4),
            Buf::start(5),
            Buf::start(6),
            Buf::start(7),
            policies,
        );
        let s = extend(s, vec![fill, rope]);
        let s = extend(
            s,
            plan_decode(
                h,
                kv,
                layer_idx,
                Buf::start(8),
                Buf::start(7),
                "forward_layer_attn_from_residual: cuFuncSetAttribute(MAX_DYNAMIC_SHARED_SIZE)",
            ),
        );
        let tail: Vec<Step> =
            vec![
            Step::Fence,
            Step::Read {
                src: Buf::start(8),
                bytes: out_elems * 2,
                on_fail: OnFail::Memcpy("forward_layer_attn_from_residual: attn_out DtoH"),
            },
            Step::Release,
        ];
        let r = Program::complete(extend(s, tail));
        assert(r@ =~= self.host_attn(layer_idx as int, residual_len, position, kv, policies));
        r
    }
}

impl Gemma4Nvfp4Bringup {
    /// From a residual on the device to normalized heads: the residual is
    /// copied, so that the caller's stays as it is.
    pub open spec fn dev_attn_head(
        &self,
        names: AttnNames,
        l: int,
        n: u32,
        residual: u64,
        residual_label: &'static str,
        value_label: &'static str,
    ) -> Seq<Step> {
        let layer = &self.model.layers@[l];
        let hidden = self.arch.hidden_size as u32;
        let eps = self.arch.rms_norm_eps_bits;
        let p = self.proj(l);
        let bytes = (n * hidden * 2) as usize;
        seq![
            Step::Region { name: names.input, bytes, align: 256 },
            Step::Copy {
                dst: Buf::start(0),
                src: Buf::At(residual),
                bytes,
                on_fail: OnFail::Memcpy(residual_label),
            },
            Step::RmsNorm {
                format: Format16::Bf16,
                rows: n,
                width: hidden,
                eps_bits: eps,
                data: Buf::start(0),
                gamma: layer.input_layernorm.offset_bytes,
            },
        ] + projection_steps(names, p, layer, hidden, n, value_label) + narrow_regions(names, p, n)
            + narrowing_steps(p, n) + head_norm_steps(self.heads(l), layer, n, eps)
    }

    fn plan_dev_attn_head(
        &self,
        names: AttnNames,
        layer_idx: usize,
        p: ProjPlan,
        h: HeadPlan,
        n: u32,
        residual: u64,
        residual_label: &'static str,
        value_label: &'static str,
    ) -> (r: Vec<Step>)
        requires
            n >= 1,
            self.fits(n as nat),
            layer_idx < self.arch.num_hidden_layers,
            self.value_fault(layer_idx as int) is None,
            p == self.proj(layer_idx as int),
            h == self.heads(layer_idx as int),
        ensures
            r@ == self.dev_attn_head(
                names,
                layer_idx as int,
                n,
                residual,
                residual_label,
                value_label,
            ),
    {
        proof {
            lemma_layer_limits(self, layer_idx as int, n as nat);
        }
        let layer = &self.model.layers[layer_idx];
        let hidden: u32 = self.arch.hidden_size as u32;
        let eps: u32 = self.arch.rms_norm_eps_bits;
        assert(n * hidden * 2 <= usize::MAX && n * hidden <= usize::MAX) by (nonlinear_arith)
            requires
                4 * (n as nat) * (self.arch.hidden_size as nat) <= usize::MAX,
                hidden <= self.arch.hidden_size,
        ;
        let bytes: usize = n as usize * hidden as usize * 2;
        let s: Vec<Step> =
            vec![
            Step::Region { name: names.input, bytes, align: 256 },
            Step::Copy {
                dst: Buf::start(0),
                src: Buf::At(residual),
                bytes,
                on_fail: OnFail::Memcpy(residual_label),
            },
            Step::RmsNorm {
                format: Format16::Bf16,
                rows: n,
                width: hidden,
                eps_bits: eps,
                data: Buf::start(0),
                gamma: layer.input_layernorm.offset_bytes,
            },
        ];
        let s = extend(s, plan_projections(names, p, layer, hidden, n, value_label));
        let s = extend(s, plan_narrow_regions(names, p, n));
        let s = extend(s, plan_narrowing(p, n));
        let s = extend(s, plan_head_norms(h, layer, n, eps));
        assert(s@ =~= self.dev_attn_head(
            names,
            layer_idx as int,
            n,
            residual,
            residual_label,
            value_label,
        ));
        s
    }

    /// What the device program refuses.
    pub open spec fn dev_attn_fault(
        &self,
        l: int,
        position: u32,
        kv: &Gemma4Nvfp4KvState,
    ) -> Option<RuntimeError> {
        let p = self.proj(l);
        if l >= self.arch.num_hidden_layers {
            Some(
                corrupt_runtime_err(
                    Reason::two(
                        "forward_layer_attn_from_residual_dev: layer_idx=",
                        Arg::U(l as u64),
                        " >= ",
                        Arg::U(self.arch.num_hidden_layers as u64),
                        "",
                    ),
                ),
            )
        } else if position >= kv.max_pos {
            Some(
                corrupt_runtime_err(
                    Reason::two(
                        "forward_layer_attn_from_residual_dev: position=",
                        Arg::U(position as u64),
                        " >= kv.max_pos=",
                        Arg::U(kv.max_pos as u64),
                        "",
                    ),
                ),
            )
        } else if self.value_fault(l) == Some(ValueFault::Present) {
            Some(
                corrupt_runtime_err(
                    Reason::one(
                        "forward_layer_attn_from_residual_dev: layer ",
                        Arg::U(l as u64),
                        " is Global but v_proj IS present",
                    ),
                ),
            )
        } else if self.value_fault(l) == Some(ValueFault::Absent) {
            Some(
                corrupt_runtime_err(
                    Reason::one(
                        "forward_layer_attn_from_residual_dev: layer ",
                        Arg::U(l as u64),
                        " is sliding but v_proj is absent",
                    ),
                ),
            )
        } else if p.n_kv != p.n_v {
            Some(
                corrupt_runtime_err(
                    Reason::two(
                        "forward_layer_attn_from_residual_dev: K/V dim mismatch (",
                        Arg::I(p.n_kv),
                        " vs ",
                        Arg::I(p.n_v),
                        ")",
                    ),
                ),
            )
        } else if position as usize >= self.arch.max_position_embeddings {
            Some(
                corrupt_runtime_err(
                    Reason::two(
                        "forward_layer_attn_from_residual_dev: position=",
                        Arg::U(position as u64),
                        " >= max_position_embeddings=",
                        Arg::U(self.arch.max_position_embeddings as u64),
                        "",
                    ),
                ),
            )
        } else {
            None
        }
    }

    /// Attention of one token whose residual lies on the device.
    pub open spec fn dev_attn(
        &self,
        l: int,
        residual: u64,
        position: u32,
        kv: &Gemma4Nvfp4KvState,
        attn_out: u64,
        policies: (i32, i32),
    ) -> ProgramView {
        let h = self.heads(l);
        let head = self.dev_attn_head(
            dev_names(),
            l,
            1,
            residual,
            "forward_layer_attn_from_residual_dev: residual DtoD copy",
            "forward_layer_attn_from_residual_dev: k_eq_v DtoD",
        );
        if let Some(e) = self.dev_attn_fault(l, position, kv) {
            refuses(e)
        } else {
            match fill_spec(kv, position as i32, position as i32, 1) {
                Err(e) => fails(head, e),
                Ok(fill) => completes(
                    head + seq![
                        fill,
                        rope_write_spec(
                            h,
                            kv,
                            l,
                            1,
                            Buf::start(4),
                            Buf::start(5),
                            Buf::start(6),
                            Buf::start(7),
                            policies,
                        ),
                    ] + decode_spec(
                        h,
                        kv,
                        l,
                        Buf::At(attn_out),
                        Buf::start(7),
                        "forward_layer_attn_from_residual_dev: cuFuncSetAttribute",
                    ),
                ),
            }
        }
    }

    /// Attention of one token whose residual lies on the device; the output
    /// goes to a buffer of the caller's.
    pub fn forward_layer_attn_from_residual_dev(
        &self,
        layer_idx: usize,
        residual_dev: u64,
        position: u32,
        kv: &Gemma4Nvfp4KvState,
        attn_out_dev: u64,
        policies: (i32, i32),
    ) -> (r: Program)
        requires
            self.fits(1),
            kv.covers(self.arch.num_hidden_layers as nat),
        ensures
            r@ == self.dev_attn(
                layer_idx as int,
                residual_dev,
                position,
                kv,
                attn_out_dev,
                policies,
            ),
    {
        if layer_idx >= self.arch.num_hidden_layers {
            return Program::refuse(
                corrupt_runtime_err(
                    Reason::two(
                        "forward_layer_attn_from_residual_dev: layer_idx=",
                        Arg::U(layer_idx as u64),
                        " >= ",
                        Arg::U(self.arch.num_hidden_layers as u64),
                        "",
                    ),
                ),
            );
        }
        if position >= kv.max_pos {
            return Program::refuse(
                corrupt_runtime_err(
                    Reason::two(
                        "forward_layer_attn_from_residual_dev: position=",
                        Arg::U(position as u64),
                        " >= kv.max_pos=",
                        Arg::U(kv.max_pos as u64),
                        "",
                    ),
                ),
            );
        }
        let p = match self.plan_proj(layer_idx) {
            Ok(p) => p,
            Err(ValueFault::Present) => {
                return Program::refuse(
                    corrupt_runtime_err(
                        Reason::one(
                            "forward_layer_attn_from_residual_dev: layer ",
                            Arg::U(layer_idx as u64),
                            " is Global but v_proj IS present",
                        ),
                    ),
                );
            },
            Err(ValueFault::Absent) => {
                return Program::refuse(
                    corrupt_runtime_err(
                        Reason::one(
                            "forward_layer_attn_from_residual_dev: layer ",
                            Arg::U(layer_idx as u64),
                            " is sliding but v_proj is absent",
                        ),
                    ),
                );
            },
        };
        if p.n_kv != p.n_v {
            return Program::refuse(
                corrupt_runtime_err(
                    Reason::two(
                        "forward_layer_attn_from_residual_dev: K/V dim mismatch (",
                        Arg::I(p.n_kv),
                        " vs ",
                        Arg::I(p.n_v),
                        ")",
                    ),
                ),
            );
        }
        if position as usize >= self.arch.max_position_embeddings {
            return Program::refuse(
                corrupt_runtime_err(
                    Reason::two(
                        "forward_layer_attn_from_residual_dev: position=",
                        Arg::U(position as u64),
                        " >= max_position_embeddings=",
                        Arg::U(self.arch.max_position_embeddings as u64),
                        "",
                    ),
                ),
            );
        }
        proof {
            lemma_layer_limits(self, layer_idx as int, 1);
        }
        let h = self.plan_heads(layer_idx);
        let names = AttnNames {
            input: "g4n_dev_h_normed",
            q_single: "g4n_dev_q_f32",
            k_single: "g4n_dev_k_f32",
            v_single: "g4n_dev_v_f32",
            q_bf16: "g4n_dev_q_bf16",
            k_bf16: "g4n_dev_k_bf16",
            v_bf16: "g4n_dev_v_bf16",
            q_fp8: "g4n_dev_q_fp8",
        };
        let s = self.plan_dev_attn_head(
            names,
            layer_idx,
            p,
            h,
            1,
            residual_dev,
            "forward_layer_attn_from_residual_dev: residual DtoD copy",
            "forward_layer_attn_from_residual_dev: k_eq_v DtoD",
        );
        let fill = match fill_pos_slots(kv, position as i32, position as i32, 1) {
            Ok(f) => f,
            Err(e) => {
                return Program::fail(s, e);
            },
        };
        let rope = launch_rope_write(
            h,
            kv,
            layer_idx,
            1,
            Buf::start(4),
            Buf::start(5),
            Buf::start(6),
            Buf::start(7),
            policies,
        );
        let s = extend(s, vec![fill, rope]);
        let s = extend(
            s,
            plan_decode(
                h,
                kv,
                layer_idx,
                Buf::At(attn_out_dev),
                Buf::start(7),
                "forward_layer_attn_from_residual_dev: cuFuncSetAttribute",
            ),
        );
        let r = Program::complete(s);
        assert(r@ =~= self.dev_attn(
            layer_idx as int,
            residual_dev,
            position,
            kv,
            attn_out_dev,
            policies,
        ));
        r
    }

    /// Whether there is such a layer and the cache has room for such a chunk.
    pub open spec fn chunk_runs(
        &self,
        l: int,
        num_tokens: u32,
        position_start: u32,
        kv: &Gemma4Nvfp4KvState,
    ) -> bool {
        &&& 1 <= num_tokens <= kv.max_query_tokens
        &&& l < self.arch.num_hidden_layers
        &&& position_start + num_tokens <= kv.max_pos
    }

    /// What the batched program refuses.
    pub open spec fn batched_attn_fault(
        &self,
        l: int,
        num_tokens: u32,
        position_start: u32,
        kv: &Gemma4Nvfp4KvState,
    ) -> Option<RuntimeError> {
        if num_tokens == 0 {
            Some(
                corrupt_runtime_err(
                    Reason::plain("forward_layer_attn_batched_prefill_dev: num_tokens=0"),
                ),
            )
        } else if l >= self.arch.num_hidden_layers {
            Some(
                corrupt_runtime_err(
                    Reason::two(
                        "forward_layer_attn_batched_prefill_dev: layer_idx=",
                        Arg::U(l as u64),
                        " >= ",
                        Arg::U(self.arch.num_hidden_layers as u64),
                        "",
                    ),
                ),
            )
        } else if num_tokens > kv.max_query_tokens {
            Some(
                corrupt_runtime_err(
                    Reason::two(
                        "forward_layer_attn_batched_prefill_dev: num_tokens=",
                        Arg::U(num_tokens as u64),
                        " > kv.max_query_tokens=",
                        Arg::U(kv.max_query_tokens as u64),
                        " (rebuild KV state via allocate_kv_state_with_chunk)",
                    ),
                ),
            )
        } else if position_start + num_tokens > kv.max_pos {
            Some(
                corrupt_runtime_err(
                    Reason::three(
                        "forward_layer_attn_batched_prefill_dev: position_start=",
                        Arg::U(position_start as u64),
                        " + num_tokens=",
                        Arg::U(num_tokens as u64),
                        " > kv.max_pos=",
                        Arg::U(kv.max_pos as u64),
                        "",
                    ),
                ),
            )
        } else if self.value_fault(l) == Some(ValueFault::Present) {
            Some(
                corrupt_runtime_err(
                    Reason::one(
                        "batched: layer ",
                        Arg::U(l as u64),
                        " Global but v_proj present",
                    ),
                ),
            )
        } else if self.value_fault(l) == Some(ValueFault::Absent) {
            Some(
                corrupt_runtime_err(
                    Reason::one(
                        "batched: layer ",
                        Arg::U(l as u64),
                        " sliding but v_proj absent",
                    ),
                ),
            )
        } else {
            None
        }
    }

    /// The prefill attention of a prompt: queries of one sequence over a
    /// layer's cache, with tiles of 32 positions for heads up to 256 wide and
    /// of 16 beyond.
    pub open spec fn prefill_args(
        &self,
        l: int,
        num_tokens: u32,
        kv: &Gemma4Nvfp4KvState,
        attn_out: u64,
        block_m: u32,
    ) -> PrefillArgs {
        let h = self.heads(l);
        let per_kv = h.num_q_heads as u32 / h.num_kv_heads as u32;
        let share = block_m / if per_kv >= 1 {
            per_kv
        } else {
            1
        };
        PrefillArgs {
            output: attn_out,
            query: Buf::start(7),
            k_packed: kv.k_packed_layer_ptrs@[l],
            v_packed: kv.v_packed_layer_ptrs@[l],
            k_scale: kv.k_scale_layer_ptrs@[l],
            v_scale: kv.v_scale_layer_ptrs@[l],
            q_scale_cache: 0,
            block_tables: kv.block_tables_ptr,
            cu_seqlens: Buf::start(9),
            context_lens: kv.context_lens_ptr,
            q_descale: kv.q_scale_ptr,
            num_seqs: 1,
            num_tokens,
            num_heads: h.num_q_heads as u32,
            num_kv_heads: h.num_kv_heads as u32,
            head_dim: h.head_dim as u32,
            block_size: kv.block_size,
            max_blocks_per_seq: kv.max_pos,
            num_blocks_total: kv.max_pos,
            scale_bits: UNIT_SCALE_BITS,
            window_size_left: h.window_size_left,
            num_queries_per_kv: per_kv as u32,
            tile_size: if h.head_dim <= 256 {
                32
            } else {
                16
            },
            block_q: (if share >= 1 {
                share as u32
            } else {
                1
            }),
            use_mma: true,
            output_bf16: true,
            global_backend: self.arch.is_global(l),
        }
    }

    fn plan_prefill(
        &self,
        layer_idx: usize,
        h: HeadPlan,
        num_tokens: u32,
        kv: &Gemma4Nvfp4KvState,
        attn_out: u64,
        block_m: u32,
    ) -> (r: PrefillArgs)
        requires
            layer_idx < self.arch.num_hidden_layers,
            self.arch.wf(),
            kv.covers(self.arch.num_hidden_layers as nat),
            h == self.heads(layer_idx as int),
            0 < h.num_kv_heads <= u32::MAX,
            h.num_q_heads <= u32::MAX,
        ensures
            r == self.prefill_args(layer_idx as int, num_tokens, kv, attn_out, block_m),
    {
        let per_kv: u32 = h.num_q_heads as u32 / h.num_kv_heads as u32;
        let divisor: u32 = if per_kv >= 1 {
            per_kv
        } else {
            1
        };
        let share: u32 = block_m / divisor;
        let tile_size: u32 = if h.head_dim <= 256 {
            32
        } else {
            16
        };
        let block_q: u32 = if share >= 1 {
            share
        } else {
            1
        };
        PrefillArgs {
            output: attn_out,
            query: Buf::start(7),
            k_packed: kv.k_packed_layer_ptrs[layer_idx],
            v_packed: kv.v_packed_layer_ptrs[layer_idx],
            k_scale: kv.k_scale_layer_ptrs[layer_idx],
            v_scale: kv.v_scale_layer_ptrs[layer_idx],
            q_scale_cache: 0,
            block_tables: kv.block_tables_ptr,
            cu_seqlens: Buf::start(9),
            context_lens: kv.context_lens_ptr,
            q_descale: kv.q_scale_ptr,
            num_seqs: 1,
            num_tokens,
            num_heads: h.num_q_heads as u32,
            num_kv_heads: h.num_kv_heads as u32,
            head_dim: h.head_dim as u32,
            block_size: kv.block_size,
            max_blocks_per_seq: kv.max_pos,
            num_blocks_total: kv.max_pos,
            scale_bits: UNIT_SCALE_BITS,
            window_size_left: h.window_size_left,
            num_queries_per_kv: per_kv,
            tile_size,
            block_q,
            use_mma: true,
            output_bf16: true,
            global_backend: self.is_global_layer(layer_idx),
        }
    }

    /// Attention of a whole prompt chunk. Once the metadata is filled token by
    /// token, the first context length becomes that of the sequence, which is
    /// what the prefill kernel reads.
    pub open spec fn batched_attn(
        &self,
        l: int,
        num_tokens: u32,
        residual: u64,
        position_start: u32,
        kv: &Gemma4Nvfp4KvState,
        attn_out: u64,
        policies: (i32, i32),
        block_m: u32,
    ) -> ProgramView {
        let h = self.heads(l);
        let head = self.dev_attn_head(
            batch_names(),
            l,
            num_tokens,
            residual,
            "batched: residual DtoD",
            "batched: k_eq_v DtoD",
        );
        if let Some(e) = self.batched_attn_fault(l, num_tokens, position_start, kv) {
            refuses(e)
        } else {
            match fill_spec(
                kv,
                position_start as i32,
                position_start as i32,
                num_tokens as i32,
            ) {
                Err(e) => fails(head, e),
                Ok(fill) => completes(
                    head + seq![
                        fill,
                        Step::Region { name: "g4n_batch_ctx_override", bytes: 4, align: 16 },
                        Step::WriteI32 {
                            dst: Buf::start(8),
                            value: (position_start + num_tokens) as i32,
                        },
                        Step::Copy {
                            dst: Buf::At(kv.context_lens_ptr),
                            src: Buf::start(8),
                            bytes: 4,
                            on_fail: OnFail::Memcpy("batched: context_lens[0] override DtoD"),
                        },
                        Step::Region { name: "g4n_batch_cu_seqlens", bytes: 8, align: 16 },
                        Step::WriteI32Pair {
                            dst: Buf::start(9),
                            first: 0,
                            second: num_tokens as i32,
                        },
                        rope_write_spec(
                            h,
                            kv,
                            l,
                            num_tokens,
                            Buf::start(4),
                            Buf::start(5),
                            Buf::start(6),
                            Buf::start(7),
                            policies,
                        ),
                        Step::Prefill {
                            args: self.prefill_args(l, num_tokens, kv, attn_out, block_m),
                        },
                    ],
                ),
            }
        }
    }

    /// Attention of `num_tokens` tokens of one prompt in one launch. `block_m`
    /// is the number of rows of a block of the prefill kernel.
    pub fn forward_layer_attn_batched_prefill_dev(
        &self,
        layer_idx: usize,
        num_tokens: u32,
        residual_dev: u64,
        position_start: u32,
        kv: &Gemma4Nvfp4KvState,
        attn_out_dev: u64,
        policies: (i32, i32),
        block_m: u32,
    ) -> (r: Program)
        requires
            self.chunk_runs(layer_idx as int, num_tokens, position_start, kv) ==> self.fits(
                num_tokens as nat,
            ) && kv.covers(self.arch.num_hidden_layers as nat),
        ensures
            r@ == self.batched_attn(
                layer_idx as int,
                num_tokens,
                residual_dev,
                position_start,
                kv,
                attn_out_dev,
                policies,
                block_m,
            ),
    {
        if num_tokens == 0 {
            return Program::refuse(
                corrupt_runtime_err(
                    Reason::plain("forward_layer_attn_batched_prefill_dev: num_tokens=0"),
                ),
            );
        }
        if layer_idx >= self.arch.num_hidden_layers {
            return Program::refuse(
                corrupt_runtime_err(
                    Reason::two(
                        "forward_layer_attn_batched_prefill_dev: layer_idx=",
                        Arg::U(layer_idx as u64),
                        " >= ",
                        Arg::U(self.arch.num_hidden_layers as u64),
                        "",
                    ),
                ),
            );
        }
        if num_tokens > kv.max_query_tokens {
            return Program::refuse(
                corrupt_runtime_err(
                    Reason::two(
                        "forward_layer_attn_batched_prefill_dev: num_tokens=",
                        Arg::U(num_tokens as u64),
                        " > kv.max_query_tokens=",
                        Arg::U(kv.max_query_tokens as u64),
                        " (rebuild KV state via allocate_kv_state_with_chunk)",
                    ),
                ),
            );
        }
        if position_start as u64 + num_tokens as u64 > kv.max_pos as u64 {
            return Program::refuse(
                corrupt_runtime_err(
                    Reason::three(
                        "forward_layer_attn_batched_prefill_dev: position_start=",
                        Arg::U(position_start as u64),
                        " + num_tokens=",
                        Arg::U(num_tokens as u64),
                        " > kv.max_pos=",
                        Arg::U(kv.max_pos as u64),
                        "",
                    ),
                ),
            );
        }
        proof {
            lemma_fits_one(self, num_tokens as nat);
        }
        let p = match self.plan_proj(layer_idx) {
            Ok(p) => p,
            Err(ValueFault::Present) => {
                return Program::refuse(
                    corrupt_runtime_err(
                        Reason::one(
                            "batched: layer ",
                            Arg::U(layer_idx as u64),
                            " Global but v_proj present",
                        ),
                    ),
                );
            },
            Err(ValueFault::Absent) => {
                return Program::refuse(
                    corrupt_runtime_err(
                        Reason::one(
                            "batched: layer ",
                            Arg::U(layer_idx as u64),
                            " sliding but v_proj absent",
                        ),
                    ),
                );
            },
        };
        proof {
            lemma_layer_limits(self, layer_idx as int, num_tokens as nat);
        }
        let h = self.plan_heads(layer_idx);
        let names = AttnNames {
            input: "g4n_batch_h_normed",
            q_single: "g4n_batch_q_f32",
            k_single: "g4n_batch_k_f32",
            v_single: "g4n_batch_v_f32",
            q_bf16: "g4n_batch_q_bf16",
            k_bf16: "g4n_batch_k_bf16",
            v_bf16: "g4n_batch_v_bf16",
            q_fp8: "g4n_batch_q_fp8",
        };
        let s = self.plan_dev_attn_head(
            names,
            layer_idx,
            p,
            h,
            num_tokens,
            residual_dev,
            "batched: residual DtoD",
            "batched: k_eq_v DtoD",
        );
        let fill = match fill_pos_slots(
            kv,
            position_start as i32,
            position_start as i32,
            num_tokens as i32,
        ) {
            Ok(f) => f,
            Err(e) => {
                return Program::fail(s, e);
            },
        };
        let total: u32 = position_start + num_tokens;
        let rope = launch_rope_write(
            h,
            kv,
            layer_idx,
            num_tokens,
            Buf::start(4),
            Buf::start(5),
            Buf::start(6),
            Buf::start(7),
            policies,
        );
        let args = self.plan_prefill(layer_idx, h, num_tokens, kv, attn_out_dev, block_m);
        let tail: Vec<Step> =
            vec![
            fill,
            Step::Region { name: "g4n_batch_ctx_override", bytes: 4, align: 16 },
            Step::WriteI32 { dst: Buf::start(8), value: total as i32 },
            Step::Copy {
                dst: Buf::At(kv.context_lens_ptr),
                src: Buf::start(8),
                bytes: 4,
                on_fail: OnFail::Memcpy("batched: context_lens[0] override DtoD"),
            },
            Step::Region { name: "g4n_batch_cu_seqlens", bytes: 8, align: 16 },
            Step::WriteI32Pair { dst: Buf::start(9), first: 0, second: num_tokens as i32 },
            rope,
            Step::Prefill { args },
        ];
        let r = Program::complete(extend(s, tail));
        assert(r@ =~= self.batched_attn(
            layer_idx as int,
            num_tokens,
            residual_dev,
            position_start,
            kv,
            attn_out_dev,
            policies,
            block_m,
        ));
        r
    }
}

} // verus!
