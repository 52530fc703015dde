//! The embedding lookup, and the first layer in pieces whose values come back
//! to the host.

use crate::formats::{bf16_bits, f32_to_bf16_bits};
use crate::limits::{product, within};
use crate::runtime::error::{corrupt_runtime_err, cuda_err, Arg, Reason, RuntimeError};
use crate::runtime::gemma4_nvfp4_bring_up::kv_state::Gemma4Nvfp4KvState;
use crate::runtime::gemma4_nvfp4_bring_up::launches::{
    decode_launch, decode_shared, extend, fill_pos_slots, fill_spec, launch_rope_write,
    plan_decode_launch, rope_write_spec, HeadPlan,
};
use crate::runtime::gemma4_nvfp4_bring_up::model::Gemma4Nvfp4Bringup;
use crate::runtime::gemma4_nvfp4_bring_up::post_attn::rms_bf16;
use crate::runtime::gemma4_nvfp4_ops::gemma4_nvfp4_attn_proj;
use crate::runtime::step::{
    completes, fails, refuses, Buf, Dim3, KernelCall, OnFail, Program, ProgramView, Step,
};
use vstd::prelude::*;

verus! {

/// Rotates the heads of a bf16 buffer by the single row of a table.
pub open spec fn rope_row_spec(qk: Buf, heads: u32, head_dim: u32, cos: Buf, sin: Buf) -> Step {
    Step::Launch {
        call: KernelCall::RopeSplitHalfBf16 {
            qk,
            cos,
            sin,
            head_dim: head_dim as i32,
            pos: 0,
        },
        grid: Dim3::line(heads),
        block: Dim3::line(head_dim / 2),
        shared: 0,
        on_fail: OnFail::Launcher,
    }
}

fn rope_row(qk: Buf, heads: u32, head_dim: u32, cos: Buf, sin: Buf) -> (r: Step)
    ensures
        r == rope_row_spec(qk, heads, head_dim, cos, sin),
{
    Step::Launch {
        call: KernelCall::RopeSplitHalfBf16 {
            qk,
            cos,
            sin,
            head_dim: head_dim as i32,
            pos: 0,
        },
        grid: Dim3::line(heads),
        block: Dim3::line(head_dim / 2),
        shared: 0,
        on_fail: OnFail::Launcher,
    }
}

/// Each key/value head's row, as often as query heads share it, rounded to
/// bf16.
pub open spec fn shared_rows(v: Seq<u32>, heads: nat, ratio: nat, width: nat) -> Seq<u16> {
    Seq::new(
        heads * width,
        |i: int| bf16_bits(v[(i / width as int) / ratio as int * width + i % width as int]) as u16,
    )
}

impl Gemma4Nvfp4Bringup {
    /// The embedding of a token, by way of region `ids` for its index.
    pub open spec fn embed_steps(
        &self,
        name: &'static str,
        token: u32,
        ids: usize,
        dst: Buf,
    ) -> Seq<Step> {
        seq![
            Step::Region { name, bytes: 4, align: 16 },
            Step::WriteI32 { dst: Buf::start(ids), value: token as i32 },
            self.embed_step(dst, Buf::start(ids)),
        ]
    }

    /// The lookup of one row of the embedding.
    pub open spec fn embed_step(&self, dst: Buf, ids: Buf) -> Step {
        Step::Embed {
            num_tokens: 1,
            hidden: self.arch.hidden_size as u32,
            vocab: self.arch.vocab_size as u32,
            dst,
            table: self.model.outside.embed_tokens.offset_bytes,
            ids,
        }
    }

    pub(crate) fn plan_embed(&self, dst: Buf, ids: Buf) -> (r: Step)
        ensures
            r == self.embed_step(dst, ids),
    {
        Step::Embed {
            num_tokens: 1,
            hidden: self.arch.hidden_size as u32,
            vocab: self.arch.vocab_size as u32,
            dst,
            table: self.model.outside.embed_tokens.offset_bytes,
            ids,
        }
    }

    /// Whether the first layer can be run in pieces: there is one, and its
    /// heads have a width that kernel arguments and sizes can hold.
    pub open spec fn probe_fits(&self) -> bool {
        &&& self.fits(1)
        &&& self.arch.num_hidden_layers > 0
        &&& 0 < self.arch.head_dim_sliding <= u32::MAX
        &&& 2 * self.arch.head_dim_sliding <= usize::MAX
    }

    /// Whether the first layer can be run in pieces.
    pub fn check_probe(&self) -> (r: bool)
        ensures
            r == self.probe_fits(),
    {
        let width: usize = self.arch.head_dim_sliding;
        self.check_fits(1) && self.arch.num_hidden_layers > 0 && 0 < width && width as u128
            <= u32::MAX as u128 && width <= usize::MAX / 2
    }

    /// Whether a position's row of the sliding tables has an address.
    pub open spec fn row_fits(&self, position: u32) -> bool {
        &&& position * self.rope_row_bytes() <= usize::MAX
        &&& self.tables.rope_cos_sliding + position * self.rope_row_bytes() <= u64::MAX
        &&& self.tables.rope_sin_sliding + position * self.rope_row_bytes() <= u64::MAX
    }

    /// Whether a position's row of the sliding tables has an address.
    pub fn check_row(&self, position: u32) -> (r: bool)
        ensures
            r == self.row_fits(position),
    {
        let row: u128 = self.arch.head_dim_sliding as u128 / 2 * 2;
        let offset = product(position as u128, row);
        let most: u128 = u64::MAX as u128;
        within(&offset, usize::MAX as u128) && within(
            &offset.add_value(self.tables.rope_cos_sliding as u128),
            most,
        ) && within(&offset.add_value(self.tables.rope_sin_sliding as u128), most)
    }

    /// The embedding of a token, written to a buffer of the caller's.
    pub fn embed_one_token_to_device(&self, token_id: u32, dst_dev: u64) -> (r: Program)
        ensures
            r@ == completes(self.embed_steps("g4n_embed_tok", token_id, 0, Buf::At(dst_dev))),
    {
        let s: Vec<Step> =
            vec![
            Step::Region { name: "g4n_embed_tok", bytes: 4, align: 16 },
            Step::WriteI32 { dst: Buf::start(0), value: token_id as i32 },
            self.plan_embed(Buf::At(dst_dev), Buf::start(0)),
        ];
        assert(s@ =~= self.embed_steps("g4n_embed_tok", token_id, 0, Buf::At(dst_dev)));
        Program::complete(s)
    }

    /// The embedding of a token, read back in bf16.
    pub open spec fn embed_one(&self, token: u32) -> ProgramView {
        let bytes = (2 * (self.arch.hidden_size as u32)) as usize;
        completes(
            seq![Step::Region { name: "g4n_embed_residual_bf16", bytes, align: 256 }]
                + self.embed_steps("g4n_embed_tok", token, 1, Buf::start(0)) + seq![
                Step::Fence,
                Step::Read {
                    src: Buf::start(0),
                    bytes,
                    on_fail: OnFail::Memcpy("embed_one_token_bf16: residual DtoH"),
                },
                Step::Release,
            ],
        )
    }

    /// The embedding of a token, read back in bf16.
    pub fn embed_one_token_bf16(&self, token_id: u32) -> (r: Program)
        requires
            self.fits(1),
        ensures
            r@ == self.embed_one(token_id),
    {
        let bytes: usize = self.arch.hidden_size as u32 as usize * 2;
        let s: Vec<Step> =
            vec![
            Step::Region { name: "g4n_embed_residual_bf16", bytes, align: 256 },
            Step::Region { name: "g4n_embed_tok", bytes: 4, align: 16 },
            Step::WriteI32 { dst: Buf::start(1), value: token_id as i32 },
            self.plan_embed(Buf::start(0), Buf::start(1)),
            Step::Fence,
            Step::Read {
                src: Buf::start(0),
                bytes,
                on_fail: OnFail::Memcpy("embed_one_token_bf16: residual DtoH"),
            },
            Step::Release,
        ];
        let r = Program::complete(s);
        assert(r@ =~= self.embed_one(token_id));
        r
    }

    /// Embedding, input norm and query projection of the first layer.
    pub open spec fn pre_attn(&self, token: u32) -> ProgramView {
        let layer = &self.model.layers@[0];
        let hidden = self.arch.hidden_size as u32;
        let n_q = layer.q_proj.shape@[0] as i32;
        completes(
            seq![
                Step::Region { name: "gemma4_nvfp4_pre_attn_tok", bytes: 4, align: 16 },
                Step::WriteI32 { dst: Buf::start(0), value: token as i32 },
                Step::Region {
                    name: "gemma4_nvfp4_pre_attn_residual",
                    bytes: (2 * hidden) as usize,
                    align: 256,
                },
                Step::Region {
                    name: "gemma4_nvfp4_pre_attn_q",
                    bytes: (4 * n_q) as usize,
                    align: 256,
                },
                self.embed_step(Buf::start(1), Buf::start(0)),
                rms_bf16(
                    1,
                    hidden,
                    self.arch.rms_norm_eps_bits,
                    Buf::start(1),
                    layer.input_layernorm.offset_bytes,
                ),
                gemma4_nvfp4_attn_proj(
                    Buf::start(1),
                    layer.q_proj.offset_bytes,
                    Buf::start(2),
                    1,
                    n_q,
                    hidden as i32,
                ),
                Step::Fence,
                Step::Read {
                    src: Buf::start(2),
                    bytes: (4 * n_q) as usize,
                    on_fail: OnFail::Memcpy("pre_attn_one_token: q DtoH"),
                },
                Step::Release,
            ],
        )
    }

    /// Embedding, input norm and query projection of the first layer, read
    /// back in 32 bits.
    pub fn pre_attn_one_token(&self, token_id: u32) -> (r: Program)
        requires
            self.fits(1),
            self.arch.num_hidden_layers > 0,
        ensures
            r@ == self.pre_attn(token_id),
    {
        assert(self.layer_fits(0, 1));
        let layer = &self.model.layers[0];
        let n_q: i32 = layer.q_proj.shape[0] as i32;
        let hidden: u32 = self.arch.hidden_size as u32;
        let s: Vec<Step> =
            vec![
            Step::Region { name: "gemma4_nvfp4_pre_attn_tok", bytes: 4, align: 16 },
            Step::WriteI32 { dst: Buf::start(0), value: token_id as i32 },
            Step::Region {
                name: "gemma4_nvfp4_pre_attn_residual",
                bytes: hidden as usize * 2,
                align: 256,
            },
            Step::Region {
                name: "gemma4_nvfp4_pre_attn_q",
                bytes: n_q as usize * 4,
                align: 256,
            },
            self.plan_embed(Buf::start(1), Buf::start(0)),
            rms_bf16(
                1,
                hidden,
                self.arch.rms_norm_eps_bits,
                Buf::start(1),
                layer.input_layernorm.offset_bytes,
            ),
            gemma4_nvfp4_attn_proj(
                Buf::start(1),
                layer.q_proj.offset_bytes,
                Buf::start(2),
                1,
                n_q,
                hidden as i32,
            ),
            Step::Fence,
            Step::Read {
                src: Buf::start(2),
                bytes: n_q as usize * 4,
                on_fail: OnFail::Memcpy("pre_attn_one_token: q DtoH"),
            },
            Step::Release,
        ];
        let r = Program::complete(s);
        assert(r@ =~= self.pre_attn(token_id));
        r
    }

    /// All three projections of the first layer, which is a sliding one.
    pub open spec fn qkv_only(&self, token: u32) -> ProgramView {
        let layer = &self.model.layers@[0];
        let hidden = self.arch.hidden_size as u32;
        let p = self.proj(0);
        let fail = OnFail::Memcpy("forward_layer0_qkv_only: DtoH failed");
        if p.v_weight is None {
            refuses(
                cuda_err(
                    "forward_layer0_qkv_only: v_proj absent on layer 0 (k_eq_v aliasing applies only to global layers — layer 0 is sliding, must have v_proj)",
                ),
            )
        } else if p.n_kv != p.n_v {
            refuses(cuda_err("forward_layer0_qkv_only: sliding-layer K/V dim mismatch"))
        } else {
            completes(
                seq![
                    Step::Region { name: "gemma4_nvfp4_qkv_tok", bytes: 4, align: 16 },
                    Step::WriteI32 { dst: Buf::start(0), value: token as i32 },
                    Step::Region {
                        name: "gemma4_nvfp4_qkv_residual",
                        bytes: (2 * hidden) as usize,
                        align: 256,
                    },
                    Step::Region {
                        name: "gemma4_nvfp4_qkv_q",
                        bytes: (4 * p.n_q) as usize,
                        align: 256,
                    },
                    Step::Region {
                        name: "gemma4_nvfp4_qkv_k",
                        bytes: (4 * p.n_kv) as usize,
                        align: 256,
                    },
                    Step::Region {
                        name: "gemma4_nvfp4_qkv_v",
                        bytes: (4 * p.n_v) as usize,
                        align: 256,
                    },
                    self.embed_step(Buf::start(1), Buf::start(0)),
                    rms_bf16(
                        1,
                        hidden,
                        self.arch.rms_norm_eps_bits,
                        Buf::start(1),
                        layer.input_layernorm.offset_bytes,
                    ),
                    gemma4_nvfp4_attn_proj(
                        Buf::start(1),
                        layer.q_proj.offset_bytes,
                        Buf::start(2),
                        1,
                        p.n_q,
                        hidden as i32,
                    ),
                    gemma4_nvfp4_attn_proj(
                        Buf::start(1),
                        layer.k_proj.offset_bytes,
                        Buf::start(3),
                        1,
                        p.n_kv,
                        hidden as i32,
                    ),
                    gemma4_nvfp4_attn_proj(
                        Buf::start(1),
                        p.v_weight->Some_0,
                        Buf::start(4),
                        1,
                        p.n_v,
                        hidden as i32,
                    ),
                    Step::Fence,
                    Step::Read { src: Buf::start(2), bytes: (4 * p.n_q) as usize, on_fail: fail },
                    Step::Read { src: Buf::start(3), bytes: (4 * p.n_kv) as usize, on_fail: fail },
                    Step::Read { src: Buf::start(4), bytes: (4 * p.n_v) as usize, on_fail: fail },
                    Step::Release,
                ],
            )
        }
    }

    /// All three projections of the first layer: readings 0 to 2 are queries,
    /// keys and values in 32 bits.
    pub fn forward_layer0_qkv_only(&self, token_id: u32) -> (r: Program)
        requires
            self.fits(1),
            self.arch.num_hidden_layers > 0,
        ensures
            r@ == self.qkv_only(token_id),
    {
        assert(self.layer_fits(0, 1));
        let layer = &self.model.layers[0];
        let n_q: i32 = layer.q_proj.shape[0] as i32;
        let n_kv: i32 = layer.k_proj.shape[0] as i32;
        let (v_weight, n_v): (u64, i32) = match &layer.v_proj {
            Some(w) => (w.offset_bytes, w.shape[0] as i32),
            None => {
                return Program::refuse(
                    cuda_err(
                        "forward_layer0_qkv_only: v_proj absent on layer 0 (k_eq_v aliasing applies only to global layers — layer 0 is sliding, must have v_proj)",
                    ),
                );
            },
        };
        if n_kv != n_v {
            return Program::refuse(
                cuda_err("forward_layer0_qkv_only: sliding-layer K/V dim mismatch"),
            );
        }
        let hidden: u32 = self.arch.hidden_size as u32;
        let fail = OnFail::Memcpy("forward_layer0_qkv_only: DtoH failed");
        let s: Vec<Step> =
            vec![
            Step::Region { name: "gemma4_nvfp4_qkv_tok", bytes: 4, align: 16 },
            Step::WriteI32 { dst: Buf::start(0), value: token_id as i32 },
            Step::Region {
                name: "gemma4_nvfp4_qkv_residual",
                bytes: hidden as usize * 2,
                align: 256,
            },
            Step::Region { name: "gemma4_nvfp4_qkv_q", bytes: n_q as usize * 4, align: 256 },
            Step::Region { name: "gemma4_nvfp4_qkv_k", bytes: n_kv as usize * 4, align: 256 },
            Step::Region { name: "gemma4_nvfp4_qkv_v", bytes: n_v as usize * 4, align: 256 },
            self.plan_embed(Buf::start(1), Buf::start(0)),
            rms_bf16(
                1,
                hidden,
                self.arch.rms_norm_eps_bits,
                Buf::start(1),
                layer.input_layernorm.offset_bytes,
            ),
            gemma4_nvfp4_attn_proj(
                Buf::start(1),
                layer.q_proj.offset_bytes,
                Buf::start(2),
                1,
                n_q,
                hidden as i32,
            ),
            gemma4_nvfp4_attn_proj(
                Buf::start(1),
                layer.k_proj.offset_bytes,
                Buf::start(3),
                1,
                n_kv,
                hidden as i32,
            ),
            gemma4_nvfp4_attn_proj(
                Buf::start(1),
                v_weight,
                Buf::start(4),
                1,
                n_v,
                hidden as i32,
            ),
            Step::Fence,
            Step::Read { src: Buf::start(2), bytes: n_q as usize * 4, on_fail: fail },
            Step::Read { src: Buf::start(3), bytes: n_kv as usize * 4, on_fail: fail },
            Step::Read { src: Buf::start(4), bytes: n_v as usize * 4, on_fail: fail },
            Step::Release,
        ];
        let r = Program::complete(s);
        assert(r@ =~= self.qkv_only(token_id));
        r
    }

    /// Heads of the first layer.
    pub open spec fn layer0_heads(&self, width: i32) -> u32 {
        (width as usize / self.arch.head_dim_sliding) as u32
    }

    /// The norms of queries and keys of the first layer: a row for each head,
    /// which was rounded to bf16 on the host. Readings 3 and 4 are queries and
    /// keys in bf16; reading 2 remains the values.
    pub open spec fn qk_norm(&self, token: u32) -> ProgramView {
        let layer = &self.model.layers@[0];
        let p = self.proj(0);
        let width = self.arch.head_dim_sliding as u32;
        let eps = self.arch.rms_norm_eps_bits;
        self.qkv_only(token).followed_by(
            completes(
                seq![
                    Step::Region {
                        name: "gemma4_nvfp4_qk_q",
                        bytes: (2 * p.n_q) as usize,
                        align: 256,
                    },
                    Step::Region {
                        name: "gemma4_nvfp4_qk_k",
                        bytes: (2 * p.n_kv) as usize,
                        align: 256,
                    },
                    Step::NarrowReading { reading: 0, dst: Buf::start(5) },
                    Step::NarrowReading { reading: 1, dst: Buf::start(6) },
                    rms_bf16(
                        self.layer0_heads(p.n_q),
                        width,
                        eps,
                        Buf::start(5),
                        layer.q_norm.offset_bytes,
                    ),
                    rms_bf16(
                        self.layer0_heads(p.n_kv),
                        width,
                        eps,
                        Buf::start(6),
                        layer.k_norm.offset_bytes,
                    ),
                    Step::Fence,
                    Step::Read {
                        src: Buf::start(5),
                        bytes: (2 * p.n_q) as usize,
                        on_fail: OnFail::Memcpy("qk_norm: q DtoH failed"),
                    },
                    Step::Read {
                        src: Buf::start(6),
                        bytes: (2 * p.n_kv) as usize,
                        on_fail: OnFail::Memcpy("qk_norm: k DtoH failed"),
                    },
                    Step::Release,
                ],
            ),
        )
    }

    /// The norms of queries and keys of the first layer.
    pub fn forward_layer0_qk_norm(&self, token_id: u32) -> (r: Program)
        requires
            self.fits(1),
            self.arch.num_hidden_layers > 0,
            0 < self.arch.head_dim_sliding <= u32::MAX,
        ensures
            r@ == self.qk_norm(token_id),
    {
        assert(self.layer_fits(0, 1));
        let first = self.forward_layer0_qkv_only(token_id);
        let layer = &self.model.layers[0];
        let n_q: usize = layer.q_proj.shape[0];
        let n_kv: usize = layer.k_proj.shape[0];
        let width: u32 = self.arch.head_dim_sliding as u32;
        let q_heads: u32 = (n_q / self.arch.head_dim_sliding) as u32;
        let kv_heads: u32 = (n_kv / self.arch.head_dim_sliding) as u32;
        let eps: u32 = self.arch.rms_norm_eps_bits;
        let s: Vec<Step> =
            vec![
            Step::Region { name: "gemma4_nvfp4_qk_q", bytes: n_q * 2, align: 256 },
            Step::Region { name: "gemma4_nvfp4_qk_k", bytes: n_kv * 2, align: 256 },
            Step::NarrowReading { reading: 0, dst: Buf::start(5) },
            Step::NarrowReading { reading: 1, dst: Buf::start(6) },
            rms_bf16(q_heads, width, eps, Buf::start(5), layer.q_norm.offset_bytes),
            rms_bf16(kv_heads, width, eps, Buf::start(6), layer.k_norm.offset_bytes),
            Step::Fence,
            Step::Read {
                src: Buf::start(5),
                bytes: n_q * 2,
                on_fail: OnFail::Memcpy("qk_norm: q DtoH failed"),
            },
            Step::Read {
                src: Buf::start(6),
                bytes: n_kv * 2,
                on_fail: OnFail::Memcpy("qk_norm: k DtoH failed"),
            },
            Step::Release,
        ];
        let r = first.followed_by(Program::complete(s));
        assert(r@ =~= self.qk_norm(token_id));
        r
    }

    /// Bytes of one row of the rotary tables of sliding layers.
    pub open spec fn rope_row_bytes(&self) -> nat {
        (self.arch.head_dim_sliding / 2 * 2) as nat
    }

    /// Rotation of queries and keys of the first layer, by the row of the
    /// tables at the position, which the host widens to 32 bits. Readings 7
    /// and 8 are queries and keys in bf16; reading 2 remains the values.
    pub open spec fn qk_rope(&self, token: u32, position: u32) -> ProgramView {
        let p = self.proj(0);
        let width = self.arch.head_dim_sliding as u32;
        let row = self.rope_row_bytes();
        let off = position * row;
        self.qk_norm(token).followed_by(
            completes(
                seq![
                    Step::Region {
                        name: "gemma4_nvfp4_rope_q",
                        bytes: (2 * p.n_q) as usize,
                        align: 256,
                    },
                    Step::Region {
                        name: "gemma4_nvfp4_rope_k",
                        bytes: (2 * p.n_kv) as usize,
                        align: 256,
                    },
                    Step::WriteReading { reading: 3, dst: Buf::start(7) },
                    Step::WriteReading { reading: 4, dst: Buf::start(8) },
                    Step::Read {
                        src: Buf::At((self.tables.rope_cos_sliding + off) as u64),
                        bytes: row as usize,
                        on_fail: OnFail::Memcpy("forward_layer0_qk_rope: cos row DtoH"),
                    },
                    Step::Read {
                        src: Buf::At((self.tables.rope_sin_sliding + off) as u64),
                        bytes: row as usize,
                        on_fail: OnFail::Memcpy("forward_layer0_qk_rope: sin row DtoH"),
                    },
                    Step::Region {
                        name: "g4n_probe_cos_f32",
                        bytes: (2 * row) as usize,
                        align: 16,
                    },
                    Step::Region {
                        name: "g4n_probe_sin_f32",
                        bytes: (2 * row) as usize,
                        align: 16,
                    },
                    Step::WidenReading { reading: 5, dst: Buf::start(9) },
                    Step::WidenReading { reading: 6, dst: Buf::start(10) },
                    rope_row_spec(
                        Buf::start(7),
                        self.layer0_heads(p.n_q),
                        width,
                        Buf::start(9),
                        Buf::start(10),
                    ),
                    rope_row_spec(
                        Buf::start(8),
                        self.layer0_heads(p.n_kv),
                        width,
                        Buf::start(9),
                        Buf::start(10),
                    ),
                    Step::Fence,
                    Step::Read {
                        src: Buf::start(7),
                        bytes: (2 * p.n_q) as usize,
                        on_fail: OnFail::Memcpy("qk_rope: DtoH failed"),
                    },
                    Step::Read {
                        src: Buf::start(8),
                        bytes: (2 * p.n_kv) as usize,
                        on_fail: OnFail::Memcpy("qk_rope: DtoH failed"),
                    },
                    Step::Release,
                ],
            ),
        )
    }

    /// Rotation of queries and keys of the first layer.
    pub fn forward_layer0_qk_rope(&self, token_id: u32, position: u32) -> (r: Program)
        requires
            self.probe_fits(),
            self.row_fits(position),
        ensures
            r@ == self.qk_rope(token_id, position),
    {
        assert(self.layer_fits(0, 1));
        let first = self.forward_layer0_qk_norm(token_id);
        let layer = &self.model.layers[0];
        let n_q: usize = layer.q_proj.shape[0];
        let n_kv: usize = layer.k_proj.shape[0];
        let width: u32 = self.arch.head_dim_sliding as u32;
        let q_heads: u32 = (n_q / self.arch.head_dim_sliding) as u32;
        let kv_heads: u32 = (n_kv / self.arch.head_dim_sliding) as u32;
        let row: usize = self.arch.head_dim_sliding / 2 * 2;
        let off: usize = position as usize * row;
        let s: Vec<Step> =
            vec![
            Step::Region { name: "gemma4_nvfp4_rope_q", bytes: n_q * 2, align: 256 },
            Step::Region { name: "gemma4_nvfp4_rope_k", bytes: n_kv * 2, align: 256 },
            Step::WriteReading { reading: 3, dst: Buf::start(7) },
            Step::WriteReading { reading: 4, dst: Buf::start(8) },
            Step::Read {
                src: Buf::At(self.tables.rope_cos_sliding + off as u64),
                bytes: row,
                on_fail: OnFail::Memcpy("forward_layer0_qk_rope: cos row DtoH"),
            },
            Step::Read {
                src: Buf::At(self.tables.rope_sin_sliding + off as u64),
                bytes: row,
                on_fail: OnFail::Memcpy("forward_layer0_qk_rope: sin row DtoH"),
            },
            Step::Region { name: "g4n_probe_cos_f32", bytes: row * 2, align: 16 },
            Step::Region { name: "g4n_probe_sin_f32", bytes: row * 2, align: 16 },
            Step::WidenReading { reading: 5, dst: Buf::start(9) },
            Step::WidenReading { reading: 6, dst: Buf::start(10) },
            rope_row(Buf::start(7), q_heads, width, Buf::start(9), Buf::start(10)),
            rope_row(Buf::start(8), kv_heads, width, Buf::start(9), Buf::start(10)),
            Step::Fence,
            Step::Read {
                src: Buf::start(7),
                bytes: n_q * 2,
                on_fail: OnFail::Memcpy("qk_rope: DtoH failed"),
            },
            Step::Read {
                src: Buf::start(8),
                bytes: n_kv * 2,
                on_fail: OnFail::Memcpy("qk_rope: DtoH failed"),
            },
            Step::Release,
        ];
        let r = first.followed_by(Program::complete(s));
        assert(r@ =~= self.qk_rope(token_id, position));
        r
    }

    /// The layer's attention up to its norms, at a position of the cache.
    pub open spec fn attn_program(
        &self,
        token_id: u32,
        position: u32,
        kv: &Gemma4Nvfp4KvState,
    ) -> ProgramView {
        if position >= kv.max_pos {
            refuses(
                corrupt_runtime_err(
                    Reason::two(
                        "forward_layer0_attn: position=",
                        Arg::U(position as u64),
                        " >= kv.max_pos=",
                        Arg::U(kv.max_pos as u64),
                        "",
                    ),
                ),
            )
        } else {
            self.qk_norm(token_id)
        }
    }

    /// The first half of the first layer's attention: norms of queries and
    /// keys, as far as the cache has the position.
    pub fn forward_layer0_attn(&self, token_id: u32, position: u32, kv: &Gemma4Nvfp4KvState) -> (r:
        Program)
        requires
            self.fits(1),
            self.arch.num_hidden_layers > 0,
            0 < self.arch.head_dim_sliding <= u32::MAX,
        ensures
            r@ == self.attn_program(token_id, position, kv),
    {
        if position >= kv.max_pos {
            return Program::refuse(
                corrupt_runtime_err(
                    Reason::two(
                        "forward_layer0_attn: position=",
                        Arg::U(position as u64),
                        " >= kv.max_pos=",
                        Arg::U(kv.max_pos as u64),
                        "",
                    ),
                ),
            );
        }
        self.forward_layer0_qk_norm(token_id)
    }

    /// Heads of the first layer's attention, for queries and keys of given
    /// lengths.
    pub open spec fn layer0_plan(&self, q_len: nat, k_len: nat) -> HeadPlan {
        let width = self.arch.head_dim_sliding;
        HeadPlan {
            num_q_heads: (q_len / width as nat) as usize,
            num_kv_heads: (k_len / width as nat) as usize,
            head_dim: width,
            rotary_dim: width,
            window_size_left: (self.arch.sliding_window_size - 1) as i32,
            cos: self.tables.rope_cos_sliding,
            sin: self.tables.rope_sin_sliding,
        }
    }

    /// The second half of the first layer's attention. The host arguments are
    /// queries, keys and normalized values in bf16.
    pub open spec fn layer0_attn_heads(
        &self,
        q_len: usize,
        k_len: usize,
        position: u32,
        kv: &Gemma4Nvfp4KvState,
        policies: (i32, i32),
    ) -> ProgramView {
        let h = self.layer0_plan(q_len as nat, k_len as nat);
        let gqa = h.num_q_heads / h.num_kv_heads;
        let v_bytes = (2 * (h.num_kv_heads * h.head_dim)) as usize;
        let out_bytes = (2 * (h.num_q_heads * h.head_dim)) as usize;
        let head = seq![
            Step::Region { name: "g4n_attn_q_bf16", bytes: (2 * q_len) as usize, align: 256 },
            Step::Region { name: "g4n_attn_k_bf16", bytes: (2 * k_len) as usize, align: 256 },
            Step::Region { name: "g4n_attn_v_bf16", bytes: v_bytes, align: 256 },
            Step::Region { name: "g4n_attn_q_fp8", bytes: q_len, align: 256 },
            Step::Region { name: "g4n_attn_out_bf16", bytes: out_bytes, align: 256 },
            Step::WriteInput { dst: Buf::start(0), input: 0, bytes: (2 * q_len) as usize },
            Step::WriteInput { dst: Buf::start(1), input: 1, bytes: (2 * k_len) as usize },
            Step::WriteInput { dst: Buf::start(2), input: 2, bytes: v_bytes },
        ];
        if gqa > 4 {
            refuses(
                corrupt_runtime_err(
                    Reason::one(
                        "forward_layer0_attn: gqa_ratio=",
                        Arg::U(gqa as u64),
                        " > MAX_GQA_DECODE=4",
                    ),
                ),
            )
        } else {
            match fill_spec(kv, position as i32, position as i32, 1) {
                Err(e) => fails(head, e),
                Ok(fill) => completes(
                    head + seq![
                        fill,
                        rope_write_spec(
                            h,
                            kv,
                            0,
                            1,
                            Buf::start(0),
                            Buf::start(1),
                            Buf::start(2),
                            Buf::start(3),
                            policies,
                        ),
                        decode_launch(h, kv, 0, Buf::start(4), Buf::start(3), true),
                        Step::Fence,
                        Step::Read {
                            src: Buf::start(4),
                            bytes: out_bytes,
                            on_fail: OnFail::Memcpy("forward_layer0_attn: attn_out DtoH"),
                        },
                        Step::Release,
                    ],
                ),
            }
        }
    }

    /// Whether kernel arguments and region sizes can hold the first layer's
    /// attention on `q_len` queries and `k_len` keys.
    pub open spec fn heads_fit(&self, q_len: usize, k_len: usize, kv: &Gemma4Nvfp4KvState) -> bool {
        &&& self.arch.sliding_window_size <= 0x7fff_ffff
        &&& 0 < self.arch.head_dim_sliding <= k_len
        &&& decode_shared(self.arch.head_dim_sliding as nat, true) <= u32::MAX
        &&& 2 * q_len <= usize::MAX
        &&& 2 * k_len <= usize::MAX
        &&& kv.covers(1)
    }

    /// Whether kernel arguments and region sizes can hold the first layer's
    /// attention on `q_len` queries and `k_len` keys.
    pub fn check_heads(&self, q_len: usize, k_len: usize, kv: &Gemma4Nvfp4KvState) -> (r: bool)
        ensures
            r == self.heads_fit(q_len, k_len, kv),
    {
        let width: usize = self.arch.head_dim_sliding;
        self.arch.sliding_window_size <= 0x7fff_ffff && 0 < width && width <= k_len && 128 * (
        width as u128) + 528 <= u32::MAX as u128 && q_len <= usize::MAX / 2 && k_len <= usize::MAX
            / 2 && kv.check_covers(1)
    }

    /// The second half of the first layer's attention: rotation, cache write
    /// and decode, where at most four query heads share a key/value head.
    pub fn forward_layer0_attn_heads(
        &self,
        q_len: usize,
        k_len: usize,
        position: u32,
        kv: &Gemma4Nvfp4KvState,
        policies: (i32, i32),
    ) -> (r: Program)
        requires
            self.heads_fit(q_len, k_len, kv),
        ensures
            r@ == self.layer0_attn_heads(q_len, k_len, position, kv, policies),
    {
        let width: usize = self.arch.head_dim_sliding;
        let nq: usize = q_len / width;
        let nkv: usize = k_len / width;
        proof {
            vstd::arithmetic::div_mod::lemma_fundamental_div_mod(q_len as int, width as int);
            vstd::arithmetic::div_mod::lemma_fundamental_div_mod(k_len as int, width as int);
            assert(nq * width <= q_len && nkv * width <= k_len && nkv >= 1) by (nonlinear_arith)
                requires
                    q_len == width * nq + q_len % width,
                    k_len == width * nkv + k_len % width,
                    0 <= q_len % width,
                    0 <= k_len % width < width,
                    k_len >= width,
            ;
        }
        let h = HeadPlan {
            num_q_heads: nq,
            num_kv_heads: nkv,
            head_dim: width,
            rotary_dim: width,
            window_size_left: self.arch.sliding_window_size as i32 - 1,
            cos: self.tables.rope_cos_sliding,
            sin: self.tables.rope_sin_sliding,
        };
        assert(h == self.layer0_plan(q_len as nat, k_len as nat));
        let gqa: usize = nq / nkv;
        if gqa > 4 {
            return Program::refuse(
                corrupt_runtime_err(
                    Reason::one(
                        "forward_layer0_attn: gqa_ratio=",
                        Arg::U(gqa as u64),
                        " > MAX_GQA_DECODE=4",
                    ),
                ),
            );
        }
        let v_bytes: usize = nkv * width * 2;
        let out_bytes: usize = nq * width * 2;
        let s: Vec<Step> =
            vec![
            Step::Region { name: "g4n_attn_q_bf16", bytes: q_len * 2, align: 256 },
            Step::Region { name: "g4n_attn_k_bf16", bytes: k_len * 2, align: 256 },
            Step::Region { name: "g4n_attn_v_bf16", bytes: v_bytes, align: 256 },
            Step::Region { name: "g4n_attn_q_fp8", bytes: q_len, align: 256 },
            Step::Region { name: "g4n_attn_out_bf16", bytes: out_bytes, align: 256 },
            Step::WriteInput { dst: Buf::start(0), input: 0, bytes: q_len * 2 },
            Step::WriteInput { dst: Buf::start(1), input: 1, bytes: k_len * 2 },
            Step::WriteInput { dst: Buf::start(2), input: 2, bytes: v_bytes },
        ];
        let fill = match fill_pos_slots(kv, position as i32, position as i32, 1) {
            Ok(f) => f,
            Err(e) => {
                let r = Program::fail(s, e);
                assert(r@ =~= self.layer0_attn_heads(q_len, k_len, position, kv, policies));
                return r;
            },
        };
        let rope = launch_rope_write(
            h,
            kv,
            0,
            1,
            Buf::start(0),
            Buf::start(1),
            Buf::start(2),
            Buf::start(3),
            policies,
        );
        let decode = plan_decode_launch(h, kv, 0, Buf::start(4), Buf::start(3), true);
        let tail: Vec<Step> =
            vec![
            fill,
            rope,
            decode,
            Step::Fence,
            Step::Read {
                src: Buf::start(4),
                bytes: out_bytes,
                on_fail: OnFail::Memcpy("forward_layer0_attn: attn_out DtoH"),
            },
            Step::Release,
        ];
        let r = Program::complete(extend(s, tail));
        assert(r@ =~= self.layer0_attn_heads(q_len, k_len, position, kv, policies));
        r
    }

    /// The first part of the first layer at position zero: rotated queries and
    /// keys, of which attention over a single position has no need, and the
    /// values.
    pub fn forward_layer0_position_zero_to_token(&self, token_id: u32) -> (r: Program)
        requires
            self.probe_fits(),
        ensures
            r@ == self.qk_rope(token_id, 0),
    {
        self.forward_layer0_qk_rope(token_id, 0)
    }

    /// Whether the heads of an attention over a single position can be shared
    /// out and counted.
    pub open spec fn zero_fits(&self) -> bool {
        &&& self.arch.num_kv_heads_sliding > 0
        &&& self.arch.num_attention_heads * self.arch.head_dim_sliding <= usize::MAX
        &&& self.arch.num_kv_heads_sliding * self.arch.head_dim_sliding <= usize::MAX
    }

    /// Whether the heads of an attention over a single position can be shared
    /// out and counted.
    pub fn check_zero(&self) -> (r: bool)
        ensures
            r == self.zero_fits(),
    {
        let width: u128 = self.arch.head_dim_sliding as u128;
        let most: u128 = usize::MAX as u128;
        self.arch.num_kv_heads_sliding > 0 && within(
            &product(self.arch.num_attention_heads as u128, width),
            most,
        ) && within(&product(self.arch.num_kv_heads_sliding as u128, width), most)
    }

    /// Attention over a single position: each query head's output is its
    /// key/value head's row of values.
    pub open spec fn zero_attn(&self, v: Seq<u32>) -> Result<Seq<u16>, RuntimeError> {
        let heads = self.arch.num_attention_heads;
        let kv_heads = self.arch.num_kv_heads_sliding;
        let width = self.arch.head_dim_sliding;
        if heads % kv_heads != 0 {
            Err(
                cuda_err(
                    "forward_layer0_position_zero: num_q_heads not divisible by num_kv_heads",
                ),
            )
        } else if v.len() != kv_heads * width {
            Err(cuda_err("forward_layer0_position_zero: v_f32 length unexpected"))
        } else {
            Ok(shared_rows(v, heads as nat, (heads / kv_heads) as nat, width as nat))
        }
    }

    /// Attention over a single position: each query head's output is its
    /// key/value head's row of values.
    pub fn position_zero_attn_out(&self, v: &[u32]) -> (r: Result<Vec<u16>, RuntimeError>)
        requires
            self.zero_fits(),
        ensures
            match r {
                Ok(out) => self.zero_attn(v@) == Ok::<Seq<u16>, RuntimeError>(out@),
                Err(e) => self.zero_attn(v@) == Err::<Seq<u16>, RuntimeError>(e),
            },
    {
        let heads: usize = self.arch.num_attention_heads;
        let kv_heads: usize = self.arch.num_kv_heads_sliding;
        let width: usize = self.arch.head_dim_sliding;
        if heads % kv_heads != 0 {
            return Err(
                cuda_err(
                    "forward_layer0_position_zero: num_q_heads not divisible by num_kv_heads",
                ),
            );
        }
        let ratio: usize = heads / kv_heads;
        if v.len() != kv_heads * width {
            return Err(cuda_err("forward_layer0_position_zero: v_f32 length unexpected"));
        }
        let ghost full = shared_rows(v@, heads as nat, ratio as nat, width as nat);
        proof {
            vstd::arithmetic::div_mod::lemma_fundamental_div_mod(heads as int, kv_heads as int);
            assert(heads == ratio * kv_heads) by (nonlinear_arith)
                requires
                    heads == kv_heads * ratio,
            ;
            assert(0 * width == 0);
        }
        let mut out: Vec<u16> = Vec::new();
        let mut qh: usize = 0;
        while qh < heads
            invariant
                qh <= heads,
                kv_heads > 0,
                heads == ratio * kv_heads,
                v@.len() == kv_heads * width,
                kv_heads * width <= usize::MAX,
                heads * width <= usize::MAX,
                full == shared_rows(v@, heads as nat, ratio as nat, width as nat),
                out@.len() == qh * width,
                forall|i: int| 0 <= i < out@.len() ==> #[trigger] out@[i] == full[i],
            decreases heads - qh,
        {
            assert(ratio > 0) by (nonlinear_arith)
                requires
                    heads == ratio * kv_heads,
                    qh < heads,
            ;
            let kvh: usize = qh / ratio;
            proof {
                vstd::arithmetic::div_mod::lemma_fundamental_div_mod(qh as int, ratio as int);
                assert(kvh < kv_heads) by (nonlinear_arith)
                    requires
                        qh == ratio * kvh + qh as int % ratio as int,
                        0 <= qh as int % ratio as int,
                        qh < ratio * kv_heads,
                        ratio > 0,
                ;
                assert(kvh * width + width <= kv_heads * width && qh * width + width <= heads
                    * width) by (nonlinear_arith)
                    requires
                        kvh + 1 <= kv_heads,
                        qh + 1 <= heads,
                ;
            }
            let base: usize = kvh * width;
            let mut d: usize = 0;
            while d < width
                invariant
                    d <= width,
                    qh < heads,
                    ratio > 0,
                    kvh == qh / ratio,
                    base == kvh * width,
                    base + width <= v@.len(),
                    base + width <= usize::MAX,
                    qh * width + width <= heads * width,
                    full == shared_rows(v@, heads as nat, ratio as nat, width as nat),
                    out@.len() == qh * width + d,
                    forall|i: int| 0 <= i < out@.len() ==> #[trigger] out@[i] == full[i],
                decreases width - d,
            {
                let x: u16 = f32_to_bf16_bits(v[base + d]);
                proof {
                    let i = qh * width + d;
                    vstd::arithmetic::div_mod::lemma_fundamental_div_mod_converse(
                        i,
                        width as int,
                        qh as int,
                        d as int,
                    );
                    assert(full[i] == x);
                }
                out.push(x);
                d = d + 1;
            }
            assert((qh + 1) * width == qh * width + width) by (nonlinear_arith);
            qh = qh + 1;
        }
        assert(out@ =~= full);
        Ok(out)
    }

    /// The residual around the attention at position zero: the embedding once
    /// more, read back in bf16.
    pub open spec fn zero_residual(&self, token: u32) -> ProgramView {
        completes(
            seq![
                Step::Region { name: "gemma4_nvfp4_pz_tok", bytes: 4, align: 16 },
                Step::WriteI32 { dst: Buf::start(0), value: token as i32 },
                Step::Region {
                    name: "gemma4_nvfp4_pz_residual",
                    bytes: (2 * (self.arch.hidden_size as u32)) as usize,
                    align: 256,
                },
                self.embed_step(Buf::start(1), Buf::start(0)),
                Step::Fence,
                Step::Read {
                    src: Buf::start(1),
                    bytes: (2 * (self.arch.hidden_size as u32)) as usize,
                    on_fail: OnFail::Memcpy("position_zero: residual DtoH"),
                },
            ],
        )
    }

    /// The residual around the attention at position zero: the embedding once
    /// more, read back in bf16.
    pub fn position_zero_residual(&self, token_id: u32) -> (r: Program)
        requires
            self.fits(1),
        ensures
            r@ == self.zero_residual(token_id),
    {
        let bytes: usize = self.arch.hidden_size as u32 as usize * 2;
        let s: Vec<Step> =
            vec![
            Step::Region { name: "gemma4_nvfp4_pz_tok", bytes: 4, align: 16 },
            Step::WriteI32 { dst: Buf::start(0), value: token_id as i32 },
            Step::Region { name: "gemma4_nvfp4_pz_residual", bytes, align: 256 },
            self.plan_embed(Buf::start(1), Buf::start(0)),
            Step::Fence,
            Step::Read {
                src: Buf::start(1),
                bytes,
                on_fail: OnFail::Memcpy("position_zero: residual DtoH"),
            },
        ];
        Program::complete(s)
    }
}

} // verus!
