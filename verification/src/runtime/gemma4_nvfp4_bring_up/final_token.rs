//! The end of a forward pass: the final norm, the tied head and the token.

use crate::runtime::error::{corrupt_runtime_err, cuda_err, Arg, Reason, RuntimeError};
use crate::runtime::gemma4_nvfp4_bring_up::launches::{extend, launch_argmax};
use crate::runtime::gemma4_nvfp4_bring_up::model::Gemma4Nvfp4Bringup;
use crate::runtime::gemma4_nvfp4_bring_up::post_attn::rms_bf16;
use crate::runtime::gemma4_nvfp4_ops::gemma4_nvfp4_attn_proj;
use crate::runtime::step::{completes, refuses, Buf, OnFail, Program, ProgramView, Step};
use vstd::prelude::*;

verus! {

/// Whether an index is a token of the vocabulary.
pub open spec fn in_vocabulary(id: i32, vocab: u32) -> bool {
    0 <= id < vocab
}

impl Gemma4Nvfp4Bringup {
    /// Regions, upload and final norm: the residual in region 0, room for the
    /// logits in region 1 and for the token in region 2.
    pub open spec fn final_head(
        &self,
        h: &'static str,
        logits: &'static str,
        token: &'static str,
    ) -> Seq<Step> {
        let hidden = self.arch.hidden_size as u32;
        let vocab = self.arch.vocab_size as u32;
        seq![
            Step::Region { name: h, bytes: (2 * hidden) as usize, align: 256 },
            Step::Region { name: logits, bytes: (4 * vocab) as usize, align: 256 },
            Step::Region { name: token, bytes: 4, align: 16 },
            Step::WriteInput { dst: Buf::start(0), input: 0, bytes: (2 * hidden) as usize },
            rms_bf16(
                1,
                hidden,
                self.arch.rms_norm_eps_bits,
                Buf::start(0),
                self.model.outside.final_norm.offset_bytes,
            ),
        ]
    }

    /// The normalized residual goes to the buffer of the last hidden state in
    /// half precision, where there is one.
    pub open spec fn snapshot(&self) -> Seq<Step> {
        if self.base_last_hidden_ptr != 0 {
            seq![
                Step::Bf16ToF16Sat {
                    dst: Buf::At(self.base_last_hidden_ptr),
                    src: Buf::start(0),
                    n: self.arch.hidden_size as u32,
                },
            ]
        } else {
            Seq::empty()
        }
    }

    fn plan_snapshot(&self) -> (r: Vec<Step>)
        ensures
            r@ == self.snapshot(),
    {
        let r: Vec<Step> = if self.base_last_hidden_ptr != 0 {
            vec![
                Step::Bf16ToF16Sat {
                    dst: Buf::At(self.base_last_hidden_ptr),
                    src: Buf::start(0),
                    n: self.arch.hidden_size as u32,
                },
            ]
        } else {
            Vec::new()
        };
        assert(r@ =~= self.snapshot());
        r
    }

    fn plan_final_head(
        &self,
        h: &'static str,
        logits: &'static str,
        token: &'static str,
    ) -> (r: Vec<Step>)
        requires
            self.fits(1),
        ensures
            r@ == self.final_head(h, logits, token),
    {
        let hidden: u32 = self.arch.hidden_size as u32;
        let vocab: u32 = self.arch.vocab_size as u32;
        let r: Vec<Step> =
            vec![
            Step::Region { name: h, bytes: hidden as usize * 2, align: 256 },
            Step::Region { name: logits, bytes: vocab as usize * 4, align: 256 },
            Step::Region { name: token, bytes: 4, align: 16 },
            Step::WriteInput { dst: Buf::start(0), input: 0, bytes: hidden as usize * 2 },
            rms_bf16(
                1,
                hidden,
                self.arch.rms_norm_eps_bits,
                Buf::start(0),
                self.model.outside.final_norm.offset_bytes,
            ),
        ];
        assert(r@ =~= self.final_head(h, logits, token));
        r
    }

    /// The product with the raw embedding table, which serves as the head.
    pub open spec fn head_step(&self) -> Step {
        gemma4_nvfp4_attn_proj(
            Buf::start(0),
            self.tables.lm_head_tokens,
            Buf::start(1),
            1,
            self.arch.vocab_size as u32 as i32,
            self.arch.hidden_size as u32 as i32,
        )
    }

    fn plan_head(&self) -> (r: Step)
        ensures
            r == self.head_step(),
    {
        gemma4_nvfp4_attn_proj(
            Buf::start(0),
            self.tables.lm_head_tokens,
            Buf::start(1),
            1,
            self.arch.vocab_size as u32 as i32,
            self.arch.hidden_size as u32 as i32,
        )
    }

    /// From a residual to a token: the host argument is the bf16 residual, the
    /// reading the 32-bit index of the largest logit. Where there is a buffer
    /// for the last hidden state, the normalized residual goes there too.
    pub open spec fn final_to_token(&self, residual_len: usize) -> ProgramView {
        let hidden = self.arch.hidden_size as u32;
        if residual_len != hidden as usize {
            refuses(cuda_err("forward_final_to_token: h_residual length != hidden"))
        } else {
            completes(
                self.final_head(
                    "gemma4_nvfp4_final_h",
                    "gemma4_nvfp4_final_logits",
                    "gemma4_nvfp4_final_token",
                ) + self.snapshot() + seq![
                    self.head_step(),
                    launch_argmax(
                        Buf::start(1),
                        Buf::start(2),
                        self.arch.vocab_size as u32 as i32,
                    ),
                    Step::Fence,
                    Step::Read {
                        src: Buf::start(2),
                        bytes: 4,
                        on_fail: OnFail::Memcpy("forward_final_to_token: token DtoH"),
                    },
                    Step::Release,
                ],
            )
        }
    }

    /// From a residual to a token.
    pub fn forward_final_to_token(&self, residual_len: usize) -> (r: Program)
        requires
            self.fits(1),
        ensures
            r@ == self.final_to_token(residual_len),
    {
        let hidden: u32 = self.arch.hidden_size as u32;
        if residual_len != hidden as usize {
            return Program::refuse(
                cuda_err("forward_final_to_token: h_residual length != hidden"),
            );
        }
        let s = self.plan_final_head(
            "gemma4_nvfp4_final_h",
            "gemma4_nvfp4_final_logits",
            "gemma4_nvfp4_final_token",
        );
        let s = extend(s, self.plan_snapshot());
        let tail: Vec<Step> =
            vec![
            self.plan_head(),
            launch_argmax(Buf::start(1), Buf::start(2), self.arch.vocab_size as u32 as i32),
            Step::Fence,
            Step::Read {
                src: Buf::start(2),
                bytes: 4,
                on_fail: OnFail::Memcpy("forward_final_to_token: token DtoH"),
            },
            Step::Release,
        ];
        let r = Program::complete(extend(s, tail));
        assert(r@ =~= self.final_to_token(residual_len));
        r
    }

    /// The token behind an index that the device handed back; refused outside
    /// of the vocabulary.
    pub fn final_token(&self, id: i32) -> (r: Result<u32, RuntimeError>)
        ensures
            r == (if in_vocabulary(id, self.arch.vocab_size as u32) {
                Ok(id as u32)
            } else {
                Err(
                    cuda_err(
                        "forward_final_to_token: argmax produced out-of-range token id",
                    ),
                )
            }),
    {
        let vocab: u32 = self.arch.vocab_size as u32;
        if id < 0 || id as u32 >= vocab {
            return Err(
                cuda_err("forward_final_to_token: argmax produced out-of-range token id"),
            );
        }
        Ok(id as u32)
    }

    /// The same pass with two readings more: the normalized residual and the
    /// logits, each taken before the next launch of the chain.
    pub open spec fn final_to_token_with_dump(&self, residual_len: usize) -> ProgramView {
        let hidden = self.arch.hidden_size as u32;
        let vocab = self.arch.vocab_size as u32;
        if residual_len != hidden as usize {
            refuses(
                corrupt_runtime_err(
                    Reason::two(
                        "forward_final_to_token_with_dump: residual length ",
                        Arg::U(residual_len as u64),
                        " != hidden ",
                        Arg::U(hidden as u64),
                        "",
                    ),
                ),
            )
        } else {
            completes(
                self.final_head(
                    "g4n_final_dump_h",
                    "g4n_final_dump_logits",
                    "g4n_final_dump_token",
                ) + self.snapshot() + seq![
                    Step::Fence,
                    Step::Read {
                        src: Buf::start(0),
                        bytes: (2 * hidden) as usize,
                        on_fail: OnFail::Memcpy(
                            "forward_final_to_token_with_dump: h_normed DtoH",
                        ),
                    },
                    self.head_step(),
                    Step::Fence,
                    Step::Read {
                        src: Buf::start(1),
                        bytes: (4 * vocab) as usize,
                        on_fail: OnFail::Memcpy("forward_final_to_token_with_dump: logits DtoH"),
                    },
                    launch_argmax(Buf::start(1), Buf::start(2), vocab as i32),
                    Step::Fence,
                    Step::Read {
                        src: Buf::start(2),
                        bytes: 4,
                        on_fail: OnFail::Memcpy("forward_final_to_token_with_dump: token DtoH"),
                    },
                    Step::Release,
                ],
            )
        }
    }

    /// From a residual to a token, with the readings of a dump.
    pub fn forward_final_to_token_with_dump(&self, residual_len: usize) -> (r: Program)
        requires
            self.fits(1),
        ensures
            r@ == self.final_to_token_with_dump(residual_len),
    {
        let hidden: u32 = self.arch.hidden_size as u32;
        let vocab: u32 = self.arch.vocab_size as u32;
        if residual_len != hidden as usize {
            return Program::refuse(
                corrupt_runtime_err(
                    Reason::two(
                        "forward_final_to_token_with_dump: residual length ",
                        Arg::U(residual_len as u64),
                        " != hidden ",
                        Arg::U(hidden as u64),
                        "",
                    ),
                ),
            );
        }
        let s = self.plan_final_head(
            "g4n_final_dump_h",
            "g4n_final_dump_logits",
            "g4n_final_dump_token",
        );
        let s = extend(s, self.plan_snapshot());
        let tail: Vec<Step> =
            vec![
            Step::Fence,
            Step::Read {
                src: Buf::start(0),
                bytes: hidden as usize * 2,
                on_fail: OnFail::Memcpy("forward_final_to_token_with_dump: h_normed DtoH"),
            },
            self.plan_head(),
            Step::Fence,
            Step::Read {
                src: Buf::start(1),
                bytes: vocab as usize * 4,
                on_fail: OnFail::Memcpy("forward_final_to_token_with_dump: logits DtoH"),
            },
            launch_argmax(Buf::start(1), Buf::start(2), vocab as i32),
            Step::Fence,
            Step::Read {
                src: Buf::start(2),
                bytes: 4,
                on_fail: OnFail::Memcpy("forward_final_to_token_with_dump: token DtoH"),
            },
            Step::Release,
        ];
        let r = Program::complete(extend(s, tail));
        assert(r@ =~= self.final_to_token_with_dump(residual_len));
        r
    }

    /// A dumped pass runs the chain of the pass without a dump: the same norm,
    /// snapshot, head and argmax on the same regions. It adds fences and
    /// readings.
    pub proof fn law_dump_runs_the_same_chain(&self, residual_len: usize)
        requires
            residual_len == self.arch.hidden_size as u32,
        ensures
            ({
                let a = self.final_to_token(residual_len).steps;
                let d = self.final_to_token_with_dump(residual_len).steps;
                let m = self.snapshot().len() as int;
                &&& a.len() == 10 + m
                &&& d.len() == 14 + m
                &&& d.subrange(3, 5 + m) == a.subrange(3, 5 + m)
                &&& d[5 + m] is Fence && d[6 + m] is Read
                &&& d[7 + m] == a[5 + m]
                &&& d[8 + m] is Fence && d[9 + m] is Read
                &&& d[10 + m] == a[6 + m]
                &&& d[11 + m] is Fence && d[12 + m] is Read && a[7 + m] is Fence
                    && a[8 + m] is Read
                &&& d[12 + m]->Read_src == a[8 + m]->Read_src
                &&& d[12 + m]->Read_bytes == a[8 + m]->Read_bytes
                &&& d[13 + m] == a[9 + m]
            }),
    {
        let a = self.final_to_token(residual_len).steps;
        let d = self.final_to_token_with_dump(residual_len).steps;
        let m = self.snapshot().len() as int;
        assert(d.subrange(3, 5 + m) =~= a.subrange(3, 5 + m));
    }

    /// The token behind an index of a dumped pass.
    pub fn final_dumped_token(&self, id: i32) -> (r: Result<u32, RuntimeError>)
        ensures
            r == (if in_vocabulary(id, self.arch.vocab_size as u32) {
                Ok(id as u32)
            } else {
                Err(
                    corrupt_runtime_err(
                        Reason::two(
                            "forward_final_to_token_with_dump: argmax out-of-range token id=",
                            Arg::I(id),
                            " vocab=",
                            Arg::U(self.arch.vocab_size as u32 as u64),
                            "",
                        ),
                    ),
                )
            }),
    {
        let vocab: u32 = self.arch.vocab_size as u32;
        if id < 0 || id as u32 >= vocab {
            return Err(
                corrupt_runtime_err(
                    Reason::two(
                        "forward_final_to_token_with_dump: argmax out-of-range token id=",
                        Arg::I(id),
                        " vocab=",
                        Arg::U(vocab as u64),
                        "",
                    ),
                ),
            );
        }
        Ok(id as u32)
    }
}

} // verus!
