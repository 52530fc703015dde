//! Device programs: what a planner hands to whatever drives the GPU.
//!
//! A program is a list of steps in stream order. Steps name memory either by
//! a device address that was known when the program was made, or by a place
//! in one of the regions that the program itself asks for; regions are
//! counted from zero in the order in which they are asked for.

use crate::runtime::error::RuntimeError;
use crate::runtime::layer_exec::LayerForwardArgs;
use vstd::prelude::*;

verus! {

/// A place in device memory.
#[derive(Clone, Copy, Debug, PartialEq, Eq, Structural)]
pub enum Buf {
    /// A known device address; zero stands for no memory.
    At(u64),
    /// A byte offset in a region of the program.
    In { region: usize, offset: u64 },
}

impl Buf {
    /// The place `n` bytes further on.
    pub open spec fn plus_spec(self, n: u64) -> Buf {
        match self {
            Buf::At(p) => Buf::At((p + n) as u64),
            Buf::In { region, offset } => Buf::In { region, offset: (offset + n) as u64 },
        }
    }

    /// Whether the place `n` bytes further on has an address.
    pub open spec fn reaches(self, n: int) -> bool {
        match self {
            Buf::At(p) => p + n <= u64::MAX,
            Buf::In { region, offset } => offset + n <= u64::MAX,
        }
    }

    /// The place `n` bytes further on.
    #[verifier::when_used_as_spec(plus_spec)]
    pub fn plus(self, n: u64) -> (r: Buf)
        requires
            self.reaches(n as int),
        ensures
            r == self.plus_spec(n),
    {
        match self {
            Buf::At(p) => Buf::At(p + n),
            Buf::In { region, offset } => Buf::In { region, offset: offset + n },
        }
    }

    /// The start of a region.
    pub open spec fn start_spec(region: usize) -> Buf {
        Buf::In { region, offset: 0 }
    }

    /// The start of a region.
    #[verifier::when_used_as_spec(start_spec)]
    pub fn start(region: usize) -> (r: Buf)
        ensures
            r == Buf::start_spec(region),
    {
        Buf::In { region, offset: 0 }
    }
}

/// Number of blocks of `block` threads that cover `n` elements.
pub open spec fn blocks_for(n: nat, block: nat) -> nat {
    (n + (block - 1) as nat) / block
}

/// Number of blocks of 256 threads that cover `n` elements.
pub open spec fn blocks_256_spec(n: u32) -> u32 {
    blocks_for(n as nat, 256) as u32
}

/// Number of blocks of 256 threads that cover `n` elements.
#[verifier::when_used_as_spec(blocks_256_spec)]
pub fn blocks_256(n: u32) -> (r: u32)
    requires
        n <= 0xffff_ff00,
    ensures
        r == blocks_256_spec(n),
        r == blocks_for(n as nat, 256),
{
    (n + 255) / 256
}

/// Just enough blocks cover the elements.
pub proof fn law_blocks_cover(n: nat, block: nat)
    requires
        block > 0,
    ensures
        n <= blocks_for(n, block) * block,
        blocks_for(n, block) * block < n + block,
{
    let m = (n + (block - 1) as nat) as nat;
    vstd::arithmetic::div_mod::lemma_fundamental_div_mod(m as int, block as int);
    assert(blocks_for(n, block) * block == block * (m / block)) by (nonlinear_arith)
        requires
            blocks_for(n, block) == m / block,
    ;
}

/// Extent of a launch in blocks or threads.
#[derive(Clone, Copy, Debug, PartialEq, Eq, Structural)]
pub struct Dim3 {
    pub x: u32,
    pub y: u32,
    pub z: u32,
}

impl Dim3 {
    /// An extent along the first axis.
    pub open spec fn line_spec(x: u32) -> Dim3 {
        Dim3 { x, y: 1, z: 1 }
    }

    /// An extent along the first axis.
    #[verifier::when_used_as_spec(line_spec)]
    pub fn line(x: u32) -> (r: Dim3)
        ensures
            r == Dim3::line_spec(x),
    {
        Dim3 { x, y: 1, z: 1 }
    }

    /// An extent along the first two axes.
    pub open spec fn plane_spec(x: u32, y: u32) -> Dim3 {
        Dim3 { x, y, z: 1 }
    }

    /// An extent along the first two axes.
    #[verifier::when_used_as_spec(plane_spec)]
    pub fn plane(x: u32, y: u32) -> (r: Dim3)
        ensures
            r == Dim3::plane_spec(x, y),
    {
        Dim3 { x, y, z: 1 }
    }
}

/// How a failing call into the driver is reported.
#[derive(Clone, Copy, Debug)]
pub enum OnFail {
    /// By the launcher's own error.
    Launcher,
    /// As a failed copy.
    Memcpy(&'static str),
    /// As a failed copy of one of several buffers.
    MemcpyOf { op: &'static str, buffer: &'static str },
    /// As a failed launch.
    Launch(&'static str),
    /// As a fault of the runtime.
    Runtime(&'static str),
    /// Not at all; a reading is all zeros.
    Ignored,
    /// Not at all; there is no reading.
    Dropped,
}

/// Element format of a normalization.
#[derive(Clone, Copy, Debug, PartialEq, Eq, Structural)]
pub enum Format16 {
    Bf16,
    F16Format,
}

/// A kernel whose shared memory limit can be raised.
#[derive(Clone, Copy, Debug, PartialEq, Eq, Structural)]
pub enum DecodeKernel {
    /// NVFP4 cache, one block per query head.
    Nvfp4,
    /// NVFP4 cache, one block per key/value head.
    Nvfp4Gqa,
    /// 16-bit cache, tiles of 32 positions.
    Half,
    /// 16-bit cache, tiles of 16 positions.
    HalfBc16,
}

/// Arguments of the rotary embedding that also writes the NVFP4 cache.
#[derive(Clone, Copy, Debug)]
pub struct RopeKvWriteArgs {
    pub q_in: Buf,
    pub k_in: Buf,
    pub v_in: Buf,
    pub q_out: Buf,
    pub k_packed: u64,
    pub v_packed: u64,
    pub k_scale: u64,
    pub v_scale: u64,
    pub cos: u64,
    pub sin: u64,
    pub positions: u64,
    pub slot_mapping: u64,
    pub q_scale: u64,
    pub q_scale_cache: u64,
    pub num_tokens: i32,
    pub num_heads: i32,
    pub num_kv_heads: i32,
    pub head_dim: i32,
    pub rotary_dim: i32,
    pub k_policy: i32,
    pub v_policy: i32,
    pub hadamard_q: u64,
    pub hadamard_k: u64,
    pub rotate_v: i32,
    pub debug_k: u64,
    pub debug_v: u64,
    pub stochastic_v: i32,
}

/// Arguments of the paged decode over the NVFP4 cache.
#[derive(Clone, Copy, Debug)]
pub struct DecodeArgs {
    pub output: Buf,
    pub query: Buf,
    pub k_packed: u64,
    pub v_packed: u64,
    pub k_scale: u64,
    pub v_scale: u64,
    pub q_scale_cache: u64,
    pub block_tables: u64,
    pub context_lens: u64,
    pub q_descale: u64,
    /// Bit pattern of a 32-bit number.
    pub scale_bits: u32,
    pub num_heads: i32,
    pub num_kv_heads: i32,
    pub head_dim: i32,
    pub block_size: i32,
    pub max_blocks_per_seq: i32,
    pub window_size_left: i32,
}

/// Arguments of the paged decode over the drafter's 16-bit cache.
#[derive(Clone, Copy, Debug)]
pub struct HalfDecodeArgs {
    pub output: u64,
    pub query: u64,
    pub key_cache: u64,
    pub value_cache: u64,
    pub block_tables: u64,
    pub context_lens: u64,
    /// Bit pattern of a 32-bit number.
    pub scale_bits: u32,
    pub num_heads: i32,
    pub num_kv_heads: i32,
    pub head_dim: i32,
    pub block_size: i32,
    pub max_blocks_per_seq: i32,
    pub window_size_left: i32,
}

/// Arguments of the rotary embedding of the drafter's queries.
#[derive(Clone, Copy, Debug)]
pub struct RopePartialArgs {
    pub q_in: u64,
    pub k_in: u64,
    pub v_in: u64,
    pub q_out: u64,
    pub key_cache: u64,
    pub value_cache: u64,
    pub cos: u64,
    pub sin: u64,
    pub positions: Buf,
    pub slot_mapping: u64,
    pub num_tokens: i32,
    pub num_heads: i32,
    pub num_kv_heads: i32,
    pub head_dim: i32,
    pub rotary_dim: i32,
}

/// Arguments of the prefill over the NVFP4 cache.
#[derive(Clone, Copy, Debug)]
pub struct PrefillArgs {
    pub output: u64,
    pub query: Buf,
    pub k_packed: u64,
    pub v_packed: u64,
    pub k_scale: u64,
    pub v_scale: u64,
    pub q_scale_cache: u64,
    pub block_tables: u64,
    pub cu_seqlens: Buf,
    pub context_lens: u64,
    pub q_descale: u64,
    pub num_seqs: u32,
    pub num_tokens: u32,
    pub num_heads: u32,
    pub num_kv_heads: u32,
    pub head_dim: u32,
    pub block_size: u32,
    pub max_blocks_per_seq: u32,
    pub num_blocks_total: u32,
    /// Bit pattern of a 32-bit number.
    pub scale_bits: u32,
    pub window_size_left: i32,
    pub num_queries_per_kv: u32,
    pub tile_size: u32,
    pub block_q: u32,
    pub use_mma: bool,
    pub output_bf16: bool,
    /// Which of the two attention backends runs it.
    pub global_backend: bool,
}

/// Arguments of the sparse head of the drafter.
#[derive(Clone, Copy, Debug)]
pub struct MaskedEmbedderArgs {
    pub hidden: u64,
    pub centroids: u64,
    pub token_ordering: u64,
    pub lm_head: u64,
    pub hidden_size: i32,
    pub n_centroids: i32,
    pub top_k: i32,
    pub per_centroid: i32,
    pub vocab: i32,
    pub out_token_id: u64,
    pub out_logit: u64,
    pub out_sparse_ids: u64,
    pub out_sparse_logits: u64,
}

/// A kernel with its arguments, in the order of its parameters.
#[allow(inconsistent_fields)]
#[derive(Clone, Copy, Debug)]
pub enum KernelCall {
    FillPosSlots {
        positions: u64,
        slot_mapping: u64,
        context_lens: u64,
        position_offset: i32,
        start_slot: i32,
        num_tokens: i32,
    },
    F32ToBf16 { dst: Buf, src: Buf, n: i32 },
    VNormBf16 { v: Buf, eps_bits: u32, head_dim: i32 },
    ScaledAddBf16 { dst: Buf, src: Buf, alpha: u64, n: i32 },
    CastF32ToF16 { dst: Buf, src: Buf, n: i32 },
    VectorAddF16 { dst: Buf, src: Buf, n: i32 },
    FusedGeluMulF16 { out: Buf, gate_up: Buf, intermediate: i32 },
    ScaleInplaceF16 { x: Buf, scalar_bits: u32, n: i32 },
    ArgmaxF32 { logits: Buf, out: Buf, vocab: i32 },
    RopeSplitHalfBf16 { qk: Buf, cos: Buf, sin: Buf, head_dim: i32, pos: i32 },
    RopePartialF16(RopePartialArgs),
    RopeKvWrite(RopeKvWriteArgs),
    Decode { kernel: DecodeKernel, args: DecodeArgs },
    HalfDecode { kernel: DecodeKernel, args: HalfDecodeArgs },
    W4a16Gemv {
        out: Buf,
        packed: u64,
        scales: u64,
        global_scale: u64,
        act: Buf,
        n: i32,
        k: i32,
    },
    W4a16GemmMn {
        out: Buf,
        packed: u64,
        scales: u64,
        global_scale: u64,
        act: Buf,
        m: i32,
        n: i32,
        k: i32,
    },
    W4a16GateUp {
        out_gate: Buf,
        out_up: Buf,
        gate_packed: u64,
        gate_scales: u64,
        gate_global_scale: u64,
        up_packed: u64,
        up_scales: u64,
        up_global_scale: u64,
        act: Buf,
        i_size: i32,
        k: i32,
    },
    GeluTanhMul { out: Buf, gate: Buf, up: Buf, n: i32 },
    DequantFp8 { src: u64, scales: u64, dst: u64, num_kv_heads: i32, head_dim: i32, n: i64 },
    DequantNvfp4 { packed: u64, scales: u64, dst: u64, n: i64 },
    MaskedEmbedder(MaskedEmbedderArgs),
}

/// One step of a program.
#[allow(inconsistent_fields)]
#[derive(Clone, Copy, Debug)]
pub enum Step {
    /// Ask the arena for a region.
    Region { name: &'static str, bytes: usize, align: usize },
    /// Write one 32-bit integer from the host.
    WriteI32 { dst: Buf, value: i32 },
    /// Write two 32-bit integers from the host.
    WriteI32Pair { dst: Buf, first: i32, second: i32 },
    /// Write a host argument of the planned function, by its place.
    WriteInput { dst: Buf, input: usize, bytes: usize },
    /// Copy within the device.
    Copy { dst: Buf, src: Buf, bytes: usize, on_fail: OnFail },
    /// Fill with zero bytes.
    Zero { dst: Buf, bytes: usize, on_fail: OnFail },
    /// Read back to the host; the readings are the function's outputs.
    Read { src: Buf, bytes: usize, on_fail: OnFail },
    /// Gather embedding rows.
    Embed { num_tokens: u32, hidden: u32, vocab: u32, dst: Buf, table: u64, ids: Buf },
    /// Normalize rows in place.
    RmsNorm {
        format: Format16,
        rows: u32,
        width: u32,
        eps_bits: u32,
        data: Buf,
        gamma: u64,
    },
    /// 16-bit matrix product with a 32-bit result.
    Gemm { format: Format16, act: Buf, weight: u64, out: Buf, m: i32, n: i32, k: i32 },
    /// Saturating conversion from bf16 to half precision.
    Bf16ToF16Sat { dst: Buf, src: Buf, n: u32 },
    /// Element-wise bf16 sum into the first operand.
    VectorAddBf16 { dst: Buf, src: Buf, n: u32 },
    /// Raise a kernel's shared memory limit.
    SharedLimit { kernel: DecodeKernel, bytes: u32, on_fail: OnFail },
    /// Launch a kernel.
    Launch { call: KernelCall, grid: Dim3, block: Dim3, shared: u32, on_fail: OnFail },
    /// Run the prefill attention.
    Prefill { args: PrefillArgs },
    /// Wait for the stream.
    Fence,
    /// Write a reading back as it is; readings are counted from zero like
    /// regions.
    WriteReading { reading: usize, dst: Buf },
    /// Round a 32-bit reading to bf16 on the host and write it.
    NarrowReading { reading: usize, dst: Buf },
    /// Widen a half-precision reading to 32 bits on the host and write it.
    WidenReading { reading: usize, dst: Buf },
    /// Multiply a bf16 reading by the bf16 number of another on the host,
    /// round to bf16 and write it.
    ScaleReading { values: usize, scalar: usize, dst: Buf },
    /// Give back every region asked for so far.
    Release,
    /// Write one 32-bit pattern from the host, in stream order.
    HostBits { dst: Buf, bits: u32, on_fail: OnFail },
    /// Write consecutive 32-bit integers from the host, in stream order.
    HostRange { dst: Buf, first: i32, count: u32, on_fail: OnFail },
    /// Write two 32-bit integers from the host, in stream order.
    HostPair { dst: Buf, first: i32, second: i32, on_fail: OnFail },
    /// Write a host argument of the planned function, in stream order.
    HostInput { dst: Buf, input: usize, bytes: usize, on_fail: OnFail },
    /// Convert half precision to bf16 in place.
    F16ToBf16 { data: Buf, n: u32 },
    /// Cap 32-bit logits smoothly.
    Softcap { logits: Buf, rows: u32, vocab: u32, cap_bits: u32 },
    /// Run one layer of the model with mixed weight formats.
    LayerForward { args: LayerForwardArgs },
}

/// The steps to run in order, and what to report after them, if anything.
/// Whoever runs a program that reports gives back its regions.
#[derive(Debug)]
pub struct Program {
    pub steps: Vec<Step>,
    pub failure: Option<RuntimeError>,
}

/// What a [`Program`] stands for.
#[verifier::ext_equal]
pub struct ProgramView {
    pub steps: Seq<Step>,
    pub failure: Option<RuntimeError>,
}

impl View for Program {
    type V = ProgramView;

    open spec fn view(&self) -> ProgramView {
        ProgramView { steps: self.steps@, failure: self.failure }
    }
}

/// A program that runs to its end.
pub open spec fn completes(steps: Seq<Step>) -> ProgramView {
    ProgramView { steps, failure: None }
}

/// A program that ends in a report.
pub open spec fn fails(steps: Seq<Step>, e: RuntimeError) -> ProgramView {
    ProgramView { steps, failure: Some(e) }
}

/// A program that does nothing but report.
pub open spec fn refuses(e: RuntimeError) -> ProgramView {
    ProgramView { steps: Seq::empty(), failure: Some(e) }
}

impl ProgramView {
    /// One program after another; a report ends both.
    pub open spec fn followed_by(self, next: ProgramView) -> ProgramView {
        if self.failure is Some {
            self
        } else {
            ProgramView { steps: self.steps + next.steps, failure: next.failure }
        }
    }
}

impl Program {
    /// A program that runs to its end.
    pub fn complete(steps: Vec<Step>) -> (r: Program)
        ensures
            r@ == completes(steps@),
    {
        Program { steps, failure: None }
    }

    /// A program that ends in a report.
    pub fn fail(steps: Vec<Step>, e: RuntimeError) -> (r: Program)
        ensures
            r@ == fails(steps@, e),
    {
        Program { steps, failure: Some(e) }
    }

    /// A program that does nothing but report.
    pub fn refuse(e: RuntimeError) -> (r: Program)
        ensures
            r@ == refuses(e),
    {
        let r = Program { steps: Vec::new(), failure: Some(e) };
        assert(r@ =~= refuses(e));
        r
    }

    /// One program after another.
    pub fn followed_by(self, next: Program) -> (r: Program)
        ensures
            r@ == self@.followed_by(next@),
    {
        if self.failure.is_some() {
            return self;
        }
        let mut steps = self.steps;
        let mut rest = next.steps;
        steps.append(&mut rest);
        Program { steps, failure: next.failure }
    }
}

/// Putting programs one after another is associative.
pub proof fn law_followed_by_associative(a: ProgramView, b: ProgramView, c: ProgramView)
    ensures
        a.followed_by(b).followed_by(c) == a.followed_by(b.followed_by(c)),
{
    assert(a.followed_by(b).followed_by(c).steps =~= a.followed_by(b.followed_by(c)).steps);
}

/// After a report nothing further runs.
pub proof fn law_report_ends_program(a: ProgramView, b: ProgramView)
    requires
        a.failure is Some,
    ensures
        a.followed_by(b) == a,
{
}

} // verus!
