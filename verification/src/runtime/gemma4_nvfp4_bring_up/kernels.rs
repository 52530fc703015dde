//! The kernels that programs launch, by module and entry, and what is loaded
//! before the first program runs.

use crate::runtime::step::{
    completes, DecodeKernel, Format16, KernelCall, Program, Step,
};
use vstd::prelude::*;

verus! {

/// A kernel: its module and its entry.
#[derive(Clone, Copy, Debug)]
pub struct KernelName {
    pub module: &'static str,
    pub entry: &'static str,
}

/// A kernel by module and entry.
pub open spec fn named_spec(module: &'static str, entry: &'static str) -> KernelName {
    KernelName { module, entry }
}

/// A kernel by module and entry.
#[verifier::when_used_as_spec(named_spec)]
pub fn named(module: &'static str, entry: &'static str) -> (r: KernelName)
    ensures
        r == named_spec(module, entry),
{
    KernelName { module, entry }
}

/// The kernels of the base model's forward path, in the order of loading.
pub open spec fn forward_table() -> Seq<KernelName> {
    seq![
        named("embedding_gather_bf16", "embedding_gather_bf16_kernel"),
        named("rmsnorm_inplace_bf16_gbf16", "rmsnorm_inplace_bf16_gbf16_kernel"),
        named("vector_add_bf16", "vector_add_bf16_kernel"),
        named("rope_split_half_bf16", "rope_split_half_bf16_kernel"),
        named("argmax", "argmax_kernel"),
        named("fused_rope_partial_nvfp4kv_bf16in", "fused_rope_partial_nvfp4kv_bf16in_kernel"),
        named(
            "flash_attention_nvfp4kv_bf16out",
            "flash_attention_2_decode_nvfp4kv_bf16out_kernel",
        ),
        named(
            "flash_attention_nvfp4kv_bf16out",
            "flash_attention_2_decode_nvfp4kv_gqa_bf16out_kernel",
        ),
        named("g4n_fill_pos_slots_i32", "g4n_fill_pos_slots_i32_kernel"),
        named("f32_to_bf16", "f32_to_bf16_kernel"),
        named("vnorm_bf16", "vnorm_bf16_kernel"),
        named("g4n_scaled_add_bf16", "g4n_scaled_add_bf16_kernel"),
        named("cast_fp", "cast_f32_to_f16_kernel"),
        named("rmsnorm_inplace_f16", "rmsnorm_inplace_f16_kernel"),
        named("fused_gelu_mul_f16", "fused_gelu_mul_f16_kernel"),
        named("vector_add_f16", "vector_add_f16_kernel"),
        named("scale_inplace_f16", "scale_inplace_f16_kernel"),
        named("fused_rope_partial_f16kv", "fused_rope_partial_f16kv_kernel"),
        named("bf16_to_f16_sat", "bf16_to_f16_sat_kernel"),
        named("mistral35_w4a16_gemv_bf16", "mistral35_w4a16_gemv_bf16_kernel"),
        named(
            "mistral35_w4a16_gate_up_gemv_bf16",
            "mistral35_w4a16_gate_up_gemv_bf16_kernel",
        ),
        named("gelu_tanh_mul_bf16", "gelu_tanh_mul_bf16_kernel"),
    ]
}

/// The kernels that come with a drafter, in the order of loading.
pub open spec fn drafter_table() -> Seq<KernelName> {
    seq![
        named("gemma4_masked_embedder", "gemma4_masked_embedder_argmax_f16_kernel"),
        named("flash_attention", "flash_attention_2_decode_f16io_kernel"),
        named("flash_attention_decode_f16io_bc16", "flash_attention_2_decode_f16io_kernel"),
        named("gemma4_drafter_dequant", "gemma4_drafter_dequant_fp8_to_f16_kernel"),
        named("gemma4_drafter_dequant", "gemma4_drafter_dequant_nvfp4_to_f16_kernel"),
    ]
}

/// The kernels of the base model's forward path, in the order of loading.
pub fn forward_kernels() -> (r: Vec<KernelName>)
    ensures
        r@ == forward_table(),
{
    vec![
        named("embedding_gather_bf16", "embedding_gather_bf16_kernel"),
        named("rmsnorm_inplace_bf16_gbf16", "rmsnorm_inplace_bf16_gbf16_kernel"),
        named("vector_add_bf16", "vector_add_bf16_kernel"),
        named("rope_split_half_bf16", "rope_split_half_bf16_kernel"),
        named("argmax", "argmax_kernel"),
        named("fused_rope_partial_nvfp4kv_bf16in", "fused_rope_partial_nvfp4kv_bf16in_kernel"),
        named(
            "flash_attention_nvfp4kv_bf16out",
            "flash_attention_2_decode_nvfp4kv_bf16out_kernel",
        ),
        named(
            "flash_attention_nvfp4kv_bf16out",
            "flash_attention_2_decode_nvfp4kv_gqa_bf16out_kernel",
        ),
        named("g4n_fill_pos_slots_i32", "g4n_fill_pos_slots_i32_kernel"),
        named("f32_to_bf16", "f32_to_bf16_kernel"),
        named("vnorm_bf16", "vnorm_bf16_kernel"),
        named("g4n_scaled_add_bf16", "g4n_scaled_add_bf16_kernel"),
        named("cast_fp", "cast_f32_to_f16_kernel"),
        named("rmsnorm_inplace_f16", "rmsnorm_inplace_f16_kernel"),
        named("fused_gelu_mul_f16", "fused_gelu_mul_f16_kernel"),
        named("vector_add_f16", "vector_add_f16_kernel"),
        named("scale_inplace_f16", "scale_inplace_f16_kernel"),
        named("fused_rope_partial_f16kv", "fused_rope_partial_f16kv_kernel"),
        named("bf16_to_f16_sat", "bf16_to_f16_sat_kernel"),
        named("mistral35_w4a16_gemv_bf16", "mistral35_w4a16_gemv_bf16_kernel"),
        named(
            "mistral35_w4a16_gate_up_gemv_bf16",
            "mistral35_w4a16_gate_up_gemv_bf16_kernel",
        ),
        named("gelu_tanh_mul_bf16", "gelu_tanh_mul_bf16_kernel"),
    ]
}

/// The kernels that come with a drafter, in the order of loading.
pub fn drafter_kernels() -> (r: Vec<KernelName>)
    ensures
        r@ == drafter_table(),
{
    vec![
        named("gemma4_masked_embedder", "gemma4_masked_embedder_argmax_f16_kernel"),
        named("flash_attention", "flash_attention_2_decode_f16io_kernel"),
        named("flash_attention_decode_f16io_bc16", "flash_attention_2_decode_f16io_kernel"),
        named("gemma4_drafter_dequant", "gemma4_drafter_dequant_fp8_to_f16_kernel"),
        named("gemma4_drafter_dequant", "gemma4_drafter_dequant_nvfp4_to_f16_kernel"),
    ]
}

/// The kernel of a launch.
pub open spec fn launched(call: KernelCall) -> KernelName {
    match call {
        KernelCall::FillPosSlots { .. } => named(
            "g4n_fill_pos_slots_i32",
            "g4n_fill_pos_slots_i32_kernel",
        ),
        KernelCall::F32ToBf16 { .. } => named("f32_to_bf16", "f32_to_bf16_kernel"),
        KernelCall::VNormBf16 { .. } => named("vnorm_bf16", "vnorm_bf16_kernel"),
        KernelCall::ScaledAddBf16 { .. } => named(
            "g4n_scaled_add_bf16",
            "g4n_scaled_add_bf16_kernel",
        ),
        KernelCall::CastF32ToF16 { .. } => named("cast_fp", "cast_f32_to_f16_kernel"),
        KernelCall::VectorAddF16 { .. } => named("vector_add_f16", "vector_add_f16_kernel"),
        KernelCall::FusedGeluMulF16 { .. } => named(
            "fused_gelu_mul_f16",
            "fused_gelu_mul_f16_kernel",
        ),
        KernelCall::ScaleInplaceF16 { .. } => named(
            "scale_inplace_f16",
            "scale_inplace_f16_kernel",
        ),
        KernelCall::ArgmaxF32 { .. } => named("argmax", "argmax_kernel"),
        KernelCall::RopeSplitHalfBf16 { .. } => named(
            "rope_split_half_bf16",
            "rope_split_half_bf16_kernel",
        ),
        KernelCall::RopePartialF16(_) => named(
            "fused_rope_partial_f16kv",
            "fused_rope_partial_f16kv_kernel",
        ),
        KernelCall::RopeKvWrite(_) => named(
            "fused_rope_partial_nvfp4kv_bf16in",
            "fused_rope_partial_nvfp4kv_bf16in_kernel",
        ),
        KernelCall::Decode { kernel, .. } => decode_name(kernel),
        KernelCall::HalfDecode { kernel, .. } => decode_name(kernel),
        KernelCall::W4a16Gemv { .. } => named(
            "mistral35_w4a16_gemv_bf16",
            "mistral35_w4a16_gemv_bf16_kernel",
        ),
        KernelCall::W4a16GemmMn { .. } => named(
            "mistral35_w4a16_gemm_mn_bf16",
            "mistral35_w4a16_gemm_mn_bf16_kernel",
        ),
        KernelCall::W4a16GateUp { .. } => named(
            "mistral35_w4a16_gate_up_gemv_bf16",
            "mistral35_w4a16_gate_up_gemv_bf16_kernel",
        ),
        KernelCall::GeluTanhMul { .. } => named("gelu_tanh_mul_bf16", "gelu_tanh_mul_bf16_kernel"),
        KernelCall::DequantFp8 { .. } => named(
            "gemma4_drafter_dequant",
            "gemma4_drafter_dequant_fp8_to_f16_kernel",
        ),
        KernelCall::DequantNvfp4 { .. } => named(
            "gemma4_drafter_dequant",
            "gemma4_drafter_dequant_nvfp4_to_f16_kernel",
        ),
        KernelCall::MaskedEmbedder(_) => named(
            "gemma4_masked_embedder",
            "gemma4_masked_embedder_argmax_f16_kernel",
        ),
    }
}

/// The kernel of a decode.
pub open spec fn decode_name(kernel: DecodeKernel) -> KernelName {
    match kernel {
        DecodeKernel::Nvfp4 => named(
            "flash_attention_nvfp4kv_bf16out",
            "flash_attention_2_decode_nvfp4kv_bf16out_kernel",
        ),
        DecodeKernel::Nvfp4Gqa => named(
            "flash_attention_nvfp4kv_bf16out",
            "flash_attention_2_decode_nvfp4kv_gqa_bf16out_kernel",
        ),
        DecodeKernel::Half => named("flash_attention", "flash_attention_2_decode_f16io_kernel"),
        DecodeKernel::HalfBc16 => named(
            "flash_attention_decode_f16io_bc16",
            "flash_attention_2_decode_f16io_kernel",
        ),
    }
}

/// The kernel of a decode.
pub fn kernel_of_decode(kernel: DecodeKernel) -> (r: KernelName)
    ensures
        r == decode_name(kernel),
{
    match kernel {
        DecodeKernel::Nvfp4 => named(
            "flash_attention_nvfp4kv_bf16out",
            "flash_attention_2_decode_nvfp4kv_bf16out_kernel",
        ),
        DecodeKernel::Nvfp4Gqa => named(
            "flash_attention_nvfp4kv_bf16out",
            "flash_attention_2_decode_nvfp4kv_gqa_bf16out_kernel",
        ),
        DecodeKernel::Half => named("flash_attention", "flash_attention_2_decode_f16io_kernel"),
        DecodeKernel::HalfBc16 => named(
            "flash_attention_decode_f16io_bc16",
            "flash_attention_2_decode_f16io_kernel",
        ),
    }
}

/// The kernel of a launch.
pub fn kernel_of(call: &KernelCall) -> (r: KernelName)
    ensures
        r == launched(*call),
{
    match call {
        KernelCall::FillPosSlots { .. } => named(
            "g4n_fill_pos_slots_i32",
            "g4n_fill_pos_slots_i32_kernel",
        ),
        KernelCall::F32ToBf16 { .. } => named("f32_to_bf16", "f32_to_bf16_kernel"),
        KernelCall::VNormBf16 { .. } => named("vnorm_bf16", "vnorm_bf16_kernel"),
        KernelCall::ScaledAddBf16 { .. } => named(
            "g4n_scaled_add_bf16",
            "g4n_scaled_add_bf16_kernel",
        ),
        KernelCall::CastF32ToF16 { .. } => named("cast_fp", "cast_f32_to_f16_kernel"),
        KernelCall::VectorAddF16 { .. } => named("vector_add_f16", "vector_add_f16_kernel"),
        KernelCall::FusedGeluMulF16 { .. } => named(
            "fused_gelu_mul_f16",
            "fused_gelu_mul_f16_kernel",
        ),
        KernelCall::ScaleInplaceF16 { .. } => named(
            "scale_inplace_f16",
            "scale_inplace_f16_kernel",
        ),
        KernelCall::ArgmaxF32 { .. } => named("argmax", "argmax_kernel"),
        KernelCall::RopeSplitHalfBf16 { .. } => named(
            "rope_split_half_bf16",
            "rope_split_half_bf16_kernel",
        ),
        KernelCall::RopePartialF16(_) => named(
            "fused_rope_partial_f16kv",
            "fused_rope_partial_f16kv_kernel",
        ),
        KernelCall::RopeKvWrite(_) => named(
            "fused_rope_partial_nvfp4kv_bf16in",
            "fused_rope_partial_nvfp4kv_bf16in_kernel",
        ),
        KernelCall::Decode { kernel, .. } => kernel_of_decode(*kernel),
        KernelCall::HalfDecode { kernel, .. } => kernel_of_decode(*kernel),
        KernelCall::W4a16Gemv { .. } => named(
            "mistral35_w4a16_gemv_bf16",
            "mistral35_w4a16_gemv_bf16_kernel",
        ),
        KernelCall::W4a16GemmMn { .. } => named(
            "mistral35_w4a16_gemm_mn_bf16",
            "mistral35_w4a16_gemm_mn_bf16_kernel",
        ),
        KernelCall::W4a16GateUp { .. } => named(
            "mistral35_w4a16_gate_up_gemv_bf16",
            "mistral35_w4a16_gate_up_gemv_bf16_kernel",
        ),
        KernelCall::GeluTanhMul { .. } => named("gelu_tanh_mul_bf16", "gelu_tanh_mul_bf16_kernel"),
        KernelCall::DequantFp8 { .. } => named(
            "gemma4_drafter_dequant",
            "gemma4_drafter_dequant_fp8_to_f16_kernel",
        ),
        KernelCall::DequantNvfp4 { .. } => named(
            "gemma4_drafter_dequant",
            "gemma4_drafter_dequant_nvfp4_to_f16_kernel",
        ),
        KernelCall::MaskedEmbedder(_) => named(
            "gemma4_masked_embedder",
            "gemma4_masked_embedder_argmax_f16_kernel",
        ),
    }
}

/// The kernel that a step other than a launch or an attention library call
/// runs, if any.
pub open spec fn step_kernel(step: Step) -> Option<KernelName> {
    match step {
        Step::Embed { .. } => Some(named("embedding_gather_bf16", "embedding_gather_bf16_kernel")),
        Step::RmsNorm { format, .. } => match format {
            Format16::Bf16 => Some(
                named("rmsnorm_inplace_bf16_gbf16", "rmsnorm_inplace_bf16_gbf16_kernel"),
            ),
            Format16::F16Format => Some(named("rmsnorm_inplace_f16", "rmsnorm_inplace_f16_kernel")),
        },
        Step::VectorAddBf16 { .. } => Some(named("vector_add_bf16", "vector_add_bf16_kernel")),
        Step::Bf16ToF16Sat { .. } => Some(named("bf16_to_f16_sat", "bf16_to_f16_sat_kernel")),
        Step::SharedLimit { kernel, .. } => Some(decode_name(kernel)),
        Step::Launch { call, .. } => Some(launched(call)),
        _ => None,
    }
}

/// The kernel that a step runs, if any.
pub fn kernel_of_step(step: &Step) -> (r: Option<KernelName>)
    ensures
        r == step_kernel(*step),
{
    match step {
        Step::Embed { .. } => Some(named("embedding_gather_bf16", "embedding_gather_bf16_kernel")),
        Step::RmsNorm { format, .. } => match format {
            Format16::Bf16 => Some(
                named("rmsnorm_inplace_bf16_gbf16", "rmsnorm_inplace_bf16_gbf16_kernel"),
            ),
            Format16::F16Format => Some(named("rmsnorm_inplace_f16", "rmsnorm_inplace_f16_kernel")),
        },
        Step::VectorAddBf16 { .. } => Some(named("vector_add_bf16", "vector_add_bf16_kernel")),
        Step::Bf16ToF16Sat { .. } => Some(named("bf16_to_f16_sat", "bf16_to_f16_sat_kernel")),
        Step::SharedLimit { kernel, .. } => Some(kernel_of_decode(*kernel)),
        Step::Launch { call, .. } => Some(kernel_of(call)),
        _ => None,
    }
}

/// Every kernel that a step can run is among those that are loaded, but for
/// the batched product of the MLP.
pub proof fn law_kernels_are_loaded(step: Step)
    requires
        !(step matches Step::Launch { call: KernelCall::W4a16GemmMn { .. }, .. }),
    ensures
        step_kernel(step) matches Some(k) ==> forward_table().contains(k)
            || drafter_table().contains(k),
{
    let f = forward_table();
    let d = drafter_table();
    assert(f.contains(f[0]) && f.contains(f[1]) && f.contains(f[2]) && f.contains(f[3])
        && f.contains(f[4]) && f.contains(f[5]) && f.contains(f[6]) && f.contains(f[7])
        && f.contains(f[8]) && f.contains(f[9]) && f.contains(f[10]) && f.contains(f[11])
        && f.contains(f[12]) && f.contains(f[13]) && f.contains(f[14]) && f.contains(f[15])
        && f.contains(f[16]) && f.contains(f[17]) && f.contains(f[18]) && f.contains(f[19])
        && f.contains(f[20]) && f.contains(f[21]));
    assert(d.contains(d[0]) && d.contains(d[1]) && d.contains(d[2]) && d.contains(d[3])
        && d.contains(d[4]));
}

/// Bytes of the matrix library's workspace.
pub const CUBLASLT_WORKSPACE_BYTES: usize = 67108864;

/// The workspace of the matrix library.
pub fn cublaslt_workspace() -> (r: Program)
    ensures
        r@ == completes(
            seq![
                Step::Region {
                    name: "gemma4_nvfp4_cublaslt_ws",
                    bytes: CUBLASLT_WORKSPACE_BYTES,
                    align: 256,
                },
            ],
        ),
{
    let s: Vec<Step> =
        vec![
        Step::Region {
            name: "gemma4_nvfp4_cublaslt_ws",
            bytes: CUBLASLT_WORKSPACE_BYTES,
            align: 256,
        },
    ];
    Program::complete(s)
}

} // verus!
