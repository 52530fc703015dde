//! Projections and the MLP block of the NVFP4 forward path.

use crate::loader::gemma4_nvfp4_weights::Gemma4Nvfp4LinearLoaded;
use crate::loader::weights::F16Weight;
use crate::runtime::error::{cuda_err, RuntimeError};
use crate::runtime::step::{
    blocks_256, blocks_for, completes, refuses, Buf, Dim3, Format16, KernelCall, OnFail, Program,
    ProgramView, Step,
};
use vstd::prelude::*;

verus! {

/// A bf16 projection: `out[m, n] = act[m, k] * weight[n, k]^T`.
pub open spec fn attn_proj_spec(act: Buf, weight: u64, out: Buf, m: i32, n: i32, k: i32) -> Step {
    Step::Gemm { format: Format16::Bf16, act, weight, out, m, n, k }
}

/// A bf16 projection: `out[m, n] = act[m, k] * weight[n, k]^T`.
#[verifier::when_used_as_spec(attn_proj_spec)]
pub fn gemma4_nvfp4_attn_proj(
    act: Buf,
    weight: u64,
    out: Buf,
    m: i32,
    n: i32,
    k: i32,
) -> (r: Step)
    ensures
        r == attn_proj_spec(act, weight, out, m, n, k),
{
    Step::Gemm { format: Format16::Bf16, act, weight, out, m, n, k }
}

/// A bf16 projection by a weight, whose shape gives the widths. A weight that
/// is not a matrix is refused.
pub fn gemma4_nvfp4_attn_proj_from_weight(act: Buf, weight: &F16Weight, out: Buf, m: i32) -> (r:
    Result<Step, RuntimeError>)
    ensures
        r == (if weight.shape@.len() != 2 {
            Err(cuda_err("gemma4_nvfp4_attn_proj_from_weight: weight not 2-D"))
        } else {
            Ok(
                attn_proj_spec(
                    act,
                    weight.offset_bytes,
                    out,
                    m,
                    weight.shape@[0] as i32,
                    weight.shape@[1] as i32,
                ),
            )
        }),
{
    if weight.shape.len() != 2 {
        return Err(cuda_err("gemma4_nvfp4_attn_proj_from_weight: weight not 2-D"));
    }
    let n: i32 = weight.shape[0] as i32;
    let k: i32 = weight.shape[1] as i32;
    Ok(gemma4_nvfp4_attn_proj(act, weight.offset_bytes, out, m, n, k))
}

/// One NVFP4 linear on one row: a block of 256 threads for each output.
pub open spec fn gemv_spec(act: Buf, weight: &Gemma4Nvfp4LinearLoaded, out: Buf) -> Step {
    Step::Launch {
        call: KernelCall::W4a16Gemv {
            out,
            packed: weight.packed_ptr,
            scales: weight.sfb_natural_ptr,
            global_scale: weight.global_scale_ptr,
            act,
            n: weight.shape.n as i32,
            k: weight.shape.k as i32,
        },
        grid: Dim3::line(weight.shape.n as u32),
        block: Dim3::line(256),
        shared: 0,
        on_fail: OnFail::Launcher,
    }
}

/// One NVFP4 linear on one row.
#[verifier::when_used_as_spec(gemv_spec)]
pub fn gemma4_nvfp4_w4a16_gemv(act: Buf, weight: &Gemma4Nvfp4LinearLoaded, out: Buf) -> (r: Step)
    ensures
        r == gemv_spec(act, weight, out),
{
    Step::Launch {
        call: KernelCall::W4a16Gemv {
            out,
            packed: weight.packed_ptr,
            scales: weight.sfb_natural_ptr,
            global_scale: weight.global_scale_ptr,
            act,
            n: weight.shape.n as i32,
            k: weight.shape.k as i32,
        },
        grid: Dim3::line(weight.shape.n as u32),
        block: Dim3::line(256),
        shared: 0,
        on_fail: OnFail::Launcher,
    }
}

/// One NVFP4 linear on `m` rows, eight rows to a block.
pub open spec fn gemm_mn_spec(act: Buf, weight: &Gemma4Nvfp4LinearLoaded, out: Buf, m: u32) -> Step {
    Step::Launch {
        call: KernelCall::W4a16GemmMn {
            out,
            packed: weight.packed_ptr,
            scales: weight.sfb_natural_ptr,
            global_scale: weight.global_scale_ptr,
            act,
            m: m as i32,
            n: weight.shape.n as i32,
            k: weight.shape.k as i32,
        },
        grid: Dim3::plane(weight.shape.n as u32, blocks_for(m as nat, 8) as u32),
        block: Dim3::line(256),
        shared: 0,
        on_fail: OnFail::Launcher,
    }
}

/// One NVFP4 linear on `m` rows; none is refused.
pub fn gemma4_nvfp4_w4a16_gemm_mn(
    act: Buf,
    weight: &Gemma4Nvfp4LinearLoaded,
    out: Buf,
    m: u32,
) -> (r: Result<Step, RuntimeError>)
    requires
        m <= 0xffff_fff8,
    ensures
        r == (if m == 0 {
            Err(cuda_err("gemma4_nvfp4_w4a16_gemm_mn: M must be > 0"))
        } else {
            Ok(gemm_mn_spec(act, weight, out, m))
        }),
{
    if m == 0 {
        return Err(cuda_err("gemma4_nvfp4_w4a16_gemm_mn: M must be > 0"));
    }
    let grid_y: u32 = (m + 7) / 8;
    Ok(
        Step::Launch {
            call: KernelCall::W4a16GemmMn {
                out,
                packed: weight.packed_ptr,
                scales: weight.sfb_natural_ptr,
                global_scale: weight.global_scale_ptr,
                act,
                m: m as i32,
                n: weight.shape.n as i32,
                k: weight.shape.k as i32,
            },
            grid: Dim3::plane(weight.shape.n as u32, grid_y),
            block: Dim3::line(256),
            shared: 0,
            on_fail: OnFail::Launcher,
        },
    )
}

/// Gate and up projection of one row in one launch.
pub open spec fn gate_up_spec(
    act: Buf,
    gate: &Gemma4Nvfp4LinearLoaded,
    up: &Gemma4Nvfp4LinearLoaded,
    out_gate: Buf,
    out_up: Buf,
) -> Step {
    Step::Launch {
        call: KernelCall::W4a16GateUp {
            out_gate,
            out_up,
            gate_packed: gate.packed_ptr,
            gate_scales: gate.sfb_natural_ptr,
            gate_global_scale: gate.global_scale_ptr,
            up_packed: up.packed_ptr,
            up_scales: up.sfb_natural_ptr,
            up_global_scale: up.global_scale_ptr,
            act,
            i_size: gate.shape.n as i32,
            k: gate.shape.k as i32,
        },
        grid: Dim3::line((2 * gate.shape.n) as u32),
        block: Dim3::line(256),
        shared: 0,
        on_fail: OnFail::Launcher,
    }
}

/// Gate and up projection of one row in one launch; projections of different
/// shapes are refused.
pub fn gemma4_nvfp4_gate_up_fused(
    act: Buf,
    gate: &Gemma4Nvfp4LinearLoaded,
    up: &Gemma4Nvfp4LinearLoaded,
    out_gate: Buf,
    out_up: Buf,
) -> (r: Result<Step, RuntimeError>)
    requires
        gate.shape.n <= 0x3fff_ffff,
    ensures
        r == (if gate.shape != up.shape {
            Err(cuda_err("gemma4_nvfp4_gate_up_fused: gate/up shapes differ"))
        } else {
            Ok(gate_up_spec(act, gate, up, out_gate, out_up))
        }),
{
    if gate.shape != up.shape {
        return Err(cuda_err("gemma4_nvfp4_gate_up_fused: gate/up shapes differ"));
    }
    let i_size: i32 = gate.shape.n as i32;
    let total_rows: u32 = (2 * i_size) as u32;
    Ok(
        Step::Launch {
            call: KernelCall::W4a16GateUp {
                out_gate,
                out_up,
                gate_packed: gate.packed_ptr,
                gate_scales: gate.sfb_natural_ptr,
                gate_global_scale: gate.global_scale_ptr,
                up_packed: up.packed_ptr,
                up_scales: up.sfb_natural_ptr,
                up_global_scale: up.global_scale_ptr,
                act,
                i_size,
                k: gate.shape.k as i32,
            },
            grid: Dim3::line(total_rows),
            block: Dim3::line(256),
            shared: 0,
            on_fail: OnFail::Launcher,
        },
    )
}

/// `out[i] = gelu_tanh(gate[i]) * up[i]` for `n` elements.
pub open spec fn gelu_spec(out: Buf, gate: Buf, up: Buf, n: u32) -> Step {
    Step::Launch {
        call: KernelCall::GeluTanhMul { out, gate, up, n: n as i32 },
        grid: Dim3::line(blocks_256(n)),
        block: Dim3::line(256),
        shared: 0,
        on_fail: OnFail::Launcher,
    }
}

/// `out[i] = gelu_tanh(gate[i]) * up[i]` for `n` elements.
#[verifier::when_used_as_spec(gelu_spec)]
pub fn gemma4_nvfp4_gelu_tanh_mul(out: Buf, gate: Buf, up: Buf, n: u32) -> (r: Step)
    requires
        n <= 0xffff_ff00,
    ensures
        r == gelu_spec(out, gate, up, n),
{
    Step::Launch {
        call: KernelCall::GeluTanhMul { out, gate, up, n: n as i32 },
        grid: Dim3::line(blocks_256(n)),
        block: Dim3::line(256),
        shared: 0,
        on_fail: OnFail::Launcher,
    }
}

/// The MLP block on one row. The scratch holds what `gate` gives and behind
/// that what `up` gives; their product overwrites the former.
pub open spec fn mlp_spec(
    act: Buf,
    out: Buf,
    gate: &Gemma4Nvfp4LinearLoaded,
    up: &Gemma4Nvfp4LinearLoaded,
    down: &Gemma4Nvfp4LinearLoaded,
    scratch: Buf,
) -> ProgramView {
    let up_out = scratch.plus((2 * gate.shape.n) as u64);
    if gate.shape != up.shape {
        refuses(cuda_err("gemma4_nvfp4_gate_up_fused: gate/up shapes differ"))
    } else {
        completes(
            seq![
                gate_up_spec(act, gate, up, scratch, up_out),
                gelu_spec(scratch, scratch, up_out, gate.shape.n as u32),
                gemv_spec(scratch, down, out),
            ],
        )
    }
}

/// The MLP block on one row: `out = down(gelu_tanh(gate(act)) * up(act))`.
pub fn gemma4_nvfp4_mlp_forward(
    act: Buf,
    out: Buf,
    gate: &Gemma4Nvfp4LinearLoaded,
    up: &Gemma4Nvfp4LinearLoaded,
    down: &Gemma4Nvfp4LinearLoaded,
    scratch: Buf,
) -> (r: Program)
    requires
        gate.shape.n <= 0x3fff_ffff,
        scratch.reaches(2 * gate.shape.n),
    ensures
        r@ == mlp_spec(act, out, gate, up, down, scratch),
{
    let i_size: usize = gate.shape.n;
    let up_out = scratch.plus((i_size as u64) * 2);
    let first = match gemma4_nvfp4_gate_up_fused(act, gate, up, scratch, up_out) {
        Ok(s) => s,
        Err(e) => {
            return Program::refuse(e);
        },
    };
    let second = gemma4_nvfp4_gelu_tanh_mul(scratch, scratch, up_out, i_size as u32);
    let third = gemma4_nvfp4_w4a16_gemv(scratch, down, out);
    let steps: Vec<Step> = vec![first, second, third];
    assert(steps@ =~= seq![first, second, third]);
    Program::complete(steps)
}

/// The MLP block on `m` rows.
pub open spec fn mlp_batched_spec(
    act: Buf,
    out: Buf,
    gate: &Gemma4Nvfp4LinearLoaded,
    up: &Gemma4Nvfp4LinearLoaded,
    down: &Gemma4Nvfp4LinearLoaded,
    scratch: Buf,
    m: u32,
) -> ProgramView {
    let elems = m * gate.shape.n;
    let up_out = scratch.plus((2 * elems) as u64);
    if gate.shape != up.shape {
        refuses(cuda_err("gemma4_nvfp4_mlp_forward_batched: gate/up shapes differ"))
    } else if m == 0 {
        refuses(cuda_err("gemma4_nvfp4_mlp_forward_batched: M must be > 0"))
    } else {
        completes(
            seq![
                gemm_mn_spec(act, gate, scratch, m),
                gemm_mn_spec(act, up, up_out, m),
                gelu_spec(scratch, scratch, up_out, elems as u32),
                gemm_mn_spec(scratch, down, out, m),
            ],
        )
    }
}

/// The MLP block on `m` rows; none is refused, as are projections of
/// different shapes.
pub fn gemma4_nvfp4_mlp_forward_batched(
    act: Buf,
    out: Buf,
    gate: &Gemma4Nvfp4LinearLoaded,
    up: &Gemma4Nvfp4LinearLoaded,
    down: &Gemma4Nvfp4LinearLoaded,
    scratch: Buf,
    m: u32,
) -> (r: Program)
    requires
        m <= 0xffff_fff8,
        m * gate.shape.n <= 0xffff_ff00,
        2 * (m * gate.shape.n) <= usize::MAX,
        scratch.reaches(2 * (m * gate.shape.n)),
    ensures
        r@ == mlp_batched_spec(act, out, gate, up, down, scratch, m),
{
    if gate.shape != up.shape {
        return Program::refuse(
            cuda_err("gemma4_nvfp4_mlp_forward_batched: gate/up shapes differ"),
        );
    }
    if m == 0 {
        return Program::refuse(cuda_err("gemma4_nvfp4_mlp_forward_batched: M must be > 0"));
    }
    let i_size: usize = gate.shape.n;
    let elem_count: usize = (m as usize) * i_size;
    let up_out = scratch.plus((elem_count * 2) as u64);
    let first = match gemma4_nvfp4_w4a16_gemm_mn(act, gate, scratch, m) {
        Ok(s) => s,
        Err(e) => {
            return Program::refuse(e);
        },
    };
    let second = match gemma4_nvfp4_w4a16_gemm_mn(act, up, up_out, m) {
        Ok(s) => s,
        Err(e) => {
            return Program::refuse(e);
        },
    };
    let third = gemma4_nvfp4_gelu_tanh_mul(scratch, scratch, up_out, elem_count as u32);
    let fourth = match gemma4_nvfp4_w4a16_gemm_mn(scratch, down, out, m) {
        Ok(s) => s,
        Err(e) => {
            return Program::refuse(e);
        },
    };
    let steps: Vec<Step> = vec![first, second, third, fourth];
    assert(steps@ =~= seq![first, second, third, fourth]);
    Program::complete(steps)
}

} // verus!
