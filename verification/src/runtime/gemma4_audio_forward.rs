//! The audio encoder's entry points, which only report that the encoder runs
//! elsewhere.

use crate::runtime::error::RuntimeError;
use vstd::prelude::*;

verus! {

/// Output of the audio encoder.
#[derive(Clone, Copy, Debug)]
pub struct AudioForwardOutput {
    /// Device address of `[num_soft_tokens, output_proj_dims]` half-precision
    /// numbers.
    pub device_ptr: u64,
    pub num_soft_tokens: usize,
    pub output_proj_dims: usize,
}

/// What the audio encoder's report reads of its configuration.
#[derive(Clone, Copy, Debug)]
pub struct Gemma4AudioDeps {
    pub hidden_size: usize,
    pub num_attention_heads: usize,
}

/// Head width of the audio encoder, with at least one head.
pub open spec fn audio_head_dim(d: Gemma4AudioDeps) -> u32 {
    let heads = if d.num_attention_heads >= 1 {
        d.num_attention_heads
    } else {
        1
    };
    (d.hidden_size as u32 / heads as u32) as u32
}

/// Always reports that the encoder is not available here.
pub fn forward_gemma_audio(deps: &Gemma4AudioDeps) -> (r: Result<AudioForwardOutput, RuntimeError>)
    requires
        deps.num_attention_heads <= u32::MAX,
    ensures
        r == Err::<AudioForwardOutput, _>(
            RuntimeError::FeatureNotAvailable {
                op: "forward_gemma_audio (legacy stub — call Gemma4Bringup::forward_gemma_audio_to_host instead)",
                backend: "Gemma4Audio",
                context: "forward_gemma_audio",
                num_seqs: 1,
                head_dim: audio_head_dim(*deps),
            },
        ),
{
    let heads: usize = if deps.num_attention_heads >= 1 {
        deps.num_attention_heads
    } else {
        1
    };
    let head_dim: u32 = deps.hidden_size as u32 / heads as u32;
    Err(
        RuntimeError::FeatureNotAvailable {
            op: "forward_gemma_audio (legacy stub — call Gemma4Bringup::forward_gemma_audio_to_host instead)",
            backend: "Gemma4Audio",
            context: "forward_gemma_audio",
            num_seqs: 1,
            head_dim,
        },
    )
}

/// Always reports that there is no device.
pub fn forward_gemma_audio_mock() -> (r: Result<AudioForwardOutput, RuntimeError>)
    ensures
        r == Err::<AudioForwardOutput, _>(
            RuntimeError::FeatureNotAvailable {
                op: "forward_gemma_audio (non-cuda build)",
                backend: "mock",
                context: "forward_gemma_audio",
                num_seqs: 0,
                head_dim: 0,
            },
        ),
{
    Err(
        RuntimeError::FeatureNotAvailable {
            op: "forward_gemma_audio (non-cuda build)",
            backend: "mock",
            context: "forward_gemma_audio",
            num_seqs: 0,
            head_dim: 0,
        },
    )
}

} // verus!
