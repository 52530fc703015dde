//! Planning of device work.

pub mod audio_preprocess;
pub mod dataflow;
pub mod error;
pub mod footprint;
pub mod gemma4_audio_forward;
pub mod gemma4_drafter;
pub mod gemma4_nvfp4_accepts;
pub mod gemma4_nvfp4_addresses;
pub mod gemma4_nvfp4_bring_up;
pub mod gemma4_nvfp4_load;
pub mod gemma4_nvfp4_ops;
pub mod gemma4_spec_flow;
pub mod gemma4_spec_primitives;
pub mod layer_exec;
pub mod layouts;
pub mod step;
