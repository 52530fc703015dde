//! The NVFP4 text model of Gemma 4: its cache, and the device programs of its
//! forward path.

pub mod attention;
pub mod bounds;
pub mod bounds_drafter;
pub mod bounds_first;
pub mod bounds_mlp;
pub mod drafter;
pub mod drivers;
pub mod final_token;
pub mod flow_attention;
pub mod flow_drafter;
pub mod flow_first;
pub mod flow_layer;
pub mod flow_passes;
pub mod frames;
pub mod frames_drafter;
pub mod host_passes;
pub mod kernels;
pub mod kv_state;
pub mod launches;
pub mod layer0;
pub mod model;
pub mod one_token;
pub mod passes;
pub mod policy;
pub mod post_attn;
pub mod refusals;
