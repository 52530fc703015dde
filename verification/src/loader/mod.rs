//! Checkpoint loading: weight layouts and inventories.

pub mod gemma4_arch;
pub mod gemma4_drafter;
pub mod gemma4_nvfp4_weights;
pub mod gemma4_weights;
pub mod qwen35_addresses;
pub mod qwen35_load;
pub mod qwen35_weights;
pub mod qwen36_weights;
pub mod shards;
pub mod weights;
