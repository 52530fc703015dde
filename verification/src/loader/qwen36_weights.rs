//! The vision tower that the Qwen models share.

use crate::loader::weights::F16Weight;
use vstd::prelude::*;

verus! {

#[derive(Debug)]
pub struct Qwen36VisionPatchEmbed {
    pub proj_weight: F16Weight,
    pub proj_bias: F16Weight,
}

#[derive(Debug)]
pub struct Qwen36VisionBlock {
    pub norm1_w: F16Weight,
    pub norm1_b: F16Weight,
    pub qkv_w: F16Weight,
    pub qkv_b: F16Weight,
    pub proj_w: F16Weight,
    pub proj_b: F16Weight,
    pub norm2_w: F16Weight,
    pub norm2_b: F16Weight,
    pub fc1_w: F16Weight,
    pub fc1_b: F16Weight,
    pub fc2_w: F16Weight,
    pub fc2_b: F16Weight,
}

#[derive(Debug)]
pub struct Qwen36PatchMerger {
    pub norm_w: F16Weight,
    pub norm_b: F16Weight,
    pub fc1_w: F16Weight,
    pub fc1_b: F16Weight,
    pub fc2_w: F16Weight,
    pub fc2_b: F16Weight,
}

#[derive(Debug)]
pub struct Qwen36Vision {
    pub patch_embed: Qwen36VisionPatchEmbed,
    pub pos_embed: F16Weight,
    pub blocks: Vec<Qwen36VisionBlock>,
    pub merger: Qwen36PatchMerger,
}

} // verus!
