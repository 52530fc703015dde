//! Weights that lie in device memory.

use crate::tensor::DType;
use vstd::prelude::*;

verus! {

/// A 16-bit weight on the device.
#[derive(Debug)]
pub struct F16Weight {
    /// Device address of the first element.
    pub offset_bytes: u64,
    pub shape: Vec<usize>,
}

/// An FP8 weight on the device, with whichever scales it has.
#[derive(Debug)]
pub struct Fp8Weight {
    pub offset_bytes: u64,
    pub scale_ptr: u64,
    pub shape: Vec<usize>,
    /// Bit pattern of the 32-bit per-tensor scale.
    pub scale_bits: u32,
    /// Bit pattern of the 32-bit share of clamped elements, in parts per
    /// million.
    pub clamp_ppm_bits: u32,
    pub dtype: DType,
    pub channelscale_ptr: Option<u64>,
    pub blockscale_ptr: Option<u64>,
    pub blockscale_n_blocks: u32,
    pub blockscale_k_blocks: u32,
}

/// The INT4 projections of one layer, by the address of their pointer table.
#[derive(Clone, Copy, Debug)]
pub struct AwqLayerWeights {
    pub table: u64,
}

/// Output and input width of a 4-bit linear layer.
#[derive(Clone, Copy, Debug, PartialEq, Eq, Structural)]
pub struct Nvfp4LinearShape {
    pub n: usize,
    pub k: usize,
}

impl Nvfp4LinearShape {
    /// Bytes of packed weight in a row: two elements to a byte.
    pub fn packed_cols(&self) -> (r: usize)
        ensures
            r == self.k / 2,
    {
        self.k / 2
    }

    /// Microscales in a row: one to sixteen elements.
    pub fn scale_cols(&self) -> (r: usize)
        ensures
            r == self.k / 16,
    {
        self.k / 16
    }
}

/// The bit pattern of `1.0` in 32 bits.
pub const ONE_F32_BITS: u32 = 0x3f80_0000;

} // verus!
