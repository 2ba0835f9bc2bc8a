//! Quantization modes that operators carry as part of their table keys.

use vstd::prelude::*;

verus! {

/// Quantization mode of a GEMM.
#[derive(Clone, Copy, Debug, PartialEq, Eq, Structural)]
pub enum GemmQuantMode {
    Bfloat16,
}

/// Data type of the KV cache.
#[derive(Clone, Copy, Debug, PartialEq, Eq, Structural)]
pub enum KvCacheQuantMode {
    Bfloat16,
    Fp8,
}

/// Quantization mode of fused multi-head attention.
#[derive(Clone, Copy, Debug, PartialEq, Eq, Structural)]
pub enum FmhaQuantMode {
    Bfloat16,
    Fp8Block,
}

} // verus!
