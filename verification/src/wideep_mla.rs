//! WideEP MLA operators (context and generation). Their context queries are
//! planned like the op-level context MLA (see `mla::context_chunks`).

use vstd::prelude::*;
use vstd::string::*;

use crate::base::UNIT_SCALE_BITS;
use crate::enums::{FmhaQuantMode, KvCacheQuantMode};

verus! {

/// WideEP context MLA.
#[derive(Clone, Debug)]
pub struct WideEpContextMlaOp {
    pub name: String,
    /// IEEE-754 encoding of the scale factor applied to the latency.
    pub scale_factor_bits: u64,
    pub num_heads: u32,
    pub kv_cache_dtype: KvCacheQuantMode,
    pub fmha_quant_mode: FmhaQuantMode,
    /// Attention backend, the table's kernel source: `flashinfer` by default.
    pub attn_backend: String,
    /// Context-parallel factor; above 1 the prefill is split into zigzag
    /// chunks (see `mla::context_chunks`).
    pub cp_size: u32,
}

impl WideEpContextMlaOp {
    pub fn new(
        name: String,
        num_heads: u32,
        kv_cache_dtype: KvCacheQuantMode,
        fmha_quant_mode: FmhaQuantMode,
    ) -> (r: WideEpContextMlaOp)
        ensures
            r.name == name,
            r.scale_factor_bits == UNIT_SCALE_BITS,
            r.num_heads == num_heads,
            r.kv_cache_dtype == kv_cache_dtype,
            r.fmha_quant_mode == fmha_quant_mode,
            r.attn_backend@ == "flashinfer"@,
            r.cp_size == 1,
    {
        WideEpContextMlaOp {
            name,
            scale_factor_bits: UNIT_SCALE_BITS,
            num_heads,
            kv_cache_dtype,
            fmha_quant_mode,
            attn_backend: String::from_str("flashinfer"),
            cp_size: 1,
        }
    }
}

/// WideEP generation MLA.
#[derive(Clone, Debug)]
pub struct WideEpGenerationMlaOp {
    pub name: String,
    /// IEEE-754 encoding of the scale factor applied to the latency.
    pub scale_factor_bits: u64,
    pub num_heads: u32,
    pub kv_cache_dtype: KvCacheQuantMode,
    /// Carried for the shape of the configuration; the generation table is
    /// not keyed by it.
    pub fmha_quant_mode: FmhaQuantMode,
    /// Attention backend, the table's kernel source: `flashinfer` by default.
    pub attn_backend: String,
}

impl WideEpGenerationMlaOp {
    pub fn new(
        name: String,
        num_heads: u32,
        kv_cache_dtype: KvCacheQuantMode,
        fmha_quant_mode: FmhaQuantMode,
    ) -> (r: WideEpGenerationMlaOp)
        ensures
            r.name == name,
            r.scale_factor_bits == UNIT_SCALE_BITS,
            r.num_heads == num_heads,
            r.kv_cache_dtype == kv_cache_dtype,
            r.fmha_quant_mode == fmha_quant_mode,
            r.attn_backend@ == "flashinfer"@,
    {
        WideEpGenerationMlaOp {
            name,
            scale_factor_bits: UNIT_SCALE_BITS,
            num_heads,
            kv_cache_dtype,
            fmha_quant_mode,
            attn_backend: String::from_str("flashinfer"),
        }
    }
}

} // verus!
