//! MLA operators: op-level context and generation, module-level context and
//! generation, and the MLA BMM, with the integer part of their queries: the
//! prefix correction and the context-parallel split of a prefill.

use vstd::prelude::*;

use crate::base::UNIT_SCALE_BITS;
use crate::enums::{FmhaQuantMode, GemmQuantMode, KvCacheQuantMode};

verus! {

/// Context-parallel factor of an op spec that does not name one: no sharding.
pub fn default_seq_split() -> (r: u32)
    ensures
        r == 1,
{
    1
}

/// The prefix correction `(full_s^2 - prefix^2) / full_s^2` as an exact
/// fraction: the share of a full-length attention's work that the new tokens
/// of a chunk cost when `prefix` of its `full_s` tokens are already cached.
#[derive(Clone, Copy, Debug, PartialEq, Eq, Structural)]
pub struct PrefixCorrection {
    pub numerator: i128,
    pub denominator: u64,
}

/// `c` is the correction for `full_s` tokens of which `prefix` are cached:
/// `0` for an empty sequence, `(full_s^2 - prefix^2) / full_s^2` otherwise.
pub open spec fn is_correction(c: PrefixCorrection, full_s: int, prefix: int) -> bool {
    if full_s == 0 {
        c.numerator == 0 && c.denominator == 1
    } else {
        c.numerator == full_s * full_s - prefix * prefix && c.denominator == full_s * full_s
    }
}

pub fn prefix_correction(full_s: u32, prefix: u32) -> (r: PrefixCorrection)
    ensures
        is_correction(r, full_s as int, prefix as int),
{
    if full_s == 0 {
        return PrefixCorrection { numerator: 0, denominator: 1 };
    }
    let f = full_s as u64;
    let p = prefix as u64;
    assert(f * f <= u32::MAX * u32::MAX && p * p <= u32::MAX * u32::MAX) by (nonlinear_arith)
        requires
            f <= u32::MAX,
            p <= u32::MAX,
    ;
    let f2 = f * f;
    let p2 = p * p;
    PrefixCorrection { numerator: f2 as i128 - p2 as i128, denominator: f2 }
}

/// With a cached prefix no longer than the sequence, the correction is a
/// fraction between 0 and 1: it is 1 exactly when nothing is cached, and 0
/// exactly when everything is.
pub proof fn lemma_correction_is_fraction(c: PrefixCorrection, full_s: int, prefix: int)
    requires
        is_correction(c, full_s, prefix),
        0 <= prefix <= full_s,
        0 < full_s,
    ensures
        0 <= c.numerator <= c.denominator,
        c.numerator == c.denominator <==> prefix == 0,
        c.numerator == 0 <==> prefix == full_s,
{
    assert(prefix * prefix <= full_s * full_s) by (nonlinear_arith)
        requires
            0 <= prefix <= full_s,
    ;
    assert(prefix * prefix == 0 <==> prefix == 0) by (nonlinear_arith);
    assert(prefix < full_s ==> prefix * prefix < full_s * full_s) by (nonlinear_arith)
        requires
            0 <= prefix,
    ;
}

/// One context-attention table query: `full_s` tokens of which `prefix` are
/// cached, and the correction that scales the table latency.
#[derive(Clone, Copy, Debug, PartialEq, Eq, Structural)]
pub struct ContextChunk {
    pub full_s: u32,
    pub prefix: u32,
    pub correction: PrefixCorrection,
}

/// `ch` queries a chunk of `s` new tokens after `pfx` cached ones.
pub open spec fn is_chunk(ch: ContextChunk, s: int, pfx: int) -> bool {
    &&& ch.full_s == s + pfx
    &&& ch.prefix == pfx
    &&& is_correction(ch.correction, s + pfx, pfx)
}

/// The query for a chunk of `s` new tokens after `pfx` cached ones, or `None`
/// where `s + pfx` overflows `u32`.
pub fn context_chunk(s: u32, pfx: u32) -> (r: Option<ContextChunk>)
    ensures
        r is Some <==> s + pfx <= u32::MAX,
        r matches Some(ch) ==> is_chunk(ch, s as int, pfx as int),
{
    let full_s = s.checked_add(pfx)?;
    Some(ContextChunk { full_s, prefix: pfx, correction: prefix_correction(full_s, pfx) })
}

/// Length of each of the two zigzag chunks that rank 0 holds when a prefill
/// of `isl` tokens is split over `cp_size` ranks: `ceil(isl / 2cp)`.
pub open spec fn zigzag_chunk_len(isl: int, cp_size: int) -> int {
    let d = 2 * cp_size;
    isl / d + if isl % d == 0 {
        0int
    } else {
        1int
    }
}

/// The sizes involved in planning a prefill stay within `u32`.
pub open spec fn context_chunks_in_range(isl: int, prefix: int, cp_size: int) -> bool {
    if cp_size <= 1 {
        isl + prefix <= u32::MAX
    } else {
        &&& 2 * cp_size <= u32::MAX
        &&& prefix + isl <= u32::MAX
    }
}

/// `v` is the plan of a prefill of `isl` new tokens after `prefix` cached
/// ones over `cp_size` ranks (see `context_chunks`).
pub open spec fn is_context_plan(v: Seq<ContextChunk>, isl: int, prefix: int, cp_size: int) -> bool {
    if cp_size <= 1 {
        v.len() == 1 && is_chunk(v[0], isl, prefix)
    } else {
        let c = zigzag_chunk_len(isl, cp_size);
        &&& v.len() == 2
        &&& is_chunk(v[0], c, prefix)
        &&& is_chunk(v[1], c, prefix + isl - c)
    }
}

/// The context-attention queries of a prefill of `isl` new tokens after
/// `prefix` cached ones. Without context parallelism (`cp_size <= 1`) this is
/// the single full-length query. With it, the prefill is modeled as rank 0's
/// two balanced zigzag chunks of `c = ceil(isl / 2cp)` tokens: the first one,
/// at `prefix`, and the last one, ending where the sequence ends. `None` where
/// the sizes overflow `u32`.
pub fn context_chunks(isl: u32, prefix: u32, cp_size: u32) -> (r: Option<Vec<ContextChunk>>)
    ensures
        r is Some <==> context_chunks_in_range(isl as int, prefix as int, cp_size as int),
        r matches Some(v) ==> is_context_plan(v@, isl as int, prefix as int, cp_size as int),
{
    if cp_size > 1 {
        let d = cp_size.checked_mul(2)?;
        let q = isl / d;
        assert(q * d <= isl && d >= 2) by (nonlinear_arith)
            requires
                d >= 2,
                q == isl / d,
        ;
        assert(q < u32::MAX) by (nonlinear_arith)
            requires
                q * d <= isl,
                d >= 2,
                isl <= u32::MAX,
                q >= 0,
        ;
        assert(isl % d != 0 ==> q * d < isl) by (nonlinear_arith)
            requires
                d >= 2,
                q == isl / d,
        ;
        let c = if isl % d == 0 {
            q
        } else {
            q + 1
        };
        assert(c == zigzag_chunk_len(isl as int, cp_size as int));
        assert(c <= isl) by (nonlinear_arith)
            requires
                q * d <= isl,
                d >= 2,
                q >= 0,
                c == q || (c == q + 1 && q * d < isl),
        ;
        let first = context_chunk(c, prefix)?;
        let total = prefix.checked_add(isl)?;
        let rest = total.checked_sub(c)?;
        let last = context_chunk(c, rest)?;
        let mut v: Vec<ContextChunk> = Vec::new();
        v.push(first);
        v.push(last);
        Some(v)
    } else {
        let only = context_chunk(isl, prefix)?;
        let mut v: Vec<ContextChunk> = Vec::new();
        v.push(only);
        Some(v)
    }
}

/// Every chunk of a plan is corrected by its own full length and its whole
/// cached prefix: `(full_s^2 - prefix^2) / full_s^2`, whatever the relative
/// sizes of the cached and the new tokens, and `0 / 1` for an empty chunk.
/// Its cached prefix never exceeds its full length, and with context
/// parallelism both chunks hold the same number of new tokens, the first
/// after the whole cached prefix and the last ending where the sequence ends.
pub proof fn lemma_plan_chunks_corrected_by_own_prefix(
    v: Seq<ContextChunk>,
    isl: int,
    prefix: int,
    cp_size: int,
)
    requires
        0 <= isl,
        0 <= prefix,
        is_context_plan(v, isl, prefix, cp_size),
    ensures
        forall|i: int|
            0 <= i < v.len() ==> {
                let ch = #[trigger] v[i];
                &&& ch.prefix <= ch.full_s
                &&& ch.full_s > 0 ==> ch.correction.denominator == ch.full_s * ch.full_s
                    && ch.correction.numerator == ch.full_s * ch.full_s - ch.prefix * ch.prefix
                &&& ch.full_s == 0 ==> ch.correction.numerator == 0 && ch.correction.denominator
                    == 1
            },
        v[0].prefix == prefix,
        v[v.len() - 1].full_s == isl + prefix,
        cp_size > 1 ==> v[1].full_s - v[1].prefix == v[0].full_s - v[0].prefix
            == zigzag_chunk_len(isl, cp_size),
{
    if cp_size > 1 {
        lemma_zigzag_chunk_len_is_ceiling(isl, cp_size);
        assert(zigzag_chunk_len(isl, cp_size) >= 0) by (nonlinear_arith)
            requires
                isl >= 0,
                cp_size > 1,
                zigzag_chunk_len(isl, cp_size) == isl / (2 * cp_size) + if isl % (2 * cp_size)
                    == 0 {
                    0int
                } else {
                    1int
                },
        ;
        if isl >= 1 {
            assert(zigzag_chunk_len(isl, cp_size) <= isl);
        } else {
            assert(zigzag_chunk_len(isl, cp_size) == 0);
        }
    }
}

/// With context parallelism, a prefill costs the unsharded query of rank 0's
/// first chunk plus the unsharded query of its last chunk: the plan is the
/// plain plan of the one followed by the plain plan of the other, and the
/// last chunk ends where the sequence ends.
pub proof fn lemma_cp_plan_is_two_plain_plans(
    v: Seq<ContextChunk>,
    isl: int,
    prefix: int,
    cp_size: int,
)
    requires
        cp_size > 1,
        is_context_plan(v, isl, prefix, cp_size),
    ensures
        is_context_plan(v.take(1), zigzag_chunk_len(isl, cp_size), prefix, 1),
        is_context_plan(
            v.skip(1),
            zigzag_chunk_len(isl, cp_size),
            prefix + isl - zigzag_chunk_len(isl, cp_size),
            1,
        ),
        v == v.take(1) + v.skip(1),
        v[1].full_s == isl + prefix,
{
    assert(v.take(1)[0] == v[0]);
    assert(v.skip(1)[0] == v[1]);
    assert(v =~= v.take(1) + v.skip(1));
}

/// Rank 0's chunk length is the ceiling of `isl / 2cp`: `2cp` chunks of that
/// length cover the prefill, and `2cp` chunks of one token less do not. An
/// empty prefill has empty chunks.
pub proof fn lemma_zigzag_chunk_len_is_ceiling(isl: int, cp_size: int)
    requires
        0 <= isl,
        1 <= cp_size,
    ensures
        isl == 0 ==> zigzag_chunk_len(isl, cp_size) == 0,
        1 <= isl ==> chunk_len_bounds(isl, cp_size),
{
    if isl == 0 {
        assert(0int / (2 * cp_size) == 0 && 0int % (2 * cp_size) == 0) by (nonlinear_arith)
            requires
                cp_size >= 1,
        ;
    } else {
        lemma_ceiling_nonempty(isl, cp_size);
    }
}

/// For a non-empty prefill of `isl` tokens over `cp_size` ranks, the chunk
/// length `c` satisfies `2cp(c - 1) < isl <= 2cp * c` and `1 <= c <= isl`,
/// and is shorter than the prefill when it is split.
pub open spec fn chunk_len_bounds(isl: int, cp_size: int) -> bool {
    &&& 2 * cp_size * (zigzag_chunk_len(isl, cp_size) - 1) < isl <= 2 * cp_size
        * zigzag_chunk_len(isl, cp_size)
    &&& 1 <= zigzag_chunk_len(isl, cp_size) <= isl
    &&& cp_size > 1 && isl > 1 ==> zigzag_chunk_len(isl, cp_size) < isl
}

proof fn lemma_ceiling_nonempty(isl: int, cp_size: int)
    requires
        1 <= isl,
        1 <= cp_size,
    ensures
        chunk_len_bounds(isl, cp_size),
{
    let d = 2 * cp_size;
    let q = isl / d;
    let r = isl % d;
    assert(isl == d * q + r && 0 <= r < d) by (nonlinear_arith)
        requires
            d > 0,
            q == isl / d,
            r == isl % d,
    ;
    assert(q >= 0) by (nonlinear_arith)
        requires
            d > 0,
            isl >= 0,
            q == isl / d,
    ;
    let c = zigzag_chunk_len(isl, cp_size);
    if r == 0 {
        assert(q >= 1) by (nonlinear_arith)
            requires
                isl == d * q,
                isl >= 1,
                q >= 0,
        ;
        assert(c == q);
        assert(d * (q - 1) < isl <= d * q) by (nonlinear_arith)
            requires
                isl == d * q,
                d > 0,
        ;
    } else {
        assert(c == q + 1);
        assert(d * q < isl <= d * (q + 1)) by (nonlinear_arith)
            requires
                isl == d * q + r,
                0 < r < d,
        ;
    }
    assert(c <= isl && (cp_size > 1 && isl > 1 ==> c < isl)) by (nonlinear_arith)
        requires
            d == 2 * cp_size,
            cp_size >= 1,
            d * (c - 1) < isl,
            isl <= d * c,
            c >= 1,
            isl >= 1,
    ;
}

/// Op-level context MLA.
#[derive(Clone, Debug)]
pub struct ContextMlaOp {
    pub name: String,
    /// IEEE-754 encoding of the scale factor applied to the latency.
    pub scale_factor_bits: u64,
    pub num_heads: u32,
    pub kv_cache_dtype: KvCacheQuantMode,
    pub fmha_quant_mode: FmhaQuantMode,
    /// Context-parallel factor; above 1 the prefill is split into zigzag
    /// chunks (see `context_chunks`).
    pub cp_size: u32,
}

impl ContextMlaOp {
    pub fn new(
        name: String,
        num_heads: u32,
        kv_cache_dtype: KvCacheQuantMode,
        fmha_quant_mode: FmhaQuantMode,
    ) -> (r: ContextMlaOp)
        ensures
            r.name == name,
            r.scale_factor_bits == UNIT_SCALE_BITS,
            r.num_heads == num_heads,
            r.kv_cache_dtype == kv_cache_dtype,
            r.fmha_quant_mode == fmha_quant_mode,
            r.cp_size == 1,
    {
        ContextMlaOp {
            name,
            scale_factor_bits: UNIT_SCALE_BITS,
            num_heads,
            kv_cache_dtype,
            fmha_quant_mode,
            cp_size: 1,
        }
    }
}

/// Op-level generation MLA.
#[derive(Clone, Debug)]
pub struct GenerationMlaOp {
    pub name: String,
    /// IEEE-754 encoding of the scale factor applied to the latency.
    pub scale_factor_bits: u64,
    pub num_heads: u32,
    pub kv_cache_dtype: KvCacheQuantMode,
}

impl GenerationMlaOp {
    pub fn new(name: String, num_heads: u32, kv_cache_dtype: KvCacheQuantMode) -> (r:
        GenerationMlaOp)
        ensures
            r.name == name,
            r.scale_factor_bits == UNIT_SCALE_BITS,
            r.num_heads == num_heads,
            r.kv_cache_dtype == kv_cache_dtype,
    {
        GenerationMlaOp { name, scale_factor_bits: UNIT_SCALE_BITS, num_heads, kv_cache_dtype }
    }
}

/// Module-level MLA: context and generation share the configuration.
#[derive(Clone, Debug)]
pub struct MlaModuleOp {
    pub name: String,
    /// IEEE-754 encoding of the scale factor applied to the latency.
    pub scale_factor_bits: u64,
    pub num_heads: u32,
    pub kv_cache_dtype: KvCacheQuantMode,
    pub fmha_quant_mode: FmhaQuantMode,
    pub gemm_quant_mode: GemmQuantMode,
}

impl MlaModuleOp {
    pub fn new(
        name: String,
        num_heads: u32,
        kv_cache_dtype: KvCacheQuantMode,
        fmha_quant_mode: FmhaQuantMode,
        gemm_quant_mode: GemmQuantMode,
    ) -> (r: MlaModuleOp)
        ensures
            r.name == name,
            r.scale_factor_bits == UNIT_SCALE_BITS,
            r.num_heads == num_heads,
            r.kv_cache_dtype == kv_cache_dtype,
            r.fmha_quant_mode == fmha_quant_mode,
            r.gemm_quant_mode == gemm_quant_mode,
    {
        MlaModuleOp {
            name,
            scale_factor_bits: UNIT_SCALE_BITS,
            num_heads,
            kv_cache_dtype,
            fmha_quant_mode,
            gemm_quant_mode,
        }
    }
}

/// MLA batched matmul, before (`is_pre`) or after attention.
#[derive(Clone, Debug)]
pub struct MlaBmmOp {
    pub name: String,
    /// IEEE-754 encoding of the scale factor applied to the latency.
    pub scale_factor_bits: u64,
    pub num_heads: u32,
    pub quant_mode: GemmQuantMode,
    pub is_pre: bool,
}

impl MlaBmmOp {
    pub fn new(name: String, num_heads: u32, quant_mode: GemmQuantMode, is_pre: bool) -> (r:
        MlaBmmOp)
        ensures
            r.name == name,
            r.scale_factor_bits == UNIT_SCALE_BITS,
            r.num_heads == num_heads,
            r.quant_mode == quant_mode,
            r.is_pre == is_pre,
    {
        MlaBmmOp { name, scale_factor_bits: UNIT_SCALE_BITS, num_heads, quant_mode, is_pre }
    }
}

} // verus!
