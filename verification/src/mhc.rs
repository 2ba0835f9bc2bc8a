//! mHC (multi-head channel) module operator: its configuration and the
//! integer work counts behind its analytic roofline.

use vstd::prelude::*;

use crate::base::{str_equal, UNIT_SCALE_BITS};
use crate::enums::GemmQuantMode;

verus! {

/// An mHC module operator. The module is collected as a single fused kernel
/// whose table latency is scaled by the scale factor.
#[derive(Clone, Debug)]
pub struct MhcModuleOp {
    pub name: String,
    /// IEEE-754 encoding of the scale factor applied to the table latency.
    pub scale_factor_bits: u64,
    /// Which half of the mHC layer this op models: `pre`, `post`, or `both`.
    pub op: String,
    pub hc_mult: u32,
    pub hidden_size: u32,
    /// Carried for provenance only; the table is keyed by compute shape.
    pub architecture: String,
    /// Sinkhorn iteration count; enters the pre half's operation count.
    pub sinkhorn_iters: u32,
    /// GEMM quantization mode; enters the roofline's flops and byte terms.
    pub quant_mode: GemmQuantMode,
}

/// Sinkhorn iteration count of a module spec that does not name one.
pub fn default_sinkhorn_iters() -> (r: u32)
    ensures
        r == 20,
{
    20
}

/// Quantization mode of a module spec that does not name one.
pub fn default_quant_mode() -> (r: GemmQuantMode)
    ensures
        r == GemmQuantMode::Bfloat16,
{
    GemmQuantMode::Bfloat16
}

impl MhcModuleOp {
    pub fn new(
        name: String,
        op: String,
        hc_mult: u32,
        hidden_size: u32,
        architecture: String,
    ) -> (r: MhcModuleOp)
        ensures
            r.name == name,
            r.scale_factor_bits == UNIT_SCALE_BITS,
            r.op == op,
            r.hc_mult == hc_mult,
            r.hidden_size == hidden_size,
            r.architecture == architecture,
            r.sinkhorn_iters == 20,
            r.quant_mode == GemmQuantMode::Bfloat16,
    {
        MhcModuleOp {
            name,
            scale_factor_bits: UNIT_SCALE_BITS,
            op,
            hc_mult,
            hidden_size,
            architecture,
            sinkhorn_iters: default_sinkhorn_iters(),
            quant_mode: default_quant_mode(),
        }
    }
}

/// The op name the roofline is asked about.
#[derive(Clone, Copy, Debug, PartialEq, Eq, Structural)]
pub enum MhcHalf {
    /// `"pre"`.
    Pre,
    /// `"post"`.
    Post,
    /// `"both"`.
    Both,
    /// Any other name: its operation count is that of both halves, its
    /// activation traffic that of a single half, with no fp32 terms.
    Other,
}

pub open spec fn half_of_op_name(name: Seq<char>) -> MhcHalf {
    if name == "pre"@ {
        MhcHalf::Pre
    } else if name == "post"@ {
        MhcHalf::Post
    } else if name == "both"@ {
        MhcHalf::Both
    } else {
        MhcHalf::Other
    }
}

impl MhcHalf {
    pub fn from_op_name(name: &str) -> (r: MhcHalf)
        ensures
            r == half_of_op_name(name@),
    {
        if str_equal(name, "pre") {
            MhcHalf::Pre
        } else if str_equal(name, "post") {
            MhcHalf::Post
        } else if str_equal(name, "both") {
            MhcHalf::Both
        } else {
            MhcHalf::Other
        }
    }
}

/// The integer terms of the mHC roofline for `nt` tokens. The roofline is
/// `max(ops / flops, bytes / bandwidth)` with
/// `bytes = param_elems * mem + activation_elems * mem * activation_factor
///  + fp32_activation_elems * 4`, where `mem` is the bytes per element of the
/// quantization mode.
#[derive(Clone, Copy, Debug, PartialEq, Eq, Structural)]
pub struct MhcSolCounts {
    /// Arithmetic operations.
    pub ops: i128,
    /// Parameter elements read.
    pub param_elems: i128,
    /// Activation elements moved per pass.
    pub activation_elems: i128,
    /// Number of activation passes: 3 for `both`, 2 otherwise.
    pub activation_factor: i128,
    /// fp32 activation elements, present for `pre` and `both`.
    pub fp32_activation_elems: Option<i128>,
}

/// Operation count of the pre half: mixing, scaling, Sinkhorn and the
/// weighted sum, at both sites.
pub open spec fn mhc_pre_ops(nt: int, hc: int, h: int, sinkhorn: int) -> int {
    let hc_dim = hc * h;
    let mix_hc = (2 + hc) * hc;
    2 * (2 * nt * hc_dim * mix_hc + nt * hc_dim * 3 + nt * (hc * hc + 2 * hc) * sinkhorn + 2 * nt
        * hc * h)
}

/// Operation count of the post half, at both sites.
pub open spec fn mhc_post_ops(nt: int, hc: int, h: int) -> int {
    2 * (2 * nt * hc * hc * h + 2 * nt * hc * h)
}

pub open spec fn mhc_ops(half: MhcHalf, nt: int, hc: int, h: int, sinkhorn: int) -> int {
    match half {
        MhcHalf::Pre => mhc_pre_ops(nt, hc, h, sinkhorn),
        MhcHalf::Post => mhc_post_ops(nt, hc, h),
        _ => mhc_pre_ops(nt, hc, h, sinkhorn) + mhc_post_ops(nt, hc, h),
    }
}

pub open spec fn mhc_param_elems(hc: int, h: int) -> int {
    let mix_hc = (2 + hc) * hc;
    2 * (mix_hc * (hc * h) + mix_hc + 3)
}

pub open spec fn mhc_activation_elems(nt: int, hc: int, h: int) -> int {
    2 * nt * (hc * h)
}

pub open spec fn mhc_fp32_activation_elems(nt: int, hc: int) -> int {
    2 * nt * (2 * hc + hc * hc)
}

pub open spec fn in_i128(x: int) -> bool {
    i128::MIN <= x <= i128::MAX
}

/// Every intermediate product and sum of the roofline's integer terms fits
/// in `i128`.
pub open spec fn mhc_counts_in_range(nt: int, hc: int, h: int, sinkhorn: int, half: MhcHalf) -> bool {
    let hc_dim = hc * h;
    let mix_hc = (2 + hc) * hc;
    let a = 2 * nt * hc_dim * mix_hc;
    let b = nt * hc_dim * 3;
    let c = nt * (hc * hc + 2 * hc) * sinkhorn;
    let d = 2 * nt * hc * h;
    let e = 2 * nt * hc * hc * h;
    &&& in_i128(2 * nt * hc_dim)
    &&& in_i128(a)
    &&& in_i128(b)
    &&& in_i128(c)
    &&& in_i128(d)
    &&& in_i128(a + b)
    &&& in_i128(a + b + c)
    &&& in_i128(a + b + c + d)
    &&& in_i128(mhc_pre_ops(nt, hc, h, sinkhorn))
    &&& in_i128(2 * nt * hc * hc)
    &&& in_i128(e)
    &&& in_i128(e + d)
    &&& in_i128(mhc_post_ops(nt, hc, h))
    &&& in_i128(mhc_ops(half, nt, hc, h, sinkhorn))
    &&& in_i128(mix_hc * hc_dim)
    &&& in_i128(mix_hc * hc_dim + mix_hc)
    &&& in_i128(mix_hc * hc_dim + mix_hc + 3)
    &&& in_i128(mhc_param_elems(hc, h))
    &&& (half == MhcHalf::Pre || half == MhcHalf::Both) ==> in_i128(
        mhc_fp32_activation_elems(nt, hc),
    )
}

pub open spec fn mhc_sol_counts(nt: int, hc: int, h: int, sinkhorn: int, half: MhcHalf) -> MhcSolCounts {
    MhcSolCounts {
        ops: mhc_ops(half, nt, hc, h, sinkhorn) as i128,
        param_elems: mhc_param_elems(hc, h) as i128,
        activation_elems: mhc_activation_elems(nt, hc, h) as i128,
        activation_factor: if half == MhcHalf::Both {
            3
        } else {
            2
        },
        fp32_activation_elems: if half == MhcHalf::Pre || half == MhcHalf::Both {
            Some(mhc_fp32_activation_elems(nt, hc) as i128)
        } else {
            None
        },
    }
}

/// Each Sinkhorn iteration costs the pre half `2 * nt * (hc^2 + 2hc)`
/// operations (two sites, `hc^2 + 2hc` per token): for the same shape and
/// token count, the operation count with `k` iterations is the count with
/// none plus `k` times that, in the pre half and in every op name that counts
/// it, while the post half does not depend on the iterations at all.
pub proof fn lemma_sinkhorn_iterations_add_pre_work(
    half: MhcHalf,
    nt: int,
    hc: int,
    h: int,
    k: int,
)
    ensures
        half != MhcHalf::Post ==> mhc_ops(half, nt, hc, h, k) == mhc_ops(half, nt, hc, h, 0) + k * (2
            * nt * (hc * hc + 2 * hc)),
        half != MhcHalf::Post ==> mhc_ops(half, nt, hc, h, k + 1) - mhc_ops(half, nt, hc, h, k) == 2
            * nt * (hc * hc + 2 * hc),
        mhc_ops(MhcHalf::Post, nt, hc, h, k) == mhc_ops(MhcHalf::Post, nt, hc, h, 0),
{
    let q = hc * hc + 2 * hc;
    assert(nt * q * k == k * (nt * q) && nt * q * 0 == 0 && nt * q * (k + 1) == nt * q * k + nt
        * q) by (nonlinear_arith);
    assert(2 * (nt * q) == 2 * nt * q) by (nonlinear_arith);
    assert(k * (2 * nt * q) == 2 * (k * (nt * q))) by (nonlinear_arith);
}

/// The `both` operation count is the sum of the two halves' counts.
pub proof fn lemma_both_ops_is_sum_of_halves(nt: int, hc: int, h: int, sinkhorn: int)
    ensures
        mhc_ops(MhcHalf::Both, nt, hc, h, sinkhorn) == mhc_ops(MhcHalf::Pre, nt, hc, h, sinkhorn)
            + mhc_ops(MhcHalf::Post, nt, hc, h, sinkhorn),
{
}

/// The roofline's token-dependent terms grow linearly with the token count:
/// the work of `nt` tokens is `nt` times the work of one token, while the
/// parameter traffic does not depend on tokens at all.
pub proof fn lemma_work_linear_in_tokens(half: MhcHalf, nt: int, hc: int, h: int, sinkhorn: int)
    ensures
        mhc_ops(half, nt, hc, h, sinkhorn) == nt * mhc_ops(half, 1, hc, h, sinkhorn),
        mhc_activation_elems(nt, hc, h) == nt * mhc_activation_elems(1, hc, h),
        mhc_fp32_activation_elems(nt, hc) == nt * mhc_fp32_activation_elems(1, hc),
{
    let hc_dim = hc * h;
    let mix_hc = (2 + hc) * hc;
    let q = hc * hc + 2 * hc;
    let x1 = 2 * hc_dim * mix_hc;
    let x2 = hc_dim * 3;
    let x3 = q * sinkhorn;
    let x4 = 2 * hc * h;
    assert(2 * nt * hc_dim * mix_hc == nt * x1) by (nonlinear_arith)
        requires
            x1 == 2 * hc_dim * mix_hc,
    ;
    assert(nt * hc_dim * 3 == nt * x2) by (nonlinear_arith)
        requires
            x2 == hc_dim * 3,
    ;
    assert(nt * q * sinkhorn == nt * x3) by (nonlinear_arith)
        requires
            x3 == q * sinkhorn,
    ;
    assert(2 * nt * hc * h == nt * x4) by (nonlinear_arith)
        requires
            x4 == 2 * hc * h,
    ;
    assert(2 * (nt * x1 + nt * x2 + nt * x3 + nt * x4) == nt * (2 * (x1 + x2 + x3 + x4))) by (nonlinear_arith);
    assert(mhc_pre_ops(1, hc, h, sinkhorn) == 2 * (x1 + x2 + x3 + x4));
    assert(mhc_pre_ops(nt, hc, h, sinkhorn) == nt * mhc_pre_ops(1, hc, h, sinkhorn));
    assert(mhc_post_ops(nt, hc, h) == nt * mhc_post_ops(1, hc, h)) by (nonlinear_arith)
        requires
            mhc_post_ops(nt, hc, h) == 2 * (2 * nt * hc * hc * h + 2 * nt * hc * h),
            mhc_post_ops(1, hc, h) == 2 * (2 * 1 * hc * hc * h + 2 * 1 * hc * h),
    ;
    assert(mhc_activation_elems(nt, hc, h) == nt * mhc_activation_elems(1, hc, h)) by (nonlinear_arith);
    assert(mhc_fp32_activation_elems(nt, hc) == nt * mhc_fp32_activation_elems(1, hc)) by (nonlinear_arith);
    assert(nt * mhc_pre_ops(1, hc, h, sinkhorn) + nt * mhc_post_ops(1, hc, h) == nt * (mhc_pre_ops(1, hc, h, sinkhorn) + mhc_post_ops(1, hc, h))) by (nonlinear_arith);
}

proof fn lemma_counts_nonnegative(nt: int, hc: int, h: int, sinkhorn: int)
    requires
        0 <= nt,
        0 <= hc,
        0 <= h,
        0 <= sinkhorn,
    ensures
        0 <= mhc_pre_ops(nt, hc, h, sinkhorn),
        0 <= mhc_post_ops(nt, hc, h),
        0 <= mhc_activation_elems(nt, hc, h),
        0 <= mhc_fp32_activation_elems(nt, hc),
{
    let hc_dim = hc * h;
    let mix_hc = (2 + hc) * hc;
    assert(0 <= hc_dim && 0 <= mix_hc && 0 <= hc * hc) by (nonlinear_arith)
        requires
            0 <= hc,
            0 <= h,
            hc_dim == hc * h,
            mix_hc == (2 + hc) * hc,
    ;
    assert(0 <= 2 * nt * hc_dim * mix_hc && 0 <= nt * hc_dim * 3) by (nonlinear_arith)
        requires
            0 <= nt,
            0 <= hc_dim,
            0 <= mix_hc,
    ;
    assert(0 <= nt * (hc * hc + 2 * hc) * sinkhorn) by (nonlinear_arith)
        requires
            0 <= nt,
            0 <= hc,
            0 <= sinkhorn,
    ;
    assert(0 <= 2 * nt * hc * h && 0 <= 2 * nt * hc * hc * h) by (nonlinear_arith)
        requires
            0 <= nt,
            0 <= hc,
            0 <= h,
    ;
    assert(0 <= 2 * nt * (hc * h)) by (nonlinear_arith)
        requires
            0 <= nt,
            0 <= hc * h,
    ;
    assert(0 <= 2 * nt * (2 * hc + hc * hc)) by (nonlinear_arith)
        requires
            0 <= nt,
            0 <= hc,
    ;
}

/// For a shape of non-negative sizes, the roofline's token-dependent terms
/// never shrink as the token count grows.
pub proof fn lemma_work_monotone_in_tokens(
    half: MhcHalf,
    nt1: int,
    nt2: int,
    hc: int,
    h: int,
    sinkhorn: int,
)
    requires
        0 <= nt1 <= nt2,
        0 <= hc,
        0 <= h,
        0 <= sinkhorn,
    ensures
        mhc_ops(half, nt1, hc, h, sinkhorn) <= mhc_ops(half, nt2, hc, h, sinkhorn),
        mhc_activation_elems(nt1, hc, h) <= mhc_activation_elems(nt2, hc, h),
        mhc_fp32_activation_elems(nt1, hc) <= mhc_fp32_activation_elems(nt2, hc),
{
    lemma_work_linear_in_tokens(half, nt1, hc, h, sinkhorn);
    lemma_work_linear_in_tokens(half, nt2, hc, h, sinkhorn);
    lemma_counts_nonnegative(1, hc, h, sinkhorn);
    let o = mhc_ops(half, 1, hc, h, sinkhorn);
    let a = mhc_activation_elems(1, hc, h);
    let f = mhc_fp32_activation_elems(1, hc);
    assert(0 <= o && 0 <= a && 0 <= f);
    assert(nt1 * o <= nt2 * o && nt1 * a <= nt2 * a && nt1 * f <= nt2 * f) by (nonlinear_arith)
        requires
            0 <= nt1 <= nt2,
            0 <= o,
            0 <= a,
            0 <= f,
    ;
}

/// For a non-negative token count and shape, the `both` roofline does at
/// least the work of either half: no fewer operations, at least as many
/// activation passes, and the pre half's fp32 traffic.
pub proof fn lemma_both_dominates_halves(half: MhcHalf, nt: int, hc: int, h: int, sinkhorn: int)
    requires
        0 <= nt,
        0 <= hc,
        0 <= h,
        0 <= sinkhorn,
    ensures
        mhc_ops(MhcHalf::Both, nt, hc, h, sinkhorn) >= mhc_ops(half, nt, hc, h, sinkhorn),
        mhc_sol_counts(nt, hc, h, sinkhorn, MhcHalf::Both).activation_factor >= mhc_sol_counts(
            nt,
            hc,
            h,
            sinkhorn,
            half,
        ).activation_factor,
        mhc_sol_counts(nt, hc, h, sinkhorn, MhcHalf::Both).param_elems == mhc_sol_counts(
            nt,
            hc,
            h,
            sinkhorn,
            half,
        ).param_elems,
        mhc_sol_counts(nt, hc, h, sinkhorn, MhcHalf::Both).fp32_activation_elems == mhc_sol_counts(
            nt,
            hc,
            h,
            sinkhorn,
            MhcHalf::Pre,
        ).fp32_activation_elems,
{
    lemma_counts_nonnegative(nt, hc, h, sinkhorn);
}

proof fn lemma_shape_bounds(hc: int, h: int)
    requires
        0 <= hc <= u32::MAX,
        0 <= h <= u32::MAX,
    ensures
        0 <= hc * h <= u64::MAX,
        0 <= hc * hc <= u64::MAX,
        0 <= (2 + hc) * hc <= u64::MAX,
        0 <= hc * hc + 2 * hc <= u64::MAX,
{
    assert(0 <= hc * h <= u32::MAX * u32::MAX) by (nonlinear_arith)
        requires
            0 <= hc <= u32::MAX,
            0 <= h <= u32::MAX,
    ;
    assert(0 <= hc * hc <= u32::MAX * u32::MAX) by (nonlinear_arith)
        requires
            0 <= hc <= u32::MAX,
    ;
    assert((2 + hc) * hc == hc * hc + 2 * hc) by (nonlinear_arith);
    assert(hc * hc + 2 * hc <= u32::MAX * u32::MAX + 2 * u32::MAX) by (nonlinear_arith)
        requires
            0 <= hc <= u32::MAX,
    ;
}

proof fn lemma_token_products(nt: int, x: int, y: int)
    requires
        i64::MIN <= nt <= i64::MAX,
        0 <= x <= u64::MAX,
        0 <= y <= u32::MAX,
    ensures
        in_i128(nt * x),
        in_i128(2 * nt * y),
{
    assert(i64::MIN * u64::MAX <= nt * x <= i64::MAX * u64::MAX) by (nonlinear_arith)
        requires
            i64::MIN <= nt <= i64::MAX,
            0 <= x <= u64::MAX,
    ;
    assert(2 * i64::MIN * u32::MAX <= 2 * nt * y <= 2 * i64::MAX * u32::MAX) by (nonlinear_arith)
        requires
            i64::MIN <= nt <= i64::MAX,
            0 <= y <= u32::MAX,
    ;
}

impl MhcModuleOp {
    /// The integer terms of the roofline of one op half for `nt` tokens, or
    /// `None` where an intermediate value leaves the `i128` range (where the
    /// computation would overflow).
    pub fn sol_counts(&self, half: MhcHalf, nt: i64) -> (r: Option<MhcSolCounts>)
        ensures
            r is Some <==> mhc_counts_in_range(
                nt as int,
                self.hc_mult as int,
                self.hidden_size as int,
                self.sinkhorn_iters as int,
                half,
            ),
            r matches Some(c) ==> c == mhc_sol_counts(
                nt as int,
                self.hc_mult as int,
                self.hidden_size as int,
                self.sinkhorn_iters as int,
                half,
            ),
    {
        let nt = nt as i128;
        let hc = self.hc_mult as i128;
        let h = self.hidden_size as i128;
        let sinkhorn = self.sinkhorn_iters as i128;
        proof {
            lemma_shape_bounds(hc as int, h as int);
        }
        let hc_dim = hc * h;
        let mix_hc = (2 + hc) * hc;
        let two_nt = 2 * nt;
        proof {
            lemma_token_products(nt as int, hc_dim as int, hc as int);
            lemma_token_products(nt as int, hc * hc + 2 * hc, hc as int);
        }

        let a = two_nt.checked_mul(hc_dim)?.checked_mul(mix_hc)?;
        let b = nt.checked_mul(hc_dim)?.checked_mul(3)?;
        let c = nt.checked_mul(hc * hc + 2 * hc)?.checked_mul(sinkhorn)?;
        let d = two_nt.checked_mul(hc)?.checked_mul(h)?;
        let pre_sum = a.checked_add(b)?.checked_add(c)?.checked_add(d)?;
        let pre_ops = (2i128).checked_mul(pre_sum)?;

        let e = two_nt.checked_mul(hc)?.checked_mul(hc)?.checked_mul(h)?;
        let post_ops = (2i128).checked_mul(e.checked_add(d)?)?;

        let ops = match half {
            MhcHalf::Pre => pre_ops,
            MhcHalf::Post => post_ops,
            _ => pre_ops.checked_add(post_ops)?,
        };

        let param_elems = (2i128).checked_mul(
            mix_hc.checked_mul(hc_dim)?.checked_add(mix_hc)?.checked_add(3)?,
        )?;
        let activation_elems = two_nt.checked_mul(hc_dim)?;
        let activation_factor: i128 = if half == MhcHalf::Both {
            3
        } else {
            2
        };
        let fp32_activation_elems = if half == MhcHalf::Pre || half == MhcHalf::Both {
            Some(two_nt.checked_mul(2 * hc + hc * hc)?)
        } else {
            None
        };
        Some(
            MhcSolCounts {
                ops,
                param_elems,
                activation_elems,
                activation_factor,
                fp32_activation_elems,
            },
        )
    }
}

} // verus!
