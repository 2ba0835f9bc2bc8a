use aiconfigurator_core::base::{str_equal, UNIT_SCALE_BITS};
use aiconfigurator_core::enums::{FmhaQuantMode, GemmQuantMode, KvCacheQuantMode};
use aiconfigurator_core::mla::{
    context_chunk, context_chunks, default_seq_split, prefix_correction, ContextMlaOp,
    GenerationMlaOp, MlaBmmOp, MlaModuleOp, PrefixCorrection,
};
use aiconfigurator_core::wideep_mla::{WideEpContextMlaOp, WideEpGenerationMlaOp};

#[test]
fn prefix_correction_without_prefix_is_one() {
    let c = prefix_correction(4096, 0);
    assert_eq!(c, PrefixCorrection { numerator: 4096 * 4096, denominator: 4096 * 4096 });
}

#[test]
fn prefix_correction_of_empty_sequence_is_zero() {
    assert_eq!(prefix_correction(0, 0), PrefixCorrection { numerator: 0, denominator: 1 });
    assert_eq!(prefix_correction(0, 9), PrefixCorrection { numerator: 0, denominator: 1 });
}

#[test]
fn prefix_correction_exact_fraction() {
    // (10^2 - 6^2) / 10^2 = 64 / 100
    assert_eq!(prefix_correction(10, 6), PrefixCorrection { numerator: 64, denominator: 100 });
    assert_eq!(prefix_correction(10, 10).numerator, 0);
    let big = prefix_correction(u32::MAX, u32::MAX - 1);
    let f = u32::MAX as i128;
    assert_eq!(big.numerator, f * f - (f - 1) * (f - 1));
    assert_eq!(big.denominator as i128, f * f);
}

#[test]
fn single_chunk_without_context_parallelism() {
    for cp in [0u32, 1] {
        let v = context_chunks(4096, 128, cp).expect("in range");
        assert_eq!(v.len(), 1);
        assert_eq!(v[0].full_s, 4224);
        assert_eq!(v[0].prefix, 128);
        assert_eq!(v[0].correction, prefix_correction(4224, 128));
    }
}

#[test]
fn cp_zigzag_takes_first_and_last_chunk() {
    let (isl, prefix, cp) = (4096u32, 0u32, 2u32);
    let c = isl.div_ceil(2 * cp);
    let v = context_chunks(isl, prefix, cp).expect("in range");
    assert_eq!(v.len(), 2);
    assert_eq!(v[0], context_chunk(c, prefix).unwrap());
    assert_eq!(v[1], context_chunk(c, prefix + isl - c).unwrap());
    assert_eq!((v[0].full_s, v[0].prefix), (1024, 0));
    assert_eq!((v[1].full_s, v[1].prefix), (4096, 3072));
}

#[test]
fn cp_chunk_length_rounds_up() {
    let v = context_chunks(10, 5, 2).expect("in range");
    // ceil(10 / 4) = 3
    assert_eq!((v[0].full_s, v[0].prefix), (8, 5));
    assert_eq!((v[1].full_s, v[1].prefix), (15, 12));
}

#[test]
fn cp_with_empty_prefill_plans_empty_chunks() {
    let v = context_chunks(0, 5, 3).expect("in range");
    assert_eq!(v.len(), 2);
    for ch in &v {
        assert_eq!((ch.full_s, ch.prefix), (5, 5));
        assert_eq!(ch.correction.numerator, 0);
    }
    let v = context_chunks(0, 0, 2).expect("in range");
    for ch in &v {
        assert_eq!((ch.full_s, ch.prefix), (0, 0));
        assert_eq!(ch.correction, PrefixCorrection { numerator: 0, denominator: 1 });
    }
}

#[test]
fn out_of_range_plans_are_refused() {
    assert!(context_chunks(u32::MAX, 1, 1).is_none());
    assert!(context_chunks(4, 0, u32::MAX / 2 + 1).is_none());
    assert!(context_chunks(1, u32::MAX, 2).is_none());
    assert!(context_chunks(0, u32::MAX, 2).is_some());
    assert!(context_chunk(u32::MAX, 1).is_none());
    assert!(context_chunk(u32::MAX, 0).is_some());
}

#[test]
fn constructors_start_unscaled_and_unsharded() {
    assert_eq!(default_seq_split(), 1);
    let ctx = ContextMlaOp::new("ctx_op".to_string(), 128, KvCacheQuantMode::Bfloat16, FmhaQuantMode::Bfloat16);
    assert_eq!(ctx.cp_size, 1);
    assert_eq!(ctx.scale_factor_bits, 1.0f64.to_bits());
    assert_eq!(UNIT_SCALE_BITS, 1.0f64.to_bits());
    assert_eq!(ctx.name, "ctx_op");
    let gen = GenerationMlaOp::new("gen".to_string(), 64, KvCacheQuantMode::Fp8);
    assert_eq!((gen.num_heads, gen.kv_cache_dtype), (64, KvCacheQuantMode::Fp8));
    let module = MlaModuleOp::new(
        "ctx_mod".to_string(),
        128,
        KvCacheQuantMode::Bfloat16,
        FmhaQuantMode::Bfloat16,
        GemmQuantMode::Bfloat16,
    );
    assert_eq!(module.gemm_quant_mode, GemmQuantMode::Bfloat16);
    let bmm = MlaBmmOp::new("bmm".to_string(), 16, GemmQuantMode::Bfloat16, true);
    assert!(bmm.is_pre);
    assert_eq!(bmm.scale_factor_bits, 1.0f64.to_bits());
}

#[test]
fn wideep_constructors_default_to_flashinfer() {
    let ctx = WideEpContextMlaOp::new(
        "wideep_ctx_mla".to_string(),
        128,
        KvCacheQuantMode::Fp8,
        FmhaQuantMode::Fp8Block,
    );
    assert_eq!(ctx.attn_backend, "flashinfer");
    assert_eq!(ctx.cp_size, 1);
    let gen = WideEpGenerationMlaOp::new(
        "wideep_gen_mla".to_string(),
        128,
        KvCacheQuantMode::Fp8,
        FmhaQuantMode::Fp8Block,
    );
    assert_eq!(gen.attn_backend, "flashinfer");
    assert_eq!(gen.fmha_quant_mode, FmhaQuantMode::Fp8Block);
}

#[test]
fn string_equality_compares_characters() {
    assert!(str_equal("pre", "pre"));
    assert!(!str_equal("pre", "post"));
    assert!(!str_equal("pre", "pre "));
    assert!(str_equal("", ""));
}
