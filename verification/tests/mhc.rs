use aiconfigurator_core::base::UNIT_SCALE_BITS;
use aiconfigurator_core::enums::GemmQuantMode;
use aiconfigurator_core::mhc::{
    default_quant_mode, default_sinkhorn_iters, MhcHalf, MhcModuleOp, MhcSolCounts,
};

fn mhc_op(op: &str) -> MhcModuleOp {
    MhcModuleOp {
        name: "mhc_module".into(),
        scale_factor_bits: UNIT_SCALE_BITS,
        op: op.into(),
        hc_mult: 4,
        hidden_size: 7168,
        architecture: "DeepseekV4ForCausalLM".into(),
        sinkhorn_iters: 20,
        quant_mode: GemmQuantMode::Bfloat16,
    }
}

#[test]
fn defaults_are_twenty_iterations_and_bfloat16() {
    assert_eq!(default_sinkhorn_iters(), 20);
    assert_eq!(default_quant_mode(), GemmQuantMode::Bfloat16);
    let op = MhcModuleOp::new("mhc".into(), "pre".into(), 4, 7168, "arch".into());
    assert_eq!(op.sinkhorn_iters, 20);
    assert_eq!(op.quant_mode, GemmQuantMode::Bfloat16);
    assert_eq!(op.scale_factor_bits, 1.0f64.to_bits());
    assert_eq!(op.op, "pre");
}

#[test]
fn op_names_map_to_halves() {
    assert_eq!(MhcHalf::from_op_name("pre"), MhcHalf::Pre);
    assert_eq!(MhcHalf::from_op_name("post"), MhcHalf::Post);
    assert_eq!(MhcHalf::from_op_name("both"), MhcHalf::Both);
    assert_eq!(MhcHalf::from_op_name("Pre"), MhcHalf::Other);
    assert_eq!(MhcHalf::from_op_name(""), MhcHalf::Other);
}

#[test]
fn pre_counts_beyond_table_range() {
    let c = mhc_op("pre").sol_counts(MhcHalf::Pre, 1_048_576).expect("in range");
    assert_eq!(
        c,
        MhcSolCounts {
            ops: 3_187_872_366_592,
            param_elems: 1_376_310,
            activation_elems: 60_129_542_144,
            activation_factor: 2,
            fp32_activation_elems: Some(50_331_648),
        }
    );
}

#[test]
fn post_and_both_counts() {
    let op = mhc_op("both");
    let post = op.sol_counts(MhcHalf::Post, 1_048_576).unwrap();
    assert_eq!(post.ops, 601_295_421_440);
    assert_eq!(post.activation_factor, 2);
    assert_eq!(post.fp32_activation_elems, None);
    let both = op.sol_counts(MhcHalf::Both, 1_048_576).unwrap();
    assert_eq!(both.ops, 3_789_167_788_032);
    assert_eq!(both.activation_factor, 3);
    assert_eq!(both.fp32_activation_elems, Some(50_331_648));
    let other = op.sol_counts(MhcHalf::Other, 1_048_576).unwrap();
    assert_eq!(other.ops, both.ops);
    assert_eq!(other.activation_factor, 2);
    assert_eq!(other.fp32_activation_elems, None);
}

#[test]
fn both_ops_are_sum_of_halves() {
    let op = mhc_op("both");
    for nt in [0i64, 1, 3, 8, 1 << 20, -5] {
        let pre = op.sol_counts(MhcHalf::Pre, nt).unwrap().ops;
        let post = op.sol_counts(MhcHalf::Post, nt).unwrap().ops;
        let both = op.sol_counts(MhcHalf::Both, nt).unwrap().ops;
        assert_eq!(both, pre + post);
    }
}

#[test]
fn work_is_linear_in_tokens() {
    let op = mhc_op("pre");
    let one = op.sol_counts(MhcHalf::Pre, 1).unwrap();
    assert_eq!(one.ops, 3_040_192);
    let many = op.sol_counts(MhcHalf::Pre, 1000).unwrap();
    assert_eq!(many.ops, 1000 * one.ops);
    assert_eq!(many.activation_elems, 1000 * one.activation_elems);
    assert_eq!(many.param_elems, one.param_elems);
}

#[test]
fn overflowing_shapes_are_reported() {
    let mut op = mhc_op("pre");
    op.hc_mult = u32::MAX;
    op.hidden_size = u32::MAX;
    assert_eq!(op.sol_counts(MhcHalf::Post, 0), None);
    let mut op = mhc_op("pre");
    assert!(op.sol_counts(MhcHalf::Pre, i64::MAX).is_some());
    op.hc_mult = 1 << 20;
    assert!(op.sol_counts(MhcHalf::Pre, i64::MAX).is_none());
    assert!(op.sol_counts(MhcHalf::Pre, 1 << 20).is_some());
}

#[test]
fn work_grows_with_tokens() {
    let op = mhc_op("pre");
    for half in [MhcHalf::Pre, MhcHalf::Post, MhcHalf::Both, MhcHalf::Other] {
        let mut prev = op.sol_counts(half, 0).unwrap();
        for nt in [1i64, 2, 7, 100, 1 << 20] {
            let next = op.sol_counts(half, nt).unwrap();
            assert!(prev.ops <= next.ops);
            assert!(prev.activation_elems <= next.activation_elems);
            prev = next;
        }
    }
}

#[test]
fn both_dominates_each_half() {
    let op = mhc_op("both");
    let both = op.sol_counts(MhcHalf::Both, 4096).unwrap();
    for half in [MhcHalf::Pre, MhcHalf::Post] {
        let part = op.sol_counts(half, 4096).unwrap();
        assert!(both.ops >= part.ops);
        assert!(both.activation_factor >= part.activation_factor);
        assert_eq!(both.param_elems, part.param_elems);
    }
}
