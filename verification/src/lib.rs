//! Verified core of the operator layer of the latency estimator: how
//! overlapping kernels compose, how MLA prefill is split under context
//! parallelism, and the integer work counts of the mHC roofline.

pub mod base;
pub mod enums;
pub mod mhc;
pub mod mla;
pub mod overlap;
pub mod wideep_mla;
