use vstd::prelude::*;

pub mod text;
pub mod tally;
pub mod frb_demo;
pub mod l1_memory;
pub mod l2_ownership;
pub mod l3_borrow;
pub mod l4_model;
pub mod l5_report;
pub mod l5x_listlab;
pub mod l6_collect;
pub mod l7_async;
pub mod l8_robust;
pub mod l9_unsafe;
pub mod l10_ffi;
pub mod l11_win32;
pub mod l12_service;
pub mod l13_package;
pub mod l14_arch;
pub mod l15_capstone;
pub mod v2_async;
pub mod v2_capstone;
pub mod v2_concurrency;
pub mod v2_cross_core;
pub mod v2_cross_lang;
pub mod v2_debugging;
pub mod v2_ffi_cpp;
pub mod v2_idiomatic;
pub mod v2_mobile;
pub mod v2_ownership_errors;
pub mod v2_perf_bench;
pub mod v2_win_com;
pub mod v2_safe_abstraction;
pub mod v2_type_modeling;
pub mod v2_win_api;
pub mod v2_win_gui;
pub mod v2_win_packaging;

verus! {
} // verus!
