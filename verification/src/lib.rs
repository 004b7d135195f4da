use vstd::prelude::*;

pub mod text;
pub mod report;
pub mod markdown;
pub mod selection;
pub mod mir;
pub mod guard;
pub mod storage_ops;
pub mod self_destruct;
pub mod env_calls;
pub mod reentrancy;
pub mod transfer_from;
pub mod hir;
pub mod unsafe_expect;
pub mod reentry_flag;
pub mod delegate_call;
pub mod arithmetic;
pub mod lazy_values;
pub mod span_probes;
pub mod set_storage;
pub mod early_lints;
pub mod lazy_mut_get;
pub mod storage_types;
pub mod lazy_delegate;
pub mod workflow;
pub mod listing;
pub mod output;
pub mod manifest;
pub mod loops;
pub mod templates;

verus! {

} // verus!
