//! Verified core of the VillageSQL extension SDK: parameter strings of custom
//! types and their canonical form, the per-call runtime of extension
//! functions over plain models of the server's slots, the preview
//! capabilities' checks, and the decisions of the `cargo vsql` tool.
pub mod cache;
pub mod pairs;
pub mod params;
pub mod preview;
pub mod registration;
pub mod runtime;
pub mod text;
pub mod tooling;
pub mod vdfs;

pub use crate::cache::TypeParamsCache;
pub use crate::pairs::canonical_params_string;
pub use crate::params::{canonical_key, write_inferred_params, MaybeParams, Params, Resolved, TypeParams};
pub use crate::runtime::{
    dispatch_accumulate, dispatch_agg_prerun, dispatch_agg_result, dispatch_clear, dispatch_prerun, dispatch_vdf,
    dispatch_vdf_with_state, read_in_values, write_bytes_or_error, write_error_msg, write_result, ArgType, InValue,
    InferredParamsSlot, PrerunArgs, PrerunResult, RawValue, ResultKind, ResultSlot, TypeId, VdfReturn,
};
pub use crate::registration::{build_registration, FuncDescriptor, Type, TypeDescriptor, TypeWithFuncs};
pub use crate::vdfs::{dispatch_from_string_typed, dispatch_intrinsic_default_typed};
