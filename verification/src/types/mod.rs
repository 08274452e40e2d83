//! Semantic types used by the type checker.

pub mod types;

pub use types::{
    Type, TypeV, TypeId, resolve_primitive, StructInfo, FieldInfo, EnumInfo, VariantInfo,
    FunctionInfo, ParamInfo, AbilityInfo, TaskInfo,
};
