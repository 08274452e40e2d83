//! Type checker: walks the AST, resolves types, checks consistency and
//! reports type errors.

pub mod env;
pub mod check;
pub mod infer;

pub use check::{check, TypeChecker};
