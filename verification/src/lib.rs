//! Rust ecosystem primitives for RustUse: crate identity and naming rules,
//! semantic versions, Cargo manifest and workspace descriptions, and
//! release-readiness reports.

pub mod text;
pub mod naming;
pub mod identity;
pub mod version;
pub mod toml_doc;
pub mod sorting;
pub mod cargo;
pub mod release;
pub mod prelude;
