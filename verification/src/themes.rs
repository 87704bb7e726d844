//! Font themes: built-in themes, mappings from scopes to families, import
//! from editor color themes, export, and accessibility checks.
pub mod accessibility;
pub mod error;
pub mod export;
pub mod import;
pub mod mapping;
pub mod registry;
