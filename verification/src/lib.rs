//! Bindings for C headers, as text.
//!
//! A header that libclang has parsed is held in a `TranslationUnit`; a
//! `BindCtx` walks it and collects the declarations that bind to it.

pub mod args;
pub mod bindings;
pub mod clang;
pub mod conversion;
pub mod coverage;
pub mod ctx;
pub mod decls;
pub mod growth;
pub mod laws;
pub mod operations;
pub mod order;
pub mod origin;
pub mod shapes;
pub mod text;
pub mod types;
pub mod visit;
