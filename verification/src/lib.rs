//! Verified core of the Vibra toolchain.

pub mod annotations;
pub mod ast;
pub mod async_laws;
pub mod async_runtime;
pub mod async_scope_laws;
pub mod body_laws;
pub mod body_semantics;
pub mod code;
pub mod code_doc;
pub mod compilation_pipeline;
pub mod diagnostics;
pub mod docs;
pub mod effect_inference;
pub mod effect_laws;
pub mod effect_semantics;
pub mod emit;
pub mod execute;
pub mod expand_json;
pub mod frontend;
pub mod lowered;
pub mod names;
pub mod syntax;
pub mod text;
pub mod tool_laws;
pub mod yaml;
