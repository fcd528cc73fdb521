//! The typed frontend: compile-time data, templates and module graphs.

pub mod aliases;
pub mod compile_time;
pub mod compile_value;
pub mod copy;
pub mod frontend_laws;
pub mod json_data;
pub mod model;
pub mod modules;
pub mod template;
pub mod toml_data;
pub mod view;
