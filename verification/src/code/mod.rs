//! Lossless, path-addressed manipulation of source documents.

pub mod cli;
pub mod copy;
pub mod database_laws;
pub mod edit;
pub mod edit_laws;
pub mod form;
pub mod lines;
pub mod model;
pub mod path;
pub mod pipeline_laws;
pub mod query;
pub mod query_laws;
pub mod semantic;
pub mod source;
pub mod text_edit;
pub mod tree;
pub mod view;
pub mod workspace_path;
