//! Execution of lowered programs.
pub mod authority;
pub mod bindings;
pub mod budget;
pub mod control_laws;
pub mod environment;
pub mod eval;
pub mod failure;
pub mod files;
pub mod host;
pub mod host_calls;
pub mod host_laws;
pub mod host_view;
pub mod library_laws;
pub mod lists;
pub mod operator_laws;
pub mod ops_bytes;
pub mod ops_collections;
pub mod ops_environment;
pub mod ops_files;
pub mod ops_network;
pub mod ops_process;
pub mod ops_streams;
pub mod ops_system;
pub mod ops_text;
pub mod path_text;
pub mod paths;
pub mod places;
pub mod policy;
pub mod policy_laws;
pub mod pattern;
pub mod primitive;
pub mod random;
pub mod records;
pub mod replay;
pub mod semantics;
pub mod session;
pub mod strings;
pub mod tasks;
pub mod value_laws;
pub mod values;
