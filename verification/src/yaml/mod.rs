//! YAML values: reading, rendering and comparing them.

pub mod copy;
pub mod model;
pub mod read;
pub mod render;
pub mod view;
