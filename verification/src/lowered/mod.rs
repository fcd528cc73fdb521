//! Lowered programs and their mathematical models.
pub mod copy;
pub mod field_order;
pub mod ir;
pub mod tables;
pub mod view;
