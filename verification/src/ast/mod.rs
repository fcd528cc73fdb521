//! Typed surface syntax.

pub mod annotate;
pub mod copy;
pub mod evaluate;
pub mod evaluation_laws;
pub mod expansion_laws;
pub mod expansion_state;
pub mod grammar;
pub mod hygiene;
pub mod lower;
pub mod lowering_laws;
pub mod macro_error;
pub mod moving;
pub mod quotation_laws;
pub mod scope;
pub mod scope_laws;
pub mod settled_laws;
pub mod shape_laws;
pub mod substitute;
pub mod surface;
pub mod typed_macro_expand;
pub mod view;
