//! The building of wrapper bodies.

pub mod body_laws;
pub mod callback_laws;
pub mod function_body_chunk;
pub mod laws;
pub mod model;
