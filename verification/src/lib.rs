//! The part of a binding generator for GObject libraries that builds the body
//! of a wrapper function: a tree of chunks, from which the Rust text of the
//! wrapper is written.
//!
//! A [`codegen::function_body_chunk::Builder`] collects what is known of the
//! wrapped C function. Its `generate` turns that into a [`chunk::Chunk`]. What
//! the generator has to look up about types and namespaces is held, already
//! resolved, in an [`env::Env`].

pub mod analysis;
pub mod chunk;
pub mod codegen;
pub mod env;
pub mod library;
pub mod text;
pub mod view_laws;
