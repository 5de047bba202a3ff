//! A typed view over the values of a small Scheme engine, and a decoder that
//! walks association lists into declared record shapes.
//!
//! A session owns an object store. Every value is a tagged machine word: an
//! immediate bit pattern, or the address of an object of the store.

pub mod de;
pub mod error;
pub mod heap;
pub mod probes;
pub mod render;
pub mod sexp;
pub mod tags;
pub mod text;
pub mod tree;
pub mod variant;
