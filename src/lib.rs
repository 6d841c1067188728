//! Font discovery, indexing and fallback resolution.
//!
//! The library keeps two populations of fonts: a system collection and a
//! collection of fonts registered at run time. Both are queried through the
//! same surface: family, font and source lookups by identifier, family lookup
//! by name, default and generic family lists, and per-script fallback chains.

pub mod attributes;
pub mod context;
pub mod data;
pub mod font;
pub mod id;
pub mod ingest;
pub mod library;
pub mod lowercase;
pub mod scan;
pub mod source;
pub mod static_data;
pub mod system;
pub mod text;

use vstd::prelude::*;

verus! {

} // verus!
