//! JSON-LD processing: data model, context processing and supporting structures.
#![allow(unused_imports)]

use vstd::prelude::*;

pub mod nullable;
pub mod text;
pub mod syntax;
pub mod container;
pub mod loc;
pub mod multiset;
pub mod id;
pub mod generator;
pub mod profile;
pub mod namespace;
pub mod error;
pub mod json;
pub mod context;
pub mod iri;
pub mod loader;
pub mod processing;
pub mod definition;
pub mod process;
pub mod local;
pub mod lang_string;
pub mod value;
pub mod object;
pub mod number;
pub mod compaction;
pub mod entries;

verus! {

} // verus!
