//! Assembly and lifecycle rules of a small linear media pipeline.

pub mod caps;
pub mod element;
pub mod error;
pub mod example;
pub mod parse;
pub mod pipeline;
pub mod registry;
pub mod runner;
pub mod text;
