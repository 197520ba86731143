//! Assembles a markup document at serving time by resolving embedded
//! fetch-and-splice directives: a namespace-aware tag parser turns a token
//! stream into events, and a recursive engine substitutes fetched fragment
//! content in place, preserving document order and supporting fallback
//! sources and error-tolerance policies.

pub mod config;
pub mod engine;
pub mod fetch;
pub mod laws;
pub mod lex;
pub mod parse;
pub mod sink;
pub mod token;

pub use crate::config::Configuration;
pub use crate::engine::Processor;
pub use crate::token::ExecutionError;
