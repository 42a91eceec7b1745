//! Core of a static analyzer that proves numeric and memory-safety
//! properties of low-level imperative programs by abstract interpretation
//! over a control-flow graph of three-address instructions.
//!
//! The host compiler's intermediate representation, types and definition
//! paths are modelled by plain data types of this crate; the analysis
//! itself — the symbolic path and expression algebra, the interval domain,
//! the transfer function, the fixed-point iterator, the checker and the
//! diagnostics store — is verified code.

pub mod analyzer;
pub mod callback;
pub mod checker;
pub mod config;
pub mod diagnostics;
pub mod environment;
pub mod expression;
pub mod fixpoint;
pub mod interval;
pub mod mir;
pub mod monotone;
pub mod path;
pub mod type_visitor;
pub mod types;
pub mod utils;
pub mod visitor;
