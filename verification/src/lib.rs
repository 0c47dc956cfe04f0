//! Value-range analysis over a graph representation of smart-contract source.
//!
//! Declarations are lowered into a graph of typed nodes; function bodies are
//! walked into a tree of execution contexts that fork at branches; every
//! variable version carries a range that can be evaluated to a closed interval.

pub mod analyzer;
pub mod ast;
pub mod bound;
pub mod builder;
pub mod concrete;
pub mod context;
pub mod lower;
pub mod range;
pub mod report;
pub mod signed;
pub mod store;
pub mod tables;
pub mod types;
pub mod word;

pub use analyzer::{Analyzer, AnalyzerLike, GraphLike};
pub use concrete::Concrete;
pub use types::{ConcreteNode, Edge, Node};
