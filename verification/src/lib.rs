//! Compiles nested query-node trees into a graph-pattern query description
//! and resolves the steps of such a query against a hierarchical document.

pub mod adapter;
pub mod compile;
pub mod document;
pub mod ir;
pub mod label;
pub mod parse;
pub mod query;
pub mod text_order;
