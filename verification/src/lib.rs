//! Renders a parsed grammar definition (nonterminals, alternatives, and
//! symbol-expression trees) into cross-linked, human-readable documentation
//! pages in an mdbook-style markdown layout.

pub mod cli;
pub mod mdbook;
pub mod parse_tree;
pub mod ref_render;
pub mod reference_builder;
pub mod text;
