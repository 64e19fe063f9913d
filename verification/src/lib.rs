//! A compiler and interpreter for a small declarative templating language
//! that describes spreadsheet layouts.
//!
//! Source text is parsed into a syntax tree of layout elements, and a
//! tree-walking virtual machine executes that tree — evaluating arithmetic
//! expressions, binding loop variables in nested scopes, and expanding
//! for-loops — to produce a linear stream of fully resolved elements for a
//! downstream renderer.

pub mod ast;
pub mod diag;
pub mod floats;
pub mod lexer;
pub mod parser;
pub mod scope;
pub mod strmap;
pub mod text;
pub mod values;
pub mod vm;
