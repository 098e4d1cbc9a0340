//! A best-effort translator from C source to C3 source.
//!
//! A C source is parsed with tree-sitter's C grammar and copied into a
//! `syntax::SyntaxNode` tree (`parse`). A first pass records the names that
//! the tree declares, each with the C3 name chosen for it (`populate`,
//! `symbols`, `naming`). The tree is then translated node by node
//! (`transpile`), as `translation` specifies; `case_body` and `enum_body` state
//! what holds of the bodies of `case` labels and of enumerations, and
//! `node_forms` what each kind of node becomes, in terms of its parts.

pub mod case_body;
pub mod enum_body;
pub mod naming;
pub mod node_forms;
pub mod parse;
pub mod populate;
pub mod symbols;
pub mod syntax;
pub mod text;
pub mod translation;
pub mod transpile;
