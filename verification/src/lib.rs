//! Lowering of a C translation unit, given as its typed syntax tree, to a tree of the
//! target language.
//!
//! [`translator`] holds the lowering itself and [`lowering`] what it yields, as
//! mathematical functions; [`renamer`] gives names, [`convert_type`] converts types,
//! [`with_stmts`] carries the statements that must run before a value is used, and
//! [`soundness`], [`binders`] and [`laws`] state what holds of every result.

pub mod binders;
pub mod clang;
pub mod convert_type;
pub mod failure;
pub mod laws;
pub mod lowering;
pub mod mentions;
pub mod names;
pub mod operators;
pub mod renamer;
pub mod soundness;
pub mod target;
pub mod translator;
pub mod with_stmts;
