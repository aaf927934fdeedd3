//! Why a lowering was abandoned.

use crate::clang::{Tag, TypeTag};
use vstd::prelude::*;

verus! {

/// A construct that lowering does not handle.
#[derive(Clone, Debug, PartialEq, Eq)]
pub enum Construct {
    /// A node in expression or statement position with this tag.
    Expression(Tag),
    /// A node in declaration position with this tag.
    Declaration(Tag),
    /// The prefix operator with this spelling.
    UnaryOperator(String),
    /// The infix operator with this spelling.
    BinaryOperator(String),
    /// A type with this tag.
    Type(TypeTag),
}

/// View of [`Construct`].
pub enum ConstructV {
    Expression(Tag),
    Declaration(Tag),
    UnaryOperator(Seq<char>),
    BinaryOperator(Seq<char>),
    Type(TypeTag),
}

impl Construct {
    pub open spec fn view(&self) -> ConstructV {
        match self {
            Construct::Expression(t) => ConstructV::Expression(*t),
            Construct::Declaration(t) => ConstructV::Declaration(*t),
            Construct::UnaryOperator(s) => ConstructV::UnaryOperator(s@),
            Construct::BinaryOperator(s) => ConstructV::BinaryOperator(s@),
            Construct::Type(t) => ConstructV::Type(*t),
        }
    }
}

/// A way in which a syntax tree is broken.
#[derive(Clone, Copy, Debug, PartialEq, Eq)]
pub enum Defect {
    /// An id that names no node.
    DanglingNode,
    /// An id that names no type.
    DanglingType,
    /// A child that the construct needs is absent.
    MissingChild,
    /// The node carries no type where the construct needs one.
    MissingType,
    /// A scalar that the construct needs is absent or of another kind.
    MissingScalar,
    /// A name that is no identifier of C.
    BadIdentifier,
    /// A name is used that no enclosing scope binds.
    Undeclared,
    /// A name is declared twice in one scope.
    Redeclared,
    /// The body of a function is no compound statement.
    BodyNotCompound,
    /// A chain of nodes or types is longer than the store that holds it, so it runs in
    /// a circle.
    Cyclic,
}

/// The two classes of failure. Either one ends the lowering in progress.
#[derive(Clone, Debug, PartialEq, Eq)]
pub enum Failure {
    Unimplemented(Construct),
    Malformed(Defect),
}

/// View of [`Failure`].
pub enum FailureV {
    Unimplemented(ConstructV),
    Malformed(Defect),
}

impl Failure {
    pub open spec fn view(&self) -> FailureV {
        match self {
            Failure::Unimplemented(c) => FailureV::Unimplemented(c@),
            Failure::Malformed(d) => FailureV::Malformed(*d),
        }
    }
}

} // verus!
