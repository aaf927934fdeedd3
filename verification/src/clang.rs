//! The C syntax tree that lowering reads: nodes and types in stores keyed by id.

use crate::failure::{Defect, Failure, FailureV};
use std::collections::HashMap;
use vstd::prelude::*;

verus! {

/// The construct that a node stands for.
#[derive(Clone, Copy, Debug, PartialEq, Eq)]
pub enum Tag {
    FunctionDecl,
    ParmVarDecl,
    VarDecl,
    FieldDecl,
    RecordDecl,
    TypedefDecl,
    EnumDecl,
    CompoundStmt,
    ReturnStmt,
    IfStmt,
    WhileStmt,
    ForStmt,
    NullStmt,
    DeclStmt,
    IntegerLiteral,
    CharacterLiteral,
    FloatingLiteral,
    StringLiteral,
    DeclRefExpr,
    ImplicitCastExpr,
    UnaryOperator,
    BinaryOperator,
    CallExpr,
    MemberExpr,
    /// Any construct that has no tag of its own here, with the number under which the
    /// tree's maker knows it.
    Other(u64),
}

/// The form of a C type.
#[derive(Clone, Copy, Debug, PartialEq, Eq)]
pub enum TypeTag {
    Void,
    Bool,
    Char,
    SChar,
    UChar,
    Short,
    UShort,
    Int,
    UInt,
    Long,
    ULong,
    LongLong,
    ULongLong,
    Float,
    Double,
    LongDouble,
    Pointer,
    Record,
    Typedef,
    Function,
    Enum,
    Array,
    /// Any form that has no tag of its own here, with the number under which the
    /// tree's maker knows it.
    Other(u64),
}

/// A scalar that a node or a type carries besides its children.
#[derive(Debug, PartialEq, Eq)]
pub enum Scalar {
    Text(String),
    Unsigned(u64),
    /// A floating value, held as its decimal rendering.
    Real(String),
    List(Vec<Scalar>),
    /// A scalar of a kind that lowering never reads.
    Other,
}

/// A node of the syntax tree.
#[derive(Debug, PartialEq, Eq)]
pub struct AstNode {
    pub tag: Tag,
    /// The ids of the children in order; a child may be absent.
    pub children: Vec<Option<u64>>,
    pub type_id: Option<u64>,
    pub extras: Vec<Scalar>,
}

/// A C type.
#[derive(Debug, PartialEq, Eq)]
pub struct TypeNode {
    pub tag: TypeTag,
    pub extras: Vec<Scalar>,
}

/// The stores of one translation unit and its top-level declarations in order.
#[derive(Debug)]
pub struct AstContext {
    pub top_nodes: Vec<u64>,
    pub ast_nodes: HashMap<u64, AstNode>,
    pub type_nodes: HashMap<u64, TypeNode>,
}

impl Scalar {
    /// The text that this scalar holds, if it is one.
    pub open spec fn text(self) -> Option<Seq<char>> {
        match self {
            Scalar::Text(t) => Some(t@),
            _ => None,
        }
    }

    /// The number that this scalar holds, if it is one.
    pub open spec fn unsigned(self) -> Option<u64> {
        match self {
            Scalar::Unsigned(n) => Some(n),
            _ => None,
        }
    }

    /// The decimal rendering that this scalar holds, if it is a floating value.
    pub open spec fn float_text(self) -> Option<Seq<char>> {
        match self {
            Scalar::Real(t) => Some(t@),
            _ => None,
        }
    }

    /// The scalars that this scalar holds, if it is a list.
    pub open spec fn list(self) -> Option<Seq<Scalar>> {
        match self {
            Scalar::List(l) => Some(l@),
            _ => None,
        }
    }
}

/// The text of a scalar.
pub fn expect_string(scalar: &Scalar) -> (r: Option<&String>)
    ensures
        match r {
            Some(t) => scalar.text() == Some(t@),
            None => scalar.text().is_none(),
        },
{
    match scalar {
        Scalar::Text(t) => Some(t),
        _ => None,
    }
}

/// The number of a scalar.
pub fn expect_u64(scalar: &Scalar) -> (r: Option<u64>)
    ensures
        r == scalar.unsigned(),
{
    match scalar {
        Scalar::Unsigned(n) => Some(*n),
        _ => None,
    }
}

/// The decimal rendering of a floating scalar.
pub fn expect_float(scalar: &Scalar) -> (r: Option<&String>)
    ensures
        match r {
            Some(t) => scalar.float_text() == Some(t@),
            None => scalar.float_text().is_none(),
        },
{
    match scalar {
        Scalar::Real(t) => Some(t),
        _ => None,
    }
}

/// The elements of a list scalar.
pub fn expect_array(scalar: &Scalar) -> (r: Option<&Vec<Scalar>>)
    ensures
        match r {
            Some(l) => scalar.list() == Some(l@),
            None => scalar.list().is_none(),
        },
{
    match scalar {
        Scalar::List(l) => Some(l),
        _ => None,
    }
}

/// The text at position `i` of `extras`.
pub open spec fn text_at(extras: Seq<Scalar>, i: int) -> Option<Seq<char>> {
    if 0 <= i < extras.len() {
        extras[i].text()
    } else {
        None
    }
}

/// The number at position `i` of `extras`.
pub open spec fn unsigned_at(extras: Seq<Scalar>, i: int) -> Option<u64> {
    if 0 <= i < extras.len() {
        extras[i].unsigned()
    } else {
        None
    }
}

/// The decimal rendering at position `i` of `extras`.
pub open spec fn float_text_at(extras: Seq<Scalar>, i: int) -> Option<Seq<char>> {
    if 0 <= i < extras.len() {
        extras[i].float_text()
    } else {
        None
    }
}

/// The list at position `i` of `extras`.
pub open spec fn list_at(extras: Seq<Scalar>, i: int) -> Option<Seq<Scalar>> {
    if 0 <= i < extras.len() {
        extras[i].list()
    } else {
        None
    }
}

/// The text at position `i`, or the failure for a scalar that is not there.
pub fn text_of(extras: &Vec<Scalar>, i: usize) -> (r: Result<&String, Failure>)
    ensures
        match r {
            Ok(t) => text_at(extras@, i as int) == Some(t@),
            Err(f) => text_at(extras@, i as int).is_none() && f@ == FailureV::Malformed(
                Defect::MissingScalar,
            ),
        },
{
    if i < extras.len() {
        match expect_string(&extras[i]) {
            Some(t) => Ok(t),
            None => Err(Failure::Malformed(Defect::MissingScalar)),
        }
    } else {
        Err(Failure::Malformed(Defect::MissingScalar))
    }
}

/// The number at position `i`, or the failure for a scalar that is not there.
pub fn unsigned_of(extras: &Vec<Scalar>, i: usize) -> (r: Result<u64, Failure>)
    ensures
        match r {
            Ok(n) => unsigned_at(extras@, i as int) == Some(n),
            Err(f) => unsigned_at(extras@, i as int).is_none() && f@ == FailureV::Malformed(
                Defect::MissingScalar,
            ),
        },
{
    if i < extras.len() {
        match expect_u64(&extras[i]) {
            Some(n) => Ok(n),
            None => Err(Failure::Malformed(Defect::MissingScalar)),
        }
    } else {
        Err(Failure::Malformed(Defect::MissingScalar))
    }
}

/// The decimal rendering at position `i`, or the failure for a scalar that is not there.
pub fn float_of(extras: &Vec<Scalar>, i: usize) -> (r: Result<&String, Failure>)
    ensures
        match r {
            Ok(t) => float_text_at(extras@, i as int) == Some(t@),
            Err(f) => float_text_at(extras@, i as int).is_none() && f@ == FailureV::Malformed(
                Defect::MissingScalar,
            ),
        },
{
    if i < extras.len() {
        match expect_float(&extras[i]) {
            Some(t) => Ok(t),
            None => Err(Failure::Malformed(Defect::MissingScalar)),
        }
    } else {
        Err(Failure::Malformed(Defect::MissingScalar))
    }
}

/// The list at position `i`, or the failure for a scalar that is not there.
pub fn list_of(extras: &Vec<Scalar>, i: usize) -> (r: Result<&Vec<Scalar>, Failure>)
    ensures
        match r {
            Ok(l) => list_at(extras@, i as int) == Some(l@),
            Err(f) => list_at(extras@, i as int).is_none() && f@ == FailureV::Malformed(
                Defect::MissingScalar,
            ),
        },
{
    if i < extras.len() {
        match expect_array(&extras[i]) {
            Some(l) => Ok(l),
            None => Err(Failure::Malformed(Defect::MissingScalar)),
        }
    } else {
        Err(Failure::Malformed(Defect::MissingScalar))
    }
}

impl Tag {
    /// Whether nodes with this tag declare a name.
    pub open spec fn declares(self) -> bool {
        self is FunctionDecl || self is ParmVarDecl || self is VarDecl || self is FieldDecl
            || self is RecordDecl || self is TypedefDecl || self is EnumDecl
    }

    /// Whether nodes with this tag declare a name.
    pub fn is_decl(self) -> (r: bool)
        ensures
            r == self.declares(),
    {
        match self {
            Tag::FunctionDecl
            | Tag::ParmVarDecl
            | Tag::VarDecl
            | Tag::FieldDecl
            | Tag::RecordDecl
            | Tag::TypedefDecl
            | Tag::EnumDecl => true,
            _ => false,
        }
    }
}

impl AstNode {
    /// The id of child `i`, if the node has such a position and a child stands there.
    pub open spec fn child_at(self, i: int) -> Option<u64> {
        if 0 <= i < self.children@.len() {
            self.children@[i]
        } else {
            None
        }
    }

    /// Whether the node has a position `i` among its children, filled or not.
    pub open spec fn has_slot(self, i: int) -> bool {
        0 <= i < self.children@.len()
    }

    /// The name that the node declares: the first scalar of a declaration, if it is a
    /// text.
    pub open spec fn decl_name(self) -> Option<Seq<char>> {
        if self.tag.declares() {
            text_at(self.extras@, 0)
        } else {
            None
        }
    }

    /// The id of child `i`, which the construct needs.
    pub fn child(&self, i: usize) -> (r: Result<u64, Failure>)
        ensures
            match r {
                Ok(id) => self.child_at(i as int) == Some(id),
                Err(f) => self.child_at(i as int).is_none() && f@ == FailureV::Malformed(
                    Defect::MissingChild,
                ),
            },
    {
        if i < self.children.len() {
            match self.children[i] {
                Some(id) => Ok(id),
                None => Err(Failure::Malformed(Defect::MissingChild)),
            }
        } else {
            Err(Failure::Malformed(Defect::MissingChild))
        }
    }

    /// The id of child `i`, which may be absent; the position itself must exist.
    pub fn optional_child(&self, i: usize) -> (r: Result<Option<u64>, Failure>)
        ensures
            match r {
                Ok(id) => self.has_slot(i as int) && self.child_at(i as int) == id,
                Err(f) => !self.has_slot(i as int) && f@ == FailureV::Malformed(
                    Defect::MissingChild,
                ),
            },
    {
        if i < self.children.len() {
            Ok(self.children[i])
        } else {
            Err(Failure::Malformed(Defect::MissingChild))
        }
    }

    /// The name that the node declares.
    pub fn get_decl_name(&self) -> (r: Option<&String>)
        ensures
            match r {
                Some(name) => self.decl_name() == Some(name@),
                None => self.decl_name().is_none(),
            },
    {
        if self.tag.is_decl() && self.extras.len() > 0 {
            expect_string(&self.extras[0])
        } else {
            None
        }
    }
}

impl TypeTag {
    /// Whether this is one of C's unsigned integer types. Plain `char` is not counted:
    /// its signedness is the platform's choice. Nor is `_Bool`, which the target holds
    /// as a truth value.
    pub open spec fn unsigned_integral(self) -> bool {
        self is UChar || self is UShort || self is UInt || self is ULong || self is ULongLong
    }
}

impl TypeNode {
    pub open spec fn pointer(self) -> bool {
        self.tag is Pointer
    }

    pub open spec fn unsigned_integral(self) -> bool {
        self.tag.unsigned_integral()
    }

    /// Whether the type is a pointer.
    pub fn is_pointer(&self) -> (r: bool)
        ensures
            r == self.pointer(),
    {
        match self.tag {
            TypeTag::Pointer => true,
            _ => false,
        }
    }

    /// Whether the type is an unsigned integer type.
    pub fn is_unsigned_integral_type(&self) -> (r: bool)
        ensures
            r == self.unsigned_integral(),
    {
        match self.tag {
            TypeTag::UChar
            | TypeTag::UShort
            | TypeTag::UInt
            | TypeTag::ULong
            | TypeTag::ULongLong => true,
            _ => false,
        }
    }
}

impl AstContext {
    /// The node store as a map.
    pub open spec fn nodes(self) -> Map<u64, AstNode> {
        self.ast_nodes@
    }

    /// The type store as a map.
    pub open spec fn types(self) -> Map<u64, TypeNode> {
        self.type_nodes@
    }

    /// The node with this id, or the failure for an id that names none.
    pub open spec fn node_at(self, id: u64) -> Result<AstNode, FailureV> {
        if self.nodes().contains_key(id) {
            Ok(self.nodes()[id])
        } else {
            Err(FailureV::Malformed(Defect::DanglingNode))
        }
    }

    /// The type with this id, or the failure for an id that names none.
    pub open spec fn type_at(self, id: u64) -> Result<TypeNode, FailureV> {
        if self.types().contains_key(id) {
            Ok(self.types()[id])
        } else {
            Err(FailureV::Malformed(Defect::DanglingType))
        }
    }

    /// The type of a node, or the failure for a node without one or with a dangling
    /// one.
    pub open spec fn type_of(self, node: AstNode) -> Result<TypeNode, FailureV> {
        match node.type_id {
            None => Err(FailureV::Malformed(Defect::MissingType)),
            Some(id) => self.type_at(id),
        }
    }

    /// The type that a typedef type stands for: its first scalar names the declaration,
    /// whose type it is.
    pub open spec fn typedef_target(self, ty: TypeNode) -> Result<TypeNode, FailureV> {
        match unsigned_at(ty.extras@, 0) {
            None => Err(FailureV::Malformed(Defect::MissingScalar)),
            Some(decl) => match self.node_at(decl) {
                Err(f) => Err(f),
                Ok(node) => self.type_of(node),
            },
        }
    }

    /// `ty` with at most `steps` typedefs followed.
    pub open spec fn resolve_within(self, ty: TypeNode, steps: nat) -> Result<TypeNode, FailureV>
        decreases steps,
    {
        if !(ty.tag is Typedef) {
            Ok(ty)
        } else if steps == 0 {
            Err(FailureV::Malformed(Defect::Cyclic))
        } else {
            match self.typedef_target(ty) {
                Err(f) => Err(f),
                Ok(next) => self.resolve_within(next, (steps - 1) as nat),
            }
        }
    }

    /// `ty` with its typedefs followed to a type that is none. A chain with more links
    /// than the store has types runs in a circle and is a failure.
    pub open spec fn resolved(self, ty: TypeNode) -> Result<TypeNode, FailureV> {
        self.resolve_within(ty, self.types().len())
    }

    /// An empty context.
    pub fn new() -> (ctx: AstContext)
        ensures
            ctx.top_nodes@ == Seq::<u64>::empty(),
            ctx.nodes() == Map::<u64, AstNode>::empty(),
            ctx.types() == Map::<u64, TypeNode>::empty(),
    {
        AstContext { top_nodes: Vec::new(), ast_nodes: HashMap::new(), type_nodes: HashMap::new() }
    }

    /// Puts `node` into the store under `id`, in place of what stood there.
    pub fn add_node(&mut self, id: u64, node: AstNode)
        ensures
            final(self).nodes() == old(self).nodes().insert(id, node),
            final(self).types() == old(self).types(),
            final(self).top_nodes == old(self).top_nodes,
    {
        broadcast use vstd::std_specs::hash::group_hash_axioms;

        self.ast_nodes.insert(id, node);
    }

    /// Puts `ty` into the store of types under `id`, in place of what stood there.
    pub fn add_type(&mut self, id: u64, ty: TypeNode)
        ensures
            final(self).types() == old(self).types().insert(id, ty),
            final(self).nodes() == old(self).nodes(),
            final(self).top_nodes == old(self).top_nodes,
    {
        broadcast use vstd::std_specs::hash::group_hash_axioms;

        self.type_nodes.insert(id, ty);
    }

    /// Names `id` as the next top-level declaration.
    pub fn add_top(&mut self, id: u64)
        ensures
            final(self).top_nodes@ == old(self).top_nodes@.push(id),
            final(self).nodes() == old(self).nodes(),
            final(self).types() == old(self).types(),
    {
        self.top_nodes.push(id);
    }

    /// The node with this id.
    pub fn get_node(&self, id: u64) -> (r: Result<&AstNode, Failure>)
        ensures
            match r {
                Ok(node) => self.node_at(id) == Ok::<AstNode, FailureV>(*node),
                Err(f) => self.node_at(id) == Err::<AstNode, FailureV>(f@),
            },
    {
        broadcast use vstd::std_specs::hash::group_hash_axioms;

        match self.ast_nodes.get(&id) {
            Some(node) => Ok(node),
            None => Err(Failure::Malformed(Defect::DanglingNode)),
        }
    }

    /// The type with this id.
    pub fn get_type(&self, id: u64) -> (r: Result<&TypeNode, Failure>)
        ensures
            match r {
                Ok(ty) => self.type_at(id) == Ok::<TypeNode, FailureV>(*ty),
                Err(f) => self.type_at(id) == Err::<TypeNode, FailureV>(f@),
            },
    {
        broadcast use vstd::std_specs::hash::group_hash_axioms;

        match self.type_nodes.get(&id) {
            Some(ty) => Ok(ty),
            None => Err(Failure::Malformed(Defect::DanglingType)),
        }
    }

    /// The type of a node.
    pub fn node_type(&self, node: &AstNode) -> (r: Result<&TypeNode, Failure>)
        ensures
            match r {
                Ok(ty) => self.type_of(*node) == Ok::<TypeNode, FailureV>(*ty),
                Err(f) => self.type_of(*node) == Err::<TypeNode, FailureV>(f@),
            },
    {
        match node.type_id {
            None => Err(Failure::Malformed(Defect::MissingType)),
            Some(id) => self.get_type(id),
        }
    }

    /// `ty` with its typedefs followed: see [`AstContext::resolved`].
    pub fn resolve_type<'a>(&'a self, ty: &'a TypeNode) -> (r: Result<&'a TypeNode, Failure>)
        ensures
            match r {
                Ok(t) => self.resolved(*ty) == Ok::<TypeNode, FailureV>(*t),
                Err(f) => self.resolved(*ty) == Err::<TypeNode, FailureV>(f@),
            },
    {
        let mut current: &TypeNode = ty;
        let mut steps: usize = self.type_nodes.len();
        loop
            invariant
                self.resolved(*ty) == self.resolve_within(*current, steps as nat),
            decreases steps,
        {
            match current.tag {
                TypeTag::Typedef => {},
                _ => {
                    return Ok(current);
                },
            }
            if steps == 0 {
                return Err(Failure::Malformed(Defect::Cyclic));
            }
            let decl = match unsigned_of(&current.extras, 0) {
                Ok(d) => d,
                Err(f) => {
                    return Err(f);
                },
            };
            let node = match self.get_node(decl) {
                Ok(n) => n,
                Err(f) => {
                    return Err(f);
                },
            };
            let next = match self.node_type(node) {
                Ok(t) => t,
                Err(f) => {
                    return Err(f);
                },
            };
            current = next;
            steps = steps - 1;
        }
    }
}

} // verus!
