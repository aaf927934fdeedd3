//! What lowering yields, as mathematical functions of the C tree and the renamer
//! state.
//!
//! Every function here takes a budget: the number of nodes that may still be entered
//! on the way down. The budget at the root is the number of nodes in the store, so it
//! runs out only on a path that enters some node twice, which never ends.

use crate::clang::{float_text_at, text_at, unsigned_at, list_at, AstContext, AstNode, Tag, TypeNode};
use crate::convert_type::converted;
use crate::failure::{ConstructV, Defect, FailureV};
use crate::names::{hint_of, is_c_identifier, reserved_words};
use crate::operators::{binary_spec, unary_spec, Outcome};
use crate::renamer::RenamerV;
use crate::target::{ExprV, FieldDefV, ItemV, ParamV, PatV, StmtV, TyV};
use crate::with_stmts::{block_of, collapse, Sequenced};
use vstd::prelude::*;

verus! {

/// A reference to a declaration: the name that the renamer holds for the declared
/// identifier.
pub open spec fn lower_decl_ref(ctx: AstContext, st: RenamerV, node: AstNode) -> Outcome<
    Sequenced<ExprV>,
> {
    match node.child_at(0) {
        None => Outcome::fail(st, FailureV::Malformed(Defect::MissingChild)),
        Some(d) => match ctx.node_at(d) {
            Err(f) => Outcome::fail(st, f),
            Ok(decl) => match decl.decl_name() {
                None => Outcome::fail(st, FailureV::Malformed(Defect::MissingScalar)),
                Some(c_name) => match st.lookup(c_name) {
                    None => Outcome::fail(st, FailureV::Malformed(Defect::Undeclared)),
                    Some(name) => Outcome::ok(st, Sequenced::unit(ExprV::Ident(name))),
                },
            },
        },
    }
}

/// An integer or character literal: its value, without a suffix.
pub open spec fn lower_integer(st: RenamerV, node: AstNode) -> Outcome<Sequenced<ExprV>> {
    match unsigned_at(node.extras@, 0) {
        None => Outcome::fail(st, FailureV::Malformed(Defect::MissingScalar)),
        Some(value) => Outcome::ok(st, Sequenced::unit(ExprV::IntLit(value))),
    }
}

/// A floating literal: the decimal rendering of its value, without a suffix.
pub open spec fn lower_floating(st: RenamerV, node: AstNode) -> Outcome<Sequenced<ExprV>> {
    match float_text_at(node.extras@, 0) {
        None => Outcome::fail(st, FailureV::Malformed(Defect::MissingScalar)),
        Some(text) => Outcome::ok(st, Sequenced::unit(ExprV::FloatLit(text))),
    }
}

/// The C type of a node and the target type that it converts to.
pub open spec fn node_types(ctx: AstContext, node: AstNode) -> Result<(TypeNode, TyV), FailureV> {
    match ctx.type_of(node) {
        Err(f) => Err(f),
        Ok(cty) => match converted(ctx, node.type_id->Some_0) {
            Err(f) => Err(f),
            Ok(ty) => Ok((cty, ty)),
        },
    }
}

/// The spelling and the two operands of a binary operator node.
pub struct BinaryParts {
    pub name: Seq<char>,
    pub lhs: u64,
    pub rhs: u64,
}

/// The parts of a binary operator node: its first scalar and its first two children.
pub open spec fn binary_parts(node: AstNode) -> Result<BinaryParts, FailureV> {
    match text_at(node.extras@, 0) {
        None => Err(FailureV::Malformed(Defect::MissingScalar)),
        Some(name) => match node.child_at(0) {
            None => Err(FailureV::Malformed(Defect::MissingChild)),
            Some(lhs) => match node.child_at(1) {
                None => Err(FailureV::Malformed(Defect::MissingChild)),
                Some(rhs) => Ok(BinaryParts { name, lhs, rhs }),
            },
        },
    }
}

/// The C type of the node with the given id.
pub open spec fn type_of_id(ctx: AstContext, id: u64) -> Result<TypeNode, FailureV> {
    match ctx.node_at(id) {
        Err(f) => Err(f),
        Ok(node) => ctx.type_of(node),
    }
}

/// The C types of a binary operator node, of its left and of its right operand.
pub open spec fn operand_types(ctx: AstContext, node: AstNode, parts: BinaryParts) -> Result<
    (TypeNode, TypeNode, TypeNode),
    FailureV,
> {
    match ctx.type_of(node) {
        Err(f) => Err(f),
        Ok(ctype) => match type_of_id(ctx, parts.lhs) {
            Err(f) => Err(f),
            Ok(lhs_type) => match type_of_id(ctx, parts.rhs) {
                Err(f) => Err(f),
                Ok(rhs_type) => Ok((ctype, lhs_type, rhs_type)),
            },
        },
    }
}

/// The name of the field that a member expression selects: the first scalar of its
/// second child.
pub open spec fn field_name(ctx: AstContext, node: AstNode) -> Result<Seq<char>, FailureV> {
    match node.child_at(1) {
        None => Err(FailureV::Malformed(Defect::MissingChild)),
        Some(f) => match ctx.node_at(f) {
            Err(e) => Err(e),
            Ok(field) => match text_at(field.extras@, 0) {
                None => Err(FailureV::Malformed(Defect::MissingScalar)),
                Some(name) => Ok(name),
            },
        },
    }
}

/// A call from its lowered children: the first is the function, the others are the
/// arguments, and the prefix is theirs in order.
pub open spec fn finish_call(out: Outcome<Sequenced<Seq<ExprV>>>) -> Outcome<Sequenced<ExprV>> {
    match out.result {
        Err(f) => Outcome::fail(out.state, f),
        Ok(w) => if w.value.len() == 0 {
            Outcome::fail(out.state, FailureV::Malformed(Defect::MissingChild))
        } else {
            Outcome::ok(
                out.state,
                Sequenced {
                    prefix: w.prefix,
                    value: ExprV::Call(
                        Box::new(w.value[0]),
                        w.value.subrange(1, w.value.len() as int),
                    ),
                },
            )
        },
    }
}

/// The expression at `id`.
pub open spec fn lower_expr(ctx: AstContext, st: RenamerV, id: u64, fuel: nat) -> Outcome<
    Sequenced<ExprV>,
>
    decreases fuel, 3nat,
{
    match ctx.node_at(id) {
        Err(f) => Outcome::fail(st, f),
        Ok(node) => lower_expr_node(ctx, st, node, fuel),
    }
}

/// The expression that `node` stands for: a prefix of statements and a value, which
/// together behave as the C expression does.
pub open spec fn lower_expr_node(ctx: AstContext, st: RenamerV, node: AstNode, fuel: nat) -> Outcome<
    Sequenced<ExprV>,
>
    decreases fuel, 2nat,
{
    if fuel == 0 {
        Outcome::fail(st, FailureV::Malformed(Defect::Cyclic))
    } else {
        let rest = (fuel - 1) as nat;
        match node.tag {
            Tag::DeclRefExpr => lower_decl_ref(ctx, st, node),
            Tag::IntegerLiteral => lower_integer(st, node),
            Tag::CharacterLiteral => lower_integer(st, node),
            Tag::FloatingLiteral => lower_floating(st, node),
            Tag::ImplicitCastExpr => match node.child_at(0) {
                None => Outcome::fail(st, FailureV::Malformed(Defect::MissingChild)),
                Some(c) => lower_expr(ctx, st, c, rest),
            },
            Tag::UnaryOperator => lower_unary_node(ctx, st, node, rest),
            Tag::BinaryOperator => lower_binary_node(ctx, st, node, rest),
            Tag::CallExpr => finish_call(
                lower_args(ctx, st, node.children@, 0, Sequenced::unit(Seq::empty()), rest),
            ),
            Tag::MemberExpr => lower_member(ctx, st, node, rest),
            t => Outcome::fail(st, FailureV::Unimplemented(ConstructV::Expression(t))),
        }
    }
}

/// A unary operator node: the operand, then the operator applied to its value.
pub open spec fn lower_unary_node(ctx: AstContext, st: RenamerV, node: AstNode, rest: nat) -> Outcome<
    Sequenced<ExprV>,
>
    decreases rest, 5nat,
{
    match text_at(node.extras@, 0) {
        None => Outcome::fail(st, FailureV::Malformed(Defect::MissingScalar)),
        Some(name) => match node.child_at(0) {
            None => Outcome::fail(st, FailureV::Malformed(Defect::MissingChild)),
            Some(c) => {
                let arg = lower_expr(ctx, st, c, rest);
                match arg.result {
                    Err(f) => Outcome::fail(arg.state, f),
                    Ok(a) => match node_types(ctx, node) {
                        Err(f) => Outcome::fail(arg.state, f),
                        Ok(types) => match unary_spec(name, types.1, a.value) {
                            Err(f) => Outcome::fail(arg.state, f),
                            Ok(u) => Outcome::ok(arg.state, u.after(a.prefix)),
                        },
                    },
                }
            },
        },
    }
}

/// A binary operator node: the left operand, the right operand, then the operator
/// applied to their values; the prefixes stand in that order.
pub open spec fn lower_binary_node(ctx: AstContext, st: RenamerV, node: AstNode, rest: nat) -> Outcome<
    Sequenced<ExprV>,
>
    decreases rest, 5nat,
{
    match binary_parts(node) {
        Err(f) => Outcome::fail(st, f),
        Ok(parts) => {
            let lo = lower_expr(ctx, st, parts.lhs, rest);
            match lo.result {
                Err(f) => Outcome::fail(lo.state, f),
                Ok(l) => {
                    let ro = lower_expr(ctx, lo.state, parts.rhs, rest);
                    match ro.result {
                        Err(f) => Outcome::fail(ro.state, f),
                        Ok(r) => match operand_types(ctx, node, parts) {
                            Err(f) => Outcome::fail(ro.state, f),
                            Ok(types) => {
                                let bin = binary_spec(
                                    ctx,
                                    ro.state,
                                    parts.name,
                                    types.0,
                                    types.1,
                                    types.2,
                                    l.value,
                                    r.value,
                                );
                                match bin.result {
                                    Err(f) => Outcome::fail(bin.state, f),
                                    Ok(b) => Outcome::ok(bin.state, b.after(l.prefix + r.prefix)),
                                }
                            },
                        },
                    }
                },
            }
        },
    }
}

/// The children of a call from position `from` on, lowered from left to right behind
/// what `acc` holds of the earlier ones.
pub open spec fn lower_args(
    ctx: AstContext,
    st: RenamerV,
    children: Seq<Option<u64>>,
    from: nat,
    acc: Sequenced<Seq<ExprV>>,
    fuel: nat,
) -> Outcome<Sequenced<Seq<ExprV>>>
    decreases fuel, 10 + children.len() - from,
{
    if from >= children.len() {
        Outcome::ok(st, acc)
    } else {
        match children[from as int] {
            None => Outcome::fail(st, FailureV::Malformed(Defect::MissingChild)),
            Some(c) => {
                let one = lower_expr(ctx, st, c, fuel);
                match one.result {
                    Err(f) => Outcome::fail(one.state, f),
                    Ok(w) => lower_args(
                        ctx,
                        one.state,
                        children,
                        from + 1,
                        Sequenced { prefix: acc.prefix + w.prefix, value: acc.value.push(w.value) },
                        fuel,
                    ),
                }
            },
        }
    }
}

/// A member expression: the record, then the field selected from its value.
pub open spec fn lower_member(ctx: AstContext, st: RenamerV, node: AstNode, rest: nat) -> Outcome<
    Sequenced<ExprV>,
>
    decreases rest, 5nat,
{
    match node.child_at(0) {
        None => Outcome::fail(st, FailureV::Malformed(Defect::MissingChild)),
        Some(b) => {
            let base = lower_expr(ctx, st, b, rest);
            match base.result {
                Err(f) => Outcome::fail(base.state, f),
                Ok(w) => match field_name(ctx, node) {
                    Err(f) => Outcome::fail(base.state, f),
                    Ok(name) => Outcome::ok(
                        base.state,
                        Sequenced { prefix: w.prefix, value: ExprV::Field(Box::new(w.value), name) },
                    ),
                },
            }
        },
    }
}

/// The block that ends a scope: the scope is dropped whether the statements were
/// lowered or not; lowered statements become one block expression in statement
/// position.
pub open spec fn close_block(out: Outcome<Seq<StmtV>>) -> Outcome<Seq<StmtV>> {
    match out.result {
        Err(f) => Outcome::fail(out.state.drop_scope(), f),
        Ok(stmts) => Outcome::ok(
            out.state.drop_scope(),
            seq![StmtV::Expr(ExprV::Block(block_of(stmts)))],
        ),
    }
}

/// An expression in statement position: its prefix, then its value as a statement.
pub open spec fn as_statement(out: Outcome<Sequenced<ExprV>>) -> Outcome<Seq<StmtV>> {
    match out.result {
        Err(f) => Outcome::fail(out.state, f),
        Ok(w) => Outcome::ok(out.state, w.prefix.push(StmtV::Expr(w.value))),
    }
}

/// `return value`, as a statement.
pub open spec fn return_stmt(value: Option<ExprV>) -> StmtV {
    StmtV::Expr(
        ExprV::Return(
            match value {
                Some(v) => Some(Box::new(v)),
                None => None,
            },
        ),
    )
}

/// The statement at `id`, as the statements of the target that stand for it.
pub open spec fn lower_stmt(ctx: AstContext, st: RenamerV, id: u64, fuel: nat) -> Outcome<
    Seq<StmtV>,
>
    decreases fuel, 4nat,
{
    if fuel == 0 {
        Outcome::fail(st, FailureV::Malformed(Defect::Cyclic))
    } else {
        let rest = (fuel - 1) as nat;
        match ctx.node_at(id) {
            Err(f) => Outcome::fail(st, f),
            Ok(node) => match node.tag {
                Tag::DeclStmt => lower_decls(ctx, st, node.children@, 0, Seq::empty(), rest),
                Tag::ReturnStmt => match return_part(node) {
                    Err(f) => Outcome::fail(st, f),
                    Ok(value) => lower_return(ctx, st, value, rest),
                },
                Tag::IfStmt => match if_parts(node) {
                    Err(f) => Outcome::fail(st, f),
                    Ok(parts) => lower_if(ctx, st, parts.0, parts.1, parts.2, rest),
                },
                Tag::WhileStmt => match while_parts(node) {
                    Err(f) => Outcome::fail(st, f),
                    Ok(parts) => lower_while(ctx, st, parts.0, parts.1, rest),
                },
                Tag::NullStmt => Outcome::ok(st, Seq::empty()),
                Tag::CompoundStmt => close_block(
                    lower_items(ctx, st.add_scope(), node.children@, 0, Seq::empty(), rest),
                ),
                _ => as_statement(lower_expr_node(ctx, st, node, fuel)),
            },
        }
    }
}

/// The statements among `children` from position `from` on, lowered in order behind
/// `acc`. An absent child gives nothing.
pub open spec fn lower_items(
    ctx: AstContext,
    st: RenamerV,
    children: Seq<Option<u64>>,
    from: nat,
    acc: Seq<StmtV>,
    fuel: nat,
) -> Outcome<Seq<StmtV>>
    decreases fuel, 10 + children.len() - from,
{
    if from >= children.len() {
        Outcome::ok(st, acc)
    } else {
        match children[from as int] {
            None => lower_items(ctx, st, children, from + 1, acc, fuel),
            Some(c) => {
                let one = lower_stmt(ctx, st, c, fuel);
                match one.result {
                    Err(f) => Outcome::fail(one.state, f),
                    Ok(s) => lower_items(ctx, one.state, children, from + 1, acc + s, fuel),
                }
            },
        }
    }
}

/// The declarations among `children` from position `from` on, lowered in order behind
/// `acc`. An absent child is a failure.
pub open spec fn lower_decls(
    ctx: AstContext,
    st: RenamerV,
    children: Seq<Option<u64>>,
    from: nat,
    acc: Seq<StmtV>,
    fuel: nat,
) -> Outcome<Seq<StmtV>>
    decreases fuel, 10 + children.len() - from,
{
    if from >= children.len() {
        Outcome::ok(st, acc)
    } else {
        match children[from as int] {
            None => Outcome::fail(st, FailureV::Malformed(Defect::MissingChild)),
            Some(c) => {
                let one = lower_decl(ctx, st, c, fuel);
                match one.result {
                    Err(f) => Outcome::fail(one.state, f),
                    Ok(s) => lower_decls(ctx, one.state, children, from + 1, acc + s, fuel),
                }
            },
        }
    }
}

/// `let mut name: ty = init;`.
pub open spec fn binding(name: Seq<char>, ty: TyV, init: Option<ExprV>) -> StmtV {
    StmtV::Local(PatV { name, by_ref: false, mutable: true }, Some(ty), init)
}

/// The declaration at `id`. A variable is bound in the innermost scope first, to a
/// name chosen for the hint that its C name gives (see [`hint_of`]), so that
/// its initializer sees it; then the initializer is lowered, and its prefix stands
/// before the binding, which is mutable and carries the converted type. No other
/// declaration is handled.
pub open spec fn lower_decl(ctx: AstContext, st: RenamerV, id: u64, fuel: nat) -> Outcome<
    Seq<StmtV>,
>
    decreases fuel, 4nat,
{
    if fuel == 0 {
        Outcome::fail(st, FailureV::Malformed(Defect::Cyclic))
    } else {
        let rest = (fuel - 1) as nat;
        match ctx.node_at(id) {
            Err(f) => Outcome::fail(st, f),
            Ok(node) => if !(node.tag is VarDecl) {
                Outcome::fail(st, FailureV::Unimplemented(ConstructV::Declaration(node.tag)))
            } else {
                match text_at(node.extras@, 0) {
                    None => Outcome::fail(st, FailureV::Malformed(Defect::MissingScalar)),
                    Some(c_name) => if !is_c_identifier(c_name) {
                        Outcome::fail(st, FailureV::Malformed(Defect::BadIdentifier))
                    } else if st.bound_here(c_name) {
                        Outcome::fail(st, FailureV::Malformed(Defect::Redeclared))
                    } else {
                        let name = st.choice(hint_of(c_name));
                        let bound = st.insert(c_name, hint_of(c_name));
                        if !node.has_slot(0) {
                            Outcome::fail(bound, FailureV::Malformed(Defect::MissingChild))
                        } else {
                            let init = match node.child_at(0) {
                                None => Outcome::ok(bound, Sequenced::unit(None)),
                                Some(e) => {
                                    let v = lower_expr(ctx, bound, e, rest);
                                    match v.result {
                                        Err(f) => Outcome::fail(v.state, f),
                                        Ok(w) => Outcome::ok(
                                            v.state,
                                            Sequenced { prefix: w.prefix, value: Some(w.value) },
                                        ),
                                    }
                                },
                            };
                            match init.result {
                                Err(f) => Outcome::fail(init.state, f),
                                Ok(w) => match node_types(ctx, node) {
                                    Err(f) => Outcome::fail(init.state, f),
                                    Ok(types) => Outcome::ok(
                                        init.state,
                                        w.prefix.push(binding(name, types.1, w.value)),
                                    ),
                                },
                            }
                        }
                    },
                }
            },
        }
    }
}

/// The child of a return statement: the value returned, which may be absent.
pub open spec fn return_part(node: AstNode) -> Result<Option<u64>, FailureV> {
    if !node.has_slot(0) {
        Err(FailureV::Malformed(Defect::MissingChild))
    } else {
        Ok(node.child_at(0))
    }
}

/// A return statement: the prefix of the value, if there is one, then the return.
pub open spec fn lower_return(ctx: AstContext, st: RenamerV, value: Option<u64>, rest: nat) -> Outcome<
    Seq<StmtV>,
>
    decreases rest, 5nat,
{
    match value {
        None => Outcome::ok(st, seq![return_stmt(None)]),
        Some(e) => {
            let v = lower_expr(ctx, st, e, rest);
            match v.result {
                Err(f) => Outcome::fail(v.state, f),
                Ok(w) => Outcome::ok(v.state, w.prefix.push(return_stmt(Some(w.value)))),
            }
        },
    }
}

/// The three children of an `if`: the condition, the branch taken, and the other
/// branch, which may be absent.
pub open spec fn if_parts(node: AstNode) -> Result<(u64, u64, Option<u64>), FailureV> {
    match node.child_at(0) {
        None => Err(FailureV::Malformed(Defect::MissingChild)),
        Some(c) => match node.child_at(1) {
            None => Err(FailureV::Malformed(Defect::MissingChild)),
            Some(t) => if !node.has_slot(2) {
                Err(FailureV::Malformed(Defect::MissingChild))
            } else {
                Ok((c, t, node.child_at(2)))
            },
        },
    }
}

/// `if cond { then } else { otherwise }`, as a statement.
pub open spec fn if_stmt(cond: ExprV, then: Seq<StmtV>, otherwise: Option<Seq<StmtV>>) -> StmtV {
    StmtV::Expr(
        ExprV::If(
            Box::new(cond),
            block_of(then),
            match otherwise {
                Some(o) => Some(Box::new(ExprV::Block(block_of(o)))),
                None => None,
            },
        ),
    )
}

/// An `if`: the prefix of the condition runs once, before the test; then one
/// statement holds the test and the branches.
pub open spec fn lower_if(
    ctx: AstContext,
    st: RenamerV,
    cond: u64,
    then: u64,
    otherwise: Option<u64>,
    rest: nat,
) -> Outcome<Seq<StmtV>>
    decreases rest, 5nat,
{
    let c = lower_expr(ctx, st, cond, rest);
    match c.result {
        Err(f) => Outcome::fail(c.state, f),
        Ok(cv) => {
            let t = lower_stmt(ctx, c.state, then, rest);
            match t.result {
                Err(f) => Outcome::fail(t.state, f),
                Ok(tv) => match otherwise {
                    None => Outcome::ok(t.state, cv.prefix.push(if_stmt(cv.value, tv, None))),
                    Some(x) => {
                        let e = lower_stmt(ctx, t.state, x, rest);
                        match e.result {
                            Err(f) => Outcome::fail(e.state, f),
                            Ok(ev) => Outcome::ok(
                                e.state,
                                cv.prefix.push(if_stmt(cv.value, tv, Some(ev))),
                            ),
                        }
                    },
                },
            }
        },
    }
}

/// The two children of a `while`: the condition and the body.
pub open spec fn while_parts(node: AstNode) -> Result<(u64, u64), FailureV> {
    match node.child_at(0) {
        None => Err(FailureV::Malformed(Defect::MissingChild)),
        Some(c) => match node.child_at(1) {
            None => Err(FailureV::Malformed(Defect::MissingChild)),
            Some(b) => Ok((c, b)),
        },
    }
}

/// `while cond { body }`, as a statement.
pub open spec fn while_stmt(cond: ExprV, body: Seq<StmtV>) -> StmtV {
    StmtV::Expr(ExprV::While(Box::new(cond), block_of(body)))
}

/// A `while`: the condition is tested before every round, so its prefix goes into the
/// condition itself, which is collapsed to one expression.
pub open spec fn lower_while(ctx: AstContext, st: RenamerV, cond: u64, body: u64, rest: nat) -> Outcome<
    Seq<StmtV>,
>
    decreases rest, 5nat,
{
    let c = lower_expr(ctx, st, cond, rest);
    match c.result {
        Err(f) => Outcome::fail(c.state, f),
        Ok(cv) => {
            let b = lower_stmt(ctx, c.state, body, rest);
            match b.result {
                Err(f) => Outcome::fail(b.state, f),
                Ok(bv) => Outcome::ok(b.state, seq![while_stmt(collapse(cv), bv)]),
            }
        },
    }
}

/// The body of a function: a compound statement, lowered in a scope of its own to the
/// block that holds its statements.
pub open spec fn lower_body(ctx: AstContext, st: RenamerV, id: u64, fuel: nat) -> Outcome<
    Seq<StmtV>,
> {
    if fuel == 0 {
        Outcome::fail(st, FailureV::Malformed(Defect::Cyclic))
    } else {
        match ctx.node_at(id) {
            Err(f) => Outcome::fail(st, f),
            Ok(node) => if !(node.tag is CompoundStmt) {
                Outcome::fail(st, FailureV::Malformed(Defect::BodyNotCompound))
            } else {
                let items = lower_items(
                    ctx,
                    st.add_scope(),
                    node.children@,
                    0,
                    Seq::empty(),
                    (fuel - 1) as nat,
                );
                match items.result {
                    Err(f) => Outcome::fail(items.state.drop_scope(), f),
                    Ok(stmts) => Outcome::ok(items.state.drop_scope(), block_of(stmts)),
                }
            },
        }
    }
}

/// The parameters from position `from` on, behind `acc`: each is bound in the
/// innermost scope and carries its converted type.
pub open spec fn lower_params(
    ctx: AstContext,
    st: RenamerV,
    params: Seq<(Seq<char>, u64)>,
    from: nat,
    acc: Seq<ParamV>,
) -> Outcome<Seq<ParamV>>
    decreases params.len() - from,
{
    if from >= params.len() {
        Outcome::ok(st, acc)
    } else {
        let c_name = params[from as int].0;
        if !is_c_identifier(c_name) {
            Outcome::fail(st, FailureV::Malformed(Defect::BadIdentifier))
        } else if st.bound_here(c_name) {
            Outcome::fail(st, FailureV::Malformed(Defect::Redeclared))
        } else {
            let bound = st.insert(c_name, hint_of(c_name));
            match converted(ctx, params[from as int].1) {
                Err(f) => Outcome::fail(bound, f),
                Ok(ty) => lower_params(
                    ctx,
                    bound,
                    params,
                    from + 1,
                    acc.push(
                        ParamV {
                            pat: PatV {
                                name: st.choice(hint_of(c_name)),
                                by_ref: false,
                                mutable: false,
                            },
                            ty,
                        },
                    ),
                ),
            }
        }
    }
}

/// The renamer state in which `c_name` is declared: unchanged where some scope binds
/// it, else with it bound in the innermost scope.
pub open spec fn declared(st: RenamerV, c_name: Seq<char>) -> RenamerV {
    if st.lookup(c_name) is Some {
        st
    } else {
        st.insert(c_name, hint_of(c_name))
    }
}

/// The name under which `c_name` is known once it is declared in `st`.
pub open spec fn declared_as(st: RenamerV, c_name: Seq<char>) -> Seq<char> {
    match st.lookup(c_name) {
        Some(name) => name,
        None => st.choice(hint_of(c_name)),
    }
}

/// A function: its name is the one that the renamer holds for it; the parameters are
/// bound in a scope that is opened for them and closed at the end, however the
/// lowering ends; the body is lowered inside it.
pub open spec fn lower_function(
    ctx: AstContext,
    st: RenamerV,
    c_name: Seq<char>,
    params: Seq<(Seq<char>, u64)>,
    ret: u64,
    body: u64,
) -> Outcome<ItemV> {
    if !is_c_identifier(c_name) {
        Outcome::fail(st, FailureV::Malformed(Defect::BadIdentifier))
    } else {
        let name = declared_as(st, c_name);
        let ps = lower_params(ctx, declared(st, c_name).add_scope(), params, 0, Seq::empty());
        match ps.result {
            Err(f) => Outcome::fail(ps.state.drop_scope(), f),
            Ok(p) => match converted(ctx, ret) {
                Err(f) => Outcome::fail(ps.state.drop_scope(), f),
                Ok(r) => {
                    let b = lower_body(ctx, ps.state, body, ctx.nodes().len());
                    match b.result {
                        Err(f) => Outcome::fail(b.state.drop_scope(), f),
                        Ok(block) => Outcome::ok(
                            b.state.drop_scope(),
                            ItemV::Fn(name, p, r, block),
                        ),
                    }
                },
            },
        }
    }
}

/// The fields from position `from` on, behind `acc`, each with its converted type.
pub open spec fn lower_fields(
    ctx: AstContext,
    fields: Seq<(Seq<char>, u64)>,
    from: nat,
    acc: Seq<FieldDefV>,
) -> Result<Seq<FieldDefV>, FailureV>
    decreases fields.len() - from,
{
    if from >= fields.len() {
        Ok(acc)
    } else {
        match converted(ctx, fields[from as int].1) {
            Err(f) => Err(f),
            Ok(ty) => lower_fields(
                ctx,
                fields,
                from + 1,
                acc.push(FieldDefV { name: fields[from as int].0, ty }),
            ),
        }
    }
}

/// A struct: its fields in the order given, each with its converted type.
pub open spec fn lower_struct(ctx: AstContext, name: Seq<char>, fields: Seq<(Seq<char>, u64)>) -> Result<
    ItemV,
    FailureV,
> {
    match lower_fields(ctx, fields, 0, Seq::empty()) {
        Err(f) => Err(f),
        Ok(fs) => Ok(ItemV::Struct(name, fs)),
    }
}

/// A type alias for the converted type.
pub open spec fn lower_typedef(ctx: AstContext, name: Seq<char>, type_id: u64) -> Result<
    ItemV,
    FailureV,
> {
    match converted(ctx, type_id) {
        Err(f) => Err(f),
        Ok(ty) => Ok(ItemV::TypeAlias(name, ty)),
    }
}

/// The children of `children` before position `upto`, from position `from` on, behind
/// `acc`: each with the name that it declares and the id of its type.
pub open spec fn named_children(
    ctx: AstContext,
    children: Seq<Option<u64>>,
    upto: nat,
    from: nat,
    acc: Seq<(Seq<char>, u64)>,
) -> Result<Seq<(Seq<char>, u64)>, FailureV>
    decreases upto - from,
{
    if from >= upto || from >= children.len() {
        Ok(acc)
    } else {
        match children[from as int] {
            None => Err(FailureV::Malformed(Defect::MissingChild)),
            Some(c) => match ctx.node_at(c) {
                Err(f) => Err(f),
                Ok(node) => match text_at(node.extras@, 0) {
                    None => Err(FailureV::Malformed(Defect::MissingScalar)),
                    Some(name) => match node.type_id {
                        None => Err(FailureV::Malformed(Defect::MissingType)),
                        Some(ty) => named_children(
                            ctx,
                            children,
                            upto,
                            from + 1,
                            acc.push((name, ty)),
                        ),
                    },
                },
            },
        }
    }
}

/// What a function declaration holds.
pub struct FunctionParts {
    pub name: Seq<char>,
    pub params: Seq<(Seq<char>, u64)>,
    pub ret: u64,
    pub body: u64,
}

/// The parts of a function declaration: its name is its first scalar; the first
/// scalar of its type is a list that begins with the id of the return type; its last
/// child is the body and the children before it are the parameters.
pub open spec fn function_parts(ctx: AstContext, node: AstNode) -> Result<FunctionParts, FailureV> {
    match text_at(node.extras@, 0) {
        None => Err(FailureV::Malformed(Defect::MissingScalar)),
        Some(name) => match ctx.type_of(node) {
            Err(f) => Err(f),
            Ok(ty) => match list_at(ty.extras@, 0) {
                None => Err(FailureV::Malformed(Defect::MissingScalar)),
                Some(signature) => match unsigned_at(signature, 0) {
                    None => Err(FailureV::Malformed(Defect::MissingScalar)),
                    Some(ret) => if node.children@.len() == 0 {
                        Err(FailureV::Malformed(Defect::MissingChild))
                    } else {
                        let last = (node.children@.len() - 1) as nat;
                        match named_children(ctx, node.children@, last, 0, Seq::empty()) {
                            Err(f) => Err(f),
                            Ok(params) => match node.child_at(last as int) {
                                None => Err(FailureV::Malformed(Defect::MissingChild)),
                                Some(body) => Ok(FunctionParts { name, params, ret, body }),
                            },
                        }
                    },
                },
            },
        },
    }
}

/// The item for the top-level declaration at `id`: a function, a struct or a type
/// alias. No other declaration is handled.
pub open spec fn lower_top(ctx: AstContext, st: RenamerV, id: u64) -> Outcome<ItemV> {
    match ctx.node_at(id) {
        Err(f) => Outcome::fail(st, f),
        Ok(node) => match node.tag {
            Tag::FunctionDecl => match function_parts(ctx, node) {
                Err(f) => Outcome::fail(st, f),
                Ok(p) => lower_function(ctx, st, p.name, p.params, p.ret, p.body),
            },
            Tag::RecordDecl => match text_at(node.extras@, 0) {
                None => Outcome::fail(st, FailureV::Malformed(Defect::MissingScalar)),
                Some(name) => match named_children(
                    ctx,
                    node.children@,
                    node.children@.len(),
                    0,
                    Seq::empty(),
                ) {
                    Err(f) => Outcome::fail(st, f),
                    Ok(fields) => Outcome { state: st, result: lower_struct(ctx, name, fields) },
                },
            },
            Tag::TypedefDecl => match text_at(node.extras@, 0) {
                None => Outcome::fail(st, FailureV::Malformed(Defect::MissingScalar)),
                Some(name) => match node.type_id {
                    None => Outcome::fail(st, FailureV::Malformed(Defect::MissingType)),
                    Some(ty) => Outcome { state: st, result: lower_typedef(ctx, name, ty) },
                },
            },
            t => Outcome::fail(st, FailureV::Unimplemented(ConstructV::Declaration(t))),
        },
    }
}

/// The renamer state with the name of a top-level declaration bound, where it
/// declares one that is an identifier of C and is not bound yet.
pub open spec fn declare_top(st: RenamerV, node: AstNode) -> RenamerV {
    match node.decl_name() {
        None => st,
        Some(name) => if is_c_identifier(name) && !st.bound_here(name) {
            st.insert(name, hint_of(name))
        } else {
            st
        },
    }
}

/// The renamer state after the names of the top-level declarations from position
/// `from` on are bound, in order.
pub open spec fn declare_tops(ctx: AstContext, st: RenamerV, tops: Seq<u64>, from: nat) -> Result<
    RenamerV,
    FailureV,
>
    decreases tops.len() - from,
{
    if from >= tops.len() {
        Ok(st)
    } else {
        match ctx.node_at(tops[from as int]) {
            Err(f) => Err(f),
            Ok(node) => declare_tops(ctx, declare_top(st, node), tops, from + 1),
        }
    }
}

/// The items for the top-level declarations from position `from` on, in order, behind
/// `acc`.
pub open spec fn lower_tops(
    ctx: AstContext,
    st: RenamerV,
    tops: Seq<u64>,
    from: nat,
    acc: Seq<ItemV>,
) -> Result<Seq<ItemV>, FailureV>
    decreases tops.len() - from,
{
    if from >= tops.len() {
        Ok(acc)
    } else {
        let one = lower_top(ctx, st, tops[from as int]);
        match one.result {
            Err(f) => Err(f),
            Ok(item) => lower_tops(ctx, one.state, tops, from + 1, acc.push(item)),
        }
    }
}

/// The renamer state at the start: one empty scope, the keywords of the target
/// language reserved, nothing given out.
pub open spec fn initial() -> RenamerV {
    RenamerV {
        scopes: seq![Map::empty()],
        reserved: reserved_words().to_set(),
        issued: Seq::empty(),
    }
}

/// The items of a translation unit: first every top-level name is bound, then every
/// top-level declaration is lowered, in order.
pub open spec fn translated(ctx: AstContext) -> Result<Seq<ItemV>, FailureV> {
    match declare_tops(ctx, initial(), ctx.top_nodes@, 0) {
        Err(f) => Err(f),
        Ok(st) => lower_tops(ctx, st, ctx.top_nodes@, 0, Seq::empty()),
    }
}

} // verus!
