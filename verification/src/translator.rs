//! The lowering itself: from the nodes of a C translation unit to items of the target
//! language.

use crate::clang::{
    float_of, list_of, text_of, unsigned_of, AstContext, AstNode, Tag, TypeNode,
};
use crate::convert_type::TypeConverter;
use crate::failure::{Construct, Defect, Failure, FailureV};
use crate::lowering::{
    binary_parts, declare_top, declare_tops, initial, lower_args, lower_binary_node, lower_body,
    lower_decl, lower_decls, lower_expr, lower_expr_node, lower_fields, lower_function, lower_if,
    lower_items, lower_member, lower_params, lower_return, lower_stmt, lower_struct, lower_top,
    lower_tops, lower_typedef, lower_unary_node, lower_while, named_children, node_types,
    operand_types, translated, type_of_id, BinaryParts,
};
use crate::names::{hint_for, is_c_identifier_str};
use crate::operators::{
    as_bool, as_c_int, binary_spec, borrow_place, deref_of, lower_addition, lower_arith,
    lower_assignment, lower_binary, lower_compound, lower_subtraction, parse_binary_operator,
    same_text, store_through, unary_spec, Arith, BinaryOperator, Logical, Outcome, Relational,
};
use crate::names::keywords;
use crate::renamer::{Renamer, RenamerV};
use crate::target::{
    exprs_view, fields_view, items_view, lemma_exprs_view_push, lemma_stmts_view_concat,
    lemma_stmts_view_push, params_view, stmts_view, BinOp, Block, Expr, ExprV, FieldDef, Item,
    ItemV, Param, Pat, Stmt, StmtV, Ty, TyV, UnOp,
};
use crate::with_stmts::{stmts_block, with_stmts_opt, Sequenced, WithStmts};
use vstd::prelude::*;

verus! {

/// Whether an expression lowering that returned `r` and left the renamer in `state`
/// did what `expected` says.
pub open spec fn expr_outcome(
    r: Result<WithStmts<Expr>, Failure>,
    state: RenamerV,
    expected: Outcome<Sequenced<ExprV>>,
) -> bool {
    &&& expected.state == state
    &&& match r {
        Ok(w) => expected.result == Ok::<Sequenced<ExprV>, FailureV>(w.deep()),
        Err(f) => expected.result == Err::<Sequenced<ExprV>, FailureV>(f@),
    }
}

/// Whether `r` is the outcome `expected`, the expression taken by its view.
pub open spec fn expr_result(r: Result<Expr, Failure>, expected: Result<ExprV, FailureV>) -> bool {
    match r {
        Ok(e) => expected == Ok::<ExprV, FailureV>(e@),
        Err(f) => expected == Err::<ExprV, FailureV>(f@),
    }
}

/// Whether the lowering of the children of a call that returned `r` and left the
/// renamer in `state` did what `expected` says.
pub open spec fn args_outcome(
    r: Result<WithStmts<Vec<Expr>>, Failure>,
    state: RenamerV,
    expected: Outcome<Sequenced<Seq<ExprV>>>,
) -> bool {
    &&& expected.state == state
    &&& match r {
        Ok(w) => expected.result == Ok::<Sequenced<Seq<ExprV>>, FailureV>(
            Sequenced { prefix: stmts_view(w.stmts@), value: exprs_view(w.val@) },
        ),
        Err(f) => expected.result == Err::<Sequenced<Seq<ExprV>>, FailureV>(f@),
    }
}

/// Whether a statement lowering that returned `r` and left the renamer in `state` did
/// what `expected` says.
pub open spec fn stmts_outcome(
    r: Result<Vec<Stmt>, Failure>,
    state: RenamerV,
    expected: Outcome<Seq<StmtV>>,
) -> bool {
    &&& expected.state == state
    &&& match r {
        Ok(v) => expected.result == Ok::<Seq<StmtV>, FailureV>(stmts_view(v@)),
        Err(f) => expected.result == Err::<Seq<StmtV>, FailureV>(f@),
    }
}

/// Whether the lowering of a body that returned `r` and left the renamer in `state`
/// did what `expected` says.
pub open spec fn block_outcome(
    r: Result<Block, Failure>,
    state: RenamerV,
    expected: Outcome<Seq<StmtV>>,
) -> bool {
    &&& expected.state == state
    &&& match r {
        Ok(b) => expected.result == Ok::<Seq<StmtV>, FailureV>(b@),
        Err(f) => expected.result == Err::<Seq<StmtV>, FailureV>(f@),
    }
}

/// Whether the lowering of parameters that returned `r` and left the renamer in
/// `state` did what `expected` says.
pub open spec fn params_outcome(
    r: Result<Vec<Param>, Failure>,
    state: RenamerV,
    expected: Outcome<Seq<crate::target::ParamV>>,
) -> bool {
    &&& expected.state == state
    &&& match r {
        Ok(v) => expected.result == Ok::<Seq<crate::target::ParamV>, FailureV>(params_view(v@)),
        Err(f) => expected.result == Err::<Seq<crate::target::ParamV>, FailureV>(f@),
    }
}

/// Whether the lowering of a declaration that returned `r` and left the renamer in
/// `state` did what `expected` says.
pub open spec fn item_outcome(
    r: Result<Item, Failure>,
    state: RenamerV,
    expected: Outcome<ItemV>,
) -> bool {
    &&& expected.state == state
    &&& item_result(r, expected.result)
}

/// Whether `r` is the outcome `expected`, the item taken by its view.
pub open spec fn item_result(r: Result<Item, Failure>, expected: Result<ItemV, FailureV>) -> bool {
    match r {
        Ok(item) => expected == Ok::<ItemV, FailureV>(item@),
        Err(f) => expected == Err::<ItemV, FailureV>(f@),
    }
}

/// Whether `r` is the outcome `expected`, the items taken by their views.
pub open spec fn items_result(
    r: Result<Vec<Item>, Failure>,
    expected: Result<Seq<ItemV>, FailureV>,
) -> bool {
    match r {
        Ok(items) => expected == Ok::<Seq<ItemV>, FailureV>(items_view(items@)),
        Err(f) => expected == Err::<Seq<ItemV>, FailureV>(f@),
    }
}

/// Names and type ids as the lowering reads them: the names by their views.
pub open spec fn params_of(arguments: Seq<(&str, u64)>) -> Seq<(Seq<char>, u64)> {
    Seq::new(arguments.len(), |i: int| (arguments[i].0@, arguments[i].1))
}

/// Whether adding an item to `before` gave `after` and the result `r`, where
/// `expected` is the item that was to be added: on success the item stands behind the
/// earlier ones, on failure the items are as they were.
pub open spec fn item_added(
    before: Seq<Item>,
    after: Seq<Item>,
    r: Result<(), Failure>,
    expected: Result<ItemV, FailureV>,
) -> bool {
    match r {
        Ok(_) => {
            &&& after.len() == before.len() + 1
            &&& after.drop_last() == before
            &&& expected == Ok::<ItemV, FailureV>(after.last()@)
        },
        Err(f) => after == before && expected == Err::<ItemV, FailureV>(f@),
    }
}

/// `first` followed by `second`.
pub fn join(first: Vec<Stmt>, second: Vec<Stmt>) -> (r: Vec<Stmt>)
    ensures
        r@ == first@ + second@,
        stmts_view(r@) == stmts_view(first@) + stmts_view(second@),
{
    let mut r = first;
    let mut more = second;
    r.append(&mut more);
    proof {
        lemma_stmts_view_concat(first@, second@);
    }
    r
}

/// `value as libc::c_int`: a truth value as C's `int`.
pub fn bool_to_int(val: Expr) -> (e: Expr)
    ensures
        e@ == as_c_int(val@),
{
    Expr::cast(val, Ty::libc("c_int"))
}

/// `0 != value`: C's `int` as a truth value.
pub fn int_to_bool(val: Expr) -> (e: Expr)
    ensures
        e@ == as_bool(val@),
{
    Expr::binary(BinOp::Ne, Expr::int_lit(0), val)
}

/// The state of one lowering: the items made so far, the type converter, the C tree
/// and the renamer.
pub struct Translation {
    pub items: Vec<Item>,
    pub type_converter: TypeConverter,
    pub ast_context: AstContext,
    pub renamer: Renamer,
}

impl Translation {
    /// The model of the renamer.
    pub open spec fn names(&self) -> RenamerV {
        self.renamer@
    }

    /// The invariant of the type: that of its renamer.
    pub open spec fn wf(&self) -> bool {
        self.renamer.wf()
    }

    /// In a well-formed state the model of the renamer is well formed.
    pub proof fn lemma_wf(&self)
        requires
            self.wf(),
        ensures
            self.names().wf(),
    {
        self.renamer.lemma_wf();
    }

    /// `lhs + rhs`: see [`lower_addition`].
    pub fn convert_addition(
        ctx: &AstContext,
        lhs_type: &TypeNode,
        rhs_type: &TypeNode,
        lhs: Expr,
        rhs: Expr,
    ) -> (r: Result<Expr, Failure>)
        ensures
            expr_result(r, lower_addition(*ctx, *lhs_type, *rhs_type, lhs@, rhs@)),
    {
        let lhs_type = ctx.resolve_type(lhs_type)?;
        let rhs_type = ctx.resolve_type(rhs_type)?;
        if lhs_type.is_pointer() {
            Ok(Expr::method_call1(lhs, "offset", rhs))
        } else if rhs_type.is_pointer() {
            Ok(Expr::method_call1(rhs, "offset", lhs))
        } else if lhs_type.is_unsigned_integral_type() {
            Ok(Expr::method_call1(lhs, "wrapping_add", rhs))
        } else {
            Ok(Expr::binary(BinOp::Add, lhs, rhs))
        }
    }

    /// `lhs - rhs`: see [`lower_subtraction`].
    pub fn convert_subtraction(
        ctx: &AstContext,
        lhs_type: &TypeNode,
        rhs_type: &TypeNode,
        lhs: Expr,
        rhs: Expr,
    ) -> (r: Result<Expr, Failure>)
        ensures
            expr_result(r, lower_subtraction(*ctx, *lhs_type, *rhs_type, lhs@, rhs@)),
    {
        let lhs_type = ctx.resolve_type(lhs_type)?;
        let rhs_type = ctx.resolve_type(rhs_type)?;
        if rhs_type.is_pointer() {
            Ok(Expr::method_call1(rhs, "offset_to", lhs))
        } else if lhs_type.is_pointer() {
            let neg_rhs = Expr::unary(UnOp::Neg, rhs);
            Ok(Expr::method_call1(lhs, "offset", neg_rhs))
        } else if lhs_type.is_unsigned_integral_type() {
            Ok(Expr::method_call1(lhs, "wrapping_sub", rhs))
        } else {
            Ok(Expr::binary(BinOp::Sub, lhs, rhs))
        }
    }

    /// `lhs op rhs` for `*`, `/` and `%`.
    pub fn convert_scaling(
        ctx: &AstContext,
        wrapping: &str,
        op: BinOp,
        ctype: &TypeNode,
        lhs: Expr,
        rhs: Expr,
    ) -> (r: Result<Expr, Failure>)
        ensures
            expr_result(
                r,
                crate::operators::lower_scaling(*ctx, wrapping@, op, *ctype, lhs@, rhs@),
            ),
    {
        let ctype = ctx.resolve_type(ctype)?;
        if ctype.is_unsigned_integral_type() {
            Ok(Expr::method_call1(lhs, wrapping, rhs))
        } else {
            Ok(Expr::binary(op, lhs, rhs))
        }
    }

    /// An operator that computes a value: see [`lower_arith`].
    pub fn convert_arithmetic(
        ctx: &AstContext,
        op: Arith,
        ctype: &TypeNode,
        lhs_type: &TypeNode,
        rhs_type: &TypeNode,
        lhs: Expr,
        rhs: Expr,
    ) -> (r: Result<Expr, Failure>)
        ensures
            expr_result(r, lower_arith(*ctx, op, *ctype, *lhs_type, *rhs_type, lhs@, rhs@)),
    {
        match op {
            Arith::Add => Self::convert_addition(ctx, lhs_type, rhs_type, lhs, rhs),
            Arith::Sub => Self::convert_subtraction(ctx, lhs_type, rhs_type, lhs, rhs),
            Arith::Mul => Self::convert_scaling(ctx, "wrapping_mul", BinOp::Mul, ctype, lhs, rhs),
            Arith::Div => Self::convert_scaling(ctx, "wrapping_div", BinOp::Div, ctype, lhs, rhs),
            Arith::Rem => Self::convert_scaling(ctx, "wrapping_rem", BinOp::Rem, ctype, lhs, rhs),
            Arith::BitXor => Ok(Expr::binary(BinOp::BitXor, lhs, rhs)),
            Arith::BitAnd => Ok(Expr::binary(BinOp::BitAnd, lhs, rhs)),
            Arith::BitOr => Ok(Expr::binary(BinOp::BitOr, lhs, rhs)),
            Arith::Shr => Ok(Expr::binary(BinOp::Shr, lhs, rhs)),
            Arith::Shl => Err(Failure::Unimplemented(Construct::BinaryOperator("<<".to_owned()))),
        }
    }

    /// The prefix and value of an assignment through the temporary `name`, which
    /// borrows `lhs` and receives `value`.
    pub fn through_temporary(name: String, lhs: Expr, value: Expr) -> (w: WithStmts<Expr>)
        ensures
            w.deep() == (Sequenced {
                prefix: seq![borrow_place(name@, lhs@), store_through(name@, value@)],
                value: deref_of(name@),
            }),
    {
        let compute_lhs = Stmt::local(Pat::ident_ref_mut(name.clone()), None, Some(lhs));
        let target = Expr::unary(UnOp::Deref, Expr::ident(name.clone()));
        let assign_stmt = Stmt::expr(Expr::assign(target, value));
        let deref_lhs = Expr::unary(UnOp::Deref, Expr::ident(name));
        let mut stmts: Vec<Stmt> = Vec::new();
        stmts.push(compute_lhs);
        stmts.push(assign_stmt);
        let w = WithStmts { stmts, val: deref_lhs };
        assert(w.deep().prefix =~= seq![
            borrow_place(name@, lhs@),
            store_through(name@, value@),
        ]);
        w
    }

    /// `lhs = rhs`: see [`lower_assignment`].
    pub fn convert_assignment(renamer: &mut Renamer, lhs: Expr, rhs: Expr) -> (w: WithStmts<Expr>)
        requires
            old(renamer).wf(),
        ensures
            final(renamer).wf(),
            final(renamer)@.scopes == old(renamer)@.scopes,
            expr_outcome(Ok(w), final(renamer)@, lower_assignment(old(renamer)@, lhs@, rhs@)),
    {
        let ptr_name = renamer.fresh();
        Self::through_temporary(ptr_name, lhs, rhs)
    }

    /// `lhs op= rhs`: see [`lower_compound`].
    pub fn convert_binary_assignment(
        ctx: &AstContext,
        renamer: &mut Renamer,
        op: Arith,
        ctype: &TypeNode,
        lhs_type: &TypeNode,
        rhs_type: &TypeNode,
        lhs: Expr,
        rhs: Expr,
    ) -> (r: Result<WithStmts<Expr>, Failure>)
        requires
            old(renamer).wf(),
        ensures
            final(renamer).wf(),
            final(renamer)@.scopes == old(renamer)@.scopes,
            expr_outcome(
                r,
                final(renamer)@,
                lower_compound(
                    *ctx,
                    old(renamer)@,
                    op,
                    *ctype,
                    *lhs_type,
                    *rhs_type,
                    lhs@,
                    rhs@,
                ),
            ),
    {
        let ptr_name = renamer.fresh();
        let deref_lhs = Expr::unary(UnOp::Deref, Expr::ident(ptr_name.clone()));
        let val = Self::convert_arithmetic(ctx, op, ctype, lhs_type, rhs_type, deref_lhs, rhs)?;
        Ok(Self::through_temporary(ptr_name, lhs, val))
    }

    /// A binary operator: see [`lower_binary`].
    pub fn binary_operator(
        ctx: &AstContext,
        renamer: &mut Renamer,
        op: BinaryOperator,
        ctype: &TypeNode,
        lhs_type: &TypeNode,
        rhs_type: &TypeNode,
        lhs: Expr,
        rhs: Expr,
    ) -> (r: Result<WithStmts<Expr>, Failure>)
        requires
            old(renamer).wf(),
        ensures
            final(renamer).wf(),
            final(renamer)@.scopes == old(renamer)@.scopes,
            expr_outcome(
                r,
                final(renamer)@,
                lower_binary(*ctx, old(renamer)@, op, *ctype, *lhs_type, *rhs_type, lhs@, rhs@),
            ),
    {
        match op {
            BinaryOperator::Arith(a) => {
                let val = Self::convert_arithmetic(ctx, a, ctype, lhs_type, rhs_type, lhs, rhs)?;
                Ok(WithStmts::new(val))
            },
            BinaryOperator::Relational(r) => {
                let op = match r {
                    Relational::Eq => BinOp::Eq,
                    Relational::Ne => BinOp::Ne,
                    Relational::Lt => BinOp::Lt,
                    Relational::Gt => BinOp::Gt,
                    Relational::Le => BinOp::Le,
                    Relational::Ge => BinOp::Ge,
                };
                Ok(WithStmts::new(bool_to_int(Expr::binary(op, lhs, rhs))))
            },
            BinaryOperator::Logical(l) => {
                let op = match l {
                    Logical::And => BinOp::And,
                    Logical::Or => BinOp::Or,
                };
                Ok(WithStmts::new(Expr::binary(op, lhs, rhs)))
            },
            BinaryOperator::Assign => Ok(Self::convert_assignment(renamer, lhs, rhs)),
            BinaryOperator::Compound(a) => Self::convert_binary_assignment(
                ctx,
                renamer,
                a,
                ctype,
                lhs_type,
                rhs_type,
                lhs,
                rhs,
            ),
        }
    }

    /// The binary operator spelled `name`: see [`binary_spec`].
    pub fn binary_named(
        ctx: &AstContext,
        renamer: &mut Renamer,
        name: &str,
        ctype: &TypeNode,
        lhs_type: &TypeNode,
        rhs_type: &TypeNode,
        lhs: Expr,
        rhs: Expr,
    ) -> (r: Result<WithStmts<Expr>, Failure>)
        requires
            old(renamer).wf(),
        ensures
            final(renamer).wf(),
            final(renamer)@.scopes == old(renamer)@.scopes,
            expr_outcome(
                r,
                final(renamer)@,
                binary_spec(*ctx, old(renamer)@, name@, *ctype, *lhs_type, *rhs_type, lhs@, rhs@),
            ),
    {
        match parse_binary_operator(name) {
            None => Err(Failure::Unimplemented(Construct::BinaryOperator(name.to_owned()))),
            Some(op) => Self::binary_operator(
                ctx,
                renamer,
                op,
                ctype,
                lhs_type,
                rhs_type,
                lhs,
                rhs,
            ),
        }
    }

    /// The unary operator spelled `name`: see [`unary_spec`].
    pub fn unary_named(name: &str, ty: Ty, arg: Expr) -> (r: Result<WithStmts<Expr>, Failure>)
        ensures
            match r {
                Ok(w) => unary_spec(name@, ty@, arg@) == Ok::<Sequenced<ExprV>, FailureV>(w.deep()),
                Err(f) => unary_spec(name@, ty@, arg@) == Err::<Sequenced<ExprV>, FailureV>(f@),
            },
    {
        if same_text(name, "&") {
            let addr_of_arg = Expr::addr_of_mut(arg);
            let ptr = Expr::cast(addr_of_arg, ty);
            Ok(WithStmts::new(ptr))
        } else if same_text(name, "*") {
            Ok(WithStmts::new(Expr::unary(UnOp::Deref, arg)))
        } else {
            Err(Failure::Unimplemented(Construct::UnaryOperator(name.to_owned())))
        }
    }

    /// The C type of a node and the target type that it converts to.
    pub fn typed<'a>(ctx: &'a AstContext, types: &TypeConverter, node: &AstNode) -> (r: Result<
        (&'a TypeNode, Ty),
        Failure,
    >)
        ensures
            match r {
                Ok(p) => node_types(*ctx, *node) == Ok::<(TypeNode, TyV), FailureV>((*p.0, p.1@)),
                Err(f) => node_types(*ctx, *node) == Err::<(TypeNode, TyV), FailureV>(f@),
            },
    {
        let cty = ctx.node_type(node)?;
        match node.type_id {
            Some(id) => {
                let ty = types.convert(ctx, id)?;
                Ok((cty, ty))
            },
            None => Err(Failure::Malformed(Defect::MissingType)),
        }
    }

    /// The C type of the node with the given id.
    pub fn type_of_node<'a>(ctx: &'a AstContext, id: u64) -> (r: Result<&'a TypeNode, Failure>)
        ensures
            match r {
                Ok(t) => type_of_id(*ctx, id) == Ok::<TypeNode, FailureV>(*t),
                Err(f) => type_of_id(*ctx, id) == Err::<TypeNode, FailureV>(f@),
            },
    {
        let node = ctx.get_node(id)?;
        ctx.node_type(node)
    }

    /// The expression at `expr_id`: see [`lower_expr`].
    pub fn convert_expr(
        ctx: &AstContext,
        types: &TypeConverter,
        renamer: &mut Renamer,
        expr_id: u64,
        fuel: usize,
    ) -> (r: Result<WithStmts<Expr>, Failure>)
        requires
            old(renamer).wf(),
        ensures
            final(renamer).wf(),
            final(renamer)@.scopes == old(renamer)@.scopes,
            expr_outcome(r, final(renamer)@, lower_expr(*ctx, old(renamer)@, expr_id, fuel as nat)),
        decreases fuel, 3nat,
    {
        let node = ctx.get_node(expr_id)?;
        Self::convert_expr_node(ctx, types, renamer, node, fuel)
    }

    /// The expression that `node` stands for: see [`lower_expr_node`].
    pub fn convert_expr_node(
        ctx: &AstContext,
        types: &TypeConverter,
        renamer: &mut Renamer,
        node: &AstNode,
        fuel: usize,
    ) -> (r: Result<WithStmts<Expr>, Failure>)
        requires
            old(renamer).wf(),
        ensures
            final(renamer).wf(),
            final(renamer)@.scopes == old(renamer)@.scopes,
            expr_outcome(
                r,
                final(renamer)@,
                lower_expr_node(*ctx, old(renamer)@, *node, fuel as nat),
            ),
        decreases fuel, 2nat,
    {
        if fuel == 0 {
            return Err(Failure::Malformed(Defect::Cyclic));
        }
        let rest = fuel - 1;
        match node.tag {
            Tag::DeclRefExpr => {
                let decl_id = node.child(0)?;
                let child = ctx.get_node(decl_id)?;
                let varname = match child.get_decl_name() {
                    Some(n) => n,
                    None => {
                        return Err(Failure::Malformed(Defect::MissingScalar));
                    },
                };
                match renamer.get(varname.as_str()) {
                    Some(rustname) => Ok(WithStmts::new(Expr::ident(rustname))),
                    None => Err(Failure::Malformed(Defect::Undeclared)),
                }
            },
            Tag::IntegerLiteral | Tag::CharacterLiteral => {
                let val = unsigned_of(&node.extras, 0)?;
                Ok(WithStmts::new(Expr::int_lit(val)))
            },
            Tag::FloatingLiteral => {
                let text = float_of(&node.extras, 0)?;
                Ok(WithStmts::new(Expr::float_lit(text.clone())))
            },
            Tag::ImplicitCastExpr => {
                let child = node.child(0)?;
                Self::convert_expr(ctx, types, renamer, child, rest)
            },
            Tag::UnaryOperator => Self::convert_unary_node(ctx, types, renamer, node, rest),
            Tag::BinaryOperator => Self::convert_binary_node(ctx, types, renamer, node, rest),
            Tag::CallExpr => {
                let lowered = Self::convert_args(ctx, types, renamer, &node.children, rest)?;
                let mut exprs = lowered.val;
                let ghost all = exprs@;
                if exprs.len() == 0 {
                    return Err(Failure::Malformed(Defect::MissingChild));
                }
                let fun = exprs.remove(0);
                assert(exprs_view(exprs@) =~= exprs_view(all).subrange(1, all.len() as int));
                Ok(WithStmts { stmts: lowered.stmts, val: Expr::call(fun, exprs) })
            },
            Tag::MemberExpr => Self::convert_member(ctx, types, renamer, node, rest),
            t => Err(Failure::Unimplemented(Construct::Expression(t))),
        }
    }

    /// A unary operator node: see [`lower_unary_node`].
    pub fn convert_unary_node(
        ctx: &AstContext,
        types: &TypeConverter,
        renamer: &mut Renamer,
        node: &AstNode,
        rest: usize,
    ) -> (r: Result<WithStmts<Expr>, Failure>)
        requires
            old(renamer).wf(),
        ensures
            final(renamer).wf(),
            final(renamer)@.scopes == old(renamer)@.scopes,
            expr_outcome(
                r,
                final(renamer)@,
                lower_unary_node(*ctx, old(renamer)@, *node, rest as nat),
            ),
        decreases rest, 5nat,
    {
        let name = text_of(&node.extras, 0)?;
        let child = node.child(0)?;
        let arg = Self::convert_expr(ctx, types, renamer, child, rest)?;
        let (_cty, ty) = Self::typed(ctx, types, node)?;
        let unary = Self::unary_named(name.as_str(), ty, arg.val)?;
        Ok(WithStmts { stmts: join(arg.stmts, unary.stmts), val: unary.val })
    }

    /// A binary operator node: see [`lower_binary_node`].
    pub fn convert_binary_node(
        ctx: &AstContext,
        types: &TypeConverter,
        renamer: &mut Renamer,
        node: &AstNode,
        rest: usize,
    ) -> (r: Result<WithStmts<Expr>, Failure>)
        requires
            old(renamer).wf(),
        ensures
            final(renamer).wf(),
            final(renamer)@.scopes == old(renamer)@.scopes,
            expr_outcome(
                r,
                final(renamer)@,
                lower_binary_node(*ctx, old(renamer)@, *node, rest as nat),
            ),
        decreases rest, 5nat,
    {
        let name = text_of(&node.extras, 0)?;
        let lhs_id = node.child(0)?;
        let rhs_id = node.child(1)?;
        let ghost parts = BinaryParts { name: name@, lhs: lhs_id, rhs: rhs_id };
        assert(binary_parts(*node) == Ok::<BinaryParts, FailureV>(parts));
        let lhs = Self::convert_expr(ctx, types, renamer, lhs_id, rest)?;
        let rhs = Self::convert_expr(ctx, types, renamer, rhs_id, rest)?;
        let ctype = ctx.node_type(node)?;
        let lhs_type = Self::type_of_node(ctx, lhs_id)?;
        let rhs_type = Self::type_of_node(ctx, rhs_id)?;
        assert(operand_types(*ctx, *node, parts) == Ok::<(TypeNode, TypeNode, TypeNode), FailureV>(
            (*ctype, *lhs_type, *rhs_type),
        ));
        let bin = Self::binary_named(
            ctx,
            renamer,
            name.as_str(),
            ctype,
            lhs_type,
            rhs_type,
            lhs.val,
            rhs.val,
        )?;
        Ok(WithStmts { stmts: join(join(lhs.stmts, rhs.stmts), bin.stmts), val: bin.val })
    }

    /// The children of a call, from left to right: see [`lower_args`].
    pub fn convert_args(
        ctx: &AstContext,
        types: &TypeConverter,
        renamer: &mut Renamer,
        children: &Vec<Option<u64>>,
        fuel: usize,
    ) -> (r: Result<WithStmts<Vec<Expr>>, Failure>)
        requires
            old(renamer).wf(),
        ensures
            final(renamer).wf(),
            final(renamer)@.scopes == old(renamer)@.scopes,
            args_outcome(
                r,
                final(renamer)@,
                lower_args(
                    *ctx,
                    old(renamer)@,
                    children@,
                    0,
                    Sequenced::unit(Seq::empty()),
                    fuel as nat,
                ),
            ),
        decreases fuel, 10 + children.len(),
    {
        let mut stmts: Vec<Stmt> = Vec::new();
        let mut exprs: Vec<Expr> = Vec::new();
        let mut i: usize = 0;
        proof {
            assert(stmts_view(stmts@) =~= Seq::empty());
            assert(exprs_view(exprs@) =~= Seq::empty());
        }
        while i < children.len()
            invariant
                0 <= i <= children.len(),
                renamer.wf(),
                renamer@.scopes == old(renamer)@.scopes,
                lower_args(
                    *ctx,
                    old(renamer)@,
                    children@,
                    0,
                    Sequenced::unit(Seq::empty()),
                    fuel as nat,
                ) == lower_args(
                    *ctx,
                    renamer@,
                    children@,
                    i as nat,
                    Sequenced { prefix: stmts_view(stmts@), value: exprs_view(exprs@) },
                    fuel as nat,
                ),
            decreases children.len() - i,
        {
            let child = match children[i] {
                Some(c) => c,
                None => {
                    return Err(Failure::Malformed(Defect::MissingChild));
                },
            };
            let res = Self::convert_expr(ctx, types, renamer, child, fuel)?;
            proof {
                lemma_exprs_view_push(exprs@, res.val);
            }
            stmts = join(stmts, res.stmts);
            exprs.push(res.val);
            i = i + 1;
        }
        Ok(WithStmts { stmts, val: exprs })
    }

    /// A member expression: see [`lower_member`].
    pub fn convert_member(
        ctx: &AstContext,
        types: &TypeConverter,
        renamer: &mut Renamer,
        node: &AstNode,
        rest: usize,
    ) -> (r: Result<WithStmts<Expr>, Failure>)
        requires
            old(renamer).wf(),
        ensures
            final(renamer).wf(),
            final(renamer)@.scopes == old(renamer)@.scopes,
            expr_outcome(r, final(renamer)@, lower_member(*ctx, old(renamer)@, *node, rest as nat)),
        decreases rest, 5nat,
    {
        let base = node.child(0)?;
        let struct_val = Self::convert_expr(ctx, types, renamer, base, rest)?;
        let field_id = node.child(1)?;
        let field_node = ctx.get_node(field_id)?;
        let field = text_of(&field_node.extras, 0)?;
        Ok(
            WithStmts {
                stmts: struct_val.stmts,
                val: Expr::field(struct_val.val, field.clone()),
            },
        )
    }

    /// The statement at `stmt_id`: see [`lower_stmt`].
    pub fn convert_stmt(
        ctx: &AstContext,
        types: &TypeConverter,
        renamer: &mut Renamer,
        stmt_id: u64,
        fuel: usize,
    ) -> (r: Result<Vec<Stmt>, Failure>)
        requires
            old(renamer).wf(),
        ensures
            final(renamer).wf(),
            final(renamer)@.scopes.len() == old(renamer)@.scopes.len(),
            stmts_outcome(r, final(renamer)@, lower_stmt(*ctx, old(renamer)@, stmt_id, fuel as nat)),
        decreases fuel, 4nat,
    {
        if fuel == 0 {
            return Err(Failure::Malformed(Defect::Cyclic));
        }
        let rest = fuel - 1;
        let node = ctx.get_node(stmt_id)?;
        match node.tag {
            Tag::DeclStmt => Self::convert_decls(ctx, types, renamer, &node.children, rest),
            Tag::ReturnStmt => {
                let result_id = node.optional_child(0)?;
                Self::convert_return_stmt(ctx, types, renamer, result_id, rest)
            },
            Tag::IfStmt => {
                let cond_id = node.child(0)?;
                let then_id = node.child(1)?;
                let else_id = node.optional_child(2)?;
                Self::convert_if_stmt(ctx, types, renamer, cond_id, then_id, else_id, rest)
            },
            Tag::WhileStmt => {
                let cond_id = node.child(0)?;
                let body_id = node.child(1)?;
                Self::convert_while_stmt(ctx, types, renamer, cond_id, body_id, rest)
            },
            Tag::NullStmt => {
                let none: Vec<Stmt> = Vec::new();
                assert(stmts_view(none@) =~= Seq::empty());
                Ok(none)
            },
            Tag::CompoundStmt => {
                renamer.add_scope();
                let stmts = Self::convert_items(ctx, types, renamer, &node.children, rest);
                renamer.drop_scope();
                match stmts {
                    Ok(inner) => {
                        let s = Stmt::expr(Expr::block(stmts_block(inner)));
                        let mut one: Vec<Stmt> = Vec::new();
                        one.push(s);
                        assert(stmts_view(one@) =~= seq![s@]);
                        Ok(one)
                    },
                    Err(f) => Err(f),
                }
            },
            _ => {
                let xs = Self::convert_expr_node(ctx, types, renamer, node, fuel)?;
                let last = Stmt::expr(xs.val);
                let mut stmts = xs.stmts;
                proof {
                    lemma_stmts_view_push(stmts@, last);
                }
                stmts.push(last);
                Ok(stmts)
            },
        }
    }

    /// The statements among `children`, in order: see [`lower_items`].
    pub fn convert_items(
        ctx: &AstContext,
        types: &TypeConverter,
        renamer: &mut Renamer,
        children: &Vec<Option<u64>>,
        fuel: usize,
    ) -> (r: Result<Vec<Stmt>, Failure>)
        requires
            old(renamer).wf(),
        ensures
            final(renamer).wf(),
            final(renamer)@.scopes.len() == old(renamer)@.scopes.len(),
            stmts_outcome(
                r,
                final(renamer)@,
                lower_items(*ctx, old(renamer)@, children@, 0, Seq::empty(), fuel as nat),
            ),
        decreases fuel, 10 + children.len(),
    {
        let mut stmts: Vec<Stmt> = Vec::new();
        let mut i: usize = 0;
        proof {
            assert(stmts_view(stmts@) =~= Seq::empty());
        }
        while i < children.len()
            invariant
                0 <= i <= children.len(),
                renamer.wf(),
                renamer@.scopes.len() == old(renamer)@.scopes.len(),
                lower_items(*ctx, old(renamer)@, children@, 0, Seq::empty(), fuel as nat)
                    == lower_items(
                    *ctx,
                    renamer@,
                    children@,
                    i as nat,
                    stmts_view(stmts@),
                    fuel as nat,
                ),
            decreases children.len() - i,
        {
            match children[i] {
                Some(child) => {
                    let more = Self::convert_stmt(ctx, types, renamer, child, fuel)?;
                    stmts = join(stmts, more);
                },
                None => {},
            }
            i = i + 1;
        }
        Ok(stmts)
    }

    /// The declarations among `children`, in order: see [`lower_decls`].
    pub fn convert_decls(
        ctx: &AstContext,
        types: &TypeConverter,
        renamer: &mut Renamer,
        children: &Vec<Option<u64>>,
        fuel: usize,
    ) -> (r: Result<Vec<Stmt>, Failure>)
        requires
            old(renamer).wf(),
        ensures
            final(renamer).wf(),
            final(renamer)@.scopes.len() == old(renamer)@.scopes.len(),
            stmts_outcome(
                r,
                final(renamer)@,
                lower_decls(*ctx, old(renamer)@, children@, 0, Seq::empty(), fuel as nat),
            ),
        decreases fuel, 10 + children.len(),
    {
        let mut stmts: Vec<Stmt> = Vec::new();
        let mut i: usize = 0;
        proof {
            assert(stmts_view(stmts@) =~= Seq::empty());
        }
        while i < children.len()
            invariant
                0 <= i <= children.len(),
                renamer.wf(),
                renamer@.scopes.len() == old(renamer)@.scopes.len(),
                lower_decls(*ctx, old(renamer)@, children@, 0, Seq::empty(), fuel as nat)
                    == lower_decls(
                    *ctx,
                    renamer@,
                    children@,
                    i as nat,
                    stmts_view(stmts@),
                    fuel as nat,
                ),
            decreases children.len() - i,
        {
            let child = match children[i] {
                Some(c) => c,
                None => {
                    return Err(Failure::Malformed(Defect::MissingChild));
                },
            };
            let more = Self::convert_decl_stmt(ctx, types, renamer, child, fuel)?;
            stmts = join(stmts, more);
            i = i + 1;
        }
        Ok(stmts)
    }

    /// `while cond { body }`: see [`lower_while`].
    pub fn convert_while_stmt(
        ctx: &AstContext,
        types: &TypeConverter,
        renamer: &mut Renamer,
        cond_id: u64,
        body_id: u64,
        rest: usize,
    ) -> (r: Result<Vec<Stmt>, Failure>)
        requires
            old(renamer).wf(),
        ensures
            final(renamer).wf(),
            final(renamer)@.scopes.len() == old(renamer)@.scopes.len(),
            stmts_outcome(
                r,
                final(renamer)@,
                lower_while(*ctx, old(renamer)@, cond_id, body_id, rest as nat),
            ),
        decreases rest, 5nat,
    {
        let cond = Self::convert_expr(ctx, types, renamer, cond_id, rest)?;
        let body = Self::convert_stmt(ctx, types, renamer, body_id, rest)?;
        let rust_cond = cond.to_expr();
        let rust_body = stmts_block(body);
        let s = Stmt::expr(Expr::while_loop(rust_cond, rust_body));
        let mut one: Vec<Stmt> = Vec::new();
        one.push(s);
        assert(stmts_view(one@) =~= seq![s@]);
        Ok(one)
    }

    /// `if cond { then } else { otherwise }`: see [`lower_if`].
    pub fn convert_if_stmt(
        ctx: &AstContext,
        types: &TypeConverter,
        renamer: &mut Renamer,
        cond_id: u64,
        then_id: u64,
        else_id: Option<u64>,
        rest: usize,
    ) -> (r: Result<Vec<Stmt>, Failure>)
        requires
            old(renamer).wf(),
        ensures
            final(renamer).wf(),
            final(renamer)@.scopes.len() == old(renamer)@.scopes.len(),
            stmts_outcome(
                r,
                final(renamer)@,
                lower_if(*ctx, old(renamer)@, cond_id, then_id, else_id, rest as nat),
            ),
        decreases rest, 5nat,
    {
        let cond = Self::convert_expr(ctx, types, renamer, cond_id, rest)?;
        let then_stmts = stmts_block(Self::convert_stmt(ctx, types, renamer, then_id, rest)?);
        let else_stmts = match else_id {
            Some(x) => {
                let lowered = Self::convert_stmt(ctx, types, renamer, x, rest)?;
                Some(Expr::block(stmts_block(lowered)))
            },
            None => None,
        };
        let s = Stmt::expr(Expr::if_else(cond.val, then_stmts, else_stmts));
        let mut stmts = cond.stmts;
        proof {
            lemma_stmts_view_push(stmts@, s);
        }
        stmts.push(s);
        Ok(stmts)
    }

    /// `return value`: see [`lower_return`].
    pub fn convert_return_stmt(
        ctx: &AstContext,
        types: &TypeConverter,
        renamer: &mut Renamer,
        result_id: Option<u64>,
        rest: usize,
    ) -> (r: Result<Vec<Stmt>, Failure>)
        requires
            old(renamer).wf(),
        ensures
            final(renamer).wf(),
            final(renamer)@.scopes.len() == old(renamer)@.scopes.len(),
            stmts_outcome(
                r,
                final(renamer)@,
                lower_return(*ctx, old(renamer)@, result_id, rest as nat),
            ),
        decreases rest, 5nat,
    {
        let val = match result_id {
            Some(i) => Some(Self::convert_expr(ctx, types, renamer, i, rest)?),
            None => None,
        };
        let ws = with_stmts_opt(val);
        let ret = Stmt::expr(Expr::ret(ws.val));
        let mut stmts = ws.stmts;
        proof {
            lemma_stmts_view_push(stmts@, ret);
            if result_id is None {
                assert(stmts_view(stmts@.push(ret)) =~= seq![ret@]);
            }
        }
        stmts.push(ret);
        Ok(stmts)
    }

    /// The declaration at `decl_id`: see [`lower_decl`].
    pub fn convert_decl_stmt(
        ctx: &AstContext,
        types: &TypeConverter,
        renamer: &mut Renamer,
        decl_id: u64,
        fuel: usize,
    ) -> (r: Result<Vec<Stmt>, Failure>)
        requires
            old(renamer).wf(),
        ensures
            final(renamer).wf(),
            final(renamer)@.scopes.len() == old(renamer)@.scopes.len(),
            stmts_outcome(r, final(renamer)@, lower_decl(*ctx, old(renamer)@, decl_id, fuel as nat)),
        decreases fuel, 4nat,
    {
        if fuel == 0 {
            return Err(Failure::Malformed(Defect::Cyclic));
        }
        let rest = fuel - 1;
        let node = ctx.get_node(decl_id)?;
        match node.tag {
            Tag::VarDecl => {},
            t => {
                return Err(Failure::Unimplemented(Construct::Declaration(t)));
            },
        }
        let var_name = text_of(&node.extras, 0)?;
        if !is_c_identifier_str(var_name.as_str()) {
            return Err(Failure::Malformed(Defect::BadIdentifier));
        }
        let rust_name = match renamer.insert(var_name.clone(), hint_for(var_name.as_str())) {
            Some(n) => n,
            None => {
                return Err(Failure::Malformed(Defect::Redeclared));
            },
        };
        let pat = Pat::ident_mut(rust_name);
        let init_id = node.optional_child(0)?;
        let val = match init_id {
            Some(x) => Some(Self::convert_expr(ctx, types, renamer, x, rest)?),
            None => None,
        };
        let init = with_stmts_opt(val);
        let (_cty, ty) = Self::typed(ctx, types, node)?;
        let local = Stmt::local(pat, Some(ty), init.val);
        let mut stmts = init.stmts;
        proof {
            lemma_stmts_view_push(stmts@, local);
        }
        stmts.push(local);
        Ok(stmts)
    }

    /// The body of a function: see [`lower_body`].
    pub fn convert_function_body(
        ctx: &AstContext,
        types: &TypeConverter,
        renamer: &mut Renamer,
        body_id: u64,
        fuel: usize,
    ) -> (r: Result<Block, Failure>)
        requires
            old(renamer).wf(),
        ensures
            final(renamer).wf(),
            final(renamer)@.scopes.len() == old(renamer)@.scopes.len(),
            block_outcome(r, final(renamer)@, lower_body(*ctx, old(renamer)@, body_id, fuel as nat)),
    {
        if fuel == 0 {
            return Err(Failure::Malformed(Defect::Cyclic));
        }
        let node = ctx.get_node(body_id)?;
        match node.tag {
            Tag::CompoundStmt => {},
            _ => {
                return Err(Failure::Malformed(Defect::BodyNotCompound));
            },
        }
        renamer.add_scope();
        let stmts = Self::convert_items(ctx, types, renamer, &node.children, fuel - 1);
        renamer.drop_scope();
        match stmts {
            Ok(inner) => Ok(stmts_block(inner)),
            Err(f) => Err(f),
        }
    }

    /// The parameters of a function: see [`lower_params`].
    pub fn convert_params(
        ctx: &AstContext,
        types: &TypeConverter,
        renamer: &mut Renamer,
        arguments: &[(&str, u64)],
    ) -> (r: Result<Vec<Param>, Failure>)
        requires
            old(renamer).wf(),
        ensures
            final(renamer).wf(),
            final(renamer)@.scopes.len() == old(renamer)@.scopes.len(),
            params_outcome(
                r,
                final(renamer)@,
                lower_params(*ctx, old(renamer)@, params_of(arguments@), 0, Seq::empty()),
            ),
    {
        let mut args: Vec<Param> = Vec::new();
        let mut i: usize = 0;
        proof {
            assert(params_view(args@) =~= Seq::empty());
        }
        while i < arguments.len()
            invariant
                0 <= i <= arguments.len(),
                renamer.wf(),
                renamer@.scopes.len() == old(renamer)@.scopes.len(),
                lower_params(*ctx, old(renamer)@, params_of(arguments@), 0, Seq::empty())
                    == lower_params(
                    *ctx,
                    renamer@,
                    params_of(arguments@),
                    i as nat,
                    params_view(args@),
                ),
            decreases arguments.len() - i,
        {
            let var: &str = arguments[i].0;
            let ty: u64 = arguments[i].1;
            assert(params_of(arguments@)[i as int] == (var@, ty));
            if !is_c_identifier_str(var) {
                return Err(Failure::Malformed(Defect::BadIdentifier));
            }
            let rust_var = match renamer.insert(var.to_owned(), hint_for(var)) {
                Some(n) => n,
                None => {
                    return Err(Failure::Malformed(Defect::Redeclared));
                },
            };
            let ty = types.convert(ctx, ty)?;
            let param = Param { pat: Pat::ident(rust_var), ty };
            assert(params_view(args@.push(param)) =~= params_view(args@).push(param@));
            args.push(param);
            i = i + 1;
        }
        Ok(args)
    }

    /// The item for a function: see [`lower_function`].
    pub fn function_item(
        ctx: &AstContext,
        types: &TypeConverter,
        renamer: &mut Renamer,
        name: &str,
        arguments: &[(&str, u64)],
        return_type: u64,
        body: u64,
    ) -> (r: Result<Item, Failure>)
        requires
            old(renamer).wf(),
        ensures
            final(renamer).wf(),
            final(renamer)@.scopes.len() == old(renamer)@.scopes.len(),
            item_outcome(
                r,
                final(renamer)@,
                lower_function(
                    *ctx,
                    old(renamer)@,
                    name@,
                    params_of(arguments@),
                    return_type,
                    body,
                ),
            ),
    {
        broadcast use vstd::std_specs::hash::group_hash_axioms;

        if !is_c_identifier_str(name) {
            return Err(Failure::Malformed(Defect::BadIdentifier));
        }
        proof {
            renamer.lemma_wf();
        }
        let fname = match renamer.get(name) {
            Some(n) => n,
            None => match renamer.insert(name.to_owned(), hint_for(name)) {
                Some(n) => n,
                None => {
                    return Err(Failure::Malformed(Defect::Redeclared));
                },
            },
        };
        renamer.add_scope();
        let params = match Self::convert_params(ctx, types, renamer, arguments) {
            Ok(p) => p,
            Err(f) => {
                renamer.drop_scope();
                return Err(f);
            },
        };
        let ret = match types.convert(ctx, return_type) {
            Ok(t) => t,
            Err(f) => {
                renamer.drop_scope();
                return Err(f);
            },
        };
        let block = Self::convert_function_body(ctx, types, renamer, body, ctx.ast_nodes.len());
        renamer.drop_scope();
        match block {
            Ok(b) => Ok(Item::Fn(fname, params, ret, b)),
            Err(f) => Err(f),
        }
    }

    /// The item for a struct: see [`lower_struct`].
    pub fn struct_item(ctx: &AstContext, types: &TypeConverter, name: &str, fields: &[(&str, u64)]) -> (r:
        Result<Item, Failure>)
        ensures
            item_result(r, lower_struct(*ctx, name@, params_of(fields@))),
    {
        let mut struct_fields: Vec<FieldDef> = Vec::new();
        let mut i: usize = 0;
        proof {
            assert(fields_view(struct_fields@) =~= Seq::empty());
        }
        while i < fields.len()
            invariant
                0 <= i <= fields.len(),
                lower_fields(*ctx, params_of(fields@), 0, Seq::empty()) == lower_fields(
                    *ctx,
                    params_of(fields@),
                    i as nat,
                    fields_view(struct_fields@),
                ),
            decreases fields.len() - i,
        {
            let id: &str = fields[i].0;
            let ty: u64 = fields[i].1;
            assert(params_of(fields@)[i as int] == (id@, ty));
            let ty = types.convert(ctx, ty)?;
            let field = FieldDef { name: id.to_owned(), ty };
            assert(fields_view(struct_fields@.push(field)) =~= fields_view(struct_fields@).push(
                field@,
            ));
            struct_fields.push(field);
            i = i + 1;
        }
        Ok(Item::Struct(name.to_owned(), struct_fields))
    }

    /// The item for a type alias: see [`lower_typedef`].
    pub fn typedef_item(ctx: &AstContext, types: &TypeConverter, name: &str, typeid: u64) -> (r: Result<
        Item,
        Failure,
    >)
        ensures
            item_result(r, lower_typedef(*ctx, name@, typeid)),
    {
        let ty = types.convert(ctx, typeid)?;
        Ok(Item::TypeAlias(name.to_owned(), ty))
    }

    /// The children before position `upto`, each with its name and the id of its
    /// type: see [`named_children`].
    pub fn named_children_of<'a>(ctx: &'a AstContext, children: &Vec<Option<u64>>, upto: usize) -> (r:
        Result<Vec<(&'a str, u64)>, Failure>)
        ensures
            match r {
                Ok(v) => named_children(*ctx, children@, upto as nat, 0, Seq::empty()) == Ok::<
                    Seq<(Seq<char>, u64)>, FailureV,
                >(params_of(v@)),
                Err(f) => named_children(*ctx, children@, upto as nat, 0, Seq::empty()) == Err::<
                    Seq<(Seq<char>, u64)>, FailureV,
                >(f@),
            },
    {
        let mut found: Vec<(&'a str, u64)> = Vec::new();
        let mut i: usize = 0;
        proof {
            assert(params_of(found@) =~= Seq::empty());
        }
        while i < upto && i < children.len()
            invariant
                0 <= i,
                named_children(*ctx, children@, upto as nat, 0, Seq::empty()) == named_children(
                    *ctx,
                    children@,
                    upto as nat,
                    i as nat,
                    params_of(found@),
                ),
            decreases children.len() - i,
        {
            let child = match children[i] {
                Some(c) => c,
                None => {
                    return Err(Failure::Malformed(Defect::MissingChild));
                },
            };
            let node = ctx.get_node(child)?;
            let name = text_of(&node.extras, 0)?;
            let ty = match node.type_id {
                Some(t) => t,
                None => {
                    return Err(Failure::Malformed(Defect::MissingType));
                },
            };
            let entry: (&'a str, u64) = (name.as_str(), ty);
            assert(params_of(found@.push(entry)) =~= params_of(found@).push((name@, ty)));
            found.push(entry);
            i = i + 1;
        }
        Ok(found)
    }

    /// The item for the top-level declaration at `top_id`: see [`lower_top`].
    pub fn top_item(ctx: &AstContext, types: &TypeConverter, renamer: &mut Renamer, top_id: u64) -> (r:
        Result<Item, Failure>)
        requires
            old(renamer).wf(),
        ensures
            final(renamer).wf(),
            item_outcome(r, final(renamer)@, lower_top(*ctx, old(renamer)@, top_id)),
    {
        let x = ctx.get_node(top_id)?;
        match x.tag {
            Tag::FunctionDecl => {
                let name = text_of(&x.extras, 0)?;
                let ty = ctx.node_type(x)?;
                let funtys = list_of(&ty.extras, 0)?;
                let ret = unsigned_of(funtys, 0)?;
                if x.children.len() == 0 {
                    return Err(Failure::Malformed(Defect::MissingChild));
                }
                let args_n = x.children.len() - 1;
                let args = Self::named_children_of(ctx, &x.children, args_n)?;
                let body = x.child(args_n)?;
                Self::function_item(ctx, types, renamer, name.as_str(), args.as_slice(), ret, body)
            },
            Tag::RecordDecl => {
                let name = text_of(&x.extras, 0)?;
                let fields = Self::named_children_of(ctx, &x.children, x.children.len())?;
                Self::struct_item(ctx, types, name.as_str(), fields.as_slice())
            },
            Tag::TypedefDecl => {
                let name = text_of(&x.extras, 0)?;
                let ty = match x.type_id {
                    Some(t) => t,
                    None => {
                        return Err(Failure::Malformed(Defect::MissingType));
                    },
                };
                Self::typedef_item(ctx, types, name.as_str(), ty)
            },
            t => Err(Failure::Unimplemented(Construct::Declaration(t))),
        }
    }

    /// A lowering of `ast_context` with no items yet and a renamer in its initial
    /// state: one empty scope, and the keywords of the target language reserved.
    pub fn new(ast_context: AstContext) -> (t: Translation)
        ensures
            t.wf(),
            t.items@.len() == 0,
            t.ast_context == ast_context,
            t.names() == initial(),
    {
        Translation {
            items: Vec::new(),
            type_converter: TypeConverter::new(),
            ast_context,
            renamer: Renamer::new(keywords()),
        }
    }

    /// Adds the struct `name` with the given fields, each a name and the id of its C
    /// type: see [`lower_struct`].
    pub fn add_struct(&mut self, name: &str, fields: &[(&str, u64)]) -> (r: Result<(), Failure>)
        ensures
            final(self).ast_context == old(self).ast_context,
            final(self).renamer == old(self).renamer,
            item_added(
                old(self).items@,
                final(self).items@,
                r,
                lower_struct(old(self).ast_context, name@, params_of(fields@)),
            ),
    {
        let item = Self::struct_item(&self.ast_context, &self.type_converter, name, fields)?;
        self.items.push(item);
        assert(self.items@.drop_last() =~= old(self).items@);
        Ok(())
    }

    /// Adds the alias `name` for the C type `typeid`: see [`lower_typedef`].
    pub fn add_typedef(&mut self, name: &str, typeid: u64) -> (r: Result<(), Failure>)
        ensures
            final(self).ast_context == old(self).ast_context,
            final(self).renamer == old(self).renamer,
            item_added(
                old(self).items@,
                final(self).items@,
                r,
                lower_typedef(old(self).ast_context, name@, typeid),
            ),
    {
        let item = Self::typedef_item(&self.ast_context, &self.type_converter, name, typeid)?;
        self.items.push(item);
        assert(self.items@.drop_last() =~= old(self).items@);
        Ok(())
    }

    /// Adds the function `name` with the given parameters, each a name and the id of
    /// its C type, the C type `return_type` and the body at `body`: see
    /// [`lower_function`]. The scope of the parameters is closed again however the
    /// lowering ends.
    pub fn add_function(
        &mut self,
        name: &str,
        arguments: &[(&str, u64)],
        return_type: u64,
        body: u64,
    ) -> (r: Result<(), Failure>)
        requires
            old(self).wf(),
        ensures
            final(self).wf(),
            final(self).ast_context == old(self).ast_context,
            final(self).names().scopes.len() == old(self).names().scopes.len(),
            final(self).names() == lower_function(
                old(self).ast_context,
                old(self).names(),
                name@,
                params_of(arguments@),
                return_type,
                body,
            ).state,
            item_added(
                old(self).items@,
                final(self).items@,
                r,
                lower_function(
                    old(self).ast_context,
                    old(self).names(),
                    name@,
                    params_of(arguments@),
                    return_type,
                    body,
                ).result,
            ),
    {
        let item = Self::function_item(
            &self.ast_context,
            &self.type_converter,
            &mut self.renamer,
            name,
            arguments,
            return_type,
            body,
        )?;
        self.items.push(item);
        assert(self.items@.drop_last() =~= old(self).items@);
        Ok(())
    }

    /// What the unary operator spelled `name` becomes, applied to `arg` in an
    /// expression of target type `ty`. The renamer and the items stay as they are.
    pub fn convert_unary_operator(&mut self, name: &str, ctype: &TypeNode, ty: Ty, arg: Expr) -> (r:
        Result<WithStmts<Expr>, Failure>)
        ensures
            *final(self) == *old(self),
            match r {
                Ok(w) => unary_spec(name@, ty@, arg@) == Ok::<Sequenced<ExprV>, FailureV>(w.deep()),
                Err(f) => unary_spec(name@, ty@, arg@) == Err::<Sequenced<ExprV>, FailureV>(f@),
            },
    {
        Self::unary_named(name, ty, arg)
    }

    /// What the binary operator spelled `name` becomes, applied to `lhs` and `rhs`,
    /// whose C types are `lhs_type` and `rhs_type`, in an expression of C type `ctype`.
    /// An assignment takes a name for its temporary from the renamer; nothing else
    /// changes.
    pub fn convert_binary_operator(
        &mut self,
        name: &str,
        ty: Ty,
        ctype: &TypeNode,
        lhs_type: &TypeNode,
        rhs_type: &TypeNode,
        lhs: Expr,
        rhs: Expr,
    ) -> (r: Result<WithStmts<Expr>, Failure>)
        requires
            old(self).wf(),
        ensures
            final(self).wf(),
            final(self).items == old(self).items,
            final(self).ast_context == old(self).ast_context,
            final(self).names().scopes == old(self).names().scopes,
            expr_outcome(
                r,
                final(self).names(),
                binary_spec(
                    old(self).ast_context,
                    old(self).names(),
                    name@,
                    *ctype,
                    *lhs_type,
                    *rhs_type,
                    lhs@,
                    rhs@,
                ),
            ),
    {
        Self::binary_named(
            &self.ast_context,
            &mut self.renamer,
            name,
            ctype,
            lhs_type,
            rhs_type,
            lhs,
            rhs,
        )
    }
}

/// The items for the translation unit `ast_context`, in the order of its top-level
/// declarations: see [`translated`].
pub fn translate(ast_context: AstContext) -> (r: Result<Vec<Item>, Failure>)
    ensures
        items_result(r, translated(ast_context)),
{
    let mut t = Translation::new(ast_context);
    let n = t.ast_context.top_nodes.len();
    let mut i: usize = 0;
    while i < n
        invariant
            0 <= i <= n,
            n == t.ast_context.top_nodes@.len(),
            t.ast_context == ast_context,
            t.renamer.wf(),
            t.items@.len() == 0,
            declare_tops(ast_context, initial(), ast_context.top_nodes@, 0) == declare_tops(
                ast_context,
                t.renamer@,
                ast_context.top_nodes@,
                i as nat,
            ),
        decreases n - i,
    {
        let top_id = t.ast_context.top_nodes[i];
        let x = t.ast_context.get_node(top_id)?;
        match x.get_decl_name() {
            Some(y) => {
                if is_c_identifier_str(y.as_str()) {
                    let _ = t.renamer.insert(y.clone(), hint_for(y.as_str()));
                }
            },
            None => {},
        }
        i = i + 1;
    }
    let ghost declared = t.renamer@;
    assert(declare_tops(ast_context, initial(), ast_context.top_nodes@, 0) == Ok::<
        RenamerV, FailureV,
    >(declared));
    let mut items: Vec<Item> = Vec::new();
    let mut j: usize = 0;
    proof {
        assert(items_view(items@) =~= Seq::empty());
    }
    while j < n
        invariant
            0 <= j <= n,
            n == t.ast_context.top_nodes@.len(),
            t.ast_context == ast_context,
            t.renamer.wf(),
            declare_tops(ast_context, initial(), ast_context.top_nodes@, 0) == Ok::<
                RenamerV, FailureV,
            >(declared),
            lower_tops(ast_context, declared, ast_context.top_nodes@, 0, Seq::empty())
                == lower_tops(
                ast_context,
                t.renamer@,
                ast_context.top_nodes@,
                j as nat,
                items_view(items@),
            ),
        decreases n - j,
    {
        let top_id = t.ast_context.top_nodes[j];
        let item = Translation::top_item(
            &t.ast_context,
            &t.type_converter,
            &mut t.renamer,
            top_id,
        )?;
        assert(items_view(items@.push(item)) =~= items_view(items@).push(item@));
        items.push(item);
        j = j + 1;
    }
    Ok(items)
}

} // verus!
