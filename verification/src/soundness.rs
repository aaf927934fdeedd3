//! What holds of every lowering, proved from the definitions in `lowering` by
//! induction on the budget: the scopes are left as they were found, every name in the
//! result was given out by the renamer, and the value of an expression mentions only
//! names that are in scope behind its prefix.

use crate::clang::{AstContext, AstNode, Tag, TypeNode};
use crate::clang::text_at;
use crate::lowering::{
    declare_top, declare_tops, function_parts, initial, lower_top, lower_tops, translated,
};
use crate::lowering::{
    binary_parts, binding, close_block, declared, declared_as, finish_call, if_parts, if_stmt,
    lower_args, lower_binary_node, lower_body, lower_decl, lower_decls, lower_expr,
    lower_expr_node, lower_function, lower_if, lower_items, lower_member, lower_params,
    lower_return, lower_stmt, lower_unary_node, lower_while, node_types, operand_types,
    return_part, return_stmt, while_parts, while_stmt,
};
use crate::mentions::{
    binds, expr_mentions, exprs_mention, function_mentions, grows, item_mentions,
    lemma_block_expr_mentions, lemma_block_mentions, lemma_call_mentions,
    lemma_collapse_mentions, lemma_concat_mentions, lemma_grows, lemma_if_mentions,
    lemma_lookup_issued, lemma_method_call_mentions, lemma_push_exprs_mention,
    lemma_push_mentions, lemma_while_mentions, stmt_mentions, stmts_mention,
};
use crate::names::{
    hint_of, is_c_identifier, is_identifier, lemma_hint_identifier, reserved_words,
};
use crate::renamer::{lemma_bind_wf, lemma_steps_wf};
use crate::target::{ItemV, ParamV, StmtV};
use crate::with_stmts::{block_of, collapse};
use crate::operators::{
    as_c_int, binary_spec, borrow_place, comparison, connective, deref_of, lower_arith,
    lower_binary, method, native, parse_binary, store_through, unary_spec, Arith,
    BinaryOperator, Outcome,
};
use crate::renamer::{
    fresh_hint, lemma_choice_free, lemma_choice_identifier, lemma_issue_wf, RenamerV,
};
use crate::target::{ExprV, TyV};
use crate::with_stmts::Sequenced;
use vstd::prelude::*;

verus! {

/// Whether every one of `names` is an identifier of the target language.
pub open spec fn all_identifiers(names: Seq<Seq<char>>) -> bool {
    forall|i: int| 0 <= i < names.len() ==> is_identifier(#[trigger] names[i])
}

/// What lowering an expression leaves of the renamer: it stays well formed, its
/// scopes and reserved words are untouched, the names given out so far stay, with new
/// ones behind them, and where those were identifiers the new ones are too.
pub open spec fn state_kept(before: RenamerV, after: RenamerV) -> bool {
    &&& after.wf()
    &&& after.scopes == before.scopes
    &&& after.reserved == before.reserved
    &&& grows(before.issued, after.issued)
    &&& all_identifiers(before.issued) ==> all_identifiers(after.issued)
}

/// Every name that the prefix or the value mentions was given out by the renamer.
pub open spec fn all_issued(st: RenamerV, w: Sequenced<ExprV>) -> bool {
    forall|n: Seq<char>|
        stmts_mention(w.prefix, n) || expr_mentions(w.value, n) ==> st.issued.contains(n)
}

/// Every name that the value mentions is in scope where the prefix ends: some scope
/// of the renamer holds it, or the prefix binds it.
pub open spec fn in_scope(st: RenamerV, w: Sequenced<ExprV>) -> bool {
    forall|n: Seq<char>| expr_mentions(w.value, n) ==> st.live(n) || binds(w.prefix, n)
}

/// Every name that a statement of the prefix mentions is in scope at that statement:
/// some scope of the renamer holds it, or that statement or one before it binds it.
pub open spec fn prefix_scoped(st: RenamerV, prefix: Seq<StmtV>) -> bool {
    forall|i: int, n: Seq<char>|
        0 <= i < prefix.len() && #[trigger] stmt_mentions(prefix[i], n) ==> st.live(n) || binds(
            prefix.subrange(0, i + 1),
            n,
        )
}

/// What holds of the outcome of lowering an expression in the state `st`.
pub open spec fn expr_sound(st: RenamerV, out: Outcome<Sequenced<ExprV>>) -> bool {
    &&& state_kept(st, out.state)
    &&& out.result is Ok ==> {
        &&& all_issued(out.state, out.result->Ok_0)
        &&& in_scope(out.state, out.result->Ok_0)
        &&& prefix_scoped(out.state, out.result->Ok_0.prefix)
    }
}

/// A prefix in which every name is in scope, followed by statements in which every
/// name is in scope behind that prefix, is a prefix in which every name is in scope.
pub proof fn lemma_scoped_concat(st: RenamerV, a: Seq<StmtV>, b: Seq<StmtV>)
    requires
        prefix_scoped(st, a),
        forall|i: int, n: Seq<char>|
            0 <= i < b.len() && #[trigger] stmt_mentions(b[i], n) ==> st.live(n) || binds(a, n)
                || binds(b.subrange(0, i + 1), n),
    ensures
        prefix_scoped(st, a + b),
{
    let c = a + b;
    assert forall|i: int, n: Seq<char>|
        0 <= i < c.len() && #[trigger] stmt_mentions(c[i], n) implies st.live(n) || binds(
        c.subrange(0, i + 1),
        n,
    ) by {
        if i < a.len() {
            assert(c[i] == a[i]);
            assert(c.subrange(0, i + 1) =~= a.subrange(0, i + 1));
        } else {
            let j = i - a.len();
            assert(c[i] == b[j]);
            assert(c.subrange(0, i + 1) =~= a + b.subrange(0, j + 1));
            lemma_concat_mentions(a, b.subrange(0, j + 1), n);
        }
    }
}

/// As [`all_issued`] and [`in_scope`], of the children of a call.
pub open spec fn args_ok(st: RenamerV, w: Sequenced<Seq<ExprV>>) -> bool {
    &&& forall|n: Seq<char>|
        stmts_mention(w.prefix, n) || exprs_mention(w.value, n) ==> st.issued.contains(n)
    &&& forall|n: Seq<char>| exprs_mention(w.value, n) ==> st.live(n) || binds(w.prefix, n)
    &&& prefix_scoped(st, w.prefix)
}

/// Keeping the state twice is keeping it, and what was given out stays given out.
pub proof fn lemma_kept_twice(a: RenamerV, b: RenamerV, c: RenamerV)
    requires
        state_kept(a, b),
        state_kept(b, c),
    ensures
        state_kept(a, c),
        forall|n: Seq<char>| a.issued.contains(n) ==> b.issued.contains(n),
        forall|n: Seq<char>| b.issued.contains(n) ==> c.issued.contains(n),
        forall|n: Seq<char>| a.live(n) <==> c.live(n),
{
    lemma_grows(a.issued, b.issued, c.issued);
    lemma_grows(b.issued, c.issued, c.issued);
}

/// Giving out a name for a temporary keeps the state, and the name is given out
/// after it.
pub proof fn lemma_fresh_kept(st: RenamerV)
    requires
        st.wf(),
    ensures
        state_kept(st, st.fresh()),
        st.fresh().issued.contains(st.choice(fresh_hint())),
{
    lemma_choice_free(st, fresh_hint());
    lemma_issue_wf(st, st.choice(fresh_hint()));
    assert(st.fresh().issued[st.issued.len() as int] == st.choice(fresh_hint()));
    reveal_strlit("fresh");
    let h = fresh_hint();
    assert(h.len() == 5 && h[0] == 'f' && h[1] == 'r' && h[2] == 'e' && h[3] == 's' && h[4] == 'h');
    lemma_choice_identifier(st, h);
    if all_identifiers(st.issued) {
        assert forall|i: int| 0 <= i < st.fresh().issued.len() implies is_identifier(
            #[trigger] st.fresh().issued[i],
        ) by {
            if i < st.issued.len() {
                assert(st.fresh().issued[i] == st.issued[i]);
            }
        }
    }
}

/// A method call on one argument mentions what its receiver and its argument mention.
pub proof fn lemma_method_mentions(receiver: ExprV, name: Seq<char>, arg: ExprV, n: Seq<char>)
    ensures
        expr_mentions(method(receiver, name, arg), n) <==> expr_mentions(receiver, n)
            || expr_mentions(arg, n),
{
    let args = seq![arg];
    assert(args[0] == arg);
    lemma_method_call_mentions(receiver, name, args, n);
}

/// What an operator that computes a value yields mentions what its operands mention.
pub proof fn lemma_arith_mentions(
    ctx: AstContext,
    op: Arith,
    ctype: TypeNode,
    lhs_type: TypeNode,
    rhs_type: TypeNode,
    lhs: ExprV,
    rhs: ExprV,
    n: Seq<char>,
)
    requires
        lower_arith(ctx, op, ctype, lhs_type, rhs_type, lhs, rhs) is Ok,
    ensures
        expr_mentions(lower_arith(ctx, op, ctype, lhs_type, rhs_type, lhs, rhs)->Ok_0, n)
            <==> expr_mentions(lhs, n) || expr_mentions(rhs, n),
{
    lemma_method_mentions(lhs, "offset"@, rhs, n);
    lemma_method_mentions(rhs, "offset"@, lhs, n);
    lemma_method_mentions(rhs, "offset_to"@, lhs, n);
    lemma_method_mentions(lhs, "offset"@, ExprV::Unary(crate::target::UnOp::Neg, Box::new(rhs)), n);
    lemma_method_mentions(lhs, "wrapping_add"@, rhs, n);
    lemma_method_mentions(lhs, "wrapping_sub"@, rhs, n);
    lemma_method_mentions(lhs, "wrapping_mul"@, rhs, n);
    lemma_method_mentions(lhs, "wrapping_div"@, rhs, n);
    lemma_method_mentions(lhs, "wrapping_rem"@, rhs, n);
}

/// What holds of an operator applied to two lowered operands: the value mentions only
/// what the operands mention and what the prefix binds, and the prefix mentions only
/// what the operands mention and what the renamer has given out.
pub open spec fn operator_sound(
    st: RenamerV,
    lhs: ExprV,
    rhs: ExprV,
    out: Outcome<Sequenced<ExprV>>,
) -> bool {
    &&& state_kept(st, out.state)
    &&& out.result is Ok ==> {
        let w = out.result->Ok_0;
        &&& forall|n: Seq<char>|
            expr_mentions(w.value, n) ==> expr_mentions(lhs, n) || expr_mentions(rhs, n) || binds(
                w.prefix,
                n,
            )
        &&& forall|n: Seq<char>|
            stmts_mention(w.prefix, n) || expr_mentions(w.value, n) ==> expr_mentions(lhs, n)
                || expr_mentions(rhs, n) || out.state.issued.contains(n)
        &&& forall|i: int, n: Seq<char>|
            0 <= i < w.prefix.len() && #[trigger] stmt_mentions(w.prefix[i], n) ==> expr_mentions(
                lhs,
                n,
            ) || expr_mentions(rhs, n) || binds(w.prefix.subrange(0, i + 1), n)
    }
}

/// An assignment through a temporary mentions the temporary, which its prefix binds,
/// and what the place and the stored value mention.
proof fn lemma_through_temporary(p: Seq<char>, lhs: ExprV, value: ExprV, n: Seq<char>)
    ensures
        ({
            let prefix = seq![borrow_place(p, lhs), store_through(p, value)];
            &&& binds(prefix, p)
            &&& expr_mentions(deref_of(p), n) <==> n == p
            &&& stmts_mention(prefix, n) ==> n == p || expr_mentions(lhs, n) || expr_mentions(
                value,
                n,
            )
            &&& forall|i: int|
                0 <= i < prefix.len() ==> binds(#[trigger] prefix.subrange(0, i + 1), p)
            &&& forall|i: int|
                0 <= i < prefix.len() && stmt_mentions(#[trigger] prefix[i], n) ==> n == p
                    || expr_mentions(lhs, n) || expr_mentions(value, n)
        }),
{
    let prefix = seq![borrow_place(p, lhs), store_through(p, value)];
    assert forall|i: int| 0 <= i < prefix.len() implies binds(
        #[trigger] prefix.subrange(0, i + 1),
        p,
    ) by {
        let upto = prefix.subrange(0, i + 1);
        assert(upto[0] == borrow_place(p, lhs));
        assert(upto[0] is Local && upto[0]->Local_0.name == p);
    }
    assert(prefix[0] == borrow_place(p, lhs));
    assert(prefix[1] == store_through(p, value));
    assert(prefix[0] is Local && prefix[0]->Local_0.name == p);
    assert(expr_mentions(ExprV::Ident(p), n) <==> n == p);
    assert(expr_mentions(deref_of(p), n) <==> n == p);
    assert(stmt_mentions(borrow_place(p, lhs), n) <==> n == p || expr_mentions(lhs, n));
    let assign = ExprV::Assign(Box::new(deref_of(p)), Box::new(value));
    assert(expr_mentions(assign, n) <==> n == p || expr_mentions(value, n));
    assert(stmt_mentions(store_through(p, value), n) <==> n == p || expr_mentions(value, n));
    if stmts_mention(prefix, n) {
        let i = choose|i: int| 0 <= i < prefix.len() && stmt_mentions(#[trigger] prefix[i], n);
        assert(i == 0 || i == 1);
    }
}

/// Every binary operator is sound in the sense of [`operator_sound`].
pub proof fn lemma_binary_sound(
    ctx: AstContext,
    st: RenamerV,
    op: BinaryOperator,
    ctype: TypeNode,
    lhs_type: TypeNode,
    rhs_type: TypeNode,
    lhs: ExprV,
    rhs: ExprV,
)
    requires
        st.wf(),
    ensures
        operator_sound(
            st,
            lhs,
            rhs,
            lower_binary(ctx, st, op, ctype, lhs_type, rhs_type, lhs, rhs),
        ),
{
    let out = lower_binary(ctx, st, op, ctype, lhs_type, rhs_type, lhs, rhs);
    lemma_fresh_kept(st);
    let p = st.choice(fresh_hint());
    if out.result is Ok {
        let w = out.result->Ok_0;
        assert forall|n: Seq<char>|
            (expr_mentions(w.value, n) ==> expr_mentions(lhs, n) || expr_mentions(rhs, n) || binds(
                w.prefix,
                n,
            )) && (stmts_mention(w.prefix, n) || expr_mentions(w.value, n) ==> expr_mentions(lhs, n)
                || expr_mentions(rhs, n) || out.state.issued.contains(n)) && (forall|i: int|
                0 <= i < w.prefix.len() && stmt_mentions(#[trigger] w.prefix[i], n)
                    ==> expr_mentions(lhs, n) || expr_mentions(rhs, n) || binds(
                    w.prefix.subrange(0, i + 1),
                    n,
                )) by {
            match op {
                BinaryOperator::Arith(a) => {
                    lemma_arith_mentions(ctx, a, ctype, lhs_type, rhs_type, lhs, rhs, n);
                    assert(w.prefix.len() == 0);
                },
                BinaryOperator::Relational(r) => {
                    let inner = native(comparison(r), lhs, rhs);
                    assert(expr_mentions(inner, n) <==> expr_mentions(lhs, n) || expr_mentions(
                        rhs,
                        n,
                    ));
                    assert(expr_mentions(as_c_int(inner), n) <==> expr_mentions(inner, n));
                    assert(w.prefix.len() == 0);
                },
                BinaryOperator::Logical(l) => {
                    let inner = native(connective(l), lhs, rhs);
                    assert(expr_mentions(inner, n) <==> expr_mentions(lhs, n) || expr_mentions(
                        rhs,
                        n,
                    ));
                    assert(w.prefix.len() == 0);
                },
                BinaryOperator::Assign => {
                    lemma_through_temporary(p, lhs, rhs, n);
                },
                BinaryOperator::Compound(a) => {
                    let v = lower_arith(ctx, a, ctype, lhs_type, rhs_type, deref_of(p), rhs)->Ok_0;
                    lemma_arith_mentions(ctx, a, ctype, lhs_type, rhs_type, deref_of(p), rhs, n);
                    lemma_through_temporary(p, lhs, v, n);
                },
            }
        }
    }
}

/// The operator with any spelling is sound in the sense of [`operator_sound`].
pub proof fn lemma_binary_spec_sound(
    ctx: AstContext,
    st: RenamerV,
    name: Seq<char>,
    ctype: TypeNode,
    lhs_type: TypeNode,
    rhs_type: TypeNode,
    lhs: ExprV,
    rhs: ExprV,
)
    requires
        st.wf(),
    ensures
        operator_sound(
            st,
            lhs,
            rhs,
            binary_spec(ctx, st, name, ctype, lhs_type, rhs_type, lhs, rhs),
        ),
{
    match parse_binary(name) {
        Some(op) => lemma_binary_sound(ctx, st, op, ctype, lhs_type, rhs_type, lhs, rhs),
        None => {},
    }
}

/// Lowering the expression at `id` keeps the renamer's scopes; every name in the
/// result was given out by the renamer; the value mentions only names that are in
/// scope where the prefix ends; and every statement of the prefix mentions only names
/// that are in scope at that statement.
pub proof fn lemma_expr_sound(ctx: AstContext, st: RenamerV, id: u64, fuel: nat)
    requires
        st.wf(),
    ensures
        expr_sound(st, lower_expr(ctx, st, id, fuel)),
    decreases fuel, 3nat,
{
    match ctx.node_at(id) {
        Err(_) => {},
        Ok(node) => lemma_expr_node_sound(ctx, st, node, fuel),
    }
}

/// As [`lemma_expr_sound`], of the expression that a node stands for.
pub proof fn lemma_expr_node_sound(ctx: AstContext, st: RenamerV, node: AstNode, fuel: nat)
    requires
        st.wf(),
    ensures
        expr_sound(st, lower_expr_node(ctx, st, node, fuel)),
    decreases fuel, 2nat,
{
    if fuel != 0 {
        let rest = (fuel - 1) as nat;
        match node.tag {
            Tag::DeclRefExpr => {
                let out = lower_expr_node(ctx, st, node, fuel);
                if out.result is Ok {
                    let c_name = ctx.node_at(node.child_at(0)->Some_0)->Ok_0.decl_name()->Some_0;
                    lemma_lookup_issued(st, c_name);
                }
            },
            Tag::IntegerLiteral => {},
            Tag::CharacterLiteral => {},
            Tag::FloatingLiteral => {},
            Tag::ImplicitCastExpr => match node.child_at(0) {
                None => {},
                Some(c) => lemma_expr_sound(ctx, st, c, rest),
            },
            Tag::UnaryOperator => lemma_unary_node_sound(ctx, st, node, rest),
            Tag::BinaryOperator => lemma_binary_node_sound(ctx, st, node, rest),
            Tag::CallExpr => {
                let start = Sequenced::<Seq<ExprV>>::unit(Seq::empty());
                lemma_args_sound(ctx, st, node.children@, 0, start, rest);
                let args = lower_args(ctx, st, node.children@, 0, start, rest);
                let out = finish_call(args);
                if out.result is Ok {
                    let w = args.result->Ok_0;
                    let rest_args = w.value.subrange(1, w.value.len() as int);
                    assert forall|n: Seq<char>|
                        expr_mentions(out.result->Ok_0.value, n) implies exprs_mention(
                        w.value,
                        n,
                    ) by {
                        lemma_call_mentions(w.value[0], rest_args, n);
                        if expr_mentions(w.value[0], n) {
                        } else {
                            let i = choose|i: int|
                                0 <= i < rest_args.len() && expr_mentions(
                                    #[trigger] rest_args[i],
                                    n,
                                );
                            assert(w.value[i + 1] == rest_args[i]);
                        }
                    }
                }
            },
            Tag::MemberExpr => lemma_member_sound(ctx, st, node, rest),
            _ => {},
        }
    }
}

/// As [`lemma_expr_sound`], of a unary operator node.
pub proof fn lemma_unary_node_sound(ctx: AstContext, st: RenamerV, node: AstNode, rest: nat)
    requires
        st.wf(),
    ensures
        expr_sound(st, lower_unary_node(ctx, st, node, rest)),
    decreases rest, 5nat,
{
    let out = lower_unary_node(ctx, st, node, rest);
    match node.child_at(0) {
        None => {},
        Some(c) => {
            lemma_expr_sound(ctx, st, c, rest);
            let arg = lower_expr(ctx, st, c, rest);
            if out.result is Ok {
                let a = arg.result->Ok_0;
                let w = out.result->Ok_0;
                assert(w.prefix =~= a.prefix);
                let borrowed = ExprV::AddrOfMut(Box::new(a.value));
                let cast = ExprV::Cast(Box::new(borrowed), node_types(ctx, node)->Ok_0.1);
                let place = ExprV::Unary(crate::target::UnOp::Deref, Box::new(a.value));
                assert(w.value == cast || w.value == place);
                assert forall|n: Seq<char>| expr_mentions(w.value, n) implies expr_mentions(
                    a.value,
                    n,
                ) by {
                    assert(expr_mentions(cast, n) == expr_mentions(borrowed, n));
                    assert(expr_mentions(borrowed, n) == expr_mentions(a.value, n));
                    assert(expr_mentions(place, n) == expr_mentions(a.value, n));
                }
            }
        },
    }
}

/// As [`lemma_expr_sound`], of a binary operator node.
pub proof fn lemma_binary_node_sound(ctx: AstContext, st: RenamerV, node: AstNode, rest: nat)
    requires
        st.wf(),
    ensures
        expr_sound(st, lower_binary_node(ctx, st, node, rest)),
    decreases rest, 5nat,
{
    let out = lower_binary_node(ctx, st, node, rest);
    match binary_parts(node) {
        Err(_) => {},
        Ok(parts) => {
            lemma_expr_sound(ctx, st, parts.lhs, rest);
            let lo = lower_expr(ctx, st, parts.lhs, rest);
            if lo.result is Ok {
                let l = lo.result->Ok_0;
                lemma_expr_sound(ctx, lo.state, parts.rhs, rest);
                let ro = lower_expr(ctx, lo.state, parts.rhs, rest);
                lemma_kept_twice(st, lo.state, ro.state);
                if ro.result is Ok {
                    let r = ro.result->Ok_0;
                    match operand_types(ctx, node, parts) {
                        Err(_) => {},
                        Ok(types) => {
                            lemma_binary_spec_sound(
                                ctx,
                                ro.state,
                                parts.name,
                                types.0,
                                types.1,
                                types.2,
                                l.value,
                                r.value,
                            );
                            let bin = binary_spec(
                                ctx,
                                ro.state,
                                parts.name,
                                types.0,
                                types.1,
                                types.2,
                                l.value,
                                r.value,
                            );
                            lemma_kept_twice(st, ro.state, bin.state);
                            lemma_kept_twice(lo.state, ro.state, bin.state);
                            if bin.result is Ok {
                                let b = bin.result->Ok_0;
                                let w = out.result->Ok_0;
                                assert(w.prefix == (l.prefix + r.prefix) + b.prefix);
                                assert(w.value == b.value);
                                assert forall|n: Seq<char>|
                                    (stmts_mention(w.prefix, n) || expr_mentions(w.value, n)
                                        ==> bin.state.issued.contains(n)) && (expr_mentions(
                                        w.value,
                                        n,
                                    ) ==> bin.state.live(n) || binds(w.prefix, n)) by {
                                    lemma_concat_mentions(l.prefix, r.prefix, n);
                                    lemma_concat_mentions(l.prefix + r.prefix, b.prefix, n);
                                }
                                assert(prefix_scoped(bin.state, l.prefix));
                                assert(prefix_scoped(bin.state, r.prefix));
                                lemma_scoped_concat(bin.state, l.prefix, r.prefix);
                                assert forall|i: int, n: Seq<char>|
                                    0 <= i < b.prefix.len() && #[trigger] stmt_mentions(
                                        b.prefix[i],
                                        n,
                                    ) implies bin.state.live(n) || binds(l.prefix + r.prefix, n)
                                    || binds(b.prefix.subrange(0, i + 1), n) by {
                                    lemma_concat_mentions(l.prefix, r.prefix, n);
                                }
                                lemma_scoped_concat(bin.state, l.prefix + r.prefix, b.prefix);
                            }
                        },
                    }
                }
            }
        },
    }
}

/// As [`lemma_expr_sound`], of the children of a call from position `from` on, given
/// that it holds of those before.
pub proof fn lemma_args_sound(
    ctx: AstContext,
    st: RenamerV,
    children: Seq<Option<u64>>,
    from: nat,
    acc: Sequenced<Seq<ExprV>>,
    fuel: nat,
)
    requires
        st.wf(),
        args_ok(st, acc),
    ensures
        ({
            let out = lower_args(ctx, st, children, from, acc, fuel);
            &&& state_kept(st, out.state)
            &&& out.result is Ok ==> args_ok(out.state, out.result->Ok_0)
        }),
    decreases fuel, 10 + children.len() - from,
{
    if from < children.len() {
        match children[from as int] {
            None => {},
            Some(c) => {
                lemma_expr_sound(ctx, st, c, fuel);
                let one = lower_expr(ctx, st, c, fuel);
                lemma_kept_twice(st, st, one.state);
                if one.result is Ok {
                    let w = one.result->Ok_0;
                    let next = Sequenced {
                        prefix: acc.prefix + w.prefix,
                        value: acc.value.push(w.value),
                    };
                    assert forall|n: Seq<char>|
                        (stmts_mention(next.prefix, n) || exprs_mention(next.value, n)
                            ==> one.state.issued.contains(n)) && (exprs_mention(next.value, n)
                            ==> one.state.live(n) || binds(next.prefix, n)) by {
                        lemma_concat_mentions(acc.prefix, w.prefix, n);
                        lemma_push_exprs_mention(acc.value, w.value, n);
                    }
                    assert(prefix_scoped(one.state, acc.prefix));
                    lemma_scoped_concat(one.state, acc.prefix, w.prefix);
                    lemma_args_sound(ctx, one.state, children, from + 1, next, fuel);
                    let out = lower_args(ctx, one.state, children, from + 1, next, fuel);
                    lemma_kept_twice(st, one.state, out.state);
                }
            },
        }
    }
}

/// As [`lemma_expr_sound`], of a member expression.
pub proof fn lemma_member_sound(ctx: AstContext, st: RenamerV, node: AstNode, rest: nat)
    requires
        st.wf(),
    ensures
        expr_sound(st, lower_member(ctx, st, node, rest)),
    decreases rest, 5nat,
{
    match node.child_at(0) {
        None => {},
        Some(b) => lemma_expr_sound(ctx, st, b, rest),
    }
}

/// What lowering a statement leaves of the renamer: it stays well formed, as many
/// scopes are open as before, all but the innermost are untouched, the reserved words
/// are untouched, and the names given out so far stay, with new ones behind them.
pub open spec fn block_kept(before: RenamerV, after: RenamerV) -> bool {
    &&& after.wf()
    &&& after.scopes.len() == before.scopes.len()
    &&& after.scopes.drop_last() == before.scopes.drop_last()
    &&& after.reserved == before.reserved
    &&& grows(before.issued, after.issued)
    &&& all_identifiers(before.issued) ==> all_identifiers(after.issued)
}

/// Every name that the statements mention was given out by the renamer.
pub open spec fn stmts_issued(st: RenamerV, stmts: Seq<StmtV>) -> bool {
    forall|n: Seq<char>| stmts_mention(stmts, n) ==> st.issued.contains(n)
}

/// What holds of the outcome of lowering statements in the state `st`.
pub open spec fn stmts_sound(st: RenamerV, out: Outcome<Seq<StmtV>>) -> bool {
    &&& block_kept(st, out.state)
    &&& out.result is Ok ==> stmts_issued(out.state, out.result->Ok_0)
}

/// Keeping the state of a block twice is keeping it, and what was given out stays
/// given out.
pub proof fn lemma_block_kept_twice(a: RenamerV, b: RenamerV, c: RenamerV)
    requires
        block_kept(a, b),
        block_kept(b, c),
    ensures
        block_kept(a, c),
        forall|n: Seq<char>| a.issued.contains(n) ==> b.issued.contains(n),
        forall|n: Seq<char>| b.issued.contains(n) ==> c.issued.contains(n),
{
    lemma_grows(a.issued, b.issued, c.issued);
    lemma_grows(b.issued, c.issued, c.issued);
}

/// What keeps the state of an expression keeps that of a block.
pub proof fn lemma_kept_is_block_kept(a: RenamerV, b: RenamerV)
    requires
        state_kept(a, b),
    ensures
        block_kept(a, b),
{
}

/// Binding a new name in the innermost scope keeps the state of a block, and the name
/// is given out after it.
pub proof fn lemma_insert_kept(st: RenamerV, c_name: Seq<char>, hint: Seq<char>)
    requires
        st.wf(),
        is_identifier(hint),
    ensures
        block_kept(st, st.insert(c_name, hint)),
        st.insert(c_name, hint).issued.contains(st.choice(hint)),
        st.insert(c_name, hint).scopes.last().contains_key(c_name),
        st.insert(c_name, hint).scopes.last()[c_name] == st.choice(hint),
{
    lemma_choice_free(st, hint);
    lemma_bind_wf(st, c_name, st.choice(hint));
    let after = st.insert(c_name, hint);
    assert(after.scopes.drop_last() =~= st.scopes.drop_last());
    assert(after.issued[st.issued.len() as int] == st.choice(hint));
    lemma_choice_identifier(st, hint);
    if all_identifiers(st.issued) {
        assert forall|i: int| 0 <= i < after.issued.len() implies is_identifier(
            #[trigger] after.issued[i],
        ) by {
            if i < st.issued.len() {
                assert(after.issued[i] == st.issued[i]);
            }
        }
    }
}

/// A scope that is opened, used for statements and dropped leaves the scopes as they
/// were before it was opened.
pub proof fn lemma_scope_closed(st: RenamerV, inner: RenamerV)
    requires
        st.wf(),
        block_kept(st.add_scope(), inner),
    ensures
        state_kept(st, inner.drop_scope()),
        inner.drop_scope().issued == inner.issued,
{
    lemma_steps_wf(inner, Seq::empty(), Seq::empty());
    assert(st.add_scope().scopes.drop_last() =~= st.scopes);
    lemma_grows(st.issued, st.issued, inner.issued);
}

/// Lowering the statement at `id` leaves as many scopes open as it found and does not
/// touch the outer ones, and every name in the result was given out by the renamer.
pub proof fn lemma_stmt_sound(ctx: AstContext, st: RenamerV, id: u64, fuel: nat)
    requires
        st.wf(),
    ensures
        stmts_sound(st, lower_stmt(ctx, st, id, fuel)),
    decreases fuel, 4nat,
{
    if fuel != 0 {
        let rest = (fuel - 1) as nat;
        let out = lower_stmt(ctx, st, id, fuel);
        match ctx.node_at(id) {
            Err(_) => {},
            Ok(node) => match node.tag {
                Tag::DeclStmt => {
                    lemma_decls_sound(ctx, st, node.children@, 0, Seq::empty(), rest);
                },
                Tag::ReturnStmt => match return_part(node) {
                    Err(_) => {},
                    Ok(value) => lemma_return_sound(ctx, st, value, rest),
                },
                Tag::IfStmt => match if_parts(node) {
                    Err(_) => {},
                    Ok(parts) => lemma_if_sound(ctx, st, parts.0, parts.1, parts.2, rest),
                },
                Tag::WhileStmt => match while_parts(node) {
                    Err(_) => {},
                    Ok(parts) => lemma_while_sound(ctx, st, parts.0, parts.1, rest),
                },
                Tag::NullStmt => {},
                Tag::CompoundStmt => {
                    lemma_steps_wf(st, Seq::empty(), Seq::empty());
                    lemma_items_sound(ctx, st.add_scope(), node.children@, 0, Seq::empty(), rest);
                    let items = lower_items(
                        ctx,
                        st.add_scope(),
                        node.children@,
                        0,
                        Seq::empty(),
                        rest,
                    );
                    lemma_scope_closed(st, items.state);
                    assert(out == close_block(items));
                    if items.result is Ok {
                        let inner = items.result->Ok_0;
                        let one = seq![StmtV::Expr(ExprV::Block(block_of(inner)))];
                        assert forall|n: Seq<char>| stmts_mention(one, n) implies stmts_mention(
                            inner,
                            n,
                        ) by {
                            let i = choose|i: int|
                                0 <= i < one.len() && stmt_mentions(#[trigger] one[i], n);
                            assert(one[i] == StmtV::Expr(ExprV::Block(block_of(inner))));
                            lemma_block_expr_mentions(block_of(inner), n);
                            lemma_block_mentions(inner, n);
                        }
                    }
                },
                _ => {
                    lemma_expr_node_sound(ctx, st, node, fuel);
                    let e = lower_expr_node(ctx, st, node, fuel);
                    if e.result is Ok {
                        let w = e.result->Ok_0;
                        assert forall|n: Seq<char>|
                            stmts_mention(
                                w.prefix.push(StmtV::Expr(w.value)),
                                n,
                            ) implies e.state.issued.contains(n) by {
                            lemma_push_mentions(w.prefix, StmtV::Expr(w.value), n);
                        }
                    }
                },
            },
        }
    }
}

/// As [`lemma_stmt_sound`], of the statements among `children` from position `from`
/// on, given that it holds of those before.
pub proof fn lemma_items_sound(
    ctx: AstContext,
    st: RenamerV,
    children: Seq<Option<u64>>,
    from: nat,
    acc: Seq<StmtV>,
    fuel: nat,
)
    requires
        st.wf(),
        stmts_issued(st, acc),
    ensures
        stmts_sound(st, lower_items(ctx, st, children, from, acc, fuel)),
    decreases fuel, 10 + children.len() - from,
{
    if from < children.len() {
        match children[from as int] {
            None => lemma_items_sound(ctx, st, children, from + 1, acc, fuel),
            Some(c) => {
                lemma_stmt_sound(ctx, st, c, fuel);
                let one = lower_stmt(ctx, st, c, fuel);
                lemma_block_kept_twice(st, st, one.state);
                if one.result is Ok {
                    let s = one.result->Ok_0;
                    assert forall|n: Seq<char>|
                        stmts_mention(acc + s, n) implies one.state.issued.contains(n) by {
                        lemma_concat_mentions(acc, s, n);
                    }
                    lemma_items_sound(ctx, one.state, children, from + 1, acc + s, fuel);
                    let out = lower_items(ctx, one.state, children, from + 1, acc + s, fuel);
                    lemma_block_kept_twice(st, one.state, out.state);
                }
            },
        }
    }
}

/// As [`lemma_stmt_sound`], of the declarations among `children` from position `from`
/// on, given that it holds of those before.
pub proof fn lemma_decls_sound(
    ctx: AstContext,
    st: RenamerV,
    children: Seq<Option<u64>>,
    from: nat,
    acc: Seq<StmtV>,
    fuel: nat,
)
    requires
        st.wf(),
        stmts_issued(st, acc),
    ensures
        stmts_sound(st, lower_decls(ctx, st, children, from, acc, fuel)),
    decreases fuel, 10 + children.len() - from,
{
    if from < children.len() {
        match children[from as int] {
            None => {},
            Some(c) => {
                lemma_decl_sound(ctx, st, c, fuel);
                let one = lower_decl(ctx, st, c, fuel);
                lemma_block_kept_twice(st, st, one.state);
                if one.result is Ok {
                    let s = one.result->Ok_0;
                    assert forall|n: Seq<char>|
                        stmts_mention(acc + s, n) implies one.state.issued.contains(n) by {
                        lemma_concat_mentions(acc, s, n);
                    }
                    lemma_decls_sound(ctx, one.state, children, from + 1, acc + s, fuel);
                    let out = lower_decls(ctx, one.state, children, from + 1, acc + s, fuel);
                    lemma_block_kept_twice(st, one.state, out.state);
                }
            },
        }
    }
}

/// As [`lemma_stmt_sound`], of the declaration at `id`.
pub proof fn lemma_decl_sound(ctx: AstContext, st: RenamerV, id: u64, fuel: nat)
    requires
        st.wf(),
    ensures
        stmts_sound(st, lower_decl(ctx, st, id, fuel)),
    decreases fuel, 4nat,
{
    if fuel != 0 {
        let rest = (fuel - 1) as nat;
        let out = lower_decl(ctx, st, id, fuel);
        match ctx.node_at(id) {
            Err(_) => {},
            Ok(node) => if node.tag is VarDecl {
                match text_at(node.extras@, 0) {
                    None => {},
                    Some(c_name) => if is_c_identifier(c_name) && !st.bound_here(c_name) {
                        let name = st.choice(hint_of(c_name));
                        let bound = st.insert(c_name, hint_of(c_name));
                        lemma_hint_identifier(c_name);
                        lemma_insert_kept(st, c_name, hint_of(c_name));
                        if node.has_slot(0) {
                            match node.child_at(0) {
                                None => {
                                    if out.result is Ok {
                                        let ty = node_types(ctx, node)->Ok_0.1;
                                        let b = binding(name, ty, None);
                                        let empty = Seq::<StmtV>::empty();
                                        assert(out.result->Ok_0 == empty.push(b));
                                        assert forall|n: Seq<char>|
                                            stmts_mention(
                                                empty.push(b),
                                                n,
                                            ) implies out.state.issued.contains(n) by {
                                            lemma_push_mentions(empty, b, n);
                                        }
                                    }
                                },
                                Some(e) => {
                                    lemma_expr_sound(ctx, bound, e, rest);
                                    let v = lower_expr(ctx, bound, e, rest);
                                    lemma_kept_is_block_kept(bound, v.state);
                                    lemma_block_kept_twice(st, bound, v.state);
                                    if out.result is Ok {
                                        let w = v.result->Ok_0;
                                        let ty = node_types(ctx, node)->Ok_0.1;
                                        let b = binding(name, ty, Some(w.value));
                                        assert(out.result->Ok_0 == w.prefix.push(b));
                                        assert forall|n: Seq<char>|
                                            stmts_mention(
                                                w.prefix.push(b),
                                                n,
                                            ) implies out.state.issued.contains(n) by {
                                            lemma_push_mentions(w.prefix, b, n);
                                        }
                                    }
                                },
                            }
                        }
                    },
                }
            },
        }
    }
}

/// As [`lemma_stmt_sound`], of a return statement.
pub proof fn lemma_return_sound(ctx: AstContext, st: RenamerV, value: Option<u64>, rest: nat)
    requires
        st.wf(),
    ensures
        stmts_sound(st, lower_return(ctx, st, value, rest)),
    decreases rest, 5nat,
{
    let out = lower_return(ctx, st, value, rest);
    match value {
        None => {
            let one = seq![return_stmt(None)];
            assert forall|n: Seq<char>| stmts_mention(one, n) implies st.issued.contains(n) by {
                let i = choose|i: int| 0 <= i < one.len() && stmt_mentions(#[trigger] one[i], n);
                assert(one[i] == return_stmt(None));
            }
        },
        Some(e) => {
            lemma_expr_sound(ctx, st, e, rest);
            let v = lower_expr(ctx, st, e, rest);
            if v.result is Ok {
                let w = v.result->Ok_0;
                let r = return_stmt(Some(w.value));
                assert forall|n: Seq<char>|
                    stmts_mention(w.prefix.push(r), n) implies v.state.issued.contains(n) by {
                    lemma_push_mentions(w.prefix, r, n);
                    assert(stmt_mentions(r, n) == expr_mentions(w.value, n));
                }
            }
        },
    }
}

/// As [`lemma_stmt_sound`], of an `if`.
pub proof fn lemma_if_sound(
    ctx: AstContext,
    st: RenamerV,
    cond: u64,
    then: u64,
    otherwise: Option<u64>,
    rest: nat,
)
    requires
        st.wf(),
    ensures
        stmts_sound(st, lower_if(ctx, st, cond, then, otherwise, rest)),
    decreases rest, 5nat,
{
    let out = lower_if(ctx, st, cond, then, otherwise, rest);
    lemma_expr_sound(ctx, st, cond, rest);
    let c = lower_expr(ctx, st, cond, rest);
    lemma_kept_is_block_kept(st, c.state);
    if c.result is Ok {
        let cv = c.result->Ok_0;
        lemma_stmt_sound(ctx, c.state, then, rest);
        let t = lower_stmt(ctx, c.state, then, rest);
        lemma_block_kept_twice(st, c.state, t.state);
        if t.result is Ok {
            let tv = t.result->Ok_0;
            match otherwise {
                None => {
                    let s = if_stmt(cv.value, tv, None);
                    assert forall|n: Seq<char>|
                        stmts_mention(cv.prefix.push(s), n) implies t.state.issued.contains(n) by {
                        lemma_push_mentions(cv.prefix, s, n);
                        lemma_if_mentions(cv.value, block_of(tv), None, n);
                        if stmts_mention(block_of(tv), n) {
                            lemma_block_mentions(tv, n);
                        }
                    }
                },
                Some(x) => {
                    lemma_stmt_sound(ctx, t.state, x, rest);
                    let e = lower_stmt(ctx, t.state, x, rest);
                    lemma_block_kept_twice(st, t.state, e.state);
                    lemma_block_kept_twice(c.state, t.state, e.state);
                    if e.result is Ok {
                        let ev = e.result->Ok_0;
                        let s = if_stmt(cv.value, tv, Some(ev));
                        let other = ExprV::Block(block_of(ev));
                        assert forall|n: Seq<char>|
                            stmts_mention(
                                cv.prefix.push(s),
                                n,
                            ) implies e.state.issued.contains(n) by {
                            lemma_push_mentions(cv.prefix, s, n);
                            lemma_if_mentions(cv.value, block_of(tv), Some(Box::new(other)), n);
                            lemma_block_expr_mentions(block_of(ev), n);
                            if stmts_mention(block_of(tv), n) {
                                lemma_block_mentions(tv, n);
                            }
                            if stmts_mention(block_of(ev), n) {
                                lemma_block_mentions(ev, n);
                            }
                        }
                    }
                },
            }
        }
    }
}

/// As [`lemma_stmt_sound`], of a `while`.
pub proof fn lemma_while_sound(ctx: AstContext, st: RenamerV, cond: u64, body: u64, rest: nat)
    requires
        st.wf(),
    ensures
        stmts_sound(st, lower_while(ctx, st, cond, body, rest)),
    decreases rest, 5nat,
{
    lemma_expr_sound(ctx, st, cond, rest);
    let c = lower_expr(ctx, st, cond, rest);
    lemma_kept_is_block_kept(st, c.state);
    if c.result is Ok {
        let cv = c.result->Ok_0;
        lemma_stmt_sound(ctx, c.state, body, rest);
        let b = lower_stmt(ctx, c.state, body, rest);
        lemma_block_kept_twice(st, c.state, b.state);
        if b.result is Ok {
            let bv = b.result->Ok_0;
            let s = while_stmt(collapse(cv), bv);
            let one = seq![s];
            assert forall|n: Seq<char>| stmts_mention(one, n) implies b.state.issued.contains(
                n,
            ) by {
                let i = choose|i: int| 0 <= i < one.len() && stmt_mentions(#[trigger] one[i], n);
                assert(one[i] == s);
                lemma_while_mentions(collapse(cv), block_of(bv), n);
                if expr_mentions(collapse(cv), n) {
                    lemma_collapse_mentions(cv, n);
                }
                if stmts_mention(block_of(bv), n) {
                    lemma_block_mentions(bv, n);
                }
            }
        }
    }
}

/// Lowering the body of a function leaves the scopes as it found them, and every name
/// in the block was given out by the renamer.
pub proof fn lemma_body_sound(ctx: AstContext, st: RenamerV, id: u64, fuel: nat)
    requires
        st.wf(),
    ensures
        state_kept(st, lower_body(ctx, st, id, fuel).state),
        lower_body(ctx, st, id, fuel).result is Ok ==> stmts_issued(
            lower_body(ctx, st, id, fuel).state,
            lower_body(ctx, st, id, fuel).result->Ok_0,
        ),
{
    if fuel != 0 {
        match ctx.node_at(id) {
            Err(_) => {},
            Ok(node) => if node.tag is CompoundStmt {
                let rest = (fuel - 1) as nat;
                lemma_steps_wf(st, Seq::empty(), Seq::empty());
                lemma_items_sound(ctx, st.add_scope(), node.children@, 0, Seq::empty(), rest);
                let items = lower_items(ctx, st.add_scope(), node.children@, 0, Seq::empty(), rest);
                lemma_scope_closed(st, items.state);
                let out = lower_body(ctx, st, id, fuel);
                if items.result is Ok {
                    let inner = items.result->Ok_0;
                    assert(out.result->Ok_0 == block_of(inner));
                    assert(out.state == items.state.drop_scope());
                    assert forall|n: Seq<char>|
                        stmts_mention(block_of(inner), n) implies out.state.issued.contains(n) by {
                        lemma_block_mentions(inner, n);
                        assert(items.state.issued.contains(n));
                    }
                }
            },
        }
    }
}

/// Every parameter has a name that the renamer gave out.
pub open spec fn params_issued(st: RenamerV, params: Seq<ParamV>) -> bool {
    forall|i: int| 0 <= i < params.len() ==> st.issued.contains((#[trigger] params[i]).pat.name)
}

/// Lowering parameters binds them in the innermost scope only, and every one of them
/// has a name that the renamer gave out.
pub proof fn lemma_params_sound(
    ctx: AstContext,
    st: RenamerV,
    params: Seq<(Seq<char>, u64)>,
    from: nat,
    acc: Seq<ParamV>,
)
    requires
        st.wf(),
        params_issued(st, acc),
    ensures
        block_kept(st, lower_params(ctx, st, params, from, acc).state),
        lower_params(ctx, st, params, from, acc).result is Ok ==> params_issued(
            lower_params(ctx, st, params, from, acc).state,
            lower_params(ctx, st, params, from, acc).result->Ok_0,
        ),
    decreases params.len() - from,
{
    if from < params.len() {
        let c_name = params[from as int].0;
        if is_c_identifier(c_name) && !st.bound_here(c_name) {
            let bound = st.insert(c_name, hint_of(c_name));
            lemma_hint_identifier(c_name);
                        lemma_insert_kept(st, c_name, hint_of(c_name));
            lemma_block_kept_twice(st, st, bound);
            match crate::convert_type::converted(ctx, params[from as int].1) {
                Err(_) => {},
                Ok(ty) => {
                    let p = ParamV {
                        pat: crate::target::PatV {
                            name: st.choice(hint_of(c_name)),
                            by_ref: false,
                            mutable: false,
                        },
                        ty,
                    };
                    let next = acc.push(p);
                    assert forall|i: int| 0 <= i < next.len() implies bound.issued.contains(
                        (#[trigger] next[i]).pat.name,
                    ) by {
                        if i < acc.len() {
                            assert(next[i] == acc[i]);
                        }
                    }
                    lemma_params_sound(ctx, bound, params, from + 1, next);
                    let out = lower_params(ctx, bound, params, from + 1, next);
                    lemma_block_kept_twice(st, bound, out.state);
                }
            }
        }
    }
}

/// Declaring a name keeps the state of a block, and the name under which it is then
/// known was given out.
pub proof fn lemma_declared(st: RenamerV, c_name: Seq<char>)
    requires
        st.wf(),
    ensures
        block_kept(st, declared(st, c_name)),
        declared(st, c_name).issued.contains(declared_as(st, c_name)),
{
    if st.lookup(c_name) is Some {
        lemma_lookup_issued(st, c_name);
        lemma_block_kept_twice(st, st, st);
    } else {
        lemma_hint_identifier(c_name);
                        lemma_insert_kept(st, c_name, hint_of(c_name));
    }
}

/// Lowering a function closes every scope that it opens, whether it succeeds or
/// fails: the scopes behind it are those of the state in which its name is declared.
/// The renamer stays well formed, so no name was given out twice, and the names given
/// out before stay. On success every name that the item mentions, as the name of the
/// function, as a parameter or in the body, was given out by the renamer.
pub proof fn lemma_function_sound(
    ctx: AstContext,
    st: RenamerV,
    c_name: Seq<char>,
    params: Seq<(Seq<char>, u64)>,
    ret: u64,
    body: u64,
)
    requires
        st.wf(),
    ensures
        ({
            let out = lower_function(ctx, st, c_name, params, ret, body);
            &&& block_kept(st, out.state)
            &&& is_c_identifier(c_name) ==> out.state.scopes == declared(st, c_name).scopes
            &&& !is_c_identifier(c_name) ==> out.state == st
            &&& out.result is Ok ==> forall|n: Seq<char>|
                item_mentions(out.result->Ok_0, n) ==> out.state.issued.contains(n)
        }),
{
    let out = lower_function(ctx, st, c_name, params, ret, body);
    if is_c_identifier(c_name) {
        let name = declared_as(st, c_name);
        let st0 = declared(st, c_name);
        lemma_declared(st, c_name);
        lemma_steps_wf(st0, Seq::empty(), Seq::empty());
        let opened = st0.add_scope();
        lemma_params_sound(ctx, opened, params, 0, Seq::empty());
        let ps = lower_params(ctx, opened, params, 0, Seq::empty());
        lemma_scope_closed(st0, ps.state);
        lemma_kept_is_block_kept(st0, ps.state.drop_scope());
        lemma_block_kept_twice(st, st0, ps.state.drop_scope());
        if ps.result is Ok {
            let p = ps.result->Ok_0;
            match crate::convert_type::converted(ctx, ret) {
                Err(_) => {},
                Ok(r) => {
                    lemma_body_sound(ctx, ps.state, body, ctx.nodes().len());
                    let b = lower_body(ctx, ps.state, body, ctx.nodes().len());
                    lemma_kept_is_block_kept(ps.state, b.state);
                    lemma_block_kept_twice(opened, ps.state, b.state);
                    lemma_scope_closed(st0, b.state);
                    lemma_kept_is_block_kept(st0, b.state.drop_scope());
                    lemma_block_kept_twice(st, st0, b.state.drop_scope());
                    lemma_grows(st0.issued, ps.state.issued, b.state.issued);
                    lemma_grows(ps.state.issued, b.state.issued, b.state.issued);
                    lemma_grows(st0.issued, st0.issued, ps.state.issued);
                    if b.result is Ok {
                        let block = b.result->Ok_0;
                        assert(out.result->Ok_0 == ItemV::Fn(name, p, r, block));
                        assert forall|n: Seq<char>|
                            item_mentions(
                                out.result->Ok_0,
                                n,
                            ) implies out.state.issued.contains(n) by {
                            if name == n {
                            } else if stmts_mention(block, n) {
                            } else {
                                let i = choose|i: int|
                                    0 <= i < p.len() && (#[trigger] p[i]).pat.name == n;
                                assert(ps.state.issued.contains(p[i].pat.name));
                            }
                        }
                    }
                },
            }
        }
    } else {
        lemma_block_kept_twice(st, st, st);
    }
}

/// Lowering a top-level declaration keeps the state of a block, and every name that
/// the item mentions was given out by the renamer.
pub proof fn lemma_top_sound(ctx: AstContext, st: RenamerV, id: u64)
    requires
        st.wf(),
    ensures
        block_kept(st, lower_top(ctx, st, id).state),
        lower_top(ctx, st, id).result is Ok ==> forall|n: Seq<char>|
            item_mentions(lower_top(ctx, st, id).result->Ok_0, n) ==> lower_top(
                ctx,
                st,
                id,
            ).state.issued.contains(n),
{
    lemma_block_kept_twice(st, st, st);
    match ctx.node_at(id) {
        Err(_) => {},
        Ok(node) => match node.tag {
            Tag::FunctionDecl => match function_parts(ctx, node) {
                Err(_) => {},
                Ok(p) => lemma_function_sound(ctx, st, p.name, p.params, p.ret, p.body),
            },
            _ => {},
        },
    }
}

/// Binding the names of the top-level declarations keeps the renamer well formed.
pub proof fn lemma_declare_tops_wf(ctx: AstContext, st: RenamerV, tops: Seq<u64>, from: nat)
    requires
        st.wf(),
    ensures
        declare_tops(ctx, st, tops, from) is Ok ==> declare_tops(ctx, st, tops, from)->Ok_0.wf(),
        declare_tops(ctx, st, tops, from) is Ok && all_identifiers(st.issued) ==> all_identifiers(
            declare_tops(ctx, st, tops, from)->Ok_0.issued,
        ),
    decreases tops.len() - from,
{
    if from < tops.len() {
        match ctx.node_at(tops[from as int]) {
            Err(_) => {},
            Ok(node) => {
                match node.decl_name() {
                    None => {},
                    Some(name) => {
                        lemma_hint_identifier(name);
                        lemma_insert_kept(st, name, hint_of(name));
                    },
                }
                lemma_declare_tops_wf(ctx, declare_top(st, node), tops, from + 1);
            },
        }
    }
}

/// The renamer state behind the top-level declarations from position `from` on: where
/// one fails, the state in which it failed.
pub open spec fn tops_state(ctx: AstContext, st: RenamerV, tops: Seq<u64>, from: nat) -> RenamerV
    decreases tops.len() - from,
{
    if from >= tops.len() {
        st
    } else {
        let one = lower_top(ctx, st, tops[from as int]);
        if one.result is Ok {
            tops_state(ctx, one.state, tops, from + 1)
        } else {
            one.state
        }
    }
}

/// The renamer state at the end of a run on the translation unit `ctx`.
pub open spec fn unit_state(ctx: AstContext) -> RenamerV {
    match declare_tops(ctx, initial(), ctx.top_nodes@, 0) {
        Ok(st) => tops_state(ctx, st, ctx.top_nodes@, 0),
        Err(_) => initial(),
    }
}

/// Every name that one of the items mentions was given out by the renamer.
pub open spec fn items_issued(st: RenamerV, items: Seq<ItemV>) -> bool {
    forall|i: int, n: Seq<char>|
        0 <= i < items.len() && #[trigger] item_mentions(items[i], n) ==> st.issued.contains(n)
}

/// As [`lemma_top_sound`], of the top-level declarations from position `from` on,
/// given that it holds of those before.
pub proof fn lemma_tops_sound(
    ctx: AstContext,
    st: RenamerV,
    tops: Seq<u64>,
    from: nat,
    acc: Seq<ItemV>,
)
    requires
        st.wf(),
        items_issued(st, acc),
    ensures
        tops_state(ctx, st, tops, from).wf(),
        grows(st.issued, tops_state(ctx, st, tops, from).issued),
        all_identifiers(st.issued) ==> all_identifiers(tops_state(ctx, st, tops, from).issued),
        lower_tops(ctx, st, tops, from, acc) is Ok ==> items_issued(
            tops_state(ctx, st, tops, from),
            lower_tops(ctx, st, tops, from, acc)->Ok_0,
        ),
    decreases tops.len() - from,
{
    lemma_grows(st.issued, st.issued, st.issued);
    if from < tops.len() {
        lemma_top_sound(ctx, st, tops[from as int]);
        let one = lower_top(ctx, st, tops[from as int]);
        lemma_block_kept_twice(st, st, one.state);
        if one.result is Ok {
            let next = acc.push(one.result->Ok_0);
            assert forall|i: int, n: Seq<char>|
                0 <= i < next.len() && #[trigger] item_mentions(
                    next[i],
                    n,
                ) implies one.state.issued.contains(n) by {
                if i < acc.len() {
                    assert(next[i] == acc[i]);
                }
            }
            lemma_tops_sound(ctx, one.state, tops, from + 1, next);
            lemma_grows(
                st.issued,
                one.state.issued,
                tops_state(ctx, one.state, tops, from + 1).issued,
            );
        }
    }
}

/// Binding the names of the top-level declarations leaves the reserved words as they
/// were.
pub proof fn lemma_declare_tops_reserved(
    ctx: AstContext,
    st: RenamerV,
    tops: Seq<u64>,
    from: nat,
)
    ensures
        declare_tops(ctx, st, tops, from) is Ok ==> declare_tops(
            ctx,
            st,
            tops,
            from,
        )->Ok_0.reserved == st.reserved,
    decreases tops.len() - from,
{
    if from < tops.len() {
        match ctx.node_at(tops[from as int]) {
            Err(_) => {},
            Ok(node) => lemma_declare_tops_reserved(ctx, declare_top(st, node), tops, from + 1),
        }
    }
}

/// Lowering the top-level declarations leaves the reserved words as they were.
pub proof fn lemma_tops_reserved(ctx: AstContext, st: RenamerV, tops: Seq<u64>, from: nat)
    requires
        st.wf(),
    ensures
        tops_state(ctx, st, tops, from).reserved == st.reserved,
    decreases tops.len() - from,
{
    if from < tops.len() {
        lemma_top_sound(ctx, st, tops[from as int]);
        let one = lower_top(ctx, st, tops[from as int]);
        if one.result is Ok {
            lemma_tops_reserved(ctx, one.state, tops, from + 1);
        }
    }
}

/// At the end of a run the renamer is well formed, so all the names that it gave out
/// are pairwise distinct and none is a keyword of the target language; every one of
/// them is an identifier of the target language; and every name that an emitted
/// function mentions, as its own name, as a parameter, as a local or as a value, is
/// one of them.
pub proof fn lemma_unit_sound(ctx: AstContext)
    ensures
        unit_state(ctx).wf(),
        unit_state(ctx).issued.no_duplicates(),
        unit_state(ctx).reserved == reserved_words().to_set(),
        all_identifiers(unit_state(ctx).issued),
        forall|i: int|
            0 <= i < unit_state(ctx).issued.len() ==> !reserved_words().contains(
                #[trigger] unit_state(ctx).issued[i],
            ),
        translated(ctx) is Ok ==> items_issued(unit_state(ctx), translated(ctx)->Ok_0),
{
    broadcast use vstd::seq_lib::seq_to_set_is_finite;

    let start = initial();
    assert(start.wf());
    lemma_declare_tops_wf(ctx, start, ctx.top_nodes@, 0);
    match declare_tops(ctx, start, ctx.top_nodes@, 0) {
        Err(_) => {},
        Ok(st) => {
            lemma_tops_sound(ctx, st, ctx.top_nodes@, 0, Seq::empty());
            lemma_tops_reserved(ctx, st, ctx.top_nodes@, 0);
            lemma_declare_tops_reserved(ctx, start, ctx.top_nodes@, 0);
        },
    }
}

} // verus!
