//! The names that a piece of the target tree binds, at any depth, and the proof that
//! every one of them was given out by the renamer during the lowering that made the
//! piece: none of them is a name that was given out before.

use crate::clang::{text_at, AstContext, AstNode, Tag, TypeNode};
use crate::convert_type::converted;
use crate::lowering::{
    binary_parts, binding, declared, finish_call, if_parts, if_stmt, lower_args,
    lower_binary_node, lower_body, lower_decl, lower_decls, lower_expr, lower_expr_node,
    lower_function, lower_if, lower_items, lower_member, lower_params, lower_return, lower_stmt,
    lower_unary_node, lower_while, node_types, operand_types, return_part, return_stmt,
    while_parts, while_stmt,
};
use crate::mentions::{grows, lemma_grows};
use crate::names::{hint_of, is_c_identifier, lemma_hint_identifier};
use crate::operators::{
    as_c_int, binary_spec, borrow_place, comparison, connective, deref_of, lower_arith,
    lower_binary, method, native, parse_binary, store_through, Arith, BinaryOperator, Outcome,
};
use crate::renamer::{fresh_hint, lemma_choice_free, lemma_steps_wf, RenamerV};
use crate::soundness::{
    lemma_binary_spec_sound, lemma_body_sound, lemma_declared, lemma_decl_sound,
    lemma_expr_sound, lemma_fresh_kept, lemma_insert_kept, lemma_params_sound,
    lemma_scope_closed, lemma_stmt_sound,
};
use crate::target::{ExprV, ItemV, ParamV, PatV, StmtV, UnOp};
use crate::with_stmts::{block_of, collapse, Sequenced};
use vstd::prelude::*;

verus! {

/// Whether a binding somewhere in `e` introduces `n`.
pub open spec fn expr_binds(e: ExprV, n: Seq<char>) -> bool
    decreases e,
{
    match e {
        ExprV::IntLit(_) => false,
        ExprV::FloatLit(_) => false,
        ExprV::Ident(_) => false,
        ExprV::Unary(_, a) => expr_binds(*a, n),
        ExprV::Binary(_, l, r) => expr_binds(*l, n) || expr_binds(*r, n),
        ExprV::Assign(t, v) => expr_binds(*t, n) || expr_binds(*v, n),
        ExprV::Call(f, args) => expr_binds(*f, n) || exists|i: int|
            0 <= i < args.len() && expr_binds(#[trigger] args[i], n),
        ExprV::MethodCall(r, _, args) => expr_binds(*r, n) || exists|i: int|
            0 <= i < args.len() && expr_binds(#[trigger] args[i], n),
        ExprV::Field(b, _) => expr_binds(*b, n),
        ExprV::Cast(v, _) => expr_binds(*v, n),
        ExprV::AddrOfMut(p) => expr_binds(*p, n),
        ExprV::Block(stmts) => exists|i: int|
            0 <= i < stmts.len() && stmt_binds(#[trigger] stmts[i], n),
        ExprV::If(c, t, o) => expr_binds(*c, n) || (exists|i: int|
            0 <= i < t.len() && stmt_binds(#[trigger] t[i], n)) || match o {
            Some(x) => expr_binds(*x, n),
            None => false,
        },
        ExprV::While(c, b) => expr_binds(*c, n) || exists|i: int|
            0 <= i < b.len() && stmt_binds(#[trigger] b[i], n),
        ExprV::Return(v) => match v {
            Some(x) => expr_binds(*x, n),
            None => false,
        },
    }
}

/// Whether `s` is a binding of `n` or holds one, at any depth.
pub open spec fn stmt_binds(s: StmtV, n: Seq<char>) -> bool
    decreases s,
{
    match s {
        StmtV::Local(pat, _, init) => pat.name == n || match init {
            Some(e) => expr_binds(e, n),
            None => false,
        },
        StmtV::Expr(e) => expr_binds(e, n),
    }
}

/// Whether one of `stmts` binds `n`, at any depth.
pub open spec fn stmts_bind(stmts: Seq<StmtV>, n: Seq<char>) -> bool {
    exists|i: int| 0 <= i < stmts.len() && stmt_binds(#[trigger] stmts[i], n)
}

/// Whether one of `exprs` holds a binding of `n`.
pub open spec fn exprs_bind(exprs: Seq<ExprV>, n: Seq<char>) -> bool {
    exists|i: int| 0 <= i < exprs.len() && expr_binds(#[trigger] exprs[i], n)
}

/// Whether the renamer gave `n` out between the two states: it has it afterwards and
/// had not before.
pub open spec fn new_in(before: RenamerV, after: RenamerV, n: Seq<char>) -> bool {
    after.issued.contains(n) && !before.issued.contains(n)
}

/// What is new in a part of a stretch is new in the whole stretch.
pub proof fn lemma_new_widen(a: RenamerV, b: RenamerV, c: RenamerV)
    requires
        grows(a.issued, b.issued),
        grows(b.issued, c.issued),
    ensures
        forall|n: Seq<char>| new_in(a, b, n) ==> new_in(a, c, n),
        forall|n: Seq<char>| new_in(b, c, n) ==> new_in(a, c, n),
{
    lemma_grows(a.issued, b.issued, c.issued);
    lemma_grows(b.issued, c.issued, c.issued);
}

/// A call binds what its function and its arguments bind.
pub proof fn lemma_call_binds(fun: ExprV, args: Seq<ExprV>, n: Seq<char>)
    ensures
        expr_binds(ExprV::Call(Box::new(fun), args), n) <==> expr_binds(fun, n) || exprs_bind(
            args,
            n,
        ),
{
    let e = ExprV::Call(Box::new(fun), args);
    assert(e->Call_1 == args);
    if exprs_bind(args, n) {
        let i = choose|i: int| 0 <= i < args.len() && expr_binds(#[trigger] args[i], n);
        assert(expr_binds(e->Call_1[i], n));
    }
}

/// A method call binds what its receiver and its arguments bind.
pub proof fn lemma_method_call_binds(
    receiver: ExprV,
    name: Seq<char>,
    args: Seq<ExprV>,
    n: Seq<char>,
)
    ensures
        expr_binds(ExprV::MethodCall(Box::new(receiver), name, args), n) <==> expr_binds(
            receiver,
            n,
        ) || exprs_bind(args, n),
{
    let e = ExprV::MethodCall(Box::new(receiver), name, args);
    assert(e->MethodCall_2 == args);
    if exprs_bind(args, n) {
        let i = choose|i: int| 0 <= i < args.len() && expr_binds(#[trigger] args[i], n);
        assert(expr_binds(e->MethodCall_2[i], n));
    }
}

/// A block expression binds what its statements bind.
pub proof fn lemma_block_expr_binds(stmts: Seq<StmtV>, n: Seq<char>)
    ensures
        expr_binds(ExprV::Block(stmts), n) <==> stmts_bind(stmts, n),
{
    let e = ExprV::Block(stmts);
    assert(e->Block_0 == stmts);
    if stmts_bind(stmts, n) {
        let i = choose|i: int| 0 <= i < stmts.len() && stmt_binds(#[trigger] stmts[i], n);
        assert(stmt_binds(e->Block_0[i], n));
    }
}

/// An `if` binds what its condition and its branches bind.
pub proof fn lemma_if_binds(
    cond: ExprV,
    then: Seq<StmtV>,
    otherwise: Option<Box<ExprV>>,
    n: Seq<char>,
)
    ensures
        expr_binds(ExprV::If(Box::new(cond), then, otherwise), n) <==> expr_binds(cond, n)
            || stmts_bind(then, n) || (otherwise is Some && expr_binds(*otherwise->Some_0, n)),
{
    let e = ExprV::If(Box::new(cond), then, otherwise);
    assert(e->If_1 == then);
    if stmts_bind(then, n) {
        let i = choose|i: int| 0 <= i < then.len() && stmt_binds(#[trigger] then[i], n);
        assert(stmt_binds(e->If_1[i], n));
    }
}

/// A `while` binds what its condition and its body bind.
pub proof fn lemma_while_binds(cond: ExprV, body: Seq<StmtV>, n: Seq<char>)
    ensures
        expr_binds(ExprV::While(Box::new(cond), body), n) <==> expr_binds(cond, n) || stmts_bind(
            body,
            n,
        ),
{
    let e = ExprV::While(Box::new(cond), body);
    assert(e->While_1 == body);
    if stmts_bind(body, n) {
        let i = choose|i: int| 0 <= i < body.len() && stmt_binds(#[trigger] body[i], n);
        assert(stmt_binds(e->While_1[i], n));
    }
}

/// What one of two sequences of statements binds, their concatenation binds, and
/// nothing else.
pub proof fn lemma_concat_binds(a: Seq<StmtV>, b: Seq<StmtV>, n: Seq<char>)
    ensures
        stmts_bind(a + b, n) <==> stmts_bind(a, n) || stmts_bind(b, n),
{
    let c = a + b;
    if stmts_bind(a, n) {
        let i = choose|i: int| 0 <= i < a.len() && stmt_binds(#[trigger] a[i], n);
        assert(c[i] == a[i]);
    }
    if stmts_bind(b, n) {
        let i = choose|i: int| 0 <= i < b.len() && stmt_binds(#[trigger] b[i], n);
        assert(c[a.len() + i] == b[i]);
    }
    if stmts_bind(c, n) {
        let i = choose|i: int| 0 <= i < c.len() && stmt_binds(#[trigger] c[i], n);
        if i < a.len() {
            assert(a[i] == c[i]);
        } else {
            assert(b[i - a.len()] == c[i]);
        }
    }
}

/// What a sequence of statements with one more at its end binds.
pub proof fn lemma_push_binds(a: Seq<StmtV>, s: StmtV, n: Seq<char>)
    ensures
        stmts_bind(a.push(s), n) <==> stmts_bind(a, n) || stmt_binds(s, n),
{
    assert(a.push(s) =~= a + seq![s]);
    lemma_concat_binds(a, seq![s], n);
    assert(seq![s][0] == s);
}

/// What a sequence of expressions with one more at its end binds.
pub proof fn lemma_push_exprs_bind(a: Seq<ExprV>, e: ExprV, n: Seq<char>)
    ensures
        exprs_bind(a.push(e), n) <==> exprs_bind(a, n) || expr_binds(e, n),
{
    let c = a.push(e);
    if exprs_bind(a, n) {
        let i = choose|i: int| 0 <= i < a.len() && expr_binds(#[trigger] a[i], n);
        assert(c[i] == a[i]);
    }
    if expr_binds(e, n) {
        assert(c[a.len() as int] == e);
    }
    if exprs_bind(c, n) {
        let i = choose|i: int| 0 <= i < c.len() && expr_binds(#[trigger] c[i], n);
        if i < a.len() {
            assert(a[i] == c[i]);
        }
    }
}

/// The block that holds some statements binds only what they bind.
pub proof fn lemma_block_binds(stmts: Seq<StmtV>, n: Seq<char>)
    requires
        stmts_bind(block_of(stmts), n),
    ensures
        stmts_bind(stmts, n),
{
    if block_of(stmts) != stmts {
        let inner = stmts[0]->Expr_0->Block_0;
        lemma_block_expr_binds(inner, n);
        assert(stmts[0]->Expr_0 == ExprV::Block(inner));
        assert(expr_binds(stmts[0]->Expr_0, n));
        assert(stmt_binds(stmts[0], n));
    }
}

/// A collapsed carrier binds only what its prefix or its value binds.
pub proof fn lemma_collapse_binds(w: Sequenced<ExprV>, n: Seq<char>)
    requires
        expr_binds(collapse(w), n),
    ensures
        stmts_bind(w.prefix, n) || expr_binds(w.value, n),
{
    if w.prefix.len() != 0 {
        lemma_block_expr_binds(w.prefix.push(StmtV::Expr(w.value)), n);
        lemma_push_binds(w.prefix, StmtV::Expr(w.value), n);
    }
}

/// A method call on one argument binds what its receiver and its argument bind.
pub proof fn lemma_method_binds(receiver: ExprV, name: Seq<char>, arg: ExprV, n: Seq<char>)
    ensures
        expr_binds(method(receiver, name, arg), n) <==> expr_binds(receiver, n) || expr_binds(
            arg,
            n,
        ),
{
    let args = seq![arg];
    assert(args[0] == arg);
    lemma_method_call_binds(receiver, name, args, n);
}

/// What an operator that computes a value yields binds what its operands bind.
pub proof fn lemma_arith_binds(
    ctx: AstContext,
    op: Arith,
    ctype: TypeNode,
    lhs_type: TypeNode,
    rhs_type: TypeNode,
    lhs: ExprV,
    rhs: ExprV,
    n: Seq<char>,
)
    requires
        lower_arith(ctx, op, ctype, lhs_type, rhs_type, lhs, rhs) is Ok,
    ensures
        expr_binds(lower_arith(ctx, op, ctype, lhs_type, rhs_type, lhs, rhs)->Ok_0, n)
            <==> expr_binds(lhs, n) || expr_binds(rhs, n),
{
    lemma_method_binds(lhs, "offset"@, rhs, n);
    lemma_method_binds(rhs, "offset"@, lhs, n);
    lemma_method_binds(rhs, "offset_to"@, lhs, n);
    lemma_method_binds(lhs, "offset"@, ExprV::Unary(UnOp::Neg, Box::new(rhs)), n);
    lemma_method_binds(lhs, "wrapping_add"@, rhs, n);
    lemma_method_binds(lhs, "wrapping_sub"@, rhs, n);
    lemma_method_binds(lhs, "wrapping_mul"@, rhs, n);
    lemma_method_binds(lhs, "wrapping_div"@, rhs, n);
    lemma_method_binds(lhs, "wrapping_rem"@, rhs, n);
}

/// No name is bound by two of `stmts`.
pub open spec fn stmts_apart(stmts: Seq<StmtV>) -> bool {
    forall|i: int, j: int, n: Seq<char>|
        #![trigger stmt_binds(stmts[i], n), stmt_binds(stmts[j], n)]
        0 <= i < j < stmts.len() ==> !(stmt_binds(stmts[i], n) && stmt_binds(stmts[j], n))
}

/// No name is bound by two of `exprs`.
pub open spec fn exprs_apart(exprs: Seq<ExprV>) -> bool {
    forall|i: int, j: int, n: Seq<char>|
        #![trigger expr_binds(exprs[i], n), expr_binds(exprs[j], n)]
        0 <= i < j < exprs.len() ==> !(expr_binds(exprs[i], n) && expr_binds(exprs[j], n))
}

/// Whether the bindings in `e`, at any depth, introduce pairwise distinct names.
pub open spec fn distinct_expr(e: ExprV) -> bool
    decreases e,
{
    match e {
        ExprV::IntLit(_) => true,
        ExprV::FloatLit(_) => true,
        ExprV::Ident(_) => true,
        ExprV::Unary(_, a) => distinct_expr(*a),
        ExprV::Binary(_, l, r) => distinct_expr(*l) && distinct_expr(*r) && forall|n: Seq<char>|
            !(#[trigger] expr_binds(*l, n) && expr_binds(*r, n)),
        ExprV::Assign(t, v) => distinct_expr(*t) && distinct_expr(*v) && forall|n: Seq<char>|
            !(#[trigger] expr_binds(*t, n) && expr_binds(*v, n)),
        ExprV::Call(f, args) => distinct_expr(*f) && (forall|i: int|
            0 <= i < args.len() ==> distinct_expr(#[trigger] args[i])) && exprs_apart(args)
            && forall|n: Seq<char>| !(#[trigger] expr_binds(*f, n) && exprs_bind(args, n)),
        ExprV::MethodCall(r, _, args) => distinct_expr(*r) && (forall|i: int|
            0 <= i < args.len() ==> distinct_expr(#[trigger] args[i])) && exprs_apart(args)
            && forall|n: Seq<char>| !(#[trigger] expr_binds(*r, n) && exprs_bind(args, n)),
        ExprV::Field(b, _) => distinct_expr(*b),
        ExprV::Cast(v, _) => distinct_expr(*v),
        ExprV::AddrOfMut(p) => distinct_expr(*p),
        ExprV::Block(stmts) => (forall|i: int|
            0 <= i < stmts.len() ==> distinct_stmt(#[trigger] stmts[i])) && stmts_apart(stmts),
        ExprV::If(c, t, o) => distinct_expr(*c) && (forall|i: int|
            0 <= i < t.len() ==> distinct_stmt(#[trigger] t[i])) && stmts_apart(t) && (forall|
            n: Seq<char>,
        | !(#[trigger] expr_binds(*c, n) && stmts_bind(t, n))) && match o {
            Some(x) => distinct_expr(*x) && forall|n: Seq<char>|
                !(#[trigger] expr_binds(*x, n) && (expr_binds(*c, n) || stmts_bind(t, n))),
            None => true,
        },
        ExprV::While(c, b) => distinct_expr(*c) && (forall|i: int|
            0 <= i < b.len() ==> distinct_stmt(#[trigger] b[i])) && stmts_apart(b) && forall|
            n: Seq<char>,
        | !(#[trigger] expr_binds(*c, n) && stmts_bind(b, n)),
        ExprV::Return(v) => match v {
            Some(x) => distinct_expr(*x),
            None => true,
        },
    }
}

/// Whether the bindings in `s`, at any depth, introduce pairwise distinct names.
pub open spec fn distinct_stmt(s: StmtV) -> bool
    decreases s,
{
    match s {
        StmtV::Local(pat, _, init) => match init {
            Some(e) => distinct_expr(e) && !expr_binds(e, pat.name),
            None => true,
        },
        StmtV::Expr(e) => distinct_expr(e),
    }
}

/// Whether the bindings in `stmts`, at any depth, introduce pairwise distinct names.
pub open spec fn distinct_stmts(stmts: Seq<StmtV>) -> bool {
    (forall|i: int| 0 <= i < stmts.len() ==> distinct_stmt(#[trigger] stmts[i])) && stmts_apart(
        stmts,
    )
}

/// Whether `e` holds no binding at all.
pub open spec fn plain(e: ExprV) -> bool {
    forall|n: Seq<char>| !expr_binds(e, n)
}

/// A block expression has distinct bindings exactly if its statements have.
pub proof fn lemma_block_distinct(stmts: Seq<StmtV>)
    ensures
        distinct_expr(ExprV::Block(stmts)) <==> distinct_stmts(stmts),
{
    let e = ExprV::Block(stmts);
    assert(e->Block_0 == stmts);
}

/// An `if` whose parts have distinct bindings and bind no name twice among them has
/// distinct bindings.
pub proof fn lemma_if_distinct(cond: ExprV, then: Seq<StmtV>, otherwise: Option<Box<ExprV>>)
    requires
        plain(cond),
        distinct_expr(cond),
        distinct_stmts(then),
        otherwise is Some ==> distinct_expr(*otherwise->Some_0) && forall|n: Seq<char>|
            !(expr_binds(*otherwise->Some_0, n) && stmts_bind(then, n)),
    ensures
        distinct_expr(ExprV::If(Box::new(cond), then, otherwise)),
{
    let e = ExprV::If(Box::new(cond), then, otherwise);
    assert(e->If_1 == then);
    assert forall|n: Seq<char>| !expr_binds(cond, n) by {}
}

/// A `while` whose parts have distinct bindings and bind no name twice between them
/// has distinct bindings.
pub proof fn lemma_while_distinct(cond: ExprV, body: Seq<StmtV>)
    requires
        distinct_expr(cond),
        distinct_stmts(body),
        forall|n: Seq<char>| !(expr_binds(cond, n) && stmts_bind(body, n)),
    ensures
        distinct_expr(ExprV::While(Box::new(cond), body)),
{
    let e = ExprV::While(Box::new(cond), body);
    assert(e->While_1 == body);
}

/// An expression that holds no binding has distinct bindings.
pub proof fn lemma_plain_distinct(e: ExprV)
    requires
        plain(e),
    ensures
        distinct_expr(e),
    decreases e,
{
    match e {
        ExprV::IntLit(_) => {},
        ExprV::FloatLit(_) => {},
        ExprV::Ident(_) => {},
        ExprV::Unary(_, a) => {
            assert forall|n: Seq<char>| !expr_binds(*a, n) by {
                assert(!expr_binds(e, n));
            }
            lemma_plain_distinct(*a);
        },
        ExprV::Binary(_, l, r) => {
            assert forall|n: Seq<char>| !expr_binds(*l, n) && !expr_binds(*r, n) by {
                assert(!expr_binds(e, n));
            }
            lemma_plain_distinct(*l);
            lemma_plain_distinct(*r);
        },
        ExprV::Assign(t, v) => {
            assert forall|n: Seq<char>| !expr_binds(*t, n) && !expr_binds(*v, n) by {
                assert(!expr_binds(e, n));
            }
            lemma_plain_distinct(*t);
            lemma_plain_distinct(*v);
        },
        ExprV::Call(f, args) => {
            assert(e->Call_1 == args);
            assert forall|n: Seq<char>| !expr_binds(*f, n) && !exprs_bind(args, n) by {
                lemma_call_binds(*f, args, n);
                assert(!expr_binds(e, n));
            }
            lemma_plain_distinct(*f);
            assert forall|i: int| 0 <= i < args.len() implies distinct_expr(
                #[trigger] args[i],
            ) by {
                assert forall|n: Seq<char>| !expr_binds(args[i], n) by {
                    assert(!exprs_bind(args, n));
                }
                lemma_plain_distinct(args[i]);
            }
            assert forall|i: int, n: Seq<char>| 0 <= i < args.len() implies !#[trigger] expr_binds(
                args[i],
                n,
            ) by {
                assert(!exprs_bind(args, n));
            }
        },
        ExprV::MethodCall(r, name, args) => {
            assert(e->MethodCall_2 == args);
            assert forall|n: Seq<char>| !expr_binds(*r, n) && !exprs_bind(args, n) by {
                lemma_method_call_binds(*r, name, args, n);
                assert(!expr_binds(e, n));
            }
            lemma_plain_distinct(*r);
            assert forall|i: int| 0 <= i < args.len() implies distinct_expr(
                #[trigger] args[i],
            ) by {
                assert forall|n: Seq<char>| !expr_binds(args[i], n) by {
                    assert(!exprs_bind(args, n));
                }
                lemma_plain_distinct(args[i]);
            }
            assert forall|i: int, n: Seq<char>| 0 <= i < args.len() implies !#[trigger] expr_binds(
                args[i],
                n,
            ) by {
                assert(!exprs_bind(args, n));
            }
        },
        ExprV::Field(b, _) => {
            assert forall|n: Seq<char>| !expr_binds(*b, n) by {
                assert(!expr_binds(e, n));
            }
            lemma_plain_distinct(*b);
        },
        ExprV::Cast(v, _) => {
            assert forall|n: Seq<char>| !expr_binds(*v, n) by {
                assert(!expr_binds(e, n));
            }
            lemma_plain_distinct(*v);
        },
        ExprV::AddrOfMut(p) => {
            assert forall|n: Seq<char>| !expr_binds(*p, n) by {
                assert(!expr_binds(e, n));
            }
            lemma_plain_distinct(*p);
        },
        ExprV::Block(stmts) => {
            assert forall|n: Seq<char>| !stmts_bind(stmts, n) by {
                lemma_block_expr_binds(stmts, n);
                assert(!expr_binds(e, n));
            }
            lemma_plain_stmts_distinct(stmts);
            lemma_block_distinct(stmts);
        },
        ExprV::If(c, t, o) => {
            assert forall|n: Seq<char>|
                !expr_binds(*c, n) && !stmts_bind(t, n) && !(o is Some && expr_binds(
                    *o->Some_0,
                    n,
                )) by {
                lemma_if_binds(*c, t, o, n);
                assert(!expr_binds(e, n));
            }
            lemma_plain_distinct(*c);
            lemma_plain_stmts_distinct(t);
            match o {
                Some(x) => {
                    assert forall|n: Seq<char>| !expr_binds(*x, n) by {
                        lemma_if_binds(*c, t, o, n);
                        assert(!expr_binds(e, n));
                    }
                    lemma_plain_distinct(*x);
                },
                None => {},
            }
            lemma_if_distinct(*c, t, o);
        },
        ExprV::While(c, b) => {
            assert forall|n: Seq<char>| !expr_binds(*c, n) && !stmts_bind(b, n) by {
                lemma_while_binds(*c, b, n);
                assert(!expr_binds(e, n));
            }
            lemma_plain_distinct(*c);
            lemma_plain_stmts_distinct(b);
            lemma_while_distinct(*c, b);
        },
        ExprV::Return(v) => match v {
            Some(x) => {
                assert forall|n: Seq<char>| !expr_binds(*x, n) by {
                    assert(!expr_binds(e, n));
                }
                lemma_plain_distinct(*x);
            },
            None => {},
        },
    }
}

/// Statements that hold no binding have distinct bindings.
pub proof fn lemma_plain_stmts_distinct(stmts: Seq<StmtV>)
    requires
        forall|n: Seq<char>| !stmts_bind(stmts, n),
    ensures
        distinct_stmts(stmts),
    decreases stmts,
{
    assert forall|i: int, n: Seq<char>| 0 <= i < stmts.len() implies !#[trigger] stmt_binds(
        stmts[i],
        n,
    ) by {
        assert(!stmts_bind(stmts, n));
    }
    assert forall|i: int| 0 <= i < stmts.len() implies distinct_stmt(#[trigger] stmts[i]) by {
        match stmts[i] {
            StmtV::Local(pat, _, init) => {
                assert(!stmt_binds(stmts[i], pat.name));
            },
            StmtV::Expr(e) => {
                assert forall|n: Seq<char>| !expr_binds(e, n) by {
                    assert(!stmt_binds(stmts[i], n));
                }
                lemma_plain_distinct(e);
            },
        }
    }
}

/// Two sequences of statements with distinct bindings that bind no name in common
/// give a sequence with distinct bindings.
pub proof fn lemma_concat_distinct(a: Seq<StmtV>, b: Seq<StmtV>)
    requires
        distinct_stmts(a),
        distinct_stmts(b),
        forall|n: Seq<char>| !(stmts_bind(a, n) && stmts_bind(b, n)),
    ensures
        distinct_stmts(a + b),
{
    let c = a + b;
    assert forall|i: int| 0 <= i < c.len() implies distinct_stmt(#[trigger] c[i]) by {
        if i < a.len() {
            assert(c[i] == a[i]);
        } else {
            assert(c[i] == b[i - a.len()]);
        }
    }
    assert forall|i: int, j: int, n: Seq<char>|
        #![trigger stmt_binds(c[i], n), stmt_binds(c[j], n)]
        0 <= i < j < c.len() implies !(stmt_binds(c[i], n) && stmt_binds(c[j], n)) by {
        if stmt_binds(c[i], n) && stmt_binds(c[j], n) {
            if j < a.len() {
                assert(c[i] == a[i] && c[j] == a[j]);
                assert(stmt_binds(a[i], n) && stmt_binds(a[j], n));
            } else if i >= a.len() {
                let bi = i - a.len();
                let bj = j - a.len();
                assert(c[i] == b[bi] && c[j] == b[bj]);
                assert(stmt_binds(b[bi], n) && stmt_binds(b[bj], n));
            } else {
                assert(c[i] == a[i]);
                assert(c[j] == b[j - a.len()]);
                assert(stmt_binds(a[i], n));
                assert(stmt_binds(b[j - a.len()], n));
                assert(stmts_bind(a, n) && stmts_bind(b, n));
            }
        }
    }
}

/// A statement with distinct bindings behind statements with distinct bindings that
/// bind none of its names gives a sequence with distinct bindings.
pub proof fn lemma_push_distinct(a: Seq<StmtV>, s: StmtV)
    requires
        distinct_stmts(a),
        distinct_stmt(s),
        forall|n: Seq<char>| !(stmts_bind(a, n) && stmt_binds(s, n)),
    ensures
        distinct_stmts(a.push(s)),
{
    let one = seq![s];
    assert(one[0] == s);
    assert(a.push(s) =~= a + one);
    assert forall|n: Seq<char>| !(stmts_bind(a, n) && stmts_bind(one, n)) by {
        if stmts_bind(one, n) {
            let i = choose|i: int| 0 <= i < one.len() && stmt_binds(#[trigger] one[i], n);
            assert(one[i] == s);
        }
    }
    lemma_concat_distinct(a, one);
}

/// The block that holds statements with distinct bindings has distinct bindings.
pub proof fn lemma_block_of_distinct(stmts: Seq<StmtV>)
    requires
        distinct_stmts(stmts),
    ensures
        distinct_stmts(block_of(stmts)),
{
    if block_of(stmts) != stmts {
        let inner = stmts[0]->Expr_0->Block_0;
        assert(stmts[0]->Expr_0 == ExprV::Block(inner));
        assert(distinct_stmt(stmts[0]));
        lemma_block_distinct(inner);
    }
}

/// A collapsed carrier whose prefix has distinct bindings and whose value holds none
/// has distinct bindings.
pub proof fn lemma_collapse_distinct(w: Sequenced<ExprV>)
    requires
        distinct_stmts(w.prefix),
        plain(w.value),
    ensures
        distinct_expr(collapse(w)),
{
    lemma_plain_distinct(w.value);
    if w.prefix.len() != 0 {
        let last = StmtV::Expr(w.value);
        assert forall|n: Seq<char>| !stmt_binds(last, n) by {
            assert(!expr_binds(w.value, n));
        }
        lemma_push_distinct(w.prefix, last);
        lemma_block_distinct(w.prefix.push(last));
    }
}

/// The value of a lowered expression binds nothing; every name that its prefix binds
/// was given out during the lowering; and no two bindings of the prefix introduce the
/// same name.
pub open spec fn expr_fresh(st: RenamerV, out: Outcome<Sequenced<ExprV>>) -> bool {
    out.result is Ok ==> {
        &&& forall|n: Seq<char>| !expr_binds(out.result->Ok_0.value, n)
        &&& forall|n: Seq<char>|
            stmts_bind(out.result->Ok_0.prefix, n) ==> new_in(st, out.state, n)
        &&& distinct_stmts(out.result->Ok_0.prefix)
    }
}

/// As [`expr_fresh`], of the children of a call lowered between the states `base` and
/// `st`.
pub open spec fn args_fresh(base: RenamerV, st: RenamerV, w: Sequenced<Seq<ExprV>>) -> bool {
    &&& forall|n: Seq<char>| !exprs_bind(w.value, n)
    &&& forall|n: Seq<char>| stmts_bind(w.prefix, n) ==> new_in(base, st, n)
    &&& distinct_stmts(w.prefix)
}

/// Every name that the statements bind, at any depth, was given out between the two
/// states, and no two of their bindings introduce the same name.
pub open spec fn stmts_fresh(base: RenamerV, st: RenamerV, stmts: Seq<StmtV>) -> bool {
    &&& forall|n: Seq<char>| stmts_bind(stmts, n) ==> new_in(base, st, n)
    &&& distinct_stmts(stmts)
}

/// One statement with distinct bindings is a sequence with distinct bindings.
pub proof fn lemma_single_distinct(s: StmtV)
    requires
        distinct_stmt(s),
    ensures
        distinct_stmts(seq![s]),
{
    let one = seq![s];
    assert forall|i: int| 0 <= i < one.len() implies distinct_stmt(#[trigger] one[i]) by {
        assert(one[i] == s);
    }
}

/// An assignment through a temporary, of a place and a value that hold no binding,
/// has distinct bindings: the temporary is its only one.
proof fn lemma_temporary_distinct(p: Seq<char>, lhs: ExprV, value: ExprV)
    requires
        plain(lhs),
        plain(value),
    ensures
        distinct_stmts(seq![borrow_place(p, lhs), store_through(p, value)]),
{
    let first = borrow_place(p, lhs);
    let second = store_through(p, value);
    let assign = ExprV::Assign(Box::new(deref_of(p)), Box::new(value));
    lemma_plain_distinct(lhs);
    assert(!expr_binds(lhs, p));
    assert(distinct_stmt(first));
    assert forall|n: Seq<char>| !expr_binds(assign, n) by {
        assert(!expr_binds(ExprV::Ident(p), n));
        assert(!expr_binds(deref_of(p), n));
        assert(!expr_binds(value, n));
    }
    lemma_plain_distinct(assign);
    assert(distinct_stmt(second));
    assert forall|n: Seq<char>| !stmt_binds(second, n) by {
        assert(!expr_binds(assign, n));
    }
    lemma_single_distinct(first);
    lemma_push_distinct(seq![first], second);
    assert(seq![first].push(second) =~= seq![first, second]);
}

/// An assignment through a temporary binds the temporary and what the place and the
/// stored value bind.
proof fn lemma_temporary_binds(p: Seq<char>, lhs: ExprV, value: ExprV, n: Seq<char>)
    ensures
        !expr_binds(deref_of(p), n),
        stmts_bind(seq![borrow_place(p, lhs), store_through(p, value)], n) ==> n == p
            || expr_binds(lhs, n) || expr_binds(value, n),
{
    let prefix = seq![borrow_place(p, lhs), store_through(p, value)];
    assert(prefix[0] == borrow_place(p, lhs));
    assert(prefix[1] == store_through(p, value));
    assert(!expr_binds(ExprV::Ident(p), n));
    assert(!expr_binds(deref_of(p), n));
    assert(stmt_binds(borrow_place(p, lhs), n) <==> n == p || expr_binds(lhs, n));
    let assign = ExprV::Assign(Box::new(deref_of(p)), Box::new(value));
    assert(expr_binds(assign, n) <==> expr_binds(value, n));
    assert(stmt_binds(store_through(p, value), n) <==> expr_binds(value, n));
    if stmts_bind(prefix, n) {
        let i = choose|i: int| 0 <= i < prefix.len() && stmt_binds(#[trigger] prefix[i], n);
        assert(i == 0 || i == 1);
    }
}

/// An operator applied to operands that bind nothing yields a value that binds
/// nothing, behind a prefix that binds only the temporary taken for it.
pub proof fn lemma_binary_fresh(
    ctx: AstContext,
    st: RenamerV,
    name: Seq<char>,
    ctype: TypeNode,
    lhs_type: TypeNode,
    rhs_type: TypeNode,
    lhs: ExprV,
    rhs: ExprV,
)
    requires
        st.wf(),
        forall|n: Seq<char>| !expr_binds(lhs, n) && !expr_binds(rhs, n),
    ensures
        expr_fresh(st, binary_spec(ctx, st, name, ctype, lhs_type, rhs_type, lhs, rhs)),
{
    let out = binary_spec(ctx, st, name, ctype, lhs_type, rhs_type, lhs, rhs);
    lemma_fresh_kept(st);
    lemma_choice_free(st, fresh_hint());
    let p = st.choice(fresh_hint());
    if out.result is Ok {
        let w = out.result->Ok_0;
        let op = parse_binary(name)->Some_0;
        assert(out == lower_binary(ctx, st, op, ctype, lhs_type, rhs_type, lhs, rhs));
        match op {
            BinaryOperator::Assign => {
                lemma_temporary_distinct(p, lhs, rhs);
            },
            BinaryOperator::Compound(a) => {
                let v = lower_arith(ctx, a, ctype, lhs_type, rhs_type, deref_of(p), rhs)->Ok_0;
                assert forall|n: Seq<char>| !expr_binds(v, n) by {
                    lemma_temporary_binds(p, lhs, rhs, n);
                    lemma_arith_binds(ctx, a, ctype, lhs_type, rhs_type, deref_of(p), rhs, n);
                    assert(!expr_binds(rhs, n));
                }
                lemma_temporary_distinct(p, lhs, v);
            },
            _ => {
                assert(w.prefix.len() == 0);
            },
        }
        assert(distinct_stmts(w.prefix));
        assert forall|n: Seq<char>|
            !expr_binds(w.value, n) && (stmts_bind(w.prefix, n) ==> new_in(
                st,
                out.state,
                n,
            )) by {
            assert(!expr_binds(lhs, n) && !expr_binds(rhs, n));
            match op {
                BinaryOperator::Arith(a) => {
                    lemma_arith_binds(ctx, a, ctype, lhs_type, rhs_type, lhs, rhs, n);
                    assert(w.prefix.len() == 0);
                },
                BinaryOperator::Relational(r) => {
                    let inner = native(comparison(r), lhs, rhs);
                    assert(!expr_binds(inner, n));
                    assert(expr_binds(as_c_int(inner), n) == expr_binds(inner, n));
                    assert(w.prefix.len() == 0);
                },
                BinaryOperator::Logical(l) => {
                    let inner = native(connective(l), lhs, rhs);
                    assert(!expr_binds(inner, n));
                    assert(w.prefix.len() == 0);
                },
                BinaryOperator::Assign => {
                    lemma_temporary_binds(p, lhs, rhs, n);
                },
                BinaryOperator::Compound(a) => {
                    let v = lower_arith(ctx, a, ctype, lhs_type, rhs_type, deref_of(p), rhs)->Ok_0;
                    lemma_temporary_binds(p, lhs, rhs, n);
                    lemma_arith_binds(ctx, a, ctype, lhs_type, rhs_type, deref_of(p), rhs, n);
                    lemma_temporary_binds(p, lhs, v, n);
                },
            }
        }
    }
}

/// The value of the expression at `id` binds nothing, and every name that its prefix
/// binds was given out during its lowering: none is a name given out before.
pub proof fn lemma_expr_fresh(ctx: AstContext, st: RenamerV, id: u64, fuel: nat)
    requires
        st.wf(),
    ensures
        expr_fresh(st, lower_expr(ctx, st, id, fuel)),
    decreases fuel, 3nat,
{
    match ctx.node_at(id) {
        Err(_) => {},
        Ok(node) => lemma_expr_node_fresh(ctx, st, node, fuel),
    }
}

/// As [`lemma_expr_fresh`], of the expression that a node stands for.
pub proof fn lemma_expr_node_fresh(ctx: AstContext, st: RenamerV, node: AstNode, fuel: nat)
    requires
        st.wf(),
    ensures
        expr_fresh(st, lower_expr_node(ctx, st, node, fuel)),
    decreases fuel, 2nat,
{
    if fuel != 0 {
        let rest = (fuel - 1) as nat;
        let out = lower_expr_node(ctx, st, node, fuel);
        match node.tag {
            Tag::DeclRefExpr => {
                if out.result is Ok {
                    assert(out.result->Ok_0.prefix.len() == 0);
                }
            },
            Tag::IntegerLiteral => {
                if out.result is Ok {
                    assert(out.result->Ok_0.prefix.len() == 0);
                }
            },
            Tag::CharacterLiteral => {
                if out.result is Ok {
                    assert(out.result->Ok_0.prefix.len() == 0);
                }
            },
            Tag::FloatingLiteral => {
                if out.result is Ok {
                    assert(out.result->Ok_0.prefix.len() == 0);
                }
            },
            Tag::ImplicitCastExpr => match node.child_at(0) {
                None => {},
                Some(c) => lemma_expr_fresh(ctx, st, c, rest),
            },
            Tag::UnaryOperator => lemma_unary_node_fresh(ctx, st, node, rest),
            Tag::BinaryOperator => lemma_binary_node_fresh(ctx, st, node, rest),
            Tag::CallExpr => {
                let start = Sequenced::<Seq<ExprV>>::unit(Seq::empty());
                lemma_grows(st.issued, st.issued, st.issued);
                lemma_args_fresh(ctx, st, st, node.children@, 0, start, rest);
                let args = lower_args(ctx, st, node.children@, 0, start, rest);
                if out.result is Ok {
                    let w = args.result->Ok_0;
                    let rest_args = w.value.subrange(1, w.value.len() as int);
                    assert(out.result->Ok_0.value == ExprV::Call(
                        Box::new(w.value[0]),
                        rest_args,
                    ));
                    assert forall|n: Seq<char>| !expr_binds(out.result->Ok_0.value, n) by {
                        lemma_call_binds(w.value[0], rest_args, n);
                        assert(!exprs_bind(w.value, n));
                        if exprs_bind(rest_args, n) {
                            let i = choose|i: int|
                                0 <= i < rest_args.len() && expr_binds(#[trigger] rest_args[i], n);
                            assert(w.value[i + 1] == rest_args[i]);
                            assert(expr_binds(w.value[i + 1], n));
                        }
                        if expr_binds(w.value[0], n) {
                            assert(exprs_bind(w.value, n));
                        }
                    }
                }
            },
            Tag::MemberExpr => lemma_member_fresh(ctx, st, node, rest),
            _ => {},
        }
    }
}

/// As [`lemma_expr_fresh`], of a unary operator node.
pub proof fn lemma_unary_node_fresh(ctx: AstContext, st: RenamerV, node: AstNode, rest: nat)
    requires
        st.wf(),
    ensures
        expr_fresh(st, lower_unary_node(ctx, st, node, rest)),
    decreases rest, 5nat,
{
    let out = lower_unary_node(ctx, st, node, rest);
    match node.child_at(0) {
        None => {},
        Some(c) => {
            lemma_expr_fresh(ctx, st, c, rest);
            let arg = lower_expr(ctx, st, c, rest);
            if out.result is Ok {
                let a = arg.result->Ok_0;
                let w = out.result->Ok_0;
                assert(w.prefix =~= a.prefix);
                let borrowed = ExprV::AddrOfMut(Box::new(a.value));
                let cast = ExprV::Cast(Box::new(borrowed), node_types(ctx, node)->Ok_0.1);
                let place = ExprV::Unary(UnOp::Deref, Box::new(a.value));
                assert(w.value == cast || w.value == place);
                assert forall|n: Seq<char>| !expr_binds(w.value, n) by {
                    assert(expr_binds(cast, n) == expr_binds(borrowed, n));
                    assert(expr_binds(borrowed, n) == expr_binds(a.value, n));
                    assert(expr_binds(place, n) == expr_binds(a.value, n));
                }
            }
        },
    }
}

/// As [`lemma_expr_fresh`], of a binary operator node.
pub proof fn lemma_binary_node_fresh(ctx: AstContext, st: RenamerV, node: AstNode, rest: nat)
    requires
        st.wf(),
    ensures
        expr_fresh(st, lower_binary_node(ctx, st, node, rest)),
    decreases rest, 5nat,
{
    let out = lower_binary_node(ctx, st, node, rest);
    match binary_parts(node) {
        Err(_) => {},
        Ok(parts) => {
            lemma_expr_sound(ctx, st, parts.lhs, rest);
            lemma_expr_fresh(ctx, st, parts.lhs, rest);
            let lo = lower_expr(ctx, st, parts.lhs, rest);
            if lo.result is Ok {
                let l = lo.result->Ok_0;
                lemma_expr_sound(ctx, lo.state, parts.rhs, rest);
                lemma_expr_fresh(ctx, lo.state, parts.rhs, rest);
                let ro = lower_expr(ctx, lo.state, parts.rhs, rest);
                if ro.result is Ok {
                    let r = ro.result->Ok_0;
                    match operand_types(ctx, node, parts) {
                        Err(_) => {},
                        Ok(types) => {
                            lemma_binary_spec_sound(
                                ctx,
                                ro.state,
                                parts.name,
                                types.0,
                                types.1,
                                types.2,
                                l.value,
                                r.value,
                            );
                            lemma_binary_fresh(
                                ctx,
                                ro.state,
                                parts.name,
                                types.0,
                                types.1,
                                types.2,
                                l.value,
                                r.value,
                            );
                            let bin = binary_spec(
                                ctx,
                                ro.state,
                                parts.name,
                                types.0,
                                types.1,
                                types.2,
                                l.value,
                                r.value,
                            );
                            if bin.result is Ok {
                                let b = bin.result->Ok_0;
                                let w = out.result->Ok_0;
                                assert(w.prefix == (l.prefix + r.prefix) + b.prefix);
                                assert(w.value == b.value);
                                lemma_new_widen(st, lo.state, ro.state);
                                lemma_grows(st.issued, lo.state.issued, ro.state.issued);
                                lemma_new_widen(st, ro.state, bin.state);
                                assert forall|n: Seq<char>|
                                    !(stmts_bind(l.prefix, n) && stmts_bind(r.prefix, n)) by {
                                    if stmts_bind(l.prefix, n) && stmts_bind(r.prefix, n) {
                                        assert(new_in(st, lo.state, n));
                                        assert(new_in(lo.state, ro.state, n));
                                    }
                                }
                                lemma_concat_distinct(l.prefix, r.prefix);
                                assert forall|n: Seq<char>|
                                    !(stmts_bind(l.prefix + r.prefix, n) && stmts_bind(
                                        b.prefix,
                                        n,
                                    )) by {
                                    lemma_concat_binds(l.prefix, r.prefix, n);
                                    if stmts_bind(b.prefix, n) {
                                        assert(new_in(ro.state, bin.state, n));
                                    }
                                    if stmts_bind(l.prefix, n) {
                                        assert(new_in(st, lo.state, n));
                                        assert(new_in(st, ro.state, n));
                                    }
                                    if stmts_bind(r.prefix, n) {
                                        assert(new_in(lo.state, ro.state, n));
                                    }
                                }
                                lemma_concat_distinct(l.prefix + r.prefix, b.prefix);
                                assert forall|n: Seq<char>|
                                    stmts_bind(w.prefix, n) implies new_in(st, bin.state, n) by {
                                    lemma_concat_binds(l.prefix, r.prefix, n);
                                    lemma_concat_binds(l.prefix + r.prefix, b.prefix, n);
                                    if stmts_bind(l.prefix, n) {
                                        assert(new_in(st, lo.state, n));
                                        assert(new_in(st, ro.state, n));
                                    } else if stmts_bind(r.prefix, n) {
                                        assert(new_in(lo.state, ro.state, n));
                                        assert(new_in(st, ro.state, n));
                                    } else {
                                        assert(new_in(ro.state, bin.state, n));
                                    }
                                }
                            }
                        },
                    }
                }
            }
        },
    }
}

/// As [`lemma_expr_fresh`], of the children of a call from position `from` on, given
/// that it holds of those before, which were lowered between `base` and `st`.
pub proof fn lemma_args_fresh(
    ctx: AstContext,
    base: RenamerV,
    st: RenamerV,
    children: Seq<Option<u64>>,
    from: nat,
    acc: Sequenced<Seq<ExprV>>,
    fuel: nat,
)
    requires
        st.wf(),
        grows(base.issued, st.issued),
        args_fresh(base, st, acc),
    ensures
        ({
            let out = lower_args(ctx, st, children, from, acc, fuel);
            out.result is Ok ==> args_fresh(base, out.state, out.result->Ok_0)
        }),
    decreases fuel, 10 + children.len() - from,
{
    if from < children.len() {
        match children[from as int] {
            None => {},
            Some(c) => {
                lemma_expr_sound(ctx, st, c, fuel);
                lemma_expr_fresh(ctx, st, c, fuel);
                let one = lower_expr(ctx, st, c, fuel);
                if one.result is Ok {
                    let w = one.result->Ok_0;
                    let next = Sequenced {
                        prefix: acc.prefix + w.prefix,
                        value: acc.value.push(w.value),
                    };
                    lemma_new_widen(base, st, one.state);
                    lemma_grows(base.issued, st.issued, one.state.issued);
                    assert forall|n: Seq<char>|
                        !exprs_bind(next.value, n) && (stmts_bind(next.prefix, n) ==> new_in(
                            base,
                            one.state,
                            n,
                        )) by {
                        lemma_concat_binds(acc.prefix, w.prefix, n);
                        lemma_push_exprs_bind(acc.value, w.value, n);
                        assert(!expr_binds(w.value, n));
                        assert(!exprs_bind(acc.value, n));
                    }
                    assert forall|n: Seq<char>|
                        !(stmts_bind(acc.prefix, n) && stmts_bind(w.prefix, n)) by {
                        if stmts_bind(acc.prefix, n) && stmts_bind(w.prefix, n) {
                            assert(new_in(base, st, n));
                            assert(new_in(st, one.state, n));
                        }
                    }
                    lemma_concat_distinct(acc.prefix, w.prefix);
                    lemma_args_fresh(ctx, base, one.state, children, from + 1, next, fuel);
                }
            },
        }
    }
}

/// As [`lemma_expr_fresh`], of a member expression.
pub proof fn lemma_member_fresh(ctx: AstContext, st: RenamerV, node: AstNode, rest: nat)
    requires
        st.wf(),
    ensures
        expr_fresh(st, lower_member(ctx, st, node, rest)),
    decreases rest, 5nat,
{
    let out = lower_member(ctx, st, node, rest);
    match node.child_at(0) {
        None => {},
        Some(b) => {
            lemma_expr_fresh(ctx, st, b, rest);
            let base = lower_expr(ctx, st, b, rest);
            if out.result is Ok {
                let w = base.result->Ok_0;
                let name = crate::lowering::field_name(ctx, node)->Ok_0;
                let field = ExprV::Field(Box::new(w.value), name);
                assert(out.result->Ok_0.value == field);
                assert forall|n: Seq<char>| !expr_binds(field, n) by {
                    assert(expr_binds(field, n) == expr_binds(w.value, n));
                }
            }
        },
    }
}

/// Every name that the statement at `id` binds, at any depth, was given out during
/// its lowering: none is a name given out before.
pub proof fn lemma_stmt_fresh(ctx: AstContext, st: RenamerV, id: u64, fuel: nat)
    requires
        st.wf(),
    ensures
        lower_stmt(ctx, st, id, fuel).result is Ok ==> stmts_fresh(
            st,
            lower_stmt(ctx, st, id, fuel).state,
            lower_stmt(ctx, st, id, fuel).result->Ok_0,
        ),
    decreases fuel, 4nat,
{
    if fuel != 0 {
        let rest = (fuel - 1) as nat;
        let out = lower_stmt(ctx, st, id, fuel);
        lemma_grows(st.issued, st.issued, st.issued);
        match ctx.node_at(id) {
            Err(_) => {},
            Ok(node) => match node.tag {
                Tag::DeclStmt => {
                    lemma_decls_fresh(ctx, st, st, node.children@, 0, Seq::empty(), rest);
                },
                Tag::ReturnStmt => match return_part(node) {
                    Err(_) => {},
                    Ok(value) => lemma_return_fresh(ctx, st, value, rest),
                },
                Tag::IfStmt => match if_parts(node) {
                    Err(_) => {},
                    Ok(parts) => lemma_if_fresh(ctx, st, parts.0, parts.1, parts.2, rest),
                },
                Tag::WhileStmt => match while_parts(node) {
                    Err(_) => {},
                    Ok(parts) => lemma_while_fresh(ctx, st, parts.0, parts.1, rest),
                },
                Tag::NullStmt => {},
                Tag::CompoundStmt => {
                    lemma_steps_wf(st, Seq::empty(), Seq::empty());
                    let opened = st.add_scope();
                    lemma_grows(opened.issued, opened.issued, opened.issued);
                    lemma_items_fresh(ctx, opened, opened, node.children@, 0, Seq::empty(), rest);
                    let items = lower_items(ctx, opened, node.children@, 0, Seq::empty(), rest);
                    if items.result is Ok {
                        let inner = items.result->Ok_0;
                        let one = seq![StmtV::Expr(ExprV::Block(block_of(inner)))];
                        assert(out.result->Ok_0 == one);
                        assert(out.state.issued == items.state.issued);
                        lemma_block_of_distinct(inner);
                        lemma_block_distinct(block_of(inner));
                        lemma_single_distinct(StmtV::Expr(ExprV::Block(block_of(inner))));
                        assert forall|n: Seq<char>| stmts_bind(one, n) implies new_in(
                            st,
                            out.state,
                            n,
                        ) by {
                            let i = choose|i: int|
                                0 <= i < one.len() && stmt_binds(#[trigger] one[i], n);
                            assert(one[i] == StmtV::Expr(ExprV::Block(block_of(inner))));
                            lemma_block_expr_binds(block_of(inner), n);
                            lemma_block_binds(inner, n);
                            assert(new_in(opened, items.state, n));
                        }
                    }
                },
                _ => {
                    lemma_expr_node_fresh(ctx, st, node, fuel);
                    let e = lower_expr_node(ctx, st, node, fuel);
                    if e.result is Ok {
                        let w = e.result->Ok_0;
                        lemma_plain_distinct(w.value);
                        assert forall|n: Seq<char>| !stmt_binds(StmtV::Expr(w.value), n) by {
                            assert(!expr_binds(w.value, n));
                        }
                        lemma_push_distinct(w.prefix, StmtV::Expr(w.value));
                        assert forall|n: Seq<char>|
                            stmts_bind(w.prefix.push(StmtV::Expr(w.value)), n) implies new_in(
                            st,
                            e.state,
                            n,
                        ) by {
                            lemma_push_binds(w.prefix, StmtV::Expr(w.value), n);
                            assert(!expr_binds(w.value, n));
                        }
                    }
                },
            },
        }
    }
}

/// As [`lemma_stmt_fresh`], of the statements among `children` from position `from`
/// on, given that it holds of those before, which were lowered between `base` and
/// `st`.
pub proof fn lemma_items_fresh(
    ctx: AstContext,
    base: RenamerV,
    st: RenamerV,
    children: Seq<Option<u64>>,
    from: nat,
    acc: Seq<StmtV>,
    fuel: nat,
)
    requires
        st.wf(),
        grows(base.issued, st.issued),
        stmts_fresh(base, st, acc),
    ensures
        lower_items(ctx, st, children, from, acc, fuel).result is Ok ==> stmts_fresh(
            base,
            lower_items(ctx, st, children, from, acc, fuel).state,
            lower_items(ctx, st, children, from, acc, fuel).result->Ok_0,
        ),
    decreases fuel, 10 + children.len() - from,
{
    if from < children.len() {
        match children[from as int] {
            None => lemma_items_fresh(ctx, base, st, children, from + 1, acc, fuel),
            Some(c) => {
                lemma_stmt_sound(ctx, st, c, fuel);
                lemma_stmt_fresh(ctx, st, c, fuel);
                let one = lower_stmt(ctx, st, c, fuel);
                if one.result is Ok {
                    let s = one.result->Ok_0;
                    lemma_new_widen(base, st, one.state);
                    lemma_grows(base.issued, st.issued, one.state.issued);
                    assert forall|n: Seq<char>| stmts_bind(acc + s, n) implies new_in(
                        base,
                        one.state,
                        n,
                    ) by {
                        lemma_concat_binds(acc, s, n);
                    }
                    assert forall|n: Seq<char>| !(stmts_bind(acc, n) && stmts_bind(s, n)) by {
                        if stmts_bind(acc, n) && stmts_bind(s, n) {
                            assert(new_in(base, st, n));
                            assert(new_in(st, one.state, n));
                        }
                    }
                    lemma_concat_distinct(acc, s);
                    lemma_items_fresh(ctx, base, one.state, children, from + 1, acc + s, fuel);
                }
            },
        }
    }
}

/// As [`lemma_stmt_fresh`], of the declarations among `children` from position `from`
/// on, given that it holds of those before, which were lowered between `base` and
/// `st`.
pub proof fn lemma_decls_fresh(
    ctx: AstContext,
    base: RenamerV,
    st: RenamerV,
    children: Seq<Option<u64>>,
    from: nat,
    acc: Seq<StmtV>,
    fuel: nat,
)
    requires
        st.wf(),
        grows(base.issued, st.issued),
        stmts_fresh(base, st, acc),
    ensures
        lower_decls(ctx, st, children, from, acc, fuel).result is Ok ==> stmts_fresh(
            base,
            lower_decls(ctx, st, children, from, acc, fuel).state,
            lower_decls(ctx, st, children, from, acc, fuel).result->Ok_0,
        ),
    decreases fuel, 10 + children.len() - from,
{
    if from < children.len() {
        match children[from as int] {
            None => {},
            Some(c) => {
                lemma_decl_sound(ctx, st, c, fuel);
                lemma_decl_fresh(ctx, st, c, fuel);
                let one = lower_decl(ctx, st, c, fuel);
                if one.result is Ok {
                    let s = one.result->Ok_0;
                    lemma_new_widen(base, st, one.state);
                    lemma_grows(base.issued, st.issued, one.state.issued);
                    assert forall|n: Seq<char>| stmts_bind(acc + s, n) implies new_in(
                        base,
                        one.state,
                        n,
                    ) by {
                        lemma_concat_binds(acc, s, n);
                    }
                    assert forall|n: Seq<char>| !(stmts_bind(acc, n) && stmts_bind(s, n)) by {
                        if stmts_bind(acc, n) && stmts_bind(s, n) {
                            assert(new_in(base, st, n));
                            assert(new_in(st, one.state, n));
                        }
                    }
                    lemma_concat_distinct(acc, s);
                    lemma_decls_fresh(ctx, base, one.state, children, from + 1, acc + s, fuel);
                }
            },
        }
    }
}

/// As [`lemma_stmt_fresh`], of the declaration at `id`.
pub proof fn lemma_decl_fresh(ctx: AstContext, st: RenamerV, id: u64, fuel: nat)
    requires
        st.wf(),
    ensures
        lower_decl(ctx, st, id, fuel).result is Ok ==> stmts_fresh(
            st,
            lower_decl(ctx, st, id, fuel).state,
            lower_decl(ctx, st, id, fuel).result->Ok_0,
        ),
    decreases fuel, 4nat,
{
    if fuel != 0 {
        let rest = (fuel - 1) as nat;
        let out = lower_decl(ctx, st, id, fuel);
        match ctx.node_at(id) {
            Err(_) => {},
            Ok(node) => if node.tag is VarDecl {
                match text_at(node.extras@, 0) {
                    None => {},
                    Some(c_name) => if is_c_identifier(c_name) && !st.bound_here(c_name) {
                        let hint = hint_of(c_name);
                        let name = st.choice(hint);
                        let bound = st.insert(c_name, hint);
                        lemma_hint_identifier(c_name);
                        lemma_insert_kept(st, c_name, hint);
                        lemma_choice_free(st, hint);
                        assert(new_in(st, bound, name));
                        if node.has_slot(0) && out.result is Ok {
                            let ty = node_types(ctx, node)->Ok_0.1;
                            match node.child_at(0) {
                                None => {
                                    let b = binding(name, ty, None);
                                    let empty = Seq::<StmtV>::empty();
                                    assert(out.result->Ok_0 == empty.push(b));
                                    assert(distinct_stmt(b));
                                    lemma_single_distinct(b);
                                    assert(empty.push(b) =~= seq![b]);
                                    assert forall|n: Seq<char>|
                                        stmts_bind(empty.push(b), n) implies new_in(
                                        st,
                                        out.state,
                                        n,
                                    ) by {
                                        lemma_push_binds(empty, b, n);
                                    }
                                },
                                Some(e) => {
                                    lemma_expr_sound(ctx, bound, e, rest);
                                    lemma_expr_fresh(ctx, bound, e, rest);
                                    let v = lower_expr(ctx, bound, e, rest);
                                    let w = v.result->Ok_0;
                                    let b = binding(name, ty, Some(w.value));
                                    lemma_new_widen(st, bound, v.state);
                                    assert(out.result->Ok_0 == w.prefix.push(b));
                                    lemma_plain_distinct(w.value);
                                    assert(!expr_binds(w.value, name));
                                    assert(distinct_stmt(b));
                                    assert forall|n: Seq<char>|
                                        !(stmts_bind(w.prefix, n) && stmt_binds(b, n)) by {
                                        assert(!expr_binds(w.value, n));
                                        if stmts_bind(w.prefix, n) {
                                            assert(new_in(bound, v.state, n));
                                        }
                                    }
                                    lemma_push_distinct(w.prefix, b);
                                    assert forall|n: Seq<char>|
                                        stmts_bind(w.prefix.push(b), n) implies new_in(
                                        st,
                                        out.state,
                                        n,
                                    ) by {
                                        lemma_push_binds(w.prefix, b, n);
                                        assert(!expr_binds(w.value, n));
                                        if stmts_bind(w.prefix, n) {
                                            assert(new_in(bound, v.state, n));
                                        }
                                    }
                                },
                            }
                        }
                    },
                }
            },
        }
    }
}

/// As [`lemma_stmt_fresh`], of a return statement.
pub proof fn lemma_return_fresh(ctx: AstContext, st: RenamerV, value: Option<u64>, rest: nat)
    requires
        st.wf(),
    ensures
        lower_return(ctx, st, value, rest).result is Ok ==> stmts_fresh(
            st,
            lower_return(ctx, st, value, rest).state,
            lower_return(ctx, st, value, rest).result->Ok_0,
        ),
    decreases rest, 5nat,
{
    match value {
        None => {
            let one = seq![return_stmt(None)];
            assert(distinct_stmt(return_stmt(None)));
            lemma_single_distinct(return_stmt(None));
            assert forall|n: Seq<char>| !stmts_bind(one, n) by {
                if stmts_bind(one, n) {
                    let i = choose|i: int| 0 <= i < one.len() && stmt_binds(#[trigger] one[i], n);
                    assert(one[i] == return_stmt(None));
                }
            }
        },
        Some(e) => {
            lemma_expr_fresh(ctx, st, e, rest);
            let v = lower_expr(ctx, st, e, rest);
            if v.result is Ok {
                let w = v.result->Ok_0;
                let r = return_stmt(Some(w.value));
                lemma_plain_distinct(w.value);
                assert(distinct_stmt(r));
                assert forall|n: Seq<char>| !stmt_binds(r, n) by {
                    assert(stmt_binds(r, n) == expr_binds(w.value, n));
                    assert(!expr_binds(w.value, n));
                }
                lemma_push_distinct(w.prefix, r);
                assert forall|n: Seq<char>| stmts_bind(w.prefix.push(r), n) implies new_in(
                    st,
                    v.state,
                    n,
                ) by {
                    lemma_push_binds(w.prefix, r, n);
                    assert(stmt_binds(r, n) == expr_binds(w.value, n));
                    assert(!expr_binds(w.value, n));
                }
            }
        },
    }
}

/// As [`lemma_stmt_fresh`], of an `if`.
pub proof fn lemma_if_fresh(
    ctx: AstContext,
    st: RenamerV,
    cond: u64,
    then: u64,
    otherwise: Option<u64>,
    rest: nat,
)
    requires
        st.wf(),
    ensures
        lower_if(ctx, st, cond, then, otherwise, rest).result is Ok ==> stmts_fresh(
            st,
            lower_if(ctx, st, cond, then, otherwise, rest).state,
            lower_if(ctx, st, cond, then, otherwise, rest).result->Ok_0,
        ),
    decreases rest, 5nat,
{
    lemma_expr_sound(ctx, st, cond, rest);
    lemma_expr_fresh(ctx, st, cond, rest);
    let c = lower_expr(ctx, st, cond, rest);
    if c.result is Ok {
        let cv = c.result->Ok_0;
        lemma_stmt_sound(ctx, c.state, then, rest);
        lemma_stmt_fresh(ctx, c.state, then, rest);
        let t = lower_stmt(ctx, c.state, then, rest);
        lemma_new_widen(st, c.state, t.state);
        lemma_grows(st.issued, c.state.issued, t.state.issued);
        if t.result is Ok {
            let tv = t.result->Ok_0;
            match otherwise {
                None => {
                    let s = if_stmt(cv.value, tv, None);
                    lemma_plain_distinct(cv.value);
                    lemma_block_of_distinct(tv);
                    lemma_if_distinct(cv.value, block_of(tv), None);
                    assert(distinct_stmt(s));
                    assert forall|n: Seq<char>| !(stmts_bind(cv.prefix, n) && stmt_binds(s, n)) by {
                        lemma_if_binds(cv.value, block_of(tv), None, n);
                        assert(!expr_binds(cv.value, n));
                        if stmts_bind(block_of(tv), n) {
                            lemma_block_binds(tv, n);
                            assert(new_in(c.state, t.state, n));
                        }
                        if stmts_bind(cv.prefix, n) {
                            assert(new_in(st, c.state, n));
                        }
                    }
                    lemma_push_distinct(cv.prefix, s);
                    assert forall|n: Seq<char>|
                        stmts_bind(cv.prefix.push(s), n) implies new_in(st, t.state, n) by {
                        lemma_push_binds(cv.prefix, s, n);
                        lemma_if_binds(cv.value, block_of(tv), None, n);
                        assert(!expr_binds(cv.value, n));
                        if stmts_bind(block_of(tv), n) {
                            lemma_block_binds(tv, n);
                            assert(new_in(c.state, t.state, n));
                        }
                        if stmts_bind(cv.prefix, n) {
                            assert(new_in(st, c.state, n));
                        }
                    }
                },
                Some(x) => {
                    lemma_stmt_sound(ctx, t.state, x, rest);
                    lemma_stmt_fresh(ctx, t.state, x, rest);
                    let e = lower_stmt(ctx, t.state, x, rest);
                    lemma_new_widen(st, t.state, e.state);
                    if e.result is Ok {
                        let ev = e.result->Ok_0;
                        let s = if_stmt(cv.value, tv, Some(ev));
                        let other = ExprV::Block(block_of(ev));
                        lemma_plain_distinct(cv.value);
                        lemma_block_of_distinct(tv);
                        lemma_block_of_distinct(ev);
                        lemma_block_distinct(block_of(ev));
                        lemma_grows(c.state.issued, t.state.issued, e.state.issued);
                        assert forall|n: Seq<char>|
                            !(expr_binds(other, n) && stmts_bind(block_of(tv), n)) by {
                            lemma_block_expr_binds(block_of(ev), n);
                            if stmts_bind(block_of(ev), n) {
                                lemma_block_binds(ev, n);
                                assert(new_in(t.state, e.state, n));
                            }
                            if stmts_bind(block_of(tv), n) {
                                lemma_block_binds(tv, n);
                                assert(new_in(c.state, t.state, n));
                            }
                        }
                        lemma_if_distinct(cv.value, block_of(tv), Some(Box::new(other)));
                        assert(distinct_stmt(s));
                        assert forall|n: Seq<char>|
                            !(stmts_bind(cv.prefix, n) && stmt_binds(s, n)) by {
                            lemma_if_binds(cv.value, block_of(tv), Some(Box::new(other)), n);
                            lemma_block_expr_binds(block_of(ev), n);
                            assert(!expr_binds(cv.value, n));
                            if stmts_bind(block_of(tv), n) {
                                lemma_block_binds(tv, n);
                                assert(new_in(c.state, t.state, n));
                            }
                            if stmts_bind(block_of(ev), n) {
                                lemma_block_binds(ev, n);
                                assert(new_in(t.state, e.state, n));
                            }
                            if stmts_bind(cv.prefix, n) {
                                assert(new_in(st, c.state, n));
                            }
                        }
                        lemma_push_distinct(cv.prefix, s);
                        assert forall|n: Seq<char>|
                            stmts_bind(cv.prefix.push(s), n) implies new_in(st, e.state, n) by {
                            lemma_push_binds(cv.prefix, s, n);
                            lemma_if_binds(cv.value, block_of(tv), Some(Box::new(other)), n);
                            lemma_block_expr_binds(block_of(ev), n);
                            assert(!expr_binds(cv.value, n));
                            if stmts_bind(block_of(tv), n) {
                                lemma_block_binds(tv, n);
                                assert(new_in(c.state, t.state, n));
                                assert(new_in(st, t.state, n));
                            }
                            if stmts_bind(block_of(ev), n) {
                                lemma_block_binds(ev, n);
                                assert(new_in(t.state, e.state, n));
                            }
                            if stmts_bind(cv.prefix, n) {
                                assert(new_in(st, c.state, n));
                                assert(new_in(st, t.state, n));
                            }
                        }
                    }
                },
            }
        }
    }
}

/// As [`lemma_stmt_fresh`], of a `while`.
pub proof fn lemma_while_fresh(ctx: AstContext, st: RenamerV, cond: u64, body: u64, rest: nat)
    requires
        st.wf(),
    ensures
        lower_while(ctx, st, cond, body, rest).result is Ok ==> stmts_fresh(
            st,
            lower_while(ctx, st, cond, body, rest).state,
            lower_while(ctx, st, cond, body, rest).result->Ok_0,
        ),
    decreases rest, 5nat,
{
    lemma_expr_sound(ctx, st, cond, rest);
    lemma_expr_fresh(ctx, st, cond, rest);
    let c = lower_expr(ctx, st, cond, rest);
    if c.result is Ok {
        let cv = c.result->Ok_0;
        lemma_stmt_sound(ctx, c.state, body, rest);
        lemma_stmt_fresh(ctx, c.state, body, rest);
        let b = lower_stmt(ctx, c.state, body, rest);
        lemma_new_widen(st, c.state, b.state);
        if b.result is Ok {
            let bv = b.result->Ok_0;
            let s = while_stmt(collapse(cv), bv);
            let one = seq![s];
            assert(plain(cv.value));
            lemma_collapse_distinct(cv);
            lemma_block_of_distinct(bv);
            assert forall|n: Seq<char>|
                !(expr_binds(collapse(cv), n) && stmts_bind(block_of(bv), n)) by {
                if expr_binds(collapse(cv), n) && stmts_bind(block_of(bv), n) {
                    lemma_collapse_binds(cv, n);
                    assert(!expr_binds(cv.value, n));
                    assert(new_in(st, c.state, n));
                    lemma_block_binds(bv, n);
                    assert(new_in(c.state, b.state, n));
                }
            }
            lemma_while_distinct(collapse(cv), block_of(bv));
            assert(distinct_stmt(s));
            lemma_single_distinct(s);
            assert forall|n: Seq<char>| stmts_bind(one, n) implies new_in(st, b.state, n) by {
                let i = choose|i: int| 0 <= i < one.len() && stmt_binds(#[trigger] one[i], n);
                assert(one[i] == s);
                lemma_while_binds(collapse(cv), block_of(bv), n);
                assert(!expr_binds(cv.value, n));
                if expr_binds(collapse(cv), n) {
                    lemma_collapse_binds(cv, n);
                    assert(new_in(st, c.state, n));
                }
                if stmts_bind(block_of(bv), n) {
                    lemma_block_binds(bv, n);
                    assert(new_in(c.state, b.state, n));
                }
            }
        }
    }
}

/// Every name that the body of a function binds was given out during its lowering.
pub proof fn lemma_body_fresh(ctx: AstContext, st: RenamerV, id: u64, fuel: nat)
    requires
        st.wf(),
    ensures
        lower_body(ctx, st, id, fuel).result is Ok ==> stmts_fresh(
            st,
            lower_body(ctx, st, id, fuel).state,
            lower_body(ctx, st, id, fuel).result->Ok_0,
        ),
{
    if fuel != 0 {
        match ctx.node_at(id) {
            Err(_) => {},
            Ok(node) => if node.tag is CompoundStmt {
                let rest = (fuel - 1) as nat;
                lemma_steps_wf(st, Seq::empty(), Seq::empty());
                let opened = st.add_scope();
                lemma_grows(opened.issued, opened.issued, opened.issued);
                lemma_items_fresh(ctx, opened, opened, node.children@, 0, Seq::empty(), rest);
                let items = lower_items(ctx, opened, node.children@, 0, Seq::empty(), rest);
                let out = lower_body(ctx, st, id, fuel);
                if items.result is Ok {
                    let inner = items.result->Ok_0;
                    assert(out.result->Ok_0 == block_of(inner));
                    assert(out.state.issued == items.state.issued);
                    lemma_block_of_distinct(inner);
                    assert forall|n: Seq<char>| stmts_bind(block_of(inner), n) implies new_in(
                        st,
                        out.state,
                        n,
                    ) by {
                        lemma_block_binds(inner, n);
                        assert(new_in(opened, items.state, n));
                    }
                }
            },
        }
    }
}

/// Every parameter has a name that was given out between the two states, and no two
/// parameters have the same name.
pub open spec fn params_fresh(base: RenamerV, st: RenamerV, params: Seq<ParamV>) -> bool {
    &&& forall|i: int|
        0 <= i < params.len() ==> new_in(base, st, (#[trigger] params[i]).pat.name)
    &&& forall|i: int, j: int|
        0 <= i < j < params.len() ==> (#[trigger] params[i]).pat.name != (
        #[trigger] params[j]).pat.name
}

/// Every parameter has a name that was given out when it was bound.
pub proof fn lemma_params_fresh(
    ctx: AstContext,
    base: RenamerV,
    st: RenamerV,
    params: Seq<(Seq<char>, u64)>,
    from: nat,
    acc: Seq<ParamV>,
)
    requires
        st.wf(),
        grows(base.issued, st.issued),
        params_fresh(base, st, acc),
    ensures
        lower_params(ctx, st, params, from, acc).result is Ok ==> params_fresh(
            base,
            lower_params(ctx, st, params, from, acc).state,
            lower_params(ctx, st, params, from, acc).result->Ok_0,
        ),
    decreases params.len() - from,
{
    if from < params.len() {
        let c_name = params[from as int].0;
        if is_c_identifier(c_name) && !st.bound_here(c_name) {
            let hint = hint_of(c_name);
            let bound = st.insert(c_name, hint);
            lemma_hint_identifier(c_name);
                        lemma_insert_kept(st, c_name, hint);
            lemma_choice_free(st, hint);
            lemma_new_widen(base, st, bound);
            lemma_grows(base.issued, st.issued, bound.issued);
            match converted(ctx, params[from as int].1) {
                Err(_) => {},
                Ok(ty) => {
                    let p = ParamV {
                        pat: PatV { name: st.choice(hint), by_ref: false, mutable: false },
                        ty,
                    };
                    let next = acc.push(p);
                    assert(new_in(st, bound, st.choice(hint)));
                    assert forall|i: int| 0 <= i < next.len() implies new_in(
                        base,
                        bound,
                        (#[trigger] next[i]).pat.name,
                    ) by {
                        if i < acc.len() {
                            assert(next[i] == acc[i]);
                            assert(new_in(base, st, acc[i].pat.name));
                        }
                    }
                    assert forall|i: int, j: int| 0 <= i < j < next.len() implies (
                    #[trigger] next[i]).pat.name != (#[trigger] next[j]).pat.name by {
                        assert(next[i] == acc[i]);
                        assert(new_in(base, st, acc[i].pat.name));
                        if j < acc.len() {
                            assert(next[j] == acc[j]);
                        }
                    }
                    lemma_params_fresh(ctx, base, bound, params, from + 1, next);
                },
            }
        }
    }
}

/// The binders of a function are new and pairwise distinct: the name of every
/// parameter and every name that a binding in the body introduces, at any depth, was
/// given out by the renamer during the lowering of this function, so none of them is a
/// name that the renamer had given out before; no two parameters have the same name;
/// no two bindings in the body introduce the same name; and no binding in the body
/// introduces the name of a parameter.
pub proof fn lemma_function_fresh(
    ctx: AstContext,
    st: RenamerV,
    c_name: Seq<char>,
    params: Seq<(Seq<char>, u64)>,
    ret: u64,
    body: u64,
)
    requires
        st.wf(),
    ensures
        ({
            let out = lower_function(ctx, st, c_name, params, ret, body);
            out.result is Ok ==> out.result->Ok_0 is Fn && params_fresh(
                st,
                out.state,
                out.result->Ok_0->Fn_1,
            ) && stmts_fresh(st, out.state, out.result->Ok_0->Fn_3) && forall|i: int|
                0 <= i < out.result->Ok_0->Fn_1.len() ==> !stmts_bind(
                    out.result->Ok_0->Fn_3,
                    (#[trigger] out.result->Ok_0->Fn_1[i]).pat.name,
                )
        }),
{
    let out = lower_function(ctx, st, c_name, params, ret, body);
    if is_c_identifier(c_name) {
        let st0 = declared(st, c_name);
        lemma_declared(st, c_name);
        lemma_steps_wf(st0, Seq::empty(), Seq::empty());
        let opened = st0.add_scope();
        lemma_grows(opened.issued, opened.issued, opened.issued);
        lemma_params_sound(ctx, opened, params, 0, Seq::empty());
        lemma_params_fresh(ctx, opened, opened, params, 0, Seq::empty());
        let ps = lower_params(ctx, opened, params, 0, Seq::empty());
        if ps.result is Ok {
            let p = ps.result->Ok_0;
            match converted(ctx, ret) {
                Err(_) => {},
                Ok(r) => {
                    lemma_body_sound(ctx, ps.state, body, ctx.nodes().len());
                    lemma_body_fresh(ctx, ps.state, body, ctx.nodes().len());
                    let b = lower_body(ctx, ps.state, body, ctx.nodes().len());
                    if b.result is Ok {
                        let block = b.result->Ok_0;
                        lemma_new_widen(opened, ps.state, b.state);
                        lemma_grows(st.issued, opened.issued, ps.state.issued);
                        lemma_new_widen(st, opened, b.state);
                        lemma_grows(opened.issued, ps.state.issued, b.state.issued);
                        assert(out.result->Ok_0 == ItemV::Fn(
                            crate::lowering::declared_as(st, c_name),
                            p,
                            r,
                            block,
                        ));
                        assert(out.state.issued == b.state.issued);
                        assert forall|i: int| 0 <= i < p.len() implies new_in(
                            st,
                            out.state,
                            (#[trigger] p[i]).pat.name,
                        ) by {
                            assert(new_in(opened, ps.state, p[i].pat.name));
                            assert(new_in(opened, b.state, p[i].pat.name));
                        }
                        assert forall|n: Seq<char>| stmts_bind(block, n) implies new_in(
                            st,
                            out.state,
                            n,
                        ) by {
                            assert(new_in(ps.state, b.state, n));
                            assert(new_in(opened, b.state, n));
                        }
                        assert forall|i: int| 0 <= i < p.len() implies !stmts_bind(
                            block,
                            (#[trigger] p[i]).pat.name,
                        ) by {
                            assert(new_in(opened, ps.state, p[i].pat.name));
                            if stmts_bind(block, p[i].pat.name) {
                                assert(new_in(ps.state, b.state, p[i].pat.name));
                            }
                        }
                    }
                },
            }
        }
    }
}

} // verus!
