//! Which names a piece of the target tree mentions: the identifiers that it uses as
//! values and the names that its bindings introduce. Names of fields, methods and
//! types are not among them.

use crate::renamer::{lookup_in, RenamerV};
use crate::target::{ExprV, ItemV, ParamV, StmtV};
use crate::with_stmts::{block_of, collapse, Sequenced};
use vstd::prelude::*;

verus! {

/// Whether `e` mentions `n`.
pub open spec fn expr_mentions(e: ExprV, n: Seq<char>) -> bool
    decreases e,
{
    match e {
        ExprV::IntLit(_) => false,
        ExprV::FloatLit(_) => false,
        ExprV::Ident(x) => x == n,
        ExprV::Unary(_, a) => expr_mentions(*a, n),
        ExprV::Binary(_, l, r) => expr_mentions(*l, n) || expr_mentions(*r, n),
        ExprV::Assign(t, v) => expr_mentions(*t, n) || expr_mentions(*v, n),
        ExprV::Call(f, args) => expr_mentions(*f, n) || exists|i: int|
            0 <= i < args.len() && expr_mentions(#[trigger] args[i], n),
        ExprV::MethodCall(r, _, args) => expr_mentions(*r, n) || exists|i: int|
            0 <= i < args.len() && expr_mentions(#[trigger] args[i], n),
        ExprV::Field(b, _) => expr_mentions(*b, n),
        ExprV::Cast(v, _) => expr_mentions(*v, n),
        ExprV::AddrOfMut(p) => expr_mentions(*p, n),
        ExprV::Block(stmts) => exists|i: int|
            0 <= i < stmts.len() && stmt_mentions(#[trigger] stmts[i], n),
        ExprV::If(c, t, o) => expr_mentions(*c, n) || (exists|i: int|
            0 <= i < t.len() && stmt_mentions(#[trigger] t[i], n)) || match o {
            Some(x) => expr_mentions(*x, n),
            None => false,
        },
        ExprV::While(c, b) => expr_mentions(*c, n) || exists|i: int|
            0 <= i < b.len() && stmt_mentions(#[trigger] b[i], n),
        ExprV::Return(v) => match v {
            Some(x) => expr_mentions(*x, n),
            None => false,
        },
    }
}

/// Whether `s` mentions `n`.
pub open spec fn stmt_mentions(s: StmtV, n: Seq<char>) -> bool
    decreases s,
{
    match s {
        StmtV::Local(pat, _, init) => pat.name == n || match init {
            Some(e) => expr_mentions(e, n),
            None => false,
        },
        StmtV::Expr(e) => expr_mentions(e, n),
    }
}

/// Whether one of `stmts` mentions `n`.
pub open spec fn stmts_mention(stmts: Seq<StmtV>, n: Seq<char>) -> bool {
    exists|i: int| 0 <= i < stmts.len() && stmt_mentions(#[trigger] stmts[i], n)
}

/// Whether one of `exprs` mentions `n`.
pub open spec fn exprs_mention(exprs: Seq<ExprV>, n: Seq<char>) -> bool {
    exists|i: int| 0 <= i < exprs.len() && expr_mentions(#[trigger] exprs[i], n)
}

/// Whether one of `stmts` is a binding of `n`, so that `n` is in scope behind them.
pub open spec fn binds(stmts: Seq<StmtV>, n: Seq<char>) -> bool {
    exists|i: int|
        0 <= i < stmts.len() && (#[trigger] stmts[i]) is Local && stmts[i]->Local_0.name == n
}

/// Whether a function item mentions `n`: as its name, as a parameter or in its body.
pub open spec fn function_mentions(
    name: Seq<char>,
    params: Seq<ParamV>,
    body: Seq<StmtV>,
    n: Seq<char>,
) -> bool {
    name == n || (exists|i: int| 0 <= i < params.len() && (#[trigger] params[i]).pat.name == n)
        || stmts_mention(body, n)
}

/// Whether `item` is a function that mentions `n`.
pub open spec fn item_mentions(item: ItemV, n: Seq<char>) -> bool {
    match item {
        ItemV::Fn(name, params, _, body) => function_mentions(name, params, body, n),
        _ => false,
    }
}

/// Whether `b` begins with `a`.
pub open spec fn grows(a: Seq<Seq<char>>, b: Seq<Seq<char>>) -> bool {
    a.len() <= b.len() && forall|i: int| 0 <= i < a.len() ==> a[i] == #[trigger] b[i]
}

/// A call mentions what its function and its arguments mention.
pub proof fn lemma_call_mentions(fun: ExprV, args: Seq<ExprV>, n: Seq<char>)
    ensures
        expr_mentions(ExprV::Call(Box::new(fun), args), n) <==> expr_mentions(fun, n)
            || exprs_mention(args, n),
{
    let e = ExprV::Call(Box::new(fun), args);
    assert(e->Call_1 == args);
    if exprs_mention(args, n) {
        let i = choose|i: int| 0 <= i < args.len() && expr_mentions(#[trigger] args[i], n);
        assert(expr_mentions(e->Call_1[i], n));
    }
}

/// A method call mentions what its receiver and its arguments mention.
pub proof fn lemma_method_call_mentions(
    receiver: ExprV,
    name: Seq<char>,
    args: Seq<ExprV>,
    n: Seq<char>,
)
    ensures
        expr_mentions(ExprV::MethodCall(Box::new(receiver), name, args), n) <==> expr_mentions(
            receiver,
            n,
        ) || exprs_mention(args, n),
{
    let e = ExprV::MethodCall(Box::new(receiver), name, args);
    assert(e->MethodCall_2 == args);
    if exprs_mention(args, n) {
        let i = choose|i: int| 0 <= i < args.len() && expr_mentions(#[trigger] args[i], n);
        assert(expr_mentions(e->MethodCall_2[i], n));
    }
}

/// A block expression mentions what its statements mention.
pub proof fn lemma_block_expr_mentions(stmts: Seq<StmtV>, n: Seq<char>)
    ensures
        expr_mentions(ExprV::Block(stmts), n) <==> stmts_mention(stmts, n),
{
    let e = ExprV::Block(stmts);
    assert(e->Block_0 == stmts);
    if stmts_mention(stmts, n) {
        let i = choose|i: int| 0 <= i < stmts.len() && stmt_mentions(#[trigger] stmts[i], n);
        assert(stmt_mentions(e->Block_0[i], n));
    }
}

/// An `if` mentions what its condition and its branches mention.
pub proof fn lemma_if_mentions(
    cond: ExprV,
    then: Seq<StmtV>,
    otherwise: Option<Box<ExprV>>,
    n: Seq<char>,
)
    ensures
        expr_mentions(ExprV::If(Box::new(cond), then, otherwise), n) <==> expr_mentions(cond, n)
            || stmts_mention(then, n) || (otherwise is Some && expr_mentions(
            *otherwise->Some_0,
            n,
        )),
{
    let e = ExprV::If(Box::new(cond), then, otherwise);
    assert(e->If_1 == then);
    if stmts_mention(then, n) {
        let i = choose|i: int| 0 <= i < then.len() && stmt_mentions(#[trigger] then[i], n);
        assert(stmt_mentions(e->If_1[i], n));
    }
}

/// A `while` mentions what its condition and its body mention.
pub proof fn lemma_while_mentions(cond: ExprV, body: Seq<StmtV>, n: Seq<char>)
    ensures
        expr_mentions(ExprV::While(Box::new(cond), body), n) <==> expr_mentions(cond, n)
            || stmts_mention(body, n),
{
    let e = ExprV::While(Box::new(cond), body);
    assert(e->While_1 == body);
    if stmts_mention(body, n) {
        let i = choose|i: int| 0 <= i < body.len() && stmt_mentions(#[trigger] body[i], n);
        assert(stmt_mentions(e->While_1[i], n));
    }
}

/// What one of two sequences of statements mentions, their concatenation mentions, and
/// nothing else; the same holds of what they bind.
pub proof fn lemma_concat_mentions(a: Seq<StmtV>, b: Seq<StmtV>, n: Seq<char>)
    ensures
        stmts_mention(a + b, n) <==> stmts_mention(a, n) || stmts_mention(b, n),
        binds(a + b, n) <==> binds(a, n) || binds(b, n),
{
    let c = a + b;
    if stmts_mention(a, n) {
        let i = choose|i: int| 0 <= i < a.len() && stmt_mentions(#[trigger] a[i], n);
        assert(c[i] == a[i]);
    }
    if stmts_mention(b, n) {
        let i = choose|i: int| 0 <= i < b.len() && stmt_mentions(#[trigger] b[i], n);
        assert(c[a.len() + i] == b[i]);
    }
    if stmts_mention(c, n) {
        let i = choose|i: int| 0 <= i < c.len() && stmt_mentions(#[trigger] c[i], n);
        if i < a.len() {
            assert(a[i] == c[i]);
        } else {
            assert(b[i - a.len()] == c[i]);
        }
    }
    if binds(a, n) {
        let i = choose|i: int|
            0 <= i < a.len() && (#[trigger] a[i]) is Local && a[i]->Local_0.name == n;
        assert(c[i] == a[i]);
    }
    if binds(b, n) {
        let i = choose|i: int|
            0 <= i < b.len() && (#[trigger] b[i]) is Local && b[i]->Local_0.name == n;
        assert(c[a.len() + i] == b[i]);
    }
    if binds(c, n) {
        let i = choose|i: int|
            0 <= i < c.len() && (#[trigger] c[i]) is Local && c[i]->Local_0.name == n;
        if i < a.len() {
            assert(a[i] == c[i]);
        } else {
            assert(b[i - a.len()] == c[i]);
        }
    }
}

/// What a sequence of statements with one more at its end mentions and binds.
pub proof fn lemma_push_mentions(a: Seq<StmtV>, s: StmtV, n: Seq<char>)
    ensures
        stmts_mention(a.push(s), n) <==> stmts_mention(a, n) || stmt_mentions(s, n),
        binds(a.push(s), n) <==> binds(a, n) || (s is Local && s->Local_0.name == n),
{
    assert(a.push(s) =~= a + seq![s]);
    lemma_concat_mentions(a, seq![s], n);
    assert(seq![s][0] == s);
}

/// What a sequence of expressions with one more at its end mentions.
pub proof fn lemma_push_exprs_mention(a: Seq<ExprV>, e: ExprV, n: Seq<char>)
    ensures
        exprs_mention(a.push(e), n) <==> exprs_mention(a, n) || expr_mentions(e, n),
{
    let c = a.push(e);
    if exprs_mention(a, n) {
        let i = choose|i: int| 0 <= i < a.len() && expr_mentions(#[trigger] a[i], n);
        assert(c[i] == a[i]);
    }
    if expr_mentions(e, n) {
        assert(c[a.len() as int] == e);
    }
    if exprs_mention(c, n) {
        let i = choose|i: int| 0 <= i < c.len() && expr_mentions(#[trigger] c[i], n);
        if i < a.len() {
            assert(a[i] == c[i]);
        }
    }
}

/// The block that holds some statements mentions only what they mention.
pub proof fn lemma_block_mentions(stmts: Seq<StmtV>, n: Seq<char>)
    requires
        stmts_mention(block_of(stmts), n),
    ensures
        stmts_mention(stmts, n),
{
    if block_of(stmts) != stmts {
        let inner = stmts[0]->Expr_0->Block_0;
        lemma_block_expr_mentions(inner, n);
        assert(stmts[0]->Expr_0 == ExprV::Block(inner));
        assert(expr_mentions(stmts[0]->Expr_0, n));
        assert(stmt_mentions(stmts[0], n));
    }
}

/// A collapsed carrier mentions only what its prefix or its value mentions.
pub proof fn lemma_collapse_mentions(w: Sequenced<ExprV>, n: Seq<char>)
    requires
        expr_mentions(collapse(w), n),
    ensures
        stmts_mention(w.prefix, n) || expr_mentions(w.value, n),
{
    if w.prefix.len() != 0 {
        lemma_block_expr_mentions(w.prefix.push(StmtV::Expr(w.value)), n);
        lemma_push_mentions(w.prefix, StmtV::Expr(w.value), n);
    }
}

/// A name that lexical lookup finds is live: some scope binds an identifier to it.
pub proof fn lemma_lookup_live(scopes: Seq<Map<Seq<char>, Seq<char>>>, c: Seq<char>)
    requires
        lookup_in(scopes, c) is Some,
    ensures
        exists|i: int|
            0 <= i < scopes.len() && #[trigger] scopes[i].contains_key(c) && scopes[i][c]
                == lookup_in(scopes, c)->Some_0,
    decreases scopes.len(),
{
    if scopes.last().contains_key(c) {
        assert(scopes[scopes.len() - 1].contains_key(c));
    } else {
        lemma_lookup_live(scopes.drop_last(), c);
        let i = choose|i: int|
            0 <= i < scopes.drop_last().len() && #[trigger] scopes.drop_last()[i].contains_key(c)
                && scopes.drop_last()[i][c] == lookup_in(scopes.drop_last(), c)->Some_0;
        assert(scopes[i] == scopes.drop_last()[i]);
        assert(scopes[i].contains_key(c));
    }
}

/// In a well-formed renamer a name that lookup finds is live and was given out.
pub proof fn lemma_lookup_issued(st: RenamerV, c: Seq<char>)
    requires
        st.wf(),
        st.lookup(c) is Some,
    ensures
        st.live(st.lookup(c)->Some_0),
        st.issued.contains(st.lookup(c)->Some_0),
{
    lemma_lookup_live(st.scopes, c);
}

/// Growing is transitive, and what a sequence holds every sequence that grows from it
/// holds.
pub proof fn lemma_grows(a: Seq<Seq<char>>, b: Seq<Seq<char>>, c: Seq<Seq<char>>)
    requires
        grows(a, b),
        grows(b, c),
    ensures
        grows(a, c),
        forall|n: Seq<char>| a.contains(n) ==> b.contains(n),
{
    assert forall|n: Seq<char>| a.contains(n) implies b.contains(n) by {
        let i = choose|i: int| 0 <= i < a.len() && a[i] == n;
        assert(b[i] == n);
    }
}

} // verus!
