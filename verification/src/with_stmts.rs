//! A value together with the statements that must run before it is used.

use crate::target::{stmts_view, Block, Expr, ExprV, Stmt, StmtV};
use crate::target::{lemma_stmts_view_concat, lemma_stmts_view_push};
use vstd::prelude::*;

verus! {

/// The mathematical model of [`WithStmts`]: a prefix of statements and a value.
pub struct Sequenced<T> {
    pub prefix: Seq<StmtV>,
    pub value: T,
}

impl<T> Sequenced<T> {
    /// The value alone, with nothing to run before it.
    pub open spec fn unit(value: T) -> Sequenced<T> {
        Sequenced { prefix: Seq::empty(), value }
    }

    /// Sequencing: what `next` yields for this value, run after this prefix.
    pub open spec fn bind<U>(self, next: spec_fn(T) -> Sequenced<U>) -> Sequenced<U> {
        Sequenced { prefix: self.prefix + next(self.value).prefix, value: next(self.value).value }
    }

    /// The value transformed, the prefix untouched.
    pub open spec fn map<U>(self, f: spec_fn(T) -> U) -> Sequenced<U> {
        Sequenced { prefix: self.prefix, value: f(self.value) }
    }

    /// The same value behind a longer prefix.
    pub open spec fn after(self, before: Seq<StmtV>) -> Sequenced<T> {
        Sequenced { prefix: before + self.prefix, value: self.value }
    }
}

/// One expression that stands for a prefix and a value: the value itself where the
/// prefix is empty, else a block that runs the prefix and ends in the value.
pub open spec fn collapse(w: Sequenced<ExprV>) -> ExprV {
    if w.prefix.len() == 0 {
        w.value
    } else {
        ExprV::Block(w.prefix.push(StmtV::Expr(w.value)))
    }
}

/// The block that holds the given statements: where they are one block expression and
/// nothing else, that block itself.
pub open spec fn block_of(stmts: Seq<StmtV>) -> Seq<StmtV> {
    if stmts.len() == 1 && stmts[0] is Expr && stmts[0]->Expr_0 is Block {
        stmts[0]->Expr_0->Block_0
    } else {
        stmts
    }
}

/// A value and the statements to run before it is used.
#[derive(Debug, PartialEq, Eq)]
pub struct WithStmts<T> {
    pub stmts: Vec<Stmt>,
    pub val: T,
}

impl<T> WithStmts<T> {
    pub open spec fn view(&self) -> Sequenced<T> {
        Sequenced { prefix: stmts_view(self.stmts@), value: self.val }
    }

    /// `val` with an empty prefix.
    pub fn new(val: T) -> (r: Self)
        ensures
            r@ == Sequenced::unit(val),
    {
        let r = WithStmts { stmts: Vec::new(), val };
        assert(r@.prefix =~= Seq::empty());
        r
    }

    /// Hands the value to `f` and puts the statements of what `f` yields behind this
    /// prefix.
    pub fn and_then<U, F: FnOnce(T) -> WithStmts<U>>(self, f: F) -> (r: WithStmts<U>)
        requires
            f.requires((self.val,)),
        ensures
            exists|next: WithStmts<U>| #[trigger]
                f.ensures((self.val,), next) && r@ == self@.bind(|x: T| next@),
    {
        let ghost before = self;
        let mut next = f(self.val);
        let ghost yielded = next;
        let mut stmts = self.stmts;
        stmts.append(&mut next.stmts);
        let r = WithStmts { val: next.val, stmts };
        proof {
            lemma_stmts_view_concat(before.stmts@, yielded.stmts@);
            assert(r@ == before@.bind(|x: T| yielded@));
        }
        r
    }

    /// Hands the value to `f` and keeps the prefix.
    pub fn map<U, F: FnOnce(T) -> U>(self, f: F) -> (r: WithStmts<U>)
        requires
            f.requires((self.val,)),
        ensures
            f.ensures((self.val,), r.val),
            r@ == self@.map(|x: T| r.val),
            r.stmts == self.stmts,
    {
        WithStmts { val: f(self.val), stmts: self.stmts }
    }
}

impl WithStmts<Expr> {
    /// The model with the expression viewed too.
    pub open spec fn deep(&self) -> Sequenced<ExprV> {
        Sequenced { prefix: stmts_view(self.stmts@), value: self.val@ }
    }

    /// One expression for the whole: see [`collapse`].
    pub fn to_expr(self) -> (e: Expr)
        ensures
            e@ == collapse(self.deep()),
    {
        let ghost before = self.stmts@;
        let mut stmts = self.stmts;
        if stmts.is_empty() {
            self.val
        } else {
            let last = Stmt::expr(self.val);
            proof {
                lemma_stmts_view_push(before, last);
            }
            stmts.push(last);
            Expr::block(Block::new(stmts))
        }
    }
}

/// The block that holds `stmts`: see [`block_of`].
pub fn stmts_block(stmts: Vec<Stmt>) -> (b: Block)
    ensures
        b@ == block_of(stmts_view(stmts@)),
{
    let ghost before = stmts@;
    let mut stmts = stmts;
    if stmts.len() == 1 {
        match stmts.pop() {
            Some(Stmt::Expr(Expr::Block(inner))) => {
                assert(before[0] == Stmt::Expr(Expr::Block(inner)));
                assert(before[0]@ == StmtV::Expr(ExprV::Block(inner@)));
                return inner;
            },
            Some(other) => {
                stmts.push(other);
                assert(stmts@ =~= before);
            },
            None => {},
        }
    }
    Block::new(stmts)
}

/// An optional carrier turned into a carrier of an optional value: nothing gives `None`
/// with an empty prefix.
pub fn with_stmts_opt<T>(opt: Option<WithStmts<T>>) -> (r: WithStmts<Option<T>>)
    ensures
        r@ == match opt {
            Some(w) => w@.map(|v: T| Some(v)),
            None => Sequenced::unit(None),
        },
{
    match opt {
        None => WithStmts::new(None),
        Some(x) => WithStmts { stmts: x.stmts, val: Some(x.val) },
    }
}

/// Collapsing a bare value gives the value back: `collapse` undoes `unit`.
pub proof fn lemma_collapse_unit(e: ExprV)
    ensures
        collapse(Sequenced::unit(e)) == e,
{
}

/// Sequencing is associative: binding `f` and then `g` is binding the function that
/// binds `g` to what `f` yields.
pub proof fn lemma_bind_associative<T, U, V>(
    a: Sequenced<T>,
    f: spec_fn(T) -> Sequenced<U>,
    g: spec_fn(U) -> Sequenced<V>,
)
    ensures
        a.bind(f).bind(g) == a.bind(|x: T| f(x).bind(g)),
{
    let left = a.bind(f).bind(g);
    let right = a.bind(|x: T| f(x).bind(g));
    assert(left.prefix =~= right.prefix);
}

} // verus!
