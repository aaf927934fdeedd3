//! The tree of the target language that lowering builds, and its mathematical view.

use vstd::prelude::*;

verus! {

/// A prefix operator of the target language.
#[derive(Clone, Copy, Debug, PartialEq, Eq)]
pub enum UnOp {
    Deref,
    Neg,
}

/// An infix operator of the target language.
#[derive(Clone, Copy, Debug, PartialEq, Eq)]
pub enum BinOp {
    Add,
    Sub,
    Mul,
    Div,
    Rem,
    And,
    Or,
    BitXor,
    BitAnd,
    BitOr,
    Shr,
    Eq,
    Ne,
    Lt,
    Gt,
    Le,
    Ge,
}

/// A type expression.
#[derive(Debug, PartialEq, Eq)]
pub enum Ty {
    /// The empty tuple.
    Unit,
    /// A path such as `libc::c_int`, one string per segment.
    Path(Vec<String>),
    /// A mutable raw pointer to the inner type.
    Ptr(Box<Ty>),
}

/// View of [`Ty`].
pub enum TyV {
    Unit,
    Path(Seq<Seq<char>>),
    Ptr(Box<TyV>),
}

/// The views of a sequence of strings, element by element.
pub open spec fn strings_view(s: Seq<String>) -> Seq<Seq<char>> {
    Seq::new(s.len(), |i: int| s[i]@)
}

/// The path `libc::name`, under which the C scalar types are known.
pub open spec fn libc_ty(name: Seq<char>) -> TyV {
    TyV::Path(seq!["libc"@, name])
}

/// The representation of C's `int`.
pub open spec fn c_int_ty() -> TyV {
    libc_ty("c_int"@)
}

impl Ty {
    pub open spec fn view(&self) -> TyV
        decreases self,
    {
        match self {
            Ty::Unit => TyV::Unit,
            Ty::Path(segments) => TyV::Path(strings_view(segments@)),
            Ty::Ptr(inner) => TyV::Ptr(Box::new(inner.view())),
        }
    }
}

/// An identifier pattern: the name that a binding introduces and how it binds.
#[derive(Debug, PartialEq, Eq)]
pub struct Pat {
    pub name: String,
    pub by_ref: bool,
    pub mutable: bool,
}

/// View of [`Pat`].
pub struct PatV {
    pub name: Seq<char>,
    pub by_ref: bool,
    pub mutable: bool,
}

impl Pat {
    pub open spec fn view(&self) -> PatV {
        PatV { name: self.name@, by_ref: self.by_ref, mutable: self.mutable }
    }
}

/// An expression.
#[derive(Debug, PartialEq, Eq)]
pub enum Expr {
    /// An integer literal without a suffix.
    IntLit(u64),
    /// A floating literal without a suffix, in decimal notation.
    FloatLit(String),
    /// A name.
    Ident(String),
    Unary(UnOp, Box<Expr>),
    Binary(BinOp, Box<Expr>, Box<Expr>),
    /// `target = value`.
    Assign(Box<Expr>, Box<Expr>),
    Call(Box<Expr>, Vec<Expr>),
    /// `receiver.method(arguments)`.
    MethodCall(Box<Expr>, String, Vec<Expr>),
    /// `base.field`.
    Field(Box<Expr>, String),
    /// `value as ty`.
    Cast(Box<Expr>, Ty),
    /// `&mut place`.
    AddrOfMut(Box<Expr>),
    Block(Block),
    If(Box<Expr>, Block, Option<Box<Expr>>),
    While(Box<Expr>, Block),
    Return(Option<Box<Expr>>),
}

/// A statement.
#[derive(Debug, PartialEq, Eq)]
pub enum Stmt {
    /// `let pat: ty = init;`
    Local(Pat, Option<Ty>, Option<Expr>),
    /// An expression in statement position.
    Expr(Expr),
}

/// A block: statements in order.
#[derive(Debug, PartialEq, Eq)]
pub struct Block {
    pub stmts: Vec<Stmt>,
}

/// View of [`Expr`].
pub enum ExprV {
    IntLit(u64),
    FloatLit(Seq<char>),
    Ident(Seq<char>),
    Unary(UnOp, Box<ExprV>),
    Binary(BinOp, Box<ExprV>, Box<ExprV>),
    Assign(Box<ExprV>, Box<ExprV>),
    Call(Box<ExprV>, Seq<ExprV>),
    MethodCall(Box<ExprV>, Seq<char>, Seq<ExprV>),
    Field(Box<ExprV>, Seq<char>),
    Cast(Box<ExprV>, TyV),
    AddrOfMut(Box<ExprV>),
    Block(Seq<StmtV>),
    If(Box<ExprV>, Seq<StmtV>, Option<Box<ExprV>>),
    While(Box<ExprV>, Seq<StmtV>),
    Return(Option<Box<ExprV>>),
}

/// View of [`Stmt`].
pub enum StmtV {
    Local(PatV, Option<TyV>, Option<ExprV>),
    Expr(ExprV),
}

impl Expr {
    pub open spec fn view(&self) -> ExprV
        decreases self,
    {
        match self {
            Expr::IntLit(n) => ExprV::IntLit(*n),
            Expr::FloatLit(text) => ExprV::FloatLit(text@),
            Expr::Ident(name) => ExprV::Ident(name@),
            Expr::Unary(op, arg) => ExprV::Unary(*op, Box::new(arg.view())),
            Expr::Binary(op, lhs, rhs) => ExprV::Binary(
                *op,
                Box::new(lhs.view()),
                Box::new(rhs.view()),
            ),
            Expr::Assign(target, value) => ExprV::Assign(
                Box::new(target.view()),
                Box::new(value.view()),
            ),
            Expr::Call(fun, args) => ExprV::Call(
                Box::new(fun.view()),
                Seq::new(
                    args@.len(),
                    |i: int|
                        if 0 <= i < args@.len() {
                            args@[i].view()
                        } else {
                            ExprV::IntLit(0)
                        },
                ),
            ),
            Expr::MethodCall(receiver, method, args) => ExprV::MethodCall(
                Box::new(receiver.view()),
                method@,
                Seq::new(
                    args@.len(),
                    |i: int|
                        if 0 <= i < args@.len() {
                            args@[i].view()
                        } else {
                            ExprV::IntLit(0)
                        },
                ),
            ),
            Expr::Field(base, field) => ExprV::Field(Box::new(base.view()), field@),
            Expr::Cast(value, ty) => ExprV::Cast(Box::new(value.view()), ty@),
            Expr::AddrOfMut(place) => ExprV::AddrOfMut(Box::new(place.view())),
            Expr::Block(block) => ExprV::Block(block.view()),
            Expr::If(cond, then, otherwise) => ExprV::If(
                Box::new(cond.view()),
                then.view(),
                match otherwise {
                    Some(e) => Some(Box::new(e.view())),
                    None => None,
                },
            ),
            Expr::While(cond, body) => ExprV::While(Box::new(cond.view()), body.view()),
            Expr::Return(value) => ExprV::Return(
                match value {
                    Some(e) => Some(Box::new(e.view())),
                    None => None,
                },
            ),
        }
    }
}

impl Stmt {
    pub open spec fn view(&self) -> StmtV
        decreases self,
    {
        match self {
            Stmt::Local(pat, ty, init) => StmtV::Local(
                pat@,
                match ty {
                    Some(t) => Some(t@),
                    None => None,
                },
                match init {
                    Some(e) => Some(e.view()),
                    None => None,
                },
            ),
            Stmt::Expr(e) => StmtV::Expr(e.view()),
        }
    }
}

impl Block {
    pub open spec fn view(&self) -> Seq<StmtV>
        decreases self,
    {
        Seq::new(
            self.stmts@.len(),
            |i: int|
                if 0 <= i < self.stmts@.len() {
                    self.stmts@[i].view()
                } else {
                    StmtV::Expr(ExprV::IntLit(0))
                },
        )
    }
}

/// The views of a sequence of expressions, element by element.
pub open spec fn exprs_view(s: Seq<Expr>) -> Seq<ExprV> {
    Seq::new(s.len(), |i: int| s[i]@)
}

/// The views of a sequence of statements, element by element.
pub open spec fn stmts_view(s: Seq<Stmt>) -> Seq<StmtV> {
    Seq::new(s.len(), |i: int| s[i]@)
}

/// The view of an optional expression.
pub open spec fn opt_expr_view(e: Option<Expr>) -> Option<ExprV> {
    match e {
        Some(e) => Some(e@),
        None => None,
    }
}

/// The view of an optional type.
pub open spec fn opt_ty_view(t: Option<Ty>) -> Option<TyV> {
    match t {
        Some(t) => Some(t@),
        None => None,
    }
}

/// An optional view, boxed.
pub open spec fn boxed(e: Option<ExprV>) -> Option<Box<ExprV>> {
    match e {
        Some(e) => Some(Box::new(e)),
        None => None,
    }
}

/// Viewing distributes over concatenation.
pub proof fn lemma_stmts_view_concat(a: Seq<Stmt>, b: Seq<Stmt>)
    ensures
        stmts_view(a + b) == stmts_view(a) + stmts_view(b),
{
    assert(stmts_view(a + b) =~= stmts_view(a) + stmts_view(b));
}

/// Viewing distributes over appending one statement.
pub proof fn lemma_stmts_view_push(a: Seq<Stmt>, s: Stmt)
    ensures
        stmts_view(a.push(s)) == stmts_view(a).push(s@),
{
    assert(stmts_view(a.push(s)) =~= stmts_view(a).push(s@));
}

/// Viewing distributes over appending one expression.
pub proof fn lemma_exprs_view_push(a: Seq<Expr>, e: Expr)
    ensures
        exprs_view(a.push(e)) == exprs_view(a).push(e@),
{
    assert(exprs_view(a.push(e)) =~= exprs_view(a).push(e@));
}

impl Ty {
    pub fn unit() -> (t: Ty)
        ensures
            t@ == TyV::Unit,
    {
        Ty::Unit
    }

    pub fn path(segments: Vec<String>) -> (t: Ty)
        ensures
            t@ == TyV::Path(strings_view(segments@)),
    {
        Ty::Path(segments)
    }

    /// The one-segment path `name`.
    pub fn named(name: String) -> (t: Ty)
        ensures
            t@ == TyV::Path(seq![name@]),
    {
        let mut segments: Vec<String> = Vec::new();
        segments.push(name);
        assert(strings_view(segments@) =~= seq![name@]);
        Ty::Path(segments)
    }

    /// The path `libc::name`.
    pub fn libc(name: &str) -> (t: Ty)
        ensures
            t@ == libc_ty(name@),
    {
        let mut segments: Vec<String> = Vec::new();
        segments.push("libc".to_owned());
        segments.push(name.to_owned());
        assert(strings_view(segments@) =~= seq!["libc"@, name@]);
        Ty::Path(segments)
    }

    pub fn ptr(inner: Ty) -> (t: Ty)
        ensures
            t@ == TyV::Ptr(Box::new(inner@)),
    {
        Ty::Ptr(Box::new(inner))
    }
}

impl Pat {
    /// `name`: binds by value, immutably.
    pub fn ident(name: String) -> (p: Pat)
        ensures
            p@ == (PatV { name: name@, by_ref: false, mutable: false }),
    {
        Pat { name, by_ref: false, mutable: false }
    }

    /// `mut name`: binds by value, mutably.
    pub fn ident_mut(name: String) -> (p: Pat)
        ensures
            p@ == (PatV { name: name@, by_ref: false, mutable: true }),
    {
        Pat { name, by_ref: false, mutable: true }
    }

    /// `ref mut name`: binds a mutable reference to the place matched.
    pub fn ident_ref_mut(name: String) -> (p: Pat)
        ensures
            p@ == (PatV { name: name@, by_ref: true, mutable: true }),
    {
        Pat { name, by_ref: true, mutable: true }
    }
}

impl Expr {
    pub fn int_lit(value: u64) -> (e: Expr)
        ensures
            e@ == ExprV::IntLit(value),
    {
        Expr::IntLit(value)
    }

    pub fn float_lit(text: String) -> (e: Expr)
        ensures
            e@ == ExprV::FloatLit(text@),
    {
        Expr::FloatLit(text)
    }

    pub fn ident(name: String) -> (e: Expr)
        ensures
            e@ == ExprV::Ident(name@),
    {
        Expr::Ident(name)
    }

    pub fn unary(op: UnOp, arg: Expr) -> (e: Expr)
        ensures
            e@ == ExprV::Unary(op, Box::new(arg@)),
    {
        Expr::Unary(op, Box::new(arg))
    }

    pub fn binary(op: BinOp, lhs: Expr, rhs: Expr) -> (e: Expr)
        ensures
            e@ == ExprV::Binary(op, Box::new(lhs@), Box::new(rhs@)),
    {
        Expr::Binary(op, Box::new(lhs), Box::new(rhs))
    }

    pub fn assign(target: Expr, value: Expr) -> (e: Expr)
        ensures
            e@ == ExprV::Assign(Box::new(target@), Box::new(value@)),
    {
        Expr::Assign(Box::new(target), Box::new(value))
    }

    pub fn call(fun: Expr, args: Vec<Expr>) -> (e: Expr)
        ensures
            e@ == ExprV::Call(Box::new(fun@), exprs_view(args@)),
    {
        let e = Expr::Call(Box::new(fun), args);
        assert(e@->Call_1 =~= exprs_view(args@));
        e
    }

    pub fn method_call(receiver: Expr, method: String, args: Vec<Expr>) -> (e: Expr)
        ensures
            e@ == ExprV::MethodCall(Box::new(receiver@), method@, exprs_view(args@)),
    {
        let e = Expr::MethodCall(Box::new(receiver), method, args);
        assert(e@->MethodCall_2 =~= exprs_view(args@));
        e
    }

    /// `receiver.method(arg)`.
    pub fn method_call1(receiver: Expr, method: &str, arg: Expr) -> (e: Expr)
        ensures
            e@ == ExprV::MethodCall(Box::new(receiver@), method@, seq![arg@]),
    {
        let mut args: Vec<Expr> = Vec::new();
        args.push(arg);
        assert(exprs_view(args@) =~= seq![arg@]);
        Expr::method_call(receiver, method.to_owned(), args)
    }

    pub fn field(base: Expr, field: String) -> (e: Expr)
        ensures
            e@ == ExprV::Field(Box::new(base@), field@),
    {
        Expr::Field(Box::new(base), field)
    }

    pub fn cast(value: Expr, ty: Ty) -> (e: Expr)
        ensures
            e@ == ExprV::Cast(Box::new(value@), ty@),
    {
        Expr::Cast(Box::new(value), ty)
    }

    pub fn addr_of_mut(place: Expr) -> (e: Expr)
        ensures
            e@ == ExprV::AddrOfMut(Box::new(place@)),
    {
        Expr::AddrOfMut(Box::new(place))
    }

    pub fn block(block: Block) -> (e: Expr)
        ensures
            e@ == ExprV::Block(block@),
    {
        Expr::Block(block)
    }

    pub fn if_else(cond: Expr, then: Block, otherwise: Option<Expr>) -> (e: Expr)
        ensures
            e@ == ExprV::If(Box::new(cond@), then@, boxed(opt_expr_view(otherwise))),
    {
        match otherwise {
            Some(o) => Expr::If(Box::new(cond), then, Some(Box::new(o))),
            None => Expr::If(Box::new(cond), then, None),
        }
    }

    pub fn while_loop(cond: Expr, body: Block) -> (e: Expr)
        ensures
            e@ == ExprV::While(Box::new(cond@), body@),
    {
        Expr::While(Box::new(cond), body)
    }

    pub fn ret(value: Option<Expr>) -> (e: Expr)
        ensures
            e@ == ExprV::Return(boxed(opt_expr_view(value))),
    {
        match value {
            Some(v) => Expr::Return(Some(Box::new(v))),
            None => Expr::Return(None),
        }
    }
}

impl Stmt {
    pub fn local(pat: Pat, ty: Option<Ty>, init: Option<Expr>) -> (s: Stmt)
        ensures
            s@ == StmtV::Local(pat@, opt_ty_view(ty), opt_expr_view(init)),
    {
        Stmt::Local(pat, ty, init)
    }

    pub fn expr(e: Expr) -> (s: Stmt)
        ensures
            s@ == StmtV::Expr(e@),
    {
        Stmt::Expr(e)
    }
}

impl Block {
    pub fn new(stmts: Vec<Stmt>) -> (b: Block)
        ensures
            b@ == stmts_view(stmts@),
    {
        let b = Block { stmts };
        assert(b@ =~= stmts_view(stmts@));
        b
    }
}

/// A parameter of a function.
#[derive(Debug, PartialEq, Eq)]
pub struct Param {
    pub pat: Pat,
    pub ty: Ty,
}

/// View of [`Param`].
pub struct ParamV {
    pub pat: PatV,
    pub ty: TyV,
}

impl Param {
    pub open spec fn view(&self) -> ParamV {
        ParamV { pat: self.pat@, ty: self.ty@ }
    }
}

/// A field of a struct.
#[derive(Debug, PartialEq, Eq)]
pub struct FieldDef {
    pub name: String,
    pub ty: Ty,
}

/// View of [`FieldDef`].
pub struct FieldDefV {
    pub name: Seq<char>,
    pub ty: TyV,
}

impl FieldDef {
    pub open spec fn view(&self) -> FieldDefV {
        FieldDefV { name: self.name@, ty: self.ty@ }
    }
}

/// A top-level item.
#[derive(Debug, PartialEq, Eq)]
pub enum Item {
    /// `fn name(params) -> ret body`.
    Fn(String, Vec<Param>, Ty, Block),
    /// `struct name { fields }`.
    Struct(String, Vec<FieldDef>),
    /// `type name = ty;`.
    TypeAlias(String, Ty),
}

/// View of [`Item`].
pub enum ItemV {
    Fn(Seq<char>, Seq<ParamV>, TyV, Seq<StmtV>),
    Struct(Seq<char>, Seq<FieldDefV>),
    TypeAlias(Seq<char>, TyV),
}

/// The views of a sequence of parameters, element by element.
pub open spec fn params_view(s: Seq<Param>) -> Seq<ParamV> {
    Seq::new(s.len(), |i: int| s[i]@)
}

/// The views of a sequence of fields, element by element.
pub open spec fn fields_view(s: Seq<FieldDef>) -> Seq<FieldDefV> {
    Seq::new(s.len(), |i: int| s[i]@)
}

impl Item {
    pub open spec fn view(&self) -> ItemV {
        match self {
            Item::Fn(name, params, ret, body) => ItemV::Fn(
                name@,
                params_view(params@),
                ret@,
                body@,
            ),
            Item::Struct(name, fields) => ItemV::Struct(name@, fields_view(fields@)),
            Item::TypeAlias(name, ty) => ItemV::TypeAlias(name@, ty@),
        }
    }
}

/// The views of a sequence of items, element by element.
pub open spec fn items_view(s: Seq<Item>) -> Seq<ItemV> {
    Seq::new(s.len(), |i: int| s[i]@)
}

} // verus!
