//! The C operators, and what each becomes in the target language.

use crate::clang::{AstContext, TypeNode};
use crate::failure::{ConstructV, FailureV};
use crate::renamer::{fresh_hint, RenamerV};
use crate::target::{c_int_ty, BinOp, ExprV, PatV, StmtV, TyV, UnOp};
use crate::with_stmts::Sequenced;
use vstd::prelude::*;

verus! {

/// An operator that computes a value from two operands.
#[derive(Clone, Copy, Debug, PartialEq, Eq)]
pub enum Arith {
    Add,
    Sub,
    Mul,
    Div,
    Rem,
    BitXor,
    BitAnd,
    BitOr,
    Shl,
    Shr,
}

/// An operator that compares two operands.
#[derive(Clone, Copy, Debug, PartialEq, Eq)]
pub enum Relational {
    Eq,
    Ne,
    Lt,
    Gt,
    Le,
    Ge,
}

/// A short-circuit operator.
#[derive(Clone, Copy, Debug, PartialEq, Eq)]
pub enum Logical {
    And,
    Or,
}

/// A binary operator of C.
#[derive(Clone, Copy, Debug, PartialEq, Eq)]
pub enum BinaryOperator {
    Arith(Arith),
    Relational(Relational),
    Logical(Logical),
    /// `=`.
    Assign,
    /// `op=`.
    Compound(Arith),
}

/// The operator with the given spelling.
pub open spec fn parse_binary(s: Seq<char>) -> Option<BinaryOperator> {
    if s == "+"@ {
        Some(BinaryOperator::Arith(Arith::Add))
    } else if s == "-"@ {
        Some(BinaryOperator::Arith(Arith::Sub))
    } else if s == "*"@ {
        Some(BinaryOperator::Arith(Arith::Mul))
    } else if s == "/"@ {
        Some(BinaryOperator::Arith(Arith::Div))
    } else if s == "%"@ {
        Some(BinaryOperator::Arith(Arith::Rem))
    } else if s == "^"@ {
        Some(BinaryOperator::Arith(Arith::BitXor))
    } else if s == "&"@ {
        Some(BinaryOperator::Arith(Arith::BitAnd))
    } else if s == "|"@ {
        Some(BinaryOperator::Arith(Arith::BitOr))
    } else if s == "<<"@ {
        Some(BinaryOperator::Arith(Arith::Shl))
    } else if s == ">>"@ {
        Some(BinaryOperator::Arith(Arith::Shr))
    } else if s == "=="@ {
        Some(BinaryOperator::Relational(Relational::Eq))
    } else if s == "!="@ {
        Some(BinaryOperator::Relational(Relational::Ne))
    } else if s == "<"@ {
        Some(BinaryOperator::Relational(Relational::Lt))
    } else if s == ">"@ {
        Some(BinaryOperator::Relational(Relational::Gt))
    } else if s == "<="@ {
        Some(BinaryOperator::Relational(Relational::Le))
    } else if s == ">="@ {
        Some(BinaryOperator::Relational(Relational::Ge))
    } else if s == "&&"@ {
        Some(BinaryOperator::Logical(Logical::And))
    } else if s == "||"@ {
        Some(BinaryOperator::Logical(Logical::Or))
    } else if s == "="@ {
        Some(BinaryOperator::Assign)
    } else if s == "+="@ {
        Some(BinaryOperator::Compound(Arith::Add))
    } else if s == "-="@ {
        Some(BinaryOperator::Compound(Arith::Sub))
    } else if s == "*="@ {
        Some(BinaryOperator::Compound(Arith::Mul))
    } else if s == "/="@ {
        Some(BinaryOperator::Compound(Arith::Div))
    } else if s == "%="@ {
        Some(BinaryOperator::Compound(Arith::Rem))
    } else if s == "^="@ {
        Some(BinaryOperator::Compound(Arith::BitXor))
    } else if s == "&="@ {
        Some(BinaryOperator::Compound(Arith::BitAnd))
    } else if s == "|="@ {
        Some(BinaryOperator::Compound(Arith::BitOr))
    } else if s == "<<="@ {
        Some(BinaryOperator::Compound(Arith::Shl))
    } else if s == ">>="@ {
        Some(BinaryOperator::Compound(Arith::Shr))
    } else {
        None
    }
}

/// A renamer state and what a lowering gave in it: a value or the failure that ended
/// it.
pub struct Outcome<T> {
    pub state: RenamerV,
    pub result: Result<T, FailureV>,
}

impl<T> Outcome<T> {
    pub open spec fn ok(state: RenamerV, value: T) -> Outcome<T> {
        Outcome { state, result: Ok(value) }
    }

    pub open spec fn fail(state: RenamerV, failure: FailureV) -> Outcome<T> {
        Outcome { state, result: Err(failure) }
    }
}

/// `receiver.method(arg)`.
pub open spec fn method(receiver: ExprV, method: Seq<char>, arg: ExprV) -> ExprV {
    ExprV::MethodCall(Box::new(receiver), method, seq![arg])
}

/// `lhs op rhs`.
pub open spec fn native(op: BinOp, lhs: ExprV, rhs: ExprV) -> ExprV {
    ExprV::Binary(op, Box::new(lhs), Box::new(rhs))
}

/// `value as libc::c_int`: a truth value as C's `int`.
pub open spec fn as_c_int(value: ExprV) -> ExprV {
    ExprV::Cast(Box::new(value), c_int_ty())
}

/// `0 != value`: C's `int` as a truth value.
pub open spec fn as_bool(value: ExprV) -> ExprV {
    native(BinOp::Ne, ExprV::IntLit(0), value)
}

/// `*name`.
pub open spec fn deref_of(name: Seq<char>) -> ExprV {
    ExprV::Unary(UnOp::Deref, Box::new(ExprV::Ident(name)))
}

/// `let ref mut name = place;`.
pub open spec fn borrow_place(name: Seq<char>, place: ExprV) -> StmtV {
    StmtV::Local(PatV { name, by_ref: true, mutable: true }, None, Some(place))
}

/// `*name = value`, as a statement.
pub open spec fn store_through(name: Seq<char>, value: ExprV) -> StmtV {
    StmtV::Expr(ExprV::Assign(Box::new(deref_of(name)), Box::new(value)))
}

/// `lhs + rhs`: a pointer on either side is offset by the other side; else an unsigned
/// left operand adds with wrap-around; else the native sum. The operand types are
/// taken with their typedefs followed.
pub open spec fn lower_addition(
    ctx: AstContext,
    lhs_type: TypeNode,
    rhs_type: TypeNode,
    lhs: ExprV,
    rhs: ExprV,
) -> Result<ExprV, FailureV> {
    match ctx.resolved(lhs_type) {
        Err(f) => Err(f),
        Ok(l) => match ctx.resolved(rhs_type) {
            Err(f) => Err(f),
            Ok(r) => Ok(
                if l.pointer() {
                    method(lhs, "offset"@, rhs)
                } else if r.pointer() {
                    method(rhs, "offset"@, lhs)
                } else if l.unsigned_integral() {
                    method(lhs, "wrapping_add"@, rhs)
                } else {
                    native(BinOp::Add, lhs, rhs)
                },
            ),
        },
    }
}

/// `lhs - rhs`: with a pointer on the right, the distance from it to the left operand;
/// else a pointer on the left is offset by the negated right operand; else an unsigned
/// left operand subtracts with wrap-around; else the native difference.
pub open spec fn lower_subtraction(
    ctx: AstContext,
    lhs_type: TypeNode,
    rhs_type: TypeNode,
    lhs: ExprV,
    rhs: ExprV,
) -> Result<ExprV, FailureV> {
    match ctx.resolved(lhs_type) {
        Err(f) => Err(f),
        Ok(l) => match ctx.resolved(rhs_type) {
            Err(f) => Err(f),
            Ok(r) => Ok(
                if r.pointer() {
                    method(rhs, "offset_to"@, lhs)
                } else if l.pointer() {
                    method(lhs, "offset"@, ExprV::Unary(UnOp::Neg, Box::new(rhs)))
                } else if l.unsigned_integral() {
                    method(lhs, "wrapping_sub"@, rhs)
                } else {
                    native(BinOp::Sub, lhs, rhs)
                },
            ),
        },
    }
}

/// `lhs op rhs` for `*`, `/` and `%`: with wrap-around where the type of the result,
/// its typedefs followed, is unsigned; else native.
pub open spec fn lower_scaling(
    ctx: AstContext,
    wrapping: Seq<char>,
    op: BinOp,
    ctype: TypeNode,
    lhs: ExprV,
    rhs: ExprV,
) -> Result<ExprV, FailureV> {
    match ctx.resolved(ctype) {
        Err(f) => Err(f),
        Ok(c) => Ok(
            if c.unsigned_integral() {
                method(lhs, wrapping, rhs)
            } else {
                native(op, lhs, rhs)
            },
        ),
    }
}

/// What an operator that computes a value becomes. A left shift is not handled, and
/// the failure names it.
pub open spec fn lower_arith(
    ctx: AstContext,
    op: Arith,
    ctype: TypeNode,
    lhs_type: TypeNode,
    rhs_type: TypeNode,
    lhs: ExprV,
    rhs: ExprV,
) -> Result<ExprV, FailureV> {
    match op {
        Arith::Add => lower_addition(ctx, lhs_type, rhs_type, lhs, rhs),
        Arith::Sub => lower_subtraction(ctx, lhs_type, rhs_type, lhs, rhs),
        Arith::Mul => lower_scaling(ctx, "wrapping_mul"@, BinOp::Mul, ctype, lhs, rhs),
        Arith::Div => lower_scaling(ctx, "wrapping_div"@, BinOp::Div, ctype, lhs, rhs),
        Arith::Rem => lower_scaling(ctx, "wrapping_rem"@, BinOp::Rem, ctype, lhs, rhs),
        Arith::BitXor => Ok(native(BinOp::BitXor, lhs, rhs)),
        Arith::BitAnd => Ok(native(BinOp::BitAnd, lhs, rhs)),
        Arith::BitOr => Ok(native(BinOp::BitOr, lhs, rhs)),
        Arith::Shr => Ok(native(BinOp::Shr, lhs, rhs)),
        Arith::Shl => Err(FailureV::Unimplemented(ConstructV::BinaryOperator("<<"@))),
    }
}

/// The comparison of the target for one of C.
pub open spec fn comparison(op: Relational) -> BinOp {
    match op {
        Relational::Eq => BinOp::Eq,
        Relational::Ne => BinOp::Ne,
        Relational::Lt => BinOp::Lt,
        Relational::Gt => BinOp::Gt,
        Relational::Le => BinOp::Le,
        Relational::Ge => BinOp::Ge,
    }
}

/// The short-circuit operator of the target for one of C.
pub open spec fn connective(op: Logical) -> BinOp {
    match op {
        Logical::And => BinOp::And,
        Logical::Or => BinOp::Or,
    }
}

/// `lhs = rhs`: a temporary borrows the place on the left, the value on the right is
/// stored through it, and the place is what the whole yields.
pub open spec fn lower_assignment(st: RenamerV, lhs: ExprV, rhs: ExprV) -> Outcome<
    Sequenced<ExprV>,
> {
    let p = st.choice(fresh_hint());
    Outcome::ok(
        st.fresh(),
        Sequenced { prefix: seq![borrow_place(p, lhs), store_through(p, rhs)], value: deref_of(p) },
    )
}

/// `lhs op= rhs`: a temporary borrows the place on the left, `op` is lowered with the
/// place as its left operand, the result is stored through the temporary, and the
/// place is what the whole yields.
pub open spec fn lower_compound(
    ctx: AstContext,
    st: RenamerV,
    op: Arith,
    ctype: TypeNode,
    lhs_type: TypeNode,
    rhs_type: TypeNode,
    lhs: ExprV,
    rhs: ExprV,
) -> Outcome<Sequenced<ExprV>> {
    let p = st.choice(fresh_hint());
    match lower_arith(ctx, op, ctype, lhs_type, rhs_type, deref_of(p), rhs) {
        Err(f) => Outcome::fail(st.fresh(), f),
        Ok(v) => Outcome::ok(
            st.fresh(),
            Sequenced {
                prefix: seq![borrow_place(p, lhs), store_through(p, v)],
                value: deref_of(p),
            },
        ),
    }
}

/// What a binary operator becomes, and the renamer state after it.
pub open spec fn lower_binary(
    ctx: AstContext,
    st: RenamerV,
    op: BinaryOperator,
    ctype: TypeNode,
    lhs_type: TypeNode,
    rhs_type: TypeNode,
    lhs: ExprV,
    rhs: ExprV,
) -> Outcome<Sequenced<ExprV>> {
    match op {
        BinaryOperator::Arith(a) => match lower_arith(ctx, a, ctype, lhs_type, rhs_type, lhs, rhs) {
            Err(f) => Outcome::fail(st, f),
            Ok(v) => Outcome::ok(st, Sequenced::unit(v)),
        },
        BinaryOperator::Relational(r) => Outcome::ok(
            st,
            Sequenced::unit(as_c_int(native(comparison(r), lhs, rhs))),
        ),
        BinaryOperator::Logical(l) => Outcome::ok(
            st,
            Sequenced::unit(native(connective(l), lhs, rhs)),
        ),
        BinaryOperator::Assign => lower_assignment(st, lhs, rhs),
        BinaryOperator::Compound(a) => lower_compound(
            ctx,
            st,
            a,
            ctype,
            lhs_type,
            rhs_type,
            lhs,
            rhs,
        ),
    }
}

/// What the binary operator spelled `name` becomes. A spelling that names no operator
/// is not handled, and the failure holds the spelling.
pub open spec fn binary_spec(
    ctx: AstContext,
    st: RenamerV,
    name: Seq<char>,
    ctype: TypeNode,
    lhs_type: TypeNode,
    rhs_type: TypeNode,
    lhs: ExprV,
    rhs: ExprV,
) -> Outcome<Sequenced<ExprV>> {
    match parse_binary(name) {
        None => Outcome::fail(st, FailureV::Unimplemented(ConstructV::BinaryOperator(name))),
        Some(op) => lower_binary(ctx, st, op, ctype, lhs_type, rhs_type, lhs, rhs),
    }
}

/// What the unary operator spelled `name` becomes: `&` takes the address of its
/// operand as a mutable borrow and casts it to the type of the whole; `*` is the place
/// that its operand points to. No other operator is handled, and the failure holds
/// the spelling.
pub open spec fn unary_spec(name: Seq<char>, ty: TyV, arg: ExprV) -> Result<
    Sequenced<ExprV>,
    FailureV,
> {
    if name == "&"@ {
        Ok(Sequenced::unit(ExprV::Cast(Box::new(ExprV::AddrOfMut(Box::new(arg))), ty)))
    } else if name == "*"@ {
        Ok(Sequenced::unit(ExprV::Unary(UnOp::Deref, Box::new(arg))))
    } else {
        Err(FailureV::Unimplemented(ConstructV::UnaryOperator(name)))
    }
}

/// Whether two texts are equal.
pub fn same_text(a: &str, b: &str) -> (r: bool)
    ensures
        r == (a@ == b@),
{
    a.to_owned() == b.to_owned()
}

/// The operator with the given spelling.
pub fn parse_binary_operator(name: &str) -> (r: Option<BinaryOperator>)
    ensures
        r == parse_binary(name@),
{
    if same_text(name, "+") {
        Some(BinaryOperator::Arith(Arith::Add))
    } else if same_text(name, "-") {
        Some(BinaryOperator::Arith(Arith::Sub))
    } else if same_text(name, "*") {
        Some(BinaryOperator::Arith(Arith::Mul))
    } else if same_text(name, "/") {
        Some(BinaryOperator::Arith(Arith::Div))
    } else if same_text(name, "%") {
        Some(BinaryOperator::Arith(Arith::Rem))
    } else if same_text(name, "^") {
        Some(BinaryOperator::Arith(Arith::BitXor))
    } else if same_text(name, "&") {
        Some(BinaryOperator::Arith(Arith::BitAnd))
    } else if same_text(name, "|") {
        Some(BinaryOperator::Arith(Arith::BitOr))
    } else if same_text(name, "<<") {
        Some(BinaryOperator::Arith(Arith::Shl))
    } else if same_text(name, ">>") {
        Some(BinaryOperator::Arith(Arith::Shr))
    } else if same_text(name, "==") {
        Some(BinaryOperator::Relational(Relational::Eq))
    } else if same_text(name, "!=") {
        Some(BinaryOperator::Relational(Relational::Ne))
    } else if same_text(name, "<") {
        Some(BinaryOperator::Relational(Relational::Lt))
    } else if same_text(name, ">") {
        Some(BinaryOperator::Relational(Relational::Gt))
    } else if same_text(name, "<=") {
        Some(BinaryOperator::Relational(Relational::Le))
    } else if same_text(name, ">=") {
        Some(BinaryOperator::Relational(Relational::Ge))
    } else if same_text(name, "&&") {
        Some(BinaryOperator::Logical(Logical::And))
    } else if same_text(name, "||") {
        Some(BinaryOperator::Logical(Logical::Or))
    } else if same_text(name, "=") {
        Some(BinaryOperator::Assign)
    } else if same_text(name, "+=") {
        Some(BinaryOperator::Compound(Arith::Add))
    } else if same_text(name, "-=") {
        Some(BinaryOperator::Compound(Arith::Sub))
    } else if same_text(name, "*=") {
        Some(BinaryOperator::Compound(Arith::Mul))
    } else if same_text(name, "/=") {
        Some(BinaryOperator::Compound(Arith::Div))
    } else if same_text(name, "%=") {
        Some(BinaryOperator::Compound(Arith::Rem))
    } else if same_text(name, "^=") {
        Some(BinaryOperator::Compound(Arith::BitXor))
    } else if same_text(name, "&=") {
        Some(BinaryOperator::Compound(Arith::BitAnd))
    } else if same_text(name, "|=") {
        Some(BinaryOperator::Compound(Arith::BitOr))
    } else if same_text(name, "<<=") {
        Some(BinaryOperator::Compound(Arith::Shl))
    } else if same_text(name, ">>=") {
        Some(BinaryOperator::Compound(Arith::Shr))
    } else {
        None
    }
}

/// The table of spellings: each of these texts is the spelling of the operator beside
/// it, and of no other.
pub proof fn lemma_spellings()
    ensures
        parse_binary("+"@) == Some(BinaryOperator::Arith(Arith::Add)),
        parse_binary("-"@) == Some(BinaryOperator::Arith(Arith::Sub)),
        parse_binary("*"@) == Some(BinaryOperator::Arith(Arith::Mul)),
        parse_binary("/"@) == Some(BinaryOperator::Arith(Arith::Div)),
        parse_binary("%"@) == Some(BinaryOperator::Arith(Arith::Rem)),
        parse_binary("^"@) == Some(BinaryOperator::Arith(Arith::BitXor)),
        parse_binary("&"@) == Some(BinaryOperator::Arith(Arith::BitAnd)),
        parse_binary("|"@) == Some(BinaryOperator::Arith(Arith::BitOr)),
        parse_binary("<<"@) == Some(BinaryOperator::Arith(Arith::Shl)),
        parse_binary(">>"@) == Some(BinaryOperator::Arith(Arith::Shr)),
        parse_binary("=="@) == Some(BinaryOperator::Relational(Relational::Eq)),
        parse_binary("!="@) == Some(BinaryOperator::Relational(Relational::Ne)),
        parse_binary("<"@) == Some(BinaryOperator::Relational(Relational::Lt)),
        parse_binary(">"@) == Some(BinaryOperator::Relational(Relational::Gt)),
        parse_binary("<="@) == Some(BinaryOperator::Relational(Relational::Le)),
        parse_binary(">="@) == Some(BinaryOperator::Relational(Relational::Ge)),
        parse_binary("&&"@) == Some(BinaryOperator::Logical(Logical::And)),
        parse_binary("||"@) == Some(BinaryOperator::Logical(Logical::Or)),
        parse_binary("="@) == Some(BinaryOperator::Assign),
        parse_binary("+="@) == Some(BinaryOperator::Compound(Arith::Add)),
        parse_binary("-="@) == Some(BinaryOperator::Compound(Arith::Sub)),
        parse_binary("*="@) == Some(BinaryOperator::Compound(Arith::Mul)),
        parse_binary("/="@) == Some(BinaryOperator::Compound(Arith::Div)),
        parse_binary("%="@) == Some(BinaryOperator::Compound(Arith::Rem)),
        parse_binary("^="@) == Some(BinaryOperator::Compound(Arith::BitXor)),
        parse_binary("&="@) == Some(BinaryOperator::Compound(Arith::BitAnd)),
        parse_binary("|="@) == Some(BinaryOperator::Compound(Arith::BitOr)),
        parse_binary("<<="@) == Some(BinaryOperator::Compound(Arith::Shl)),
        parse_binary(">>="@) == Some(BinaryOperator::Compound(Arith::Shr)),
{
    reveal_strlit("+");
    assert("+"@.len() == 1 && "+"@[0] == '+');
    reveal_strlit("-");
    assert("-"@.len() == 1 && "-"@[0] == '-');
    reveal_strlit("*");
    assert("*"@.len() == 1 && "*"@[0] == '*');
    reveal_strlit("/");
    assert("/"@.len() == 1 && "/"@[0] == '/');
    reveal_strlit("%");
    assert("%"@.len() == 1 && "%"@[0] == '%');
    reveal_strlit("^");
    assert("^"@.len() == 1 && "^"@[0] == '^');
    reveal_strlit("&");
    assert("&"@.len() == 1 && "&"@[0] == '&');
    reveal_strlit("|");
    assert("|"@.len() == 1 && "|"@[0] == '|');
    reveal_strlit("<<");
    assert("<<"@.len() == 2 && "<<"@[0] == '<' && "<<"@[1] == '<');
    reveal_strlit(">>");
    assert(">>"@.len() == 2 && ">>"@[0] == '>' && ">>"@[1] == '>');
    reveal_strlit("==");
    assert("=="@.len() == 2 && "=="@[0] == '=' && "=="@[1] == '=');
    reveal_strlit("!=");
    assert("!="@.len() == 2 && "!="@[0] == '!' && "!="@[1] == '=');
    reveal_strlit("<");
    assert("<"@.len() == 1 && "<"@[0] == '<');
    reveal_strlit(">");
    assert(">"@.len() == 1 && ">"@[0] == '>');
    reveal_strlit("<=");
    assert("<="@.len() == 2 && "<="@[0] == '<' && "<="@[1] == '=');
    reveal_strlit(">=");
    assert(">="@.len() == 2 && ">="@[0] == '>' && ">="@[1] == '=');
    reveal_strlit("&&");
    assert("&&"@.len() == 2 && "&&"@[0] == '&' && "&&"@[1] == '&');
    reveal_strlit("||");
    assert("||"@.len() == 2 && "||"@[0] == '|' && "||"@[1] == '|');
    reveal_strlit("=");
    assert("="@.len() == 1 && "="@[0] == '=');
    reveal_strlit("+=");
    assert("+="@.len() == 2 && "+="@[0] == '+' && "+="@[1] == '=');
    reveal_strlit("-=");
    assert("-="@.len() == 2 && "-="@[0] == '-' && "-="@[1] == '=');
    reveal_strlit("*=");
    assert("*="@.len() == 2 && "*="@[0] == '*' && "*="@[1] == '=');
    reveal_strlit("/=");
    assert("/="@.len() == 2 && "/="@[0] == '/' && "/="@[1] == '=');
    reveal_strlit("%=");
    assert("%="@.len() == 2 && "%="@[0] == '%' && "%="@[1] == '=');
    reveal_strlit("^=");
    assert("^="@.len() == 2 && "^="@[0] == '^' && "^="@[1] == '=');
    reveal_strlit("&=");
    assert("&="@.len() == 2 && "&="@[0] == '&' && "&="@[1] == '=');
    reveal_strlit("|=");
    assert("|="@.len() == 2 && "|="@[0] == '|' && "|="@[1] == '=');
    reveal_strlit("<<=");
    assert("<<="@.len() == 3 && "<<="@[0] == '<' && "<<="@[1] == '<' && "<<="@[2] == '=');
    reveal_strlit(">>=");
    assert(">>="@.len() == 3 && ">>="@[0] == '>' && ">>="@[1] == '>' && ">>="@[2] == '=');
}

} // verus!
