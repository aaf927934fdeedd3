//! What holds of every lowering of an operator and of every run.

use crate::clang::{AstContext, TypeNode};
use crate::failure::{Failure, FailureV};
use crate::lowering::{lower_function, translated};
use crate::operators::{
    as_c_int, comparison, lower_arith, lower_binary, method, native, Arith, BinaryOperator,
    Outcome, Relational,
};
use crate::renamer::RenamerV;
use crate::target::{c_int_ty, items_view, ExprV, Item, UnOp};
use crate::translator::{item_outcome, items_result};
use crate::with_stmts::Sequenced;
use vstd::prelude::*;

verus! {

/// A comparison never fails and never touches the renamer, and what it yields is the
/// native comparison cast to the representation of C's `int`, never the bare truth
/// value.
pub proof fn lemma_relational_is_c_int(
    ctx: AstContext,
    st: RenamerV,
    op: Relational,
    ctype: TypeNode,
    lhs_type: TypeNode,
    rhs_type: TypeNode,
    lhs: ExprV,
    rhs: ExprV,
)
    ensures
        lower_binary(ctx, st, BinaryOperator::Relational(op), ctype, lhs_type, rhs_type, lhs, rhs)
            == Outcome::ok(st, Sequenced::unit(as_c_int(native(comparison(op), lhs, rhs)))),
        as_c_int(native(comparison(op), lhs, rhs)) is Cast,
        as_c_int(native(comparison(op), lhs, rhs))->Cast_1 == c_int_ty(),
{
}

/// The method that computes `op` with wrap-around.
pub open spec fn wrapping_method(op: Arith) -> Seq<char> {
    match op {
        Arith::Add => "wrapping_add"@,
        Arith::Sub => "wrapping_sub"@,
        Arith::Mul => "wrapping_mul"@,
        Arith::Div => "wrapping_div"@,
        _ => "wrapping_rem"@,
    }
}

/// Whether `op` is one of `+ - * / %`.
pub open spec fn is_arithmetic(op: Arith) -> bool {
    op is Add || op is Sub || op is Mul || op is Div || op is Rem
}

/// The type that decides whether `op` wraps: for `+` and `-` that of the left
/// operand, for `*`, `/` and `%` that of the result.
pub open spec fn deciding_type(op: Arith, ctype: TypeNode, lhs_type: TypeNode) -> TypeNode {
    if op is Add || op is Sub {
        lhs_type
    } else {
        ctype
    }
}

/// Unsigned arithmetic wraps: where the deciding type of `+ - * / %`, its typedefs
/// followed, is unsigned and no pointer is involved, the operator becomes a call of
/// the wrapping method on the left operand, never the native operator.
pub proof fn lemma_unsigned_wraps(
    ctx: AstContext,
    op: Arith,
    ctype: TypeNode,
    lhs_type: TypeNode,
    rhs_type: TypeNode,
    lhs: ExprV,
    rhs: ExprV,
)
    requires
        is_arithmetic(op),
        ctx.resolved(deciding_type(op, ctype, lhs_type)) is Ok,
        ctx.resolved(deciding_type(op, ctype, lhs_type))->Ok_0.unsigned_integral(),
        op is Add || op is Sub ==> ctx.resolved(rhs_type) is Ok && !ctx.resolved(
            rhs_type,
        )->Ok_0.pointer(),
    ensures
        lower_arith(ctx, op, ctype, lhs_type, rhs_type, lhs, rhs) == Ok::<ExprV, FailureV>(
            method(lhs, wrapping_method(op), rhs),
        ),
{
}

/// Pointer arithmetic goes through the pointer primitives: a pointer plus or minus an
/// integer is offset by it, on whichever side the pointer stands; the difference of
/// two pointers is the distance from the right one to the left one.
pub proof fn lemma_pointer_arithmetic(
    ctx: AstContext,
    ctype: TypeNode,
    lhs_type: TypeNode,
    rhs_type: TypeNode,
    lhs: ExprV,
    rhs: ExprV,
)
    requires
        ctx.resolved(lhs_type) is Ok,
        ctx.resolved(rhs_type) is Ok,
    ensures
        ({
            let l = ctx.resolved(lhs_type)->Ok_0;
            let r = ctx.resolved(rhs_type)->Ok_0;
            let sum = lower_arith(ctx, Arith::Add, ctype, lhs_type, rhs_type, lhs, rhs);
            let difference = lower_arith(ctx, Arith::Sub, ctype, lhs_type, rhs_type, lhs, rhs);
            &&& l.pointer() ==> sum == Ok::<ExprV, FailureV>(method(lhs, "offset"@, rhs))
            &&& !l.pointer() && r.pointer() ==> sum == Ok::<ExprV, FailureV>(
                method(rhs, "offset"@, lhs),
            )
            &&& l.pointer() && !r.pointer() ==> difference == Ok::<ExprV, FailureV>(
                method(lhs, "offset"@, ExprV::Unary(UnOp::Neg, Box::new(rhs))),
            )
            &&& l.pointer() && r.pointer() ==> difference == Ok::<ExprV, FailureV>(
                method(rhs, "offset_to"@, lhs),
            )
        }),
{
}

/// Two runs on one translation unit end alike: with items that have the same views,
/// or with the same failure.
pub proof fn lemma_translate_deterministic(
    ctx: AstContext,
    first: Result<Vec<Item>, Failure>,
    second: Result<Vec<Item>, Failure>,
)
    requires
        items_result(first, translated(ctx)),
        items_result(second, translated(ctx)),
    ensures
        match (first, second) {
            (Ok(a), Ok(b)) => items_view(a@) == items_view(b@),
            (Err(e), Err(f)) => e@ == f@,
            _ => false,
        },
{
}

/// Two lowerings of one function from one renamer state end alike: with items that
/// have the same view, or with the same failure, and with the renamer in one state.
pub proof fn lemma_function_deterministic(
    ctx: AstContext,
    st: RenamerV,
    name: Seq<char>,
    params: Seq<(Seq<char>, u64)>,
    ret: u64,
    body: u64,
    first: Result<Item, Failure>,
    first_state: RenamerV,
    second: Result<Item, Failure>,
    second_state: RenamerV,
)
    requires
        item_outcome(first, first_state, lower_function(ctx, st, name, params, ret, body)),
        item_outcome(second, second_state, lower_function(ctx, st, name, params, ret, body)),
    ensures
        first_state == second_state,
        match (first, second) {
            (Ok(a), Ok(b)) => a@ == b@,
            (Err(e), Err(f)) => e@ == f@,
            _ => false,
        },
{
}

} // verus!
