use ast_importer::clang::{AstContext, AstNode, Scalar, Tag, TypeNode, TypeTag};
use ast_importer::failure::{Construct, Defect, Failure};
use ast_importer::operators::{
    parse_binary_operator, Arith, BinaryOperator, Logical, Relational,
};
use ast_importer::target::{BinOp, Expr, Pat, Stmt, Ty, UnOp};
use ast_importer::translator::{bool_to_int, int_to_bool, Translation};
use ast_importer::with_stmts::WithStmts;
use std::collections::HashMap;

fn ty(tag: TypeTag) -> TypeNode {
    TypeNode { tag, extras: vec![] }
}

fn typedef_to(decl: u64) -> TypeNode {
    TypeNode { tag: TypeTag::Typedef, extras: vec![Scalar::Unsigned(decl)] }
}

/// Type 1 is `unsigned`, and node 50 declares a typedef of it.
fn translation() -> Translation {
    let mut type_nodes = HashMap::new();
    type_nodes.insert(1, ty(TypeTag::UInt));
    type_nodes.insert(2, ty(TypeTag::Pointer));
    let mut ast_nodes = HashMap::new();
    ast_nodes.insert(
        50,
        AstNode {
            tag: Tag::TypedefDecl,
            children: vec![],
            type_id: Some(1),
            extras: vec![Scalar::Text("word".to_string())],
        },
    );
    ast_nodes.insert(
        51,
        AstNode {
            tag: Tag::TypedefDecl,
            children: vec![],
            type_id: Some(2),
            extras: vec![Scalar::Text("handle".to_string())],
        },
    );
    Translation::new(AstContext { top_nodes: vec![], ast_nodes, type_nodes })
}

fn c_int() -> Ty {
    Ty::Path(vec!["libc".to_string(), "c_int".to_string()])
}

fn id(name: &str) -> Expr {
    Expr::Ident(name.to_string())
}

fn method(receiver: Expr, name: &str, arg: Expr) -> Expr {
    Expr::MethodCall(Box::new(receiver), name.to_string(), vec![arg])
}

fn native(op: BinOp, l: Expr, r: Expr) -> Expr {
    Expr::Binary(op, Box::new(l), Box::new(r))
}

fn lower(name: &str, ctype: TypeTag, lhs_type: TypeTag, rhs_type: TypeTag) -> Result<WithStmts<Expr>, Failure> {
    translation().convert_binary_operator(
        name,
        c_int(),
        &ty(ctype),
        &ty(lhs_type),
        &ty(rhs_type),
        id("a"),
        id("b"),
    )
}

fn pure(e: Expr) -> Result<WithStmts<Expr>, Failure> {
    Ok(WithStmts { stmts: vec![], val: e })
}

#[test]
fn signed_arithmetic_is_native() {
    let table = [
        ("+", BinOp::Add),
        ("-", BinOp::Sub),
        ("*", BinOp::Mul),
        ("/", BinOp::Div),
        ("%", BinOp::Rem),
    ];
    for (name, op) in table {
        assert_eq!(
            lower(name, TypeTag::Int, TypeTag::Int, TypeTag::Int),
            pure(native(op, id("a"), id("b")))
        );
    }
}

#[test]
fn unsigned_arithmetic_wraps() {
    let table = [
        ("+", "wrapping_add"),
        ("-", "wrapping_sub"),
        ("*", "wrapping_mul"),
        ("/", "wrapping_div"),
        ("%", "wrapping_rem"),
    ];
    for (name, wrapping) in table {
        for tag in [TypeTag::UChar, TypeTag::UShort, TypeTag::UInt, TypeTag::ULong, TypeTag::ULongLong] {
            assert_eq!(lower(name, tag, tag, tag), pure(method(id("a"), wrapping, id("b"))));
        }
    }
}

#[test]
fn unsigned_behind_a_typedef_wraps() {
    let mut t = translation();
    let word = typedef_to(50);
    let r = t.convert_binary_operator("*", c_int(), &word, &word, &word, id("a"), id("b"));
    assert_eq!(r, pure(method(id("a"), "wrapping_mul", id("b"))));
    let r = t.convert_binary_operator("+", c_int(), &word, &word, &word, id("a"), id("b"));
    assert_eq!(r, pure(method(id("a"), "wrapping_add", id("b"))));
}

#[test]
fn addition_and_subtraction_go_by_the_left_operand_and_the_others_by_the_result() {
    assert_eq!(
        lower("+", TypeTag::Int, TypeTag::UInt, TypeTag::Int),
        pure(method(id("a"), "wrapping_add", id("b")))
    );
    assert_eq!(
        lower("+", TypeTag::UInt, TypeTag::Int, TypeTag::UInt),
        pure(native(BinOp::Add, id("a"), id("b")))
    );
    assert_eq!(
        lower("*", TypeTag::UInt, TypeTag::Int, TypeTag::Int),
        pure(method(id("a"), "wrapping_mul", id("b")))
    );
    assert_eq!(
        lower("*", TypeTag::Int, TypeTag::UInt, TypeTag::UInt),
        pure(native(BinOp::Mul, id("a"), id("b")))
    );
}

#[test]
fn pointer_plus_integer_is_an_offset_on_either_side() {
    assert_eq!(
        lower("+", TypeTag::Pointer, TypeTag::Pointer, TypeTag::Int),
        pure(method(id("a"), "offset", id("b")))
    );
    assert_eq!(
        lower("+", TypeTag::Pointer, TypeTag::Int, TypeTag::Pointer),
        pure(method(id("b"), "offset", id("a")))
    );
    assert_eq!(
        lower("+", TypeTag::Pointer, TypeTag::Pointer, TypeTag::UInt),
        pure(method(id("a"), "offset", id("b")))
    );
    assert_eq!(
        lower("+", TypeTag::Pointer, TypeTag::UInt, TypeTag::Pointer),
        pure(method(id("b"), "offset", id("a")))
    );
}

#[test]
fn pointer_minus_integer_is_a_negated_offset() {
    assert_eq!(
        lower("-", TypeTag::Pointer, TypeTag::Pointer, TypeTag::Int),
        pure(method(id("a"), "offset", Expr::Unary(UnOp::Neg, Box::new(id("b")))))
    );
}

#[test]
fn pointer_minus_pointer_is_a_distance() {
    assert_eq!(
        lower("-", TypeTag::Long, TypeTag::Pointer, TypeTag::Pointer),
        pure(method(id("b"), "offset_to", id("a")))
    );
}

#[test]
fn pointer_behind_a_typedef_is_a_pointer() {
    let mut t = translation();
    let handle = typedef_to(51);
    let r = t.convert_binary_operator(
        "+",
        c_int(),
        &handle,
        &handle,
        &ty(TypeTag::Int),
        id("a"),
        id("b"),
    );
    assert_eq!(r, pure(method(id("a"), "offset", id("b"))));
}

#[test]
fn bitwise_and_shift_are_native_whatever_the_type() {
    let table =
        [("^", BinOp::BitXor), ("&", BinOp::BitAnd), ("|", BinOp::BitOr), (">>", BinOp::Shr)];
    for (name, op) in table {
        for tag in [TypeTag::Int, TypeTag::UInt] {
            assert_eq!(lower(name, tag, tag, tag), pure(native(op, id("a"), id("b"))));
        }
    }
}

#[test]
fn comparisons_are_cast_to_c_int() {
    let table = [
        ("==", BinOp::Eq),
        ("!=", BinOp::Ne),
        ("<", BinOp::Lt),
        (">", BinOp::Gt),
        ("<=", BinOp::Le),
        (">=", BinOp::Ge),
    ];
    for (name, op) in table {
        for tag in [TypeTag::Int, TypeTag::UInt, TypeTag::Pointer] {
            assert_eq!(
                lower(name, TypeTag::Int, tag, tag),
                pure(Expr::Cast(Box::new(native(op, id("a"), id("b"))), c_int()))
            );
        }
    }
}

#[test]
fn short_circuit_operators_are_native() {
    assert_eq!(
        lower("&&", TypeTag::Int, TypeTag::Int, TypeTag::Int),
        pure(native(BinOp::And, id("a"), id("b")))
    );
    assert_eq!(
        lower("||", TypeTag::Int, TypeTag::Int, TypeTag::Int),
        pure(native(BinOp::Or, id("a"), id("b")))
    );
}

fn deref(name: &str) -> Expr {
    Expr::Unary(UnOp::Deref, Box::new(id(name)))
}

fn borrow(name: &str, place: Expr) -> Stmt {
    Stmt::Local(Pat { name: name.to_string(), by_ref: true, mutable: true }, None, Some(place))
}

fn store(name: &str, value: Expr) -> Stmt {
    Stmt::Expr(Expr::Assign(Box::new(deref(name)), Box::new(value)))
}

#[test]
fn assignment_borrows_the_place_once_and_yields_it() {
    let r = lower("=", TypeTag::Int, TypeTag::Int, TypeTag::Int).unwrap();
    assert_eq!(r.stmts, vec![borrow("fresh", id("a")), store("fresh", id("b"))]);
    assert_eq!(r.val, deref("fresh"));
}

#[test]
fn compound_assignment_with_side_effecting_lhs() {
    // *p += 1 with p an int*: the place *p is borrowed once
    let mut t = translation();
    let r = t
        .convert_binary_operator(
            "+=",
            c_int(),
            &ty(TypeTag::Int),
            &ty(TypeTag::Int),
            &ty(TypeTag::Int),
            deref("p"),
            Expr::IntLit(1),
        )
        .unwrap();
    assert_eq!(
        r.stmts,
        vec![
            borrow("fresh", deref("p")),
            store("fresh", native(BinOp::Add, deref("fresh"), Expr::IntLit(1))),
        ]
    );
    assert_eq!(r.val, deref("fresh"));
}

#[test]
fn compound_assignments_reuse_the_operator_table() {
    let signed = [
        ("+=", BinOp::Add),
        ("-=", BinOp::Sub),
        ("*=", BinOp::Mul),
        ("/=", BinOp::Div),
        ("%=", BinOp::Rem),
        ("^=", BinOp::BitXor),
        (">>=", BinOp::Shr),
        ("|=", BinOp::BitOr),
        ("&=", BinOp::BitAnd),
    ];
    for (name, op) in signed {
        let r = lower(name, TypeTag::Int, TypeTag::Int, TypeTag::Int).unwrap();
        assert_eq!(
            r.stmts,
            vec![borrow("fresh", id("a")), store("fresh", native(op, deref("fresh"), id("b")))]
        );
        assert_eq!(r.val, deref("fresh"));
    }
    let r = lower("-=", TypeTag::UInt, TypeTag::UInt, TypeTag::UInt).unwrap();
    assert_eq!(
        r.stmts,
        vec![
            borrow("fresh", id("a")),
            store("fresh", method(deref("fresh"), "wrapping_sub", id("b"))),
        ]
    );
    let r = lower("+=", TypeTag::Pointer, TypeTag::Pointer, TypeTag::Int).unwrap();
    assert_eq!(
        r.stmts,
        vec![borrow("fresh", id("a")), store("fresh", method(deref("fresh"), "offset", id("b")))]
    );
}

#[test]
fn each_assignment_takes_a_new_temporary() {
    let mut t = translation();
    let i = ty(TypeTag::Int);
    let first = t.convert_binary_operator("=", c_int(), &i, &i, &i, id("a"), id("b")).unwrap();
    let second = t.convert_binary_operator("+=", c_int(), &i, &i, &i, id("c"), id("d")).unwrap();
    assert_eq!(first.val, deref("fresh"));
    assert_eq!(second.val, deref("fresh_1"));
    assert_eq!(t.renamer.depth(), 1);
    assert!(t.items.is_empty());
}

#[test]
fn left_shift_and_unknown_spellings_are_not_handled() {
    // the failure names the operator that is not handled
    let unhandled =
        |name: &str| Err(Failure::Unimplemented(Construct::BinaryOperator(name.to_string())));
    assert_eq!(lower("<<", TypeTag::Int, TypeTag::Int, TypeTag::Int), unhandled("<<"));
    assert_eq!(lower("<<=", TypeTag::Int, TypeTag::Int, TypeTag::Int), unhandled("<<"));
    assert_eq!(lower(",", TypeTag::Int, TypeTag::Int, TypeTag::Int), unhandled(","));
    assert_eq!(lower("", TypeTag::Int, TypeTag::Int, TypeTag::Int), unhandled(""));
    assert_eq!(lower("+ ", TypeTag::Int, TypeTag::Int, TypeTag::Int), unhandled("+ "));
    assert_ne!(lower("**", TypeTag::Int, TypeTag::Int, TypeTag::Int), unhandled("<<"));
}

#[test]
fn a_typedef_that_cannot_be_resolved_fails_the_operator() {
    let mut t = translation();
    let i = ty(TypeTag::Int);
    let broken = typedef_to(99);
    let r = t.convert_binary_operator("+", c_int(), &i, &broken, &i, id("a"), id("b"));
    assert_eq!(r, Err(Failure::Malformed(Defect::DanglingNode)));
    let r = t.convert_binary_operator("*", c_int(), &broken, &i, &i, id("a"), id("b"));
    assert_eq!(r, Err(Failure::Malformed(Defect::DanglingNode)));
    // bitwise operators do not look at the types
    let r = t.convert_binary_operator("^", c_int(), &broken, &broken, &broken, id("a"), id("b"));
    assert_eq!(r, pure(native(BinOp::BitXor, id("a"), id("b"))));
}

#[test]
fn address_of_is_a_mutable_borrow_cast_to_the_pointer_type() {
    let mut t = translation();
    let r = t.convert_unary_operator(
        "&",
        &ty(TypeTag::Pointer),
        Ty::Ptr(Box::new(c_int())),
        id("x"),
    );
    assert_eq!(
        r,
        pure(Expr::Cast(Box::new(Expr::AddrOfMut(Box::new(id("x")))), Ty::Ptr(Box::new(c_int()))))
    );
}

#[test]
fn dereference_is_the_place_pointed_to() {
    let mut t = translation();
    let r = t.convert_unary_operator("*", &ty(TypeTag::Int), c_int(), id("p"));
    assert_eq!(r, pure(deref("p")));
    assert_eq!(t.renamer.depth(), 1);
    assert!(t.items.is_empty());
}

#[test]
fn other_unary_operators_are_not_handled() {
    let mut t = translation();
    for name in ["-", "!", "~", "++", "**", ""] {
        let r = t.convert_unary_operator(name, &ty(TypeTag::Int), c_int(), id("x"));
        assert_eq!(r, Err(Failure::Unimplemented(Construct::UnaryOperator(name.to_string()))));
    }
}

#[test]
fn spellings_parse_to_operators() {
    assert_eq!(parse_binary_operator("+"), Some(BinaryOperator::Arith(Arith::Add)));
    assert_eq!(parse_binary_operator("<<"), Some(BinaryOperator::Arith(Arith::Shl)));
    assert_eq!(parse_binary_operator("<"), Some(BinaryOperator::Relational(Relational::Lt)));
    assert_eq!(parse_binary_operator("<="), Some(BinaryOperator::Relational(Relational::Le)));
    assert_eq!(parse_binary_operator("&&"), Some(BinaryOperator::Logical(Logical::And)));
    assert_eq!(parse_binary_operator("&"), Some(BinaryOperator::Arith(Arith::BitAnd)));
    assert_eq!(parse_binary_operator("&="), Some(BinaryOperator::Compound(Arith::BitAnd)));
    assert_eq!(parse_binary_operator("="), Some(BinaryOperator::Assign));
    assert_eq!(parse_binary_operator("=="), Some(BinaryOperator::Relational(Relational::Eq)));
    assert_eq!(parse_binary_operator("=>"), None);
}

#[test]
fn truth_value_conversions() {
    assert_eq!(bool_to_int(id("b")), Expr::Cast(Box::new(id("b")), c_int()));
    assert_eq!(int_to_bool(id("i")), native(BinOp::Ne, Expr::IntLit(0), id("i")));
}
