use ast_importer::clang::{AstContext, AstNode, Scalar, Tag, TypeNode, TypeTag};
use ast_importer::failure::{Construct, Defect, Failure};
use ast_importer::target::{BinOp, Block, Expr, FieldDef, Item, Param, Pat, Stmt, Ty, UnOp};
use ast_importer::translator::{translate, Translation};
use std::collections::HashMap;

const INT: u64 = 1;
const UINT: u64 = 2;
const INT_PTR: u64 = 3;
const VOID: u64 = 4;
const DOUBLE: u64 = 5;
const POINT: u64 = 6;
/// A function type that returns `int`.
const FN_INT: u64 = 10;
const FN_UINT: u64 = 11;
const FN_INT_PTR: u64 = 12;
const FN_VOID: u64 = 13;

/// Builds a context node by node. Ids of nodes are given out from 100 on.
struct Tree {
    ctx: AstContext,
    next: u64,
}

impl Tree {
    fn new() -> Tree {
        let mut type_nodes = HashMap::new();
        type_nodes.insert(INT, TypeNode { tag: TypeTag::Int, extras: vec![] });
        type_nodes.insert(UINT, TypeNode { tag: TypeTag::UInt, extras: vec![] });
        type_nodes
            .insert(INT_PTR, TypeNode { tag: TypeTag::Pointer, extras: vec![Scalar::Unsigned(INT)] });
        type_nodes.insert(VOID, TypeNode { tag: TypeTag::Void, extras: vec![] });
        type_nodes.insert(DOUBLE, TypeNode { tag: TypeTag::Double, extras: vec![] });
        for (id, ret) in [(FN_INT, INT), (FN_UINT, UINT), (FN_INT_PTR, INT_PTR), (FN_VOID, VOID)] {
            type_nodes.insert(
                id,
                TypeNode {
                    tag: TypeTag::Function,
                    extras: vec![Scalar::List(vec![Scalar::Unsigned(ret)])],
                },
            );
        }
        Tree { ctx: AstContext { top_nodes: vec![], ast_nodes: HashMap::new(), type_nodes }, next: 100 }
    }

    fn add(&mut self, tag: Tag, children: Vec<Option<u64>>, type_id: Option<u64>, extras: Vec<Scalar>) -> u64 {
        let id = self.next;
        self.next += 1;
        self.ctx.ast_nodes.insert(id, AstNode { tag, children, type_id, extras });
        id
    }

    fn named(&mut self, tag: Tag, name: &str, type_id: u64, children: Vec<Option<u64>>) -> u64 {
        self.add(tag, children, Some(type_id), vec![Scalar::Text(name.to_string())])
    }

    fn param(&mut self, name: &str, type_id: u64) -> u64 {
        self.named(Tag::ParmVarDecl, name, type_id, vec![])
    }

    fn var(&mut self, name: &str, type_id: u64, init: Option<u64>) -> u64 {
        self.named(Tag::VarDecl, name, type_id, vec![init])
    }

    /// A use of the declaration `decl`, behind the cast that loads its value.
    fn load(&mut self, decl: u64, type_id: u64) -> u64 {
        let r = self.reference(decl, type_id);
        self.add(Tag::ImplicitCastExpr, vec![Some(r)], Some(type_id), vec![])
    }

    fn reference(&mut self, decl: u64, type_id: u64) -> u64 {
        self.add(Tag::DeclRefExpr, vec![Some(decl)], Some(type_id), vec![])
    }

    fn literal(&mut self, value: u64) -> u64 {
        self.add(Tag::IntegerLiteral, vec![], Some(INT), vec![Scalar::Unsigned(value)])
    }

    fn binary(&mut self, op: &str, type_id: u64, lhs: u64, rhs: u64) -> u64 {
        self.add(
            Tag::BinaryOperator,
            vec![Some(lhs), Some(rhs)],
            Some(type_id),
            vec![Scalar::Text(op.to_string())],
        )
    }

    fn ret(&mut self, value: Option<u64>) -> u64 {
        self.add(Tag::ReturnStmt, vec![value], None, vec![])
    }

    fn compound(&mut self, stmts: Vec<u64>) -> u64 {
        self.add(Tag::CompoundStmt, stmts.into_iter().map(Some).collect(), None, vec![])
    }

    fn decl_stmt(&mut self, decls: Vec<u64>) -> u64 {
        self.add(Tag::DeclStmt, decls.into_iter().map(Some).collect(), None, vec![])
    }

    /// A top-level function with the given parameters and body.
    fn function(&mut self, name: &str, fn_type: u64, params: Vec<u64>, body: u64) -> u64 {
        let mut children: Vec<Option<u64>> = params.into_iter().map(Some).collect();
        children.push(Some(body));
        let id = self.named(Tag::FunctionDecl, name, fn_type, children);
        self.ctx.top_nodes.push(id);
        id
    }
}

fn c_int() -> Ty {
    Ty::Path(vec!["libc".to_string(), "c_int".to_string()])
}

fn c_uint() -> Ty {
    Ty::Path(vec!["libc".to_string(), "c_uint".to_string()])
}

fn id(name: &str) -> Expr {
    Expr::Ident(name.to_string())
}

fn param(name: &str, ty: Ty) -> Param {
    Param { pat: Pat { name: name.to_string(), by_ref: false, mutable: false }, ty }
}

fn give(e: Expr) -> Stmt {
    Stmt::Expr(Expr::Return(Some(Box::new(e))))
}

fn local(name: &str, ty: Ty, init: Option<Expr>) -> Stmt {
    Stmt::Local(Pat { name: name.to_string(), by_ref: false, mutable: true }, Some(ty), init)
}

fn function(name: &str, params: Vec<Param>, ret: Ty, stmts: Vec<Stmt>) -> Item {
    Item::Fn(name.to_string(), params, ret, Block { stmts })
}

#[test]
fn identity_return() {
    // int id(int x) { return x; }
    let mut t = Tree::new();
    let x = t.param("x", INT);
    let use_x = t.load(x, INT);
    let r = t.ret(Some(use_x));
    let body = t.compound(vec![r]);
    t.function("id", FN_INT, vec![x], body);
    assert_eq!(
        translate(t.ctx),
        Ok(vec![function("id", vec![param("x", c_int())], c_int(), vec![give(id("x"))])])
    );
}

#[test]
fn unsigned_wraparound() {
    // unsigned add(unsigned a, unsigned b) { return a + b; }
    let mut t = Tree::new();
    let a = t.param("a", UINT);
    let b = t.param("b", UINT);
    let use_a = t.load(a, UINT);
    let use_b = t.load(b, UINT);
    let sum = t.binary("+", UINT, use_a, use_b);
    let r = t.ret(Some(sum));
    let body = t.compound(vec![r]);
    t.function("add", FN_UINT, vec![a, b], body);
    let expected = Expr::MethodCall(Box::new(id("a")), "wrapping_add".to_string(), vec![id("b")]);
    assert_eq!(
        translate(t.ctx),
        Ok(vec![function(
            "add",
            vec![param("a", c_uint()), param("b", c_uint())],
            c_uint(),
            vec![give(expected)]
        )])
    );
}

#[test]
fn pointer_offset() {
    // int* step(int* p, int n) { return p + n; }
    let mut t = Tree::new();
    let p = t.param("p", INT_PTR);
    let n = t.param("n", INT);
    let use_p = t.load(p, INT_PTR);
    let use_n = t.load(n, INT);
    let sum = t.binary("+", INT_PTR, use_p, use_n);
    let r = t.ret(Some(sum));
    let body = t.compound(vec![r]);
    t.function("step", FN_INT_PTR, vec![p, n], body);
    let expected = Expr::MethodCall(Box::new(id("p")), "offset".to_string(), vec![id("n")]);
    assert_eq!(
        translate(t.ctx),
        Ok(vec![function(
            "step",
            vec![param("p", Ty::Ptr(Box::new(c_int()))), param("n", c_int())],
            Ty::Ptr(Box::new(c_int())),
            vec![give(expected)]
        )])
    );
}

#[test]
fn compound_assignment_in_a_function() {
    // void f(int x) { x += 1; }
    let mut t = Tree::new();
    let x = t.param("x", INT);
    let place = t.reference(x, INT);
    let one = t.literal(1);
    let bump = t.binary("+=", INT, place, one);
    let body = t.compound(vec![bump]);
    t.function("f", FN_VOID, vec![x], body);
    let through = Expr::Unary(UnOp::Deref, Box::new(id("fresh")));
    let again = Expr::Unary(UnOp::Deref, Box::new(id("fresh")));
    let value = Expr::Unary(UnOp::Deref, Box::new(id("fresh")));
    assert_eq!(
        translate(t.ctx),
        Ok(vec![function(
            "f",
            vec![param("x", c_int())],
            Ty::Unit,
            vec![
                Stmt::Local(
                    Pat { name: "fresh".to_string(), by_ref: true, mutable: true },
                    None,
                    Some(id("x")),
                ),
                Stmt::Expr(Expr::Assign(
                    Box::new(through),
                    Box::new(Expr::Binary(BinOp::Add, Box::new(again), Box::new(Expr::IntLit(1)))),
                )),
                Stmt::Expr(value),
            ]
        )])
    );
}

#[test]
fn compound_assignment_with_side_effecting_lhs_in_a_function() {
    // void f(int* p) { *p += 1; }
    let mut t = Tree::new();
    let p = t.param("p", INT_PTR);
    let use_p = t.load(p, INT_PTR);
    let place = t.add(
        Tag::UnaryOperator,
        vec![Some(use_p)],
        Some(INT),
        vec![Scalar::Text("*".to_string())],
    );
    let one = t.literal(1);
    let bump = t.binary("+=", INT, place, one);
    let body = t.compound(vec![bump]);
    t.function("f", FN_VOID, vec![p], body);
    let through = || Expr::Unary(UnOp::Deref, Box::new(id("fresh")));
    assert_eq!(
        translate(t.ctx),
        Ok(vec![function(
            "f",
            vec![param("p", Ty::Ptr(Box::new(c_int())))],
            Ty::Unit,
            vec![
                Stmt::Local(
                    Pat { name: "fresh".to_string(), by_ref: true, mutable: true },
                    None,
                    Some(Expr::Unary(UnOp::Deref, Box::new(id("p")))),
                ),
                Stmt::Expr(Expr::Assign(
                    Box::new(through()),
                    Box::new(Expr::Binary(
                        BinOp::Add,
                        Box::new(through()),
                        Box::new(Expr::IntLit(1))
                    )),
                )),
                Stmt::Expr(through()),
            ]
        )])
    );
}

#[test]
fn keywords_of_the_target_are_renamed() {
    // int type(int match) { int fn = match; return fn; }
    let mut t = Tree::new();
    let m = t.param("match", INT);
    let use_m = t.load(m, INT);
    let f = t.var("fn", INT, Some(use_m));
    let decl = t.decl_stmt(vec![f]);
    let use_f = t.load(f, INT);
    let r = t.ret(Some(use_f));
    let body = t.compound(vec![decl, r]);
    t.function("type", FN_INT, vec![m], body);
    assert_eq!(
        translate(t.ctx),
        Ok(vec![function(
            "type_1",
            vec![param("match_1", c_int())],
            c_int(),
            vec![local("fn_1", c_int(), Some(id("match_1"))), give(id("fn_1"))]
        )])
    );
}

#[test]
fn a_translation_starts_with_the_keywords_reserved() {
    let mut tr = Translation::new(Tree::new().ctx);
    for word in ["as", "Self", "self", "while", "yield", "try", "dyn", "final"] {
        let name = tr.renamer.insert(word.to_string(), word).unwrap();
        assert_eq!(name, format!("{}_1", word));
    }
    assert_eq!(tr.renamer.insert("union".to_string(), "union"), Some("union".to_string()));
}

#[test]
fn the_lone_underscore_gets_a_name_of_the_target() {
    // int f(int _) { int _ = 1; return _; } with the inner one in a block of its own
    let mut t = Tree::new();
    let u = t.param("_", INT);
    let one = t.literal(1);
    let inner = t.var("_", INT, Some(one));
    let decl = t.decl_stmt(vec![inner]);
    let use_inner = t.load(inner, INT);
    let r = t.ret(Some(use_inner));
    let body = t.compound(vec![decl, r]);
    t.function("f", FN_INT, vec![u], body);
    assert_eq!(
        translate(t.ctx),
        Ok(vec![function(
            "f",
            vec![param("underscore", c_int())],
            c_int(),
            vec![local("underscore_1", c_int(), Some(Expr::IntLit(1))), give(id("underscore_1"))]
        )])
    );
}

#[test]
fn comparison_feeding_arithmetic() {
    // int g(int a, int b) { return (a < b) + 1; }
    let mut t = Tree::new();
    let a = t.param("a", INT);
    let b = t.param("b", INT);
    let use_a = t.load(a, INT);
    let use_b = t.load(b, INT);
    let less = t.binary("<", INT, use_a, use_b);
    let one = t.literal(1);
    let sum = t.binary("+", INT, less, one);
    let r = t.ret(Some(sum));
    let body = t.compound(vec![r]);
    t.function("g", FN_INT, vec![a, b], body);
    let cast = Expr::Cast(
        Box::new(Expr::Binary(BinOp::Lt, Box::new(id("a")), Box::new(id("b")))),
        c_int(),
    );
    let expected = Expr::Binary(BinOp::Add, Box::new(cast), Box::new(Expr::IntLit(1)));
    assert_eq!(
        translate(t.ctx),
        Ok(vec![function(
            "g",
            vec![param("a", c_int()), param("b", c_int())],
            c_int(),
            vec![give(expected)]
        )])
    );
}

#[test]
fn nested_scopes_with_shadowing() {
    // int h(int x) { { int x = 2; } return x; }
    let mut t = Tree::new();
    let x = t.param("x", INT);
    let two = t.literal(2);
    let inner_x = t.var("x", INT, Some(two));
    let decl = t.decl_stmt(vec![inner_x]);
    let inner = t.compound(vec![decl]);
    let use_x = t.load(x, INT);
    let r = t.ret(Some(use_x));
    let body = t.compound(vec![inner, r]);
    t.function("h", FN_INT, vec![x], body);
    assert_eq!(
        translate(t.ctx),
        Ok(vec![function(
            "h",
            vec![param("x", c_int())],
            c_int(),
            vec![
                Stmt::Expr(Expr::Block(Block {
                    stmts: vec![local("x_1", c_int(), Some(Expr::IntLit(2)))]
                })),
                give(id("x")),
            ]
        )])
    );
}

#[test]
fn a_use_inside_the_inner_scope_sees_the_inner_name() {
    // int h(int x) { { int x = 2; return x; } }
    let mut t = Tree::new();
    let x = t.param("x", INT);
    let two = t.literal(2);
    let inner_x = t.var("x", INT, Some(two));
    let decl = t.decl_stmt(vec![inner_x]);
    let use_inner = t.load(inner_x, INT);
    let r = t.ret(Some(use_inner));
    let inner = t.compound(vec![decl, r]);
    let body = t.compound(vec![inner]);
    t.function("h", FN_INT, vec![x], body);
    assert_eq!(
        translate(t.ctx),
        Ok(vec![function(
            "h",
            vec![param("x", c_int())],
            c_int(),
            vec![local("x_1", c_int(), Some(Expr::IntLit(2))), give(id("x_1"))]
        )])
    );
}

#[test]
fn initializer_prefix_stands_before_the_binding() {
    // void f(int a) { int b = (a = 3); }
    let mut t = Tree::new();
    let a = t.param("a", INT);
    let place = t.reference(a, INT);
    let three = t.literal(3);
    let assign = t.binary("=", INT, place, three);
    let b = t.var("b", INT, Some(assign));
    let decl = t.decl_stmt(vec![b]);
    let body = t.compound(vec![decl]);
    t.function("f", FN_VOID, vec![a], body);
    let deref = || Expr::Unary(UnOp::Deref, Box::new(id("fresh")));
    assert_eq!(
        translate(t.ctx),
        Ok(vec![function(
            "f",
            vec![param("a", c_int())],
            Ty::Unit,
            vec![
                Stmt::Local(
                    Pat { name: "fresh".to_string(), by_ref: true, mutable: true },
                    None,
                    Some(id("a")),
                ),
                Stmt::Expr(Expr::Assign(Box::new(deref()), Box::new(Expr::IntLit(3)))),
                local("b", c_int(), Some(deref())),
            ]
        )])
    );
}

#[test]
fn uninitialized_variable_and_null_statement() {
    // void f() { int v; ; }
    let mut t = Tree::new();
    let v = t.var("v", INT, None);
    let decl = t.decl_stmt(vec![v]);
    let null = t.add(Tag::NullStmt, vec![], None, vec![]);
    let body = t.compound(vec![decl, null]);
    t.function("f", FN_VOID, vec![], body);
    assert_eq!(
        translate(t.ctx),
        Ok(vec![function("f", vec![], Ty::Unit, vec![local("v", c_int(), None)])])
    );
}

#[test]
fn if_runs_the_condition_prefix_once_before_the_test() {
    // int f(int a) { if (a = 1) return 1; else return 2; }
    let mut t = Tree::new();
    let a = t.param("a", INT);
    let place = t.reference(a, INT);
    let one = t.literal(1);
    let cond = t.binary("=", INT, place, one);
    let r1v = t.literal(1);
    let r1 = t.ret(Some(r1v));
    let r2v = t.literal(2);
    let r2 = t.ret(Some(r2v));
    let branch = t.add(Tag::IfStmt, vec![Some(cond), Some(r1), Some(r2)], None, vec![]);
    let body = t.compound(vec![branch]);
    t.function("f", FN_INT, vec![a], body);
    let deref = || Expr::Unary(UnOp::Deref, Box::new(id("fresh")));
    assert_eq!(
        translate(t.ctx),
        Ok(vec![function(
            "f",
            vec![param("a", c_int())],
            c_int(),
            vec![
                Stmt::Local(
                    Pat { name: "fresh".to_string(), by_ref: true, mutable: true },
                    None,
                    Some(id("a")),
                ),
                Stmt::Expr(Expr::Assign(Box::new(deref()), Box::new(Expr::IntLit(1)))),
                Stmt::Expr(Expr::If(
                    Box::new(deref()),
                    Block { stmts: vec![give(Expr::IntLit(1))] },
                    Some(Box::new(Expr::Block(Block { stmts: vec![give(Expr::IntLit(2))] }))),
                )),
            ]
        )])
    );
}

#[test]
fn if_without_else() {
    // void f(int a) { if (a) { } }
    let mut t = Tree::new();
    let a = t.param("a", INT);
    let cond = t.load(a, INT);
    let then = t.compound(vec![]);
    let branch = t.add(Tag::IfStmt, vec![Some(cond), Some(then), None], None, vec![]);
    let body = t.compound(vec![branch]);
    t.function("f", FN_VOID, vec![a], body);
    assert_eq!(
        translate(t.ctx),
        Ok(vec![function(
            "f",
            vec![param("a", c_int())],
            Ty::Unit,
            vec![Stmt::Expr(Expr::If(Box::new(id("a")), Block { stmts: vec![] }, None))]
        )])
    );
}

#[test]
fn while_keeps_the_condition_prefix_inside_the_condition() {
    // void f(int a) { while (a = 0) ; }
    let mut t = Tree::new();
    let a = t.param("a", INT);
    let place = t.reference(a, INT);
    let zero = t.literal(0);
    let cond = t.binary("=", INT, place, zero);
    let null = t.add(Tag::NullStmt, vec![], None, vec![]);
    let w = t.add(Tag::WhileStmt, vec![Some(cond), Some(null)], None, vec![]);
    let body = t.compound(vec![w]);
    t.function("f", FN_VOID, vec![a], body);
    let deref = || Expr::Unary(UnOp::Deref, Box::new(id("fresh")));
    let collapsed = Expr::Block(Block {
        stmts: vec![
            Stmt::Local(
                Pat { name: "fresh".to_string(), by_ref: true, mutable: true },
                None,
                Some(id("a")),
            ),
            Stmt::Expr(Expr::Assign(Box::new(deref()), Box::new(Expr::IntLit(0)))),
            Stmt::Expr(deref()),
        ],
    });
    assert_eq!(
        translate(t.ctx),
        Ok(vec![function(
            "f",
            vec![param("a", c_int())],
            Ty::Unit,
            vec![Stmt::Expr(Expr::While(Box::new(collapsed), Block { stmts: vec![] }))]
        )])
    );
}

#[test]
fn while_with_a_pure_condition_uses_it_as_it_is() {
    // void f(int a) { while (a) { a = 0; } }
    let mut t = Tree::new();
    let a = t.param("a", INT);
    let cond = t.load(a, INT);
    let place = t.reference(a, INT);
    let zero = t.literal(0);
    let assign = t.binary("=", INT, place, zero);
    let inner = t.compound(vec![assign]);
    let w = t.add(Tag::WhileStmt, vec![Some(cond), Some(inner)], None, vec![]);
    let body = t.compound(vec![w]);
    t.function("f", FN_VOID, vec![a], body);
    let deref = || Expr::Unary(UnOp::Deref, Box::new(id("fresh")));
    assert_eq!(
        translate(t.ctx),
        Ok(vec![function(
            "f",
            vec![param("a", c_int())],
            Ty::Unit,
            vec![Stmt::Expr(Expr::While(
                Box::new(id("a")),
                Block {
                    stmts: vec![
                        Stmt::Local(
                            Pat { name: "fresh".to_string(), by_ref: true, mutable: true },
                            None,
                            Some(id("a")),
                        ),
                        Stmt::Expr(Expr::Assign(Box::new(deref()), Box::new(Expr::IntLit(0)))),
                        Stmt::Expr(deref()),
                    ]
                }
            ))]
        )])
    );
}

#[test]
fn call_lowers_function_and_arguments_from_left_to_right() {
    // int f(int a, int b) { return f(a = 1, b = 2); }
    let mut t = Tree::new();
    let a = t.param("a", INT);
    let b = t.param("b", INT);
    // the declaration of f gets the next id but one: it is made last
    let place_a = t.reference(a, INT);
    let one = t.literal(1);
    let first = t.binary("=", INT, place_a, one);
    let place_b = t.reference(b, INT);
    let two = t.literal(2);
    let second = t.binary("=", INT, place_b, two);
    // DeclRefExpr to the function itself: child id is filled in below
    let callee = t.add(Tag::DeclRefExpr, vec![None], Some(FN_INT), vec![]);
    let call = t.add(Tag::CallExpr, vec![Some(callee), Some(first), Some(second)], Some(INT), vec![]);
    let r = t.ret(Some(call));
    let body = t.compound(vec![r]);
    let f = t.function("f", FN_INT, vec![a, b], body);
    t.ctx.ast_nodes.get_mut(&callee).unwrap().children = vec![Some(f)];
    let deref = |n: &str| Expr::Unary(UnOp::Deref, Box::new(id(n)));
    let borrow = |n: &str, place: &str| {
        Stmt::Local(Pat { name: n.to_string(), by_ref: true, mutable: true }, None, Some(id(place)))
    };
    let store = |n: &str, v: u64| {
        Stmt::Expr(Expr::Assign(Box::new(deref(n)), Box::new(Expr::IntLit(v))))
    };
    assert_eq!(
        translate(t.ctx),
        Ok(vec![function(
            "f",
            vec![param("a", c_int()), param("b", c_int())],
            c_int(),
            vec![
                borrow("fresh", "a"),
                store("fresh", 1),
                borrow("fresh_1", "b"),
                store("fresh_1", 2),
                give(Expr::Call(Box::new(id("f")), vec![deref("fresh"), deref("fresh_1")])),
            ]
        )])
    );
}

#[test]
fn binary_operands_keep_their_order() {
    // int f(int a, int b) { return (a = 1) + (b = 2); }
    let mut t = Tree::new();
    let a = t.param("a", INT);
    let b = t.param("b", INT);
    let place_a = t.reference(a, INT);
    let one = t.literal(1);
    let first = t.binary("=", INT, place_a, one);
    let place_b = t.reference(b, INT);
    let two = t.literal(2);
    let second = t.binary("=", INT, place_b, two);
    let sum = t.binary("+", INT, first, second);
    let r = t.ret(Some(sum));
    let body = t.compound(vec![r]);
    t.function("f", FN_INT, vec![a, b], body);
    let items = translate(t.ctx).unwrap();
    let Item::Fn(_, _, _, block) = &items[0] else { panic!("a function") };
    let names: Vec<String> = block
        .stmts
        .iter()
        .filter_map(|s| match s {
            Stmt::Local(p, _, Some(Expr::Ident(place))) => Some(format!("{}={}", p.name, place)),
            _ => None,
        })
        .collect();
    assert_eq!(names, vec!["fresh=a".to_string(), "fresh_1=b".to_string()]);
    let deref = |n: &str| Expr::Unary(UnOp::Deref, Box::new(id(n)));
    assert_eq!(
        block.stmts[4],
        give(Expr::Binary(BinOp::Add, Box::new(deref("fresh")), Box::new(deref("fresh_1"))))
    );
}

#[test]
fn member_access_and_address_of_and_literals() {
    // double f(struct point* s) { 'c'; 2.5; return (&s)->x ... } in pieces
    let mut t = Tree::new();
    t.ctx.type_nodes.insert(POINT, TypeNode { tag: TypeTag::Record, extras: vec![Scalar::Unsigned(90)] });
    t.ctx.ast_nodes.insert(
        90,
        AstNode {
            tag: Tag::RecordDecl,
            children: vec![Some(91)],
            type_id: None,
            extras: vec![Scalar::Text("point".to_string())],
        },
    );
    t.ctx.ast_nodes.insert(
        91,
        AstNode {
            tag: Tag::FieldDecl,
            children: vec![],
            type_id: Some(DOUBLE),
            extras: vec![Scalar::Text("x".to_string())],
        },
    );
    let s = t.param("s", POINT);
    let ch = t.add(Tag::CharacterLiteral, vec![], Some(INT), vec![Scalar::Unsigned(99)]);
    let fl = t.add(Tag::FloatingLiteral, vec![], Some(DOUBLE), vec![Scalar::Real("2.5".to_string())]);
    let use_s = t.reference(s, POINT);
    let addr = t.add(Tag::UnaryOperator, vec![Some(use_s)], Some(INT_PTR), vec![Scalar::Text("&".to_string())]);
    let use_s2 = t.reference(s, POINT);
    let member = t.add(Tag::MemberExpr, vec![Some(use_s2), Some(91)], Some(DOUBLE), vec![]);
    let r = t.ret(Some(member));
    let body = t.compound(vec![ch, fl, addr, r]);
    t.ctx.type_nodes.insert(
        20,
        TypeNode { tag: TypeTag::Function, extras: vec![Scalar::List(vec![Scalar::Unsigned(DOUBLE)])] },
    );
    t.function("f", 20, vec![s], body);
    let point = || Ty::Path(vec!["point".to_string()]);
    let double = Ty::Path(vec!["libc".to_string(), "c_double".to_string()]);
    assert_eq!(
        translate(t.ctx),
        Ok(vec![function(
            "f",
            vec![param("s", point())],
            double,
            vec![
                Stmt::Expr(Expr::IntLit(99)),
                Stmt::Expr(Expr::FloatLit("2.5".to_string())),
                Stmt::Expr(Expr::Cast(
                    Box::new(Expr::AddrOfMut(Box::new(id("s")))),
                    Ty::Ptr(Box::new(c_int())),
                )),
                give(Expr::Field(Box::new(id("s")), "x".to_string())),
            ]
        )])
    );
}

#[test]
fn return_without_a_value() {
    let mut t = Tree::new();
    let r = t.ret(None);
    let body = t.compound(vec![r]);
    t.function("f", FN_VOID, vec![], body);
    assert_eq!(
        translate(t.ctx),
        Ok(vec![function("f", vec![], Ty::Unit, vec![Stmt::Expr(Expr::Return(None))])])
    );
}

#[test]
fn top_level_names_are_bound_before_any_body_is_lowered() {
    // int first() { return second(); }  int second() { return 0; }
    let mut t = Tree::new();
    let callee = t.add(Tag::DeclRefExpr, vec![None], Some(FN_INT), vec![]);
    let call = t.add(Tag::CallExpr, vec![Some(callee)], Some(INT), vec![]);
    let r = t.ret(Some(call));
    let body = t.compound(vec![r]);
    t.function("first", FN_INT, vec![], body);
    let zero = t.literal(0);
    let r2 = t.ret(Some(zero));
    let body2 = t.compound(vec![r2]);
    let second = t.function("second", FN_INT, vec![], body2);
    t.ctx.ast_nodes.get_mut(&callee).unwrap().children = vec![Some(second)];
    assert_eq!(
        translate(t.ctx),
        Ok(vec![
            function(
                "first",
                vec![],
                c_int(),
                vec![give(Expr::Call(Box::new(id("second")), vec![]))]
            ),
            function("second", vec![], c_int(), vec![give(Expr::IntLit(0))]),
        ])
    );
}

#[test]
fn structs_and_typedefs_become_items_in_order() {
    let mut t = Tree::new();
    let fx = t.named(Tag::FieldDecl, "x", INT, vec![]);
    let fy = t.named(Tag::FieldDecl, "next", INT_PTR, vec![]);
    let rec = t.add(
        Tag::RecordDecl,
        vec![Some(fx), Some(fy)],
        None,
        vec![Scalar::Text("pair".to_string())],
    );
    t.ctx.top_nodes.push(rec);
    let td = t.named(Tag::TypedefDecl, "count", UINT, vec![]);
    t.ctx.top_nodes.push(td);
    assert_eq!(
        translate(t.ctx),
        Ok(vec![
            Item::Struct(
                "pair".to_string(),
                vec![
                    FieldDef { name: "x".to_string(), ty: c_int() },
                    FieldDef { name: "next".to_string(), ty: Ty::Ptr(Box::new(c_int())) },
                ]
            ),
            Item::TypeAlias("count".to_string(), c_uint()),
        ])
    );
}

#[test]
fn empty_translation_unit_gives_no_items() {
    assert_eq!(translate(Tree::new().ctx), Ok(vec![]));
}

#[test]
fn translating_twice_gives_the_same_items() {
    let build = || {
        let mut t = Tree::new();
        let a = t.param("a", INT);
        let place = t.reference(a, INT);
        let one = t.literal(1);
        let bump = t.binary("-=", INT, place, one);
        let v = t.var("a", INT, Some(bump));
        let d = t.decl_stmt(vec![v]);
        let body = t.compound(vec![d]);
        t.function("f", FN_VOID, vec![a], body);
        t.ctx
    };
    let first = translate(build());
    let second = translate(build());
    assert!(first.is_ok());
    assert_eq!(first, second);
}

#[test]
fn add_function_closes_its_scopes_on_success_and_on_failure() {
    let mut t = Tree::new();
    let x = t.param("x", INT);
    let use_x = t.load(x, INT);
    let r = t.ret(Some(use_x));
    let good = t.compound(vec![r]);
    // a body that uses a left shift, which is not handled, inside two blocks
    let one = t.literal(1);
    let two = t.literal(2);
    let shift = t.binary("<<", INT, one, two);
    let inner = t.compound(vec![shift]);
    let bad = t.compound(vec![inner]);
    let mut tr = Translation::new(t.ctx);
    assert_eq!(tr.renamer.depth(), 1);
    assert_eq!(tr.add_function("ok", &[("x", INT)], INT, good), Ok(()));
    assert_eq!(tr.renamer.depth(), 1);
    assert_eq!(tr.items.len(), 1);
    assert_eq!(
        tr.add_function("broken", &[("x", INT)], INT, bad),
        Err(Failure::Unimplemented(Construct::BinaryOperator("<<".to_string())))
    );
    assert_eq!(tr.renamer.depth(), 1);
    assert_eq!(tr.items.len(), 1);
    // failure in the parameters
    assert_eq!(
        tr.add_function("twice", &[("x", INT), ("x", INT)], INT, good),
        Err(Failure::Malformed(Defect::Redeclared))
    );
    assert_eq!(tr.renamer.depth(), 1);
    assert_eq!(
        tr.add_function("untyped", &[("x", 77)], INT, good),
        Err(Failure::Malformed(Defect::DanglingType))
    );
    assert_eq!(tr.renamer.depth(), 1);
    assert_eq!(tr.items.len(), 1);
}

#[test]
fn add_function_names_the_item_as_the_renamer_does() {
    let mut t = Tree::new();
    let r = t.ret(None);
    let body = t.compound(vec![r]);
    let mut tr = Translation::new(t.ctx);
    tr.renamer.insert("other".to_string(), "f");
    assert_eq!(tr.add_function("f", &[], VOID, body), Ok(()));
    assert_eq!(tr.items[0], function("f_1", vec![], Ty::Unit, vec![Stmt::Expr(Expr::Return(None))]));
    assert_eq!(tr.renamer.get("f"), Some("f_1".to_string()));
    // a second function of the same C name keeps the name that is bound
    assert_eq!(tr.add_function("f", &[], VOID, body), Ok(()));
    assert_eq!(tr.items[1], function("f_1", vec![], Ty::Unit, vec![Stmt::Expr(Expr::Return(None))]));
}

#[test]
fn add_struct_and_add_typedef() {
    let mut tr = Translation::new(Tree::new().ctx);
    assert_eq!(tr.add_struct("s", &[("a", INT), ("b", UINT)]), Ok(()));
    assert_eq!(tr.add_typedef("t", INT_PTR), Ok(()));
    assert_eq!(tr.add_struct("bad", &[("a", 77)]), Err(Failure::Malformed(Defect::DanglingType)));
    assert_eq!(tr.add_typedef("bad", FN_INT), Err(Failure::Unimplemented(Construct::Type(TypeTag::Function))));
    assert_eq!(
        tr.items,
        vec![
            Item::Struct(
                "s".to_string(),
                vec![
                    FieldDef { name: "a".to_string(), ty: c_int() },
                    FieldDef { name: "b".to_string(), ty: c_uint() },
                ]
            ),
            Item::TypeAlias("t".to_string(), Ty::Ptr(Box::new(c_int()))),
        ]
    );
}

fn failure_of(build: impl FnOnce(&mut Tree) -> u64) -> Failure {
    let mut t = Tree::new();
    let stmt = build(&mut t);
    let body = t.compound(vec![stmt]);
    t.function("f", FN_VOID, vec![], body);
    translate(t.ctx).unwrap_err()
}

#[test]
fn unhandled_constructs_fail_loudly() {
    assert_eq!(
        failure_of(|t| t.add(Tag::ForStmt, vec![], None, vec![])),
        Failure::Unimplemented(Construct::Expression(Tag::ForStmt))
    );
    assert_eq!(
        failure_of(|t| t.add(Tag::StringLiteral, vec![], Some(INT_PTR), vec![])),
        Failure::Unimplemented(Construct::Expression(Tag::StringLiteral))
    );
    assert_eq!(
        failure_of(|t| t.add(Tag::Other(250), vec![], None, vec![])),
        Failure::Unimplemented(Construct::Expression(Tag::Other(250)))
    );
    // a scalar of a kind that is never read, where the value of a literal belongs
    assert_eq!(
        failure_of(|t| t.add(Tag::IntegerLiteral, vec![], Some(INT), vec![Scalar::Other])),
        Failure::Malformed(Defect::MissingScalar)
    );
    assert_eq!(
        failure_of(|t| {
            let d = t.named(Tag::TypedefDecl, "local", INT, vec![]);
            t.decl_stmt(vec![d])
        }),
        Failure::Unimplemented(Construct::Declaration(Tag::TypedefDecl))
    );
    assert_eq!(
        failure_of(|t| {
            let one = t.literal(1);
            t.add(Tag::UnaryOperator, vec![Some(one)], Some(INT), vec![Scalar::Text("-".to_string())])
        }),
        Failure::Unimplemented(Construct::UnaryOperator("-".to_string()))
    );
    assert_eq!(
        failure_of(|t| {
            let one = t.literal(1);
            let two = t.literal(2);
            t.binary("<<", INT, one, two)
        }),
        Failure::Unimplemented(Construct::BinaryOperator("<<".to_string()))
    );
    assert_eq!(
        failure_of(|t| {
            let v = t.var("v", FN_INT, None);
            t.decl_stmt(vec![v])
        }),
        Failure::Unimplemented(Construct::Type(TypeTag::Function))
    );
}

#[test]
fn unhandled_top_level_declaration_fails() {
    let mut t = Tree::new();
    let g = t.var("global", INT, None);
    t.ctx.top_nodes.push(g);
    assert_eq!(
        translate(t.ctx),
        Err(Failure::Unimplemented(Construct::Declaration(Tag::VarDecl)))
    );
}

#[test]
fn malformed_trees_fail_with_their_defect() {
    // dangling statement id
    assert_eq!(failure_of(|_| 9999), Failure::Malformed(Defect::DanglingNode));
    // binary operator with one child
    assert_eq!(
        failure_of(|t| {
            let one = t.literal(1);
            t.add(Tag::BinaryOperator, vec![Some(one)], Some(INT), vec![Scalar::Text("+".to_string())])
        }),
        Failure::Malformed(Defect::MissingChild)
    );
    // operand without a type
    assert_eq!(
        failure_of(|t| {
            let one = t.literal(1);
            let untyped = t.add(Tag::IntegerLiteral, vec![], None, vec![Scalar::Unsigned(2)]);
            t.binary("+", INT, one, untyped)
        }),
        Failure::Malformed(Defect::MissingType)
    );
    // operand with a dangling type
    assert_eq!(
        failure_of(|t| {
            let one = t.literal(1);
            let odd = t.add(Tag::IntegerLiteral, vec![], Some(77), vec![Scalar::Unsigned(2)]);
            t.binary("+", INT, one, odd)
        }),
        Failure::Malformed(Defect::DanglingType)
    );
    // literal without a value
    assert_eq!(
        failure_of(|t| t.add(Tag::IntegerLiteral, vec![], Some(INT), vec![])),
        Failure::Malformed(Defect::MissingScalar)
    );
    // literal with a text where a number belongs
    assert_eq!(
        failure_of(|t| t.add(Tag::IntegerLiteral, vec![], Some(INT), vec![Scalar::Text("1".to_string())])),
        Failure::Malformed(Defect::MissingScalar)
    );
    // use of a name that nothing declared
    assert_eq!(
        failure_of(|t| {
            let stray = t.var("stray", INT, None);
            t.reference(stray, INT)
        }),
        Failure::Malformed(Defect::Undeclared)
    );
    // the same variable declared twice in one scope
    assert_eq!(
        failure_of(|t| {
            let a = t.var("v", INT, None);
            let b = t.var("v", INT, None);
            t.decl_stmt(vec![a, b])
        }),
        Failure::Malformed(Defect::Redeclared)
    );
    // a name that is no identifier
    assert_eq!(
        failure_of(|t| {
            let a = t.var("not a name", INT, None);
            t.decl_stmt(vec![a])
        }),
        Failure::Malformed(Defect::BadIdentifier)
    );
    // return without a slot for its value
    assert_eq!(
        failure_of(|t| t.add(Tag::ReturnStmt, vec![], None, vec![])),
        Failure::Malformed(Defect::MissingChild)
    );
    // call without a function
    assert_eq!(
        failure_of(|t| t.add(Tag::CallExpr, vec![], Some(INT), vec![])),
        Failure::Malformed(Defect::MissingChild)
    );
}

#[test]
fn function_without_a_compound_body_fails() {
    let mut t = Tree::new();
    let r = t.ret(None);
    t.function("f", FN_VOID, vec![], r);
    assert_eq!(translate(t.ctx), Err(Failure::Malformed(Defect::BodyNotCompound)));
}

#[test]
fn function_declaration_without_a_body_fails() {
    let mut t = Tree::new();
    let id = t.add(Tag::FunctionDecl, vec![None], Some(FN_VOID), vec![Scalar::Text("proto".to_string())]);
    t.ctx.top_nodes.push(id);
    assert_eq!(translate(t.ctx), Err(Failure::Malformed(Defect::MissingChild)));
}

#[test]
fn dangling_top_level_id_fails() {
    let mut t = Tree::new();
    t.ctx.top_nodes.push(4242);
    assert_eq!(translate(t.ctx), Err(Failure::Malformed(Defect::DanglingNode)));
}

#[test]
fn a_statement_that_contains_itself_fails_as_cyclic() {
    let mut t = Tree::new();
    let w = t.add(Tag::CompoundStmt, vec![None], None, vec![]);
    t.ctx.ast_nodes.get_mut(&w).unwrap().children = vec![Some(w)];
    t.function("f", FN_VOID, vec![], w);
    assert_eq!(translate(t.ctx), Err(Failure::Malformed(Defect::Cyclic)));
}

#[test]
fn an_expression_that_contains_itself_fails_as_cyclic() {
    assert_eq!(
        failure_of(|t| {
            let c = t.add(Tag::ImplicitCastExpr, vec![None], Some(INT), vec![]);
            t.ctx.ast_nodes.get_mut(&c).unwrap().children = vec![Some(c)];
            c
        }),
        Failure::Malformed(Defect::Cyclic)
    );
}

#[test]
fn the_deepest_tree_that_the_store_can_hold_is_lowered() {
    // a chain of casts through every node but the function, its body and the return
    let mut t = Tree::new();
    let mut e = t.literal(5);
    for _ in 0..40 {
        e = t.add(Tag::ImplicitCastExpr, vec![Some(e)], Some(INT), vec![]);
    }
    let r = t.ret(Some(e));
    let body = t.compound(vec![r]);
    t.function("deep", FN_INT, vec![], body);
    assert_eq!(
        translate(t.ctx),
        Ok(vec![function("deep", vec![], c_int(), vec![give(Expr::IntLit(5))])])
    );
}
