use ast_importer::target::{Block, Expr, Pat, Stmt, UnOp};
use ast_importer::with_stmts::{stmts_block, with_stmts_opt, WithStmts};

fn ident(name: &str) -> Expr {
    Expr::Ident(name.to_string())
}

fn let_stmt(name: &str, init: u64) -> Stmt {
    Stmt::Local(
        Pat { name: name.to_string(), by_ref: false, mutable: true },
        None,
        Some(Expr::IntLit(init)),
    )
}

#[test]
fn new_has_an_empty_prefix() {
    let w = WithStmts::new(5u32);
    assert_eq!(w.val, 5);
    assert!(w.stmts.is_empty());
}

#[test]
fn to_expr_of_a_bare_value_is_the_value() {
    let e = Expr::Binary(
        ast_importer::target::BinOp::Add,
        Box::new(ident("a")),
        Box::new(Expr::IntLit(1)),
    );
    let same = Expr::Binary(
        ast_importer::target::BinOp::Add,
        Box::new(ident("a")),
        Box::new(Expr::IntLit(1)),
    );
    assert_eq!(WithStmts::new(e).to_expr(), same);
}

#[test]
fn to_expr_with_a_prefix_is_a_block_ending_in_the_value() {
    let w = WithStmts { stmts: vec![let_stmt("t", 1), let_stmt("u", 2)], val: ident("t") };
    let expected = Expr::Block(Block {
        stmts: vec![let_stmt("t", 1), let_stmt("u", 2), Stmt::Expr(ident("t"))],
    });
    assert_eq!(w.to_expr(), expected);
}

#[test]
fn and_then_appends_the_second_prefix_after_the_first() {
    let first = WithStmts { stmts: vec![let_stmt("a", 1)], val: 10u64 };
    let r = first.and_then(|v| WithStmts { stmts: vec![let_stmt("b", v)], val: v + 1 });
    assert_eq!(r.val, 11);
    assert_eq!(r.stmts, vec![let_stmt("a", 1), let_stmt("b", 10)]);
}

#[test]
fn and_then_with_new_keeps_the_prefix() {
    let first = WithStmts { stmts: vec![let_stmt("a", 1)], val: 3u64 };
    let r = first.and_then(|v| WithStmts::new(v * 2));
    assert_eq!(r.val, 6);
    assert_eq!(r.stmts, vec![let_stmt("a", 1)]);
}

#[test]
fn new_then_f_is_f() {
    let r = WithStmts::new(4u64).and_then(|v| WithStmts { stmts: vec![let_stmt("z", v)], val: v });
    assert_eq!(r.val, 4);
    assert_eq!(r.stmts, vec![let_stmt("z", 4)]);
}

#[test]
fn and_then_is_associative_on_an_example() {
    let f = |x: u64| WithStmts { stmts: vec![let_stmt("f", x)], val: x + 1 };
    let g = |y: u64| WithStmts { stmts: vec![let_stmt("g", y)], val: y * 2 };
    let a1 = WithStmts { stmts: vec![let_stmt("a", 0)], val: 5u64 };
    let a2 = WithStmts { stmts: vec![let_stmt("a", 0)], val: 5u64 };
    let left = a1.and_then(f).and_then(g);
    let right = a2.and_then(|x| f(x).and_then(g));
    assert_eq!(left.val, 12);
    assert_eq!(left.val, right.val);
    assert_eq!(left.stmts, right.stmts);
    assert_eq!(left.stmts, vec![let_stmt("a", 0), let_stmt("f", 5), let_stmt("g", 6)]);
}

#[test]
fn map_changes_the_value_only() {
    let w = WithStmts { stmts: vec![let_stmt("a", 1)], val: ident("a") };
    let r = w.map(|e| Expr::Unary(UnOp::Neg, Box::new(e)));
    assert_eq!(r.val, Expr::Unary(UnOp::Neg, Box::new(ident("a"))));
    assert_eq!(r.stmts, vec![let_stmt("a", 1)]);
}

#[test]
fn stmts_block_unwraps_a_single_block_statement() {
    let inner = Block { stmts: vec![let_stmt("a", 1), Stmt::Expr(ident("a"))] };
    let same = Block { stmts: vec![let_stmt("a", 1), Stmt::Expr(ident("a"))] };
    assert_eq!(stmts_block(vec![Stmt::Expr(Expr::Block(inner))]), same);
}

#[test]
fn stmts_block_keeps_everything_else() {
    assert_eq!(stmts_block(vec![]), Block { stmts: vec![] });
    assert_eq!(
        stmts_block(vec![Stmt::Expr(ident("a"))]),
        Block { stmts: vec![Stmt::Expr(ident("a"))] }
    );
    assert_eq!(stmts_block(vec![let_stmt("a", 1)]), Block { stmts: vec![let_stmt("a", 1)] });
    let two = vec![
        Stmt::Expr(Expr::Block(Block { stmts: vec![] })),
        Stmt::Expr(Expr::Block(Block { stmts: vec![] })),
    ];
    let same = vec![
        Stmt::Expr(Expr::Block(Block { stmts: vec![] })),
        Stmt::Expr(Expr::Block(Block { stmts: vec![] })),
    ];
    assert_eq!(stmts_block(two), Block { stmts: same });
}

#[test]
fn with_stmts_opt_of_nothing_is_none_with_an_empty_prefix() {
    let r: WithStmts<Option<u8>> = with_stmts_opt(None);
    assert_eq!(r.val, None);
    assert!(r.stmts.is_empty());
}

#[test]
fn with_stmts_opt_of_something_keeps_prefix_and_wraps_value() {
    let r = with_stmts_opt(Some(WithStmts { stmts: vec![let_stmt("a", 1)], val: 9u8 }));
    assert_eq!(r.val, Some(9));
    assert_eq!(r.stmts, vec![let_stmt("a", 1)]);
}
