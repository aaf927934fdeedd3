use ast_importer::clang::{
    expect_array, expect_float, expect_string, expect_u64, AstContext, AstNode, Scalar, Tag,
    TypeNode, TypeTag,
};
use ast_importer::convert_type::TypeConverter;
use ast_importer::failure::{Construct, Defect, Failure};
use ast_importer::target::Ty;
use std::collections::HashMap;

fn scalar_type(tag: TypeTag) -> TypeNode {
    TypeNode { tag, extras: vec![] }
}

fn referring(tag: TypeTag, id: u64) -> TypeNode {
    TypeNode { tag, extras: vec![Scalar::Unsigned(id)] }
}

fn decl(tag: Tag, name: &str, type_id: Option<u64>) -> AstNode {
    AstNode { tag, children: vec![], type_id, extras: vec![Scalar::Text(name.to_string())] }
}

fn context(types: Vec<(u64, TypeNode)>, nodes: Vec<(u64, AstNode)>) -> AstContext {
    let mut type_nodes = HashMap::new();
    for (id, t) in types {
        type_nodes.insert(id, t);
    }
    let mut ast_nodes = HashMap::new();
    for (id, n) in nodes {
        ast_nodes.insert(id, n);
    }
    AstContext { top_nodes: vec![], ast_nodes, type_nodes }
}

fn libc(name: &str) -> Ty {
    Ty::Path(vec!["libc".to_string(), name.to_string()])
}

#[test]
fn scalar_types_convert_to_libc_types() {
    let table = [
        (TypeTag::Char, "c_char"),
        (TypeTag::SChar, "c_schar"),
        (TypeTag::UChar, "c_uchar"),
        (TypeTag::Short, "c_short"),
        (TypeTag::UShort, "c_ushort"),
        (TypeTag::Int, "c_int"),
        (TypeTag::UInt, "c_uint"),
        (TypeTag::Long, "c_long"),
        (TypeTag::ULong, "c_ulong"),
        (TypeTag::LongLong, "c_longlong"),
        (TypeTag::ULongLong, "c_ulonglong"),
        (TypeTag::Float, "c_float"),
        (TypeTag::Double, "c_double"),
    ];
    for (tag, name) in table {
        let ctx = context(vec![(1, scalar_type(tag))], vec![]);
        assert_eq!(TypeConverter::new().convert(&ctx, 1), Ok(libc(name)));
    }
}

#[test]
fn void_is_unit_and_bool_is_bool() {
    let ctx = context(
        vec![(1, scalar_type(TypeTag::Void)), (2, scalar_type(TypeTag::Bool))],
        vec![],
    );
    assert_eq!(TypeConverter::new().convert(&ctx, 1), Ok(Ty::Unit));
    assert_eq!(TypeConverter::new().convert(&ctx, 2), Ok(Ty::Path(vec!["bool".to_string()])));
}

#[test]
fn pointers_nest() {
    let ctx = context(
        vec![
            (1, scalar_type(TypeTag::Int)),
            (2, referring(TypeTag::Pointer, 1)),
            (3, referring(TypeTag::Pointer, 2)),
        ],
        vec![],
    );
    assert_eq!(
        TypeConverter::new().convert(&ctx, 3),
        Ok(Ty::Ptr(Box::new(Ty::Ptr(Box::new(libc("c_int"))))))
    );
}

#[test]
fn records_and_typedefs_are_named_after_their_declarations() {
    let ctx = context(
        vec![
            (1, referring(TypeTag::Record, 50)),
            (2, referring(TypeTag::Typedef, 51)),
            (3, scalar_type(TypeTag::UInt)),
        ],
        vec![
            (50, decl(Tag::RecordDecl, "point", None)),
            (51, decl(Tag::TypedefDecl, "size_t", Some(3))),
        ],
    );
    assert_eq!(TypeConverter::new().convert(&ctx, 1), Ok(Ty::Path(vec!["point".to_string()])));
    assert_eq!(TypeConverter::new().convert(&ctx, 2), Ok(Ty::Path(vec!["size_t".to_string()])));
}

#[test]
fn a_record_may_point_to_itself() {
    let ctx = context(
        vec![(1, referring(TypeTag::Record, 50)), (2, referring(TypeTag::Pointer, 1))],
        vec![(50, decl(Tag::RecordDecl, "list", None))],
    );
    assert_eq!(
        TypeConverter::new().convert(&ctx, 2),
        Ok(Ty::Ptr(Box::new(Ty::Path(vec!["list".to_string()]))))
    );
}

#[test]
fn unhandled_type_forms_fail_with_their_tag() {
    for tag in
        [TypeTag::LongDouble, TypeTag::Function, TypeTag::Enum, TypeTag::Array, TypeTag::Other(99)]
    {
        let ctx = context(vec![(1, scalar_type(tag))], vec![]);
        assert_eq!(
            TypeConverter::new().convert(&ctx, 1),
            Err(Failure::Unimplemented(Construct::Type(tag)))
        );
    }
}

#[test]
fn dangling_type_id_fails() {
    let ctx = context(vec![(1, referring(TypeTag::Pointer, 9))], vec![]);
    assert_eq!(
        TypeConverter::new().convert(&ctx, 7),
        Err(Failure::Malformed(Defect::DanglingType))
    );
    assert_eq!(
        TypeConverter::new().convert(&ctx, 1),
        Err(Failure::Malformed(Defect::DanglingType))
    );
}

#[test]
fn pointer_without_pointee_fails() {
    let ctx = context(vec![(1, scalar_type(TypeTag::Pointer))], vec![]);
    assert_eq!(
        TypeConverter::new().convert(&ctx, 1),
        Err(Failure::Malformed(Defect::MissingScalar))
    );
}

#[test]
fn record_with_dangling_or_nameless_declaration_fails() {
    let ctx = context(
        vec![(1, referring(TypeTag::Record, 50)), (2, referring(TypeTag::Record, 51))],
        vec![(
            51,
            AstNode { tag: Tag::RecordDecl, children: vec![], type_id: None, extras: vec![] },
        )],
    );
    assert_eq!(
        TypeConverter::new().convert(&ctx, 1),
        Err(Failure::Malformed(Defect::DanglingNode))
    );
    assert_eq!(
        TypeConverter::new().convert(&ctx, 2),
        Err(Failure::Malformed(Defect::MissingScalar))
    );
}

#[test]
fn pointer_cycle_fails_as_cyclic() {
    let ctx = context(
        vec![(1, referring(TypeTag::Pointer, 2)), (2, referring(TypeTag::Pointer, 1))],
        vec![],
    );
    assert_eq!(TypeConverter::new().convert(&ctx, 1), Err(Failure::Malformed(Defect::Cyclic)));
}

#[test]
fn longest_acyclic_pointer_chain_converts() {
    // as many pointers as the store can hold in a row: the budget must suffice
    let ctx = context(
        vec![
            (1, referring(TypeTag::Pointer, 2)),
            (2, referring(TypeTag::Pointer, 3)),
            (3, scalar_type(TypeTag::Char)),
        ],
        vec![],
    );
    assert_eq!(
        TypeConverter::new().convert(&ctx, 1),
        Ok(Ty::Ptr(Box::new(Ty::Ptr(Box::new(libc("c_char"))))))
    );
}

#[test]
fn conversion_is_repeatable() {
    let ctx = context(
        vec![(1, scalar_type(TypeTag::Int)), (2, referring(TypeTag::Pointer, 1))],
        vec![],
    );
    let c = TypeConverter::new();
    assert_eq!(c.convert(&ctx, 2), c.convert(&ctx, 2));
}

#[test]
fn resolve_follows_typedef_chains() {
    let ctx = context(
        vec![
            (1, scalar_type(TypeTag::ULong)),
            (2, referring(TypeTag::Typedef, 50)),
            (3, referring(TypeTag::Typedef, 51)),
        ],
        vec![
            (50, decl(Tag::TypedefDecl, "word", Some(1))),
            (51, decl(Tag::TypedefDecl, "size", Some(2))),
        ],
    );
    let outer = referring(TypeTag::Typedef, 51);
    let resolved = ctx.resolve_type(&outer).unwrap();
    assert_eq!(resolved.tag, TypeTag::ULong);
    assert!(resolved.is_unsigned_integral_type());
    assert!(!resolved.is_pointer());
    let plain = scalar_type(TypeTag::Int);
    assert_eq!(ctx.resolve_type(&plain).unwrap().tag, TypeTag::Int);
}

#[test]
fn resolve_of_a_typedef_cycle_fails_as_cyclic() {
    let ctx = context(
        vec![(2, referring(TypeTag::Typedef, 50)), (3, referring(TypeTag::Typedef, 51))],
        vec![
            (50, decl(Tag::TypedefDecl, "a", Some(3))),
            (51, decl(Tag::TypedefDecl, "b", Some(2))),
        ],
    );
    let t = referring(TypeTag::Typedef, 50);
    assert_eq!(ctx.resolve_type(&t), Err(Failure::Malformed(Defect::Cyclic)));
}

#[test]
fn resolve_of_a_broken_typedef_fails() {
    let ctx = context(
        vec![(2, referring(TypeTag::Typedef, 50))],
        vec![(50, decl(Tag::TypedefDecl, "a", None))],
    );
    assert_eq!(
        ctx.resolve_type(&referring(TypeTag::Typedef, 50)),
        Err(Failure::Malformed(Defect::MissingType))
    );
    assert_eq!(
        ctx.resolve_type(&referring(TypeTag::Typedef, 99)),
        Err(Failure::Malformed(Defect::DanglingNode))
    );
    assert_eq!(
        ctx.resolve_type(&scalar_type(TypeTag::Typedef)),
        Err(Failure::Malformed(Defect::MissingScalar))
    );
}

#[test]
fn type_predicates() {
    assert!(scalar_type(TypeTag::Pointer).is_pointer());
    assert!(!scalar_type(TypeTag::Int).is_pointer());
    for tag in [TypeTag::UChar, TypeTag::UShort, TypeTag::UInt, TypeTag::ULong, TypeTag::ULongLong]
    {
        assert!(scalar_type(tag).is_unsigned_integral_type());
    }
    for tag in [
        TypeTag::Char,
        TypeTag::SChar,
        TypeTag::Int,
        TypeTag::Long,
        TypeTag::Bool,
        TypeTag::Double,
        TypeTag::Pointer,
        TypeTag::Typedef,
    ] {
        assert!(!scalar_type(tag).is_unsigned_integral_type());
    }
}

#[test]
fn scalar_accessors_tell_the_kinds_apart() {
    let text = Scalar::Text("t".to_string());
    let number = Scalar::Unsigned(7);
    let float = Scalar::Real("1.5".to_string());
    let list = Scalar::List(vec![Scalar::Unsigned(1)]);
    assert_eq!(expect_string(&text), Some(&"t".to_string()));
    assert_eq!(expect_string(&float), None);
    assert_eq!(expect_u64(&number), Some(7));
    assert_eq!(expect_u64(&text), None);
    assert_eq!(expect_float(&float), Some(&"1.5".to_string()));
    assert_eq!(expect_float(&text), None);
    assert_eq!(expect_array(&list), Some(&vec![Scalar::Unsigned(1)]));
    assert_eq!(expect_array(&number), None);
}

#[test]
fn node_accessors() {
    let n = AstNode {
        tag: Tag::IfStmt,
        children: vec![Some(4), None],
        type_id: None,
        extras: vec![Scalar::Text("x".to_string())],
    };
    assert_eq!(n.child(0), Ok(4));
    assert_eq!(n.child(1), Err(Failure::Malformed(Defect::MissingChild)));
    assert_eq!(n.child(2), Err(Failure::Malformed(Defect::MissingChild)));
    assert_eq!(n.optional_child(1), Ok(None));
    assert_eq!(n.optional_child(0), Ok(Some(4)));
    assert_eq!(n.optional_child(2), Err(Failure::Malformed(Defect::MissingChild)));
    assert_eq!(n.get_decl_name(), None);
    let d = decl(Tag::VarDecl, "v", None);
    assert_eq!(d.get_decl_name(), Some(&"v".to_string()));
}

#[test]
fn a_context_is_built_entry_by_entry() {
    let mut ctx = AstContext::new();
    ctx.add_type(1, scalar_type(TypeTag::Int));
    ctx.add_type(1, scalar_type(TypeTag::UInt));
    ctx.add_node(50, decl(Tag::VarDecl, "v", Some(1)));
    ctx.add_top(50);
    ctx.add_top(51);
    assert_eq!(ctx.top_nodes, vec![50, 51]);
    assert_eq!(ctx.get_type(1).unwrap().tag, TypeTag::UInt);
    assert_eq!(ctx.get_node(50).unwrap().get_decl_name(), Some(&"v".to_string()));
    assert_eq!(ctx.get_node(51), Err(Failure::Malformed(Defect::DanglingNode)));
    assert_eq!(TypeConverter::new().convert(&ctx, 1), Ok(libc("c_uint")));
}
