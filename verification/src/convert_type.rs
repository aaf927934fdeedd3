//! From a C type to the type of the target language that represents it.

use crate::clang::{unsigned_at, unsigned_of, AstContext, TypeNode, TypeTag};
use crate::failure::{Construct, ConstructV, Defect, Failure, FailureV};
use crate::target::{libc_ty, Ty, TyV};
use vstd::prelude::*;

verus! {

/// The name under `libc` of the type that represents a C scalar type.
pub open spec fn scalar_name(tag: TypeTag) -> Option<Seq<char>> {
    match tag {
        TypeTag::Char => Some("c_char"@),
        TypeTag::SChar => Some("c_schar"@),
        TypeTag::UChar => Some("c_uchar"@),
        TypeTag::Short => Some("c_short"@),
        TypeTag::UShort => Some("c_ushort"@),
        TypeTag::Int => Some("c_int"@),
        TypeTag::UInt => Some("c_uint"@),
        TypeTag::Long => Some("c_long"@),
        TypeTag::ULong => Some("c_ulong"@),
        TypeTag::LongLong => Some("c_longlong"@),
        TypeTag::ULongLong => Some("c_ulonglong"@),
        TypeTag::Float => Some("c_float"@),
        TypeTag::Double => Some("c_double"@),
        _ => None,
    }
}

/// The name of the declaration that a record or typedef type refers to by its first
/// scalar.
pub open spec fn declared_name(ctx: AstContext, ty: TypeNode) -> Result<Seq<char>, FailureV> {
    match unsigned_at(ty.extras@, 0) {
        None => Err(FailureV::Malformed(Defect::MissingScalar)),
        Some(decl) => match ctx.node_at(decl) {
            Err(f) => Err(f),
            Ok(node) => match node.decl_name() {
                None => Err(FailureV::Malformed(Defect::MissingScalar)),
                Some(name) => Ok(name),
            },
        },
    }
}

/// The target type for the C type `id`, with at most `fuel` pointers followed.
///
/// `void` is the empty tuple and `_Bool` is `bool`; the other scalar types are the
/// types of `libc`; a pointer is a mutable raw pointer to what its first scalar names;
/// a record or a typedef is the name of its declaration. Any other form is not handled.
pub open spec fn convert_within(ctx: AstContext, id: u64, fuel: nat) -> Result<TyV, FailureV>
    decreases fuel,
{
    match ctx.type_at(id) {
        Err(f) => Err(f),
        Ok(node) => if node.tag is Void {
            Ok(TyV::Unit)
        } else if node.tag is Bool {
            Ok(TyV::Path(seq!["bool"@]))
        } else if scalar_name(node.tag) is Some {
            Ok(libc_ty(scalar_name(node.tag)->Some_0))
        } else if node.tag is Pointer {
            if fuel == 0 {
                Err(FailureV::Malformed(Defect::Cyclic))
            } else {
                match unsigned_at(node.extras@, 0) {
                    None => Err(FailureV::Malformed(Defect::MissingScalar)),
                    Some(pointee) => match convert_within(ctx, pointee, (fuel - 1) as nat) {
                        Err(f) => Err(f),
                        Ok(inner) => Ok(TyV::Ptr(Box::new(inner))),
                    },
                }
            }
        } else if node.tag is Record || node.tag is Typedef {
            match declared_name(ctx, node) {
                Err(f) => Err(f),
                Ok(name) => Ok(TyV::Path(seq![name])),
            }
        } else {
            Err(FailureV::Unimplemented(ConstructV::Type(node.tag)))
        },
    }
}

/// The target type for the C type `id`. A chain of pointers longer than the store has
/// types runs in a circle and is a failure.
pub open spec fn converted(ctx: AstContext, id: u64) -> Result<TyV, FailureV> {
    convert_within(ctx, id, ctx.types().len())
}

/// Whether `r` is the outcome `expected`, the type taken by its view.
pub open spec fn ty_result(r: Result<Ty, Failure>, expected: Result<TyV, FailureV>) -> bool {
    match r {
        Ok(t) => expected == Ok::<TyV, FailureV>(t@),
        Err(f) => expected == Err::<TyV, FailureV>(f@),
    }
}

/// The text of [`scalar_name`].
fn scalar_libc_name(tag: TypeTag) -> (r: Option<&'static str>)
    ensures
        match r {
            Some(name) => scalar_name(tag) == Some(name@),
            None => scalar_name(tag).is_none(),
        },
{
    match tag {
        TypeTag::Char => Some("c_char"),
        TypeTag::SChar => Some("c_schar"),
        TypeTag::UChar => Some("c_uchar"),
        TypeTag::Short => Some("c_short"),
        TypeTag::UShort => Some("c_ushort"),
        TypeTag::Int => Some("c_int"),
        TypeTag::UInt => Some("c_uint"),
        TypeTag::Long => Some("c_long"),
        TypeTag::ULong => Some("c_ulong"),
        TypeTag::LongLong => Some("c_longlong"),
        TypeTag::ULongLong => Some("c_ulonglong"),
        TypeTag::Float => Some("c_float"),
        TypeTag::Double => Some("c_double"),
        _ => None,
    }
}

/// The name of the declaration behind a record or typedef type.
fn declared_name_of(ctx: &AstContext, ty: &TypeNode) -> (r: Result<String, Failure>)
    ensures
        match r {
            Ok(name) => declared_name(*ctx, *ty) == Ok::<Seq<char>, FailureV>(name@),
            Err(f) => declared_name(*ctx, *ty) == Err::<Seq<char>, FailureV>(f@),
        },
{
    let decl = unsigned_of(&ty.extras, 0)?;
    let node = ctx.get_node(decl)?;
    match node.get_decl_name() {
        Some(name) => Ok(name.clone()),
        None => Err(Failure::Malformed(Defect::MissingScalar)),
    }
}

/// See [`convert_within`].
fn convert_bounded(ctx: &AstContext, id: u64, fuel: usize) -> (r: Result<Ty, Failure>)
    ensures
        ty_result(r, convert_within(*ctx, id, fuel as nat)),
    decreases fuel,
{
    let node = ctx.get_type(id)?;
    match node.tag {
        TypeTag::Void => Ok(Ty::unit()),
        TypeTag::Bool => Ok(Ty::named("bool".to_owned())),
        TypeTag::Pointer => {
            if fuel == 0 {
                return Err(Failure::Malformed(Defect::Cyclic));
            }
            let pointee = unsigned_of(&node.extras, 0)?;
            let inner = convert_bounded(ctx, pointee, fuel - 1)?;
            Ok(Ty::ptr(inner))
        },
        TypeTag::Record | TypeTag::Typedef => {
            let name = declared_name_of(ctx, node)?;
            Ok(Ty::named(name))
        },
        tag => match scalar_libc_name(tag) {
            Some(name) => Ok(Ty::libc(name)),
            None => Err(Failure::Unimplemented(Construct::Type(tag))),
        },
    }
}

/// Converts C types. It holds no state: the same type converts to the same result.
#[derive(Debug)]
pub struct TypeConverter {}

impl TypeConverter {
    pub fn new() -> (c: TypeConverter) {
        TypeConverter {  }
    }

    /// The target type for the C type `type_id`: see [`converted`].
    pub fn convert(&self, ctx: &AstContext, type_id: u64) -> (r: Result<Ty, Failure>)
        ensures
            ty_result(r, converted(*ctx, type_id)),
    {
        convert_bounded(ctx, type_id, ctx.type_nodes.len())
    }
}

} // verus!
