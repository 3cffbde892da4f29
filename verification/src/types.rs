//! Types of the header as types of the bindings.

use crate::clang::{
    to_str, type_ok, CXCursor, CXCursorKind, CXType, CXTypeKind, CursorInfo, TranslationUnit,
};
use crate::ctx::{decl_name, identifier, named, rust_id, BindCtx, CtxView};
use crate::text::repeated;
use vstd::prelude::*;
use vstd::string::*;

verus! {

/// Whether a kind is that of a function type.
pub open spec fn is_function(kind: CXTypeKind) -> bool {
    kind == CXTypeKind::FunctionProto || kind == CXTypeKind::FunctionNoProto
}

/// The text for the type that a cursor declares, and the state after it. With
/// `wrap`, a struct, union or enumeration is named by its recursion wrapper.
pub open spec fn decl_text(
    unit: TranslationUnit,
    s: CtxView,
    cursor: CXCursor,
    wrap: bool,
) -> (CtxView, Seq<char>) {
    match unit.kind(cursor) {
        CXCursorKind::StructDecl | CXCursorKind::UnionDecl | CXCursorKind::EnumDecl => {
            let (s1, name) = named(unit, s, cursor);
            if wrap {
                (s1, "enum_recurse_"@ + name)
            } else {
                (s1, name)
            }
        },
        CXCursorKind::TypedefDecl => (s, identifier(s, unit.spelling(cursor))),
        _ => (
            s,
            "c_void /* unknown "@ + unit.info(cursor).kind_spelling@ + " "@ + unit.spelling(cursor)
                + " */"@,
        ),
    }
}

/// The text for a pointer to a type of a kind that hides functions, and the
/// state after it.
pub open spec fn hidden_pointer_text(
    unit: TranslationUnit,
    s: CtxView,
    ty: CXType,
    cursor: CXCursor,
    wrap: bool,
) -> (CtxView, Seq<char>) {
    if ty.result is Some && ty.result->0.kind != CXTypeKind::Invalid {
        (s, "*u8"@)
    } else if unit.kind(ty.decl) != CXCursorKind::NoDeclFound {
        let (s1, name) = decl_text(unit, s, ty.decl, wrap);
        (s1, "*"@ + name)
    } else {
        (
            s,
            "*c_void /* unknown "@ + ty.kind_spelling@ + " referenced by "@ + unit.info(
                cursor,
            ).kind_spelling@ + " "@ + unit.spelling(cursor) + " */"@,
        )
    }
}

/// The text for a pointer to a type, and the state after it.
pub open spec fn pointer_text(
    unit: TranslationUnit,
    s: CtxView,
    ty: CXType,
    cursor: CXCursor,
    wrap: bool,
) -> (CtxView, Seq<char>)
    decreases ty, 1nat,
{
    let behind = unit.info(ty.decl).underlying_ty;
    if ty.kind == CXTypeKind::Void {
        (s, "*c_void"@)
    } else if ty.kind == CXTypeKind::Unexposed || is_function(ty.kind) {
        hidden_pointer_text(unit, s, ty, cursor, wrap)
    } else if ty.kind == CXTypeKind::Typedef && is_function(behind.kind) {
        hidden_pointer_text(unit, s, behind, cursor, wrap)
    } else {
        let (s1, inner) = type_text(unit, s, ty, cursor, wrap);
        (s1, "*"@ + inner)
    }
}

/// The text for `size` elements side by side.
pub open spec fn array_text(element: Seq<char>, size: int) -> Seq<char> {
    if size == 0 {
        "/* FIXME: zero-sized array */\n"@
    } else if size == 1 {
        element
    } else {
        "("@ + repeated(element + ","@, if size < 0 {
            0
        } else {
            (size - 1) as nat
        }) + element + ")"@
    }
}

/// The text for a type that has a name of its own, if it has one.
pub open spec fn scalar_text(kind: CXTypeKind) -> Option<Seq<char>> {
    match kind {
        CXTypeKind::Bool => Some("bool"@),
        CXTypeKind::SChar | CXTypeKind::CharS => Some("c_char"@),
        CXTypeKind::UChar | CXTypeKind::CharU => Some("c_uchar"@),
        CXTypeKind::UShort => Some("c_ushort"@),
        CXTypeKind::UInt => Some("c_uint"@),
        CXTypeKind::ULong => Some("c_ulong"@),
        CXTypeKind::ULongLong => Some("c_ulonglong"@),
        CXTypeKind::Short => Some("c_short"@),
        CXTypeKind::Int => Some("c_int"@),
        CXTypeKind::Long => Some("c_long"@),
        CXTypeKind::LongLong => Some("c_longlong"@),
        CXTypeKind::Float => Some("c_float"@),
        CXTypeKind::Double => Some("c_double"@),
        _ => None,
    }
}

/// The text for a type, and the state after it. (A pointer has its pointee
/// and an array its element; without them there is no text.)
pub open spec fn type_text(
    unit: TranslationUnit,
    s: CtxView,
    ty: CXType,
    cursor: CXCursor,
    wrap: bool,
) -> (CtxView, Seq<char>)
    decreases ty, 0nat,
{
    match (scalar_text(ty.kind), ty.kind) {
        (Some(name), _) => (s, name),
        (None, CXTypeKind::Pointer) => match ty.pointee {
            Some(pointee) => pointer_text(unit, s, *pointee, cursor, wrap),
            None => (s, Seq::empty()),
        },
        (None, CXTypeKind::Record)
        | (None, CXTypeKind::Typedef)
        | (None, CXTypeKind::Unexposed)
        | (None, CXTypeKind::Enum) => decl_text(unit, s, ty.decl, wrap),
        (None, CXTypeKind::ConstantArray) => match ty.element {
            Some(element) => {
                let (s1, text) = type_text(unit, s, *element, cursor, wrap);
                (s1, array_text(text, ty.size as int))
            },
            None => (s, Seq::empty()),
        },
        _ => (s, "c_void /* unknown kind "@ + ty.kind_spelling@ + " */"@),
    }
}

/// The type that a cursor declares.
pub fn conv_decl_ty(
    ctx: &mut BindCtx,
    unit: &TranslationUnit,
    cursor: CXCursor,
    wrap_recurse: bool,
) -> (r: String)
    requires
        unit.holds(cursor),
    ensures
        (final(ctx)@, r@) == decl_text(*unit, old(ctx)@, cursor, wrap_recurse),
{
    let info: &CursorInfo = unit.at(cursor);
    match info.kind {
        CXCursorKind::StructDecl | CXCursorKind::UnionDecl | CXCursorKind::EnumDecl => {
            let name: String = decl_name(ctx, unit, cursor);
            if wrap_recurse {
                "enum_recurse_".to_owned().concat(name.as_str())
            } else {
                name
            }
        },
        CXCursorKind::TypedefDecl => rust_id(ctx, to_str(&info.spelling).as_str()),
        _ => "c_void /* unknown ".to_owned().concat(to_str(&info.kind_spelling).as_str()).concat(
            " ",
        ).concat(to_str(&info.spelling).as_str()).concat(" */"),
    }
}

/// A pointer to a type of a kind that hides functions: to a function it is a
/// plain address.
fn conv_hidden_ptr_ty(
    ctx: &mut BindCtx,
    unit: &TranslationUnit,
    ty: &CXType,
    cursor: CXCursor,
    wrap_recurse: bool,
) -> (r: String)
    requires
        unit.holds(cursor),
        type_ok(*ty, unit.cursors@.len()),
    ensures
        (final(ctx)@, r@) == hidden_pointer_text(*unit, old(ctx)@, *ty, cursor, wrap_recurse),
{
    let returns: bool = match &ty.result {
        Some(ret_ty) => ret_ty.kind != CXTypeKind::Invalid,
        None => false,
    };
    if returns {
        "*u8".to_owned()
    } else if unit.at(ty.decl).kind != CXCursorKind::NoDeclFound {
        let name: String = conv_decl_ty(ctx, unit, ty.decl, wrap_recurse);
        "*".to_owned().concat(name.as_str())
    } else {
        let info: &CursorInfo = unit.at(cursor);
        "*c_void /* unknown ".to_owned().concat(to_str(&ty.kind_spelling).as_str()).concat(
            " referenced by ",
        ).concat(to_str(&info.kind_spelling).as_str()).concat(" ").concat(
            to_str(&info.spelling).as_str(),
        ).concat(" */")
    }
}

/// A pointer to a type.
pub fn conv_ptr_ty(
    ctx: &mut BindCtx,
    unit: &TranslationUnit,
    ty: &CXType,
    cursor: CXCursor,
    wrap_recurse: bool,
) -> (r: String)
    requires
        unit.wf(),
        unit.holds(cursor),
        type_ok(*ty, unit.cursors@.len()),
    ensures
        (final(ctx)@, r@) == pointer_text(*unit, old(ctx)@, *ty, cursor, wrap_recurse),
    decreases ty, 1nat,
{
    if ty.kind == CXTypeKind::Void {
        return "*c_void".to_owned();
    } else if ty.kind == CXTypeKind::Unexposed || ty.kind == CXTypeKind::FunctionProto || ty.kind
        == CXTypeKind::FunctionNoProto {
        return conv_hidden_ptr_ty(ctx, unit, ty, cursor, wrap_recurse);
    } else if ty.kind == CXTypeKind::Typedef {
        let def_ty: &CXType = &unit.at(ty.decl).underlying_ty;
        if def_ty.kind == CXTypeKind::FunctionProto || def_ty.kind
            == CXTypeKind::FunctionNoProto {
            return conv_hidden_ptr_ty(ctx, unit, def_ty, cursor, wrap_recurse);
        }
    }
    let inner: String = conv_ty(ctx, unit, ty, cursor, wrap_recurse);
    "*".to_owned().concat(inner.as_str())
}

/// Elements side by side, as a tuple.
fn tuple_of(element: &str, size: i64) -> (r: String)
    ensures
        r@ == array_text(element@, size as int),
{
    if size == 0 {
        return "/* FIXME: zero-sized array */\n".to_owned();
    }
    if size == 1 {
        return element.to_owned();
    }
    let part: String = element.to_owned().concat(",");
    let mut rust_ty: String = "(".to_owned();
    let mut i: i64 = 1;
    assert(rust_ty@ =~= "("@ + repeated(part@, 0));
    while i < size
        invariant
            1 <= i,
            i <= size || i == 1,
            part@ == element@ + ","@,
            rust_ty@ == "("@ + repeated(part@, (i - 1) as nat),
        decreases size - i,
    {
        rust_ty.append(part.as_str());
        assert(rust_ty@ =~= "("@ + repeated(part@, i as nat));
        i += 1;
    }
    rust_ty.append(element);
    rust_ty.append(")");
    rust_ty
}

/// A type.
pub fn conv_ty(
    ctx: &mut BindCtx,
    unit: &TranslationUnit,
    ty: &CXType,
    cursor: CXCursor,
    wrap_recurse: bool,
) -> (r: String)
    requires
        unit.wf(),
        unit.holds(cursor),
        type_ok(*ty, unit.cursors@.len()),
    ensures
        (final(ctx)@, r@) == type_text(*unit, old(ctx)@, *ty, cursor, wrap_recurse),
    decreases ty, 0nat,
{
    match ty.kind {
        CXTypeKind::Bool => "bool".to_owned(),
        CXTypeKind::SChar | CXTypeKind::CharS => "c_char".to_owned(),
        CXTypeKind::UChar | CXTypeKind::CharU => "c_uchar".to_owned(),
        CXTypeKind::UShort => "c_ushort".to_owned(),
        CXTypeKind::UInt => "c_uint".to_owned(),
        CXTypeKind::ULong => "c_ulong".to_owned(),
        CXTypeKind::ULongLong => "c_ulonglong".to_owned(),
        CXTypeKind::Short => "c_short".to_owned(),
        CXTypeKind::Int => "c_int".to_owned(),
        CXTypeKind::Long => "c_long".to_owned(),
        CXTypeKind::LongLong => "c_longlong".to_owned(),
        CXTypeKind::Float => "c_float".to_owned(),
        CXTypeKind::Double => "c_double".to_owned(),
        CXTypeKind::Pointer => match &ty.pointee {
            Some(pointee) => conv_ptr_ty(ctx, unit, pointee, cursor, wrap_recurse),
            None => String::new(),
        },
        CXTypeKind::Record | CXTypeKind::Typedef | CXTypeKind::Unexposed | CXTypeKind::Enum => {
            conv_decl_ty(ctx, unit, ty.decl, wrap_recurse)
        },
        CXTypeKind::ConstantArray => match &ty.element {
            Some(element) => {
                let a_ty: String = conv_ty(ctx, unit, element, cursor, wrap_recurse);
                tuple_of(a_ty.as_str(), ty.size)
            },
            None => String::new(),
        },
        _ => "c_void /* unknown kind ".to_owned().concat(
            to_str(&ty.kind_spelling).as_str(),
        ).concat(" */"),
    }
}

} // verus!
