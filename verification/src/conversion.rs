//! What holds of the names of declarations and of the texts for types.

use crate::clang::{CXCursor, CXCursorKind, CXType, CXTypeKind, TranslationUnit};
use crate::coverage::{only_names, type_text_names};
use crate::ctx::{identifier, named, next_number, unnamed, visit_sym, CtxView};
use crate::growth::grows;
use crate::text::{decimal, repeated};
use crate::types::{decl_text, hidden_pointer_text, pointer_text, type_text};
use vstd::prelude::*;

verus! {

// ---- names ----

/// A name of the header is kept as it is, and a word that cannot be a name
/// gets one underscore in front.
pub proof fn identifiers_keep_their_names(s: CtxView, name: Seq<char>)
    ensures
        !s.keywords.contains(name) ==> identifier(s, name) == name,
        s.keywords.contains(name) ==> identifier(s, name).len() == name.len() + 1 && identifier(
            s,
            name,
        )[0] == '_' && identifier(s, name).skip(1) == name,
{
    reveal_strlit("_");
    if s.keywords.contains(name) {
        assert(identifier(s, name).skip(1) =~= name);
    }
}

/// A declaration that has a name goes by that name, and nothing changes.
pub proof fn named_declarations_go_by_their_name(unit: TranslationUnit, s: CtxView, c: CXCursor)
    requires
        s.name.contains_key(c.id),
    ensures
        named(unit, s, c).0 == s,
        named(unit, s, c).1 == s.name[c.id],
{
}

/// The name of a declaration with a spelling is what the declaration is, an
/// underscore, and the spelling; it is recorded for the cursor, and nothing
/// else changes.
pub proof fn names_tell_kind_and_spelling(unit: TranslationUnit, s: CtxView, c: CXCursor)
    requires
        !s.name.contains_key(c.id),
        unit.spelling(c).len() != 0,
    ensures
        ({
            let (t, name) = named(unit, s, c);
            &&& unit.kind(c) == CXCursorKind::StructDecl ==> name == "struct_"@ + unit.spelling(c)
            &&& unit.kind(c) == CXCursorKind::UnionDecl ==> name == "union_"@ + unit.spelling(c)
            &&& unit.kind(c) == CXCursorKind::EnumDecl ==> name == "enum_"@ + unit.spelling(c)
            &&& unit.kind(c) != CXCursorKind::StructDecl && unit.kind(c) != CXCursorKind::UnionDecl
                && unit.kind(c) != CXCursorKind::EnumDecl ==> name == "other_"@ + unit.spelling(c)
            &&& t == (CtxView { name: s.name.insert(c.id, name), ..s })
        }),
{
}

/// The name of a declaration without a spelling is what the declaration is, an
/// underscore, and `unnamed` with the next number, or with zero behind the
/// last; it is recorded for the cursor, the number is used up, and nothing else
/// changes.
pub proof fn made_up_names_are_numbered(unit: TranslationUnit, s: CtxView, c: CXCursor)
    requires
        !s.name.contains_key(c.id),
        unit.spelling(c).len() == 0,
    ensures
        ({
            let (t, name) = named(unit, s, c);
            let number: int = if s.unnamed_ty == u64::MAX {
                0
            } else {
                s.unnamed_ty + 1
            };
            let made = "unnamed"@ + decimal(number as nat);
            &&& unit.kind(c) == CXCursorKind::StructDecl ==> name == "struct_"@ + made
            &&& unit.kind(c) == CXCursorKind::UnionDecl ==> name == "union_"@ + made
            &&& unit.kind(c) == CXCursorKind::EnumDecl ==> name == "enum_"@ + made
            &&& unit.kind(c) != CXCursorKind::StructDecl && unit.kind(c) != CXCursorKind::UnionDecl
                && unit.kind(c) != CXCursorKind::EnumDecl ==> name == "other_"@ + made
            &&& t.unnamed_ty == number
            &&& t == (CtxView {
                name: s.name.insert(c.id, name),
                unnamed_ty: t.unnamed_ty,
                ..s
            })
        }),
{
}

/// Names are made up by counting: the next number is one more, the made-up
/// name ends in its numeral, and behind the last number comes zero.
pub proof fn made_up_names_count_up(n: u64)
    ensures
        n < u64::MAX ==> next_number(n) == n + 1,
        next_number(u64::MAX) == 0,
        unnamed(n).len() == 7 + decimal(n as nat).len(),
        unnamed(n).take(7) == "unnamed"@,
        unnamed(n).skip(7) == decimal(n as nat),
{
    reveal_strlit("unnamed");
    assert(unnamed(n).take(7) =~= "unnamed"@);
    assert(unnamed(n).skip(7) =~= decimal(n as nat));
}

/// To record a symbol adds that one to those that are recorded, and changes
/// nothing else.
pub proof fn one_symbol_is_recorded(s: CtxView, sym: Seq<char>, other: Seq<char>)
    ensures
        visit_sym(s, sym).visited.contains(other) == (other == sym || s.visited.contains(other)),
        visit_sym(s, sym) == (CtxView { visited: visit_sym(s, sym).visited, ..s }),
{
}

// ---- scalars ----

/// The scalar types of C have fixed names, and to convert one changes nothing.
pub proof fn scalars_have_their_names(
    unit: TranslationUnit,
    s: CtxView,
    ty: CXType,
    c: CXCursor,
    wrap: bool,
)
    ensures
        ({
            let (t, text) = type_text(unit, s, ty, c, wrap);
            let k = ty.kind;
            &&& k == CXTypeKind::Bool ==> t == s && text == "bool"@
            &&& k == CXTypeKind::SChar || k == CXTypeKind::CharS ==> t == s && text == "c_char"@
            &&& k == CXTypeKind::UChar || k == CXTypeKind::CharU ==> t == s && text == "c_uchar"@
            &&& k == CXTypeKind::Short ==> t == s && text == "c_short"@
            &&& k == CXTypeKind::UShort ==> t == s && text == "c_ushort"@
            &&& k == CXTypeKind::Int ==> t == s && text == "c_int"@
            &&& k == CXTypeKind::UInt ==> t == s && text == "c_uint"@
            &&& k == CXTypeKind::Long ==> t == s && text == "c_long"@
            &&& k == CXTypeKind::ULong ==> t == s && text == "c_ulong"@
            &&& k == CXTypeKind::LongLong ==> t == s && text == "c_longlong"@
            &&& k == CXTypeKind::ULongLong ==> t == s && text == "c_ulonglong"@
            &&& k == CXTypeKind::Float ==> t == s && text == "c_float"@
            &&& k == CXTypeKind::Double ==> t == s && text == "c_double"@
        }),
{
}

/// A type of a kind that has no counterpart is an untyped one, with a comment
/// that names the kind.
pub proof fn other_types_are_commented_on(
    unit: TranslationUnit,
    s: CtxView,
    ty: CXType,
    c: CXCursor,
    wrap: bool,
)
    requires
        ty.kind == CXTypeKind::Invalid || ty.kind == CXTypeKind::Void || ty.kind
            == CXTypeKind::FunctionProto || ty.kind == CXTypeKind::FunctionNoProto || ty.kind
            == CXTypeKind::Other,
    ensures
        type_text(unit, s, ty, c, wrap).0 == s,
        type_text(unit, s, ty, c, wrap).1 == "c_void /* unknown kind "@ + ty.kind_spelling@
            + " */"@,
{
}

// ---- declared types ----

/// A struct, union or enumeration goes by the name of its declaration, which is
/// recorded then, and by that of its recursion wrapper where one is asked for.
pub proof fn declared_types_go_by_their_declaration(
    unit: TranslationUnit,
    s: CtxView,
    ty: CXType,
    c: CXCursor,
    wrap: bool,
)
    requires
        ty.kind == CXTypeKind::Record || ty.kind == CXTypeKind::Enum || ty.kind
            == CXTypeKind::Typedef || ty.kind == CXTypeKind::Unexposed,
        unit.kind(ty.decl) == CXCursorKind::StructDecl || unit.kind(ty.decl)
            == CXCursorKind::UnionDecl || unit.kind(ty.decl) == CXCursorKind::EnumDecl,
    ensures
        ({
            let (t, text) = type_text(unit, s, ty, c, wrap);
            &&& t.name.contains_key(ty.decl.id)
            &&& named(unit, s, ty.decl) == (t, t.name[ty.decl.id])
            &&& !wrap ==> text == t.name[ty.decl.id]
            &&& wrap ==> text == "enum_recurse_"@ + t.name[ty.decl.id]
        }),
{
}

/// A type that a typedef declares goes by the name of the typedef, whether a
/// recursion wrapper is asked for or not.
pub proof fn typedef_types_go_by_the_typedef(
    unit: TranslationUnit,
    s: CtxView,
    ty: CXType,
    c: CXCursor,
    wrap: bool,
)
    requires
        ty.kind == CXTypeKind::Record || ty.kind == CXTypeKind::Enum || ty.kind
            == CXTypeKind::Typedef || ty.kind == CXTypeKind::Unexposed,
        unit.kind(ty.decl) == CXCursorKind::TypedefDecl,
    ensures
        ({
            let (t, text) = type_text(unit, s, ty, c, wrap);
            let name = unit.spelling(ty.decl);
            &&& t == s
            &&& !s.keywords.contains(name) ==> text == name
            &&& s.keywords.contains(name) ==> text == "_"@ + name
        }),
{
}

/// A type that anything else declares is an untyped one, with a comment that
/// names its declaration.
pub proof fn other_declarations_are_commented_on(
    unit: TranslationUnit,
    s: CtxView,
    ty: CXType,
    c: CXCursor,
    wrap: bool,
)
    requires
        ty.kind == CXTypeKind::Record || ty.kind == CXTypeKind::Enum || ty.kind
            == CXTypeKind::Typedef || ty.kind == CXTypeKind::Unexposed,
        unit.kind(ty.decl) != CXCursorKind::StructDecl,
        unit.kind(ty.decl) != CXCursorKind::UnionDecl,
        unit.kind(ty.decl) != CXCursorKind::EnumDecl,
        unit.kind(ty.decl) != CXCursorKind::TypedefDecl,
    ensures
        ({
            let (t, text) = type_text(unit, s, ty, c, wrap);
            &&& t == s
            &&& text == "c_void /* unknown "@ + unit.info(ty.decl).kind_spelling@ + " "@
                + unit.spelling(ty.decl) + " */"@
        }),
{
}

/// The type that a cursor declares is converted like a type with that
/// declaration.
pub proof fn declarations_are_converted_like_their_types(
    unit: TranslationUnit,
    s: CtxView,
    ty: CXType,
    c: CXCursor,
    wrap: bool,
)
    requires
        ty.kind == CXTypeKind::Record || ty.kind == CXTypeKind::Enum || ty.kind
            == CXTypeKind::Typedef || ty.kind == CXTypeKind::Unexposed,
    ensures
        decl_text(unit, s, ty.decl, wrap) == type_text(unit, s, ty, c, wrap),
{
}

// ---- pointers ----

/// Every pointer comes out as one.
pub proof fn pointers_begin_with_a_star(
    unit: TranslationUnit,
    s: CtxView,
    ty: CXType,
    c: CXCursor,
    wrap: bool,
)
    requires
        ty.kind == CXTypeKind::Pointer,
        ty.pointee is Some,
    ensures
        type_text(unit, s, ty, c, wrap).1.len() > 0,
        type_text(unit, s, ty, c, wrap).1[0] == '*',
{
    reveal_with_fuel(type_text, 2);
    reveal_with_fuel(pointer_text, 2);
    reveal_strlit("*");
    reveal_strlit("*c_void");
    reveal_strlit("*u8");
    reveal_strlit("*c_void /* unknown ");
}

/// A pointer to a type is a star in front of that type, apart from what may be
/// a function.
pub proof fn pointers_are_stars_in_front(
    unit: TranslationUnit,
    s: CtxView,
    ty: CXType,
    to: CXType,
    c: CXCursor,
    wrap: bool,
)
    requires
        ty.kind == CXTypeKind::Pointer,
        ty.pointee is Some,
        *ty.pointee->0 == to,
        to.kind != CXTypeKind::Void,
        to.kind != CXTypeKind::Unexposed,
        to.kind != CXTypeKind::FunctionProto,
        to.kind != CXTypeKind::FunctionNoProto,
        to.kind == CXTypeKind::Typedef ==> unit.info(to.decl).underlying_ty.kind
            != CXTypeKind::FunctionProto && unit.info(to.decl).underlying_ty.kind
            != CXTypeKind::FunctionNoProto,
    ensures
        type_text(unit, s, ty, c, wrap).0 == type_text(unit, s, to, c, wrap).0,
        type_text(unit, s, ty, c, wrap).1 == "*"@ + type_text(unit, s, to, c, wrap).1,
{
    reveal_with_fuel(type_text, 2);
    reveal_with_fuel(pointer_text, 2);
}

/// A pointer to nothing known is an untyped one, and a pointer to a function is
/// a plain address, also where the function type hides behind an unexposed one.
pub proof fn pointers_to_functions_are_addresses(
    unit: TranslationUnit,
    s: CtxView,
    ty: CXType,
    to: CXType,
    c: CXCursor,
    wrap: bool,
)
    requires
        ty.kind == CXTypeKind::Pointer,
        ty.pointee is Some,
        *ty.pointee->0 == to,
    ensures
        ({
            let (t, text) = type_text(unit, s, ty, c, wrap);
            let hides = to.kind == CXTypeKind::Unexposed || to.kind == CXTypeKind::FunctionProto
                || to.kind == CXTypeKind::FunctionNoProto;
            let has_result = to.result is Some && to.result->0.kind != CXTypeKind::Invalid;
            &&& to.kind == CXTypeKind::Void ==> t == s && text == "*c_void"@
            &&& hides && has_result ==> t == s && text == "*u8"@
            &&& hides && !has_result && unit.kind(to.decl) == CXCursorKind::NoDeclFound ==> t == s
                && text == "*c_void /* unknown "@ + to.kind_spelling@ + " referenced by "@
                + unit.info(c).kind_spelling@ + " "@ + unit.spelling(c) + " */"@
        }),
{
    reveal_with_fuel(type_text, 2);
    reveal_with_fuel(pointer_text, 2);
}

/// A pointer to an unexposed type that is no function is a star in front of
/// what a type with that declaration comes out as.
pub proof fn pointers_see_through_unexposed_types(
    unit: TranslationUnit,
    s: CtxView,
    ty: CXType,
    to: CXType,
    declared: CXType,
    c: CXCursor,
    wrap: bool,
)
    requires
        ty.kind == CXTypeKind::Pointer,
        ty.pointee is Some,
        *ty.pointee->0 == to,
        to.kind == CXTypeKind::Unexposed || to.kind == CXTypeKind::FunctionProto || to.kind
            == CXTypeKind::FunctionNoProto,
        to.result is Some ==> to.result->0.kind == CXTypeKind::Invalid,
        unit.kind(to.decl) != CXCursorKind::NoDeclFound,
        declared.kind == CXTypeKind::Record,
        declared.decl == to.decl,
    ensures
        type_text(unit, s, ty, c, wrap).0 == type_text(unit, s, declared, c, wrap).0,
        type_text(unit, s, ty, c, wrap).1 == "*"@ + type_text(unit, s, declared, c, wrap).1,
{
    reveal_with_fuel(type_text, 2);
    reveal_with_fuel(pointer_text, 2);
}

/// A pointer to a typedef of a function type is the pointer to that function
/// type.
pub proof fn pointers_see_through_typedefs_of_functions(
    unit: TranslationUnit,
    s: CtxView,
    ty: CXType,
    direct: CXType,
    c: CXCursor,
    wrap: bool,
)
    requires
        ty.kind == CXTypeKind::Pointer,
        ty.pointee is Some,
        ty.pointee->0.kind == CXTypeKind::Typedef,
        direct.kind == CXTypeKind::Pointer,
        direct.pointee is Some,
        *direct.pointee->0 == unit.info(ty.pointee->0.decl).underlying_ty,
        direct.pointee->0.kind == CXTypeKind::FunctionProto || direct.pointee->0.kind
            == CXTypeKind::FunctionNoProto,
    ensures
        type_text(unit, s, ty, c, wrap) == type_text(unit, s, direct, c, wrap),
{
    reveal_with_fuel(type_text, 2);
    reveal_with_fuel(pointer_text, 2);
}

/// What a pointer to a type is converted to is what a pointer type with that
/// pointee is converted to.
pub proof fn pointers_are_converted_by_their_pointee(
    unit: TranslationUnit,
    s: CtxView,
    ty: CXType,
    to: CXType,
    c: CXCursor,
    wrap: bool,
)
    requires
        ty.kind == CXTypeKind::Pointer,
        ty.pointee is Some,
        *ty.pointee->0 == to,
    ensures
        pointer_text(unit, s, to, c, wrap) == type_text(unit, s, ty, c, wrap),
{
}

// ---- arrays ----

/// The `k`-th of the texts of one width that stand in brackets with a
/// character between neighbours.
pub open spec fn component(text: Seq<char>, width: nat, k: int) -> Seq<char> {
    text.subrange(1 + k * (width + 1), 1 + k * (width + 1) + width)
}

/// The character behind the `k`-th of those texts.
pub open spec fn behind_component(text: Seq<char>, width: nat, k: int) -> char {
    text[1 + k * (width + 1) + width]
}

proof fn repeated_length(part: Seq<char>, n: nat)
    ensures
        repeated(part, n).len() == n * part.len(),
    decreases n,
{
    if n == 0 {
        assert(n * part.len() == 0) by (nonlinear_arith)
            requires
                n == 0,
        ;
    } else {
        repeated_length(part, (n - 1) as nat);
        assert((n - 1) * part.len() + part.len() == n * part.len()) by (nonlinear_arith);
    }
}

proof fn repeated_parts(part: Seq<char>, n: nat, k: int, i: int)
    requires
        0 <= k < n,
        0 <= i < part.len(),
    ensures
        0 <= k * part.len() + i < repeated(part, n).len(),
        repeated(part, n)[k * part.len() + i] == part[i],
    decreases n,
{
    repeated_length(part, n);
    repeated_length(part, (n - 1) as nat);
    let w = part.len();
    assert(0 <= k * w) by (nonlinear_arith)
        requires
            0 <= k,
    ;
    assert(k * w + w <= n * w) by (nonlinear_arith)
        requires
            k + 1 <= n,
    ;
    if k < n - 1 {
        repeated_parts(part, (n - 1) as nat, k, i);
    } else {
        assert(k * w == (n - 1) * w);
    }
}

/// An array is the tuple of its elements: in brackets stand exactly as many
/// copies of the element's text as the array is long, with single commas
/// between neighbours.
#[verifier::rlimit(60)]
pub proof fn arrays_list_their_elements(
    unit: TranslationUnit,
    s: CtxView,
    ty: CXType,
    element: CXType,
    c: CXCursor,
    wrap: bool,
)
    requires
        ty.kind == CXTypeKind::ConstantArray,
        ty.element is Some,
        *ty.element->0 == element,
        ty.size >= 2,
    ensures
        ({
            let (t, text) = type_text(unit, s, ty, c, wrap);
            let e = type_text(unit, s, element, c, wrap).1;
            &&& t == type_text(unit, s, element, c, wrap).0
            &&& text.len() == ty.size * (e.len() + 1) + 1
            &&& text[0] == '('
            &&& text.last() == ')'
            &&& forall|k: int| 0 <= k < ty.size ==> #[trigger] component(text, e.len(), k) == e
            &&& forall|k: int|
                0 <= k < ty.size - 1 ==> #[trigger] behind_component(text, e.len(), k) == ','
        }),
{
    reveal_strlit("(");
    reveal_strlit(",");
    reveal_strlit(")");
    let text = type_text(unit, s, ty, c, wrap).1;
    let e = type_text(unit, s, element, c, wrap).1;
    let n = ty.size as int;
    let part = e + ","@;
    let w = part.len();
    let front = repeated(part, (n - 1) as nat);
    assert(text == "("@ + front + e + ")"@);
    repeated_length(part, (n - 1) as nat);
    assert((n - 1) * w + w == n * w) by (nonlinear_arith);
    assert forall|k: int| 0 <= k < n implies #[trigger] component(text, e.len(), k) == e by {
        assert(0 <= k * w) by (nonlinear_arith)
            requires
                0 <= k,
        ;
        assert(k * w + w <= n * w) by (nonlinear_arith)
            requires
                k + 1 <= n,
        ;
        assert forall|i: int| 0 <= i < e.len() implies text[1 + k * w + i] == e[i] by {
            if k < n - 1 {
                repeated_parts(part, (n - 1) as nat, k, i);
                assert(part[i] == e[i]);
                assert(text[1 + k * w + i] == front[k * w + i]);
            } else {
                assert(k * w == (n - 1) * w);
            }
        }
        assert(component(text, e.len(), k) =~= e);
    }
    assert forall|k: int| 0 <= k < n - 1 implies #[trigger] behind_component(text, e.len(), k)
        == ',' by {
        repeated_parts(part, (n - 1) as nat, k, e.len() as int);
        assert(part[e.len() as int] == ',');
    }
}

/// An array of one element is that element, one of none is a comment, and one
/// of unknown length is its element in brackets.
pub proof fn short_arrays_are_no_tuples(
    unit: TranslationUnit,
    s: CtxView,
    ty: CXType,
    element: CXType,
    c: CXCursor,
    wrap: bool,
)
    requires
        ty.kind == CXTypeKind::ConstantArray,
        ty.element is Some,
        *ty.element->0 == element,
    ensures
        ({
            let (t, text) = type_text(unit, s, ty, c, wrap);
            let (u, e) = type_text(unit, s, element, c, wrap);
            &&& t == u
            &&& ty.size == 1 ==> text == e
            &&& ty.size == 0 ==> text == "/* FIXME: zero-sized array */\n"@
            &&& ty.size < 0 ==> text == "("@ + e + ")"@
        }),
{
    let e = type_text(unit, s, element, c, wrap).1;
    reveal_with_fuel(repeated, 1);
    assert("("@ + repeated(e + ","@, 0) + e + ")"@ =~= "("@ + e + ")"@);
}

// ---- in the course of a run ----

proof fn decl_text_again(unit: TranslationUnit, s: CtxView, c: CXCursor, wrap: bool, t: CtxView)
    requires
        grows(decl_text(unit, s, c, wrap).0, t),
    ensures
        decl_text(unit, t, c, wrap) == (t, decl_text(unit, s, c, wrap).1),
{
    let s1 = named(unit, s, c).0;
    assert(s1.name.contains_key(c.id));
    if unit.kind(c) == CXCursorKind::StructDecl || unit.kind(c) == CXCursorKind::UnionDecl
        || unit.kind(c) == CXCursorKind::EnumDecl {
        assert(t.name.contains_key(c.id) && t.name[c.id] == s1.name[c.id]);
    }
}

proof fn pointer_text_again(
    unit: TranslationUnit,
    s: CtxView,
    ty: CXType,
    c: CXCursor,
    wrap: bool,
    t: CtxView,
)
    requires
        grows(pointer_text(unit, s, ty, c, wrap).0, t),
    ensures
        pointer_text(unit, t, ty, c, wrap) == (t, pointer_text(unit, s, ty, c, wrap).1),
    decreases ty, 1nat,
{
    let behind = unit.info(ty.decl).underlying_ty;
    let hides = ty.kind == CXTypeKind::Unexposed || ty.kind == CXTypeKind::FunctionProto || ty.kind
        == CXTypeKind::FunctionNoProto;
    if ty.kind == CXTypeKind::Void {
    } else if hides {
        if pointer_text(unit, s, ty, c, wrap) == hidden_pointer_text(unit, s, ty, c, wrap)
            && grows(decl_text(unit, s, ty.decl, wrap).0, t) {
            decl_text_again(unit, s, ty.decl, wrap, t);
        }
    } else if ty.kind == CXTypeKind::Typedef && (behind.kind == CXTypeKind::FunctionProto
        || behind.kind == CXTypeKind::FunctionNoProto) {
        if grows(decl_text(unit, s, behind.decl, wrap).0, t) {
            decl_text_again(unit, s, behind.decl, wrap, t);
        }
    } else {
        types_are_converted_alike(unit, s, ty, c, wrap, t);
    }
}

/// A type is converted alike throughout a run: later on it has the same text,
/// and to convert it again changes nothing.
pub proof fn types_are_converted_alike(
    unit: TranslationUnit,
    s: CtxView,
    ty: CXType,
    c: CXCursor,
    wrap: bool,
    t: CtxView,
)
    requires
        grows(type_text(unit, s, ty, c, wrap).0, t),
    ensures
        type_text(unit, t, ty, c, wrap) == (t, type_text(unit, s, ty, c, wrap).1),
    decreases ty, 0nat,
{
    match ty.kind {
        CXTypeKind::Pointer => {
            if let Some(to) = ty.pointee {
                pointer_text_again(unit, s, *to, c, wrap, t);
            }
        },
        CXTypeKind::Record
        | CXTypeKind::Typedef
        | CXTypeKind::Unexposed
        | CXTypeKind::Enum => {
            decl_text_again(unit, s, ty.decl, wrap, t);
        },
        CXTypeKind::ConstantArray => {
            if let Some(element) = ty.element {
                types_are_converted_alike(unit, s, *element, c, wrap, t);
            }
        },
        _ => {},
    }
}

// ---- the names that types bring along ----

/// Whether two states know the same names.
pub open spec fn same_names(s: CtxView, t: CtxView) -> bool {
    s.name == t.name && s.unnamed_ty == t.unnamed_ty
}

/// The state after some types were converted one after the other, each for a
/// cursor.
pub open spec fn converted(
    unit: TranslationUnit,
    s: CtxView,
    types: Seq<(CXType, CXCursor)>,
    wrap: bool,
) -> CtxView {
    types.fold_left(
        s,
        |m: CtxView, x: (CXType, CXCursor)| type_text(unit, m, x.0, x.1, wrap).0,
    )
}

proof fn pointer_text_by_names(
    unit: TranslationUnit,
    s: CtxView,
    t: CtxView,
    ty: CXType,
    c: CXCursor,
    wrap: bool,
)
    requires
        same_names(s, t),
        s.keywords == t.keywords,
    ensures
        pointer_text(unit, s, ty, c, wrap).1 == pointer_text(unit, t, ty, c, wrap).1,
        same_names(
            pointer_text(unit, s, ty, c, wrap).0,
            pointer_text(unit, t, ty, c, wrap).0,
        ),
    decreases ty, 1nat,
{
    types_go_by_the_names(unit, s, t, ty, c, wrap);
}

/// How a type is converted depends on the names that are known and on the words
/// that cannot be names, and on nothing else of a state.
pub proof fn types_go_by_the_names(
    unit: TranslationUnit,
    s: CtxView,
    t: CtxView,
    ty: CXType,
    c: CXCursor,
    wrap: bool,
)
    requires
        same_names(s, t),
        s.keywords == t.keywords,
    ensures
        type_text(unit, s, ty, c, wrap).1 == type_text(unit, t, ty, c, wrap).1,
        same_names(type_text(unit, s, ty, c, wrap).0, type_text(unit, t, ty, c, wrap).0),
    decreases ty, 0nat,
{
    if let Some(to) = ty.pointee {
        pointer_text_by_names(unit, s, t, *to, c, wrap);
    }
    if let Some(element) = ty.element {
        types_go_by_the_names(unit, s, t, *element, c, wrap);
    }
}

/// To convert one more type.
pub proof fn one_more_is_converted(
    unit: TranslationUnit,
    s: CtxView,
    types: Seq<(CXType, CXCursor)>,
    ty: CXType,
    c: CXCursor,
    wrap: bool,
)
    ensures
        converted(unit, s, types.push((ty, c)), wrap) == type_text(
            unit,
            converted(unit, s, types, wrap),
            ty,
            c,
            wrap,
        ).0,
        converted(unit, s, seq![], wrap) == s,
{
    reveal(Seq::fold_left);
    assert(types.push((ty, c)).drop_last() =~= types);
}

/// How types are converted one after the other depends on the names that are
/// known and on the words that cannot be names.
pub proof fn converted_by_names(
    unit: TranslationUnit,
    s: CtxView,
    t: CtxView,
    types: Seq<(CXType, CXCursor)>,
    wrap: bool,
)
    requires
        same_names(s, t),
        s.keywords == t.keywords,
    ensures
        same_names(converted(unit, s, types, wrap), converted(unit, t, types, wrap)),
    decreases types.len(),
{
    reveal(Seq::fold_left);
    if types.len() != 0 {
        let front = types.drop_last();
        let (ty, c) = types.last();
        converted_by_names(unit, s, t, front, wrap);
        converting_changes_names_only(unit, s, front, wrap);
        converting_changes_names_only(unit, t, front, wrap);
        types_go_by_the_names(
            unit,
            converted(unit, s, front, wrap),
            converted(unit, t, front, wrap),
            ty,
            c,
            wrap,
        );
    }
}

/// To convert types changes the names only.
pub proof fn converting_changes_names_only(
    unit: TranslationUnit,
    s: CtxView,
    types: Seq<(CXType, CXCursor)>,
    wrap: bool,
)
    ensures
        only_names(s, converted(unit, s, types, wrap)),
    decreases types.len(),
{
    reveal(Seq::fold_left);
    if types.len() != 0 {
        let (ty, c) = types.last();
        converting_changes_names_only(unit, s, types.drop_last(), wrap);
        type_text_names(unit, converted(unit, s, types.drop_last(), wrap), ty, c, wrap);
    }
}

} // verus!
