//! What a call of each operation gives back.

use crate::args::{
    no_settings, operand_missing, output_files, parse_args, print_usage, scan_all,
    scan_fails_on_failure, OPTIONS, OpenFailure, ParsedArgs, ScanEnd,
};
use crate::bindings::{has_error, is_error, write_bindings, Severity};
use crate::clang::{
    cursor_ok, type_ok, CXChildVisitResult, CXCursor, CXCursorKind, CXLinkageKind, CXType,
    CXTypeKind, CursorInfo, TranslationUnit,
};
use crate::conversion::{
    arrays_list_their_elements, behind_component, component, identifiers_keep_their_names,
    made_up_names_are_numbered, names_tell_kind_and_spelling, pointers_are_stars_in_front,
    pointers_begin_with_a_star, pointers_to_functions_are_addresses, scalars_have_their_names,
    short_arrays_are_no_tuples,
};
use crate::ctx::{
    decl_name, file_matches, match_pattern, rust_id, sym_visited, unnamed_name, BindCtx, CtxView,
};
use crate::decls::{def_enum, def_recurse_enum, def_struct, def_union, opaque_decl, visit_enum};
use crate::growth::table_held;
use crate::laws::{errors_and_worse_count, files_match_by_their_name};
use crate::order::{all_unnamed_written, all_visited, route, runs_follow_the_header, waiting};
use crate::shapes::{
    aliased, constant_line, enum_shape, enumerations_list_their_constants, escaped, function_shape,
    functions_are_declared_in_full, names_anonymous, only_if, opaque_declarations_are_untyped,
    opaque_shape, struct_shape, structs_list_their_fields, taken_names_are_left_alone,
    taken_typedefs_are_left_alone, typedefs_are_other_names, unions_are_untyped, wrapper_shape,
    wrappers_hold_their_type,
};
use crate::text::{
    contains, decimal, int_str, numerals_read_back, occurrences_are_infixes, read_number, same_text,
    signed_numerals_read_back, uint_str, views,
};
use crate::types::{conv_ty, type_text};
use crate::visit::{visit_func_top, visit_ty_top, visited, Pass};
use vstd::prelude::*;

verus! {

// ---- text ----

/// A number that is written reads back as that number, in digits alone and
/// without a zero too many.
pub proof fn numbers_are_written_in_decimal(n: u64, r: String)
    requires
        call_ensures(uint_str, (n,), r),
    ensures
        read_number(r@) == n,
        r@.len() > 0,
        forall|i: int| 0 <= i < r@.len() ==> '0' <= #[trigger] r@[i] <= '9',
        r@[0] == '0' ==> r@.len() == 1,
{
    numerals_read_back(n as nat);
}

/// A signed number that is written reads back as that number, with a minus sign
/// in front of its digits where it is negative.
pub proof fn signed_numbers_are_written_in_decimal(n: i64, r: String)
    requires
        call_ensures(int_str, (n,), r),
    ensures
        n < 0 ==> r@[0] == '-' && read_number(r@.skip(1)) == -n && r@.len() > 1,
        n >= 0 ==> read_number(r@) == n && r@.len() > 0,
        forall|i: int| (n < 0 ==> 0 < i) && 0 <= i < r@.len() ==> '0' <= #[trigger] r@[i] <= '9',
{
    signed_numerals_read_back(n as int);
    if n < 0 {
        let digits = decimal((-n) as nat);
        numerals_read_back((-n) as nat);
        assert(r@.len() == digits.len() + 1);
        assert forall|i: int| 0 < i < r@.len() implies '0' <= #[trigger] r@[i] <= '9' by {
            assert(r@.skip(1)[i - 1] == r@[i]);
            assert(digits[i - 1] == r@[i]);
        }
    } else {
        numerals_read_back(n as nat);
    }
}

/// A search finds a text if and only if it stands somewhere in the other, and a
/// comparison if and only if the two are the same.
pub proof fn searches_find_what_is_there(a: &str, b: &str, found: bool, same: bool)
    requires
        call_ensures(contains, (a, b), found),
        call_ensures(same_text, (a, b), same),
    ensures
        found <==> exists|x: Seq<char>, y: Seq<char>| a@ == #[trigger] (x + b@ + y),
        same <==> a@ == b@,
{
    occurrences_are_infixes(a@, b@);
}

// ---- names ----

/// A name is kept, and a word that cannot be one gets an underscore in front.
pub proof fn calls_of_rust_id(ctx: &BindCtx, name: &str, r: String)
    requires
        call_ensures(rust_id, (ctx, name), r),
    ensures
        !ctx@.keywords.contains(name@) ==> r@ == name@,
        ctx@.keywords.contains(name@) ==> r@[0] == '_' && r@.skip(1) == name@ && r@.len()
            == name@.len() + 1,
{
    identifiers_keep_their_names(ctx@, name@);
}

/// A symbol is recorded, and the answer tells whether it was before; nothing
/// else changes.
pub proof fn calls_of_sym_visited(ctx: &mut BindCtx, sym: &str, r: bool, other: Seq<char>)
    requires
        call_ensures(sym_visited, (ctx, sym), r),
    ensures
        r == old(ctx)@.visited.contains(sym@),
        final(ctx)@.visited.contains(other) == (other == sym@ || old(ctx)@.visited.contains(other)),
        final(ctx)@ == (CtxView { visited: final(ctx)@.visited, ..old(ctx)@ }),
{
}

/// A made-up name is `unnamed` with a number that is one more than the last.
pub proof fn calls_of_unnamed_name(ctx: &mut BindCtx, r: String)
    requires
        call_ensures(unnamed_name, (ctx,), r),
        old(ctx)@.unnamed_ty < u64::MAX,
    ensures
        r@ == "unnamed"@ + decimal((old(ctx)@.unnamed_ty + 1) as nat),
        final(ctx)@.unnamed_ty == old(ctx)@.unnamed_ty + 1,
        final(ctx)@ == (CtxView { unnamed_ty: final(ctx)@.unnamed_ty, ..old(ctx)@ }),
{
}

/// The name of a struct, union or enumeration tells which it is and its
/// spelling, a name that was given before is given again, and the name is
/// recorded.
pub proof fn calls_of_decl_name(
    ctx: &mut BindCtx,
    unit: &TranslationUnit,
    c: CXCursor,
    r: String,
)
    requires
        call_ensures(decl_name, (ctx, unit, c), r),
    ensures
        final(ctx)@.name == old(ctx)@.name.insert(c.id, r@),
        old(ctx)@.name.contains_key(c.id) ==> r@ == old(ctx)@.name[c.id] && final(ctx)@
            == old(ctx)@,
        !old(ctx)@.name.contains_key(c.id) && unit.spelling(c).len() != 0 ==> {
            &&& unit.kind(c) == CXCursorKind::StructDecl ==> r@ == "struct_"@ + unit.spelling(c)
            &&& unit.kind(c) == CXCursorKind::UnionDecl ==> r@ == "union_"@ + unit.spelling(c)
            &&& unit.kind(c) == CXCursorKind::EnumDecl ==> r@ == "enum_"@ + unit.spelling(c)
            &&& final(ctx)@.unnamed_ty == old(ctx)@.unnamed_ty
        },
        !old(ctx)@.name.contains_key(c.id) && unit.spelling(c).len() == 0 && old(ctx)@.unnamed_ty
            < u64::MAX ==> {
            let made = "unnamed"@ + decimal((old(ctx)@.unnamed_ty + 1) as nat);
            &&& unit.kind(c) == CXCursorKind::StructDecl ==> r@ == "struct_"@ + made
            &&& unit.kind(c) == CXCursorKind::UnionDecl ==> r@ == "union_"@ + made
            &&& unit.kind(c) == CXCursorKind::EnumDecl ==> r@ == "enum_"@ + made
            &&& final(ctx)@.unnamed_ty == old(ctx)@.unnamed_ty + 1
        },
        final(ctx)@ == (CtxView {
            name: final(ctx)@.name,
            unnamed_ty: final(ctx)@.unnamed_ty,
            ..old(ctx)@
        }),
{
    let s = old(ctx)@;
    if s.name.contains_key(c.id) {
        assert(s.name.insert(c.id, r@) =~= s.name);
    } else if unit.spelling(c).len() != 0 {
        names_tell_kind_and_spelling(*unit, s, c);
    } else {
        made_up_names_are_numbered(*unit, s, c);
    }
}

/// A cursor matches if it stands in a file, and there are no patterns or one of
/// them stands somewhere in the name of the file.
pub proof fn calls_of_match_pattern(
    ctx: &BindCtx,
    unit: &TranslationUnit,
    c: CXCursor,
    r: bool,
)
    requires
        call_ensures(match_pattern, (ctx, unit, c), r),
    ensures
        unit.info(c).file is None ==> !r,
        unit.info(c).file is Some && ctx@.patterns.len() == 0 ==> r,
        unit.info(c).file is Some && ctx@.patterns.len() != 0 ==> (r <==> exists|
            i: int,
            a: Seq<char>,
            b: Seq<char>,
        |
            0 <= i < ctx@.patterns.len() && unit.info(c).file->0@ == #[trigger] (a
                + ctx@.patterns[i] + b)),
{
    files_match_by_their_name(*unit, ctx@.patterns, c);
}

// ---- types ----

/// A scalar type of C comes out under its name, and nothing changes.
pub proof fn calls_of_conv_ty_on_scalars(
    ctx: &mut BindCtx,
    unit: &TranslationUnit,
    ty: &CXType,
    c: CXCursor,
    wrap: bool,
    r: String,
)
    requires
        call_ensures(conv_ty, (ctx, unit, ty, c, wrap), r),
    ensures
        ty.kind == CXTypeKind::Bool ==> r@ == "bool"@,
        ty.kind == CXTypeKind::SChar || ty.kind == CXTypeKind::CharS ==> r@ == "c_char"@,
        ty.kind == CXTypeKind::UChar || ty.kind == CXTypeKind::CharU ==> r@ == "c_uchar"@,
        ty.kind == CXTypeKind::Short ==> r@ == "c_short"@,
        ty.kind == CXTypeKind::UShort ==> r@ == "c_ushort"@,
        ty.kind == CXTypeKind::Int ==> r@ == "c_int"@,
        ty.kind == CXTypeKind::UInt ==> r@ == "c_uint"@,
        ty.kind == CXTypeKind::Long ==> r@ == "c_long"@,
        ty.kind == CXTypeKind::ULong ==> r@ == "c_ulong"@,
        ty.kind == CXTypeKind::LongLong ==> r@ == "c_longlong"@,
        ty.kind == CXTypeKind::ULongLong ==> r@ == "c_ulonglong"@,
        ty.kind == CXTypeKind::Float ==> r@ == "c_float"@,
        ty.kind == CXTypeKind::Double ==> r@ == "c_double"@,
{
    scalars_have_their_names(*unit, old(ctx)@, *ty, c, wrap);
}

/// The tuple for an array holds what a call for its element gives, once for
/// each element, with single commas between neighbours.
pub proof fn calls_of_conv_ty_on_arrays(
    ctx: &mut BindCtx,
    unit: &TranslationUnit,
    ty: &CXType,
    c: CXCursor,
    wrap: bool,
    r: String,
    ctx2: &mut BindCtx,
    element: &CXType,
    e: String,
)
    requires
        ty.kind == CXTypeKind::ConstantArray,
        ty.element is Some,
        *ty.element->0 == *element,
        old(ctx2)@ == old(ctx)@,
        call_ensures(conv_ty, (ctx, unit, ty, c, wrap), r),
        call_ensures(conv_ty, (ctx2, unit, element, c, wrap), e),
    ensures
        final(ctx)@ == final(ctx2)@,
        ty.size == 1 ==> r@ == e@,
        ty.size == 0 ==> r@ == "/* FIXME: zero-sized array */\n"@,
        ty.size < 0 ==> r@ == "("@ + e@ + ")"@,
        ty.size >= 2 ==> {
            &&& r@.len() == ty.size * (e@.len() + 1) + 1
            &&& r@[0] == '('
            &&& r@.last() == ')'
            &&& forall|k: int| 0 <= k < ty.size ==> #[trigger] component(r@, e@.len(), k) == e@
            &&& forall|k: int|
                0 <= k < ty.size - 1 ==> #[trigger] behind_component(r@, e@.len(), k) == ','
        },
{
    short_arrays_are_no_tuples(*unit, old(ctx)@, *ty, *element, c, wrap);
    if ty.size >= 2 {
        arrays_list_their_elements(*unit, old(ctx)@, *ty, *element, c, wrap);
    }
}

/// A pointer comes out as a star in front of what a call for the type that it
/// points to gives, apart from what may be a function, and always as a pointer.
pub proof fn calls_of_conv_ty_on_pointers(
    ctx: &mut BindCtx,
    unit: &TranslationUnit,
    ty: &CXType,
    c: CXCursor,
    wrap: bool,
    r: String,
    ctx2: &mut BindCtx,
    to: &CXType,
    p: String,
)
    requires
        ty.kind == CXTypeKind::Pointer,
        ty.pointee is Some,
        *ty.pointee->0 == *to,
        old(ctx2)@ == old(ctx)@,
        call_ensures(conv_ty, (ctx, unit, ty, c, wrap), r),
        call_ensures(conv_ty, (ctx2, unit, to, c, wrap), p),
    ensures
        r@.len() > 0,
        r@[0] == '*',
        to.kind == CXTypeKind::Void ==> r@ == "*c_void"@,
        to.kind != CXTypeKind::Void && to.kind != CXTypeKind::Unexposed && to.kind
            != CXTypeKind::FunctionProto && to.kind != CXTypeKind::FunctionNoProto && to.kind
            != CXTypeKind::Typedef ==> r@ == "*"@ + p@ && final(ctx)@ == final(ctx2)@,
{
    pointers_begin_with_a_star(*unit, old(ctx)@, *ty, c, wrap);
    pointers_to_functions_are_addresses(*unit, old(ctx)@, *ty, *to, c, wrap);
    if to.kind != CXTypeKind::Void && to.kind != CXTypeKind::Unexposed && to.kind
        != CXTypeKind::FunctionProto && to.kind != CXTypeKind::FunctionNoProto && to.kind
        != CXTypeKind::Typedef {
        pointers_are_stars_in_front(*unit, old(ctx)@, *ty, *to, c, wrap);
    }
}

// ---- definitions ----

/// A struct under a new name is written with a line for each of its fields, in
/// their order, and nothing else; one under a taken name is not written.
pub proof fn calls_of_def_struct(
    ctx: &mut BindCtx,
    unit: &TranslationUnit,
    c: CXCursor,
    name: &str,
)
    requires
        unit.wf(),
        unit.holds(c),
        call_ensures(def_struct, (ctx, unit, c, name), ()),
    ensures
        old(ctx)@.visited.contains(name@) ==> final(ctx)@ == old(ctx)@,
        !old(ctx)@.visited.contains(name@) ==> {
            &&& final(ctx)@.out == old(ctx)@.out + struct_shape(*unit, final(ctx)@, c, name@)
            &&& final(ctx)@.visited == old(ctx)@.visited.insert(name@)
        },
{
    if old(ctx)@.visited.contains(name@) {
        taken_names_are_left_alone(*unit, old(ctx)@, c, name@);
    } else {
        structs_list_their_fields(*unit, old(ctx)@, c, name@);
    }
}

/// An enumeration under a new name is written with its integer type and a line
/// for each of its constants, in their order, and nothing else; one under a
/// taken name is not written.
pub proof fn calls_of_def_enum(
    ctx: &mut BindCtx,
    unit: &TranslationUnit,
    c: CXCursor,
    name: &str,
)
    requires
        unit.wf(),
        unit.holds(c),
        call_ensures(def_enum, (ctx, unit, c, name), ()),
    ensures
        old(ctx)@.visited.contains(name@) ==> final(ctx)@ == old(ctx)@,
        !old(ctx)@.visited.contains(name@) ==> {
            &&& final(ctx)@.out == old(ctx)@.out + enum_shape(*unit, final(ctx)@, c, name@)
            &&& final(ctx)@.visited == old(ctx)@.visited.insert(name@)
        },
{
    if old(ctx)@.visited.contains(name@) {
        taken_names_are_left_alone(*unit, old(ctx)@, c, name@);
    } else {
        enumerations_list_their_constants(*unit, old(ctx)@, c, name@);
    }
}

/// A union under a new name is written as an untyped one with a comment; one
/// under a taken name is not written.
pub proof fn calls_of_def_union(
    ctx: &mut BindCtx,
    unit: &TranslationUnit,
    c: CXCursor,
    name: &str,
)
    requires
        call_ensures(def_union, (ctx, c, name), ()),
    ensures
        final(ctx)@ == (CtxView {
            out: old(ctx)@.out + only_if(
                !old(ctx)@.visited.contains(name@),
                "type "@ + name@ + " = c_void /* FIXME: union type */;\n"@ + "\n"@,
            ),
            visited: old(ctx)@.visited.insert(name@),
            ..old(ctx)@
        }),
{
    let s = old(ctx)@;
    if s.visited.contains(name@) {
        taken_names_are_left_alone(*unit, s, c, name@);
        assert(s.visited.insert(name@) =~= s.visited);
        assert(s.out + Seq::<char>::empty() =~= s.out);
    } else {
        unions_are_untyped(s, name@);
    }
}

/// The recursion wrapper of a type is written once for each name.
pub proof fn calls_of_def_recurse_enum(ctx: &mut BindCtx, c: CXCursor, name: &str)
    requires
        call_ensures(def_recurse_enum, (ctx, c, name), ()),
    ensures
        final(ctx)@ == (CtxView {
            out: old(ctx)@.out + only_if(
                !old(ctx)@.recurse_defs.contains(name@),
                wrapper_shape(name@),
            ),
            recurse_defs: old(ctx)@.recurse_defs.insert(name@),
            ..old(ctx)@
        }),
{
    let s = old(ctx)@;
    wrappers_hold_their_type(s, name@);
    if s.recurse_defs.contains(name@) {
        assert(s.recurse_defs.insert(name@) =~= s.recurse_defs);
        assert(s.out + Seq::<char>::empty() =~= s.out);
    }
}

/// A declaration without a definition is written once under its name, as an
/// untyped one.
pub proof fn calls_of_opaque_decl(ctx: &mut BindCtx, unit: &TranslationUnit, c: CXCursor)
    requires
        call_ensures(opaque_decl, (ctx, unit, c), ()),
    ensures
        final(ctx)@.name.contains_key(c.id),
        final(ctx)@.out == old(ctx)@.out + only_if(
            !old(ctx)@.visited.contains(final(ctx)@.name[c.id]),
            "type "@ + final(ctx)@.name[c.id] + " = c_void;\n"@ + "\n"@,
        ),
        final(ctx)@.visited == old(ctx)@.visited.insert(final(ctx)@.name[c.id]),
{
    let s = old(ctx)@;
    opaque_declarations_are_untyped(*unit, s, c);
    let name = final(ctx)@.name[c.id];
    if s.visited.contains(name) {
        assert(s.visited.insert(name) =~= s.visited);
        assert(s.out + Seq::<char>::empty() =~= s.out);
    }
}

/// A child of an enumeration that is a constant has its line written, and any
/// other nothing.
pub proof fn calls_of_visit_enum(
    ctx: &mut BindCtx,
    unit: &TranslationUnit,
    c: CXCursor,
    parent: CXCursor,
    r: CXChildVisitResult,
)
    requires
        call_ensures(visit_enum, (ctx, unit, c, parent), r),
    ensures
        r == CXChildVisitResult::Continue,
        final(ctx)@ == (CtxView {
            out: old(ctx)@.out + only_if(
                unit.kind(c) == CXCursorKind::EnumConstantDecl,
                constant_line(*unit, parent, c),
            ),
            ..old(ctx)@
        }),
{
    let s = old(ctx)@;
    if unit.kind(c) == CXCursorKind::EnumConstantDecl {
        assert(final(ctx)@.out =~= s.out + constant_line(*unit, parent, c));
    } else {
        assert(s.out + Seq::<char>::empty() =~= s.out);
    }
}

// ---- visits ----

/// An external function in a file that matches is declared with all its
/// arguments and its result, unless its symbol is taken.
pub proof fn calls_of_visit_func_top(
    ctx: &mut BindCtx,
    unit: &TranslationUnit,
    c: CXCursor,
    parent: CXCursor,
    r: CXChildVisitResult,
)
    requires
        unit.wf(),
        unit.holds(c),
        call_ensures(visit_func_top, (ctx, unit, c, parent), r),
        file_matches(*unit, old(ctx)@.patterns, c),
        unit.kind(c) == CXCursorKind::FunctionDecl,
        unit.info(c).linkage == CXLinkageKind::External || unit.info(c).linkage
            == CXLinkageKind::UniqueExternal,
    ensures
        r == CXChildVisitResult::Continue,
        old(ctx)@.visited.contains(unit.spelling(c)) ==> final(ctx)@ == old(ctx)@,
        !old(ctx)@.visited.contains(unit.spelling(c)) ==> {
            &&& final(ctx)@.out == old(ctx)@.out + function_shape(*unit, final(ctx)@, c)
            &&& final(ctx)@.visited == old(ctx)@.visited.insert(unit.spelling(c))
        },
{
    if !old(ctx)@.visited.contains(unit.spelling(c)) {
        functions_are_declared_in_full(*unit, old(ctx)@, c);
    }
}

proof fn front_stays(a: Seq<char>, b: Seq<char>, c: Seq<char>)
    ensures
        (a + b).is_prefix_of(a + b + c),
{
    assert((a + b + c).subrange(0, (a + b).len() as int) =~= a + b);
}

/// A typedef in a file that matches, of anything but an anonymous definition, is
/// written as another name of its type, unless its name is taken.
#[verifier::rlimit(60)]
pub proof fn calls_of_visit_ty_top_on_typedefs(
    ctx: &mut BindCtx,
    unit: &TranslationUnit,
    c: CXCursor,
    parent: CXCursor,
    r: CXChildVisitResult,
)
    requires
        unit.wf(),
        unit.holds(c),
        call_ensures(visit_ty_top, (ctx, unit, c, parent), r),
        file_matches(*unit, old(ctx)@.patterns, c),
        unit.kind(c) == CXCursorKind::TypedefDecl,
        !names_anonymous(*unit, c),
    ensures
        r == CXChildVisitResult::Continue,
        old(ctx)@.visited.contains(unit.spelling(c)) ==> final(ctx)@ == old(ctx)@,
        !old(ctx)@.visited.contains(unit.spelling(c)) ==> (old(ctx)@.out + ("type "@ + escaped(
            old(ctx)@,
            unit.spelling(c),
        ) + " = "@ + type_text(*unit, final(ctx)@, aliased(*unit, c), c, false).1 + ";\n"@
            + "\n"@)).is_prefix_of(final(ctx)@.out),
{
    let s = old(ctx)@;
    let t = final(ctx)@;
    let ty = aliased(*unit, c);
    assert((t, r) == visited(*unit, s, Pass::Types, c));
    if s.visited.contains(unit.spelling(c)) {
        taken_typedefs_are_left_alone(*unit, s, c);
    } else {
        typedefs_are_other_names(*unit, s, c);
        let line = "type "@ + escaped(s, unit.spelling(c)) + " = "@ + type_text(
            *unit,
            t,
            ty,
            c,
            false,
        ).1 + ";\n"@ + "\n"@;
        let opaque = (ty.kind == CXTypeKind::Record || ty.kind == CXTypeKind::Enum) && (unit.kind(
            unit.info(ty.decl).definition,
        ) == CXCursorKind::NoDeclFound || unit.kind(unit.info(ty.decl).definition)
            == CXCursorKind::InvalidFile);
        let tail = only_if(
            opaque && !s.visited.insert(unit.spelling(c)).contains(t.name[ty.decl.id]),
            opaque_shape(t.name[ty.decl.id]),
        );
        front_stays(s.out, line, tail);
    }
}

// ---- a whole run ----

/// A header cannot be bound to if and only if one of its diagnostics is an error
/// or worse.
pub proof fn calls_of_has_error(severities: &Vec<Severity>, r: bool)
    requires
        call_ensures(has_error, (severities,), r),
    ensures
        r <==> severities@.contains(Severity::Error) || severities@.contains(Severity::Fatal),
{
    if r {
        let i = choose|i: int| 0 <= i < severities@.len() && is_error(#[trigger] severities@[i]);
        errors_and_worse_count(severities@[i]);
        assert(severities@.contains(severities@[i]));
    }
    assert forall|x: Severity|
        severities@.contains(x) && (x == Severity::Error || x == Severity::Fatal) implies r by {
        let i = choose|i: int| 0 <= i < severities@.len() && severities@[i] == x;
        assert(is_error(severities@[i]));
    }
}

/// The bindings of a header are written by visiting all that the walk for types
/// comes to, then the anonymous definitions that still need a name, and then,
/// inside the module of the library, all that the walk for functions comes to.
pub proof fn calls_of_write_bindings(ctx: &mut BindCtx, unit: &TranslationUnit)
    requires
        unit.wf(),
        table_held(*unit, old(ctx)@.unnamed_decl),
        call_ensures(write_bindings, (ctx, unit), ()),
    ensures
        ({
            let s = old(ctx)@;
            let start = CtxView {
                out: s.out + "/* automatically generated by rust-bindgen */\n"@ + "\n"@
                    + "import libc::*;\n"@ + "\n"@,
                ..s
            };
            let typed = all_visited(
                *unit,
                start,
                Pass::Types,
                route(*unit, s.patterns, Pass::Types),
            );
            let complete = all_unnamed_written(*unit, typed, waiting(typed));
            let inside = CtxView {
                out: complete.out + "#[link_name=\""@ + s.link + "\"]"@ + "\n"@
                    + "native mod bindgen {\n"@ + "\n"@,
                ..complete
            };
            let bound = all_visited(
                *unit,
                inside,
                Pass::Functions,
                route(*unit, s.patterns, Pass::Functions),
            );
            final(ctx)@ == (CtxView { out: bound.out + "}"@ + "\n"@, ..bound })
        }),
{
    runs_follow_the_header(*unit, old(ctx)@);
}

// ---- headers ----

/// The records of a header are taken as they are, if and only if its root and
/// all that its cursors refer to exist, and children stand in front of their
/// parents.
pub proof fn calls_of_new(
    cursors: Vec<CursorInfo>,
    root: CXCursor,
    r: Option<TranslationUnit>,
)
    requires
        call_ensures(TranslationUnit::new, (cursors, root), r),
    ensures
        r is Some ==> r->0.cursors == cursors && r->0.root == root,
        r is Some <==> {
            &&& root.id < cursors@.len()
            &&& forall|i: int|
                0 <= i < cursors@.len() ==> {
                    let c = #[trigger] cursors@[i];
                    &&& c.definition.id < cursors@.len()
                    &&& type_ok(c.ty, cursors@.len())
                    &&& type_ok(c.result_ty, cursors@.len())
                    &&& type_ok(c.underlying_ty, cursors@.len())
                    &&& type_ok(c.integer_ty, cursors@.len())
                }
            &&& forall|i: int, k: int|
                0 <= i < cursors@.len() && 0 <= k < cursors@[i].children@.len() ==> (
                #[trigger] cursors@[i].children@[k]).id < i
        },
{
    let unit = TranslationUnit { cursors, root };
    if unit.wf() {
        assert forall|i: int| 0 <= i < cursors@.len() implies {
            let c = #[trigger] cursors@[i];
            &&& c.definition.id < cursors@.len()
            &&& type_ok(c.ty, cursors@.len())
            &&& type_ok(c.result_ty, cursors@.len())
            &&& type_ok(c.underlying_ty, cursors@.len())
            &&& type_ok(c.integer_ty, cursors@.len())
        } by {
            assert(cursor_ok(cursors@[i], i, cursors@.len()));
        }
        assert forall|i: int, k: int|
            0 <= i < cursors@.len() && 0 <= k < cursors@[i].children@.len() implies (
        #[trigger] cursors@[i].children@[k]).id < i by {
            assert(cursor_ok(cursors@[i], i, cursors@.len()));
        }
    }
}

// ---- the command line ----

/// The usage names the program in front of the options.
pub proof fn calls_of_print_usage(bin: &str, r: String)
    requires
        call_ensures(print_usage, (bin,), r),
    ensures
        r@ == "Usage: "@ + bin@ + " [options] input.h"@ + OPTIONS@,
{
}

/// The output files of a command line are those of its settings, and an operand
/// is missing where the reading runs over the end.
pub proof fn calls_of_output_files(
    args: &Vec<String>,
    failure: &Option<OpenFailure>,
    files: Vec<String>,
    missing: bool,
)
    requires
        call_ensures(output_files, (args,), files),
        call_ensures(operand_missing, (args, failure), missing),
    ensures
        views(files@) == scan_all(views(args@), None).1.outputs,
        *failure is None ==> missing == (scan_all(views(args@), None).0 == ScanEnd::Overrun),
        *failure is Some ==> missing == (scan_all(views(args@), Some((*failure)->0.nth as nat)).0
            == ScanEnd::Overrun),
{
}

/// A command line without arguments or with a request for help asks for the
/// usage; one with an output file that cannot be opened fails, with the reason;
/// and any other asks for a run with its settings, from nothing.
#[verifier::rlimit(60)]
pub proof fn calls_of_parse_args(
    args: &Vec<String>,
    keywords: &Vec<String>,
    failure: Option<OpenFailure>,
    r: ParsedArgs,
)
    requires
        call_ensures(parse_args, (args, keywords, failure), r),
        scan_all(views(args@), failed_at(failure)).0 != ScanEnd::Overrun,
        args@.len() != 0 || scan_all(views(args@), failed_at(failure)).0 == ScanEnd::Done,
    ensures
        ({
            let (end, settings) = scan_all(views(args@), failed_at(failure));
            &&& r is Usage <==> args@.len() == 0 || end == ScanEnd::Help
            &&& r is Fail <==> end == ScanEnd::Failed
            &&& r is Run <==> args@.len() != 0 && end == ScanEnd::Done
            &&& r matches ParsedArgs::Fail(message) ==> failure is Some && message
                == failure->0.message
            &&& r matches ParsedArgs::Run(clang_args, ctx) ==> {
                &&& views(clang_args@) == settings.clang_args
                &&& ctx@.patterns == settings.patterns
                &&& ctx@.link == settings.link
                &&& settings.outputs.len() == 0 ==> ctx@.out_file is None
                &&& settings.outputs.len() != 0 ==> ctx@.out_file == Some(settings.outputs.last())
                &&& forall|w: Seq<char>| #[trigger]
                    ctx@.keywords.contains(w) <==> views(keywords@).contains(w)
                &&& ctx@.out.len() == 0
                &&& ctx@.visited == Set::<Seq<char>>::empty()
                &&& ctx@.recurse_defs == Set::<Seq<char>>::empty()
                &&& ctx@.name == Map::<usize, Seq<char>>::empty()
                &&& ctx@.unnamed_decl.order.len() == 0
                &&& ctx@.unnamed_ty == 0
            }
        }),
{
    scan_fails_on_failure(views(args@), 0, no_settings());
}

/// The number of the output file that cannot be opened.
pub open spec fn failed_at(failure: Option<OpenFailure>) -> Option<nat> {
    match failure {
        Some(f) => Some(f.nth as nat),
        None => None,
    }
}

} // verus!
