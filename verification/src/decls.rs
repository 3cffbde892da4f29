//! Definitions: structs, unions, enumerations and types without a definition.

use crate::clang::{
    to_str, type_ok, CXChildVisitResult, CXCursor, CXCursorKind, CXCursor_eq, CXType, CXTypeKind,
    CursorInfo, TranslationUnit,
};
use crate::ctx::{
    decl_name, identifier, named, next_number, rust_id, sym_visited, visit_sym, write_line,
    wrote_line, BindCtx, CtxView,
};
use crate::text::{decimal, int_str, signed_decimal, uint_str};
use crate::types::{conv_ty, type_text};
use vstd::prelude::*;
use vstd::string::*;

verus! {

/// Whether a kind says that there is no definition.
pub open spec fn is_missing(kind: CXCursorKind) -> bool {
    kind == CXCursorKind::NoDeclFound || kind == CXCursorKind::InvalidFile
}

/// The state after a declaration without a definition was written, once.
pub open spec fn opaque_written(unit: TranslationUnit, s: CtxView, decl: CXCursor) -> CtxView {
    let (s1, name) = named(unit, s, decl);
    if s1.visited.contains(name) {
        s1
    } else {
        wrote_line(visit_sym(s1, name), "type "@ + name + " = c_void;\n"@)
    }
}

/// Writes a declaration without a definition, once.
pub fn opaque_decl(ctx: &mut BindCtx, unit: &TranslationUnit, decl: CXCursor)
    requires
        unit.holds(decl),
    ensures
        final(ctx)@ == opaque_written(*unit, old(ctx)@, decl),
{
    let name: String = decl_name(ctx, unit, decl);
    let ghost s1 = ctx@;
    if !sym_visited(ctx, name.as_str()) {
        let line: String = "type ".to_owned().concat(name.as_str()).concat(" = c_void;\n");
        write_line(ctx, line.as_str());
    } else {
        assert(visit_sym(s1, name@) =~= s1);
    }
}

/// Whether a type is declared and has no definition.
pub open spec fn is_opaque(unit: TranslationUnit, ty: CXType) -> bool {
    (ty.kind == CXTypeKind::Record || ty.kind == CXTypeKind::Enum) && is_missing(
        unit.kind(unit.info(ty.decl).definition),
    )
}

/// The state after a type that has no definition was written.
pub open spec fn opaque_type_written(unit: TranslationUnit, s: CtxView, ty: CXType) -> CtxView {
    if is_opaque(unit, ty) {
        opaque_written(unit, s, ty.decl)
    } else {
        s
    }
}

/// Writes a type, if it has no definition.
pub fn opaque_ty(ctx: &mut BindCtx, unit: &TranslationUnit, ty: &CXType)
    requires
        unit.wf(),
        type_ok(*ty, unit.cursors@.len()),
    ensures
        final(ctx)@ == opaque_type_written(*unit, old(ctx)@, *ty),
{
    if ty.kind == CXTypeKind::Record || ty.kind == CXTypeKind::Enum {
        let def: CXCursor = unit.at(ty.decl).definition;
        let kind: CXCursorKind = unit.at(def).kind;
        if kind == CXCursorKind::NoDeclFound || kind == CXCursorKind::InvalidFile {
            opaque_decl(ctx, unit, ty.decl);
        }
    }
}

/// The name of a field, or the one made up for it.
pub open spec fn field_name(unit: TranslationUnit, s: CtxView, cursor: CXCursor) -> Seq<char> {
    if unit.spelling(cursor).len() == 0 {
        "field_unnamed"@ + decimal(s.unnamed_field as nat)
    } else {
        unit.spelling(cursor)
    }
}

/// The state after a child of a struct was written, if it is a field.
pub open spec fn field_written(unit: TranslationUnit, s: CtxView, cursor: CXCursor) -> CtxView {
    if unit.kind(cursor) != CXCursorKind::FieldDecl {
        s
    } else {
        let name = field_name(unit, s, cursor);
        let s1 = if unit.spelling(cursor).len() == 0 {
            CtxView { unnamed_field: next_number(s.unnamed_field), ..s }
        } else {
            s
        };
        let (s2, text) = type_text(unit, s1, unit.info(cursor).ty, cursor, true);
        wrote_line(s2, "    "@ + identifier(s, name) + ": "@ + text + ","@)
    }
}

/// Writes a child of a struct, if it is a field.
pub fn visit_struct(
    ctx: &mut BindCtx,
    unit: &TranslationUnit,
    cursor: CXCursor,
    _parent: CXCursor,
) -> (r: CXChildVisitResult)
    requires
        unit.wf(),
        unit.holds(cursor),
    ensures
        final(ctx)@ == field_written(*unit, old(ctx)@, cursor),
        r == CXChildVisitResult::Continue,
{
    let info: &CursorInfo = unit.at(cursor);
    if info.kind == CXCursorKind::FieldDecl {
        let mut name: String = to_str(&info.spelling);
        if name.as_str().is_empty() {
            name = "field_unnamed".to_owned().concat(uint_str(ctx.unnamed_field).as_str());
            ctx.unnamed_field = ctx.unnamed_field.wrapping_add(1);
        }
        let id: String = rust_id(ctx, name.as_str());
        let ty: String = conv_ty(ctx, unit, &info.ty, cursor, true);
        let line: String = "    ".to_owned().concat(id.as_str()).concat(": ").concat(
            ty.as_str(),
        ).concat(",");
        write_line(ctx, line.as_str());
    }
    CXChildVisitResult::Continue
}

/// The type of an enumeration's constants.
pub open spec fn constant_type(unit: TranslationUnit, parent: CXCursor) -> Seq<char> {
    if unit.info(parent).integer_ty.kind == CXTypeKind::Int {
        "i32"@
    } else {
        "u32"@
    }
}

/// The state after a child of an enumeration was written, if it is a constant.
pub open spec fn constant_written(
    unit: TranslationUnit,
    s: CtxView,
    cursor: CXCursor,
    parent: CXCursor,
) -> CtxView {
    if unit.kind(cursor) != CXCursorKind::EnumConstantDecl {
        s
    } else {
        let ty = constant_type(unit, parent);
        wrote_line(
            s,
            "const "@ + unit.spelling(cursor) + ": "@ + ty + " = "@ + signed_decimal(
                unit.info(cursor).value as int,
            ) + "_"@ + ty + ";"@,
        )
    }
}

/// Writes a child of an enumeration, if it is a constant.
pub fn visit_enum(
    ctx: &mut BindCtx,
    unit: &TranslationUnit,
    cursor: CXCursor,
    parent: CXCursor,
) -> (r: CXChildVisitResult)
    requires
        unit.holds(cursor),
        unit.holds(parent),
    ensures
        final(ctx)@ == constant_written(*unit, old(ctx)@, cursor, parent),
        r == CXChildVisitResult::Continue,
{
    let info: &CursorInfo = unit.at(cursor);
    if info.kind == CXCursorKind::EnumConstantDecl {
        let int_ty: &str = if unit.at(parent).integer_ty.kind == CXTypeKind::Int {
            "i32"
        } else {
            "u32"
        };
        let line: String = "const ".to_owned().concat(to_str(&info.spelling).as_str()).concat(
            ": ",
        ).concat(int_ty).concat(" = ").concat(int_str(info.value).as_str()).concat("_").concat(
            int_ty,
        ).concat(";");
        write_line(ctx, line.as_str());
    }
    CXChildVisitResult::Continue
}

/// The text of a type's recursion wrapper.
pub open spec fn wrapper_text(name: Seq<char>) -> Seq<char> {
    "enum enum_recurse_"@ + name + " {\n    rec_"@ + name + "("@ + name + "),\n    inst_"@ + name
        + "\n}\n"@
}

/// The state after a type's recursion wrapper was written, once.
pub open spec fn wrapper_written(s: CtxView, name: Seq<char>) -> CtxView {
    if s.recurse_defs.contains(name) {
        s
    } else {
        CtxView {
            recurse_defs: s.recurse_defs.insert(name),
            ..wrote_line(s, wrapper_text(name))
        }
    }
}

/// Writes a type's recursion wrapper, once.
pub fn def_recurse_enum(ctx: &mut BindCtx, _cursor: CXCursor, name: &str)
    ensures
        final(ctx)@ == wrapper_written(old(ctx)@, name@),
{
    if !ctx.recurse_defs.contains(name) {
        let text: String = "enum enum_recurse_".to_owned().concat(name).concat(
            " {\n    rec_",
        ).concat(name).concat("(").concat(name).concat("),\n    inst_").concat(name).concat(
            "\n}\n",
        );
        write_line(ctx, text.as_str());
        ctx.recurse_defs.insert(name.to_owned());
    }
}

/// The state after the first `n` children of a struct were written.
pub open spec fn fields_written(
    unit: TranslationUnit,
    s: CtxView,
    children: Seq<CXCursor>,
    n: nat,
) -> CtxView
    decreases n,
{
    if n == 0 {
        s
    } else {
        field_written(
            unit,
            fields_written(unit, s, children, (n - 1) as nat),
            children[n - 1],
        )
    }
}

/// The state after a struct was written under a name, once.
pub open spec fn struct_written(
    unit: TranslationUnit,
    s: CtxView,
    cursor: CXCursor,
    name: Seq<char>,
) -> CtxView {
    if s.visited.contains(name) {
        s
    } else {
        let s1 = CtxView { unnamed_field: 0, ..visit_sym(s, name) };
        let s2 = wrote_line(s1, "type "@ + name + " = {"@);
        let children = unit.info(cursor).children@;
        wrote_line(fields_written(unit, s2, children, children.len()), "};\n"@)
    }
}

/// Writes a struct under a name, once.
pub fn def_struct(ctx: &mut BindCtx, unit: &TranslationUnit, cursor: CXCursor, name: &str)
    requires
        unit.wf(),
        unit.holds(cursor),
    ensures
        final(ctx)@ == struct_written(*unit, old(ctx)@, cursor, name@),
{
    let ghost s0 = ctx@;
    if sym_visited(ctx, name) {
        assert(visit_sym(s0, name@) =~= s0);
        return;
    }
    ctx.unnamed_field = 0;
    let line: String = "type ".to_owned().concat(name).concat(" = {");
    write_line(ctx, line.as_str());
    let ghost s2 = ctx@;
    let children: &Vec<CXCursor> = &unit.at(cursor).children;
    let mut k: usize = 0;
    while k < children.len()
        invariant
            unit.wf(),
            unit.holds(cursor),
            *children == unit.info(cursor).children,
            k <= children@.len(),
            ctx@ == fields_written(*unit, s2, children@, k as nat),
        decreases children.len() - k,
    {
        visit_struct(ctx, unit, children[k], cursor);
        k += 1;
    }
    write_line(ctx, "};\n");
}

/// The state after a union was written under a name, once.
pub open spec fn union_written(s: CtxView, name: Seq<char>) -> CtxView {
    if s.visited.contains(name) {
        s
    } else {
        wrote_line(
            visit_sym(s, name),
            "type "@ + name + " = c_void /* FIXME: union type */;\n"@,
        )
    }
}

/// Writes a union under a name, once.
pub fn def_union(ctx: &mut BindCtx, _cursor: CXCursor, name: &str)
    ensures
        final(ctx)@ == union_written(old(ctx)@, name@),
{
    let ghost s0 = ctx@;
    if sym_visited(ctx, name) {
        assert(visit_sym(s0, name@) =~= s0);
        return;
    }
    let line: String = "type ".to_owned().concat(name).concat(
        " = c_void /* FIXME: union type */;\n",
    );
    write_line(ctx, line.as_str());
}

/// The state after the first `n` children of an enumeration were written.
pub open spec fn constants_written(
    unit: TranslationUnit,
    s: CtxView,
    parent: CXCursor,
    children: Seq<CXCursor>,
    n: nat,
) -> CtxView
    decreases n,
{
    if n == 0 {
        s
    } else {
        constant_written(
            unit,
            constants_written(unit, s, parent, children, (n - 1) as nat),
            children[n - 1],
            parent,
        )
    }
}

/// The state after an enumeration was written under a name, once.
pub open spec fn enum_written(
    unit: TranslationUnit,
    s: CtxView,
    cursor: CXCursor,
    name: Seq<char>,
) -> CtxView {
    if s.visited.contains(name) {
        s
    } else {
        let (s1, text) = type_text(
            unit,
            visit_sym(s, name),
            unit.info(cursor).integer_ty,
            cursor,
            false,
        );
        let s2 = wrote_line(s1, "type "@ + name + " = "@ + text + ";"@);
        let children = unit.info(cursor).children@;
        constants_written(unit, s2, cursor, children, children.len())
    }
}

/// Writes an enumeration under a name, once.
pub fn def_enum(ctx: &mut BindCtx, unit: &TranslationUnit, cursor: CXCursor, name: &str)
    requires
        unit.wf(),
        unit.holds(cursor),
    ensures
        final(ctx)@ == enum_written(*unit, old(ctx)@, cursor, name@),
{
    let ghost s0 = ctx@;
    if sym_visited(ctx, name) {
        assert(visit_sym(s0, name@) =~= s0);
        return;
    }
    let ty: String = conv_ty(ctx, unit, &unit.at(cursor).integer_ty, cursor, false);
    let line: String = "type ".to_owned().concat(name).concat(" = ").concat(ty.as_str()).concat(
        ";",
    );
    write_line(ctx, line.as_str());
    let ghost s2 = ctx@;
    let children: &Vec<CXCursor> = &unit.at(cursor).children;
    let mut k: usize = 0;
    while k < children.len()
        invariant
            unit.wf(),
            unit.holds(cursor),
            *children == unit.info(cursor).children,
            k <= children@.len(),
            ctx@ == constants_written(*unit, s2, cursor, children@, k as nat),
        decreases children.len() - k,
    {
        visit_enum(ctx, unit, children[k], cursor);
        k += 1;
    }
}

/// What is written for a cursor under a name.
#[derive(Clone, Copy, Debug, PartialEq, Eq, Structural)]
pub enum Definition {
    Struct,
    RecurseEnum,
    Union,
    Enum,
}

/// The state after something was written for a cursor under a name.
pub open spec fn definition_written(
    unit: TranslationUnit,
    s: CtxView,
    what: Definition,
    cursor: CXCursor,
    name: Seq<char>,
) -> CtxView {
    match what {
        Definition::Struct => struct_written(unit, s, cursor, name),
        Definition::RecurseEnum => wrapper_written(s, name),
        Definition::Union => union_written(s, name),
        Definition::Enum => enum_written(unit, s, cursor, name),
    }
}

/// Writes something for a cursor under a name.
fn define(
    ctx: &mut BindCtx,
    unit: &TranslationUnit,
    what: Definition,
    cursor: CXCursor,
    name: &str,
)
    requires
        unit.wf(),
        unit.holds(cursor),
    ensures
        final(ctx)@ == definition_written(*unit, old(ctx)@, what, cursor, name@),
{
    match what {
        Definition::Struct => def_struct(ctx, unit, cursor, name),
        Definition::RecurseEnum => def_recurse_enum(ctx, cursor, name),
        Definition::Union => def_union(ctx, cursor, name),
        Definition::Enum => def_enum(ctx, unit, cursor, name),
    }
}

/// The state after a declaration was handled, apart from what comes after it:
/// a definition is written, or noted where it is anonymous, and a declaration
/// without a definition anywhere is written as such.
pub open spec fn declared(
    unit: TranslationUnit,
    s: CtxView,
    cursor: CXCursor,
    what: Definition,
) -> CtxView {
    let def = unit.info(cursor).definition;
    if cursor == def {
        if unit.spelling(cursor).len() != 0 {
            let (s1, name) = named(unit, s, cursor);
            definition_written(unit, s1, what, cursor, name)
        } else if s.unnamed_decl.pending.contains_key(cursor.id) {
            s
        } else {
            CtxView { unnamed_decl: s.unnamed_decl.insert(cursor, true), ..s }
        }
    } else if is_missing(unit.kind(def)) {
        opaque_written(unit, s, cursor)
    } else {
        s
    }
}

/// The state after a declaration was handled.
pub open spec fn forward_written(
    unit: TranslationUnit,
    s: CtxView,
    cursor: CXCursor,
    what: Definition,
    after: Option<Definition>,
) -> CtxView {
    let s1 = declared(unit, s, cursor, what);
    match after {
        Some(more) => {
            let (s2, name) = named(unit, s1, cursor);
            definition_written(unit, s2, more, cursor, name)
        },
        None => s1,
    }
}

/// Handles a declaration: `f` is written for a definition, and `after` behind
/// whatever was written.
pub fn fwd_decl(
    ctx: &mut BindCtx,
    unit: &TranslationUnit,
    cursor: CXCursor,
    f: Definition,
    after: Option<Definition>,
)
    requires
        unit.wf(),
        unit.holds(cursor),
    ensures
        final(ctx)@ == forward_written(*unit, old(ctx)@, cursor, f, after),
{
    let info: &CursorInfo = unit.at(cursor);
    let def: CXCursor = info.definition;
    let def_kind: CXCursorKind = unit.at(def).kind;
    if CXCursor_eq(&cursor, &def) {
        let spelling: String = to_str(&info.spelling);
        if !spelling.as_str().is_empty() {
            let name: String = decl_name(ctx, unit, cursor);
            define(ctx, unit, f, cursor, name.as_str());
        } else if !ctx.unnamed_decl.contains_key(cursor) {
            ctx.unnamed_decl.insert(cursor, true);
        }
    } else if def_kind == CXCursorKind::NoDeclFound || def_kind == CXCursorKind::InvalidFile {
        opaque_decl(ctx, unit, cursor);
    }
    if let Some(more) = after {
        let name: String = decl_name(ctx, unit, cursor);
        define(ctx, unit, more, cursor, name.as_str());
    }
}

} // verus!
