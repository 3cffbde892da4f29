//! The walk over a header: what is written for each cursor that it visits.

use crate::clang::{
    cursor_ok, to_str, type_ok, CXChildVisitResult, CXCursor, CXCursorKind, CXLinkageKind, CXType,
    CXTypeKind, CursorInfo, TranslationUnit,
};
use crate::ctx::{
    decl_name, file_matches, identifier, match_pattern, named, rust_id, sym_visited, visit_sym,
    write_line, write_str, wrote, wrote_line, BindCtx, CtxView,
};
use crate::decls::{
    def_enum, def_struct, def_union, enum_written, forward_written, fwd_decl,
    opaque_ty, opaque_type_written, struct_written, union_written, Definition,
};
use crate::text::{decimal, uint_str};
use crate::types::{conv_ty, type_text};
use vstd::prelude::*;
use vstd::string::*;

verus! {

/// What a typedef stands for, with one unexposed type looked through.
pub open spec fn typedef_type(unit: TranslationUnit, cursor: CXCursor) -> CXType {
    let ty = unit.info(cursor).underlying_ty;
    match ty.canonical {
        Some(canonical) if ty.kind == CXTypeKind::Unexposed => *canonical,
        _ => ty,
    }
}

/// Whether a cursor is an anonymous definition.
pub open spec fn is_anonymous_definition(unit: TranslationUnit, c: CXCursor) -> bool {
    unit.info(c).is_definition && unit.spelling(c).len() == 0
}

/// The state after a typedef was written as another name of its type, once.
pub open spec fn alias_written(unit: TranslationUnit, s: CtxView, cursor: CXCursor) -> CtxView {
    let name = unit.spelling(cursor);
    let ty = typedef_type(unit, cursor);
    if s.visited.contains(name) {
        s
    } else {
        let (s1, text) = type_text(unit, visit_sym(s, name), ty, cursor, false);
        let s2 = wrote_line(s1, "type "@ + identifier(s, name) + " = "@ + text + ";\n"@);
        opaque_type_written(unit, s2, ty)
    }
}

/// The state after a typedef was handled, and where the walk goes on. A
/// typedef of an anonymous definition names the definition.
pub open spec fn typedef_visited(unit: TranslationUnit, s: CtxView, cursor: CXCursor) -> (
    CtxView,
    CXChildVisitResult,
) {
    let decl = typedef_type(unit, cursor).decl;
    let name = identifier(s, unit.spelling(cursor));
    if is_anonymous_definition(unit, decl) {
        let s1 = CtxView { unnamed_decl: s.unnamed_decl.insert(decl, false), ..s };
        match unit.kind(decl) {
            CXCursorKind::StructDecl => (
                struct_written(unit, s1, decl, name),
                CXChildVisitResult::Recurse,
            ),
            CXCursorKind::UnionDecl => (union_written(s1, name), CXChildVisitResult::Recurse),
            CXCursorKind::EnumDecl => (
                wrote_line(enum_written(unit, s1, decl, name), ""@),
                CXChildVisitResult::Continue,
            ),
            _ => (alias_written(unit, s1, cursor), CXChildVisitResult::Continue),
        }
    } else {
        (alias_written(unit, s, cursor), CXChildVisitResult::Continue)
    }
}

/// The state after a cursor was visited for its types, and where the walk
/// goes on.
pub open spec fn type_visited(unit: TranslationUnit, s: CtxView, cursor: CXCursor) -> (
    CtxView,
    CXChildVisitResult,
) {
    if !file_matches(unit, s.patterns, cursor) {
        (s, CXChildVisitResult::Continue)
    } else {
        match unit.kind(cursor) {
            CXCursorKind::StructDecl => (
                forward_written(
                    unit,
                    s,
                    cursor,
                    Definition::Struct,
                    Some(Definition::RecurseEnum),
                ),
                CXChildVisitResult::Recurse,
            ),
            CXCursorKind::UnionDecl => (
                forward_written(unit, s, cursor, Definition::Union, None),
                CXChildVisitResult::Recurse,
            ),
            CXCursorKind::EnumDecl => (
                wrote_line(forward_written(unit, s, cursor, Definition::Enum, None), ""@),
                CXChildVisitResult::Continue,
            ),
            CXCursorKind::VarDecl => (
                if s.visited.contains(unit.spelling(cursor)) {
                    s
                } else {
                    wrote_line(
                        visit_sym(s, unit.spelling(cursor)),
                        "/* FIXME: global variable "@ + unit.spelling(cursor) + " */\n"@,
                    )
                },
                CXChildVisitResult::Continue,
            ),
            CXCursorKind::TypedefDecl => typedef_visited(unit, s, cursor),
            CXCursorKind::FunctionDecl | CXCursorKind::FieldDecl => (
                s,
                CXChildVisitResult::Continue,
            ),
            _ => (s, CXChildVisitResult::Recurse),
        }
    }
}

/// Writes a typedef as another name of its type, once.
fn write_alias(ctx: &mut BindCtx, unit: &TranslationUnit, cursor: CXCursor, under_ty: &CXType)
    requires
        unit.wf(),
        unit.holds(cursor),
        type_ok(*under_ty, unit.cursors@.len()),
        *under_ty == typedef_type(*unit, cursor),
    ensures
        final(ctx)@ == alias_written(*unit, old(ctx)@, cursor),
{
    let name: String = to_str(&unit.at(cursor).spelling);
    let ty_name: String = rust_id(ctx, name.as_str());
    let ghost s0 = ctx@;
    if sym_visited(ctx, name.as_str()) {
        assert(visit_sym(s0, name@) =~= s0);
        return;
    }
    let ty: String = conv_ty(ctx, unit, under_ty, cursor, false);
    let line: String = "type ".to_owned().concat(ty_name.as_str()).concat(" = ").concat(
        ty.as_str(),
    ).concat(";\n");
    write_line(ctx, line.as_str());
    opaque_ty(ctx, unit, under_ty);
}

/// Handles a typedef.
fn visit_typedef(ctx: &mut BindCtx, unit: &TranslationUnit, cursor: CXCursor) -> (r:
    CXChildVisitResult)
    requires
        unit.wf(),
        unit.holds(cursor),
    ensures
        (final(ctx)@, r) == typedef_visited(*unit, old(ctx)@, cursor),
{
    let info: &CursorInfo = unit.at(cursor);
    assert(cursor_ok(unit.cursors@[cursor.id as int], cursor.id as int, unit.cursors@.len()));
    let name: String = to_str(&info.spelling);
    let mut under_ty: &CXType = &info.underlying_ty;
    if under_ty.kind == CXTypeKind::Unexposed {
        if let Some(canonical) = &under_ty.canonical {
            under_ty = canonical;
        }
    }
    assert(type_ok(*under_ty, unit.cursors@.len()));
    let decl: CXCursor = under_ty.decl;
    let decl_info: &CursorInfo = unit.at(decl);
    let ty_name: String = rust_id(ctx, name.as_str());

    if decl_info.is_definition && to_str(&decl_info.spelling).as_str().is_empty() {
        ctx.unnamed_decl.insert(decl, false);

        if decl_info.kind == CXCursorKind::StructDecl {
            def_struct(ctx, unit, decl, ty_name.as_str());
            return CXChildVisitResult::Recurse;
        } else if decl_info.kind == CXCursorKind::UnionDecl {
            def_union(ctx, decl, ty_name.as_str());
            return CXChildVisitResult::Recurse;
        } else if decl_info.kind == CXCursorKind::EnumDecl {
            def_enum(ctx, unit, decl, ty_name.as_str());
            write_line(ctx, "");
            return CXChildVisitResult::Continue;
        }
    }
    write_alias(ctx, unit, cursor, under_ty);
    CXChildVisitResult::Continue
}

/// Visits a cursor for its types.
pub fn visit_ty_top(
    ctx: &mut BindCtx,
    unit: &TranslationUnit,
    cursor: CXCursor,
    _parent: CXCursor,
) -> (r: CXChildVisitResult)
    requires
        unit.wf(),
        unit.holds(cursor),
    ensures
        (final(ctx)@, r) == type_visited(*unit, old(ctx)@, cursor),
{
    if !match_pattern(ctx, unit, cursor) {
        return CXChildVisitResult::Continue;
    }
    let info: &CursorInfo = unit.at(cursor);
    match info.kind {
        CXCursorKind::StructDecl => {
            fwd_decl(
                ctx,
                unit,
                cursor,
                Definition::Struct,
                Some(Definition::RecurseEnum),
            );
            CXChildVisitResult::Recurse
        },
        CXCursorKind::UnionDecl => {
            fwd_decl(ctx, unit, cursor, Definition::Union, None);
            CXChildVisitResult::Recurse
        },
        CXCursorKind::EnumDecl => {
            fwd_decl(ctx, unit, cursor, Definition::Enum, None);
            write_line(ctx, "");
            CXChildVisitResult::Continue
        },
        CXCursorKind::FunctionDecl => CXChildVisitResult::Continue,
        CXCursorKind::VarDecl => {
            let name: String = to_str(&info.spelling);
            let ghost s0 = ctx@;
            if sym_visited(ctx, name.as_str()) {
                assert(visit_sym(s0, name@) =~= s0);
                return CXChildVisitResult::Continue;
            }
            let line: String = "/* FIXME: global variable ".to_owned().concat(
                name.as_str(),
            ).concat(" */\n");
            write_line(ctx, line.as_str());
            CXChildVisitResult::Continue
        },
        CXCursorKind::TypedefDecl => visit_typedef(ctx, unit, cursor),
        CXCursorKind::FieldDecl => CXChildVisitResult::Continue,
        _ => CXChildVisitResult::Recurse,
    }
}

/// The state after an anonymous definition was written under a name of its
/// own.
pub open spec fn unnamed_written(unit: TranslationUnit, s: CtxView, cursor: CXCursor) -> CtxView {
    let (s1, name) = named(unit, s, cursor);
    match unit.kind(cursor) {
        CXCursorKind::StructDecl => struct_written(unit, s1, cursor, name),
        CXCursorKind::UnionDecl => union_written(s1, name),
        CXCursorKind::EnumDecl => wrote_line(enum_written(unit, s1, cursor, name), ""@),
        _ => s1,
    }
}

/// Writes an anonymous definition under a name of its own.
pub fn visit_unnamed_decl(ctx: &mut BindCtx, unit: &TranslationUnit, cursor: CXCursor)
    requires
        unit.wf(),
        unit.holds(cursor),
    ensures
        final(ctx)@ == unnamed_written(*unit, old(ctx)@, cursor),
{
    let name: String = decl_name(ctx, unit, cursor);
    match unit.at(cursor).kind {
        CXCursorKind::StructDecl => def_struct(ctx, unit, cursor, name.as_str()),
        CXCursorKind::UnionDecl => def_union(ctx, cursor, name.as_str()),
        CXCursorKind::EnumDecl => {
            def_enum(ctx, unit, cursor, name.as_str());
            write_line(ctx, "");
        },
        _ => {},
    }
}

/// The state after the first `n` arguments of a function were written.
pub open spec fn args_written(
    unit: TranslationUnit,
    s: CtxView,
    args: Seq<CXType>,
    cursor: CXCursor,
    n: nat,
) -> CtxView
    decreases n,
{
    if n == 0 {
        s
    } else {
        let before = args_written(unit, s, args, cursor, (n - 1) as nat);
        let s1 = if n > 1 {
            wrote(before, ", "@)
        } else {
            before
        };
        let (s2, text) = type_text(unit, s1, args[n - 1], cursor, false);
        wrote(s2, "++arg"@ + decimal((n - 1) as nat) + ": "@ + text)
    }
}

/// The state after a function was written.
pub open spec fn function_written(unit: TranslationUnit, s: CtxView, cursor: CXCursor) -> CtxView {
    let info = unit.info(cursor);
    let s1 = wrote(s, "fn "@ + identifier(s, info.spelling@) + "("@);
    let s2 = args_written(unit, s1, info.ty.args@, cursor, info.ty.args@.len());
    let s3 = if info.ty.variadic {
        wrote(s2, "/* FIXME: variadic function */"@)
    } else {
        s2
    };
    let s4 = wrote(s3, ")"@);
    let s5 = if info.result_ty.kind != CXTypeKind::Void {
        let (before, text) = type_text(unit, s4, info.result_ty, cursor, false);
        wrote(before, " -> "@ + text)
    } else {
        s4
    };
    wrote_line(s5, ";\n"@)
}

/// Whether a linkage makes a symbol known outside its own file.
pub open spec fn is_external(linkage: CXLinkageKind) -> bool {
    linkage == CXLinkageKind::External || linkage == CXLinkageKind::UniqueExternal
}

/// The state after a cursor was visited for its functions, and where the walk
/// goes on.
pub open spec fn function_visited(unit: TranslationUnit, s: CtxView, cursor: CXCursor) -> (
    CtxView,
    CXChildVisitResult,
) {
    let name = unit.spelling(cursor);
    if !file_matches(unit, s.patterns, cursor) || !is_external(unit.info(cursor).linkage) {
        (s, CXChildVisitResult::Continue)
    } else if unit.kind(cursor) != CXCursorKind::FunctionDecl {
        (s, CXChildVisitResult::Recurse)
    } else if s.visited.contains(name) {
        (s, CXChildVisitResult::Continue)
    } else {
        (function_written(unit, visit_sym(s, name), cursor), CXChildVisitResult::Continue)
    }
}

/// Writes the arguments of a function.
fn write_args(ctx: &mut BindCtx, unit: &TranslationUnit, args: &Vec<CXType>, cursor: CXCursor)
    requires
        unit.wf(),
        unit.holds(cursor),
        forall|i: int| 0 <= i < args@.len() ==> type_ok(#[trigger] args@[i], unit.cursors@.len()),
    ensures
        final(ctx)@ == args_written(*unit, old(ctx)@, args@, cursor, args@.len()),
{
    let ghost s = ctx@;
    let mut i: usize = 0;
    while i < args.len()
        invariant
            unit.wf(),
            unit.holds(cursor),
            forall|j: int|
                0 <= j < args@.len() ==> type_ok(#[trigger] args@[j], unit.cursors@.len()),
            i <= args@.len(),
            ctx@ == args_written(*unit, s, args@, cursor, i as nat),
        decreases args.len() - i,
    {
        if i > 0 {
            write_str(ctx, ", ");
        }
        let ty: String = conv_ty(ctx, unit, &args[i], cursor, false);
        let arg: String = "++arg".to_owned().concat(uint_str(i as u64).as_str()).concat(
            ": ",
        ).concat(ty.as_str());
        write_str(ctx, arg.as_str());
        i += 1;
    }
}

/// Visits a cursor for its functions.
pub fn visit_func_top(
    ctx: &mut BindCtx,
    unit: &TranslationUnit,
    cursor: CXCursor,
    _parent: CXCursor,
) -> (r: CXChildVisitResult)
    requires
        unit.wf(),
        unit.holds(cursor),
    ensures
        (final(ctx)@, r) == function_visited(*unit, old(ctx)@, cursor),
{
    if !match_pattern(ctx, unit, cursor) {
        return CXChildVisitResult::Continue;
    }
    let info: &CursorInfo = unit.at(cursor);
    assert(cursor_ok(unit.cursors@[cursor.id as int], cursor.id as int, unit.cursors@.len()));
    if info.linkage != CXLinkageKind::External && info.linkage != CXLinkageKind::UniqueExternal {
        return CXChildVisitResult::Continue;
    }
    if info.kind == CXCursorKind::FunctionDecl {
        let name: String = to_str(&info.spelling);
        let ghost s0 = ctx@;
        if sym_visited(ctx, name.as_str()) {
            assert(visit_sym(s0, name@) =~= s0);
            return CXChildVisitResult::Continue;
        }
        let head: String = "fn ".to_owned().concat(rust_id(ctx, name.as_str()).as_str()).concat(
            "(",
        );
        write_str(ctx, head.as_str());
        write_args(ctx, unit, &info.ty.args, cursor);
        if info.ty.variadic {
            write_str(ctx, "/* FIXME: variadic function */");
        }
        write_str(ctx, ")");
        if info.result_ty.kind != CXTypeKind::Void {
            let ty: String = conv_ty(ctx, unit, &info.result_ty, cursor, false);
            let result: String = " -> ".to_owned().concat(ty.as_str());
            write_str(ctx, result.as_str());
        }
        write_line(ctx, ";\n");
        return CXChildVisitResult::Continue;
    }
    CXChildVisitResult::Recurse
}

/// What a walk looks for.
#[derive(Clone, Copy, Debug, PartialEq, Eq, Structural)]
pub enum Pass {
    Types,
    Functions,
}

/// The state after a cursor was visited, and where the walk goes on.
pub open spec fn visited(unit: TranslationUnit, s: CtxView, pass: Pass, cursor: CXCursor) -> (
    CtxView,
    CXChildVisitResult,
) {
    match pass {
        Pass::Types => type_visited(unit, s, cursor),
        Pass::Functions => function_visited(unit, s, cursor),
    }
}

/// The state after a walk over the first `n` children of a cursor: each is
/// visited, and where its visit asks for it, its own children are walked over
/// next.
pub open spec fn walked(
    unit: TranslationUnit,
    s: CtxView,
    pass: Pass,
    cursor: CXCursor,
    n: nat,
) -> CtxView
    decreases cursor.id, n,
{
    if n == 0 {
        s
    } else {
        let before = walked(unit, s, pass, cursor, (n - 1) as nat);
        let child = unit.info(cursor).children@[n - 1];
        let (s1, next) = visited(unit, before, pass, child);
        if next == CXChildVisitResult::Recurse && child.id < cursor.id {
            walked(unit, s1, pass, child, unit.info(child).children@.len())
        } else {
            s1
        }
    }
}

/// The state after a walk over all that is below a cursor.
pub open spec fn walked_below(
    unit: TranslationUnit,
    s: CtxView,
    pass: Pass,
    cursor: CXCursor,
) -> CtxView {
    walked(unit, s, pass, cursor, unit.info(cursor).children@.len())
}

/// Walks over all that is below a cursor.
pub fn visit_children(ctx: &mut BindCtx, unit: &TranslationUnit, pass: Pass, cursor: CXCursor)
    requires
        unit.wf(),
        unit.holds(cursor),
    ensures
        final(ctx)@ == walked_below(*unit, old(ctx)@, pass, cursor),
    decreases cursor.id,
{
    let ghost s = ctx@;
    let children: &Vec<CXCursor> = &unit.at(cursor).children;
    assert(cursor_ok(unit.cursors@[cursor.id as int], cursor.id as int, unit.cursors@.len()));
    let mut k: usize = 0;
    while k < children.len()
        invariant
            unit.wf(),
            unit.holds(cursor),
            *children == unit.info(cursor).children,
            forall|j: int| 0 <= j < children@.len() ==> (#[trigger] children@[j]).id < cursor.id,
            k <= children@.len(),
            ctx@ == walked(*unit, s, pass, cursor, k as nat),
        decreases children.len() - k,
    {
        let child: CXCursor = children[k];
        let next: CXChildVisitResult = match pass {
            Pass::Types => visit_ty_top(ctx, unit, child, cursor),
            Pass::Functions => visit_func_top(ctx, unit, child, cursor),
        };
        if next == CXChildVisitResult::Recurse {
            visit_children(ctx, unit, pass, child);
        }
        k += 1;
    }
}

} // verus!
