//! Where the symbols of a run come from.

use crate::bindings::{
    functions_written, headed, opened, pending_written, step_pending, types_written,
};
use crate::clang::{cursor_ok, CXCursor, CXCursorKind, TranslationUnit};
use crate::coverage::{
    args_mute, constants_mute, descends, fields_mute, reached_within, type_text_names,
    walks_go_by_the_header,
};
use crate::ctx::{
    file_matches, identifier, named, visit_sym, wrote, wrote_line, CtxView, DeclTableView,
};
use crate::decls::{
    declared, definition_written, enum_written, forward_written, is_opaque, opaque_written,
    struct_written, Definition,
};
use crate::growth::{
    grows, step_alias, step_definition, step_enum, step_function, step_means, step_named,
    step_opaque, step_struct, step_union, step_unnamed_written, step_visited, step_walked,
    step_wrote, table_held, typedef_type_ok,
};
use crate::types::type_text;
use crate::visit::{
    alias_written, args_written, function_visited, function_written, is_anonymous_definition,
    is_external, typedef_type, typedef_visited, unnamed_written, visited, walked, Pass,
};
use vstd::prelude::*;

verus! {

// ---- the symbols of a cursor ----

/// Whether a kind is that of a struct, a union or an enumeration.
pub open spec fn is_tag(kind: CXCursorKind) -> bool {
    kind == CXCursorKind::StructDecl || kind == CXCursorKind::UnionDecl || kind
        == CXCursorKind::EnumDecl
}

/// Whether a cursor is recorded under a name.
pub open spec fn has_name(s: CtxView, c: CXCursor, name: Seq<char>) -> bool {
    s.name.contains_key(c.id) && s.name[c.id] == name
}

/// The symbol under which a typedef is bound to: the identifier, where it
/// names an anonymous struct, union or enumeration, and else its name.
pub open spec fn typedef_symbol(unit: TranslationUnit, s: CtxView, c: CXCursor) -> Seq<char> {
    let decl = typedef_type(unit, c).decl;
    if is_anonymous_definition(unit, decl) && is_tag(unit.kind(decl)) {
        identifier(s, unit.spelling(c))
    } else {
        unit.spelling(c)
    }
}

/// Whether a symbol is one of those that a walk records for a cursor: the name
/// of a struct, union or enumeration, the spelling of a variable or of an
/// external function, the symbol of a typedef, or the name of what a typedef
/// stands for, where that has no definition.
pub open spec fn sym_of(
    unit: TranslationUnit,
    s: CtxView,
    pass: Pass,
    c: CXCursor,
    sym: Seq<char>,
) -> bool {
    match pass {
        Pass::Types => match unit.kind(c) {
            CXCursorKind::StructDecl
            | CXCursorKind::UnionDecl
            | CXCursorKind::EnumDecl => has_name(s, c, sym),
            CXCursorKind::VarDecl => sym == unit.spelling(c),
            CXCursorKind::TypedefDecl => {
                let ty = typedef_type(unit, c);
                ||| sym == typedef_symbol(unit, s, c)
                ||| is_opaque(unit, ty) && has_name(s, ty.decl, sym)
            },
            _ => false,
        },
        Pass::Functions => unit.kind(c) == CXCursorKind::FunctionDecl && is_external(
            unit.info(c).linkage,
        ) && sym == unit.spelling(c),
    }
}

/// Whether a walk records a recursion wrapper for a cursor: it is a struct of
/// that name.
pub open spec fn wrapper_of(
    unit: TranslationUnit,
    s: CtxView,
    pass: Pass,
    c: CXCursor,
    name: Seq<char>,
) -> bool {
    pass == Pass::Types && unit.kind(c) == CXCursorKind::StructDecl && has_name(s, c, name)
}

/// Whether an anonymous definition waits for a name of its own.
pub open spec fn waits(t: DeclTableView, id: usize) -> bool {
    t.pending.contains_key(id) && t.pending[id]
}

/// Whether a walk over the first `n` children of `top` comes to a cursor, and
/// the cursor stands in a file that matches.
pub open spec fn found(
    unit: TranslationUnit,
    patterns: Seq<Seq<char>>,
    pass: Pass,
    top: CXCursor,
    n: nat,
    c: CXCursor,
) -> bool {
    reached_within(unit, patterns, pass, top, n, c) && file_matches(unit, patterns, c)
}

/// All that was recorded on the way from `s` to `t` was recorded for cursors
/// that a walk over the first `n` children of `top` finds.
pub open spec fn traced(
    unit: TranslationUnit,
    s: CtxView,
    t: CtxView,
    pass: Pass,
    top: CXCursor,
    n: nat,
) -> bool {
    &&& forall|sym: Seq<char>| #[trigger]
        t.visited.contains(sym) && !s.visited.contains(sym) ==> exists|c: CXCursor| #[trigger]
            sym_of(unit, t, pass, c, sym) && found(unit, s.patterns, pass, top, n, c)
    &&& forall|name: Seq<char>| #[trigger]
        t.recurse_defs.contains(name) && !s.recurse_defs.contains(name) ==> exists|c: CXCursor|
         #[trigger]
            wrapper_of(unit, t, pass, c, name) && found(unit, s.patterns, pass, top, n, c)
    &&& forall|id: usize| #[trigger]
        waits(t.unnamed_decl, id) && !waits(s.unnamed_decl, id) ==> found(
            unit,
            s.patterns,
            pass,
            top,
            n,
            CXCursor { id },
        ) && pass == Pass::Types && is_tag(unit.kind(CXCursor { id }))
}

/// The symbols of a cursor stay its symbols.
pub proof fn sym_of_still(
    unit: TranslationUnit,
    s: CtxView,
    t: CtxView,
    pass: Pass,
    c: CXCursor,
    sym: Seq<char>,
)
    requires
        grows(s, t),
    ensures
        sym_of(unit, s, pass, c, sym) ==> sym_of(unit, t, pass, c, sym),
        wrapper_of(unit, s, pass, c, sym) ==> wrapper_of(unit, t, pass, c, sym),
{
    assert(s.name.contains_key(c.id) ==> t.name.contains_key(c.id));
    let decl = typedef_type(unit, c).decl;
    assert(s.name.contains_key(decl.id) ==> t.name.contains_key(decl.id));
}

/// What is traced in two stages is traced.
proof fn traced_trans(
    unit: TranslationUnit,
    s: CtxView,
    t: CtxView,
    u: CtxView,
    pass: Pass,
    top: CXCursor,
    n: nat,
)
    requires
        grows(t, u),
        t.patterns == s.patterns,
        traced(unit, s, t, pass, top, n),
        traced(unit, t, u, pass, top, n),
    ensures
        traced(unit, s, u, pass, top, n),
{
    assert forall|sym: Seq<char>| #[trigger]
        u.visited.contains(sym) && !s.visited.contains(sym) implies exists|c: CXCursor| #[trigger]
        sym_of(unit, u, pass, c, sym) && found(unit, s.patterns, pass, top, n, c) by {
        if t.visited.contains(sym) {
            let c = choose|c: CXCursor| #[trigger]
                sym_of(unit, t, pass, c, sym) && found(unit, s.patterns, pass, top, n, c);
            sym_of_still(unit, t, u, pass, c, sym);
        }
    }
    assert forall|name: Seq<char>| #[trigger]
        u.recurse_defs.contains(name) && !s.recurse_defs.contains(name) implies exists|c: CXCursor|
     #[trigger]
        wrapper_of(unit, u, pass, c, name) && found(unit, s.patterns, pass, top, n, c) by {
        if t.recurse_defs.contains(name) {
            let c = choose|c: CXCursor| #[trigger]
                wrapper_of(unit, t, pass, c, name) && found(unit, s.patterns, pass, top, n, c);
            sym_of_still(unit, t, u, pass, c, name);
        }
    }
}

/// What a walk finds, a walk that comes to as much finds.
proof fn traced_widens(
    unit: TranslationUnit,
    s: CtxView,
    t: CtxView,
    pass: Pass,
    from: (CXCursor, nat),
    to: (CXCursor, nat),
)
    requires
        traced(unit, s, t, pass, from.0, from.1),
        forall|c: CXCursor| #[trigger]
            found(unit, s.patterns, pass, from.0, from.1, c) ==> found(
                unit,
                s.patterns,
                pass,
                to.0,
                to.1,
                c,
            ),
    ensures
        traced(unit, s, t, pass, to.0, to.1),
{
}

// ---- what is recorded for a cursor ----

/// At most one symbol was recorded on the way from `s` to `t`, and no
/// recursion wrapper.
spec fn adds(s: CtxView, t: CtxView, sym: Seq<char>) -> bool {
    &&& forall|x: Seq<char>| #[trigger]
        t.visited.contains(x) ==> s.visited.contains(x) || x == sym
    &&& t.recurse_defs == s.recurse_defs
}

proof fn struct_adds(unit: TranslationUnit, s: CtxView, c: CXCursor, name: Seq<char>)
    ensures
        adds(s, struct_written(unit, s, c, name), name),
{
    let s1 = CtxView { unnamed_field: 0, ..visit_sym(s, name) };
    let s2 = wrote_line(s1, "type "@ + name + " = {"@);
    let children = unit.info(c).children@;
    fields_mute(unit, s2, children, children.len());
}

proof fn enum_adds(unit: TranslationUnit, s: CtxView, c: CXCursor, name: Seq<char>)
    ensures
        adds(s, enum_written(unit, s, c, name), name),
{
    let ty = unit.info(c).integer_ty;
    let (s1, text) = type_text(unit, visit_sym(s, name), ty, c, false);
    type_text_names(unit, visit_sym(s, name), ty, c, false);
    let s2 = wrote_line(s1, "type "@ + name + " = "@ + text + ";"@);
    let children = unit.info(c).children@;
    constants_mute(unit, s2, c, children, children.len());
}

proof fn opaque_adds(unit: TranslationUnit, s: CtxView, decl: CXCursor)
    ensures
        adds(s, opaque_written(unit, s, decl), named(unit, s, decl).1),
        has_name(opaque_written(unit, s, decl), decl, named(unit, s, decl).1),
{
}

proof fn function_adds(unit: TranslationUnit, s: CtxView, c: CXCursor)
    requires
        unit.wf(),
        unit.holds(c),
    ensures
        adds(s, function_visited(unit, s, c).0, unit.spelling(c)),
        function_visited(unit, s, c).0.unnamed_decl == s.unnamed_decl,
{
    let info = unit.info(c);
    let s0 = visit_sym(s, unit.spelling(c));
    let s1 = wrote(s0, "fn "@ + identifier(s0, info.spelling@) + "("@);
    let s2 = args_written(unit, s1, info.ty.args@, c, info.ty.args@.len());
    args_mute(unit, s1, info.ty.args@, c, info.ty.args@.len());
    let s3 = if info.ty.variadic {
        wrote(s2, "/* FIXME: variadic function */"@)
    } else {
        s2
    };
    type_text_names(unit, wrote(s3, ")"@), info.result_ty, c, false);
    assert(function_written(unit, s0, c).visited == s0.visited);
    step_function(unit, s0, c);
}

/// What a declaration records, it records under the name of the cursor.
proof fn declared_adds(unit: TranslationUnit, s: CtxView, c: CXCursor, what: Definition)
    requires
        unit.wf(),
        unit.holds(c),
        what != Definition::RecurseEnum,
    ensures
        ({
            let t = declared(unit, s, c, what);
            &&& forall|sym: Seq<char>| #[trigger]
                t.visited.contains(sym) && !s.visited.contains(sym) ==> has_name(t, c, sym)
            &&& t.recurse_defs == s.recurse_defs
            &&& forall|id: usize| #[trigger]
                waits(t.unnamed_decl, id) && !waits(s.unnamed_decl, id) ==> id == c.id
        }),
{
    let (s1, name) = named(unit, s, c);
    let d = definition_written(unit, s1, what, c, name);
    step_named(unit, s, c);
    struct_adds(unit, s1, c, name);
    enum_adds(unit, s1, c, name);
    step_definition(unit, s1, what, c, name);
    step_means(unit, s1, d);
    assert(s1.name.contains_key(c.id));
    opaque_adds(unit, s, c);
    step_opaque(unit, s, c);
}

/// What a struct, union or enumeration records, it records under the name of
/// the cursor, a recursion wrapper only behind a struct.
proof fn forward_adds(
    unit: TranslationUnit,
    s: CtxView,
    c: CXCursor,
    what: Definition,
    after: Option<Definition>,
)
    requires
        unit.wf(),
        unit.holds(c),
        what != Definition::RecurseEnum,
        after == None::<Definition> || after == Some(Definition::RecurseEnum),
    ensures
        ({
            let t = forward_written(unit, s, c, what, after);
            &&& forall|sym: Seq<char>| #[trigger]
                t.visited.contains(sym) && !s.visited.contains(sym) ==> has_name(t, c, sym)
            &&& forall|name: Seq<char>| #[trigger]
                t.recurse_defs.contains(name) && !s.recurse_defs.contains(name) ==> has_name(
                    t,
                    c,
                    name,
                ) && after.is_some()
            &&& forall|id: usize| #[trigger]
                waits(t.unnamed_decl, id) && !waits(s.unnamed_decl, id) ==> id == c.id
        }),
{
    let d = declared(unit, s, c, what);
    declared_adds(unit, s, c, what);
    let (s2, name) = named(unit, d, c);
    step_named(unit, d, c);
    step_means(unit, d, s2);
    assert(has_name(s2, c, name));
    assert(forall|sym: Seq<char>| has_name(d, c, sym) ==> #[trigger] has_name(s2, c, sym));
}

/// An alias records its name, and that of what it stands for, where that has
/// no definition.
proof fn alias_adds(unit: TranslationUnit, s: CtxView, c: CXCursor)
    requires
        unit.wf(),
        unit.holds(c),
    ensures
        ({
            let t = alias_written(unit, s, c);
            let ty = typedef_type(unit, c);
            &&& forall|sym: Seq<char>| #[trigger]
                t.visited.contains(sym) && !s.visited.contains(sym) ==> sym == unit.spelling(c)
                    || is_opaque(unit, ty) && has_name(t, ty.decl, sym)
            &&& t.recurse_defs == s.recurse_defs
            &&& t.unnamed_decl == s.unnamed_decl
        }),
{
    typedef_type_ok(unit, c);
    step_alias(unit, s, c);
    let name = unit.spelling(c);
    let ty = typedef_type(unit, c);
    let s0 = visit_sym(s, name);
    let (s1, text) = type_text(unit, s0, ty, c, false);
    type_text_names(unit, s0, ty, c, false);
    let s2 = wrote_line(s1, "type "@ + identifier(s, name) + " = "@ + text + ";\n"@);
    opaque_adds(unit, s2, ty.decl);
}

proof fn typedef_adds(unit: TranslationUnit, s: CtxView, c: CXCursor)
    requires
        unit.wf(),
        unit.holds(c),
        unit.kind(c) == CXCursorKind::TypedefDecl,
    ensures
        ({
            let t = typedef_visited(unit, s, c).0;
            &&& forall|sym: Seq<char>| #[trigger]
                t.visited.contains(sym) && !s.visited.contains(sym) ==> sym_of(
                    unit,
                    t,
                    Pass::Types,
                    c,
                    sym,
                )
            &&& t.recurse_defs == s.recurse_defs
            &&& forall|id: usize| #[trigger]
                waits(t.unnamed_decl, id) ==> waits(s.unnamed_decl, id)
        }),
{
    typedef_type_ok(unit, c);
    let decl = typedef_type(unit, c).decl;
    let name = identifier(s, unit.spelling(c));
    let s1 = CtxView { unnamed_decl: s.unnamed_decl.insert(decl, false), ..s };
    struct_adds(unit, s1, decl, name);
    step_struct(unit, s1, decl, name);
    step_means(unit, s1, struct_written(unit, s1, decl, name));
    step_union(unit, s1, name);
    enum_adds(unit, s1, decl, name);
    step_enum(unit, s1, decl, name);
    step_means(unit, s1, enum_written(unit, s1, decl, name));
    alias_adds(unit, s, c);
    alias_adds(unit, s1, c);
}

/// A visit records the symbols of its cursor, if the file matches, and nothing
/// otherwise.
pub proof fn visits_are_traced(
    unit: TranslationUnit,
    s: CtxView,
    pass: Pass,
    top: CXCursor,
    n: nat,
)
    requires
        unit.wf(),
        unit.holds(top),
        0 < n <= unit.info(top).children@.len(),
    ensures
        traced(
            unit,
            s,
            visited(unit, s, pass, unit.info(top).children@[n - 1]).0,
            pass,
            top,
            n,
        ),
{
    assert(cursor_ok(unit.info(top), top.id as int, unit.cursors@.len()));
    let c = unit.info(top).children@[n - 1];
    let t = visited(unit, s, pass, c).0;
    assert(reached_within(unit, s.patterns, pass, top, n, c));
    if t != s {
        assert(found(unit, s.patterns, pass, top, n, c));
        forward_adds(unit, s, c, Definition::Struct, Some(Definition::RecurseEnum));
        forward_adds(unit, s, c, Definition::Union, None);
        forward_adds(unit, s, c, Definition::Enum, None);
        if unit.kind(c) == CXCursorKind::TypedefDecl {
            typedef_adds(unit, s, c);
        }
        function_adds(unit, s, c);
        assert forall|sym: Seq<char>| #[trigger]
            t.visited.contains(sym) && !s.visited.contains(sym) implies exists|d: CXCursor|
         #[trigger]
            sym_of(unit, t, pass, d, sym) && found(unit, s.patterns, pass, top, n, d) by {
            assert(sym_of(unit, t, pass, c, sym));
        }
        assert forall|name: Seq<char>| #[trigger]
            t.recurse_defs.contains(name) && !s.recurse_defs.contains(name) implies exists|
            d: CXCursor,
        | #[trigger]
            wrapper_of(unit, t, pass, d, name) && found(unit, s.patterns, pass, top, n, d) by {
            assert(wrapper_of(unit, t, pass, c, name));
        }
        assert(CXCursor { id: c.id } == c);
    }
}

/// A walk records the symbols of the cursors that it finds, and nothing else.
pub proof fn walks_are_traced(
    unit: TranslationUnit,
    s: CtxView,
    pass: Pass,
    top: CXCursor,
    n: nat,
)
    requires
        unit.wf(),
        unit.holds(top),
        n <= unit.info(top).children@.len(),
    ensures
        traced(unit, s, walked(unit, s, pass, top, n), pass, top, n),
    decreases top.id, n,
{
    if n != 0 {
        assert(cursor_ok(unit.info(top), top.id as int, unit.cursors@.len()));
        let before = walked(unit, s, pass, top, (n - 1) as nat);
        walks_are_traced(unit, s, pass, top, (n - 1) as nat);
        step_walked(unit, s, pass, top, (n - 1) as nat);
        step_means(unit, s, before);
        traced_widens(unit, s, before, pass, (top, (n - 1) as nat), (top, n));
        let child = unit.info(top).children@[n - 1];
        assert(child.id < top.id);
        let s1 = visited(unit, before, pass, child).0;
        visits_are_traced(unit, before, pass, top, n);
        step_visited(unit, before, pass, child);
        step_means(unit, before, s1);
        traced_trans(unit, s, before, s1, pass, top, n);
        walks_go_by_the_header(unit, before, pass, child);
        if descends(unit, s.patterns, pass, child) {
            let all = unit.info(child).children@.len();
            let below = walked(unit, s1, pass, child, all);
            walks_are_traced(unit, s1, pass, child, all);
            step_walked(unit, s1, pass, child, all);
            step_means(unit, s1, below);
            traced_widens(unit, s1, below, pass, (child, all), (top, n));
            traced_trans(unit, s, s1, below, pass, top, n);
        }
    }
}

// ---- a whole run ----

/// Writing the anonymous definitions records the names of those that wait for
/// one.
proof fn pending_adds(unit: TranslationUnit, s: CtxView, n: nat)
    requires
        unit.wf(),
        table_held(unit, s.unnamed_decl),
        n <= s.unnamed_decl.order.len(),
    ensures
        ({
            let t = pending_written(unit, s, n);
            &&& forall|sym: Seq<char>| #[trigger]
                t.visited.contains(sym) && !s.visited.contains(sym) ==> exists|c: CXCursor|
                 #[trigger]
                    has_name(t, c, sym) && waits(s.unnamed_decl, c.id) && is_tag(unit.kind(c))
            &&& t.recurse_defs == s.recurse_defs
        }),
    decreases n,
{
    if n != 0 {
        let before = pending_written(unit, s, (n - 1) as nat);
        let c = s.unnamed_decl.order[n - 1];
        let t = pending_written(unit, s, n);
        pending_adds(unit, s, (n - 1) as nat);
        let (s1, name) = named(unit, before, c);
        struct_adds(unit, s1, c, name);
        enum_adds(unit, s1, c, name);
        step_named(unit, before, c);
        step_means(unit, before, s1);
        step_struct(unit, s1, c, name);
        step_means(unit, s1, struct_written(unit, s1, c, name));
        step_union(unit, s1, name);
        step_enum(unit, s1, c, name);
        step_means(unit, s1, enum_written(unit, s1, c, name));
        step_unnamed_written(unit, before, c);
        step_means(unit, before, unnamed_written(unit, before, c));
        assert(has_name(s1, c, name));
        assert forall|sym: Seq<char>| #[trigger]
            t.visited.contains(sym) && !s.visited.contains(sym) implies exists|d: CXCursor|
         #[trigger]
            has_name(t, d, sym) && waits(s.unnamed_decl, d.id) && is_tag(unit.kind(d)) by {
            if before.visited.contains(sym) {
                let d = choose|d: CXCursor| #[trigger]
                    has_name(before, d, sym) && waits(s.unnamed_decl, d.id) && is_tag(
                        unit.kind(d),
                    );
                assert(has_name(t, d, sym));
            } else {
                assert(has_name(t, c, sym));
            }
        }
    }
}

/// Writing the types records the symbols of the cursors that the walk for
/// types finds, and nothing else.
pub proof fn types_are_traced(unit: TranslationUnit, s: CtxView)
    requires
        unit.wf(),
        s.unnamed_decl == DeclTableView::empty(),
    ensures
        traced(
            unit,
            s,
            types_written(unit, s),
            Pass::Types,
            unit.root,
            unit.info(unit.root).children@.len(),
        ),
{
    let top = unit.root;
    let all = unit.info(top).children@.len();
    let s2 = headed(s);
    let s3 = walked(unit, s2, Pass::Types, top, all);
    let n = s3.unnamed_decl.order.len();
    let t = types_written(unit, s);
    walks_are_traced(unit, s2, Pass::Types, top, all);
    step_walked(unit, s2, Pass::Types, top, all);
    step_means(unit, s2, s3);
    pending_adds(unit, s3, n);
    step_pending(unit, s3, n);
    step_means(unit, s3, t);
    assert(traced(unit, s3, t, Pass::Types, top, all)) by {
        assert forall|sym: Seq<char>| #[trigger]
            t.visited.contains(sym) && !s3.visited.contains(sym) implies exists|c: CXCursor|
         #[trigger]
            sym_of(unit, t, Pass::Types, c, sym) && found(
                unit,
                s3.patterns,
                Pass::Types,
                top,
                all,
                c,
            ) by {
            let c = choose|c: CXCursor| #[trigger]
                has_name(t, c, sym) && waits(s3.unnamed_decl, c.id) && is_tag(unit.kind(c));
            assert(!waits(s2.unnamed_decl, c.id));
            assert(CXCursor { id: c.id } == c);
            assert(sym_of(unit, t, Pass::Types, c, sym));
        }
    }
    traced_trans(unit, s2, s3, t, Pass::Types, top, all);
}

/// Writing the functions records the symbols of the cursors that the walk for
/// functions finds, and nothing else.
pub proof fn functions_are_traced(unit: TranslationUnit, s: CtxView)
    requires
        unit.wf(),
    ensures
        traced(
            unit,
            s,
            functions_written(unit, s),
            Pass::Functions,
            unit.root,
            unit.info(unit.root).children@.len(),
        ),
{
    let top = unit.root;
    let all = unit.info(top).children@.len();
    let s2 = opened(s);
    let s3 = walked(unit, s2, Pass::Functions, top, all);
    let t = functions_written(unit, s);
    walks_are_traced(unit, s2, Pass::Functions, top, all);
    step_wrote(unit, s3, "}"@);
    step_means(unit, s3, t);
    assert(traced(unit, s3, t, Pass::Functions, top, all));
    step_walked(unit, s2, Pass::Functions, top, all);
    step_means(unit, s2, s3);
    traced_trans(unit, s2, s3, t, Pass::Functions, top, all);
}

} // verus!
