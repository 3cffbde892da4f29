//! What a run reaches, and what it says of each symbol.

use crate::bindings::pending_written;
use crate::clang::{
    cursor_ok, CXChildVisitResult, CXCursor, CXCursorKind, CXType, TranslationUnit,
};
use crate::ctx::{
    file_matches, identifier, named, next_number, visit_sym, wrote, wrote_line, CtxView,
};
use crate::decls::{
    constants_written, declared, definition_written, enum_written, fields_written,
    forward_written, opaque_written, struct_written, union_written, wrapper_text, wrapper_written,
    Definition,
};
use crate::growth::{
    grows, step, step_constants, step_definition, step_fields, step_function, step_means,
    step_named, step_opaque, step_refl, step_struct, step_trans, step_unnamed_written,
    step_visited, step_walked, step_wrote, table_held, typedef_type_ok,
};
use crate::text::{occurs_at, occurs_in};
use crate::types::{decl_text, pointer_text, type_text};
use crate::visit::{
    alias_written, args_written, function_visited, function_written, is_anonymous_definition,
    is_external, type_visited, typedef_type, unnamed_written, visited, walked, Pass,
};
use vstd::prelude::*;

verus! {

// ---- where the walk goes ----

/// Whether a visit leads on to what is below a cursor; it depends on the
/// header and the patterns alone.
pub open spec fn descends(
    unit: TranslationUnit,
    patterns: Seq<Seq<char>>,
    pass: Pass,
    c: CXCursor,
) -> bool {
    file_matches(unit, patterns, c) && match pass {
        Pass::Types => match unit.kind(c) {
            CXCursorKind::EnumDecl
            | CXCursorKind::FunctionDecl
            | CXCursorKind::VarDecl
            | CXCursorKind::FieldDecl => false,
            CXCursorKind::TypedefDecl => {
                let decl = typedef_type(unit, c).decl;
                is_anonymous_definition(unit, decl) && (unit.kind(decl)
                    == CXCursorKind::StructDecl || unit.kind(decl) == CXCursorKind::UnionDecl)
            },
            _ => true,
        },
        Pass::Functions => is_external(unit.info(c).linkage) && unit.kind(c)
            != CXCursorKind::FunctionDecl,
    }
}

/// Where the walk goes depends on the header and the patterns alone.
pub proof fn walks_go_by_the_header(unit: TranslationUnit, s: CtxView, pass: Pass, c: CXCursor)
    ensures
        (visited(unit, s, pass, c).1 == CXChildVisitResult::Recurse) == descends(
            unit,
            s.patterns,
            pass,
            c,
        ),
{
}

/// Whether a walk over the first `n` children of `top` comes to a cursor.
pub open spec fn reached_within(
    unit: TranslationUnit,
    patterns: Seq<Seq<char>>,
    pass: Pass,
    top: CXCursor,
    n: nat,
    c: CXCursor,
) -> bool
    decreases top.id, n,
{
    n > 0 && {
        let child = unit.info(top).children@[n - 1];
        ||| reached_within(unit, patterns, pass, top, (n - 1) as nat, c)
        ||| child == c
        ||| child.id < top.id && descends(unit, patterns, pass, child) && reached_within(
            unit,
            patterns,
            pass,
            child,
            unit.info(child).children@.len(),
            c,
        )
    }
}

/// Whether a walk over a header comes to a cursor: it stands below the root,
/// and the walk leads on from all that is between.
pub open spec fn reached(
    unit: TranslationUnit,
    patterns: Seq<Seq<char>>,
    pass: Pass,
    c: CXCursor,
) -> bool {
    reached_within(unit, patterns, pass, unit.root, unit.info(unit.root).children@.len(), c)
}

/// A walk visits what it comes to: between some state and the end stands the
/// visit of the cursor.
pub proof fn reached_is_visited(
    unit: TranslationUnit,
    s: CtxView,
    pass: Pass,
    top: CXCursor,
    n: nat,
    c: CXCursor,
) -> (m: CtxView)
    requires
        unit.wf(),
        unit.holds(top),
        n <= unit.info(top).children@.len(),
        reached_within(unit, s.patterns, pass, top, n, c),
    ensures
        unit.holds(c),
        step(unit, s, m),
        step(unit, visited(unit, m, pass, c).0, walked(unit, s, pass, top, n)),
    decreases top.id, n,
{
    assert(cursor_ok(unit.info(top), top.id as int, unit.cursors@.len()));
    let before = walked(unit, s, pass, top, (n - 1) as nat);
    step_walked(unit, s, pass, top, (n - 1) as nat);
    step_means(unit, s, before);
    let child = unit.info(top).children@[n - 1];
    assert(child.id < top.id);
    let (s1, next) = visited(unit, before, pass, child);
    step_visited(unit, before, pass, child);
    step_means(unit, before, s1);
    step_trans(unit, s, before, s1);
    walks_go_by_the_header(unit, before, pass, child);
    let all = unit.info(child).children@.len();
    let below = walked(unit, s1, pass, child, all);
    step_walked(unit, s1, pass, child, all);
    step_trans(unit, before, s1, below);
    let end = walked(unit, s, pass, top, n);
    step_refl(unit, s1);
    if reached_within(unit, s.patterns, pass, top, (n - 1) as nat, c) {
        let m = reached_is_visited(unit, s, pass, top, (n - 1) as nat, c);
        step_trans(unit, visited(unit, m, pass, c).0, before, end);
        m
    } else if child == c {
        before
    } else {
        let m = reached_is_visited(unit, s1, pass, child, all, c);
        step_trans(unit, s, s1, m);
        m
    }
}

// ---- what is said of a symbol ----

/// What a text says of a symbol: a type of that name, the comment on a
/// variable, or a function.
pub open spec fn says(s: CtxView, sym: Seq<char>) -> bool {
    ||| occurs_in(s.out, "type "@ + sym + " = "@)
    ||| occurs_in(s.out, "type "@ + identifier(s, sym) + " = "@)
    ||| occurs_in(s.out, "/* FIXME: global variable "@ + sym + " */\n"@)
    ||| says_function(s, sym)
}

/// A text declares a function.
pub open spec fn says_function(s: CtxView, sym: Seq<char>) -> bool {
    occurs_in(s.out, "fn "@ + identifier(s, sym) + "("@)
}

/// Each symbol that was recorded on the way from `s` to `t` is spoken of in
/// what was written, and each recursion wrapper stands there.
pub open spec fn spoken(s: CtxView, t: CtxView) -> bool {
    &&& forall|sym: Seq<char>| #[trigger]
        t.visited.contains(sym) && !s.visited.contains(sym) ==> says(t, sym)
    &&& forall|name: Seq<char>| #[trigger]
        t.recurse_defs.contains(name) && !s.recurse_defs.contains(name) ==> occurs_in(
            t.out,
            wrapper_text(name),
        )
}

/// Each symbol that was recorded on the way from `s` to `t` is declared as a
/// function in what was written.
pub open spec fn functions_spoken(s: CtxView, t: CtxView) -> bool {
    forall|sym: Seq<char>| #[trigger]
        t.visited.contains(sym) && !s.visited.contains(sym) ==> says_function(t, sym)
}

/// The two states differ in the names of declarations only.
pub open spec fn only_names(s: CtxView, t: CtxView) -> bool {
    t == (CtxView { name: t.name, unnamed_ty: t.unnamed_ty, ..s })
}

proof fn occurs_behind(out: Seq<char>, front: Seq<char>, needle: Seq<char>)
    requires
        (front + needle).is_prefix_of(out),
    ensures
        occurs_in(out, needle),
{
    assert(out.subrange(front.len() as int, front.len() as int + needle.len()) =~= needle) by {
        assert forall|i: int| 0 <= i < needle.len() implies out[front.len() + i] == needle[i] by {
            assert((front + needle)[front.len() + i] == needle[i]);
            assert(out.subrange(0, (front + needle).len() as int)[front.len() + i]
                == out[front.len() + i]);
        }
    }
    assert(occurs_at(out, needle, front.len() as int));
}

proof fn occurs_still(out: Seq<char>, more: Seq<char>, needle: Seq<char>)
    requires
        occurs_in(out, needle),
        out.is_prefix_of(more),
    ensures
        occurs_in(more, needle),
{
    let at = choose|at: int| occurs_at(out, needle, at);
    assert(more.subrange(at, at + needle.len()) =~= out.subrange(at, at + needle.len())) by {
        assert forall|j: int| 0 <= j < out.len() implies #[trigger] more[j] == out[j] by {
            assert(more.subrange(0, out.len() as int)[j] == more[j]);
        }
    }
    assert(occurs_at(more, needle, at));
}

proof fn says_still(s: CtxView, t: CtxView, sym: Seq<char>)
    requires
        grows(s, t),
    ensures
        says(s, sym) ==> says(t, sym),
        says_function(s, sym) ==> says_function(t, sym),
{
    let a = "type "@ + sym + " = "@;
    let b = "type "@ + identifier(s, sym) + " = "@;
    let c = "/* FIXME: global variable "@ + sym + " */\n"@;
    let d = "fn "@ + identifier(s, sym) + "("@;
    if occurs_in(s.out, a) {
        occurs_still(s.out, t.out, a);
    }
    if occurs_in(s.out, b) {
        occurs_still(s.out, t.out, b);
    }
    if occurs_in(s.out, c) {
        occurs_still(s.out, t.out, c);
    }
    if occurs_in(s.out, d) {
        occurs_still(s.out, t.out, d);
    }
}

/// What is spoken of in two stages is spoken of.
pub proof fn spoken_trans(s: CtxView, t: CtxView, u: CtxView)
    requires
        grows(t, u),
    ensures
        spoken(s, t) && spoken(t, u) ==> spoken(s, u),
        functions_spoken(s, t) && functions_spoken(t, u) ==> functions_spoken(s, u),
{
    if spoken(s, t) && spoken(t, u) {
        assert forall|sym: Seq<char>| #[trigger]
            u.visited.contains(sym) && !s.visited.contains(sym) implies says(u, sym) by {
            says_still(t, u, sym);
        }
        assert forall|name: Seq<char>| #[trigger]
            u.recurse_defs.contains(name) && !s.recurse_defs.contains(name) implies occurs_in(
            u.out,
            wrapper_text(name),
        ) by {
            if t.recurse_defs.contains(name) {
                occurs_still(t.out, u.out, wrapper_text(name));
            }
        }
    }
    if functions_spoken(s, t) && functions_spoken(t, u) {
        assert forall|sym: Seq<char>| #[trigger]
            u.visited.contains(sym) && !s.visited.contains(sym) implies says_function(u, sym) by {
            says_still(t, u, sym);
        }
    }
}

proof fn decl_text_names(unit: TranslationUnit, s: CtxView, c: CXCursor, wrap: bool)
    ensures
        only_names(s, decl_text(unit, s, c, wrap).0),
{
}

proof fn pointer_text_names(
    unit: TranslationUnit,
    s: CtxView,
    ty: CXType,
    cursor: CXCursor,
    wrap: bool,
)
    ensures
        only_names(s, pointer_text(unit, s, ty, cursor, wrap).0),
    decreases ty, 1nat,
{
    let behind = unit.info(ty.decl).underlying_ty;
    decl_text_names(unit, s, ty.decl, wrap);
    decl_text_names(unit, s, behind.decl, wrap);
    type_text_names(unit, s, ty, cursor, wrap);
}

/// Converting a type changes the names of declarations only.
pub proof fn type_text_names(
    unit: TranslationUnit,
    s: CtxView,
    ty: CXType,
    cursor: CXCursor,
    wrap: bool,
)
    ensures
        only_names(s, type_text(unit, s, ty, cursor, wrap).0),
    decreases ty, 0nat,
{
    decl_text_names(unit, s, ty.decl, wrap);
    if let Some(pointee) = ty.pointee {
        pointer_text_names(unit, s, *pointee, cursor, wrap);
    }
    if let Some(element) = ty.element {
        type_text_names(unit, s, *element, cursor, wrap);
    }
}

/// Writing fields records no symbol and no recursion wrapper.
pub proof fn fields_mute(unit: TranslationUnit, s: CtxView, children: Seq<CXCursor>, n: nat)
    ensures
        fields_written(unit, s, children, n).visited == s.visited,
        fields_written(unit, s, children, n).recurse_defs == s.recurse_defs,
    decreases n,
{
    if n != 0 {
        let t = fields_written(unit, s, children, (n - 1) as nat);
        fields_mute(unit, s, children, (n - 1) as nat);
        let c = children[n - 1];
        let t1 = CtxView { unnamed_field: next_number(t.unnamed_field), ..t };
        type_text_names(unit, t, unit.info(c).ty, c, true);
        type_text_names(unit, t1, unit.info(c).ty, c, true);
    }
}

/// Writing constants records no symbol and no recursion wrapper.
pub proof fn constants_mute(
    unit: TranslationUnit,
    s: CtxView,
    parent: CXCursor,
    children: Seq<CXCursor>,
    n: nat,
)
    ensures
        constants_written(unit, s, parent, children, n).visited == s.visited,
        constants_written(unit, s, parent, children, n).recurse_defs == s.recurse_defs,
    decreases n,
{
    if n != 0 {
        constants_mute(unit, s, parent, children, (n - 1) as nat);
    }
}

/// Writing arguments records no symbol and no recursion wrapper.
pub proof fn args_mute(
    unit: TranslationUnit,
    s: CtxView,
    args: Seq<CXType>,
    c: CXCursor,
    n: nat,
)
    ensures
        args_written(unit, s, args, c, n).visited == s.visited,
        args_written(unit, s, args, c, n).recurse_defs == s.recurse_defs,
    decreases n,
{
    if n != 0 {
        let before = args_written(unit, s, args, c, (n - 1) as nat);
        args_mute(unit, s, args, c, (n - 1) as nat);
        type_text_names(unit, before, args[n - 1], c, false);
        type_text_names(unit, wrote(before, ", "@), args[n - 1], c, false);
    }
}

/// A state in which one more symbol is recorded, and what was written begins
/// with a line that defines it, has that symbol spoken of.
proof fn definition_speaks(s: CtxView, t: CtxView, id: Seq<char>, sym: Seq<char>, rest: Seq<char>)
    requires
        t.visited =~= s.visited.insert(sym),
        t.recurse_defs == s.recurse_defs,
        t.keywords == s.keywords,
        id == sym || id == identifier(s, sym),
        (s.out + ("type "@ + id + " = "@ + rest)).is_prefix_of(t.out),
    ensures
        spoken(s, t),
{
    let needle = "type "@ + id + " = "@;
    let long = s.out + (needle + rest);
    assert((s.out + needle).is_prefix_of(t.out)) by {
        assert(long.subrange(0, (s.out + needle).len() as int) =~= s.out + needle);
        assert(t.out.subrange(0, (s.out + needle).len() as int) =~= t.out.subrange(
            0,
            long.len() as int,
        ).subrange(0, (s.out + needle).len() as int));
    }
    occurs_behind(t.out, s.out, needle);
}

proof fn opaque_speaks(unit: TranslationUnit, s: CtxView, decl: CXCursor)
    ensures
        spoken(s, opaque_written(unit, s, decl)),
{
    let (s1, name) = named(unit, s, decl);
    let t = opaque_written(unit, s, decl);
    if !s1.visited.contains(name) {
        reveal_strlit(" = c_void;\n");
        reveal_strlit(" = ");
        let rest = " = c_void;\n"@.skip(3) + "\n"@;
        assert("type "@ + name + " = "@ + rest =~= "type "@ + name + " = c_void;\n"@ + "\n"@);
        definition_speaks(s, t, name, name, rest);
    }
}

proof fn struct_speaks(unit: TranslationUnit, s: CtxView, c: CXCursor, name: Seq<char>)
    requires
        unit.wf(),
        unit.holds(c),
    ensures
        spoken(s, struct_written(unit, s, c, name)),
{
    let t = struct_written(unit, s, c, name);
    if !s.visited.contains(name) {
        assert(cursor_ok(unit.info(c), c.id as int, unit.cursors@.len()));
        let s1 = CtxView { unnamed_field: 0, ..visit_sym(s, name) };
        let s2 = wrote_line(s1, "type "@ + name + " = {"@);
        let children = unit.info(c).children@;
        let s3 = fields_written(unit, s2, children, children.len());
        fields_mute(unit, s2, children, children.len());
        step_fields(unit, s2, children, children.len());
        step_wrote(unit, s3, "};\n"@);
        step_trans(unit, s2, s3, t);
        step_means(unit, s2, t);
        step_struct(unit, s, c, name);
        step_means(unit, s, t);
        reveal_strlit(" = {");
        reveal_strlit(" = ");
        let rest = " = {"@.skip(3) + "\n"@;
        assert("type "@ + name + " = "@ + rest =~= "type "@ + name + " = {"@ + "\n"@);
        definition_speaks(s, t, name, name, rest);
    }
}

proof fn union_speaks(s: CtxView, name: Seq<char>)
    ensures
        spoken(s, union_written(s, name)),
{
    let t = union_written(s, name);
    if !s.visited.contains(name) {
        reveal_strlit(" = c_void /* FIXME: union type */;\n");
        reveal_strlit(" = ");
        let line = " = c_void /* FIXME: union type */;\n"@;
        let rest = line.skip(3) + "\n"@;
        assert("type "@ + name + " = "@ + rest =~= "type "@ + name + line + "\n"@);
        definition_speaks(s, t, name, name, rest);
    }
}

proof fn enum_speaks(unit: TranslationUnit, s: CtxView, c: CXCursor, name: Seq<char>)
    requires
        unit.wf(),
        unit.holds(c),
    ensures
        spoken(s, enum_written(unit, s, c, name)),
{
    let t = enum_written(unit, s, c, name);
    if !s.visited.contains(name) {
        let s0 = visit_sym(s, name);
        let ty = unit.info(c).integer_ty;
        let (s1, text) = type_text(unit, s0, ty, c, false);
        type_text_names(unit, s0, ty, c, false);
        let s2 = wrote_line(s1, "type "@ + name + " = "@ + text + ";"@);
        let children = unit.info(c).children@;
        constants_mute(unit, s2, c, children, children.len());
        step_constants(unit, s2, c, children, children.len());
        step_means(unit, s2, t);
        let rest = text + ";"@ + "\n"@;
        assert("type "@ + name + " = "@ + rest =~= "type "@ + name + " = "@ + text + ";"@
            + "\n"@);
        definition_speaks(s, t, name, name, rest);
    }
}

proof fn definition_is_spoken(
    unit: TranslationUnit,
    s: CtxView,
    what: Definition,
    c: CXCursor,
    name: Seq<char>,
)
    requires
        unit.wf(),
        unit.holds(c),
    ensures
        spoken(s, definition_written(unit, s, what, c, name)),
{
    struct_speaks(unit, s, c, name);
    union_speaks(s, name);
    enum_speaks(unit, s, c, name);
    let t = wrapper_written(s, name);
    if !s.recurse_defs.contains(name) {
        assert((s.out + wrapper_text(name)).is_prefix_of(t.out));
        occurs_behind(t.out, s.out, wrapper_text(name));
    }
}

proof fn alias_speaks(unit: TranslationUnit, s: CtxView, c: CXCursor)
    requires
        unit.wf(),
        unit.holds(c),
    ensures
        spoken(s, alias_written(unit, s, c)),
{
    typedef_type_ok(unit, c);
    let name = unit.spelling(c);
    let ty = typedef_type(unit, c);
    if !s.visited.contains(name) {
        let s0 = visit_sym(s, name);
        let (s1, text) = type_text(unit, s0, ty, c, false);
        type_text_names(unit, s0, ty, c, false);
        let id = identifier(s, name);
        let s2 = wrote_line(s1, "type "@ + id + " = "@ + text + ";\n"@);
        let rest = text + ";\n"@ + "\n"@;
        assert("type "@ + id + " = "@ + rest =~= "type "@ + id + " = "@ + text + ";\n"@ + "\n"@);
        definition_speaks(s, s2, id, name, rest);
        opaque_speaks(unit, s2, ty.decl);
        step_opaque(unit, s2, ty.decl);
        step_means(unit, s2, opaque_written(unit, s2, ty.decl));
        spoken_trans(s, s2, opaque_written(unit, s2, ty.decl));
    }
}

proof fn forward_speaks(
    unit: TranslationUnit,
    s: CtxView,
    c: CXCursor,
    what: Definition,
    after: Option<Definition>,
)
    requires
        unit.wf(),
        unit.holds(c),
    ensures
        spoken(s, forward_written(unit, s, c, what, after)),
{
    let (s1, name) = named(unit, s, c);
    definition_is_spoken(unit, s1, what, c, name);
    opaque_speaks(unit, s, c);
    let d = declared(unit, s, c, what);
    assert(spoken(s, d));
    if let Some(more) = after {
        let (s2, name2) = named(unit, d, c);
        let s3 = definition_written(unit, s2, more, c, name2);
        definition_is_spoken(unit, s2, more, c, name2);
        step_named(unit, d, c);
        step_means(unit, d, s2);
        step_definition(unit, s2, more, c, name2);
        step_means(unit, s2, s3);
        spoken_trans(s, d, s2);
        spoken_trans(s, s2, s3);
    }
}

proof fn blank_line_speaks(unit: TranslationUnit, s: CtxView, t: CtxView)
    requires
        spoken(s, t),
    ensures
        spoken(s, wrote_line(t, ""@)),
{
    step_wrote(unit, t, ""@);
    step_means(unit, t, wrote_line(t, ""@));
    spoken_trans(s, t, wrote_line(t, ""@));
}

proof fn type_visit_speaks(unit: TranslationUnit, s: CtxView, c: CXCursor)
    requires
        unit.wf(),
        unit.holds(c),
    ensures
        spoken(s, type_visited(unit, s, c).0),
{
    let sym = unit.spelling(c);
    forward_speaks(unit, s, c, Definition::Struct, Some(Definition::RecurseEnum));
    forward_speaks(unit, s, c, Definition::Union, None);
    forward_speaks(unit, s, c, Definition::Enum, None);
    blank_line_speaks(unit, s, forward_written(unit, s, c, Definition::Enum, None));
    let comment = "/* FIXME: global variable "@ + sym + " */\n"@;
    let v = wrote_line(visit_sym(s, sym), comment);
    assert((s.out + comment).is_prefix_of(v.out));
    occurs_behind(v.out, s.out, comment);
    assert(spoken(s, v));
    typedef_type_ok(unit, c);
    let decl = typedef_type(unit, c).decl;
    let name = identifier(s, sym);
    let s1 = CtxView { unnamed_decl: s.unnamed_decl.insert(decl, false), ..s };
    struct_speaks(unit, s1, decl, name);
    union_speaks(s1, name);
    enum_speaks(unit, s1, decl, name);
    blank_line_speaks(unit, s1, enum_written(unit, s1, decl, name));
    alias_speaks(unit, s1, c);
    alias_speaks(unit, s, c);
}

proof fn function_visit_speaks(unit: TranslationUnit, s: CtxView, c: CXCursor)
    requires
        unit.wf(),
        unit.holds(c),
    ensures
        functions_spoken(s, function_visited(unit, s, c).0),
        function_visited(unit, s, c).0.recurse_defs == s.recurse_defs,
{
    let info = unit.info(c);
    let sym = unit.spelling(c);
    let s0 = visit_sym(s, sym);
    let head = "fn "@ + identifier(s, sym) + "("@;
    let s1 = wrote(s0, head);
    let t = function_written(unit, s0, c);
    assert(cursor_ok(info, c.id as int, unit.cursors@.len()));
    step_function(unit, s0, c);
    step_means(unit, s1, t);
    assert((s.out + head).is_prefix_of(t.out));
    occurs_behind(t.out, s.out, head);
    assert(says_function(t, sym));
    let s2 = args_written(unit, s1, info.ty.args@, c, info.ty.args@.len());
    args_mute(unit, s1, info.ty.args@, c, info.ty.args@.len());
    let s3 = if info.ty.variadic {
        wrote(s2, "/* FIXME: variadic function */"@)
    } else {
        s2
    };
    let s4 = wrote(s3, ")"@);
    type_text_names(unit, s4, info.result_ty, c, false);
    assert(t.visited == s0.visited);
    assert(t.recurse_defs == s0.recurse_defs);
}

/// Each visit speaks of the symbols that it records.
pub proof fn visits_speak(unit: TranslationUnit, s: CtxView, pass: Pass, c: CXCursor)
    requires
        unit.wf(),
        unit.holds(c),
    ensures
        spoken(s, visited(unit, s, pass, c).0),
        pass == Pass::Functions ==> functions_spoken(s, visited(unit, s, pass, c).0),
{
    type_visit_speaks(unit, s, c);
    function_visit_speaks(unit, s, c);
}

/// Each walk speaks of the symbols that it records.
pub proof fn walks_speak(unit: TranslationUnit, s: CtxView, pass: Pass, c: CXCursor, n: nat)
    requires
        unit.wf(),
        unit.holds(c),
        n <= unit.info(c).children@.len(),
    ensures
        spoken(s, walked(unit, s, pass, c, n)),
        pass == Pass::Functions ==> functions_spoken(s, walked(unit, s, pass, c, n)),
    decreases c.id, n,
{
    if n != 0 {
        assert(cursor_ok(unit.info(c), c.id as int, unit.cursors@.len()));
        let before = walked(unit, s, pass, c, (n - 1) as nat);
        walks_speak(unit, s, pass, c, (n - 1) as nat);
        let child = unit.info(c).children@[n - 1];
        assert(child.id < c.id);
        let s1 = visited(unit, before, pass, child).0;
        visits_speak(unit, before, pass, child);
        step_visited(unit, before, pass, child);
        step_means(unit, before, s1);
        spoken_trans(s, before, s1);
        let all = unit.info(child).children@.len();
        let below = walked(unit, s1, pass, child, all);
        walks_speak(unit, s1, pass, child, all);
        step_walked(unit, s1, pass, child, all);
        step_means(unit, s1, below);
        spoken_trans(s, s1, below);
    }
}

proof fn unnamed_speaks(unit: TranslationUnit, s: CtxView, c: CXCursor)
    requires
        unit.wf(),
        unit.holds(c),
    ensures
        spoken(s, unnamed_written(unit, s, c)),
{
    let (s1, name) = named(unit, s, c);
    struct_speaks(unit, s1, c, name);
    union_speaks(s1, name);
    enum_speaks(unit, s1, c, name);
    blank_line_speaks(unit, s1, enum_written(unit, s1, c, name));
}

/// Writing the anonymous definitions speaks of the symbols that it records.
pub proof fn pending_speaks(unit: TranslationUnit, s: CtxView, n: nat)
    requires
        unit.wf(),
        table_held(unit, s.unnamed_decl),
        n <= s.unnamed_decl.order.len(),
    ensures
        spoken(s, pending_written(unit, s, n)),
    decreases n,
{
    if n != 0 {
        let before = pending_written(unit, s, (n - 1) as nat);
        let c = s.unnamed_decl.order[n - 1];
        pending_speaks(unit, s, (n - 1) as nat);
        unnamed_speaks(unit, before, c);
        step_unnamed_written(unit, before, c);
        step_means(unit, before, unnamed_written(unit, before, c));
        spoken_trans(s, before, unnamed_written(unit, before, c));
    }
}

} // verus!
