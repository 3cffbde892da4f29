//! What every step of a run keeps.

use crate::clang::{cursor_ok, type_ok, CXCursor, CXCursorKind, CXType, CXTypeKind, TranslationUnit};
use crate::ctx::{
    identifier, kind_prefix, named, next_number, unnamed, visit_sym, wrote, wrote_line, CtxView,
    DeclTableView,
};
use crate::decls::{
    constant_written, constants_written, declared, definition_written, enum_written,
    field_written, fields_written, forward_written, opaque_type_written, opaque_written,
    struct_written, union_written, wrapper_written, Definition,
};
use crate::text::{decimal, decimal_injective};
use crate::types::{decl_text, hidden_pointer_text, pointer_text, type_text};
use crate::visit::{
    alias_written, args_written, function_visited, function_written, type_visited, typedef_type,
    typedef_visited, unnamed_written, visited, walked, Pass,
};
use vstd::prelude::*;

verus! {

/// A run only adds: what it was asked for stays, what was written is not
/// taken back, names and symbols are not given up, and an anonymous definition
/// that a typedef named does not need a name of its own again.
pub open spec fn grows(s: CtxView, t: CtxView) -> bool {
    &&& t.patterns == s.patterns
    &&& t.link == s.link
    &&& t.out_file == s.out_file
    &&& t.keywords == s.keywords
    &&& s.out.is_prefix_of(t.out)
    &&& forall|id: usize| #[trigger]
        s.name.contains_key(id) ==> t.name.contains_key(id) && t.name[id] == s.name[id]
    &&& s.visited.subset_of(t.visited)
    &&& s.recurse_defs.subset_of(t.recurse_defs)
    &&& s.unnamed_decl.order.is_prefix_of(t.unnamed_decl.order)
    &&& forall|id: usize| #[trigger]
        s.unnamed_decl.pending.contains_key(id) ==> t.unnamed_decl.pending.contains_key(id) && (
        t.unnamed_decl.pending[id] ==> s.unnamed_decl.pending[id])
}

/// Whether the cursor with a number is one without a spelling.
pub open spec fn is_nameless(unit: TranslationUnit, id: usize) -> bool {
    unit.spelling(CXCursor { id }).len() == 0
}

/// The name made from the `k`-th made-up name for the cursor with a number.
pub open spec fn made_up(unit: TranslationUnit, id: usize, k: u64) -> Seq<char> {
    kind_prefix(unit.kind(CXCursor { id })) + unnamed(k)
}

/// The cursors that were given a made-up name.
pub open spec fn nameless(unit: TranslationUnit, s: CtxView) -> Set<usize> {
    s.name.dom().filter(|id: usize| is_nameless(unit, id))
}

/// Whether the cursor with a number has the name that is due to it.
pub open spec fn well_named(unit: TranslationUnit, s: CtxView, id: usize) -> bool {
    if is_nameless(unit, id) {
        exists|k: u64| 1 <= k <= s.unnamed_ty && s.name[id] == #[trigger] made_up(unit, id, k)
    } else {
        s.name[id] == kind_prefix(unit.kind(CXCursor { id })) + unit.spelling(CXCursor { id })
    }
}

/// The names of a run: each belongs to a cursor of the unit and is the one due
/// to it, as many were made up as there are cursors that needed it, and no two
/// of those are the same.
pub open spec fn names_ok(unit: TranslationUnit, s: CtxView) -> bool {
    &&& forall|id: usize| #[trigger]
        s.name.contains_key(id) ==> id < unit.cursors@.len() && well_named(unit, s, id)
    &&& nameless(unit, s).finite()
    &&& nameless(unit, s).len() == s.unnamed_ty
    &&& forall|a: usize, b: usize|
        #![trigger s.name[a], s.name[b]]
        s.name.contains_key(a) && s.name.contains_key(b) && is_nameless(unit, a) && is_nameless(
            unit,
            b,
        ) && a != b ==> s.name[a] != s.name[b]
}

/// The anonymous definitions of a run are cursors of the unit.
pub open spec fn table_held(unit: TranslationUnit, t: DeclTableView) -> bool {
    forall|i: int| 0 <= i < t.order.len() ==> unit.holds(#[trigger] t.order[i])
}

/// The state of a run is in order.
pub open spec fn inv(unit: TranslationUnit, s: CtxView) -> bool {
    &&& names_ok(unit, s)
    &&& s.unnamed_decl.wf()
    &&& table_held(unit, s.unnamed_decl)
}

/// What a step keeps: the state grows, and stays in order.
#[verifier::opaque]
pub open spec fn step(unit: TranslationUnit, s: CtxView, t: CtxView) -> bool {
    &&& grows(s, t)
    &&& names_ok(unit, s) ==> names_ok(unit, t)
    &&& s.unnamed_decl.wf() ==> t.unnamed_decl.wf()
    &&& table_held(unit, s.unnamed_decl) ==> table_held(unit, t.unnamed_decl)
}

/// A step that leaves the anonymous definitions alone.
pub open spec fn quiet(unit: TranslationUnit, s: CtxView, t: CtxView) -> bool {
    &&& step(unit, s, t)
    &&& t.unnamed_decl == s.unnamed_decl
}

/// What grows in two stages grows.
pub proof fn grows_trans(s: CtxView, t: CtxView, u: CtxView)
    requires
        grows(s, t),
        grows(t, u),
    ensures
        grows(s, u),
{
    assert forall|id: usize| #[trigger] s.unnamed_decl.pending.contains_key(id) implies (
    u.unnamed_decl.pending.contains_key(id) && (u.unnamed_decl.pending[id]
        ==> s.unnamed_decl.pending[id])) by {
        assert(t.unnamed_decl.pending.contains_key(id));
    }
    assert forall|id: usize| #[trigger] s.name.contains_key(id) implies u.name.contains_key(id)
        && u.name[id] == s.name[id] by {
        assert(t.name.contains_key(id));
    }
    assert(s.out.is_prefix_of(u.out));
    assert(s.unnamed_decl.order.is_prefix_of(u.unnamed_decl.order));
}

/// Two steps are a step.
pub proof fn step_trans(unit: TranslationUnit, s: CtxView, t: CtxView, u: CtxView)
    requires
        step(unit, s, t),
        step(unit, t, u),
    ensures
        step(unit, s, u),
{
    reveal(step);
    grows_trans(s, t, u);
}

/// To do nothing is a step.
pub proof fn step_refl(unit: TranslationUnit, s: CtxView)
    ensures
        step(unit, s, s),
{
    reveal(step);
}

/// What a step keeps, spelled out.
pub proof fn step_means(unit: TranslationUnit, s: CtxView, t: CtxView)
    requires
        step(unit, s, t),
    ensures
        grows(s, t),
        names_ok(unit, s) ==> names_ok(unit, t),
        s.unnamed_decl.wf() ==> t.unnamed_decl.wf(),
        table_held(unit, s.unnamed_decl) ==> table_held(unit, t.unnamed_decl),
{
    reveal(step);
}

/// A change that neither names a cursor nor touches the table is a step if it
/// grows.
proof fn step_same_names(unit: TranslationUnit, s: CtxView, t: CtxView)
    requires
        grows(s, t),
        t.name == s.name,
        t.unnamed_ty == s.unnamed_ty,
        t.unnamed_decl == s.unnamed_decl,
    ensures
        quiet(unit, s, t),
{
    reveal(step);
    assert(nameless(unit, s) == nameless(unit, t));
    if names_ok(unit, s) {
        assert forall|id: usize| #[trigger] t.name.contains_key(id) implies id
            < unit.cursors@.len() && well_named(unit, t, id) by {
            assert(s.name.contains_key(id));
        }
    }
}

/// To write is a step.
pub proof fn step_wrote(unit: TranslationUnit, s: CtxView, text: Seq<char>)
    ensures
        quiet(unit, s, wrote(s, text)),
        quiet(unit, s, wrote_line(s, text)),
{
    step_same_names(unit, s, wrote(s, text));
    step_same_names(unit, s, wrote_line(s, text));
}

proof fn step_visit_sym(unit: TranslationUnit, s: CtxView, sym: Seq<char>)
    ensures
        quiet(unit, s, visit_sym(s, sym)),
{
    step_same_names(unit, s, visit_sym(s, sym));
}

proof fn small_set(a: Set<usize>, n: nat)
    requires
        forall|x: usize| #[trigger] a.contains(x) ==> x < n,
    ensures
        a.finite(),
        a.len() <= n,
    decreases n,
{
    if n == 0 {
        assert(a =~= Set::empty());
    } else {
        let top = (n - 1) as usize;
        if n - 1 <= usize::MAX {
            small_set(a.remove(top), (n - 1) as nat);
            assert(a =~= a.remove(top) || a =~= a.remove(top).insert(top));
        } else {
            small_set(a, (n - 1) as nat);
        }
    }
}

proof fn made_up_injective(unit: TranslationUnit, a: usize, j: u64, b: usize, k: u64)
    requires
        made_up(unit, a, j) == made_up(unit, b, k),
    ensures
        j == k,
{
    reveal_strlit("struct_");
    reveal_strlit("union_");
    reveal_strlit("enum_");
    reveal_strlit("other_");
    reveal_strlit("unnamed");
    let p = kind_prefix(unit.kind(CXCursor { id: a }));
    let q = kind_prefix(unit.kind(CXCursor { id: b }));
    assert(made_up(unit, a, j)[0] == p[0]);
    assert(made_up(unit, b, k)[0] == q[0]);
    assert(p == q);
    let base = p + "unnamed"@;
    assert(made_up(unit, a, j) =~= base + decimal(j as nat));
    assert(made_up(unit, b, k) =~= base + decimal(k as nat));
    assert((base + decimal(j as nat)).skip(base.len() as int) =~= decimal(j as nat));
    assert((base + decimal(k as nat)).skip(base.len() as int) =~= decimal(k as nat));
    decimal_injective(j as nat, k as nat);
}

/// To name a declaration is a step.
pub proof fn step_named(unit: TranslationUnit, s: CtxView, c: CXCursor)
    requires
        unit.holds(c),
    ensures
        quiet(unit, s, named(unit, s, c).0),
{
    reveal(step);
    let (t, name) = named(unit, s, c);
    assert(grows(s, t));
    if names_ok(unit, s) && !s.name.contains_key(c.id) {
        assert(CXCursor { id: c.id } == c);
        if is_nameless(unit, c.id) {
            let was = nameless(unit, s);
            let now = nameless(unit, t);
            assert(now =~= was.insert(c.id));
            assert(!was.contains(c.id));
            small_set(now, unit.cursors@.len());
            assert(now.len() == was.len() + 1);
            assert(unit.cursors@.len() == unit.cursors.len());
            let k = t.unnamed_ty;
            assert(k == s.unnamed_ty + 1);
            assert(t.name[c.id] == made_up(unit, c.id, k));
            assert forall|id: usize| #[trigger] t.name.contains_key(id) implies id
                < unit.cursors@.len() && well_named(unit, t, id) by {
                if id != c.id {
                    assert(s.name.contains_key(id));
                    assert(well_named(unit, s, id));
                }
            }
            assert forall|a: usize, b: usize|
                #![trigger t.name[a], t.name[b]]
                t.name.contains_key(a) && t.name.contains_key(b) && is_nameless(unit, a)
                    && is_nameless(unit, b) && a != b implies t.name[a] != t.name[b] by {
                if a == c.id || b == c.id {
                    let o = if a == c.id {
                        b
                    } else {
                        a
                    };
                    assert(s.name.contains_key(o));
                    assert(well_named(unit, s, o));
                    let j = choose|j: u64|
                        1 <= j <= s.unnamed_ty && s.name[o] == #[trigger] made_up(unit, o, j);
                    if t.name[a] == t.name[b] {
                        made_up_injective(unit, o, j, c.id, k);
                    }
                } else {
                    assert(s.name[a] != s.name[b]);
                }
            }
        } else {
            assert(nameless(unit, t) =~= nameless(unit, s));
            assert forall|id: usize| #[trigger] t.name.contains_key(id) implies id
                < unit.cursors@.len() && well_named(unit, t, id) by {
                if id != c.id {
                    assert(s.name.contains_key(id));
                    assert(well_named(unit, s, id));
                }
            }
            assert forall|a: usize, b: usize|
                #![trigger t.name[a], t.name[b]]
                t.name.contains_key(a) && t.name.contains_key(b) && is_nameless(unit, a)
                    && is_nameless(unit, b) && a != b implies t.name[a] != t.name[b] by {
                assert(s.name[a] != s.name[b]);
            }
        }
    }
}

/// Two quiet steps are one.
pub proof fn quiet_trans(unit: TranslationUnit, s: CtxView, t: CtxView, u: CtxView)
    requires
        quiet(unit, s, t),
        quiet(unit, t, u),
    ensures
        quiet(unit, s, u),
{
    step_trans(unit, s, t, u);
}

proof fn step_decl_text(unit: TranslationUnit, s: CtxView, c: CXCursor, wrap: bool)
    requires
        unit.holds(c),
    ensures
        quiet(unit, s, decl_text(unit, s, c, wrap).0),
{
    step_named(unit, s, c);
    step_refl(unit, s);
}

proof fn step_hidden(
    unit: TranslationUnit,
    s: CtxView,
    ty: CXType,
    cursor: CXCursor,
    wrap: bool,
)
    requires
        type_ok(ty, unit.cursors@.len()),
    ensures
        quiet(unit, s, hidden_pointer_text(unit, s, ty, cursor, wrap).0),
{
    step_decl_text(unit, s, ty.decl, wrap);
    step_refl(unit, s);
}

proof fn step_pointer_text(
    unit: TranslationUnit,
    s: CtxView,
    ty: CXType,
    cursor: CXCursor,
    wrap: bool,
)
    requires
        unit.wf(),
        type_ok(ty, unit.cursors@.len()),
    ensures
        quiet(unit, s, pointer_text(unit, s, ty, cursor, wrap).0),
    decreases ty, 1nat,
{
    assert(cursor_ok(unit.info(ty.decl), ty.decl.id as int, unit.cursors@.len()));
    step_refl(unit, s);
    step_hidden(unit, s, ty, cursor, wrap);
    step_hidden(unit, s, unit.info(ty.decl).underlying_ty, cursor, wrap);
    step_type_text(unit, s, ty, cursor, wrap);
}

/// To convert a type is a step.
pub proof fn step_type_text(
    unit: TranslationUnit,
    s: CtxView,
    ty: CXType,
    cursor: CXCursor,
    wrap: bool,
)
    requires
        unit.wf(),
        type_ok(ty, unit.cursors@.len()),
    ensures
        quiet(unit, s, type_text(unit, s, ty, cursor, wrap).0),
    decreases ty, 0nat,
{
    step_refl(unit, s);
    step_decl_text(unit, s, ty.decl, wrap);
    if let Some(pointee) = ty.pointee {
        step_pointer_text(unit, s, *pointee, cursor, wrap);
    }
    if let Some(element) = ty.element {
        step_type_text(unit, s, *element, cursor, wrap);
    }
}

/// To write a declaration without a definition is a step that records its name.
pub proof fn step_opaque(unit: TranslationUnit, s: CtxView, decl: CXCursor)
    requires
        unit.holds(decl),
    ensures
        quiet(unit, s, opaque_written(unit, s, decl)),
        quiet(unit, named(unit, s, decl).0, opaque_written(unit, s, decl)),
        opaque_written(unit, s, decl).visited.contains(named(unit, s, decl).1),
{
    let (s1, name) = named(unit, s, decl);
    let s2 = visit_sym(s1, name);
    step_named(unit, s, decl);
    step_visit_sym(unit, s1, name);
    step_wrote(unit, s2, "type "@ + name + " = c_void;\n"@);
    step_refl(unit, s1);
    quiet_trans(unit, s1, s2, wrote_line(s2, "type "@ + name + " = c_void;\n"@));
    quiet_trans(unit, s, s1, opaque_written(unit, s, decl));
}

proof fn step_opaque_type(unit: TranslationUnit, s: CtxView, ty: CXType)
    requires
        type_ok(ty, unit.cursors@.len()),
    ensures
        quiet(unit, s, opaque_type_written(unit, s, ty)),
{
    step_refl(unit, s);
    step_opaque(unit, s, ty.decl);
}

/// To write a child of a struct is a step.
pub proof fn step_field(unit: TranslationUnit, s: CtxView, c: CXCursor)
    requires
        unit.wf(),
        unit.holds(c),
    ensures
        quiet(unit, s, field_written(unit, s, c)),
{
    assert(cursor_ok(unit.info(c), c.id as int, unit.cursors@.len()));
    step_refl(unit, s);
    let s1 = CtxView { unnamed_field: next_number(s.unnamed_field), ..s };
    step_same_names(unit, s, s1);
    let ty = unit.info(c).ty;
    let t = type_text(unit, s, ty, c, true).0;
    let t1 = type_text(unit, s1, ty, c, true).0;
    step_type_text(unit, s, ty, c, true);
    step_type_text(unit, s1, ty, c, true);
    quiet_trans(unit, s, s1, t1);
    let r = field_written(unit, s, c);
    if unit.kind(c) == CXCursorKind::FieldDecl {
        if unit.spelling(c).len() == 0 {
            step_same_names(unit, t1, r);
            quiet_trans(unit, s, t1, r);
        } else {
            step_same_names(unit, t, r);
            quiet_trans(unit, s, t, r);
        }
    }
}

/// To write fields is a step.
pub proof fn step_fields(unit: TranslationUnit, s: CtxView, children: Seq<CXCursor>, n: nat)
    requires
        unit.wf(),
        n <= children.len(),
        forall|k: int| 0 <= k < children.len() ==> unit.holds(#[trigger] children[k]),
    ensures
        quiet(unit, s, fields_written(unit, s, children, n)),
    decreases n,
{
    if n == 0 {
        step_refl(unit, s);
    } else {
        let t = fields_written(unit, s, children, (n - 1) as nat);
        step_fields(unit, s, children, (n - 1) as nat);
        step_field(unit, t, children[n - 1]);
        quiet_trans(unit, s, t, fields_written(unit, s, children, n));
    }
}

/// To write a struct is a step that records its name.
pub proof fn step_struct(unit: TranslationUnit, s: CtxView, c: CXCursor, name: Seq<char>)
    requires
        unit.wf(),
        unit.holds(c),
    ensures
        quiet(unit, s, struct_written(unit, s, c, name)),
        struct_written(unit, s, c, name).visited.contains(name),
{
    assert(cursor_ok(unit.info(c), c.id as int, unit.cursors@.len()));
    step_refl(unit, s);
    let s1 = CtxView { unnamed_field: 0, ..visit_sym(s, name) };
    step_same_names(unit, s, s1);
    let s2 = wrote_line(s1, "type "@ + name + " = {"@);
    step_wrote(unit, s1, "type "@ + name + " = {"@);
    let children = unit.info(c).children@;
    let s3 = fields_written(unit, s2, children, children.len());
    step_fields(unit, s2, children, children.len());
    quiet_trans(unit, s1, s2, s3);
    let s4 = wrote_line(s3, "};\n"@);
    step_wrote(unit, s3, "};\n"@);
    quiet_trans(unit, s1, s3, s4);
    quiet_trans(unit, s, s1, s4);
    step_means(unit, s1, s4);
}

/// To write a union is a step that records its name.
pub proof fn step_union(unit: TranslationUnit, s: CtxView, name: Seq<char>)
    ensures
        quiet(unit, s, union_written(s, name)),
        union_written(s, name).visited.contains(name),
{
    step_refl(unit, s);
    step_same_names(unit, s, union_written(s, name));
}

/// To write a recursion wrapper is a step that records it.
pub proof fn step_wrapper(unit: TranslationUnit, s: CtxView, name: Seq<char>)
    ensures
        quiet(unit, s, wrapper_written(s, name)),
        wrapper_written(s, name).recurse_defs.contains(name),
{
    step_refl(unit, s);
    step_same_names(unit, s, wrapper_written(s, name));
}

/// To write constants is a step.
pub proof fn step_constants(
    unit: TranslationUnit,
    s: CtxView,
    parent: CXCursor,
    children: Seq<CXCursor>,
    n: nat,
)
    ensures
        quiet(unit, s, constants_written(unit, s, parent, children, n)),
    decreases n,
{
    if n == 0 {
        step_refl(unit, s);
    } else {
        let t = constants_written(unit, s, parent, children, (n - 1) as nat);
        let u = constant_written(unit, t, children[n - 1], parent);
        step_constants(unit, s, parent, children, (n - 1) as nat);
        step_same_names(unit, t, u);
        quiet_trans(unit, s, t, u);
    }
}

/// To write an enumeration is a step that records its name.
pub proof fn step_enum(unit: TranslationUnit, s: CtxView, c: CXCursor, name: Seq<char>)
    requires
        unit.wf(),
        unit.holds(c),
    ensures
        quiet(unit, s, enum_written(unit, s, c, name)),
        enum_written(unit, s, c, name).visited.contains(name),
{
    assert(cursor_ok(unit.info(c), c.id as int, unit.cursors@.len()));
    step_refl(unit, s);
    let s0 = visit_sym(s, name);
    step_visit_sym(unit, s, name);
    let (s1, text) = type_text(unit, s0, unit.info(c).integer_ty, c, false);
    step_type_text(unit, s0, unit.info(c).integer_ty, c, false);
    let line = "type "@ + name + " = "@ + text + ";"@;
    let s2 = wrote_line(s1, line);
    step_wrote(unit, s1, line);
    quiet_trans(unit, s0, s1, s2);
    let children = unit.info(c).children@;
    let s3 = constants_written(unit, s2, c, children, children.len());
    step_constants(unit, s2, c, children, children.len());
    quiet_trans(unit, s0, s2, s3);
    quiet_trans(unit, s, s0, s3);
    step_means(unit, s0, s3);
}

/// To write a definition is a step that records its name.
pub proof fn step_definition(
    unit: TranslationUnit,
    s: CtxView,
    what: Definition,
    c: CXCursor,
    name: Seq<char>,
)
    requires
        unit.wf(),
        unit.holds(c),
    ensures
        quiet(unit, s, definition_written(unit, s, what, c, name)),
        what != Definition::RecurseEnum ==> definition_written(
            unit,
            s,
            what,
            c,
            name,
        ).visited.contains(name),
        what == Definition::RecurseEnum ==> definition_written(
            unit,
            s,
            what,
            c,
            name,
        ).recurse_defs.contains(name),
{
    step_struct(unit, s, c, name);
    step_wrapper(unit, s, name);
    step_union(unit, s, name);
    step_enum(unit, s, c, name);
}

/// Setting the entry of an anonymous definition is a step, if a typedef named
/// it or it has no entry yet.
pub proof fn step_insert(unit: TranslationUnit, s: CtxView, c: CXCursor, pending: bool)
    requires
        unit.holds(c),
        !pending || !s.unnamed_decl.pending.contains_key(c.id),
    ensures
        step(
            unit,
            s,
            CtxView { unnamed_decl: s.unnamed_decl.insert(c, pending), ..s },
        ),
{
    let t = CtxView { unnamed_decl: s.unnamed_decl.insert(c, pending), ..s };
    reveal(step);
    assert(grows(s, t));
    let old_t = s.unnamed_decl;
    let new_t = t.unnamed_decl;
    if names_ok(unit, s) {
        assert(nameless(unit, s) == nameless(unit, t));
        assert forall|id: usize| #[trigger] t.name.contains_key(id) implies id
            < unit.cursors@.len() && well_named(unit, t, id) by {
            assert(s.name.contains_key(id));
        }
    }
    if table_held(unit, old_t) {
        assert forall|i: int| 0 <= i < new_t.order.len() implies unit.holds(
            #[trigger] new_t.order[i],
        ) by {
            if i < old_t.order.len() {
                assert(new_t.order[i] == old_t.order[i]);
            }
        }
    }
    if old_t.wf() {
        assert(CXCursor { id: c.id } == c);
        assert forall|id: usize| #[trigger] new_t.pending.contains_key(id) implies
            new_t.order.contains(CXCursor { id }) by {
            if id == c.id && !old_t.pending.contains_key(id) {
                assert(new_t.order[old_t.order.len() as int] == c);
            } else {
                assert(old_t.pending.contains_key(id));
                let i = choose|i: int|
                    0 <= i < old_t.order.len() && old_t.order[i] == CXCursor { id };
                assert(new_t.order[i] == CXCursor { id });
            }
        }
        assert forall|i: int| 0 <= i < new_t.order.len() implies new_t.pending.contains_key(
            (#[trigger] new_t.order[i]).id,
        ) by {
            if i < old_t.order.len() {
                assert(new_t.order[i] == old_t.order[i]);
            }
        }
        assert(new_t.order.no_duplicates()) by {
            if !old_t.pending.contains_key(c.id) {
                assert forall|i: int| 0 <= i < old_t.order.len() implies old_t.order[i] != c by {
                    assert(old_t.pending.contains_key(old_t.order[i].id));
                }
            }
        }
    }
}

proof fn step_declared(unit: TranslationUnit, s: CtxView, c: CXCursor, what: Definition)
    requires
        unit.wf(),
        unit.holds(c),
    ensures
        step(unit, s, declared(unit, s, c, what)),
{
    step_refl(unit, s);
    let (s1, name) = named(unit, s, c);
    step_named(unit, s, c);
    step_definition(unit, s1, what, c, name);
    step_trans(unit, s, s1, definition_written(unit, s1, what, c, name));
    if !s.unnamed_decl.pending.contains_key(c.id) {
        step_insert(unit, s, c, true);
    }
    step_opaque(unit, s, c);
}

proof fn step_forward(
    unit: TranslationUnit,
    s: CtxView,
    c: CXCursor,
    what: Definition,
    after: Option<Definition>,
)
    requires
        unit.wf(),
        unit.holds(c),
    ensures
        step(unit, s, forward_written(unit, s, c, what, after)),
{
    let s1 = declared(unit, s, c, what);
    step_declared(unit, s, c, what);
    if let Some(more) = after {
        let (s2, name) = named(unit, s1, c);
        let s3 = definition_written(unit, s2, more, c, name);
        step_named(unit, s1, c);
        step_definition(unit, s2, more, c, name);
        step_trans(unit, s, s1, s2);
        step_trans(unit, s, s2, s3);
    }
}

/// To write a typedef as another name is a step that records it.
pub proof fn step_alias(unit: TranslationUnit, s: CtxView, c: CXCursor)
    requires
        unit.wf(),
        unit.holds(c),
    ensures
        quiet(unit, s, alias_written(unit, s, c)),
        alias_written(unit, s, c).visited.contains(unit.spelling(c)),
{
    typedef_type_ok(unit, c);
    step_refl(unit, s);
    let name = unit.spelling(c);
    let ty = typedef_type(unit, c);
    let s0 = visit_sym(s, name);
    step_visit_sym(unit, s, name);
    let (s1, text) = type_text(unit, s0, ty, c, false);
    step_type_text(unit, s0, ty, c, false);
    let line = "type "@ + identifier(s, name) + " = "@ + text + ";\n"@;
    let s2 = wrote_line(s1, line);
    step_wrote(unit, s1, line);
    quiet_trans(unit, s0, s1, s2);
    let s3 = opaque_type_written(unit, s2, ty);
    step_opaque_type(unit, s2, ty);
    quiet_trans(unit, s0, s2, s3);
    quiet_trans(unit, s, s0, s3);
    step_means(unit, s0, s3);
}

/// What a typedef stands for is in order.
pub proof fn typedef_type_ok(unit: TranslationUnit, c: CXCursor)
    requires
        unit.wf(),
        unit.holds(c),
    ensures
        type_ok(typedef_type(unit, c), unit.cursors@.len()),
{
    assert(cursor_ok(unit.info(c), c.id as int, unit.cursors@.len()));
    assert(type_ok(unit.info(c).underlying_ty, unit.cursors@.len()));
}

proof fn step_typedef(unit: TranslationUnit, s: CtxView, c: CXCursor)
    requires
        unit.wf(),
        unit.holds(c),
    ensures
        step(unit, s, typedef_visited(unit, s, c).0),
{
    typedef_type_ok(unit, c);
    let decl = typedef_type(unit, c).decl;
    let name = identifier(s, unit.spelling(c));
    let s1 = CtxView { unnamed_decl: s.unnamed_decl.insert(decl, false), ..s };
    step_insert(unit, s, decl, false);
    step_alias(unit, s, c);
    step_alias(unit, s1, c);
    step_struct(unit, s1, decl, name);
    step_union(unit, s1, name);
    let e = enum_written(unit, s1, decl, name);
    step_enum(unit, s1, decl, name);
    step_wrote(unit, e, ""@);
    step_trans(unit, s, s1, e);
    step_trans(unit, s, e, wrote_line(e, ""@));
    step_trans(unit, s, s1, struct_written(unit, s1, decl, name));
    step_trans(unit, s, s1, union_written(s1, name));
    step_trans(unit, s, s1, alias_written(unit, s1, c));
}

proof fn step_type_visited(unit: TranslationUnit, s: CtxView, c: CXCursor)
    requires
        unit.wf(),
        unit.holds(c),
    ensures
        step(unit, s, type_visited(unit, s, c).0),
{
    step_refl(unit, s);
    step_forward(unit, s, c, Definition::Struct, Some(Definition::RecurseEnum));
    step_forward(unit, s, c, Definition::Union, None);
    let e = forward_written(unit, s, c, Definition::Enum, None);
    step_forward(unit, s, c, Definition::Enum, None);
    step_wrote(unit, e, ""@);
    step_trans(unit, s, e, wrote_line(e, ""@));
    let v = wrote_line(
        visit_sym(s, unit.spelling(c)),
        "/* FIXME: global variable "@ + unit.spelling(c) + " */\n"@,
    );
    step_same_names(unit, s, v);
    step_typedef(unit, s, c);
}

proof fn step_args(
    unit: TranslationUnit,
    s: CtxView,
    args: Seq<CXType>,
    c: CXCursor,
    n: nat,
)
    requires
        unit.wf(),
        n <= args.len(),
        forall|i: int| 0 <= i < args.len() ==> type_ok(#[trigger] args[i], unit.cursors@.len()),
    ensures
        quiet(unit, s, args_written(unit, s, args, c, n)),
    decreases n,
{
    if n == 0 {
        step_refl(unit, s);
    } else {
        let before = args_written(unit, s, args, c, (n - 1) as nat);
        step_args(unit, s, args, c, (n - 1) as nat);
        let s1 = if n > 1 {
            wrote(before, ", "@)
        } else {
            before
        };
        step_same_names(unit, before, s1);
        quiet_trans(unit, s, before, s1);
        let (s2, text) = type_text(unit, s1, args[n - 1], c, false);
        step_type_text(unit, s1, args[n - 1], c, false);
        quiet_trans(unit, s, s1, s2);
        let arg = "++arg"@ + decimal((n - 1) as nat) + ": "@ + text;
        step_wrote(unit, s2, arg);
        quiet_trans(unit, s, s2, wrote(s2, arg));
    }
}

/// To write a function is a step, and so is what follows its head.
pub proof fn step_function(unit: TranslationUnit, s: CtxView, c: CXCursor)
    requires
        unit.wf(),
        unit.holds(c),
    ensures
        quiet(unit, s, function_written(unit, s, c)),
        quiet(
            unit,
            wrote(s, "fn "@ + identifier(s, unit.spelling(c)) + "("@),
            function_written(unit, s, c),
        ),
{
    let info = unit.info(c);
    assert(cursor_ok(info, c.id as int, unit.cursors@.len()));
    let s1 = wrote(s, "fn "@ + identifier(s, info.spelling@) + "("@);
    step_same_names(unit, s, s1);
    let s2 = args_written(unit, s1, info.ty.args@, c, info.ty.args@.len());
    step_args(unit, s1, info.ty.args@, c, info.ty.args@.len());
    let s3 = if info.ty.variadic {
        wrote(s2, "/* FIXME: variadic function */"@)
    } else {
        s2
    };
    let s4 = wrote(s3, ")"@);
    step_same_names(unit, s2, s4);
    quiet_trans(unit, s1, s2, s4);
    let (before, text) = type_text(unit, s4, info.result_ty, c, false);
    step_type_text(unit, s4, info.result_ty, c, false);
    quiet_trans(unit, s1, s4, before);
    let r = function_written(unit, s, c);
    if info.result_ty.kind != CXTypeKind::Void {
        step_same_names(unit, before, r);
        quiet_trans(unit, s1, before, r);
    } else {
        step_same_names(unit, s4, r);
        quiet_trans(unit, s1, s4, r);
    }
    quiet_trans(unit, s, s1, r);
}

proof fn step_function_visited(unit: TranslationUnit, s: CtxView, c: CXCursor)
    requires
        unit.wf(),
        unit.holds(c),
    ensures
        quiet(unit, s, function_visited(unit, s, c).0),
{
    step_refl(unit, s);
    let s1 = visit_sym(s, unit.spelling(c));
    step_visit_sym(unit, s, unit.spelling(c));
    step_function(unit, s1, c);
    quiet_trans(unit, s, s1, function_written(unit, s1, c));
}

/// A visit is a step.
pub proof fn step_visited(unit: TranslationUnit, s: CtxView, pass: Pass, c: CXCursor)
    requires
        unit.wf(),
        unit.holds(c),
    ensures
        step(unit, s, visited(unit, s, pass, c).0),
{
    step_type_visited(unit, s, c);
    step_function_visited(unit, s, c);
}

/// A walk is a step.
pub proof fn step_walked(unit: TranslationUnit, s: CtxView, pass: Pass, c: CXCursor, n: nat)
    requires
        unit.wf(),
        unit.holds(c),
        n <= unit.info(c).children@.len(),
    ensures
        step(unit, s, walked(unit, s, pass, c, n)),
    decreases c.id, n,
{
    assert(cursor_ok(unit.info(c), c.id as int, unit.cursors@.len()));
    if n == 0 {
        step_refl(unit, s);
    } else {
        let before = walked(unit, s, pass, c, (n - 1) as nat);
        step_walked(unit, s, pass, c, (n - 1) as nat);
        let child = unit.info(c).children@[n - 1];
        assert(child.id < c.id);
        let s1 = visited(unit, before, pass, child).0;
        step_visited(unit, before, pass, child);
        step_trans(unit, s, before, s1);
        let all = unit.info(child).children@.len();
        step_walked(unit, s1, pass, child, all);
        step_trans(unit, s, s1, walked(unit, s1, pass, child, all));
    }
}

/// Writing an anonymous definition under a name of its own is a step, and
/// leaves the anonymous definitions as they are.
pub proof fn step_unnamed_written(unit: TranslationUnit, s: CtxView, c: CXCursor)
    requires
        unit.wf(),
        unit.holds(c),
    ensures
        quiet(unit, s, unnamed_written(unit, s, c)),
{
    let (s1, name) = named(unit, s, c);
    step_named(unit, s, c);
    step_struct(unit, s1, c, name);
    quiet_trans(unit, s, s1, struct_written(unit, s1, c, name));
    step_union(unit, s1, name);
    quiet_trans(unit, s, s1, union_written(s1, name));
    let e = enum_written(unit, s1, c, name);
    step_enum(unit, s1, c, name);
    quiet_trans(unit, s, s1, e);
    step_wrote(unit, e, ""@);
    quiet_trans(unit, s, e, wrote_line(e, ""@));
}

} // verus!
