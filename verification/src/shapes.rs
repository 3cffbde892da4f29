//! What the text of each binding is, by what stands in the header.

use crate::clang::{
    cursor_ok, type_ok, CXChildVisitResult, CXCursor, CXCursorKind, CXLinkageKind, CXType,
    CXTypeKind, TranslationUnit,
};
use crate::conversion::{
    converted, converted_by_names, converting_changes_names_only, one_more_is_converted,
    pointers_begin_with_a_star, same_names, types_are_converted_alike, types_go_by_the_names,
};
use crate::coverage::{args_mute, constants_mute, fields_mute, type_text_names};
use crate::ctx::{
    file_matches, named, next_number, visit_sym, wrote, wrote_line, CtxView, DeclTableView,
};
use crate::decls::{
    constants_written, declared, definition_written, enum_written, fields_written, forward_written,
    is_missing, opaque_type_written, opaque_written, struct_written, union_written, wrapper_written,
    Definition,
};
use crate::growth::{
    grows, grows_trans, step_constants, step_definition, step_enum, step_field, step_fields,
    step_function, step_means, step_named, step_opaque, step_refl, step_struct, step_trans,
    step_type_text, step_unnamed_written, step_visited, step_wrapper, step_wrote, typedef_type_ok,
};
use crate::text::{decimal, occurrences_are_infixes, occurs_in, signed_decimal};
use crate::types::type_text;
use crate::visit::{args_written, unnamed_written, visited, Pass};
use vstd::prelude::*;

verus! {

// ---- structs ----

/// The fields among some cursors.
pub open spec fn fields_among(unit: TranslationUnit, cursors: Seq<CXCursor>) -> Seq<CXCursor> {
    cursors.filter(|k: CXCursor| unit.kind(k) == CXCursorKind::FieldDecl)
}

/// How many of some cursors have no spelling.
pub open spec fn nameless_among(unit: TranslationUnit, cursors: Seq<CXCursor>) -> nat {
    cursors.filter(|k: CXCursor| unit.spelling(k).len() == 0).len()
}

/// A name, with an underscore in front if it cannot be one.
pub open spec fn escaped(s: CtxView, name: Seq<char>) -> Seq<char> {
    if s.keywords.contains(name) {
        "_"@ + name
    } else {
        name
    }
}

/// The name of the `j`-th field: its spelling, or one that counts the nameless
/// fields in front of it.
pub open spec fn field_label(unit: TranslationUnit, fields: Seq<CXCursor>, j: int) -> Seq<char> {
    if unit.spelling(fields[j]).len() == 0 {
        "field_unnamed"@ + decimal(nameless_among(unit, fields.take(j)))
    } else {
        unit.spelling(fields[j])
    }
}

/// The line of the `j`-th field: its name and its type.
pub open spec fn field_line(
    unit: TranslationUnit,
    t: CtxView,
    fields: Seq<CXCursor>,
    j: int,
) -> Seq<char> {
    "    "@ + escaped(t, field_label(unit, fields, j)) + ": "@ + type_text(
        unit,
        t,
        unit.info(fields[j]).ty,
        fields[j],
        true,
    ).1 + ","@ + "\n"@
}

/// The lines of some fields, one each, in their order.
pub open spec fn field_lines(
    unit: TranslationUnit,
    t: CtxView,
    fields: Seq<CXCursor>,
) -> Seq<Seq<char>> {
    Seq::new(fields.len(), |j: int| field_line(unit, t, fields, j))
}

/// The types of some fields, each with its field.
pub open spec fn field_types(
    unit: TranslationUnit,
    fields: Seq<CXCursor>,
) -> Seq<(CXType, CXCursor)> {
    Seq::new(fields.len(), |j: int| (unit.info(fields[j]).ty, fields[j]))
}

/// The text of a struct.
pub open spec fn struct_shape(
    unit: TranslationUnit,
    t: CtxView,
    c: CXCursor,
    name: Seq<char>,
) -> Seq<char> {
    "type "@ + name + " = {"@ + "\n"@ + field_lines(
        unit,
        t,
        fields_among(unit, unit.info(c).children@),
    ).flatten() + "};\n"@ + "\n"@
}

proof fn filter_next<A>(a: Seq<A>, n: int, p: spec_fn(A) -> bool)
    requires
        0 <= n < a.len(),
    ensures
        a.take(n + 1).filter(p) == if p(a[n]) {
            a.take(n).filter(p).push(a[n])
        } else {
            a.take(n).filter(p)
        },
{
    reveal(Seq::filter);
    assert(a.take(n + 1).drop_last() =~= a.take(n));
    assert(a.take(n + 1).last() == a[n]);
}

proof fn nameless_next(unit: TranslationUnit, cursors: Seq<CXCursor>, c: CXCursor)
    ensures
        nameless_among(unit, cursors.push(c)) == nameless_among(unit, cursors) + if unit.spelling(
            c,
        ).len() == 0 {
            1nat
        } else {
            0nat
        },
        nameless_among(unit, cursors) <= cursors.len(),
{
    let p = |k: CXCursor| unit.spelling(k).len() == 0;
    let all = cursors.push(c);
    filter_next(all, cursors.len() as int, p);
    assert(all.take(cursors.len() as int) =~= cursors);
    assert(all.take(cursors.len() as int + 1) =~= all);
    cursors.lemma_filter_len(p);
}

/// The lines of some fields are the lines of those fields with one more behind.
proof fn field_lines_next(
    unit: TranslationUnit,
    t: CtxView,
    fields: Seq<CXCursor>,
    f: CXCursor,
)
    ensures
        field_lines(unit, t, fields.push(f)).flatten() == field_lines(unit, t, fields).flatten()
            + field_line(unit, t, fields.push(f), fields.len() as int),
{
    let more = fields.push(f);
    let lines = field_lines(unit, t, fields);
    let last = field_line(unit, t, more, fields.len() as int);
    assert(field_lines(unit, t, more) =~= lines.push(last)) by {
        assert forall|j: int| 0 <= j < fields.len() implies field_line(unit, t, more, j)
            == #[trigger] lines[j] by {
            assert(more.take(j) =~= fields.take(j));
        }
    }
    lines.lemma_flatten_push(last);
}

#[verifier::rlimit(60)]
proof fn fields_take_shape(
    unit: TranslationUnit,
    s: CtxView,
    children: Seq<CXCursor>,
    n: nat,
    t: CtxView,
)
    requires
        unit.wf(),
        n <= children.len() <= u64::MAX,
        forall|k: int| 0 <= k < children.len() ==> unit.holds(#[trigger] children[k]),
        s.unnamed_field == 0,
        grows(fields_written(unit, s, children, n), t),
    ensures
        ({
            let m = fields_written(unit, s, children, n);
            let fields = fields_among(unit, children.take(n as int));
            &&& m.out == s.out + field_lines(unit, t, fields).flatten()
            &&& m.unnamed_field == nameless_among(unit, fields)
            &&& m.unnamed_decl == s.unnamed_decl
            &&& grows(s, m)
            &&& same_names(m, converted(unit, s, field_types(unit, fields), true))
        }),
    decreases n,
{
    let m = fields_written(unit, s, children, n);
    step_fields(unit, s, children, n);
    step_means(unit, s, m);
    if n == 0 {
        reveal(Seq::filter);
        assert(field_lines(unit, t, fields_among(unit, children.take(0))) =~= seq![]);
        assert(field_types(unit, fields_among(unit, children.take(0))) =~= seq![]);
        reveal(Seq::fold_left);
        assert(s.out + Seq::<char>::empty() =~= s.out);
    } else {
        let p = |k: CXCursor| unit.kind(k) == CXCursorKind::FieldDecl;
        let before = fields_written(unit, s, children, (n - 1) as nat);
        let c = children[n - 1];
        let front = fields_among(unit, children.take(n - 1));
        step_field(unit, before, c);
        step_means(unit, before, m);
        grows_trans(before, m, t);
        fields_take_shape(unit, s, children, (n - 1) as nat, t);
        filter_next(children, n - 1, p);
        children.take(n - 1).lemma_filter_len(p);
        if unit.kind(c) == CXCursorKind::FieldDecl {
            assert(fields_among(unit, children.take(n as int)) == front.push(c));
            nameless_next(unit, front, c);
            field_lines_next(unit, t, front, c);
            let b1 = if unit.spelling(c).len() == 0 {
                CtxView { unnamed_field: next_number(before.unnamed_field), ..before }
            } else {
                before
            };
            let (b2, text) = type_text(unit, b1, unit.info(c).ty, c, true);
            type_text_names(unit, b1, unit.info(c).ty, c, true);
            assert(grows(b2, m));
            grows_trans(b2, m, t);
            types_are_converted_alike(unit, b1, unit.info(c).ty, c, true, t);
            assert(front.push(c).take(front.len() as int) =~= front);
            let types = field_types(unit, front);
            let ty = unit.info(c).ty;
            assert(field_types(unit, front.push(c)) =~= types.push((ty, c)));
            one_more_is_converted(unit, s, types, ty, c, true);
            converting_changes_names_only(unit, s, types, true);
            types_go_by_the_names(unit, b1, converted(unit, s, types, true), ty, c, true);
            assert(m.out =~= before.out + field_line(unit, t, front.push(c), front.len() as int));
            assert(m.out =~= s.out + field_lines(unit, t, front.push(c)).flatten());
        }
    }
}

/// A struct that is written under a new name has a line for each of its
/// fields, with the name and the type of the field, in the order in which they
/// stand in the header, and no other; nothing else is written.
pub proof fn structs_list_their_fields(
    unit: TranslationUnit,
    s: CtxView,
    c: CXCursor,
    name: Seq<char>,
)
    requires
        unit.wf(),
        unit.holds(c),
        !s.visited.contains(name),
    ensures
        ({
            let t = struct_written(unit, s, c, name);
            &&& t.out == s.out + struct_shape(unit, t, c, name)
            &&& same_names(
                t,
                converted(
                    unit,
                    s,
                    field_types(unit, fields_among(unit, unit.info(c).children@)),
                    true,
                ),
            )
            &&& t.visited == s.visited.insert(name)
            &&& t.recurse_defs == s.recurse_defs
            &&& t.unnamed_decl == s.unnamed_decl
            &&& grows(s, t)
        }),
{
    let t = struct_written(unit, s, c, name);
    step_struct(unit, s, c, name);
    step_means(unit, s, t);
    step_refl(unit, t);
    step_means(unit, t, t);
    struct_takes_shape(unit, s, c, name, t);
}

/// What is written for a struct, seen from any later state.
#[verifier::rlimit(60)]
proof fn struct_takes_shape(
    unit: TranslationUnit,
    s: CtxView,
    c: CXCursor,
    name: Seq<char>,
    u: CtxView,
)
    requires
        unit.wf(),
        unit.holds(c),
        !s.visited.contains(name),
        grows(struct_written(unit, s, c, name), u),
    ensures
        ({
            let t = struct_written(unit, s, c, name);
            &&& t.out == s.out + struct_shape(unit, u, c, name)
            &&& same_names(
                t,
                converted(
                    unit,
                    s,
                    field_types(unit, fields_among(unit, unit.info(c).children@)),
                    true,
                ),
            )
            &&& t.visited == s.visited.insert(name)
            &&& t.recurse_defs == s.recurse_defs
        }),
{
    let t = struct_written(unit, s, c, name);
    assert(cursor_ok(unit.info(c), c.id as int, unit.cursors@.len()));
    let s1 = CtxView { unnamed_field: 0, ..visit_sym(s, name) };
    let s2 = wrote_line(s1, "type "@ + name + " = {"@);
    let children = unit.info(c).children@;
    let all = children.len();
    assert(unit.info(c).children@.len() == unit.info(c).children.len());
    let s3 = fields_written(unit, s2, children, all);
    step_wrote(unit, s3, "};\n"@);
    step_means(unit, s3, t);
    grows_trans(s3, t, u);
    fields_take_shape(unit, s2, children, all, u);
    fields_mute(unit, s2, children, all);
    assert(children.take(all as int) =~= children);
    converted_by_names(
        unit,
        s,
        s2,
        field_types(unit, fields_among(unit, children)),
        true,
    );
    assert(t.out =~= s.out + struct_shape(unit, u, c, name));
}

/// Lines in a row hold each of them.
proof fn rows_hold_their_lines(lines: Seq<Seq<char>>, j: int)
    requires
        0 <= j < lines.len(),
    ensures
        lines.flatten() == lines.take(j).flatten() + lines[j] + lines.skip(j + 1).flatten(),
{
    vstd::seq_lib::lemma_flatten_concat(lines.take(j), lines.skip(j));
    assert(lines.take(j) + lines.skip(j) =~= lines);
    let rest = lines.skip(j);
    assert(rest.flatten() == rest.first() + rest.drop_first().flatten());
    assert(rest.drop_first() =~= lines.skip(j + 1));
    assert(lines.flatten() =~= lines.take(j).flatten() + lines[j] + lines.skip(j + 1).flatten());
}

/// Every field with a spelling has a line with that name and its type in the
/// struct that is written.
#[verifier::rlimit(60)]
pub proof fn every_field_has_its_line(
    unit: TranslationUnit,
    s: CtxView,
    c: CXCursor,
    name: Seq<char>,
    k: int,
)
    requires
        unit.wf(),
        unit.holds(c),
        !s.visited.contains(name),
        0 <= k < unit.info(c).children@.len(),
        unit.kind(unit.info(c).children@[k]) == CXCursorKind::FieldDecl,
        unit.spelling(unit.info(c).children@[k]).len() != 0,
    ensures
        ({
            let t = struct_written(unit, s, c, name);
            let f = unit.info(c).children@[k];
            let id = if s.keywords.contains(unit.spelling(f)) {
                "_"@ + unit.spelling(f)
            } else {
                unit.spelling(f)
            };
            occurs_in(
                t.out,
                "    "@ + id + ": "@ + type_text(unit, t, unit.info(f).ty, f, true).1 + ","@
                    + "\n"@,
            )
        }),
{
    let t = struct_written(unit, s, c, name);
    structs_list_their_fields(unit, s, c, name);
    let children = unit.info(c).children@;
    let fields = fields_among(unit, children);
    let p = |x: CXCursor| unit.kind(x) == CXCursorKind::FieldDecl;
    children.lemma_filter_contains(p, k);
    let j = choose|j: int| 0 <= j < fields.len() && fields[j] == children[k];
    let lines = field_lines(unit, t, fields);
    rows_hold_their_lines(lines, j);
    let a = s.out + "type "@ + name + " = {"@ + "\n"@ + lines.take(j).flatten();
    let b = lines.skip(j + 1).flatten() + "};\n"@ + "\n"@;
    assert(t.out =~= a + lines[j] + b);
    occurrences_are_infixes(t.out, lines[j]);
}

// ---- enumerations ----

/// The constants among some cursors.
pub open spec fn constants_among(unit: TranslationUnit, cursors: Seq<CXCursor>) -> Seq<CXCursor> {
    cursors.filter(|k: CXCursor| unit.kind(k) == CXCursorKind::EnumConstantDecl)
}

/// The line of a constant: its name, its type and its value.
pub open spec fn constant_line(
    unit: TranslationUnit,
    parent: CXCursor,
    k: CXCursor,
) -> Seq<char> {
    let ty = if unit.info(parent).integer_ty.kind == CXTypeKind::Int {
        "i32"@
    } else {
        "u32"@
    };
    "const "@ + unit.spelling(k) + ": "@ + ty + " = "@ + signed_decimal(unit.info(k).value as int)
        + "_"@ + ty + ";"@ + "\n"@
}

/// The lines of some constants, one each, in their order.
pub open spec fn constant_lines(
    unit: TranslationUnit,
    parent: CXCursor,
    constants: Seq<CXCursor>,
) -> Seq<Seq<char>> {
    Seq::new(constants.len(), |j: int| constant_line(unit, parent, constants[j]))
}

/// The text of an enumeration.
pub open spec fn enum_shape(
    unit: TranslationUnit,
    t: CtxView,
    c: CXCursor,
    name: Seq<char>,
) -> Seq<char> {
    "type "@ + name + " = "@ + type_text(unit, t, unit.info(c).integer_ty, c, false).1 + ";"@
        + "\n"@ + constant_lines(
        unit,
        c,
        constants_among(unit, unit.info(c).children@),
    ).flatten()
}

proof fn constants_take_shape(
    unit: TranslationUnit,
    s: CtxView,
    parent: CXCursor,
    children: Seq<CXCursor>,
    n: nat,
)
    requires
        n <= children.len(),
    ensures
        ({
            let m = constants_written(unit, s, parent, children, n);
            m.out == s.out + constant_lines(
                unit,
                parent,
                constants_among(unit, children.take(n as int)),
            ).flatten()
        }),
    decreases n,
{
    if n == 0 {
        reveal(Seq::filter);
        let none = constants_among(unit, children.take(0));
        assert(constant_lines(unit, parent, none) =~= seq![]);
        assert(s.out + Seq::<char>::empty() =~= s.out);
    } else {
        let p = |k: CXCursor| unit.kind(k) == CXCursorKind::EnumConstantDecl;
        let m = constants_written(unit, s, parent, children, n);
        let before = constants_written(unit, s, parent, children, (n - 1) as nat);
        let c = children[n - 1];
        let front = constants_among(unit, children.take(n - 1));
        constants_take_shape(unit, s, parent, children, (n - 1) as nat);
        filter_next(children, n - 1, p);
        if unit.kind(c) == CXCursorKind::EnumConstantDecl {
            let lines = constant_lines(unit, parent, front);
            let last = constant_line(unit, parent, c);
            assert(constants_among(unit, children.take(n as int)) == front.push(c));
            assert(constant_lines(unit, parent, front.push(c)) =~= lines.push(last));
            lines.lemma_flatten_push(last);
            assert(m.out =~= before.out + last);
            assert(m.out =~= s.out + (lines.flatten() + last));
        }
    }
}

proof fn constants_leave_names(
    unit: TranslationUnit,
    s: CtxView,
    parent: CXCursor,
    children: Seq<CXCursor>,
    n: nat,
)
    ensures
        same_names(s, constants_written(unit, s, parent, children, n)),
    decreases n,
{
    if n != 0 {
        constants_leave_names(unit, s, parent, children, (n - 1) as nat);
    }
}

/// What is written for an enumeration, seen from any later state.
#[verifier::rlimit(60)]
proof fn enum_takes_shape(
    unit: TranslationUnit,
    s: CtxView,
    c: CXCursor,
    name: Seq<char>,
    u: CtxView,
)
    requires
        unit.wf(),
        unit.holds(c),
        !s.visited.contains(name),
        grows(enum_written(unit, s, c, name), u),
    ensures
        ({
            let t = enum_written(unit, s, c, name);
            &&& t.out == s.out + enum_shape(unit, u, c, name)
            &&& same_names(t, type_text(unit, s, unit.info(c).integer_ty, c, false).0)
            &&& t.visited == s.visited.insert(name)
            &&& t.recurse_defs == s.recurse_defs
        }),
{
    let t = enum_written(unit, s, c, name);
    assert(cursor_ok(unit.info(c), c.id as int, unit.cursors@.len()));
    let ty = unit.info(c).integer_ty;
    let s0 = visit_sym(s, name);
    let (s1, text) = type_text(unit, s0, ty, c, false);
    type_text_names(unit, s0, ty, c, false);
    let line = "type "@ + name + " = "@ + text + ";"@;
    let s2 = wrote_line(s1, line);
    let children = unit.info(c).children@;
    let all = children.len();
    step_wrote(unit, s1, line);
    step_constants(unit, s2, c, children, all);
    step_trans(unit, s1, s2, t);
    step_means(unit, s1, t);
    grows_trans(s1, t, u);
    types_are_converted_alike(unit, s0, ty, c, false, u);
    constants_take_shape(unit, s2, c, children, all);
    constants_mute(unit, s2, c, children, all);
    assert(children.take(all as int) =~= children);
    types_go_by_the_names(unit, s, s0, ty, c, false);
    constants_leave_names(unit, s2, c, children, all);
    assert(t.out =~= s.out + enum_shape(unit, u, c, name));
}

/// An enumeration that is written under a new name has its integer type, and a
/// line for each of its constants, with the name and the value of the constant,
/// in the order in which they stand in the header, and no other; nothing else
/// is written.
pub proof fn enumerations_list_their_constants(
    unit: TranslationUnit,
    s: CtxView,
    c: CXCursor,
    name: Seq<char>,
)
    requires
        unit.wf(),
        unit.holds(c),
        !s.visited.contains(name),
    ensures
        ({
            let t = enum_written(unit, s, c, name);
            &&& t.out == s.out + enum_shape(unit, t, c, name)
            &&& same_names(t, type_text(unit, s, unit.info(c).integer_ty, c, false).0)
            &&& t.visited == s.visited.insert(name)
            &&& t.recurse_defs == s.recurse_defs
            &&& t.unnamed_decl == s.unnamed_decl
            &&& grows(s, t)
        }),
{
    let t = enum_written(unit, s, c, name);
    step_enum(unit, s, c, name);
    step_means(unit, s, t);
    step_refl(unit, t);
    step_means(unit, t, t);
    enum_takes_shape(unit, s, c, name, t);
}

/// Every constant has a line with its name and its value behind the enumeration
/// that is written.
#[verifier::rlimit(60)]
pub proof fn every_constant_has_its_line(
    unit: TranslationUnit,
    s: CtxView,
    c: CXCursor,
    name: Seq<char>,
    k: int,
)
    requires
        unit.wf(),
        unit.holds(c),
        !s.visited.contains(name),
        0 <= k < unit.info(c).children@.len(),
        unit.kind(unit.info(c).children@[k]) == CXCursorKind::EnumConstantDecl,
    ensures
        ({
            let t = enum_written(unit, s, c, name);
            let d = unit.info(c).children@[k];
            let value = signed_decimal(unit.info(d).value as int);
            if unit.info(c).integer_ty.kind == CXTypeKind::Int {
                occurs_in(
                    t.out,
                    "const "@ + unit.spelling(d) + ": "@ + "i32"@ + " = "@ + value + "_"@ + "i32"@
                        + ";"@ + "\n"@,
                )
            } else {
                occurs_in(
                    t.out,
                    "const "@ + unit.spelling(d) + ": "@ + "u32"@ + " = "@ + value + "_"@ + "u32"@
                        + ";"@ + "\n"@,
                )
            }
        }),
{
    let t = enum_written(unit, s, c, name);
    enumerations_list_their_constants(unit, s, c, name);
    let children = unit.info(c).children@;
    let constants = constants_among(unit, children);
    let p = |x: CXCursor| unit.kind(x) == CXCursorKind::EnumConstantDecl;
    children.lemma_filter_contains(p, k);
    let j = choose|j: int| 0 <= j < constants.len() && constants[j] == children[k];
    let lines = constant_lines(unit, c, constants);
    rows_hold_their_lines(lines, j);
    let head = "type "@ + name + " = "@ + type_text(
        unit,
        t,
        unit.info(c).integer_ty,
        c,
        false,
    ).1 + ";"@ + "\n"@;
    let a = s.out + head + lines.take(j).flatten();
    assert(t.out =~= a + lines[j] + lines.skip(j + 1).flatten());
    occurrences_are_infixes(t.out, lines[j]);
}

// ---- unions, declarations and recursion wrappers ----

/// The text of a union.
pub open spec fn union_shape(name: Seq<char>) -> Seq<char> {
    "type "@ + name + " = c_void /* FIXME: union type */;\n"@ + "\n"@
}

/// The text of a declaration without a definition.
pub open spec fn opaque_shape(name: Seq<char>) -> Seq<char> {
    "type "@ + name + " = c_void;\n"@ + "\n"@
}

/// The text of a recursion wrapper: an enumeration of the type itself and of
/// its instance.
pub open spec fn wrapper_shape(name: Seq<char>) -> Seq<char> {
    "enum enum_recurse_"@ + name + " {\n"@ + "    rec_"@ + name + "("@ + name + "),\n"@
        + "    inst_"@ + name + "\n}\n"@ + "\n"@
}

/// A union that is written under a new name is an untyped one with a comment,
/// and nothing else changes.
pub proof fn unions_are_untyped(s: CtxView, name: Seq<char>)
    requires
        !s.visited.contains(name),
    ensures
        union_written(s, name) == (CtxView {
            out: s.out + union_shape(name),
            visited: s.visited.insert(name),
            ..s
        }),
{
    assert(union_written(s, name).out =~= s.out + union_shape(name));
}

/// A recursion wrapper is written once for each name, holds the type under its
/// own name, and nothing else changes.
pub proof fn wrappers_hold_their_type(s: CtxView, name: Seq<char>)
    ensures
        s.recurse_defs.contains(name) ==> wrapper_written(s, name) == s,
        !s.recurse_defs.contains(name) ==> wrapper_written(s, name) == (CtxView {
            out: s.out + wrapper_shape(name),
            recurse_defs: s.recurse_defs.insert(name),
            ..s
        }),
{
    if !s.recurse_defs.contains(name) {
        reveal_strlit(" {\n    rec_");
        reveal_strlit(" {\n");
        reveal_strlit("    rec_");
        reveal_strlit("),\n    inst_");
        reveal_strlit("),\n");
        reveal_strlit("    inst_");
        assert(" {\n    rec_"@ =~= " {\n"@ + "    rec_"@);
        assert("),\n    inst_"@ =~= "),\n"@ + "    inst_"@);
        assert(wrapper_written(s, name).out =~= s.out + wrapper_shape(name));
    }
}

/// A declaration without a definition is written once under its name, as an
/// untyped one, and nothing but the name changes otherwise.
pub proof fn opaque_declarations_are_untyped(unit: TranslationUnit, s: CtxView, c: CXCursor)
    ensures
        ({
            let (m, name) = named(unit, s, c);
            &&& s.visited.contains(name) ==> opaque_written(unit, s, c) == m
            &&& !s.visited.contains(name) ==> opaque_written(unit, s, c) == (CtxView {
                out: s.out + opaque_shape(name),
                visited: s.visited.insert(name),
                ..m
            })
        }),
{
    let (m, name) = named(unit, s, c);
    if !s.visited.contains(name) {
        assert(opaque_written(unit, s, c).out =~= s.out + opaque_shape(name));
    }
}

/// No definition is written under a name that is taken.
pub proof fn taken_names_are_left_alone(
    unit: TranslationUnit,
    s: CtxView,
    c: CXCursor,
    name: Seq<char>,
)
    requires
        s.visited.contains(name),
    ensures
        struct_written(unit, s, c, name) == s,
        union_written(s, name) == s,
        enum_written(unit, s, c, name) == s,
{
}

/// What is asked to be written for a cursor is written, whatever it is.
pub proof fn definitions_are_what_was_asked_for(
    unit: TranslationUnit,
    s: CtxView,
    c: CXCursor,
    name: Seq<char>,
)
    ensures
        definition_written(unit, s, Definition::Struct, c, name) == struct_written(
            unit,
            s,
            c,
            name,
        ),
        definition_written(unit, s, Definition::Union, c, name) == union_written(s, name),
        definition_written(unit, s, Definition::Enum, c, name) == enum_written(unit, s, c, name),
        definition_written(unit, s, Definition::RecurseEnum, c, name) == wrapper_written(s, name),
{
}

/// A declaration is told apart by its definition: where it is the definition
/// and has a spelling, what was asked for is written under its name; where it
/// has none, it is noted, once; where there is no definition, it is written as
/// an untyped one; and where the definition is elsewhere, nothing is done. What
/// comes after it is written in each case, under the same name.
pub proof fn declarations_are_told_apart(
    unit: TranslationUnit,
    s: CtxView,
    c: CXCursor,
    what: Definition,
    after: Definition,
)
    ensures
        ({
            let t = forward_written(unit, s, c, what, None);
            let def = unit.info(c).definition;
            let missing = unit.kind(def) == CXCursorKind::NoDeclFound || unit.kind(def)
                == CXCursorKind::InvalidFile;
            let (m, name) = named(unit, s, c);
            let (d, again) = named(unit, t, c);
            &&& def == c && unit.spelling(c).len() != 0 ==> t == definition_written(
                unit,
                m,
                what,
                c,
                name,
            )
            &&& def == c && unit.spelling(c).len() == 0 && s.unnamed_decl.pending.contains_key(
                c.id,
            ) ==> t == s
            &&& def == c && unit.spelling(c).len() == 0 && !s.unnamed_decl.pending.contains_key(
                c.id,
            ) ==> t == (CtxView {
                unnamed_decl: DeclTableView {
                    order: s.unnamed_decl.order.push(c),
                    pending: s.unnamed_decl.pending.insert(c.id, true),
                },
                ..s
            })
            &&& def != c && missing ==> t == opaque_written(unit, s, c)
            &&& def != c && !missing ==> t == s
            &&& forward_written(unit, s, c, what, Some(after)) == definition_written(
                unit,
                d,
                after,
                c,
                again,
            )
        }),
{
}

/// A type is written as an untyped one if it is a struct, union or enumeration
/// without a definition, and otherwise not at all.
pub proof fn only_undefined_types_are_opaque(unit: TranslationUnit, s: CtxView, ty: CXType)
    ensures
        ({
            let def = unit.info(ty.decl).definition;
            let missing = unit.kind(def) == CXCursorKind::NoDeclFound || unit.kind(def)
                == CXCursorKind::InvalidFile;
            let tag = ty.kind == CXTypeKind::Record || ty.kind == CXTypeKind::Enum;
            &&& tag && missing ==> opaque_type_written(unit, s, ty) == opaque_written(
                unit,
                s,
                ty.decl,
            )
            &&& !tag || !missing ==> opaque_type_written(unit, s, ty) == s
        }),
{
}

// ---- what a visit writes ----

/// A text, or nothing.
pub open spec fn only_if(here: bool, text: Seq<char>) -> Seq<char> {
    if here {
        text
    } else {
        Seq::empty()
    }
}

/// The text of a struct, union or enumeration.
pub open spec fn tag_shape(
    unit: TranslationUnit,
    t: CtxView,
    c: CXCursor,
    name: Seq<char>,
) -> Seq<char> {
    match unit.kind(c) {
        CXCursorKind::StructDecl => struct_shape(unit, t, c, name),
        CXCursorKind::UnionDecl => union_shape(name),
        _ => enum_shape(unit, t, c, name),
    }
}

/// The state in which the names are known that the text of a struct, union or
/// enumeration brings along.
pub open spec fn tag_named(unit: TranslationUnit, s: CtxView, c: CXCursor) -> CtxView {
    match unit.kind(c) {
        CXCursorKind::StructDecl => converted(
            unit,
            s,
            field_types(unit, fields_among(unit, unit.info(c).children@)),
            true,
        ),
        CXCursorKind::UnionDecl => s,
        _ => type_text(unit, s, unit.info(c).integer_ty, c, false).0,
    }
}

/// The table with a new entry behind the others, or with an entry changed.
pub open spec fn noted(t: DeclTableView, c: CXCursor, needed: bool) -> DeclTableView {
    DeclTableView {
        order: if t.pending.contains_key(c.id) {
            t.order
        } else {
            t.order.push(c)
        },
        pending: t.pending.insert(c.id, needed),
    }
}

proof fn tag_named_by_names(unit: TranslationUnit, s: CtxView, t: CtxView, c: CXCursor)
    requires
        same_names(s, t),
        s.keywords == t.keywords,
    ensures
        same_names(tag_named(unit, s, c), tag_named(unit, t, c)),
{
    let types = field_types(unit, fields_among(unit, unit.info(c).children@));
    converted_by_names(unit, s, t, types, true);
    types_go_by_the_names(unit, s, t, unit.info(c).integer_ty, c, false);
}

/// What is written for a struct, union or enumeration, seen from any later
/// state: its text, unless the name is taken.
proof fn tag_takes_shape(
    unit: TranslationUnit,
    s: CtxView,
    c: CXCursor,
    name: Seq<char>,
    what: Definition,
    u: CtxView,
)
    requires
        unit.wf(),
        unit.holds(c),
        what == Definition::Struct && unit.kind(c) == CXCursorKind::StructDecl || what
            == Definition::Union && unit.kind(c) == CXCursorKind::UnionDecl || what
            == Definition::Enum && unit.kind(c) == CXCursorKind::EnumDecl,
        grows(definition_written(unit, s, what, c, name), u),
    ensures
        ({
            let t = definition_written(unit, s, what, c, name);
            &&& t.out == s.out + only_if(
                !s.visited.contains(name),
                tag_shape(unit, u, c, name),
            )
            &&& same_names(
                t,
                if s.visited.contains(name) {
                    s
                } else {
                    tag_named(unit, s, c)
                },
            )
            &&& t.visited == s.visited.insert(name)
            &&& t.recurse_defs == s.recurse_defs
            &&& t.unnamed_decl == s.unnamed_decl
            &&& grows(s, t)
        }),
{
    let t = definition_written(unit, s, what, c, name);
    step_definition(unit, s, what, c, name);
    step_means(unit, s, t);
    if s.visited.contains(name) {
        taken_names_are_left_alone(unit, s, c, name);
        assert(s.visited.insert(name) =~= s.visited);
        assert(s.out + Seq::<char>::empty() =~= s.out);
    } else {
        match what {
            Definition::Struct => struct_takes_shape(unit, s, c, name, u),
            Definition::Union => unions_are_untyped(s, name),
            _ => enum_takes_shape(unit, s, c, name, u),
        }
    }
}

/// A struct, union or enumeration in a file that matches. With its definition
/// in place and a spelling, it is written under its name; without a definition
/// anywhere, it is written as an untyped one; either only if the name is not
/// taken. A definition without a spelling is noted. Behind a struct stands its
/// recursion wrapper, if it is not there yet, and behind an enumeration a blank
/// line.
#[verifier::rlimit(60)]
pub proof fn tags_are_written(unit: TranslationUnit, s: CtxView, c: CXCursor)
    requires
        unit.wf(),
        unit.holds(c),
        file_matches(unit, s.patterns, c),
        unit.kind(c) == CXCursorKind::StructDecl || unit.kind(c) == CXCursorKind::UnionDecl
            || unit.kind(c) == CXCursorKind::EnumDecl,
    ensures
        ({
            let (t, next) = visited(unit, s, Pass::Types, c);
            let name = named(unit, s, c).1;
            let def = unit.info(c).definition;
            let missing = unit.kind(def) == CXCursorKind::NoDeclFound || unit.kind(def)
                == CXCursorKind::InvalidFile;
            let whole = def == c && unit.spelling(c).len() != 0;
            let opaque = def != c && missing;
            let anonymous = def == c && unit.spelling(c).len() == 0;
            let is_struct = unit.kind(c) == CXCursorKind::StructDecl;
            &&& t.out == s.out + only_if(
                whole && !s.visited.contains(name),
                tag_shape(unit, t, c, name),
            ) + only_if(opaque && !s.visited.contains(name), opaque_shape(name)) + only_if(
                is_struct && !s.recurse_defs.contains(name),
                wrapper_shape(name),
            ) + only_if(unit.kind(c) == CXCursorKind::EnumDecl, "\n"@)
            &&& t.visited == if whole || opaque {
                s.visited.insert(name)
            } else {
                s.visited
            }
            &&& t.recurse_defs == if is_struct {
                s.recurse_defs.insert(name)
            } else {
                s.recurse_defs
            }
            &&& t.unnamed_decl == if anonymous && !s.unnamed_decl.pending.contains_key(c.id) {
                noted(s.unnamed_decl, c, true)
            } else {
                s.unnamed_decl
            }
            &&& whole || opaque || is_struct ==> t.name.contains_key(c.id) && t.name[c.id] == name
            &&& same_names(
                t,
                if whole && !s.visited.contains(name) {
                    tag_named(unit, named(unit, s, c).0, c)
                } else if whole || opaque || is_struct {
                    named(unit, s, c).0
                } else {
                    s
                },
            )
            &&& grows(s, t)
            &&& next == if unit.kind(c) == CXCursorKind::EnumDecl {
                CXChildVisitResult::Continue
            } else {
                CXChildVisitResult::Recurse
            }
        }),
{
    let t = visited(unit, s, Pass::Types, c).0;
    let what = match unit.kind(c) {
        CXCursorKind::StructDecl => Definition::Struct,
        CXCursorKind::UnionDecl => Definition::Union,
        _ => Definition::Enum,
    };
    let (m, name) = named(unit, s, c);
    let def = unit.info(c).definition;
    let whole = def == c && unit.spelling(c).len() != 0;
    let opaque = def != c && is_missing(unit.kind(def));
    let d = declared(unit, s, c, what);
    step_visited(unit, s, Pass::Types, c);
    step_means(unit, s, t);
    step_named(unit, s, c);
    step_definition(unit, m, what, c, name);
    step_means(unit, m, definition_written(unit, m, what, c, name));
    step_opaque(unit, s, c);
    step_means(unit, m, opaque_written(unit, s, c));
    opaque_declarations_are_untyped(unit, s, c);
    assert(m.name.contains_key(c.id) && m.name[c.id] == name);
    let (d1, again) = named(unit, d, c);
    assert(again == name);
    wrappers_hold_their_type(d1, name);
    step_named(unit, d, c);
    step_means(unit, d, d1);
    step_wrapper(unit, d1, name);
    step_means(unit, d1, wrapper_written(d1, name));
    step_wrote(unit, d, ""@);
    step_means(unit, d, wrote_line(d, ""@));
    step_refl(unit, d);
    step_means(unit, d, d);
    grows_trans(d, d1, wrapper_written(d1, name));
    assert(grows(d, t));
    let first = only_if(whole && !s.visited.contains(name), tag_shape(unit, t, c, name));
    let second = only_if(opaque && !s.visited.contains(name), opaque_shape(name));
    if whole {
        tag_takes_shape(unit, m, c, name, what, t);
    } else if opaque && s.visited.contains(name) {
        assert(s.visited.insert(name) =~= s.visited);
    }
    assert(d.out =~= s.out + first + second);
    reveal_strlit("");
    if what == Definition::Struct {
        if d.recurse_defs.contains(name) {
            assert(s.recurse_defs.insert(name) =~= s.recurse_defs);
        }
        assert(t.out =~= d.out + only_if(!s.recurse_defs.contains(name), wrapper_shape(name)));
    } else if what == Definition::Enum {
        assert(t.out =~= d.out + "\n"@);
    }
    let third = only_if(
        what == Definition::Struct && !s.recurse_defs.contains(name),
        wrapper_shape(name),
    );
    let fourth = only_if(what == Definition::Enum, "\n"@);
    assert(t.out =~= s.out + first + second + third + fourth);
}

/// A variable in a file that matches is commented on, once for each symbol, and
/// nothing else changes.
pub proof fn variables_are_commented_on(unit: TranslationUnit, s: CtxView, c: CXCursor)
    requires
        file_matches(unit, s.patterns, c),
        unit.kind(c) == CXCursorKind::VarDecl,
    ensures
        ({
            let (t, next) = visited(unit, s, Pass::Types, c);
            let name = unit.spelling(c);
            &&& next == CXChildVisitResult::Continue
            &&& t == (CtxView {
                out: s.out + only_if(
                    !s.visited.contains(name),
                    "/* FIXME: global variable "@ + name + " */\n"@ + "\n"@,
                ),
                visited: s.visited.insert(name),
                ..s
            })
        }),
{
    let t = visited(unit, s, Pass::Types, c).0;
    let name = unit.spelling(c);
    if s.visited.contains(name) {
        assert(s.visited.insert(name) =~= s.visited);
        assert(s.out + Seq::<char>::empty() =~= s.out);
    } else {
        assert(t.out =~= s.out + ("/* FIXME: global variable "@ + name + " */\n"@ + "\n"@));
    }
}

/// Nothing is written for the rest of a header in the walk for types: a
/// function or a field is passed over with what is below it, and of anything
/// else what is below it is visited.
pub proof fn other_cursors_have_no_types(unit: TranslationUnit, s: CtxView, c: CXCursor)
    requires
        file_matches(unit, s.patterns, c),
    ensures
        ({
            let r = visited(unit, s, Pass::Types, c);
            &&& unit.kind(c) == CXCursorKind::FunctionDecl || unit.kind(c)
                == CXCursorKind::FieldDecl ==> r == (s, CXChildVisitResult::Continue)
            &&& unit.kind(c) == CXCursorKind::EnumConstantDecl || unit.kind(c)
                == CXCursorKind::InvalidFile || unit.kind(c) == CXCursorKind::NoDeclFound
                || unit.kind(c) == CXCursorKind::Other ==> r == (s, CXChildVisitResult::Recurse)
        }),
{
}

// ---- typedefs ----

/// What a typedef stands for: the type behind it, or the canonical one where
/// that is unexposed.
pub open spec fn aliased(unit: TranslationUnit, c: CXCursor) -> CXType {
    let ty = unit.info(c).underlying_ty;
    if ty.kind == CXTypeKind::Unexposed && ty.canonical is Some {
        *ty.canonical->0
    } else {
        ty
    }
}

/// Whether a typedef stands for an anonymous definition.
pub open spec fn names_anonymous(unit: TranslationUnit, c: CXCursor) -> bool {
    let decl = aliased(unit, c).decl;
    unit.info(decl).is_definition && unit.spelling(decl).len() == 0
}

/// A typedef of an anonymous struct, union or enumeration is that definition,
/// written under the name of the typedef unless that is taken; the definition
/// needs no other name then.
#[verifier::rlimit(60)]
pub proof fn typedefs_name_anonymous_definitions(unit: TranslationUnit, s: CtxView, c: CXCursor)
    requires
        unit.wf(),
        unit.holds(c),
        file_matches(unit, s.patterns, c),
        unit.kind(c) == CXCursorKind::TypedefDecl,
        names_anonymous(unit, c),
        unit.kind(aliased(unit, c).decl) == CXCursorKind::StructDecl || unit.kind(
            aliased(unit, c).decl,
        ) == CXCursorKind::UnionDecl || unit.kind(aliased(unit, c).decl)
            == CXCursorKind::EnumDecl,
    ensures
        ({
            let (t, next) = visited(unit, s, Pass::Types, c);
            let decl = aliased(unit, c).decl;
            let name = escaped(s, unit.spelling(c));
            let is_enum = unit.kind(decl) == CXCursorKind::EnumDecl;
            &&& t.out == s.out + only_if(
                !s.visited.contains(name),
                tag_shape(unit, t, decl, name),
            ) + only_if(is_enum, "\n"@)
            &&& same_names(
                t,
                if s.visited.contains(name) {
                    s
                } else {
                    tag_named(unit, s, decl)
                },
            )
            &&& t.visited == s.visited.insert(name)
            &&& t.recurse_defs == s.recurse_defs
            &&& t.unnamed_decl == noted(s.unnamed_decl, decl, false)
            &&& grows(s, t)
            &&& next == if is_enum {
                CXChildVisitResult::Continue
            } else {
                CXChildVisitResult::Recurse
            }
        }),
{
    let t = visited(unit, s, Pass::Types, c).0;
    let decl = aliased(unit, c).decl;
    let name = escaped(s, unit.spelling(c));
    typedef_type_ok(unit, c);
    step_visited(unit, s, Pass::Types, c);
    step_means(unit, s, t);
    let s1 = CtxView { unnamed_decl: s.unnamed_decl.insert(decl, false), ..s };
    let what = match unit.kind(decl) {
        CXCursorKind::StructDecl => Definition::Struct,
        CXCursorKind::UnionDecl => Definition::Union,
        _ => Definition::Enum,
    };
    let d = definition_written(unit, s1, what, decl, name);
    step_wrote(unit, d, ""@);
    step_means(unit, d, wrote_line(d, ""@));
    step_refl(unit, d);
    step_means(unit, d, d);
    tag_takes_shape(unit, s1, decl, name, what, t);
    tag_named_by_names(unit, s, s1, decl);
    reveal_strlit("");
    let first = only_if(!s.visited.contains(name), tag_shape(unit, t, decl, name));
    assert(d.out == s.out + first);
    if what == Definition::Enum {
        assert(t.out =~= d.out + "\n"@);
    }
    assert(t.out =~= s.out + first + only_if(what == Definition::Enum, "\n"@));
}

/// Any other typedef is another name of its type: under its name, unless that
/// is taken, stands the text for the type, and if that type is declared and has
/// no definition, the declaration is written behind it, unless its name is
/// taken.
#[verifier::rlimit(60)]
pub proof fn typedefs_are_other_names(unit: TranslationUnit, s: CtxView, c: CXCursor)
    requires
        unit.wf(),
        unit.holds(c),
        file_matches(unit, s.patterns, c),
        unit.kind(c) == CXCursorKind::TypedefDecl,
        !names_anonymous(unit, c) || unit.kind(aliased(unit, c).decl)
            != CXCursorKind::StructDecl && unit.kind(aliased(unit, c).decl)
            != CXCursorKind::UnionDecl && unit.kind(aliased(unit, c).decl)
            != CXCursorKind::EnumDecl,
        !s.visited.contains(unit.spelling(c)),
    ensures
        ({
            let (t, next) = visited(unit, s, Pass::Types, c);
            let ty = aliased(unit, c);
            let def = unit.info(ty.decl).definition;
            let name = unit.spelling(c);
            let opaque = (ty.kind == CXTypeKind::Record || ty.kind == CXTypeKind::Enum) && (
            unit.kind(def) == CXCursorKind::NoDeclFound || unit.kind(def)
                == CXCursorKind::InvalidFile);
            &&& t.out == s.out + ("type "@ + escaped(s, name) + " = "@ + type_text(
                unit,
                t,
                ty,
                c,
                false,
            ).1 + ";\n"@ + "\n"@) + only_if(
                opaque && !s.visited.insert(name).contains(t.name[ty.decl.id]),
                opaque_shape(t.name[ty.decl.id]),
            )
            &&& same_names(
                t,
                if opaque {
                    named(unit, type_text(unit, s, ty, c, false).0, ty.decl).0
                } else {
                    type_text(unit, s, ty, c, false).0
                },
            )
            &&& t.visited == if opaque {
                s.visited.insert(name).insert(t.name[ty.decl.id])
            } else {
                s.visited.insert(name)
            }
            &&& t.recurse_defs == s.recurse_defs
            &&& t.unnamed_decl == if names_anonymous(unit, c) {
                noted(s.unnamed_decl, ty.decl, false)
            } else {
                s.unnamed_decl
            }
            &&& grows(s, t)
            &&& next == CXChildVisitResult::Continue
        }),
{
    let t = visited(unit, s, Pass::Types, c).0;
    let ty = aliased(unit, c);
    let name = unit.spelling(c);
    typedef_type_ok(unit, c);
    step_visited(unit, s, Pass::Types, c);
    step_means(unit, s, t);
    let s0 = if names_anonymous(unit, c) {
        CtxView { unnamed_decl: s.unnamed_decl.insert(ty.decl, false), ..s }
    } else {
        s
    };
    let s1 = visit_sym(s0, name);
    let (s2, text) = type_text(unit, s1, ty, c, false);
    type_text_names(unit, s1, ty, c, false);
    types_go_by_the_names(unit, s, s1, ty, c, false);
    let line = "type "@ + escaped(s, name) + " = "@ + text + ";\n"@;
    let s3 = wrote_line(s2, line);
    step_wrote(unit, s2, line);
    step_opaque(unit, s3, ty.decl);
    step_refl(unit, s3);
    step_trans(unit, s2, s3, opaque_written(unit, s3, ty.decl));
    step_means(unit, s2, t);
    types_are_converted_alike(unit, s1, ty, c, false, t);
    opaque_declarations_are_untyped(unit, s3, ty.decl);
    let (m, decl_name) = named(unit, s3, ty.decl);
    assert(m.name.contains_key(ty.decl.id) && m.name[ty.decl.id] == decl_name);
    assert(s3.out =~= s.out + (line + "\n"@));
    assert(s3.out + Seq::<char>::empty() =~= s3.out);
    if s3.visited.contains(decl_name) {
        assert(s3.visited.insert(decl_name) =~= s3.visited);
    }
}

/// A typedef under a name that is taken is not written.
pub proof fn taken_typedefs_are_left_alone(unit: TranslationUnit, s: CtxView, c: CXCursor)
    requires
        file_matches(unit, s.patterns, c),
        unit.kind(c) == CXCursorKind::TypedefDecl,
        !names_anonymous(unit, c) || unit.kind(aliased(unit, c).decl)
            != CXCursorKind::StructDecl && unit.kind(aliased(unit, c).decl)
            != CXCursorKind::UnionDecl && unit.kind(aliased(unit, c).decl)
            != CXCursorKind::EnumDecl,
        s.visited.contains(unit.spelling(c)),
    ensures
        visited(unit, s, Pass::Types, c).1 == CXChildVisitResult::Continue,
        visited(unit, s, Pass::Types, c).0 == if names_anonymous(unit, c) {
            CtxView { unnamed_decl: noted(s.unnamed_decl, aliased(unit, c).decl, false), ..s }
        } else {
            s
        },
{
}

proof fn text_begins(
    a: Seq<char>,
    b: Seq<char>,
    c: Seq<char>,
    text: Seq<char>,
    rest: Seq<char>,
)
    requires
        text.len() > 0,
    ensures
        (a + b + (c + text.take(1))).is_prefix_of(a + (b + c + text + rest)),
{
    let front = a + b + (c + text.take(1));
    assert((a + (b + c + text + rest)).subrange(0, front.len() as int) =~= front);
}

/// A typedef of a pointer is a pointer.
#[verifier::rlimit(60)]
pub proof fn typedefs_of_pointers_are_pointers(unit: TranslationUnit, s: CtxView, c: CXCursor)
    requires
        unit.wf(),
        unit.holds(c),
        file_matches(unit, s.patterns, c),
        unit.kind(c) == CXCursorKind::TypedefDecl,
        !names_anonymous(unit, c),
        !s.visited.contains(unit.spelling(c)),
        aliased(unit, c).kind == CXTypeKind::Pointer,
    ensures
        (s.out + "type "@ + escaped(s, unit.spelling(c)) + " = *"@).is_prefix_of(
            visited(unit, s, Pass::Types, c).0.out,
        ),
{
    let t = visited(unit, s, Pass::Types, c).0;
    let ty = aliased(unit, c);
    typedef_type_ok(unit, c);
    typedefs_are_other_names(unit, s, c);
    pointers_begin_with_a_star(unit, t, ty, c, false);
    let text = type_text(unit, t, ty, c, false).1;
    let id = escaped(s, unit.spelling(c));
    reveal_strlit(" = ");
    reveal_strlit(" = *");
    assert(" = *"@ =~= " = "@ + text.take(1));
    text_begins(s.out, "type "@ + id, " = "@, text, ";\n"@ + "\n"@);
    assert(s.out + "type "@ + id + " = *"@ =~= s.out + ("type "@ + id) + (" = "@ + text.take(1)));
    assert(t.out =~= s.out + (("type "@ + id) + " = "@ + text + (";\n"@ + "\n"@)));
}

// ---- functions ----

/// The arguments of a function, each with its number and its type, with a comma
/// between neighbours.
pub open spec fn argument_texts(
    unit: TranslationUnit,
    t: CtxView,
    args: Seq<CXType>,
    c: CXCursor,
) -> Seq<Seq<char>> {
    Seq::new(
        args.len(),
        |i: int|
            only_if(i > 0, ", "@) + "++arg"@ + decimal(i as nat) + ": "@ + type_text(
                unit,
                t,
                args[i],
                c,
                false,
            ).1,
    )
}

/// The text of a function: its name, its arguments, and its result if it has
/// one.
pub open spec fn function_shape(unit: TranslationUnit, t: CtxView, c: CXCursor) -> Seq<char> {
    let ty = unit.info(c).ty;
    let result = unit.info(c).result_ty;
    "fn "@ + escaped(t, unit.spelling(c)) + "("@ + argument_texts(unit, t, ty.args@, c).flatten()
        + only_if(ty.variadic, "/* FIXME: variadic function */"@) + ")"@ + only_if(
        result.kind != CXTypeKind::Void,
        " -> "@ + type_text(unit, t, result, c, false).1,
    ) + ";\n"@ + "\n"@
}

/// The argument types of a function, each with the function.
pub open spec fn argument_types(args: Seq<CXType>, c: CXCursor) -> Seq<(CXType, CXCursor)> {
    Seq::new(args.len(), |i: int| (args[i], c))
}

/// The state in which the names are known that a function brings along.
pub open spec fn function_named(unit: TranslationUnit, s: CtxView, c: CXCursor) -> CtxView {
    let m = converted(unit, s, argument_types(unit.info(c).ty.args@, c), false);
    if unit.info(c).result_ty.kind != CXTypeKind::Void {
        type_text(unit, m, unit.info(c).result_ty, c, false).0
    } else {
        m
    }
}

#[verifier::rlimit(60)]
proof fn arguments_take_shape(
    unit: TranslationUnit,
    s: CtxView,
    args: Seq<CXType>,
    c: CXCursor,
    n: nat,
    u: CtxView,
)
    requires
        unit.wf(),
        unit.holds(c),
        n <= args.len(),
        forall|i: int| 0 <= i < args.len() ==> type_ok(#[trigger] args[i], unit.cursors@.len()),
        grows(args_written(unit, s, args, c, n), u),
    ensures
        args_written(unit, s, args, c, n).out == s.out + argument_texts(
            unit,
            u,
            args.take(n as int),
            c,
        ).flatten(),
        same_names(
            args_written(unit, s, args, c, n),
            converted(unit, s, argument_types(args.take(n as int), c), false),
        ),
        args_written(unit, s, args, c, n).keywords == s.keywords,
    decreases n,
{
    if n == 0 {
        reveal(Seq::fold_left);
        assert(argument_types(args.take(0), c) =~= seq![]);
        assert(argument_texts(unit, u, args.take(0), c) =~= seq![]);
        assert(s.out + Seq::<char>::empty() =~= s.out);
    } else {
        let m = args_written(unit, s, args, c, n);
        let before = args_written(unit, s, args, c, (n - 1) as nat);
        let b1 = if n > 1 {
            wrote(before, ", "@)
        } else {
            before
        };
        let ty = args[n - 1];
        let (b2, text) = type_text(unit, b1, ty, c, false);
        let arg = "++arg"@ + decimal((n - 1) as nat) + ": "@ + text;
        step_refl(unit, before);
        step_wrote(unit, before, ", "@);
        step_type_text(unit, b1, ty, c, false);
        step_wrote(unit, b2, arg);
        step_trans(unit, before, b1, b2);
        step_trans(unit, before, b2, m);
        step_means(unit, before, m);
        step_means(unit, b2, m);
        grows_trans(before, m, u);
        grows_trans(b2, m, u);
        type_text_names(unit, b1, ty, c, false);
        types_are_converted_alike(unit, b1, ty, c, false, u);
        arguments_take_shape(unit, s, args, c, (n - 1) as nat, u);
        let types = argument_types(args.take(n - 1), c);
        assert(argument_types(args.take(n as int), c) =~= types.push((ty, c)));
        one_more_is_converted(unit, s, types, ty, c, false);
        converting_changes_names_only(unit, s, types, false);
        types_go_by_the_names(unit, b1, converted(unit, s, types, false), ty, c, false);
        let front = argument_texts(unit, u, args.take(n - 1), c);
        let last = only_if(n > 1, ", "@) + arg;
        assert(argument_texts(unit, u, args.take(n as int), c) =~= front.push(
            argument_texts(unit, u, args.take(n as int), c)[n - 1],
        ));
        assert(argument_texts(unit, u, args.take(n as int), c)[n - 1] =~= last);
        front.lemma_flatten_push(last);
        assert(m.out =~= before.out + last);
        assert(m.out =~= s.out + (front.flatten() + last));
    }
}

/// An external function in a file that matches is declared, unless its symbol
/// is taken: with all its arguments in order, each with its number and its
/// type, and with its result; nothing else is written.
#[verifier::rlimit(60)]
pub proof fn functions_are_declared_in_full(unit: TranslationUnit, s: CtxView, c: CXCursor)
    requires
        unit.wf(),
        unit.holds(c),
        file_matches(unit, s.patterns, c),
        unit.kind(c) == CXCursorKind::FunctionDecl,
        unit.info(c).linkage == CXLinkageKind::External || unit.info(c).linkage
            == CXLinkageKind::UniqueExternal,
        !s.visited.contains(unit.spelling(c)),
    ensures
        ({
            let (t, next) = visited(unit, s, Pass::Functions, c);
            &&& t.out == s.out + function_shape(unit, t, c)
            &&& same_names(t, function_named(unit, s, c))
            &&& t.visited == s.visited.insert(unit.spelling(c))
            &&& t.recurse_defs == s.recurse_defs
            &&& t.unnamed_decl == s.unnamed_decl
            &&& grows(s, t)
            &&& next == CXChildVisitResult::Continue
        }),
{
    let t = visited(unit, s, Pass::Functions, c).0;
    let info = unit.info(c);
    let args = info.ty.args@;
    assert(cursor_ok(info, c.id as int, unit.cursors@.len()));
    step_visited(unit, s, Pass::Functions, c);
    step_means(unit, s, t);
    let s0 = visit_sym(s, unit.spelling(c));
    step_function(unit, s0, c);
    let head = "fn "@ + escaped(s, unit.spelling(c)) + "("@;
    let s1 = wrote(s0, head);
    let s2 = args_written(unit, s1, args, c, args.len());
    args_mute(unit, s1, args, c, args.len());
    let s3 = if info.ty.variadic {
        wrote(s2, "/* FIXME: variadic function */"@)
    } else {
        s2
    };
    let s4 = wrote(s3, ")"@);
    let (before, text) = type_text(unit, s4, info.result_ty, c, false);
    type_text_names(unit, s4, info.result_ty, c, false);
    let s5 = if info.result_ty.kind != CXTypeKind::Void {
        wrote(before, " -> "@ + text)
    } else {
        s4
    };
    step_refl(unit, s2);
    step_wrote(unit, s2, "/* FIXME: variadic function */"@);
    step_wrote(unit, s3, ")"@);
    step_type_text(unit, s4, info.result_ty, c, false);
    step_wrote(unit, before, " -> "@ + text);
    step_refl(unit, s4);
    step_trans(unit, s4, before, wrote(before, " -> "@ + text));
    step_wrote(unit, s5, ";\n"@);
    step_trans(unit, s2, s3, s4);
    step_trans(unit, s2, s4, s5);
    step_trans(unit, s2, s5, t);
    step_means(unit, s2, t);
    arguments_take_shape(unit, s1, args, c, args.len(), t);
    assert(args.take(args.len() as int) =~= args);
    if info.result_ty.kind != CXTypeKind::Void {
        step_trans(unit, before, wrote(before, " -> "@ + text), t);
        step_means(unit, before, t);
        types_are_converted_alike(unit, s4, info.result_ty, c, false, t);
    }
    let types = argument_types(args, c);
    let named_args = converted(unit, s, types, false);
    converted_by_names(unit, s, s1, types, false);
    converting_changes_names_only(unit, s, types, false);
    types_go_by_the_names(unit, s4, named_args, info.result_ty, c, false);
    assert(t.out =~= s.out + function_shape(unit, t, c));
}

/// Nothing is written in the walk for functions for a symbol that is taken, for
/// what is not external, nor for anything but a function; below that, if it is
/// external, the walk goes on.
pub proof fn other_cursors_have_no_functions(unit: TranslationUnit, s: CtxView, c: CXCursor)
    requires
        file_matches(unit, s.patterns, c),
    ensures
        ({
            let r = visited(unit, s, Pass::Functions, c);
            let external = unit.info(c).linkage == CXLinkageKind::External || unit.info(c).linkage
                == CXLinkageKind::UniqueExternal;
            let is_function = unit.kind(c) == CXCursorKind::FunctionDecl;
            &&& !external ==> r == (s, CXChildVisitResult::Continue)
            &&& external && !is_function ==> r == (s, CXChildVisitResult::Recurse)
            &&& external && is_function && s.visited.contains(unit.spelling(c)) ==> r == (
                s,
                CXChildVisitResult::Continue,
            )
        }),
{
}

// ---- anonymous definitions ----

/// An anonymous struct, union or enumeration that no typedef named is written
/// under the name that is made up for it, and behind an enumeration stands a
/// blank line.
#[verifier::rlimit(60)]
pub proof fn anonymous_definitions_are_written(unit: TranslationUnit, s: CtxView, c: CXCursor)
    requires
        unit.wf(),
        unit.holds(c),
        unit.kind(c) == CXCursorKind::StructDecl || unit.kind(c) == CXCursorKind::UnionDecl
            || unit.kind(c) == CXCursorKind::EnumDecl,
    ensures
        ({
            let t = unnamed_written(unit, s, c);
            let name = named(unit, s, c).1;
            &&& t.out == s.out + only_if(
                !s.visited.contains(name),
                tag_shape(unit, t, c, name),
            ) + only_if(unit.kind(c) == CXCursorKind::EnumDecl, "\n"@)
            &&& same_names(
                t,
                if s.visited.contains(name) {
                    named(unit, s, c).0
                } else {
                    tag_named(unit, named(unit, s, c).0, c)
                },
            )
            &&& t.visited == s.visited.insert(name)
            &&& t.recurse_defs == s.recurse_defs
            &&& t.unnamed_decl == s.unnamed_decl
            &&& t.name.contains_key(c.id)
            &&& t.name[c.id] == name
            &&& grows(s, t)
        }),
{
    let t = unnamed_written(unit, s, c);
    let (m, name) = named(unit, s, c);
    step_unnamed_written(unit, s, c);
    step_means(unit, s, t);
    let what = match unit.kind(c) {
        CXCursorKind::StructDecl => Definition::Struct,
        CXCursorKind::UnionDecl => Definition::Union,
        _ => Definition::Enum,
    };
    let d = definition_written(unit, m, what, c, name);
    step_definition(unit, m, what, c, name);
    step_means(unit, m, d);
    step_wrote(unit, d, ""@);
    step_means(unit, d, wrote_line(d, ""@));
    step_refl(unit, d);
    step_means(unit, d, d);
    assert(m.name.contains_key(c.id));
    tag_takes_shape(unit, m, c, name, what, t);
    reveal_strlit("");
    let first = only_if(!s.visited.contains(name), tag_shape(unit, t, c, name));
    if what == Definition::Enum {
        assert(t.out =~= d.out + "\n"@);
    }
    assert(t.out =~= s.out + first + only_if(what == Definition::Enum, "\n"@));
}

} // verus!
