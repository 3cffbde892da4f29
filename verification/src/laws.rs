//! What holds of every run.

use crate::args::{
    destination, is_help, is_option, no_settings, scan, scan_all, takes_operand, with_clang_arg,
    with_option, ScanEnd, Settings,
};
use crate::bindings::{
    bindings_written, functions_written, headed, is_error, opened, pending_written, step_pending,
    types_written, Severity,
};
use crate::clang::{
    cursor_ok, type_ok, CXChildVisitResult, CXCursor, CXCursorKind, CXType, CXTypeKind,
    TranslationUnit,
};
use crate::ctx::{
    file_matches, fresh, identifier, named, visit_sym, wrote_line, CtxView, DeclTableView,
};
use crate::coverage::{
    functions_spoken, pending_speaks, reached, reached_is_visited, says, says_function, spoken,
    spoken_trans, type_text_names, walks_speak,
};
use crate::decls::{
    declared, definition_written, enum_written, forward_written, is_missing, opaque_written,
    struct_written, union_written, wrapper_text, Definition,
};
use crate::growth::{
    grows, grows_trans, inv, is_nameless, nameless, names_ok, quiet, quiet_trans, step,
    step_alias, step_definition, step_enum, step_function, step_insert, step_means, step_named,
    step_opaque, step_refl, step_struct, step_trans, step_type_text, step_union,
    step_unnamed_written, step_visited, step_walked, step_wrapper, step_wrote, table_held,
    typedef_type_ok,
};
use crate::origin::{
    found, functions_are_traced, has_name, sym_of, sym_of_still, typedef_symbol, types_are_traced,
    wrapper_of,
};
use crate::text::{occurrences_are_infixes, occurs_in};
use crate::types::type_text;
use crate::visit::{
    alias_written, function_written, is_anonymous_definition, is_external, type_visited,
    typedef_type, typedef_visited, unnamed_written, visited, walked, walked_below, Pass,
};
use vstd::prelude::*;

verus! {

// ---- the command line ----

/// What follows a complete command line is read with the settings so far.
proof fn scan_continues(
    args: Seq<Seq<char>>,
    more: Seq<Seq<char>>,
    ix: int,
    acc: Settings,
    failed: Option<nat>,
)
    requires
        0 <= ix <= args.len(),
        scan(args, ix, acc, failed).0 == ScanEnd::Done,
    ensures
        scan(args + more, ix, acc, failed) == scan(
            args + more,
            args.len() as int,
            scan(args, ix, acc, failed).1,
            failed,
        ),
    decreases args.len() - ix,
{
    if ix < args.len() {
        assert((args + more)[ix] == args[ix]);
        if takes_operand(args[ix]) {
            assert((args + more)[ix + 1] == args[ix + 1]);
            scan_continues(
                args,
                more,
                ix + 2,
                with_option(acc, args[ix], args[ix + 1]),
                failed,
            );
        } else {
            scan_continues(args, more, ix + 1, with_clang_arg(acc, args[ix]), failed);
        }
    }
}

proof fn options_take_no_help(option: Seq<char>)
    requires
        takes_operand(option),
    ensures
        !is_help(option),
{
    reveal_strlit("--help");
    reveal_strlit("-h");
    reveal_strlit("-o");
    reveal_strlit("-l");
    reveal_strlit("-match");
    assert(option[1] == 'o' || option[1] == 'l' || option[1] == 'm');
}

/// An option with its operand, behind a complete command line, adds to the
/// settings and leaves the rest as it was: a later link name or output file
/// takes the place of an earlier one, and a pattern joins the others.
pub proof fn option_adds_to_settings(
    args: Seq<Seq<char>>,
    option: Seq<char>,
    operand: Seq<char>,
    failed: Option<nat>,
)
    requires
        scan_all(args, failed).0 == ScanEnd::Done,
        takes_operand(option),
        option == "-o"@ ==> failed != Some(scan_all(args, failed).1.outputs.len()),
    ensures
        scan_all(args + seq![option, operand], failed) == (
            ScanEnd::Done,
            with_option(scan_all(args, failed).1, option, operand),
        ),
{
    reveal_with_fuel(scan, 2);
    options_take_no_help(option);
    let more = seq![option, operand];
    scan_continues(args, more, 0, no_settings(), failed);
    let all = args + more;
    assert(all[args.len() as int] == option);
    assert(all[args.len() as int + 1] == operand);
}

/// Options other than the program's own are passed to clang, in their order.
pub proof fn other_options_are_passed_to_clang(
    args: Seq<Seq<char>>,
    arg: Seq<char>,
    failed: Option<nat>,
)
    requires
        scan_all(args, failed).0 == ScanEnd::Done,
        !is_option(arg),
    ensures
        scan_all(args + seq![arg], failed) == (
            ScanEnd::Done,
            with_clang_arg(scan_all(args, failed).1, arg),
        ),
{
    reveal_with_fuel(scan, 2);
    let more = seq![arg];
    scan_continues(args, more, 0, no_settings(), failed);
    assert((args + more)[args.len() as int] == arg);
}

/// A command line with none of the program's own options is passed to clang as
/// a whole.
pub proof fn plain_arguments_are_passed_to_clang(args: Seq<Seq<char>>, failed: Option<nat>)
    requires
        forall|i: int| 0 <= i < args.len() ==> !is_option(#[trigger] args[i]),
    ensures
        scan_all(args, failed) == (ScanEnd::Done, Settings { clang_args: args, ..no_settings() }),
    decreases args.len(),
{
    if args.len() != 0 {
        let front = args.drop_last();
        plain_arguments_are_passed_to_clang(front, failed);
        other_options_are_passed_to_clang(front, args.last(), failed);
        assert(front + seq![args.last()] =~= args);
        assert(front.push(args.last()) =~= args);
    }
}

/// A request for help is met, whatever stands behind it.
pub proof fn help_ends_the_reading(
    args: Seq<Seq<char>>,
    help: Seq<char>,
    rest: Seq<Seq<char>>,
    failed: Option<nat>,
)
    requires
        scan_all(args, failed).0 == ScanEnd::Done,
        is_help(help),
    ensures
        scan_all(args + (seq![help] + rest), failed).0 == ScanEnd::Help,
{
    let more = seq![help] + rest;
    scan_continues(args, more, 0, no_settings(), failed);
    assert((args + more)[args.len() as int] == help);
}

/// An empty command line asks for nothing.
pub proof fn nothing_is_set_at_first(failed: Option<nat>)
    ensures
        scan_all(seq![], failed).0 == ScanEnd::Done,
        scan_all(seq![], failed).1.clang_args == Seq::<Seq<char>>::empty(),
        scan_all(seq![], failed).1.patterns == Seq::<Seq<char>>::empty(),
        scan_all(seq![], failed).1.outputs == Seq::<Seq<char>>::empty(),
        scan_all(seq![], failed).1.link == Seq::<char>::empty(),
{
}

/// `-l` sets the link name, `-match` adds a pattern and `-o` an output file that
/// can be opened, each with the argument behind it, and each leaves everything
/// else as it was.
pub proof fn options_set_what_they_say(
    args: Seq<Seq<char>>,
    operand: Seq<char>,
    failed: Option<nat>,
)
    requires
        scan_all(args, failed).0 == ScanEnd::Done,
    ensures
        ({
            let was = scan_all(args, failed).1;
            &&& scan_all(args + seq!["-l"@, operand], failed) == (
                ScanEnd::Done,
                Settings { link: operand, ..was },
            )
            &&& scan_all(args + seq!["-match"@, operand], failed) == (
                ScanEnd::Done,
                Settings { patterns: was.patterns.push(operand), ..was },
            )
            &&& failed != Some(was.outputs.len()) ==> scan_all(
                args + seq!["-o"@, operand],
                failed,
            ) == (ScanEnd::Done, Settings { outputs: was.outputs.push(operand), ..was })
        }),
{
    reveal_strlit("-o");
    reveal_strlit("-l");
    reveal_strlit("-match");
    assert("-o"@[1] == 'o' && "-l"@[1] == 'l' && "-match"@[1] == 'm');
    option_adds_to_settings(args, "-l"@, operand, failed);
    option_adds_to_settings(args, "-match"@, operand, failed);
    if failed != Some(scan_all(args, failed).1.outputs.len()) {
        option_adds_to_settings(args, "-o"@, operand, failed);
    }
}

/// The reading ends at an output file that cannot be opened, whatever stands
/// behind it, with the settings so far.
pub proof fn a_failed_output_ends_the_reading(
    args: Seq<Seq<char>>,
    file: Seq<char>,
    rest: Seq<Seq<char>>,
    nth: nat,
)
    requires
        scan_all(args, Some(nth)).0 == ScanEnd::Done,
        scan_all(args, Some(nth)).1.outputs.len() == nth,
    ensures
        scan_all(args + (seq!["-o"@, file] + rest), Some(nth)) == (
            ScanEnd::Failed,
            scan_all(args, Some(nth)).1,
        ),
{
    let more = seq!["-o"@, file] + rest;
    options_take_no_help("-o"@);
    scan_continues(args, more, 0, no_settings(), Some(nth));
    assert((args + more)[args.len() as int] == "-o"@);
}

/// An option at the end of a command line lacks its operand.
pub proof fn an_option_needs_its_operand(
    args: Seq<Seq<char>>,
    option: Seq<char>,
    failed: Option<nat>,
)
    requires
        scan_all(args, failed).0 == ScanEnd::Done,
        option == "-o"@ || option == "-l"@ || option == "-match"@,
    ensures
        scan_all(args + seq![option], failed) == (ScanEnd::Overrun, scan_all(args, failed).1),
{
    let more = seq![option];
    options_take_no_help(option);
    scan_continues(args, more, 0, no_settings(), failed);
    assert((args + more)[args.len() as int] == option);
}

/// The reading ends at a request for help, in either form, whatever stands
/// behind it, with the settings so far.
pub proof fn help_comes_in_two_forms(
    args: Seq<Seq<char>>,
    rest: Seq<Seq<char>>,
    failed: Option<nat>,
)
    requires
        scan_all(args, failed).0 == ScanEnd::Done,
    ensures
        scan_all(args + (seq!["--help"@] + rest), failed) == (
            ScanEnd::Help,
            scan_all(args, failed).1,
        ),
        scan_all(args + (seq!["-h"@] + rest), failed) == (
            ScanEnd::Help,
            scan_all(args, failed).1,
        ),
{
    let long = seq!["--help"@] + rest;
    let short = seq!["-h"@] + rest;
    scan_continues(args, long, 0, no_settings(), failed);
    scan_continues(args, short, 0, no_settings(), failed);
    assert((args + long)[args.len() as int] == "--help"@);
    assert((args + short)[args.len() as int] == "-h"@);
}

/// Whatever is none of the five options goes to clang, behind what already
/// does, and leaves everything else as it was.
pub proof fn the_rest_goes_to_clang(
    args: Seq<Seq<char>>,
    arg: Seq<char>,
    failed: Option<nat>,
)
    requires
        scan_all(args, failed).0 == ScanEnd::Done,
        arg != "--help"@,
        arg != "-h"@,
        arg != "-o"@,
        arg != "-l"@,
        arg != "-match"@,
    ensures
        ({
            let was = scan_all(args, failed).1;
            scan_all(args + seq![arg], failed) == (
                ScanEnd::Done,
                Settings { clang_args: was.clang_args.push(arg), ..was },
            )
        }),
{
    other_options_are_passed_to_clang(args, arg, failed);
}

/// The bindings go to the output file that was named last, and without one to
/// none.
pub proof fn the_last_output_is_written_to(outputs: Seq<Seq<char>>, file: Seq<char>)
    ensures
        destination(Seq::empty()) == None::<Seq<char>>,
        destination(outputs.push(file)) == Some(file),
{
}

/// A run starts with what was asked for, and with nothing written, named, noted
/// or recorded.
pub proof fn runs_start_from_nothing(
    patterns: Seq<Seq<char>>,
    link: Seq<char>,
    out_file: Option<Seq<char>>,
    keywords: Set<Seq<char>>,
)
    ensures
        ({
            let s = fresh(patterns, link, out_file, keywords);
            &&& s.patterns == patterns
            &&& s.link == link
            &&& s.out_file == out_file
            &&& s.keywords == keywords
            &&& s.out.len() == 0
            &&& s.name.dom() == Set::<usize>::empty()
            &&& s.visited == Set::<Seq<char>>::empty()
            &&& s.recurse_defs == Set::<Seq<char>>::empty()
            &&& s.unnamed_decl.order.len() == 0
            &&& s.unnamed_decl.pending.dom() == Set::<usize>::empty()
            &&& s.unnamed_ty == 0
            &&& s.unnamed_field == 0
        }),
{
}

/// Only errors and what is worse keep a header from being bound to.
pub proof fn errors_and_worse_count(severity: Severity)
    ensures
        severity == Severity::Error || severity == Severity::Fatal ==> is_error(severity),
        severity == Severity::Ignored || severity == Severity::Note || severity
            == Severity::Warning ==> !is_error(severity),
{
}

// ---- headers ----

/// A type is in order if its declaration exists, its parts are in order, and it
/// has the part that its kind needs.
pub proof fn types_are_made_of_types_in_order(ty: CXType, n: nat)
    requires
        ty.decl.id < n,
        ty.kind == CXTypeKind::Pointer ==> ty.pointee is Some,
        ty.kind == CXTypeKind::ConstantArray ==> ty.element is Some,
        ty.pointee is Some ==> type_ok(*ty.pointee->0, n),
        ty.element is Some ==> type_ok(*ty.element->0, n),
        ty.result is Some ==> type_ok(*ty.result->0, n),
        ty.canonical is Some ==> type_ok(*ty.canonical->0, n),
        forall|i: int| 0 <= i < ty.args@.len() ==> type_ok(#[trigger] ty.args@[i], n),
    ensures
        type_ok(ty, n),
{
}

/// A header is in order if its root exists and the references of each of its
/// cursors lead somewhere, those to children further to the front.
pub proof fn headers_are_made_of_cursors_in_order(unit: TranslationUnit)
    requires
        unit.root.id < unit.cursors@.len(),
        forall|i: int|
            0 <= i < unit.cursors@.len() ==> {
                let c = #[trigger] unit.cursors@[i];
                &&& c.definition.id < unit.cursors@.len()
                &&& type_ok(c.ty, unit.cursors@.len())
                &&& type_ok(c.result_ty, unit.cursors@.len())
                &&& type_ok(c.underlying_ty, unit.cursors@.len())
                &&& type_ok(c.integer_ty, unit.cursors@.len())
            },
        forall|i: int, k: int|
            0 <= i < unit.cursors@.len() && 0 <= k < unit.cursors@[i].children@.len() ==> (
            #[trigger] unit.cursors@[i].children@[k]).id < i,
    ensures
        unit.wf(),
{
}

/// What is known of a cursor stands in its record.
pub proof fn records_are_found_by_number(unit: TranslationUnit, c: CXCursor)
    ensures
        unit.holds(c) == (c.id < unit.cursors@.len()),
        unit.info(c) == unit.cursors@[c.id as int],
        unit.kind(c) == unit.cursors@[c.id as int].kind,
        unit.spelling(c) == unit.cursors@[c.id as int].spelling@,
{
}

/// An entry in the table of anonymous definitions is found again, the others
/// stay as they were, and a new one comes last.
pub proof fn entries_are_kept(t: DeclTableView, c: CXCursor, needed: bool, id: usize)
    ensures
        ({
            let u = t.insert(c, needed);
            &&& u.pending.contains_key(c.id)
            &&& u.pending[c.id] == needed
            &&& id != c.id ==> u.pending.contains_key(id) == t.pending.contains_key(id)
            &&& id != c.id && t.pending.contains_key(id) ==> u.pending[id] == t.pending[id]
            &&& t.pending.contains_key(c.id) ==> u.order == t.order
            &&& !t.pending.contains_key(c.id) ==> u.order == t.order.push(c)
        }),
{
}

// ---- files ----

/// A cursor is bound to if it stands in a file, and there are no patterns or
/// the name of the file is one of them with something, or nothing, on each
/// side.
pub proof fn files_match_by_their_name(
    unit: TranslationUnit,
    patterns: Seq<Seq<char>>,
    c: CXCursor,
)
    ensures
        unit.info(c).file is None ==> !file_matches(unit, patterns, c),
        unit.info(c).file is Some && patterns.len() == 0 ==> file_matches(unit, patterns, c),
        unit.info(c).file is Some && patterns.len() != 0 ==> (file_matches(unit, patterns, c)
            <==> exists|i: int, a: Seq<char>, b: Seq<char>|
            0 <= i < patterns.len() && unit.info(c).file->0@ == #[trigger] (a + patterns[i] + b)),
{
    if let Some(file) = unit.info(c).file {
        if patterns.len() != 0 && file_matches(unit, patterns, c) {
            let i = choose|i: int|
                0 <= i < patterns.len() && occurs_in(file@, #[trigger] patterns[i]);
            occurrences_are_infixes(file@, patterns[i]);
            let (a, b) = choose|a: Seq<char>, b: Seq<char>|
                file@ == #[trigger] (a + patterns[i] + b);
            assert(file@ == a + patterns[i] + b);
        }
        if exists|i: int, a: Seq<char>, b: Seq<char>|
            0 <= i < patterns.len() && file@ == #[trigger] (a + patterns[i] + b) {
            let (i, a, b) = choose|i: int, a: Seq<char>, b: Seq<char>|
                0 <= i < patterns.len() && file@ == #[trigger] (a + patterns[i] + b);
            occurrences_are_infixes(file@, patterns[i]);
            assert(occurs_in(file@, patterns[i]));
        }
    }
}

/// Definitions from files that match no pattern are left out: visiting them
/// changes nothing, and nothing below them is visited.
pub proof fn other_files_are_left_out(unit: TranslationUnit, s: CtxView, pass: Pass, c: CXCursor)
    requires
        !file_matches(unit, s.patterns, c),
    ensures
        visited(unit, s, pass, c) == (s, CXChildVisitResult::Continue),
{
}

/// Files that match any pattern are bound to: with more patterns, no file is
/// lost.
pub proof fn more_patterns_match_more(
    unit: TranslationUnit,
    patterns: Seq<Seq<char>>,
    more: Seq<Seq<char>>,
    c: CXCursor,
)
    requires
        patterns.len() != 0,
    ensures
        file_matches(unit, patterns + more, c) == (file_matches(unit, patterns, c) || (more.len()
            != 0 && file_matches(unit, more, c))),
{
    if let Some(file) = unit.info(c).file {
        let all = patterns + more;
        if file_matches(unit, patterns, c) {
            let i = choose|i: int|
                0 <= i < patterns.len() && occurs_in(file@, #[trigger] patterns[i]);
            assert(all[i] == patterns[i]);
        }
        if more.len() != 0 && file_matches(unit, more, c) {
            let i = choose|i: int| 0 <= i < more.len() && occurs_in(file@, #[trigger] more[i]);
            assert(all[patterns.len() + i] == more[i]);
        }
        if file_matches(unit, all, c) {
            let i = choose|i: int| 0 <= i < all.len() && occurs_in(file@, #[trigger] all[i]);
            if i < patterns.len() {
                assert(all[i] == patterns[i]);
            } else {
                assert(all[i] == more[i - patterns.len()]);
            }
        }
    }
}

proof fn walk_of_other_files(unit: TranslationUnit, s: CtxView, pass: Pass, c: CXCursor, n: nat)
    requires
        unit.wf(),
        unit.holds(c),
        n <= unit.info(c).children@.len(),
        forall|d: CXCursor| unit.holds(d) ==> !#[trigger] file_matches(unit, s.patterns, d),
    ensures
        walked(unit, s, pass, c, n) == s,
    decreases n,
{
    if n != 0 {
        walk_of_other_files(unit, s, pass, c, (n - 1) as nat);
        let child = unit.info(c).children@[n - 1];
        assert(cursor_ok(unit.info(c), c.id as int, unit.cursors@.len()));
        assert(unit.holds(child));
        other_files_are_left_out(unit, s, pass, child);
    }
}

/// If no file matches, the bindings are an empty frame.
pub proof fn no_match_no_bindings(unit: TranslationUnit, s: CtxView)
    requires
        unit.wf(),
        s.unnamed_decl == DeclTableView::empty(),
        forall|d: CXCursor| unit.holds(d) ==> !#[trigger] file_matches(unit, s.patterns, d),
    ensures
        bindings_written(unit, s).out == s.out + "/* automatically generated by rust-bindgen */\n"@
            + "\n"@ + "import libc::*;\n"@ + "\n"@ + "#[link_name=\""@ + s.link + "\"]"@ + "\n"@
            + "native mod bindgen {\n"@ + "\n"@ + "}"@ + "\n"@,
{
    let all = unit.info(unit.root).children@.len();
    let s2 = headed(s);
    walk_of_other_files(unit, s2, Pass::Types, unit.root, all);
    assert(types_written(unit, s) == s2);
    let s3 = opened(s2);
    walk_of_other_files(unit, s3, Pass::Functions, unit.root, all);
    assert(bindings_written(unit, s) == wrote_line(s3, "}"@));
}

/// Only definitions from files that match are bound to: every symbol that a run
/// records is one of a cursor that a walk comes to in a file that matches.
pub proof fn only_matching_files_are_bound(unit: TranslationUnit, s: CtxView, sym: Seq<char>)
    requires
        unit.wf(),
        s.unnamed_decl == DeclTableView::empty(),
        bindings_written(unit, s).visited.contains(sym),
        !s.visited.contains(sym),
    ensures
        exists|pass: Pass, c: CXCursor| #[trigger]
            reached(unit, s.patterns, pass, c) && file_matches(unit, s.patterns, c) && sym_of(
                unit,
                bindings_written(unit, s),
                pass,
                c,
                sym,
            ),
{
    let all = unit.info(unit.root).children@.len();
    let t = types_written(unit, s);
    let u = bindings_written(unit, s);
    runs_grow(unit, s);
    if t.visited.contains(sym) {
        types_are_traced(unit, s);
        let c = choose|c: CXCursor| #[trigger]
            sym_of(unit, t, Pass::Types, c, sym) && found(
                unit,
                s.patterns,
                Pass::Types,
                unit.root,
                all,
                c,
            );
        sym_of_still(unit, t, u, Pass::Types, c, sym);
        assert(reached(unit, s.patterns, Pass::Types, c));
    } else {
        functions_are_traced(unit, t);
        let c = choose|c: CXCursor| #[trigger]
            sym_of(unit, u, Pass::Functions, c, sym) && found(
                unit,
                s.patterns,
                Pass::Functions,
                unit.root,
                all,
                c,
            );
        assert(reached(unit, s.patterns, Pass::Functions, c));
    }
}

/// Only structs from files that match have a recursion wrapper.
pub proof fn only_matching_structs_are_wrapped(
    unit: TranslationUnit,
    s: CtxView,
    name: Seq<char>,
)
    requires
        unit.wf(),
        s.unnamed_decl == DeclTableView::empty(),
        bindings_written(unit, s).recurse_defs.contains(name),
        !s.recurse_defs.contains(name),
    ensures
        exists|c: CXCursor| #[trigger]
            reached(unit, s.patterns, Pass::Types, c) && file_matches(unit, s.patterns, c)
                && unit.kind(c) == CXCursorKind::StructDecl && has_name(
                bindings_written(unit, s),
                c,
                name,
            ),
{
    let t = types_written(unit, s);
    runs_grow(unit, s);
    types_are_traced(unit, s);
    functions_are_traced(unit, t);
    let c = choose|c: CXCursor| #[trigger]
        wrapper_of(unit, t, Pass::Types, c, name) && found(
            unit,
            s.patterns,
            Pass::Types,
            unit.root,
            unit.info(unit.root).children@.len(),
            c,
        );
    sym_of_still(unit, t, bindings_written(unit, s), Pass::Types, c, name);
    assert(reached(unit, s.patterns, Pass::Types, c));
}

// ---- names ----

/// A word that cannot be a name never comes out as one, as long as no such
/// word begins with an underscore.
pub proof fn identifiers_are_no_keywords(s: CtxView, name: Seq<char>)
    requires
        forall|k: Seq<char>| #[trigger] s.keywords.contains(k) && k.len() > 0 ==> k[0] != '_',
    ensures
        !s.keywords.contains(identifier(s, name)),
{
    reveal_strlit("_");
    if s.keywords.contains(name) {
        assert(("_"@ + name)[0] == '_');
    }
}

/// A declaration keeps the name that it got, for the rest of the run.
pub proof fn names_are_kept(unit: TranslationUnit, s: CtxView, c: CXCursor, t: CtxView)
    requires
        grows(named(unit, s, c).0, t),
    ensures
        named(unit, t, c) == (t, named(unit, s, c).1),
{
    assert(named(unit, s, c).0.name.contains_key(c.id));
}

/// The state in which a run starts is in order.
pub proof fn fresh_in_order(
    unit: TranslationUnit,
    patterns: Seq<Seq<char>>,
    link: Seq<char>,
    out_file: Option<Seq<char>>,
    keywords: Set<Seq<char>>,
)
    ensures
        inv(unit, fresh(patterns, link, out_file, keywords)),
{
    assert(nameless(unit, fresh(patterns, link, out_file, keywords)) =~= Set::empty());
}

// ---- the run as a whole ----

/// While the names are in order, the count of made-up names does not fall.
pub proof fn made_up_names_are_not_counted_back(unit: TranslationUnit, s: CtxView, t: CtxView)
    requires
        names_ok(unit, s),
        names_ok(unit, t),
        grows(s, t),
    ensures
        s.unnamed_ty <= t.unnamed_ty,
{
    let was = nameless(unit, s);
    let now = nameless(unit, t);
    assert forall|id: usize| #[trigger] was.contains(id) implies now.contains(id) by {
        assert(s.name.contains_key(id));
    }
    vstd::set_lib::lemma_len_subset(was, now);
}

/// To write the lines in front of the types is a step, and so is to open the
/// module.
proof fn step_frame(unit: TranslationUnit, s: CtxView)
    ensures
        quiet(unit, s, headed(s)),
        quiet(unit, s, opened(s)),
{
    let a = "/* automatically generated by rust-bindgen */\n"@;
    let b = "#[link_name=\""@ + s.link + "\"]"@;
    step_wrote(unit, s, a);
    step_wrote(unit, wrote_line(s, a), "import libc::*;\n"@);
    quiet_trans(unit, s, wrote_line(s, a), headed(s));
    step_wrote(unit, s, b);
    step_wrote(unit, wrote_line(s, b), "native mod bindgen {\n"@);
    quiet_trans(unit, s, wrote_line(s, b), opened(s));
}

/// Writing the types is a step.
proof fn step_types(unit: TranslationUnit, s: CtxView)
    requires
        unit.wf(),
        table_held(unit, s.unnamed_decl),
    ensures
        step(unit, s, types_written(unit, s)),
{
    let s2 = headed(s);
    let s3 = walked_below(unit, s2, Pass::Types, unit.root);
    let s4 = types_written(unit, s);
    step_frame(unit, s);
    step_walked(unit, s2, Pass::Types, unit.root, unit.info(unit.root).children@.len());
    step_trans(unit, s, s2, s3);
    step_means(unit, s, s3);
    step_pending(unit, s3, s3.unnamed_decl.order.len());
    step_trans(unit, s, s3, s4);
}

/// Writing the functions is a step.
proof fn step_functions(unit: TranslationUnit, s: CtxView)
    requires
        unit.wf(),
    ensures
        step(unit, s, functions_written(unit, s)),
{
    let s2 = opened(s);
    let s3 = walked_below(unit, s2, Pass::Functions, unit.root);
    step_frame(unit, s);
    step_walked(unit, s2, Pass::Functions, unit.root, unit.info(unit.root).children@.len());
    step_trans(unit, s, s2, s3);
    step_wrote(unit, s3, "}"@);
    step_trans(unit, s, s3, wrote_line(s3, "}"@));
}

/// A run only adds to what there is, and keeps it in order: the names of
/// declarations are the ones due to them, no two made-up names are the same,
/// and each anonymous definition is noted once.
pub proof fn runs_grow(unit: TranslationUnit, s: CtxView)
    requires
        unit.wf(),
        table_held(unit, s.unnamed_decl),
    ensures
        grows(s, types_written(unit, s)),
        grows(types_written(unit, s), bindings_written(unit, s)),
        grows(s, bindings_written(unit, s)),
        inv(unit, s) ==> {
            &&& inv(unit, bindings_written(unit, s))
            &&& s.unnamed_ty <= bindings_written(unit, s).unnamed_ty
        },
{
    let t = types_written(unit, s);
    let u = bindings_written(unit, s);
    step_types(unit, s);
    step_functions(unit, t);
    step_trans(unit, s, t, u);
    step_means(unit, s, t);
    step_means(unit, t, u);
    step_means(unit, s, u);
    if inv(unit, s) {
        made_up_names_are_not_counted_back(unit, s, u);
    }
}

/// A visit only adds to what there is, and keeps it in order.
pub proof fn visits_grow(unit: TranslationUnit, s: CtxView, pass: Pass, c: CXCursor)
    requires
        unit.wf(),
        unit.holds(c),
    ensures
        grows(s, visited(unit, s, pass, c).0),
        inv(unit, s) ==> {
            &&& inv(unit, visited(unit, s, pass, c).0)
            &&& s.unnamed_ty <= visited(unit, s, pass, c).0.unnamed_ty
        },
{
    step_visited(unit, s, pass, c);
    step_means(unit, s, visited(unit, s, pass, c).0);
    if inv(unit, s) {
        made_up_names_are_not_counted_back(unit, s, visited(unit, s, pass, c).0);
    }
}

/// Converting a type writes nothing and keeps the names in order; the count of
/// made-up names only grows.
pub proof fn types_only_add_names(
    unit: TranslationUnit,
    s: CtxView,
    ty: CXType,
    c: CXCursor,
    wrap: bool,
)
    requires
        unit.wf(),
        type_ok(ty, unit.cursors@.len()),
    ensures
        ({
            let t = type_text(unit, s, ty, c, wrap).0;
            &&& grows(s, t)
            &&& t == (CtxView { name: t.name, unnamed_ty: t.unnamed_ty, ..s })
            &&& names_ok(unit, s) ==> names_ok(unit, t) && s.unnamed_ty <= t.unnamed_ty
        }),
{
    let t = type_text(unit, s, ty, c, wrap).0;
    type_text_names(unit, s, ty, c, wrap);
    step_type_text(unit, s, ty, c, wrap);
    step_means(unit, s, t);
    if names_ok(unit, s) {
        made_up_names_are_not_counted_back(unit, s, t);
    }
}

/// In a run from the start, two anonymous declarations never share a name.
pub proof fn made_up_names_differ(
    unit: TranslationUnit,
    patterns: Seq<Seq<char>>,
    link: Seq<char>,
    out_file: Option<Seq<char>>,
    keywords: Set<Seq<char>>,
    a: CXCursor,
    b: CXCursor,
)
    requires
        unit.wf(),
        a != b,
        unit.spelling(a).len() == 0,
        unit.spelling(b).len() == 0,
    ensures
        ({
            let t = bindings_written(unit, fresh(patterns, link, out_file, keywords));
            t.name.contains_key(a.id) && t.name.contains_key(b.id) ==> t.name[a.id]
                != t.name[b.id]
        }),
{
    let s = fresh(patterns, link, out_file, keywords);
    let t = bindings_written(unit, s);
    fresh_in_order(unit, patterns, link, out_file, keywords);
    runs_grow(unit, s);
    assert(names_ok(unit, t));
    assert(CXCursor { id: a.id } == a);
    assert(CXCursor { id: b.id } == b);
    assert(is_nameless(unit, a.id) && is_nameless(unit, b.id));
    assert(a.id != b.id);
    if t.name.contains_key(a.id) && t.name.contains_key(b.id) {
        assert(t.name[a.id] != t.name[b.id]);
    }
}

// ---- each symbol once ----

/// A symbol is defined once: after a definition under a name, no other of any
/// kind is written under it, then or later in the run.
pub proof fn symbols_are_defined_once(
    unit: TranslationUnit,
    s: CtxView,
    what: Definition,
    c: CXCursor,
    name: Seq<char>,
    t: CtxView,
    again: Definition,
    d: CXCursor,
)
    requires
        unit.wf(),
        unit.holds(c),
        (what == Definition::RecurseEnum) == (again == Definition::RecurseEnum),
        grows(definition_written(unit, s, what, c, name), t),
    ensures
        definition_written(unit, t, again, d, name) == t,
{
    step_definition(unit, s, what, c, name);
}

/// A declaration without a definition is written once.
pub proof fn opaque_declarations_are_written_once(
    unit: TranslationUnit,
    s: CtxView,
    c: CXCursor,
    t: CtxView,
)
    requires
        unit.holds(c),
        grows(opaque_written(unit, s, c), t),
    ensures
        opaque_written(unit, t, c) == t,
{
    step_opaque(unit, s, c);
    step_means(unit, named(unit, s, c).0, opaque_written(unit, s, c));
    grows_trans(named(unit, s, c).0, opaque_written(unit, s, c), t);
    names_are_kept(unit, s, c, t);
}

/// Whether visiting a cursor for its types ends in a blank line.
pub open spec fn ends_in_blank_line(unit: TranslationUnit, c: CXCursor) -> bool {
    let decl = typedef_type(unit, c).decl;
    ||| unit.kind(c) == CXCursorKind::EnumDecl
    ||| unit.kind(c) == CXCursorKind::TypedefDecl && is_anonymous_definition(unit, decl)
        && unit.kind(decl) == CXCursorKind::EnumDecl
}

/// Visiting a cursor again adds nothing, at once or later in the run, apart
/// from the blank line behind an enumeration.
pub proof fn visiting_again_adds_nothing(
    unit: TranslationUnit,
    s: CtxView,
    pass: Pass,
    c: CXCursor,
    t: CtxView,
)
    requires
        unit.wf(),
        unit.holds(c),
        grows(visited(unit, s, pass, c).0, t),
    ensures
        visited(unit, t, pass, c) == (
            if pass == Pass::Types && file_matches(unit, t.patterns, c) && ends_in_blank_line(
                unit,
                c,
            ) {
                wrote_line(t, ""@)
            } else {
                t
            },
            visited(unit, s, pass, c).1,
        ),
{
    let v = visited(unit, s, pass, c).0;
    step_visited(unit, s, pass, c);
    step_means(unit, s, v);
    match pass {
        Pass::Functions => {
            let s1 = visit_sym(s, unit.spelling(c));
            step_function(unit, s1, c);
            step_means(unit, s1, function_written(unit, s1, c));
        },
        Pass::Types => {
            if file_matches(unit, s.patterns, c) {
                match unit.kind(c) {
                    CXCursorKind::StructDecl => {
                        forward_again(
                            unit,
                            s,
                            c,
                            Definition::Struct,
                            Some(Definition::RecurseEnum),
                            t,
                        );
                    },
                    CXCursorKind::UnionDecl => {
                        forward_again(unit, s, c, Definition::Union, None, t);
                    },
                    CXCursorKind::EnumDecl => {
                        let e = forward_written(unit, s, c, Definition::Enum, None);
                        step_wrote(unit, e, ""@);
                        step_means(unit, e, v);
                        grows_trans(e, v, t);
                        forward_again(unit, s, c, Definition::Enum, None, t);
                    },
                    CXCursorKind::TypedefDecl => {
                        typedef_again(unit, s, c, t);
                    },
                    _ => {},
                }
            }
        },
    }
}

proof fn forward_again(
    unit: TranslationUnit,
    s: CtxView,
    c: CXCursor,
    what: Definition,
    after: Option<Definition>,
    t: CtxView,
)
    requires
        unit.wf(),
        unit.holds(c),
        what != Definition::RecurseEnum,
        after is None || after == Some(Definition::RecurseEnum),
        grows(forward_written(unit, s, c, what, after), t),
    ensures
        forward_written(unit, t, c, what, after) == t,
{
    let (s1, name) = named(unit, s, c);
    step_named(unit, s, c);
    step_definition(unit, s1, what, c, name);
    step_means(unit, s1, definition_written(unit, s1, what, c, name));
    step_opaque(unit, s, c);
    let d = declared(unit, s, c, what);
    let (s2, name2) = named(unit, d, c);
    step_named(unit, d, c);
    step_means(unit, d, s2);
    let v = forward_written(unit, s, c, what, after);
    if let Some(more) = after {
        step_definition(unit, s2, more, c, name2);
        step_means(unit, s2, v);
        grows_trans(s2, v, t);
        step_trans(unit, d, s2, v);
    } else {
        step_refl(unit, d);
    }
    step_means(unit, d, v);
    grows_trans(d, v, t);
    // what the first part did is found done
    let def = unit.info(c).definition;
    if c == def && unit.spelling(c).len() != 0 {
        grows_trans(s1, d, t);
        names_are_kept(unit, s, c, t);
    } else if c == def {
        assert(d.unnamed_decl.pending.contains_key(c.id));
    } else if is_missing(unit.kind(def)) {
        opaque_declarations_are_written_once(unit, s, c, t);
    }
    assert(declared(unit, t, c, what) == t);
    if after is Some {
        names_are_kept(unit, d, c, t);
    }
}

proof fn typedef_again(unit: TranslationUnit, s: CtxView, c: CXCursor, t: CtxView)
    requires
        unit.wf(),
        unit.holds(c),
        unit.kind(c) == CXCursorKind::TypedefDecl,
        grows(typedef_visited(unit, s, c).0, t),
    ensures
        typedef_visited(unit, t, c) == (
            if ends_in_blank_line(unit, c) {
                wrote_line(t, ""@)
            } else {
                t
            },
            typedef_visited(unit, s, c).1,
        ),
{
    typedef_type_ok(unit, c);
    let decl = typedef_type(unit, c).decl;
    let name = identifier(s, unit.spelling(c));
    let s1 = CtxView { unnamed_decl: s.unnamed_decl.insert(decl, false), ..s };
    let v = typedef_visited(unit, s, c).0;
    step_insert(unit, s, decl, false);
    step_means(unit, s, s1);
    step_alias(unit, s, c);
    step_means(unit, s, alias_written(unit, s, c));
    step_alias(unit, s1, c);
    step_means(unit, s1, alias_written(unit, s1, c));
    step_struct(unit, s1, decl, name);
    step_means(unit, s1, struct_written(unit, s1, decl, name));
    step_union(unit, s1, name);
    step_means(unit, s1, union_written(s1, name));
    let e = enum_written(unit, s1, decl, name);
    step_enum(unit, s1, decl, name);
    step_means(unit, s1, e);
    assert(t.keywords == s.keywords);
    if is_anonymous_definition(unit, decl) {
        assert(v.unnamed_decl == s1.unnamed_decl);
        assert(v.unnamed_decl.pending.contains_key(decl.id));
        assert(t.unnamed_decl.insert(decl, false) =~= t.unnamed_decl);
        assert(CtxView { unnamed_decl: t.unnamed_decl.insert(decl, false), ..t } == t);
    }
}

// ---- what the bindings hold ----

/// The bindings speak of every symbol that a run records as defined, and of
/// every one that its functions add as of a function, and hold every recursion
/// wrapper that it records.
pub proof fn symbols_are_spoken_of(unit: TranslationUnit, s: CtxView)
    requires
        unit.wf(),
        table_held(unit, s.unnamed_decl),
    ensures
        spoken(s, bindings_written(unit, s)),
        functions_spoken(types_written(unit, s), bindings_written(unit, s)),
{
    let all = unit.info(unit.root).children@.len();
    let s2 = headed(s);
    let s3 = walked_below(unit, s2, Pass::Types, unit.root);
    walks_speak(unit, s2, Pass::Types, unit.root, all);
    step_walked(unit, s2, Pass::Types, unit.root, all);
    step_means(unit, s2, s3);
    pending_speaks(unit, s3, s3.unnamed_decl.order.len());
    step_pending(unit, s3, s3.unnamed_decl.order.len());
    let t = types_written(unit, s);
    step_means(unit, s3, t);
    spoken_trans(s2, s3, t);
    assert(spoken(s, t));
    let t2 = opened(t);
    let t3 = walked_below(unit, t2, Pass::Functions, unit.root);
    walks_speak(unit, t2, Pass::Functions, unit.root, all);
    let u = wrote_line(t3, "}"@);
    step_wrote(unit, t3, "}"@);
    step_means(unit, t3, u);
    spoken_trans(t2, t3, u);
    assert(functions_spoken(t, u));
    assert(spoken(t, u));
    runs_grow(unit, s);
    spoken_trans(s, t, u);
}

/// The state between the visit of a cursor in the walk for types and the end
/// of the run.
proof fn type_visit_lasts(unit: TranslationUnit, s: CtxView, c: CXCursor) -> (m: CtxView)
    requires
        unit.wf(),
        table_held(unit, s.unnamed_decl),
        reached(unit, s.patterns, Pass::Types, c),
    ensures
        unit.holds(c),
        m.patterns == s.patterns,
        m.keywords == s.keywords,
        grows(type_visited(unit, m, c).0, bindings_written(unit, s)),
{
    let all = unit.info(unit.root).children@.len();
    let s2 = headed(s);
    let s3 = walked_below(unit, s2, Pass::Types, unit.root);
    let m = reached_is_visited(unit, s2, Pass::Types, unit.root, all, c);
    step_means(unit, s2, m);
    step_walked(unit, s2, Pass::Types, unit.root, all);
    step_means(unit, s2, s3);
    let v = visited(unit, m, Pass::Types, c).0;
    let t = types_written(unit, s);
    step_pending(unit, s3, s3.unnamed_decl.order.len());
    step_trans(unit, v, s3, t);
    step_functions(unit, t);
    step_trans(unit, v, t, bindings_written(unit, s));
    step_means(unit, v, bindings_written(unit, s));
    m
}

/// Every external function in a file that matches is bound to: the walk for
/// functions records it, and unless its symbol was taken by a type, the
/// bindings declare it.
pub proof fn functions_are_bound(unit: TranslationUnit, s: CtxView, c: CXCursor)
    requires
        unit.wf(),
        table_held(unit, s.unnamed_decl),
        reached(unit, s.patterns, Pass::Functions, c),
        file_matches(unit, s.patterns, c),
        unit.kind(c) == CXCursorKind::FunctionDecl,
        is_external(unit.info(c).linkage),
    ensures
        bindings_written(unit, s).visited.contains(unit.spelling(c)),
        !types_written(unit, s).visited.contains(unit.spelling(c)) ==> says_function(
            bindings_written(unit, s),
            unit.spelling(c),
        ),
{
    let t = types_written(unit, s);
    runs_grow(unit, s);
    let all = unit.info(unit.root).children@.len();
    let t2 = opened(t);
    let t3 = walked_below(unit, t2, Pass::Functions, unit.root);
    let m = reached_is_visited(unit, t2, Pass::Functions, unit.root, all, c);
    step_means(unit, t2, m);
    let v = visited(unit, m, Pass::Functions, c).0;
    let s1 = visit_sym(m, unit.spelling(c));
    step_function(unit, s1, c);
    step_means(unit, s1, function_written(unit, s1, c));
    assert(v.visited.contains(unit.spelling(c)));
    step_means(unit, v, t3);
    symbols_are_spoken_of(unit, s);
}

/// Every struct, union and enumeration in a file that matches is bound to under
/// its name, if it is defined there with a name or defined nowhere, and a
/// struct has its recursion wrapper.
pub proof fn definitions_are_bound(unit: TranslationUnit, s: CtxView, c: CXCursor)
    requires
        unit.wf(),
        table_held(unit, s.unnamed_decl),
        reached(unit, s.patterns, Pass::Types, c),
        file_matches(unit, s.patterns, c),
        unit.kind(c) == CXCursorKind::StructDecl || unit.kind(c) == CXCursorKind::UnionDecl
            || unit.kind(c) == CXCursorKind::EnumDecl,
        if unit.info(c).definition == c {
            unit.spelling(c).len() != 0
        } else {
            is_missing(unit.kind(unit.info(c).definition))
        },
    ensures
        ({
            let u = bindings_written(unit, s);
            &&& u.name.contains_key(c.id)
            &&& u.visited.contains(u.name[c.id])
            &&& !s.visited.contains(u.name[c.id]) ==> says(u, u.name[c.id])
            &&& unit.kind(c) == CXCursorKind::StructDecl ==> {
                &&& u.recurse_defs.contains(u.name[c.id])
                &&& !s.recurse_defs.contains(u.name[c.id]) ==> occurs_in(
                    u.out,
                    wrapper_text(u.name[c.id]),
                )
            }
        }),
{
    let m = type_visit_lasts(unit, s, c);
    let what = match unit.kind(c) {
        CXCursorKind::StructDecl => Definition::Struct,
        CXCursorKind::UnionDecl => Definition::Union,
        _ => Definition::Enum,
    };
    let (m1, name) = named(unit, m, c);
    assert(m1.name.contains_key(c.id));
    step_definition(unit, m1, what, c, name);
    step_means(unit, m1, definition_written(unit, m1, what, c, name));
    step_opaque(unit, m, c);
    step_means(unit, m1, opaque_written(unit, m, c));
    let d = declared(unit, m, c, what);
    assert(d.visited.contains(name));
    assert(named(unit, d, c) == (d, name));
    let w = definition_written(unit, d, Definition::RecurseEnum, c, name);
    step_definition(unit, d, Definition::RecurseEnum, c, name);
    step_means(unit, d, w);
    assert(d.name.contains_key(c.id));
    let v = type_visited(unit, m, c).0;
    assert(v.name.contains_key(c.id) && v.name[c.id] == name);
    assert(v.visited.contains(name));
    symbols_are_spoken_of(unit, s);
}

/// Every typedef in a file that matches is bound to.
pub proof fn typedefs_are_bound(unit: TranslationUnit, s: CtxView, c: CXCursor)
    requires
        unit.wf(),
        table_held(unit, s.unnamed_decl),
        reached(unit, s.patterns, Pass::Types, c),
        file_matches(unit, s.patterns, c),
        unit.kind(c) == CXCursorKind::TypedefDecl,
    ensures
        ({
            let u = bindings_written(unit, s);
            let sym = typedef_symbol(unit, s, c);
            &&& u.visited.contains(sym)
            &&& !s.visited.contains(sym) ==> says(u, sym)
        }),
{
    let m = type_visit_lasts(unit, s, c);
    let v = type_visited(unit, m, c).0;
    typedef_type_ok(unit, c);
    let decl = typedef_type(unit, c).decl;
    let name = identifier(m, unit.spelling(c));
    let m1 = CtxView { unnamed_decl: m.unnamed_decl.insert(decl, false), ..m };
    step_alias(unit, m, c);
    step_alias(unit, m1, c);
    step_struct(unit, m1, decl, name);
    step_union(unit, m1, name);
    step_enum(unit, m1, decl, name);
    assert(v.visited.contains(typedef_symbol(unit, s, c)));
    symbols_are_spoken_of(unit, s);
}

/// Every variable in a file that matches is spoken of.
pub proof fn variables_are_spoken_of(unit: TranslationUnit, s: CtxView, c: CXCursor)
    requires
        unit.wf(),
        table_held(unit, s.unnamed_decl),
        reached(unit, s.patterns, Pass::Types, c),
        file_matches(unit, s.patterns, c),
        unit.kind(c) == CXCursorKind::VarDecl,
    ensures
        ({
            let u = bindings_written(unit, s);
            &&& u.visited.contains(unit.spelling(c))
            &&& !s.visited.contains(unit.spelling(c)) ==> says(u, unit.spelling(c))
        }),
{
    let m = type_visit_lasts(unit, s, c);
    assert(type_visited(unit, m, c).0.visited.contains(unit.spelling(c)));
    symbols_are_spoken_of(unit, s);
}

proof fn pending_is_written(unit: TranslationUnit, s: CtxView, n: nat, i: int)
    requires
        unit.wf(),
        table_held(unit, s.unnamed_decl),
        n <= s.unnamed_decl.order.len(),
        0 <= i < n,
        ({
            let c = s.unnamed_decl.order[i];
            &&& s.unnamed_decl.pending.contains_key(c.id)
            &&& s.unnamed_decl.pending[c.id]
            &&& unit.kind(c) == CXCursorKind::StructDecl || unit.kind(c)
                == CXCursorKind::UnionDecl || unit.kind(c) == CXCursorKind::EnumDecl
        }),
    ensures
        ({
            let c = s.unnamed_decl.order[i];
            let t = pending_written(unit, s, n);
            &&& t.name.contains_key(c.id)
            &&& t.visited.contains(t.name[c.id])
        }),
    decreases n,
{
    let before = pending_written(unit, s, (n - 1) as nat);
    let d = s.unnamed_decl.order[n - 1];
    let after = unnamed_written(unit, before, d);
    step_unnamed_written(unit, before, d);
    step_means(unit, before, after);
    if i < n - 1 {
        pending_is_written(unit, s, (n - 1) as nat, i);
    } else {
        let (s1, name) = named(unit, before, d);
        step_struct(unit, s1, d, name);
        step_means(unit, s1, struct_written(unit, s1, d, name));
        step_union(unit, s1, name);
        step_means(unit, s1, union_written(s1, name));
        step_enum(unit, s1, d, name);
        step_means(unit, s1, enum_written(unit, s1, d, name));
        assert(s1.name.contains_key(d.id));
    }
}

/// Every anonymous struct, union and enumeration that is defined in a file
/// that matches is noted, and bound to under a made-up name unless a typedef
/// named it.
pub proof fn anonymous_definitions_are_bound(unit: TranslationUnit, s: CtxView, c: CXCursor)
    requires
        unit.wf(),
        table_held(unit, s.unnamed_decl),
        s.unnamed_decl.wf(),
        reached(unit, s.patterns, Pass::Types, c),
        file_matches(unit, s.patterns, c),
        unit.kind(c) == CXCursorKind::StructDecl || unit.kind(c) == CXCursorKind::UnionDecl
            || unit.kind(c) == CXCursorKind::EnumDecl,
        unit.info(c).definition == c,
        unit.spelling(c).len() == 0,
    ensures
        ({
            let u = bindings_written(unit, s);
            &&& u.unnamed_decl.pending.contains_key(c.id)
            &&& u.unnamed_decl.pending[c.id] ==> {
                &&& u.name.contains_key(c.id)
                &&& u.visited.contains(u.name[c.id])
                &&& !s.visited.contains(u.name[c.id]) ==> says(u, u.name[c.id])
            }
        }),
{
    let all = unit.info(unit.root).children@.len();
    let s2 = headed(s);
    let s3 = walked_below(unit, s2, Pass::Types, unit.root);
    let m = reached_is_visited(unit, s2, Pass::Types, unit.root, all, c);
    step_means(unit, s2, m);
    let v = visited(unit, m, Pass::Types, c).0;
    step_means(unit, v, s3);
    step_walked(unit, s2, Pass::Types, unit.root, all);
    step_means(unit, s2, s3);
    let d = declared(unit, m, c, Definition::Struct);
    assert(d.unnamed_decl.pending.contains_key(c.id));
    let (d1, name) = named(unit, d, c);
    step_named(unit, d, c);
    step_wrapper(unit, d1, name);
    assert(v.unnamed_decl.pending.contains_key(c.id));
    let n = s3.unnamed_decl.order.len();
    let t = types_written(unit, s);
    step_pending(unit, s3, n);
    step_means(unit, s3, t);
    runs_grow(unit, s);
    let u = bindings_written(unit, s);
    assert(t.unnamed_decl.pending.contains_key(c.id));
    if u.unnamed_decl.pending[c.id] {
        assert(s3.unnamed_decl.order.contains(CXCursor { id: c.id }));
        assert(CXCursor { id: c.id } == c);
        let i = choose|i: int|
            0 <= i < s3.unnamed_decl.order.len() && s3.unnamed_decl.order[i] == c;
        pending_is_written(unit, s3, n, i);
        symbols_are_spoken_of(unit, s);
    }
}

/// The bindings stand in a frame: the import in front of the types, and the
/// module of the library round the functions.
pub proof fn bindings_stand_in_a_frame(unit: TranslationUnit, s: CtxView)
    requires
        unit.wf(),
        table_held(unit, s.unnamed_decl),
    ensures
        ({
            let t = types_written(unit, s);
            let u = bindings_written(unit, s);
            &&& (s.out + ("/* automatically generated by rust-bindgen */\n"@ + "\n"@) + (
            "import libc::*;\n"@ + "\n"@)).is_prefix_of(t.out)
            &&& (t.out + ("#[link_name=\""@ + s.link + "\"]"@ + "\n"@) + (
            "native mod bindgen {\n"@ + "\n"@)).is_prefix_of(u.out)
            &&& ("}"@ + "\n"@).is_suffix_of(u.out)
        }),
{
    let all = unit.info(unit.root).children@.len();
    let s2 = headed(s);
    let s3 = walked_below(unit, s2, Pass::Types, unit.root);
    step_walked(unit, s2, Pass::Types, unit.root, all);
    step_means(unit, s2, s3);
    let t = types_written(unit, s);
    step_pending(unit, s3, s3.unnamed_decl.order.len());
    step_trans(unit, s2, s3, t);
    step_means(unit, s2, t);
    runs_grow(unit, s);
    let t2 = opened(t);
    let t3 = walked_below(unit, t2, Pass::Functions, unit.root);
    step_walked(unit, t2, Pass::Functions, unit.root, all);
    let u = wrote_line(t3, "}"@);
    step_wrote(unit, t3, "}"@);
    step_trans(unit, t2, t3, u);
    step_means(unit, t2, u);
    let close = "}"@ + "\n"@;
    assert(u.out.subrange(u.out.len() - close.len(), u.out.len() as int) =~= close);
}

} // verus!
