//! In what order a run goes through a header.

use crate::bindings::{
    bindings_written, functions_written, headed, opened, pending_written, step_pending,
    types_written,
};
use crate::clang::{cursor_ok, CXCursor, CXCursorKind, CXLinkageKind, TranslationUnit};
use crate::coverage::{descends, reached, reached_within, walks_go_by_the_header};
use crate::ctx::{file_matches, wrote_line, CtxView};
use crate::growth::{step_means, step_visited, step_walked, table_held};
use crate::shapes::{aliased, names_anonymous};
use crate::visit::{unnamed_written, visited, walked, Pass};
use vstd::prelude::*;

verus! {

// ---- where a walk goes ----

/// Whether a walk goes on to what is below a cursor.
pub open spec fn leads_on(
    unit: TranslationUnit,
    patterns: Seq<Seq<char>>,
    pass: Pass,
    c: CXCursor,
) -> bool {
    let decl = aliased(unit, c).decl;
    &&& file_matches(unit, patterns, c)
    &&& pass == Pass::Types ==> {
        &&& unit.kind(c) != CXCursorKind::EnumDecl
        &&& unit.kind(c) != CXCursorKind::FunctionDecl
        &&& unit.kind(c) != CXCursorKind::VarDecl
        &&& unit.kind(c) != CXCursorKind::FieldDecl
        &&& unit.kind(c) == CXCursorKind::TypedefDecl ==> names_anonymous(unit, c) && (unit.kind(
            decl,
        ) == CXCursorKind::StructDecl || unit.kind(decl) == CXCursorKind::UnionDecl)
    }
    &&& pass == Pass::Functions ==> {
        &&& unit.kind(c) != CXCursorKind::FunctionDecl
        &&& unit.info(c).linkage == CXLinkageKind::External || unit.info(c).linkage
            == CXLinkageKind::UniqueExternal
    }
}

/// All that stands at the top of a header is reached.
pub proof fn the_top_is_reached(
    unit: TranslationUnit,
    patterns: Seq<Seq<char>>,
    pass: Pass,
    k: int,
)
    requires
        0 <= k < unit.info(unit.root).children@.len(),
    ensures
        reached(unit, patterns, pass, unit.info(unit.root).children@[k]),
{
    child_is_reached(unit, patterns, pass, unit.root, unit.info(unit.root).children@.len(), k);
}

proof fn child_is_reached(
    unit: TranslationUnit,
    patterns: Seq<Seq<char>>,
    pass: Pass,
    top: CXCursor,
    n: nat,
    k: int,
)
    requires
        0 <= k < n <= unit.info(top).children@.len(),
    ensures
        reached_within(unit, patterns, pass, top, n, unit.info(top).children@[k]),
    decreases n,
{
    if k < n - 1 {
        child_is_reached(unit, patterns, pass, top, (n - 1) as nat, k);
    }
}

proof fn below_is_reached(
    unit: TranslationUnit,
    patterns: Seq<Seq<char>>,
    pass: Pass,
    top: CXCursor,
    n: nat,
    c: CXCursor,
    k: int,
)
    requires
        unit.wf(),
        unit.holds(top),
        n <= unit.info(top).children@.len(),
        reached_within(unit, patterns, pass, top, n, c),
        descends(unit, patterns, pass, c),
        0 <= k < unit.info(c).children@.len(),
    ensures
        unit.holds(c),
        reached_within(unit, patterns, pass, top, n, unit.info(c).children@[k]),
    decreases top.id, n,
{
    assert(cursor_ok(unit.info(top), top.id as int, unit.cursors@.len()));
    let child = unit.info(top).children@[n - 1];
    assert(child.id < top.id);
    let all = unit.info(child).children@.len();
    if reached_within(unit, patterns, pass, top, (n - 1) as nat, c) {
        below_is_reached(unit, patterns, pass, top, (n - 1) as nat, c, k);
    } else if child == c {
        child_is_reached(unit, patterns, pass, child, all, k);
    } else {
        below_is_reached(unit, patterns, pass, child, all, c, k);
    }
}

/// Below what is reached, all is reached where the walk goes on.
pub proof fn what_is_below_is_reached(
    unit: TranslationUnit,
    patterns: Seq<Seq<char>>,
    pass: Pass,
    c: CXCursor,
    k: int,
)
    requires
        unit.wf(),
        reached(unit, patterns, pass, c),
        leads_on(unit, patterns, pass, c),
        0 <= k < unit.info(c).children@.len(),
    ensures
        reached(unit, patterns, pass, unit.info(c).children@[k]),
{
    let all = unit.info(unit.root).children@.len();
    below_is_reached(unit, patterns, pass, unit.root, all, c, k);
}

/// Whether a cursor stands below another.
pub open spec fn is_child(unit: TranslationUnit, parent: CXCursor, c: CXCursor) -> bool {
    unit.info(parent).children@.contains(c)
}

proof fn reached_from(
    unit: TranslationUnit,
    patterns: Seq<Seq<char>>,
    pass: Pass,
    top: CXCursor,
    n: nat,
    c: CXCursor,
)
    requires
        unit.wf(),
        unit.holds(top),
        n <= unit.info(top).children@.len(),
        reached_within(unit, patterns, pass, top, n, c),
    ensures
        is_child(unit, top, c) || exists|p: CXCursor| #[trigger]
            is_child(unit, p, c) && reached_within(unit, patterns, pass, top, n, p) && leads_on(
                unit,
                patterns,
                pass,
                p,
            ),
    decreases top.id, n,
{
    assert(cursor_ok(unit.info(top), top.id as int, unit.cursors@.len()));
    let child = unit.info(top).children@[n - 1];
    assert(child.id < top.id);
    if reached_within(unit, patterns, pass, top, (n - 1) as nat, c) {
        reached_from(unit, patterns, pass, top, (n - 1) as nat, c);
    } else if child != c {
        reached_from(unit, patterns, pass, child, unit.info(child).children@.len(), c);
        if is_child(unit, child, c) {
            assert(reached_within(unit, patterns, pass, top, n, child));
            assert(leads_on(unit, patterns, pass, child));
        }
    }
}

/// Nothing else is reached: what is stands at the top, or below something that
/// is reached and from which the walk goes on.
pub proof fn only_that_is_reached(
    unit: TranslationUnit,
    patterns: Seq<Seq<char>>,
    pass: Pass,
    c: CXCursor,
)
    requires
        unit.wf(),
        reached(unit, patterns, pass, c),
    ensures
        is_child(unit, unit.root, c) || exists|p: CXCursor| #[trigger]
            is_child(unit, p, c) && reached(unit, patterns, pass, p) && leads_on(
                unit,
                patterns,
                pass,
                p,
            ),
{
    let all = unit.info(unit.root).children@.len();
    reached_from(unit, patterns, pass, unit.root, all, c);
    if !is_child(unit, unit.root, c) {
        let p = choose|p: CXCursor| #[trigger]
            is_child(unit, p, c) && reached_within(unit, patterns, pass, unit.root, all, p)
                && leads_on(unit, patterns, pass, p);
        assert(is_child(unit, p, c) && reached(unit, patterns, pass, p));
    }
}

// ---- the order of a walk ----

/// The cursors that a walk over the first `n` children of `top` comes to, in
/// its order: each child, and behind it what is below it, where the walk goes
/// on.
pub open spec fn itinerary(
    unit: TranslationUnit,
    patterns: Seq<Seq<char>>,
    pass: Pass,
    top: CXCursor,
    n: nat,
) -> Seq<CXCursor>
    decreases top.id, n,
{
    if n == 0 {
        seq![]
    } else {
        let child = unit.info(top).children@[n - 1];
        let front = itinerary(unit, patterns, pass, top, (n - 1) as nat).push(child);
        if leads_on(unit, patterns, pass, child) && child.id < top.id {
            front + itinerary(unit, patterns, pass, child, unit.info(child).children@.len())
        } else {
            front
        }
    }
}

/// The cursors that a walk over a header comes to, in its order.
pub open spec fn route(
    unit: TranslationUnit,
    patterns: Seq<Seq<char>>,
    pass: Pass,
) -> Seq<CXCursor> {
    itinerary(unit, patterns, pass, unit.root, unit.info(unit.root).children@.len())
}

proof fn itinerary_is_what_is_reached(
    unit: TranslationUnit,
    patterns: Seq<Seq<char>>,
    pass: Pass,
    top: CXCursor,
    n: nat,
    c: CXCursor,
)
    ensures
        itinerary(unit, patterns, pass, top, n).contains(c) == reached_within(
            unit,
            patterns,
            pass,
            top,
            n,
            c,
        ),
    decreases top.id, n,
{
    if n != 0 {
        let child = unit.info(top).children@[n - 1];
        let before = itinerary(unit, patterns, pass, top, (n - 1) as nat);
        let front = before.push(child);
        let all = unit.info(child).children@.len();
        itinerary_is_what_is_reached(unit, patterns, pass, top, (n - 1) as nat, c);
        assert(front.contains(c) == (before.contains(c) || child == c)) by {
            if before.contains(c) {
                let i = choose|i: int| 0 <= i < before.len() && before[i] == c;
                assert(front[i] == c);
            }
            assert(front[before.len() as int] == child);
        }
        if leads_on(unit, patterns, pass, child) && child.id < top.id {
            let below = itinerary(unit, patterns, pass, child, all);
            itinerary_is_what_is_reached(unit, patterns, pass, child, all, c);
            let whole = front + below;
            if front.contains(c) {
                let i = choose|i: int| 0 <= i < front.len() && front[i] == c;
                assert(whole[i] == c);
            }
            if below.contains(c) {
                let i = choose|i: int| 0 <= i < below.len() && below[i] == c;
                assert(whole[front.len() + i] == c);
            }
        }
    }
}

/// The route over a header is made of what is reached.
pub proof fn the_route_is_what_is_reached(
    unit: TranslationUnit,
    patterns: Seq<Seq<char>>,
    pass: Pass,
    c: CXCursor,
)
    ensures
        route(unit, patterns, pass).contains(c) == reached(unit, patterns, pass, c),
{
    let all = unit.info(unit.root).children@.len();
    itinerary_is_what_is_reached(unit, patterns, pass, unit.root, all, c);
}

/// To visit cursors one after the other.
pub open spec fn all_visited(
    unit: TranslationUnit,
    s: CtxView,
    pass: Pass,
    cursors: Seq<CXCursor>,
) -> CtxView {
    cursors.fold_left(s, |m: CtxView, c: CXCursor| visited(unit, m, pass, c).0)
}

proof fn visits_split(
    unit: TranslationUnit,
    s: CtxView,
    pass: Pass,
    a: Seq<CXCursor>,
    b: Seq<CXCursor>,
)
    ensures
        all_visited(unit, s, pass, a + b) == all_visited(
            unit,
            all_visited(unit, s, pass, a),
            pass,
            b,
        ),
{
    let f = |m: CtxView, c: CXCursor| visited(unit, m, pass, c).0;
    (a + b).lemma_fold_left_split(s, f, a.len() as int);
    assert((a + b).subrange(0, a.len() as int) =~= a);
    assert((a + b).subrange(a.len() as int, (a + b).len() as int) =~= b);
}

proof fn visits_push(
    unit: TranslationUnit,
    s: CtxView,
    pass: Pass,
    a: Seq<CXCursor>,
    c: CXCursor,
)
    ensures
        all_visited(unit, s, pass, a.push(c)) == visited(
            unit,
            all_visited(unit, s, pass, a),
            pass,
            c,
        ).0,
{
    reveal(Seq::fold_left);
    assert(a.push(c).drop_last() =~= a);
}

/// A walk visits what it comes to, each when it comes to it, and does nothing
/// else.
pub proof fn walks_follow_their_itinerary(
    unit: TranslationUnit,
    s: CtxView,
    pass: Pass,
    top: CXCursor,
    n: nat,
)
    requires
        unit.wf(),
        unit.holds(top),
        n <= unit.info(top).children@.len(),
    ensures
        walked(unit, s, pass, top, n) == all_visited(
            unit,
            s,
            pass,
            itinerary(unit, s.patterns, pass, top, n),
        ),
    decreases top.id, n,
{
    if n == 0 {
        reveal(Seq::fold_left);
    } else {
        assert(cursor_ok(unit.info(top), top.id as int, unit.cursors@.len()));
        let child = unit.info(top).children@[n - 1];
        assert(child.id < top.id);
        let all = unit.info(child).children@.len();
        let way = itinerary(unit, s.patterns, pass, top, (n - 1) as nat);
        let before = walked(unit, s, pass, top, (n - 1) as nat);
        walks_follow_their_itinerary(unit, s, pass, top, (n - 1) as nat);
        step_walked(unit, s, pass, top, (n - 1) as nat);
        step_means(unit, s, before);
        let s1 = visited(unit, before, pass, child).0;
        step_visited(unit, before, pass, child);
        step_means(unit, before, s1);
        visits_push(unit, s, pass, way, child);
        walks_go_by_the_header(unit, before, pass, child);
        if leads_on(unit, s.patterns, pass, child) {
            let below = itinerary(unit, s.patterns, pass, child, all);
            walks_follow_their_itinerary(unit, s1, pass, child, all);
            visits_split(unit, s, pass, way.push(child), below);
        }
    }
}

// ---- a whole run ----

/// The anonymous definitions that still need a name, in the order in which they
/// were noted.
pub open spec fn waiting(s: CtxView) -> Seq<CXCursor> {
    s.unnamed_decl.order.filter(
        |c: CXCursor|
            s.unnamed_decl.pending.contains_key(c.id) && s.unnamed_decl.pending[c.id],
    )
}

/// To write anonymous definitions one after the other.
pub open spec fn all_unnamed_written(
    unit: TranslationUnit,
    s: CtxView,
    cursors: Seq<CXCursor>,
) -> CtxView {
    cursors.fold_left(s, |m: CtxView, c: CXCursor| unnamed_written(unit, m, c))
}

proof fn pending_follows_the_order(unit: TranslationUnit, s: CtxView, n: nat)
    requires
        n <= s.unnamed_decl.order.len(),
    ensures
        pending_written(unit, s, n) == all_unnamed_written(
            unit,
            s,
            s.unnamed_decl.order.take(n as int).filter(
                |c: CXCursor|
                    s.unnamed_decl.pending.contains_key(c.id) && s.unnamed_decl.pending[c.id],
            ),
        ),
    decreases n,
{
    reveal(Seq::filter);
    reveal(Seq::fold_left);
    let p = |c: CXCursor|
        s.unnamed_decl.pending.contains_key(c.id) && s.unnamed_decl.pending[c.id];
    let order = s.unnamed_decl.order;
    if n != 0 {
        pending_follows_the_order(unit, s, (n - 1) as nat);
        let front = order.take(n - 1).filter(p);
        let c = order[n - 1];
        assert(order.take(n as int).drop_last() =~= order.take(n - 1));
        assert(order.take(n as int).last() == c);
        assert(front.push(c).drop_last() =~= front);
    }
}

proof fn heading_text(s: CtxView)
    ensures
        headed(s) == (CtxView {
            out: s.out + "/* automatically generated by rust-bindgen */\n"@ + "\n"@
                + "import libc::*;\n"@ + "\n"@,
            ..s
        }),
{
    assert(headed(s).out =~= s.out + "/* automatically generated by rust-bindgen */\n"@ + "\n"@
        + "import libc::*;\n"@ + "\n"@);
}

proof fn opening_text(s: CtxView)
    ensures
        opened(s) == (CtxView {
            out: s.out + "#[link_name=\""@ + s.link + "\"]"@ + "\n"@ + "native mod bindgen {\n"@
                + "\n"@,
            ..s
        }),
{
    assert(opened(s).out =~= s.out + "#[link_name=\""@ + s.link + "\"]"@ + "\n"@
        + "native mod bindgen {\n"@ + "\n"@);
}

proof fn types_follow_the_header(unit: TranslationUnit, s: CtxView)
    requires
        unit.wf(),
        table_held(unit, s.unnamed_decl),
    ensures
        ({
            let typed = all_visited(
                unit,
                headed(s),
                Pass::Types,
                route(unit, s.patterns, Pass::Types),
            );
            types_written(unit, s) == all_unnamed_written(unit, typed, waiting(typed))
        }),
        types_written(unit, s).patterns == s.patterns,
        types_written(unit, s).link == s.link,
{
    let all = unit.info(unit.root).children@.len();
    let typed = walked(unit, headed(s), Pass::Types, unit.root, all);
    walks_follow_their_itinerary(unit, headed(s), Pass::Types, unit.root, all);
    step_walked(unit, headed(s), Pass::Types, unit.root, all);
    step_means(unit, headed(s), typed);
    let n = typed.unnamed_decl.order.len();
    pending_follows_the_order(unit, typed, n);
    assert(typed.unnamed_decl.order.take(n as int) =~= typed.unnamed_decl.order);
    step_pending(unit, typed, n);
    step_means(unit, typed, types_written(unit, s));
}

proof fn functions_follow_the_header(unit: TranslationUnit, s: CtxView)
    requires
        unit.wf(),
    ensures
        functions_written(unit, s) == wrote_line(
            all_visited(
                unit,
                opened(s),
                Pass::Functions,
                route(unit, s.patterns, Pass::Functions),
            ),
            "}"@,
        ),
{
    let all = unit.info(unit.root).children@.len();
    walks_follow_their_itinerary(unit, opened(s), Pass::Functions, unit.root, all);
}

/// A run writes the heading, visits all that the walk for types comes to, in
/// its order, writes the anonymous definitions that still need a name, opens
/// the module of the library, visits all that the walk for functions comes to,
/// in its order, closes the module, and does nothing else.
#[verifier::rlimit(60)]
pub proof fn runs_follow_the_header(unit: TranslationUnit, s: CtxView)
    requires
        unit.wf(),
        table_held(unit, s.unnamed_decl),
    ensures
        ({
            let start = CtxView {
                out: s.out + "/* automatically generated by rust-bindgen */\n"@ + "\n"@
                    + "import libc::*;\n"@ + "\n"@,
                ..s
            };
            let typed = all_visited(
                unit,
                start,
                Pass::Types,
                route(unit, s.patterns, Pass::Types),
            );
            let complete = all_unnamed_written(unit, typed, waiting(typed));
            let inside = CtxView {
                out: complete.out + "#[link_name=\""@ + s.link + "\"]"@ + "\n"@
                    + "native mod bindgen {\n"@ + "\n"@,
                ..complete
            };
            let bound = all_visited(
                unit,
                inside,
                Pass::Functions,
                route(unit, s.patterns, Pass::Functions),
            );
            bindings_written(unit, s) == (CtxView { out: bound.out + "}"@ + "\n"@, ..bound })
        }),
{
    let t = types_written(unit, s);
    heading_text(s);
    opening_text(t);
    types_follow_the_header(unit, s);
    functions_follow_the_header(unit, t);
    let bound = all_visited(
        unit,
        opened(t),
        Pass::Functions,
        route(unit, s.patterns, Pass::Functions),
    );
    assert(bindings_written(unit, s).out =~= bound.out + "}"@ + "\n"@);
}

} // verus!
