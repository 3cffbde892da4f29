//! The bindings of a header as a whole.

use crate::clang::{CXCursor, TranslationUnit};
use crate::ctx::{write_line, wrote_line, BindCtx, CtxView};
use crate::growth::{
    quiet, quiet_trans, step_means, step_refl, step_unnamed_written, step_walked, table_held,
};
use crate::visit::{unnamed_written, visit_children, visit_unnamed_decl, walked_below, Pass};
use vstd::prelude::*;
use vstd::string::*;

verus! {

/// How much a diagnostic matters.
#[derive(Clone, Copy, Debug, PartialEq, Eq, Structural)]
pub enum Severity {
    Ignored,
    Note,
    Warning,
    Error,
    Fatal,
}

/// Whether a diagnostic means that the header cannot be bound to.
pub open spec fn is_error(severity: Severity) -> bool {
    severity == Severity::Error || severity == Severity::Fatal
}

/// Whether any diagnostic means that the header cannot be bound to.
pub open spec fn holds_error(severities: Seq<Severity>) -> bool {
    exists|i: int| 0 <= i < severities.len() && is_error(#[trigger] severities[i])
}

/// Whether any diagnostic means that the header cannot be bound to.
pub fn has_error(severities: &Vec<Severity>) -> (r: bool)
    ensures
        r == holds_error(severities@),
{
    let mut c_err: bool = false;
    let mut i: usize = 0;
    while i < severities.len()
        invariant
            i <= severities@.len(),
            c_err == exists|j: int| 0 <= j < i && is_error(#[trigger] severities@[j]),
        decreases severities.len() - i,
    {
        if severities[i] == Severity::Error || severities[i] == Severity::Fatal {
            assert(is_error(severities@[i as int]));
            c_err = true;
        }
        i += 1;
    }
    c_err
}

/// The state after the first `n` anonymous definitions were written, apart
/// from those that a typedef named.
pub open spec fn pending_written(unit: TranslationUnit, s: CtxView, n: nat) -> CtxView
    decreases n,
{
    if n == 0 {
        s
    } else {
        let before = pending_written(unit, s, (n - 1) as nat);
        let c = s.unnamed_decl.order[n - 1];
        if s.unnamed_decl.pending.contains_key(c.id) && s.unnamed_decl.pending[c.id] {
            unnamed_written(unit, before, c)
        } else {
            before
        }
    }
}

/// Writing the anonymous definitions is a step, and leaves them as they are.
pub proof fn step_pending(unit: TranslationUnit, s: CtxView, n: nat)
    requires
        unit.wf(),
        table_held(unit, s.unnamed_decl),
        n <= s.unnamed_decl.order.len(),
    ensures
        quiet(unit, s, pending_written(unit, s, n)),
    decreases n,
{
    if n == 0 {
        step_refl(unit, s);
    } else {
        let before = pending_written(unit, s, (n - 1) as nat);
        let c = s.unnamed_decl.order[n - 1];
        step_pending(unit, s, (n - 1) as nat);
        step_unnamed_written(unit, before, c);
        quiet_trans(unit, s, before, unnamed_written(unit, before, c));
    }
}

/// Writes the anonymous definitions that no typedef named.
fn write_pending(ctx: &mut BindCtx, unit: &TranslationUnit)
    requires
        unit.wf(),
        table_held(*unit, old(ctx)@.unnamed_decl),
    ensures
        final(ctx)@ == pending_written(*unit, old(ctx)@, old(ctx)@.unnamed_decl.order.len()),
{
    let ghost s = ctx@;
    let n: usize = ctx.unnamed_decl.len();
    let mut i: usize = 0;
    while i < n
        invariant
            unit.wf(),
            table_held(*unit, s.unnamed_decl),
            i <= n,
            n == s.unnamed_decl.order.len(),
            ctx@.unnamed_decl == s.unnamed_decl,
            ctx@ == pending_written(*unit, s, i as nat),
        decreases n - i,
    {
        let (c, pending): (CXCursor, bool) = ctx.unnamed_decl.entry(i);
        proof {
            step_pending(*unit, s, i as nat + 1);
        }
        if pending {
            visit_unnamed_decl(ctx, unit, c);
        }
        i += 1;
    }
}

/// The state behind the lines that stand in front of the types.
pub open spec fn headed(s: CtxView) -> CtxView {
    wrote_line(
        wrote_line(s, "/* automatically generated by rust-bindgen */\n"@),
        "import libc::*;\n"@,
    )
}

/// The state behind the lines that open the module of the library.
pub open spec fn opened(s: CtxView) -> CtxView {
    wrote_line(wrote_line(s, "#[link_name=\""@ + s.link + "\"]"@), "native mod bindgen {\n"@)
}

/// The state after the types of a header were written.
pub open spec fn types_written(unit: TranslationUnit, s: CtxView) -> CtxView {
    let t = walked_below(unit, headed(s), Pass::Types, unit.root);
    pending_written(unit, t, t.unnamed_decl.order.len())
}

/// The state after the functions of a header were written.
pub open spec fn functions_written(unit: TranslationUnit, s: CtxView) -> CtxView {
    wrote_line(walked_below(unit, opened(s), Pass::Functions, unit.root), "}"@)
}

/// The state after the bindings of a header were written.
pub open spec fn bindings_written(unit: TranslationUnit, s: CtxView) -> CtxView {
    functions_written(unit, types_written(unit, s))
}

/// Writes the bindings of a header.
pub fn write_bindings(ctx: &mut BindCtx, unit: &TranslationUnit)
    requires
        unit.wf(),
        table_held(*unit, old(ctx)@.unnamed_decl),
    ensures
        final(ctx)@ == bindings_written(*unit, old(ctx)@),
{
    write_line(ctx, "/* automatically generated by rust-bindgen */\n");
    write_line(ctx, "import libc::*;\n");
    proof {
        let s = ctx@;
        step_walked(*unit, s, Pass::Types, unit.root, unit.info(unit.root).children@.len());
        step_means(*unit, s, walked_below(*unit, s, Pass::Types, unit.root));
    }
    visit_children(ctx, unit, Pass::Types, unit.root);
    write_pending(ctx, unit);
    let link: String = "#[link_name=\"".to_owned().concat(ctx.link.as_str()).concat("\"]");
    write_line(ctx, link.as_str());
    write_line(ctx, "native mod bindgen {\n");
    visit_children(ctx, unit, Pass::Functions, unit.root);
    write_line(ctx, "}");
}

} // verus!
