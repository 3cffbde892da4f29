//! The state of a run: what was asked for, what was written, and which names
//! and symbols are taken.

use crate::clang::{to_str, CXCursor, CXCursorKind, TranslationUnit};
use crate::text::{contains, decimal, occurs_in, uint_str, views};
use vstd::hash_map::HashMapWithView;
use vstd::hash_set::StringHashSet;
use vstd::prelude::*;
use vstd::string::*;

verus! {

broadcast use vstd::std_specs::hash::group_hash_axioms;

/// The state of a run.
pub struct BindCtx {
    /// Texts of which one must occur in the name of a file that is bound to.
    pub patterns: Vec<String>,
    /// The link name of the library.
    pub link: String,
    /// Where the bindings go; the standard output if nowhere else.
    pub out_file: Option<String>,
    /// The bindings that were written.
    pub out: String,
    /// The name that each cursor was given, by the cursor's number.
    pub name: HashMapWithView<usize, String>,
    /// The anonymous definitions that were met.
    pub unnamed_decl: DeclTable,
    /// The symbols that are defined.
    pub visited: StringHashSet,
    /// The types that have their recursion wrapper.
    pub recurse_defs: StringHashSet,
    /// How many names were made up for anonymous types.
    pub unnamed_ty: u64,
    /// How many names were made up for fields of the current struct.
    pub unnamed_field: u64,
    /// The words that cannot be names.
    pub keywords: StringHashSet,
}

/// The anonymous definitions that were met, each with whether it still needs
/// a definition under a name of its own.
pub struct DeclTable {
    order: Vec<CXCursor>,
    pending: HashMapWithView<usize, bool>,
}

/// Anonymous definitions: the cursors in the order in which they were met,
/// and by cursor number whether a definition is still needed.
#[verifier::ext_equal]
pub struct DeclTableView {
    pub order: Seq<CXCursor>,
    pub pending: Map<usize, bool>,
}

/// The state of a run, as a mathematical value.
#[verifier::ext_equal]
pub struct CtxView {
    pub patterns: Seq<Seq<char>>,
    pub link: Seq<char>,
    pub out_file: Option<Seq<char>>,
    pub out: Seq<char>,
    pub name: Map<usize, Seq<char>>,
    pub unnamed_decl: DeclTableView,
    pub visited: Set<Seq<char>>,
    pub recurse_defs: Set<Seq<char>>,
    pub unnamed_ty: u64,
    pub unnamed_field: u64,
    pub keywords: Set<Seq<char>>,
}

impl View for DeclTable {
    type V = DeclTableView;

    closed spec fn view(&self) -> DeclTableView {
        DeclTableView { order: self.order@, pending: self.pending@ }
    }
}

/// The view of a text that may be missing.
pub open spec fn opt_view(s: Option<String>) -> Option<Seq<char>> {
    match s {
        Some(t) => Some(t@),
        None => None,
    }
}

impl View for BindCtx {
    type V = CtxView;

    open spec fn view(&self) -> CtxView {
        CtxView {
            patterns: views(self.patterns@),
            link: self.link@,
            out_file: opt_view(self.out_file),
            out: self.out@,
            name: self.name@.map_values(|s: String| s@),
            unnamed_decl: self.unnamed_decl@,
            visited: self.visited@,
            recurse_defs: self.recurse_defs@,
            unnamed_ty: self.unnamed_ty,
            unnamed_field: self.unnamed_field,
            keywords: self.keywords@,
        }
    }
}

impl DeclTableView {
    /// The empty table.
    pub open spec fn empty() -> DeclTableView {
        DeclTableView { order: Seq::empty(), pending: Map::empty() }
    }

    /// The table with the entry of `c` set; a new entry comes last.
    pub open spec fn insert(self, c: CXCursor, pending: bool) -> DeclTableView {
        DeclTableView {
            order: if self.pending.contains_key(c.id) {
                self.order
            } else {
                self.order.push(c)
            },
            pending: self.pending.insert(c.id, pending),
        }
    }

    /// Each cursor that has an entry stands in the order exactly once.
    pub open spec fn wf(self) -> bool {
        &&& self.order.no_duplicates()
        &&& forall|i: int|
            0 <= i < self.order.len() ==> self.pending.contains_key(
                (#[trigger] self.order[i]).id,
            )
        &&& forall|id: usize| #[trigger]
            self.pending.contains_key(id) ==> self.order.contains(CXCursor { id })
    }
}

impl DeclTable {
    /// A table without entries.
    pub fn new() -> (r: DeclTable)
        ensures
            r@ == DeclTableView::empty(),
    {
        DeclTable { order: Vec::new(), pending: HashMapWithView::new() }
    }

    /// Whether the cursor has an entry.
    pub fn contains_key(&self, c: CXCursor) -> (r: bool)
        ensures
            r == self@.pending.contains_key(c.id),
    {
        self.pending.contains_key(&c.id)
    }

    /// Sets the entry of a cursor.
    pub fn insert(&mut self, c: CXCursor, pending: bool)
        ensures
            final(self)@ == old(self)@.insert(c, pending),
    {
        if !self.pending.contains_key(&c.id) {
            self.order.push(c);
        }
        self.pending.insert(c.id, pending);
    }

    /// How many entries there are.
    pub fn len(&self) -> (r: usize)
        ensures
            r == self@.order.len(),
    {
        self.order.len()
    }

    /// The cursor of an entry, and whether it still needs a definition.
    pub fn entry(&self, i: usize) -> (r: (CXCursor, bool))
        requires
            i < self@.order.len(),
        ensures
            r.0 == self@.order[i as int],
            r.1 == (self@.pending.contains_key(r.0.id) && self@.pending[r.0.id]),
    {
        let c: CXCursor = self.order[i];
        match self.pending.get(&c.id) {
            Some(b) => (c, *b),
            None => (c, false),
        }
    }
}

/// The state in which a run starts.
pub open spec fn fresh(
    patterns: Seq<Seq<char>>,
    link: Seq<char>,
    out_file: Option<Seq<char>>,
    keywords: Set<Seq<char>>,
) -> CtxView {
    CtxView {
        patterns,
        link,
        out_file,
        out: Seq::empty(),
        name: Map::empty(),
        unnamed_decl: DeclTableView::empty(),
        visited: Set::empty(),
        recurse_defs: Set::empty(),
        unnamed_ty: 0,
        unnamed_field: 0,
        keywords,
    }
}

/// The set of the words in a list.
pub fn word_set(words: &Vec<String>) -> (r: StringHashSet)
    ensures
        r@ == views(words@).to_set(),
{
    let mut r: StringHashSet = StringHashSet::new();
    let mut i: usize = 0;
    while i < words.len()
        invariant
            i <= words@.len(),
            r@ == views(words@).take(i as int).to_set(),
        decreases words.len() - i,
    {
        r.insert(words[i].clone());
        proof {
            let w = views(words@);
            assert(w.take(i + 1) =~= w.take(i as int).push(w[i as int]));
            assert forall|x: Seq<char>|
                w.take(i + 1).to_set().contains(x) == w.take(i as int).to_set().insert(
                    w[i as int],
                ).contains(x) by {
                if w.take(i as int).contains(x) {
                    let k = choose|k: int| 0 <= k < i && w.take(i as int)[k] == x;
                    assert(w.take(i + 1)[k] == x);
                }
                if x == w[i as int] {
                    assert(w.take(i + 1)[i as int] == x);
                }
            }
            assert(w.take(i + 1).to_set() =~= w.take(i as int).to_set().insert(w[i as int]));
        }
        i += 1;
    }
    assert(views(words@).take(words@.len() as int) =~= views(words@));
    r
}

impl BindCtx {
    /// The state in which a run starts.
    pub fn new(
        patterns: Vec<String>,
        link: String,
        out_file: Option<String>,
        keywords: &Vec<String>,
    ) -> (r: BindCtx)
        ensures
            r@ == fresh(
                views(patterns@),
                link@,
                opt_view(out_file),
                views(keywords@).to_set(),
            ),
    {
        let r: BindCtx = BindCtx {
            patterns,
            link,
            out_file,
            out: String::new(),
            name: HashMapWithView::new(),
            unnamed_decl: DeclTable::new(),
            visited: StringHashSet::new(),
            recurse_defs: StringHashSet::new(),
            unnamed_ty: 0,
            unnamed_field: 0,
            keywords: word_set(keywords),
        };
        assert(r@.name =~= Map::empty());
        r
    }
}

/// The state after some text was written.
pub open spec fn wrote(s: CtxView, text: Seq<char>) -> CtxView {
    CtxView { out: s.out + text, ..s }
}

/// The state after a line was written.
pub open spec fn wrote_line(s: CtxView, line: Seq<char>) -> CtxView {
    wrote(s, line + "\n"@)
}

/// Writes some text.
pub fn write_str(ctx: &mut BindCtx, text: &str)
    ensures
        final(ctx)@ == wrote(old(ctx)@, text@),
{
    ctx.out.append(text);
}

/// Writes a line.
pub fn write_line(ctx: &mut BindCtx, line: &str)
    ensures
        final(ctx)@ == wrote_line(old(ctx)@, line@),
{
    let text: String = line.to_owned().concat("\n");
    ctx.out.append(text.as_str());
}

/// Whether a cursor stands in a file that is to be bound to: every file, or
/// those with one of the patterns in their name.
pub open spec fn file_matches(
    unit: TranslationUnit,
    patterns: Seq<Seq<char>>,
    cursor: CXCursor,
) -> bool {
    match unit.info(cursor).file {
        None => false,
        Some(file) => patterns.len() == 0 || exists|i: int|
            0 <= i < patterns.len() && occurs_in(file@, #[trigger] patterns[i]),
    }
}

/// Whether a cursor stands in a file that is to be bound to.
pub fn match_pattern(ctx: &BindCtx, unit: &TranslationUnit, cursor: CXCursor) -> (r: bool)
    requires
        unit.holds(cursor),
    ensures
        r == file_matches(*unit, ctx@.patterns, cursor),
{
    match &unit.at(cursor).file {
        None => false,
        Some(file) => {
            if ctx.patterns.len() == 0 {
                return true;
            }
            let name: String = to_str(file);
            let mut i: usize = 0;
            while i < ctx.patterns.len()
                invariant
                    i <= ctx.patterns@.len(),
                    name@ == file@,
                    unit.info(cursor).file == Some(*file),
                    forall|j: int| 0 <= j < i ==> !occurs_in(file@, #[trigger] ctx@.patterns[j]),
                decreases ctx.patterns.len() - i,
            {
                if contains(name.as_str(), ctx.patterns[i].as_str()) {
                    assert(occurs_in(file@, ctx@.patterns[i as int]));
                    return true;
                }
                i += 1;
            }
            false
        },
    }
}

/// Records a symbol as defined, and tells whether it already was.
pub fn sym_visited(ctx: &mut BindCtx, sym: &str) -> (r: bool)
    ensures
        r == old(ctx)@.visited.contains(sym@),
        final(ctx)@ == visit_sym(old(ctx)@, sym@),
{
    if ctx.visited.contains(sym) {
        assert(ctx@.visited =~= ctx@.visited.insert(sym@));
        return true;
    }
    ctx.visited.insert(sym.to_owned());
    false
}

/// The state with a symbol recorded as defined.
pub open spec fn visit_sym(s: CtxView, sym: Seq<char>) -> CtxView {
    CtxView { visited: s.visited.insert(sym), ..s }
}

/// The number after `n`; it starts over behind the last.
pub open spec fn next_number(n: u64) -> u64 {
    if n == u64::MAX {
        0
    } else {
        (n + 1) as u64
    }
}

/// The made-up name with a given number.
pub open spec fn unnamed(n: u64) -> Seq<char> {
    "unnamed"@ + decimal(n as nat)
}

/// Makes up a name for an anonymous type.
pub fn unnamed_name(ctx: &mut BindCtx) -> (r: String)
    ensures
        r@ == unnamed(next_number(old(ctx)@.unnamed_ty)),
        final(ctx)@ == (CtxView { unnamed_ty: next_number(old(ctx)@.unnamed_ty), ..old(ctx)@ }),
{
    ctx.unnamed_ty = ctx.unnamed_ty.wrapping_add(1);
    "unnamed".to_owned().concat(uint_str(ctx.unnamed_ty).as_str())
}

/// What a name of the header is called in the bindings: a word that cannot be
/// a name gets an underscore in front.
pub open spec fn identifier(s: CtxView, name: Seq<char>) -> Seq<char> {
    if s.keywords.contains(name) {
        "_"@ + name
    } else {
        name
    }
}

/// What a name of the header is called in the bindings.
pub fn rust_id(ctx: &BindCtx, name: &str) -> (r: String)
    ensures
        r@ == identifier(ctx@, name@),
{
    if ctx.keywords.contains(name) {
        return "_".to_owned().concat(name);
    }
    name.to_owned()
}

/// The word that the name of a declaration of some kind begins with.
pub open spec fn kind_prefix(kind: CXCursorKind) -> Seq<char> {
    match kind {
        CXCursorKind::StructDecl => "struct_"@,
        CXCursorKind::UnionDecl => "union_"@,
        CXCursorKind::EnumDecl => "enum_"@,
        _ => "other_"@,
    }
}

/// The name of a declaration, and the state in which it is known: a cursor
/// keeps the name that it got first, which is made from its spelling or made
/// up.
pub open spec fn named(unit: TranslationUnit, s: CtxView, cursor: CXCursor) -> (CtxView, Seq<
    char,
>) {
    if s.name.contains_key(cursor.id) {
        (s, s.name[cursor.id])
    } else if unit.spelling(cursor).len() == 0 {
        let n = next_number(s.unnamed_ty);
        let name = kind_prefix(unit.kind(cursor)) + unnamed(n);
        (CtxView { name: s.name.insert(cursor.id, name), unnamed_ty: n, ..s }, name)
    } else {
        let name = kind_prefix(unit.kind(cursor)) + unit.spelling(cursor);
        (CtxView { name: s.name.insert(cursor.id, name), ..s }, name)
    }
}

/// The name of a declaration.
pub fn decl_name(ctx: &mut BindCtx, unit: &TranslationUnit, cursor: CXCursor) -> (r: String)
    requires
        unit.holds(cursor),
    ensures
        (final(ctx)@, r@) == named(*unit, old(ctx)@, cursor),
{
    match ctx.name.get(&cursor.id) {
        Some(n) => n.clone(),
        None => {
            let info = unit.at(cursor);
            let spelling: String = to_str(&info.spelling);
            let prefix: &str = match info.kind {
                CXCursorKind::StructDecl => "struct_",
                CXCursorKind::UnionDecl => "union_",
                CXCursorKind::EnumDecl => "enum_",
                _ => "other_",
            };
            let ty_name: String = if spelling.as_str().is_empty() {
                prefix.to_owned().concat(unnamed_name(ctx).as_str())
            } else {
                prefix.to_owned().concat(spelling.as_str())
            };
            let ghost before = ctx.name@;
            ctx.name.insert(cursor.id, ty_name.clone());
            assert(ctx.name@.map_values(|s: String| s@) =~= before.map_values(
                |s: String| s@,
            ).insert(cursor.id, ty_name@));
            ty_name
        },
    }
}

} // verus!
