//! What the generator reads of a parsed header: cursors, types and strings,
//! as plain values.

use vstd::prelude::*;
use vstd::utf8::{decode_utf8, valid_utf8};

verus! {

/// What a cursor stands for; `Other` is every kind that is treated alike.
#[derive(Clone, Copy, Debug, PartialEq, Eq, Structural)]
pub enum CXCursorKind {
    StructDecl,
    UnionDecl,
    EnumDecl,
    FieldDecl,
    EnumConstantDecl,
    FunctionDecl,
    VarDecl,
    TypedefDecl,
    InvalidFile,
    NoDeclFound,
    Other,
}

/// What a type is; `Other` is every kind that is treated alike.
#[derive(Clone, Copy, Debug, PartialEq, Eq, Structural)]
pub enum CXTypeKind {
    Invalid,
    Unexposed,
    Void,
    Bool,
    CharU,
    UChar,
    UShort,
    UInt,
    ULong,
    ULongLong,
    CharS,
    SChar,
    Short,
    Int,
    Long,
    LongLong,
    Float,
    Double,
    Pointer,
    Record,
    Enum,
    Typedef,
    FunctionNoProto,
    FunctionProto,
    ConstantArray,
    Other,
}

/// The linkage of a declaration.
#[derive(Clone, Copy, Debug, PartialEq, Eq, Structural)]
pub enum CXLinkageKind {
    Invalid,
    NoLinkage,
    Internal,
    UniqueExternal,
    External,
}

/// What a visitor asks for next: the cursor's next sibling, or its children
/// first.
#[derive(Clone, Copy, Debug, PartialEq, Eq, Structural)]
pub enum CXChildVisitResult {
    Continue,
    Recurse,
}

/// A string that libclang hands out: the bytes before the terminating zero,
/// which are valid UTF-8.
#[derive(Debug)]
pub struct CXString {
    bytes: Vec<u8>,
}

impl View for CXString {
    type V = Seq<char>;

    closed spec fn view(&self) -> Seq<char> {
        decode_utf8(self.bytes@)
    }
}

/// Decodes bytes with `String::from_utf8`.
///
/// Taken on trust: the call succeeds exactly on valid UTF-8, and then gives
/// the characters that the bytes encode.
#[verifier::external_body]
fn string_from_utf8(bytes: Vec<u8>) -> (r: Option<String>)
    ensures
        r is Some == valid_utf8(bytes@),
        r matches Some(s) ==> s@ == decode_utf8(bytes@),
{
    String::from_utf8(bytes).ok()
}

impl CXString {
    #[verifier::type_invariant]
    spec fn is_utf8(self) -> bool {
        valid_utf8(self.bytes@)
    }

    /// Holds the bytes of a C string, where they are valid UTF-8.
    pub fn new(bytes: Vec<u8>) -> (r: Option<CXString>)
        ensures
            r is Some == valid_utf8(bytes@),
            r matches Some(s) ==> s@ == decode_utf8(bytes@),
    {
        if string_from_utf8(bytes.clone()).is_some() {
            Some(CXString { bytes })
        } else {
            None
        }
    }
}

/// The text of a string of libclang.
pub fn to_str(s: &CXString) -> (r: String)
    ensures
        r@ == s@,
{
    proof {
        use_type_invariant(s);
    }
    match string_from_utf8(s.bytes.clone()) {
        Some(text) => text,
        None => String::new(),
    }
}

/// A cursor: the place of its record in the translation unit.
#[derive(Clone, Copy, Debug, PartialEq, Eq, Structural)]
pub struct CXCursor {
    pub id: usize,
}

/// Whether two cursors are the same.
#[allow(non_snake_case)]
pub fn CXCursor_eq(k1: &CXCursor, k2: &CXCursor) -> (r: bool)
    ensures
        r == (*k1 == *k2),
{
    k1.id == k2.id
}

/// A type. Parts that a type of its kind lacks are `None` or empty.
#[derive(Debug)]
pub struct CXType {
    pub kind: CXTypeKind,
    /// The name of the kind.
    pub kind_spelling: CXString,
    /// The declaration of the type; one of kind `NoDeclFound` where it has none.
    pub decl: CXCursor,
    /// What a pointer points to.
    pub pointee: Option<Box<CXType>>,
    /// The element type of an array.
    pub element: Option<Box<CXType>>,
    /// The number of elements of an array.
    pub size: i64,
    /// The result type of a function type.
    pub result: Option<Box<CXType>>,
    /// The argument types of a function type.
    pub args: Vec<CXType>,
    /// Whether a function type takes more arguments than it names.
    pub variadic: bool,
    /// The canonical type, where it is not the type itself.
    pub canonical: Option<Box<CXType>>,
}

/// What is known of a cursor. A type that a cursor of its kind lacks is one
/// of kind `Invalid`.
#[derive(Debug)]
pub struct CursorInfo {
    pub kind: CXCursorKind,
    /// The name of the kind.
    pub kind_spelling: CXString,
    /// The name that the cursor declares; empty where it is anonymous.
    pub spelling: CXString,
    /// The name of the file that the cursor stands in, if any.
    pub file: Option<CXString>,
    pub linkage: CXLinkageKind,
    /// Whether the cursor is itself a definition.
    pub is_definition: bool,
    /// The definition of what the cursor declares; one of kind `InvalidFile`
    /// or `NoDeclFound` where there is none.
    pub definition: CXCursor,
    pub children: Vec<CXCursor>,
    /// The type of the entity.
    pub ty: CXType,
    /// The result type of a function.
    pub result_ty: CXType,
    /// What a typedef stands for.
    pub underlying_ty: CXType,
    /// The integer type behind an enumeration.
    pub integer_ty: CXType,
    /// The value of an enumeration constant.
    pub value: i64,
}

/// A parsed header: the records of its cursors, and the cursor of the whole.
#[derive(Debug)]
pub struct TranslationUnit {
    pub cursors: Vec<CursorInfo>,
    pub root: CXCursor,
}

/// Whether a type refers only to the first `n` cursors, and every pointer and
/// array in it has its inner type.
pub open spec fn type_ok(t: CXType, n: nat) -> bool
    decreases t,
{
    &&& t.decl.id < n
    &&& t.kind == CXTypeKind::Pointer ==> t.pointee is Some
    &&& t.kind == CXTypeKind::ConstantArray ==> t.element is Some
    &&& t.pointee is Some ==> type_ok(*t.pointee->0, n)
    &&& t.element is Some ==> type_ok(*t.element->0, n)
    &&& t.result is Some ==> type_ok(*t.result->0, n)
    &&& t.canonical is Some ==> type_ok(*t.canonical->0, n)
    &&& forall|i: int| 0 <= i < t.args@.len() ==> type_ok(#[trigger] t.args@[i], n)
}

/// Whether the record of cursor `id`, of `n`, refers only to cursors that
/// exist, and its children stand before it.
pub open spec fn cursor_ok(c: CursorInfo, id: int, n: nat) -> bool {
    &&& c.definition.id < n
    &&& forall|k: int| 0 <= k < c.children@.len() ==> (#[trigger] c.children@[k]).id < id
    &&& type_ok(c.ty, n)
    &&& type_ok(c.result_ty, n)
    &&& type_ok(c.underlying_ty, n)
    &&& type_ok(c.integer_ty, n)
}

impl TranslationUnit {
    /// Every reference leads to a cursor that exists, and children have
    /// smaller numbers than their parents.
    pub open spec fn wf(&self) -> bool {
        &&& self.holds(self.root)
        &&& forall|i: int|
            0 <= i < self.cursors@.len() ==> cursor_ok(
                #[trigger] self.cursors@[i],
                i,
                self.cursors@.len(),
            )
    }

    /// Whether the unit has a record of the cursor.
    pub open spec fn holds(&self, c: CXCursor) -> bool {
        c.id < self.cursors@.len()
    }

    /// The record of a cursor.
    pub open spec fn info(&self, c: CXCursor) -> CursorInfo {
        self.cursors@[c.id as int]
    }

    /// The kind of a cursor.
    pub open spec fn kind(&self, c: CXCursor) -> CXCursorKind {
        self.info(c).kind
    }

    /// The name that a cursor declares.
    pub open spec fn spelling(&self, c: CXCursor) -> Seq<char> {
        self.info(c).spelling@
    }

    /// The record of a cursor.
    pub fn at(&self, c: CXCursor) -> (r: &CursorInfo)
        requires
            self.holds(c),
        ensures
            *r == self.info(c),
    {
        &self.cursors[c.id]
    }

    /// Takes the records of a header, if they are in order.
    pub fn new(cursors: Vec<CursorInfo>, root: CXCursor) -> (r: Option<TranslationUnit>)
        ensures
            r is Some == (TranslationUnit { cursors, root }).wf(),
            r matches Some(u) ==> u == (TranslationUnit { cursors, root }),
    {
        let n: usize = cursors.len();
        if root.id >= n {
            return None;
        }
        let mut i: usize = 0;
        while i < n
            invariant
                n == cursors@.len(),
                i <= n,
                forall|j: int| 0 <= j < i ==> cursor_ok(#[trigger] cursors@[j], j, n as nat),
            decreases n - i,
        {
            if !check_cursor(&cursors[i], i, n) {
                assert(!cursor_ok(cursors@[i as int], i as int, n as nat));
                assert(!(TranslationUnit { cursors, root }).wf());
                return None;
            }
            i += 1;
        }
        Some(TranslationUnit { cursors, root })
    }
}

fn check_boxed(t: &Option<Box<CXType>>, n: usize) -> (r: bool)
    ensures
        r == (t is Some ==> type_ok(*t->0, n as nat)),
    decreases t,
{
    match t {
        Some(b) => check_type(b, n),
        None => true,
    }
}

fn check_type(t: &CXType, n: usize) -> (r: bool)
    ensures
        r == type_ok(*t, n as nat),
    decreases t,
{
    if t.decl.id >= n {
        return false;
    }
    if t.kind == CXTypeKind::Pointer && t.pointee.is_none() {
        return false;
    }
    if t.kind == CXTypeKind::ConstantArray && t.element.is_none() {
        return false;
    }
    if !check_boxed(&t.pointee, n) || !check_boxed(&t.element, n) {
        return false;
    }
    if !check_boxed(&t.result, n) || !check_boxed(&t.canonical, n) {
        return false;
    }
    let mut i: usize = 0;
    while i < t.args.len()
        invariant
            i <= t.args@.len(),
            forall|j: int| 0 <= j < i ==> type_ok(#[trigger] t.args@[j], n as nat),
        decreases t.args.len() - i,
    {
        if !check_type(&t.args[i], n) {
            assert(!type_ok(t.args@[i as int], n as nat));
            return false;
        }
        i += 1;
    }
    true
}

fn check_cursor(c: &CursorInfo, id: usize, n: usize) -> (r: bool)
    ensures
        r == cursor_ok(*c, id as int, n as nat),
{
    if c.definition.id >= n {
        return false;
    }
    let mut k: usize = 0;
    while k < c.children.len()
        invariant
            k <= c.children@.len(),
            forall|j: int| 0 <= j < k ==> (#[trigger] c.children@[j]).id < id,
        decreases c.children.len() - k,
    {
        if c.children[k].id >= id {
            assert(c.children@[k as int].id >= id);
            return false;
        }
        k += 1;
    }
    check_type(&c.ty, n) && check_type(&c.result_ty, n) && check_type(&c.underlying_ty, n)
        && check_type(&c.integer_ty, n)
}

} // verus!
