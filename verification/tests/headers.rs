use bindgen::bindings::{has_error, write_bindings, Severity};
use bindgen::clang::{
    CXChildVisitResult, CXCursor, CXCursorKind, CXLinkageKind, CXString, CXType, CXTypeKind,
    CursorInfo, TranslationUnit,
};
use bindgen::ctx::{decl_name, match_pattern, rust_id, sym_visited, unnamed_name, BindCtx};
use bindgen::decls::{
    def_enum, def_recurse_enum, def_struct, def_union, fwd_decl, opaque_decl, opaque_ty,
    visit_enum, visit_struct, Definition,
};
use bindgen::types::{conv_decl_ty, conv_ptr_ty, conv_ty};
use bindgen::visit::{
    visit_children, visit_func_top, visit_ty_top, visit_unnamed_decl, Pass,
};

// the two cursors that every header here begins with
const NO_DECL: CXCursor = CXCursor { id: 0 };
const NO_FILE: CXCursor = CXCursor { id: 1 };

fn text(s: &str) -> CXString {
    CXString::new(s.as_bytes().to_vec()).unwrap()
}

fn plain(kind: CXTypeKind) -> CXType {
    CXType {
        kind,
        kind_spelling: text(&format!("{:?}", kind)),
        decl: NO_DECL,
        pointee: None,
        element: None,
        size: -1,
        result: None,
        args: Vec::new(),
        variadic: false,
        canonical: None,
    }
}

fn declared(kind: CXTypeKind, decl: CXCursor) -> CXType {
    CXType { decl, ..plain(kind) }
}

fn pointer(to: CXType) -> CXType {
    CXType { pointee: Some(Box::new(to)), ..plain(CXTypeKind::Pointer) }
}

fn array(of: CXType, size: i64) -> CXType {
    CXType { element: Some(Box::new(of)), size, ..plain(CXTypeKind::ConstantArray) }
}

fn function(result: CXType, args: Vec<CXType>, variadic: bool) -> CXType {
    CXType { result: Some(Box::new(result)), args, variadic, ..plain(CXTypeKind::FunctionProto) }
}

fn cursor(kind: CXCursorKind, spelling: &str) -> CursorInfo {
    CursorInfo {
        kind,
        kind_spelling: text(&format!("{:?}", kind)),
        spelling: text(spelling),
        file: Some(text("test.h")),
        linkage: CXLinkageKind::NoLinkage,
        is_definition: false,
        definition: NO_FILE,
        children: Vec::new(),
        ty: plain(CXTypeKind::Invalid),
        result_ty: plain(CXTypeKind::Invalid),
        underlying_ty: plain(CXTypeKind::Invalid),
        integer_ty: plain(CXTypeKind::Invalid),
        value: 0,
    }
}

struct Header {
    cursors: Vec<CursorInfo>,
}

impl Header {
    fn new() -> Header {
        let mut no_decl = cursor(CXCursorKind::NoDeclFound, "");
        no_decl.file = None;
        let mut no_file = cursor(CXCursorKind::InvalidFile, "");
        no_file.file = None;
        Header { cursors: vec![no_decl, no_file] }
    }

    fn next(&self) -> CXCursor {
        CXCursor { id: self.cursors.len() }
    }

    fn push(&mut self, info: CursorInfo) -> CXCursor {
        let c = self.next();
        self.cursors.push(info);
        c
    }

    fn field(&mut self, name: &str, ty: CXType) -> CXCursor {
        self.push(CursorInfo { ty, ..cursor(CXCursorKind::FieldDecl, name) })
    }

    fn define(&mut self, kind: CXCursorKind, name: &str, children: Vec<CXCursor>) -> CXCursor {
        let definition = self.next();
        self.push(CursorInfo { definition, is_definition: true, children, ..cursor(kind, name) })
    }

    fn constant(&mut self, name: &str, value: i64) -> CXCursor {
        self.push(CursorInfo { value, ..cursor(CXCursorKind::EnumConstantDecl, name) })
    }

    fn enumeration(
        &mut self,
        name: &str,
        integer: CXTypeKind,
        children: Vec<CXCursor>,
    ) -> CXCursor {
        let c = self.define(CXCursorKind::EnumDecl, name, children);
        self.cursors[c.id].integer_ty = plain(integer);
        c
    }

    fn typedef(&mut self, name: &str, underlying_ty: CXType) -> CXCursor {
        self.push(CursorInfo { underlying_ty, ..cursor(CXCursorKind::TypedefDecl, name) })
    }

    fn func(&mut self, name: &str, result_ty: CXType, ty: CXType) -> CXCursor {
        self.push(CursorInfo {
            ty,
            result_ty,
            linkage: CXLinkageKind::External,
            ..cursor(CXCursorKind::FunctionDecl, name)
        })
    }

    fn unit(mut self, children: Vec<CXCursor>) -> TranslationUnit {
        let root = self.push(CursorInfo { children, ..cursor(CXCursorKind::Other, "test.h") });
        TranslationUnit::new(self.cursors, root).unwrap()
    }
}

fn start() -> BindCtx {
    let keywords = vec!["type".to_string(), "fn".to_string()];
    BindCtx::new(Vec::new(), "lib".to_string(), None, &keywords)
}

fn start_with(patterns: &[&str]) -> BindCtx {
    let patterns: Vec<String> = patterns.iter().map(|p| p.to_string()).collect();
    BindCtx::new(patterns, String::new(), None, &Vec::new())
}

#[test]
fn references_must_lead_somewhere() {
    // a child must stand before its parent
    let mut h = Header::new();
    let c = h.next();
    h.define(CXCursorKind::StructDecl, "s", vec![c]);
    assert!(TranslationUnit::new(h.cursors, NO_DECL).is_none());
    // a definition must exist
    let mut h = Header::new();
    h.push(CursorInfo { definition: CXCursor { id: 9 }, ..cursor(CXCursorKind::VarDecl, "v") });
    assert!(TranslationUnit::new(h.cursors, NO_DECL).is_none());
    // so must the root
    assert!(TranslationUnit::new(Header::new().cursors, CXCursor { id: 2 }).is_none());
    // and the declaration of a type deep down
    let mut h = Header::new();
    let lost = declared(CXTypeKind::Record, CXCursor { id: 99 });
    h.field("f", pointer(function(plain(CXTypeKind::Void), vec![pointer(lost)], false)));
    assert!(TranslationUnit::new(h.cursors, NO_DECL).is_none());
    // a pointer has a pointee, an array an element
    let mut h = Header::new();
    h.field("f", plain(CXTypeKind::Pointer));
    assert!(TranslationUnit::new(h.cursors, NO_DECL).is_none());
    let mut h = Header::new();
    h.field("f", array(plain(CXTypeKind::ConstantArray), 2));
    assert!(TranslationUnit::new(h.cursors, NO_DECL).is_none());
    assert!(TranslationUnit::new(Header::new().cursors, NO_FILE).is_some());
}

#[test]
fn scalar_types_have_names() {
    let mut h = Header::new();
    let c = h.field("f", plain(CXTypeKind::Int));
    let unit = h.unit(vec![c]);
    let expected = [
        (CXTypeKind::Bool, "bool"),
        (CXTypeKind::SChar, "c_char"),
        (CXTypeKind::CharS, "c_char"),
        (CXTypeKind::UChar, "c_uchar"),
        (CXTypeKind::CharU, "c_uchar"),
        (CXTypeKind::UShort, "c_ushort"),
        (CXTypeKind::UInt, "c_uint"),
        (CXTypeKind::ULong, "c_ulong"),
        (CXTypeKind::ULongLong, "c_ulonglong"),
        (CXTypeKind::Short, "c_short"),
        (CXTypeKind::Int, "c_int"),
        (CXTypeKind::Long, "c_long"),
        (CXTypeKind::LongLong, "c_longlong"),
        (CXTypeKind::Float, "c_float"),
        (CXTypeKind::Double, "c_double"),
        (CXTypeKind::Void, "c_void /* unknown kind Void */"),
        (CXTypeKind::FunctionProto, "c_void /* unknown kind FunctionProto */"),
        (CXTypeKind::Other, "c_void /* unknown kind Other */"),
    ];
    for (kind, name) in expected {
        assert_eq!(conv_ty(&mut start(), &unit, &plain(kind), c, true), name);
    }
}

#[test]
fn arrays_are_tuples() {
    let mut h = Header::new();
    let c = h.field("f", plain(CXTypeKind::Int));
    let unit = h.unit(vec![c]);
    let mut conv = |size: i64| {
        conv_ty(&mut start(), &unit, &array(plain(CXTypeKind::Int), size), c, false)
    };
    assert_eq!(conv(0), "/* FIXME: zero-sized array */\n");
    assert_eq!(conv(1), "c_int");
    assert_eq!(conv(2), "(c_int,c_int)");
    assert_eq!(conv(4), "(c_int,c_int,c_int,c_int)");
    assert_eq!(conv(-1), "(c_int)");
    let nested = array(array(pointer(plain(CXTypeKind::CharS)), 2), 2);
    assert_eq!(
        conv_ty(&mut start(), &unit, &nested, c, false),
        "((*c_char,*c_char),(*c_char,*c_char))"
    );
}

#[test]
fn pointers_look_at_what_they_point_to() {
    let mut h = Header::new();
    let s = h.define(CXCursorKind::StructDecl, "s", Vec::new());
    let fun = h.typedef("fun", function(plain(CXTypeKind::Void), Vec::new(), false));
    let num = h.typedef("num", plain(CXTypeKind::Int));
    let f = h.field("f", plain(CXTypeKind::Int));
    let unit = h.unit(vec![s, fun, num, f]);
    let ptr = |to: CXType, wrap: bool| conv_ptr_ty(&mut start(), &unit, &to, f, wrap);
    assert_eq!(ptr(plain(CXTypeKind::Void), false), "*c_void");
    assert_eq!(ptr(plain(CXTypeKind::Int), false), "*c_int");
    assert_eq!(ptr(pointer(plain(CXTypeKind::Int)), false), "**c_int");
    assert_eq!(ptr(function(plain(CXTypeKind::Int), Vec::new(), true), false), "*u8");
    assert_eq!(ptr(declared(CXTypeKind::Record, s), false), "*struct_s");
    assert_eq!(ptr(declared(CXTypeKind::Record, s), true), "*enum_recurse_struct_s");
    assert_eq!(ptr(declared(CXTypeKind::Unexposed, s), false), "*struct_s");
    assert_eq!(ptr(declared(CXTypeKind::Typedef, num), false), "*num");
    assert_eq!(ptr(declared(CXTypeKind::Typedef, fun), false), "*u8");
    assert_eq!(
        ptr(plain(CXTypeKind::Unexposed), false),
        "*c_void /* unknown Unexposed referenced by FieldDecl f */"
    );
    // an invalid result is none
    let odd = CXType {
        result: Some(Box::new(plain(CXTypeKind::Invalid))),
        ..declared(CXTypeKind::FunctionNoProto, num)
    };
    assert_eq!(ptr(odd, false), "*num");
    assert_eq!(
        conv_ty(&mut start(), &unit, &pointer(plain(CXTypeKind::Void)), f, false),
        "*c_void"
    );
}

#[test]
fn declared_types_go_by_their_declaration() {
    let mut h = Header::new();
    let s = h.define(CXCursorKind::StructDecl, "s", Vec::new());
    let u = h.define(CXCursorKind::UnionDecl, "u", Vec::new());
    let e = h.define(CXCursorKind::EnumDecl, "e", Vec::new());
    let t = h.typedef("type", plain(CXTypeKind::Int));
    let o = h.push(cursor(CXCursorKind::Other, "what"));
    let unit = h.unit(vec![s, u, e, t, o]);
    let mut ctx = start();
    assert_eq!(conv_decl_ty(&mut ctx, &unit, s, false), "struct_s");
    assert_eq!(conv_decl_ty(&mut ctx, &unit, s, true), "enum_recurse_struct_s");
    assert_eq!(conv_decl_ty(&mut ctx, &unit, u, true), "enum_recurse_union_u");
    assert_eq!(conv_decl_ty(&mut ctx, &unit, e, false), "enum_e");
    assert_eq!(conv_decl_ty(&mut ctx, &unit, t, true), "_type");
    assert_eq!(conv_decl_ty(&mut ctx, &unit, o, true), "c_void /* unknown Other what */");
    let ty = declared(CXTypeKind::Enum, e);
    assert_eq!(conv_ty(&mut ctx, &unit, &ty, t, false), "enum_e");
    assert_eq!(ctx.out, "");
}

#[test]
fn names_are_kept_and_made_up() {
    let mut h = Header::new();
    let s = h.define(CXCursorKind::StructDecl, "s", Vec::new());
    let a = h.define(CXCursorKind::StructDecl, "", Vec::new());
    let b = h.define(CXCursorKind::UnionDecl, "", Vec::new());
    let o = h.push(cursor(CXCursorKind::Other, ""));
    let unit = h.unit(vec![s, a, b, o]);
    let mut ctx = start();
    assert_eq!(decl_name(&mut ctx, &unit, b), "union_unnamed1");
    assert_eq!(decl_name(&mut ctx, &unit, a), "struct_unnamed2");
    assert_eq!(decl_name(&mut ctx, &unit, b), "union_unnamed1");
    assert_eq!(decl_name(&mut ctx, &unit, s), "struct_s");
    assert_eq!(decl_name(&mut ctx, &unit, o), "other_unnamed3");
    assert_eq!(ctx.unnamed_ty, 3);
    assert_eq!(unnamed_name(&mut ctx), "unnamed4");
    ctx.unnamed_ty = u64::MAX;
    assert_eq!(unnamed_name(&mut ctx), "unnamed0");
}

#[test]
fn keywords_get_an_underscore() {
    let ctx = start();
    assert_eq!(rust_id(&ctx, "type"), "_type");
    assert_eq!(rust_id(&ctx, "fn"), "_fn");
    assert_eq!(rust_id(&ctx, "types"), "types");
    assert_eq!(rust_id(&ctx, ""), "");
}

#[test]
fn symbols_are_recorded_once() {
    let mut ctx = start();
    assert!(!sym_visited(&mut ctx, "a"));
    assert!(sym_visited(&mut ctx, "a"));
    assert!(!sym_visited(&mut ctx, "b"));
}

#[test]
fn files_match_any_pattern() {
    let mut h = Header::new();
    let a = h.push(CursorInfo {
        file: Some(text("/usr/include/zlib.h")),
        ..cursor(CXCursorKind::VarDecl, "a")
    });
    let unit = h.unit(vec![a]);
    assert!(match_pattern(&start(), &unit, a));
    assert!(!match_pattern(&start(), &unit, NO_DECL));
    assert!(match_pattern(&start_with(&["zlib"]), &unit, a));
    assert!(match_pattern(&start_with(&["png", "zlib.h"]), &unit, a));
    assert!(!match_pattern(&start_with(&["png", "zlib.c"]), &unit, a));
    assert!(!match_pattern(&start_with(&["zlib"]), &unit, NO_DECL));
}

#[test]
fn other_files_are_skipped() {
    let mut h = Header::new();
    let s = h.define(CXCursorKind::StructDecl, "s", Vec::new());
    let f = h.func("f", plain(CXTypeKind::Void), plain(CXTypeKind::FunctionProto));
    let unit = h.unit(vec![s, f]);
    let mut ctx = start_with(&["other.h"]);
    assert_eq!(visit_ty_top(&mut ctx, &unit, s, unit.root), CXChildVisitResult::Continue);
    assert_eq!(visit_func_top(&mut ctx, &unit, f, unit.root), CXChildVisitResult::Continue);
    assert_eq!(ctx.out, "");
    assert!(!sym_visited(&mut ctx, "struct_s"));
    write_bindings(&mut ctx, &unit);
    assert_eq!(
        ctx.out,
        "/* automatically generated by rust-bindgen */\n\nimport libc::*;\n\n\
         #[link_name=\"\"]\nnative mod bindgen {\n\n}\n"
    );
}

#[test]
fn fields_are_written_with_wrappers() {
    let mut h = Header::new();
    let s = h.define(CXCursorKind::StructDecl, "s", Vec::new());
    let a = h.field("type", declared(CXTypeKind::Record, s));
    let b = h.field("", plain(CXTypeKind::Int));
    let v = h.push(cursor(CXCursorKind::VarDecl, "v"));
    let unit = h.unit(vec![s, a, b, v]);
    let mut ctx = start();
    ctx.unnamed_field = 5;
    for c in [a, b, v, b] {
        assert_eq!(visit_struct(&mut ctx, &unit, c, s), CXChildVisitResult::Continue);
    }
    assert_eq!(
        ctx.out,
        "    _type: enum_recurse_struct_s,\n    field_unnamed5: c_int,\n    field_unnamed6: c_int,\n"
    );
    assert_eq!(ctx.unnamed_field, 7);
}

#[test]
fn constants_have_the_type_of_the_enumeration() {
    let mut h = Header::new();
    let a = h.constant("A", -7);
    let b = h.constant("B", 4294967295);
    let i = h.enumeration("i", CXTypeKind::Int, vec![a]);
    let u = h.enumeration("u", CXTypeKind::UInt, vec![b]);
    let unit = h.unit(vec![i, u]);
    let mut ctx = start();
    assert_eq!(visit_enum(&mut ctx, &unit, a, i), CXChildVisitResult::Continue);
    assert_eq!(visit_enum(&mut ctx, &unit, b, u), CXChildVisitResult::Continue);
    assert_eq!(visit_enum(&mut ctx, &unit, i, u), CXChildVisitResult::Continue);
    assert_eq!(ctx.out, "const A: i32 = -7_i32;\nconst B: u32 = 4294967295_u32;\n");
}

#[test]
fn definitions_are_written_once_each() {
    let mut h = Header::new();
    let x = h.field("x", plain(CXTypeKind::Int));
    let y = h.field("", array(plain(CXTypeKind::Double), 3));
    let s = h.define(CXCursorKind::StructDecl, "s", vec![x, y]);
    let a = h.constant("A", 1);
    let e = h.enumeration("e", CXTypeKind::UInt, vec![a]);
    let unit = h.unit(vec![s, e]);
    let mut ctx = start();
    ctx.unnamed_field = 9;
    def_struct(&mut ctx, &unit, s, "S");
    let expected = "type S = {\n    x: c_int,\n    field_unnamed0: (c_double,c_double,c_double),\n};\n\n";
    assert_eq!(ctx.out, expected);
    def_struct(&mut ctx, &unit, s, "S");
    def_union(&mut ctx, s, "S");
    def_enum(&mut ctx, &unit, e, "S");
    assert_eq!(ctx.out, expected);

    let mut ctx = start();
    def_union(&mut ctx, s, "U");
    def_union(&mut ctx, s, "U");
    assert_eq!(ctx.out, "type U = c_void /* FIXME: union type */;\n\n");

    let mut ctx = start();
    def_enum(&mut ctx, &unit, e, "E");
    def_enum(&mut ctx, &unit, e, "E");
    assert_eq!(ctx.out, "type E = c_uint;\nconst A: u32 = 1_u32;\n");

    let mut ctx = start();
    def_recurse_enum(&mut ctx, s, "R");
    def_recurse_enum(&mut ctx, s, "R");
    assert_eq!(ctx.out, "enum enum_recurse_R {\n    rec_R(R),\n    inst_R\n}\n\n");
    // a wrapper does not take the name itself
    assert!(!sym_visited(&mut ctx, "R"));
}

#[test]
fn types_without_definition_are_opaque() {
    let mut h = Header::new();
    let s = h.push(cursor(CXCursorKind::StructDecl, "s"));
    let d = h.define(CXCursorKind::StructDecl, "d", Vec::new());
    let unit = h.unit(vec![s, d]);
    let mut ctx = start();
    opaque_decl(&mut ctx, &unit, s);
    opaque_decl(&mut ctx, &unit, s);
    assert_eq!(ctx.out, "type struct_s = c_void;\n\n");
    let mut ctx = start();
    opaque_ty(&mut ctx, &unit, &declared(CXTypeKind::Record, d));
    opaque_ty(&mut ctx, &unit, &declared(CXTypeKind::Typedef, s));
    assert_eq!(ctx.out, "");
    opaque_ty(&mut ctx, &unit, &declared(CXTypeKind::Record, s));
    assert_eq!(ctx.out, "type struct_s = c_void;\n\n");
}

#[test]
fn declarations_are_told_apart() {
    let mut h = Header::new();
    let named = h.define(CXCursorKind::UnionDecl, "u", Vec::new());
    let anonymous = h.define(CXCursorKind::UnionDecl, "", Vec::new());
    let missing = h.push(cursor(CXCursorKind::UnionDecl, "m"));
    let elsewhere = h.push(CursorInfo {
        definition: named,
        ..cursor(CXCursorKind::UnionDecl, "u")
    });
    let unit = h.unit(vec![named, anonymous, missing, elsewhere]);

    let mut ctx = start();
    fwd_decl(&mut ctx, &unit, named, Definition::Union, None);
    assert_eq!(ctx.out, "type union_u = c_void /* FIXME: union type */;\n\n");

    let mut ctx = start();
    fwd_decl(&mut ctx, &unit, anonymous, Definition::Union, None);
    fwd_decl(&mut ctx, &unit, anonymous, Definition::Union, None);
    assert_eq!(ctx.out, "");
    assert_eq!(ctx.unnamed_decl.len(), 1);
    assert_eq!(ctx.unnamed_decl.entry(0), (anonymous, true));

    let mut ctx = start();
    fwd_decl(&mut ctx, &unit, missing, Definition::Union, None);
    assert_eq!(ctx.out, "type union_m = c_void;\n\n");

    let mut ctx = start();
    fwd_decl(&mut ctx, &unit, elsewhere, Definition::Union, None);
    assert_eq!(ctx.out, "");
    fwd_decl(&mut ctx, &unit, elsewhere, Definition::Union, Some(Definition::RecurseEnum));
    assert_eq!(
        ctx.out,
        "enum enum_recurse_union_u {\n    rec_union_u(union_u),\n    inst_union_u\n}\n\n"
    );
}

#[test]
fn typedefs_name_anonymous_definitions() {
    let mut h = Header::new();
    let x = h.field("x", plain(CXTypeKind::Int));
    let s = h.define(CXCursorKind::StructDecl, "", vec![x]);
    let t = h.typedef("point", declared(CXTypeKind::Record, s));
    let u = h.define(CXCursorKind::UnionDecl, "", Vec::new());
    let tu = h.typedef("either", declared(CXTypeKind::Record, u));
    let e = h.enumeration("", CXTypeKind::Int, Vec::new());
    let te = h.typedef("type", declared(CXTypeKind::Enum, e));
    let unit = h.unit(vec![s, t, u, tu, e, te]);
    let mut ctx = start();
    assert_eq!(visit_ty_top(&mut ctx, &unit, t, unit.root), CXChildVisitResult::Recurse);
    assert_eq!(ctx.out, "type point = {\n    x: c_int,\n};\n\n");
    assert_eq!(visit_ty_top(&mut ctx, &unit, t, unit.root), CXChildVisitResult::Recurse);
    assert_eq!(ctx.out, "type point = {\n    x: c_int,\n};\n\n");
    assert_eq!(ctx.unnamed_decl.entry(0), (s, false));

    let mut ctx = start();
    assert_eq!(visit_ty_top(&mut ctx, &unit, tu, unit.root), CXChildVisitResult::Recurse);
    assert_eq!(ctx.out, "type either = c_void /* FIXME: union type */;\n\n");

    let mut ctx = start();
    assert_eq!(visit_ty_top(&mut ctx, &unit, te, unit.root), CXChildVisitResult::Continue);
    assert_eq!(ctx.out, "type _type = c_int;\n\n");
    // the blank line comes again
    assert_eq!(visit_ty_top(&mut ctx, &unit, te, unit.root), CXChildVisitResult::Continue);
    assert_eq!(ctx.out, "type _type = c_int;\n\n\n");
}

#[test]
fn typedefs_are_other_names() {
    let mut h = Header::new();
    let m = h.push(cursor(CXCursorKind::StructDecl, "m"));
    let t = h.typedef("t", declared(CXTypeKind::Record, m));
    let behind = CXType {
        canonical: Some(Box::new(plain(CXTypeKind::Int))),
        ..declared(CXTypeKind::Unexposed, m)
    };
    let n = h.typedef("n", behind);
    let k = h.typedef("type", plain(CXTypeKind::Int));
    let unit = h.unit(vec![m, t, n, k]);
    let mut ctx = start();
    assert_eq!(visit_ty_top(&mut ctx, &unit, t, unit.root), CXChildVisitResult::Continue);
    assert_eq!(ctx.out, "type t = struct_m;\n\ntype struct_m = c_void;\n\n");
    let mut ctx = start();
    assert_eq!(visit_ty_top(&mut ctx, &unit, n, unit.root), CXChildVisitResult::Continue);
    assert_eq!(visit_ty_top(&mut ctx, &unit, k, unit.root), CXChildVisitResult::Continue);
    assert_eq!(visit_ty_top(&mut ctx, &unit, k, unit.root), CXChildVisitResult::Continue);
    assert_eq!(ctx.out, "type n = c_int;\n\ntype _type = c_int;\n\n");
}

#[test]
fn other_cursors_in_the_walk_for_types() {
    let mut h = Header::new();
    let v = h.push(cursor(CXCursorKind::VarDecl, "v"));
    let f = h.func("f", plain(CXTypeKind::Void), plain(CXTypeKind::FunctionProto));
    let x = h.field("x", plain(CXTypeKind::Int));
    let o = h.push(cursor(CXCursorKind::Other, "o"));
    let unit = h.unit(vec![v, f, x, o]);
    let mut ctx = start();
    assert_eq!(visit_ty_top(&mut ctx, &unit, v, unit.root), CXChildVisitResult::Continue);
    assert_eq!(visit_ty_top(&mut ctx, &unit, v, unit.root), CXChildVisitResult::Continue);
    assert_eq!(visit_ty_top(&mut ctx, &unit, f, unit.root), CXChildVisitResult::Continue);
    assert_eq!(visit_ty_top(&mut ctx, &unit, x, unit.root), CXChildVisitResult::Continue);
    assert_eq!(visit_ty_top(&mut ctx, &unit, o, unit.root), CXChildVisitResult::Recurse);
    assert_eq!(ctx.out, "/* FIXME: global variable v */\n\n");
}

#[test]
fn functions_are_declared_once() {
    let mut h = Header::new();
    let int = || plain(CXTypeKind::Int);
    let f = h.func(
        "fn",
        int(),
        function(int(), vec![int(), pointer(plain(CXTypeKind::CharS))], true),
    );
    let g = h.func("g", plain(CXTypeKind::Void), function(int(), Vec::new(), false));
    let s = h.func("s", plain(CXTypeKind::Void), function(int(), Vec::new(), false));
    h.cursors[s.id].linkage = CXLinkageKind::Internal;
    let u = h.func("u", plain(CXTypeKind::Void), function(int(), vec![int()], false));
    h.cursors[u.id].linkage = CXLinkageKind::UniqueExternal;
    let o = h.push(CursorInfo {
        linkage: CXLinkageKind::External,
        ..cursor(CXCursorKind::Other, "o")
    });
    let unit = h.unit(vec![f, g, s, u, o]);
    let mut ctx = start();
    for c in [f, f, g, s, u] {
        assert_eq!(visit_func_top(&mut ctx, &unit, c, unit.root), CXChildVisitResult::Continue);
    }
    assert_eq!(visit_func_top(&mut ctx, &unit, o, unit.root), CXChildVisitResult::Recurse);
    assert_eq!(
        ctx.out,
        "fn _fn(++arg0: c_int, ++arg1: *c_char/* FIXME: variadic function */) -> c_int;\n\n\
         fn g();\n\nfn u(++arg0: c_int);\n\n"
    );
}

#[test]
fn anonymous_definitions_get_made_up_names() {
    let mut h = Header::new();
    let s = h.define(CXCursorKind::StructDecl, "", Vec::new());
    let u = h.define(CXCursorKind::UnionDecl, "", Vec::new());
    let e = h.enumeration("", CXTypeKind::Int, Vec::new());
    let o = h.push(cursor(CXCursorKind::Other, ""));
    let unit = h.unit(vec![s, u, e, o]);
    let mut ctx = start();
    for c in [s, u, e, o] {
        visit_unnamed_decl(&mut ctx, &unit, c);
    }
    assert_eq!(
        ctx.out,
        "type struct_unnamed1 = {\n};\n\n\
         type union_unnamed2 = c_void /* FIXME: union type */;\n\n\
         type enum_unnamed3 = c_int;\n\n"
    );
}

#[test]
fn walks_go_below_structs_and_not_below_enumerations() {
    let mut h = Header::new();
    let inner = h.define(CXCursorKind::UnionDecl, "inner", Vec::new());
    let outer = h.define(CXCursorKind::StructDecl, "outer", vec![inner]);
    let hidden = h.define(CXCursorKind::UnionDecl, "hidden", Vec::new());
    let e = h.enumeration("e", CXTypeKind::Int, vec![hidden]);
    let unit = h.unit(vec![outer, e]);
    let mut ctx = start();
    visit_children(&mut ctx, &unit, Pass::Types, unit.root);
    assert!(sym_visited(&mut ctx, "struct_outer"));
    assert!(sym_visited(&mut ctx, "union_inner"));
    assert!(sym_visited(&mut ctx, "enum_e"));
    assert!(!sym_visited(&mut ctx, "union_hidden"));
}

#[test]
fn diagnostics_of_an_error_stop_the_run() {
    assert!(!has_error(&Vec::new()));
    assert!(!has_error(&vec![Severity::Ignored, Severity::Note, Severity::Warning]));
    assert!(has_error(&vec![Severity::Error]));
    assert!(has_error(&vec![Severity::Warning, Severity::Fatal, Severity::Note]));
}

#[test]
fn a_whole_header() {
    let mut h = Header::new();
    // struct node { int value; struct node *next; };
    let node = CXCursor { id: 4 };
    let value = h.field("value", plain(CXTypeKind::Int));
    let next = h.field("next", pointer(declared(CXTypeKind::Record, node)));
    assert_eq!(h.define(CXCursorKind::StructDecl, "node", vec![value, next]), node);
    // typedef struct { char c[2]; } pair;
    let c = h.field("c", array(plain(CXTypeKind::CharS), 2));
    let anonymous = h.define(CXCursorKind::StructDecl, "", vec![c]);
    let pair = h.typedef("pair", declared(CXTypeKind::Record, anonymous));
    // enum { ZERO };
    let zero = h.constant("ZERO", 0);
    let numbers = h.enumeration("", CXTypeKind::UInt, vec![zero]);
    // struct node *find(pair, ...);
    let list = || pointer(declared(CXTypeKind::Record, node));
    let by = declared(CXTypeKind::Typedef, pair);
    let find = h.func("find", list(), function(list(), vec![by], false));
    let unit = h.unit(vec![node, anonymous, pair, numbers, find]);
    let mut ctx = start();
    write_bindings(&mut ctx, &unit);
    assert_eq!(
        ctx.out,
        "/* automatically generated by rust-bindgen */\n\n\
         import libc::*;\n\n\
         type struct_node = {\n\
         \x20   value: c_int,\n\
         \x20   next: *enum_recurse_struct_node,\n\
         };\n\n\
         enum enum_recurse_struct_node {\n\
         \x20   rec_struct_node(struct_node),\n\
         \x20   inst_struct_node\n\
         }\n\n\
         enum enum_recurse_struct_unnamed1 {\n\
         \x20   rec_struct_unnamed1(struct_unnamed1),\n\
         \x20   inst_struct_unnamed1\n\
         }\n\n\
         type pair = {\n\
         \x20   c: (c_char,c_char),\n\
         };\n\n\
         \n\
         type enum_unnamed2 = c_uint;\n\
         const ZERO: u32 = 0_u32;\n\
         \n\
         #[link_name=\"lib\"]\n\
         native mod bindgen {\n\n\
         fn find(++arg0: pair) -> *struct_node;\n\n\
         }\n"
    );
}

#[test]
fn a_symbol_that_a_type_took_is_no_function() {
    let mut h = Header::new();
    let t = h.typedef("f", plain(CXTypeKind::Int));
    let f = h.func("f", plain(CXTypeKind::Void), function(plain(CXTypeKind::Void), vec![], false));
    let g = h.func("g", plain(CXTypeKind::Void), function(plain(CXTypeKind::Void), vec![], false));
    let unit = h.unit(vec![t, f, g]);
    let mut ctx = start();
    write_bindings(&mut ctx, &unit);
    assert!(ctx.out.contains("type f = c_int;\n"));
    assert!(!ctx.out.contains("fn f("));
    assert!(ctx.out.contains("fn g();\n"));
}

#[test]
fn every_struct_has_its_recursion_wrapper() {
    let mut h = Header::new();
    let missing = h.push(cursor(CXCursorKind::StructDecl, "m"));
    let v = h.push(cursor(CXCursorKind::VarDecl, "v"));
    let unit = h.unit(vec![missing, v, missing]);
    let mut ctx = start();
    write_bindings(&mut ctx, &unit);
    assert_eq!(
        ctx.out,
        "/* automatically generated by rust-bindgen */\n\n\
         import libc::*;\n\n\
         type struct_m = c_void;\n\n\
         enum enum_recurse_struct_m {\n\
         \x20   rec_struct_m(struct_m),\n\
         \x20   inst_struct_m\n\
         }\n\n\
         /* FIXME: global variable v */\n\n\
         #[link_name=\"lib\"]\n\
         native mod bindgen {\n\n\
         }\n"
    );
}

#[test]
fn an_enumeration_visited_again_adds_a_blank_line() {
    let mut h = Header::new();
    let a = h.constant("A", 1);
    let e = h.enumeration("e", CXTypeKind::Int, vec![a]);
    let n = h.enumeration("", CXTypeKind::Int, vec![]);
    let t = h.typedef("t", plain(CXTypeKind::Int));
    let unit = h.unit(vec![e, n, t]);
    let mut ctx = start();
    assert_eq!(visit_ty_top(&mut ctx, &unit, e, unit.root), CXChildVisitResult::Continue);
    assert_eq!(visit_ty_top(&mut ctx, &unit, n, unit.root), CXChildVisitResult::Continue);
    assert_eq!(visit_ty_top(&mut ctx, &unit, t, unit.root), CXChildVisitResult::Continue);
    let first = "type enum_e = c_int;\nconst A: i32 = 1_i32;\n\n\ntype t = c_int;\n\n".to_string();
    assert_eq!(ctx.out, first);
    // later in the run
    assert_eq!(visit_ty_top(&mut ctx, &unit, e, unit.root), CXChildVisitResult::Continue);
    assert_eq!(ctx.out, format!("{}\n", first));
    assert_eq!(visit_ty_top(&mut ctx, &unit, n, unit.root), CXChildVisitResult::Continue);
    assert_eq!(ctx.out, format!("{}\n\n", first));
    assert_eq!(ctx.unnamed_decl.len(), 1);
    // not even that in a file that does not match
    let mut ctx = start_with(&["other.h"]);
    assert_eq!(visit_ty_top(&mut ctx, &unit, e, unit.root), CXChildVisitResult::Continue);
    assert_eq!(ctx.out, "");
}

#[test]
fn converting_a_type_only_adds_names() {
    let mut h = Header::new();
    let s = h.define(CXCursorKind::StructDecl, "", Vec::new());
    let f = h.field("f", plain(CXTypeKind::Int));
    let unit = h.unit(vec![s, f]);
    let mut ctx = start();
    let ty = array(pointer(declared(CXTypeKind::Record, s)), 2);
    for _ in 0..2 {
        let name = conv_ty(&mut ctx, &unit, &ty, f, false);
        assert_eq!(name, "(*struct_unnamed1,*struct_unnamed1)");
        assert_eq!(ctx.unnamed_ty, 1);
        assert_eq!(ctx.out, "");
    }
    assert!(!sym_visited(&mut ctx, "struct_unnamed1"));
}

#[test]
fn only_symbols_of_matching_files_are_bound() {
    let mut h = Header::new();
    // other.h
    let theirs = h.define(CXCursorKind::StructDecl, "theirs", Vec::new());
    let hidden = h.push(cursor(CXCursorKind::StructDecl, "hidden"));
    let w = h.push(cursor(CXCursorKind::VarDecl, "w"));
    let numbers = h.enumeration("", CXTypeKind::UInt, Vec::new());
    let g = h.func("g", plain(CXTypeKind::Void), plain(CXTypeKind::FunctionProto));
    for c in [theirs, hidden, w, numbers, g] {
        h.cursors[c.id].file = Some(text("other.h"));
    }
    // mine.h
    let ours = h.define(CXCursorKind::StructDecl, "ours", Vec::new());
    let v = h.push(cursor(CXCursorKind::VarDecl, "v"));
    let handle = h.typedef("handle", declared(CXTypeKind::Record, hidden));
    let either = h.define(CXCursorKind::UnionDecl, "", Vec::new());
    let f = h.func("f", plain(CXTypeKind::Void), plain(CXTypeKind::FunctionProto));
    for c in [ours, v, handle, either, f] {
        h.cursors[c.id].file = Some(text("mine.h"));
    }
    let unit = h.unit(vec![theirs, hidden, w, numbers, g, ours, v, handle, either, f]);
    let mut ctx = start_with(&["mine"]);
    write_bindings(&mut ctx, &unit);
    assert_eq!(
        ctx.out,
        "/* automatically generated by rust-bindgen */\n\n\
         import libc::*;\n\n\
         type struct_ours = {\n\
         };\n\n\
         enum enum_recurse_struct_ours {\n\
         \x20   rec_struct_ours(struct_ours),\n\
         \x20   inst_struct_ours\n\
         }\n\n\
         /* FIXME: global variable v */\n\n\
         type handle = struct_hidden;\n\n\
         type struct_hidden = c_void;\n\n\
         type union_unnamed1 = c_void /* FIXME: union type */;\n\n\
         #[link_name=\"\"]\n\
         native mod bindgen {\n\n\
         fn f();\n\n\
         }\n"
    );
    for sym in ["struct_ours", "v", "handle", "struct_hidden", "union_unnamed1", "f"] {
        assert!(sym_visited(&mut ctx, sym));
    }
    for sym in ["struct_theirs", "w", "enum_unnamed1", "g"] {
        assert!(!sym_visited(&mut ctx, sym));
    }
}
