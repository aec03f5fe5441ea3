//! Type tables: ownership, definition order, used types, dispatch.
use maka_codegen::definitions::emit_structs_and_enums;
use maka_codegen::dispatch::{
    emit_callable_typedefs, emit_closure_trampolines, emit_dyn_typedefs, emit_dyn_vtable_instances,
    emit_trampolines,
};
use maka_codegen::drops::{
    compute_drop_owns, drop_ty_owns, emit_drop_glue, emit_field_drop, emit_pointee_drop,
};
use maka_codegen::hir::{
    CastKind, EnumId, EnumInfo, FieldInfo, FuncId, FuncSig, HBlock, HExpr, HExprKind, HFunc, HStmt,
    HType, LocalId, LocalInfo, LogicInfo, StructId, StructInfo, SymTab, VariantInfo,
};
use maka_codegen::layout::{order_types, value_dep_name};
use maka_codegen::scan::{note_type, scan_expr, scan_func, scan_stmt, Notes};
use maka_codegen::sorted::SortedMap;

fn num(n: i64) -> HExpr {
    HExpr { kind: HExprKind::LitInt(n), ty: HType::Int }
}

fn var(id: u32, ty: HType) -> HExpr {
    HExpr { kind: HExprKind::Local(LocalId(id)), ty }
}

fn expr(kind: HExprKind, ty: HType) -> HExpr {
    HExpr { kind, ty }
}

fn own_ptr(t: HType) -> HType {
    HType::OwnPtr { inner: Box::new(t), mutable: true }
}

fn block(stmts: Vec<HStmt>) -> HBlock {
    HBlock { stmts, ptr_nulls: vec![], heap_to_free: vec![] }
}

fn local(name: &str, ty: HType) -> LocalInfo {
    LocalInfo { name: name.to_string(), ty, thread_local: false }
}

fn field(name: &str, ty: HType) -> FieldInfo {
    FieldInfo { name: name.to_string(), ty }
}

fn record(name: &str, fields: Vec<FieldInfo>) -> StructInfo {
    StructInfo { name: name.to_string(), type_params: vec![], fields }
}

fn sig(name: &str, param_tys: Vec<HType>, ret: HType) -> FuncSig {
    FuncSig {
        name: name.to_string(),
        c_name: name.to_string(),
        type_params: vec![],
        param_names: vec![],
        param_tys,
        ret,
        param_keys: vec![],
        ret_key: "k".to_string(),
        is_extern: false,
        is_variadic: false,
        is_inline: false,
        is_pub: false,
        logic: None,
    }
}

fn func(id: u32, name: &str, params: Vec<u32>, locals: Vec<LocalInfo>, ret: HType, body: HBlock) -> HFunc {
    HFunc {
        id: FuncId(id),
        name: name.to_string(),
        params: params.into_iter().map(LocalId).collect(),
        locals,
        ret,
        body,
    }
}

fn heap(t: HType) -> HType {
    HType::Heap { inner: Box::new(t) }
}

fn array(len: i64, t: HType) -> HType {
    HType::Array { len, elem: Box::new(t) }
}

fn vector(t: HType) -> HType {
    HType::Vec { elem: Box::new(t) }
}

fn slice(t: HType) -> HType {
    HType::Slice { elem: Box::new(t), mutable: false }
}

fn borrow(t: HType) -> HType {
    HType::Ref { inner: Box::new(t), mutable: false }
}

fn callable(ret: HType, ret_key: &str, params: Vec<HType>, param_keys: &[&str]) -> HType {
    HType::FnPtr {
        ret: Box::new(ret),
        params,
        ret_key: ret_key.to_string(),
        param_keys: param_keys.iter().map(|k| k.to_string()).collect(),
    }
}

fn st(id: u32) -> HType {
    HType::Struct(StructId(id))
}

fn variant(name: &str, tag: i64, fields: Vec<FieldInfo>) -> VariantInfo {
    VariantInfo { name: name.to_string(), tag, fields }
}

fn enumeration(name: &str, variants: Vec<VariantInfo>) -> EnumInfo {
    EnumInfo { name: name.to_string(), variants }
}

fn tables(structs: Vec<StructInfo>, enums: Vec<EnumInfo>) -> SymTab {
    SymTab { structs, enums, sigs: vec![], funcs: vec![], globals: vec![], logics: vec![] }
}

fn names(m: &SortedMap<String, ()>) -> Vec<String> {
    (0..m.len()).map(|i| m.key(i).clone()).collect()
}

fn set(keys: &[&str]) -> SortedMap<String, ()> {
    let mut r = SortedMap::new();
    for k in keys {
        r.insert(k.to_string(), ());
    }
    r
}

fn ids(keys: &[u32]) -> SortedMap<u32, ()> {
    let mut r = SortedMap::new();
    for k in keys {
        r.insert(*k, ());
    }
    r
}

/// `Leaf` owns a pointer, `Pair` embeds two of them, `Plain` owns nothing,
/// `Tree` refers to itself through an owning pointer.
fn owners() -> SymTab {
    tables(
        vec![
            record("Pair", vec![field("both", array(2, st(1))), field("n", HType::Int)]),
            record("Leaf", vec![field("p", own_ptr(HType::Int))]),
            record("Plain", vec![field("r", borrow(st(1)))]),
            record("Thread", vec![field("p", own_ptr(HType::Int))]),
            StructInfo {
                name: "Box".to_string(),
                type_params: vec!["T".to_string()],
                fields: vec![field("p", own_ptr(HType::Int))],
            },
            record("Tree", vec![field("left", own_ptr(st(5)))]),
        ],
        vec![
            enumeration("Color", vec![variant("Red", 0, vec![])]),
            enumeration(
                "Shape",
                vec![
                    variant("None", 0, vec![]),
                    variant("Held", 7, vec![field("k", HType::Int), field("leaf", st(1))]),
                ],
            ),
        ],
    )
}

#[test]
fn sorted_maps_list_each_key_once_in_order() {
    let mut m: SortedMap<String, u8> = SortedMap::new();
    for (k, v) in [("b", 1u8), ("a", 2), ("c", 3), ("b", 4)] {
        m.insert(k.to_string(), v);
    }
    assert_eq!(m.len(), 3);
    assert_eq!((m.key(0).as_str(), *m.value(0)), ("a", 2));
    assert_eq!((m.key(1).as_str(), *m.value(1)), ("b", 4));
    assert_eq!((m.key(2).as_str(), *m.value(2)), ("c", 3));
    m.remove(&"a".to_string());
    assert!(!m.contains(&"a".to_string()));
    assert!(m.contains(&"c".to_string()));
}

#[test]
fn owning_types() {
    let s = owners();
    let owns = compute_drop_owns(&s);
    assert_eq!(names(&owns), ["Leaf", "Pair", "Shape", "Tree"]);
    for t in [own_ptr(HType::Int), heap(HType::Int), vector(HType::Int), st(0), array(3, st(1))] {
        assert!(drop_ty_owns(&s, &owns, &t));
    }
    for t in [HType::Int, st(2), borrow(st(0)), slice(st(1)), HType::Enum(EnumId(0)), array(2, st(2))] {
        assert!(!drop_ty_owns(&s, &owns, &t));
    }
}

#[test]
fn releasing_fields() {
    let s = owners();
    let owns = compute_drop_owns(&s);
    let drop = |t: HType| emit_field_drop(&s, &owns, "", "x", &t, 0);
    assert_eq!(drop(HType::Int), "");
    assert_eq!(drop(st(2)), "");
    assert_eq!(drop(own_ptr(HType::Int)), "if (x) {\n    free(x);\n}\n");
    assert_eq!(drop(own_ptr(st(1))), "if (x) {\n    __maka_drop_Leaf(x);\n    free(x);\n}\n");
    assert_eq!(drop(heap(HType::Enum(EnumId(1)))), "if (x) {\n    __maka_drop_Shape(x);\n    free(x);\n}\n");
    assert_eq!(drop(st(1)), "__maka_drop_Leaf(&(x));\n");
    assert_eq!(drop(HType::Enum(EnumId(1))), "__maka_drop_Shape(&(x));\n");
    assert_eq!(drop(vector(HType::Int)), "free(x.data);\n");
    assert_eq!(
        drop(heap(vector(st(1)))),
        "for (size_t __v0 = 0; __v0 < (x).len; __v0++) {\n    __maka_drop_Leaf(&((x).data[__v0]));\n}\nfree(x.data);\n"
    );
    assert_eq!(
        drop(array(2, array(3, st(1)))),
        "for (maka_int __d0 = 0; __d0 < 2; __d0++) {\n    for (maka_int __d1 = 0; __d1 < 3; __d1++) {\n        __maka_drop_Leaf(&(((x)[__d0])[__d1]));\n    }\n}\n"
    );
    assert_eq!(
        drop(own_ptr(own_ptr(HType::Int))),
        "if (x) {\n    if ((*(x))) {\n        free((*(x)));\n    }\n    free(x);\n}\n"
    );
}

#[test]
fn releasing_what_a_pointer_leads_to() {
    let s = owners();
    let owns = compute_drop_owns(&s);
    assert_eq!(emit_pointee_drop(&s, &owns, "  ", "q", &st(0), 0), "  __maka_drop_Pair(q);\n");
    assert_eq!(emit_pointee_drop(&s, &owns, "  ", "q", &st(2), 0), "");
    assert_eq!(emit_pointee_drop(&s, &owns, "  ", "q", &vector(HType::Int), 0), "  free((*(q)).data);\n");
    assert_eq!(
        emit_field_drop(&s, &owns, "", "q", &own_ptr(vector(HType::Int)), 0),
        "if (q) {\n    free((*(q)).data);\n    free(q);\n}\n"
    );
    let owners_of = array(3, own_ptr(HType::Int));
    assert_eq!(
        emit_field_drop(&s, &owns, "", "q", &own_ptr(owners_of), 0),
        "if (q) {\n    for (maka_int __d0 = 0; __d0 < 3; __d0++) {\n        if ((q)[__d0]) {\n            free((q)[__d0]);\n        }\n    }\n    free(q);\n}\n"
    );
}

#[test]
fn every_owner_gets_its_glue() {
    let s = owners();
    let owns = compute_drop_owns(&s);
    assert_eq!(
        emit_drop_glue(&s, &owns),
        "/* ---- recursive drop glue ---- */
static void __maka_drop_Pair(struct Pair* p);
static void __maka_drop_Leaf(struct Leaf* p);
static void __maka_drop_Tree(struct Tree* p);
static void __maka_drop_Shape(struct Shape* p);
static void __maka_drop_Pair(struct Pair* p) {
    for (maka_int __d0 = 0; __d0 < 2; __d0++) {
        __maka_drop_Leaf(&((p->both)[__d0]));
    }
}
static void __maka_drop_Leaf(struct Leaf* p) {
    if (p->p) {
        free(p->p);
    }
}
static void __maka_drop_Tree(struct Tree* p) {
    if (p->left) {
        __maka_drop_Tree(p->left);
        free(p->left);
    }
}
static void __maka_drop_Shape(struct Shape* p) {
    switch (p->tag) {
        case 7: {
            __maka_drop_Leaf(&(p->payload.Held.leaf));
        } break;
    }
}

"
    );
    let none = tables(vec![record("Plain", vec![])], vec![]);
    assert_eq!(emit_drop_glue(&none, &compute_drop_owns(&none)), "");
}

#[test]
fn embedded_types() {
    let s = owners();
    let dep = |t: HType| value_dep_name(&s, &t).cloned();
    assert_eq!(dep(st(1)), Some("Leaf".to_string()));
    assert_eq!(dep(array(2, HType::Enum(EnumId(1)))), Some("Shape".to_string()));
    assert_eq!(dep(HType::Enum(EnumId(0))), None);
    assert_eq!(dep(own_ptr(st(1))), None);
    assert_eq!(dep(vector(st(1))), None);
}

fn order(s: &SymTab) -> Vec<(bool, usize)> {
    order_types(s).iter().map(|r| (r.is_enum, r.index)).collect()
}

#[test]
fn embedded_types_come_first() {
    assert_eq!(order(&owners()), [(false, 1), (false, 2), (false, 5), (true, 1), (false, 0)]);
}

#[test]
fn cycles_fall_back_to_declaration_order() {
    let s = tables(
        vec![
            record("A", vec![field("b", st(1))]),
            record("B", vec![field("a", st(0))]),
            record("C", vec![]),
            record("C", vec![field("dup", HType::Int)]),
        ],
        vec![],
    );
    assert_eq!(order(&s), [(false, 2), (false, 0), (false, 1)]);
}

#[test]
fn definitions_of_types() {
    let s = tables(
        vec![
            record("Outer", vec![field("in", st(1)), field("grid", array(2, HType::Int)), field("v", vector(HType::Int))]),
            record("Inner", vec![field("s", slice(HType::Str))]),
        ],
        vec![
            enumeration("Color", vec![variant("Red", 0, vec![]), variant("Blue", 4, vec![])]),
            enumeration("Shape", vec![variant("None", 0, vec![]), variant("Held", 1, vec![field("at", st(1)), field("xs", array(3, HType::Int))])]),
        ],
    );
    let mut out = String::new();
    let mut notes = Notes::new();
    emit_structs_and_enums(&s, &mut out, &mut notes);
    assert_eq!(
        out,
        "typedef struct Outer Outer;
typedef struct Inner Inner;
typedef maka_int Color;
static const Color Color__Red = 0;
static const Color Color__Blue = 4;
typedef struct Shape Shape;
#define Shape__None_TAG 0
#define Shape__Held_TAG 1
typedef struct Slice_str { const char** ptr; maka_int len; } Slice_str;
typedef struct Vec_maka_int { maka_int* data; maka_int len; maka_int cap; } Vec_maka_int;
struct Inner {
    Slice_str s;
};
typedef struct {
    Inner at;
    maka_int xs[3];
} Shape_Held_Payload;
struct Shape {
    maka_int tag;
    union {
        Shape_Held_Payload Held;
    } payload;
};
struct Outer {
    Inner in;
    maka_int grid[2];
    Vec_maka_int v;
};

"
    );
    assert_eq!(names(&notes.slices), ["str"]);
    assert_eq!(names(&notes.vecs), ["maka_int"]);
}

#[test]
fn noted_types() {
    let s = owners();
    let t = callable(
        slice(vector(HType::Bool)),
        "a",
        vec![own_ptr(array(2, slice(HType::Int))), HType::Dyn { traits: vec!["Show".to_string(), "Eq".to_string()] }],
        &["b", "c"],
    );
    let mut n = Notes::new();
    note_type(&s, &t, &mut n);
    assert_eq!(names(&n.slices), ["Vec_bool", "maka_int"]);
    assert_eq!(names(&n.vecs), ["bool"]);
    assert_eq!(names(&n.traits), ["Eq", "Show"]);
    assert_eq!(n.callables.len(), 1);
    assert_eq!(n.callables.key(0), "a_b_c_");
    assert_eq!(n.callables.value(0).params.len(), 2);
    assert_eq!(n.insts.len(), 0);
}

#[test]
fn scanned_bodies() {
    let s = owners();
    let cast = expr(
        HExprKind::Cast {
            expr: Box::new(var(0, st(2))),
            kind: CastKind::ToDyn { trait_name: "Show".to_string(), struct_id: StructId(2) },
            to: HType::Int,
        },
        HType::Int,
    );
    let closure = expr(
        HExprKind::Closure {
            lifted: FuncId(4),
            env_struct: StructId(0),
            env_values: vec![expr(HExprKind::FnRef(FuncId(9)), HType::Int)],
        },
        HType::Int,
    );
    let stmt = HStmt::While { cond: cast, body: block(vec![HStmt::ExprStmt(closure)]) };
    let mut n = Notes::new();
    scan_stmt(&s, &stmt, &mut n);
    assert_eq!(names(&n.traits), ["Show"]);
    assert_eq!(n.insts.len(), 1);
    assert_eq!(*n.insts.key(0), ("Show".to_string(), 2));
    assert!(n.closures.contains(&4));
    assert!(n.refs.contains(&9));

    let e = expr(HExprKind::ArrayLit(vec![var(0, slice(HType::Char))]), vector(HType::Int));
    let mut n = Notes::new();
    scan_expr(&s, &e, &mut n);
    assert_eq!(names(&n.slices), ["maka_char"]);
    assert_eq!(names(&n.vecs), ["maka_int"]);

    let f = func(
        0,
        "f",
        vec![],
        vec![local("a", slice(HType::Int))],
        vector(HType::Bool),
        block(vec![HStmt::Let { local: LocalId(0), init: var(0, slice(HType::Float)) }]),
    );
    let mut n = Notes::new();
    scan_func(&s, &f, &mut n);
    assert_eq!(names(&n.slices), ["maka_float", "maka_int"]);
    assert_eq!(names(&n.vecs), ["bool"]);
}

/// A logic `Show` with `draw` for two structs and `area` for one of them.
fn dispatching() -> SymTab {
    let mut s = tables(vec![record("Square", vec![]), record("Disc", vec![])], vec![]);
    let of = |name: &str, c_name: &str, id: u32, more: Vec<HType>, ret: HType| {
        let mut tys = vec![borrow(st(id))];
        tys.extend(more);
        let mut f = sig(name, tys, ret);
        f.c_name = c_name.to_string();
        f
    };
    s.sigs = vec![
        of("draw", "draw_sq", 0, vec![HType::Int], HType::Unit),
        of("draw", "draw_disc", 1, vec![HType::Int], HType::Unit),
        of("area", "area_disc", 1, vec![], HType::Float),
    ];
    s.logics = vec![LogicInfo { name: "Show".to_string(), funcs: vec![FuncId(0), FuncId(1), FuncId(2)] }];
    s
}

#[test]
fn trait_object_types() {
    let s = dispatching();
    assert_eq!(
        emit_dyn_typedefs(&s, &set(&["Show", "Unknown"])),
        "typedef struct Show_vtbl {
    maka_float (*area)(void*);
    void (*draw)(void*, maka_int);
} Show_vtbl;
typedef struct { void* data; const Show_vtbl* vtbl; } Dyn_Show;
"
    );
}

#[test]
fn trait_object_tables() {
    let s = dispatching();
    let mut insts: SortedMap<(String, u32), ()> = SortedMap::new();
    insts.insert(("Show".to_string(), 1), ());
    insts.insert(("Show".to_string(), 0), ());
    insts.insert(("Unknown".to_string(), 0), ());
    assert_eq!(
        emit_dyn_vtable_instances(&s, &insts),
        "static const Show_vtbl Show_vtbl_for_Square = {
    .draw = (void*)draw_sq,
};
static const Show_vtbl Show_vtbl_for_Disc = {
    .area = (void*)area_disc,
    .draw = (void*)draw_disc,
};
"
    );
}

#[test]
fn callable_types() {
    let s = owners();
    let mut n = Notes::new();
    let one = callable(HType::Unit, "unit", vec![HType::Int, st(1)], &["int", "Leaf"]);
    let two = callable(HType::Int, "int", vec![], &[]);
    note_type(&s, &one, &mut n);
    note_type(&s, &two, &mut n);
    assert_eq!(
        emit_callable_typedefs(&s, &n.callables),
        "typedef maka_int (*fn_int__raw)(void*);
typedef struct { fn_int__raw code; void* env; } Callable_int_;
typedef void (*fn_unit_int_Leaf__raw)(void*, maka_int, Leaf);
typedef struct { fn_unit_int_Leaf__raw code; void* env; } Callable_unit_int_Leaf_;
"
    );
}

#[test]
fn trampolines_ignore_the_environment() {
    let mut s = tables(vec![], vec![]);
    let mut skipped = sig("skipped", vec![], HType::Unit);
    skipped.is_inline = true;
    let mut foreign = sig("foreign", vec![], HType::Int);
    foreign.is_extern = true;
    foreign.c_name = "c.name".to_string();
    s.sigs = vec![
        sig("main", vec![], HType::Unit),
        sig("pick", vec![HType::Int, array(2, HType::Int)], HType::Int),
        skipped,
        foreign,
    ];
    let all = ids(&[0, 1, 2, 3, 70]);
    assert_eq!(
        emit_trampolines(&s, &all, true),
        "static void __tramp_maka_main(void* __env) {
    (void)__env;
    maka_main();
    return;
}
static maka_int __tramp_pick(void* __env, maka_int __a0, maka_int __a1[2]) {
    (void)__env;
    return pick(__a0, __a1);
}
static maka_int __tramp_c.name(void* __env) {
    (void)__env;
    return c.name();
}
"
    );
    assert_eq!(
        emit_trampolines(&s, &ids(&[0]), false),
        "static void __tramp_maka_main(void* __env) {
    (void)__env;
    (void)maka_main;
    return;
}
"
    );
}

#[test]
fn closure_trampolines_pass_the_environment() {
    let mut s = owners();
    s.sigs = vec![
        sig("lam", vec![borrow(st(2)), HType::Int], HType::Int),
        sig("act", vec![borrow(st(2))], HType::Unit),
        sig("none", vec![], HType::Int),
        sig("other", vec![HType::Int], HType::Int),
    ];
    assert_eq!(
        emit_closure_trampolines(&s, &ids(&[0, 1, 2, 3, 99])),
        "static maka_int lam_closure_trampoline(void* __env, maka_int __a0) {
    Plain* __es = (Plain*)__env;
    return lam(__es, __a0);
}
static void act_closure_trampoline(void* __env) {
    Plain* __es = (Plain*)__env;
    act(__es);
    return;
}
"
    );
}
