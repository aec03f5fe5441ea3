//! Whole programs, hosted and freestanding.
use maka_codegen::hir::{
    EnumInfo, FieldInfo, FuncId, FuncSig, GlobalInfo, HBlock, HExpr, HExprKind, HFunc, HStmt, HType,
    HirModule, LocalId, LocalInfo, StructId, StructInfo, SymTab, VariantInfo,
};
use maka_codegen::runtime::freestanding::{BANNER, FREESTANDING_HEADERS, FREESTANDING_RUNTIME};
use maka_codegen::runtime::hosted::{PLATFORM_HEADERS, BASE_RUNTIME, PAR_INT_SCAN};
use maka_codegen::runtime::sockets::{PORTABLE_EVENTS, TCP_SOCKETS};
use maka_codegen::module::emit_socket_helpers;
use maka_codegen::{emit, emit_freestanding};

fn num(n: i64) -> HExpr {
    HExpr { kind: HExprKind::LitInt(n), ty: HType::Int }
}

fn var(id: u32, ty: HType) -> HExpr {
    HExpr { kind: HExprKind::Local(LocalId(id)), ty }
}

fn expr(kind: HExprKind, ty: HType) -> HExpr {
    HExpr { kind, ty }
}

fn own_ptr(t: HType) -> HType {
    HType::OwnPtr { inner: Box::new(t), mutable: true }
}

fn block(stmts: Vec<HStmt>) -> HBlock {
    HBlock { stmts, ptr_nulls: vec![], heap_to_free: vec![] }
}

fn local(name: &str, ty: HType) -> LocalInfo {
    LocalInfo { name: name.to_string(), ty, thread_local: false }
}

fn field(name: &str, ty: HType) -> FieldInfo {
    FieldInfo { name: name.to_string(), ty }
}

fn record(name: &str, fields: Vec<FieldInfo>) -> StructInfo {
    StructInfo { name: name.to_string(), type_params: vec![], fields }
}

fn sig(name: &str, param_tys: Vec<HType>, ret: HType) -> FuncSig {
    FuncSig {
        name: name.to_string(),
        c_name: name.to_string(),
        type_params: vec![],
        param_names: vec![],
        param_tys,
        ret,
        param_keys: vec![],
        ret_key: "k".to_string(),
        is_extern: false,
        is_variadic: false,
        is_inline: false,
        is_pub: false,
        logic: None,
    }
}

fn func(id: u32, name: &str, params: Vec<u32>, locals: Vec<LocalInfo>, ret: HType, body: HBlock) -> HFunc {
    HFunc {
        id: FuncId(id),
        name: name.to_string(),
        params: params.into_iter().map(LocalId).collect(),
        locals,
        ret,
        body,
    }
}

fn module(structs: Vec<StructInfo>, enums: Vec<EnumInfo>, sigs: Vec<FuncSig>, funcs: Vec<HFunc>) -> HirModule {
    HirModule {
        sym: SymTab { structs, enums, sigs, funcs, globals: vec![], logics: vec![] },
        cincludes: vec![],
        cblocks: vec![],
    }
}

fn borrow(t: HType) -> HType {
    HType::Ref { inner: Box::new(t), mutable: false }
}

fn text_slice() -> HType {
    HType::Slice { elem: Box::new(HType::Str), mutable: false }
}

/// `main` with the given parameters and result, and no statements.
fn entry(param: Option<HType>, ret: HType) -> HirModule {
    let tys = |p: &Option<HType>| match p {
        Some(HType::Int) => vec![HType::Int],
        Some(_) => vec![text_slice()],
        None => vec![],
    };
    let ret2 = match ret {
        HType::Int => HType::Int,
        _ => HType::Unit,
    };
    let s = sig("main", tys(&param), ret2);
    let locals: Vec<LocalInfo> = tys(&param).into_iter().map(|t| local("args", t)).collect();
    let params = if locals.is_empty() { vec![] } else { vec![0] };
    module(vec![], vec![], vec![s], vec![func(0, "main", params, locals, ret, block(vec![]))])
}

fn last_line(m: &HirModule) -> String {
    emit(m).lines().last().unwrap().to_string()
}

#[test]
fn an_empty_freestanding_module() {
    let m = module(vec![], vec![], vec![], vec![]);
    assert_eq!(
        emit_freestanding(&m),
        format!("{}{}{}\n\n", BANNER, FREESTANDING_HEADERS, FREESTANDING_RUNTIME)
    );
}

#[test]
fn an_empty_hosted_module() {
    let m = module(vec![], vec![], vec![], vec![]);
    let out = emit(&m);
    assert!(out.starts_with(&format!("{}{}{}", BANNER, PLATFORM_HEADERS, BASE_RUNTIME)));
    assert!(out.contains(&format!("{}\n\n{}", PAR_INT_SCAN, TCP_SOCKETS)));
    assert!(out.ends_with(&format!("{}int main(void) {{ return 0; }}\n", PORTABLE_EVENTS)));
}

#[test]
fn a_freestanding_program_in_full() {
    let point = || HType::Struct(StructId(0));
    let mut m = module(
        vec![record("Point", vec![field("x", HType::Int)])],
        vec![EnumInfo {
            name: "Color".to_string(),
            variants: vec![VariantInfo { name: "Red".to_string(), tag: 0, fields: vec![] }],
        }],
        vec![],
        vec![],
    );
    m.cincludes = vec!["board.h".to_string()];
    m.cblocks = vec!["int board;".to_string()];
    let mut foreign = sig("poke", vec![HType::Int, HType::Str], HType::Unit);
    foreign.is_extern = true;
    foreign.is_variadic = true;
    foreign.param_names = vec!["at".to_string()];
    let mut bare = sig("tick", vec![], HType::Int);
    bare.is_extern = true;
    let mut shown = sig("show", vec![borrow(point())], HType::Unit);
    shown.is_pub = true;
    let mut spliced = sig("spliced", vec![], HType::Unit);
    spliced.is_inline = true;
    let mut template = sig("template", vec![], HType::Unit);
    template.type_params = vec!["T".to_string()];
    m.sym.sigs = vec![foreign, bare, shown, spliced, template, sig("main", vec![], HType::Unit)];
    m.sym.globals = vec![GlobalInfo { c_name: "limit".to_string(), ty: HType::Int, init: num(9) }];
    m.sym.funcs = vec![
        func(2, "show", vec![0], vec![local("p", borrow(point()))], HType::Unit, block(vec![])),
        func(3, "spliced", vec![], vec![], HType::Unit, block(vec![])),
        func(4, "template", vec![], vec![], HType::Unit, block(vec![])),
        func(
            5,
            "main",
            vec![],
            vec![local("v", HType::Vec { elem: Box::new(HType::Int) })],
            HType::Unit,
            block(vec![HStmt::ExprStmt(expr(
                HExprKind::Call { callee: FuncId(1), args: vec![] },
                HType::Int,
            ))]),
        ),
    ];
    assert_eq!(
        emit_freestanding(&m),
        format!(
            "{}{}#include <board.h>\n{}typedef struct Point Point;
typedef maka_int Color;
static const Color Color__Red = 0;
struct Point {{
    maka_int x;
}};

typedef struct Vec_maka_int {{ maka_int* data; maka_int len; maka_int cap; }} Vec_maka_int;
int board;
extern void poke(maka_int at, const char* p1, ...);
extern maka_int tick(void);
void show(Point* p_0);
void maka_main(void);

static maka_int limit = (maka_int)9LL;
void show(Point* p_0) {{
}}

void maka_main(void) {{
    (void)(tick());
}}

",
            BANNER, FREESTANDING_HEADERS, FREESTANDING_RUNTIME
        )
    );
}

/// The freestanding text asks for four functions and declares no other.
#[test]
fn freestanding_hooks() {
    let declared: Vec<&str> = FREESTANDING_RUNTIME.lines().filter(|l| l.starts_with("extern ")).collect();
    assert_eq!(
        declared,
        [
            "extern void* __maka_alloc(size_t sz);",
            "extern void  __maka_free(void* p);",
            "extern void  __maka_log(const char* s);",
            "extern void  __maka_panic(const char* msg);",
        ]
    );
    for name in ["int", "float", "bool", "char", "str", "ptr"] {
        assert!(FREESTANDING_RUNTIME.contains(&format!("static inline void maka_log_{}(", name)));
    }
    assert!(FREESTANDING_RUNTIME.contains("#define realloc(p, sz) "));
    let headers: Vec<&str> = FREESTANDING_HEADERS.lines().filter(|l| l.starts_with("#include")).collect();
    assert_eq!(
        headers,
        [
            "#include <stdint.h>",
            "#include <stdbool.h>",
            "#include <stddef.h>",
            "#include <stdarg.h>",
            "#include <stdatomic.h>",
        ]
    );
}

#[test]
fn socket_helpers_are_one_text() {
    let helpers = emit_socket_helpers();
    for m in [module(vec![], vec![], vec![], vec![]), entry(None, HType::Int), entry(None, HType::Unit)] {
        assert_eq!(emit(&m).matches(&helpers).count(), 1);
        assert!(!emit_freestanding(&m).contains(TCP_SOCKETS));
    }
    assert!(helpers.starts_with(TCP_SOCKETS));
    assert!(helpers.ends_with(PORTABLE_EVENTS));
}

#[test]
fn entry_points() {
    assert_eq!(
        last_line(&entry(None, HType::Unit)),
        "int main(int argc, char** argv) { __maka_rt_set_args(argc, argv); maka_main(); return 0; }"
    );
    assert_eq!(
        last_line(&entry(None, HType::Int)),
        "int main(int argc, char** argv) { __maka_rt_set_args(argc, argv); return (int)maka_main(); }"
    );
    assert_eq!(
        last_line(&entry(Some(text_slice()), HType::Unit)),
        "int main(int argc, char** argv) { __maka_rt_set_args(argc, argv); Slice_str args = { .ptr = (const char**)argv, .len = (maka_int)argc }; maka_main(args); return 0; }"
    );
    assert_eq!(
        last_line(&entry(Some(text_slice()), HType::Int)),
        "int main(int argc, char** argv) { __maka_rt_set_args(argc, argv); Slice_str args = { .ptr = (const char**)argv, .len = (maka_int)argc }; return (int)maka_main(args); }"
    );
    assert_eq!(
        last_line(&entry(Some(HType::Int), HType::Unit)),
        "int main(int argc, char** argv) { __maka_rt_set_args(argc, argv); maka_main(); return 0; }"
    );
}

#[test]
fn freestanding_modules_have_no_entry_point() {
    let out = emit_freestanding(&entry(None, HType::Int));
    assert!(!out.contains("int main("));
    assert!(!out.contains(TCP_SOCKETS));
    assert!(out.ends_with("maka_int maka_main(void) {\n}\n\n"));
}

/// What a hosted program adds follows the functions; what comes between the prologue
/// and that point is the same text.
#[test]
fn both_modes_share_the_middle() {
    let m = entry(None, HType::Int);
    let body = "\nmaka_int maka_main(void);\n\nmaka_int maka_main(void) {\n}\n\n";
    assert!(emit_freestanding(&m).ends_with(body));
    assert!(emit(&m).contains(&format!("{}{}", body, TCP_SOCKETS)));
}

#[test]
fn slice_types_used_in_bodies_are_defined_once() {
    let mut m = entry(Some(text_slice()), HType::Unit);
    m.sym.structs = vec![record("Names", vec![field("all", text_slice())])];
    let out = emit(&m);
    assert_eq!(out.matches("typedef struct Slice_str {").count(), 1);
    assert!(out.find("typedef struct Slice_str {").unwrap() < out.find("struct Names {").unwrap());
}

#[test]
fn forward_declarations_stand_before_bodies() {
    let m = entry(None, HType::Unit);
    let out = emit(&m);
    let declared = out.find("void maka_main(void);\n").unwrap();
    let defined = out.find("void maka_main(void) {\n").unwrap();
    assert!(declared < defined);
}

#[test]
fn function_values_get_a_type_and_a_trampoline() {
    let int_fn = || HType::FnPtr {
        ret: Box::new(HType::Int),
        params: vec![HType::Int],
        ret_key: "int".to_string(),
        param_keys: vec!["int".to_string()],
    };
    let mut twice = sig("twice", vec![HType::Int], HType::Int);
    twice.ret_key = "int".to_string();
    twice.param_keys = vec!["int".to_string()];
    let f = func(
        0,
        "twice",
        vec![0],
        vec![local("n", HType::Int), local("g", int_fn())],
        HType::Int,
        block(vec![HStmt::Let { local: LocalId(1), init: expr(HExprKind::FnRef(FuncId(0)), int_fn()) }]),
    );
    let out = emit_freestanding(&module(vec![], vec![], vec![twice], vec![f]));
    assert!(out.contains("typedef struct { fn_int_int__raw code; void* env; } Callable_int_int_;\n"));
    assert!(out.contains("static maka_int __tramp_twice(void* __env, maka_int __a0) {\n    (void)__env;\n    return twice(__a0);\n}\n"));
    assert!(out.contains("    Callable_int_int_ g_1 = ((Callable_int_int_){ .code = (fn_int_int__raw)__tramp_twice, .env = NULL });\n"));
}

#[test]
fn drop_glue_stands_before_the_functions_that_use_it() {
    let cell = || HType::Struct(StructId(0));
    let mut body = block(vec![]);
    body.heap_to_free = vec![LocalId(0)];
    let f = func(0, "f", vec![], vec![local("c", cell())], HType::Unit, body);
    let m = module(
        vec![record("Cell", vec![field("p", own_ptr(HType::Int))])],
        vec![],
        vec![sig("f", vec![], HType::Unit)],
        vec![f],
    );
    let out = emit_freestanding(&m);
    assert!(out.ends_with(
        "/* ---- recursive drop glue ---- */
static void __maka_drop_Cell(struct Cell* p);
static void __maka_drop_Cell(struct Cell* p) {
    if (p->p) {
        free(p->p);
    }
}

static void f(void) {
    /* drop heap c */
    __maka_drop_Cell(&(c_0));
}

"
    ));
}
