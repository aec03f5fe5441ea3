//! Function bodies: expressions and statements.
use maka_codegen::hir::{
    CastKind, EnumId, EnumInfo, FieldInfo, FuncId, FuncSig, HArmKind, HAssignOp, HBinOp, HBlock,
    HExpr, HExprKind, HFunc, HMatchArm, HStmt, HType, HUnOp, HirModule, LocalId, LocalInfo,
    StructId, StructInfo, SymTab, VariantInfo,
};
use maka_codegen::emit_freestanding;

fn num(n: i64) -> HExpr {
    HExpr { kind: HExprKind::LitInt(n), ty: HType::Int }
}

fn var(id: u32, ty: HType) -> HExpr {
    HExpr { kind: HExprKind::Local(LocalId(id)), ty }
}

fn expr(kind: HExprKind, ty: HType) -> HExpr {
    HExpr { kind, ty }
}

fn own_ptr(t: HType) -> HType {
    HType::OwnPtr { inner: Box::new(t), mutable: true }
}

fn block(stmts: Vec<HStmt>) -> HBlock {
    HBlock { stmts, ptr_nulls: vec![], heap_to_free: vec![] }
}

fn local(name: &str, ty: HType) -> LocalInfo {
    LocalInfo { name: name.to_string(), ty, thread_local: false }
}

fn field(name: &str, ty: HType) -> FieldInfo {
    FieldInfo { name: name.to_string(), ty }
}

fn record(name: &str, fields: Vec<FieldInfo>) -> StructInfo {
    StructInfo { name: name.to_string(), type_params: vec![], fields }
}

fn sig(name: &str, param_tys: Vec<HType>, ret: HType) -> FuncSig {
    FuncSig {
        name: name.to_string(),
        c_name: name.to_string(),
        type_params: vec![],
        param_names: vec![],
        param_tys,
        ret,
        param_keys: vec![],
        ret_key: "k".to_string(),
        is_extern: false,
        is_variadic: false,
        is_inline: false,
        is_pub: false,
        logic: None,
    }
}

fn func(id: u32, name: &str, params: Vec<u32>, locals: Vec<LocalInfo>, ret: HType, body: HBlock) -> HFunc {
    HFunc {
        id: FuncId(id),
        name: name.to_string(),
        params: params.into_iter().map(LocalId).collect(),
        locals,
        ret,
        body,
    }
}

fn module(structs: Vec<StructInfo>, enums: Vec<EnumInfo>, sigs: Vec<FuncSig>, funcs: Vec<HFunc>) -> HirModule {
    HirModule {
        sym: SymTab { structs, enums, sigs, funcs, globals: vec![], logics: vec![] },
        cincludes: vec![],
        cblocks: vec![],
    }
}

fn tables() -> (Vec<StructInfo>, Vec<EnumInfo>) {
    let point = record("Point", vec![field("x", HType::Int), field("y", HType::Int)]);
    let cell = record("Cell", vec![field("next", own_ptr(HType::Int))]);
    let color = EnumInfo {
        name: "Color".to_string(),
        variants: vec![
            VariantInfo { name: "Red".to_string(), tag: 0, fields: vec![] },
            VariantInfo { name: "Blue".to_string(), tag: 1, fields: vec![] },
        ],
    };
    let shape = EnumInfo {
        name: "Shape".to_string(),
        variants: vec![
            VariantInfo { name: "None".to_string(), tag: 0, fields: vec![] },
            VariantInfo {
                name: "Circle".to_string(),
                tag: 1,
                fields: vec![field("r", HType::Int), field("n", HType::Int)],
            },
        ],
    };
    (vec![point, cell], vec![color, shape])
}

/// The lines between the head and the end of the function `f`.
fn body_in(m: &HirModule, head: &str) -> String {
    let out = emit_freestanding(m);
    let at = out.find(&format!("{} {{\n", head)).expect("function head") + head.len() + 3;
    let rest = &out[at..];
    rest[..rest.find("\n}\n").expect("function end") + 1].to_string()
}

fn lower_block(locals: Vec<LocalInfo>, body: HBlock) -> String {
    let (structs, enums) = tables();
    let mut other = sig("other", vec![HType::Int], HType::Int);
    other.param_keys = vec!["int".to_string()];
    other.ret_key = "int".to_string();
    let mut foreign = sig("puts", vec![HType::Str], HType::Unit);
    foreign.is_extern = true;
    let sigs = vec![sig("f", vec![], HType::Unit), other, foreign];
    let f = func(0, "f", vec![], locals, HType::Unit, body);
    body_in(&module(structs, enums, sigs, vec![f]), "static void f(void)")
}

fn lower(locals: Vec<LocalInfo>, stmts: Vec<HStmt>) -> String {
    lower_block(locals, block(stmts))
}

/// The C text of one expression.
fn value(locals: Vec<LocalInfo>, e: HExpr) -> String {
    let text = lower(locals, vec![HStmt::ExprStmt(e)]);
    text["    (void)(".len()..text.len() - ");\n".len()].to_string()
}

fn boxed(e: HExpr) -> Box<HExpr> {
    Box::new(e)
}

fn point() -> HType {
    HType::Struct(StructId(0))
}

fn shape() -> HType {
    HType::Enum(EnumId(1))
}

fn call(id: u32, args: Vec<HExpr>, ty: HType) -> HExpr {
    expr(HExprKind::Call { callee: FuncId(id), args }, ty)
}

fn text(s: &str) -> HExpr {
    expr(HExprKind::LitStr(s.to_string()), HType::Str)
}

#[test]
fn literals() {
    assert_eq!(value(vec![], num(-1)), "(maka_int)-1LL");
    assert_eq!(value(vec![], text("a\"b")), "\"a\\\"b\"");
    assert_eq!(value(vec![], expr(HExprKind::LitBool(false), HType::Bool)), "false");
    assert_eq!(value(vec![], expr(HExprKind::LitChar('z'), HType::Char)), "(maka_char)122u");
    assert_eq!(value(vec![], expr(HExprKind::LitFloat("1".to_string()), HType::Float)), "(maka_float)1");
    assert_eq!(value(vec![], expr(HExprKind::LitNull, HType::NullT)), "NULL");
    assert_eq!(value(vec![], expr(HExprKind::LitUnit, HType::Unit)), "MAKA_UNIT");
}

#[test]
fn arithmetic_and_comparison() {
    let sum = expr(HExprKind::Bin { op: HBinOp::Add, lhs: boxed(num(1)), rhs: boxed(num(2)) }, HType::Int);
    assert_eq!(value(vec![], sum), "(((maka_int)1LL) + ((maka_int)2LL))");
    let neg = expr(HExprKind::Un { op: HUnOp::Neg, expr: boxed(num(1)) }, HType::Int);
    assert_eq!(value(vec![], neg), "(-((maka_int)1LL))");
    let same = |ty: u32| {
        expr(
            HExprKind::Bin {
                op: HBinOp::Eq,
                lhs: boxed(var(0, HType::Enum(EnumId(ty)))),
                rhs: boxed(var(0, HType::Enum(EnumId(ty)))),
            },
            HType::Bool,
        )
    };
    assert_eq!(value(vec![local("e", shape())], same(1)), "((e_0).tag == (e_0).tag)");
    assert_eq!(value(vec![local("e", HType::Enum(EnumId(0)))], same(0)), "((e_0) == (e_0))");
}

#[test]
fn fields_and_elements() {
    let by_value = expr(HExprKind::Field { base: boxed(var(0, point())), field: 1 }, HType::Int);
    assert_eq!(value(vec![local("p", point())], by_value), "(p_0.y)");
    let by_pointer = expr(
        HExprKind::Field { base: boxed(var(0, own_ptr(point()))), field: 0 },
        HType::Int,
    );
    assert_eq!(value(vec![local("p", own_ptr(point()))], by_pointer), "(p_0->x)");
    let arr = || HType::Array { len: 3, elem: Box::new(HType::Int) };
    let at = |i: HExpr| expr(HExprKind::Index { base: boxed(var(0, arr())), idx: boxed(i) }, HType::Int);
    assert_eq!(value(vec![local("a", arr())], at(num(2))), "((a_0)[(maka_int)((maka_int)2LL)])");
    assert_eq!(
        value(vec![local("a", arr())], at(num(3))),
        "((a_0)[maka_check_idx((maka_int)((maka_int)3LL), (maka_int)3, \"array idx\")])"
    );
}

#[test]
fn pointers() {
    let ptr_arr = || HType::Ptr { inner: Box::new(HType::Array { len: 2, elem: Box::new(HType::Int) }), mutable: false };
    let unwrap = |ty: HType| expr(HExprKind::Unwrap { expr: boxed(var(0, ty)), skip_check: true }, HType::Int);
    assert_eq!(value(vec![local("p", own_ptr(HType::Int))], unwrap(own_ptr(HType::Int))), "(*(p_0))");
    let unproven = expr(HExprKind::Unwrap { expr: boxed(var(0, own_ptr(HType::Int))), skip_check: false }, HType::Int);
    assert_eq!(value(vec![local("p", own_ptr(HType::Int))], unproven), "(*(p_0))");
    assert_eq!(value(vec![local("p", ptr_arr())], unwrap(ptr_arr())), "p_0");
    let addr = |ty: HType| expr(HExprKind::AddrOfRef { mutable: false, place: boxed(var(0, ty)) }, HType::Int);
    assert_eq!(value(vec![local("n", HType::Int)], addr(HType::Int)), "(&(n_0))");
    let arr = || HType::Array { len: 2, elem: Box::new(HType::Int) };
    assert_eq!(value(vec![local("a", arr())], addr(arr())), "(a_0)");
    let object = || HType::Dyn { traits: vec!["Show".to_string()] };
    assert_eq!(value(vec![local("d", object())], addr(object())), "d_0");
    let free = expr(HExprKind::Free(boxed(var(0, own_ptr(HType::Int)))), HType::Unit);
    assert_eq!(value(vec![local("p", own_ptr(HType::Int))], free), "(free((void*)(p_0)), MAKA_UNIT)");
}

#[test]
fn allocation() {
    let cell = expr(HExprKind::HeapAlloc(boxed(num(1))), own_ptr(HType::Int));
    assert_eq!(
        value(vec![], cell),
        "(__extension__ ({ maka_int* __p = (maka_int*)malloc(sizeof(maka_int)); *__p = ((maka_int)1LL); __p; }))"
    );
    let arr = || HType::Array { len: 2, elem: Box::new(HType::Int) };
    let list = expr(HExprKind::ArrayLit(vec![num(1), num(2)]), arr());
    let filled = expr(HExprKind::HeapAlloc(boxed(list)), own_ptr(arr()));
    assert_eq!(
        value(vec![], filled),
        "(__extension__ ({ maka_int* __d = (maka_int*)malloc(sizeof(maka_int)*2); __d[0] = (maka_int)1LL; __d[1] = (maka_int)2LL; __d; }))"
    );
    let copied = expr(HExprKind::HeapAlloc(boxed(var(0, arr()))), own_ptr(arr()));
    assert_eq!(
        value(vec![local("a", arr())], copied),
        "(__extension__ ({ maka_int __s[2] = a_0; maka_int* __d = (maka_int*)malloc(sizeof(maka_int)*2); for (size_t __i=0;__i<(size_t)2;__i++) __d[__i]=__s[__i]; __d; }))"
    );
}

#[test]
fn array_literals() {
    let slice = expr(
        HExprKind::ArrayLit(vec![num(1)]),
        HType::Slice { elem: Box::new(HType::Int), mutable: false },
    );
    assert_eq!(
        value(vec![], slice),
        "((Slice_maka_int){ .ptr = ((maka_int[]){ (maka_int)1LL }), .len = 1 })"
    );
    let empty = expr(HExprKind::ArrayLit(vec![]), HType::Vec { elem: Box::new(HType::Int) });
    assert_eq!(value(vec![], empty), "((Vec_maka_int){ .data = NULL, .len = 0, .cap = 0 })");
    let vector = expr(HExprKind::ArrayLit(vec![num(7)]), HType::Vec { elem: Box::new(HType::Int) });
    assert_eq!(
        value(vec![], vector),
        "(__extension__ ({ maka_int* __d = (maka_int*)malloc(sizeof(maka_int)*1); __d[0] = (maka_int)7LL; (Vec_maka_int){ .data = __d, .len = 1, .cap = 1 }; }))"
    );
    let view = expr(
        HExprKind::ArrayToSlice { base: boxed(var(0, HType::Array { len: 4, elem: Box::new(HType::Bool) })), len: 4 },
        HType::Slice { elem: Box::new(HType::Bool), mutable: false },
    );
    assert_eq!(
        value(vec![local("a", HType::Array { len: 4, elem: Box::new(HType::Bool) })], view),
        "((Slice_bool){ .ptr = ((a_0)), .len = 4 })"
    );
}

#[test]
fn struct_and_variant_literals() {
    let p = expr(HExprKind::Struct { id: StructId(0), fields: vec![(1, num(5))] }, point());
    assert_eq!(value(vec![], p), "((Point){ .x = NULL, .y = (maka_int)5LL })");
    let plain = expr(HExprKind::EnumVariant(EnumId(0), 1), HType::Enum(EnumId(0)));
    assert_eq!(value(vec![], plain), "Color__Blue");
    let bare = expr(HExprKind::EnumVariant(EnumId(1), 0), shape());
    assert_eq!(value(vec![], bare), "((Shape){ .tag = 0 })");
    let full = expr(
        HExprKind::VariantCtor { enum_id: EnumId(1), variant: 1, fields: vec![(0, num(3))] },
        shape(),
    );
    assert_eq!(
        value(vec![], full),
        "((Shape){ .tag = 1, .payload.Circle = { .r = (maka_int)3LL, .n = 0 } })"
    );
    let empty = expr(HExprKind::VariantCtor { enum_id: EnumId(1), variant: 0, fields: vec![] }, shape());
    assert_eq!(value(vec![], empty), "((Shape){ .tag = 0 })");
    let tag = expr(HExprKind::EnumTag(boxed(var(0, shape()))), HType::Int);
    assert_eq!(value(vec![local("s", shape())], tag), "(maka_int)((s_0).tag)");
}

#[test]
fn lengths() {
    let len = |ty: HType| expr(HExprKind::SliceLen(boxed(var(0, ty))), HType::Int);
    let vector = || HType::Vec { elem: Box::new(HType::Int) };
    let arr = || HType::Array { len: 9, elem: Box::new(HType::Int) };
    assert_eq!(value(vec![local("v", vector())], len(vector())), "(v_0).len");
    assert_eq!(value(vec![local("a", arr())], len(arr())), "(maka_int)9");
    let heap = || HType::Heap { inner: Box::new(arr()) };
    assert_eq!(value(vec![local("a", heap())], len(heap())), "(maka_int)9");
    assert_eq!(value(vec![local("n", HType::Int)], len(HType::Int)), "0");
}

#[test]
fn calls() {
    assert_eq!(value(vec![], call(1, vec![num(1)], HType::Int)), "other((maka_int)1LL)");
    assert_eq!(value(vec![], call(2, vec![text("x")], HType::Unit)), "(puts(\"x\"), MAKA_UNIT)");
    let object = || HType::Dyn { traits: vec!["Show".to_string()] };
    let place = expr(HExprKind::AddrOfRef { mutable: true, place: boxed(var(0, object())) },
        HType::Ref { inner: Box::new(object()), mutable: true });
    assert_eq!(
        value(vec![local("d", object())], call(1, vec![place, num(2)], HType::Int)),
        "(d_0).vtbl->other((d_0).data, (maka_int)2LL)"
    );
    assert_eq!(
        value(vec![local("d", object())], call(2, vec![var(0, object())], HType::Unit)),
        "((d_0).vtbl->puts((d_0).data), MAKA_UNIT)"
    );
}

#[test]
fn function_values() {
    let f = expr(HExprKind::FnRef(FuncId(1)), HType::Unit);
    assert_eq!(
        value(vec![], f),
        "((Callable_int_int_){ .code = (fn_int_int__raw)__tramp_other, .env = NULL })"
    );
    let ty = || HType::FnPtr {
        ret: Box::new(HType::Unit),
        params: vec![HType::Int],
        ret_key: "unit".to_string(),
        param_keys: vec!["int".to_string()],
    };
    let through = expr(
        HExprKind::CallIndirect { callee: boxed(var(0, ty())), args: vec![num(1)] },
        HType::Unit,
    );
    assert_eq!(
        value(vec![local("g", ty())], through),
        "(__extension__ ({ Callable_unit_int_ __c = (g_0); __c.code(__c.env, (maka_int)1LL), MAKA_UNIT; }))"
    );
}

#[test]
fn closures_capture_by_field() {
    let c = expr(
        HExprKind::Closure { lifted: FuncId(1), env_struct: StructId(0), env_values: vec![num(1)] },
        HType::Unit,
    );
    assert_eq!(
        value(vec![], c),
        "(__extension__ ({ Point* __env = (Point*)malloc(sizeof(Point)); *__env = (Point){ .x = (maka_int)1LL, .y = 0 }; (Callable_int_){ .code = (fn_int__raw)other_closure_trampoline, .env = __env }; }))"
    );
}

#[test]
fn casts_to_trait_objects() {
    let c = expr(
        HExprKind::Cast {
            expr: boxed(var(0, point())),
            kind: CastKind::ToDyn { trait_name: "Show".to_string(), struct_id: StructId(0) },
            to: HType::Dyn { traits: vec!["Show".to_string()] },
        },
        HType::Dyn { traits: vec!["Show".to_string()] },
    );
    assert_eq!(
        value(vec![local("p", point())], c),
        "((Dyn_Show){ .data = (void*)(&(p_0)), .vtbl = &Show_vtbl_for_Point })"
    );
}

#[test]
fn built_in_calls() {
    let b = |k: u32, args: Vec<HExpr>| call(u32::MAX - k, args, HType::Unit);
    assert_eq!(value(vec![], b(0, vec![num(1)])), "(maka_log_int((maka_int)1LL), MAKA_UNIT)");
    assert_eq!(value(vec![], b(0, vec![])), "MAKA_UNIT");
    assert_eq!(value(vec![], b(2, vec![])), "(maka_panic(\"\"), MAKA_UNIT)");
    assert_eq!(value(vec![], b(2, vec![text("no")])), "(maka_panic(\"no\"), MAKA_UNIT)");
    assert_eq!(
        value(vec![], b(58, vec![text("%lld"), num(1)])),
        "(printf(\"%lld\", (long long)((maka_int)1LL)), MAKA_UNIT)"
    );
    assert_eq!(value(vec![], b(59, vec![text("hi")])), "__maka_format1(\"hi\")");
    assert_eq!(value(vec![], b(5, vec![text("a"), text("b")])), "__maka_str_concat(\"a\", \"b\")");
    assert_eq!(value(vec![], b(5, vec![text("a")])), "((char*)0)");
    assert_eq!(
        value(vec![], b(57, vec![num(1), num(2)])),
        "(int64_t)__maka_syscall((long)((maka_int)1LL), (long)((maka_int)2LL), 0L, 0L, 0L, 0L, 0L)"
    );
    assert_eq!(
        value(vec![], b(57, vec![])),
        "(int64_t)__maka_syscall(0L, 0L, 0L, 0L, 0L, 0L, 0L)"
    );
    assert_eq!(
        value(vec![local("n", HType::Int)], b(45, vec![var(0, HType::Int), num(1), num(2)])),
        "(__extension__ ({ maka_int __exp = ((maka_int)1LL); __atomic_compare_exchange_n(n_0, &__exp, ((maka_int)2LL), 0, __ATOMIC_SEQ_CST, __ATOMIC_SEQ_CST); __exp; }))"
    );
    assert_eq!(
        value(vec![local("n", HType::Int)], b(52, vec![var(0, HType::Int), num(1)])),
        "__atomic_fetch_xor((n_0), ((maka_int)1LL), __ATOMIC_SEQ_CST)"
    );
    assert_eq!(value(vec![], b(20, vec![])), "(__maka_yield_now(), MAKA_UNIT)");
    assert_eq!(
        value(vec![], b(19, vec![num(0), num(9), num(5)])),
        "(__extension__ ({ Callable_unit_int_ __cb = ((maka_int)5LL); __maka_par_for_range((int64_t)((maka_int)0LL), (int64_t)((maka_int)9LL), __cb.code, __cb.env); MAKA_UNIT; }))"
    );
    assert_eq!(value(vec![], b(22, vec![])), "((Vec_maka_int){ .data = NULL, .len = 0, .cap = 0 })");
}

#[test]
fn push_and_pop() {
    let ty = || HType::Ref { inner: Box::new(HType::Vec { elem: Box::new(HType::Int) }), mutable: true };
    let b = |k: u32, args: Vec<HExpr>| call(u32::MAX - k, args, HType::Unit);
    assert_eq!(
        value(vec![local("v", ty())], b(60, vec![var(0, ty()), num(1)])),
        "(__extension__ ({ Vec_maka_int* __vp = v_0; if (__vp->len == __vp->cap) { __vp->cap = __vp->cap ? __vp->cap * 2 : 4; __vp->data = realloc(__vp->data, __vp->cap * sizeof(*__vp->data)); } __vp->data[__vp->len++] = ((maka_int)1LL); MAKA_UNIT; }))"
    );
    assert_eq!(
        value(vec![local("v", ty())], b(61, vec![var(0, ty())])),
        "(__extension__ ({ Vec_maka_int* __vp = v_0; if (__vp->len == 0) { maka_panic(\"pop from empty Vec\"); } __vp->len--; __vp->data[__vp->len]; }))"
    );
}

#[test]
fn declarations() {
    let heap = |t: HType| HType::Heap { inner: Box::new(t) };
    let mk = |init: HExpr| vec![HStmt::Let { local: LocalId(0), init }];
    assert_eq!(lower(vec![local("n", HType::Int)], mk(num(1))), "    maka_int n_0 = (maka_int)1LL;\n");
    assert_eq!(
        lower(vec![local("h", heap(HType::Int))], mk(num(1))),
        "    maka_int* h_0 = (maka_int*)malloc(sizeof(maka_int));\n    *h_0 = (maka_int)1LL;\n"
    );
    assert_eq!(
        lower(vec![local("h", heap(HType::Int)), local("g", heap(HType::Int))], mk(var(1, heap(HType::Int)))),
        "    maka_int* h_0 = g_1; /* moved */\n"
    );
    assert_eq!(
        lower(vec![local("h", heap(HType::Int))], mk(call(1, vec![num(1)], heap(HType::Int)))),
        "    maka_int* h_0 = other((maka_int)1LL);\n"
    );
    let vector = || HType::Vec { elem: Box::new(HType::Int) };
    assert_eq!(
        lower(vec![local("v", heap(vector()))], mk(expr(HExprKind::ArrayLit(vec![]), vector()))),
        "    Vec_maka_int v_0 = ((Vec_maka_int){ .data = NULL, .len = 0, .cap = 0 });\n"
    );
    let mut t = local("n", HType::Int);
    t.thread_local = true;
    assert_eq!(lower(vec![t], mk(num(1))), "    static __thread maka_int n_0 = (maka_int)1LL;\n");
}

#[test]
fn moving_out_of_a_field_clears_it() {
    let cell = || HType::Struct(StructId(1));
    let taken = || expr(HExprKind::Field { base: boxed(var(1, cell())), field: 0 }, own_ptr(HType::Int));
    let locals = || vec![local("p", own_ptr(HType::Int)), local("c", cell())];
    assert_eq!(
        lower(locals(), vec![HStmt::Let { local: LocalId(0), init: taken() }]),
        "    maka_int* p_0 = (c_1.next);\n    c_1.next = NULL;\n"
    );
    assert_eq!(
        lower(locals(), vec![HStmt::Assign { op: HAssignOp::Assign, place: var(0, own_ptr(HType::Int)), value: taken() }]),
        "    if (p_0) {\n        free(p_0);\n    }\n    p_0 = (c_1.next);\n    c_1.next = NULL;\n"
    );
}

#[test]
fn reading_through_a_borrow_leaves_the_field() {
    let lent = || HType::Ref { inner: Box::new(HType::Struct(StructId(1))), mutable: false };
    let read = expr(HExprKind::Field { base: boxed(var(1, lent())), field: 0 }, own_ptr(HType::Int));
    assert_eq!(
        lower(
            vec![local("p", own_ptr(HType::Int)), local("c", lent())],
            vec![HStmt::Let { local: LocalId(0), init: read }],
        ),
        "    maka_int* p_0 = (c_1->next);\n"
    );
}

#[test]
fn assignments() {
    let set = |op: HAssignOp, place: HExpr, value: HExpr| vec![HStmt::Assign { op, place, value }];
    assert_eq!(
        lower(vec![local("n", HType::Int)], set(HAssignOp::Add, var(0, HType::Int), num(2))),
        "    n_0 += (maka_int)2LL;\n"
    );
    let heap = || HType::Heap { inner: Box::new(HType::Int) };
    assert_eq!(
        lower(vec![local("h", heap())], set(HAssignOp::Assign, var(0, heap()), num(2))),
        "    *h_0 = (maka_int)2LL;\n"
    );
    let refm = || HType::Ref { inner: Box::new(HType::Int), mutable: true };
    assert_eq!(
        lower(vec![local("r", refm())], set(HAssignOp::Mul, var(0, refm()), num(2))),
        "    *r_0 *= (maka_int)2LL;\n"
    );
    let unwrap = expr(HExprKind::Unwrap { expr: boxed(var(0, own_ptr(HType::Int))), skip_check: true }, HType::Int);
    assert_eq!(
        lower(vec![local("p", own_ptr(HType::Int))], set(HAssignOp::Assign, unwrap, num(2))),
        "    *(p_0) = (maka_int)2LL;\n"
    );
    let again = expr(HExprKind::Transfer(boxed(var(0, own_ptr(HType::Int)))), own_ptr(HType::Int));
    assert_eq!(
        lower(vec![local("p", own_ptr(HType::Int))], set(HAssignOp::Assign, var(0, own_ptr(HType::Int)), again)),
        "    p_0 = p_0;\n"
    );
}

#[test]
fn returns_release_after_the_value() {
    let drops = || vec![LocalId(0)];
    let locals = || vec![local("p", own_ptr(HType::Int))];
    assert_eq!(
        lower(locals(), vec![HStmt::Return { value: Some(num(1)), heap_drops: drops() }]),
        "    {\n        maka_int __ret = (maka_int)1LL;\n        /* drop on return */\n        if (p_0) {\n            free(p_0);\n        }\n        return __ret;\n    }\n"
    );
    assert_eq!(
        lower(locals(), vec![HStmt::Return { value: None, heap_drops: drops() }]),
        "    /* drop on return */\n    if (p_0) {\n        free(p_0);\n    }\n    return;\n"
    );
    assert_eq!(
        lower(vec![], vec![HStmt::Return { value: Some(expr(HExprKind::LitUnit, HType::Unit)), heap_drops: vec![] }]),
        "    (void)(MAKA_UNIT);\n    return;\n"
    );
}

#[test]
fn blocks_clear_and_release_at_their_end() {
    let b = HBlock {
        stmts: vec![HStmt::Break],
        ptr_nulls: vec![LocalId(1)],
        heap_to_free: vec![LocalId(0)],
    };
    assert_eq!(
        lower_block(vec![local("v", HType::Vec { elem: Box::new(own_ptr(HType::Int)) }), local("q", HType::Int)], b),
        "    break;\n    q_1 = NULL; /* collapse q */\n    /* drop heap v */\n    for (size_t __v0 = 0; __v0 < (v_0).len; __v0++) {\n        if ((v_0).data[__v0]) {\n            free((v_0).data[__v0]);\n        }\n    }\n    free(v_0.data);\n"
    );
}

#[test]
fn control_flow() {
    let yes = || expr(HExprKind::LitBool(true), HType::Bool);
    assert_eq!(
        lower(vec![], vec![HStmt::If { cond: yes(), then_b: block(vec![HStmt::Break]), else_b: Some(block(vec![HStmt::Continue])) }]),
        "    if (true) {\n        break;\n    } else {\n        continue;\n    }\n"
    );
    assert_eq!(
        lower(vec![], vec![HStmt::While { cond: yes(), body: block(vec![]) }]),
        "    while (true) {\n    }\n"
    );
    assert_eq!(
        lower(vec![], vec![HStmt::Unsafe(block(vec![HStmt::Block(block(vec![]))]))]),
        "    /* unsafe */ {\n        {\n        }\n    }\n"
    );
    assert_eq!(
        lower(vec![], vec![HStmt::Propagate { value: Some(num(1)) }, HStmt::Propagate { value: None }]),
        "    return (maka_int)1LL;\n    return;\n"
    );
}

fn range_loop(limit: HExpr, body: Vec<HStmt>) -> HStmt {
    HStmt::ForC {
        init: Box::new(HStmt::Let { local: LocalId(0), init: num(0) }),
        cond: expr(HExprKind::Bin { op: HBinOp::Lt, lhs: boxed(var(0, HType::Int)), rhs: boxed(limit) }, HType::Bool),
        step: Box::new(HStmt::Assign { op: HAssignOp::Add, place: var(0, HType::Int), value: num(1) }),
        body: block(body),
    }
}

#[test]
fn range_loops_need_no_bounds_check() {
    let arr = || HType::Array { len: 3, elem: Box::new(HType::Int) };
    let at = || HStmt::ExprStmt(expr(HExprKind::Index { base: boxed(var(1, arr())), idx: boxed(var(0, HType::Int)) }, HType::Int));
    let locals = || vec![local("i", HType::Int), local("a", arr())];
    assert_eq!(
        lower(locals(), vec![range_loop(num(3), vec![at()]), at()]),
        "    maka_int i_0 = (maka_int)0LL;\n    for (; ((i_0) < ((maka_int)3LL)); i_0 += (maka_int)1LL) {\n        (void)(((a_1)[(maka_int)(i_0)]));\n    }\n    (void)(((a_1)[maka_check_idx((maka_int)(i_0), (maka_int)3, \"array idx\")]));\n"
    );
    let out = lower(locals(), vec![range_loop(num(4), vec![at()])]);
    assert!(out.contains("maka_check_idx"));
    let moved = HStmt::Assign { op: HAssignOp::Assign, place: var(0, HType::Int), value: num(10) };
    let out = lower(locals(), vec![range_loop(num(3), vec![moved, at()])]);
    assert!(out.contains("maka_check_idx"));
}

#[test]
fn checks_are_left_out_at_any_depth_of_the_loop_and_nowhere_else() {
    let arr = || HType::Array { len: 3, elem: Box::new(HType::Int) };
    let element = || expr(HExprKind::Index { base: boxed(var(1, arr())), idx: boxed(var(0, HType::Int)) }, HType::Int);
    let at = || HStmt::ExprStmt(element());
    let locals = || vec![local("i", HType::Int), local("a", arr())];
    let inner = HStmt::While {
        cond: element(),
        body: block(vec![HStmt::If { cond: num(1), then_b: block(vec![]), else_b: Some(block(vec![at()])) }]),
    };
    let out = lower(locals(), vec![at(), range_loop(num(3), vec![inner]), HStmt::Block(block(vec![at()]))]);
    assert_eq!(out.matches("((a_1)[(maka_int)(i_0)])").count(), 2);
    assert_eq!(out.matches("((a_1)[maka_check_idx((maka_int)(i_0), (maka_int)3, \"array idx\")])").count(), 2);
    let head = HStmt::ForC {
        init: Box::new(HStmt::Let { local: LocalId(0), init: num(0) }),
        cond: expr(HExprKind::Bin { op: HBinOp::Lt, lhs: boxed(var(0, HType::Int)), rhs: boxed(num(3)) }, HType::Bool),
        step: Box::new(HStmt::Assign { op: HAssignOp::Add, place: var(0, HType::Int), value: element() }),
        body: block(vec![]),
    };
    assert!(lower(locals(), vec![head]).contains("i_0 += ((a_1)[maka_check_idx("));
}

#[test]
fn loops_that_do_not_count_up_keep_their_checks() {
    let arr = || HType::Array { len: 3, elem: Box::new(HType::Int) };
    let at = || HStmt::ExprStmt(expr(HExprKind::Index { base: boxed(var(1, arr())), idx: boxed(var(0, HType::Int)) }, HType::Int));
    let with = |op: HAssignOp, value: HExpr| HStmt::ForC {
        init: Box::new(HStmt::Let { local: LocalId(0), init: num(2) }),
        cond: expr(HExprKind::Bin { op: HBinOp::Lt, lhs: boxed(var(0, HType::Int)), rhs: boxed(num(3)) }, HType::Bool),
        step: Box::new(HStmt::Assign { op, place: var(0, HType::Int), value }),
        body: block(vec![at()]),
    };
    let locals = || vec![local("i", HType::Int), local("a", arr())];
    assert!(lower(locals(), vec![with(HAssignOp::Sub, num(1))]).contains("((a_1)[maka_check_idx("));
    assert!(lower(locals(), vec![with(HAssignOp::Add, num(0))]).contains("((a_1)[maka_check_idx("));
    assert!(lower(locals(), vec![with(HAssignOp::Add, num(2))]).contains("((a_1)[(maka_int)(i_0)])"));
    assert!(spliced(vec![], locals(), vec![with(HAssignOp::Sub, num(1))]).contains("((_il_1_ix1_1)[maka_check_idx("));
    assert!(spliced(vec![], locals(), vec![with(HAssignOp::Add, num(1))]).contains("((_il_1_ix1_1)[(maka_int)(_il_0_ix1_1)])"));
}

#[test]
fn slice_loops_need_no_check_on_their_own_slice() {
    let slice = || HType::Slice { elem: Box::new(HType::Int), mutable: false };
    let at = |s: u32| HStmt::ExprStmt(expr(HExprKind::Index { base: boxed(var(s, slice())), idx: boxed(var(0, HType::Int)) }, HType::Int));
    let len = || expr(HExprKind::SliceLen(boxed(var(1, slice()))), HType::Int);
    let locals = || vec![local("i", HType::Int), local("s", slice()), local("t", slice())];
    let out = lower(locals(), vec![range_loop(len(), vec![at(1)])]);
    assert!(out.contains("((s_1).ptr[(maka_int)(i_0)])"));
    let out = lower(locals(), vec![range_loop(len(), vec![at(2)])]);
    assert!(out.contains("((t_2).ptr[maka_check_idx((maka_int)(i_0), (t_2).len, \"slice idx\")])"));
}

#[test]
fn for_each_aliases_plain_structs() {
    let slice = || HType::Slice { elem: Box::new(point()), mutable: false };
    let read = || HStmt::ExprStmt(expr(HExprKind::Field { base: boxed(var(0, point())), field: 0 }, HType::Int));
    let each = |body: Vec<HStmt>| HStmt::ForEach { var: LocalId(0), src: var(1, slice()), body: block(body) };
    let locals = || vec![local("p", point()), local("s", slice())];
    assert_eq!(
        lower(locals(), vec![each(vec![read()]), read()]),
        "    {\n        Slice_Point __src = s_1;\n        for (maka_int __i = 0; __i < __src.len; __i += 1) {\n            Point* p_0 = &(__src.ptr[__i]);\n            (void)(((*p_0).x));\n        }\n    }\n    (void)((p_0.x));\n"
    );
    let write = HStmt::Assign {
        op: HAssignOp::Assign,
        place: expr(HExprKind::Field { base: boxed(var(0, point())), field: 0 }, HType::Int),
        value: num(1),
    };
    assert_eq!(
        lower(locals(), vec![each(vec![write])]),
        "    {\n        Slice_Point __src = s_1;\n        Point p_0 = {0};\n        for (maka_int __i = 0; __i < __src.len; __i += 1) {\n            p_0 = __src.ptr[__i];\n            p_0.x = (maka_int)1LL;\n        }\n    }\n"
    );
}

#[test]
fn for_each_over_arrays_and_vectors() {
    let arr = || HType::Array { len: 2, elem: Box::new(HType::Int) };
    assert_eq!(
        lower(vec![local("n", HType::Int), local("a", arr())], vec![HStmt::ForEach { var: LocalId(0), src: var(1, arr()), body: block(vec![]) }]),
        "    {\n        maka_int n_0 = {0};\n        for (maka_int __i = 0; __i < (maka_int)2; __i += 1) {\n            n_0 = a_1[__i];\n        }\n    }\n"
    );
    let heap = || HType::Heap { inner: Box::new(HType::Vec { elem: Box::new(HType::Int) }) };
    let out = lower(vec![local("n", HType::Int), local("v", heap())], vec![HStmt::ForEach { var: LocalId(0), src: var(1, heap()), body: block(vec![]) }]);
    assert!(out.contains("        Vec_maka_int __src = v_1;\n"));
    assert!(out.contains("n_0 = __src.data[__i];"));
}

fn arm(kind: HArmKind, value: i64) -> HMatchArm {
    HMatchArm { kind, scrut_binding: None, guard: None, body: block(vec![]), value: Some(num(value)) }
}

fn circle(bindings: Vec<Option<LocalId>>, lit_checks: Vec<Option<HExpr>>) -> HArmKind {
    HArmKind::Variant { enum_id: EnumId(1), variant: 1, bindings, lit_checks }
}

#[test]
fn tag_matches_become_switches() {
    let m = expr(
        HExprKind::Match {
            scrutinee: boxed(var(0, shape())),
            arms: vec![arm(circle(vec![Some(LocalId(1))], vec![None]), 1), arm(HArmKind::Else, 2)],
            result_ty: HType::Int,
        },
        HType::Int,
    );
    assert_eq!(
        value(vec![local("s", shape()), local("r", HType::Int)], m),
        "__extension__ ({ Shape __s = s_0; maka_int __r = {0}; switch (__s.tag) { case 1: { maka_int r_1 = __s.payload.Circle.r; __r = ((maka_int)1LL); } break; default: { __r = ((maka_int)2LL); } break; } __r; })"
    );
}

#[test]
fn other_matches_become_chains() {
    let mut guarded = arm(circle(vec![Some(LocalId(1))], vec![None, Some(num(7))]), 1);
    guarded.guard = Some(expr(HExprKind::LitBool(true), HType::Bool));
    let mut open = arm(HArmKind::Else, 2);
    open.guard = Some(expr(HExprKind::LitBool(false), HType::Bool));
    open.body = block(vec![HStmt::Break]);
    let mut last = arm(HArmKind::Else, 3);
    last.scrut_binding = Some(LocalId(2));
    let m = expr(
        HExprKind::Match { scrutinee: boxed(var(0, shape())), arms: vec![guarded, open, last], result_ty: HType::Unit },
        HType::Unit,
    );
    assert_eq!(
        value(vec![local("s", shape()), local("r", HType::Int), local("all", shape())], m),
        "__extension__ ({ Shape __s = s_0; do { if ((__s.tag == 1) && (__s.payload.Circle.n == (maka_int)7LL)) { maka_int r_1 = __s.payload.Circle.r; if (true) { (void)((maka_int)1LL);  break; } } if ((false)) {     break;\n(void)((maka_int)2LL);  break; } if (1) { Shape all_2 = __s; (void)((maka_int)3LL);  break; } } while (0); MAKA_UNIT; })"
    );
}

#[test]
fn matches_on_literals_and_null() {
    let mut one = arm(HArmKind::Lit(num(1)), 1);
    one.guard = Some(expr(HExprKind::LitBool(true), HType::Bool));
    let m = expr(
        HExprKind::Match { scrutinee: boxed(var(0, HType::Int)), arms: vec![one, arm(HArmKind::Null, 0)], result_ty: HType::Int },
        HType::Int,
    );
    assert_eq!(
        value(vec![local("n", HType::Int)], m),
        "__extension__ ({ maka_int __s = n_0; maka_int __r = {0}; do { if ((((__s == (maka_int)1LL)) && (true))) { __r = ((maka_int)1LL);  break; } if ((__s == NULL)) { __r = ((maka_int)0LL);  break; } } while (0); __r; })"
    );
}

#[test]
fn inline_calls_are_spliced() {
    let (structs, enums) = tables();
    let mut twice = sig("twice", vec![HType::Int], HType::Int);
    twice.is_inline = true;
    let sigs = vec![sig("f", vec![], HType::Unit), twice];
    let ret = HStmt::Return {
        value: Some(expr(HExprKind::Bin { op: HBinOp::Add, lhs: boxed(var(0, HType::Int)), rhs: boxed(var(1, HType::Int)) }, HType::Int)),
        heap_drops: vec![],
    };
    let inline = func(
        1,
        "twice",
        vec![0],
        vec![local("a", HType::Int), local("b", HType::Int)],
        HType::Int,
        block(vec![HStmt::Let { local: LocalId(1), init: var(0, HType::Int) }, ret]),
    );
    let use_it = |n: i64| HStmt::ExprStmt(expr(HExprKind::InlineCall { callee: FuncId(1), args: vec![num(n)] }, HType::Int));
    let f = func(0, "f", vec![], vec![], HType::Unit, block(vec![use_it(1), use_it(2)]));
    let m = module(structs, enums, sigs, vec![f, inline]);
    assert_eq!(
        body_in(&m, "static void f(void)"),
        "    (void)(__extension__ ({ maka_int _il_0_ix1_1 = (maka_int)1LL; maka_int __r_ix1_1 = {0}; maka_int _il_1_ix1_1 = {0}; do { _il_1_ix1_1 = _il_0_ix1_1; __r_ix1_1 = (((_il_0_ix1_1) + (_il_1_ix1_1))); goto end_ix1_1; } while (0); end_ix1_1: ; __r_ix1_1; }));\n    (void)(__extension__ ({ maka_int _il_0_ix1_2 = (maka_int)2LL; maka_int __r_ix1_2 = {0}; maka_int _il_1_ix1_2 = {0}; do { _il_1_ix1_2 = _il_0_ix1_2; __r_ix1_2 = (((_il_0_ix1_2) + (_il_1_ix1_2))); goto end_ix1_2; } while (0); end_ix1_2: ; __r_ix1_2; }));\n"
    );
    assert!(!emit_freestanding(&m).contains("twice("));
}

#[test]
fn expansions_nest() {
    let (structs, enums) = tables();
    let inline = |name: &str| {
        let mut s = sig(name, vec![HType::Int], HType::Int);
        s.is_inline = true;
        s
    };
    let sigs = vec![sig("f", vec![], HType::Unit), inline("outer"), inline("inner")];
    let give = |e: HExpr| block(vec![HStmt::Return { value: Some(e), heap_drops: vec![] }]);
    let param = || vec![local("a", HType::Int)];
    let expand = |id: u32, arg: HExpr| {
        expr(HExprKind::InlineCall { callee: FuncId(id), args: vec![arg] }, HType::Int)
    };
    let f = func(0, "f", vec![], vec![], HType::Unit, block(vec![HStmt::ExprStmt(expand(1, num(4)))]));
    let outer = func(1, "outer", vec![0], param(), HType::Int, give(expand(2, num(5))));
    let inner = func(2, "inner", vec![0], param(), HType::Int, give(var(0, HType::Int)));
    assert_eq!(
        body_in(&module(structs, enums, sigs, vec![f, outer, inner]), "static void f(void)"),
        "    (void)(__extension__ ({ maka_int _il_0_ix1_1 = (maka_int)4LL; maka_int __r_ix1_1 = {0}; do { __r_ix1_1 = (__extension__ ({ maka_int _il_0_ix2_2 = (maka_int)5LL; maka_int __r_ix2_2 = {0}; do { __r_ix2_2 = (_il_0_ix2_2); goto end_ix2_2; } while (0); end_ix2_2: ; __r_ix2_2; })); goto end_ix1_1; } while (0); end_ix1_1: ; __r_ix1_1; }));\n"
    );
}

/// What a call of an inline function with these locals and this body becomes, between the
/// head of the loop that returns leave and its end.
fn spliced(params: Vec<u32>, locals: Vec<LocalInfo>, stmts: Vec<HStmt>) -> String {
    let (structs, enums) = tables();
    let mut g = sig("g", vec![], HType::Unit);
    g.is_inline = true;
    let sigs = vec![sig("f", vec![], HType::Unit), g];
    let args: Vec<HExpr> = params.iter().map(|_| num(0)).collect();
    let used = expr(HExprKind::InlineCall { callee: FuncId(1), args }, HType::Unit);
    let f = func(0, "f", vec![], vec![], HType::Unit, block(vec![HStmt::ExprStmt(used)]));
    let inline = func(1, "g", params, locals, HType::Unit, block(stmts));
    let text = body_in(&module(structs, enums, sigs, vec![f, inline]), "static void f(void)");
    let from = text.find("do { ").unwrap() + 5;
    text[from..text.rfind("} while (0); end_").unwrap()].to_string()
}

/// An owning local, and an array of two owners of the same type whose first one is `first`.
fn owner_and_row(ty: impl Fn() -> HType) -> (Vec<LocalInfo>, HExpr) {
    let row = || HType::Array { len: 2, elem: Box::new(ty()) };
    let first = expr(HExprKind::Index { base: boxed(var(1, row())), idx: boxed(num(0)) }, ty());
    (vec![local("o", ty()), local("row", row())], first)
}

#[test]
fn moves_out_of_elements() {
    let heap = |t: HType| HType::Heap { inner: Box::new(t) };
    let vector = || HType::Vec { elem: Box::new(HType::Int) };
    let bind = |init: HExpr| vec![HStmt::Let { local: LocalId(0), init }];
    let (locals, first) = owner_and_row(|| heap(HType::Int));
    assert_eq!(
        lower(locals, bind(first)),
        "    maka_int* o_0 = ((row_1)[(maka_int)((maka_int)0LL)]);\n    ((row_1)[(maka_int)((maka_int)0LL)]) = NULL;\n"
    );
    let (locals, first) = owner_and_row(|| heap(vector()));
    assert_eq!(
        lower(locals, bind(first)),
        "    Vec_maka_int o_0 = ((row_1)[(maka_int)((maka_int)0LL)]);\n    ((row_1)[(maka_int)((maka_int)0LL)]) = (Vec_maka_int){ .data = NULL, .len = 0, .cap = 0 };\n"
    );
    let (locals, first) = owner_and_row(|| heap(vector()));
    assert_eq!(
        spliced(vec![], locals, bind(first)),
        "_il_0_ix1_1 = ((_il_1_ix1_1)[(maka_int)((maka_int)0LL)]); ((_il_1_ix1_1)[(maka_int)((maka_int)0LL)]) = (Vec_maka_int){ .data = NULL, .len = 0, .cap = 0 }; "
    );
    let (locals, first) = owner_and_row(|| heap(HType::Int));
    assert_eq!(
        spliced(vec![], locals, bind(first)),
        "_il_0_ix1_1 = ((_il_1_ix1_1)[(maka_int)((maka_int)0LL)]); ((_il_1_ix1_1)[(maka_int)((maka_int)0LL)]) = NULL; "
    );
    let cell = heap(own_ptr(HType::Int));
    let (_, first) = owner_and_row(|| own_ptr(HType::Int));
    let row = HType::Array { len: 2, elem: Box::new(own_ptr(HType::Int)) };
    assert_eq!(
        lower(vec![local("o", cell), local("row", row)], bind(first)),
        "    maka_int** o_0 = (maka_int**)malloc(sizeof(maka_int*));\n    *o_0 = ((row_1)[(maka_int)((maka_int)0LL)]);\n    ((row_1)[(maka_int)((maka_int)0LL)]) = NULL;\n"
    );
    let (locals, first) = owner_and_row(|| own_ptr(HType::Int));
    let target = expr(HExprKind::Unwrap { expr: boxed(var(0, own_ptr(own_ptr(HType::Int)))), skip_check: true }, own_ptr(HType::Int));
    let through = HStmt::Assign { op: HAssignOp::Assign, place: target, value: first };
    assert_eq!(
        lower(locals, vec![through]),
        "    *(o_0) = ((row_1)[(maka_int)((maka_int)0LL)]);\n    ((row_1)[(maka_int)((maka_int)0LL)]) = NULL;\n"
    );
}

#[test]
fn returns_out_of_elements() {
    let (locals, first) = owner_and_row(|| own_ptr(HType::Int));
    let back = HStmt::Return { value: Some(first), heap_drops: vec![LocalId(0)] };
    assert_eq!(
        lower(locals, vec![back]),
        "    {\n        maka_int* __ret = ((row_1)[(maka_int)((maka_int)0LL)]);\n        ((row_1)[(maka_int)((maka_int)0LL)]) = NULL;\n        /* drop on return */\n        if (o_0) {\n            free(o_0);\n        }\n        return __ret;\n    }\n"
    );
}

#[test]
fn arms_release_their_locals() {
    let mut first = arm(circle(vec![None], vec![None]), 1);
    first.body = HBlock { stmts: vec![], ptr_nulls: vec![LocalId(2)], heap_to_free: vec![LocalId(1)] };
    let of = |a: HMatchArm| expr(
        HExprKind::Match { scrutinee: boxed(var(0, shape())), arms: vec![a], result_ty: HType::Int },
        HType::Int,
    );
    let locals = || vec![local("s", shape()), local("p", own_ptr(HType::Int)), local("q", own_ptr(HType::Int))];
    let again = HMatchArm { kind: circle(vec![None], vec![None]), scrut_binding: None, guard: None, body: block(vec![]), value: Some(num(1)) };
    let kept = HMatchArm { body: HBlock { stmts: vec![], ptr_nulls: vec![LocalId(2)], heap_to_free: vec![LocalId(1)] }, ..again };
    assert!(lower(locals(), vec![HStmt::ExprStmt(of(first))]).contains(
        "__r = ((maka_int)1LL);     q_2 = NULL; /* collapse q */\n    /* drop heap p */\n    if (p_1) {\n        free(p_1);\n    }\n} break; "
    ));
    assert!(spliced(vec![0], locals(), vec![HStmt::ExprStmt(of(kept))]).contains(
        "__r = ((maka_int)1LL); _il_2_ix1_1 = NULL; free(_il_1_ix1_1); } break; "
    ));
}

#[test]
fn assignments_to_owning_locals() {
    let heap = |t: HType| HType::Heap { inner: Box::new(t) };
    let vector = || HType::Vec { elem: Box::new(HType::Int) };
    let set = |op: HAssignOp, ty: HType, value: HExpr| vec![HStmt::Assign { op, place: var(0, ty), value }];
    let number = || vec![local("h", heap(HType::Int))];
    assert_eq!(
        lower(number(), set(HAssignOp::Add, heap(HType::Int), num(1))),
        "    *h_0 += (maka_int)1LL;\n"
    );
    assert_eq!(
        spliced(vec![], number(), set(HAssignOp::Mul, heap(HType::Int), num(2))),
        "*_il_0_ix1_1 *= (maka_int)2LL; "
    );
    let list = || vec![local("v", heap(vector()))];
    let empty = || expr(HExprKind::ArrayLit(vec![]), vector());
    assert_eq!(
        lower(list(), set(HAssignOp::Assign, heap(vector()), empty())),
        "    free(v_0.data);\n    v_0 = ((Vec_maka_int){ .data = NULL, .len = 0, .cap = 0 });\n"
    );
    assert_eq!(
        spliced(vec![], list(), set(HAssignOp::Assign, heap(vector()), empty())),
        "    free(_il_0_ix1_1.data);\n_il_0_ix1_1 = ((Vec_maka_int){ .data = NULL, .len = 0, .cap = 0 }); "
    );
}

#[test]
fn push_and_pop_in_full() {
    let vector = || HType::Vec { elem: Box::new(HType::Int) };
    let to = || HType::Ref { inner: Box::new(vector()), mutable: true };
    let lent = || expr(HExprKind::AddrOfRef { mutable: true, place: boxed(var(0, vector())) }, to());
    let locals = || vec![local("v", vector())];
    assert_eq!(
        value(locals(), call(u32::MAX - 60, vec![lent(), num(7)], HType::Unit)),
        "(__extension__ ({ Vec_maka_int* __vp = (&(v_0)); if (__vp->len == __vp->cap) { __vp->cap = __vp->cap ? __vp->cap * 2 : 4; __vp->data = realloc(__vp->data, __vp->cap * sizeof(*__vp->data)); } __vp->data[__vp->len++] = ((maka_int)7LL); MAKA_UNIT; }))"
    );
    assert_eq!(
        value(locals(), call(u32::MAX - 61, vec![lent()], HType::Int)),
        "(__extension__ ({ Vec_maka_int* __vp = (&(v_0)); if (__vp->len == 0) { maka_panic(\"pop from empty Vec\"); } __vp->len--; __vp->data[__vp->len]; }))"
    );
}

#[test]
fn expansions_share_no_name() {
    let (structs, enums) = tables();
    let mut g = sig("g", vec![HType::Int], HType::Int);
    g.is_inline = true;
    let sigs = vec![sig("f", vec![], HType::Unit), g];
    let used = |arg: HExpr| expr(HExprKind::InlineCall { callee: FuncId(1), args: vec![arg] }, HType::Int);
    let f = func(
        0,
        "f",
        vec![],
        vec![],
        HType::Unit,
        block(vec![HStmt::ExprStmt(used(used(num(1)))), HStmt::ExprStmt(used(num(2)))]),
    );
    let back = HStmt::Return { value: Some(var(0, HType::Int)), heap_drops: vec![] };
    let inline = func(1, "g", vec![0], vec![local("k", HType::Int)], HType::Int, block(vec![back]));
    let text = body_in(&module(structs, enums, sigs, vec![f, inline]), "static void f(void)");
    for n in ["1", "2", "3"] {
        assert_eq!(text.matches(&format!("end_ix1_{}: ;", n)).count(), 1);
        assert_eq!(text.matches(&format!("maka_int _il_0_ix1_{} = ", n)).count(), 1);
        assert_eq!(text.matches(&format!("maka_int __r_ix1_{} = {{0}};", n)).count(), 1);
    }
    assert!(!text.contains("ix1_4"));
}

#[test]
fn expansions_use_tagged_names_throughout() {
    let slice = || HType::Slice { elem: Box::new(HType::Int), mutable: false };
    let len = expr(HExprKind::SliceLen(boxed(var(0, slice()))), HType::Int);
    assert_eq!(
        spliced(vec![0], vec![local("xs", slice())], vec![HStmt::ExprStmt(len)]),
        "(void)((_il_0_ix1_1).len); "
    );
    let list = expr(HExprKind::ArrayLit(vec![var(0, HType::Int)]), slice());
    assert_eq!(
        spliced(vec![0], vec![local("n", HType::Int)], vec![HStmt::ExprStmt(list)]),
        "(void)(((Slice_maka_int){ .ptr = ((maka_int[]){ _il_0_ix1_1 }), .len = 1 })); "
    );
    let tag = expr(HExprKind::EnumTag(boxed(var(0, shape()))), HType::Int);
    assert_eq!(
        spliced(vec![0], vec![local("s", shape())], vec![HStmt::ExprStmt(tag)]),
        "(void)((maka_int)((_il_0_ix1_1).tag)); "
    );
    let ty = || HType::FnPtr {
        ret: Box::new(HType::Unit),
        params: vec![],
        ret_key: "unit".to_string(),
        param_keys: vec![],
    };
    let through = expr(HExprKind::CallIndirect { callee: boxed(var(0, ty())), args: vec![] }, HType::Unit);
    assert_eq!(
        spliced(vec![0], vec![local("g", ty())], vec![HStmt::ExprStmt(through)]),
        "(void)((__extension__ ({ Callable_unit_ __c = (_il_0_ix1_1); __c.code(__c.env), MAKA_UNIT; }))); "
    );
}

#[test]
fn expansions_lower_like_plain_code() {
    let same = expr(
        HExprKind::Bin { op: HBinOp::Eq, lhs: boxed(var(0, shape())), rhs: boxed(var(0, shape())) },
        HType::Bool,
    );
    assert_eq!(
        spliced(vec![0], vec![local("s", shape())], vec![HStmt::ExprStmt(same)]),
        "(void)(((_il_0_ix1_1).tag == (_il_0_ix1_1).tag)); "
    );
    let arr = || HType::Array { len: 2, elem: Box::new(HType::Int) };
    let addr = expr(HExprKind::AddrOfRef { mutable: false, place: boxed(var(0, arr())) }, HType::Int);
    assert_eq!(
        spliced(vec![], vec![local("a", arr())], vec![HStmt::ExprStmt(addr)]),
        "(void)((_il_0_ix1_1)); "
    );
    let object = || HType::Dyn { traits: vec!["Show".to_string()] };
    let method = call(0, vec![var(0, object())], HType::Unit);
    assert_eq!(
        spliced(vec![0], vec![local("d", object())], vec![HStmt::ExprStmt(method)]),
        "(void)(((_il_0_ix1_1).vtbl->f((_il_0_ix1_1).data), MAKA_UNIT)); "
    );
}

#[test]
fn matches_in_expansions_bind_tagged_names() {
    let mut first = arm(circle(vec![Some(LocalId(1))], vec![None]), 1);
    first.body = block(vec![HStmt::Return { value: None, heap_drops: vec![] }]);
    first.value = Some(var(1, HType::Int));
    let m = expr(
        HExprKind::Match {
            scrutinee: boxed(var(0, shape())),
            arms: vec![first, arm(HArmKind::Else, 2)],
            result_ty: HType::Int,
        },
        HType::Int,
    );
    assert_eq!(
        spliced(vec![0], vec![local("s", shape()), local("r", HType::Int)], vec![HStmt::ExprStmt(m)]),
        "(void)(__extension__ ({ Shape __s = _il_0_ix1_1; maka_int __r = {0}; switch (__s.tag) { case 1: { maka_int _il_1_ix1_1 = __s.payload.Circle.r; goto end_ix1_1; __r = (_il_1_ix1_1); } break; default: { __r = ((maka_int)2LL); } break; } __r; })); "
    );
}

#[test]
fn counters_of_the_caller_prove_nothing_in_an_expansion() {
    let arr = || HType::Array { len: 4, elem: Box::new(HType::Int) };
    let at = || HStmt::ExprStmt(expr(HExprKind::Index { base: boxed(var(1, arr())), idx: boxed(var(0, HType::Int)) }, HType::Int));
    let (structs, enums) = tables();
    let mut g = sig("g", vec![HType::Int], HType::Unit);
    g.is_inline = true;
    let sigs = vec![sig("f", vec![], HType::Unit), g];
    let used = || HStmt::ExprStmt(expr(HExprKind::InlineCall { callee: FuncId(1), args: vec![num(9)] }, HType::Unit));
    let f = func(
        0,
        "f",
        vec![],
        vec![local("i", HType::Int)],
        HType::Unit,
        block(vec![range_loop(num(4), vec![used()])]),
    );
    let inline = func(1, "g", vec![0], vec![local("k", HType::Int), local("a", arr())], HType::Unit, block(vec![at()]));
    let text = body_in(&module(structs, enums, sigs, vec![f, inline]), "static void f(void)");
    assert!(text.contains("((_il_1_ix1_1)[maka_check_idx((maka_int)(_il_0_ix1_1), (maka_int)4, \"array idx\")])"));
}

#[test]
fn loops_over_fields_copy_when_the_owner_changes() {
    let list = || HType::Vec { elem: Box::new(point()) };
    let source = || expr(HExprKind::Field { base: boxed(var(1, HType::Struct(StructId(1)))), field: 0 }, list());
    let read = || HStmt::ExprStmt(expr(HExprKind::Field { base: boxed(var(0, point())), field: 0 }, HType::Int));
    let grow = || {
        HStmt::ExprStmt(expr(HExprKind::AddrOfRef { mutable: true, place: boxed(source()) }, HType::Int))
    };
    let each = |body: Vec<HStmt>| HStmt::ForEach { var: LocalId(0), src: source(), body: block(body) };
    let locals = || vec![local("p", point()), local("o", HType::Struct(StructId(1)))];
    assert!(lower(locals(), vec![each(vec![read()])]).contains("Point* p_0 = &(__src.data[__i]);"));
    let changed = lower(locals(), vec![each(vec![read(), grow()])]);
    assert!(changed.contains("p_0 = __src.data[__i];"));
    assert!(!changed.contains("Point* p_0"));
}

/// What stands behind the label of an expansion that owns one local of this type.
fn splice_exit(ty: HType) -> String {
    let (structs, enums) = tables();
    let mut g = sig("g", vec![], HType::Unit);
    g.is_inline = true;
    let sigs = vec![sig("f", vec![], HType::Unit), g];
    let used = expr(HExprKind::InlineCall { callee: FuncId(1), args: vec![] }, HType::Unit);
    let f = func(0, "f", vec![], vec![], HType::Unit, block(vec![HStmt::ExprStmt(used)]));
    let mut body = block(vec![]);
    body.heap_to_free = vec![LocalId(0)];
    let inline = func(1, "g", vec![], vec![local("p", ty)], HType::Unit, body);
    let text = body_in(&module(structs, enums, sigs, vec![f, inline]), "static void f(void)");
    let from = text.find(": ; ").unwrap() + 4;
    text[from..text.rfind("MAKA_UNIT").unwrap()].to_string()
}

#[test]
fn expansions_release_all_that_their_locals_own() {
    let vec_of = |t: HType| HType::Vec { elem: Box::new(t) };
    let heap = |t: HType| HType::Heap { inner: Box::new(t) };
    let cell = || HType::Struct(StructId(1));
    assert_eq!(splice_exit(own_ptr(HType::Int)), "free(_il_0_ix1_1); ");
    assert_eq!(splice_exit(heap(point())), "free(_il_0_ix1_1); ");
    assert_eq!(splice_exit(heap(vec_of(HType::Int))), "free(_il_0_ix1_1.data); ");
    assert_eq!(splice_exit(vec_of(HType::Int)), "    free(_il_0_ix1_1.data);\n");
    assert_eq!(splice_exit(cell()), "    __maka_drop_Cell(&(_il_0_ix1_1));\n");
    assert_eq!(
        splice_exit(own_ptr(cell())),
        "    if (_il_0_ix1_1) {\n        __maka_drop_Cell(_il_0_ix1_1);\n        free(_il_0_ix1_1);\n    }\n"
    );
}

#[test]
fn assignments_in_expansions() {
    let borrow = || HType::Ref { inner: Box::new(HType::Int), mutable: true };
    let heap = |t: HType| HType::Heap { inner: Box::new(t) };
    let set = |place: HExpr, value: HExpr| HStmt::Assign { op: HAssignOp::Assign, place, value };
    let one = |ty: HType, stmt: HStmt| spliced(vec![0], vec![local("p", ty)], vec![stmt]);
    assert_eq!(one(HType::Int, set(var(0, HType::Int), num(7))), "_il_0_ix1_1 = (maka_int)7LL; ");
    assert_eq!(
        one(borrow(), HStmt::Assign { op: HAssignOp::Add, place: var(0, borrow()), value: num(7) }),
        "*_il_0_ix1_1 += (maka_int)7LL; "
    );
    assert_eq!(one(heap(HType::Int), set(var(0, heap(HType::Int)), num(7))), "*_il_0_ix1_1 = (maka_int)7LL; ");
    let through = expr(HExprKind::Unwrap { expr: boxed(var(0, own_ptr(HType::Int))), skip_check: true }, HType::Int);
    assert_eq!(one(own_ptr(HType::Int), set(through, num(7))), "(*(_il_0_ix1_1)) = (maka_int)7LL; ");
    let null = || expr(HExprKind::LitNull, HType::NullT);
    assert_eq!(
        one(own_ptr(HType::Int), set(var(0, own_ptr(HType::Int)), null())),
        "    if (_il_0_ix1_1) {\n        free(_il_0_ix1_1);\n    }\n_il_0_ix1_1 = NULL; "
    );
}

#[test]
fn moves_in_expansions() {
    let heap = || HType::Heap { inner: Box::new(HType::Int) };
    let cell = || HType::Struct(StructId(1));
    let made = expr(HExprKind::HeapAlloc(boxed(num(3))), heap());
    let text = spliced(vec![], vec![local("p", heap())], vec![HStmt::Let { local: LocalId(0), init: made }]);
    assert!(text.starts_with("_il_0_ix1_1 = (__extension__ ({ "));
    assert_eq!(text.matches("malloc").count(), 1);
    let locals = || vec![local("p", heap()), local("q", heap())];
    let taken = HStmt::Let { local: LocalId(1), init: var(0, heap()) };
    assert_eq!(spliced(vec![0], locals(), vec![taken]), "_il_1_ix1_1 = _il_0_ix1_1; ");
    let lifted = HStmt::Let { local: LocalId(0), init: num(3) };
    assert_eq!(
        spliced(vec![], locals(), vec![lifted]),
        "_il_0_ix1_1 = (maka_int*)malloc(sizeof(maka_int)); *_il_0_ix1_1 = ((maka_int)3LL); "
    );
    let part = || expr(HExprKind::Field { base: boxed(var(0, cell())), field: 0 }, own_ptr(HType::Int));
    let locals = || vec![local("c", cell()), local("p", own_ptr(HType::Int))];
    assert_eq!(
        spliced(vec![0], locals(), vec![HStmt::Let { local: LocalId(1), init: part() }]),
        "_il_1_ix1_1 = (_il_0_ix1_1.next); _il_0_ix1_1.next = NULL; "
    );
}

#[test]
fn blocks_in_expansions_release_their_locals() {
    let locals = || vec![local("p", own_ptr(HType::Int)), local("q", own_ptr(HType::Int)), local("v", HType::Int)];
    let owner = |stmts: Vec<HStmt>| HBlock { stmts, ptr_nulls: vec![LocalId(0)], heap_to_free: vec![LocalId(1)] };
    assert_eq!(
        spliced(vec![], locals(), vec![HStmt::Block(owner(vec![HStmt::Break]))]),
        "{ break; _il_0_ix1_1 = NULL; free(_il_1_ix1_1); } "
    );
    assert_eq!(
        spliced(vec![], locals(), vec![HStmt::While { cond: num(1), body: owner(vec![]) }]),
        "while ((maka_int)1LL) { _il_0_ix1_1 = NULL; free(_il_1_ix1_1); } "
    );
    let back = HStmt::Return { value: Some(var(2, HType::Int)), heap_drops: vec![LocalId(1)] };
    assert_eq!(
        spliced(vec![], locals(), vec![HStmt::If { cond: num(1), then_b: block(vec![back]), else_b: None }]),
        "if ((maka_int)1LL) { (void)(_il_2_ix1_1); free(_il_1_ix1_1); goto end_ix1_1; } "
    );
}

#[test]
fn inline_bodies_propagate_and_release() {
    let (structs, enums) = tables();
    let mut take = sig("take", vec![own_ptr(HType::Int)], HType::Unit);
    take.is_inline = true;
    let sigs = vec![sig("f", vec![], HType::Unit), take];
    let yes = || expr(HExprKind::LitBool(true), HType::Bool);
    let mut body = block(vec![
        HStmt::If { cond: yes(), then_b: block(vec![HStmt::Propagate { value: None }]), else_b: None },
        HStmt::ExprStmt(call(u32::MAX - 3, vec![var(0, own_ptr(HType::Int))], HType::Unit)),
        HStmt::ForEach { var: LocalId(0), src: var(0, HType::Int), body: block(vec![]) },
        HStmt::Return { value: None, heap_drops: vec![] },
    ]);
    body.heap_to_free = vec![LocalId(0)];
    let inline = func(1, "take", vec![0], vec![local("p", own_ptr(HType::Int))], HType::Unit, body);
    let none = expr(HExprKind::LitNull, HType::NullT);
    let missing = HStmt::ExprStmt(expr(HExprKind::InlineCall { callee: FuncId(9), args: vec![] }, HType::Unit));
    let used = HStmt::ExprStmt(expr(HExprKind::InlineCall { callee: FuncId(1), args: vec![none] }, HType::Unit));
    let f = func(0, "f", vec![], vec![], HType::Unit, block(vec![used, missing]));
    assert_eq!(
        body_in(&module(structs, enums, sigs, vec![f, inline]), "static void f(void)"),
        "    (void)(__extension__ ({ maka_int* _il_0_ix1_1 = NULL; do { if (true) { return; } (void)((__extension__ ({ Callable_unit_ __cb = (_il_0_ix1_1); (Thread*)__maka_spawn_fiber(__cb.code, __cb.env); }))); /* for-each in inline not supported */ goto end_ix1_1; } while (0); end_ix1_1: ; free(_il_0_ix1_1); MAKA_UNIT; }));\n    (void)(MAKA_UNIT);\n"
    );
}

#[test]
fn lifted_lambdas_unpack_their_environment() {
    let (structs, enums) = tables();
    let env = || HType::Ref { inner: Box::new(point()), mutable: false };
    let sigs = vec![sig("__lambda_cap_1", vec![env()], HType::Unit)];
    let f = func(
        0,
        "__lambda_cap_1",
        vec![0],
        vec![local("__env", env()), local("x", HType::Int), local("z", HType::Int)],
        HType::Unit,
        block(vec![]),
    );
    assert_eq!(
        body_in(&module(structs, enums, sigs, vec![f]), "static void __lambda_cap_1(Point* __env_0)"),
        "    maka_int x_1 = __env_0->x;\n"
    );
}
