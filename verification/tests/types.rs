//! C spellings of types, operators, literals and casts.
use maka_codegen::ctypes::{c_decl, c_ret_type, c_type, c_type_from_key, func_signature, type_key};
use maka_codegen::hir::{
    CastKind, EnumId, EnumInfo, FieldInfo, FuncId, FuncSig, HAssignOp, HBinOp, HBlock, HExpr,
    HExprKind, HFunc, HType, HUnOp, LocalId, LocalInfo, StructId, StructInfo, SymTab, VariantInfo,
};
use maka_codegen::operators::{
    assign_op_c, binop_c, emit_cast, emit_global_init, literal_str, log_helper, printf_conv, NOT_CONSTANT,
};
use maka_codegen::sorted::SortedMap;
use maka_codegen::typedefs::{emit_slice_typedefs, emit_vec_typedefs};

fn sym() -> SymTab {
    SymTab {
        structs: vec![StructInfo {
            name: "Point".to_string(),
            type_params: vec![],
            fields: vec![FieldInfo { name: "x".to_string(), ty: HType::Int }],
        }],
        enums: vec![EnumInfo {
            name: "Color".to_string(),
            variants: vec![
                VariantInfo { name: "Red".to_string(), tag: 0, fields: vec![] },
                VariantInfo { name: "Blue".to_string(), tag: 4, fields: vec![] },
            ],
        }, EnumInfo { name: "Never".to_string(), variants: vec![] }],
        sigs: vec![],
        funcs: vec![],
        globals: vec![],
        logics: vec![],
    }
}

fn ptr(t: HType) -> HType {
    HType::Ptr { inner: Box::new(t), mutable: false }
}

fn heap(t: HType) -> HType {
    HType::Heap { inner: Box::new(t) }
}

fn array(len: i64, t: HType) -> HType {
    HType::Array { len, elem: Box::new(t) }
}

fn slice(t: HType) -> HType {
    HType::Slice { elem: Box::new(t), mutable: false }
}

fn vector(t: HType) -> HType {
    HType::Vec { elem: Box::new(t) }
}

fn dynamic(names: &[&str]) -> HType {
    HType::Dyn { traits: names.iter().map(|n| n.to_string()).collect() }
}

fn callable(ret_key: &str, param_keys: &[&str]) -> HType {
    HType::FnPtr {
        ret: Box::new(HType::Unit),
        params: vec![HType::Int],
        ret_key: ret_key.to_string(),
        param_keys: param_keys.iter().map(|n| n.to_string()).collect(),
    }
}

fn expr(kind: HExprKind, ty: HType) -> HExpr {
    HExpr { kind, ty }
}

#[test]
fn scalar_types() {
    let s = sym();
    let signed = HType::SizedInt { signed: true, bits: 32 };
    assert_eq!(c_type(&s, &HType::Int), "maka_int");
    assert_eq!(c_type(&s, &signed), "int32_t");
    assert_eq!(c_type(&s, &HType::SizedInt { signed: false, bits: 8 }), "uint8_t");
    assert_eq!(c_type(&s, &HType::SizedInt { signed: true, bits: 0 }), "intptr_t");
    assert_eq!(c_type(&s, &HType::SizedInt { signed: false, bits: 0 }), "uintptr_t");
    assert_eq!(c_type(&s, &HType::SizedFloat { bits: 32 }), "float");
    assert_eq!(c_type(&s, &HType::SizedFloat { bits: 64 }), "double");
    assert_eq!(c_type(&s, &HType::SizedFloat { bits: 16 }), "_unknown_f16");
    assert_eq!(c_type(&s, &HType::Str), "const char*");
    assert_eq!(c_type(&s, &HType::NullT), "void*");
    assert_eq!(c_type(&s, &HType::TyVar("T".to_string())), "void*");
    assert_eq!(c_type(&s, &HType::RustOpaque("X".to_string())), "void*");
}

#[test]
fn compound_types() {
    let s = sym();
    assert_eq!(c_type(&s, &HType::Struct(StructId(0))), "Point");
    assert_eq!(c_type(&s, &ptr(ptr(HType::Int))), "maka_int**");
    assert_eq!(c_type(&s, &ptr(array(3, HType::Int))), "maka_int*");
    assert_eq!(c_type(&s, &ptr(dynamic(&["Show"]))), "Dyn_Show");
    assert_eq!(c_type(&s, &heap(vector(HType::Int))), "Vec_maka_int");
    assert_eq!(c_type(&s, &heap(array(3, HType::Int))), "maka_int*");
    assert_eq!(c_type(&s, &heap(HType::Struct(StructId(0)))), "Point*");
    assert_eq!(c_type(&s, &array(3, HType::Int)), "maka_int[3]");
    assert_eq!(c_type(&s, &slice(HType::Str)), "Slice_str");
    assert_eq!(c_type(&s, &dynamic(&["A", "B"])), "Dyn_A");
    assert_eq!(c_type(&s, &callable("unit", &["int"])), "Callable_unit_int_");
}

#[test]
fn type_keys() {
    let s = sym();
    assert_eq!(type_key(&s, &ptr(HType::Int)), "p_maka_int");
    assert_eq!(type_key(&s, &heap(HType::Int)), "h_maka_int");
    assert_eq!(type_key(&s, &array(3, HType::Bool)), "a3_bool");
    assert_eq!(type_key(&s, &slice(vector(HType::Char))), "Slice_Vec_maka_char");
    assert_eq!(type_key(&s, &dynamic(&["A", "B"])), "Dyn_A_B");
    assert_eq!(type_key(&s, &callable("x", &[])), "fn_maka_unit_maka_int_");
    assert_eq!(type_key(&s, &HType::TyVar("T".to_string())), "T_T");
    assert_eq!(
        type_key(&s, &HType::GenericPattern {
            template_name: "Map".to_string(),
            args: vec![HType::Int, HType::Str],
        }),
        "GP_Map__maka_int_str"
    );
    assert_eq!(
        type_key(&s, &HType::AssocType { on: Box::new(HType::Int), segment: "Item".to_string() }),
        "AT_maka_int_Item"
    );
    assert_eq!(type_key(&s, &HType::RustOpaque("X".to_string())), "p_maka_unit");
}

#[test]
fn keys_read_back_as_types() {
    let s = sym();
    for t in [HType::Int, HType::Str, ptr(HType::Str), ptr(ptr(HType::Struct(StructId(0)))), slice(HType::Int)] {
        assert_eq!(c_type_from_key(&type_key(&s, &t)), c_type(&s, &t));
    }
    assert_eq!(c_type_from_key("pm_pc_str"), "const const char***");
    assert_eq!(c_type_from_key("str"), "const char*");
    assert_eq!(c_type_from_key("strx"), "strx");
}

#[test]
fn declarations_put_bounds_behind_the_name() {
    let grid = array(2, array(3, HType::Int));
    assert_eq!(c_decl(&sym(), &grid, "m"), "maka_int m[2][3]");
    let s = sym();
    assert_eq!(c_decl(&s, &array(4, HType::Int), "a"), "maka_int a[4]");
    assert_eq!(c_decl(&s, &HType::Int, "n"), "maka_int n");
    assert_eq!(c_ret_type(&s, &HType::Unit), "void");
    assert_eq!(c_ret_type(&s, &HType::Bool), "bool");
}

#[test]
fn signatures() {
    let mut s = sym();
    let sig = |name: &str, is_pub: bool, logic: Option<String>| FuncSig {
        name: name.to_string(),
        c_name: format!("m_{}", name),
        type_params: vec![],
        param_names: vec![],
        param_tys: vec![],
        ret: HType::Unit,
        param_keys: vec![],
        ret_key: "unit".to_string(),
        is_extern: false,
        is_variadic: false,
        is_inline: false,
        is_pub,
        logic,
    };
    s.sigs.push(sig("f", false, None));
    s.sigs.push(sig("g", true, None));
    s.sigs.push(sig("main", false, None));
    s.sigs.push(sig("main", false, Some("L".to_string())));
    let func = |id: u32, params: Vec<LocalId>| HFunc {
        id: FuncId(id),
        name: "f".to_string(),
        params,
        locals: vec![
            LocalInfo { name: "a".to_string(), ty: HType::Int, thread_local: false },
            LocalInfo { name: "b".to_string(), ty: array(2, HType::Bool), thread_local: false },
        ],
        ret: HType::Unit,
        body: HBlock { stmts: vec![], ptr_nulls: vec![], heap_to_free: vec![] },
    };
    assert_eq!(
        func_signature(&s, &func(0, vec![LocalId(0), LocalId(1)])),
        "static void m_f(maka_int a_0, bool b_1[2])"
    );
    assert_eq!(func_signature(&s, &func(1, vec![])), "void m_g(void)");
    assert_eq!(func_signature(&s, &func(2, vec![])), "void maka_main(void)");
    assert_eq!(func_signature(&s, &func(3, vec![])), "static void m_main(void)");
}

#[test]
fn operators() {
    assert_eq!(binop_c(HBinOp::Mod), "%");
    assert_eq!(binop_c(HBinOp::Shr), ">>");
    assert_eq!(binop_c(HBinOp::And), "&&");
    assert_eq!(binop_c(HBinOp::BitAnd), "&");
    assert_eq!(assign_op_c(HAssignOp::Assign), "=");
    assert_eq!(assign_op_c(HAssignOp::Mod), "%=");
}

#[test]
fn literals_of_patterns() {
    assert_eq!(literal_str(&expr(HExprKind::LitInt(-3), HType::Int)), "(maka_int)-3LL");
    assert_eq!(literal_str(&expr(HExprKind::LitChar('A'), HType::Char)), "(maka_char)65u");
    assert_eq!(literal_str(&expr(HExprKind::LitBool(true), HType::Bool)), "true");
    assert_eq!(literal_str(&expr(HExprKind::LitNull, HType::NullT)), "NULL");
    assert_eq!(
        literal_str(&expr(HExprKind::LitFloat("2.5".to_string()), HType::Float)),
        "(maka_float)2.5"
    );
    assert_eq!(literal_str(&expr(HExprKind::LitUnit, HType::Unit)), "0");
}

#[test]
fn global_initializers() {
    let one = expr(HExprKind::LitInt(1), HType::Int);
    let two = expr(HExprKind::LitInt(2), HType::Int);
    let sum = expr(
        HExprKind::Bin { op: HBinOp::Add, lhs: Box::new(one), rhs: Box::new(two) },
        HType::Int,
    );
    let neg = expr(HExprKind::Un { op: HUnOp::Neg, expr: Box::new(sum) }, HType::Int);
    assert_eq!(emit_global_init(&neg), "(-((((maka_int)1LL) + ((maka_int)2LL))))");
    let text = expr(HExprKind::LitStr("say \"hi\"\n".to_string()), HType::Str);
    assert_eq!(emit_global_init(&text), "\"say \\\"hi\\\"\\n\"");
    assert_eq!(emit_global_init(&expr(HExprKind::LitUnit, HType::Unit)), "MAKA_UNIT");
    assert_eq!(emit_global_init(&expr(HExprKind::Local(LocalId(0)), HType::Int)), NOT_CONSTANT);
    let not = expr(
        HExprKind::Un { op: HUnOp::Not, expr: Box::new(expr(HExprKind::LitBool(true), HType::Bool)) },
        HType::Bool,
    );
    assert_eq!(emit_global_init(&not), "maka_not_a_constant_expression");
    let escape = expr(HExprKind::LitStr("\u{1b}".to_string()), HType::Str);
    assert_eq!(emit_global_init(&escape), "\"\\x1b\"");
}

#[test]
fn casts() {
    let s = sym();
    let color = HType::Enum(EnumId(0));
    assert_eq!(emit_cast(&s, "x", &CastKind::Numeric, &HType::Int), "((maka_int)x)");
    assert_eq!(
        emit_cast(&s, "x", &CastKind::Reinterpret, &ptr(HType::Int)),
        "((maka_int*)(uintptr_t)(x))"
    );
    assert_eq!(
        emit_cast(&s, "x", &CastKind::IntToEnumChecked, &color),
        "(__extension__ ({ maka_int __v = (x); if (!(__v == 0 || __v == 4)) { maka_panic(\"`int as Color`: tag out of range\"); } (Color)__v; }))"
    );
    assert_eq!(
        emit_cast(&s, "x", &CastKind::IntToEnumChecked, &HType::Enum(EnumId(1))),
        "(__extension__ ({ maka_int __v = (x); if (!(0)) { maka_panic(\"`int as Never`: tag out of range\"); } (Never)__v; }))"
    );
    assert_eq!(emit_cast(&s, "x", &CastKind::IntToEnumChecked, &HType::Int), "((maka_int)x)");
    assert_eq!(
        emit_cast(&s, "p", &CastKind::IntPtrToEnumPtrChecked, &ptr(color)),
        "(__extension__ ({ maka_int* __p = (p); maka_int __v = *__p; (__v == 0 || __v == 4) ? (Color*)__p : (Color*)0; }))"
    );
}

#[test]
fn conversions_for_printing() {
    assert_eq!(printf_conv("b", &HType::Bool), "((b) ? \"true\" : \"false\")");
    assert_eq!(printf_conv("c", &HType::Char), "(int)(c)");
    assert_eq!(printf_conv("n", &HType::Int), "(long long)(n)");
    assert_eq!(printf_conv("x", &HType::Float), "(double)(x)");
    assert_eq!(printf_conv("s", &HType::Str), "s");
    assert_eq!(log_helper(&HType::Enum(EnumId(0))), "maka_log_int");
    assert_eq!(log_helper(&HType::Float), "maka_log_float");
    assert_eq!(log_helper(&HType::Struct(StructId(0))), "maka_log_ptr");
}

#[test]
fn slice_typedefs_are_written_once() {
    let mut keys: SortedMap<String, ()> = SortedMap::new();
    keys.insert("p_maka_int".to_string(), ());
    keys.insert("maka_int".to_string(), ());
    let mut out = "typedef struct Slice_maka_int { maka_int* ptr; }\n".to_string();
    let before = out.clone();
    emit_slice_typedefs(&mut out, &keys);
    let expected = before
        + "typedef struct Slice_p_maka_int { maka_int** ptr; maka_int len; } Slice_p_maka_int;\n";
    assert_eq!(out, expected);
    emit_slice_typedefs(&mut out, &keys);
    assert_eq!(out, expected);
}

#[test]
fn vec_typedefs_come_in_ascending_order() {
    let mut keys: SortedMap<String, ()> = SortedMap::new();
    keys.insert("str".to_string(), ());
    keys.insert("Point".to_string(), ());
    let mut out = String::new();
    emit_vec_typedefs(&mut out, &keys);
    let expected = "typedef struct Vec_Point { Point* data; maka_int len; maka_int cap; } Vec_Point;\n\
        typedef struct Vec_str { const char** data; maka_int len; maka_int cap; } Vec_str;\n";
    assert_eq!(out, expected);
    emit_vec_typedefs(&mut out, &keys);
    assert_eq!(out, expected);
}

#[test]
fn sorted_maps_replace_and_remove() {
    let mut m: SortedMap<u32, u8> = SortedMap::new();
    m.insert(5, 1);
    m.insert(2, 2);
    m.insert(5, 3);
    assert_eq!(m.len(), 2);
    assert_eq!((*m.key(0), *m.value(0)), (2, 2));
    assert_eq!((*m.key(1), *m.value(1)), (5, 3));
    m.remove(&2);
    m.remove(&7);
    assert!(!m.contains(&2));
    assert!(m.contains(&5));
    let mut pairs: SortedMap<(String, u32), ()> = SortedMap::new();
    pairs.insert(("b".to_string(), 0), ());
    pairs.insert(("a".to_string(), 9), ());
    pairs.insert(("a".to_string(), 10), ());
    assert_eq!(pairs.key(0), &("a".to_string(), 9));
    assert_eq!(pairs.key(1), &("a".to_string(), 10));
    assert_eq!(pairs.key(2), &("b".to_string(), 0));
}
