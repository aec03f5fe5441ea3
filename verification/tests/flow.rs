//! Local analyses: mutation, loop bounds, moves, indexing, match tests.
use maka_codegen::analysis::{
    block_mutates_local, expr_contains_local, expr_mutates_local, forrange_bound, keeps_source,
    known_counter, move_out_owned_place, place_root_is, place_root_local, step_rise, stmt_mutates_local,
    BceBound,
};
use maka_codegen::hir::{
    EnumId, EnumInfo, FieldInfo, HArmKind, HAssignOp, HBinOp, HBlock, HExpr, HExprKind, HFunc,
    HMatchArm, HStmt, HType, LocalId, LocalInfo, StructId, StructInfo, SymTab, VariantInfo, FuncId, GlobalId,
};
use maka_codegen::patterns::{match_as_switch, match_bindings, match_predicate, scrutinee_binding};
use maka_codegen::places::{field_access, idx_in_const_bound, idx_in_slice_bound, index_access};

fn num(n: i64) -> HExpr {
    HExpr { kind: HExprKind::LitInt(n), ty: HType::Int }
}

fn var(id: u32, ty: HType) -> HExpr {
    HExpr { kind: HExprKind::Local(LocalId(id)), ty }
}

fn expr(kind: HExprKind, ty: HType) -> HExpr {
    HExpr { kind, ty }
}

fn own_ptr(t: HType) -> HType {
    HType::OwnPtr { inner: Box::new(t), mutable: true }
}

fn block(stmts: Vec<HStmt>) -> HBlock {
    HBlock { stmts, ptr_nulls: vec![], heap_to_free: vec![] }
}

fn local(name: &str, ty: HType) -> LocalInfo {
    LocalInfo { name: name.to_string(), ty, thread_local: false }
}

fn field(name: &str, ty: HType) -> FieldInfo {
    FieldInfo { name: name.to_string(), ty }
}

fn record(name: &str, fields: Vec<FieldInfo>) -> StructInfo {
    StructInfo { name: name.to_string(), type_params: vec![], fields }
}

fn func(id: u32, name: &str, params: Vec<u32>, locals: Vec<LocalInfo>, ret: HType, body: HBlock) -> HFunc {
    HFunc {
        id: FuncId(id),
        name: name.to_string(),
        params: params.into_iter().map(LocalId).collect(),
        locals,
        ret,
        body,
    }
}

fn boxed(e: HExpr) -> Box<HExpr> {
    Box::new(e)
}

fn int_var(id: u32) -> HExpr {
    var(id, HType::Int)
}

fn item(base: HExpr, field: usize) -> HExpr {
    expr(HExprKind::Field { base: boxed(base), field }, HType::Int)
}

fn at(base: HExpr, idx: HExpr) -> HExpr {
    expr(HExprKind::Index { base: boxed(base), idx: boxed(idx) }, HType::Int)
}

fn unwrap(e: HExpr) -> HExpr {
    expr(HExprKind::Unwrap { expr: boxed(e), skip_check: false }, HType::Int)
}

fn borrow_of(mutable: bool, place: HExpr) -> HExpr {
    expr(HExprKind::AddrOfRef { mutable, place: boxed(place) }, HType::Int)
}

fn bin(op: HBinOp, lhs: HExpr, rhs: HExpr) -> HExpr {
    expr(HExprKind::Bin { op, lhs: boxed(lhs), rhs: boxed(rhs) }, HType::Bool)
}

fn set(place: HExpr, value: HExpr) -> HStmt {
    HStmt::Assign { op: HAssignOp::Assign, place, value }
}

fn sym() -> SymTab {
    SymTab {
        structs: vec![record("Point", vec![field("x", HType::Int), field("a.b", HType::Int)])],
        enums: vec![
            EnumInfo {
                name: "Color".to_string(),
                variants: vec![VariantInfo { name: "Red".to_string(), tag: 3, fields: vec![] }],
            },
            EnumInfo {
                name: "Shape".to_string(),
                variants: vec![VariantInfo {
                    name: "Disc".to_string(),
                    tag: 1,
                    fields: vec![field("r", HType::Int), field("k", HType::Int)],
                }],
            },
        ],
        sigs: vec![],
        funcs: vec![],
        globals: vec![],
        logics: vec![],
    }
}

#[test]
fn roots_of_places() {
    assert_eq!(place_root_local(&item(at(unwrap(int_var(4)), num(0)), 1)), Some(4));
    assert_eq!(place_root_local(&expr(HExprKind::DerefRef(boxed(int_var(5))), HType::Int)), Some(5));
    assert_eq!(place_root_local(&num(1)), None);
    assert!(place_root_is(&item(int_var(2), 0), 2));
    assert!(!place_root_is(&item(int_var(2), 0), 3));
}

#[test]
fn occurrences_of_locals() {
    let e = bin(HBinOp::Add, num(1), at(int_var(1), int_var(2)));
    assert!(expr_contains_local(&e, 2));
    assert!(!expr_contains_local(&e, 3));
}

#[test]
fn occurrences_in_match_arms() {
    let holds = |arm: HMatchArm| {
        let m = expr(
            HExprKind::Match { scrutinee: boxed(num(0)), arms: vec![arm], result_ty: HType::Int },
            HType::Int,
        );
        expr_contains_local(&m, 3)
    };
    let mut in_stmt = arm(HArmKind::Else);
    in_stmt.body = block(vec![HStmt::ExprStmt(int_var(3))]);
    assert!(holds(in_stmt));
    let mut deeper = arm(HArmKind::Else);
    deeper.body = block(vec![HStmt::If {
        cond: num(1),
        then_b: block(vec![]),
        else_b: Some(block(vec![HStmt::Return { value: None, heap_drops: vec![LocalId(3)] }])),
    }]);
    assert!(holds(deeper));
    let mut other = arm(HArmKind::Else);
    other.body = block(vec![set(int_var(2), num(1))]);
    other.guard = Some(int_var(1));
    assert!(!holds(other));
}

#[test]
fn sources_of_loops() {
    let touch = |id: u32| block(vec![HStmt::ExprStmt(borrow_of(true, item(int_var(id), 0)))]);
    assert!(keeps_source(3, &item(int_var(1), 0), &touch(2)));
    assert!(!keeps_source(3, &item(int_var(1), 0), &touch(1)));
    let made = |arg: HExpr| expr(HExprKind::Call { callee: FuncId(0), args: vec![arg] }, HType::Int);
    assert!(keeps_source(3, &made(int_var(1)), &touch(2)));
    assert!(!keeps_source(3, &made(int_var(1)), &touch(1)));
    let global = expr(HExprKind::GlobalRef(GlobalId(0)), HType::Int);
    assert!(!keeps_source(3, &item(global, 0), &block(vec![])));
}

#[test]
fn mutations() {
    assert!(expr_mutates_local(&borrow_of(true, item(int_var(1), 0)), 1));
    assert!(!expr_mutates_local(&borrow_of(false, item(int_var(1), 0)), 1));
    assert!(expr_mutates_local(&bin(HBinOp::Add, num(1), borrow_of(true, int_var(1))), 1));
    assert!(stmt_mutates_local(&set(item(int_var(1), 0), num(1)), 1));
    assert!(!stmt_mutates_local(&set(int_var(2), int_var(1)), 1));
    let nested = block(vec![HStmt::While { cond: num(1), body: block(vec![set(int_var(1), num(0))]) }]);
    assert!(block_mutates_local(&nested, 1));
    assert!(!block_mutates_local(&nested, 2));
}

fn counted(from: i64, op: HBinOp, limit: HExpr, body: HBlock) -> Option<(u32, BceBound)> {
    let init = HStmt::Let { local: LocalId(0), init: num(from) };
    forrange_bound(&init, &bin(op, int_var(0), limit), &body)
}

fn len_of(id: u32) -> HExpr {
    expr(
        HExprKind::SliceLen(boxed(var(id, HType::Slice { elem: Box::new(HType::Int), mutable: true }))),
        HType::Int,
    )
}

#[test]
fn loop_bounds() {
    assert!(matches!(counted(0, HBinOp::Lt, num(3), block(vec![])), Some((0, BceBound::Const(3)))));
    assert!(matches!(counted(1, HBinOp::Le, num(3), block(vec![])), Some((0, BceBound::Const(4)))));
    assert!(matches!(counted(0, HBinOp::Lt, len_of(7), block(vec![])), Some((0, BceBound::SliceLen(7)))));
    assert!(counted(0, HBinOp::Le, len_of(7), block(vec![])).is_none());
    assert!(counted(-1, HBinOp::Lt, num(3), block(vec![])).is_none());
    assert!(counted(0, HBinOp::Ne, num(3), block(vec![])).is_none());
    assert!(counted(0, HBinOp::Lt, num(3), block(vec![set(int_var(0), num(9))])).is_none());
    assert!(counted(0, HBinOp::Lt, len_of(7), block(vec![set(var(7, HType::Int), num(0))])).is_none());
}

/// The counter that is known in `for (i = 0; i < 3; step)`.
fn stepped(step: HStmt) -> Option<(u32, BceBound)> {
    let init = HStmt::Let { local: LocalId(0), init: num(0) };
    known_counter(&init, &bin(HBinOp::Lt, int_var(0), num(3)), &step, &block(vec![]))
}

#[test]
fn loop_steps() {
    let by = |op: HAssignOp, value: HExpr| HStmt::Assign { op, place: int_var(0), value };
    assert!(matches!(stepped(by(HAssignOp::Add, num(1))), Some((0, BceBound::Const(3)))));
    assert!(matches!(stepped(by(HAssignOp::Add, num(5))), Some((0, BceBound::Const(3)))));
    let sum = |a: HExpr, b: HExpr| by(HAssignOp::Assign, bin(HBinOp::Add, a, b));
    assert!(matches!(stepped(sum(int_var(0), num(2))), Some((0, BceBound::Const(3)))));
    assert!(matches!(stepped(sum(num(2), int_var(0))), Some((0, BceBound::Const(3)))));
    assert!(stepped(by(HAssignOp::Sub, num(1))).is_none());
    assert!(stepped(by(HAssignOp::Add, num(0))).is_none());
    assert!(stepped(by(HAssignOp::Add, num(-1))).is_none());
    assert!(stepped(by(HAssignOp::Mul, num(2))).is_none());
    assert!(stepped(by(HAssignOp::Add, int_var(1))).is_none());
    assert!(stepped(by(HAssignOp::Assign, num(2))).is_none());
    assert!(stepped(sum(int_var(1), num(2))).is_none());
    assert!(stepped(sum(int_var(0), num(-2))).is_none());
    assert!(stepped(by(HAssignOp::Assign, bin(HBinOp::Sub, int_var(0), num(1)))).is_none());
    assert!(stepped(HStmt::Assign { op: HAssignOp::Add, place: int_var(1), value: num(1) }).is_none());
    assert!(stepped(HStmt::Break).is_none());
    assert_eq!(step_rise(&by(HAssignOp::Add, num(-4)), 0), -4);
    assert_eq!(step_rise(&by(HAssignOp::Add, num(4)), 1), 0);
}

#[test]
fn owned_places() {
    let owned = || var(0, HType::Struct(StructId(0)));
    let lent = |mutable: bool| var(0, HType::Ref { inner: Box::new(HType::Struct(StructId(0))), mutable });
    assert!(move_out_owned_place(&item(owned(), 0)));
    assert!(move_out_owned_place(&item(var(0, own_ptr(HType::Int)), 0)));
    assert!(move_out_owned_place(&item(lent(true), 0)));
    assert!(!move_out_owned_place(&item(lent(false), 0)));
    assert!(!move_out_owned_place(&item(item(lent(false), 0), 0)));
}

#[test]
fn known_indices() {
    let known = vec![(1, BceBound::Const(4)), (2, BceBound::SliceLen(9))];
    assert!(idx_in_const_bound(&known, 4, &int_var(1)));
    assert!(!idx_in_const_bound(&known, 3, &int_var(1)));
    assert!(!idx_in_const_bound(&known, 4, &int_var(2)));
    assert!(idx_in_const_bound(&known, 4, &num(3)));
    assert!(!idx_in_const_bound(&known, 4, &num(4)));
    assert!(!idx_in_const_bound(&known, 4, &num(-1)));
    assert!(idx_in_slice_bound(&known, &int_var(9), &int_var(2)));
    assert!(!idx_in_slice_bound(&known, &int_var(8), &int_var(2)));
    assert!(!idx_in_slice_bound(&known, &int_var(9), &num(0)));
}

#[test]
fn checked_and_unchecked_indexing() {
    let known = vec![(1, BceBound::Const(4)), (2, BceBound::SliceLen(9))];
    let arr = |len: i64| HType::Array { len, elem: Box::new(HType::Int) };
    let vector = || HType::Vec { elem: Box::new(HType::Int) };
    let go = |ty: HType, i: HExpr| index_access(&known, &var(9, ty), &i, "b", "i");
    assert_eq!(go(arr(4), int_var(1)), "((b)[(maka_int)(i)])");
    assert_eq!(go(arr(2), int_var(1)), "((b)[maka_check_idx((maka_int)(i), (maka_int)2, \"array idx\")])");
    assert_eq!(go(vector(), int_var(2)), "((b).data[(maka_int)(i)])");
    assert_eq!(go(vector(), num(0)), "((b).data[maka_check_idx((maka_int)(i), (b).len, \"vec idx\")])");
    assert_eq!(
        go(HType::Slice { elem: Box::new(HType::Int), mutable: false }, int_var(2)),
        "((b).ptr[(maka_int)(i)])"
    );
    assert_eq!(
        go(HType::Heap { inner: Box::new(vector()) }, int_var(2)),
        "((b).data[maka_check_idx((maka_int)(i), (b).len, \"vec idx\")])"
    );
    assert_eq!(go(HType::Heap { inner: Box::new(arr(4)) }, num(3)), "((b)[(maka_int)(i)])");
    assert_eq!(
        go(HType::Ref { inner: Box::new(arr(4)), mutable: false }, num(4)),
        "((b)[maka_check_idx((maka_int)(i), (maka_int)4, \"array idx\")])"
    );
    assert_eq!(go(own_ptr(HType::Int), num(4)), "((b)[i])");
}

#[test]
fn fields_by_value_and_by_pointer() {
    let s = sym();
    let point = || HType::Struct(StructId(0));
    assert_eq!(field_access(&s, &var(0, point()), 0), (".", "x".to_string()));
    assert_eq!(field_access(&s, &var(0, own_ptr(own_ptr(point()))), 1), ("->", "a_2eb".to_string()));
}

fn arm(kind: HArmKind) -> HMatchArm {
    HMatchArm { kind, scrut_binding: None, guard: None, body: block(vec![]), value: None }
}

fn disc(enum_id: u32, checks: Vec<Option<HExpr>>) -> HArmKind {
    HArmKind::Variant {
        enum_id: EnumId(enum_id),
        variant: 0,
        bindings: vec![None, Some(LocalId(0))],
        lit_checks: checks,
    }
}

#[test]
fn matches_that_are_switches() {
    let ty = || HType::Enum(EnumId(1));
    assert_eq!(match_as_switch(&ty(), &vec![arm(disc(1, vec![None])), arm(HArmKind::Else)]), Some(EnumId(1)));
    assert_eq!(match_as_switch(&ty(), &vec![arm(disc(1, vec![Some(num(1))]))]), None);
    assert_eq!(match_as_switch(&HType::Int, &vec![arm(HArmKind::Else)]), None);
    assert_eq!(match_as_switch(&ty(), &vec![arm(HArmKind::Null)]), None);
    let mut guarded = arm(disc(1, vec![]));
    guarded.guard = Some(num(1));
    assert_eq!(match_as_switch(&ty(), &vec![guarded]), None);
}

#[test]
fn tests_of_arms() {
    let s = sym();
    assert_eq!(match_predicate(&s, &HArmKind::Else), "1");
    assert_eq!(match_predicate(&s, &HArmKind::Null), "(__s == NULL)");
    assert_eq!(match_predicate(&s, &HArmKind::Lit(num(5))), "(__s == (maka_int)5LL)");
    assert_eq!(match_predicate(&s, &disc(0, vec![])), "(__s == 3)");
    assert_eq!(
        match_predicate(&s, &disc(1, vec![None, Some(num(2))])),
        "(__s.tag == 1) && (__s.payload.Disc.k == (maka_int)2LL)"
    );
}

#[test]
fn bindings_of_arms() {
    let s = sym();
    let f = func(0, "f", vec![], vec![local("k", HType::Int)], HType::Unit, block(vec![]));
    assert_eq!(match_bindings(&s, &f, None, &disc(1, vec![])), "maka_int k_0 = __s.payload.Disc.k; ");
    assert_eq!(match_bindings(&s, &f, None, &HArmKind::Else), "");
    assert_eq!(
        match_bindings(&s, &f, Some("ix1_2"), &disc(1, vec![])),
        "maka_int _il_0_ix1_2 = __s.payload.Disc.k; "
    );
    assert_eq!(scrutinee_binding(&s, &f, None, Some(LocalId(0))), "maka_int k_0 = __s; ");
    assert_eq!(scrutinee_binding(&s, &f, Some("t"), Some(LocalId(0))), "maka_int _il_0_t = __s; ");
    assert_eq!(scrutinee_binding(&s, &f, None, None), "");
}
