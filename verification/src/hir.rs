//! The typed program that the code generator reads.
//!
//! Names, types and ownership have been resolved before a module gets here:
//! every type, field, local and callee is an index into one of the tables below,
//! and every scope lists what it has to release.
use vstd::prelude::*;

use crate::text::str_eq;

verus! {

/// Index of a struct in [`SymTab::structs`].
#[derive(Debug, Clone, Copy, PartialEq, Eq, Structural)]
pub struct StructId(pub u32);

/// Index of an enum in [`SymTab::enums`].
#[derive(Debug, Clone, Copy, PartialEq, Eq, Structural)]
pub struct EnumId(pub u32);

/// Index of a signature in [`SymTab::sigs`]. The highest values name built-ins.
#[derive(Debug, Clone, Copy, PartialEq, Eq, Structural)]
pub struct FuncId(pub u32);

/// Index of a local in [`HFunc::locals`].
#[derive(Debug, Clone, Copy, PartialEq, Eq, Structural)]
pub struct LocalId(pub u32);

/// Index of a global in [`SymTab::globals`].
#[derive(Debug, Clone, Copy, PartialEq, Eq, Structural)]
pub struct GlobalId(pub u32);

/// A resolved type.
#[derive(Debug)]
pub enum HType {
    Int,
    /// A fixed-width integer; zero bits stands for pointer width.
    SizedInt { signed: bool, bits: u32 },
    Float,
    SizedFloat { bits: u32 },
    Bool,
    Char,
    Unit,
    Str,
    /// The type of `null`.
    NullT,
    Struct(StructId),
    Enum(EnumId),
    /// `&T` and `&mut T`.
    Ref { inner: Box<HType>, mutable: bool },
    /// `*T`: nullable, not owning.
    Ptr { inner: Box<HType>, mutable: bool },
    /// `raw *T`.
    RawPtr { inner: Box<HType>, mutable: bool },
    /// `own *T`: nullable, owning.
    OwnPtr { inner: Box<HType>, mutable: bool },
    /// `own &T`: never null, owning.
    Heap { inner: Box<HType> },
    Array { len: i64, elem: Box<HType> },
    Slice { elem: Box<HType>, mutable: bool },
    Vec { elem: Box<HType> },
    Dyn { traits: Vec<String> },
    /// A function value. The keys are the names under which the front end
    /// tells the return type and the parameter types apart.
    FnPtr { ret: Box<HType>, params: Vec<HType>, ret_key: String, param_keys: Vec<String> },
    TyVar(String),
    AssocType { on: Box<HType>, segment: String },
    GenericPattern { template_name: String, args: Vec<HType> },
    /// `Rust<T>`: a foreign value behind an untyped pointer.
    RustOpaque(String),
}

/// Binary operators.
#[derive(Debug, Clone, Copy, PartialEq, Eq, Structural)]
pub enum HBinOp {
    Add,
    Sub,
    Mul,
    Div,
    Mod,
    Eq,
    Ne,
    Lt,
    Le,
    Gt,
    Ge,
    And,
    Or,
    BitAnd,
    BitOr,
    BitXor,
    Shl,
    Shr,
}

/// Unary operators.
#[derive(Debug, Clone, Copy, PartialEq, Eq, Structural)]
pub enum HUnOp {
    Neg,
    Not,
}

/// Assignment operators.
#[derive(Debug, Clone, Copy, PartialEq, Eq, Structural)]
pub enum HAssignOp {
    Assign,
    Add,
    Sub,
    Mul,
    Div,
    Mod,
}

/// What a cast does.
#[derive(Debug)]
pub enum CastKind {
    Numeric,
    SignChange,
    EnumToInt,
    CharIntInt,
    Identity,
    /// `int as Enum`, checked against the enum's tags.
    IntToEnumChecked,
    /// `*int` to `*Enum`, null when the pointee is no tag.
    IntPtrToEnumPtrChecked,
    Reinterpret,
    /// To a trait object made of one struct's methods.
    ToDyn { trait_name: String, struct_id: StructId },
}

/// An expression with its type.
#[derive(Debug)]
pub struct HExpr {
    pub kind: HExprKind,
    pub ty: HType,
}

/// The shape of an expression.
#[derive(Debug)]
#[allow(inconsistent_fields)]
pub enum HExprKind {
    LitInt(i64),
    /// A float literal, as its decimal text.
    LitFloat(String),
    LitBool(bool),
    LitChar(char),
    LitStr(String),
    LitNull,
    LitUnit,
    Local(LocalId),
    GlobalRef(GlobalId),
    CallIndirect { callee: Box<HExpr>, args: Vec<HExpr> },
    InlineCall { callee: FuncId, args: Vec<HExpr> },
    Transfer(Box<HExpr>),
    EnumTag(Box<HExpr>),
    SliceLen(Box<HExpr>),
    Closure { lifted: FuncId, env_struct: StructId, env_values: Vec<HExpr> },
    FnRef(FuncId),
    EnumVariant(EnumId, usize),
    Bin { op: HBinOp, lhs: Box<HExpr>, rhs: Box<HExpr> },
    Un { op: HUnOp, expr: Box<HExpr> },
    Unwrap { expr: Box<HExpr>, skip_check: bool },
    AddrOfRef { mutable: bool, place: Box<HExpr> },
    Field { base: Box<HExpr>, field: usize },
    Index { base: Box<HExpr>, idx: Box<HExpr> },
    Call { callee: FuncId, args: Vec<HExpr> },
    Cast { expr: Box<HExpr>, kind: CastKind, to: HType },
    CheckedCast { expr: Box<HExpr>, kind: CastKind, to: HType },
    /// A struct literal: field indices with their values.
    Struct { id: StructId, fields: Vec<(usize, HExpr)> },
    ArrayLit(Vec<HExpr>),
    DropWrite(Box<HExpr>),
    DerefRef(Box<HExpr>),
    HeapAlloc(Box<HExpr>),
    Free(Box<HExpr>),
    Match { scrutinee: Box<HExpr>, arms: Vec<HMatchArm>, result_ty: HType },
    /// An enum value with payload: field indices with their values.
    VariantCtor { enum_id: EnumId, variant: usize, fields: Vec<(usize, HExpr)> },
    ArrayToSlice { base: Box<HExpr>, len: i64 },
}

/// What a match arm accepts.
#[derive(Debug)]
pub enum HArmKind {
    Else,
    Null,
    Lit(HExpr),
    /// A variant, with the local bound to each field and the literal that each
    /// field has to equal.
    Variant {
        enum_id: EnumId,
        variant: usize,
        bindings: Vec<Option<LocalId>>,
        lit_checks: Vec<Option<HExpr>>,
    },
}

/// One arm of a match.
#[derive(Debug)]
pub struct HMatchArm {
    pub kind: HArmKind,
    /// The local that names the whole scrutinee.
    pub scrut_binding: Option<LocalId>,
    pub guard: Option<HExpr>,
    pub body: HBlock,
    pub value: Option<HExpr>,
}

/// A statement.
#[derive(Debug)]
#[allow(inconsistent_fields)]
pub enum HStmt {
    Let { local: LocalId, init: HExpr },
    Assign { op: HAssignOp, place: HExpr, value: HExpr },
    ExprStmt(HExpr),
    Return { value: Option<HExpr>, heap_drops: Vec<LocalId> },
    If { cond: HExpr, then_b: HBlock, else_b: Option<HBlock> },
    While { cond: HExpr, body: HBlock },
    Block(HBlock),
    Unsafe(HBlock),
    Break,
    Continue,
    ForC { init: Box<HStmt>, cond: HExpr, step: Box<HStmt>, body: HBlock },
    ForEach { var: LocalId, src: HExpr, body: HBlock },
    Propagate { value: Option<HExpr> },
}

/// A block, with what its end releases.
#[derive(Debug)]
pub struct HBlock {
    pub stmts: Vec<HStmt>,
    /// Pointers to null because what they point at dies with the block.
    pub ptr_nulls: Vec<LocalId>,
    /// Owning locals to free, in release order.
    pub heap_to_free: Vec<LocalId>,
}

/// A local variable or parameter.
#[derive(Debug)]
pub struct LocalInfo {
    pub name: String,
    pub ty: HType,
    pub thread_local: bool,
}

/// A function with a body.
#[derive(Debug)]
pub struct HFunc {
    pub id: FuncId,
    pub name: String,
    pub params: Vec<LocalId>,
    pub locals: Vec<LocalInfo>,
    pub ret: HType,
    pub body: HBlock,
}

/// A function signature.
#[derive(Debug)]
pub struct FuncSig {
    pub name: String,
    pub c_name: String,
    pub type_params: Vec<String>,
    pub param_names: Vec<String>,
    pub param_tys: Vec<HType>,
    pub ret: HType,
    /// The front end's keys of the parameter types and of the return type.
    pub param_keys: Vec<String>,
    pub ret_key: String,
    pub is_extern: bool,
    pub is_variadic: bool,
    pub is_inline: bool,
    pub is_pub: bool,
    /// The `logic` block that declares the function.
    pub logic: Option<String>,
}

/// A named field.
#[derive(Debug)]
pub struct FieldInfo {
    pub name: String,
    pub ty: HType,
}

/// A struct; a template when it has type parameters.
#[derive(Debug)]
pub struct StructInfo {
    pub name: String,
    pub type_params: Vec<String>,
    pub fields: Vec<FieldInfo>,
}

/// A variant of an enum.
#[derive(Debug)]
pub struct VariantInfo {
    pub name: String,
    pub tag: i64,
    pub fields: Vec<FieldInfo>,
}

/// An enum.
#[derive(Debug)]
pub struct EnumInfo {
    pub name: String,
    pub variants: Vec<VariantInfo>,
}

/// A module-level variable.
#[derive(Debug)]
pub struct GlobalInfo {
    pub c_name: String,
    pub ty: HType,
    pub init: HExpr,
}

/// A `logic` block: a named group of functions that a trait object dispatches to.
#[derive(Debug)]
pub struct LogicInfo {
    pub name: String,
    pub funcs: Vec<FuncId>,
}

/// The symbol tables.
#[derive(Debug)]
pub struct SymTab {
    pub structs: Vec<StructInfo>,
    pub enums: Vec<EnumInfo>,
    pub sigs: Vec<FuncSig>,
    pub funcs: Vec<HFunc>,
    pub globals: Vec<GlobalInfo>,
    pub logics: Vec<LogicInfo>,
}

/// A whole program, with its C interop directives.
#[derive(Debug)]
pub struct HirModule {
    pub sym: SymTab,
    pub cincludes: Vec<String>,
    pub cblocks: Vec<String>,
}

impl HType {
    /// The type behind an `own &T`, or the type itself.
    pub open spec fn without_heap(self) -> HType {
        match self {
            HType::Heap { inner } => *inner,
            _ => self,
        }
    }

    /// Strips an `own &`.
    pub fn strip_heap(&self) -> (r: &HType)
        ensures
            *r == self.without_heap(),
    {
        match self {
            HType::Heap { inner } => inner,
            _ => self,
        }
    }

    /// A trait object, or a borrow of or pointer to one: all of them are the
    /// same fat pointer in C.
    pub open spec fn is_dyn_value(self) -> bool {
        match self {
            HType::Dyn { .. } => true,
            HType::Ref { inner, .. } | HType::Ptr { inner, .. } | HType::RawPtr { inner, .. }
            | HType::OwnPtr { inner, .. } => *inner is Dyn,
            _ => false,
        }
    }

    /// Tests for a fat trait-object pointer.
    pub fn dyn_value(&self) -> (r: bool)
        ensures
            r == self.is_dyn_value(),
    {
        match self {
            HType::Dyn { .. } => true,
            HType::Ref { inner, .. } | HType::Ptr { inner, .. } | HType::RawPtr { inner, .. }
            | HType::OwnPtr { inner, .. } => match &**inner {
                HType::Dyn { .. } => true,
                _ => false,
            },
            _ => false,
        }
    }
}

impl EnumInfo {
    /// No variant carries a payload, so the enum is a plain integer in C.
    pub open spec fn simple(self) -> bool {
        forall|i: int| 0 <= i < self.variants@.len() ==> (#[trigger] self.variants@[i]).fields@.len() == 0
    }

    /// Tests for an enum without payloads.
    pub fn is_simple(&self) -> (r: bool)
        ensures
            r == self.simple(),
    {
        let n: usize = self.variants.len();
        let mut i: usize = 0;
        while i < n
            invariant
                i <= n,
                n == self.variants@.len(),
                forall|j: int| 0 <= j < i ==> (#[trigger] self.variants@[j]).fields@.len() == 0,
            decreases n - i,
        {
            if self.variants[i].fields.len() != 0 {
                return false;
            }
            i += 1;
        }
        true
    }
}

impl StructInfo {
    /// A template is never emitted itself, only its instances are.
    pub open spec fn is_template(self) -> bool {
        self.type_params@.len() != 0
    }

    /// The struct is defined in the output: it is no template and not `Thread`, which the
    /// runtime defines.
    pub open spec fn written(self) -> bool {
        !self.is_template() && self.name@ != "Thread"@
    }

    /// Tests for a struct that is defined in the output.
    pub fn is_written(&self) -> (r: bool)
        ensures
            r == self.written(),
    {
        self.type_params.len() == 0 && !str_eq(&self.name, "Thread")
    }
}

impl SymTab {
    /// The id is in the table of structs.
    pub open spec fn has_struct(self, id: StructId) -> bool {
        id.0 < self.structs@.len()
    }

    /// The id is in the table of enums.
    pub open spec fn has_enum(self, id: EnumId) -> bool {
        id.0 < self.enums@.len()
    }

    /// The id is in the table of signatures.
    pub open spec fn has_sig(self, id: FuncId) -> bool {
        id.0 < self.sigs@.len()
    }

    /// The id is in the table of globals.
    pub open spec fn has_global(self, id: GlobalId) -> bool {
        id.0 < self.globals@.len()
    }

    /// The struct with an id.
    pub open spec fn the_struct(self, id: StructId) -> StructInfo {
        self.structs@[id.0 as int]
    }

    /// The enum with an id.
    pub open spec fn the_enum(self, id: EnumId) -> EnumInfo {
        self.enums@[id.0 as int]
    }

    /// The signature with an id.
    pub open spec fn the_sig(self, id: FuncId) -> FuncSig {
        self.sigs@[id.0 as int]
    }

    /// The global with an id.
    pub open spec fn the_global(self, id: GlobalId) -> GlobalInfo {
        self.globals@[id.0 as int]
    }

    /// The enum exists and has that variant.
    pub open spec fn has_variant(self, id: EnumId, variant: usize) -> bool {
        self.has_enum(id) && variant < self.the_enum(id).variants@.len()
    }

    /// A variant of the enum with an id.
    pub open spec fn the_variant(self, id: EnumId, variant: usize) -> VariantInfo {
        self.the_enum(id).variants@[variant as int]
    }

    /// Looks up a struct.
    pub fn struct_info(&self, id: StructId) -> (r: &StructInfo)
        requires
            self.has_struct(id),
        ensures
            *r == self.the_struct(id),
    {
        &self.structs[id.0 as usize]
    }

    /// Looks up an enum.
    pub fn enum_info(&self, id: EnumId) -> (r: &EnumInfo)
        requires
            self.has_enum(id),
        ensures
            *r == self.the_enum(id),
    {
        &self.enums[id.0 as usize]
    }

    /// Looks up a signature.
    pub fn func_sig(&self, id: FuncId) -> (r: &FuncSig)
        requires
            self.has_sig(id),
        ensures
            *r == self.the_sig(id),
    {
        &self.sigs[id.0 as usize]
    }

    /// Looks up a global.
    pub fn global_info(&self, id: GlobalId) -> (r: &GlobalInfo)
        requires
            self.has_global(id),
        ensures
            *r == self.the_global(id),
    {
        &self.globals[id.0 as usize]
    }

    /// The position of the first logic block called `name`, from `from` on.
    pub open spec fn logic_from(self, name: Seq<char>, from: nat) -> Option<int>
        decreases self.logics@.len() - from,
    {
        if from >= self.logics@.len() {
            None
        } else if self.logics@[from as int].name@ == name {
            Some(from as int)
        } else {
            self.logic_from(name, from + 1)
        }
    }

    /// The first logic block called `name`.
    pub fn logic_by_name(&self, name: &str) -> (r: Option<&LogicInfo>)
        ensures
            match r {
                Some(l) => self.logic_from(name@, 0) matches Some(i) && *l == self.logics@[i],
                None => self.logic_from(name@, 0) is None,
            },
    {
        let mut i: usize = 0;
        while i < self.logics.len()
            invariant
                i <= self.logics@.len(),
                self.logic_from(name@, 0) == self.logic_from(name@, i as nat),
            decreases self.logics@.len() - i,
        {
            if str_eq(&self.logics[i].name, name) {
                return Some(&self.logics[i]);
            }
            i += 1;
        }
        None
    }

    /// The position of the first function with that id, from `from` on.
    pub open spec fn func_from(self, id: FuncId, from: nat) -> Option<int>
        decreases self.funcs@.len() - from,
    {
        if from >= self.funcs@.len() {
            None
        } else if self.funcs@[from as int].id == id {
            Some(from as int)
        } else {
            self.func_from(id, from + 1)
        }
    }

    /// The first function with that id.
    pub fn func_by_id(&self, id: FuncId) -> (r: Option<&HFunc>)
        ensures
            match r {
                Some(f) => self.func_from(id, 0) matches Some(i) && *f == self.funcs@[i],
                None => self.func_from(id, 0) is None,
            },
    {
        let mut i: usize = 0;
        while i < self.funcs.len()
            invariant
                i <= self.funcs@.len(),
                self.func_from(id, 0) == self.func_from(id, i as nat),
            decreases self.funcs@.len() - i,
        {
            if self.funcs[i].id == id {
                return Some(&self.funcs[i]);
            }
            i += 1;
        }
        None
    }
}

} // verus!
