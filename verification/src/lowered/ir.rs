//! Lowered programs: types, capability policies, runtime values and bodies.
//!
//! A list that stands for a table keyed by name or domain holds each key once,
//! in key order. Floating-point values are held as the bits of a 64-bit IEEE
//! number.
use vstd::prelude::*;

verus! {

/// A domain of host authority.
#[derive(Debug, Clone, Copy, PartialEq, Eq, Structural)]
pub enum CapabilityDomain {
    StdinRead,
    FsRead,
    FsWrite,
    EnvRead,
    EnvWrite,
    NetConnect,
    NetListen,
    ProcessRun,
    Clock,
    Random,
    SystemInfo,
}

/// Whether a policy group must keep a scope when it is narrowed.
#[derive(Debug, Clone, Copy, PartialEq, Eq, Structural)]
pub enum PolicyRequirement {
    Mandatory,
    Optional,
}

/// What a handle may be used for.
#[derive(Debug, Clone, Copy, PartialEq, Eq, Structural)]
pub enum HandleAccess {
    Read,
    Write,
    ReadWrite,
    Process,
}

/// An opaque handle of a host resource.
#[derive(Debug, Clone, Copy, PartialEq, Eq, Structural)]
pub struct HostHandle {
    pub id: u64,
    pub access: HandleAccess,
}

/// The primitive operations.
#[derive(Debug, Clone, Copy, PartialEq, Eq, Structural)]
pub enum PrimitiveOp {
    Add,
    Subtract,
    Multiply,
    Divide,
    Remainder,
    Negate,
    Equal,
    NotEqual,
    LessThan,
    LessOrEqual,
    GreaterThan,
    GreaterOrEqual,
    And,
    Or,
    Not,
    BitAnd,
    BitOr,
    BitXor,
    BitNot,
    ShiftLeft,
    ShiftRight,
    Convert,
}

/// Who may name a function.
#[derive(Debug, Clone, Copy, PartialEq, Eq, Structural)]
pub enum FunctionVisibility {
    Public,
    Private,
}

/// What a host import expects in one position.
#[derive(Debug, Clone, Copy, PartialEq, Eq, Structural)]
pub enum ParamKind {
    Plain,
    Capability(CapabilityDomain),
}

#[derive(Debug)]
pub enum PolicyScope {
    Any,
    Dir(String),
    File(String),
    Exact(String),
    Prefix(String),
}

#[derive(Debug)]
pub struct PolicyGroup {
    pub requirement: PolicyRequirement,
    pub scopes: Vec<PolicyScope>,
}

#[derive(Debug)]
pub struct PolicyDomain {
    pub domain: CapabilityDomain,
    pub groups: Vec<PolicyGroup>,
}

#[derive(Debug)]
pub struct PolicyType {
    pub domains: Vec<PolicyDomain>,
}

#[derive(Debug)]
pub struct CapabilityType {
    pub domain: CapabilityDomain,
    pub groups: Vec<PolicyGroup>,
}

#[derive(Debug)]
pub struct PolicyValue {
    pub policy: PolicyType,
}

#[derive(Debug)]
pub struct CapabilityValue {
    pub capability: CapabilityType,
    pub policy: PolicyType,
}

#[derive(Debug)]
pub struct EnumTag {
    pub name: String,
    pub payload: Option<TypeRef>,
}

#[allow(inconsistent_fields)]
#[derive(Debug)]
pub enum TypeRef {
    Void,
    Bool,
    Str,
    Int8,
    Int16,
    Int32,
    Int64,
    UInt8,
    UInt16,
    UInt32,
    UInt64,
    Float32,
    Float64,
    Range,
    Named(String),
    Instantiated {
        base: String,
        type_args: Vec<TypeRef>,
    },
    Mutable(Box<TypeRef>),
    Reference {
        inner: Box<TypeRef>,
        mutable: bool,
    },
    Enum(Vec<EnumTag>),
    Policy(PolicyType),
    Capability(CapabilityType),
}

#[derive(Debug)]
pub struct TypeAlias {
    pub type_params: Vec<String>,
    pub body: TypeRef,
}

#[derive(Debug)]
pub struct AliasEntry {
    pub name: String,
    pub alias: TypeAlias,
}

#[derive(Debug)]
pub struct FieldValue {
    pub name: String,
    pub value: RuntimeValue,
}

/// A value of a running program. A mutable place is a cell of the run's store,
/// named by its number.
#[allow(inconsistent_fields)]
#[derive(Debug)]
pub enum RuntimeValue {
    Void,
    Bool(bool),
    Int(i64),
    Float(u64),
    Str(String),
    Typed {
        type_ref: TypeRef,
        value: Box<RuntimeValue>,
    },
    Enum {
        enum_key: String,
        tag: String,
        payload: Option<Box<RuntimeValue>>,
    },
    Record(Vec<FieldValue>),
    Tuple(Vec<RuntimeValue>),
    Array(Vec<RuntimeValue>),
    Mapping(Vec<(RuntimeValue, RuntimeValue)>),
    Range {
        start: i64,
        end: i64,
        step: i64,
    },
    Mutable(u64),
    Reference {
        cell: u64,
        mutable: bool,
    },
    Policy(PolicyValue),
    Capability(CapabilityValue),
    HostHandle(HostHandle),
    JoinHandle(u64),
}

#[derive(Debug)]
pub struct HostImportName {
    pub module: String,
    pub name: String,
}

#[derive(Debug)]
pub struct Call {
    pub callee_key: String,
    pub args: Vec<Expr>,
    pub type_args: Vec<TypeRef>,
}

#[derive(Debug)]
pub struct FieldExpr {
    pub name: String,
    pub value: Expr,
}

#[allow(inconsistent_fields)]
#[derive(Debug)]
pub enum Expr {
    Value(RuntimeValue),
    VarRef(String),
    Mutable(Box<Expr>),
    Reference {
        target: Box<Expr>,
        mutable: bool,
    },
    Call {
        call: Call,
        return_type: TypeRef,
    },
    HostCall {
        import: HostImportName,
        args: Vec<Expr>,
        intrinsic: bool,
        return_type: TypeRef,
    },
    Primitive {
        op: PrimitiveOp,
        args: Vec<Expr>,
        operand_type: TypeRef,
        return_type: TypeRef,
    },
    Cast {
        from: Box<Expr>,
        target: TypeRef,
    },
    PolicyNarrow {
        from: Box<Expr>,
        target: TypeRef,
    },
    EnumConstructor {
        enum_key: String,
        tag: String,
        payload: Option<Box<Expr>>,
    },
    Record(Vec<FieldExpr>),
    Tuple(Vec<Expr>),
    Array(Vec<Expr>),
    Mapping(Vec<(Expr, Expr)>),
    Range {
        start: Box<Expr>,
        end: Box<Expr>,
        step: Box<Expr>,
    },
    If {
        cond: Box<Expr>,
        then_e: Box<Expr>,
        else_e: Box<Expr>,
    },
}

#[derive(Debug)]
pub struct FieldPattern {
    pub name: String,
    pub pattern: Pattern,
}

#[allow(inconsistent_fields)]
#[derive(Debug)]
pub enum Pattern {
    Wildcard,
    Bind(String),
    Literal(RuntimeValue),
    Enum {
        enum_key: String,
        tag: String,
        payload: Option<Box<Pattern>>,
    },
    Record(Vec<FieldPattern>),
    Tuple(Vec<Pattern>),
    Array(Vec<Pattern>),
    Mapping(Vec<(Pattern, Pattern)>),
    Newtype {
        type_ref: TypeRef,
        inner: Box<Pattern>,
    },
    Interface(TypeRef),
}

#[derive(Debug)]
pub enum LetValue {
    Call(Call),
    Expr(Expr),
}

#[derive(Debug)]
pub struct MatchArm {
    pub pattern: Pattern,
    pub body: Vec<Statement>,
}

#[allow(inconsistent_fields)]
#[derive(Debug)]
pub enum Statement {
    Return(Expr),
    Call(Call),
    Let {
        var: String,
        value: LetValue,
    },
    Assign {
        var: String,
        value: Expr,
    },
    Match {
        target: Expr,
        arms: Vec<MatchArm>,
    },
    Eval(Expr),
    If {
        cond: Expr,
        then_body: Vec<Statement>,
        else_body: Vec<Statement>,
    },
    While {
        cond: Expr,
        body: Vec<Statement>,
    },
    For {
        var: String,
        source: Expr,
        body: Vec<Statement>,
    },
    Task {
        captures: Vec<String>,
        body: Vec<Statement>,
    },
    Spawn {
        handle: String,
        captures: Vec<String>,
        value: Expr,
    },
    Join {
        handle: String,
        var: String,
    },
    Break,
    Continue,
}

/// How a wrapper fills one argument of its host import.
#[derive(Debug)]
pub enum WasmArgSpec {
    Arg(String),
    ConstInt(i64),
    ConstStr(String),
}

#[allow(inconsistent_fields)]
#[derive(Debug)]
pub enum FunctionBody {
    User {
        statements: Vec<Statement>,
    },
    Wasm {
        import: HostImportName,
        wasm_args: Vec<WasmArgSpec>,
    },
}

#[derive(Debug)]
pub struct TypedName {
    pub name: String,
    pub ty: TypeRef,
}

/// A domain and an action in it; an empty action stands for the whole domain.
#[derive(Debug)]
pub struct EffectLabel {
    pub domain: String,
    pub action: String,
}

/// A declared row of effects, in label order.
#[derive(Debug)]
pub struct EffectRow {
    pub labels: Vec<EffectLabel>,
}

#[derive(Debug)]
pub struct FunctionSig {
    pub alias: String,
    pub symbol: String,
    pub visibility: FunctionVisibility,
    pub interface_method: bool,
    pub owner_effect: Option<EffectLabel>,
    pub type_params: Vec<String>,
    pub parameters: Vec<TypedName>,
    pub arg_names: Vec<String>,
    pub return_type: TypeRef,
    pub effects: EffectRow,
    pub body: FunctionBody,
}

#[derive(Debug)]
pub struct FunctionEntry {
    pub key: String,
    pub signature: FunctionSig,
}

#[derive(Debug)]
pub struct ImplKey {
    pub implementing_type: String,
    pub interface: String,
}

/// A function that the host offers to programs.
#[derive(Debug)]
pub struct HostImport {
    pub module: String,
    pub name: String,
    pub params: Vec<ParamKind>,
    pub effects: Vec<EffectLabel>,
}

#[derive(Debug)]
pub struct LoweredProgram {
    pub statements: Vec<Statement>,
    pub functions: Vec<FunctionEntry>,
    pub main_arg_bindings: Vec<TypedName>,
    pub impls: Vec<ImplKey>,
    pub imports: Vec<HostImport>,
}

/// An expression with the program that it is evaluated in.
#[derive(Debug)]
pub struct LoweredExec {
    pub expr: Expr,
    pub program: LoweredProgram,
}

} // verus!
