//! What a lowered program holds, as mathematical values: vectors become
//! sequences and strings become sequences of characters.
use vstd::prelude::*;
use crate::lowered::ir::{
    AliasEntry, Call, CapabilityDomain, CapabilityType, CapabilityValue, EffectLabel, EffectRow, EnumTag, Expr,
    FieldExpr, FieldPattern, FieldValue, FunctionBody, FunctionEntry, FunctionSig, FunctionVisibility, HostHandle,
    HostImport, HostImportName, ImplKey, LetValue, LoweredProgram, MatchArm, ParamKind, Pattern, PolicyDomain,
    PolicyGroup, PolicyRequirement, PolicyScope, PolicyType, PolicyValue, PrimitiveOp, RuntimeValue, Statement,
    TypeAlias, TypeRef, TypedName, WasmArgSpec,
};

verus! {

pub struct PolicyGroupView {
    pub requirement: PolicyRequirement,
    pub scopes: Seq<PolicyScopeView>,
}

pub struct PolicyDomainView {
    pub domain: CapabilityDomain,
    pub groups: Seq<PolicyGroupView>,
}

pub struct PolicyTypeView {
    pub domains: Seq<PolicyDomainView>,
}

pub struct CapabilityTypeView {
    pub domain: CapabilityDomain,
    pub groups: Seq<PolicyGroupView>,
}

pub struct PolicyValueView {
    pub policy: PolicyTypeView,
}

pub struct CapabilityValueView {
    pub capability: CapabilityTypeView,
    pub policy: PolicyTypeView,
}

pub struct EnumTagView {
    pub name: Seq<char>,
    pub payload: Option<TypeView>,
}

pub struct TypeAliasView {
    pub type_params: Seq<Seq<char>>,
    pub body: TypeView,
}

pub struct AliasEntryView {
    pub name: Seq<char>,
    pub alias: TypeAliasView,
}

pub struct FieldValueView {
    pub name: Seq<char>,
    pub value: ValueView,
}

pub struct HostImportNameView {
    pub module: Seq<char>,
    pub name: Seq<char>,
}

pub struct CallView {
    pub callee_key: Seq<char>,
    pub args: Seq<ExprView>,
    pub type_args: Seq<TypeView>,
}

pub struct FieldExprView {
    pub name: Seq<char>,
    pub value: ExprView,
}

pub struct FieldPatternView {
    pub name: Seq<char>,
    pub pattern: PatternView,
}

pub struct MatchArmView {
    pub pattern: PatternView,
    pub body: Seq<StatementView>,
}

pub struct TypedNameView {
    pub name: Seq<char>,
    pub ty: TypeView,
}

pub struct EffectLabelView {
    pub domain: Seq<char>,
    pub action: Seq<char>,
}

pub struct EffectRowView {
    pub labels: Seq<EffectLabelView>,
}

pub struct FunctionSigView {
    pub alias: Seq<char>,
    pub symbol: Seq<char>,
    pub visibility: FunctionVisibility,
    pub interface_method: bool,
    pub owner_effect: Option<EffectLabelView>,
    pub type_params: Seq<Seq<char>>,
    pub parameters: Seq<TypedNameView>,
    pub arg_names: Seq<Seq<char>>,
    pub return_type: TypeView,
    pub effects: EffectRowView,
    pub body: FunctionBodyView,
}

pub struct FunctionEntryView {
    pub key: Seq<char>,
    pub signature: FunctionSigView,
}

pub struct ImplKeyView {
    pub implementing_type: Seq<char>,
    pub interface: Seq<char>,
}

pub struct HostImportView {
    pub module: Seq<char>,
    pub name: Seq<char>,
    pub params: Seq<ParamKind>,
    pub effects: Seq<EffectLabelView>,
}

pub struct LoweredProgramView {
    pub statements: Seq<StatementView>,
    pub functions: Seq<FunctionEntryView>,
    pub main_arg_bindings: Seq<TypedNameView>,
    pub impls: Seq<ImplKeyView>,
    pub imports: Seq<HostImportView>,
}

pub enum PolicyScopeView {
    Any,
    Dir(Seq<char>),
    File(Seq<char>),
    Exact(Seq<char>),
    Prefix(Seq<char>),
}

#[allow(inconsistent_fields)]
pub enum TypeView {
    Void,
    Bool,
    Str,
    Int8,
    Int16,
    Int32,
    Int64,
    UInt8,
    UInt16,
    UInt32,
    UInt64,
    Float32,
    Float64,
    Range,
    Named(Seq<char>),
    Instantiated { base: Seq<char>, type_args: Seq<TypeView> },
    Mutable(Box<TypeView>),
    Reference { inner: Box<TypeView>, mutable: bool },
    Enum(Seq<EnumTagView>),
    Policy(PolicyTypeView),
    Capability(CapabilityTypeView),
}

#[allow(inconsistent_fields)]
pub enum ValueView {
    Void,
    Bool(bool),
    Int(i64),
    Float(u64),
    Str(Seq<char>),
    Typed { type_ref: TypeView, value: Box<ValueView> },
    Enum { enum_key: Seq<char>, tag: Seq<char>, payload: Option<Box<ValueView>> },
    Record(Seq<FieldValueView>),
    Tuple(Seq<ValueView>),
    Array(Seq<ValueView>),
    Mapping(Seq<(ValueView, ValueView)>),
    Range { start: i64, end: i64, step: i64 },
    Mutable(u64),
    Reference { cell: u64, mutable: bool },
    Policy(PolicyValueView),
    Capability(CapabilityValueView),
    HostHandle(HostHandle),
    JoinHandle(u64),
}

#[allow(inconsistent_fields)]
pub enum ExprView {
    Value(ValueView),
    VarRef(Seq<char>),
    Mutable(Box<ExprView>),
    Reference { target: Box<ExprView>, mutable: bool },
    Call { call: CallView, return_type: TypeView },
    HostCall { import: HostImportNameView, args: Seq<ExprView>, intrinsic: bool, return_type: TypeView },
    Primitive { op: PrimitiveOp, args: Seq<ExprView>, operand_type: TypeView, return_type: TypeView },
    Cast { from: Box<ExprView>, target: TypeView },
    PolicyNarrow { from: Box<ExprView>, target: TypeView },
    EnumConstructor { enum_key: Seq<char>, tag: Seq<char>, payload: Option<Box<ExprView>> },
    Record(Seq<FieldExprView>),
    Tuple(Seq<ExprView>),
    Array(Seq<ExprView>),
    Mapping(Seq<(ExprView, ExprView)>),
    Range { start: Box<ExprView>, end: Box<ExprView>, step: Box<ExprView> },
    If { cond: Box<ExprView>, then_e: Box<ExprView>, else_e: Box<ExprView> },
}

#[allow(inconsistent_fields)]
pub enum PatternView {
    Wildcard,
    Bind(Seq<char>),
    Literal(ValueView),
    Enum { enum_key: Seq<char>, tag: Seq<char>, payload: Option<Box<PatternView>> },
    Record(Seq<FieldPatternView>),
    Tuple(Seq<PatternView>),
    Array(Seq<PatternView>),
    Mapping(Seq<(PatternView, PatternView)>),
    Newtype { type_ref: TypeView, inner: Box<PatternView> },
    Interface(TypeView),
}

pub enum LetValueView {
    Call(CallView),
    Expr(ExprView),
}

#[allow(inconsistent_fields)]
pub enum StatementView {
    Return(ExprView),
    Call(CallView),
    Let { var: Seq<char>, value: LetValueView },
    Assign { var: Seq<char>, value: ExprView },
    Match { target: ExprView, arms: Seq<MatchArmView> },
    Eval(ExprView),
    If { cond: ExprView, then_body: Seq<StatementView>, else_body: Seq<StatementView> },
    While { cond: ExprView, body: Seq<StatementView> },
    For { var: Seq<char>, source: ExprView, body: Seq<StatementView> },
    Task { captures: Seq<Seq<char>>, body: Seq<StatementView> },
    Spawn { handle: Seq<char>, captures: Seq<Seq<char>>, value: ExprView },
    Join { handle: Seq<char>, var: Seq<char> },
    Break,
    Continue,
}

pub enum WasmArgSpecView {
    Arg(Seq<char>),
    ConstInt(i64),
    ConstStr(Seq<char>),
}

#[allow(inconsistent_fields)]
pub enum FunctionBodyView {
    User { statements: Seq<StatementView> },
    Wasm { import: HostImportNameView, wasm_args: Seq<WasmArgSpecView> },
}

pub open spec fn policy_group(node: PolicyGroup) -> PolicyGroupView
    decreases node,
{
    PolicyGroupView {
        requirement: node.requirement,
        scopes: self::policy_scopes(node.scopes@),
    }
}

pub open spec fn policy_domain(node: PolicyDomain) -> PolicyDomainView
    decreases node,
{
    PolicyDomainView {
        domain: node.domain,
        groups: self::policy_groups(node.groups@),
    }
}

pub open spec fn policy_type(node: PolicyType) -> PolicyTypeView
    decreases node,
{
    PolicyTypeView {
        domains: self::policy_domains(node.domains@),
    }
}

pub open spec fn capability_type(node: CapabilityType) -> CapabilityTypeView
    decreases node,
{
    CapabilityTypeView {
        domain: node.domain,
        groups: self::policy_groups(node.groups@),
    }
}

pub open spec fn policy_value(node: PolicyValue) -> PolicyValueView
    decreases node,
{
    PolicyValueView {
        policy: self::policy_type(node.policy),
    }
}

pub open spec fn capability_value(node: CapabilityValue) -> CapabilityValueView
    decreases node,
{
    CapabilityValueView {
        capability: self::capability_type(node.capability),
        policy: self::policy_type(node.policy),
    }
}

pub open spec fn enum_tag(node: EnumTag) -> EnumTagView
    decreases node,
{
    EnumTagView {
        name: node.name@,
        payload: match node.payload {
            Some(inner) => Some(self::type_ref(inner)),
            None => None,
        },
    }
}

pub open spec fn type_alias(node: TypeAlias) -> TypeAliasView
    decreases node,
{
    TypeAliasView {
        type_params: self::texts(node.type_params@),
        body: self::type_ref(node.body),
    }
}

pub open spec fn alias_entry(node: AliasEntry) -> AliasEntryView
    decreases node,
{
    AliasEntryView {
        name: node.name@,
        alias: self::type_alias(node.alias),
    }
}

pub open spec fn field_value(node: FieldValue) -> FieldValueView
    decreases node,
{
    FieldValueView {
        name: node.name@,
        value: self::value(node.value),
    }
}

pub open spec fn host_import_name(node: HostImportName) -> HostImportNameView
    decreases node,
{
    HostImportNameView {
        module: node.module@,
        name: node.name@,
    }
}

pub open spec fn call(node: Call) -> CallView
    decreases node,
{
    CallView {
        callee_key: node.callee_key@,
        args: self::exprs(node.args@),
        type_args: self::type_refs(node.type_args@),
    }
}

pub open spec fn field_expr(node: FieldExpr) -> FieldExprView
    decreases node,
{
    FieldExprView {
        name: node.name@,
        value: self::expr(node.value),
    }
}

pub open spec fn field_pattern(node: FieldPattern) -> FieldPatternView
    decreases node,
{
    FieldPatternView {
        name: node.name@,
        pattern: self::pattern(node.pattern),
    }
}

pub open spec fn match_arm(node: MatchArm) -> MatchArmView
    decreases node,
{
    MatchArmView {
        pattern: self::pattern(node.pattern),
        body: self::statements(node.body@),
    }
}

pub open spec fn typed_name(node: TypedName) -> TypedNameView
    decreases node,
{
    TypedNameView {
        name: node.name@,
        ty: self::type_ref(node.ty),
    }
}

pub open spec fn effect_label(node: EffectLabel) -> EffectLabelView
    decreases node,
{
    EffectLabelView {
        domain: node.domain@,
        action: node.action@,
    }
}

pub open spec fn effect_row(node: EffectRow) -> EffectRowView
    decreases node,
{
    EffectRowView {
        labels: self::effect_labels(node.labels@),
    }
}

pub open spec fn function_sig(node: FunctionSig) -> FunctionSigView
    decreases node,
{
    FunctionSigView {
        alias: node.alias@,
        symbol: node.symbol@,
        visibility: node.visibility,
        interface_method: node.interface_method,
        owner_effect: match node.owner_effect {
            Some(inner) => Some(self::effect_label(inner)),
            None => None,
        },
        type_params: self::texts(node.type_params@),
        parameters: self::typed_names(node.parameters@),
        arg_names: self::texts(node.arg_names@),
        return_type: self::type_ref(node.return_type),
        effects: self::effect_row(node.effects),
        body: self::function_body(node.body),
    }
}

pub open spec fn function_entry(node: FunctionEntry) -> FunctionEntryView
    decreases node,
{
    FunctionEntryView {
        key: node.key@,
        signature: self::function_sig(node.signature),
    }
}

pub open spec fn impl_key(node: ImplKey) -> ImplKeyView
    decreases node,
{
    ImplKeyView {
        implementing_type: node.implementing_type@,
        interface: node.interface@,
    }
}

pub open spec fn host_import(node: HostImport) -> HostImportView
    decreases node,
{
    HostImportView {
        module: node.module@,
        name: node.name@,
        params: node.params@,
        effects: self::effect_labels(node.effects@),
    }
}

pub open spec fn lowered_program(node: LoweredProgram) -> LoweredProgramView
    decreases node,
{
    LoweredProgramView {
        statements: self::statements(node.statements@),
        functions: self::function_entries(node.functions@),
        main_arg_bindings: self::typed_names(node.main_arg_bindings@),
        impls: self::impl_keys(node.impls@),
        imports: self::host_imports(node.imports@),
    }
}

pub open spec fn policy_scope(node: PolicyScope) -> PolicyScopeView
    decreases node,
{
    match node {
        PolicyScope::Any => PolicyScopeView::Any,
        PolicyScope::Dir(value) => PolicyScopeView::Dir(value@),
        PolicyScope::File(value) => PolicyScopeView::File(value@),
        PolicyScope::Exact(value) => PolicyScopeView::Exact(value@),
        PolicyScope::Prefix(value) => PolicyScopeView::Prefix(value@),
    }
}

pub open spec fn type_ref(node: TypeRef) -> TypeView
    decreases node,
{
    match node {
        TypeRef::Void => TypeView::Void,
        TypeRef::Bool => TypeView::Bool,
        TypeRef::Str => TypeView::Str,
        TypeRef::Int8 => TypeView::Int8,
        TypeRef::Int16 => TypeView::Int16,
        TypeRef::Int32 => TypeView::Int32,
        TypeRef::Int64 => TypeView::Int64,
        TypeRef::UInt8 => TypeView::UInt8,
        TypeRef::UInt16 => TypeView::UInt16,
        TypeRef::UInt32 => TypeView::UInt32,
        TypeRef::UInt64 => TypeView::UInt64,
        TypeRef::Float32 => TypeView::Float32,
        TypeRef::Float64 => TypeView::Float64,
        TypeRef::Range => TypeView::Range,
        TypeRef::Named(value) => TypeView::Named(value@),
        TypeRef::Instantiated { base, type_args } => TypeView::Instantiated {
            base: base@,
            type_args: self::type_refs(type_args@),
        },
        TypeRef::Mutable(value) => TypeView::Mutable(Box::new(self::type_ref(*value))),
        TypeRef::Reference { inner, mutable } => TypeView::Reference {
            inner: Box::new(self::type_ref(*inner)),
            mutable: mutable,
        },
        TypeRef::Enum(values) => TypeView::Enum(self::enum_tags(values@)),
        TypeRef::Policy(value) => TypeView::Policy(self::policy_type(value)),
        TypeRef::Capability(value) => TypeView::Capability(self::capability_type(value)),
    }
}

pub open spec fn value(node: RuntimeValue) -> ValueView
    decreases node,
{
    match node {
        RuntimeValue::Void => ValueView::Void,
        RuntimeValue::Bool(value) => ValueView::Bool(value),
        RuntimeValue::Int(value) => ValueView::Int(value),
        RuntimeValue::Float(value) => ValueView::Float(value),
        RuntimeValue::Str(value) => ValueView::Str(value@),
        RuntimeValue::Typed { type_ref, value } => ValueView::Typed {
            type_ref: self::type_ref(type_ref),
            value: Box::new(self::value(*value)),
        },
        RuntimeValue::Enum { enum_key, tag, payload } => ValueView::Enum {
            enum_key: enum_key@,
            tag: tag@,
            payload: match payload {
                Some(inner) => Some(Box::new(self::value(*inner))),
                None => None,
            },
        },
        RuntimeValue::Record(values) => ValueView::Record(self::field_values(values@)),
        RuntimeValue::Tuple(values) => ValueView::Tuple(self::values(values@)),
        RuntimeValue::Array(values) => ValueView::Array(self::values(values@)),
        RuntimeValue::Mapping(values) => ValueView::Mapping(self::value_pairs(values@)),
        RuntimeValue::Range { start, end, step } => ValueView::Range {
            start: start,
            end: end,
            step: step,
        },
        RuntimeValue::Mutable(value) => ValueView::Mutable(value),
        RuntimeValue::Reference { cell, mutable } => ValueView::Reference {
            cell: cell,
            mutable: mutable,
        },
        RuntimeValue::Policy(value) => ValueView::Policy(self::policy_value(value)),
        RuntimeValue::Capability(value) => ValueView::Capability(self::capability_value(value)),
        RuntimeValue::HostHandle(value) => ValueView::HostHandle(value),
        RuntimeValue::JoinHandle(value) => ValueView::JoinHandle(value),
    }
}

pub open spec fn expr(node: Expr) -> ExprView
    decreases node,
{
    match node {
        Expr::Value(value) => ExprView::Value(self::value(value)),
        Expr::VarRef(value) => ExprView::VarRef(value@),
        Expr::Mutable(value) => ExprView::Mutable(Box::new(self::expr(*value))),
        Expr::Reference { target, mutable } => ExprView::Reference {
            target: Box::new(self::expr(*target)),
            mutable: mutable,
        },
        Expr::Call { call, return_type } => ExprView::Call {
            call: self::call(call),
            return_type: self::type_ref(return_type),
        },
        Expr::HostCall { import, args, intrinsic, return_type } => ExprView::HostCall {
            import: self::host_import_name(import),
            args: self::exprs(args@),
            intrinsic: intrinsic,
            return_type: self::type_ref(return_type),
        },
        Expr::Primitive { op, args, operand_type, return_type } => ExprView::Primitive {
            op: op,
            args: self::exprs(args@),
            operand_type: self::type_ref(operand_type),
            return_type: self::type_ref(return_type),
        },
        Expr::Cast { from, target } => ExprView::Cast {
            from: Box::new(self::expr(*from)),
            target: self::type_ref(target),
        },
        Expr::PolicyNarrow { from, target } => ExprView::PolicyNarrow {
            from: Box::new(self::expr(*from)),
            target: self::type_ref(target),
        },
        Expr::EnumConstructor { enum_key, tag, payload } => ExprView::EnumConstructor {
            enum_key: enum_key@,
            tag: tag@,
            payload: match payload {
                Some(inner) => Some(Box::new(self::expr(*inner))),
                None => None,
            },
        },
        Expr::Record(values) => ExprView::Record(self::field_exprs(values@)),
        Expr::Tuple(values) => ExprView::Tuple(self::exprs(values@)),
        Expr::Array(values) => ExprView::Array(self::exprs(values@)),
        Expr::Mapping(values) => ExprView::Mapping(self::expr_pairs(values@)),
        Expr::Range { start, end, step } => ExprView::Range {
            start: Box::new(self::expr(*start)),
            end: Box::new(self::expr(*end)),
            step: Box::new(self::expr(*step)),
        },
        Expr::If { cond, then_e, else_e } => ExprView::If {
            cond: Box::new(self::expr(*cond)),
            then_e: Box::new(self::expr(*then_e)),
            else_e: Box::new(self::expr(*else_e)),
        },
    }
}

pub open spec fn pattern(node: Pattern) -> PatternView
    decreases node,
{
    match node {
        Pattern::Wildcard => PatternView::Wildcard,
        Pattern::Bind(value) => PatternView::Bind(value@),
        Pattern::Literal(value) => PatternView::Literal(self::value(value)),
        Pattern::Enum { enum_key, tag, payload } => PatternView::Enum {
            enum_key: enum_key@,
            tag: tag@,
            payload: match payload {
                Some(inner) => Some(Box::new(self::pattern(*inner))),
                None => None,
            },
        },
        Pattern::Record(values) => PatternView::Record(self::field_patterns(values@)),
        Pattern::Tuple(values) => PatternView::Tuple(self::patterns(values@)),
        Pattern::Array(values) => PatternView::Array(self::patterns(values@)),
        Pattern::Mapping(values) => PatternView::Mapping(self::pattern_pairs(values@)),
        Pattern::Newtype { type_ref, inner } => PatternView::Newtype {
            type_ref: self::type_ref(type_ref),
            inner: Box::new(self::pattern(*inner)),
        },
        Pattern::Interface(value) => PatternView::Interface(self::type_ref(value)),
    }
}

pub open spec fn let_value(node: LetValue) -> LetValueView
    decreases node,
{
    match node {
        LetValue::Call(value) => LetValueView::Call(self::call(value)),
        LetValue::Expr(value) => LetValueView::Expr(self::expr(value)),
    }
}

pub open spec fn statement(node: Statement) -> StatementView
    decreases node,
{
    match node {
        Statement::Return(value) => StatementView::Return(self::expr(value)),
        Statement::Call(value) => StatementView::Call(self::call(value)),
        Statement::Let { var, value } => StatementView::Let {
            var: var@,
            value: self::let_value(value),
        },
        Statement::Assign { var, value } => StatementView::Assign {
            var: var@,
            value: self::expr(value),
        },
        Statement::Match { target, arms } => StatementView::Match {
            target: self::expr(target),
            arms: self::match_arms(arms@),
        },
        Statement::Eval(value) => StatementView::Eval(self::expr(value)),
        Statement::If { cond, then_body, else_body } => StatementView::If {
            cond: self::expr(cond),
            then_body: self::statements(then_body@),
            else_body: self::statements(else_body@),
        },
        Statement::While { cond, body } => StatementView::While {
            cond: self::expr(cond),
            body: self::statements(body@),
        },
        Statement::For { var, source, body } => StatementView::For {
            var: var@,
            source: self::expr(source),
            body: self::statements(body@),
        },
        Statement::Task { captures, body } => StatementView::Task {
            captures: self::texts(captures@),
            body: self::statements(body@),
        },
        Statement::Spawn { handle, captures, value } => StatementView::Spawn {
            handle: handle@,
            captures: self::texts(captures@),
            value: self::expr(value),
        },
        Statement::Join { handle, var } => StatementView::Join {
            handle: handle@,
            var: var@,
        },
        Statement::Break => StatementView::Break,
        Statement::Continue => StatementView::Continue,
    }
}

pub open spec fn wasm_arg_spec(node: WasmArgSpec) -> WasmArgSpecView
    decreases node,
{
    match node {
        WasmArgSpec::Arg(value) => WasmArgSpecView::Arg(value@),
        WasmArgSpec::ConstInt(value) => WasmArgSpecView::ConstInt(value),
        WasmArgSpec::ConstStr(value) => WasmArgSpecView::ConstStr(value@),
    }
}

pub open spec fn function_body(node: FunctionBody) -> FunctionBodyView
    decreases node,
{
    match node {
        FunctionBody::User { statements } => FunctionBodyView::User {
            statements: self::statements(statements@),
        },
        FunctionBody::Wasm { import, wasm_args } => FunctionBodyView::Wasm {
            import: self::host_import_name(import),
            wasm_args: self::wasm_arg_specs(wasm_args@),
        },
    }
}

pub open spec fn alias_entries(nodes: Seq<AliasEntry>) -> Seq<AliasEntryView>
    decreases nodes,
{
    Seq::new(nodes.len(), |i: int| if 0 <= i < nodes.len() { self::alias_entry(nodes[i]) } else { arbitrary() })
}

pub open spec fn effect_labels(nodes: Seq<EffectLabel>) -> Seq<EffectLabelView>
    decreases nodes,
{
    Seq::new(nodes.len(), |i: int| if 0 <= i < nodes.len() { self::effect_label(nodes[i]) } else { arbitrary() })
}

pub open spec fn enum_tags(nodes: Seq<EnumTag>) -> Seq<EnumTagView>
    decreases nodes,
{
    Seq::new(nodes.len(), |i: int| if 0 <= i < nodes.len() { self::enum_tag(nodes[i]) } else { arbitrary() })
}

pub open spec fn expr_pairs(nodes: Seq<(Expr, Expr)>) -> Seq<(ExprView, ExprView)>
    decreases nodes,
{
    Seq::new(nodes.len(), |i: int| if 0 <= i < nodes.len() { (self::expr(nodes[i].0), self::expr(nodes[i].1)) } else { arbitrary() })
}

pub open spec fn exprs(nodes: Seq<Expr>) -> Seq<ExprView>
    decreases nodes,
{
    Seq::new(nodes.len(), |i: int| if 0 <= i < nodes.len() { self::expr(nodes[i]) } else { arbitrary() })
}

pub open spec fn field_exprs(nodes: Seq<FieldExpr>) -> Seq<FieldExprView>
    decreases nodes,
{
    Seq::new(nodes.len(), |i: int| if 0 <= i < nodes.len() { self::field_expr(nodes[i]) } else { arbitrary() })
}

pub open spec fn field_patterns(nodes: Seq<FieldPattern>) -> Seq<FieldPatternView>
    decreases nodes,
{
    Seq::new(nodes.len(), |i: int| if 0 <= i < nodes.len() { self::field_pattern(nodes[i]) } else { arbitrary() })
}

pub open spec fn field_values(nodes: Seq<FieldValue>) -> Seq<FieldValueView>
    decreases nodes,
{
    Seq::new(nodes.len(), |i: int| if 0 <= i < nodes.len() { self::field_value(nodes[i]) } else { arbitrary() })
}

pub open spec fn function_entries(nodes: Seq<FunctionEntry>) -> Seq<FunctionEntryView>
    decreases nodes,
{
    Seq::new(nodes.len(), |i: int| if 0 <= i < nodes.len() { self::function_entry(nodes[i]) } else { arbitrary() })
}

pub open spec fn host_imports(nodes: Seq<HostImport>) -> Seq<HostImportView>
    decreases nodes,
{
    Seq::new(nodes.len(), |i: int| if 0 <= i < nodes.len() { self::host_import(nodes[i]) } else { arbitrary() })
}

pub open spec fn impl_keys(nodes: Seq<ImplKey>) -> Seq<ImplKeyView>
    decreases nodes,
{
    Seq::new(nodes.len(), |i: int| if 0 <= i < nodes.len() { self::impl_key(nodes[i]) } else { arbitrary() })
}

pub open spec fn match_arms(nodes: Seq<MatchArm>) -> Seq<MatchArmView>
    decreases nodes,
{
    Seq::new(nodes.len(), |i: int| if 0 <= i < nodes.len() { self::match_arm(nodes[i]) } else { arbitrary() })
}

pub open spec fn pattern_pairs(nodes: Seq<(Pattern, Pattern)>) -> Seq<(PatternView, PatternView)>
    decreases nodes,
{
    Seq::new(nodes.len(), |i: int| if 0 <= i < nodes.len() { (self::pattern(nodes[i].0), self::pattern(nodes[i].1)) } else { arbitrary() })
}

pub open spec fn patterns(nodes: Seq<Pattern>) -> Seq<PatternView>
    decreases nodes,
{
    Seq::new(nodes.len(), |i: int| if 0 <= i < nodes.len() { self::pattern(nodes[i]) } else { arbitrary() })
}

pub open spec fn policy_domains(nodes: Seq<PolicyDomain>) -> Seq<PolicyDomainView>
    decreases nodes,
{
    Seq::new(nodes.len(), |i: int| if 0 <= i < nodes.len() { self::policy_domain(nodes[i]) } else { arbitrary() })
}

pub open spec fn policy_groups(nodes: Seq<PolicyGroup>) -> Seq<PolicyGroupView>
    decreases nodes,
{
    Seq::new(nodes.len(), |i: int| if 0 <= i < nodes.len() { self::policy_group(nodes[i]) } else { arbitrary() })
}

pub open spec fn policy_scopes(nodes: Seq<PolicyScope>) -> Seq<PolicyScopeView>
    decreases nodes,
{
    Seq::new(nodes.len(), |i: int| if 0 <= i < nodes.len() { self::policy_scope(nodes[i]) } else { arbitrary() })
}

pub open spec fn statements(nodes: Seq<Statement>) -> Seq<StatementView>
    decreases nodes,
{
    Seq::new(nodes.len(), |i: int| if 0 <= i < nodes.len() { self::statement(nodes[i]) } else { arbitrary() })
}

pub open spec fn texts(nodes: Seq<String>) -> Seq<Seq<char>>
{
    Seq::new(nodes.len(), |i: int| if 0 <= i < nodes.len() { nodes[i]@ } else { arbitrary() })
}

pub open spec fn type_refs(nodes: Seq<TypeRef>) -> Seq<TypeView>
    decreases nodes,
{
    Seq::new(nodes.len(), |i: int| if 0 <= i < nodes.len() { self::type_ref(nodes[i]) } else { arbitrary() })
}

pub open spec fn typed_names(nodes: Seq<TypedName>) -> Seq<TypedNameView>
    decreases nodes,
{
    Seq::new(nodes.len(), |i: int| if 0 <= i < nodes.len() { self::typed_name(nodes[i]) } else { arbitrary() })
}

pub open spec fn value_pairs(nodes: Seq<(RuntimeValue, RuntimeValue)>) -> Seq<(ValueView, ValueView)>
    decreases nodes,
{
    Seq::new(nodes.len(), |i: int| if 0 <= i < nodes.len() { (self::value(nodes[i].0), self::value(nodes[i].1)) } else { arbitrary() })
}

pub open spec fn values(nodes: Seq<RuntimeValue>) -> Seq<ValueView>
    decreases nodes,
{
    Seq::new(nodes.len(), |i: int| if 0 <= i < nodes.len() { self::value(nodes[i]) } else { arbitrary() })
}

pub open spec fn wasm_arg_specs(nodes: Seq<WasmArgSpec>) -> Seq<WasmArgSpecView>
    decreases nodes,
{
    Seq::new(nodes.len(), |i: int| if 0 <= i < nodes.len() { self::wasm_arg_spec(nodes[i]) } else { arbitrary() })
}

pub proof fn lemma_effect_labels_push(nodes: Seq<EffectLabel>, node: EffectLabel)
    ensures
        self::effect_labels(nodes.push(node)) == self::effect_labels(nodes).push(self::effect_label(node)),
{
    let left = self::effect_labels(nodes.push(node));
    let right = self::effect_labels(nodes).push(self::effect_label(node));
    assert forall|i: int| 0 <= i < left.len() implies left[i] == right[i] by {
        if i < nodes.len() {
            assert(nodes.push(node)[i] == nodes[i]);
        } else {
            assert(nodes.push(node)[i] == node);
        }
    }
    assert(left =~= right);
}

pub proof fn lemma_enum_tags_push(nodes: Seq<EnumTag>, node: EnumTag)
    ensures
        self::enum_tags(nodes.push(node)) == self::enum_tags(nodes).push(self::enum_tag(node)),
{
    let left = self::enum_tags(nodes.push(node));
    let right = self::enum_tags(nodes).push(self::enum_tag(node));
    assert forall|i: int| 0 <= i < left.len() implies left[i] == right[i] by {
        if i < nodes.len() {
            assert(nodes.push(node)[i] == nodes[i]);
        } else {
            assert(nodes.push(node)[i] == node);
        }
    }
    assert(left =~= right);
}

pub proof fn lemma_expr_pairs_push(nodes: Seq<(Expr, Expr)>, node: (Expr, Expr))
    ensures
        self::expr_pairs(nodes.push(node)) == self::expr_pairs(nodes).push((self::expr(node.0), self::expr(node.1))),
{
    let left = self::expr_pairs(nodes.push(node));
    let right = self::expr_pairs(nodes).push((self::expr(node.0), self::expr(node.1)));
    assert forall|i: int| 0 <= i < left.len() implies left[i] == right[i] by {
        if i < nodes.len() {
            assert(nodes.push(node)[i] == nodes[i]);
        } else {
            assert(nodes.push(node)[i] == node);
        }
    }
    assert(left =~= right);
}

pub proof fn lemma_exprs_push(nodes: Seq<Expr>, node: Expr)
    ensures
        self::exprs(nodes.push(node)) == self::exprs(nodes).push(self::expr(node)),
{
    let left = self::exprs(nodes.push(node));
    let right = self::exprs(nodes).push(self::expr(node));
    assert forall|i: int| 0 <= i < left.len() implies left[i] == right[i] by {
        if i < nodes.len() {
            assert(nodes.push(node)[i] == nodes[i]);
        } else {
            assert(nodes.push(node)[i] == node);
        }
    }
    assert(left =~= right);
}

pub proof fn lemma_field_values_push(nodes: Seq<FieldValue>, node: FieldValue)
    ensures
        self::field_values(nodes.push(node)) == self::field_values(nodes).push(self::field_value(node)),
{
    let left = self::field_values(nodes.push(node));
    let right = self::field_values(nodes).push(self::field_value(node));
    assert forall|i: int| 0 <= i < left.len() implies left[i] == right[i] by {
        if i < nodes.len() {
            assert(nodes.push(node)[i] == nodes[i]);
        } else {
            assert(nodes.push(node)[i] == node);
        }
    }
    assert(left =~= right);
}

pub proof fn lemma_pattern_pairs_push(nodes: Seq<(Pattern, Pattern)>, node: (Pattern, Pattern))
    ensures
        self::pattern_pairs(nodes.push(node)) == self::pattern_pairs(nodes).push(
            (self::pattern(node.0), self::pattern(node.1)),
        ),
{
    let left = self::pattern_pairs(nodes.push(node));
    let right = self::pattern_pairs(nodes).push((self::pattern(node.0), self::pattern(node.1)));
    assert forall|i: int| 0 <= i < left.len() implies left[i] == right[i] by {
        if i < nodes.len() {
            assert(nodes.push(node)[i] == nodes[i]);
        } else {
            assert(nodes.push(node)[i] == node);
        }
    }
    assert(left =~= right);
}

pub proof fn lemma_patterns_push(nodes: Seq<Pattern>, node: Pattern)
    ensures
        self::patterns(nodes.push(node)) == self::patterns(nodes).push(self::pattern(node)),
{
    let left = self::patterns(nodes.push(node));
    let right = self::patterns(nodes).push(self::pattern(node));
    assert forall|i: int| 0 <= i < left.len() implies left[i] == right[i] by {
        if i < nodes.len() {
            assert(nodes.push(node)[i] == nodes[i]);
        } else {
            assert(nodes.push(node)[i] == node);
        }
    }
    assert(left =~= right);
}

pub proof fn lemma_policy_domains_push(nodes: Seq<PolicyDomain>, node: PolicyDomain)
    ensures
        self::policy_domains(nodes.push(node)) == self::policy_domains(nodes).push(self::policy_domain(node)),
{
    let left = self::policy_domains(nodes.push(node));
    let right = self::policy_domains(nodes).push(self::policy_domain(node));
    assert forall|i: int| 0 <= i < left.len() implies left[i] == right[i] by {
        if i < nodes.len() {
            assert(nodes.push(node)[i] == nodes[i]);
        } else {
            assert(nodes.push(node)[i] == node);
        }
    }
    assert(left =~= right);
}

pub proof fn lemma_policy_groups_push(nodes: Seq<PolicyGroup>, node: PolicyGroup)
    ensures
        self::policy_groups(nodes.push(node)) == self::policy_groups(nodes).push(self::policy_group(node)),
{
    let left = self::policy_groups(nodes.push(node));
    let right = self::policy_groups(nodes).push(self::policy_group(node));
    assert forall|i: int| 0 <= i < left.len() implies left[i] == right[i] by {
        if i < nodes.len() {
            assert(nodes.push(node)[i] == nodes[i]);
        } else {
            assert(nodes.push(node)[i] == node);
        }
    }
    assert(left =~= right);
}

pub proof fn lemma_policy_scopes_push(nodes: Seq<PolicyScope>, node: PolicyScope)
    ensures
        self::policy_scopes(nodes.push(node)) == self::policy_scopes(nodes).push(self::policy_scope(node)),
{
    let left = self::policy_scopes(nodes.push(node));
    let right = self::policy_scopes(nodes).push(self::policy_scope(node));
    assert forall|i: int| 0 <= i < left.len() implies left[i] == right[i] by {
        if i < nodes.len() {
            assert(nodes.push(node)[i] == nodes[i]);
        } else {
            assert(nodes.push(node)[i] == node);
        }
    }
    assert(left =~= right);
}

pub proof fn lemma_texts_push(nodes: Seq<String>, node: String)
    ensures
        self::texts(nodes.push(node)) == self::texts(nodes).push(node@),
{
    let left = self::texts(nodes.push(node));
    let right = self::texts(nodes).push(node@);
    assert forall|i: int| 0 <= i < left.len() implies left[i] == right[i] by {
        if i < nodes.len() {
            assert(nodes.push(node)[i] == nodes[i]);
        } else {
            assert(nodes.push(node)[i] == node);
        }
    }
    assert(left =~= right);
}

pub proof fn lemma_type_refs_push(nodes: Seq<TypeRef>, node: TypeRef)
    ensures
        self::type_refs(nodes.push(node)) == self::type_refs(nodes).push(self::type_ref(node)),
{
    let left = self::type_refs(nodes.push(node));
    let right = self::type_refs(nodes).push(self::type_ref(node));
    assert forall|i: int| 0 <= i < left.len() implies left[i] == right[i] by {
        if i < nodes.len() {
            assert(nodes.push(node)[i] == nodes[i]);
        } else {
            assert(nodes.push(node)[i] == node);
        }
    }
    assert(left =~= right);
}

pub proof fn lemma_value_pairs_push(nodes: Seq<(RuntimeValue, RuntimeValue)>, node: (RuntimeValue, RuntimeValue))
    ensures
        self::value_pairs(nodes.push(node)) == self::value_pairs(nodes).push(
            (self::value(node.0), self::value(node.1)),
        ),
{
    let left = self::value_pairs(nodes.push(node));
    let right = self::value_pairs(nodes).push((self::value(node.0), self::value(node.1)));
    assert forall|i: int| 0 <= i < left.len() implies left[i] == right[i] by {
        if i < nodes.len() {
            assert(nodes.push(node)[i] == nodes[i]);
        } else {
            assert(nodes.push(node)[i] == node);
        }
    }
    assert(left =~= right);
}

pub proof fn lemma_values_push(nodes: Seq<RuntimeValue>, node: RuntimeValue)
    ensures
        self::values(nodes.push(node)) == self::values(nodes).push(self::value(node)),
{
    let left = self::values(nodes.push(node));
    let right = self::values(nodes).push(self::value(node));
    assert forall|i: int| 0 <= i < left.len() implies left[i] == right[i] by {
        if i < nodes.len() {
            assert(nodes.push(node)[i] == nodes[i]);
        } else {
            assert(nodes.push(node)[i] == node);
        }
    }
    assert(left =~= right);
}

} // verus!
