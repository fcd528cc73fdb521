//! References through import aliases: a module may use only those that it
//! declares itself.
use vstd::prelude::*;
use crate::ast::surface::{
    Expr, ExprField, ExprKind, MatchCase, Parameter, Pattern, PatternField, PatternKind, TopLevel, TypeExpr,
    TypeExprKind,
    TypeMember,
};
use crate::ast::view::{
    self, ExprFieldView, ExprKindView, ExprView, MatchCaseView, ParameterView, PatternFieldView, PatternKindView,
    PatternView, TopLevelView, TypeExprKindView, TypeExprView, TypeMemberView,
};
use crate::names::has_name;
use crate::text::{concat_five, same_text, split_at_char};

verus! {

/// What a module's references are held against: the aliases that any module
/// imports, those that this one imports, its other names and its own alias.
#[derive(Debug)]
pub struct AliasScope {
    pub path: String,
    pub known: Vec<String>,
    pub direct: Vec<String>,
    pub local: Vec<String>,
    pub self_alias: Option<String>,
}

pub struct AliasScopeView {
    pub path: Seq<char>,
    pub known: Set<Seq<char>>,
    pub direct: Set<Seq<char>>,
    pub local: Set<Seq<char>>,
    pub self_alias: Option<Seq<char>>,
}

impl AliasScope {
    pub open spec fn view(&self) -> AliasScopeView {
        AliasScopeView {
            path: self.path@,
            known: crate::names::name_set(self.known@),
            direct: crate::names::name_set(self.direct@),
            local: crate::names::name_set(self.local@),
            self_alias: match self.self_alias {
                Some(alias) => Some(alias@),
                None => None,
            },
        }
    }
}

/// Whether a module may refer through an alias.
pub open spec fn is_allowed(scope: AliasScopeView, alias: Seq<char>) -> bool {
    scope.direct.contains(alias) || scope.local.contains(alias) || scope.self_alias == Some(alias) || alias == "args"@
    || alias == "const"@ || alias == "self"@ || !scope.known.contains(alias)
}

/// The complaint about a reference.
pub open spec fn reference_error(scope: AliasScopeView, reference: Seq<char>) -> Option<Seq<char>> {
    let parts = crate::text::split(reference, '.');
    if parts.len() < 2 || is_allowed(scope, parts[0]) {
        None
    } else {
        Some(
            "E-MOD-004: module "@ + scope.path + " uses import alias `"@ + parts[0]
            + "` without declaring it directly"@,
        )
    }
}

pub open spec fn complaint(result: Result<(), String>) -> Option<Seq<char>> {
    match result {
        Ok(_) => None,
        Err(message) => Some(message@),
    }
}

pub open spec fn first_of(first: Option<Seq<char>>, second: Option<Seq<char>>) -> Option<Seq<char>> {
    match first {
        Some(message) => Some(message),
        None => second,
    }
}

pub open spec fn types_error(types: Seq<TypeExprView>, from: int, scope: AliasScopeView) -> Option<Seq<char>>
    decreases types, 1int, types.len() - from,
{
    if from < 0 || from >= types.len() {
        None
    } else {
        first_of(type_error(types[from], scope), types_error(types, from + 1, scope))
    }
}

pub open spec fn members_error(members: Seq<TypeMemberView>, from: int, scope: AliasScopeView) -> Option<Seq<char>>
    decreases members, 1int, members.len() - from,
{
    if from < 0 || from >= members.len() {
        None
    } else {
        first_of(type_error(members[from].ty, scope), members_error(members, from + 1, scope))
    }
}

/// The first complaint about the names in a type.
pub open spec fn type_error(ty: TypeExprView, scope: AliasScopeView) -> Option<Seq<char>>
    decreases ty, 0int, 0int,
{
    match ty.value {
        TypeExprKindView::Named(name) => reference_error(scope, name),
        TypeExprKindView::Application { constructor, arguments } => first_of(
            reference_error(scope, constructor.value),
            types_error(arguments, 0, scope),
        ),
        TypeExprKindView::Record(members) => members_error(members, 0, scope),
        TypeExprKindView::Enum(members) => members_error(members, 0, scope),
        TypeExprKindView::Interface(members) => members_error(members, 0, scope),
        TypeExprKindView::Tuple(types) => types_error(types, 0, scope),
        TypeExprKindView::Union(types) => types_error(types, 0, scope),
        TypeExprKindView::Intersect(types) => types_error(types, 0, scope),
        TypeExprKindView::Function { parameters, result } => first_of(
            types_error(parameters, 0, scope),
            type_error(*result, scope),
        ),
        TypeExprKindView::Array(inner) => type_error(*inner, scope),
        TypeExprKindView::Newtype(inner) => type_error(*inner, scope),
        TypeExprKindView::Mutable(inner) => type_error(*inner, scope),
        TypeExprKindView::Reference(inner) => type_error(*inner, scope),
        TypeExprKindView::MutableReference(inner) => type_error(*inner, scope),
        TypeExprKindView::Mapping(key, value) => first_of(type_error(*key, scope), type_error(*value, scope)),
        TypeExprKindView::Domain { arguments, .. } => types_error(arguments, 0, scope),
    }
}

pub open spec fn patterns_error(patterns: Seq<PatternView>, from: int, scope: AliasScopeView) -> Option<Seq<char>>
    decreases patterns, 1int, patterns.len() - from,
{
    if from < 0 || from >= patterns.len() {
        None
    } else {
        first_of(pattern_error(patterns[from], scope), patterns_error(patterns, from + 1, scope))
    }
}

pub open spec fn pattern_fields_error(
    pattern_fields: Seq<PatternFieldView>,
    from: int,
    scope: AliasScopeView,
) -> Option<Seq<char>>
    decreases pattern_fields, 1int, pattern_fields.len() - from,
{
    if from < 0 || from >= pattern_fields.len() {
        None
    } else {
        first_of(
            pattern_error(pattern_fields[from].pattern, scope),
            pattern_fields_error(pattern_fields, from + 1, scope),
        )
    }
}

pub open spec fn pattern_pairs_error(
    pattern_pairs: Seq<(PatternView, PatternView)>,
    from: int,
    scope: AliasScopeView,
) -> Option<Seq<char>>
    decreases pattern_pairs, 1int, pattern_pairs.len() - from,
{
    if from < 0 || from >= pattern_pairs.len() {
        None
    } else {
        first_of(
            first_of(pattern_error(pattern_pairs[from].0, scope), pattern_error(pattern_pairs[from].1, scope)),
            pattern_pairs_error(pattern_pairs, from + 1, scope),
        )
    }
}

/// The first complaint about the names in a pattern.
pub open spec fn pattern_error(pattern: PatternView, scope: AliasScopeView) -> Option<Seq<char>>
    decreases pattern, 0int, 0int,
{
    match pattern.value {
        PatternKindView::Constructor { constructor, arguments } => first_of(
            reference_error(scope, constructor.value),
            patterns_error(arguments, 0, scope),
        ),
        PatternKindView::Record(fields) => pattern_fields_error(fields, 0, scope),
        PatternKindView::Tuple(items) => patterns_error(items, 0, scope),
        PatternKindView::Array(items) => patterns_error(items, 0, scope),
        PatternKindView::Mapping(pairs) => pattern_pairs_error(pairs, 0, scope),
        PatternKindView::Newtype { ty, pattern } => first_of(type_error(ty, scope), pattern_error(*pattern, scope)),
        PatternKindView::Interface { ty, pattern } => first_of(type_error(ty, scope), pattern_error(*pattern, scope)),
        PatternKindView::Literal(_) | PatternKindView::Wildcard | PatternKindView::Bind(_) => None,
    }
}

pub open spec fn cases_pattern_error(cases: Seq<MatchCaseView>, from: int, scope: AliasScopeView) -> Option<Seq<char>>
    decreases cases, 1int, cases.len() - from,
{
    if from < 0 || from >= cases.len() {
        None
    } else {
        first_of(pattern_error(cases[from].pattern, scope), cases_pattern_error(cases, from + 1, scope))
    }
}

pub open spec fn cases_body_error(cases: Seq<MatchCaseView>, from: int, scope: AliasScopeView) -> Option<Seq<char>>
    decreases cases, 1int, cases.len() - from,
{
    if from < 0 || from >= cases.len() {
        None
    } else {
        first_of(exprs_error(cases[from].body, 0, scope), cases_body_error(cases, from + 1, scope))
    }
}

pub open spec fn exprs_error(exprs: Seq<ExprView>, from: int, scope: AliasScopeView) -> Option<Seq<char>>
    decreases exprs, 1int, exprs.len() - from,
{
    if from < 0 || from >= exprs.len() {
        None
    } else {
        first_of(expr_error(exprs[from], scope), exprs_error(exprs, from + 1, scope))
    }
}

pub open spec fn fields_error(fields: Seq<ExprFieldView>, from: int, scope: AliasScopeView) -> Option<Seq<char>>
    decreases fields, 1int, fields.len() - from,
{
    if from < 0 || from >= fields.len() {
        None
    } else {
        first_of(expr_error(fields[from].value, scope), fields_error(fields, from + 1, scope))
    }
}

pub open spec fn pairs_error(pairs: Seq<(ExprView, ExprView)>, from: int, scope: AliasScopeView) -> Option<Seq<char>>
    decreases pairs, 1int, pairs.len() - from,
{
    if from < 0 || from >= pairs.len() {
        None
    } else {
        first_of(
            first_of(expr_error(pairs[from].0, scope), expr_error(pairs[from].1, scope)),
            pairs_error(pairs, from + 1, scope),
        )
    }
}

/// The first complaint about the names in an expression: those that it writes
/// itself, then those below it.
pub open spec fn expr_error(expr: ExprView, scope: AliasScopeView) -> Option<Seq<char>>
    decreases expr, 0int, 0int,
{
    match expr.value {
        ExprKindView::Reference(name) => reference_error(scope, name),
        ExprKindView::Call { callee, arguments } => first_of(
            reference_error(scope, callee.value),
            exprs_error(arguments, 0, scope),
        ),
        ExprKindView::Do(values) => exprs_error(values, 0, scope),
        ExprKindView::Tuple(values) => exprs_error(values, 0, scope),
        ExprKindView::Array(values) => exprs_error(values, 0, scope),
        ExprKindView::Let { ty, value, .. } => first_of(
            match ty {
                Some(ty) => type_error(ty, scope),
                None => None,
            },
            expr_error(*value, scope),
        ),
        ExprKindView::Assign { value, .. } => expr_error(*value, scope),
        ExprKindView::Mutable(value) => expr_error(*value, scope),
        ExprKindView::ReferenceOf(value) => expr_error(*value, scope),
        ExprKindView::Return(value) => match value {
            Some(value) => expr_error(*value, scope),
            None => None,
        },
        ExprKindView::If { condition, then_body, else_body } => first_of(
            expr_error(*condition, scope),
            first_of(exprs_error(then_body, 0, scope), exprs_error(else_body, 0, scope)),
        ),
        ExprKindView::While { condition, body } => first_of(
            expr_error(*condition, scope),
            exprs_error(body, 0, scope),
        ),
        ExprKindView::For { source, body, .. } => first_of(expr_error(*source, scope), exprs_error(body, 0, scope)),
        ExprKindView::Match { target, cases } => first_of(
            cases_pattern_error(cases, 0, scope),
            first_of(expr_error(*target, scope), cases_body_error(cases, 0, scope)),
        ),
        ExprKindView::Record(fields) => fields_error(fields, 0, scope),
        ExprKindView::Mapping(pairs) => pairs_error(pairs, 0, scope),
        ExprKindView::Range(start, end, step) => first_of(
            expr_error(*start, scope),
            first_of(expr_error(*end, scope), expr_error(*step, scope)),
        ),
        ExprKindView::Convert { value, into, .. } => first_of(type_error(into, scope), expr_error(*value, scope)),
        ExprKindView::Cast { value, into } => first_of(type_error(into, scope), expr_error(*value, scope)),
        ExprKindView::Task { body, .. } => exprs_error(body, 0, scope),
        ExprKindView::Spawn { value, .. } => expr_error(*value, scope),
        ExprKindView::Literal(_) | ExprKindView::Break | ExprKindView::Continue => None,
        ExprKindView::Join { .. } => None,
    }
}

pub open spec fn parameters_error(
    parameters: Seq<ParameterView>,
    from: int,
    scope: AliasScopeView,
) -> Option<Seq<char>>
    decreases parameters, 1int, parameters.len() - from,
{
    if from < 0 || from >= parameters.len() {
        None
    } else {
        first_of(type_error(parameters[from].ty, scope), parameters_error(parameters, from + 1, scope))
    }
}

/// The first complaint about the names in a top-level form.
pub open spec fn form_error(form: TopLevelView, scope: AliasScopeView) -> Option<Seq<char>> {
    match form {
        TopLevelView::Definition(definition) => type_error(definition.body, scope),
        TopLevelView::Constant(constant) => first_of(
            type_error(constant.ty, scope),
            expr_error(constant.value, scope),
        ),
        TopLevelView::Function(function) => first_of(
            parameters_error(function.parameters, 0, scope),
            first_of(type_error(function.return_type, scope), exprs_error(function.body, 0, scope)),
        ),
        TopLevelView::Test(test) => exprs_error(test.body, 0, scope),
        TopLevelView::Import(_) | TopLevelView::Macro(_) => None,
    }
}

impl AliasScope {
    fn validate_reference(&self, reference: &str) -> (result: Result<(), String>)
        ensures
            complaint(result) == reference_error(self@, reference@),
    {
        let parts = split_at_char(reference, '.');
        let ghost all = crate::text::split(reference@, '.');
        assert(crate::lowered::view::texts(parts@).len() == parts@.len());
        if parts.len() < 2 {
            return Ok(());
        }
        assert(all[0] == parts@[0]@);
        let alias = parts[0].as_str();
        let own = match &self.self_alias {
            Some(own) => same_text(own.as_str(), alias),
            None => false,
        };
        if has_name(&self.direct, alias) || has_name(&self.local, alias) || own || same_text(alias, "args")
            || same_text(
            alias,
            "const",
        ) || same_text(alias, "self") || !has_name(&self.known, alias) {
            return Ok(());
        }
        Err(
            concat_five(
                "E-MOD-004: module ",
                self.path.as_str(),
                " uses import alias `",
                alias,
                "` without declaring it directly",
            ),
        )
    }

    fn visit_types(&self, types: &Vec<TypeExpr>) -> (result: Result<(), String>)
        ensures
            complaint(result) == types_error(view::type_exprs(types@), 0, self@),
        decreases types,
    {
        let ghost all = view::type_exprs(types@);
        let mut i: usize = 0;
        while i < types.len()
            invariant
                i <= types.len(),
                all == view::type_exprs(types@),
                types_error(all, 0, self@) == types_error(all, i as int, self@),
            decreases types.len() - i,
        {
            assert(all[i as int] == view::type_expr(types@[i as int]));
            match self.visit_type(&types[i]) {
                Ok(_) => {}
                Err(error) => return Err(error),
            }
            i += 1;
        }
        Ok(())
    }

    fn visit_members(&self, members: &Vec<TypeMember>) -> (result: Result<(), String>)
        ensures
            complaint(result) == members_error(view::type_members(members@), 0, self@),
        decreases members,
    {
        let ghost all = view::type_members(members@);
        let mut i: usize = 0;
        while i < members.len()
            invariant
                i <= members.len(),
                all == view::type_members(members@),
                members_error(all, 0, self@) == members_error(all, i as int, self@),
            decreases members.len() - i,
        {
            assert(all[i as int] == view::type_member(members@[i as int]));
            match self.visit_type(&members[i].ty) {
                Ok(_) => {}
                Err(error) => return Err(error),
            }
            i += 1;
        }
        Ok(())
    }

    fn visit_type(&self, ty: &TypeExpr) -> (result: Result<(), String>)
        ensures
            complaint(result) == type_error(view::type_expr(*ty), self@),
        decreases ty,
    {
        reveal(view::type_kind);
        match &ty.value {
            TypeExprKind::Named(name) => self.validate_reference(name.as_str()),
            TypeExprKind::Application { constructor, arguments } => {
                match self.validate_reference(constructor.value.as_str()) {
                    Ok(_) => {}
                    Err(error) => return Err(error),
                }
                self.visit_types(arguments)
            }
            TypeExprKind::Record(members) => self.visit_members(members),
            TypeExprKind::Enum(members) => self.visit_members(members),
            TypeExprKind::Interface(members) => self.visit_members(members),
            TypeExprKind::Tuple(types) => self.visit_types(types),
            TypeExprKind::Union(types) => self.visit_types(types),
            TypeExprKind::Intersect(types) => self.visit_types(types),
            TypeExprKind::Function { parameters, result } => {
                match self.visit_types(parameters) {
                    Ok(_) => {}
                    Err(error) => return Err(error),
                }
                self.visit_type(result)
            }
            TypeExprKind::Array(inner) => self.visit_type(inner),
            TypeExprKind::Newtype(inner) => self.visit_type(inner),
            TypeExprKind::Mutable(inner) => self.visit_type(inner),
            TypeExprKind::Reference(inner) => self.visit_type(inner),
            TypeExprKind::MutableReference(inner) => self.visit_type(inner),
            TypeExprKind::Mapping(key, value) => {
                match self.visit_type(key) {
                    Ok(_) => {}
                    Err(error) => return Err(error),
                }
                self.visit_type(value)
            }
            TypeExprKind::Domain { arguments, .. } => self.visit_types(arguments),
        }
    }

    fn visit_patterns(&self, patterns: &Vec<Pattern>) -> (result: Result<(), String>)
        ensures
            complaint(result) == patterns_error(view::patterns(patterns@), 0, self@),
        decreases patterns,
    {
        let ghost all = view::patterns(patterns@);
        let mut i: usize = 0;
        while i < patterns.len()
            invariant
                i <= patterns.len(),
                all == view::patterns(patterns@),
                patterns_error(all, 0, self@) == patterns_error(all, i as int, self@),
            decreases patterns.len() - i,
        {
            assert(all[i as int] == view::pattern(patterns@[i as int]));
            match self.visit_pattern(&patterns[i]) {
                Ok(_) => {}
                Err(error) => return Err(error),
            }
            i += 1;
        }
        Ok(())
    }

    fn visit_pattern_fields(&self, pattern_fields: &Vec<PatternField>) -> (result: Result<(), String>)
        ensures
            complaint(result) == pattern_fields_error(view::pattern_fields(pattern_fields@), 0, self@),
        decreases pattern_fields,
    {
        let ghost all = view::pattern_fields(pattern_fields@);
        let mut i: usize = 0;
        while i < pattern_fields.len()
            invariant
                i <= pattern_fields.len(),
                all == view::pattern_fields(pattern_fields@),
                pattern_fields_error(all, 0, self@) == pattern_fields_error(all, i as int, self@),
            decreases pattern_fields.len() - i,
        {
            assert(all[i as int] == view::pattern_field(pattern_fields@[i as int]));
            match self.visit_pattern(&pattern_fields[i].pattern) {
                Ok(_) => {}
                Err(error) => return Err(error),
            }
            i += 1;
        }
        Ok(())
    }

    fn visit_pattern_pairs(&self, pairs: &Vec<(Pattern, Pattern)>) -> (result: Result<(), String>)
        ensures
            complaint(result) == pattern_pairs_error(view::pattern_pairs(pairs@), 0, self@),
        decreases pairs,
    {
        let ghost all = view::pattern_pairs(pairs@);
        let mut i: usize = 0;
        while i < pairs.len()
            invariant
                i <= pairs.len(),
                all == view::pattern_pairs(pairs@),
                pattern_pairs_error(all, 0, self@) == pattern_pairs_error(all, i as int, self@),
            decreases pairs.len() - i,
        {
            assert(all[i as int] == (view::pattern(pairs@[i as int].0), view::pattern(pairs@[i as int].1)));
            match self.visit_pattern(&pairs[i].0) {
                Ok(_) => {}
                Err(error) => return Err(error),
            }
            match self.visit_pattern(&pairs[i].1) {
                Ok(_) => {}
                Err(error) => return Err(error),
            }
            i += 1;
        }
        Ok(())
    }

    fn visit_pattern(&self, pattern: &Pattern) -> (result: Result<(), String>)
        ensures
            complaint(result) == pattern_error(view::pattern(*pattern), self@),
        decreases pattern,
    {
        reveal(view::pattern_kind);
        match &pattern.value {
            PatternKind::Constructor { constructor, arguments } => {
                match self.validate_reference(constructor.value.as_str()) {
                    Ok(_) => {}
                    Err(error) => return Err(error),
                }
                self.visit_patterns(arguments)
            }
            PatternKind::Record(fields) => self.visit_pattern_fields(fields),
            PatternKind::Tuple(items) => self.visit_patterns(items),
            PatternKind::Array(items) => self.visit_patterns(items),
            PatternKind::Mapping(pairs) => self.visit_pattern_pairs(pairs),
            PatternKind::Newtype { ty, pattern } => {
                match self.visit_type(ty) {
                    Ok(_) => {}
                    Err(error) => return Err(error),
                }
                self.visit_pattern(pattern)
            }
            PatternKind::Interface { ty, pattern } => {
                match self.visit_type(ty) {
                    Ok(_) => {}
                    Err(error) => return Err(error),
                }
                self.visit_pattern(pattern)
            }
            PatternKind::Literal(_) | PatternKind::Wildcard | PatternKind::Bind(_) => Ok(()),
        }
    }

    fn visit_case_patterns(&self, cases: &Vec<MatchCase>) -> (result: Result<(), String>)
        ensures
            complaint(result) == cases_pattern_error(view::match_cases(cases@), 0, self@),
    {
        let ghost all = view::match_cases(cases@);
        let mut i: usize = 0;
        while i < cases.len()
            invariant
                i <= cases.len(),
                all == view::match_cases(cases@),
                cases_pattern_error(all, 0, self@) == cases_pattern_error(all, i as int, self@),
            decreases cases.len() - i,
        {
            assert(all[i as int] == view::match_case(cases@[i as int]));
            match self.visit_pattern(&cases[i].pattern) {
                Ok(_) => {}
                Err(error) => return Err(error),
            }
            i += 1;
        }
        Ok(())
    }

    fn visit_case_bodies(&self, cases: &Vec<MatchCase>) -> (result: Result<(), String>)
        ensures
            complaint(result) == cases_body_error(view::match_cases(cases@), 0, self@),
        decreases cases,
    {
        let ghost all = view::match_cases(cases@);
        let mut i: usize = 0;
        while i < cases.len()
            invariant
                i <= cases.len(),
                all == view::match_cases(cases@),
                cases_body_error(all, 0, self@) == cases_body_error(all, i as int, self@),
            decreases cases.len() - i,
        {
            assert(all[i as int] == view::match_case(cases@[i as int]));
            match self.visit_exprs(&cases[i].body) {
                Ok(_) => {}
                Err(error) => return Err(error),
            }
            i += 1;
        }
        Ok(())
    }

    fn visit_exprs(&self, exprs: &Vec<Expr>) -> (result: Result<(), String>)
        ensures
            complaint(result) == exprs_error(view::exprs(exprs@), 0, self@),
        decreases exprs,
    {
        let ghost all = view::exprs(exprs@);
        let mut i: usize = 0;
        while i < exprs.len()
            invariant
                i <= exprs.len(),
                all == view::exprs(exprs@),
                exprs_error(all, 0, self@) == exprs_error(all, i as int, self@),
            decreases exprs.len() - i,
        {
            assert(all[i as int] == view::expr(exprs@[i as int]));
            match self.visit_expr(&exprs[i]) {
                Ok(_) => {}
                Err(error) => return Err(error),
            }
            i += 1;
        }
        Ok(())
    }

    fn visit_fields(&self, fields: &Vec<ExprField>) -> (result: Result<(), String>)
        ensures
            complaint(result) == fields_error(view::expr_fields(fields@), 0, self@),
        decreases fields,
    {
        let ghost all = view::expr_fields(fields@);
        let mut i: usize = 0;
        while i < fields.len()
            invariant
                i <= fields.len(),
                all == view::expr_fields(fields@),
                fields_error(all, 0, self@) == fields_error(all, i as int, self@),
            decreases fields.len() - i,
        {
            assert(all[i as int] == view::expr_field(fields@[i as int]));
            match self.visit_expr(&fields[i].value) {
                Ok(_) => {}
                Err(error) => return Err(error),
            }
            i += 1;
        }
        Ok(())
    }

    fn visit_pairs(&self, pairs: &Vec<(Expr, Expr)>) -> (result: Result<(), String>)
        ensures
            complaint(result) == pairs_error(view::expr_pairs(pairs@), 0, self@),
        decreases pairs,
    {
        let ghost all = view::expr_pairs(pairs@);
        let mut i: usize = 0;
        while i < pairs.len()
            invariant
                i <= pairs.len(),
                all == view::expr_pairs(pairs@),
                pairs_error(all, 0, self@) == pairs_error(all, i as int, self@),
            decreases pairs.len() - i,
        {
            assert(all[i as int] == (view::expr(pairs@[i as int].0), view::expr(pairs@[i as int].1)));
            match self.visit_expr(&pairs[i].0) {
                Ok(_) => {}
                Err(error) => return Err(error),
            }
            match self.visit_expr(&pairs[i].1) {
                Ok(_) => {}
                Err(error) => return Err(error),
            }
            i += 1;
        }
        Ok(())
    }

    fn visit_expr(&self, expr: &Expr) -> (result: Result<(), String>)
        ensures
            complaint(result) == expr_error(view::expr(*expr), self@),
        decreases expr,
    {
        reveal(view::expr_kind);
        match &expr.value {
            ExprKind::Reference(name) => self.validate_reference(name.as_str()),
            ExprKind::Call { callee, arguments } => {
                match self.validate_reference(callee.value.as_str()) {
                    Ok(_) => {}
                    Err(error) => return Err(error),
                }
                self.visit_exprs(arguments)
            }
            ExprKind::Do(values) => self.visit_exprs(values),
            ExprKind::Tuple(values) => self.visit_exprs(values),
            ExprKind::Array(values) => self.visit_exprs(values),
            ExprKind::Let { ty, value, .. } => {
                match ty {
                    Some(ty) => {
                        match self.visit_type(ty) {
                            Ok(_) => {}
                            Err(error) => return Err(error),
                        }
                    }
                    None => {}
                }
                self.visit_expr(value)
            }
            ExprKind::Assign { value, .. } => self.visit_expr(value),
            ExprKind::Mutable(value) => self.visit_expr(value),
            ExprKind::ReferenceOf(value) => self.visit_expr(value),
            ExprKind::Return(value) => match value {
                Some(value) => self.visit_expr(value),
                None => Ok(()),
            },
            ExprKind::If { condition, then_body, else_body } => {
                match self.visit_expr(condition) {
                    Ok(_) => {}
                    Err(error) => return Err(error),
                }
                match self.visit_exprs(then_body) {
                    Ok(_) => {}
                    Err(error) => return Err(error),
                }
                self.visit_exprs(else_body)
            }
            ExprKind::While { condition, body } => {
                match self.visit_expr(condition) {
                    Ok(_) => {}
                    Err(error) => return Err(error),
                }
                self.visit_exprs(body)
            }
            ExprKind::For { source, body, .. } => {
                match self.visit_expr(source) {
                    Ok(_) => {}
                    Err(error) => return Err(error),
                }
                self.visit_exprs(body)
            }
            ExprKind::Match { target, cases } => {
                match self.visit_case_patterns(cases) {
                    Ok(_) => {}
                    Err(error) => return Err(error),
                }
                match self.visit_expr(target) {
                    Ok(_) => {}
                    Err(error) => return Err(error),
                }
                self.visit_case_bodies(cases)
            }
            ExprKind::Record(fields) => self.visit_fields(fields),
            ExprKind::Mapping(pairs) => self.visit_pairs(pairs),
            ExprKind::Range(start, end, step) => {
                match self.visit_expr(start) {
                    Ok(_) => {}
                    Err(error) => return Err(error),
                }
                match self.visit_expr(end) {
                    Ok(_) => {}
                    Err(error) => return Err(error),
                }
                self.visit_expr(step)
            }
            ExprKind::Convert { value, into, .. } => {
                match self.visit_type(into) {
                    Ok(_) => {}
                    Err(error) => return Err(error),
                }
                self.visit_expr(value)
            }
            ExprKind::Cast { value, into } => {
                match self.visit_type(into) {
                    Ok(_) => {}
                    Err(error) => return Err(error),
                }
                self.visit_expr(value)
            }
            ExprKind::Task { body, .. } => self.visit_exprs(body),
            ExprKind::Spawn { value, .. } => self.visit_expr(value),
            ExprKind::Literal(_) | ExprKind::Break | ExprKind::Continue => Ok(()),
            ExprKind::Join { .. } => Ok(()),
        }
    }

    fn visit_parameters(&self, parameters: &Vec<Parameter>) -> (result: Result<(), String>)
        ensures
            complaint(result) == parameters_error(view::parameters(parameters@), 0, self@),
    {
        let ghost all = view::parameters(parameters@);
        let mut i: usize = 0;
        while i < parameters.len()
            invariant
                i <= parameters.len(),
                all == view::parameters(parameters@),
                parameters_error(all, 0, self@) == parameters_error(all, i as int, self@),
            decreases parameters.len() - i,
        {
            assert(all[i as int] == view::parameter(parameters@[i as int]));
            match self.visit_type(&parameters[i].ty) {
                Ok(_) => {}
                Err(error) => return Err(error),
            }
            i += 1;
        }
        Ok(())
    }

    /// Checks the references of a top-level form.
    pub fn validate_form(&self, form: &TopLevel) -> (result: Result<(), String>)
        ensures
            complaint(result) == form_error(view::top_level(*form), self@),
    {
        reveal(view::top_level);
        match form {
            TopLevel::Definition(definition) => self.visit_type(&definition.body),
            TopLevel::Constant(constant) => {
                match self.visit_type(&constant.ty) {
                    Ok(_) => {}
                    Err(error) => return Err(error),
                }
                self.visit_expr(&constant.value)
            }
            TopLevel::Function(function) => {
                match self.visit_parameters(&function.parameters) {
                    Ok(_) => {}
                    Err(error) => return Err(error),
                }
                match self.visit_type(&function.return_type) {
                    Ok(_) => {}
                    Err(error) => return Err(error),
                }
                self.visit_exprs(&function.body)
            }
            TopLevel::Test(test) => self.visit_exprs(&test.body),
            TopLevel::Import(_) | TopLevel::Macro(_) => Ok(()),
        }
    }
}

// Laws.

/// A reference through an alias that another module imports and this one does
/// not know is refused.
pub proof fn law_foreign_aliases_are_refused(scope: AliasScopeView, reference: Seq<char>)
    requires
        crate::text::split(reference, '.').len() >= 2,
        scope.known.contains(crate::text::split(reference, '.')[0]),
        !scope.direct.contains(crate::text::split(reference, '.')[0]),
        !scope.local.contains(crate::text::split(reference, '.')[0]),
        scope.self_alias != Some(crate::text::split(reference, '.')[0]),
        crate::text::split(reference, '.')[0] != "args"@,
        crate::text::split(reference, '.')[0] != "const"@,
        crate::text::split(reference, '.')[0] != "self"@,
    ensures
        reference_error(scope, reference) is Some,
{
}

} // verus!
