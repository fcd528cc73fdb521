//! Lexical scopes of expanded modules: no binding may shadow another one.
use vstd::prelude::*;
use crate::ast::surface::{
    Annotation, AnnotationKind, DocumentId, Expr, ExprField, ExprKind, Function, ImplItem, MatchCase, MethodBinding,
    Module, Name, Parameter, Pattern, PatternField, PatternKind, SourceLocation, TopLevel,
};
use crate::ast::view::{
    self, AnnotationKindView, AnnotationView, ExprFieldView, ExprKindView, ExprView, FunctionView, ImplItemView,
    MatchCaseView, MethodBindingView, ModuleView, NameView, ParameterView, PatternFieldView, PatternKindView,
    PatternView, TopLevelView,
};
use crate::syntax::Span;
use crate::text::{concat_three, decimal_text, owned, same_text};

verus! {

/// The code of a shadowing error.
pub const LEXICAL_SCOPE_SHADOWING_CODE: &'static str = "E-SCOPE-001";

/// A binding that shadows another one.
#[derive(Debug)]
pub struct ScopeError {
    pub code: &'static str,
    pub message: String,
    pub span: Span,
    pub document: DocumentId,
    pub related: Vec<(String, SourceLocation)>,
}

pub struct ScopeErrorView {
    pub code: Seq<char>,
    pub message: Seq<char>,
    pub span: Span,
    pub document: DocumentId,
    pub related: Seq<(Seq<char>, SourceLocation)>,
}

/// The names of each open scope with where they were bound, innermost last.
pub type Scopes = Seq<Seq<(Seq<char>, SourceLocation)>>;

/// What a name is bound to in a scope.
pub open spec fn in_scope(scope: Seq<(Seq<char>, SourceLocation)>, from: int, name: Seq<char>) -> Option<SourceLocation>
    decreases scope.len() - from,
{
    if from < 0 || from >= scope.len() {
        None
    } else if scope[from].0 == name {
        Some(scope[from].1)
    } else {
        in_scope(scope, from + 1, name)
    }
}

/// What a name is bound to in the innermost of the first `count` scopes.
pub open spec fn visible(scopes: Scopes, count: int, name: Seq<char>) -> Option<SourceLocation>
    decreases count,
{
    if count <= 0 || count > scopes.len() {
        None
    } else {
        match in_scope(scopes[count - 1], 0, name) {
            Some(location) => Some(location),
            None => visible(scopes, count - 1, name),
        }
    }
}

pub open spec fn location_of(name: NameView, document: DocumentId) -> SourceLocation {
    SourceLocation {
        document: match name.origin.document() {
            Some(document) => document,
            None => document,
        },
        span: name.origin.primary(),
    }
}

pub open spec fn shadowing(name: NameView, document: DocumentId, original: SourceLocation) -> ScopeErrorView {
    ScopeErrorView {
        code: LEXICAL_SCOPE_SHADOWING_CODE@,
        message: "binding `"@ + name.value + "` shadows an enclosing lexical binding; choose a different name"@,
        span: name.origin.primary(),
        document: location_of(name, document).document,
        related: seq![("original binding is here"@, original)],
    }
}

/// The scopes with a name added to the innermost one.
pub open spec fn added(scopes: Scopes, name: Seq<char>, location: SourceLocation) -> Scopes {
    if scopes.len() == 0 {
        scopes
    } else {
        let last = scopes.len() - 1;
        scopes.update(last, scopes[last].push((name, location)))
    }
}

/// A name is bound; it must not be visible already.
pub open spec fn bound(scopes: Scopes, name: NameView, document: DocumentId) -> Result<Scopes, ScopeErrorView> {
    if name.value == "_"@ {
        Ok(scopes)
    } else {
        match visible(scopes, scopes.len() as int, name.value) {
            Some(original) => Err(shadowing(name, document, original)),
            None => Ok(added(scopes, name.value, location_of(name, document))),
        }
    }
}

/// A visible name is made part of the innermost scope.
pub open spec fn captured(scopes: Scopes, name: NameView) -> Scopes {
    if name.value == "_"@ {
        scopes
    } else {
        match visible(scopes, scopes.len() as int, name.value) {
            Some(location) => added(scopes, name.value, location),
            None => scopes,
        }
    }
}

pub open spec fn opened(scopes: Scopes) -> Scopes {
    scopes.push(Seq::empty())
}

pub open spec fn closed(result: Result<Scopes, ScopeErrorView>) -> Result<Scopes, ScopeErrorView> {
    match result {
        Ok(scopes) => Ok(if scopes.len() == 0 {
            scopes
        } else {
            scopes.drop_last()
        }),
        Err(error) => Err(error),
    }
}

pub open spec fn checked_exprs(exprs: Seq<ExprView>, from: int, document: DocumentId, scopes: Scopes) -> Result<
    Scopes,
    ScopeErrorView,
>
    decreases exprs, 0int, exprs.len() - from,
{
    if from < 0 || from >= exprs.len() {
        Ok(scopes)
    } else {
        match checked(exprs[from], document, scopes) {
            Err(error) => Err(error),
            Ok(scopes) => checked_exprs(exprs, from + 1, document, scopes),
        }
    }
}

pub open spec fn checked_fields(fields: Seq<ExprFieldView>, from: int, document: DocumentId, scopes: Scopes) -> Result<
    Scopes,
    ScopeErrorView,
>
    decreases fields, 0int, fields.len() - from,
{
    if from < 0 || from >= fields.len() {
        Ok(scopes)
    } else {
        match checked(fields[from].value, document, scopes) {
            Err(error) => Err(error),
            Ok(scopes) => checked_fields(fields, from + 1, document, scopes),
        }
    }
}

pub open spec fn checked_cases(cases: Seq<MatchCaseView>, from: int, document: DocumentId, scopes: Scopes) -> Result<
    Scopes,
    ScopeErrorView,
>
    decreases cases, 0int, cases.len() - from,
{
    if from < 0 || from >= cases.len() {
        Ok(scopes)
    } else {
        match checked_case(cases[from], document, scopes) {
            Err(error) => Err(error),
            Ok(scopes) => checked_cases(cases, from + 1, document, scopes),
        }
    }
}

pub open spec fn checked_patterns(
    patterns: Seq<PatternView>,
    from: int,
    document: DocumentId,
    scopes: Scopes,
) -> Result<
    Scopes,
    ScopeErrorView,
>
    decreases patterns, 0int, patterns.len() - from,
{
    if from < 0 || from >= patterns.len() {
        Ok(scopes)
    } else {
        match checked_pattern(patterns[from], document, scopes) {
            Err(error) => Err(error),
            Ok(scopes) => checked_patterns(patterns, from + 1, document, scopes),
        }
    }
}

pub open spec fn checked_pattern_fields(
    fields: Seq<PatternFieldView>,
    from: int,
    document: DocumentId,
    scopes: Scopes,
) -> Result<
    Scopes,
    ScopeErrorView,
>
    decreases fields, 0int, fields.len() - from,
{
    if from < 0 || from >= fields.len() {
        Ok(scopes)
    } else {
        match checked_pattern(fields[from].pattern, document, scopes) {
            Err(error) => Err(error),
            Ok(scopes) => checked_pattern_fields(fields, from + 1, document, scopes),
        }
    }
}

pub open spec fn checked_pairs(
    pairs: Seq<(ExprView, ExprView)>,
    from: int,
    document: DocumentId,
    scopes: Scopes,
) -> Result<
    Scopes,
    ScopeErrorView,
>
    decreases pairs, 0int, pairs.len() - from,
{
    if from < 0 || from >= pairs.len() {
        Ok(scopes)
    } else {
        match checked(pairs[from].0, document, scopes) {
            Err(error) => Err(error),
            Ok(scopes) => match checked(pairs[from].1, document, scopes) {
                Err(error) => Err(error),
                Ok(scopes) => checked_pairs(pairs, from + 1, document, scopes),
            },
        }
    }
}

pub open spec fn checked_pattern_pairs(
    pairs: Seq<(PatternView, PatternView)>,
    from: int,
    document: DocumentId,
    scopes: Scopes,
) -> Result<Scopes, ScopeErrorView>
    decreases pairs, 0int, pairs.len() - from,
{
    if from < 0 || from >= pairs.len() {
        Ok(scopes)
    } else {
        match checked_pattern(pairs[from].0, document, scopes) {
            Err(error) => Err(error),
            Ok(scopes) => match checked_pattern(pairs[from].1, document, scopes) {
                Err(error) => Err(error),
                Ok(scopes) => checked_pattern_pairs(pairs, from + 1, document, scopes),
            },
        }
    }
}

/// A body in a scope of its own.
pub open spec fn checked_branch(body: Seq<ExprView>, document: DocumentId, scopes: Scopes) -> Result<
    Scopes,
    ScopeErrorView,
>
    decreases body, 1int, 0int,
{
    closed(checked_exprs(body, 0, document, opened(scopes)))
}

pub open spec fn all_captured(captures: Seq<NameView>, from: int, scopes: Scopes) -> Scopes
    decreases captures.len() - from,
{
    if from < 0 || from >= captures.len() {
        scopes
    } else {
        all_captured(captures, from + 1, captured(scopes, captures[from]))
    }
}

/// A match case: its pattern binds in the case's own scope.
pub open spec fn checked_case(case: MatchCaseView, document: DocumentId, scopes: Scopes) -> Result<
    Scopes,
    ScopeErrorView,
>
    decreases case, 0int, 0int,
{
    closed(
        match checked_pattern(case.pattern, document, opened(scopes)) {
            Err(error) => Err(error),
            Ok(scopes) => checked_exprs(case.body, 0, document, scopes),
        },
    )
}

pub open spec fn checked_pattern(pattern: PatternView, document: DocumentId, scopes: Scopes) -> Result<
    Scopes,
    ScopeErrorView,
>
    decreases pattern, 0int, 0int,
{
    match pattern.value {
        PatternKindView::Bind(name) => bound(scopes, name, document),
        PatternKindView::Constructor { arguments, .. } => checked_patterns(arguments, 0, document, scopes),
        PatternKindView::Tuple(items) => checked_patterns(items, 0, document, scopes),
        PatternKindView::Array(items) => checked_patterns(items, 0, document, scopes),
        PatternKindView::Record(fields) => checked_pattern_fields(fields, 0, document, scopes),
        PatternKindView::Mapping(pairs) => checked_pattern_pairs(pairs, 0, document, scopes),
        PatternKindView::Newtype { pattern, .. } => checked_pattern(*pattern, document, scopes),
        PatternKindView::Interface { pattern, .. } => checked_pattern(*pattern, document, scopes),
        PatternKindView::Literal(_) | PatternKindView::Wildcard => Ok(scopes),
    }
}

/// The scopes behind an expression, or the first binding that shadows another.
pub open spec fn checked(expr: ExprView, document: DocumentId, scopes: Scopes) -> Result<Scopes, ScopeErrorView>
    decreases expr, 0int, 0int,
{
    match expr.value {
        ExprKindView::Call { arguments, .. } => checked_exprs(arguments, 0, document, scopes),
        ExprKindView::Do(values) => checked_exprs(values, 0, document, scopes),
        ExprKindView::Tuple(values) => checked_exprs(values, 0, document, scopes),
        ExprKindView::Array(values) => checked_exprs(values, 0, document, scopes),
        ExprKindView::Let { name, value, .. } => match checked(*value, document, scopes) {
            Err(error) => Err(error),
            Ok(scopes) => bound(scopes, name, document),
        },
        ExprKindView::Assign { value, .. } => checked(*value, document, scopes),
        ExprKindView::Mutable(value) => checked(*value, document, scopes),
        ExprKindView::ReferenceOf(value) => checked(*value, document, scopes),
        ExprKindView::Return(value) => match value {
            Some(value) => checked(*value, document, scopes),
            None => Ok(scopes),
        },
        ExprKindView::Convert { value, .. } => checked(*value, document, scopes),
        ExprKindView::Cast { value, .. } => checked(*value, document, scopes),
        ExprKindView::Literal(_) | ExprKindView::Reference(_) => Ok(scopes),
        ExprKindView::Break | ExprKindView::Continue => Ok(scopes),
        ExprKindView::Join { .. } => Ok(scopes),
        ExprKindView::If { condition, then_body, else_body } => match checked(*condition, document, scopes) {
            Err(error) => Err(error),
            Ok(scopes) => match checked_branch(then_body, document, scopes) {
                Err(error) => Err(error),
                Ok(scopes) => checked_branch(else_body, document, scopes),
            },
        },
        ExprKindView::While { condition, body } => match checked(*condition, document, scopes) {
            Err(error) => Err(error),
            Ok(scopes) => checked_branch(body, document, scopes),
        },
        ExprKindView::For { binding, source, body } => match checked(*source, document, scopes) {
            Err(error) => Err(error),
            Ok(scopes) => closed(
                match bound(opened(scopes), binding, document) {
                    Err(error) => Err(error),
                    Ok(scopes) => checked_exprs(body, 0, document, scopes),
                },
            ),
        },
        ExprKindView::Match { target, cases } => match checked(*target, document, scopes) {
            Err(error) => Err(error),
            Ok(scopes) => checked_cases(cases, 0, document, scopes),
        },
        ExprKindView::Record(fields) => checked_fields(fields, 0, document, scopes),
        ExprKindView::Mapping(pairs) => checked_pairs(pairs, 0, document, scopes),
        ExprKindView::Range(start, end, step) => match checked(*start, document, scopes) {
            Err(error) => Err(error),
            Ok(scopes) => match checked(*end, document, scopes) {
                Err(error) => Err(error),
                Ok(scopes) => checked(*step, document, scopes),
            },
        },
        ExprKindView::Task { captures, body } => closed(
            checked_exprs(body, 0, document, all_captured(captures, 0, opened(scopes))),
        ),
        ExprKindView::Spawn { captures, value, .. } => closed(
            checked(*value, document, all_captured(captures, 0, opened(scopes))),
        ),
    }
}

pub open spec fn parameters_bound(
    parameters: Seq<ParameterView>,
    from: int,
    document: DocumentId,
    scopes: Scopes,
) -> Result<Scopes, ScopeErrorView>
    decreases parameters.len() - from,
{
    if from < 0 || from >= parameters.len() {
        Ok(scopes)
    } else {
        match bound(scopes, parameters[from].name, document) {
            Err(error) => Err(error),
            Ok(scopes) => parameters_bound(parameters, from + 1, document, scopes),
        }
    }
}

pub open spec fn checked_function(function: FunctionView, document: DocumentId, scopes: Scopes) -> Result<
    Scopes,
    ScopeErrorView,
> {
    closed(
        match parameters_bound(function.parameters, 0, document, opened(scopes)) {
            Err(error) => Err(error),
            Ok(scopes) => checked_exprs(function.body, 0, document, scopes),
        },
    )
}

pub open spec fn checked_functions(
    functions: Seq<FunctionView>,
    from: int,
    document: DocumentId,
    scopes: Scopes,
) -> Result<
    Scopes,
    ScopeErrorView,
>
    decreases functions.len() - from,
{
    if from < 0 || from >= functions.len() {
        Ok(scopes)
    } else {
        match checked_function(functions[from], document, scopes) {
            Err(error) => Err(error),
            Ok(scopes) => checked_functions(functions, from + 1, document, scopes),
        }
    }
}

pub open spec fn checked_items(items: Seq<ImplItemView>, from: int, document: DocumentId, scopes: Scopes) -> Result<
    Scopes,
    ScopeErrorView,
>
    decreases items.len() - from,
{
    if from < 0 || from >= items.len() {
        Ok(scopes)
    } else {
        match items[from] {
            ImplItemView::Method { binding: MethodBindingView::Function(function), .. } => match checked_function(
                function,
                document,
                scopes,
            ) {
                Err(error) => Err(error),
                Ok(scopes) => checked_items(items, from + 1, document, scopes),
            },
            _ => checked_items(items, from + 1, document, scopes),
        }
    }
}

pub open spec fn checked_annotations(
    annotations: Seq<AnnotationView>,
    from: int,
    document: DocumentId,
    scopes: Scopes,
) -> Result<Scopes, ScopeErrorView>
    decreases annotations.len() - from,
{
    if from < 0 || from >= annotations.len() {
        Ok(scopes)
    } else {
        let result = match annotations[from].value {
            AnnotationKindView::Definitions(functions) => checked_functions(functions, 0, document, scopes),
            AnnotationKindView::Implementation { items, .. } => checked_items(items, 0, document, scopes),
            _ => Ok(scopes),
        };
        match result {
            Err(error) => Err(error),
            Ok(scopes) => checked_annotations(annotations, from + 1, document, scopes),
        }
    }
}

pub open spec fn checked_top_level(form: TopLevelView, document: DocumentId, scopes: Scopes) -> Result<
    Scopes,
    ScopeErrorView,
> {
    match form {
        TopLevelView::Constant(constant) => closed(checked(constant.value, document, opened(scopes))),
        TopLevelView::Function(function) => checked_function(function, document, scopes),
        TopLevelView::Definition(definition) => checked_annotations(definition.annotations, 0, document, scopes),
        TopLevelView::Test(test) => checked_branch(test.body, document, scopes),
        TopLevelView::Import(_) | TopLevelView::Macro(_) => Ok(scopes),
    }
}

pub open spec fn checked_forms(forms: Seq<TopLevelView>, from: int, document: DocumentId, scopes: Scopes) -> Result<
    Scopes,
    ScopeErrorView,
>
    decreases forms.len() - from,
{
    if from < 0 || from >= forms.len() {
        Ok(scopes)
    } else {
        match checked_top_level(forms[from], document, scopes) {
            Err(error) => Err(error),
            Ok(scopes) => checked_forms(forms, from + 1, document, scopes),
        }
    }
}

/// The first binding of a module that shadows another one.
pub open spec fn scope_error(module: ModuleView) -> Option<ScopeErrorView> {
    match checked_forms(module.forms, 0, module.document_id, seq![Seq::empty()]) {
        Ok(_) => None,
        Err(error) => Some(error),
    }
}

impl ScopeError {
    pub open spec fn view(&self) -> ScopeErrorView {
        ScopeErrorView {
            code: self.code@,
            message: self.message@,
            span: self.span,
            document: self.document,
            related: Seq::new(self.related@.len(), |i: int| (self.related@[i].0@, self.related@[i].1)),
        }
    }

    fn shadowing(name: &Name, document: DocumentId, original: SourceLocation) -> (error: ScopeError)
        ensures
            error@ == self::shadowing(view::name(*name), document, original),
    {
        let mut related: Vec<(String, SourceLocation)> = Vec::new();
        related.push((owned("original binding is here"), original));
        let error = ScopeError {
            code: LEXICAL_SCOPE_SHADOWING_CODE,
            message: concat_three(
                "binding `",
                name.value.as_str(),
                "` shadows an enclosing lexical binding; choose a different name",
            ),
            span: name.origin.primary_span(),
            document: source_location(name, document).document,
            related,
        };
        assert(error@.related =~= seq![("original binding is here"@, original)]);
        error
    }

    /// The error as one line.
    pub fn to_text(&self) -> (text: String)
        ensures
            text@ == self@.code + " at bytes "@ + crate::text::decimal(self@.span.start as nat) + ".."@
                + crate::text::decimal(self@.span.end as nat) + ": "@ + self@.message,
    {
        let start = decimal_text(self.span.start as u64);
        let end = decimal_text(self.span.end as u64);
        let mut text = concat_three(self.code, " at bytes ", start.as_str());
        text.append("..");
        text.append(end.as_str());
        text.append(": ");
        text.append(self.message.as_str());
        text
    }
}

fn source_location(name: &Name, document: DocumentId) -> (location: SourceLocation)
    ensures
        location == location_of(view::name(*name), document),
{
    SourceLocation {
        document: match name.origin.document_id() {
            Some(document) => document,
            None => document,
        },
        span: name.origin.primary_span(),
    }
}

/// The open scopes.
#[derive(Debug)]
struct ScopeStack {
    scopes: Vec<Vec<(String, SourceLocation)>>,
}

spec fn scope_view(scope: Seq<(String, SourceLocation)>) -> Seq<(Seq<char>, SourceLocation)> {
    Seq::new(scope.len(), |i: int| (scope[i].0@, scope[i].1))
}

impl ScopeStack {
    spec fn view(&self) -> Scopes {
        Seq::new(self.scopes@.len(), |i: int| scope_view(self.scopes@[i]@))
    }

    fn new() -> (stack: ScopeStack)
        ensures
            stack@ == seq![Seq::<(Seq<char>, SourceLocation)>::empty()],
    {
        let mut scopes: Vec<Vec<(String, SourceLocation)>> = Vec::new();
        scopes.push(Vec::new());
        let stack = ScopeStack { scopes };
        assert(scope_view(stack.scopes@[0]@) =~= Seq::<(Seq<char>, SourceLocation)>::empty());
        assert(stack@ =~= seq![Seq::<(Seq<char>, SourceLocation)>::empty()]);
        stack
    }

    fn push(&mut self)
        ensures
            final(self)@ == opened(old(self)@),
    {
        let ghost before = self@;
        let empty: Vec<(String, SourceLocation)> = Vec::new();
        assert(scope_view(empty@) =~= Seq::<(Seq<char>, SourceLocation)>::empty());
        self.scopes.push(empty);
        assert(self@ =~= opened(before));
    }

    fn pop(&mut self)
        ensures
            closed(Ok(old(self)@)) == Ok::<Scopes, ScopeErrorView>(final(self)@),
    {
        let ghost before = self@;
        match self.scopes.pop() {
            Some(_) => {
                assert(self@ =~= before.drop_last());
            }
            None => {
                assert(before.len() == 0);
                assert(self@ =~= before);
            }
        }
    }

    fn visible(&self, name: &str) -> (location: Option<SourceLocation>)
        ensures
            location == self::visible(self@, self@.len() as int, name@),
    {
        let ghost all = self@;
        let mut i: usize = self.scopes.len();
        while i > 0
            invariant
                i <= self.scopes.len(),
                all == self@,
                self::visible(all, all.len() as int, name@) == self::visible(all, i as int, name@),
            decreases i,
        {
            let scope = &self.scopes[i - 1];
            let ghost names = scope_view(scope@);
            assert(all[i - 1] == names);
            let mut j: usize = 0;
            while j < scope.len()
                invariant
                    0 < i <= self.scopes.len(),
                    j <= scope.len(),
                    all == self@,
                    names == scope_view(scope@),
                    all[i - 1] == names,
                    self::visible(all, all.len() as int, name@) == self::visible(all, i as int, name@),
                    in_scope(names, 0, name@) == in_scope(names, j as int, name@),
                decreases scope.len() - j,
            {
                assert(names[j as int] == (scope@[j as int].0@, scope@[j as int].1));
                if same_text(scope[j].0.as_str(), name) {
                    return Some(scope[j].1);
                }
                j += 1;
            }
            i -= 1;
        }
        None
    }

    fn add(&mut self, name: &str, location: SourceLocation)
        ensures
            final(self)@ == added(old(self)@, name@, location),
    {
        let count: usize = self.scopes.len();
        if count == 0 {
            assert(self@.len() == 0);
            return;
        }
        let ghost before = self@;
        let last: usize = count - 1;
        self.scopes[last].push((owned(name), location));
        proof {
            let expected = added(before, name@, location);
            assert(scope_view(self.scopes@[last as int]@) =~= before[last as int].push((name@, location)));
            assert forall|k: int| 0 <= k < expected.len() implies self@[k] == expected[k] by {}
            assert(self@ =~= expected);
        }
    }

    fn bind(&mut self, name: &Name, document: DocumentId) -> (result: Result<(), ScopeError>)
        ensures
            match result {
                Ok(_) => bound(old(self)@, view::name(*name), document) == Ok::<Scopes, ScopeErrorView>(final(self)@),
                Err(error) => bound(old(self)@, view::name(*name), document) == Err::<Scopes, ScopeErrorView>(error@),
            },
    {
        if same_text(name.value.as_str(), "_") {
            return Ok(());
        }
        match self.visible(name.value.as_str()) {
            Some(original) => Err(ScopeError::shadowing(name, document, original)),
            None => {
                let location = source_location(name, document);
                self.add(name.value.as_str(), location);
                Ok(())
            }
        }
    }

    fn capture(&mut self, name: &Name)
        ensures
            final(self)@ == captured(old(self)@, view::name(*name)),
    {
        if same_text(name.value.as_str(), "_") {
            return;
        }
        match self.visible(name.value.as_str()) {
            Some(location) => self.add(name.value.as_str(), location),
            None => {}
        }
    }

    fn capture_all(&mut self, names: &Vec<Name>)
        ensures
            final(self)@ == all_captured(view::names(names@), 0, old(self)@),
    {
        let ghost all = view::names(names@);
        let ghost start = self@;
        let mut i: usize = 0;
        while i < names.len()
            invariant
                i <= names.len(),
                all == view::names(names@),
                start == old(self)@,
                all_captured(all, 0, start) == all_captured(all, i as int, self@),
            decreases names.len() - i,
        {
            assert(all[i as int] == view::name(names@[i as int]));
            self.capture(&names[i]);
            i += 1;
        }
    }

    fn visit_exprs(&mut self, exprs: &Vec<Expr>, document: DocumentId) -> (result: Result<(), ScopeError>)
        ensures
            match result {
                Ok(_) => checked_exprs(
                    view::exprs(exprs@),
                    0,
                    document,
                    old(self)@,
                ) == Ok::<Scopes, ScopeErrorView>(final(self)@),
                Err(error) => checked_exprs(
                    view::exprs(exprs@),
                    0,
                    document,
                    old(self)@,
                ) == Err::<Scopes, ScopeErrorView>(error@),
            },
        decreases exprs, 0int,
    {
        let ghost all = view::exprs(exprs@);
        let ghost start = self@;
        let mut i: usize = 0;
        while i < exprs.len()
            invariant
                i <= exprs.len(),
                all == view::exprs(exprs@),
                start == old(self)@,
                checked_exprs(all, 0, document, start) == checked_exprs(all, i as int, document, self@),
            decreases exprs.len() - i,
        {
            assert(all[i as int] == view::expr(exprs@[i as int]));
            match self.visit_expr(&exprs[i], document) {
                Ok(_) => {}
                Err(error) => return Err(error),
            }
            i += 1;
        }
        Ok(())
    }

    fn visit_fields(&mut self, fields: &Vec<ExprField>, document: DocumentId) -> (result: Result<(), ScopeError>)
        ensures
            match result {
                Ok(_) => checked_fields(
                    view::expr_fields(fields@),
                    0,
                    document,
                    old(self)@,
                ) == Ok::<Scopes, ScopeErrorView>(final(self)@),
                Err(error) => checked_fields(
                    view::expr_fields(fields@),
                    0,
                    document,
                    old(self)@,
                ) == Err::<Scopes, ScopeErrorView>(error@),
            },
        decreases fields, 0int,
    {
        let ghost all = view::expr_fields(fields@);
        let ghost start = self@;
        let mut i: usize = 0;
        while i < fields.len()
            invariant
                i <= fields.len(),
                all == view::expr_fields(fields@),
                start == old(self)@,
                checked_fields(all, 0, document, start) == checked_fields(all, i as int, document, self@),
            decreases fields.len() - i,
        {
            assert(all[i as int] == view::expr_field(fields@[i as int]));
            match self.visit_expr(&fields[i].value, document) {
                Ok(_) => {}
                Err(error) => return Err(error),
            }
            i += 1;
        }
        Ok(())
    }

    fn visit_cases(&mut self, cases: &Vec<MatchCase>, document: DocumentId) -> (result: Result<(), ScopeError>)
        ensures
            match result {
                Ok(_) => checked_cases(
                    view::match_cases(cases@),
                    0,
                    document,
                    old(self)@,
                ) == Ok::<Scopes, ScopeErrorView>(final(self)@),
                Err(error) => checked_cases(
                    view::match_cases(cases@),
                    0,
                    document,
                    old(self)@,
                ) == Err::<Scopes, ScopeErrorView>(error@),
            },
        decreases cases, 0int,
    {
        let ghost all = view::match_cases(cases@);
        let ghost start = self@;
        let mut i: usize = 0;
        while i < cases.len()
            invariant
                i <= cases.len(),
                all == view::match_cases(cases@),
                start == old(self)@,
                checked_cases(all, 0, document, start) == checked_cases(all, i as int, document, self@),
            decreases cases.len() - i,
        {
            assert(all[i as int] == view::match_case(cases@[i as int]));
            match self.visit_match_case(&cases[i], document) {
                Ok(_) => {}
                Err(error) => return Err(error),
            }
            i += 1;
        }
        Ok(())
    }

    fn visit_patterns(&mut self, patterns: &Vec<Pattern>, document: DocumentId) -> (result: Result<(), ScopeError>)
        ensures
            match result {
                Ok(_) => checked_patterns(
                    view::patterns(patterns@),
                    0,
                    document,
                    old(self)@,
                ) == Ok::<Scopes, ScopeErrorView>(final(self)@),
                Err(error) => checked_patterns(
                    view::patterns(patterns@),
                    0,
                    document,
                    old(self)@,
                ) == Err::<Scopes, ScopeErrorView>(error@),
            },
        decreases patterns, 0int,
    {
        let ghost all = view::patterns(patterns@);
        let ghost start = self@;
        let mut i: usize = 0;
        while i < patterns.len()
            invariant
                i <= patterns.len(),
                all == view::patterns(patterns@),
                start == old(self)@,
                checked_patterns(all, 0, document, start) == checked_patterns(all, i as int, document, self@),
            decreases patterns.len() - i,
        {
            assert(all[i as int] == view::pattern(patterns@[i as int]));
            match self.visit_pattern(&patterns[i], document) {
                Ok(_) => {}
                Err(error) => return Err(error),
            }
            i += 1;
        }
        Ok(())
    }

    fn visit_pattern_fields(
        &mut self,
        fields: &Vec<PatternField>,
        document: DocumentId,
    ) -> (result: Result<(), ScopeError>)
        ensures
            match result {
                Ok(_) => checked_pattern_fields(
                    view::pattern_fields(fields@),
                    0,
                    document,
                    old(self)@,
                ) == Ok::<Scopes, ScopeErrorView>(final(self)@),
                Err(error) => checked_pattern_fields(
                    view::pattern_fields(fields@),
                    0,
                    document,
                    old(self)@,
                ) == Err::<Scopes, ScopeErrorView>(error@),
            },
        decreases fields, 0int,
    {
        let ghost all = view::pattern_fields(fields@);
        let ghost start = self@;
        let mut i: usize = 0;
        while i < fields.len()
            invariant
                i <= fields.len(),
                all == view::pattern_fields(fields@),
                start == old(self)@,
                checked_pattern_fields(all, 0, document, start) == checked_pattern_fields(
                    all,
                    i as int,
                    document,
                    self@,
                ),
            decreases fields.len() - i,
        {
            assert(all[i as int] == view::pattern_field(fields@[i as int]));
            match self.visit_pattern(&fields[i].pattern, document) {
                Ok(_) => {}
                Err(error) => return Err(error),
            }
            i += 1;
        }
        Ok(())
    }

    fn visit_pairs(&mut self, pairs: &Vec<(Expr, Expr)>, document: DocumentId) -> (result: Result<(), ScopeError>)
        ensures
            match result {
                Ok(_) => checked_pairs(
                    view::expr_pairs(pairs@),
                    0,
                    document,
                    old(self)@,
                ) == Ok::<Scopes, ScopeErrorView>(final(self)@),
                Err(error) => checked_pairs(
                    view::expr_pairs(pairs@),
                    0,
                    document,
                    old(self)@,
                ) == Err::<Scopes, ScopeErrorView>(error@),
            },
        decreases pairs, 0int,
    {
        let ghost all = view::expr_pairs(pairs@);
        let ghost start = self@;
        let mut i: usize = 0;
        while i < pairs.len()
            invariant
                i <= pairs.len(),
                all == view::expr_pairs(pairs@),
                start == old(self)@,
                checked_pairs(all, 0, document, start) == checked_pairs(all, i as int, document, self@),
            decreases pairs.len() - i,
        {
            assert(all[i as int] == (view::expr(pairs@[i as int].0), view::expr(pairs@[i as int].1)));
            match self.visit_expr(&pairs[i].0, document) {
                Ok(_) => {}
                Err(error) => return Err(error),
            }
            match self.visit_expr(&pairs[i].1, document) {
                Ok(_) => {}
                Err(error) => return Err(error),
            }
            i += 1;
        }
        Ok(())
    }

    fn visit_pattern_pairs(
        &mut self,
        pairs: &Vec<(Pattern, Pattern)>,
        document: DocumentId,
    ) -> (result: Result<(), ScopeError>)
        ensures
            match result {
                Ok(_) => checked_pattern_pairs(
                    view::pattern_pairs(pairs@),
                    0,
                    document,
                    old(self)@,
                ) == Ok::<Scopes, ScopeErrorView>(final(self)@),
                Err(error) => checked_pattern_pairs(
                    view::pattern_pairs(pairs@),
                    0,
                    document,
                    old(self)@,
                ) == Err::<Scopes, ScopeErrorView>(error@),
            },
        decreases pairs, 0int,
    {
        let ghost all = view::pattern_pairs(pairs@);
        let ghost start = self@;
        let mut i: usize = 0;
        while i < pairs.len()
            invariant
                i <= pairs.len(),
                all == view::pattern_pairs(pairs@),
                start == old(self)@,
                checked_pattern_pairs(all, 0, document, start) == checked_pattern_pairs(all, i as int, document, self@),
            decreases pairs.len() - i,
        {
            assert(all[i as int] == (view::pattern(pairs@[i as int].0), view::pattern(pairs@[i as int].1)));
            match self.visit_pattern(&pairs[i].0, document) {
                Ok(_) => {}
                Err(error) => return Err(error),
            }
            match self.visit_pattern(&pairs[i].1, document) {
                Ok(_) => {}
                Err(error) => return Err(error),
            }
            i += 1;
        }
        Ok(())
    }

    fn visit_branch(&mut self, body: &Vec<Expr>, document: DocumentId) -> (result: Result<(), ScopeError>)
        ensures
            match result {
                Ok(_) => checked_branch(
                    view::exprs(body@),
                    document,
                    old(self)@,
                ) == Ok::<Scopes, ScopeErrorView>(final(self)@),
                Err(error) => checked_branch(
                    view::exprs(body@),
                    document,
                    old(self)@,
                ) == Err::<Scopes, ScopeErrorView>(error@),
            },
        decreases body, 1int,
    {
        self.push();
        match self.visit_exprs(body, document) {
            Ok(_) => {
                self.pop();
                Ok(())
            }
            Err(error) => Err(error),
        }
    }

    fn visit_match_case(&mut self, case: &MatchCase, document: DocumentId) -> (result: Result<(), ScopeError>)
        ensures
            match result {
                Ok(_) => checked_case(
                    view::match_case(*case),
                    document,
                    old(self)@,
                ) == Ok::<Scopes, ScopeErrorView>(final(self)@),
                Err(error) => checked_case(
                    view::match_case(*case),
                    document,
                    old(self)@,
                ) == Err::<Scopes, ScopeErrorView>(error@),
            },
        decreases case, 0int,
    {
        self.push();
        match self.visit_pattern(&case.pattern, document) {
            Ok(_) => {}
            Err(error) => return Err(error),
        }
        match self.visit_exprs(&case.body, document) {
            Ok(_) => {
                self.pop();
                Ok(())
            }
            Err(error) => Err(error),
        }
    }

    fn visit_pattern(&mut self, pattern: &Pattern, document: DocumentId) -> (result: Result<(), ScopeError>)
        ensures
            match result {
                Ok(_) => checked_pattern(
                    view::pattern(*pattern),
                    document,
                    old(self)@,
                ) == Ok::<Scopes, ScopeErrorView>(final(self)@),
                Err(error) => checked_pattern(
                    view::pattern(*pattern),
                    document,
                    old(self)@,
                ) == Err::<Scopes, ScopeErrorView>(error@),
            },
        decreases pattern, 0int,
    {
        reveal(view::pattern_kind);
        match &pattern.value {
            PatternKind::Bind(name) => self.bind(name, document),
            PatternKind::Constructor { arguments, .. } => self.visit_patterns(arguments, document),
            PatternKind::Tuple(items) => self.visit_patterns(items, document),
            PatternKind::Array(items) => self.visit_patterns(items, document),
            PatternKind::Record(fields) => self.visit_pattern_fields(fields, document),
            PatternKind::Mapping(pairs) => self.visit_pattern_pairs(pairs, document),
            PatternKind::Newtype { pattern, .. } => self.visit_pattern(pattern, document),
            PatternKind::Interface { pattern, .. } => self.visit_pattern(pattern, document),
            PatternKind::Literal(_) | PatternKind::Wildcard => Ok(()),
        }
    }

    fn visit_expr(&mut self, expr: &Expr, document: DocumentId) -> (result: Result<(), ScopeError>)
        ensures
            match result {
                Ok(_) => checked(view::expr(*expr), document, old(self)@) == Ok::<Scopes, ScopeErrorView>(final(self)@),
                Err(error) => checked(view::expr(*expr), document, old(self)@) == Err::<Scopes, ScopeErrorView>(error@),
            },
        decreases expr, 0int,
    {
        reveal(view::expr_kind);
        match &expr.value {
            ExprKind::Call { arguments, .. } => self.visit_exprs(arguments, document),
            ExprKind::Do(values) => self.visit_exprs(values, document),
            ExprKind::Tuple(values) => self.visit_exprs(values, document),
            ExprKind::Array(values) => self.visit_exprs(values, document),
            ExprKind::Let { name, value, .. } => match self.visit_expr(value, document) {
                Ok(_) => self.bind(name, document),
                Err(error) => Err(error),
            },
            ExprKind::Assign { value, .. } => self.visit_expr(value, document),
            ExprKind::Mutable(value) => self.visit_expr(value, document),
            ExprKind::ReferenceOf(value) => self.visit_expr(value, document),
            ExprKind::Return(value) => match value {
                Some(value) => self.visit_expr(value, document),
                None => Ok(()),
            },
            ExprKind::Convert { value, .. } => self.visit_expr(value, document),
            ExprKind::Cast { value, .. } => self.visit_expr(value, document),
            ExprKind::Literal(_) | ExprKind::Reference(_) => Ok(()),
            ExprKind::Break | ExprKind::Continue => Ok(()),
            ExprKind::Join { .. } => Ok(()),
            ExprKind::If { condition, then_body, else_body } => {
                match self.visit_expr(condition, document) {
                    Ok(_) => {}
                    Err(error) => return Err(error),
                }
                match self.visit_branch(then_body, document) {
                    Ok(_) => self.visit_branch(else_body, document),
                    Err(error) => Err(error),
                }
            }
            ExprKind::While { condition, body } => match self.visit_expr(condition, document) {
                Ok(_) => self.visit_branch(body, document),
                Err(error) => Err(error),
            },
            ExprKind::For { binding, source, body } => {
                match self.visit_expr(source, document) {
                    Ok(_) => {}
                    Err(error) => return Err(error),
                }
                self.push();
                match self.bind(binding, document) {
                    Ok(_) => {}
                    Err(error) => return Err(error),
                }
                match self.visit_exprs(body, document) {
                    Ok(_) => {
                        self.pop();
                        Ok(())
                    }
                    Err(error) => Err(error),
                }
            }
            ExprKind::Match { target, cases } => match self.visit_expr(target, document) {
                Ok(_) => self.visit_cases(cases, document),
                Err(error) => Err(error),
            },
            ExprKind::Record(fields) => self.visit_fields(fields, document),
            ExprKind::Mapping(pairs) => self.visit_pairs(pairs, document),
            ExprKind::Range(start, end, step) => {
                match self.visit_expr(start, document) {
                    Ok(_) => {}
                    Err(error) => return Err(error),
                }
                match self.visit_expr(end, document) {
                    Ok(_) => self.visit_expr(step, document),
                    Err(error) => Err(error),
                }
            }
            ExprKind::Task { captures, body } => {
                self.push();
                self.capture_all(captures);
                match self.visit_exprs(body, document) {
                    Ok(_) => {
                        self.pop();
                        Ok(())
                    }
                    Err(error) => Err(error),
                }
            }
            ExprKind::Spawn { captures, value, .. } => {
                self.push();
                self.capture_all(captures);
                match self.visit_expr(value, document) {
                    Ok(_) => {
                        self.pop();
                        Ok(())
                    }
                    Err(error) => Err(error),
                }
            }
        }
    }

    fn visit_function(&mut self, function: &Function, document: DocumentId) -> (result: Result<(), ScopeError>)
        ensures
            match result {
                Ok(_) => checked_function(
                    view::function(*function),
                    document,
                    old(self)@,
                ) == Ok::<Scopes, ScopeErrorView>(final(self)@),
                Err(error) => checked_function(
                    view::function(*function),
                    document,
                    old(self)@,
                ) == Err::<Scopes, ScopeErrorView>(error@),
            },
    {
        self.push();
        match self.bind_parameters(&function.parameters, document) {
            Ok(_) => {}
            Err(error) => return Err(error),
        }
        match self.visit_exprs(&function.body, document) {
            Ok(_) => {
                self.pop();
                Ok(())
            }
            Err(error) => Err(error),
        }
    }

    fn bind_parameters(&mut self, parameters: &Vec<Parameter>, document: DocumentId) -> (result: Result<(), ScopeError>)
        ensures
            match result {
                Ok(_) => parameters_bound(
                    view::parameters(parameters@),
                    0,
                    document,
                    old(self)@,
                ) == Ok::<Scopes, ScopeErrorView>(final(self)@),
                Err(error) => parameters_bound(
                    view::parameters(parameters@),
                    0,
                    document,
                    old(self)@,
                ) == Err::<Scopes, ScopeErrorView>(error@),
            },
    {
        let ghost all = view::parameters(parameters@);
        let ghost start = self@;
        let mut i: usize = 0;
        while i < parameters.len()
            invariant
                i <= parameters.len(),
                all == view::parameters(parameters@),
                start == old(self)@,
                parameters_bound(all, 0, document, start) == parameters_bound(all, i as int, document, self@),
            decreases parameters.len() - i,
        {
            assert(all[i as int] == view::parameter(parameters@[i as int]));
            match self.bind(&parameters[i].name, document) {
                Ok(_) => {}
                Err(error) => return Err(error),
            }
            i += 1;
        }
        Ok(())
    }

    fn visit_functions(&mut self, functions: &Vec<Function>, document: DocumentId) -> (result: Result<(), ScopeError>)
        ensures
            match result {
                Ok(_) => checked_functions(
                    view::functions(functions@),
                    0,
                    document,
                    old(self)@,
                ) == Ok::<Scopes, ScopeErrorView>(final(self)@),
                Err(error) => checked_functions(
                    view::functions(functions@),
                    0,
                    document,
                    old(self)@,
                ) == Err::<Scopes, ScopeErrorView>(error@),
            },
    {
        let ghost all = view::functions(functions@);
        let ghost start = self@;
        let mut i: usize = 0;
        while i < functions.len()
            invariant
                i <= functions.len(),
                all == view::functions(functions@),
                start == old(self)@,
                checked_functions(all, 0, document, start) == checked_functions(all, i as int, document, self@),
            decreases functions.len() - i,
        {
            assert(all[i as int] == view::function(functions@[i as int]));
            match self.visit_function(&functions[i], document) {
                Ok(_) => {}
                Err(error) => return Err(error),
            }
            i += 1;
        }
        Ok(())
    }

    fn visit_items(&mut self, items: &Vec<ImplItem>, document: DocumentId) -> (result: Result<(), ScopeError>)
        ensures
            match result {
                Ok(_) => checked_items(
                    view::impl_items(items@),
                    0,
                    document,
                    old(self)@,
                ) == Ok::<Scopes, ScopeErrorView>(final(self)@),
                Err(error) => checked_items(
                    view::impl_items(items@),
                    0,
                    document,
                    old(self)@,
                ) == Err::<Scopes, ScopeErrorView>(error@),
            },
    {
        let ghost all = view::impl_items(items@);
        let ghost start = self@;
        let mut i: usize = 0;
        while i < items.len()
            invariant
                i <= items.len(),
                all == view::impl_items(items@),
                start == old(self)@,
                checked_items(all, 0, document, start) == checked_items(all, i as int, document, self@),
            decreases items.len() - i,
        {
            assert(all[i as int] == view::impl_item(items@[i as int]));
            match &items[i] {
                ImplItem::Method { binding, .. } => match binding {
                    MethodBinding::Function(function) => match self.visit_function(function, document) {
                        Ok(_) => {}
                        Err(error) => return Err(error),
                    },
                    _ => {}
                },
                _ => {}
            }
            i += 1;
        }
        Ok(())
    }

    fn visit_annotations(
        &mut self,
        annotations: &Vec<Annotation>,
        document: DocumentId,
    ) -> (result: Result<(), ScopeError>)
        ensures
            match result {
                Ok(_) => checked_annotations(
                    view::annotations(annotations@),
                    0,
                    document,
                    old(self)@,
                ) == Ok::<Scopes, ScopeErrorView>(final(self)@),
                Err(error) => checked_annotations(
                    view::annotations(annotations@),
                    0,
                    document,
                    old(self)@,
                ) == Err::<Scopes, ScopeErrorView>(error@),
            },
    {
        let ghost all = view::annotations(annotations@);
        let ghost start = self@;
        let mut i: usize = 0;
        while i < annotations.len()
            invariant
                i <= annotations.len(),
                all == view::annotations(annotations@),
                start == old(self)@,
                checked_annotations(all, 0, document, start) == checked_annotations(all, i as int, document, self@),
            decreases annotations.len() - i,
        {
            reveal(view::annotation_kind);
            assert(all[i as int] == view::annotation(annotations@[i as int]));
            let result = match &annotations[i].value {
                AnnotationKind::Definitions(functions) => self.visit_functions(functions, document),
                AnnotationKind::Implementation { items, .. } => self.visit_items(items, document),
                _ => Ok(()),
            };
            match result {
                Ok(_) => {}
                Err(error) => return Err(error),
            }
            i += 1;
        }
        Ok(())
    }

    fn visit_top_level(&mut self, form: &TopLevel, document: DocumentId) -> (result: Result<(), ScopeError>)
        ensures
            match result {
                Ok(_) => checked_top_level(
                    view::top_level(*form),
                    document,
                    old(self)@,
                ) == Ok::<Scopes, ScopeErrorView>(final(self)@),
                Err(error) => checked_top_level(
                    view::top_level(*form),
                    document,
                    old(self)@,
                ) == Err::<Scopes, ScopeErrorView>(error@),
            },
    {
        reveal(view::top_level);
        match form {
            TopLevel::Constant(constant) => {
                self.push();
                match self.visit_expr(&constant.value, document) {
                    Ok(_) => {
                        self.pop();
                        Ok(())
                    }
                    Err(error) => Err(error),
                }
            }
            TopLevel::Function(function) => self.visit_function(function, document),
            TopLevel::Definition(definition) => self.visit_annotations(&definition.annotations, document),
            TopLevel::Test(test) => self.visit_branch(&test.body, document),
            TopLevel::Import(_) | TopLevel::Macro(_) => Ok(()),
        }
    }
}

/// Rejects shadowing in a fully expanded module.
pub fn validate_lexical_scopes(module: &Module) -> (result: Result<(), ScopeError>)
    ensures
        scope_error(view::module(*module)) == (match result {
            Ok(_) => None,
            Err(error) => Some(error@),
        }),
{
    let ghost all = view::top_levels(module.forms@);
    let document = module.document_id;
    let mut stack = ScopeStack::new();
    let ghost start = stack@;
    let mut i: usize = 0;
    while i < module.forms.len()
        invariant
            i <= module.forms.len(),
            all == view::top_levels(module.forms@),
            document == module.document_id,
            start == seq![Seq::<(Seq<char>, SourceLocation)>::empty()],
            checked_forms(all, 0, document, start) == checked_forms(all, i as int, document, stack@),
        decreases module.forms.len() - i,
    {
        assert(all[i as int] == view::top_level(module.forms@[i as int]));
        match stack.visit_top_level(&module.forms[i], document) {
            Ok(_) => {}
            Err(error) => return Err(error),
        }
        i += 1;
    }
    Ok(())
}

// Laws.

/// A name that is visible cannot be bound again, unless it is the placeholder.
pub proof fn law_visible_names_cannot_be_bound(scopes: Scopes, name: NameView, document: DocumentId)
    requires
        name.value != "_"@,
        visible(scopes, scopes.len() as int, name.value) is Some,
    ensures
        bound(scopes, name, document) is Err,
{
}

/// Once bound, a name stays visible in inner scopes.
pub proof fn law_bound_names_are_visible(scopes: Scopes, name: NameView, document: DocumentId)
    requires
        scopes.len() > 0,
        name.value != "_"@,
        bound(scopes, name, document) is Ok,
    ensures
        ({
            let after = bound(scopes, name, document)->Ok_0;
            &&& visible(after, after.len() as int, name.value) == Some(location_of(name, document))
            &&& visible(opened(after), opened(after).len() as int, name.value) == Some(location_of(name, document))
        }),
{
    let after = bound(scopes, name, document)->Ok_0;
    let last = scopes.len() - 1;
    let scope = scopes[last];
    lemma_hidden(scopes, scopes.len() as int, name.value);
    lemma_found_last(scope, 0, name.value, location_of(name, document));
    assert(opened(after)[after.len() as int] =~= Seq::<(Seq<char>, SourceLocation)>::empty());
    assert(in_scope(opened(after)[after.len() as int], 0, name.value) is None);
    lemma_same_prefix(after, opened(after), after.len() as int, name.value);
}

proof fn lemma_hidden(scopes: Scopes, count: int, name: Seq<char>)
    requires
        0 < count <= scopes.len(),
        visible(scopes, count, name) is None,
    ensures
        in_scope(scopes[count - 1], 0, name) is None,
{
}

proof fn lemma_found_last(scope: Seq<(Seq<char>, SourceLocation)>, from: int, name: Seq<char>, location: SourceLocation)
    requires
        0 <= from <= scope.len(),
        in_scope(scope, from, name) is None,
    ensures
        in_scope(scope.push((name, location)), from, name) == Some(location),
    decreases scope.len() - from,
{
    if from < scope.len() {
        assert(scope.push((name, location))[from] == scope[from]);
        lemma_found_last(scope, from + 1, name, location);
    }
}

proof fn lemma_same_prefix(short: Scopes, long: Scopes, count: int, name: Seq<char>)
    requires
        0 <= count <= short.len() <= long.len(),
        forall|k: int| 0 <= k < short.len() ==> short[k] == long[k],
    ensures
        visible(short, count, name) == visible(long, count, name),
    decreases count,
{
    if count > 0 {
        lemma_same_prefix(short, long, count - 1, name);
    }
}

} // verus!
