//! Compile-time forms: calls of `embed` and `template` are replaced by the data
//! of the files that they name.
use vstd::prelude::*;
use crate::ast::copy;
use crate::ast::surface::{
    Annotation, AnnotationKind, Constant, Definition, Expr, ExprField, ExprKind, Function, ImplItem, Literal,
    MatchCase,
    MethodBinding, Module, Spanned, Test, TopLevel,
};
use crate::ast::view::{
    self, AnnotationKindView, AnnotationView, ConstantView, DefinitionView, ExprFieldView, ExprKindView, ExprView,
    FunctionView, ImplItemView, LiteralView, MatchCaseView, MethodBindingView, ModuleView, TestView, TopLevelView,
};
use crate::frontend::compile_value::{fingerprint, load_typed_embed};
use crate::frontend::model::{EmbedFormat, FloatText, TemplateFailure};
use crate::frontend::template::load_typed_template;
use crate::frontend::view::{FloatTextView, TemplateFailureView};
use crate::text::same_text;

verus! {

/// A file that a compile-time form names: the path as it is written, the path
/// of the file itself, and its bytes.
#[derive(Debug)]
pub struct InputFile {
    pub requested: String,
    pub path: String,
    pub bytes: Vec<u8>,
}

pub struct InputFileView {
    pub requested: Seq<char>,
    pub path: Seq<char>,
    pub bytes: Seq<u8>,
}

/// What the forms of a module are filled from.
#[derive(Debug)]
pub struct Inputs {
    pub files: Vec<InputFile>,
    pub floats: Vec<FloatText>,
}

pub struct InputsView {
    pub files: Seq<InputFileView>,
    pub floats: Seq<FloatTextView>,
}

impl Inputs {
    pub open spec fn view(&self) -> InputsView {
        InputsView {
            files: Seq::new(
                self.files@.len(),
                |i: int|
                InputFileView {
                    requested: self.files@[i].requested@,
                    path: self.files@[i].path@,
                    bytes: self.files@[i].bytes@,
                },
            ),
            floats: crate::frontend::view::float_texts(self.floats@),
        }
    }
}

/// Why a form cannot be filled: an error, or an input that is still missing.
#[derive(Debug)]
pub enum InputFailure {
    Message(String),
    NeedsFile {
        path: String,
        template: bool,
    },
    NeedsFloatText(u64),
}

#[allow(inconsistent_fields)]
pub enum InputFailureView {
    Message(Seq<char>),
    NeedsFile { path: Seq<char>, template: bool },
    NeedsFloatText(u64),
}

impl InputFailure {
    pub open spec fn view(&self) -> InputFailureView {
        match *self {
            InputFailure::Message(message) => InputFailureView::Message(message@),
            InputFailure::NeedsFile { path, template } => InputFailureView::NeedsFile { path: path@, template },
            InputFailure::NeedsFloatText(bits) => InputFailureView::NeedsFloatText(bits),
        }
    }
}

/// The file that a path names.
pub open spec fn file_for(files: Seq<InputFileView>, from: int, path: Seq<char>) -> Option<InputFileView>
    decreases files.len() - from,
{
    if from < 0 || from >= files.len() {
        None
    } else if files[from].requested == path {
        Some(files[from])
    } else {
        file_for(files, from + 1, path)
    }
}

fn find_file<'a>(inputs: &'a Inputs, path: &str) -> (result: Option<&'a InputFile>)
    ensures
        file_for(inputs@.files, 0, path@) == (match result {
                Some(file) => Some(
                    InputFileView { requested: file.requested@, path: file.path@, bytes: file.bytes@ },
                ),
                None => None,
        }),
{
    let ghost all = inputs@.files;
    let mut i: usize = 0;
    while i < inputs.files.len()
        invariant
            i <= inputs.files.len(),
            all == inputs@.files,
            file_for(all, 0, path@) == file_for(all, i as int, path@),
        decreases inputs.files.len() - i,
    {
        assert(all[i as int].requested == inputs.files@[i as int].requested@);
        if same_text(inputs.files[i].requested.as_str(), path) {
            return Some(&inputs.files[i]);
        }
        i += 1;
    }
    None
}

/// The format that a name asks for.
pub open spec fn format_asked(name: Seq<char>) -> Option<EmbedFormat> {
    if name == "auto"@ {
        Some(EmbedFormat::Auto)
    } else if name == "text"@ {
        Some(EmbedFormat::Text)
    } else if name == "binary"@ {
        Some(EmbedFormat::Binary)
    } else if name == "json"@ {
        Some(EmbedFormat::Json)
    } else if name == "toml"@ {
        Some(EmbedFormat::Toml)
    } else if name == "xml"@ {
        Some(EmbedFormat::Xml)
    } else {
        None
    }
}

fn parse_format(name: &str) -> (result: Option<EmbedFormat>)
    ensures
        result == format_asked(name@),
{
    if same_text(name, "auto") {
        Some(EmbedFormat::Auto)
    } else if same_text(name, "text") {
        Some(EmbedFormat::Text)
    } else if same_text(name, "binary") {
        Some(EmbedFormat::Binary)
    } else if same_text(name, "json") {
        Some(EmbedFormat::Json)
    } else if same_text(name, "toml") {
        Some(EmbedFormat::Toml)
    } else if same_text(name, "xml") {
        Some(EmbedFormat::Xml)
    } else {
        None
    }
}

/// A compile-time form: an embedded file with its format, or a template with
/// its data.
#[allow(inconsistent_fields)]
pub enum FormView {
    Embed { path: Seq<char>, format: EmbedFormat },
    Template { path: Seq<char>, bindings: Seq<ExprFieldView> },
}

pub open spec fn text_in(expr: ExprView) -> Option<Seq<char>> {
    match expr.value {
        ExprKindView::Literal(LiteralView::String(text)) => Some(text),
        _ => None,
    }
}

pub open spec fn format_in(arguments: Seq<ExprView>) -> Option<EmbedFormat> {
    if arguments.len() == 1 {
        Some(EmbedFormat::Auto)
    } else if arguments.len() == 2 {
        match arguments[1].value {
            ExprKindView::Reference(name) => format_asked(name),
            _ => None,
        }
    } else {
        None
    }
}

pub open spec fn bindings_in(arguments: Seq<ExprView>) -> Option<Seq<ExprFieldView>> {
    if arguments.len() == 2 {
        match arguments[1].value {
            ExprKindView::Record(fields) => Some(fields),
            _ => None,
        }
    } else {
        None
    }
}

/// The compile-time form that an expression is, if it is one.
pub open spec fn form_of(expr: ExprView) -> Option<FormView> {
    match expr.value {
        ExprKindView::Call { callee, arguments } => if arguments.len() == 0 {
            None
        } else {
            match text_in(arguments[0]) {
                None => None,
                Some(path) => {
                    if callee.value == "embed"@ {
                        match format_in(arguments) {
                            None => None,
                            Some(format) => {
                                Some(FormView::Embed { path, format })

                            },
                        }
                    } else if callee.value == "template"@ {
                        match bindings_in(arguments) {
                            None => None,
                            Some(bindings) => {
                                Some(FormView::Template { path, bindings })

                            },
                        }
                    } else {
                        None
                    }

                },
            }
        },
        _ => None,
    }
}

/// An expression with the compile-time form that it is filled.
pub open spec fn filled(expr: ExprView, inputs: InputsView) -> Result<ExprView, InputFailureView> {
    match form_of(expr) {
        None => Ok(expr),
        Some(FormView::Embed { path, format }) => match file_for(inputs.files, 0, path) {
            None => Err(InputFailureView::NeedsFile { path, template: false }),
            Some(file) => match crate::frontend::compile_value::embedded_expr(
                file.path,
                format,
                file.bytes,
                expr.span,
                expr.origin,
            ) {
                Ok(data) => Ok(data),
                Err(message) => Err(InputFailureView::Message(message)),
            },
        },
        Some(FormView::Template { path, bindings }) => match file_for(inputs.files, 0, path) {
            None => Err(InputFailureView::NeedsFile { path, template: true }),
            Some(file) => match crate::frontend::template::template_text(file.bytes, bindings, inputs.floats) {
                Ok(text) => Ok(
                    crate::frontend::compile_value::data_expr(
                        crate::frontend::view::CompileValueView::String(text),
                        expr.span,
                        expr.origin,
                    ),
                ),
                Err(TemplateFailureView::Message(message)) => Err(InputFailureView::Message(message)),
                Err(TemplateFailureView::NeedsFloatText(bits)) => Err(InputFailureView::NeedsFloatText(bits)),
            },
        },
    }
}

pub open spec fn expr_outcome(result: Result<Expr, InputFailure>) -> Result<ExprView, InputFailureView> {
    match result {
        Ok(expr) => Ok(view::expr(expr)),
        Err(failure) => Err(failure@),
    }
}

fn literal_text(expr: &Expr) -> (result: Option<&String>)
    ensures
        text_in(view::expr(*expr)) == (match result {
                Some(text) => Some(text@),
                None => None,
        }),
{
    reveal(view::expr_kind);
    match &expr.value {
        ExprKind::Literal(Literal::String(text)) => Some(text),
        _ => None,
    }
}

fn requested_format(arguments: &Vec<Expr>) -> (result: Option<EmbedFormat>)
    ensures
        result == format_in(view::exprs(arguments@)),
{
    reveal(view::expr_kind);
    let ghost all = view::exprs(arguments@);
    assert(all.len() == arguments@.len());
    if arguments.len() == 1 {
        Some(EmbedFormat::Auto)
    } else if arguments.len() == 2 {
        assert(all[1] == view::expr(arguments@[1]));
        match &arguments[1].value {
            ExprKind::Reference(name) => parse_format(name.as_str()),
            _ => None,
        }
    } else {
        None
    }
}

fn template_bindings(arguments: &Vec<Expr>) -> (result: Option<&Vec<ExprField>>)
    ensures
        bindings_in(view::exprs(arguments@)) == (match result {
                Some(fields) => Some(view::expr_fields(fields@)),
                None => None,
        }),
{
    reveal(view::expr_kind);
    let ghost all = view::exprs(arguments@);
    assert(all.len() == arguments@.len());
    if arguments.len() == 2 {
        assert(all[1] == view::expr(arguments@[1]));
        match &arguments[1].value {
            ExprKind::Record(fields) => Some(fields),
            _ => None,
        }
    } else {
        None
    }
}

fn fill_embed(path: &str, format: EmbedFormat, expr: &Expr, inputs: &Inputs) -> (result: Result<Expr, InputFailure>)
    requires
        form_of(view::expr(*expr)) == Some(FormView::Embed { path: path@, format }),
    ensures
        expr_outcome(result) == filled(view::expr(*expr), inputs@),
{
    match find_file(inputs, path) {
        None => Err(InputFailure::NeedsFile { path: crate::text::owned(path), template: false }),
        Some(file) => match load_typed_embed(file.path.as_str(), format, &file.bytes, expr.span, &expr.origin) {
            Ok(data) => Ok(data.0),
            Err(message) => Err(InputFailure::Message(message)),
        },
    }
}

fn fill_template(path: &str, bindings: &Vec<ExprField>, expr: &Expr, inputs: &Inputs) -> (result: Result<
    Expr,
    InputFailure,
    >)
    requires
        form_of(view::expr(*expr)) == Some(
            FormView::Template { path: path@, bindings: view::expr_fields(bindings@) },
        ),
    ensures
        expr_outcome(result) == filled(view::expr(*expr), inputs@),
{
    match find_file(inputs, path) {
        None => Err(InputFailure::NeedsFile { path: crate::text::owned(path), template: true }),
        Some(file) => match load_typed_template(&file.bytes, bindings, &inputs.floats, expr.span, &expr.origin) {
            Ok(data) => Ok(data.0),
            Err(TemplateFailure::Message(message)) => Err(InputFailure::Message(message)),
            Err(TemplateFailure::NeedsFloatText(bits)) => Err(InputFailure::NeedsFloatText(bits)),
        },
    }
}

fn fill(expr: Expr, inputs: &Inputs) -> (result: Result<Expr, InputFailure>)
    ensures
        expr_outcome(result) == filled(view::expr(expr), inputs@),
{
    reveal(view::expr_kind);
    match &expr.value {
        ExprKind::Call { callee, arguments } => {
            let ghost all = view::exprs(arguments@);
            assert(all.len() == arguments@.len());
            if arguments.len() > 0 {
                assert(all[0] == view::expr(arguments@[0]));
                match literal_text(&arguments[0]) {
                    Some(path) => if same_text(callee.value.as_str(), "embed") {
                        match requested_format(arguments) {
                            Some(format) => return fill_embed(path.as_str(), format, &expr, inputs),
                            None => {}
                        }
                    } else if same_text(callee.value.as_str(), "template") {
                        match template_bindings(arguments) {
                            Some(bindings) => return fill_template(path.as_str(), bindings, &expr, inputs),
                            None => {}
                        }
                    },
                    None => {}
                }
            }
        }
        _ => {}
    }
    Ok(expr)
}

// Expressions.

/// Bindings, sequences and control flow.
pub open spec fn filled_control(value: ExprKindView, inputs: InputsView) -> Result<ExprKindView, InputFailureView>
    decreases value, 0int,
{
    match value {
        ExprKindView::Do(values) => match filled_exprs(values, 0, Seq::empty(), inputs) {
            Err(error) => Err(error),
            Ok(values) => Ok(ExprKindView::Do(values)),
        },
        ExprKindView::Let { name, ty, value } => match filled_expr(*value, inputs) {
            Err(error) => Err(error),
            Ok(value) => {
                let value = Box::new(value);
                Ok(ExprKindView::Let { name, ty, value })
            },
        },
        ExprKindView::Assign { name, value } => match filled_expr(*value, inputs) {
            Err(error) => Err(error),
            Ok(value) => {
                let value = Box::new(value);
                Ok(ExprKindView::Assign { name, value })
            },
        },
        ExprKindView::Return(value) => match filled_optional_expr(value, inputs) {
            Err(error) => Err(error),
            Ok(value) => Ok(ExprKindView::Return(value)),
        },
        ExprKindView::If { condition, then_body, else_body } => match filled_expr(*condition, inputs) {
            Err(error) => Err(error),
            Ok(condition) => {
                let condition = Box::new(condition);
                match filled_exprs(then_body, 0, Seq::empty(), inputs) {
                    Err(error) => Err(error),
                    Ok(then_body) => match filled_exprs(else_body, 0, Seq::empty(), inputs) {
                        Err(error) => Err(error),
                        Ok(else_body) => Ok(ExprKindView::If { condition, then_body, else_body }),
                    },
                }
            },
        },
        ExprKindView::While { condition, body } => match filled_expr(*condition, inputs) {
            Err(error) => Err(error),
            Ok(condition) => {
                let condition = Box::new(condition);
                match filled_exprs(body, 0, Seq::empty(), inputs) {
                    Err(error) => Err(error),
                    Ok(body) => Ok(ExprKindView::While { condition, body }),
                }
            },
        },
        ExprKindView::For { binding, source, body } => match filled_expr(*source, inputs) {
            Err(error) => Err(error),
            Ok(source) => {
                let source = Box::new(source);
                match filled_exprs(body, 0, Seq::empty(), inputs) {
                    Err(error) => Err(error),
                    Ok(body) => Ok(ExprKindView::For { binding, source, body }),
                }
            },
        },
        ExprKindView::Match { target, cases } => match filled_expr(*target, inputs) {
            Err(error) => Err(error),
            Ok(target) => {
                let target = Box::new(target);
                match filled_match_cases(cases, 0, Seq::empty(), inputs) {
                    Err(error) => Err(error),
                    Ok(cases) => Ok(ExprKindView::Match { target, cases }),
                }
            },
        },
        ExprKindView::Break => Ok(ExprKindView::Break),
        ExprKindView::Continue => Ok(ExprKindView::Continue),
        _ => Ok(value),
    }
}

/// Data construction and conversion.
pub open spec fn filled_data(value: ExprKindView, inputs: InputsView) -> Result<ExprKindView, InputFailureView>
    decreases value, 0int,
{
    match value {
        ExprKindView::Record(values) => match filled_expr_fields(values, 0, Seq::empty(), inputs) {
            Err(error) => Err(error),
            Ok(values) => Ok(ExprKindView::Record(values)),
        },
        ExprKindView::Tuple(values) => match filled_exprs(values, 0, Seq::empty(), inputs) {
            Err(error) => Err(error),
            Ok(values) => Ok(ExprKindView::Tuple(values)),
        },
        ExprKindView::Array(values) => match filled_exprs(values, 0, Seq::empty(), inputs) {
            Err(error) => Err(error),
            Ok(values) => Ok(ExprKindView::Array(values)),
        },
        ExprKindView::Mapping(values) => match filled_expr_pairs(values, 0, Seq::empty(), inputs) {
            Err(error) => Err(error),
            Ok(values) => Ok(ExprKindView::Mapping(values)),
        },
        ExprKindView::Mutable(value) => match filled_expr(*value, inputs) {
            Err(error) => Err(error),
            Ok(value) => {
                let value = Box::new(value);
                Ok(ExprKindView::Mutable(value))
            },
        },
        ExprKindView::ReferenceOf(value) => match filled_expr(*value, inputs) {
            Err(error) => Err(error),
            Ok(value) => {
                let value = Box::new(value);
                Ok(ExprKindView::ReferenceOf(value))
            },
        },
        ExprKindView::Range(first, second, third) => match filled_expr(*first, inputs) {
            Err(error) => Err(error),
            Ok(first) => {
                let first = Box::new(first);
                match filled_expr(*second, inputs) {
                    Err(error) => Err(error),
                    Ok(second) => {
                        let second = Box::new(second);
                        match filled_expr(*third, inputs) {
                            Err(error) => Err(error),
                            Ok(third) => {
                                let third = Box::new(third);
                                Ok(ExprKindView::Range(first, second, third))
                            },
                        }
                    },
                }
            },
        },
        ExprKindView::Convert { value, into, fallback } => match filled_expr(*value, inputs) {
            Err(error) => Err(error),
            Ok(value) => {
                let value = Box::new(value);
                Ok(ExprKindView::Convert { value, into, fallback })
            },
        },
        ExprKindView::Cast { value, into } => match filled_expr(*value, inputs) {
            Err(error) => Err(error),
            Ok(value) => {
                let value = Box::new(value);
                Ok(ExprKindView::Cast { value, into })
            },
        },
        _ => Ok(value),
    }
}

/// References, calls and tasks.
pub open spec fn filled_plain(value: ExprKindView, inputs: InputsView) -> Result<ExprKindView, InputFailureView>
    decreases value, 0int,
{
    match value {
        ExprKindView::Literal(value) => Ok(ExprKindView::Literal(value)),
        ExprKindView::Reference(value) => Ok(ExprKindView::Reference(value)),
        ExprKindView::Call { callee, arguments } => match filled_exprs(arguments, 0, Seq::empty(), inputs) {
            Err(error) => Err(error),
            Ok(arguments) => Ok(ExprKindView::Call { callee, arguments }),
        },
        ExprKindView::Task { captures, body } => match filled_exprs(body, 0, Seq::empty(), inputs) {
            Err(error) => Err(error),
            Ok(body) => Ok(ExprKindView::Task { captures, body }),
        },
        ExprKindView::Spawn { handle, captures, value } => match filled_expr(*value, inputs) {
            Err(error) => Err(error),
            Ok(value) => {
                let value = Box::new(value);
                Ok(ExprKindView::Spawn { handle, captures, value })
            },
        },
        ExprKindView::Join { handle, binding } => Ok(ExprKindView::Join { handle, binding }),
        _ => Ok(value),
    }
}

/// An expression with the forms below it filled, then itself.
pub open spec fn filled_expr(node: ExprView, inputs: InputsView) -> Result<ExprView, InputFailureView>
    decreases node, 0int,
{
    let rewritten = if node.value.is_control() {
        filled_control(node.value, inputs)
    } else if node.value.is_data() {
        filled_data(node.value, inputs)
    } else {
        filled_plain(node.value, inputs)
    };
    match rewritten {
        Err(error) => Err(error),
        Ok(value) => filled(Spanned { value, span: node.span, origin: node.origin }, inputs),
    }
}

fn fill_control(kind: &ExprKind, inputs: &Inputs) -> (result: Result<ExprKind, InputFailure>)
    requires
        view::expr_kind(*kind).is_control(),
    ensures
        match result {
            Ok(value) => filled_control(
                view::expr_kind(*kind),
                inputs@,
            ) == Ok::<ExprKindView, InputFailureView>(view::expr_kind(value)),
            Err(error) => filled_control(
                view::expr_kind(*kind),
                inputs@,
            ) == Err::<ExprKindView, InputFailureView>(error@),
        },
    decreases kind,
{
    reveal(view::expr_kind);
    match kind {
        ExprKind::Do(values) => match fill_exprs(values, inputs) {
            Err(error) => Err(error),
            Ok(values) => Ok(ExprKind::Do(values)),
        },
        ExprKind::Let { name, ty, value } => match fill_expr(value, inputs) {
            Err(error) => Err(error),
            Ok(value) => Ok(ExprKind::Let { name: copy::name(name), ty: match ty {
                        Some(inner) => Some(copy::type_expr(inner)),
                        None => None,
                    }, value: Box::new(value) }),
        },
        ExprKind::Assign { name, value } => match fill_expr(value, inputs) {
            Err(error) => Err(error),
            Ok(value) => Ok(ExprKind::Assign { name: copy::name(name), value: Box::new(value) }),
        },
        ExprKind::Return(value) => match fill_optional_expr(value, inputs) {
            Err(error) => Err(error),
            Ok(value) => Ok(ExprKind::Return(value)),
        },
        ExprKind::If { condition, then_body, else_body } => match fill_expr(condition, inputs) {
            Err(error) => Err(error),
            Ok(condition) => match fill_exprs(then_body, inputs) {
                Err(error) => Err(error),
                Ok(then_body) => match fill_exprs(else_body, inputs) {
                    Err(error) => Err(error),
                    Ok(else_body) => Ok(ExprKind::If { condition: Box::new(condition), then_body, else_body }),
                },
            },
        },
        ExprKind::While { condition, body } => match fill_expr(condition, inputs) {
            Err(error) => Err(error),
            Ok(condition) => match fill_exprs(body, inputs) {
                Err(error) => Err(error),
                Ok(body) => Ok(ExprKind::While { condition: Box::new(condition), body }),
            },
        },
        ExprKind::For { binding, source, body } => match fill_expr(source, inputs) {
            Err(error) => Err(error),
            Ok(source) => match fill_exprs(body, inputs) {
                Err(error) => Err(error),
                Ok(body) => Ok(ExprKind::For { binding: copy::name(binding), source: Box::new(source), body }),
            },
        },
        ExprKind::Match { target, cases } => match fill_expr(target, inputs) {
            Err(error) => Err(error),
            Ok(target) => match fill_match_cases(cases, inputs) {
                Err(error) => Err(error),
                Ok(cases) => Ok(ExprKind::Match { target: Box::new(target), cases }),
            },
        },
        ExprKind::Break => Ok(ExprKind::Break),
        ExprKind::Continue => Ok(ExprKind::Continue),
        _ => Ok(copy::expr_kind(kind)),
    }
}

fn fill_data(kind: &ExprKind, inputs: &Inputs) -> (result: Result<ExprKind, InputFailure>)
    requires
        view::expr_kind(*kind).is_data(),
    ensures
        match result {
            Ok(value) => filled_data(
                view::expr_kind(*kind),
                inputs@,
            ) == Ok::<ExprKindView, InputFailureView>(view::expr_kind(value)),
            Err(error) => filled_data(
                view::expr_kind(*kind),
                inputs@,
            ) == Err::<ExprKindView, InputFailureView>(error@),
        },
    decreases kind,
{
    reveal(view::expr_kind);
    match kind {
        ExprKind::Record(values) => match fill_expr_fields(values, inputs) {
            Err(error) => Err(error),
            Ok(values) => Ok(ExprKind::Record(values)),
        },
        ExprKind::Tuple(values) => match fill_exprs(values, inputs) {
            Err(error) => Err(error),
            Ok(values) => Ok(ExprKind::Tuple(values)),
        },
        ExprKind::Array(values) => match fill_exprs(values, inputs) {
            Err(error) => Err(error),
            Ok(values) => Ok(ExprKind::Array(values)),
        },
        ExprKind::Mapping(values) => match fill_expr_pairs(values, inputs) {
            Err(error) => Err(error),
            Ok(values) => Ok(ExprKind::Mapping(values)),
        },
        ExprKind::Mutable(value) => match fill_expr(value, inputs) {
            Err(error) => Err(error),
            Ok(value) => Ok(ExprKind::Mutable(Box::new(value))),
        },
        ExprKind::ReferenceOf(value) => match fill_expr(value, inputs) {
            Err(error) => Err(error),
            Ok(value) => Ok(ExprKind::ReferenceOf(Box::new(value))),
        },
        ExprKind::Range(first, second, third) => match fill_expr(first, inputs) {
            Err(error) => Err(error),
            Ok(first) => match fill_expr(second, inputs) {
                Err(error) => Err(error),
                Ok(second) => match fill_expr(third, inputs) {
                    Err(error) => Err(error),
                    Ok(third) => Ok(ExprKind::Range(Box::new(first), Box::new(second), Box::new(third))),
                },
            },
        },
        ExprKind::Convert { value, into, fallback } => match fill_expr(value, inputs) {
            Err(error) => Err(error),
            Ok(value) => Ok(
                ExprKind::Convert { value: Box::new(value), into: copy::type_expr(into), fallback: copy::literal(fallback) },
            ),
        },
        ExprKind::Cast { value, into } => match fill_expr(value, inputs) {
            Err(error) => Err(error),
            Ok(value) => Ok(ExprKind::Cast { value: Box::new(value), into: copy::type_expr(into) }),
        },
        _ => Ok(copy::expr_kind(kind)),
    }
}

fn fill_plain(kind: &ExprKind, inputs: &Inputs) -> (result: Result<ExprKind, InputFailure>)
    requires
        !view::expr_kind(*kind).is_control(),
        !view::expr_kind(*kind).is_data(),
    ensures
        match result {
            Ok(value) => filled_plain(
                view::expr_kind(*kind),
                inputs@,
            ) == Ok::<ExprKindView, InputFailureView>(view::expr_kind(value)),
            Err(error) => filled_plain(
                view::expr_kind(*kind),
                inputs@,
            ) == Err::<ExprKindView, InputFailureView>(error@),
        },
    decreases kind,
{
    reveal(view::expr_kind);
    match kind {
        ExprKind::Literal(value) => Ok(ExprKind::Literal(copy::literal(value))),
        ExprKind::Reference(value) => Ok(ExprKind::Reference(value.clone())),
        ExprKind::Call { callee, arguments } => match fill_exprs(arguments, inputs) {
            Err(error) => Err(error),
            Ok(arguments) => Ok(ExprKind::Call { callee: copy::name(callee), arguments }),
        },
        ExprKind::Task { captures, body } => match fill_exprs(body, inputs) {
            Err(error) => Err(error),
            Ok(body) => Ok(ExprKind::Task { captures: copy::names(captures), body }),
        },
        ExprKind::Spawn { handle, captures, value } => match fill_expr(value, inputs) {
            Err(error) => Err(error),
            Ok(value) => Ok(
                ExprKind::Spawn { handle: copy::name(handle), captures: copy::names(captures), value: Box::new(value) },
            ),
        },
        ExprKind::Join { handle, binding } => Ok(
            ExprKind::Join { handle: copy::name(handle), binding: copy::name(binding) },
        ),
        _ => Ok(copy::expr_kind(kind)),
    }
}

fn fill_expr(node: &Expr, inputs: &Inputs) -> (result: Result<Expr, InputFailure>)
    ensures
        match result {
            Ok(value) => filled_expr(
                view::expr(*node),
                inputs@,
            ) == Ok::<ExprView, InputFailureView>(view::expr(value)),
            Err(error) => filled_expr(view::expr(*node), inputs@) == Err::<ExprView, InputFailureView>(error@),
        },
    decreases node,
{
    reveal(view::expr_kind);
    let rewritten = if node.value.is_control() {
        fill_control(&node.value, inputs)
    } else if node.value.is_data() {
        fill_data(&node.value, inputs)
    } else {
        fill_plain(&node.value, inputs)
    };
    match rewritten {
        Err(error) => Err(error),
        Ok(value) => fill(Spanned { value, span: node.span, origin: node.origin.copy() }, inputs),
    }
}

pub open spec fn filled_optional_expr(
    node: Option<Box<ExprView>>,
    inputs: InputsView,
) -> Result<Option<Box<ExprView>>, InputFailureView>
    decreases node, 0int,
{
    match node {
        None => Ok(None),
        Some(inner) => match filled_expr(*inner, inputs) {
            Err(error) => Err(error),
            Ok(inner) => Ok(Some(Box::new(inner))),
        },
    }
}

fn fill_optional_expr(node: &Option<Box<Expr>>, inputs: &Inputs) -> (result: Result<Option<Box<Expr>>, InputFailure>)
    ensures
        match result {
            Ok(value) => filled_optional_expr(match *node {
                    None => None,
                    Some(inner) => Some(Box::new(view::expr(*inner))),
                }, inputs@) == Ok::<Option<Box<ExprView>>, InputFailureView>(match value { None => None, Some(inner) => Some(Box::new(view::expr(*inner))) }),
            Err(error) => filled_optional_expr(match *node {
                    None => None,
                    Some(inner) => Some(Box::new(view::expr(*inner))),
                }, inputs@) == Err::<Option<Box<ExprView>>, InputFailureView>(error@),
        },
    decreases node,
{
    match node {
        None => Ok(None),
        Some(inner) => {
            let inner = match fill_expr(inner, inputs) {
                Ok(value) => value,
                Err(error) => return Err(error),
            };
            Ok(Some(Box::new(inner)))
        }
    }
}

pub open spec fn filled_exprs(
    nodes: Seq<ExprView>,
    from: int,
    done: Seq<ExprView>,
    inputs: InputsView,
) -> Result<Seq<ExprView>, InputFailureView>
    decreases nodes, nodes.len() - from,
{
    if from < 0 || from >= nodes.len() {
        Ok(done)
    } else {
        match filled_expr(nodes[from], inputs) {
            Err(error) => Err(error),
            Ok(value) => filled_exprs(nodes, from + 1, done.push(value), inputs),
        }
    }
}

fn fill_exprs(nodes: &Vec<Expr>, inputs: &Inputs) -> (result: Result<Vec<Expr>, InputFailure>)
    ensures
        match result {
            Ok(value) => filled_exprs(
                view::exprs(nodes@),
                0,
                Seq::empty(),
                inputs@,
            ) == Ok::<Seq<ExprView>, InputFailureView>(view::exprs(value@)),
            Err(error) => filled_exprs(
                view::exprs(nodes@),
                0,
                Seq::empty(),
                inputs@,
            ) == Err::<Seq<ExprView>, InputFailureView>(error@),
        },
    decreases nodes,
{
    let ghost all = view::exprs(nodes@);
    let mut done: Vec<Expr> = Vec::new();
    let mut i: usize = 0;
    assert(view::exprs(done@) =~= Seq::<ExprView>::empty());
    while i < nodes.len()
        invariant
            i <= nodes.len(),
            all == view::exprs(nodes@),
            filled_exprs(all, 0, Seq::empty(), inputs@) == filled_exprs(all, i as int, view::exprs(done@), inputs@),
        decreases nodes.len() - i,
    {
        let ghost before = done@;
        assert(all[i as int] == view::expr(nodes@[i as int]));
        let value = match fill_expr(&nodes[i], inputs) {
            Ok(value) => value,
            Err(error) => return Err(error),
        };
        done.push(value);
        proof {
            view::lemma_exprs_push(before, done@.last());
        }
        i += 1;
    }
    Ok(done)
}

pub open spec fn filled_expr_field(node: ExprFieldView, inputs: InputsView) -> Result<ExprFieldView, InputFailureView>
    decreases node, 0int,
{
    match filled_expr(node.value, inputs) {
        Err(error) => Err(error),
        Ok(value) => Ok(ExprFieldView { name: node.name, value, span: node.span }),
    }
}

fn fill_expr_field(node: &ExprField, inputs: &Inputs) -> (result: Result<ExprField, InputFailure>)
    ensures
        match result {
            Ok(value) => filled_expr_field(
                view::expr_field(*node),
                inputs@,
            ) == Ok::<ExprFieldView, InputFailureView>(view::expr_field(value)),
            Err(error) => filled_expr_field(
                view::expr_field(*node),
                inputs@,
            ) == Err::<ExprFieldView, InputFailureView>(error@),
        },
    decreases node,
{
    let value = match fill_expr(&node.value, inputs) {
        Ok(value) => value,
        Err(error) => return Err(error),
    };
    Ok(ExprField { name: copy::name(&node.name), value, span: node.span })
}

pub open spec fn filled_expr_fields(
    nodes: Seq<ExprFieldView>,
    from: int,
    done: Seq<ExprFieldView>,
    inputs: InputsView,
) -> Result<Seq<ExprFieldView>, InputFailureView>
    decreases nodes, nodes.len() - from,
{
    if from < 0 || from >= nodes.len() {
        Ok(done)
    } else {
        match filled_expr_field(nodes[from], inputs) {
            Err(error) => Err(error),
            Ok(value) => filled_expr_fields(nodes, from + 1, done.push(value), inputs),
        }
    }
}

fn fill_expr_fields(nodes: &Vec<ExprField>, inputs: &Inputs) -> (result: Result<Vec<ExprField>, InputFailure>)
    ensures
        match result {
            Ok(value) => filled_expr_fields(
                view::expr_fields(nodes@),
                0,
                Seq::empty(),
                inputs@,
            ) == Ok::<Seq<ExprFieldView>, InputFailureView>(view::expr_fields(value@)),
            Err(error) => filled_expr_fields(
                view::expr_fields(nodes@),
                0,
                Seq::empty(),
                inputs@,
            ) == Err::<Seq<ExprFieldView>, InputFailureView>(error@),
        },
    decreases nodes,
{
    let ghost all = view::expr_fields(nodes@);
    let mut done: Vec<ExprField> = Vec::new();
    let mut i: usize = 0;
    assert(view::expr_fields(done@) =~= Seq::<ExprFieldView>::empty());
    while i < nodes.len()
        invariant
            i <= nodes.len(),
            all == view::expr_fields(nodes@),
            filled_expr_fields(all, 0, Seq::empty(), inputs@) == filled_expr_fields(
                all,
                i as int,
                view::expr_fields(done@),
                inputs@,
            ),
        decreases nodes.len() - i,
    {
        let ghost before = done@;
        assert(all[i as int] == view::expr_field(nodes@[i as int]));
        let value = match fill_expr_field(&nodes[i], inputs) {
            Ok(value) => value,
            Err(error) => return Err(error),
        };
        done.push(value);
        proof {
            view::lemma_expr_fields_push(before, done@.last());
        }
        i += 1;
    }
    Ok(done)
}

pub open spec fn filled_expr_pair(
    node: (ExprView, ExprView),
    inputs: InputsView,
) -> Result<(ExprView, ExprView), InputFailureView>
    decreases node, 0int,
{
    match filled_expr(node.0, inputs) {
        Err(error) => Err(error),
        Ok(key) => match filled_expr(node.1, inputs) {
            Err(error) => Err(error),
            Ok(value) => Ok((key, value)),
        },
    }
}

fn fill_expr_pair(node: &(Expr, Expr), inputs: &Inputs) -> (result: Result<(Expr, Expr), InputFailure>)
    ensures
        match result {
            Ok(value) => filled_expr_pair(
                (view::expr(node.0), view::expr(node.1)),
                inputs@,
            ) == Ok::<(ExprView, ExprView), InputFailureView>((view::expr(value.0), view::expr(value.1))),
            Err(error) => filled_expr_pair(
                (view::expr(node.0), view::expr(node.1)),
                inputs@,
            ) == Err::<(ExprView, ExprView), InputFailureView>(error@),
        },
    decreases node,
{
    let key = match fill_expr(&node.0, inputs) {
        Ok(value) => value,
        Err(error) => return Err(error),
    };
    let value = match fill_expr(&node.1, inputs) {
        Ok(value) => value,
        Err(error) => return Err(error),
    };
    Ok((key, value))
}

pub open spec fn filled_expr_pairs(
    nodes: Seq<(ExprView, ExprView)>,
    from: int,
    done: Seq<(ExprView, ExprView)>,
    inputs: InputsView,
) -> Result<Seq<(ExprView, ExprView)>, InputFailureView>
    decreases nodes, nodes.len() - from,
{
    if from < 0 || from >= nodes.len() {
        Ok(done)
    } else {
        match filled_expr_pair(nodes[from], inputs) {
            Err(error) => Err(error),
            Ok(value) => filled_expr_pairs(nodes, from + 1, done.push(value), inputs),
        }
    }
}

fn fill_expr_pairs(nodes: &Vec<(Expr, Expr)>, inputs: &Inputs) -> (result: Result<Vec<(Expr, Expr)>, InputFailure>)
    ensures
        match result {
            Ok(value) => filled_expr_pairs(
                view::expr_pairs(nodes@),
                0,
                Seq::empty(),
                inputs@,
            ) == Ok::<Seq<(ExprView, ExprView)>, InputFailureView>(view::expr_pairs(value@)),
            Err(error) => filled_expr_pairs(
                view::expr_pairs(nodes@),
                0,
                Seq::empty(),
                inputs@,
            ) == Err::<Seq<(ExprView, ExprView)>, InputFailureView>(error@),
        },
    decreases nodes,
{
    let ghost all = view::expr_pairs(nodes@);
    let mut done: Vec<(Expr, Expr)> = Vec::new();
    let mut i: usize = 0;
    assert(view::expr_pairs(done@) =~= Seq::<(ExprView, ExprView)>::empty());
    while i < nodes.len()
        invariant
            i <= nodes.len(),
            all == view::expr_pairs(nodes@),
            filled_expr_pairs(all, 0, Seq::empty(), inputs@) == filled_expr_pairs(
                all,
                i as int,
                view::expr_pairs(done@),
                inputs@,
            ),
        decreases nodes.len() - i,
    {
        let ghost before = done@;
        assert(all[i as int] == (view::expr(nodes@[i as int].0), view::expr(nodes@[i as int].1)));
        let value = match fill_expr_pair(&nodes[i], inputs) {
            Ok(value) => value,
            Err(error) => return Err(error),
        };
        done.push(value);
        proof {
            view::lemma_expr_pairs_push(before, done@.last());
        }
        i += 1;
    }
    Ok(done)
}

pub open spec fn filled_match_case(node: MatchCaseView, inputs: InputsView) -> Result<MatchCaseView, InputFailureView>
    decreases node, 0int,
{
    match filled_exprs(node.body, 0, Seq::empty(), inputs) {
        Err(error) => Err(error),
        Ok(body) => Ok(MatchCaseView { pattern: node.pattern, body, span: node.span }),
    }
}

fn fill_match_case(node: &MatchCase, inputs: &Inputs) -> (result: Result<MatchCase, InputFailure>)
    ensures
        match result {
            Ok(value) => filled_match_case(
                view::match_case(*node),
                inputs@,
            ) == Ok::<MatchCaseView, InputFailureView>(view::match_case(value)),
            Err(error) => filled_match_case(
                view::match_case(*node),
                inputs@,
            ) == Err::<MatchCaseView, InputFailureView>(error@),
        },
    decreases node,
{
    let body = match fill_exprs(&node.body, inputs) {
        Ok(value) => value,
        Err(error) => return Err(error),
    };
    Ok(MatchCase { pattern: copy::pattern(&node.pattern), body, span: node.span })
}

pub open spec fn filled_match_cases(
    nodes: Seq<MatchCaseView>,
    from: int,
    done: Seq<MatchCaseView>,
    inputs: InputsView,
) -> Result<Seq<MatchCaseView>, InputFailureView>
    decreases nodes, nodes.len() - from,
{
    if from < 0 || from >= nodes.len() {
        Ok(done)
    } else {
        match filled_match_case(nodes[from], inputs) {
            Err(error) => Err(error),
            Ok(value) => filled_match_cases(nodes, from + 1, done.push(value), inputs),
        }
    }
}

fn fill_match_cases(nodes: &Vec<MatchCase>, inputs: &Inputs) -> (result: Result<Vec<MatchCase>, InputFailure>)
    ensures
        match result {
            Ok(value) => filled_match_cases(
                view::match_cases(nodes@),
                0,
                Seq::empty(),
                inputs@,
            ) == Ok::<Seq<MatchCaseView>, InputFailureView>(view::match_cases(value@)),
            Err(error) => filled_match_cases(
                view::match_cases(nodes@),
                0,
                Seq::empty(),
                inputs@,
            ) == Err::<Seq<MatchCaseView>, InputFailureView>(error@),
        },
    decreases nodes,
{
    let ghost all = view::match_cases(nodes@);
    let mut done: Vec<MatchCase> = Vec::new();
    let mut i: usize = 0;
    assert(view::match_cases(done@) =~= Seq::<MatchCaseView>::empty());
    while i < nodes.len()
        invariant
            i <= nodes.len(),
            all == view::match_cases(nodes@),
            filled_match_cases(all, 0, Seq::empty(), inputs@) == filled_match_cases(
                all,
                i as int,
                view::match_cases(done@),
                inputs@,
            ),
        decreases nodes.len() - i,
    {
        let ghost before = done@;
        assert(all[i as int] == view::match_case(nodes@[i as int]));
        let value = match fill_match_case(&nodes[i], inputs) {
            Ok(value) => value,
            Err(error) => return Err(error),
        };
        done.push(value);
        proof {
            view::lemma_match_cases_push(before, done@.last());
        }
        i += 1;
    }
    Ok(done)
}

// Functions and annotations.

/// A function with the forms in its body and its annotations filled.
pub open spec fn filled_function(node: FunctionView, inputs: InputsView) -> Result<FunctionView, InputFailureView>
    decreases node, 0int,
{
    match filled_exprs(node.body, 0, Seq::empty(), inputs) {
        Err(error) => Err(error),
        Ok(body) => {
            match filled_annotations(node.annotations, 0, Seq::empty(), inputs) {
                Err(error) => Err(error),
                Ok(annotations) => {
                    Ok(FunctionView { body, annotations, ..node })

                },
            }

        },
    }
}

pub open spec fn filled_impl_item(node: ImplItemView, inputs: InputsView) -> Result<ImplItemView, InputFailureView>
    decreases node, 0int,
{
    match node {
        ImplItemView::Method { name, binding: MethodBindingView::Function(function), span } => {
            match filled_function(function, inputs) {
                Err(error) => Err(error),
                Ok(function) => {
                    Ok(ImplItemView::Method { name, binding: MethodBindingView::Function(function), span })

                },
            }
        },
        _ => Ok(node),
    }
}

pub open spec fn filled_annotation(
    node: AnnotationView,
    inputs: InputsView,
) -> Result<AnnotationView, InputFailureView>
    decreases node, 0int,
{
    match node.value {
        AnnotationKindView::Definitions(functions) => {
            match filled_functions(functions, 0, Seq::empty(), inputs) {
                Err(error) => Err(error),
                Ok(functions) => {
                    Ok(
                        Spanned { value: AnnotationKindView::Definitions(functions), span: node.span, origin: node.origin },
                    )

                },
            }
        },
        AnnotationKindView::Implementation { interface, items } => {
            match filled_impl_items(items, 0, Seq::empty(), inputs) {
                Err(error) => Err(error),
                Ok(items) => {
                    Ok(
                        Spanned {
                            value: AnnotationKindView::Implementation { interface, items },
                            span: node.span,
                            origin: node.origin,
                        },
                    )

                },
            }
        },
        _ => Ok(node),
    }
}

fn fill_function(node: &Function, inputs: &Inputs) -> (result: Result<Function, InputFailure>)
    ensures
        filled_function(view::function(*node), inputs@) == (match result {
                Ok(value) => Ok(view::function(value)),
                Err(error) => Err(error@),
        }),
    decreases node,
{
    let body = match fill_exprs(&node.body, inputs) {
        Ok(value) => value,
        Err(error) => return Err(error),
    };
    let annotations = match fill_annotations(&node.annotations, inputs) {
        Ok(value) => value,
        Err(error) => return Err(error),
    };
    Ok(
        Function {
            visibility: node.visibility,
            name: copy::name(&node.name),
            parameters: copy::parameters(&node.parameters),
            return_type: copy::type_expr(&node.return_type),
            body,
            annotations,
            span: node.span,
            origin: node.origin.copy(),
        },
    )
}

fn fill_impl_item(node: &ImplItem, inputs: &Inputs) -> (result: Result<ImplItem, InputFailure>)
    ensures
        filled_impl_item(view::impl_item(*node), inputs@) == (match result {
                Ok(value) => Ok(view::impl_item(value)),
                Err(error) => Err(error@),
        }),
    decreases node,
{
    match node {
        ImplItem::Method { name, binding, span } => match binding {
            MethodBinding::Function(function) => {
                let function = match fill_function(function, inputs) {
                    Ok(value) => value,
                    Err(error) => return Err(error),
                };
                Ok(
                    ImplItem::Method { name: copy::name(name), binding: MethodBinding::Function(function), span: *span },
                )
            }
            _ => Ok(copy::impl_item(node)),
        },
        _ => Ok(copy::impl_item(node)),
    }
}

fn fill_annotation(node: &Annotation, inputs: &Inputs) -> (result: Result<Annotation, InputFailure>)
    ensures
        filled_annotation(view::annotation(*node), inputs@) == (match result {
                Ok(value) => Ok(view::annotation(value)),
                Err(error) => Err(error@),
        }),
    decreases node,
{
    reveal(view::annotation_kind);
    match &node.value {
        AnnotationKind::Definitions(functions) => {
            let functions = match fill_functions(functions, inputs) {
                Ok(value) => value,
                Err(error) => return Err(error),
            };
            Ok(Spanned { value: AnnotationKind::Definitions(functions), span: node.span, origin: node.origin.copy() })
        }
        AnnotationKind::Implementation { interface, items } => {
            let items = match fill_impl_items(items, inputs) {
                Ok(value) => value,
                Err(error) => return Err(error),
            };
            Ok(
                Spanned {
                    value: AnnotationKind::Implementation { interface: copy::type_expr(interface), items },
                    span: node.span,
                    origin: node.origin.copy(),
                },
            )
        }
        _ => Ok(copy::annotation(node)),
    }
}

pub open spec fn filled_functions(
    nodes: Seq<FunctionView>,
    from: int,
    done: Seq<FunctionView>,
    inputs: InputsView,
) -> Result<
Seq<FunctionView>,
InputFailureView,
>
    decreases nodes, nodes.len() - from,
{
    if from < 0 || from >= nodes.len() {
        Ok(done)
    } else {
        match filled_function(nodes[from], inputs) {
            Err(error) => Err(error),
            Ok(value) => filled_functions(nodes, from + 1, done.push(value), inputs),
        }
    }
}

fn fill_functions(nodes: &Vec<Function>, inputs: &Inputs) -> (result: Result<Vec<Function>, InputFailure>)
    ensures
        filled_functions(view::functions(nodes@), 0, Seq::empty(), inputs@) == (match result {
                Ok(value) => Ok(view::functions(value@)),
                Err(error) => Err(error@),
        }),
    decreases nodes,
{
    let ghost all = view::functions(nodes@);
    let mut done: Vec<Function> = Vec::new();
    let mut i: usize = 0;
    assert(view::functions(done@) =~= Seq::<FunctionView>::empty());
    while i < nodes.len()
        invariant
            i <= nodes.len(),
            all == view::functions(nodes@),
            filled_functions(all, 0, Seq::empty(), inputs@) == filled_functions(
                all,
                i as int,
                view::functions(done@),
                inputs@,
            ),
        decreases nodes.len() - i,
    {
        let ghost before = done@;
        assert(all[i as int] == view::function(nodes@[i as int]));
        let value = match fill_function(&nodes[i], inputs) {
            Ok(value) => value,
            Err(error) => return Err(error),
        };
        done.push(value);
        proof {
            view::lemma_functions_push(before, done@.last());
        }
        i += 1;
    }
    Ok(done)
}

pub open spec fn filled_impl_items(
    nodes: Seq<ImplItemView>,
    from: int,
    done: Seq<ImplItemView>,
    inputs: InputsView,
) -> Result<
Seq<ImplItemView>,
InputFailureView,
>
    decreases nodes, nodes.len() - from,
{
    if from < 0 || from >= nodes.len() {
        Ok(done)
    } else {
        match filled_impl_item(nodes[from], inputs) {
            Err(error) => Err(error),
            Ok(value) => filled_impl_items(nodes, from + 1, done.push(value), inputs),
        }
    }
}

fn fill_impl_items(nodes: &Vec<ImplItem>, inputs: &Inputs) -> (result: Result<Vec<ImplItem>, InputFailure>)
    ensures
        filled_impl_items(view::impl_items(nodes@), 0, Seq::empty(), inputs@) == (match result {
                Ok(value) => Ok(view::impl_items(value@)),
                Err(error) => Err(error@),
        }),
    decreases nodes,
{
    let ghost all = view::impl_items(nodes@);
    let mut done: Vec<ImplItem> = Vec::new();
    let mut i: usize = 0;
    assert(view::impl_items(done@) =~= Seq::<ImplItemView>::empty());
    while i < nodes.len()
        invariant
            i <= nodes.len(),
            all == view::impl_items(nodes@),
            filled_impl_items(all, 0, Seq::empty(), inputs@) == filled_impl_items(
                all,
                i as int,
                view::impl_items(done@),
                inputs@,
            ),
        decreases nodes.len() - i,
    {
        let ghost before = done@;
        assert(all[i as int] == view::impl_item(nodes@[i as int]));
        let value = match fill_impl_item(&nodes[i], inputs) {
            Ok(value) => value,
            Err(error) => return Err(error),
        };
        done.push(value);
        proof {
            view::lemma_impl_items_push(before, done@.last());
        }
        i += 1;
    }
    Ok(done)
}

pub open spec fn filled_annotations(
    nodes: Seq<AnnotationView>,
    from: int,
    done: Seq<AnnotationView>,
    inputs: InputsView,
) -> Result<
Seq<AnnotationView>,
InputFailureView,
>
    decreases nodes, nodes.len() - from,
{
    if from < 0 || from >= nodes.len() {
        Ok(done)
    } else {
        match filled_annotation(nodes[from], inputs) {
            Err(error) => Err(error),
            Ok(value) => filled_annotations(nodes, from + 1, done.push(value), inputs),
        }
    }
}

fn fill_annotations(nodes: &Vec<Annotation>, inputs: &Inputs) -> (result: Result<Vec<Annotation>, InputFailure>)
    ensures
        filled_annotations(view::annotations(nodes@), 0, Seq::empty(), inputs@) == (match result {
                Ok(value) => Ok(view::annotations(value@)),
                Err(error) => Err(error@),
        }),
    decreases nodes,
{
    let ghost all = view::annotations(nodes@);
    let mut done: Vec<Annotation> = Vec::new();
    let mut i: usize = 0;
    assert(view::annotations(done@) =~= Seq::<AnnotationView>::empty());
    while i < nodes.len()
        invariant
            i <= nodes.len(),
            all == view::annotations(nodes@),
            filled_annotations(all, 0, Seq::empty(), inputs@) == filled_annotations(
                all,
                i as int,
                view::annotations(done@),
                inputs@,
            ),
        decreases nodes.len() - i,
    {
        let ghost before = done@;
        assert(all[i as int] == view::annotation(nodes@[i as int]));
        let value = match fill_annotation(&nodes[i], inputs) {
            Ok(value) => value,
            Err(error) => return Err(error),
        };
        done.push(value);
        proof {
            view::lemma_annotations_push(before, done@.last());
        }
        i += 1;
    }
    Ok(done)
}

// Modules.

/// A top-level form with the compile-time forms in it filled.
pub open spec fn filled_top_level(node: TopLevelView, inputs: InputsView) -> Result<TopLevelView, InputFailureView> {
    match node {
        TopLevelView::Constant(constant) => {
            match filled_expr(constant.value, inputs) {
                Err(error) => Err(error),
                Ok(value) => {
                    match filled_annotations(constant.annotations, 0, Seq::empty(), inputs) {
                        Err(error) => Err(error),
                        Ok(annotations) => {
                            Ok(TopLevelView::Constant(ConstantView { value, annotations, ..constant }))

                        },
                    }

                },
            }
        },
        TopLevelView::Function(function) => {
            match filled_function(function, inputs) {
                Err(error) => Err(error),
                Ok(function) => {
                    Ok(TopLevelView::Function(function))

                },
            }
        },
        TopLevelView::Test(test) => {
            match filled_exprs(test.body, 0, Seq::empty(), inputs) {
                Err(error) => Err(error),
                Ok(body) => {
                    Ok(TopLevelView::Test(TestView { body, ..test }))

                },
            }
        },
        TopLevelView::Definition(definition) => {
            match filled_annotations(definition.annotations, 0, Seq::empty(), inputs) {
                Err(error) => Err(error),
                Ok(annotations) => {
                    Ok(TopLevelView::Definition(DefinitionView { annotations, ..definition }))

                },
            }
        },
        TopLevelView::Import(_) | TopLevelView::Macro(_) => Ok(node),
    }
}

fn fill_top_level(node: &TopLevel, inputs: &Inputs) -> (result: Result<TopLevel, InputFailure>)
    ensures
        filled_top_level(view::top_level(*node), inputs@) == (match result {
                Ok(value) => Ok(view::top_level(value)),
                Err(error) => Err(error@),
        }),
{
    reveal(view::top_level);
    match node {
        TopLevel::Constant(constant) => {
            let value = match fill_expr(&constant.value, inputs) {
                Ok(value) => value,
                Err(error) => return Err(error),
            };
            let annotations = match fill_annotations(&constant.annotations, inputs) {
                Ok(value) => value,
                Err(error) => return Err(error),
            };
            Ok(
                TopLevel::Constant(
                    Constant {
                        visibility: constant.visibility,
                        name: copy::name(&constant.name),
                        ty: copy::type_expr(&constant.ty),
                        value,
                        annotations,
                        span: constant.span,
                        origin: constant.origin.copy(),
                    },
                ),
            )
        }
        TopLevel::Function(function) => {
            let function = match fill_function(function, inputs) {
                Ok(value) => value,
                Err(error) => return Err(error),
            };
            Ok(TopLevel::Function(function))
        }
        TopLevel::Test(test) => {
            let body = match fill_exprs(&test.body, inputs) {
                Ok(value) => value,
                Err(error) => return Err(error),
            };
            Ok(
                TopLevel::Test(
                    Test {
                        name: copy::name(&test.name),
                        profile: copy::name(&test.profile),
                        body,
                        metadata: copy::test_metas(&test.metadata),
                        span: test.span,
                        origin: test.origin.copy(),
                    },
                ),
            )
        }
        TopLevel::Definition(definition) => {
            let annotations = match fill_annotations(&definition.annotations, inputs) {
                Ok(value) => value,
                Err(error) => return Err(error),
            };
            Ok(
                TopLevel::Definition(
                    Definition {
                        visibility: definition.visibility,
                        name: copy::name(&definition.name),
                        body: copy::type_expr(&definition.body),
                        annotations,
                        span: definition.span,
                        origin: definition.origin.copy(),
                    },
                ),
            )
        }
        TopLevel::Import(_) | TopLevel::Macro(_) => Ok(copy::top_level(node)),
    }
}

pub open spec fn filled_top_levels(
    nodes: Seq<TopLevelView>,
    from: int,
    done: Seq<TopLevelView>,
    inputs: InputsView,
) -> Result<
Seq<TopLevelView>,
InputFailureView,
>
    decreases nodes.len() - from,
{
    if from < 0 || from >= nodes.len() {
        Ok(done)
    } else {
        match filled_top_level(nodes[from], inputs) {
            Err(error) => Err(error),
            Ok(value) => filled_top_levels(nodes, from + 1, done.push(value), inputs),
        }
    }
}

fn fill_top_levels(nodes: &Vec<TopLevel>, inputs: &Inputs) -> (result: Result<Vec<TopLevel>, InputFailure>)
    ensures
        filled_top_levels(view::top_levels(nodes@), 0, Seq::empty(), inputs@) == (match result {
                Ok(value) => Ok(view::top_levels(value@)),
                Err(error) => Err(error@),
        }),
{
    let ghost all = view::top_levels(nodes@);
    let mut done: Vec<TopLevel> = Vec::new();
    let mut i: usize = 0;
    assert(view::top_levels(done@) =~= Seq::<TopLevelView>::empty());
    while i < nodes.len()
        invariant
            i <= nodes.len(),
            all == view::top_levels(nodes@),
            filled_top_levels(all, 0, Seq::empty(), inputs@) == filled_top_levels(
                all,
                i as int,
                view::top_levels(done@),
                inputs@,
            ),
        decreases nodes.len() - i,
    {
        let ghost before = done@;
        assert(all[i as int] == view::top_level(nodes@[i as int]));
        let value = match fill_top_level(&nodes[i], inputs) {
            Ok(value) => value,
            Err(error) => return Err(error),
        };
        done.push(value);
        proof {
            view::lemma_top_levels_push(before, done@.last());
        }
        i += 1;
    }
    Ok(done)
}

/// A module with its compile-time forms filled.
pub open spec fn filled_module(module: ModuleView, inputs: InputsView) -> Result<ModuleView, InputFailureView> {
    match filled_top_levels(module.forms, 0, Seq::empty(), inputs) {
        Err(error) => Err(error),
        Ok(forms) => {
            Ok(ModuleView { forms, ..module })

        },
    }
}

/// Fills the compile-time forms of a module from the inputs that are there.
/// Where one is missing, the result says which.
pub fn expand_module_compile_time_data(module: &Module, inputs: &Inputs) -> (result: Result<Module, InputFailure>)
    ensures
        filled_module(view::module(*module), inputs@) == (match result {
                Ok(value) => Ok(view::module(value)),
                Err(error) => Err(error@),
        }),
{
    let forms = match fill_top_levels(&module.forms, inputs) {
        Ok(value) => value,
        Err(error) => return Err(error),
    };
    Ok(Module { forms, span: module.span, document_id: module.document_id })
}

/// The fingerprints of files.
pub open spec fn fingerprints_of(files: Seq<InputFileView>) -> Seq<(Seq<char>, Seq<char>)> {
    Seq::new(
        files.len(),
        |i: int| (files[i].path, crate::frontend::compile_value::fingerprint_of(files[i].bytes)),
    )
}

/// The path and the fingerprint of each input file.
pub fn embedded_files(inputs: &Inputs) -> (files: Vec<(String, String)>)
    ensures
        files@.len() == inputs@.files.len(),
        forall|i: int|
        0 <= i < files@.len() ==> ((#[trigger] files@[i]).0@, files@[i].1@) == fingerprints_of(inputs@.files)[i],
{
    let mut done: Vec<(String, String)> = Vec::new();
    let mut i: usize = 0;
    while i < inputs.files.len()
        invariant
            i <= inputs.files.len(),
            done.len() == i,
            forall|j: int|
            0 <= j < i ==> ((#[trigger] done@[j]).0@, done@[j].1@) == fingerprints_of(inputs@.files)[j],
        decreases inputs.files.len() - i,
    {
        let hash = fingerprint(&inputs.files[i].bytes);
        done.push((inputs.files[i].path.clone(), hash));
        i += 1;
    }
    done
}

// Laws.

/// An expression that is no compile-time form stays as it is.
pub proof fn law_other_expressions_are_kept(expr: ExprView, inputs: InputsView)
    requires
        form_of(expr) is None,
    ensures
        filled(expr, inputs) == Ok::<ExprView, InputFailureView>(expr),
{
}

} // verus!
