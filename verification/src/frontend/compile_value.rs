//! Compile-time data: embedded files and literal expressions.
use vstd::prelude::*;
use crate::ast::surface::{Expr, ExprField, ExprKind, Literal, Origin, Spanned, TypeExpr, TypeExprKind};
use crate::ast::view::{ExprFieldView, ExprKindView, ExprView, LiteralView, NameView, TypeExprKindView, TypeExprView};
use crate::execute::path_text::extension;
use crate::execute::strings::decode;
use crate::frontend::json_data::{parse_json, parse_xml};
use crate::frontend::model::{CompileField, CompileValue, EmbedFormat};
use crate::frontend::toml_data::parse_toml;
use crate::frontend::view::{self, CompileFieldView, CompileValueView};
use crate::syntax::Span;
use crate::text::{characters, concat_three, decimal_text, owned, push_char, same_text, text_precedes};

verus! {

pub open spec fn data_outcome(result: Result<CompileValue, String>) -> Result<CompileValueView, Seq<char>> {
    match result {
        Ok(value) => Ok(view::compile_value(value)),
        Err(message) => Err(message@),
    }
}

/// Fields in the order of their names with one put in: instead of one of the
/// same name, or in its place.
pub open spec fn with_field(
    fields: Seq<CompileFieldView>,
    from: int,
    field: CompileFieldView,
) -> Seq<CompileFieldView>
    decreases fields.len() - from,
{
    if from < 0 || from >= fields.len() {
        fields.push(field)
    } else if fields[from].name == field.name {
        fields.update(from, field)
    } else if crate::text::precedes(fields[from].name, field.name) {
        with_field(fields, from + 1, field)
    } else {
        fields.insert(from, field)
    }
}

pub fn set_field(fields: &mut Vec<CompileField>, field: CompileField)
    ensures
        view::compile_fields(final(fields)@) == with_field(
            view::compile_fields(old(fields)@),
            0,
            view::compile_field(field),
        ),
{
    let ghost before = fields@;
    let ghost all = view::compile_fields(before);
    let ghost added = view::compile_field(field);
    let mut i: usize = 0;
    while i < fields.len()
        invariant
            i <= fields.len(),
            fields@ == before,
            before == old(fields)@,
            all == view::compile_fields(before),
            added == view::compile_field(field),
            with_field(all, 0, added) == with_field(all, i as int, added),
        decreases fields.len() - i,
    {
        assert(all[i as int] == view::compile_field(fields@[i as int]));
        if same_text(fields[i].name.as_str(), field.name.as_str()) {
            fields.set(i, field);
            proof {
                lemma_set(before, i as int, field);
            }
            return;
        }
        if !text_precedes(fields[i].name.as_str(), field.name.as_str()) {
            fields.insert(i, field);
            proof {
                lemma_insert(before, i as int, field);
            }
            return;
        }
        i += 1;
    }
    fields.push(field);
    proof {
        view::lemma_compile_fields_push(before, field);
    }
}

proof fn lemma_set(fields: Seq<CompileField>, place: int, field: CompileField)
    requires
        0 <= place < fields.len(),
    ensures
        view::compile_fields(fields.update(place, field)) == view::compile_fields(fields).update(
            place,
            view::compile_field(field),
        ),
{
    let after = fields.update(place, field);
    let found = view::compile_fields(after);
    let expected = view::compile_fields(fields).update(place, view::compile_field(field));
    assert forall|i: int| 0 <= i < found.len() implies found[i] == expected[i] by {
        assert(found[i] == view::compile_field(after[i]));
        assert(view::compile_fields(fields)[i] == view::compile_field(fields[i]));
    }
    assert(found =~= expected);
}

proof fn lemma_insert(fields: Seq<CompileField>, place: int, field: CompileField)
    requires
        0 <= place <= fields.len(),
    ensures
        view::compile_fields(fields.insert(place, field)) == view::compile_fields(fields).insert(
            place,
            view::compile_field(field),
        ),
{
    let after = fields.insert(place, field);
    let found = view::compile_fields(after);
    let expected = view::compile_fields(fields).insert(place, view::compile_field(field));
    assert forall|i: int| 0 <= i < found.len() implies found[i] == expected[i] by {
        assert(found[i] == view::compile_field(after[i]));
        if i < place {
            assert(view::compile_fields(fields)[i] == view::compile_field(fields[i]));
        } else if i > place {
            assert(view::compile_fields(fields)[i - 1] == view::compile_field(fields[i - 1]));
        }
    }
    assert(found =~= expected);
}

// Formats.

/// A character with an ASCII capital made small.
pub open spec fn ascii_lower(character: char) -> char {
    if 'A' <= character && character <= 'Z' {
        ((character as u8) + 32) as char
    } else {
        character
    }
}

pub open spec fn ascii_lowered(text: Seq<char>) -> Seq<char> {
    Seq::new(text.len(), |i: int| ascii_lower(text[i]))
}

fn lower_ascii(text: &str) -> (result: String)
    ensures
        result@ == ascii_lowered(text@),
{
    let letters = characters(text);
    let mut result = String::new();
    let mut i: usize = 0;
    assert(result@ =~= ascii_lowered(text@).take(0));
    while i < letters.len()
        invariant
            i <= letters.len(),
            letters@ == text@,
            result@ == ascii_lowered(text@).take(i as int),
        decreases letters.len() - i,
    {
        let letter = letters[i];
        let lowered = if 'A' <= letter && letter <= 'Z' {
            (letter as u8 + 32) as char
        } else {
            letter
        };
        push_char(&mut result, lowered);
        assert(result@ =~= ascii_lowered(text@).take(i + 1));
        i += 1;
    }
    assert(result@ =~= ascii_lowered(text@));
    result
}

/// The format that a file extension stands for.
pub open spec fn format_named(extension: Seq<char>) -> Option<EmbedFormat> {
    if extension == "text"@ || extension == "txt"@ {
        Some(EmbedFormat::Text)
    } else if extension == "binary"@ || extension == "bin"@ {
        Some(EmbedFormat::Binary)
    } else if extension == "json"@ {
        Some(EmbedFormat::Json)
    } else if extension == "toml"@ {
        Some(EmbedFormat::Toml)
    } else if extension == "xml"@ {
        Some(EmbedFormat::Xml)
    } else {
        None
    }
}

/// The format of an embedded file: the requested one, or the one that its
/// extension stands for.
pub open spec fn inferred_format(requested: EmbedFormat, path: Seq<char>) -> Result<EmbedFormat, Seq<char>> {
    if requested != EmbedFormat::Auto {
        Ok(requested)
    } else {
        let extension = match crate::execute::path_text::extension_text(path) {
            Some(extension) => extension,
            None => Seq::empty(),
        };
        match format_named(ascii_lowered(extension)) {
            Some(format) => Ok(format),
            None => Err(
                "E-EMBED-001: cannot infer embed format for "@ + path
                + "; use text, binary, json, toml, or xml"@,
            ),
        }
    }
}

pub fn infer_embed_format(requested: EmbedFormat, path: &str) -> (result: Result<EmbedFormat, String>)
    ensures
        inferred_format(requested, path@) == (match result {
                Ok(format) => Ok(format),
                Err(message) => Err(message@),
        }),
{
    if requested != EmbedFormat::Auto {
        return Ok(requested);
    }
    let suffix = match extension(path) {
        Some(extension) => lower_ascii(extension.as_str()),
        None => {
            let empty = String::new();
            assert(empty@ =~= Seq::<char>::empty());
            lower_ascii(empty.as_str())
        }
    };
    let name = suffix.as_str();
    if same_text(name, "text") || same_text(name, "txt") {
        Ok(EmbedFormat::Text)
    } else if same_text(name, "binary") || same_text(name, "bin") {
        Ok(EmbedFormat::Binary)
    } else if same_text(name, "json") {
        Ok(EmbedFormat::Json)
    } else if same_text(name, "toml") {
        Ok(EmbedFormat::Toml)
    } else if same_text(name, "xml") {
        Ok(EmbedFormat::Xml)
    } else {
        Err(
            concat_three(
                "E-EMBED-001: cannot infer embed format for ",
                path,
                "; use text, binary, json, toml, or xml",
            ),
        )
    }
}

// Expressions of data.

pub open spec fn expr_of(value: ExprKindView, span: Span, origin: Origin) -> ExprView {
    ExprView { value, span, origin }
}

fn spanned(value: ExprKind, span: Span, origin: &Origin) -> (expr: Expr)
    ensures
        crate::ast::view::expr(expr) == expr_of(crate::ast::view::expr_kind(value), span, *origin),
{
    reveal(crate::ast::view::expr_kind);
    Spanned { value, span, origin: origin.copy() }
}

/// The expression that writes data.
pub open spec fn data_expr(value: CompileValueView, span: Span, origin: Origin) -> ExprView
    decreases value, 0int, 0int,
{
    let kind = match value {
        CompileValueView::Null => ExprKindView::Literal(LiteralView::Unit),
        CompileValueView::Bool(value) => ExprKindView::Literal(LiteralView::Bool(value)),
        CompileValueView::Int(value) => ExprKindView::Literal(LiteralView::Int(value)),
        CompileValueView::Float(bits) => ExprKindView::Literal(LiteralView::Float(bits)),
        CompileValueView::String(text) => ExprKindView::Literal(LiteralView::String(text)),
        CompileValueView::Array(values) => ExprKindView::Array(data_exprs(values, span, origin)),
        CompileValueView::Record(fields) => ExprKindView::Record(data_fields(fields, span, origin)),
    };
    expr_of(kind, span, origin)
}

pub open spec fn data_exprs(values: Seq<CompileValueView>, span: Span, origin: Origin) -> Seq<ExprView>
    decreases values, 1int, 0int,
{
    Seq::new(values.len(), |i: int| if 0 <= i < values.len() {
            data_expr(values[i], span, origin)
        } else {
            arbitrary()
    })
}

pub open spec fn data_fields(fields: Seq<CompileFieldView>, span: Span, origin: Origin) -> Seq<ExprFieldView>
    decreases fields, 1int, 0int,
{
    Seq::new(fields.len(), |i: int| if 0 <= i < fields.len() {
            ExprFieldView {
                name: NameView { value: fields[i].name, span, origin },
                value: data_expr(fields[i].value, span, origin),
                span,
            }
        } else {
            arbitrary()
    })
}

fn write_exprs(values: &Vec<CompileValue>, span: Span, origin: &Origin) -> (exprs: Vec<Expr>)
    ensures
        crate::ast::view::exprs(exprs@) == data_exprs(view::compile_values(values@), span, *origin),
    decreases values,
{
    let ghost all = view::compile_values(values@);
    assert(all.len() == values@.len());
    let mut done: Vec<Expr> = Vec::new();
    let mut i: usize = 0;
    while i < values.len()
        invariant
            i <= values.len(),
            done.len() == i,
            all == view::compile_values(values@),
            all.len() == values@.len(),
            forall|j: int|
            0 <= j < i ==> crate::ast::view::exprs(done@)[j] == data_expr(#[trigger] all[j], span, *origin),
        decreases values.len() - i,
    {
        assert(all[i as int] == view::compile_value(values@[i as int]));
        let ghost before = done@;
        let expr = compile_value_expr(&values[i], span, origin);
        done.push(expr);
        proof {
            crate::ast::view::lemma_exprs_push(before, done@.last());
        }
        i += 1;
    }
    assert(crate::ast::view::exprs(done@) =~= data_exprs(all, span, *origin));
    done
}

fn write_fields(fields: &Vec<CompileField>, span: Span, origin: &Origin) -> (exprs: Vec<ExprField>)
    ensures
        crate::ast::view::expr_fields(exprs@) == data_fields(view::compile_fields(fields@), span, *origin),
    decreases fields,
{
    let ghost all = view::compile_fields(fields@);
    assert(all.len() == fields@.len());
    let mut done: Vec<ExprField> = Vec::new();
    let mut i: usize = 0;
    while i < fields.len()
        invariant
            i <= fields.len(),
            done.len() == i,
            all == view::compile_fields(fields@),
            all.len() == fields@.len(),
            forall|j: int|
            0 <= j < i ==> crate::ast::view::expr_fields(done@)[j] == (ExprFieldView {
                    name: NameView { value: (#[trigger] all[j]).name, span, origin: *origin },
                    value: data_expr(all[j].value, span, *origin),
                    span,
            }),
        decreases fields.len() - i,
    {
        assert(all[i as int] == view::compile_field(fields@[i as int]));
        let ghost before = done@;
        let value = compile_value_expr(&fields[i].value, span, origin);
        done.push(
            ExprField {
                name: Spanned { value: fields[i].name.clone(), span, origin: origin.copy() },
                value,
                span,
            },
        );
        proof {
            crate::ast::view::lemma_expr_fields_push(before, done@.last());
        }
        i += 1;
    }
    assert(crate::ast::view::expr_fields(done@) =~= data_fields(all, span, *origin));
    done
}

/// The expression that writes data, at a place.
pub fn compile_value_expr(value: &CompileValue, span: Span, origin: &Origin) -> (expr: Expr)
    ensures
        crate::ast::view::expr(expr) == data_expr(view::compile_value(*value), span, *origin),
    decreases value,
{
    reveal(crate::ast::view::expr_kind);
    let kind = match value {
        CompileValue::Null => ExprKind::Literal(Literal::Unit),
        CompileValue::Bool(value) => ExprKind::Literal(Literal::Bool(*value)),
        CompileValue::Int(value) => ExprKind::Literal(Literal::Int(*value)),
        CompileValue::Float(bits) => ExprKind::Literal(Literal::Float(*bits)),
        CompileValue::String(text) => ExprKind::Literal(Literal::String(text.clone())),
        CompileValue::Array(values) => ExprKind::Array(write_exprs(values, span, origin)),
        CompileValue::Record(fields) => ExprKind::Record(write_fields(fields, span, origin)),
    };
    spanned(kind, span, origin)
}

/// A byte as an expression: a conversion of its number.
pub open spec fn byte_expr(byte: u8, span: Span, origin: Origin) -> ExprView {
    expr_of(
        ExprKindView::Convert {
            value: Box::new(expr_of(ExprKindView::Literal(LiteralView::Int(byte as i64)), span, origin)),
            into: TypeExprView { value: TypeExprKindView::Named("uint8"@), span, origin },
            fallback: LiteralView::Int(0),
        },
        span,
        origin,
    )
}

/// Bytes as an expression.
pub open spec fn binary_expr(bytes: Seq<u8>, span: Span, origin: Origin) -> ExprView {
    expr_of(
        ExprKindView::Array(Seq::new(bytes.len(), |i: int| byte_expr(bytes[i], span, origin))),
        span,
        origin,
    )
}

fn byte_compile_expr(byte: u8, span: Span, origin: &Origin) -> (expr: Expr)
    ensures
        crate::ast::view::expr(expr) == byte_expr(byte, span, *origin),
{
    reveal(crate::ast::view::expr_kind);
    reveal(crate::ast::view::type_kind);
    let number = spanned(ExprKind::Literal(Literal::Int(byte as i64)), span, origin);
    let into: TypeExpr = Spanned { value: TypeExprKind::Named(owned("uint8")), span, origin: origin.copy() };
    spanned(ExprKind::Convert { value: Box::new(number), into, fallback: Literal::Int(0) }, span, origin)
}

/// The expression that writes bytes, at a place.
pub fn binary_compile_expr(bytes: &Vec<u8>, span: Span, origin: &Origin) -> (expr: Expr)
    ensures
        crate::ast::view::expr(expr) == binary_expr(bytes@, span, *origin),
{
    reveal(crate::ast::view::expr_kind);
    let mut done: Vec<Expr> = Vec::new();
    let mut i: usize = 0;
    while i < bytes.len()
        invariant
            i <= bytes.len(),
            done.len() == i,
            forall|j: int|
            0 <= j < i ==> crate::ast::view::exprs(done@)[j] == byte_expr(#[trigger] bytes@[j], span, *origin),
        decreases bytes.len() - i,
    {
        let ghost before = done@;
        let expr = byte_compile_expr(bytes[i], span, origin);
        done.push(expr);
        proof {
            crate::ast::view::lemma_exprs_push(before, done@.last());
        }
        i += 1;
    }
    assert(crate::ast::view::exprs(done@) =~= Seq::new(bytes@.len(), |i: int| byte_expr(bytes@[i], span, *origin)));
    spanned(ExprKind::Array(done), span, origin)
}

// Data of expressions.

pub open spec fn not_data(expr: ExprView) -> Seq<char> {
    "E-TEMPLATE-005: template binding `"@ + crate::text::decimal(expr.span.start as nat)
    + "` must be compile-time literal data"@
}

/// The data that an expression writes.
pub open spec fn data_in(expr: ExprView) -> Result<CompileValueView, Seq<char>>
    decreases expr, 0int,
{
    match expr.value {
        ExprKindView::Literal(literal) => literal_data(literal, expr),
        ExprKindView::Array(items) => {
            match data_in_all(items, 0, Seq::empty()) {
                Err(error) => Err(error),
                Ok(values) => {
                    Ok(CompileValueView::Array(values))

                },
            }
        },
        ExprKindView::Tuple(items) => {
            match data_in_all(items, 0, Seq::empty()) {
                Err(error) => Err(error),
                Ok(values) => {
                    Ok(CompileValueView::Array(values))

                },
            }
        },
        ExprKindView::Record(fields) => {
            match data_in_fields(fields, 0, Seq::empty()) {
                Err(error) => Err(error),
                Ok(values) => {
                    Ok(CompileValueView::Record(values))

                },
            }
        },
        _ => Err(not_data(expr)),
    }
}

pub open spec fn literal_data(literal: LiteralView, expr: ExprView) -> Result<CompileValueView, Seq<char>> {
    match literal {
        LiteralView::Unit => Ok(CompileValueView::Null),
        LiteralView::Bool(value) => Ok(CompileValueView::Bool(value)),
        LiteralView::Int(value) => Ok(CompileValueView::Int(value)),
        LiteralView::Float(bits) => Ok(CompileValueView::Float(bits)),
        LiteralView::String(text) => Ok(CompileValueView::String(text)),
        _ => Err(not_data(expr)),
    }
}

pub open spec fn data_in_all(exprs: Seq<ExprView>, from: int, done: Seq<CompileValueView>) -> Result<
Seq<CompileValueView>,
Seq<char>,
>
    decreases exprs, exprs.len() - from,
{
    if from < 0 || from >= exprs.len() {
        Ok(done)
    } else {
        match data_in(exprs[from]) {
            Err(error) => Err(error),
            Ok(value) => {
                data_in_all(exprs, from + 1, done.push(value))

            },
        }
    }
}

/// The data that fields write, in the order of their names.
pub open spec fn data_in_fields(fields: Seq<ExprFieldView>, from: int, done: Seq<CompileFieldView>) -> Result<
Seq<CompileFieldView>,
Seq<char>,
>
    decreases fields, fields.len() - from,
{
    if from < 0 || from >= fields.len() {
        Ok(done)
    } else {
        match data_in(fields[from].value) {
            Err(error) => Err(error),
            Ok(value) => {
                data_in_fields(
                    fields,
                    from + 1,
                    with_field(done, 0, CompileFieldView { name: fields[from].name.value, value }),
                )

            },
        }
    }
}

fn no_data(expr: &Expr) -> (message: String)
    ensures
        message@ == not_data(crate::ast::view::expr(*expr)),
{
    let place = decimal_text(expr.span.start as u64);
    concat_three("E-TEMPLATE-005: template binding `", place.as_str(), "` must be compile-time literal data")
}

fn read_exprs(exprs: &Vec<Expr>) -> (result: Result<Vec<CompileValue>, String>)
    ensures
        data_in_all(crate::ast::view::exprs(exprs@), 0, Seq::empty()) == (match result {
                Ok(values) => Ok(view::compile_values(values@)),
                Err(message) => Err(message@),
        }),
    decreases exprs,
{
    let ghost all = crate::ast::view::exprs(exprs@);
    let mut done: Vec<CompileValue> = Vec::new();
    assert(view::compile_values(done@) =~= Seq::<CompileValueView>::empty());
    let mut i: usize = 0;
    while i < exprs.len()
        invariant
            i <= exprs.len(),
            all == crate::ast::view::exprs(exprs@),
            data_in_all(all, 0, Seq::empty()) == data_in_all(all, i as int, view::compile_values(done@)),
        decreases exprs.len() - i,
    {
        assert(all[i as int] == crate::ast::view::expr(exprs@[i as int]));
        let value = match compile_value_from_expr(&exprs[i]) {
            Ok(value) => value,
            Err(error) => return Err(error),
        };
        let ghost before = done@;
        done.push(value);
        proof {
            view::lemma_compile_values_push(before, done@.last());
        }
        i += 1;
    }
    Ok(done)
}

/// The data that fields of a record write.
pub fn read_bindings(fields: &Vec<ExprField>) -> (result: Result<Vec<CompileField>, String>)
    ensures
        data_in_fields(crate::ast::view::expr_fields(fields@), 0, Seq::empty()) == (match result {
                Ok(values) => Ok(view::compile_fields(values@)),
                Err(message) => Err(message@),
        }),
    decreases fields,
{
    let ghost all = crate::ast::view::expr_fields(fields@);
    let mut done: Vec<CompileField> = Vec::new();
    assert(view::compile_fields(done@) =~= Seq::<CompileFieldView>::empty());
    let mut i: usize = 0;
    while i < fields.len()
        invariant
            i <= fields.len(),
            all == crate::ast::view::expr_fields(fields@),
            data_in_fields(all, 0, Seq::empty()) == data_in_fields(all, i as int, view::compile_fields(done@)),
        decreases fields.len() - i,
    {
        assert(all[i as int] == crate::ast::view::expr_field(fields@[i as int]));
        let value = match compile_value_from_expr(&fields[i].value) {
            Ok(value) => value,
            Err(error) => return Err(error),
        };
        set_field(&mut done, CompileField { name: fields[i].name.value.clone(), value });
        i += 1;
    }
    Ok(done)
}

/// The data that an expression writes.
pub fn compile_value_from_expr(expr: &Expr) -> (result: Result<CompileValue, String>)
    ensures
        data_outcome(result) == data_in(crate::ast::view::expr(*expr)),
    decreases expr,
{
    reveal(crate::ast::view::expr_kind);
    match &expr.value {
        ExprKind::Literal(literal) => match literal {
            Literal::Unit => Ok(CompileValue::Null),
            Literal::Bool(value) => Ok(CompileValue::Bool(*value)),
            Literal::Int(value) => Ok(CompileValue::Int(*value)),
            Literal::Float(bits) => Ok(CompileValue::Float(*bits)),
            Literal::String(text) => Ok(CompileValue::String(text.clone())),
            _ => Err(no_data(expr)),
        },
        ExprKind::Array(items) => {
            let values = match read_exprs(items) {
                Ok(value) => value,
                Err(error) => return Err(error),
            };
            Ok(CompileValue::Array(values))
        }
        ExprKind::Tuple(items) => {
            let values = match read_exprs(items) {
                Ok(value) => value,
                Err(error) => return Err(error),
            };
            Ok(CompileValue::Array(values))
        }
        ExprKind::Record(fields) => {
            let values = match read_bindings(fields) {
                Ok(value) => value,
                Err(error) => return Err(error),
            };
            Ok(CompileValue::Record(values))
        }
        _ => Err(no_data(expr)),
    }
}

// Embedded files.

pub open spec fn decoded_or(bytes: Seq<u8>, message: Seq<char>) -> Result<Seq<char>, Seq<char>> {
    match crate::execute::strings::decoded(bytes) {
        Some(text) => Ok(text),
        None => Err(message),
    }
}

/// The data of an embedded file in a format that is not binary.
pub open spec fn embedded_data(format: EmbedFormat, bytes: Seq<u8>) -> Result<CompileValueView, Seq<char>> {
    match format {
        EmbedFormat::Json => match crate::frontend::json_data::parsed_json(bytes) {
            Some(value) => crate::frontend::json_data::data_of(value),
            None => Err("E-EMBED-004: parse embedded JSON"@),
        },
        EmbedFormat::Toml => {
            match decoded_or(bytes, "E-EMBED-004: TOML embed is not valid UTF-8"@) {
                Err(error) => Err(error),
                Ok(text) => {
                    match crate::frontend::toml_data::parsed_toml(text) {
                        Some(value) => crate::frontend::toml_data::data_of(value),
                        None => Err("E-EMBED-004: parse embedded TOML"@),
                    }

                },
            }
        },
        EmbedFormat::Xml => {
            match decoded_or(bytes, "E-EMBED-004: XML embed is not valid UTF-8"@) {
                Err(error) => Err(error),
                Ok(text) => {
                    match crate::frontend::json_data::parsed_xml(text) {
                        Some(value) => crate::frontend::json_data::data_of(value),
                        None => Err("E-EMBED-004: parse embedded XML"@),
                    }

                },
            }
        },
        _ => {
            match decoded_or(bytes, "E-EMBED-004: text embed is not valid UTF-8"@) {
                Err(error) => Err(error),
                Ok(text) => {
                    Ok(CompileValueView::String(text))

                },
            }
        },
    }
}

fn decode_or(bytes: &Vec<u8>, message: &str) -> (result: Result<String, String>)
    ensures
        decoded_or(bytes@, message@) == (match result {
                Ok(text) => Ok(text@),
                Err(message) => Err(message@),
        }),
{
    match decode(bytes.clone()) {
        Some(text) => Ok(text),
        None => Err(owned(message)),
    }
}

/// The data of an embedded file in a format that is not binary.
pub fn read_embedded(format: EmbedFormat, bytes: &Vec<u8>) -> (result: Result<CompileValue, String>)
    ensures
        data_outcome(result) == embedded_data(format, bytes@),
{
    match format {
        EmbedFormat::Json => match parse_json(bytes) {
            Some(value) => crate::frontend::json_data::read(&value),
            None => Err(owned("E-EMBED-004: parse embedded JSON")),
        },
        EmbedFormat::Toml => {
            let text = match decode_or(bytes, "E-EMBED-004: TOML embed is not valid UTF-8") {
                Ok(value) => value,
                Err(error) => return Err(error),
            };
            match parse_toml(text.as_str()) {
                Some(value) => crate::frontend::toml_data::read(&value),
                None => Err(owned("E-EMBED-004: parse embedded TOML")),
            }
        }
        EmbedFormat::Xml => {
            let text = match decode_or(bytes, "E-EMBED-004: XML embed is not valid UTF-8") {
                Ok(value) => value,
                Err(error) => return Err(error),
            };
            match parse_xml(text.as_str()) {
                Some(value) => crate::frontend::json_data::read(&value),
                None => Err(owned("E-EMBED-004: parse embedded XML")),
            }
        }
        _ => {
            let text = match decode_or(bytes, "E-EMBED-004: text embed is not valid UTF-8") {
                Ok(value) => value,
                Err(error) => return Err(error),
            };
            Ok(CompileValue::String(text))
        }
    }
}

// Fingerprints.

/// The SHA-256 digest of bytes.
pub uninterp spec fn sha256(bytes: Seq<u8>) -> Seq<u8>;

/// `sha2::Sha256::digest`: the same bytes give the same digest.
#[verifier::external_body]
fn digest(bytes: &Vec<u8>) -> (result: Vec<u8>)
    ensures
        result@ == sha256(bytes@),
{
    <sha2::Sha256 as sha2::Digest>::digest(bytes).to_vec()
}

pub open spec fn hex_bytes(bytes: Seq<u8>, count: int) -> Seq<char>
    decreases count,
{
    if count <= 0 || count > bytes.len() {
        Seq::empty()
    } else {
        hex_bytes(bytes, count - 1) + crate::yaml::render::hex_places(bytes[count - 1] as int, 2)
    }
}

/// The digest of bytes in hexadecimal digits.
pub open spec fn fingerprint_of(bytes: Seq<u8>) -> Seq<char> {
    hex_bytes(sha256(bytes), sha256(bytes).len() as int)
}

pub fn fingerprint(bytes: &Vec<u8>) -> (text: String)
    ensures
        text@ == fingerprint_of(bytes@),
{
    let hash = digest(bytes);
    let mut text = String::new();
    assert(text@ =~= hex_bytes(hash@, 0));
    let mut i: usize = 0;
    while i < hash.len()
        invariant
            i <= hash.len(),
            text@ == hex_bytes(hash@, i as int),
        decreases hash.len() - i,
    {
        let digits = crate::yaml::render::hex_text(hash[i] as u64, 2);
        text.append(digits.as_str());
        i += 1;
    }
    text
}

/// How large an embedded file may be.
pub const MAX_EMBED_SOURCE_BYTES: usize = 1_048_576;

pub open spec fn size_message(code: Seq<char>, kind: Seq<char>, limit: nat) -> Seq<char> {
    code + ": "@ + kind + " exceeds "@ + crate::text::decimal(limit) + " bytes"@
}

pub(crate) fn size_error(code: &str, kind: &str, limit: usize) -> (message: String)
    ensures
        message@ == size_message(code@, kind@, limit as nat),
{
    let digits = decimal_text(limit as u64);
    let mut message = concat_three(code, ": ", kind);
    message.append(" exceeds ");
    message.append(digits.as_str());
    message.append(" bytes");
    message
}

/// The expression that an embedded file stands for.
pub open spec fn embedded_expr(
    path: Seq<char>,
    requested: EmbedFormat,
    bytes: Seq<u8>,
    span: Span,
    origin: Origin,
) -> Result<
ExprView,
Seq<char>,
> {
    if bytes.len() > MAX_EMBED_SOURCE_BYTES {
        Err(size_message("E-EMBED-006"@, "embedded source"@, MAX_EMBED_SOURCE_BYTES as nat))
    } else {
        match inferred_format(requested, path) {
            Err(error) => Err(error),
            Ok(format) => {
                if format == EmbedFormat::Binary {
                    Ok(binary_expr(bytes, span, origin))
                } else {
                    match embedded_data(format, bytes) {
                        Err(error) => Err(error),
                        Ok(value) => {
                            Ok(data_expr(value, span, origin))

                        },
                    }
                }

            },
        }
    }
}

/// The expression that an embedded file stands for, with the fingerprint of the
/// file.
pub fn load_typed_embed(path: &str, requested: EmbedFormat, bytes: &Vec<u8>, span: Span, origin: &Origin) -> (result: Result<
    (Expr, String),
    String,
    >)
    ensures
        embedded_expr(path@, requested, bytes@, span, *origin) == (match result {
                Ok((expr, _)) => Ok(crate::ast::view::expr(expr)),
                Err(message) => Err(message@),
        }),
        match result {
            Ok((_, text)) => text@ == fingerprint_of(bytes@),
            Err(_) => true,
        },
{
    if bytes.len() > MAX_EMBED_SOURCE_BYTES {
        return Err(size_error("E-EMBED-006", "embedded source", MAX_EMBED_SOURCE_BYTES));
    }
    let format = match infer_embed_format(requested, path) {
        Ok(value) => value,
        Err(error) => return Err(error),
    };
    let hash = fingerprint(bytes);
    if format == EmbedFormat::Binary {
        return Ok((binary_compile_expr(bytes, span, origin), hash));
    }
    let value = match read_embedded(format, bytes) {
        Ok(value) => value,
        Err(error) => return Err(error),
    };
    Ok((compile_value_expr(&value, span, origin), hash))
}

// Laws.

/// Whether the records of data list each field once, in the order of the names.
pub open spec fn ordered(value: CompileValueView) -> bool
    decreases value, 0int, 0int,
{
    match value {
        CompileValueView::Array(values) => forall|i: int| 0 <= i < values.len() ==> ordered(#[trigger] values[i]),
        CompileValueView::Record(fields) => ascending(fields) && forall|i: int|
        0 <= i < fields.len() ==> ordered((#[trigger] fields[i]).value),
        _ => true,
    }
}

pub open spec fn ascending(fields: Seq<CompileFieldView>) -> bool {
    forall|i: int, j: int|
    0 <= i < j < fields.len() ==> crate::text::precedes((#[trigger] fields[i]).name, (#[trigger] fields[j]).name)
}

/// A field put behind smaller names goes to the end.
proof fn lemma_field_appended(fields: Seq<CompileFieldView>, from: int, field: CompileFieldView)
    requires
        0 <= from <= fields.len(),
        forall|i: int| 0 <= i < fields.len() ==> crate::text::precedes((#[trigger] fields[i]).name, field.name),
    ensures
        with_field(fields, from, field) == fields.push(field),
    decreases fields.len() - from,
{
    if from < fields.len() {
        crate::text::lemma_precedes_irreflexive(field.name, 0);
        assert(fields[from].name != field.name);
        lemma_field_appended(fields, from + 1, field);
    }
}

proof fn lemma_data_back_all(values: Seq<CompileValueView>, from: int, span: Span, origin: Origin)
    requires
        0 <= from <= values.len(),
        forall|i: int| 0 <= i < values.len() ==> ordered(#[trigger] values[i]),
    ensures
        data_in_all(data_exprs(values, span, origin), from, values.take(from))
            == Ok::<Seq<CompileValueView>, Seq<char>>(
            values,
        ),
    decreases values, values.len() - from,
{
    let exprs = data_exprs(values, span, origin);
    assert(exprs.len() == values.len());
    if from < values.len() {
        assert(exprs[from] == data_expr(values[from], span, origin));
        law_data_survives_as_expressions(values[from], span, origin);
        lemma_data_back_all(values, from + 1, span, origin);
        assert(values.take(from).push(values[from]) =~= values.take(from + 1));
    } else {
        assert(values.take(from) =~= values);
    }
}

proof fn lemma_data_back_fields(fields: Seq<CompileFieldView>, from: int, span: Span, origin: Origin)
    requires
        0 <= from <= fields.len(),
        ascending(fields),
        forall|i: int| 0 <= i < fields.len() ==> ordered((#[trigger] fields[i]).value),
    ensures
        data_in_fields(data_fields(fields, span, origin), from, fields.take(from)) == Ok::<
        Seq<CompileFieldView>,
        Seq<char>,
        >(fields),
    decreases fields, fields.len() - from,
{
    let exprs = data_fields(fields, span, origin);
    assert(exprs.len() == fields.len());
    if from < fields.len() {
        assert(exprs[from].value == data_expr(fields[from].value, span, origin));
        assert(exprs[from].name.value == fields[from].name);
        law_data_survives_as_expressions(fields[from].value, span, origin);
        assert forall|i: int| 0 <= i < from implies crate::text::precedes(
            (#[trigger] fields.take(from)[i]).name,
            fields[from].name,
        ) by {
            assert(fields.take(from)[i] == fields[i]);
        }
        lemma_field_appended(fields.take(from), 0, fields[from]);
        lemma_data_back_fields(fields, from + 1, span, origin);
        assert(fields.take(from).push(fields[from]) =~= fields.take(from + 1));
    } else {
        assert(fields.take(from) =~= fields);
    }
}

/// Data written as an expression is read back from it as it was.
pub proof fn law_data_survives_as_expressions(value: CompileValueView, span: Span, origin: Origin)
    requires
        ordered(value),
    ensures
        data_in(data_expr(value, span, origin)) == Ok::<CompileValueView, Seq<char>>(value),
    decreases value, 0int,
{
    match value {
        CompileValueView::Array(values) => {
            lemma_data_back_all(values, 0, span, origin);
            assert(values.take(0) =~= Seq::<CompileValueView>::empty());
        }
        CompileValueView::Record(fields) => {
            lemma_data_back_fields(fields, 0, span, origin);
            assert(fields.take(0) =~= Seq::<CompileFieldView>::empty());
        }
        _ => {}
    }
}

} // verus!
