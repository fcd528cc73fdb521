//! Diagnostics of macro expansion.
use vstd::prelude::*;
use crate::ast::surface::{AstError, DocumentId, Origin, SourceLocation};
use crate::ast::view::{self, AstErrorView};
use crate::syntax::Span;
use crate::text::{concat_five, decimal_text, owned};

verus! {

#[derive(Debug, PartialEq, Eq)]
pub struct MacroExpansionError {
    pub code: &'static str,
    pub message: String,
    pub span: Span,
    pub document: Option<DocumentId>,
    pub related: Vec<(String, SourceLocation)>,
}

/// What a [`MacroExpansionError`] holds.
pub struct MacroErrorView {
    pub code: Seq<char>,
    pub message: Seq<char>,
    pub span: Span,
    pub document: Option<DocumentId>,
    pub related: Seq<(Seq<char>, SourceLocation)>,
}

impl View for MacroExpansionError {
    type V = MacroErrorView;

    open spec fn view(&self) -> MacroErrorView {
        MacroErrorView {
            code: self.code@,
            message: self.message@,
            span: self.span,
            document: self.document,
            related: Seq::new(self.related@.len(), |i: int| (self.related@[i].0@, self.related@[i].1)),
        }
    }
}

impl MacroErrorView {
    /// An error at the place that `origin` names.
    pub open spec fn at(code: Seq<char>, message: Seq<char>, origin: Origin) -> MacroErrorView {
        MacroErrorView {
            code,
            message,
            span: origin.primary(),
            document: origin.document(),
            related: Seq::empty(),
        }
    }

    /// The error with a further location, when `origin` belongs to a document.
    pub open spec fn with_related(self, label: Seq<char>, origin: Origin) -> MacroErrorView {
        match origin.document() {
            Some(document) => MacroErrorView {
                related: self.related.push((label, SourceLocation { document, span: origin.primary() })),
                ..self
            },
            None => self,
        }
    }

    /// A lowering error, placed in `document`.
    pub open spec fn lowering(error: AstErrorView, document: DocumentId) -> MacroErrorView {
        MacroErrorView {
            code: error.code,
            message: error.message,
            span: error.span,
            document: Some(document),
            related: Seq::new(
                error.related.len(),
                |i: int| (error.related[i].0, SourceLocation { document, span: error.related[i].1 }),
            ),
        }
    }
}

impl MacroExpansionError {
    pub(crate) fn at(code: &'static str, message: String, origin: &Origin) -> (error: Self)
        ensures
            error@ == MacroErrorView::at(code@, message@, *origin),
    {
        let error = MacroExpansionError {
            code,
            message,
            span: origin.primary_span(),
            document: origin.document_id(),
            related: Vec::new(),
        };
        assert(error@.related =~= Seq::empty());
        error
    }

    pub(crate) fn related(self, label: &str, origin: &Origin) -> (error: Self)
        ensures
            error@ == self@.with_related(label@, *origin),
    {
        let mut error = self;
        let ghost before = error@;
        match origin.document_id() {
            Some(document) => {
                error.related.push((owned(label), SourceLocation { document, span: origin.primary_span() }));
                assert(error@.related =~= before.with_related(label@, *origin).related);
            }
            None => {}
        }
        error
    }

    pub(crate) fn from_ast(error: AstError, document: DocumentId) -> (result: Self)
        ensures
            result@ == MacroErrorView::lowering(view::ast_error(error), document),
    {
        let mut related: Vec<(String, SourceLocation)> = Vec::new();
        let mut i: usize = 0;
        while i < error.related.len()
            invariant
                i <= error.related@.len(),
                related@.len() == i,
                forall|j: int|
                    0 <= j < i ==> (#[trigger] related@[j]).0@ == error.related@[j].0@ && related@[j].1 == (
                    SourceLocation { document, span: error.related@[j].1 }),
            decreases error.related@.len() - i,
        {
            related.push((error.related[i].0.clone(), SourceLocation { document, span: error.related[i].1 }));
            i += 1;
        }
        let result = MacroExpansionError {
            code: error.code,
            message: error.message,
            span: error.span,
            document: Some(document),
            related,
        };
        assert(result@.related =~= MacroErrorView::lowering(view::ast_error(error), document).related);
        result
    }

    /// The diagnostic as one line of text.
    pub open spec fn rendered(code: Seq<char>, span: Span, message: Seq<char>) -> Seq<char> {
        code + " at bytes "@ + crate::text::decimal(span.start as nat) + ".."@ + crate::text::decimal(span.end as nat)
            + ": "@ + message
    }

    pub fn to_text(&self) -> (text: String)
        ensures
            text@ == MacroExpansionError::rendered(self@.code, self.span, self@.message),
    {
        render_diagnostic(self.code, self.span, self.message.as_str())
    }
}

fn render_diagnostic(code: &str, span: Span, message: &str) -> (text: String)
    ensures
        text@ == MacroExpansionError::rendered(code@, span, message@),
{
    let start = decimal_text(span.start as u64);
    let end = decimal_text(span.end as u64);
    let mut text = concat_five(code, " at bytes ", start.as_str(), "..", end.as_str());
    text.append(": ");
    text.append(message);
    text
}

impl AstError {
    /// The diagnostic as one line of text.
    pub fn to_text(&self) -> (text: String)
        ensures
            text@ == MacroExpansionError::rendered(self.code@, self.span, self.message@),
    {
        render_diagnostic(self.code, self.span, self.message.as_str())
    }
}

} // verus!
