//! Hygiene of quoted syntax: which names of a quotation are renamed, which are
//! qualified with the import alias of the defining module, and which are kept.
use vstd::prelude::*;
use crate::ast::copy;
use crate::ast::surface::{
    DocumentId, Expr, ExprField, ExprKind, MatchCase, Name, Origin, Pattern, PatternField, PatternKind, Spanned,
    TypeExpr,
    TypeExprKind, TypeMember,
};
use crate::ast::view::{
    self, ExprFieldView, ExprKindView, ExprView, MatchCaseView, NameView, PatternFieldView, PatternKindView,
    PatternView,
    TypeExprKindView, TypeExprView, TypeMemberView,
};
use crate::names::{has_name, NameMap};
use crate::syntax::Span;
use crate::text::{concat_three, decimal_text, has_char};

verus! {

/// The macro definition that a quotation belongs to, and the caller's view of
/// its module.
pub struct Site<'a> {
    pub document: DocumentId,
    pub span: Span,
    pub hygiene_id: usize,
    pub alias: Option<&'a String>,
    pub symbols: &'a Vec<String>,
}

/// What a [`Site`] holds.
pub struct SiteView {
    pub document: DocumentId,
    pub span: Span,
    pub hygiene_id: usize,
    pub alias: Option<Seq<char>>,
    pub symbols: Set<Seq<char>>,
}

/// The fresh name of a binding that quotation `hygiene_id` introduces.
pub open spec fn renamed(name: Seq<char>, hygiene_id: usize) -> Seq<char> {
    name + "--macro-"@ + crate::text::decimal(hygiene_id as nat)
}

impl SiteView {
    /// Whether a node with this origin was written inside the definition.
    pub open spec fn owns(self, origin: Origin) -> bool {
        origin.document() == Some(self.document) && self.span.encloses(origin.primary())
    }

    /// A bare name that the defining module declares is reached through the
    /// caller's import alias.
    pub open spec fn qualified(self, name: Seq<char>) -> Seq<char> {
        match self.alias {
            Some(alias) => if !name.contains('.') && self.symbols.contains(name) {
                alias + "."@ + name
            } else {
                name
            },
            None => name,
        }
    }

    /// A name in reference position outside any binding scope.
    pub open spec fn reference(self, origin: Origin, name: Seq<char>) -> Seq<char> {
        if self.owns(origin) {
            self.qualified(name)
        } else {
            name
        }
    }

    /// A name in reference position under `bindings`.
    pub open spec fn resolve(self, origin: Origin, name: Seq<char>, bindings: Map<Seq<char>, Seq<char>>) -> Seq<char> {
        if !self.owns(origin) {
            name
        } else if bindings.dom().contains(name) {
            bindings[name]
        } else {
            self.qualified(name)
        }
    }

    /// A name that must stay the name of a local binding.
    pub open spec fn local(self, origin: Origin, name: Seq<char>, bindings: Map<Seq<char>, Seq<char>>) -> Seq<char> {
        if self.owns(origin) && bindings.dom().contains(name) {
            bindings[name]
        } else {
            name
        }
    }

    /// A name in binding position: its new spelling and the extended scope.
    pub open spec fn bind(self, origin: Origin, name: NameView, bindings: Map<Seq<char>, Seq<char>>) -> (
        NameView,
        Map<Seq<char>, Seq<char>>,
    ) {
        if self.owns(origin) {
            let fresh = renamed(name.value, self.hygiene_id);
            (
                Spanned { value: fresh, span: name.span, origin: name.origin },
                bindings.insert(name.value, fresh),
            )
        } else {
            (name, bindings)
        }
    }
}

/// `name` spelled `text`.
pub open spec fn respelled(name: NameView, text: Seq<char>) -> NameView {
    Spanned { value: text, span: name.span, origin: name.origin }
}

impl<'a> Site<'a> {
    pub open spec fn view(&self) -> SiteView {
        SiteView {
            document: self.document,
            span: self.span,
            hygiene_id: self.hygiene_id,
            alias: match self.alias {
                Some(alias) => Some(alias@),
                None => None,
            },
            symbols: crate::names::name_set(self.symbols@),
        }
    }

    fn owns(&self, origin: &Origin) -> (result: bool)
        ensures
            result == self@.owns(*origin),
    {
        let span = origin.primary_span();
        match origin.document_id() {
            Some(document) => document == self.document && self.span.start <= span.start && span.end <= self.span.end,
            None => false,
        }
    }

    fn qualified(&self, name: &String) -> (result: String)
        ensures
            result@ == self@.qualified(name@),
    {
        match self.alias {
            Some(alias) => {
                if !has_char(name.as_str(), '.') && has_name(self.symbols, name.as_str()) {
                    concat_three(alias.as_str(), ".", name.as_str())
                } else {
                    name.clone()
                }
            }
            None => name.clone(),
        }
    }

    fn reference(&self, origin: &Origin, name: &String) -> (result: String)
        ensures
            result@ == self@.reference(*origin, name@),
    {
        if self.owns(origin) {
            self.qualified(name)
        } else {
            name.clone()
        }
    }

    fn reference_name(&self, origin: &Origin, name: &Name) -> (result: Name)
        ensures
            view::name(result) == respelled(view::name(*name), self@.reference(*origin, name.value@)),
    {
        Spanned { value: self.reference(origin, &name.value), span: name.span, origin: name.origin.copy() }
    }

    fn resolve(&self, origin: &Origin, name: &String, bindings: &NameMap<String>) -> (result: String)
        requires
            bindings.well_formed(),
        ensures
            result@ == self@.resolve(*origin, name@, bindings.texts()),
    {
        if !self.owns(origin) {
            return name.clone();
        }
        match bindings.lookup(name.as_str()) {
            Some(fresh) => fresh,
            None => self.qualified(name),
        }
    }

    fn resolve_name(&self, origin: &Origin, name: &Name, bindings: &NameMap<String>) -> (result: Name)
        requires
            bindings.well_formed(),
        ensures
            view::name(result) == respelled(view::name(*name), self@.resolve(*origin, name.value@, bindings.texts())),
    {
        Spanned { value: self.resolve(origin, &name.value, bindings), span: name.span, origin: name.origin.copy() }
    }

    fn local_name(&self, origin: &Origin, name: &Name, bindings: &NameMap<String>) -> (result: Name)
        requires
            bindings.well_formed(),
        ensures
            view::name(result) == respelled(view::name(*name), self@.local(*origin, name.value@, bindings.texts())),
    {
        if self.owns(origin) {
            match bindings.lookup(name.value.as_str()) {
                Some(fresh) => {
                    return Spanned { value: fresh, span: name.span, origin: name.origin.copy() };
                }
                None => {}
            }
        }
        copy::name(name)
    }

    fn bind(&self, origin: &Origin, name: &Name, bindings: &mut NameMap<String>) -> (result: Name)
        requires
            old(bindings).well_formed(),
        ensures
            final(bindings).well_formed(),
            self@.bind(
                *origin,
                view::name(*name),
                old(bindings).texts(),
            ) == (view::name(result), final(bindings).texts()),
    {
        if self.owns(origin) {
            let digits = decimal_text(self.hygiene_id as u64);
            let fresh = concat_three(name.value.as_str(), "--macro-", digits.as_str());
            bindings.bind_text(name.value.clone(), fresh.clone());
            Spanned { value: fresh, span: name.span, origin: name.origin.copy() }
        } else {
            copy::name(name)
        }
    }
}

/// The type with the references of the definition qualified.
#[verifier::opaque]
pub open spec fn qualified_type_expr(node: TypeExprView, site: SiteView) -> TypeExprView
    decreases node, 0int,
{
    Spanned { value: match node.value {
            TypeExprKindView::Named(value) => TypeExprKindView::Named(site.reference(node.origin, value)),
            TypeExprKindView::Application { constructor, arguments } => {
                let arguments = qualified_type_exprs(arguments, site);
                TypeExprKindView::Application { constructor: respelled(constructor, site.reference(node.origin, constructor.value)), arguments }
            },
            TypeExprKindView::Record(values) => {
                let values = qualified_type_members(values, site);
                TypeExprKindView::Record(values)
            },
            TypeExprKindView::Tuple(values) => {
                let values = qualified_type_exprs(values, site);
                TypeExprKindView::Tuple(values)
            },
            TypeExprKindView::Array(value) => {
                let value = Box::new(qualified_type_expr(*value, site));
                TypeExprKindView::Array(value)
            },
            TypeExprKindView::Mapping(first, second) => {
                let first = Box::new(qualified_type_expr(*first, site));
                let second = Box::new(qualified_type_expr(*second, site));
                TypeExprKindView::Mapping(first, second)
            },
            TypeExprKindView::Union(values) => {
                let values = qualified_type_exprs(values, site);
                TypeExprKindView::Union(values)
            },
            TypeExprKindView::Enum(values) => {
                let values = qualified_type_members(values, site);
                TypeExprKindView::Enum(values)
            },
            TypeExprKindView::Interface(values) => {
                let values = qualified_type_members(values, site);
                TypeExprKindView::Interface(values)
            },
            TypeExprKindView::Function { parameters, result } => {
                let parameters = qualified_type_exprs(parameters, site);
                let result = Box::new(qualified_type_expr(*result, site));
                TypeExprKindView::Function { parameters, result }
            },
            TypeExprKindView::Newtype(value) => {
                let value = Box::new(qualified_type_expr(*value, site));
                TypeExprKindView::Newtype(value)
            },
            TypeExprKindView::Mutable(value) => {
                let value = Box::new(qualified_type_expr(*value, site));
                TypeExprKindView::Mutable(value)
            },
            TypeExprKindView::Reference(value) => {
                let value = Box::new(qualified_type_expr(*value, site));
                TypeExprKindView::Reference(value)
            },
            TypeExprKindView::MutableReference(value) => {
                let value = Box::new(qualified_type_expr(*value, site));
                TypeExprKindView::MutableReference(value)
            },
            TypeExprKindView::Intersect(values) => {
                let values = qualified_type_exprs(values, site);
                TypeExprKindView::Intersect(values)
            },
            TypeExprKindView::Domain { head, arguments } => {
                let arguments = qualified_type_exprs(arguments, site);
                TypeExprKindView::Domain { head: respelled(head, site.reference(node.origin, head.value)), arguments }
            },
        }, span: node.span, origin: node.origin }
}

pub(crate) fn qualify_type_expr(node: &TypeExpr, site: &Site) -> (result: TypeExpr)
    ensures
        view::type_expr(result) == qualified_type_expr(view::type_expr(*node), site@),
    decreases node,
{
    reveal(qualified_type_expr);
    reveal(view::type_kind);
    let value = match &node.value {
        TypeExprKind::Named(value) => TypeExprKind::Named(site.reference(&node.origin, value)),
        TypeExprKind::Application { constructor, arguments } => {
            let arguments = qualify_type_exprs(arguments, site);
            TypeExprKind::Application { constructor: site.reference_name(&node.origin, constructor), arguments }
        },
        TypeExprKind::Record(values) => {
            let values = qualify_type_members(values, site);
            TypeExprKind::Record(values)
        },
        TypeExprKind::Tuple(values) => {
            let values = qualify_type_exprs(values, site);
            TypeExprKind::Tuple(values)
        },
        TypeExprKind::Array(value) => {
            let value = qualify_type_expr(value, site);
            let value = Box::new(value);
            TypeExprKind::Array(value)
        },
        TypeExprKind::Mapping(first, second) => {
            let first = qualify_type_expr(first, site);
            let first = Box::new(first);
            let second = qualify_type_expr(second, site);
            let second = Box::new(second);
            TypeExprKind::Mapping(first, second)
        },
        TypeExprKind::Union(values) => {
            let values = qualify_type_exprs(values, site);
            TypeExprKind::Union(values)
        },
        TypeExprKind::Enum(values) => {
            let values = qualify_type_members(values, site);
            TypeExprKind::Enum(values)
        },
        TypeExprKind::Interface(values) => {
            let values = qualify_type_members(values, site);
            TypeExprKind::Interface(values)
        },
        TypeExprKind::Function { parameters, result } => {
            let parameters = qualify_type_exprs(parameters, site);
            let result = qualify_type_expr(result, site);
            let result = Box::new(result);
            TypeExprKind::Function { parameters, result }
        },
        TypeExprKind::Newtype(value) => {
            let value = qualify_type_expr(value, site);
            let value = Box::new(value);
            TypeExprKind::Newtype(value)
        },
        TypeExprKind::Mutable(value) => {
            let value = qualify_type_expr(value, site);
            let value = Box::new(value);
            TypeExprKind::Mutable(value)
        },
        TypeExprKind::Reference(value) => {
            let value = qualify_type_expr(value, site);
            let value = Box::new(value);
            TypeExprKind::Reference(value)
        },
        TypeExprKind::MutableReference(value) => {
            let value = qualify_type_expr(value, site);
            let value = Box::new(value);
            TypeExprKind::MutableReference(value)
        },
        TypeExprKind::Intersect(values) => {
            let values = qualify_type_exprs(values, site);
            TypeExprKind::Intersect(values)
        },
        TypeExprKind::Domain { head, arguments } => {
            let arguments = qualify_type_exprs(arguments, site);
            TypeExprKind::Domain { head: site.reference_name(&node.origin, head), arguments }
        },
    };
    Spanned { value, span: node.span, origin: node.origin.copy() }
}

pub open spec fn qualified_type_exprs(nodes: Seq<TypeExprView>, site: SiteView) -> Seq<TypeExprView>
    decreases nodes, 0int,
{
    Seq::new(nodes.len(), |i: int| if 0 <= i < nodes.len() { qualified_type_expr(nodes[i], site) } else { arbitrary() })
}

fn qualify_type_exprs(nodes: &Vec<TypeExpr>, site: &Site) -> (result: Vec<TypeExpr>)
    ensures
        view::type_exprs(result@) == qualified_type_exprs(view::type_exprs(nodes@), site@),
    decreases nodes,
{
    reveal(qualified_type_expr);
    let mut done: Vec<TypeExpr> = Vec::new();
    let mut i: usize = 0;
    while i < nodes.len()
        invariant
            i <= nodes.len(),
            done@.len() == i,
            forall|j: int| 0 <= j < i ==> view::type_expr(#[trigger] done@[j]) == qualified_type_expr(
                view::type_exprs(nodes@)[j],
                site@,
            ),
        decreases nodes.len() - i,
    {
        reveal(qualified_type_expr);
        assert(view::type_exprs(nodes@)[i as int] == view::type_expr(nodes@[i as int]));
        let value = qualify_type_expr(&nodes[i], site);
        done.push(value);
        i += 1;
    }
    assert(view::type_exprs(done@) =~= qualified_type_exprs(view::type_exprs(nodes@), site@));
    done
}

pub open spec fn qualified_type_member(node: TypeMemberView, site: SiteView) -> TypeMemberView
    decreases node, 0int,
{
    let ty = qualified_type_expr(node.ty, site);
    TypeMemberView { name: node.name, ty, span: node.span }
}

fn qualify_type_member(node: &TypeMember, site: &Site) -> (result: TypeMember)
    ensures
        view::type_member(result) == qualified_type_member(view::type_member(*node), site@),
    decreases node,
{
    reveal(qualified_type_expr);
    let ty = qualify_type_expr(&node.ty, site);
    TypeMember { name: copy::name(&node.name), ty, span: node.span }
}

pub open spec fn qualified_type_members(nodes: Seq<TypeMemberView>, site: SiteView) -> Seq<TypeMemberView>
    decreases nodes, 0int,
{
    Seq::new(nodes.len(), |i: int| if 0 <= i < nodes.len() { qualified_type_member(nodes[i], site) } else { arbitrary() })
}

fn qualify_type_members(nodes: &Vec<TypeMember>, site: &Site) -> (result: Vec<TypeMember>)
    ensures
        view::type_members(result@) == qualified_type_members(view::type_members(nodes@), site@),
    decreases nodes,
{
    reveal(qualified_type_expr);
    let mut done: Vec<TypeMember> = Vec::new();
    let mut i: usize = 0;
    while i < nodes.len()
        invariant
            i <= nodes.len(),
            done@.len() == i,
            forall|j: int| 0 <= j < i ==> view::type_member(#[trigger] done@[j]) == qualified_type_member(
                view::type_members(nodes@)[j],
                site@,
            ),
        decreases nodes.len() - i,
    {
        reveal(qualified_type_expr);
        assert(view::type_members(nodes@)[i as int] == view::type_member(nodes@[i as int]));
        let value = qualify_type_member(&nodes[i], site);
        done.push(value);
        i += 1;
    }
    assert(view::type_members(done@) =~= qualified_type_members(view::type_members(nodes@), site@));
    done
}

/// The pattern with the references of the definition qualified.
#[verifier::opaque]
pub open spec fn qualified_pattern(node: PatternView, site: SiteView) -> PatternView
    decreases node, 0int,
{
    Spanned { value: match node.value {
            PatternKindView::Literal(value) => PatternKindView::Literal(value),
            PatternKindView::Wildcard => PatternKindView::Wildcard,
            PatternKindView::Bind(value) => PatternKindView::Bind(value),
            PatternKindView::Constructor { constructor, arguments } => {
                let arguments = qualified_patterns(arguments, site);
                PatternKindView::Constructor { constructor: respelled(constructor, site.reference(node.origin, constructor.value)), arguments }
            },
            PatternKindView::Record(values) => {
                let values = qualified_pattern_fields(values, site);
                PatternKindView::Record(values)
            },
            PatternKindView::Tuple(values) => {
                let values = qualified_patterns(values, site);
                PatternKindView::Tuple(values)
            },
            PatternKindView::Array(values) => {
                let values = qualified_patterns(values, site);
                PatternKindView::Array(values)
            },
            PatternKindView::Mapping(values) => {
                let values = qualified_pattern_pairs(values, site);
                PatternKindView::Mapping(values)
            },
            PatternKindView::Newtype { ty, pattern } => {
                let ty = qualified_type_expr(ty, site);
                let pattern = Box::new(qualified_pattern(*pattern, site));
                PatternKindView::Newtype { ty, pattern }
            },
            PatternKindView::Interface { ty, pattern } => {
                let ty = qualified_type_expr(ty, site);
                let pattern = Box::new(qualified_pattern(*pattern, site));
                PatternKindView::Interface { ty, pattern }
            },
        }, span: node.span, origin: node.origin }
}

pub(crate) fn qualify_pattern(node: &Pattern, site: &Site) -> (result: Pattern)
    ensures
        view::pattern(result) == qualified_pattern(view::pattern(*node), site@),
    decreases node,
{
    reveal(qualified_pattern);
    reveal(view::pattern_kind);
    let value = match &node.value {
        PatternKind::Literal(value) => PatternKind::Literal(copy::literal(value)),
        PatternKind::Wildcard => PatternKind::Wildcard,
        PatternKind::Bind(value) => PatternKind::Bind(copy::name(value)),
        PatternKind::Constructor { constructor, arguments } => {
            let arguments = qualify_patterns(arguments, site);
            PatternKind::Constructor { constructor: site.reference_name(&node.origin, constructor), arguments }
        },
        PatternKind::Record(values) => {
            let values = qualify_pattern_fields(values, site);
            PatternKind::Record(values)
        },
        PatternKind::Tuple(values) => {
            let values = qualify_patterns(values, site);
            PatternKind::Tuple(values)
        },
        PatternKind::Array(values) => {
            let values = qualify_patterns(values, site);
            PatternKind::Array(values)
        },
        PatternKind::Mapping(values) => {
            let values = qualify_pattern_pairs(values, site);
            PatternKind::Mapping(values)
        },
        PatternKind::Newtype { ty, pattern } => {
            let ty = qualify_type_expr(ty, site);
            let pattern = qualify_pattern(pattern, site);
            let pattern = Box::new(pattern);
            PatternKind::Newtype { ty, pattern }
        },
        PatternKind::Interface { ty, pattern } => {
            let ty = qualify_type_expr(ty, site);
            let pattern = qualify_pattern(pattern, site);
            let pattern = Box::new(pattern);
            PatternKind::Interface { ty, pattern }
        },
    };
    Spanned { value, span: node.span, origin: node.origin.copy() }
}

pub open spec fn qualified_patterns(nodes: Seq<PatternView>, site: SiteView) -> Seq<PatternView>
    decreases nodes, 0int,
{
    Seq::new(nodes.len(), |i: int| if 0 <= i < nodes.len() { qualified_pattern(nodes[i], site) } else { arbitrary() })
}

fn qualify_patterns(nodes: &Vec<Pattern>, site: &Site) -> (result: Vec<Pattern>)
    ensures
        view::patterns(result@) == qualified_patterns(view::patterns(nodes@), site@),
    decreases nodes,
{
    reveal(qualified_pattern);
    let mut done: Vec<Pattern> = Vec::new();
    let mut i: usize = 0;
    while i < nodes.len()
        invariant
            i <= nodes.len(),
            done@.len() == i,
            forall|j: int| 0 <= j < i ==> view::pattern(#[trigger] done@[j]) == qualified_pattern(
                view::patterns(nodes@)[j],
                site@,
            ),
        decreases nodes.len() - i,
    {
        reveal(qualified_pattern);
        assert(view::patterns(nodes@)[i as int] == view::pattern(nodes@[i as int]));
        let value = qualify_pattern(&nodes[i], site);
        done.push(value);
        i += 1;
    }
    assert(view::patterns(done@) =~= qualified_patterns(view::patterns(nodes@), site@));
    done
}

pub open spec fn qualified_pattern_field(node: PatternFieldView, site: SiteView) -> PatternFieldView
    decreases node, 0int,
{
    let pattern = qualified_pattern(node.pattern, site);
    PatternFieldView { name: node.name, pattern, span: node.span }
}

fn qualify_pattern_field(node: &PatternField, site: &Site) -> (result: PatternField)
    ensures
        view::pattern_field(result) == qualified_pattern_field(view::pattern_field(*node), site@),
    decreases node,
{
    reveal(qualified_pattern);
    let pattern = qualify_pattern(&node.pattern, site);
    PatternField { name: copy::name(&node.name), pattern, span: node.span }
}

pub open spec fn qualified_pattern_fields(nodes: Seq<PatternFieldView>, site: SiteView) -> Seq<PatternFieldView>
    decreases nodes, 0int,
{
    Seq::new(nodes.len(), |i: int| if 0 <= i < nodes.len() { qualified_pattern_field(nodes[i], site) } else { arbitrary() })
}

fn qualify_pattern_fields(nodes: &Vec<PatternField>, site: &Site) -> (result: Vec<PatternField>)
    ensures
        view::pattern_fields(result@) == qualified_pattern_fields(view::pattern_fields(nodes@), site@),
    decreases nodes,
{
    reveal(qualified_pattern);
    let mut done: Vec<PatternField> = Vec::new();
    let mut i: usize = 0;
    while i < nodes.len()
        invariant
            i <= nodes.len(),
            done@.len() == i,
            forall|j: int| 0 <= j < i ==> view::pattern_field(#[trigger] done@[j]) == qualified_pattern_field(
                view::pattern_fields(nodes@)[j],
                site@,
            ),
        decreases nodes.len() - i,
    {
        reveal(qualified_pattern);
        assert(view::pattern_fields(nodes@)[i as int] == view::pattern_field(nodes@[i as int]));
        let value = qualify_pattern_field(&nodes[i], site);
        done.push(value);
        i += 1;
    }
    assert(view::pattern_fields(done@) =~= qualified_pattern_fields(view::pattern_fields(nodes@), site@));
    done
}

pub open spec fn qualified_pattern_pair(node: (PatternView, PatternView), site: SiteView) -> (PatternView, PatternView)
    decreases node, 0int,
{
    let key = qualified_pattern(node.0, site);
    let value = qualified_pattern(node.1, site);
    (key, value)
}

fn qualify_pattern_pair(node: &(Pattern, Pattern), site: &Site) -> (result: (Pattern, Pattern))
    ensures
        (view::pattern(result.0), view::pattern(result.1)) == qualified_pattern_pair(
            (view::pattern(node.0), view::pattern(node.1)),
            site@,
        ),
    decreases node,
{
    reveal(qualified_pattern);
    let key = qualify_pattern(&node.0, site);
    let value = qualify_pattern(&node.1, site);
    (key, value)
}

pub open spec fn qualified_pattern_pairs(
    nodes: Seq<(PatternView, PatternView)>,
    site: SiteView,
) -> Seq<(PatternView, PatternView)>
    decreases nodes, 0int,
{
    Seq::new(nodes.len(), |i: int| if 0 <= i < nodes.len() { qualified_pattern_pair(nodes[i], site) } else { arbitrary() })
}

fn qualify_pattern_pairs(nodes: &Vec<(Pattern, Pattern)>, site: &Site) -> (result: Vec<(Pattern, Pattern)>)
    ensures
        view::pattern_pairs(result@) == qualified_pattern_pairs(view::pattern_pairs(nodes@), site@),
    decreases nodes,
{
    reveal(qualified_pattern);
    let mut done: Vec<(Pattern, Pattern)> = Vec::new();
    let mut i: usize = 0;
    while i < nodes.len()
        invariant
            i <= nodes.len(),
            done@.len() == i,
            forall|j: int| 0 <= j < i ==> (
                view::pattern((#[trigger] done@[j]).0),
                view::pattern(done@[j].1),
            ) == qualified_pattern_pair(view::pattern_pairs(nodes@)[j], site@),
        decreases nodes.len() - i,
    {
        reveal(qualified_pattern);
        assert(
            view::pattern_pairs(nodes@)[i as int] == (
                view::pattern(nodes@[i as int].0),
                view::pattern(nodes@[i as int].1),
            )
        );
        let value = qualify_pattern_pair(&nodes[i], site);
        done.push(value);
        i += 1;
    }
    assert(view::pattern_pairs(done@) =~= qualified_pattern_pairs(view::pattern_pairs(nodes@), site@));
    done
}

#[verifier::opaque]
pub open spec fn qualified_optional_type_expr(node: Option<TypeExprView>, site: SiteView) -> Option<TypeExprView>
    decreases node, 0int,
{
    match node {
        None => None,
        Some(inner) => Some(qualified_type_expr(inner, site)),
    }
}

pub(crate) fn qualify_optional_type_expr(node: &Option<TypeExpr>, site: &Site) -> (result: Option<TypeExpr>)
    ensures
        match result { None => None, Some(inner) => Some(view::type_expr(inner)) }
            == qualified_optional_type_expr(match *node {
                None => None,
                Some(inner) => Some(view::type_expr(inner)),
            }, site@),
    decreases node,
{
    reveal(qualified_optional_type_expr);
    match node {
        None => None,
        Some(inner) => {
            let inner = qualify_type_expr(inner, site);
            Some(inner)
        }
    }
}

/// The pattern with the bindings of the definition renamed, and the scope that
/// it opens.
#[verifier::opaque]
pub open spec fn hygienic_pattern(
    node: PatternView,
    site: SiteView,
    bindings: Map<Seq<char>, Seq<char>>,
) -> (PatternView, Map<Seq<char>, Seq<char>>)
    decreases node, 0int,
{
    let (value, bindings) = match node.value {
        PatternKindView::Literal(value) => (PatternKindView::Literal(value), bindings),
        PatternKindView::Wildcard => (PatternKindView::Wildcard, bindings),
        PatternKindView::Bind(value) => {
            let (value, bindings) = site.bind(node.origin, value, bindings);
            (PatternKindView::Bind(value), bindings)
        },
        PatternKindView::Constructor { constructor, arguments } => {
            let (arguments, bindings) = hygienic_patterns(arguments, 0, Seq::empty(), site, bindings);
            (PatternKindView::Constructor { constructor, arguments }, bindings)
        },
        PatternKindView::Record(values) => {
            let (values, bindings) = hygienic_pattern_fields(values, 0, Seq::empty(), site, bindings);
            (PatternKindView::Record(values), bindings)
        },
        PatternKindView::Tuple(values) => {
            let (values, bindings) = hygienic_patterns(values, 0, Seq::empty(), site, bindings);
            (PatternKindView::Tuple(values), bindings)
        },
        PatternKindView::Array(values) => {
            let (values, bindings) = hygienic_patterns(values, 0, Seq::empty(), site, bindings);
            (PatternKindView::Array(values), bindings)
        },
        PatternKindView::Mapping(values) => {
            let (values, bindings) = hygienic_pattern_pairs(values, 0, Seq::empty(), site, bindings);
            (PatternKindView::Mapping(values), bindings)
        },
        PatternKindView::Newtype { ty, pattern } => {
            let (pattern, bindings) = hygienic_pattern(*pattern, site, bindings);
            let pattern = Box::new(pattern);
            (PatternKindView::Newtype { ty, pattern }, bindings)
        },
        PatternKindView::Interface { ty, pattern } => {
            let (pattern, bindings) = hygienic_pattern(*pattern, site, bindings);
            let pattern = Box::new(pattern);
            (PatternKindView::Interface { ty, pattern }, bindings)
        },
    };
    (Spanned { value, span: node.span, origin: node.origin }, bindings)
}

pub(crate) fn hygienize_pattern(node: &Pattern, site: &Site, bindings: &mut NameMap<String>) -> (result: Pattern)
    requires
        old(bindings).well_formed(),
    ensures
        hygienic_pattern(
            view::pattern(*node),
            site@,
            old(bindings).texts(),
        ) == (view::pattern(result), final(bindings).texts()),
        final(bindings).well_formed(),
    decreases node,
{
    reveal(hygienic_pattern);
    reveal(view::pattern_kind);
    let value = match &node.value {
        PatternKind::Literal(value) => PatternKind::Literal(copy::literal(value)),
        PatternKind::Wildcard => PatternKind::Wildcard,
        PatternKind::Bind(value) => {
            let value = site.bind(&node.origin, value, bindings);
            PatternKind::Bind(value)
        },
        PatternKind::Constructor { constructor, arguments } => {
            let arguments = hygienize_patterns(arguments, site, bindings);
            PatternKind::Constructor { constructor: copy::name(constructor), arguments }
        },
        PatternKind::Record(values) => {
            let values = hygienize_pattern_fields(values, site, bindings);
            PatternKind::Record(values)
        },
        PatternKind::Tuple(values) => {
            let values = hygienize_patterns(values, site, bindings);
            PatternKind::Tuple(values)
        },
        PatternKind::Array(values) => {
            let values = hygienize_patterns(values, site, bindings);
            PatternKind::Array(values)
        },
        PatternKind::Mapping(values) => {
            let values = hygienize_pattern_pairs(values, site, bindings);
            PatternKind::Mapping(values)
        },
        PatternKind::Newtype { ty, pattern } => {
            let pattern = hygienize_pattern(pattern, site, bindings);
            let pattern = Box::new(pattern);
            PatternKind::Newtype { ty: copy::type_expr(ty), pattern }
        },
        PatternKind::Interface { ty, pattern } => {
            let pattern = hygienize_pattern(pattern, site, bindings);
            let pattern = Box::new(pattern);
            PatternKind::Interface { ty: copy::type_expr(ty), pattern }
        },
    };
    Spanned { value, span: node.span, origin: node.origin.copy() }
}

pub open spec fn hygienic_patterns(
    nodes: Seq<PatternView>,
    from: int,
    done: Seq<PatternView>,
    site: SiteView,
    bindings: Map<Seq<char>, Seq<char>>,
) -> (Seq<PatternView>, Map<Seq<char>, Seq<char>>)
    decreases nodes, nodes.len() - from,
{
    if from < 0 || from >= nodes.len() {
        (done, bindings)
    } else {
        let (value, bindings) = hygienic_pattern(nodes[from], site, bindings);
        hygienic_patterns(nodes, from + 1, done.push(value), site, bindings)
    }
}

fn hygienize_patterns(nodes: &Vec<Pattern>, site: &Site, bindings: &mut NameMap<String>) -> (result: Vec<Pattern>)
    requires
        old(bindings).well_formed(),
    ensures
        hygienic_patterns(
            view::patterns(nodes@),
            0,
            Seq::empty(),
            site@,
            old(bindings).texts(),
        ) == (view::patterns(result@), final(bindings).texts()),
        final(bindings).well_formed(),
    decreases nodes,
{
    reveal(hygienic_pattern);
    let ghost start = bindings.texts();
    let ghost all = view::patterns(nodes@);
    let mut done: Vec<Pattern> = Vec::new();
    let mut i: usize = 0;
    assert(view::patterns(done@) =~= Seq::<PatternView>::empty());
    while i < nodes.len()
        invariant
            i <= nodes.len(),
            all == view::patterns(nodes@),
            start == old(bindings).texts(),
            bindings.well_formed(),
            hygienic_patterns(all, 0, Seq::empty(), site@, start) == hygienic_patterns(
                all,
                i as int,
                view::patterns(done@),
                site@,
                bindings.texts(),
            ),
        decreases nodes.len() - i,
    {
        let ghost before = done@;
        reveal(hygienic_pattern);
        assert(all[i as int] == view::pattern(nodes@[i as int]));
        let value = hygienize_pattern(&nodes[i], site, bindings);
        done.push(value);
        proof {
            view::lemma_patterns_push(before, done@.last());
        }
        i += 1;
    }
    done
}

pub open spec fn hygienic_pattern_field(
    node: PatternFieldView,
    site: SiteView,
    bindings: Map<Seq<char>, Seq<char>>,
) -> (PatternFieldView, Map<Seq<char>, Seq<char>>)
    decreases node, 0int,
{
    let (pattern, bindings) = hygienic_pattern(node.pattern, site, bindings);
    (PatternFieldView { name: node.name, pattern, span: node.span }, bindings)
}

fn hygienize_pattern_field(node: &PatternField, site: &Site, bindings: &mut NameMap<String>) -> (result: PatternField)
    requires
        old(bindings).well_formed(),
    ensures
        hygienic_pattern_field(
            view::pattern_field(*node),
            site@,
            old(bindings).texts(),
        ) == (view::pattern_field(result), final(bindings).texts()),
        final(bindings).well_formed(),
    decreases node,
{
    reveal(hygienic_pattern);
    let pattern = hygienize_pattern(&node.pattern, site, bindings);
    PatternField { name: copy::name(&node.name), pattern, span: node.span }
}

pub open spec fn hygienic_pattern_fields(
    nodes: Seq<PatternFieldView>,
    from: int,
    done: Seq<PatternFieldView>,
    site: SiteView,
    bindings: Map<Seq<char>, Seq<char>>,
) -> (Seq<PatternFieldView>, Map<Seq<char>, Seq<char>>)
    decreases nodes, nodes.len() - from,
{
    if from < 0 || from >= nodes.len() {
        (done, bindings)
    } else {
        let (value, bindings) = hygienic_pattern_field(nodes[from], site, bindings);
        hygienic_pattern_fields(nodes, from + 1, done.push(value), site, bindings)
    }
}

fn hygienize_pattern_fields(
    nodes: &Vec<PatternField>,
    site: &Site,
    bindings: &mut NameMap<String>,
) -> (result: Vec<PatternField>)
    requires
        old(bindings).well_formed(),
    ensures
        hygienic_pattern_fields(
            view::pattern_fields(nodes@),
            0,
            Seq::empty(),
            site@,
            old(bindings).texts(),
        ) == (view::pattern_fields(result@), final(bindings).texts()),
        final(bindings).well_formed(),
    decreases nodes,
{
    reveal(hygienic_pattern);
    let ghost start = bindings.texts();
    let ghost all = view::pattern_fields(nodes@);
    let mut done: Vec<PatternField> = Vec::new();
    let mut i: usize = 0;
    assert(view::pattern_fields(done@) =~= Seq::<PatternFieldView>::empty());
    while i < nodes.len()
        invariant
            i <= nodes.len(),
            all == view::pattern_fields(nodes@),
            start == old(bindings).texts(),
            bindings.well_formed(),
            hygienic_pattern_fields(all, 0, Seq::empty(), site@, start) == hygienic_pattern_fields(
                all,
                i as int,
                view::pattern_fields(done@),
                site@,
                bindings.texts(),
            ),
        decreases nodes.len() - i,
    {
        let ghost before = done@;
        reveal(hygienic_pattern);
        assert(all[i as int] == view::pattern_field(nodes@[i as int]));
        let value = hygienize_pattern_field(&nodes[i], site, bindings);
        done.push(value);
        proof {
            view::lemma_pattern_fields_push(before, done@.last());
        }
        i += 1;
    }
    done
}

pub open spec fn hygienic_pattern_pair(
    node: (PatternView, PatternView),
    site: SiteView,
    bindings: Map<Seq<char>, Seq<char>>,
) -> ((PatternView, PatternView), Map<Seq<char>, Seq<char>>)
    decreases node, 0int,
{
    let (key, bindings) = hygienic_pattern(node.0, site, bindings);
    let (value, bindings) = hygienic_pattern(node.1, site, bindings);
    ((key, value), bindings)
}

fn hygienize_pattern_pair(
    node: &(Pattern, Pattern),
    site: &Site,
    bindings: &mut NameMap<String>,
) -> (result: (Pattern, Pattern))
    requires
        old(bindings).well_formed(),
    ensures
        hygienic_pattern_pair(
            (view::pattern(node.0), view::pattern(node.1)),
            site@,
            old(bindings).texts(),
        ) == ((view::pattern(result.0), view::pattern(result.1)), final(bindings).texts()),
        final(bindings).well_formed(),
    decreases node,
{
    reveal(hygienic_pattern);
    let key = hygienize_pattern(&node.0, site, bindings);
    let value = hygienize_pattern(&node.1, site, bindings);
    (key, value)
}

pub open spec fn hygienic_pattern_pairs(
    nodes: Seq<(PatternView, PatternView)>,
    from: int,
    done: Seq<(PatternView, PatternView)>,
    site: SiteView,
    bindings: Map<Seq<char>, Seq<char>>,
) -> (Seq<(PatternView, PatternView)>, Map<Seq<char>, Seq<char>>)
    decreases nodes, nodes.len() - from,
{
    if from < 0 || from >= nodes.len() {
        (done, bindings)
    } else {
        let (value, bindings) = hygienic_pattern_pair(nodes[from], site, bindings);
        hygienic_pattern_pairs(nodes, from + 1, done.push(value), site, bindings)
    }
}

fn hygienize_pattern_pairs(
    nodes: &Vec<(Pattern, Pattern)>,
    site: &Site,
    bindings: &mut NameMap<String>,
) -> (result: Vec<(Pattern, Pattern)>)
    requires
        old(bindings).well_formed(),
    ensures
        hygienic_pattern_pairs(
            view::pattern_pairs(nodes@),
            0,
            Seq::empty(),
            site@,
            old(bindings).texts(),
        ) == (view::pattern_pairs(result@), final(bindings).texts()),
        final(bindings).well_formed(),
    decreases nodes,
{
    reveal(hygienic_pattern);
    let ghost start = bindings.texts();
    let ghost all = view::pattern_pairs(nodes@);
    let mut done: Vec<(Pattern, Pattern)> = Vec::new();
    let mut i: usize = 0;
    assert(view::pattern_pairs(done@) =~= Seq::<(PatternView, PatternView)>::empty());
    while i < nodes.len()
        invariant
            i <= nodes.len(),
            all == view::pattern_pairs(nodes@),
            start == old(bindings).texts(),
            bindings.well_formed(),
            hygienic_pattern_pairs(all, 0, Seq::empty(), site@, start) == hygienic_pattern_pairs(
                all,
                i as int,
                view::pattern_pairs(done@),
                site@,
                bindings.texts(),
            ),
        decreases nodes.len() - i,
    {
        let ghost before = done@;
        reveal(hygienic_pattern);
        assert(all[i as int] == (view::pattern(nodes@[i as int].0), view::pattern(nodes@[i as int].1)));
        let value = hygienize_pattern_pair(&nodes[i], site, bindings);
        done.push(value);
        proof {
            view::lemma_pattern_pairs_push(before, done@.last());
        }
        i += 1;
    }
    done
}

/// The expression with the bindings of the definition renamed and its references
/// resolved, and the scope after it. Blocks, match arms and the elements of data
/// literals each see their own copy of the scope.
pub open spec fn hygienic_expr(
    node: ExprView,
    site: SiteView,
    bindings: Map<Seq<char>, Seq<char>>,
) -> (ExprView, Map<Seq<char>, Seq<char>>)
    decreases node, 0int,
{
    let (value, bindings) = match node.value {
        ExprKindView::Literal(value) => (ExprKindView::Literal(value), bindings),
        ExprKindView::Reference(value) => (
            ExprKindView::Reference(site.resolve(node.origin, value, bindings)),
            bindings,
        ),
        ExprKindView::Call { callee, arguments } => {
            let callee = respelled(callee, site.resolve(node.origin, callee.value, bindings));
            let (arguments, bindings) = hygienic_exprs(arguments, 0, Seq::empty(), site, bindings);
            (ExprKindView::Call { callee, arguments }, bindings)
        },
        ExprKindView::Do(values) => {
            let (values, bindings) = hygienic_exprs(values, 0, Seq::empty(), site, bindings);
            (ExprKindView::Do(values), bindings)
        },
        ExprKindView::Let { name, ty, value } => {
            let ty = qualified_optional_type_expr(ty, site);
            let (value, bindings) = hygienic_expr(*value, site, bindings);
            let (name, bindings) = site.bind(node.origin, name, bindings);
            (ExprKindView::Let { name, ty, value: Box::new(value) }, bindings)
        },
        ExprKindView::Assign { name, value } => {
            let name = respelled(name, site.local(node.origin, name.value, bindings));
            let (value, bindings) = hygienic_expr(*value, site, bindings);
            (ExprKindView::Assign { name, value: Box::new(value) }, bindings)
        },
        ExprKindView::Return(value) => {
            let (value, bindings) = hygienic_optional_expr(value, site, bindings);
            (ExprKindView::Return(value), bindings)
        },
        ExprKindView::If { condition, then_body, else_body } => {
            let (condition, bindings) = hygienic_expr(*condition, site, bindings);
            let (then_body, _) = hygienic_exprs(then_body, 0, Seq::empty(), site, bindings);
            let (else_body, _) = hygienic_exprs(else_body, 0, Seq::empty(), site, bindings);
            (ExprKindView::If { condition: Box::new(condition), then_body, else_body }, bindings)
        },
        ExprKindView::While { condition, body } => {
            let (condition, bindings) = hygienic_expr(*condition, site, bindings);
            let (body, _) = hygienic_exprs(body, 0, Seq::empty(), site, bindings);
            (ExprKindView::While { condition: Box::new(condition), body }, bindings)
        },
        ExprKindView::For { binding, source, body } => {
            let (source, bindings) = hygienic_expr(*source, site, bindings);
            let (binding, scope) = site.bind(node.origin, binding, bindings);
            let (body, _) = hygienic_exprs(body, 0, Seq::empty(), site, scope);
            (ExprKindView::For { binding, source: Box::new(source), body }, bindings)
        },
        ExprKindView::Match { target, cases } => {
            let (target, bindings) = hygienic_expr(*target, site, bindings);
            (
                ExprKindView::Match { target: Box::new(target), cases: isolated_match_cases(cases, site, bindings) },
                bindings,
            )
        },
        ExprKindView::Break => (ExprKindView::Break, bindings),
        ExprKindView::Continue => (ExprKindView::Continue, bindings),
        ExprKindView::Record(values) => (ExprKindView::Record(isolated_expr_fields(values, site, bindings)), bindings),
        ExprKindView::Tuple(values) => (ExprKindView::Tuple(isolated_exprs(values, site, bindings)), bindings),
        ExprKindView::Array(values) => (ExprKindView::Array(isolated_exprs(values, site, bindings)), bindings),
        ExprKindView::Mapping(values) => (ExprKindView::Mapping(isolated_expr_pairs(values, site, bindings)), bindings),
        ExprKindView::Mutable(value) => {
            let (value, bindings) = hygienic_expr(*value, site, bindings);
            let value = Box::new(value);
            (ExprKindView::Mutable(value), bindings)
        },
        ExprKindView::ReferenceOf(value) => {
            let (value, bindings) = hygienic_expr(*value, site, bindings);
            let value = Box::new(value);
            (ExprKindView::ReferenceOf(value), bindings)
        },
        ExprKindView::Range(first, second, third) => {
            let (first, _) = hygienic_expr(*first, site, bindings);
            let (second, _) = hygienic_expr(*second, site, bindings);
            let (third, _) = hygienic_expr(*third, site, bindings);
            (ExprKindView::Range(Box::new(first), Box::new(second), Box::new(third)), bindings)
        },
        ExprKindView::Convert { value, into, fallback } => {
            let (value, bindings) = hygienic_expr(*value, site, bindings);
            (
                ExprKindView::Convert { value: Box::new(value), into: qualified_type_expr(into, site), fallback },
                bindings,
            )
        },
        ExprKindView::Cast { value, into } => {
            let (value, bindings) = hygienic_expr(*value, site, bindings);
            (ExprKindView::Cast { value: Box::new(value), into: qualified_type_expr(into, site) }, bindings)
        },
        ExprKindView::Task { captures, body } => {
            let (body, _) = hygienic_exprs(body, 0, Seq::empty(), site, bindings);
            (ExprKindView::Task { captures: local_names(captures, node.origin, site, bindings), body }, bindings)
        },
        ExprKindView::Spawn { handle, captures, value } => {
            let captures = local_names(captures, node.origin, site, bindings);
            let (value, bindings) = hygienic_expr(*value, site, bindings);
            let (handle, bindings) = site.bind(node.origin, handle, bindings);
            (ExprKindView::Spawn { handle, captures, value: Box::new(value) }, bindings)
        },
        ExprKindView::Join { handle, binding } => {
            let handle = respelled(handle, site.local(node.origin, handle.value, bindings));
            let (binding, bindings) = site.bind(node.origin, binding, bindings);
            (ExprKindView::Join { handle, binding }, bindings)
        },
    };
    (Spanned { value, span: node.span, origin: node.origin }, bindings)
}

pub(crate) fn hygienize_expr(node: &Expr, site: &Site, bindings: &mut NameMap<String>) -> (result: Expr)
    requires
        old(bindings).well_formed(),
    ensures
        hygienic_expr(view::expr(*node), site@, old(bindings).texts()) == (view::expr(result), final(bindings).texts()),
        final(bindings).well_formed(),
    decreases node, 0int,
{
    reveal(view::expr_kind);
    let value = match &node.value {
        ExprKind::Literal(value) => ExprKind::Literal(copy::literal(value)),
        ExprKind::Reference(value) => ExprKind::Reference(site.resolve(&node.origin, value, bindings)),
        ExprKind::Call { callee, arguments } => {
            let callee = site.resolve_name(&node.origin, callee, bindings);
            let arguments = hygienize_exprs(arguments, site, bindings);
            ExprKind::Call { callee, arguments }
        },
        ExprKind::Do(values) => {
            let values = hygienize_exprs(values, site, bindings);
            ExprKind::Do(values)
        },
        ExprKind::Let { name, ty, value } => {
            let ty = qualify_optional_type_expr(ty, site);
            let value = hygienize_expr(value, site, bindings);
            let name = site.bind(&node.origin, name, bindings);
            ExprKind::Let { name, ty, value: Box::new(value) }
        },
        ExprKind::Assign { name, value } => {
            let name = site.local_name(&node.origin, name, bindings);
            let value = hygienize_expr(value, site, bindings);
            ExprKind::Assign { name, value: Box::new(value) }
        },
        ExprKind::Return(value) => {
            let value = hygienize_optional_expr(value, site, bindings);
            ExprKind::Return(value)
        },
        ExprKind::If { condition, then_body, else_body } => {
            let condition = hygienize_expr(condition, site, bindings);
            let then_body = hygienize_block(then_body, site, bindings);
            let else_body = hygienize_block(else_body, site, bindings);
            ExprKind::If { condition: Box::new(condition), then_body, else_body }
        },
        ExprKind::While { condition, body } => {
            let condition = hygienize_expr(condition, site, bindings);
            let body = hygienize_block(body, site, bindings);
            ExprKind::While { condition: Box::new(condition), body }
        },
        ExprKind::For { binding, source, body } => {
            let source = hygienize_expr(source, site, bindings);
            let mut scope = bindings.copy();
            let binding = site.bind(&node.origin, binding, &mut scope);
            let body = hygienize_exprs(body, site, &mut scope);
            ExprKind::For { binding, source: Box::new(source), body }
        },
        ExprKind::Match { target, cases } => {
            let target = hygienize_expr(target, site, bindings);
            let cases = isolate_match_cases(cases, site, bindings);
            ExprKind::Match { target: Box::new(target), cases }
        },
        ExprKind::Break => ExprKind::Break,
        ExprKind::Continue => ExprKind::Continue,
        ExprKind::Record(values) => ExprKind::Record(isolate_expr_fields(values, site, bindings)),
        ExprKind::Tuple(values) => ExprKind::Tuple(isolate_exprs(values, site, bindings)),
        ExprKind::Array(values) => ExprKind::Array(isolate_exprs(values, site, bindings)),
        ExprKind::Mapping(values) => ExprKind::Mapping(isolate_expr_pairs(values, site, bindings)),
        ExprKind::Mutable(value) => {
            let value = hygienize_expr(value, site, bindings);
            let value = Box::new(value);
            ExprKind::Mutable(value)
        },
        ExprKind::ReferenceOf(value) => {
            let value = hygienize_expr(value, site, bindings);
            let value = Box::new(value);
            ExprKind::ReferenceOf(value)
        },
        ExprKind::Range(first, second, third) => {
            let first = isolate_expr(first, site, bindings);
            let second = isolate_expr(second, site, bindings);
            let third = isolate_expr(third, site, bindings);
            ExprKind::Range(Box::new(first), Box::new(second), Box::new(third))
        },
        ExprKind::Convert { value, into, fallback } => {
            let value = hygienize_expr(value, site, bindings);
            let into = qualify_type_expr(into, site);
            ExprKind::Convert { value: Box::new(value), into, fallback: copy::literal(fallback) }
        },
        ExprKind::Cast { value, into } => {
            let value = hygienize_expr(value, site, bindings);
            let into = qualify_type_expr(into, site);
            ExprKind::Cast { value: Box::new(value), into }
        },
        ExprKind::Task { captures, body } => {
            let captures = localize_names(captures, &node.origin, site, bindings);
            let body = hygienize_block(body, site, bindings);
            ExprKind::Task { captures, body }
        },
        ExprKind::Spawn { handle, captures, value } => {
            let captures = localize_names(captures, &node.origin, site, bindings);
            let value = hygienize_expr(value, site, bindings);
            let handle = site.bind(&node.origin, handle, bindings);
            ExprKind::Spawn { handle, captures, value: Box::new(value) }
        },
        ExprKind::Join { handle, binding } => {
            let handle = site.local_name(&node.origin, handle, bindings);
            let binding = site.bind(&node.origin, binding, bindings);
            ExprKind::Join { handle, binding }
        },
    };
    Spanned { value, span: node.span, origin: node.origin.copy() }
}

pub open spec fn hygienic_exprs(
    nodes: Seq<ExprView>,
    from: int,
    done: Seq<ExprView>,
    site: SiteView,
    bindings: Map<Seq<char>, Seq<char>>,
) -> (Seq<ExprView>, Map<Seq<char>, Seq<char>>)
    decreases nodes, nodes.len() - from,
{
    if from < 0 || from >= nodes.len() {
        (done, bindings)
    } else {
        let (value, bindings) = hygienic_expr(nodes[from], site, bindings);
        hygienic_exprs(nodes, from + 1, done.push(value), site, bindings)
    }
}

fn hygienize_exprs(nodes: &Vec<Expr>, site: &Site, bindings: &mut NameMap<String>) -> (result: Vec<Expr>)
    requires
        old(bindings).well_formed(),
    ensures
        hygienic_exprs(
            view::exprs(nodes@),
            0,
            Seq::empty(),
            site@,
            old(bindings).texts(),
        ) == (view::exprs(result@), final(bindings).texts()),
        final(bindings).well_formed(),
    decreases nodes, 0int,
{
    let ghost start = bindings.texts();
    let ghost all = view::exprs(nodes@);
    let mut done: Vec<Expr> = Vec::new();
    let mut i: usize = 0;
    assert(view::exprs(done@) =~= Seq::<ExprView>::empty());
    while i < nodes.len()
        invariant
            i <= nodes.len(),
            all == view::exprs(nodes@),
            start == old(bindings).texts(),
            bindings.well_formed(),
            hygienic_exprs(all, 0, Seq::empty(), site@, start) == hygienic_exprs(
                all,
                i as int,
                view::exprs(done@),
                site@,
                bindings.texts(),
            ),
        decreases nodes.len() - i,
    {
        let ghost before = done@;
        assert(all[i as int] == view::expr(nodes@[i as int]));
        let value = hygienize_expr(&nodes[i], site, bindings);
        done.push(value);
        proof {
            view::lemma_exprs_push(before, done@.last());
        }
        i += 1;
    }
    done
}

pub open spec fn hygienic_optional_expr(
    node: Option<Box<ExprView>>,
    site: SiteView,
    bindings: Map<Seq<char>, Seq<char>>,
) -> (Option<Box<ExprView>>, Map<Seq<char>, Seq<char>>)
    decreases node, 0int,
{
    match node {
        None => (None, bindings),
        Some(inner) => {
            let (inner, bindings) = hygienic_expr(*inner, site, bindings);
            (Some(Box::new(inner)), bindings)
        },
    }
}

fn hygienize_optional_expr(
    node: &Option<Box<Expr>>,
    site: &Site,
    bindings: &mut NameMap<String>,
) -> (result: Option<Box<Expr>>)
    requires
        old(bindings).well_formed(),
    ensures
        hygienic_optional_expr(match *node {
                None => None,
                Some(inner) => Some(Box::new(view::expr(*inner))),
            }, site@, old(bindings).texts()) == (match result { None => None, Some(inner) => Some(Box::new(view::expr(*inner))) }, final(bindings).texts()),
        final(bindings).well_formed(),
    decreases node, 0int,
{
    match node {
        None => None,
        Some(inner) => {
            let inner = hygienize_expr(inner, site, bindings);
            Some(Box::new(inner))
        }
    }
}

/// Elements that each see `bindings` and leave no binding behind.
pub open spec fn isolated_exprs(
    nodes: Seq<ExprView>,
    site: SiteView,
    bindings: Map<Seq<char>, Seq<char>>,
) -> Seq<ExprView>
    decreases nodes, 0int,
{
    Seq::new(nodes.len(), |i: int| if 0 <= i < nodes.len() { hygienic_expr(nodes[i], site, bindings).0 } else { arbitrary() })
}

pub open spec fn isolated_expr_fields(
    nodes: Seq<ExprFieldView>,
    site: SiteView,
    bindings: Map<Seq<char>, Seq<char>>,
) -> Seq<ExprFieldView>
    decreases nodes, 0int,
{
    Seq::new(
        nodes.len(),
        |i: int| if 0 <= i < nodes.len() {
            ExprFieldView { name: nodes[i].name, value: hygienic_expr(nodes[i].value, site, bindings).0, span: nodes[i].span }
        } else {
            arbitrary()
        },
    )
}

pub open spec fn isolated_expr_pairs(
    nodes: Seq<(ExprView, ExprView)>,
    site: SiteView,
    bindings: Map<Seq<char>, Seq<char>>,
) -> Seq<(ExprView, ExprView)>
    decreases nodes, 0int,
{
    Seq::new(
        nodes.len(),
        |i: int| if 0 <= i < nodes.len() {
            (hygienic_expr(nodes[i].0, site, bindings).0, hygienic_expr(nodes[i].1, site, bindings).0)
        } else {
            arbitrary()
        },
    )
}

/// A match arm: the pattern opens the scope of the body.
pub open spec fn isolated_match_case(
    node: MatchCaseView,
    site: SiteView,
    bindings: Map<Seq<char>, Seq<char>>,
) -> MatchCaseView
    decreases node, 0int,
{
    let (pattern, scope) = hygienic_pattern(node.pattern, site, bindings);
    let (body, _) = hygienic_exprs(node.body, 0, Seq::empty(), site, scope);
    MatchCaseView { pattern: qualified_pattern(pattern, site), body, span: node.span }
}

pub open spec fn isolated_match_cases(
    nodes: Seq<MatchCaseView>,
    site: SiteView,
    bindings: Map<Seq<char>, Seq<char>>,
) -> Seq<MatchCaseView>
    decreases nodes, 0int,
{
    Seq::new(nodes.len(), |i: int| if 0 <= i < nodes.len() { isolated_match_case(nodes[i], site, bindings) } else { arbitrary() })
}

pub open spec fn local_names(nodes: Seq<NameView>, origin: Origin, site: SiteView, bindings: Map<Seq<char>, Seq<char>>) -> Seq<NameView> {
    Seq::new(nodes.len(), |i: int| respelled(nodes[i], site.local(origin, nodes[i].value, bindings)))
}

fn isolate_expr(node: &Expr, site: &Site, bindings: &NameMap<String>) -> (result: Expr)
    requires
        bindings.well_formed(),
    ensures
        view::expr(result) == hygienic_expr(view::expr(*node), site@, bindings.texts()).0,
    decreases node, 1int,
{
    let mut scope = bindings.copy();
    hygienize_expr(node, site, &mut scope)
}

fn hygienize_block(nodes: &Vec<Expr>, site: &Site, bindings: &NameMap<String>) -> (result: Vec<Expr>)
    requires
        bindings.well_formed(),
    ensures
        view::exprs(result@) == hygienic_exprs(view::exprs(nodes@), 0, Seq::empty(), site@, bindings.texts()).0,
    decreases nodes, 1int,
{
    let mut scope = bindings.copy();
    hygienize_exprs(nodes, site, &mut scope)
}

fn isolate_exprs(nodes: &Vec<Expr>, site: &Site, bindings: &NameMap<String>) -> (result: Vec<Expr>)
    requires
        bindings.well_formed(),
    ensures
        view::exprs(result@) == isolated_exprs(view::exprs(nodes@), site@, bindings.texts()),
    decreases nodes, 0int,
{
    let mut done: Vec<Expr> = Vec::new();
    let mut i: usize = 0;
    while i < nodes.len()
        invariant
            i <= nodes.len(),
            bindings.well_formed(),
            done@.len() == i,
            forall|j: int| 0 <= j < i ==> view::expr(#[trigger] done@[j]) == hygienic_expr(
                view::expr(nodes@[j]),
                site@,
                bindings.texts(),
            ).0,
        decreases nodes.len() - i,
    {
        let value = isolate_expr(&nodes[i], site, bindings);
        done.push(value);
        i += 1;
    }
    assert(view::exprs(done@) =~= isolated_exprs(view::exprs(nodes@), site@, bindings.texts()));
    done
}

fn isolate_expr_fields(nodes: &Vec<ExprField>, site: &Site, bindings: &NameMap<String>) -> (result: Vec<ExprField>)
    requires
        bindings.well_formed(),
    ensures
        view::expr_fields(result@) == isolated_expr_fields(view::expr_fields(nodes@), site@, bindings.texts()),
    decreases nodes, 0int,
{
    let mut done: Vec<ExprField> = Vec::new();
    let mut i: usize = 0;
    while i < nodes.len()
        invariant
            i <= nodes.len(),
            bindings.well_formed(),
            done@.len() == i,
            forall|j: int| 0 <= j < i ==> view::expr_field(#[trigger] done@[j]) == (
                ExprFieldView { name: view::name(nodes@[j].name), value: hygienic_expr(view::expr(nodes@[j].value), site@, bindings.texts()).0, span: nodes@[j].span }
            ),
        decreases nodes.len() - i,
    {
        let value = ExprField { name: copy::name(&nodes[i].name), value: isolate_expr(&nodes[i].value, site, bindings), span: nodes[i].span };
        done.push(value);
        i += 1;
    }
    assert(view::expr_fields(done@) =~= isolated_expr_fields(view::expr_fields(nodes@), site@, bindings.texts()));
    done
}

fn isolate_expr_pairs(nodes: &Vec<(Expr, Expr)>, site: &Site, bindings: &NameMap<String>) -> (result: Vec<(Expr, Expr)>)
    requires
        bindings.well_formed(),
    ensures
        view::expr_pairs(result@) == isolated_expr_pairs(view::expr_pairs(nodes@), site@, bindings.texts()),
    decreases nodes, 0int,
{
    let mut done: Vec<(Expr, Expr)> = Vec::new();
    let mut i: usize = 0;
    while i < nodes.len()
        invariant
            i <= nodes.len(),
            bindings.well_formed(),
            done@.len() == i,
            forall|j: int| 0 <= j < i ==> view::expr((#[trigger] done@[j]).0) == hygienic_expr(
                view::expr(nodes@[j].0),
                site@,
                bindings.texts(),
            ).0 && view::expr(done@[j].1) == hygienic_expr(view::expr(nodes@[j].1), site@, bindings.texts()).0,
        decreases nodes.len() - i,
    {
        let value = (isolate_expr(&nodes[i].0, site, bindings), isolate_expr(&nodes[i].1, site, bindings));
        done.push(value);
        i += 1;
    }
    assert(view::expr_pairs(done@) =~= isolated_expr_pairs(view::expr_pairs(nodes@), site@, bindings.texts()));
    done
}

fn isolate_match_cases(nodes: &Vec<MatchCase>, site: &Site, bindings: &NameMap<String>) -> (result: Vec<MatchCase>)
    requires
        bindings.well_formed(),
    ensures
        view::match_cases(result@) == isolated_match_cases(view::match_cases(nodes@), site@, bindings.texts()),
    decreases nodes, 0int,
{
    let mut done: Vec<MatchCase> = Vec::new();
    let mut i: usize = 0;
    while i < nodes.len()
        invariant
            i <= nodes.len(),
            bindings.well_formed(),
            done@.len() == i,
            forall|j: int| 0 <= j < i ==> view::match_case(#[trigger] done@[j]) == isolated_match_case(
                view::match_case(nodes@[j]),
                site@,
                bindings.texts(),
            ),
        decreases nodes.len() - i,
    {
        let value = isolate_match_case(&nodes[i], site, bindings);
        done.push(value);
        i += 1;
    }
    assert(view::match_cases(done@) =~= isolated_match_cases(view::match_cases(nodes@), site@, bindings.texts()));
    done
}

fn isolate_match_case(node: &MatchCase, site: &Site, bindings: &NameMap<String>) -> (result: MatchCase)
    requires
        bindings.well_formed(),
    ensures
        view::match_case(result) == isolated_match_case(view::match_case(*node), site@, bindings.texts()),
    decreases node, 0int,
{
    let mut scope = bindings.copy();
    let pattern = hygienize_pattern(&node.pattern, site, &mut scope);
    let pattern = qualify_pattern(&pattern, site);
    let body = hygienize_exprs(&node.body, site, &mut scope);
    MatchCase { pattern, body, span: node.span }
}

fn localize_names(nodes: &Vec<Name>, origin: &Origin, site: &Site, bindings: &NameMap<String>) -> (result: Vec<Name>)
    requires
        bindings.well_formed(),
    ensures
        view::names(result@) == local_names(view::names(nodes@), *origin, site@, bindings.texts()),
{
    let mut done: Vec<Name> = Vec::new();
    let mut i: usize = 0;
    while i < nodes.len()
        invariant
            i <= nodes.len(),
            bindings.well_formed(),
            done@.len() == i,
            forall|j: int| 0 <= j < i ==> view::name(#[trigger] done@[j]) == respelled(
                view::name(nodes@[j]),
                site@.local(*origin, nodes@[j].value@, bindings.texts()),
            ),
        decreases nodes.len() - i,
    {
        let value = site.local_name(origin, &nodes[i], bindings);
        done.push(value);
        i += 1;
    }
    assert(view::names(done@) =~= local_names(view::names(nodes@), *origin, site@, bindings.texts()));
    done
}

// Laws.

/// Syntax that the definition does not own keeps its names, in every position.
pub proof fn law_caller_names_are_kept(
    site: SiteView,
    origin: Origin,
    name: NameView,
    bindings: Map<Seq<char>, Seq<char>>,
)
    requires
        !site.owns(origin),
    ensures
        site.reference(origin, name.value) == name.value,
        site.resolve(origin, name.value, bindings) == name.value,
        site.local(origin, name.value, bindings) == name.value,
        site.bind(origin, name, bindings) == (name, bindings),
{
}

/// A name that the definition binds is renamed, and its references behind it
/// follow.
pub proof fn law_bound_names_are_renamed_together(
    site: SiteView,
    binding: Origin,
    reference: Origin,
    name: NameView,
    bindings: Map<Seq<char>, Seq<char>>,
)
    requires
        site.owns(binding),
        site.owns(reference),
    ensures
        site.bind(binding, name, bindings).0.value == renamed(name.value, site.hygiene_id),
        site.resolve(reference, name.value, site.bind(binding, name, bindings).1) == renamed(
            name.value,
            site.hygiene_id,
        ),
{
}

/// The names that different calls make of one name differ.
pub proof fn law_calls_make_different_names(name: Seq<char>, first: usize, second: usize)
    requires
        first != second,
    ensures
        renamed(name, first) != renamed(name, second),
{
    let head = name + "--macro-"@;
    if renamed(name, first) == renamed(name, second) {
        assert(renamed(name, first).skip(head.len() as int) =~= crate::text::decimal(first as nat));
        assert(renamed(name, second).skip(head.len() as int) =~= crate::text::decimal(second as nat));
        crate::text::lemma_decimal_injective(first as nat, second as nat);
    }
}

} // verus!
