//! What compile-time data and templates hold, as mathematical values.
use vstd::prelude::*;
use crate::frontend::model::{
    CompileField, CompileValue, FloatText, TemplateFailure, TemplateNode,
};

verus! {

pub struct CompileFieldView {
    pub name: Seq<char>,
    pub value: CompileValueView,
}

pub struct FloatTextView {
    pub bits: u64,
    pub text: Seq<char>,
}

#[allow(inconsistent_fields)]
pub enum CompileValueView {
    Null,
    Bool(bool),
    Int(i64),
    Float(u64),
    String(Seq<char>),
    Array(Seq<CompileValueView>),
    Record(Seq<CompileFieldView>),
}

#[allow(inconsistent_fields)]
pub enum TemplateNodeView {
    Text(Seq<char>),
    Variable(Seq<char>),
    Section { name: Seq<char>, inverted: bool, children: Seq<TemplateNodeView> },
}

#[allow(inconsistent_fields)]
pub enum TemplateFailureView {
    Message(Seq<char>),
    NeedsFloatText(u64),
}

pub open spec fn compile_field(node: CompileField) -> CompileFieldView
    decreases node,
{
    CompileFieldView {
        name: node.name@,
        value: self::compile_value(node.value),
    }
}

pub open spec fn float_text(node: FloatText) -> FloatTextView
{
    FloatTextView {
        bits: node.bits,
        text: node.text@,
    }
}

pub open spec fn compile_value(node: CompileValue) -> CompileValueView
    decreases node,
{
    match node {
        CompileValue::Null => CompileValueView::Null,
        CompileValue::Bool(value) => CompileValueView::Bool(value),
        CompileValue::Int(value) => CompileValueView::Int(value),
        CompileValue::Float(value) => CompileValueView::Float(value),
        CompileValue::String(value) => CompileValueView::String(value@),
        CompileValue::Array(values) => CompileValueView::Array(self::compile_values(values@)),
        CompileValue::Record(values) => CompileValueView::Record(self::compile_fields(values@)),
    }
}

pub open spec fn template_node(node: TemplateNode) -> TemplateNodeView
    decreases node,
{
    match node {
        TemplateNode::Text(value) => TemplateNodeView::Text(value@),
        TemplateNode::Variable(value) => TemplateNodeView::Variable(value@),
        TemplateNode::Section { name, inverted, children } => TemplateNodeView::Section {
            name: name@,
            inverted: inverted,
            children: self::template_nodes(children@),
        },
    }
}

pub open spec fn template_failure(node: TemplateFailure) -> TemplateFailureView
{
    match node {
        TemplateFailure::Message(value) => TemplateFailureView::Message(value@),
        TemplateFailure::NeedsFloatText(value) => TemplateFailureView::NeedsFloatText(value),
    }
}

pub open spec fn compile_fields(nodes: Seq<CompileField>) -> Seq<CompileFieldView>
    decreases nodes,
{
    Seq::new(nodes.len(), |i: int| if 0 <= i < nodes.len() { self::compile_field(nodes[i]) } else { arbitrary() })
}

pub open spec fn compile_values(nodes: Seq<CompileValue>) -> Seq<CompileValueView>
    decreases nodes,
{
    Seq::new(nodes.len(), |i: int| if 0 <= i < nodes.len() { self::compile_value(nodes[i]) } else { arbitrary() })
}

pub open spec fn float_texts(nodes: Seq<FloatText>) -> Seq<FloatTextView>

{
    Seq::new(nodes.len(), |i: int| self::float_text(nodes[i]))
}

pub open spec fn template_nodes(nodes: Seq<TemplateNode>) -> Seq<TemplateNodeView>
    decreases nodes,
{
    Seq::new(nodes.len(), |i: int| if 0 <= i < nodes.len() { self::template_node(nodes[i]) } else { arbitrary() })
}

pub proof fn lemma_compile_fields_push(nodes: Seq<CompileField>, node: CompileField)
    ensures
        self::compile_fields(nodes.push(node)) == self::compile_fields(nodes).push(self::compile_field(node)),
{
    let left = self::compile_fields(nodes.push(node));
    let right = self::compile_fields(nodes).push(self::compile_field(node));
    assert forall|i: int| 0 <= i < left.len() implies left[i] == right[i] by {
        if i < nodes.len() {
            assert(nodes.push(node)[i] == nodes[i]);
        } else {
            assert(nodes.push(node)[i] == node);
        }
    }
    assert(left =~= right);
}

pub proof fn lemma_compile_values_push(nodes: Seq<CompileValue>, node: CompileValue)
    ensures
        self::compile_values(nodes.push(node)) == self::compile_values(nodes).push(self::compile_value(node)),
{
    let left = self::compile_values(nodes.push(node));
    let right = self::compile_values(nodes).push(self::compile_value(node));
    assert forall|i: int| 0 <= i < left.len() implies left[i] == right[i] by {
        if i < nodes.len() {
            assert(nodes.push(node)[i] == nodes[i]);
        } else {
            assert(nodes.push(node)[i] == node);
        }
    }
    assert(left =~= right);
}

pub proof fn lemma_template_nodes_push(nodes: Seq<TemplateNode>, node: TemplateNode)
    ensures
        self::template_nodes(nodes.push(node)) == self::template_nodes(nodes).push(self::template_node(node)),
{
    let left = self::template_nodes(nodes.push(node));
    let right = self::template_nodes(nodes).push(self::template_node(node));
    assert forall|i: int| 0 <= i < left.len() implies left[i] == right[i] by {
        if i < nodes.len() {
            assert(nodes.push(node)[i] == nodes[i]);
        } else {
            assert(nodes.push(node)[i] == node);
        }
    }
    assert(left =~= right);
}

} // verus!
