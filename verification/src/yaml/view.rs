//! What YAML values hold, as mathematical values.
use vstd::prelude::*;
use crate::yaml::model::{
    YamlEntry, YamlValue,
};

verus! {

pub struct YamlEntryView {
    pub key: YamlValueView,
    pub value: YamlValueView,
}

#[allow(inconsistent_fields)]
pub enum YamlValueView {
    Null,
    Bool(bool),
    Int(i64),
    Large(u64),
    Float(Seq<char>),
    Text(Seq<char>),
    Sequence(Seq<YamlValueView>),
    Mapping(Seq<YamlEntryView>),
    Tagged(Seq<char>, Box<YamlValueView>),
}

pub open spec fn yaml_entry(node: YamlEntry) -> YamlEntryView
    decreases node,
{
    YamlEntryView {
        key: self::yaml_value(node.key),
        value: self::yaml_value(node.value),
    }
}

pub open spec fn yaml_value(node: YamlValue) -> YamlValueView
    decreases node,
{
    match node {
        YamlValue::Null => YamlValueView::Null,
        YamlValue::Bool(value) => YamlValueView::Bool(value),
        YamlValue::Int(value) => YamlValueView::Int(value),
        YamlValue::Large(value) => YamlValueView::Large(value),
        YamlValue::Float(value) => YamlValueView::Float(value@),
        YamlValue::Text(value) => YamlValueView::Text(value@),
        YamlValue::Sequence(values) => YamlValueView::Sequence(self::yaml_values(values@)),
        YamlValue::Mapping(values) => YamlValueView::Mapping(self::yaml_entries(values@)),
        YamlValue::Tagged(first, second) => YamlValueView::Tagged(first@, Box::new(self::yaml_value(*second))),
    }
}

pub open spec fn yaml_entries(nodes: Seq<YamlEntry>) -> Seq<YamlEntryView>
    decreases nodes,
{
    Seq::new(nodes.len(), |i: int| if 0 <= i < nodes.len() { self::yaml_entry(nodes[i]) } else { arbitrary() })
}

pub open spec fn yaml_values(nodes: Seq<YamlValue>) -> Seq<YamlValueView>
    decreases nodes,
{
    Seq::new(nodes.len(), |i: int| if 0 <= i < nodes.len() { self::yaml_value(nodes[i]) } else { arbitrary() })
}

pub proof fn lemma_yaml_entries_push(nodes: Seq<YamlEntry>, node: YamlEntry)
    ensures
        self::yaml_entries(nodes.push(node)) == self::yaml_entries(nodes).push(self::yaml_entry(node)),
{
    let left = self::yaml_entries(nodes.push(node));
    let right = self::yaml_entries(nodes).push(self::yaml_entry(node));
    assert forall|i: int| 0 <= i < left.len() implies left[i] == right[i] by {
        if i < nodes.len() {
            assert(nodes.push(node)[i] == nodes[i]);
        } else {
            assert(nodes.push(node)[i] == node);
        }
    }
    assert(left =~= right);
}

pub proof fn lemma_yaml_values_push(nodes: Seq<YamlValue>, node: YamlValue)
    ensures
        self::yaml_values(nodes.push(node)) == self::yaml_values(nodes).push(self::yaml_value(node)),
{
    let left = self::yaml_values(nodes.push(node));
    let right = self::yaml_values(nodes).push(self::yaml_value(node));
    assert forall|i: int| 0 <= i < left.len() implies left[i] == right[i] by {
        if i < nodes.len() {
            assert(nodes.push(node)[i] == nodes[i]);
        } else {
            assert(nodes.push(node)[i] == node);
        }
    }
    assert(left =~= right);
}

} // verus!
