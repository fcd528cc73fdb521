//! Copies of YAML values.
use vstd::prelude::*;
use crate::yaml::model::{
    YamlEntry, YamlValue,
};
use crate::yaml::view;

verus! {

pub fn yaml_entry(node: &YamlEntry) -> (result: YamlEntry)
    ensures
        view::yaml_entry(result) == view::yaml_entry(*node),
    decreases node,
{
    YamlEntry {
        key: self::yaml_value(&node.key),
        value: self::yaml_value(&node.value),
    }
}

pub fn yaml_value(node: &YamlValue) -> (result: YamlValue)
    ensures
        view::yaml_value(result) == view::yaml_value(*node),
    decreases node,
{
    match node {
        YamlValue::Null => YamlValue::Null,
        YamlValue::Bool(value) => YamlValue::Bool(*value),
        YamlValue::Int(value) => YamlValue::Int(*value),
        YamlValue::Large(value) => YamlValue::Large(*value),
        YamlValue::Float(value) => YamlValue::Float(value.clone()),
        YamlValue::Text(value) => YamlValue::Text(value.clone()),
        YamlValue::Sequence(values) => YamlValue::Sequence(self::yaml_values(values)),
        YamlValue::Mapping(values) => YamlValue::Mapping(self::yaml_entries(values)),
        YamlValue::Tagged(first, second) => YamlValue::Tagged(first.clone(), Box::new(self::yaml_value(second))),
    }
}

pub fn yaml_entries(nodes: &Vec<YamlEntry>) -> (result: Vec<YamlEntry>)
    ensures
        view::yaml_entries(result@) == view::yaml_entries(nodes@),
        result.len() == nodes.len(),
    decreases nodes,
{
    let mut done: Vec<YamlEntry> = Vec::new();
    let mut i: usize = 0;
    while i < nodes.len()
        invariant
            i <= nodes.len(),
            done.len() == i,
            forall|j: int| 0 <= j < i ==> view::yaml_entries(done@)[j] == view::yaml_entries(nodes@)[j],
        decreases nodes.len() - i,
    {
        let ghost before = done@;
        let copied = self::yaml_entry(&nodes[i]);
        done.push(copied);
        proof {
            view::lemma_yaml_entries_push(before, done@.last());
        }
        i += 1;
    }
    assert(view::yaml_entries(done@) =~= view::yaml_entries(nodes@));
    done
}

pub fn yaml_values(nodes: &Vec<YamlValue>) -> (result: Vec<YamlValue>)
    ensures
        view::yaml_values(result@) == view::yaml_values(nodes@),
        result.len() == nodes.len(),
    decreases nodes,
{
    let mut done: Vec<YamlValue> = Vec::new();
    let mut i: usize = 0;
    while i < nodes.len()
        invariant
            i <= nodes.len(),
            done.len() == i,
            forall|j: int| 0 <= j < i ==> view::yaml_values(done@)[j] == view::yaml_values(nodes@)[j],
        decreases nodes.len() - i,
    {
        let ghost before = done@;
        let copied = self::yaml_value(&nodes[i]);
        done.push(copied);
        proof {
            view::lemma_yaml_values_push(before, done@.last());
        }
        i += 1;
    }
    assert(view::yaml_values(done@) =~= view::yaml_values(nodes@));
    done
}

} // verus!
