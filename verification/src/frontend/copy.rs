//! Copies of compile-time data.
use vstd::prelude::*;
use crate::frontend::model::{
    CompileField, CompileValue,
};
use crate::frontend::view;

verus! {

pub fn compile_field(node: &CompileField) -> (result: CompileField)
    ensures
        view::compile_field(result) == view::compile_field(*node),
    decreases node,
{
    CompileField {
        name: node.name.clone(),
        value: self::compile_value(&node.value),
    }
}

pub fn compile_value(node: &CompileValue) -> (result: CompileValue)
    ensures
        view::compile_value(result) == view::compile_value(*node),
    decreases node,
{
    match node {
        CompileValue::Null => CompileValue::Null,
        CompileValue::Bool(value) => CompileValue::Bool(*value),
        CompileValue::Int(value) => CompileValue::Int(*value),
        CompileValue::Float(value) => CompileValue::Float(*value),
        CompileValue::String(value) => CompileValue::String(value.clone()),
        CompileValue::Array(values) => CompileValue::Array(self::compile_values(values)),
        CompileValue::Record(values) => CompileValue::Record(self::compile_fields(values)),
    }
}

pub fn compile_fields(nodes: &Vec<CompileField>) -> (result: Vec<CompileField>)
    ensures
        view::compile_fields(result@) == view::compile_fields(nodes@),
        result.len() == nodes.len(),
    decreases nodes,
{
    let mut done: Vec<CompileField> = Vec::new();
    let mut i: usize = 0;
    while i < nodes.len()
        invariant
            i <= nodes.len(),
            done.len() == i,
            forall|j: int| 0 <= j < i ==> view::compile_fields(done@)[j] == view::compile_fields(nodes@)[j],
        decreases nodes.len() - i,
    {
        let ghost before = done@;
        let copied = self::compile_field(&nodes[i]);
        done.push(copied);
        proof {
            view::lemma_compile_fields_push(before, done@.last());
        }
        i += 1;
    }
    assert(view::compile_fields(done@) =~= view::compile_fields(nodes@));
    done
}

pub fn compile_values(nodes: &Vec<CompileValue>) -> (result: Vec<CompileValue>)
    ensures
        view::compile_values(result@) == view::compile_values(nodes@),
        result.len() == nodes.len(),
    decreases nodes,
{
    let mut done: Vec<CompileValue> = Vec::new();
    let mut i: usize = 0;
    while i < nodes.len()
        invariant
            i <= nodes.len(),
            done.len() == i,
            forall|j: int| 0 <= j < i ==> view::compile_values(done@)[j] == view::compile_values(nodes@)[j],
        decreases nodes.len() - i,
    {
        let ghost before = done@;
        let copied = self::compile_value(&nodes[i]);
        done.push(copied);
        proof {
            view::lemma_compile_values_push(before, done@.last());
        }
        i += 1;
    }
    assert(view::compile_values(done@) =~= view::compile_values(nodes@));
    done
}

} // verus!
