//! Copies of lowered types, policies and values.
use vstd::prelude::*;
use crate::lowered::ir::{
    CapabilityType, CapabilityValue, EffectLabel, EnumTag, FieldValue, PolicyDomain, PolicyGroup, PolicyScope,
    PolicyType, PolicyValue, RuntimeValue, TypeRef,
};
use crate::lowered::view;

verus! {

pub fn policy_group(node: &PolicyGroup) -> (result: PolicyGroup)
    ensures
        view::policy_group(result) == view::policy_group(*node),
    decreases node,
{
    PolicyGroup {
        requirement: node.requirement,
        scopes: self::policy_scopes(&node.scopes),
    }
}

pub fn policy_domain(node: &PolicyDomain) -> (result: PolicyDomain)
    ensures
        view::policy_domain(result) == view::policy_domain(*node),
    decreases node,
{
    PolicyDomain {
        domain: node.domain,
        groups: self::policy_groups(&node.groups),
    }
}

pub fn policy_type(node: &PolicyType) -> (result: PolicyType)
    ensures
        view::policy_type(result) == view::policy_type(*node),
    decreases node,
{
    PolicyType {
        domains: self::policy_domains(&node.domains),
    }
}

pub fn capability_type(node: &CapabilityType) -> (result: CapabilityType)
    ensures
        view::capability_type(result) == view::capability_type(*node),
    decreases node,
{
    CapabilityType {
        domain: node.domain,
        groups: self::policy_groups(&node.groups),
    }
}

pub fn policy_value(node: &PolicyValue) -> (result: PolicyValue)
    ensures
        view::policy_value(result) == view::policy_value(*node),
    decreases node,
{
    PolicyValue {
        policy: self::policy_type(&node.policy),
    }
}

pub fn capability_value(node: &CapabilityValue) -> (result: CapabilityValue)
    ensures
        view::capability_value(result) == view::capability_value(*node),
    decreases node,
{
    CapabilityValue {
        capability: self::capability_type(&node.capability),
        policy: self::policy_type(&node.policy),
    }
}

pub fn enum_tag(node: &EnumTag) -> (result: EnumTag)
    ensures
        view::enum_tag(result) == view::enum_tag(*node),
    decreases node,
{
    EnumTag {
        name: node.name.clone(),
        payload: match &node.payload {
            Some(inner) => Some(self::type_ref(inner)),
            None => None,
        },
    }
}

pub fn field_value(node: &FieldValue) -> (result: FieldValue)
    ensures
        view::field_value(result) == view::field_value(*node),
    decreases node,
{
    FieldValue {
        name: node.name.clone(),
        value: self::value(&node.value),
    }
}

pub fn effect_label(node: &EffectLabel) -> (result: EffectLabel)
    ensures
        view::effect_label(result) == view::effect_label(*node),
    decreases node,
{
    EffectLabel {
        domain: node.domain.clone(),
        action: node.action.clone(),
    }
}

pub fn policy_scope(node: &PolicyScope) -> (result: PolicyScope)
    ensures
        view::policy_scope(result) == view::policy_scope(*node),
    decreases node,
{
    match node {
        PolicyScope::Any => PolicyScope::Any,
        PolicyScope::Dir(value) => PolicyScope::Dir(value.clone()),
        PolicyScope::File(value) => PolicyScope::File(value.clone()),
        PolicyScope::Exact(value) => PolicyScope::Exact(value.clone()),
        PolicyScope::Prefix(value) => PolicyScope::Prefix(value.clone()),
    }
}

pub fn type_ref(node: &TypeRef) -> (result: TypeRef)
    ensures
        view::type_ref(result) == view::type_ref(*node),
    decreases node,
{
    match node {
        TypeRef::Void => TypeRef::Void,
        TypeRef::Bool => TypeRef::Bool,
        TypeRef::Str => TypeRef::Str,
        TypeRef::Int8 => TypeRef::Int8,
        TypeRef::Int16 => TypeRef::Int16,
        TypeRef::Int32 => TypeRef::Int32,
        TypeRef::Int64 => TypeRef::Int64,
        TypeRef::UInt8 => TypeRef::UInt8,
        TypeRef::UInt16 => TypeRef::UInt16,
        TypeRef::UInt32 => TypeRef::UInt32,
        TypeRef::UInt64 => TypeRef::UInt64,
        TypeRef::Float32 => TypeRef::Float32,
        TypeRef::Float64 => TypeRef::Float64,
        TypeRef::Range => TypeRef::Range,
        TypeRef::Named(value) => TypeRef::Named(value.clone()),
        TypeRef::Instantiated { base, type_args } => TypeRef::Instantiated {
            base: base.clone(),
            type_args: self::type_refs(type_args),
        },
        TypeRef::Mutable(value) => TypeRef::Mutable(Box::new(self::type_ref(value))),
        TypeRef::Reference { inner, mutable } => TypeRef::Reference {
            inner: Box::new(self::type_ref(inner)),
            mutable: *mutable,
        },
        TypeRef::Enum(values) => TypeRef::Enum(self::enum_tags(values)),
        TypeRef::Policy(value) => TypeRef::Policy(self::policy_type(value)),
        TypeRef::Capability(value) => TypeRef::Capability(self::capability_type(value)),
    }
}

pub fn value(node: &RuntimeValue) -> (result: RuntimeValue)
    ensures
        view::value(result) == view::value(*node),
    decreases node,
{
    match node {
        RuntimeValue::Void => RuntimeValue::Void,
        RuntimeValue::Bool(value) => RuntimeValue::Bool(*value),
        RuntimeValue::Int(value) => RuntimeValue::Int(*value),
        RuntimeValue::Float(value) => RuntimeValue::Float(*value),
        RuntimeValue::Str(value) => RuntimeValue::Str(value.clone()),
        RuntimeValue::Typed { type_ref, value } => RuntimeValue::Typed {
            type_ref: self::type_ref(type_ref),
            value: Box::new(self::value(value)),
        },
        RuntimeValue::Enum { enum_key, tag, payload } => RuntimeValue::Enum {
            enum_key: enum_key.clone(),
            tag: tag.clone(),
            payload: match payload {
                Some(inner) => Some(Box::new(self::value(inner))),
                None => None,
            },
        },
        RuntimeValue::Record(values) => RuntimeValue::Record(self::field_values(values)),
        RuntimeValue::Tuple(values) => RuntimeValue::Tuple(self::values(values)),
        RuntimeValue::Array(values) => RuntimeValue::Array(self::values(values)),
        RuntimeValue::Mapping(values) => RuntimeValue::Mapping(self::value_pairs(values)),
        RuntimeValue::Range { start, end, step } => RuntimeValue::Range {
            start: *start,
            end: *end,
            step: *step,
        },
        RuntimeValue::Mutable(value) => RuntimeValue::Mutable(*value),
        RuntimeValue::Reference { cell, mutable } => RuntimeValue::Reference {
            cell: *cell,
            mutable: *mutable,
        },
        RuntimeValue::Policy(value) => RuntimeValue::Policy(self::policy_value(value)),
        RuntimeValue::Capability(value) => RuntimeValue::Capability(self::capability_value(value)),
        RuntimeValue::HostHandle(value) => RuntimeValue::HostHandle(*value),
        RuntimeValue::JoinHandle(value) => RuntimeValue::JoinHandle(*value),
    }
}

pub fn effect_labels(nodes: &Vec<EffectLabel>) -> (result: Vec<EffectLabel>)
    ensures
        view::effect_labels(result@) == view::effect_labels(nodes@),
        result.len() == nodes.len(),
    decreases nodes,
{
    let mut done: Vec<EffectLabel> = Vec::new();
    let mut i: usize = 0;
    while i < nodes.len()
        invariant
            i <= nodes.len(),
            done.len() == i,
            forall|j: int| 0 <= j < i ==> view::effect_labels(done@)[j] == view::effect_labels(nodes@)[j],
        decreases nodes.len() - i,
    {
        let ghost before = done@;
        let copied = self::effect_label(&nodes[i]);
        done.push(copied);
        proof {
            view::lemma_effect_labels_push(before, done@.last());
        }
        i += 1;
    }
    assert(view::effect_labels(done@) =~= view::effect_labels(nodes@));
    done
}

pub fn enum_tags(nodes: &Vec<EnumTag>) -> (result: Vec<EnumTag>)
    ensures
        view::enum_tags(result@) == view::enum_tags(nodes@),
        result.len() == nodes.len(),
    decreases nodes,
{
    let mut done: Vec<EnumTag> = Vec::new();
    let mut i: usize = 0;
    while i < nodes.len()
        invariant
            i <= nodes.len(),
            done.len() == i,
            forall|j: int| 0 <= j < i ==> view::enum_tags(done@)[j] == view::enum_tags(nodes@)[j],
        decreases nodes.len() - i,
    {
        let ghost before = done@;
        let copied = self::enum_tag(&nodes[i]);
        done.push(copied);
        proof {
            view::lemma_enum_tags_push(before, done@.last());
        }
        i += 1;
    }
    assert(view::enum_tags(done@) =~= view::enum_tags(nodes@));
    done
}

pub fn field_values(nodes: &Vec<FieldValue>) -> (result: Vec<FieldValue>)
    ensures
        view::field_values(result@) == view::field_values(nodes@),
        result.len() == nodes.len(),
    decreases nodes,
{
    let mut done: Vec<FieldValue> = Vec::new();
    let mut i: usize = 0;
    while i < nodes.len()
        invariant
            i <= nodes.len(),
            done.len() == i,
            forall|j: int| 0 <= j < i ==> view::field_values(done@)[j] == view::field_values(nodes@)[j],
        decreases nodes.len() - i,
    {
        let ghost before = done@;
        let copied = self::field_value(&nodes[i]);
        done.push(copied);
        proof {
            view::lemma_field_values_push(before, done@.last());
        }
        i += 1;
    }
    assert(view::field_values(done@) =~= view::field_values(nodes@));
    done
}

pub fn policy_domains(nodes: &Vec<PolicyDomain>) -> (result: Vec<PolicyDomain>)
    ensures
        view::policy_domains(result@) == view::policy_domains(nodes@),
        result.len() == nodes.len(),
    decreases nodes,
{
    let mut done: Vec<PolicyDomain> = Vec::new();
    let mut i: usize = 0;
    while i < nodes.len()
        invariant
            i <= nodes.len(),
            done.len() == i,
            forall|j: int| 0 <= j < i ==> view::policy_domains(done@)[j] == view::policy_domains(nodes@)[j],
        decreases nodes.len() - i,
    {
        let ghost before = done@;
        let copied = self::policy_domain(&nodes[i]);
        done.push(copied);
        proof {
            view::lemma_policy_domains_push(before, done@.last());
        }
        i += 1;
    }
    assert(view::policy_domains(done@) =~= view::policy_domains(nodes@));
    done
}

pub fn policy_groups(nodes: &Vec<PolicyGroup>) -> (result: Vec<PolicyGroup>)
    ensures
        view::policy_groups(result@) == view::policy_groups(nodes@),
        result.len() == nodes.len(),
    decreases nodes,
{
    let mut done: Vec<PolicyGroup> = Vec::new();
    let mut i: usize = 0;
    while i < nodes.len()
        invariant
            i <= nodes.len(),
            done.len() == i,
            forall|j: int| 0 <= j < i ==> view::policy_groups(done@)[j] == view::policy_groups(nodes@)[j],
        decreases nodes.len() - i,
    {
        let ghost before = done@;
        let copied = self::policy_group(&nodes[i]);
        done.push(copied);
        proof {
            view::lemma_policy_groups_push(before, done@.last());
        }
        i += 1;
    }
    assert(view::policy_groups(done@) =~= view::policy_groups(nodes@));
    done
}

pub fn policy_scopes(nodes: &Vec<PolicyScope>) -> (result: Vec<PolicyScope>)
    ensures
        view::policy_scopes(result@) == view::policy_scopes(nodes@),
        result.len() == nodes.len(),
    decreases nodes,
{
    let mut done: Vec<PolicyScope> = Vec::new();
    let mut i: usize = 0;
    while i < nodes.len()
        invariant
            i <= nodes.len(),
            done.len() == i,
            forall|j: int| 0 <= j < i ==> view::policy_scopes(done@)[j] == view::policy_scopes(nodes@)[j],
        decreases nodes.len() - i,
    {
        let ghost before = done@;
        let copied = self::policy_scope(&nodes[i]);
        done.push(copied);
        proof {
            view::lemma_policy_scopes_push(before, done@.last());
        }
        i += 1;
    }
    assert(view::policy_scopes(done@) =~= view::policy_scopes(nodes@));
    done
}

pub fn texts(nodes: &Vec<String>) -> (result: Vec<String>)
    ensures
        view::texts(result@) == view::texts(nodes@),
        result.len() == nodes.len(),
{
    let mut done: Vec<String> = Vec::new();
    let mut i: usize = 0;
    while i < nodes.len()
        invariant
            i <= nodes.len(),
            done.len() == i,
            forall|j: int| 0 <= j < i ==> view::texts(done@)[j] == view::texts(nodes@)[j],
        decreases nodes.len() - i,
    {
        let ghost before = done@;
        let copied = nodes[i].clone();
        done.push(copied);
        proof {
            view::lemma_texts_push(before, done@.last());
        }
        i += 1;
    }
    assert(view::texts(done@) =~= view::texts(nodes@));
    done
}

pub fn type_refs(nodes: &Vec<TypeRef>) -> (result: Vec<TypeRef>)
    ensures
        view::type_refs(result@) == view::type_refs(nodes@),
        result.len() == nodes.len(),
    decreases nodes,
{
    let mut done: Vec<TypeRef> = Vec::new();
    let mut i: usize = 0;
    while i < nodes.len()
        invariant
            i <= nodes.len(),
            done.len() == i,
            forall|j: int| 0 <= j < i ==> view::type_refs(done@)[j] == view::type_refs(nodes@)[j],
        decreases nodes.len() - i,
    {
        let ghost before = done@;
        let copied = self::type_ref(&nodes[i]);
        done.push(copied);
        proof {
            view::lemma_type_refs_push(before, done@.last());
        }
        i += 1;
    }
    assert(view::type_refs(done@) =~= view::type_refs(nodes@));
    done
}

pub fn value_pairs(nodes: &Vec<(RuntimeValue, RuntimeValue)>) -> (result: Vec<(RuntimeValue, RuntimeValue)>)
    ensures
        view::value_pairs(result@) == view::value_pairs(nodes@),
        result.len() == nodes.len(),
    decreases nodes,
{
    let mut done: Vec<(RuntimeValue, RuntimeValue)> = Vec::new();
    let mut i: usize = 0;
    while i < nodes.len()
        invariant
            i <= nodes.len(),
            done.len() == i,
            forall|j: int| 0 <= j < i ==> view::value_pairs(done@)[j] == view::value_pairs(nodes@)[j],
        decreases nodes.len() - i,
    {
        let ghost before = done@;
        let copied = (self::value(&nodes[i].0), self::value(&nodes[i].1));
        done.push(copied);
        proof {
            view::lemma_value_pairs_push(before, done@.last());
        }
        i += 1;
    }
    assert(view::value_pairs(done@) =~= view::value_pairs(nodes@));
    done
}

pub fn values(nodes: &Vec<RuntimeValue>) -> (result: Vec<RuntimeValue>)
    ensures
        view::values(result@) == view::values(nodes@),
        result.len() == nodes.len(),
    decreases nodes,
{
    let mut done: Vec<RuntimeValue> = Vec::new();
    let mut i: usize = 0;
    while i < nodes.len()
        invariant
            i <= nodes.len(),
            done.len() == i,
            forall|j: int| 0 <= j < i ==> view::values(done@)[j] == view::values(nodes@)[j],
        decreases nodes.len() - i,
    {
        let ghost before = done@;
        let copied = self::value(&nodes[i]);
        done.push(copied);
        proof {
            view::lemma_values_push(before, done@.last());
        }
        i += 1;
    }
    assert(view::values(done@) =~= view::values(nodes@));
    done
}

} // verus!
