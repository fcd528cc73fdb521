//! What policies admit.
use vstd::prelude::*;
use crate::execute::policy::{
    admits_path, admits_text, common_scope, common_scopes, common_scopes_from, common_with_each, groups_admit,
    law_intersection_admits_common_paths, law_intersection_admits_common_text, one_domain, scope_check, with_scope,
};
use crate::lowered::ir::CapabilityDomain;
use crate::lowered::view::{PolicyGroupView, PolicyScopeView};

verus! {

proof fn lemma_with_each(
    scope: PolicyScopeView,
    approved: Seq<PolicyScopeView>,
    from: int,
    done: Seq<PolicyScopeView>,
    dir: Option<Seq<char>>,
)
    requires
        0 <= from <= approved.len(),
    ensures
        forall|held: PolicyScopeView| done.contains(held) ==> #[trigger] common_with_each(
            scope,
            approved,
            from,
            done,
            dir,
        ).contains(held),
        forall|j: int|
            from <= j < approved.len() && common_scope(scope, #[trigger] approved[j], dir) is Some ==> common_with_each(
                scope,
                approved,
                from,
                done,
                dir,
            ).contains(common_scope(scope, approved[j], dir)->Some_0),
    decreases approved.len() - from,
{
    if from < approved.len() {
        let found = common_scope(scope, approved[from], dir);
        let more = with_scope(done, found);
        lemma_with_each(scope, approved, from + 1, more, dir);
        assert forall|held: PolicyScopeView| done.contains(held) implies #[trigger] more.contains(held) by {
            let i = choose|i: int| 0 <= i < done.len() && done[i] == held;
            assert(more[i] == held);
        }
        if found is Some && !done.contains(found->Some_0) {
            assert(more[done.len() as int] == found->Some_0);
        }
        let all = common_with_each(scope, approved, from, done, dir);
        assert(all == common_with_each(scope, approved, from + 1, more, dir));
        assert forall|held: PolicyScopeView| done.contains(held) implies #[trigger] all.contains(held) by {
            assert(more.contains(held));
        }
        if found is Some {
            assert(more.contains(found->Some_0));
            assert(all.contains(found->Some_0));
        }
    }
}

proof fn lemma_scopes(
    requested: Seq<PolicyScopeView>,
    from: int,
    approved: Seq<PolicyScopeView>,
    done: Seq<PolicyScopeView>,
    dir: Option<Seq<char>>,
    i: int,
    j: int,
)
    requires
        0 <= from <= requested.len(),
        0 <= i < requested.len(),
        0 <= j < approved.len(),
        common_scope(requested[i], approved[j], dir) is Some,
        i < from ==> done.contains(common_scope(requested[i], approved[j], dir)->Some_0),
    ensures
        common_scopes_from(requested, from, approved, done, dir).contains(
            common_scope(requested[i], approved[j], dir)->Some_0,
        ),
    decreases requested.len() - from,
{
    if from < requested.len() {
        let more = common_with_each(requested[from], approved, 0, done, dir);
        lemma_with_each(requested[from], approved, 0, done, dir);
        assert(i <= from ==> more.contains(common_scope(requested[i], approved[j], dir)->Some_0)) by {
            if i == from {
                assert(common_scope(requested[from], approved[j], dir) is Some);
            }
        }
        lemma_scopes(requested, from + 1, approved, more, dir, i, j);
    }
}

/// Narrowing takes nothing away that is both requested and approved: what a requested
/// scope and an approved one admit, one of the narrowed scopes admits.
pub proof fn law_narrowing_keeps_what_is_requested_and_approved(
    requested: Seq<PolicyScopeView>,
    approved: Seq<PolicyScopeView>,
    dir: Option<Seq<char>>,
    i: int,
    j: int,
    text: Seq<char>,
    path: Seq<Seq<char>>,
)
    requires
        0 <= i < requested.len(),
        0 <= j < approved.len(),
    ensures
        admits_text(requested[i], text) && admits_text(approved[j], text) ==> exists|found: PolicyScopeView|
            common_scopes(requested, approved, dir).contains(found) && #[trigger] admits_text(found, text),
        admits_path(requested[i], path, dir) && admits_path(approved[j], path, dir) ==> exists|found: PolicyScopeView|
            common_scopes(requested, approved, dir).contains(found) && #[trigger] admits_path(found, path, dir),
{
    law_intersection_admits_common_text(requested[i], approved[j], dir, text);
    law_intersection_admits_common_paths(requested[i], approved[j], dir, path);
    if common_scope(requested[i], approved[j], dir) is Some {
        lemma_scopes(requested, 0, approved, Seq::empty(), dir, i, j);
    }
}

/// A policy admits in a domain what one of its scopes there admits, and nothing in a
/// domain that it does not name.
pub proof fn law_policies_admit_by_scope(
    domain: CapabilityDomain,
    other: CapabilityDomain,
    groups: Seq<PolicyGroupView>,
    i: int,
    j: int,
    text: Seq<char>,
)
    requires
        0 <= i < groups.len(),
        0 <= j < groups[i].scopes.len(),
    ensures
        admits_text(groups[i].scopes[j], text) ==> scope_check(one_domain(domain, groups), domain, text) is Ok,
        !groups_admit(groups, text) ==> scope_check(one_domain(domain, groups), domain, text) is Err,
        other != domain ==> scope_check(one_domain(domain, groups), other, text) is Err,
        groups[i].scopes[j] == PolicyScopeView::Any ==> scope_check(one_domain(domain, groups), domain, text) is Ok,
        groups[i].scopes[j] == PolicyScopeView::Exact(text) ==> scope_check(one_domain(domain, groups), domain, text)
            is Ok,
{
    let policy = one_domain(domain, groups);
    assert(policy.domains[0].domain == domain && policy.domains[0].groups == groups);
    assert(crate::execute::policy::groups_from(policy.domains, 1, other) is None);
    if admits_text(groups[i].scopes[j], text) {
        assert(groups_admit(groups, text));
    }
}

} // verus!
