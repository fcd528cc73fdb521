//! Capability policies: narrowing, intersection and scope checks.
use vstd::prelude::*;
use crate::execute::failure::{Failure, PartView};
use crate::execute::paths::{normalize_absolute_path, path_starts_with, same_segments};
use crate::lowered::copy;
use crate::lowered::ir::{
    CapabilityDomain, CapabilityType, CapabilityValue, PolicyDomain, PolicyGroup, PolicyRequirement, PolicyScope,
    PolicyType, PolicyValue,
};
use crate::lowered::view::{
    self, CapabilityTypeView, CapabilityValueView, PolicyDomainView, PolicyGroupView, PolicyScopeView, PolicyTypeView,
    PolicyValueView,
};
use crate::execute::values::same_scope;
use crate::text::{concat_five, concat_three, same_text, starts_with};

verus! {

pub open spec fn domain_text(domain: CapabilityDomain) -> Seq<char> {
    match domain {
        CapabilityDomain::StdinRead => "stdin-read"@,
        CapabilityDomain::FsRead => "fs-read"@,
        CapabilityDomain::FsWrite => "fs-write"@,
        CapabilityDomain::EnvRead => "env-read"@,
        CapabilityDomain::EnvWrite => "env-write"@,
        CapabilityDomain::NetConnect => "net-connect"@,
        CapabilityDomain::NetListen => "net-listen"@,
        CapabilityDomain::ProcessRun => "process-run"@,
        CapabilityDomain::Clock => "clock"@,
        CapabilityDomain::Random => "random"@,
        CapabilityDomain::SystemInfo => "system-info"@,
    }
}

/// The name of a domain in messages.
pub fn domain_name(domain: CapabilityDomain) -> (name: &'static str)
    ensures
        name@ == domain_text(domain),
{
    match domain {
        CapabilityDomain::StdinRead => "stdin-read",
        CapabilityDomain::FsRead => "fs-read",
        CapabilityDomain::FsWrite => "fs-write",
        CapabilityDomain::EnvRead => "env-read",
        CapabilityDomain::EnvWrite => "env-write",
        CapabilityDomain::NetConnect => "net-connect",
        CapabilityDomain::NetListen => "net-listen",
        CapabilityDomain::ProcessRun => "process-run",
        CapabilityDomain::Clock => "clock",
        CapabilityDomain::Random => "random",
        CapabilityDomain::SystemInfo => "system-info",
    }
}

// Intersections.

/// The longer of two nested paths' scopes, or nothing when they are apart.
pub open spec fn nested(
    left: Option<Seq<Seq<char>>>,
    right: Option<Seq<Seq<char>>>,
    from_left: PolicyScopeView,
    from_right: PolicyScopeView,
) -> Option<PolicyScopeView> {
    match (left, right) {
        (Some(x), Some(y)) => if crate::execute::paths::lies_under(x, y) {
            Some(from_left)
        } else if crate::execute::paths::lies_under(y, x) {
            Some(from_right)
        } else {
            None
        },
        _ => None,
    }
}

/// A file's scope when the file lies under a directory.
pub open spec fn file_in(
    file: Option<Seq<Seq<char>>>,
    directory: Option<Seq<Seq<char>>>,
    scope: PolicyScopeView,
) -> Option<PolicyScopeView> {
    match (file, directory) {
        (Some(f), Some(d)) => if crate::execute::paths::lies_under(f, d) {
            Some(scope)
        } else {
            None
        },
        _ => None,
    }
}

/// What two scopes have in common.
pub open spec fn common_scope(a: PolicyScopeView, b: PolicyScopeView, dir: Option<Seq<char>>) -> Option<
    PolicyScopeView,
> {
    match (a, b) {
        (PolicyScopeView::Any, _) => Some(b),
        (_, PolicyScopeView::Any) => Some(a),
        (PolicyScopeView::Dir(x), PolicyScopeView::Dir(y)) => nested(
            crate::execute::paths::normalized(x, dir),
            crate::execute::paths::normalized(y, dir),
            a,
            b,
        ),
        (PolicyScopeView::File(f), PolicyScopeView::Dir(d)) => file_in(
            crate::execute::paths::normalized(f, dir),
            crate::execute::paths::normalized(d, dir),
            a,
        ),
        (PolicyScopeView::Dir(d), PolicyScopeView::File(f)) => file_in(
            crate::execute::paths::normalized(f, dir),
            crate::execute::paths::normalized(d, dir),
            b,
        ),
        (PolicyScopeView::File(x), PolicyScopeView::File(y)) => {
            let left = crate::execute::paths::normalized(x, dir);
            if left is Some && left == crate::execute::paths::normalized(y, dir) {
                Some(a)
            } else {
                None
            }
        },
        (PolicyScopeView::Exact(x), PolicyScopeView::Exact(y)) => if x == y {
            Some(a)
        } else {
            None
        },
        (PolicyScopeView::Exact(e), PolicyScopeView::Prefix(p)) => if crate::text::has_prefix(e, p) {
            Some(a)
        } else {
            None
        },
        (PolicyScopeView::Prefix(p), PolicyScopeView::Exact(e)) => if crate::text::has_prefix(e, p) {
            Some(b)
        } else {
            None
        },
        (PolicyScopeView::Prefix(x), PolicyScopeView::Prefix(y)) => if crate::text::has_prefix(x, y) {
            Some(a)
        } else if crate::text::has_prefix(y, x) {
            Some(b)
        } else {
            None
        },
        _ => None,
    }
}

pub open spec fn scope_option(scope: Option<PolicyScope>) -> Option<PolicyScopeView> {
    match scope {
        Some(scope) => Some(view::policy_scope(scope)),
        None => None,
    }
}

fn nested_scope(
    x: &str,
    y: &str,
    a: &PolicyScope,
    b: &PolicyScope,
    dir: &Option<String>,
) -> (result: Option<PolicyScope>)
    ensures
        scope_option(result) == nested(
            crate::execute::paths::normalized(x@, crate::execute::paths::view_option(*dir)),
            crate::execute::paths::normalized(y@, crate::execute::paths::view_option(*dir)),
            view::policy_scope(*a),
            view::policy_scope(*b),
        ),
{
    let left = match normalize_absolute_path(x, dir) {
        Some(left) => left,
        None => return None,
    };
    let right = match normalize_absolute_path(y, dir) {
        Some(right) => right,
        None => return None,
    };
    if path_starts_with(&left, &right) {
        Some(copy::policy_scope(a))
    } else if path_starts_with(&right, &left) {
        Some(copy::policy_scope(b))
    } else {
        None
    }
}

fn file_scope(file: &str, directory: &str, scope: &PolicyScope, dir: &Option<String>) -> (result: Option<PolicyScope>)
    ensures
        scope_option(result) == file_in(
            crate::execute::paths::normalized(file@, crate::execute::paths::view_option(*dir)),
            crate::execute::paths::normalized(directory@, crate::execute::paths::view_option(*dir)),
            view::policy_scope(*scope),
        ),
{
    let inner = match normalize_absolute_path(file, dir) {
        Some(inner) => inner,
        None => return None,
    };
    let outer = match normalize_absolute_path(directory, dir) {
        Some(outer) => outer,
        None => return None,
    };
    if path_starts_with(&inner, &outer) {
        Some(copy::policy_scope(scope))
    } else {
        None
    }
}

/// What two scopes have in common, or `None` when they are disjoint. Relative
/// paths are read from `dir`.
pub fn intersect_scopes(a: &PolicyScope, b: &PolicyScope, dir: &Option<String>) -> (result: Option<PolicyScope>)
    ensures
        scope_option(result) == common_scope(
            view::policy_scope(*a),
            view::policy_scope(*b),
            crate::execute::paths::view_option(*dir),
        ),
{
    match (a, b) {
        (PolicyScope::Any, _) => Some(copy::policy_scope(b)),
        (_, PolicyScope::Any) => Some(copy::policy_scope(a)),
        (PolicyScope::Dir(x), PolicyScope::Dir(y)) => nested_scope(x.as_str(), y.as_str(), a, b, dir),
        (PolicyScope::File(f), PolicyScope::Dir(d)) => file_scope(f.as_str(), d.as_str(), a, dir),
        (PolicyScope::Dir(d), PolicyScope::File(f)) => file_scope(f.as_str(), d.as_str(), b, dir),
        (PolicyScope::File(x), PolicyScope::File(y)) => {
            let left = match normalize_absolute_path(x.as_str(), dir) {
                Some(left) => left,
                None => return None,
            };
            let right = match normalize_absolute_path(y.as_str(), dir) {
                Some(right) => right,
                None => return None,
            };
            if same_segments(&left, &right) {
                Some(copy::policy_scope(a))
            } else {
                None
            }
        }
        (PolicyScope::Exact(x), PolicyScope::Exact(y)) => {
            if same_text(x.as_str(), y.as_str()) {
                Some(copy::policy_scope(a))
            } else {
                None
            }
        }
        (PolicyScope::Exact(e), PolicyScope::Prefix(p)) => {
            if starts_with(e.as_str(), p.as_str()) {
                Some(copy::policy_scope(a))
            } else {
                None
            }
        }
        (PolicyScope::Prefix(p), PolicyScope::Exact(e)) => {
            if starts_with(e.as_str(), p.as_str()) {
                Some(copy::policy_scope(b))
            } else {
                None
            }
        }
        (PolicyScope::Prefix(x), PolicyScope::Prefix(y)) => {
            if starts_with(x.as_str(), y.as_str()) {
                Some(copy::policy_scope(a))
            } else if starts_with(y.as_str(), x.as_str()) {
                Some(copy::policy_scope(b))
            } else {
                None
            }
        }
        _ => None,
    }
}

/// `found` behind `done`, unless it is there already or there is none.
pub open spec fn with_scope(done: Seq<PolicyScopeView>, found: Option<PolicyScopeView>) -> Seq<PolicyScopeView> {
    match found {
        Some(scope) => if done.contains(scope) {
            done
        } else {
            done.push(scope)
        },
        None => done,
    }
}

pub open spec fn common_with_each(
    scope: PolicyScopeView,
    approved: Seq<PolicyScopeView>,
    from: int,
    done: Seq<PolicyScopeView>,
    dir: Option<Seq<char>>,
) -> Seq<PolicyScopeView>
    decreases approved.len() - from,
{
    if from < 0 || from >= approved.len() {
        done
    } else {
        common_with_each(scope, approved, from + 1, with_scope(done, common_scope(scope, approved[from], dir)), dir)
    }
}

pub open spec fn common_scopes_from(
    requested: Seq<PolicyScopeView>,
    from: int,
    approved: Seq<PolicyScopeView>,
    done: Seq<PolicyScopeView>,
    dir: Option<Seq<char>>,
) -> Seq<PolicyScopeView>
    decreases requested.len() - from,
{
    if from < 0 || from >= requested.len() {
        done
    } else {
        common_scopes_from(
            requested,
            from + 1,
            approved,
            common_with_each(requested[from], approved, 0, done, dir),
            dir,
        )
    }
}

/// What `requested` and `approved` have in common: each pair of scopes in
/// request order, every scope once.
pub open spec fn common_scopes(
    requested: Seq<PolicyScopeView>,
    approved: Seq<PolicyScopeView>,
    dir: Option<Seq<char>>,
) -> Seq<PolicyScopeView> {
    common_scopes_from(requested, 0, approved, Seq::empty(), dir)
}

fn add_scope(done: &mut Vec<PolicyScope>, found: Option<PolicyScope>)
    ensures
        view::policy_scopes(final(done)@) == with_scope(view::policy_scopes(old(done)@), scope_option(found)),
{
    let scope = match found {
        Some(scope) => scope,
        None => return,
    };
    let ghost all = view::policy_scopes(done@);
    let mut i: usize = 0;
    while i < done.len()
        invariant
            i <= done.len(),
            *done == *old(done),
            all == view::policy_scopes(done@),
            scope_option(found) == Some(view::policy_scope(scope)),
            forall|j: int| 0 <= j < i ==> all[j] != view::policy_scope(scope),
        decreases done.len() - i,
    {
        assert(all[i as int] == view::policy_scope(done@[i as int]));
        if same_scope(&done[i], &scope) {
            return;
        }
        i += 1;
    }
    assert(!all.contains(view::policy_scope(scope)));
    let ghost before = done@;
    done.push(scope);
    proof {
        view::lemma_policy_scopes_push(before, done@.last());
    }
}

/// The portion of `requested` that `approved` covers.
pub fn intersect_scope_sets(requested: &Vec<PolicyScope>, approved: &Vec<PolicyScope>, dir: &Option<String>) -> (result: Vec<
    PolicyScope,
>)
    ensures
        view::policy_scopes(result@) == common_scopes(
            view::policy_scopes(requested@),
            view::policy_scopes(approved@),
            crate::execute::paths::view_option(*dir),
        ),
{
    let ghost wanted = view::policy_scopes(requested@);
    let ghost allowed = view::policy_scopes(approved@);
    let ghost place = crate::execute::paths::view_option(*dir);
    let mut out: Vec<PolicyScope> = Vec::new();
    let mut i: usize = 0;
    assert(view::policy_scopes(out@) =~= Seq::<PolicyScopeView>::empty());
    while i < requested.len()
        invariant
            i <= requested.len(),
            wanted == view::policy_scopes(requested@),
            allowed == view::policy_scopes(approved@),
            place == crate::execute::paths::view_option(*dir),
            common_scopes(wanted, allowed, place) == common_scopes_from(
                wanted,
                i as int,
                allowed,
                view::policy_scopes(out@),
                place,
            ),
        decreases requested.len() - i,
    {
        let ghost start = view::policy_scopes(out@);
        let mut j: usize = 0;
        while j < approved.len()
            invariant
                i < requested.len(),
                j <= approved.len(),
                wanted == view::policy_scopes(requested@),
                allowed == view::policy_scopes(approved@),
                place == crate::execute::paths::view_option(*dir),
                common_with_each(wanted[i as int], allowed, 0, start, place) == common_with_each(
                    wanted[i as int],
                    allowed,
                    j as int,
                    view::policy_scopes(out@),
                    place,
                ),
            decreases approved.len() - j,
        {
            assert(wanted[i as int] == view::policy_scope(requested@[i as int]));
            assert(allowed[j as int] == view::policy_scope(approved@[j as int]));
            let found = intersect_scopes(&requested[i], &approved[j], dir);
            add_scope(&mut out, found);
            j += 1;
        }
        i += 1;
    }
    out
}

// Policies.

/// The groups of a domain, when the policy speaks of it.
pub open spec fn groups_from(domains: Seq<PolicyDomainView>, from: int, domain: CapabilityDomain) -> Option<
    Seq<PolicyGroupView>,
>
    decreases domains.len() - from,
{
    if from < 0 || from >= domains.len() {
        None
    } else if domains[from].domain == domain {
        Some(domains[from].groups)
    } else {
        groups_from(domains, from + 1, domain)
    }
}

pub open spec fn groups_of(policy: PolicyTypeView, domain: CapabilityDomain) -> Option<Seq<PolicyGroupView>> {
    groups_from(policy.domains, 0, domain)
}

/// The groups of `domain` in `policy`.
pub fn domain_groups<'a>(policy: &'a PolicyType, domain: CapabilityDomain) -> (result: Option<&'a Vec<PolicyGroup>>)
    ensures
        match result {
            Some(groups) => groups_of(view::policy_type(*policy), domain) == Some(view::policy_groups(groups@)),
            None => groups_of(view::policy_type(*policy), domain) is None,
        },
{
    let ghost all = view::policy_domains(policy.domains@);
    let mut i: usize = 0;
    while i < policy.domains.len()
        invariant
            i <= policy.domains.len(),
            all == view::policy_domains(policy.domains@),
            groups_from(all, 0, domain) == groups_from(all, i as int, domain),
        decreases policy.domains.len() - i,
    {
        assert(all[i as int] == view::policy_domain(policy.domains@[i as int]));
        if policy.domains[i].domain == domain {
            return Some(&policy.domains[i].groups);
        }
        i += 1;
    }
    None
}

/// All scopes of the groups, in order.
pub open spec fn all_scopes(groups: Seq<PolicyGroupView>, from: int, done: Seq<PolicyScopeView>) -> Seq<PolicyScopeView>
    decreases groups.len() - from,
{
    if from < 0 || from >= groups.len() {
        done
    } else {
        all_scopes(groups, from + 1, done + groups[from].scopes)
    }
}

pub open spec fn approved_scopes(policy: PolicyTypeView, domain: CapabilityDomain) -> Seq<PolicyScopeView> {
    match groups_of(policy, domain) {
        Some(groups) => all_scopes(groups, 0, Seq::empty()),
        None => Seq::empty(),
    }
}

/// All scopes that `policy` grants in `domain`, in order.
pub(crate) fn domain_scopes(policy: &PolicyType, domain: CapabilityDomain) -> (result: Vec<PolicyScope>)
    ensures
        view::policy_scopes(result@) == approved_scopes(view::policy_type(*policy), domain),
{
    let mut done: Vec<PolicyScope> = Vec::new();
    assert(view::policy_scopes(done@) =~= Seq::<PolicyScopeView>::empty());
    let groups = match domain_groups(policy, domain) {
        Some(groups) => groups,
        None => return done,
    };
    let ghost all = view::policy_groups(groups@);
    let mut i: usize = 0;
    while i < groups.len()
        invariant
            i <= groups.len(),
            all == view::policy_groups(groups@),
            all_scopes(all, 0, Seq::empty()) == all_scopes(all, i as int, view::policy_scopes(done@)),
        decreases groups.len() - i,
    {
        assert(all[i as int] == view::policy_group(groups@[i as int]));
        let ghost start = view::policy_scopes(done@);
        let ghost scopes = view::policy_scopes(groups@[i as int].scopes@);
        let mut j: usize = 0;
        assert(start + scopes.take(0) =~= start);
        while j < groups[i as usize].scopes.len()
            invariant
                i < groups.len(),
                j <= groups@[i as int].scopes.len(),
                scopes == view::policy_scopes(groups@[i as int].scopes@),
                view::policy_scopes(done@) == start + scopes.take(j as int),
            decreases groups@[i as int].scopes.len() - j,
        {
            let ghost before = done@;
            let scope = copy::policy_scope(&groups[i].scopes[j]);
            done.push(scope);
            proof {
                view::lemma_policy_scopes_push(before, done@.last());
                assert(scopes[j as int] == view::policy_scope(groups@[i as int].scopes@[j as int]));
                assert(start + scopes.take(j as int + 1) =~= (start + scopes.take(j as int)).push(scopes[j as int]));
            }
            j += 1;
        }
        assert(scopes.take(j as int) =~= scopes);
        i += 1;
    }
    done
}

/// The groups narrowed to the approved scopes; nothing when a mandatory group
/// keeps no scope.
pub open spec fn narrowed_groups(
    groups: Seq<PolicyGroupView>,
    from: int,
    approved: Seq<PolicyScopeView>,
    done: Seq<PolicyGroupView>,
    dir: Option<Seq<char>>,
) -> Option<Seq<PolicyGroupView>>
    decreases groups.len() - from,
{
    if from < 0 || from >= groups.len() {
        Some(done)
    } else {
        let scopes = common_scopes(groups[from].scopes, approved, dir);
        if scopes.len() == 0 && groups[from].requirement == PolicyRequirement::Mandatory {
            None
        } else {
            narrowed_groups(
                groups,
                from + 1,
                approved,
                done.push(PolicyGroupView { requirement: groups[from].requirement, scopes }),
                dir,
            )
        }
    }
}

pub open spec fn narrowed_domains(
    domains: Seq<PolicyDomainView>,
    from: int,
    approved: PolicyTypeView,
    done: Seq<PolicyDomainView>,
    dir: Option<Seq<char>>,
) -> Result<PolicyTypeView, CapabilityDomain>
    decreases domains.len() - from,
{
    if from < 0 || from >= domains.len() {
        Ok(PolicyTypeView { domains: done })
    } else {
        let domain = domains[from].domain;
        match narrowed_groups(domains[from].groups, 0, approved_scopes(approved, domain), Seq::empty(), dir) {
            None => Err(domain),
            Some(groups) => narrowed_domains(
                domains,
                from + 1,
                approved,
                done.push(PolicyDomainView { domain, groups }),
                dir,
            ),
        }
    }
}

/// The portion of the requested policy that the approved policy covers, or the
/// first domain with a mandatory group that keeps no scope.
pub open spec fn narrowed_policy(requested: PolicyTypeView, approved: PolicyTypeView, dir: Option<Seq<char>>) -> Result<
    PolicyTypeView,
    CapabilityDomain,
> {
    narrowed_domains(requested.domains, 0, approved, Seq::empty(), dir)
}

fn narrow_groups(groups: &Vec<PolicyGroup>, approved: &Vec<PolicyScope>, dir: &Option<String>) -> (result: Option<
    Vec<PolicyGroup>,
>)
    ensures
        match result {
            Some(narrowed) => narrowed_groups(
                view::policy_groups(groups@),
                0,
                view::policy_scopes(approved@),
                Seq::empty(),
                crate::execute::paths::view_option(*dir),
            ) == Some(view::policy_groups(narrowed@)),
            None => narrowed_groups(
                view::policy_groups(groups@),
                0,
                view::policy_scopes(approved@),
                Seq::empty(),
                crate::execute::paths::view_option(*dir),
            ) is None,
        },
{
    let ghost all = view::policy_groups(groups@);
    let ghost allowed = view::policy_scopes(approved@);
    let ghost place = crate::execute::paths::view_option(*dir);
    let mut done: Vec<PolicyGroup> = Vec::new();
    let mut i: usize = 0;
    assert(view::policy_groups(done@) =~= Seq::<PolicyGroupView>::empty());
    while i < groups.len()
        invariant
            i <= groups.len(),
            all == view::policy_groups(groups@),
            allowed == view::policy_scopes(approved@),
            place == crate::execute::paths::view_option(*dir),
            narrowed_groups(all, 0, allowed, Seq::empty(), place) == narrowed_groups(
                all,
                i as int,
                allowed,
                view::policy_groups(done@),
                place,
            ),
        decreases groups.len() - i,
    {
        assert(all[i as int] == view::policy_group(groups@[i as int]));
        let scopes = intersect_scope_sets(&groups[i].scopes, approved, dir);
        if scopes.len() == 0 && groups[i].requirement == PolicyRequirement::Mandatory {
            return None;
        }
        let ghost before = done@;
        done.push(PolicyGroup { requirement: groups[i].requirement, scopes });
        proof {
            view::lemma_policy_groups_push(before, done@.last());
        }
        i += 1;
    }
    Some(done)
}

/// Intersects a requested policy with an approved one. Every mandatory group
/// must keep at least one scope, otherwise its domain is the error.
pub fn intersect_requested_policy(requested: &PolicyType, approved: &PolicyType, dir: &Option<String>) -> (result: Result<
    PolicyType,
    CapabilityDomain,
>)
    ensures
        match result {
            Ok(policy) => narrowed_policy(
                view::policy_type(*requested),
                view::policy_type(*approved),
                crate::execute::paths::view_option(*dir),
            ) == Ok::<PolicyTypeView, CapabilityDomain>(view::policy_type(policy)),
            Err(domain) => narrowed_policy(
                view::policy_type(*requested),
                view::policy_type(*approved),
                crate::execute::paths::view_option(*dir),
            ) == Err::<PolicyTypeView, CapabilityDomain>(domain),
        },
{
    let ghost all = view::policy_domains(requested.domains@);
    let ghost allowed = view::policy_type(*approved);
    let ghost place = crate::execute::paths::view_option(*dir);
    let mut done: Vec<PolicyDomain> = Vec::new();
    let mut i: usize = 0;
    assert(view::policy_domains(done@) =~= Seq::<PolicyDomainView>::empty());
    while i < requested.domains.len()
        invariant
            i <= requested.domains.len(),
            all == view::policy_domains(requested.domains@),
            allowed == view::policy_type(*approved),
            place == crate::execute::paths::view_option(*dir),
            narrowed_domains(all, 0, allowed, Seq::empty(), place) == narrowed_domains(
                all,
                i as int,
                allowed,
                view::policy_domains(done@),
                place,
            ),
        decreases requested.domains.len() - i,
    {
        assert(all[i as int] == view::policy_domain(requested.domains@[i as int]));
        let domain = requested.domains[i].domain;
        let scopes = domain_scopes(approved, domain);
        let groups = match narrow_groups(&requested.domains[i].groups, &scopes, dir) {
            Some(groups) => groups,
            None => return Err(domain),
        };
        let ghost before = done@;
        done.push(PolicyDomain { domain, groups });
        proof {
            view::lemma_policy_domains_push(before, done@.last());
        }
        i += 1;
    }
    Ok(PolicyType { domains: done })
}

pub open spec fn narrow_message(domain: CapabilityDomain) -> Seq<PartView> {
    crate::execute::failure::text_failure(
        "`$policy.narrow` requires mandatory `"@ + domain_text(domain)
            + "` scopes the source value does not carry"@,
    )
}

fn narrow_failure(domain: CapabilityDomain) -> (failure: Failure)
    ensures
        failure@ == narrow_message(domain),
{
    let text = concat_three(
        "`$policy.narrow` requires mandatory `",
        domain_name(domain),
        "` scopes the source value does not carry",
    );
    Failure::text(text.as_str())
}

pub open spec fn narrowed_value(requested: PolicyTypeView, source: PolicyTypeView, dir: Option<Seq<char>>) -> Result<
    PolicyValueView,
    Seq<PartView>,
> {
    match narrowed_policy(requested, source, dir) {
        Ok(policy) => Ok(PolicyValueView { policy }),
        Err(domain) => Err(narrow_message(domain)),
    }
}

/// Narrows a live policy value: the requested type intersected with the scopes
/// that the value carries.
pub fn narrow_policy_value(requested: &PolicyType, source: &PolicyType, dir: &Option<String>) -> (result: Result<
    PolicyValue,
    Failure,
>)
    ensures
        match result {
            Ok(value) => narrowed_value(
                view::policy_type(*requested),
                view::policy_type(*source),
                crate::execute::paths::view_option(*dir),
            ) == Ok::<PolicyValueView, Seq<PartView>>(view::policy_value(value)),
            Err(failure) => narrowed_value(
                view::policy_type(*requested),
                view::policy_type(*source),
                crate::execute::paths::view_option(*dir),
            ) == Err::<PolicyValueView, Seq<PartView>>(failure@),
        },
{
    match intersect_requested_policy(requested, source, dir) {
        Ok(policy) => Ok(PolicyValue { policy }),
        Err(domain) => Err(narrow_failure(domain)),
    }
}

/// The groups of a domain, or none.
pub open spec fn groups_or_empty(policy: PolicyTypeView, domain: CapabilityDomain) -> Seq<PolicyGroupView> {
    match groups_of(policy, domain) {
        Some(groups) => groups,
        None => Seq::empty(),
    }
}

pub open spec fn one_domain(domain: CapabilityDomain, groups: Seq<PolicyGroupView>) -> PolicyTypeView {
    PolicyTypeView { domains: seq![PolicyDomainView { domain, groups }] }
}

/// A capability narrowed from a policy: all that the policy grants in the
/// domain when no groups are named, else the named groups narrowed.
pub open spec fn narrowed_capability(
    requested: CapabilityTypeView,
    source: PolicyTypeView,
    dir: Option<Seq<char>>,
) -> Result<CapabilityValueView, Seq<PartView>> {
    let domain = requested.domain;
    if requested.groups.len() == 0 {
        let groups = groups_or_empty(source, domain);
        Ok(
            CapabilityValueView {
                capability: CapabilityTypeView { domain, groups },
                policy: one_domain(domain, groups),
            },
        )
    } else {
        match narrowed_policy(one_domain(domain, requested.groups), source, dir) {
            Ok(policy) => Ok(
                CapabilityValueView {
                    capability: CapabilityTypeView { domain, groups: groups_or_empty(policy, domain) },
                    policy,
                },
            ),
            Err(domain) => Err(narrow_message(domain)),
        }
    }
}

fn copy_groups_or_empty(policy: &PolicyType, domain: CapabilityDomain) -> (result: Vec<PolicyGroup>)
    ensures
        view::policy_groups(result@) == groups_or_empty(view::policy_type(*policy), domain),
{
    match domain_groups(policy, domain) {
        Some(groups) => copy::policy_groups(groups),
        None => {
            let none: Vec<PolicyGroup> = Vec::new();
            assert(view::policy_groups(none@) =~= Seq::<PolicyGroupView>::empty());
            none
        }
    }
}

fn single_domain(domain: CapabilityDomain, groups: Vec<PolicyGroup>) -> (result: PolicyType)
    ensures
        view::policy_type(result) == one_domain(domain, view::policy_groups(groups@)),
{
    let mut domains: Vec<PolicyDomain> = Vec::new();
    domains.push(PolicyDomain { domain, groups });
    let result = PolicyType { domains };
    assert(view::policy_domains(result.domains@) =~= one_domain(domain, view::policy_groups(groups@)).domains);
    result
}

/// Narrows a live policy value to one domain capability.
pub fn narrow_capability_value(requested: &CapabilityType, source: &PolicyType, dir: &Option<String>) -> (result: Result<
    CapabilityValue,
    Failure,
>)
    ensures
        match result {
            Ok(value) => narrowed_capability(
                view::capability_type(*requested),
                view::policy_type(*source),
                crate::execute::paths::view_option(*dir),
            ) == Ok::<CapabilityValueView, Seq<PartView>>(view::capability_value(value)),
            Err(failure) => narrowed_capability(
                view::capability_type(*requested),
                view::policy_type(*source),
                crate::execute::paths::view_option(*dir),
            ) == Err::<CapabilityValueView, Seq<PartView>>(failure@),
        },
{
    let domain = requested.domain;
    if requested.groups.len() == 0 {
        let groups = copy_groups_or_empty(source, domain);
        let policy = single_domain(domain, copy::policy_groups(&groups));
        return Ok(CapabilityValue { capability: CapabilityType { domain, groups }, policy });
    }
    let wanted = single_domain(domain, copy::policy_groups(&requested.groups));
    match intersect_requested_policy(&wanted, source, dir) {
        Ok(policy) => {
            let groups = copy_groups_or_empty(&policy, domain);
            Ok(CapabilityValue { capability: CapabilityType { domain, groups }, policy })
        }
        Err(domain) => Err(narrow_failure(domain)),
    }
}

// Scope checks.

/// Whether a scope that is no path admits the requested text.
pub open spec fn admits_text(scope: PolicyScopeView, requested: Seq<char>) -> bool {
    match scope {
        PolicyScopeView::Any => true,
        PolicyScopeView::Exact(value) => value == requested,
        PolicyScopeView::Prefix(prefix) => crate::text::has_prefix(requested, prefix),
        _ => false,
    }
}

/// Whether one of the groups' scopes admits the requested text.
pub open spec fn groups_admit(groups: Seq<PolicyGroupView>, requested: Seq<char>) -> bool {
    exists|i: int, j: int|
        0 <= i < groups.len() && 0 <= j < groups[i].scopes.len() && admits_text(
            #[trigger] groups[i].scopes[j],
            requested,
        )
}

pub open spec fn no_domain_message(domain: CapabilityDomain) -> Seq<PartView> {
    crate::execute::failure::text_failure("policy does not authorize `"@ + domain_text(domain) + "`"@)
}

/// Whether the policy admits the requested text in the domain, and why not.
pub open spec fn scope_check(policy: PolicyTypeView, domain: CapabilityDomain, requested: Seq<char>) -> Result<
    (),
    Seq<PartView>,
> {
    match groups_of(policy, domain) {
        None => Err(no_domain_message(domain)),
        Some(groups) => if groups_admit(groups, requested) {
            Ok(())
        } else {
            Err(
                crate::execute::failure::text_failure(
                    "`"@ + requested + "` is outside the `"@ + domain_text(domain)
                        + "` scopes of the provided policy"@,
                ),
            )
        },
    }
}

fn scope_admits_text(scope: &PolicyScope, requested: &str) -> (result: bool)
    ensures
        result == admits_text(view::policy_scope(*scope), requested@),
{
    match scope {
        PolicyScope::Any => true,
        PolicyScope::Exact(value) => same_text(value.as_str(), requested),
        PolicyScope::Prefix(prefix) => starts_with(requested, prefix.as_str()),
        PolicyScope::Dir(_) | PolicyScope::File(_) => false,
    }
}

pub(crate) fn no_domain_failure(domain: CapabilityDomain) -> (failure: Failure)
    ensures
        failure@ == no_domain_message(domain),
{
    let text = concat_three("policy does not authorize `", domain_name(domain), "`");
    Failure::text(text.as_str())
}

/// Checks that `policy` authorizes `requested` under `domain` by scopes that
/// are no paths: `any` admits everything, `exact` the equal text, `prefix` what
/// begins with it.
pub fn ensure_policy_scope(policy: &PolicyType, domain: CapabilityDomain, requested: &str) -> (result: Result<
    (),
    Failure,
>)
    ensures
        match result {
            Ok(value) => scope_check(view::policy_type(*policy), domain, requested@) == Ok::<(), Seq<PartView>>(value),
            Err(failure) => scope_check(view::policy_type(*policy), domain, requested@) == Err::<(), Seq<PartView>>(
                failure@,
            ),
        },
{
    let groups = match domain_groups(policy, domain) {
        Some(groups) => groups,
        None => return Err(no_domain_failure(domain)),
    };
    let ghost all = view::policy_groups(groups@);
    let mut i: usize = 0;
    while i < groups.len()
        invariant
            i <= groups.len(),
            all == view::policy_groups(groups@),
            groups_of(view::policy_type(*policy), domain) == Some(all),
            forall|a: int, b: int|
                0 <= a < i && 0 <= b < all[a].scopes.len() ==> !admits_text(#[trigger] all[a].scopes[b], requested@),
        decreases groups.len() - i,
    {
        assert(all[i as int] == view::policy_group(groups@[i as int]));
        let scopes = &groups[i].scopes;
        let mut j: usize = 0;
        while j < scopes.len()
            invariant
                i < groups.len(),
                j <= scopes.len(),
                all == view::policy_groups(groups@),
                groups_of(view::policy_type(*policy), domain) == Some(all),
                all[i as int].scopes == view::policy_scopes(scopes@),
                forall|b: int| 0 <= b < j ==> !admits_text(#[trigger] all[i as int].scopes[b], requested@),
            decreases scopes.len() - j,
        {
            assert(all[i as int].scopes[j as int] == view::policy_scope(scopes@[j as int]));
            if scope_admits_text(&scopes[j], requested) {
                assert(groups_admit(all, requested@));
                return Ok(());
            }
            j += 1;
        }
        i += 1;
    }
    assert(!groups_admit(all, requested@));
    let text = concat_five(
        "`",
        requested,
        "` is outside the `",
        domain_name(domain),
        "` scopes of the provided policy",
    );
    Err(Failure::text(text.as_str()))
}

/// Whether a scope that is a path admits a path by its segments.
pub open spec fn admits_path(scope: PolicyScopeView, path: Seq<Seq<char>>, dir: Option<Seq<char>>) -> bool {
    match scope {
        PolicyScopeView::Any => true,
        PolicyScopeView::Dir(directory) => match crate::execute::paths::normalized(directory, dir) {
            Some(root) => crate::execute::paths::lies_under(path, root),
            None => false,
        },
        PolicyScopeView::File(file) => crate::execute::paths::normalized(file, dir) == Some(path),
        _ => false,
    }
}

// Laws.

/// What two scopes have in common admits a text exactly when both do.
pub proof fn law_intersection_admits_common_text(
    a: PolicyScopeView,
    b: PolicyScopeView,
    dir: Option<Seq<char>>,
    text: Seq<char>,
)
    ensures
        (common_scope(a, b, dir) matches Some(scope) && admits_text(scope, text)) <==> (admits_text(a, text)
            && admits_text(b, text)),
{
    match (a, b) {
        (PolicyScopeView::Prefix(x), PolicyScopeView::Prefix(y)) => {
            if crate::text::has_prefix(text, x) && crate::text::has_prefix(x, y) {
                assert(text.take(y.len() as int) =~= x.take(y.len() as int));
            }
            if crate::text::has_prefix(text, y) && crate::text::has_prefix(y, x) {
                assert(text.take(x.len() as int) =~= y.take(x.len() as int));
            }
            if crate::text::has_prefix(text, x) && crate::text::has_prefix(text, y) {
                if x.len() <= y.len() {
                    assert(y.take(x.len() as int) =~= text.take(x.len() as int));
                } else {
                    assert(x.take(y.len() as int) =~= text.take(y.len() as int));
                }
            }
        },
        _ => {},
    }
}

/// What two scopes have in common admits a path exactly when both do.
pub proof fn law_intersection_admits_common_paths(
    a: PolicyScopeView,
    b: PolicyScopeView,
    dir: Option<Seq<char>>,
    path: Seq<Seq<char>>,
)
    ensures
        (common_scope(a, b, dir) matches Some(scope) && admits_path(scope, path, dir)) <==> (admits_path(a, path, dir)
            && admits_path(b, path, dir)),
{
    match (a, b) {
        (PolicyScopeView::Dir(x), PolicyScopeView::Dir(y)) => {
            match (crate::execute::paths::normalized(x, dir), crate::execute::paths::normalized(y, dir)) {
                (Some(left), Some(right)) => {
                    if crate::execute::paths::lies_under(path, left) && crate::execute::paths::lies_under(left, right) {
                        crate::execute::paths::lemma_under_transitive(path, left, right);
                    }
                    if crate::execute::paths::lies_under(path, right)
                        && crate::execute::paths::lies_under(right, left) {
                        crate::execute::paths::lemma_under_transitive(path, right, left);
                    }
                    if crate::execute::paths::lies_under(path, left) && crate::execute::paths::lies_under(path, right) {
                        crate::execute::paths::lemma_under_nested(path, left, right);
                    }
                },
                _ => {},
            }
        },
        _ => {},
    }
}

proof fn lemma_common_with_each(
    scope: PolicyScopeView,
    approved: Seq<PolicyScopeView>,
    from: int,
    done: Seq<PolicyScopeView>,
    dir: Option<Seq<char>>,
    found: PolicyScopeView,
)
    requires
        0 <= from,
        common_with_each(scope, approved, from, done, dir).contains(found),
    ensures
        done.contains(found) || exists|j: int|
            0 <= j < approved.len() && common_scope(scope, #[trigger] approved[j], dir) == Some(found),
    decreases approved.len() - from,
{
    if from < approved.len() {
        let next = with_scope(done, common_scope(scope, approved[from], dir));
        lemma_common_with_each(scope, approved, from + 1, next, dir, found);
        if next.contains(found) && !done.contains(found) {
            let k = next.index_of(found);
            assert(next[k] == found);
            if k < done.len() {
                assert(done[k] == found);
            }
            assert(common_scope(scope, approved[from], dir) == Some(found));
        }
    }
}

proof fn lemma_common_scopes(
    requested: Seq<PolicyScopeView>,
    from: int,
    approved: Seq<PolicyScopeView>,
    done: Seq<PolicyScopeView>,
    dir: Option<Seq<char>>,
    found: PolicyScopeView,
)
    requires
        0 <= from,
        common_scopes_from(requested, from, approved, done, dir).contains(found),
    ensures
        done.contains(found) || exists|i: int, j: int|
            0 <= i < requested.len() && 0 <= j < approved.len() && common_scope(
                #[trigger] requested[i],
                #[trigger] approved[j],
                dir,
            ) == Some(found),
    decreases requested.len() - from,
{
    if from < requested.len() {
        let next = common_with_each(requested[from], approved, 0, done, dir);
        lemma_common_scopes(requested, from + 1, approved, next, dir, found);
        if next.contains(found) && !done.contains(found) {
            lemma_common_with_each(requested[from], approved, 0, done, dir, found);
            let j = choose|j: int|
                0 <= j < approved.len() && common_scope(requested[from], #[trigger] approved[j], dir) == Some(found);
            assert(common_scope(requested[from], approved[j], dir) == Some(found));
        }
    }
}

/// A narrowed scope list admits only text that both the request and the
/// approval admit.
pub proof fn law_narrowing_never_widens(
    requested: Seq<PolicyScopeView>,
    approved: Seq<PolicyScopeView>,
    dir: Option<Seq<char>>,
    found: PolicyScopeView,
    text: Seq<char>,
    path: Seq<Seq<char>>,
)
    requires
        common_scopes(requested, approved, dir).contains(found),
    ensures
        admits_text(found, text)
            ==> (exists|i: int| 0 <= i < requested.len() && admits_text(#[trigger] requested[i], text))
            && (exists|j: int| 0 <= j < approved.len() && admits_text(#[trigger] approved[j], text)),
        admits_path(found, path, dir) ==> (exists|i: int|
            0 <= i < requested.len() && admits_path(#[trigger] requested[i], path, dir)) && (exists|j: int|
            0 <= j < approved.len() && admits_path(#[trigger] approved[j], path, dir)),
{
    lemma_common_scopes(requested, 0, approved, Seq::empty(), dir, found);
    let (i, j) = choose|i: int, j: int|
        0 <= i < requested.len() && 0 <= j < approved.len() && common_scope(
            #[trigger] requested[i],
            #[trigger] approved[j],
            dir,
        ) == Some(found);
    law_intersection_admits_common_text(requested[i], approved[j], dir, text);
    law_intersection_admits_common_paths(requested[i], approved[j], dir, path);
}

proof fn lemma_narrowed_groups(
    groups: Seq<PolicyGroupView>,
    from: int,
    approved: Seq<PolicyScopeView>,
    done: Seq<PolicyGroupView>,
    dir: Option<Seq<char>>,
)
    requires
        0 <= from <= groups.len(),
        done.len() == from,
        narrowed_groups(groups, from, approved, done, dir) is Some,
        forall|k: int| 0 <= k < from ==> (#[trigger] done[k]).scopes == common_scopes(groups[k].scopes, approved, dir),
        forall|k: int|
            0 <= k < from ==> (#[trigger] done[k]).requirement == groups[k].requirement && (done[k].requirement
                == PolicyRequirement::Mandatory ==> done[k].scopes.len() > 0),
    ensures
        ({
            let narrowed = narrowed_groups(groups, from, approved, done, dir)->Some_0;
            &&& narrowed.len() == groups.len()
            &&& forall|k: int|
                0 <= k < groups.len() ==> (#[trigger] narrowed[k]).scopes == common_scopes(
                    groups[k].scopes,
                    approved,
                    dir,
                )
            &&& forall|k: int|
                0 <= k < groups.len() ==> (#[trigger] narrowed[k]).requirement == groups[k].requirement && (
                narrowed[k].requirement == PolicyRequirement::Mandatory ==> narrowed[k].scopes.len() > 0)
        }),
    decreases groups.len() - from,
{
    if from < groups.len() {
        let scopes = common_scopes(groups[from].scopes, approved, dir);
        let next = done.push(PolicyGroupView { requirement: groups[from].requirement, scopes });
        lemma_narrowed_groups(groups, from + 1, approved, next, dir);
    }
}

/// Narrowing keeps the shape of the requested groups, replaces every scope list
/// by what it has in common with the approval, and leaves every mandatory group
/// with a scope.
pub proof fn law_narrowed_groups_keep_mandatory_scopes(
    groups: Seq<PolicyGroupView>,
    approved: Seq<PolicyScopeView>,
    dir: Option<Seq<char>>,
)
    requires
        narrowed_groups(groups, 0, approved, Seq::empty(), dir) is Some,
    ensures
        ({
            let narrowed = narrowed_groups(groups, 0, approved, Seq::empty(), dir)->Some_0;
            &&& narrowed.len() == groups.len()
            &&& forall|k: int|
                0 <= k < groups.len() ==> (#[trigger] narrowed[k]).scopes == common_scopes(
                    groups[k].scopes,
                    approved,
                    dir,
                )
            &&& forall|k: int|
                0 <= k < groups.len() ==> (#[trigger] narrowed[k]).requirement == groups[k].requirement && (
                narrowed[k].requirement == PolicyRequirement::Mandatory ==> narrowed[k].scopes.len() > 0)
        }),
{
    lemma_narrowed_groups(groups, 0, approved, Seq::empty(), dir);
}

} // verus!
