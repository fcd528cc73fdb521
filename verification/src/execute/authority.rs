//! Authority over paths: whether a policy admits a path of the host.
use vstd::prelude::*;
use crate::execute::failure::{Failure, PartView};
use crate::execute::host::{HostReply, HostRequest};
use crate::execute::host_view::{ReplyView, RequestView};
use crate::execute::paths::{normalize_absolute_path, path_starts_with, read_absolute, same_segments, segments_text};
use crate::execute::policy::{domain_groups, no_domain_failure};
use crate::execute::session::{unexpected_reply, Halt, HaltView, Run, RunView, Session, SessionView};
use crate::lowered::ir::{CapabilityDomain, PolicyScope, PolicyType};
use crate::lowered::view::{self, PolicyScopeView, PolicyTypeView};
use crate::text::concat_three;

verus! {

/// The paths that the scopes name, in order.
pub open spec fn scope_paths(scopes: Seq<PolicyScopeView>, from: int, done: Seq<Seq<char>>) -> Seq<Seq<char>>
    decreases scopes.len() - from,
{
    if from < 0 || from >= scopes.len() {
        done
    } else {
        scope_paths(
            scopes,
            from + 1,
            match scopes[from] {
                PolicyScopeView::Dir(path) => done.push(path),
                PolicyScopeView::File(path) => done.push(path),
                _ => done,
            },
        )
    }
}

/// Whether one of `scopes[from..]` admits the path `path`, whose nearest
/// existing ancestor is `authority`. `roots[next..]` are what the host says that
/// the named paths lead to.
pub open spec fn admitted(
    scopes: Seq<PolicyScopeView>,
    from: int,
    roots: Seq<Seq<char>>,
    next: int,
    path: Seq<Seq<char>>,
    authority: Seq<Seq<char>>,
) -> bool
    decreases scopes.len() - from,
{
    if from < 0 || from >= scopes.len() {
        false
    } else {
        match scopes[from] {
            PolicyScopeView::Any => true,
            PolicyScopeView::Dir(_) => {
                ||| 0 <= next < roots.len() && crate::execute::paths::lies_under(
                    authority,
                    crate::execute::paths::absolute_segments(roots[next]),
                )
                ||| admitted(scopes, from + 1, roots, next + 1, path, authority)
            },
            PolicyScopeView::File(_) => {
                ||| 0 <= next < roots.len() && path == crate::execute::paths::absolute_segments(roots[next])
                ||| admitted(scopes, from + 1, roots, next + 1, path, authority)
            },
            _ => admitted(scopes, from + 1, roots, next, path, authority),
        }
    }
}

pub open spec fn failed_text(text: Seq<char>) -> Result<Seq<char>, Seq<PartView>> {
    Err(crate::execute::failure::text_failure(text))
}

/// The decision once the host has said where the path and the scopes lead.
pub open spec fn decided(
    path: Seq<char>,
    segments: Seq<Seq<char>>,
    policy: PolicyTypeView,
    domain: CapabilityDomain,
    authority: Option<Seq<char>>,
    roots: Seq<Seq<char>>,
) -> Result<Seq<char>, Seq<PartView>> {
    match authority {
        None => failed_text(
            "path `"@ + crate::execute::paths::path_text(segments) + "` has no existing ancestor"@,
        ),
        Some(found) => if crate::execute::policy::groups_of(policy, domain) is None {
            Err(crate::execute::policy::no_domain_message(domain))
        } else if admitted(
            crate::execute::policy::approved_scopes(policy, domain),
            0,
            roots,
            0,
            segments,
            crate::execute::paths::absolute_segments(found),
        ) {
            Ok(crate::execute::paths::path_text(segments))
        } else {
            failed_text("path `"@ + path + "` is outside approved policy"@)
        },
    }
}

/// Asks the host where a path leads and decides whether the policy admits it.
/// The result is the absolute path, or why it is refused.
pub open spec fn resolved(
    path: Seq<char>,
    policy: PolicyTypeView,
    domain: CapabilityDomain,
    run: RunView,
    session: SessionView,
) -> Result<(Result<Seq<char>, Seq<PartView>>, SessionView), HaltView> {
    match crate::execute::paths::normalized(path, run.config.working_dir) {
        None => Ok((failed_text("current dir"@), session)),
        Some(segments) => {
            let request = RequestView::Locate {
                path: crate::execute::paths::path_text(segments),
                roots: scope_paths(crate::execute::policy::approved_scopes(policy, domain), 0, Seq::empty()),
            };
            match crate::execute::session::asked(session, run, request) {
                Err(halt) => Err(halt),
                Ok((reply, session)) => match reply {
                    ReplyView::Located { authority, roots } => Ok(
                        (decided(path, segments, policy, domain, authority, roots), session),
                    ),
                    _ => Err(HaltView::Failed(crate::execute::session::unexpected())),
                },
            }
        },
    }
}

fn named_paths(scopes: &Vec<PolicyScope>) -> (result: Vec<String>)
    ensures
        view::texts(result@) == scope_paths(view::policy_scopes(scopes@), 0, Seq::empty()),
{
    let ghost all = view::policy_scopes(scopes@);
    let mut done: Vec<String> = Vec::new();
    let mut i: usize = 0;
    assert(view::texts(done@) =~= Seq::<Seq<char>>::empty());
    while i < scopes.len()
        invariant
            i <= scopes.len(),
            all == view::policy_scopes(scopes@),
            scope_paths(all, 0, Seq::empty()) == scope_paths(all, i as int, view::texts(done@)),
        decreases scopes.len() - i,
    {
        assert(all[i as int] == view::policy_scope(scopes@[i as int]));
        let ghost before = done@;
        match &scopes[i] {
            PolicyScope::Dir(path) | PolicyScope::File(path) => {
                done.push(path.clone());
                proof {
                    view::lemma_texts_push(before, done@.last());
                }
            }
            _ => {}
        }
        i += 1;
    }
    done
}

fn admits(scopes: &Vec<PolicyScope>, roots: &Vec<String>, path: &Vec<String>, authority: &Vec<String>) -> (result: bool)
    ensures
        result == admitted(
            view::policy_scopes(scopes@),
            0,
            view::texts(roots@),
            0,
            view::texts(path@),
            view::texts(authority@),
        ),
{
    let ghost all = view::policy_scopes(scopes@);
    let ghost places = view::texts(roots@);
    let ghost wanted = view::texts(path@);
    let ghost owner = view::texts(authority@);
    let mut next: usize = 0;
    let mut i: usize = 0;
    while i < scopes.len()
        invariant
            next <= i <= scopes.len(),
            all == view::policy_scopes(scopes@),
            places == view::texts(roots@),
            wanted == view::texts(path@),
            owner == view::texts(authority@),
            admitted(all, 0, places, 0, wanted, owner) == admitted(all, i as int, places, next as int, wanted, owner),
        decreases scopes.len() - i,
    {
        assert(all[i as int] == view::policy_scope(scopes@[i as int]));
        match &scopes[i] {
            PolicyScope::Any => return true,
            PolicyScope::Dir(_) => {
                if next < roots.len() {
                    let root = read_absolute(roots[next].as_str());
                    assert(places[next as int] == roots@[next as int]@);
                    if path_starts_with(authority, &root) {
                        return true;
                    }
                }
                next += 1;
            }
            PolicyScope::File(_) => {
                if next < roots.len() {
                    let root = read_absolute(roots[next].as_str());
                    assert(places[next as int] == roots@[next as int]@);
                    if same_segments(path, &root) {
                        return true;
                    }
                }
                next += 1;
            }
            _ => {}
        }
        i += 1;
    }
    false
}

pub open spec fn resolution(result: Result<String, Failure>) -> Result<Seq<char>, Seq<PartView>> {
    match result {
        Ok(path) => Ok(path@),
        Err(failure) => Err(failure@),
    }
}

fn decide(
    path: &str,
    segments: &Vec<String>,
    policy: &PolicyType,
    domain: CapabilityDomain,
    authority: &Option<String>,
    roots: &Vec<String>,
) -> (result: Result<String, Failure>)
    ensures
        resolution(result) == decided(
            path@,
            view::texts(segments@),
            view::policy_type(*policy),
            domain,
            crate::execute::paths::view_option(*authority),
            view::texts(roots@),
        ),
{
    let absolute = segments_text(segments);
    let found = match authority {
        None => {
            let text = concat_three("path `", absolute.as_str(), "` has no existing ancestor");
            return Err(Failure::text(text.as_str()));
        }
        Some(found) => found,
    };
    match domain_groups(policy, domain) {
        None => return Err(no_domain_failure(domain)),
        Some(_) => {}
    }
    let scopes = crate::execute::policy::domain_scopes(policy, domain);
    let owner = read_absolute(found.as_str());
    if admits(&scopes, roots, segments, &owner) {
        Ok(absolute)
    } else {
        let text = concat_three("path `", path, "` is outside approved policy");
        Err(Failure::text(text.as_str()))
    }
}

/// Resolves `path` against the `domain` scopes of `policy`.
pub fn resolve_policy_path(
    path: &str,
    policy: &PolicyType,
    domain: CapabilityDomain,
    run: &Run,
    session: &mut Session,
) -> (result: Result<Result<String, Failure>, Halt>)
    requires
        old(session).well_formed(),
    ensures
        final(session).well_formed(),
        match result {
            Ok(found) => resolved(path@, view::policy_type(*policy), domain, run@, old(session)@) == Ok::<
                (Result<Seq<char>, Seq<PartView>>, SessionView),
                HaltView,
            >((resolution(found), final(session)@)),
            Err(halt) => resolved(path@, view::policy_type(*policy), domain, run@, old(session)@) == Err::<
                (Result<Seq<char>, Seq<PartView>>, SessionView),
                HaltView,
            >(halt@) && crate::execute::session::stopped(old(session)@, final(session)@, halt@),
        },
{
    let segments = match normalize_absolute_path(path, &run.config.working_dir) {
        Some(segments) => segments,
        None => return Ok(Err(Failure::text("current dir"))),
    };
    let scopes = crate::execute::policy::domain_scopes(policy, domain);
    let request = HostRequest::Locate { path: segments_text(&segments), roots: named_paths(&scopes) };
    let reply = match session.ask(run, request) {
        Ok(reply) => reply,
        Err(halt) => return Err(halt),
    };
    match reply {
        HostReply::Located { authority, roots } => Ok(decide(path, &segments, policy, domain, authority, roots)),
        _ => Err(Halt::Failed(unexpected_reply())),
    }
}

} // verus!
