//! What holds of invitations and memberships in every state.

use vstd::prelude::*;
use crate::cloud::ObjectStoreView;
use crate::coordinator::{accept_calls, accept_failure, accept_state, deny_calls, deny_failure};
use crate::coordinator::{deny_state, invite_calls, invite_failure, invite_state};
use crate::coordinator::{lemma_accept_run, lemma_deny_run, lemma_invite_run, run, StoreCall};
use crate::errors::AppErrorType;
use crate::failures::already_invited;
use crate::failures::not_found;
use crate::handlers::auth::fresh_user;
use crate::handlers::projects::{create_project_state, fresh_project};
use crate::idlist::{lemma_with_id, lemma_without_id};
use crate::ingest::{image_fault, ingest_failure, upload_fault};
use crate::oid::ObjectId;
use crate::payload::{decode_failure, is_first, lemma_first_at, no_comma_message};
use crate::payload::{payload_body, COMMA};
use crate::repositories::projects::{project_has_member, project_invites};
use crate::repositories::users::{user_in_project, user_invited, user_named};
use crate::repositories::users::username_taken;
use crate::state::StateView;

verus! {

/// The pair is invited: the user lists the project as an invitation and the project lists
/// the user as invited.
pub open spec fn pair_invited(s: StateView, user: ObjectId, project: ObjectId) -> bool {
    user_invited(s.users, user, project) && project_invites(s.projects, project, user)
}

/// The pair is a member: the user lists the project as a membership, the project lists
/// the user as a member, and neither lists an invitation.
pub open spec fn pair_member(s: StateView, user: ObjectId, project: ObjectId) -> bool {
    &&& user_in_project(s.users, user, project)
    &&& project_has_member(s.projects, project, user)
    &&& !user_invited(s.users, user, project)
    &&& !project_invites(s.projects, project, user)
}

/// After an invitation that went through, the project lists the user as invited and the
/// user lists the project as an invitation. The same invitation asked for again is
/// refused, because the user is invited already, and changes nothing.
pub proof fn law_invite_then_invited(
    s: StateView,
    inviter: ObjectId,
    project: ObjectId,
    username: Seq<char>,
)
    requires
        s.wf(),
        invite_failure(s, inviter, project, username) is None,
    ensures
        pair_invited(
            invite_state(s, inviter, project, username),
            user_named(s.users, username),
            project,
        ),
        invite_failure(invite_state(s, inviter, project, username), inviter, project, username)
            == Some(already_invited(username)),
        invite_state(invite_state(s, inviter, project, username), inviter, project, username)
            == invite_state(s, inviter, project, username),
{
    let target = user_named(s.users, username);
    let after = invite_state(s, inviter, project, username);
    assert(s.users.contains_key(target) && s.users[target].username == username);
    assert(s.users[target].id == target);
    lemma_with_id(s.users[target].invitations, project);
    lemma_with_id(s.projects[project].invitations, target);
    assert(after.users.contains_key(target) && after.users[target].username == username);
    let again = user_named(after.users, username);
    assert(after.users.contains_key(again) && after.users[again].username == username);
    assert(again == target) by {
        if again != target {
            assert(s.users.contains_key(again));
            assert(s.users[again].username == s.users[target].username);
        }
    }
}

/// Accepting moves an invited pair to membership: afterwards the user lists the project
/// as a membership and the project lists the user as a member, and neither lists the
/// invitation any more.
pub proof fn law_accept_invited_then_member(s: StateView, user: ObjectId, project: ObjectId)
    requires
        s.wf(),
        pair_invited(s, user, project),
    ensures
        accept_failure(s, user, project) is None,
        pair_member(accept_state(s, user, project), user, project),
{
    lemma_with_id(s.users[user].projects, project);
    lemma_without_id(s.users[user].invitations, project);
    lemma_with_id(s.projects[project].members, user);
    lemma_without_id(s.projects[project].invitations, user);
}

/// Turning down takes an invited pair back to nothing: afterwards neither record lists
/// the invitation, and the memberships are as they were.
pub proof fn law_deny_invited_then_none(s: StateView, user: ObjectId, project: ObjectId)
    requires
        s.wf(),
        pair_invited(s, user, project),
    ensures
        deny_failure(s, user, project) is None,
        !user_invited(deny_state(s, user, project).users, user, project),
        !project_invites(deny_state(s, user, project).projects, project, user),
        user_in_project(deny_state(s, user, project).users, user, project) == user_in_project(
            s.users,
            user,
            project,
        ),
        project_has_member(deny_state(s, user, project).projects, project, user)
            == project_has_member(s.projects, project, user),
{
    lemma_without_id(s.users[user].invitations, project);
    lemma_without_id(s.projects[project].invitations, user);
}

/// Where the user holds no invitation to the project, accepting and turning down both
/// fail, as for something that is not there and never as a partial transition, and
/// change nothing.
pub proof fn law_answer_needs_invitation(s: StateView, user: ObjectId, project: ObjectId)
    requires
        !user_invited(s.users, user, project),
    ensures
        accept_state(s, user, project) == s,
        deny_state(s, user, project) == s,
        accept_failure(s, user, project) == deny_failure(s, user, project),
        accept_failure(s, user, project) matches Some(e) && e.error_type
            == AppErrorType::NotFoundError,
{
}

/// In a state whose two tables agree, a pair that is not invited has no invitation on the
/// user's record, so that accepting and turning down fail and change nothing.
pub proof fn law_not_invited_unchanged(s: StateView, user: ObjectId, project: ObjectId)
    requires
        s.consistent(),
        !pair_invited(s, user, project),
    ensures
        accept_state(s, user, project) == s,
        deny_state(s, user, project) == s,
        accept_failure(s, user, project) matches Some(e) && e.error_type
            == AppErrorType::NotFoundError,
        deny_failure(s, user, project) matches Some(e) && e.error_type
            == AppErrorType::NotFoundError,
{
    law_answer_needs_invitation(s, user, project);
}

/// Accepting twice in a row ends in the state that accepting once ends in; the second
/// call finds no invitation.
pub proof fn law_accept_twice(s: StateView, user: ObjectId, project: ObjectId)
    ensures
        accept_state(accept_state(s, user, project), user, project) == accept_state(
            s,
            user,
            project,
        ),
        user_invited(s.users, user, project) ==> accept_failure(
            accept_state(s, user, project),
            user,
            project,
        ) == Some(not_found(project)),
{
    if user_invited(s.users, user, project) {
        lemma_without_id(s.users[user].invitations, project);
        lemma_with_id(s.users[user].projects, project);
    }
}

/// Turning down twice in a row ends in the state that turning down once ends in; the
/// second call finds no invitation.
pub proof fn law_deny_twice(s: StateView, user: ObjectId, project: ObjectId)
    ensures
        deny_state(deny_state(s, user, project), user, project) == deny_state(s, user, project),
        user_invited(s.users, user, project) ==> deny_failure(
            deny_state(s, user, project),
            user,
            project,
        ) == Some(not_found(project)),
{
    if user_invited(s.users, user, project) {
        lemma_without_id(s.users[user].invitations, project);
    }
}

/// An invitation that went through keeps the two tables well formed and in agreement.
pub proof fn law_invite_keeps_agreement(
    s: StateView,
    inviter: ObjectId,
    project: ObjectId,
    username: Seq<char>,
)
    requires
        s.wf(),
        s.consistent(),
        invite_failure(s, inviter, project, username) is None,
    ensures
        invite_state(s, inviter, project, username).wf(),
        invite_state(s, inviter, project, username).consistent(),
{
    let target = user_named(s.users, username);
    let after = invite_state(s, inviter, project, username);
    assert(s.users.contains_key(target) && s.users[target].username == username);
    assert(s.users[target].id == target);
    lemma_with_id(s.users[target].invitations, project);
    lemma_with_id(s.projects[project].invitations, target);
    assert(!user_in_project(s.users, target, project));
    assert(!project_has_member(s.projects, project, target));
    assert forall|u: ObjectId, p: ObjectId|
        user_in_project(after.users, u, p) <==> project_has_member(after.projects, p, u) by {
        assert(user_in_project(after.users, u, p) == user_in_project(s.users, u, p));
        assert(project_has_member(after.projects, p, u) == project_has_member(s.projects, p, u));
    }
    assert forall|u: ObjectId, p: ObjectId|
        user_invited(after.users, u, p) <==> project_invites(after.projects, p, u) by {
        if u == target && p == project {
        } else {
            assert(user_invited(after.users, u, p) == user_invited(s.users, u, p));
            assert(project_invites(after.projects, p, u) == project_invites(s.projects, p, u));
        }
    }
    assert forall|u: ObjectId| #[trigger] after.users.contains_key(u) implies after.users[u].settled() by {
        assert(s.users[u].settled());
    }
    assert forall|p: ObjectId| #[trigger] after.projects.contains_key(p) implies after.projects[p].settled() by {
        assert(s.projects[p].settled());
    }
}

/// An acceptance that went through keeps the two tables well formed and in agreement.
pub proof fn law_accept_keeps_agreement(s: StateView, user: ObjectId, project: ObjectId)
    requires
        s.wf(),
        s.consistent(),
        accept_failure(s, user, project) is None,
    ensures
        accept_state(s, user, project).wf(),
        accept_state(s, user, project).consistent(),
{
    let after = accept_state(s, user, project);
    lemma_with_id(s.users[user].projects, project);
    lemma_without_id(s.users[user].invitations, project);
    lemma_with_id(s.projects[project].members, user);
    lemma_without_id(s.projects[project].invitations, user);
    assert forall|u: ObjectId, p: ObjectId|
        user_in_project(after.users, u, p) <==> project_has_member(after.projects, p, u) by {
        if u == user && p == project {
        } else {
            assert(user_in_project(after.users, u, p) == user_in_project(s.users, u, p));
            assert(project_has_member(after.projects, p, u) == project_has_member(s.projects, p, u));
        }
    }
    assert forall|u: ObjectId, p: ObjectId|
        user_invited(after.users, u, p) <==> project_invites(after.projects, p, u) by {
        if u == user && p == project {
        } else {
            assert(user_invited(after.users, u, p) == user_invited(s.users, u, p));
            assert(project_invites(after.projects, p, u) == project_invites(s.projects, p, u));
        }
    }
    assert forall|u: ObjectId| #[trigger] after.users.contains_key(u) implies after.users[u].settled() by {
        assert(s.users[u].settled());
        if u == user {
            assert forall|q: ObjectId|
                !(after.users[u].projects.contains(q) && after.users[u].invitations.contains(q)) by {
                if q != project {
                    assert(after.users[u].projects.contains(q) == s.users[u].projects.contains(q));
                    assert(after.users[u].invitations.contains(q) == s.users[u].invitations.contains(
                        q,
                    ));
                }
            }
        }
    }
    assert forall|p: ObjectId| #[trigger] after.projects.contains_key(p) implies after.projects[p].settled() by {
        assert(s.projects[p].settled());
        if p == project {
            assert forall|q: ObjectId|
                !(after.projects[p].members.contains(q) && after.projects[p].invitations.contains(
                    q,
                )) by {
                if q != user {
                    assert(after.projects[p].members.contains(q) == s.projects[p].members.contains(q));
                    assert(after.projects[p].invitations.contains(q)
                        == s.projects[p].invitations.contains(q));
                }
            }
        }
    }
}

/// A refusal by the invited user that went through keeps the two tables well formed and
/// in agreement.
pub proof fn law_deny_keeps_agreement(s: StateView, user: ObjectId, project: ObjectId)
    requires
        s.wf(),
        s.consistent(),
        deny_failure(s, user, project) is None,
    ensures
        deny_state(s, user, project).wf(),
        deny_state(s, user, project).consistent(),
{
    let after = deny_state(s, user, project);
    lemma_without_id(s.users[user].invitations, project);
    lemma_without_id(s.projects[project].invitations, user);
    assert forall|u: ObjectId, p: ObjectId|
        user_in_project(after.users, u, p) <==> project_has_member(after.projects, p, u) by {
        assert(user_in_project(after.users, u, p) == user_in_project(s.users, u, p));
        assert(project_has_member(after.projects, p, u) == project_has_member(s.projects, p, u));
    }
    assert forall|u: ObjectId, p: ObjectId|
        user_invited(after.users, u, p) <==> project_invites(after.projects, p, u) by {
        if u == user && p == project {
        } else {
            assert(user_invited(after.users, u, p) == user_invited(s.users, u, p));
            assert(project_invites(after.projects, p, u) == project_invites(s.projects, p, u));
        }
    }
    assert forall|u: ObjectId| #[trigger] after.users.contains_key(u) implies after.users[u].settled() by {
        assert(s.users[u].settled());
    }
    assert forall|p: ObjectId| #[trigger] after.projects.contains_key(p) implies after.projects[p].settled() by {
        assert(s.projects[p].settled());
    }
}

/// An image without a comma between its heading and its data is refused as one that
/// cannot be decoded, whatever else it holds and whatever region it is for.
pub proof fn law_no_comma_is_refused(region: Seq<char>, wire: Seq<u8>)
    requires
        !wire.contains(COMMA),
    ensures
        payload_body(wire) is None,
        image_fault(wire) == Some(no_comma_message()),
        upload_fault(region, wire) == Some(decode_failure(no_comma_message())),
{
    assert(is_first(wire, COMMA, wire.len() as int)) by {
        assert forall|j: int| 0 <= j < wire.len() implies wire[j] != COMMA by {
            if wire[j] == COMMA {
                assert(wire.contains(COMMA));
            }
        }
    }
    lemma_first_at(wire, COMMA, wire.len() as int);
}

/// For a member of a project on record, taking in an avatar whose image has no comma
/// fails as a failure to decode.
pub proof fn law_no_comma_no_write(
    s: StateView,
    store: ObjectStoreView,
    project: ObjectId,
    requester: ObjectId,
    wire: Seq<u8>,
)
    requires
        user_in_project(s.users, requester, project),
        s.projects.contains_key(project),
        !wire.contains(COMMA),
    ensures
        ingest_failure(s, store, project, requester, wire) == Some(
            decode_failure(no_comma_message()),
        ),
        decode_failure(no_comma_message()).error_type == AppErrorType::DecodeError,
{
    law_no_comma_is_refused(s.projects[project].region, wire);
}

/// A project made for an owner on record, under an identifier that is free, keeps the
/// two tables well formed and in agreement.
pub proof fn law_create_project_keeps_agreement(
    s: StateView,
    author: ObjectId,
    project: ObjectId,
    title: Seq<char>,
    region: Seq<char>,
    api_key: Seq<char>,
    api_secret: Seq<char>,
)
    requires
        s.wf(),
        s.consistent(),
        s.users.contains_key(author),
        !s.projects.contains_key(project),
    ensures
        create_project_state(
            s,
            author,
            fresh_project(project, author, title, region, api_key, api_secret),
        ).wf(),
        create_project_state(
            s,
            author,
            fresh_project(project, author, title, region, api_key, api_secret),
        ).consistent(),
{
    let record = fresh_project(project, author, title, region, api_key, api_secret);
    let after = create_project_state(s, author, record);
    lemma_with_id(s.users[author].projects, project);
    assert(record.members[0] == author);
    assert forall|u: ObjectId| record.members.contains(u) <==> u == author by {
        if record.members.contains(u) {
            let i = choose|i: int| 0 <= i < record.members.len() && record.members[i] == u;
            assert(record.members[i] == u);
        }
    }
    assert forall|u: ObjectId| !record.invitations.contains(u) by {}
    assert forall|u: ObjectId| !user_in_project(s.users, u, project) by {
        assert(!project_has_member(s.projects, project, u));
    }
    assert forall|u: ObjectId| !user_invited(s.users, u, project) by {
        assert(!project_invites(s.projects, project, u));
    }
    assert forall|u: ObjectId, p: ObjectId|
        user_in_project(after.users, u, p) <==> project_has_member(after.projects, p, u) by {
        if p == project {
            assert(!user_in_project(s.users, u, project));
            assert(record.members.contains(u) <==> u == author);
            if u != author && after.users.contains_key(u) {
                assert(after.users[u] == s.users[u]);
            }
        } else {
            assert(user_in_project(after.users, u, p) == user_in_project(s.users, u, p));
            assert(project_has_member(after.projects, p, u) == project_has_member(s.projects, p, u));
        }
    }
    assert forall|u: ObjectId, p: ObjectId|
        user_invited(after.users, u, p) <==> project_invites(after.projects, p, u) by {
        if p == project {
            assert(!user_invited(s.users, u, project));
            assert(!record.invitations.contains(u));
            if after.users.contains_key(u) {
                assert(after.users[u].invitations == s.users[u].invitations);
            }
        } else {
            assert(user_invited(after.users, u, p) == user_invited(s.users, u, p));
            assert(project_invites(after.projects, p, u) == project_invites(s.projects, p, u));
        }
    }
    assert forall|u: ObjectId| #[trigger] after.users.contains_key(u) implies after.users[u].settled() by {
        assert(s.users[u].settled());
        if u == author {
            assert forall|q: ObjectId|
                !(after.users[u].projects.contains(q) && after.users[u].invitations.contains(q)) by {
                if q != project {
                    assert(after.users[u].projects.contains(q) == s.users[u].projects.contains(q));
                } else {
                    assert(!user_invited(s.users, u, project));
                }
            }
        }
    }
    assert forall|p: ObjectId| #[trigger] after.projects.contains_key(p) implies after.projects[p].settled() by {
        if p != project {
            assert(s.projects[p].settled());
        }
    }
}

/// A user registered under an identifier and a name that are free keeps the two tables
/// well formed and in agreement.
pub proof fn law_register_keeps_agreement(
    s: StateView,
    user: ObjectId,
    username: Seq<char>,
    password: Seq<char>,
)
    requires
        s.wf(),
        s.consistent(),
        !s.users.contains_key(user),
        !username_taken(s.users, username),
    ensures
        (StateView { users: s.users.insert(user, fresh_user(user, username, password)), ..s }).wf(),
        (StateView {
            users: s.users.insert(user, fresh_user(user, username, password)),
            ..s
        }).consistent(),
{
    let record = fresh_user(user, username, password);
    let after = StateView { users: s.users.insert(user, record), ..s };
    assert forall|p: ObjectId| !record.projects.contains(p) && !record.invitations.contains(p) by {}
    assert forall|a: ObjectId, b: ObjectId|
        after.users.contains_key(a) && after.users.contains_key(b) && after.users[a].username
            == after.users[b].username implies a == b by {
        if a != b {
            if a == user {
                assert(s.users.contains_key(b) && s.users[b].username == username);
            } else if b == user {
                assert(s.users.contains_key(a) && s.users[a].username == username);
            }
        }
    }
    assert forall|p: ObjectId| !project_has_member(s.projects, p, user) by {
        assert(!user_in_project(s.users, user, p));
    }
    assert forall|p: ObjectId| !project_invites(s.projects, p, user) by {
        assert(!user_invited(s.users, user, p));
    }
    assert forall|u: ObjectId, p: ObjectId|
        user_in_project(after.users, u, p) <==> project_has_member(after.projects, p, u) by {
        if u != user {
            assert(user_in_project(after.users, u, p) == user_in_project(s.users, u, p));
        }
    }
    assert forall|u: ObjectId, p: ObjectId|
        user_invited(after.users, u, p) <==> project_invites(after.projects, p, u) by {
        if u != user {
            assert(user_invited(after.users, u, p) == user_invited(s.users, u, p));
        }
    }
    assert forall|u: ObjectId| #[trigger] after.users.contains_key(u) implies after.users[u].settled() by {
        if u != user {
            assert(s.users[u].settled());
        }
    }
}

/// Every write is a set operation on one record: made twice in a row, it leaves what it
/// leaves when made once.
pub proof fn law_write_twice(s: StateView, call: StoreCall)
    ensures
        call.apply(call.apply(s)) == call.apply(s),
{
    match call {
        StoreCall::UserAddProject { user, project } => {
            if s.users.contains_key(user) {
                lemma_with_id(s.users[user].projects, project);
                assert(call.apply(call.apply(s)).users =~= call.apply(s).users);
            }
        },
        StoreCall::UserAddInvitation { user, project } => {
            if s.users.contains_key(user) {
                lemma_with_id(s.users[user].invitations, project);
                assert(call.apply(call.apply(s)).users =~= call.apply(s).users);
            }
        },
        StoreCall::UserRemoveInvitation { user, project } => {
            if s.users.contains_key(user) {
                lemma_without_id(s.users[user].invitations, project);
                assert(call.apply(call.apply(s)).users =~= call.apply(s).users);
            }
        },
        StoreCall::ProjectAddUser { project, user } => {
            if s.projects.contains_key(project) {
                lemma_with_id(s.projects[project].members, user);
                assert(call.apply(call.apply(s)).projects =~= call.apply(s).projects);
            }
        },
        StoreCall::ProjectAddInvitation { project, user } => {
            if s.projects.contains_key(project) {
                lemma_with_id(s.projects[project].invitations, user);
                assert(call.apply(call.apply(s)).projects =~= call.apply(s).projects);
            }
        },
        StoreCall::ProjectRemoveInvitation { project, user } => {
            if s.projects.contains_key(project) {
                lemma_without_id(s.projects[project].invitations, user);
                assert(call.apply(call.apply(s)).projects =~= call.apply(s).projects);
            }
        },
    }
}

/// The writes of an acceptance can be driven again: a second run, started where a first
/// run ended or stopped, ends in the same state and gets as far.
pub proof fn law_accept_writes_again(s: StateView, user: ObjectId, project: ObjectId)
    ensures
        run(run(s, accept_calls(user, project)).0, accept_calls(user, project)) == run(
            s,
            accept_calls(user, project),
        ),
{
    let calls = accept_calls(user, project);
    if s.users.contains_key(user) {
        lemma_accept_run(s, user, project);
        let once = run(s, calls).0;
        lemma_accept_run(once, user, project);
        lemma_with_id(s.users[user].projects, project);
        lemma_without_id(s.users[user].invitations, project);
        assert(run(once, calls).0.users =~= once.users);
        if s.projects.contains_key(project) {
            lemma_with_id(s.projects[project].members, user);
            lemma_without_id(s.projects[project].invitations, user);
        }
        assert(run(once, calls).0.projects =~= once.projects);
    } else {
        assert(!calls[0].resolves(s));
    }
}

/// The writes of a refusal by the invited user can be driven again in the same way.
pub proof fn law_deny_writes_again(s: StateView, user: ObjectId, project: ObjectId)
    ensures
        run(run(s, deny_calls(user, project)).0, deny_calls(user, project)) == run(
            s,
            deny_calls(user, project),
        ),
{
    let calls = deny_calls(user, project);
    if s.users.contains_key(user) {
        lemma_deny_run(s, user, project);
        let once = run(s, calls).0;
        lemma_deny_run(once, user, project);
        lemma_without_id(s.users[user].invitations, project);
        assert(run(once, calls).0.users =~= once.users);
        if s.projects.contains_key(project) {
            lemma_without_id(s.projects[project].invitations, user);
        }
        assert(run(once, calls).0.projects =~= once.projects);
    } else {
        assert(!calls[0].resolves(s));
    }
}

/// The writes of an invitation can be driven again in the same way.
pub proof fn law_invite_writes_again(s: StateView, target: ObjectId, project: ObjectId)
    ensures
        run(run(s, invite_calls(target, project)).0, invite_calls(target, project)) == run(
            s,
            invite_calls(target, project),
        ),
{
    let calls = invite_calls(target, project);
    if s.users.contains_key(target) {
        lemma_invite_run(s, target, project);
        let once = run(s, calls).0;
        lemma_invite_run(once, target, project);
        lemma_with_id(s.users[target].invitations, project);
        assert(run(once, calls).0.users =~= once.users);
        if s.projects.contains_key(project) {
            lemma_with_id(s.projects[project].invitations, target);
        }
        assert(run(once, calls).0.projects =~= once.projects);
    } else {
        assert(!calls[0].resolves(s));
    }
}

} // verus!
