//! Invitations and memberships. A user record and a project record each hold their side of
//! every invitation and of every membership, and no write covers both records. A
//! transition is therefore a fixed list of writes, each a set operation on one record,
//! made in order and given up at the first that fails.

use vstd::prelude::*;
use crate::errors::{AppError, AppErrorType, AppErrorView};
use crate::errors::partial_transition_message;
use crate::failures::{already_invited, name_not_found, not_found, not_in_project};
use crate::idlist::contains_id;
use crate::models::{Project, User};
use crate::models::{ProjectView, UserView};
use crate::oid::ObjectId;
use crate::repositories::projects::{project_add_invitation, project_add_user};
use crate::repositories::projects::{projection_of, ProjectProjection};
use crate::repositories::projects::project_remove_invitation;
use crate::repositories::users::{user_add_invitation, user_add_project, user_remove_invitation};
use crate::repositories::users::{user_invited, user_named, username_taken};
use crate::state::{same_order, AppState, StateView};

verus! {

/// One write to one record of one store.
#[derive(Clone, Copy, Debug)]
pub enum StoreCall {
    /// Add `project` to the memberships of `user`.
    UserAddProject { user: ObjectId, project: ObjectId },
    /// Add `project` to the invitations of `user`.
    UserAddInvitation { user: ObjectId, project: ObjectId },
    /// Take `project` off the invitations of `user`.
    UserRemoveInvitation { user: ObjectId, project: ObjectId },
    /// Add `user` to the members of `project`.
    ProjectAddUser { project: ObjectId, user: ObjectId },
    /// Add `user` to those invited to `project`.
    ProjectAddInvitation { project: ObjectId, user: ObjectId },
    /// Take `user` off those invited to `project`.
    ProjectRemoveInvitation { project: ObjectId, user: ObjectId },
}

impl StoreCall {
    /// Whether the record that the write is for is on record, so that the write goes
    /// through.
    pub open spec fn resolves(self, s: StateView) -> bool {
        match self {
            StoreCall::UserAddProject { user, .. } => s.users.contains_key(user),
            StoreCall::UserAddInvitation { user, .. } => s.users.contains_key(user),
            StoreCall::UserRemoveInvitation { user, .. } => s.users.contains_key(user),
            StoreCall::ProjectAddUser { project, .. } => s.projects.contains_key(project),
            StoreCall::ProjectAddInvitation { project, .. } => s.projects.contains_key(project),
            StoreCall::ProjectRemoveInvitation { project, .. } => s.projects.contains_key(project),
        }
    }

    /// The state after the write. A write for a record that is not there changes nothing.
    pub open spec fn apply(self, s: StateView) -> StateView {
        match self {
            StoreCall::UserAddProject { user, project } => StateView {
                users: user_add_project(s.users, user, project),
                ..s
            },
            StoreCall::UserAddInvitation { user, project } => StateView {
                users: user_add_invitation(s.users, user, project),
                ..s
            },
            StoreCall::UserRemoveInvitation { user, project } => StateView {
                users: user_remove_invitation(s.users, user, project),
                ..s
            },
            StoreCall::ProjectAddUser { project, user } => StateView {
                projects: project_add_user(s.projects, project, user),
                ..s
            },
            StoreCall::ProjectAddInvitation { project, user } => StateView {
                projects: project_add_invitation(s.projects, project, user),
                ..s
            },
            StoreCall::ProjectRemoveInvitation { project, user } => StateView {
                projects: project_remove_invitation(s.projects, project, user),
                ..s
            },
        }
    }

    /// What the write reports where its record is not there.
    pub open spec fn refusal(self) -> AppErrorView {
        match self {
            StoreCall::UserAddProject { user, .. } => not_found(user),
            StoreCall::UserAddInvitation { user, .. } => not_found(user),
            StoreCall::UserRemoveInvitation { user, .. } => not_found(user),
            StoreCall::ProjectAddUser { project, .. } => not_found(project),
            StoreCall::ProjectAddInvitation { project, .. } => not_found(project),
            StoreCall::ProjectRemoveInvitation { project, .. } => not_found(project),
        }
    }
}

/// The writes that invite `target` to `project`: the user's side first.
pub open spec fn invite_calls(target: ObjectId, project: ObjectId) -> Seq<StoreCall> {
    seq![
        StoreCall::UserAddInvitation { user: target, project },
        StoreCall::ProjectAddInvitation { project, user: target },
    ]
}

/// The writes by which `user` accepts the invitation to `project`. The user is enrolled
/// before anything is taken off, and the user's record is done with before the
/// project's is touched: a run that stops half way leaves the user enrolled and at most
/// the project's side behind.
pub open spec fn accept_calls(user: ObjectId, project: ObjectId) -> Seq<StoreCall> {
    seq![
        StoreCall::UserAddProject { user, project },
        StoreCall::UserRemoveInvitation { user, project },
        StoreCall::ProjectAddUser { project, user },
        StoreCall::ProjectRemoveInvitation { project, user },
    ]
}

/// The writes by which `user` turns the invitation to `project` down.
pub open spec fn deny_calls(user: ObjectId, project: ObjectId) -> Seq<StoreCall> {
    seq![
        StoreCall::UserRemoveInvitation { user, project },
        StoreCall::ProjectRemoveInvitation { project, user },
    ]
}

/// What a run of writes reports when a write fails after `completed` others went through:
/// the failure itself where nothing was written, and else a partial transition that keeps
/// the failure's cause.
pub open spec fn settled(completed: int, failure: AppErrorView) -> AppErrorView {
    if completed == 0 {
        failure
    } else {
        AppErrorView {
            message: Some(partial_transition_message()),
            cause: failure.cause,
            error_type: AppErrorType::PartialTransition,
        }
    }
}

/// A run of writes from state `s`: the state it ends in and the number of writes that
/// went through. The run stops at the first write that does not.
pub open spec fn run(s: StateView, calls: Seq<StoreCall>) -> (StateView, int)
    decreases calls.len(),
{
    if calls.len() == 0 || !calls[0].resolves(s) {
        (s, 0)
    } else {
        let rest = run(calls[0].apply(s), calls.drop_first());
        (rest.0, rest.1 + 1)
    }
}

/// Makes one write.
pub fn perform(app: &mut AppState, call: StoreCall) -> (done: Result<(), AppError>)
    requires
        old(app).wf(),
    ensures
        final(app).wf(),
        same_order(*final(app), *old(app)),
        final(app)@ == call.apply(old(app)@),
        done is Ok <==> call.resolves(old(app)@),
        done matches Err(e) ==> e@ == call.refusal(),
{
    match call {
        StoreCall::UserAddProject { user, project } => app.users.add_project(user, project),
        StoreCall::UserAddInvitation { user, project } => app.users.add_invitation(user, project),
        StoreCall::UserRemoveInvitation { user, project } => app.users.remove_invitation(
            user,
            project,
        ),
        StoreCall::ProjectAddUser { project, user } => app.projects.add_user(project, user),
        StoreCall::ProjectAddInvitation { project, user } => app.projects.add_invitation(
            project,
            user,
        ),
        StoreCall::ProjectRemoveInvitation { project, user } => app.projects.remove_invitation(
            project,
            user,
        ),
    }
}

/// Turns the failure of a write into the failure of the run: itself where no write had
/// gone through before it, a partial transition where one had.
pub fn settle(completed: usize, failure: AppError) -> (e: AppError)
    ensures
        e@ == settled(completed as int, failure@),
{
    if completed == 0 {
        failure
    } else {
        AppError {
            message: Some(String::from_str("The operation was only partly applied")),
            cause: failure.cause,
            error_type: AppErrorType::PartialTransition,
        }
    }
}

/// Makes the writes in order and stops at the first that fails.
pub fn run_calls(app: &mut AppState, calls: &Vec<StoreCall>) -> (done: Result<(), AppError>)
    requires
        old(app).wf(),
    ensures
        final(app).wf(),
        same_order(*final(app), *old(app)),
        final(app)@ == run(old(app)@, calls@).0,
        done is Ok <==> run(old(app)@, calls@).1 == calls.len(),
        done matches Err(e) ==> e@ == settled(
            run(old(app)@, calls@).1,
            calls@[run(old(app)@, calls@).1].refusal(),
        ),
{
    let mut i: usize = 0;
    assert(calls@.skip(0) =~= calls@);
    while i < calls.len()
        invariant
            app.wf(),
            same_order(*app, *old(app)),
            i <= calls.len(),
            run(old(app)@, calls@).0 == run(app@, calls@.skip(i as int)).0,
            run(old(app)@, calls@).1 == run(app@, calls@.skip(i as int)).1 + i,
        decreases calls.len() - i,
    {
        proof {
            assert(calls@.skip(i as int)[0] == calls@[i as int]);
            assert(calls@.skip(i as int).drop_first() =~= calls@.skip(i + 1));
        }
        match perform(app, calls[i]) {
            Ok(()) => {},
            Err(failure) => {
                return Err(settle(i, failure));
            },
        }
        i = i + 1;
    }
    Ok(())
}

/// Why an invitation is refused, if it is, given the project and the user that the stores
/// hold under the identifier and the name. The inviter has to be a member of the project,
/// and the invited user neither a member of it nor invited to it already.
pub open spec fn invite_refusal(
    inviter: ObjectId,
    project_id: ObjectId,
    project: Option<ProjectView>,
    username: Seq<char>,
    target: Option<UserView>,
) -> Option<AppErrorView> {
    match project {
        None => Some(not_found(project_id)),
        Some(p) => if !p.members.contains(inviter) {
            Some(not_in_project(inviter))
        } else {
            match target {
                None => Some(name_not_found(username)),
                Some(t) => if p.members.contains(t.id) || t.projects.contains(project_id)
                    || p.invitations.contains(t.id) {
                    Some(already_invited(username))
                } else {
                    None
                },
            }
        },
    }
}

/// Why an invitation cannot be accepted, or turned down, if it cannot: the user is not on
/// record, or holds no invitation to the project.
pub open spec fn answer_refusal(
    user_id: ObjectId,
    project_id: ObjectId,
    user: Option<UserView>,
) -> Option<AppErrorView> {
    match user {
        None => Some(not_found(user_id)),
        Some(u) => if u.invitations.contains(project_id) {
            None
        } else {
            Some(not_found(project_id))
        },
    }
}

/// The value of a record that may be missing.
pub open spec fn user_value(user: Option<&User>) -> Option<UserView> {
    match user {
        Some(u) => Some(u@),
        None => None,
    }
}

/// The value of a record that may be missing.
pub open spec fn project_value(project: Option<&Project>) -> Option<ProjectView> {
    match project {
        Some(p) => Some(p@),
        None => None,
    }
}

/// Decides on an invitation: the writes to make, or the reason for which it is refused.
/// `project` and `target` are what the stores hold under `project_id` and `username`.
pub fn plan_invite(
    inviter: ObjectId,
    project_id: ObjectId,
    project: Option<&Project>,
    username: &str,
    target: Option<&User>,
) -> (plan: Result<Vec<StoreCall>, AppError>)
    ensures
        match invite_refusal(inviter, project_id, project_value(project), username@, user_value(target)) {
            Some(why) => plan matches Err(e) && e@ == why,
            None => plan matches Ok(calls) && calls@ == invite_calls(target->0.id, project_id),
        },
{
    let project = match project {
        Some(project) => project,
        None => {
            return Err(AppError::not_found_error(project_id.to_hex().as_str()));
        },
    };
    if !contains_id(&project.members, inviter) {
        return Err(AppError::not_in_project_error(inviter.to_hex().as_str()));
    }
    let target = match target {
        Some(target) => target,
        None => {
            return Err(AppError::not_found_error(username));
        },
    };
    if contains_id(&project.members, target.id) || contains_id(&target.projects, project_id)
        || contains_id(&project.invitations, target.id) {
        return Err(AppError::already_invited_error(username));
    }
    let mut calls: Vec<StoreCall> = Vec::new();
    calls.push(StoreCall::UserAddInvitation { user: target.id, project: project_id });
    calls.push(StoreCall::ProjectAddInvitation { project: project_id, user: target.id });
    assert(calls@ =~= invite_calls(target.id, project_id));
    Ok(calls)
}

/// Decides on the acceptance of an invitation: the writes to make, or the reason for
/// which it is refused. `user` is what the store holds under `user_id`.
pub fn plan_accept(user_id: ObjectId, project_id: ObjectId, user: Option<&User>) -> (plan: Result<
    Vec<StoreCall>,
    AppError,
>)
    ensures
        match answer_refusal(user_id, project_id, user_value(user)) {
            Some(why) => plan matches Err(e) && e@ == why,
            None => plan matches Ok(calls) && calls@ == accept_calls(user_id, project_id),
        },
{
    let user = match user {
        Some(user) => user,
        None => {
            return Err(AppError::not_found_error(user_id.to_hex().as_str()));
        },
    };
    if !contains_id(&user.invitations, project_id) {
        return Err(AppError::not_found_error(project_id.to_hex().as_str()));
    }
    let mut calls: Vec<StoreCall> = Vec::new();
    calls.push(StoreCall::UserAddProject { user: user_id, project: project_id });
    calls.push(StoreCall::UserRemoveInvitation { user: user_id, project: project_id });
    calls.push(StoreCall::ProjectAddUser { project: project_id, user: user_id });
    calls.push(StoreCall::ProjectRemoveInvitation { project: project_id, user: user_id });
    assert(calls@ =~= accept_calls(user_id, project_id));
    Ok(calls)
}

/// Decides on the refusal of an invitation by the invited user: the writes to make, or
/// the reason for which there is nothing to turn down. `user` is what the store holds
/// under `user_id`.
pub fn plan_deny(user_id: ObjectId, project_id: ObjectId, user: Option<&User>) -> (plan: Result<
    Vec<StoreCall>,
    AppError,
>)
    ensures
        match answer_refusal(user_id, project_id, user_value(user)) {
            Some(why) => plan matches Err(e) && e@ == why,
            None => plan matches Ok(calls) && calls@ == deny_calls(user_id, project_id),
        },
{
    let user = match user {
        Some(user) => user,
        None => {
            return Err(AppError::not_found_error(user_id.to_hex().as_str()));
        },
    };
    if !contains_id(&user.invitations, project_id) {
        return Err(AppError::not_found_error(project_id.to_hex().as_str()));
    }
    let mut calls: Vec<StoreCall> = Vec::new();
    calls.push(StoreCall::UserRemoveInvitation { user: user_id, project: project_id });
    calls.push(StoreCall::ProjectRemoveInvitation { project: project_id, user: user_id });
    assert(calls@ =~= deny_calls(user_id, project_id));
    Ok(calls)
}

/// What a table holds under an identifier, if anything.
pub open spec fn lookup<V>(records: Map<ObjectId, V>, id: ObjectId) -> Option<V> {
    if records.contains_key(id) {
        Some(records[id])
    } else {
        None
    }
}

/// The user that a table holds under a name, if any.
pub open spec fn lookup_name(users: Map<ObjectId, UserView>, username: Seq<char>) -> Option<UserView> {
    if username_taken(users, username) {
        Some(users[user_named(users, username)])
    } else {
        None
    }
}

/// Why `inviter` cannot invite the user called `username` to `project` in state `s`, if
/// that is so.
pub open spec fn invite_failure(
    s: StateView,
    inviter: ObjectId,
    project: ObjectId,
    username: Seq<char>,
) -> Option<AppErrorView> {
    invite_refusal(
        inviter,
        project,
        lookup(s.projects, project),
        username,
        lookup_name(s.users, username),
    )
}

/// The state after `inviter` has asked to invite the user called `username` to
/// `project`: both records list the invitation, or, where the invitation is refused,
/// nothing has changed.
pub open spec fn invite_state(
    s: StateView,
    inviter: ObjectId,
    project: ObjectId,
    username: Seq<char>,
) -> StateView {
    if invite_failure(s, inviter, project, username) is Some {
        s
    } else {
        let target = user_named(s.users, username);
        StateView {
            users: user_add_invitation(s.users, target, project),
            projects: project_add_invitation(s.projects, project, target),
        }
    }
}

/// Why `user` cannot accept an invitation to `project` in state `s`, if that is so. Where
/// the user holds the invitation and the project is not on record, the user's record is
/// written and the project's cannot be.
pub open spec fn accept_failure(s: StateView, user: ObjectId, project: ObjectId) -> Option<
    AppErrorView,
> {
    match answer_refusal(user, project, lookup(s.users, user)) {
        Some(why) => Some(why),
        None => if s.projects.contains_key(project) {
            None
        } else {
            Some(settled(2, not_found(project)))
        },
    }
}

/// The state after `user` has asked to accept the invitation to `project`: the user is
/// enrolled on both records and the invitation is off both, or, where the user holds no
/// such invitation, nothing has changed.
pub open spec fn accept_state(s: StateView, user: ObjectId, project: ObjectId) -> StateView {
    if !user_invited(s.users, user, project) {
        s
    } else {
        StateView {
            users: user_remove_invitation(user_add_project(s.users, user, project), user, project),
            projects: project_remove_invitation(
                project_add_user(s.projects, project, user),
                project,
                user,
            ),
        }
    }
}

/// Why `user` cannot turn down an invitation to `project` in state `s`, if that is so.
pub open spec fn deny_failure(s: StateView, user: ObjectId, project: ObjectId) -> Option<
    AppErrorView,
> {
    match answer_refusal(user, project, lookup(s.users, user)) {
        Some(why) => Some(why),
        None => if s.projects.contains_key(project) {
            None
        } else {
            Some(settled(1, not_found(project)))
        },
    }
}

/// The state after `user` has asked to turn down the invitation to `project`: the
/// invitation is off both records, or, where the user holds no such invitation, nothing
/// has changed.
pub open spec fn deny_state(s: StateView, user: ObjectId, project: ObjectId) -> StateView {
    if !user_invited(s.users, user, project) {
        s
    } else {
        StateView {
            users: user_remove_invitation(s.users, user, project),
            projects: project_remove_invitation(s.projects, project, user),
        }
    }
}

/// A run of the two writes of an invitation, where the invited user is on record: both
/// go through where the project is on record too, and the first where it is not.
pub proof fn lemma_invite_run(s: StateView, target: ObjectId, project: ObjectId)
    requires
        s.users.contains_key(target),
    ensures
        run(s, invite_calls(target, project)) == (
            StateView {
                users: user_add_invitation(s.users, target, project),
                projects: project_add_invitation(s.projects, project, target),
            },
            if s.projects.contains_key(project) {
                2int
            } else {
                1int
            },
        ),
{
    let calls = invite_calls(target, project);
    let s1 = calls[0].apply(s);
    let s2 = calls[1].apply(s1);
    let c1 = calls.drop_first();
    let c2 = c1.drop_first();
    assert(c1[0] == calls[1]);
    assert(c2.len() == 0);
    if s.projects.contains_key(project) {
        assert(run(s2, c2) == (s2, 0int));
        assert(run(s1, c1) == (s2, 1int));
    } else {
        assert(s1.projects =~= s2.projects);
        assert(run(s1, c1) == (s1, 0int));
    }
    assert(run(s, calls).0 == s2);
}

/// A run of the four writes of an acceptance, where the user is on record: all four go
/// through where the project is on record too, and the first two where it is not.
pub proof fn lemma_accept_run(s: StateView, user: ObjectId, project: ObjectId)
    requires
        s.users.contains_key(user),
    ensures
        run(s, accept_calls(user, project)) == (
            StateView {
                users: user_remove_invitation(
                    user_add_project(s.users, user, project),
                    user,
                    project,
                ),
                projects: project_remove_invitation(
                    project_add_user(s.projects, project, user),
                    project,
                    user,
                ),
            },
            if s.projects.contains_key(project) {
                4int
            } else {
                2int
            },
        ),
{
    let calls = accept_calls(user, project);
    let s1 = calls[0].apply(s);
    let s2 = calls[1].apply(s1);
    let s3 = calls[2].apply(s2);
    let s4 = calls[3].apply(s3);
    let c1 = calls.drop_first();
    let c2 = c1.drop_first();
    let c3 = c2.drop_first();
    let c4 = c3.drop_first();
    assert(c1[0] == calls[1]);
    assert(c2[0] == calls[2]);
    assert(c3[0] == calls[3]);
    assert(c4.len() == 0);
    assert(s1.users.contains_key(user));
    if s.projects.contains_key(project) {
        assert(s3.projects.contains_key(project));
        assert(run(s4, c4) == (s4, 0int));
        assert(run(s3, c3) == (s4, 1int));
        assert(run(s2, c2) == (s4, 2int));
    } else {
        assert(s2.projects =~= s4.projects);
        assert(run(s2, c2) == (s2, 0int));
    }
    assert(run(s1, c1).0 == s4);
    assert(run(s, calls).0 == s4);
}

/// A run of the two writes of a refusal by the invited user, where the user is on record.
pub proof fn lemma_deny_run(s: StateView, user: ObjectId, project: ObjectId)
    requires
        s.users.contains_key(user),
    ensures
        run(s, deny_calls(user, project)) == (
            StateView {
                users: user_remove_invitation(s.users, user, project),
                projects: project_remove_invitation(s.projects, project, user),
            },
            if s.projects.contains_key(project) {
                2int
            } else {
                1int
            },
        ),
{
    let calls = deny_calls(user, project);
    let s1 = calls[0].apply(s);
    let s2 = calls[1].apply(s1);
    let c1 = calls.drop_first();
    let c2 = c1.drop_first();
    assert(c1[0] == calls[1]);
    assert(c2.len() == 0);
    if s.projects.contains_key(project) {
        assert(run(s2, c2) == (s2, 0int));
        assert(run(s1, c1) == (s2, 1int));
    } else {
        assert(s1.projects =~= s2.projects);
        assert(run(s1, c1) == (s1, 0int));
    }
    assert(run(s, calls).0 == s2);
}

/// The coordinator of invitations: it alone adds and removes the invitations and the
/// memberships that the two stores hold.
pub struct InvitationCoordinator {}

impl InvitationCoordinator {
    /// Invites the user called `username` to a project, on behalf of `inviter`.
    pub fn invite(app: &mut AppState, inviter: ObjectId, project_id: ObjectId, username: &str) -> (done:
        Result<(), AppError>)
        requires
            old(app).wf(),
        ensures
            final(app).wf(),
            same_order(*final(app), *old(app)),
            final(app)@ == invite_state(old(app)@, inviter, project_id, username@),
            match invite_failure(old(app)@, inviter, project_id, username@) {
                Some(why) => done matches Err(e) && e@ == why,
                None => done is Ok,
            },
    {
        let project = match app.projects.get_project(project_id) {
            Ok(project) => Some(project),
            Err(_) => None,
        };
        let target = match app.users.get_by_username(username) {
            Ok(target) => Some(target),
            Err(_) => None,
        };
        let calls = match plan_invite(
            inviter,
            project_id,
            project.as_ref(),
            username,
            target.as_ref(),
        ) {
            Ok(calls) => calls,
            Err(e) => {
                return Err(e);
            },
        };
        proof {
            let users = old(app)@.users;
            let id = user_named(users, username@);
            assert(users.contains_key(id) && users[id].username == username@);
            assert(users[id].id == id);
            lemma_invite_run(old(app)@, id, project_id);
        }
        run_calls(app, &calls)
    }

    /// Accepts, for `user_id`, the invitation to a project, and hands back the project as
    /// its members see it afterwards.
    pub fn accept(app: &mut AppState, user_id: ObjectId, project_id: ObjectId) -> (done: Result<
        ProjectProjection,
        AppError,
    >)
        requires
            old(app).wf(),
        ensures
            final(app).wf(),
            same_order(*final(app), *old(app)),
            final(app)@ == accept_state(old(app)@, user_id, project_id),
            match accept_failure(old(app)@, user_id, project_id) {
                Some(why) => done matches Err(e) && e@ == why,
                None => done matches Ok(shown) && shown@ == projection_of(
                    final(app)@.projects[project_id],
                    final(app)@.users,
                ),
            },
    {
        let user = match app.users.get(user_id) {
            Ok(user) => Some(user),
            Err(_) => None,
        };
        let calls = match plan_accept(user_id, project_id, user.as_ref()) {
            Ok(calls) => calls,
            Err(e) => {
                return Err(e);
            },
        };
        proof {
            lemma_accept_run(old(app)@, user_id, project_id);
        }
        match run_calls(app, &calls) {
            Ok(()) => {},
            Err(e) => {
                return Err(e);
            },
        }
        app.projects.get(project_id, &app.users)
    }

    /// Turns down, for `user_id`, the invitation to a project.
    pub fn deny(app: &mut AppState, user_id: ObjectId, project_id: ObjectId) -> (done: Result<
        (),
        AppError,
    >)
        requires
            old(app).wf(),
        ensures
            final(app).wf(),
            same_order(*final(app), *old(app)),
            final(app)@ == deny_state(old(app)@, user_id, project_id),
            match deny_failure(old(app)@, user_id, project_id) {
                Some(why) => done matches Err(e) && e@ == why,
                None => done is Ok,
            },
    {
        let user = match app.users.get(user_id) {
            Ok(user) => Some(user),
            Err(_) => None,
        };
        let calls = match plan_deny(user_id, project_id, user.as_ref()) {
            Ok(calls) => calls,
            Err(e) => {
                return Err(e);
            },
        };
        proof {
            lemma_deny_run(old(app)@, user_id, project_id);
        }
        run_calls(app, &calls)
    }
}

} // verus!
