//! Requests about projects, their members and their invitations.

use vstd::prelude::*;
use crate::cloud::{aws_region_known, bucket_refusal, BucketView, CloudClient, ObjectStore};
use crate::cloud::ObjectStoreView;
use crate::coordinator::{accept_failure, accept_state, deny_failure, deny_state};
use crate::coordinator::{invite_failure, invite_state, InvitationCoordinator};
use crate::errors::{AppError, AppErrorType, AppErrorView};
use crate::failures::{duplicate_key_cause, not_found, not_in_project};
use crate::models::{AvailableUser, AvatarView, Project, ProjectView};
use crate::oid::{bad_id, hex_text, text_id, ObjectId};
use crate::repositories::projects::{InvitationProjection, ProjectProjection};
use crate::repositories::projects::{inviters_on_record, owner_missing};
use crate::repositories::projects::{lists_invitations_of, lists_projects_of, projection_of};
use crate::repositories::users::{lists_available, user_add_project, user_in_project};
use crate::state::{same_order, AppState, StateView};
use crate::utils::{generate_credentials, is_credential, Claims};

verus! {

/// A project as asked for: its title and the region of its bucket.
#[derive(Debug)]
pub struct ProjectPayload {
    pub title: String,
    pub region: String,
}

/// The start of the usernames that are looked for.
#[derive(Debug)]
pub struct AvailableUserQuery {
    pub username: String,
}

/// An invitation as asked for: the name of the user to invite and the project, as
/// hexadecimal text.
#[derive(Debug)]
pub struct InviteUserPayload {
    pub username: String,
    pub project: String,
}

/// Why a project is not shown to a user, if it is not: the user is not a member of it, or
/// it is not on record.
pub open spec fn read_failure(s: StateView, user: ObjectId, project: ObjectId) -> Option<
    AppErrorView,
> {
    if !user_in_project(s.users, user, project) {
        Some(not_in_project(user))
    } else if !s.projects.contains_key(project) {
        Some(not_found(project))
    } else {
        None
    }
}

/// The project named in the path, as its members see it, for a bearer who is one of
/// them.
pub fn get_project(app: &AppState, path: &str, claims: &Claims) -> (shown: Result<
    ProjectProjection,
    AppError,
>)
    requires
        app.wf(),
    ensures
        match text_id(path@) {
            None => shown matches Err(e) && e@ == bad_id(path@),
            Some(project) => match read_failure(app@, claims.id, project) {
                Some(why) => shown matches Err(e) && e@ == why,
                None => shown matches Ok(p) && p@ == projection_of(
                    app@.projects[project],
                    app@.users,
                ),
            },
        },
{
    let project_id = match ObjectId::parse_str(path) {
        Ok(id) => id,
        Err(e) => {
            return Err(e);
        },
    };
    match app.users.in_project(claims.id, project_id) {
        Ok(()) => {},
        Err(e) => {
            return Err(e);
        },
    }
    app.projects.get(project_id, &app.users)
}

/// The projects of which the bearer is a member.
pub fn get_user_projects(app: &AppState, claims: &Claims) -> (found: Vec<Project>)
    requires
        app.wf(),
    ensures
        lists_projects_of(found@, app.projects.order(), app@.projects, claims.id),
{
    app.projects.get_user_projects(claims.id)
}

/// The invitations that the bearer has not yet answered.
pub fn get_invitations(app: &AppState, claims: &Claims) -> (found: Result<
    Vec<InvitationProjection>,
    AppError,
>)
    requires
        app.wf(),
    ensures
        found is Ok <==> inviters_on_record(app@.projects, app@.users, claims.id),
        found matches Err(e) ==> e@ == owner_missing(),
        found matches Ok(list) ==> lists_invitations_of(
            list@,
            app.projects.order(),
            app@.projects,
            app@.users,
            claims.id,
        ),
{
    app.projects.get_user_invitations(claims.id, &app.users)
}

/// The secret of the project named in the path, for a bearer who is a member of it.
pub fn get_credentials(app: &AppState, claims: &Claims, path: &str) -> (secret: Result<
    String,
    AppError,
>)
    requires
        app.wf(),
    ensures
        match text_id(path@) {
            None => secret matches Err(e) && e@ == bad_id(path@),
            Some(project) => match read_failure(app@, claims.id, project) {
                Some(why) => secret matches Err(e) && e@ == why,
                None => secret matches Ok(text) && text@ == app@.projects[project].api_secret,
            },
        },
{
    let project_id = match ObjectId::parse_str(path) {
        Ok(id) => id,
        Err(e) => {
            return Err(e);
        },
    };
    match app.users.in_project(claims.id, project_id) {
        Ok(()) => {},
        Err(e) => {
            return Err(e);
        },
    }
    app.projects.get_secret(project_id)
}

/// The users that the bearer, a member of the project named in the path, can invite to
/// it, and whose names start as the query says.
pub fn available_users(
    app: &AppState,
    path: &str,
    claims: &Claims,
    query: &AvailableUserQuery,
) -> (found: Result<Vec<AvailableUser>, AppError>)
    requires
        app.wf(),
    ensures
        match text_id(path@) {
            None => found matches Err(e) && e@ == bad_id(path@),
            Some(project) => if user_in_project(app@.users, claims.id, project) {
                found matches Ok(list) && lists_available(
                    list@,
                    app.users.order(),
                    app@.users,
                    project,
                    query.username@,
                )
            } else {
                found matches Err(e) && e@ == not_in_project(claims.id)
            },
        },
{
    let project_id = match ObjectId::parse_str(path) {
        Ok(id) => id,
        Err(e) => {
            return Err(e);
        },
    };
    match app.users.in_project(claims.id, project_id) {
        Ok(()) => {},
        Err(e) => {
            return Err(e);
        },
    }
    Ok(app.users.get_available_users(project_id, query.username.as_str()))
}

/// Invites the user named in the request to the project named in it, on behalf of the
/// bearer.
pub fn invite_user(app: &mut AppState, claims: &Claims, invitation: &InviteUserPayload) -> (done:
    Result<(), AppError>)
    requires
        old(app).wf(),
    ensures
        final(app).wf(),
        same_order(*final(app), *old(app)),
        match text_id(invitation.project@) {
            None => done matches Err(e) && e@ == bad_id(invitation.project@) && final(app)@ == old(
                app,
            )@,
            Some(project) => final(app)@ == invite_state(
                old(app)@,
                claims.id,
                project,
                invitation.username@,
            ) && match invite_failure(old(app)@, claims.id, project, invitation.username@) {
                Some(why) => done matches Err(e) && e@ == why,
                None => done is Ok,
            },
        },
{
    let project_id = match ObjectId::parse_str(invitation.project.as_str()) {
        Ok(id) => id,
        Err(e) => {
            return Err(e);
        },
    };
    InvitationCoordinator::invite(app, claims.id, project_id, invitation.username.as_str())
}

/// Accepts, for the bearer, the invitation to the project named in the path, and shows
/// the project as its members see it afterwards.
pub fn accept_invitation(app: &mut AppState, claims: &Claims, path: &str) -> (done: Result<
    ProjectProjection,
    AppError,
>)
    requires
        old(app).wf(),
    ensures
        final(app).wf(),
        same_order(*final(app), *old(app)),
        match text_id(path@) {
            None => done matches Err(e) && e@ == bad_id(path@) && final(app)@ == old(app)@,
            Some(project) => final(app)@ == accept_state(old(app)@, claims.id, project)
                && match accept_failure(old(app)@, claims.id, project) {
                Some(why) => done matches Err(e) && e@ == why,
                None => done matches Ok(shown) && shown@ == projection_of(
                    final(app)@.projects[project],
                    final(app)@.users,
                ),
            },
        },
{
    let project_id = match ObjectId::parse_str(path) {
        Ok(id) => id,
        Err(e) => {
            return Err(e);
        },
    };
    InvitationCoordinator::accept(app, claims.id, project_id)
}

/// Turns down, for the bearer, the invitation to the project named in the path.
pub fn deny_invitation(app: &mut AppState, claims: &Claims, path: &str) -> (done: Result<
    (),
    AppError,
>)
    requires
        old(app).wf(),
    ensures
        final(app).wf(),
        same_order(*final(app), *old(app)),
        match text_id(path@) {
            None => done matches Err(e) && e@ == bad_id(path@) && final(app)@ == old(app)@,
            Some(project) => final(app)@ == deny_state(old(app)@, claims.id, project)
                && match deny_failure(old(app)@, claims.id, project) {
                Some(why) => done matches Err(e) && e@ == why,
                None => done is Ok,
            },
        },
{
    let project_id = match ObjectId::parse_str(path) {
        Ok(id) => id,
        Err(e) => {
            return Err(e);
        },
    };
    InvitationCoordinator::deny(app, claims.id, project_id)
}

/// The record of a project as it is made: the owner is its one member, nobody is
/// invited, and it has no avatar.
pub open spec fn fresh_project(
    id: ObjectId,
    author: ObjectId,
    title: Seq<char>,
    region: Seq<char>,
    api_key: Seq<char>,
    api_secret: Seq<char>,
) -> ProjectView {
    ProjectView {
        id,
        author,
        title,
        api_key,
        api_secret,
        region,
        members: seq![author],
        invitations: Seq::<ObjectId>::empty(),
        avatars: Seq::<AvatarView>::empty(),
    }
}

/// The failure that reports a write that the document store did not take.
pub open spec fn store_failure(cause: Option<Seq<char>>) -> AppErrorView {
    AppErrorView { message: None, cause, error_type: AppErrorType::DbError }
}

/// Reports the failure of a write as a failure of the document store that keeps its
/// cause and shows no detail.
pub fn as_store_failure(failure: AppError) -> (e: AppError)
    ensures
        e@ == store_failure(failure@.cause),
{
    AppError { message: None, cause: failure.cause, error_type: AppErrorType::DbError }
}

/// Why a project is not made, or not made in full, if that is so. The record is filed
/// first, then the project is added to the memberships of its owner, then its bucket is
/// made; what fails, fails as it stands and nothing is taken back.
pub open spec fn create_project_failure(
    s: StateView,
    store: ObjectStoreView,
    author: ObjectId,
    project: ObjectId,
    region: Seq<char>,
) -> Option<AppErrorView> {
    if s.projects.contains_key(project) {
        Some(store_failure(Some(duplicate_key_cause())))
    } else if !s.users.contains_key(author) {
        Some(store_failure(not_found(author).cause))
    } else {
        bucket_refusal(store, hex_text(project.bytes@), aws_region_known(region))
    }
}

/// The state after a project was asked for: where its identifier is free, the record is
/// filed and the owner, if on record, lists the project.
pub open spec fn create_project_state(
    s: StateView,
    author: ObjectId,
    record: ProjectView,
) -> StateView {
    if s.projects.contains_key(record.id) {
        s
    } else {
        StateView {
            users: user_add_project(s.users, author, record.id),
            projects: s.projects.insert(record.id, record),
        }
    }
}

/// Whether `after`, `store_after` and `made` are what comes of making a project for
/// `author` under the identifier, the key and the secret given, from `before` and
/// `store_before`: the record is filed where its identifier is free, the owner, if on
/// record, lists the project, the bucket is made where nothing failed before it, and
/// the first failure, if any, is what is handed back.
pub open spec fn project_asked(
    before: AppState,
    store_before: ObjectStoreView,
    after: AppState,
    store_after: ObjectStoreView,
    author: ObjectId,
    title: Seq<char>,
    region: Seq<char>,
    made: Result<Project, AppError>,
    project_id: ObjectId,
    api_key: Seq<char>,
    api_secret: Seq<char>,
) -> bool {
    let record = fresh_project(project_id, author, title, region, api_key, api_secret);
    &&& after.users.order() == before.users.order()
    &&& after.projects.order() == if before@.projects.contains_key(project_id) {
        before.projects.order()
    } else {
        before.projects.order().push(project_id)
    }
    &&& after@ == create_project_state(before@, author, record)
    &&& store_after.objects == store_before.objects
    &&& match create_project_failure(before@, store_before, author, project_id, region) {
        Some(why) => made matches Err(e) && e@ == why && store_after == store_before,
        None => made matches Ok(filed) && filed@ == record && store_after.buckets
            == store_before.buckets.push(
            BucketView { name: hex_text(project_id.bytes@), region },
        ),
    }
}

/// Makes a project for the bearer under the identifier, the key and the secret given.
pub fn create_project_as(
    app: &mut AppState,
    store: &mut ObjectStore,
    claims: &Claims,
    project: &ProjectPayload,
    project_id: ObjectId,
    api_key: String,
    api_secret: String,
) -> (made: Result<Project, AppError>)
    requires
        old(app).wf(),
    ensures
        final(app).wf(),
        final(app).users.order() == old(app).users.order(),
        final(app).projects.order() == if old(app)@.projects.contains_key(project_id) {
            old(app).projects.order()
        } else {
            old(app).projects.order().push(project_id)
        },
        final(store)@.objects == old(store)@.objects,
        final(app)@ == create_project_state(
            old(app)@,
            claims.id,
            fresh_project(
                project_id,
                claims.id,
                project.title@,
                project.region@,
                api_key@,
                api_secret@,
            ),
        ),
        match create_project_failure(
            old(app)@,
            old(store)@,
            claims.id,
            project_id,
            project.region@,
        ) {
            Some(why) => made matches Err(e) && e@ == why && final(store)@ == old(store)@,
            None => made matches Ok(record) && record@ == fresh_project(
                project_id,
                claims.id,
                project.title@,
                project.region@,
                api_key@,
                api_secret@,
            ) && final(store)@.buckets == old(store)@.buckets.push(
                BucketView { name: hex_text(project_id.bytes@), region: project.region@ },
            ),
        },
{
    let mut members: Vec<ObjectId> = Vec::new();
    members.push(claims.id);
    let record = Project {
        id: project_id,
        author: claims.id,
        title: project.title.clone(),
        api_key,
        api_secret,
        region: project.region.clone(),
        members,
        invitations: Vec::new(),
        avatars: Vec::new(),
    };
    proof {
        let fresh = fresh_project(
            project_id,
            claims.id,
            project.title@,
            project.region@,
            api_key@,
            api_secret@,
        );
        assert(record@.members =~= fresh.members);
        assert(record@.avatars =~= fresh.avatars);
        assert(record@ == fresh);
        assert(fresh.members[0] == claims.id);
        assert(fresh.wf());
    }
    match app.projects.create(record.clone()) {
        Ok(_) => {},
        Err(e) => {
            return Err(as_store_failure(e));
        },
    }
    match app.users.add_project(claims.id, project_id) {
        Ok(()) => {},
        Err(e) => {
            return Err(as_store_failure(e));
        },
    }
    match CloudClient::create_bucket(store, project_id.to_hex(), project.region.clone()) {
        Ok(_) => Ok(record),
        Err(e) => Err(e),
    }
}

/// Makes a project for the bearer, under a fresh identifier and with a fresh key and a
/// fresh secret. Which identifier, key and secret come is left open; for those that come,
/// the state, the object store and the result are what `create_project_as` makes of them.
pub fn create_project(
    app: &mut AppState,
    store: &mut ObjectStore,
    claims: &Claims,
    project: &ProjectPayload,
) -> (made: Result<Project, AppError>)
    requires
        old(app).wf(),
    ensures
        final(app).wf(),
        exists|project_id: ObjectId, api_key: Seq<char>, api_secret: Seq<char>|
            is_credential(api_key) && is_credential(api_secret) && #[trigger] project_asked(
                *old(app),
                old(store)@,
                *final(app),
                final(store)@,
                claims.id,
                project.title@,
                project.region@,
                made,
                project_id,
                api_key,
                api_secret,
            ),
        final(app).users.order() == old(app).users.order(),
        final(store)@.objects == old(store)@.objects,
        made matches Ok(record) ==> {
            &&& final(app).projects.order() == old(app).projects.order().push(record.id)
            &&& record@ == fresh_project(
                record.id,
                claims.id,
                project.title@,
                project.region@,
                record.api_key@,
                record.api_secret@,
            )
            &&& is_credential(record.api_key@)
            &&& is_credential(record.api_secret@)
            &&& create_project_failure(
                old(app)@,
                old(store)@,
                claims.id,
                record.id,
                project.region@,
            ) is None
            &&& final(app)@ == create_project_state(old(app)@, claims.id, record@)
            &&& final(store)@.buckets == old(store)@.buckets.push(
                BucketView { name: hex_text(record.id.bytes@), region: project.region@ },
            )
        },
        made is Err ==> final(store)@ == old(store)@,
{
    let project_id = ObjectId::new();
    let (api_key, api_secret) = generate_credentials();
    let ghost key = api_key@;
    let ghost secret = api_secret@;
    let made = create_project_as(app, store, claims, project, project_id, api_key, api_secret);
    assert(project_asked(
        *old(app),
        old(store)@,
        *app,
        store@,
        claims.id,
        project.title@,
        project.region@,
        made,
        project_id,
        key,
        secret,
    ));
    made
}

} // verus!
