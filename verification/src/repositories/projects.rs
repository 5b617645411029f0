//! The store of project records, and the views of a project that are handed out.

use vstd::prelude::*;
use crate::errors::{AppError, AppErrorType, AppErrorView};
use crate::failures::{duplicate_key, listed_twice, not_found};
use crate::idlist::{contains_id, has_duplicates, insert_id, remove_id, with_id, without_id};
use crate::idlist::{lemma_with_id, lemma_without_id};
use crate::models::{Avatar, AvatarView, Invitation, InvitationText, Project, ProjectView};
use crate::models::{avatar_views, copy_avatars, copy_ids};
use crate::models::UserView;
use crate::oid::{hex_text, ObjectId};
use crate::repositories::table::{distinct, held, keys, lists_keys, slot, table};
use crate::repositories::table::{lemma_held, lemma_push, lemma_slot, lemma_update};
use crate::repositories::table::{lemma_keys, lemma_keys_push, lemma_keys_update};
use crate::repositories::users::UserRepository;

verus! {

/// A member of a project as shown with it: the identifier and the name.
#[derive(Debug)]
pub struct MemberProjection {
    pub username: String,
    pub id: ObjectId,
}

/// The mathematical value of a [`MemberProjection`].
pub struct MemberView {
    pub username: Seq<char>,
    pub id: ObjectId,
}

impl View for MemberProjection {
    type V = MemberView;

    open spec fn view(&self) -> MemberView {
        MemberView { username: self.username@, id: self.id }
    }
}

/// The values of a list of members, in order.
pub open spec fn shown_members(members: Seq<MemberProjection>) -> Seq<MemberView> {
    Seq::new(members.len(), |i: int| members[i]@)
}

/// A project as shown to its members: all of the record but the secret, and each member
/// with a name.
#[derive(Debug)]
pub struct ProjectProjection {
    pub id: ObjectId,
    pub author: ObjectId,
    pub title: String,
    pub region: String,
    pub api_key: String,
    pub members: Vec<MemberProjection>,
    pub invitations: Vec<ObjectId>,
    pub avatars: Vec<Avatar>,
}

/// The mathematical value of a [`ProjectProjection`].
pub struct ProjectProjectionView {
    pub id: ObjectId,
    pub author: ObjectId,
    pub title: Seq<char>,
    pub region: Seq<char>,
    pub api_key: Seq<char>,
    pub members: Seq<MemberView>,
    pub invitations: Seq<ObjectId>,
    pub avatars: Seq<AvatarView>,
}

impl View for ProjectProjection {
    type V = ProjectProjectionView;

    open spec fn view(&self) -> ProjectProjectionView {
        ProjectProjectionView {
            id: self.id,
            author: self.author,
            title: self.title@,
            region: self.region@,
            api_key: self.api_key@,
            members: shown_members(self.members@),
            invitations: self.invitations@,
            avatars: avatar_views(self.avatars@),
        }
    }
}

/// An invitation as listed for the invited user: the project, its title and region, and
/// the name of its owner.
#[derive(Debug)]
pub struct InvitationProjection {
    pub title: String,
    pub author: String,
    pub id: ObjectId,
    pub region: String,
}

/// The mathematical value of an [`InvitationProjection`].
pub struct InvitationView {
    pub title: Seq<char>,
    pub author: Seq<char>,
    pub id: ObjectId,
    pub region: Seq<char>,
}

impl View for InvitationProjection {
    type V = InvitationView;

    open spec fn view(&self) -> InvitationView {
        InvitationView { title: self.title@, author: self.author@, id: self.id, region: self.region@ }
    }
}

impl InvitationProjection {
    /// The invitation as it goes out, with the project as hexadecimal text.
    pub fn to_invitation(&self) -> (sent: Invitation)
        ensures
            sent@ == (InvitationText {
                id: hex_text(self.id.bytes@),
                author: self.author@,
                region: self.region@,
                title: self.title@,
            }),
    {
        Invitation {
            id: self.id.to_hex(),
            author: self.author.clone(),
            region: self.region.clone(),
            title: self.title.clone(),
        }
    }
}

/// What holds of every table of projects: a record is filed under its own identifier,
/// lists nothing twice, and counts its owner among its members.
pub open spec fn projects_wf(projects: Map<ObjectId, ProjectView>) -> bool {
    forall|id: ObjectId| #[trigger]
        projects.contains_key(id) ==> projects[id].id == id && projects[id].wf()
}

/// Whether `user` is on record as a member of `project`.
pub open spec fn project_has_member(
    projects: Map<ObjectId, ProjectView>,
    project: ObjectId,
    user: ObjectId,
) -> bool {
    projects.contains_key(project) && projects[project].members.contains(user)
}

/// Whether `user` is on record as invited to `project`.
pub open spec fn project_invites(
    projects: Map<ObjectId, ProjectView>,
    project: ObjectId,
    user: ObjectId,
) -> bool {
    projects.contains_key(project) && projects[project].invitations.contains(user)
}

/// The table after `user` is added to the members of `project`. A table that does not
/// hold `project` stays as it is.
pub open spec fn project_add_user(
    projects: Map<ObjectId, ProjectView>,
    project: ObjectId,
    user: ObjectId,
) -> Map<ObjectId, ProjectView> {
    if projects.contains_key(project) {
        projects.insert(
            project,
            ProjectView { members: with_id(projects[project].members, user), ..projects[project] },
        )
    } else {
        projects
    }
}

/// The table after `user` is added to those invited to `project`.
pub open spec fn project_add_invitation(
    projects: Map<ObjectId, ProjectView>,
    project: ObjectId,
    user: ObjectId,
) -> Map<ObjectId, ProjectView> {
    if projects.contains_key(project) {
        projects.insert(
            project,
            ProjectView {
                invitations: with_id(projects[project].invitations, user),
                ..projects[project]
            },
        )
    } else {
        projects
    }
}

/// The table after `user` is taken off those invited to `project`.
pub open spec fn project_remove_invitation(
    projects: Map<ObjectId, ProjectView>,
    project: ObjectId,
    user: ObjectId,
) -> Map<ObjectId, ProjectView> {
    if projects.contains_key(project) {
        projects.insert(
            project,
            ProjectView {
                invitations: without_id(projects[project].invitations, user),
                ..projects[project]
            },
        )
    } else {
        projects
    }
}

/// The table after `avatar` is put at the end of the avatars of `project`.
pub open spec fn project_add_avatar(
    projects: Map<ObjectId, ProjectView>,
    project: ObjectId,
    avatar: AvatarView,
) -> Map<ObjectId, ProjectView> {
    if projects.contains_key(project) {
        projects.insert(
            project,
            ProjectView { avatars: projects[project].avatars.push(avatar), ..projects[project] },
        )
    } else {
        projects
    }
}

/// The test that the users on record pass.
pub open spec fn on_record(users: Map<ObjectId, UserView>) -> spec_fn(ObjectId) -> bool {
    |id: ObjectId| users.contains_key(id)
}

/// A user as shown among the members of a project.
pub open spec fn as_member(users: Map<ObjectId, UserView>) -> spec_fn(ObjectId) -> MemberView {
    |id: ObjectId| MemberView { username: users[id].username, id }
}

/// The members of a project as shown with it: those who are on record, in the order in
/// which the project lists them, each with the name on record.
pub open spec fn member_views(members: Seq<ObjectId>, users: Map<ObjectId, UserView>) -> Seq<
    MemberView,
> {
    members.filter(on_record(users)).map_values(as_member(users))
}

/// A project as shown to its members.
pub open spec fn projection_of(
    project: ProjectView,
    users: Map<ObjectId, UserView>,
) -> ProjectProjectionView {
    ProjectProjectionView {
        id: project.id,
        author: project.author,
        title: project.title,
        region: project.region,
        api_key: project.api_key,
        members: member_views(project.members, users),
        invitations: project.invitations,
        avatars: project.avatars,
    }
}

/// An invitation to `project` as listed for the invited user.
pub open spec fn invitation_of(
    project: ProjectView,
    users: Map<ObjectId, UserView>,
) -> InvitationView {
    InvitationView {
        title: project.title,
        author: users[project.author].username,
        id: project.id,
        region: project.region,
    }
}

/// Whether the owner of every project that invites `user` is on record.
pub open spec fn inviters_on_record(
    projects: Map<ObjectId, ProjectView>,
    users: Map<ObjectId, UserView>,
    user: ObjectId,
) -> bool {
    forall|p: ObjectId| #[trigger]
        project_invites(projects, p, user) ==> users.contains_key(projects[p].author)
}

/// The test that the projects pass that count `user` among their members.
pub open spec fn counts_member(
    projects: Map<ObjectId, ProjectView>,
    user: ObjectId,
) -> spec_fn(ObjectId) -> bool {
    |p: ObjectId| project_has_member(projects, p, user)
}

/// The test that the projects pass that list `user` as invited.
pub open spec fn lists_invited(
    projects: Map<ObjectId, ProjectView>,
    user: ObjectId,
) -> spec_fn(ObjectId) -> bool {
    |p: ObjectId| project_invites(projects, p, user)
}

/// The identifiers of a list of projects, in order.
pub open spec fn project_ids(found: Seq<Project>) -> Seq<ObjectId> {
    Seq::new(found.len(), |i: int| found[i].id)
}

/// The projects of a list of invitations, in order.
pub open spec fn invitation_ids(list: Seq<InvitationProjection>) -> Seq<ObjectId> {
    Seq::new(list.len(), |i: int| list[i].id)
}

/// Whether `found` holds the projects that count `user` among their members, in the
/// order in which they were filed and as the table has them.
pub open spec fn lists_projects_of(
    found: Seq<Project>,
    order: Seq<ObjectId>,
    projects: Map<ObjectId, ProjectView>,
    user: ObjectId,
) -> bool {
    &&& project_ids(found) == order.filter(counts_member(projects, user))
    &&& forall|k: int| 0 <= k < found.len() ==> (#[trigger] found[k])@ == projects[found[k].id]
}

/// Whether `list` holds one invitation for each project that lists `user` as invited, in
/// the order in which the projects were filed, each with the name of the project's
/// owner.
pub open spec fn lists_invitations_of(
    list: Seq<InvitationProjection>,
    order: Seq<ObjectId>,
    projects: Map<ObjectId, ProjectView>,
    users: Map<ObjectId, UserView>,
    user: ObjectId,
) -> bool {
    &&& invitation_ids(list) == order.filter(lists_invited(projects, user))
    &&& forall|k: int|
        0 <= k < list.len() ==> (#[trigger] list[k])@ == invitation_of(projects[list[k].id], users)
}

/// Why a list of invitations cannot be shown.
pub open spec fn owner_missing_cause() -> Seq<char> {
    "The owner of a project is not on record"@
}

/// The failure that reports a project whose owner is not on record.
pub open spec fn owner_missing() -> AppErrorView {
    AppErrorView { message: None, cause: Some(owner_missing_cause()), error_type: AppErrorType::DbError }
}

/// Why a project whose owner is not among its members was not taken into the store.
pub open spec fn owner_left_out_cause() -> Seq<char> {
    "The owner is not among the members"@
}

/// The failure that reports a project whose owner is not among its members.
pub open spec fn owner_left_out() -> AppErrorView {
    AppErrorView { message: None, cause: Some(owner_left_out_cause()), error_type: AppErrorType::DbError }
}

/// What becomes of a new record offered to a table: the reason for which it is refused, if
/// it is.
pub open spec fn project_refusal(
    projects: Map<ObjectId, ProjectView>,
    project: ProjectView,
) -> Option<AppErrorView> {
    if projects.contains_key(project.id) {
        Some(duplicate_key())
    } else if !project.members.no_duplicates() || !project.invitations.no_duplicates() {
        Some(listed_twice())
    } else if !project.members.contains(project.author) {
        Some(owner_left_out())
    } else {
        None
    }
}

/// The store of project records.
pub struct ProjectRepository {
    projects: Vec<Project>,
}

impl View for ProjectRepository {
    type V = Map<ObjectId, ProjectView>;

    /// The records of the store, each under its identifier.
    closed spec fn view(&self) -> Map<ObjectId, ProjectView> {
        table(self.projects@)
    }
}

impl ProjectRepository {
    /// No two records of the store share an identifier.
    pub closed spec fn inv(&self) -> bool {
        distinct(self.projects@)
    }

    /// The identifiers of the records, in the order in which they were filed.
    pub closed spec fn order(&self) -> Seq<ObjectId> {
        keys(self.projects@)
    }

    /// The store is in order: its records can be told apart, its table is well formed,
    /// and the identifiers in use are those that were filed.
    pub open spec fn wf(&self) -> bool {
        self.inv() && projects_wf(self@) && lists_keys(self.order(), self@)
    }

    /// An empty store.
    pub fn new() -> (store: ProjectRepository)
        ensures
            store.wf(),
            store@ == Map::<ObjectId, ProjectView>::empty(),
            store.order() == Seq::<ObjectId>::empty(),
    {
        let store = ProjectRepository { projects: Vec::new() };
        assert(store@ =~= Map::<ObjectId, ProjectView>::empty());
        assert(store.order() =~= Seq::<ObjectId>::empty());
        proof {
            lemma_keys(store.projects@);
        }
        store
    }

    fn find(&self, id: ObjectId) -> (at: Option<usize>)
        requires
            self.wf(),
        ensures
            match at {
                Some(i) => i < self.projects.len() && self.projects[i as int].id == id
                    && self@.contains_key(id) && self@[id] == self.projects[i as int]@,
                None => !self@.contains_key(id),
            },
    {
        let mut i: usize = 0;
        while i < self.projects.len()
            invariant
                self.wf(),
                i <= self.projects.len(),
                forall|k: int| 0 <= k < i ==> self.projects[k].id != id,
            decreases self.projects.len() - i,
        {
            if self.projects[i].id == id {
                proof {
                    lemma_slot(self.projects@, i as int);
                }
                return Some(i);
            }
            i = i + 1;
        }
        None
    }

    /// Files a new record. It is refused, and the store left as it was, where its
    /// identifier is in use, where it lists a user twice, or where its owner is not among
    /// its members.
    pub fn create(&mut self, project: Project) -> (created: Result<ObjectId, AppError>)
        requires
            old(self).wf(),
        ensures
            final(self).wf(),
            match project_refusal(old(self)@, project@) {
                Some(why) => created matches Err(e) && e@ == why && final(self)@ == old(self)@
                    && final(self).order() == old(self).order(),
                None => created == Ok::<ObjectId, AppError>(project.id) && final(self)@ == old(
                    self,
                )@.insert(project.id, project@) && final(self).order() == old(self).order().push(
                    project.id,
                ),
            },
    {
        if self.find(project.id).is_some() {
            return Err(AppError::db_error("A record with this identifier exists already"));
        }
        if has_duplicates(&project.members) || has_duplicates(&project.invitations) {
            return Err(AppError::db_error("An identifier is listed twice"));
        }
        if !contains_id(&project.members, project.author) {
            return Err(AppError::db_error("The owner is not among the members"));
        }
        let id = project.id;
        proof {
            assert(!held(self.projects@, id));
            lemma_push(self.projects@, project);
            lemma_keys_push(self.projects@, project);
        }
        self.projects.push(project);
        proof {
            lemma_keys(self.projects@);
        }
        Ok(id)
    }

    /// The members of a project as shown with it.
    fn join_members(members: &Vec<ObjectId>, users: &UserRepository) -> (shown: Vec<MemberProjection>)
        requires
            users.wf(),
        ensures
            shown_members(shown@) == member_views(members@, users@),
    {
        let mut shown: Vec<MemberProjection> = Vec::new();
        let mut i: usize = 0;
        assert(members@.take(0).filter(on_record(users@)) =~= Seq::<ObjectId>::empty());
        while i < members.len()
            invariant
                users.wf(),
                i <= members.len(),
                shown_members(shown@) == member_views(members@.take(i as int), users@),
            decreases members.len() - i,
        {
            let member = members[i];
            proof {
                assert(members@.take(i + 1) =~= members@.take(i as int).push(member));
                Seq::lemma_filter_push(members@.take(i as int), member, on_record(users@));
            }
            let ghost before = shown_members(shown@);
            match users.get(member) {
                Ok(user) => {
                    shown.push(MemberProjection { username: user.username, id: member });
                    assert(shown_members(shown@) =~= before.push(as_member(users@)(member)));
                    assert(member_views(members@.take(i + 1), users@) =~= before.push(
                        as_member(users@)(member),
                    ));
                },
                Err(_) => {
                    assert(shown_members(shown@) =~= before);
                },
            }
            i = i + 1;
        }
        assert(members@.take(i as int) =~= members@);
        shown
    }

    /// The project as shown to its members, each member with the name that the store of
    /// users holds.
    pub fn get(&self, project_id: ObjectId, users: &UserRepository) -> (found: Result<
        ProjectProjection,
        AppError,
    >)
        requires
            self.wf(),
            users.wf(),
        ensures
            found is Ok <==> self@.contains_key(project_id),
            found matches Ok(shown) ==> shown@ == projection_of(self@[project_id], users@),
            found matches Err(e) ==> e@ == not_found(project_id),
    {
        match self.find(project_id) {
            Some(i) => {
                let project = &self.projects[i];
                Ok(
                    ProjectProjection {
                        id: project.id,
                        author: project.author,
                        title: project.title.clone(),
                        region: project.region.clone(),
                        api_key: project.api_key.clone(),
                        members: Self::join_members(&project.members, users),
                        invitations: copy_ids(&project.invitations),
                        avatars: copy_avatars(&project.avatars),
                    },
                )
            },
            None => Err(AppError::not_found_error(project_id.to_hex().as_str())),
        }
    }

    /// The record of a project, as the store holds it.
    pub fn get_project(&self, project_id: ObjectId) -> (found: Result<Project, AppError>)
        requires
            self.wf(),
        ensures
            found is Ok <==> self@.contains_key(project_id),
            found matches Ok(project) ==> project@ == self@[project_id],
            found matches Err(e) ==> e@ == not_found(project_id),
    {
        match self.find(project_id) {
            Some(i) => Ok(self.projects[i].clone()),
            None => Err(AppError::not_found_error(project_id.to_hex().as_str())),
        }
    }

    /// The secret of a project.
    pub fn get_secret(&self, project_id: ObjectId) -> (found: Result<String, AppError>)
        requires
            self.wf(),
        ensures
            found is Ok <==> self@.contains_key(project_id),
            found matches Ok(secret) ==> secret@ == self@[project_id].api_secret,
            found matches Err(e) ==> e@ == not_found(project_id),
    {
        match self.find(project_id) {
            Some(i) => Ok(self.projects[i].api_secret.clone()),
            None => Err(AppError::not_found_error(project_id.to_hex().as_str())),
        }
    }

    /// Adds a user to the members of a project. Where the user is one already, nothing
    /// changes and the call succeeds all the same.
    pub fn add_user(&mut self, project_id: ObjectId, user_id: ObjectId) -> (added: Result<(), AppError>)
        requires
            old(self).wf(),
        ensures
            final(self).wf(),
            final(self)@ == project_add_user(old(self)@, project_id, user_id),
            final(self).order() == old(self).order(),
            added is Ok <==> old(self)@.contains_key(project_id),
            added matches Err(e) ==> e@ == not_found(project_id),
    {
        match self.find(project_id) {
            Some(i) => {
                let mut project = self.projects[i].clone();
                insert_id(&mut project.members, user_id);
                proof {
                    lemma_with_id(self.projects[i as int]@.members, user_id);
                    lemma_update(self.projects@, i as int, project);
                    lemma_keys_update(self.projects@, i as int, project);
                }
                self.projects.set(i, project);
                proof {
                    lemma_keys(self.projects@);
                }
                Ok(())
            },
            None => Err(AppError::not_found_error(project_id.to_hex().as_str())),
        }
    }

    /// Adds a user to those invited to a project. Where the user is invited already,
    /// nothing changes and the call succeeds all the same.
    pub fn add_invitation(&mut self, project_id: ObjectId, user_id: ObjectId) -> (added: Result<(), AppError>)
        requires
            old(self).wf(),
        ensures
            final(self).wf(),
            final(self)@ == project_add_invitation(old(self)@, project_id, user_id),
            final(self).order() == old(self).order(),
            added is Ok <==> old(self)@.contains_key(project_id),
            added matches Err(e) ==> e@ == not_found(project_id),
    {
        match self.find(project_id) {
            Some(i) => {
                let mut project = self.projects[i].clone();
                insert_id(&mut project.invitations, user_id);
                proof {
                    lemma_with_id(self.projects[i as int]@.invitations, user_id);
                    lemma_update(self.projects@, i as int, project);
                    lemma_keys_update(self.projects@, i as int, project);
                }
                self.projects.set(i, project);
                proof {
                    lemma_keys(self.projects@);
                }
                Ok(())
            },
            None => Err(AppError::not_found_error(project_id.to_hex().as_str())),
        }
    }

    /// Takes a user off those invited to a project. Where the user is not invited,
    /// nothing changes and the call succeeds all the same.
    pub fn remove_invitation(&mut self, project_id: ObjectId, user_id: ObjectId) -> (removed: Result<(), AppError>)
        requires
            old(self).wf(),
        ensures
            final(self).wf(),
            final(self)@ == project_remove_invitation(old(self)@, project_id, user_id),
            final(self).order() == old(self).order(),
            removed is Ok <==> old(self)@.contains_key(project_id),
            removed matches Err(e) ==> e@ == not_found(project_id),
    {
        match self.find(project_id) {
            Some(i) => {
                let mut project = self.projects[i].clone();
                remove_id(&mut project.invitations, user_id);
                proof {
                    lemma_without_id(self.projects[i as int]@.invitations, user_id);
                    lemma_update(self.projects@, i as int, project);
                    lemma_keys_update(self.projects@, i as int, project);
                }
                self.projects.set(i, project);
                proof {
                    lemma_keys(self.projects@);
                }
                Ok(())
            },
            None => Err(AppError::not_found_error(project_id.to_hex().as_str())),
        }
    }

    /// Puts an avatar at the end of the avatars of a project.
    pub fn add_avatar(&mut self, project_id: ObjectId, avatar: Avatar) -> (added: Result<(), AppError>)
        requires
            old(self).wf(),
        ensures
            final(self).wf(),
            final(self)@ == project_add_avatar(old(self)@, project_id, avatar@),
            final(self).order() == old(self).order(),
            added is Ok <==> old(self)@.contains_key(project_id),
            added matches Err(e) ==> e@ == not_found(project_id),
    {
        match self.find(project_id) {
            Some(i) => {
                let mut project = self.projects[i].clone();
                project.avatars.push(avatar);
                proof {
                    assert(avatar_views(project.avatars@) =~= self.projects[i as int]@.avatars.push(
                        avatar@,
                    ));
                    lemma_update(self.projects@, i as int, project);
                    lemma_keys_update(self.projects@, i as int, project);
                }
                self.projects.set(i, project);
                proof {
                    lemma_keys(self.projects@);
                }
                Ok(())
            },
            None => Err(AppError::not_found_error(project_id.to_hex().as_str())),
        }
    }

    /// The projects that count `user_id` among their members, in the order in which they
    /// were filed.
    pub fn get_user_projects(&self, user_id: ObjectId) -> (found: Vec<Project>)
        requires
            self.wf(),
        ensures
            lists_projects_of(found@, self.order(), self@, user_id),
    {
        let ghost test = counts_member(self@, user_id);
        let ghost order = self.order();
        let mut found: Vec<Project> = Vec::new();
        let mut i: usize = 0;
        assert(order.take(0).filter(test) =~= Seq::<ObjectId>::empty());
        while i < self.projects.len()
            invariant
                self.wf(),
                test == counts_member(self@, user_id),
                order == self.order(),
                i <= self.projects.len(),
                project_ids(found@) == order.take(i as int).filter(test),
                forall|k: int| 0 <= k < found.len() ==> (#[trigger] found[k])@ == self@[found[k].id],
            decreases self.projects.len() - i,
        {
            let project = &self.projects[i];
            let ghost before = project_ids(found@);
            proof {
                lemma_slot(self.projects@, i as int);
                assert(order[i as int] == project.id);
                assert(order.take(i + 1) =~= order.take(i as int).push(project.id));
                Seq::lemma_filter_push(order.take(i as int), project.id, test);
            }
            if contains_id(&project.members, user_id) {
                found.push(project.clone());
                assert(project_ids(found@) =~= before.push(project.id));
            } else {
                assert(project_ids(found@) =~= before);
            }
            i = i + 1;
        }
        assert(order.take(i as int) =~= order);
        found
    }

    /// The invitations of a user: one for each project that lists the user as invited, in
    /// the order in which the projects were filed, each with the name of the project's
    /// owner. Where an owner is not on record the list cannot be shown.
    pub fn get_user_invitations(&self, user_id: ObjectId, users: &UserRepository) -> (found: Result<
        Vec<InvitationProjection>,
        AppError,
    >)
        requires
            self.wf(),
            users.wf(),
        ensures
            found is Ok <==> inviters_on_record(self@, users@, user_id),
            found matches Err(e) ==> e@ == owner_missing(),
            found matches Ok(list) ==> lists_invitations_of(
                list@,
                self.order(),
                self@,
                users@,
                user_id,
            ),
    {
        let ghost test = lists_invited(self@, user_id);
        let ghost order = self.order();
        let mut list: Vec<InvitationProjection> = Vec::new();
        let mut i: usize = 0;
        assert(order.take(0).filter(test) =~= Seq::<ObjectId>::empty());
        while i < self.projects.len()
            invariant
                self.wf(),
                users.wf(),
                test == lists_invited(self@, user_id),
                order == self.order(),
                i <= self.projects.len(),
                invitation_ids(list@) == order.take(i as int).filter(test),
                forall|k: int|
                    0 <= k < list.len() ==> (#[trigger] list[k])@ == invitation_of(
                        self@[list[k].id],
                        users@,
                    ),
                forall|j: int|
                    0 <= j < i && (#[trigger] self.projects[j]).invitations@.contains(user_id)
                        ==> users@.contains_key(self.projects[j].author),
            decreases self.projects.len() - i,
        {
            let project = &self.projects[i];
            let ghost before = invitation_ids(list@);
            proof {
                lemma_slot(self.projects@, i as int);
                assert(order[i as int] == project.id);
                assert(order.take(i + 1) =~= order.take(i as int).push(project.id));
                Seq::lemma_filter_push(order.take(i as int), project.id, test);
            }
            if contains_id(&project.invitations, user_id) {
                match users.get(project.author) {
                    Ok(owner) => {
                        list.push(
                            InvitationProjection {
                                title: project.title.clone(),
                                author: owner.username,
                                id: project.id,
                                region: project.region.clone(),
                            },
                        );
                    },
                    Err(_) => {
                        assert(project_invites(self@, project.id, user_id));
                        return Err(AppError::db_error("The owner of a project is not on record"));
                    },
                }
                assert(invitation_ids(list@) =~= before.push(project.id));
            } else {
                assert(invitation_ids(list@) =~= before);
            }
            i = i + 1;
        }
        proof {
            assert(order.take(i as int) =~= order);
            assert forall|p: ObjectId| #[trigger]
                project_invites(self@, p, user_id) implies users@.contains_key(self@[p].author) by {
                lemma_held(self.projects@, p);
                let j = slot(self.projects@, p);
                assert(self.projects[j].invitations@.contains(user_id));
            }
        }
        Ok(list)
    }
}

} // verus!
