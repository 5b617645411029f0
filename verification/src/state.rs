//! The state that the service acts on: the store of users and the store of projects.

use vstd::prelude::*;
use crate::models::{ProjectView, UserView};
use crate::oid::ObjectId;
use crate::repositories::projects::{project_has_member, project_invites, projects_wf};
use crate::repositories::projects::ProjectRepository;
use crate::repositories::users::{user_in_project, user_invited, users_wf, UserRepository};

verus! {

/// The two stores. They are written one after the other, never together.
pub struct AppState {
    pub users: UserRepository,
    pub projects: ProjectRepository,
}

/// The mathematical value of an [`AppState`]: the table of users and the table of
/// projects.
pub struct StateView {
    pub users: Map<ObjectId, UserView>,
    pub projects: Map<ObjectId, ProjectView>,
}

impl View for AppState {
    type V = StateView;

    open spec fn view(&self) -> StateView {
        StateView { users: self.users@, projects: self.projects@ }
    }
}

impl StateView {
    /// Both tables are well formed.
    pub open spec fn wf(self) -> bool {
        users_wf(self.users) && projects_wf(self.projects)
    }

    /// The two tables agree. Every project that a user lists is on record, and so is every
    /// user that a project lists; a user lists a project as a membership exactly where the
    /// project lists the user as a member, and as an invitation exactly where the project
    /// lists the user as invited; and nobody is both a member of a project and invited to
    /// it.
    pub open spec fn consistent(self) -> bool {
        &&& forall|u: ObjectId, p: ObjectId|
            #![trigger user_in_project(self.users, u, p)]
            #![trigger project_has_member(self.projects, p, u)]
            user_in_project(self.users, u, p) <==> project_has_member(self.projects, p, u)
        &&& forall|u: ObjectId, p: ObjectId|
            #![trigger user_invited(self.users, u, p)]
            #![trigger project_invites(self.projects, p, u)]
            user_invited(self.users, u, p) <==> project_invites(self.projects, p, u)
        &&& forall|u: ObjectId| #[trigger] self.users.contains_key(u) ==> self.users[u].settled()
        &&& forall|p: ObjectId| #[trigger]
            self.projects.contains_key(p) ==> self.projects[p].settled()
    }
}

/// Whether two states hold their records in the same order of filing.
pub open spec fn same_order(a: AppState, b: AppState) -> bool {
    a.users.order() == b.users.order() && a.projects.order() == b.projects.order()
}

impl AppState {
    /// Both stores are in order.
    pub open spec fn wf(&self) -> bool {
        self.users.wf() && self.projects.wf()
    }

    /// A state without users and without projects.
    pub fn new() -> (app: AppState)
        ensures
            app.wf(),
            app@.users == Map::<ObjectId, UserView>::empty(),
            app@.projects == Map::<ObjectId, ProjectView>::empty(),
            app@.consistent(),
            app.users.order() == Seq::<ObjectId>::empty(),
            app.projects.order() == Seq::<ObjectId>::empty(),
    {
        AppState { users: UserRepository::new(), projects: ProjectRepository::new() }
    }
}

} // verus!
