use stampa::coordinator::{perform, plan_accept, plan_deny, plan_invite, run_calls, settle};
use stampa::coordinator::{InvitationCoordinator, StoreCall};
use stampa::errors::{AppError, AppErrorType};
use stampa::models::{Project, User};
use stampa::oid::ObjectId;
use stampa::state::AppState;

fn id(n: u8) -> ObjectId {
    ObjectId::from_bytes([n, 0, 0, 0, 0, 0, 0, 0, 0, 0, 0, n])
}

fn user(n: u8, name: &str) -> User {
    User {
        id: id(n),
        username: name.to_string(),
        password: String::new(),
        avatar: String::new(),
        projects: Vec::new(),
        invitations: Vec::new(),
    }
}

fn project(n: u8, owner: ObjectId) -> Project {
    Project {
        id: id(n),
        author: owner,
        title: "P1".to_string(),
        api_key: "key".to_string(),
        api_secret: "secret".to_string(),
        region: "eu-west-3".to_string(),
        members: vec![owner],
        invitations: Vec::new(),
        avatars: Vec::new(),
    }
}

/// Owner 1 with project 100, and bob 2 with nothing.
fn owner_and_bob() -> AppState {
    let mut app = AppState::new();
    let mut owner = user(1, "owner");
    owner.projects.push(id(100));
    app.users.create(owner).unwrap();
    app.users.create(user(2, "bob")).unwrap();
    app.projects.create(project(100, id(1))).unwrap();
    app
}

fn same_user(a: &User, b: &User) -> bool {
    a.id == b.id && a.username == b.username && a.projects == b.projects
        && a.invitations == b.invitations
}

fn same_project(a: &Project, b: &Project) -> bool {
    a.id == b.id && a.members == b.members && a.invitations == b.invitations
        && a.avatars.len() == b.avatars.len()
}

#[test]
fn invite_then_accept_makes_bob_a_member() {
    let mut app = owner_and_bob();
    InvitationCoordinator::invite(&mut app, id(1), id(100), "bob").unwrap();
    let bob = app.users.get(id(2)).unwrap();
    assert_eq!(bob.invitations, vec![id(100)]);
    assert_eq!(app.projects.get_project(id(100)).unwrap().invitations, vec![id(2)]);

    let shown = InvitationCoordinator::accept(&mut app, id(2), id(100)).unwrap();
    let p1 = app.projects.get_project(id(100)).unwrap();
    assert_eq!(p1.members, vec![id(1), id(2)]);
    assert!(p1.invitations.is_empty());
    let bob = app.users.get(id(2)).unwrap();
    assert!(bob.invitations.is_empty());
    assert_eq!(bob.projects, vec![id(100)]);
    let names: Vec<&str> = shown.members.iter().map(|m| m.username.as_str()).collect();
    assert_eq!(names, vec!["owner", "bob"]);
    assert_eq!(shown.members[1].id, id(2));
    assert!(shown.invitations.is_empty());
}

#[test]
fn a_second_invitation_of_the_same_user_is_refused() {
    let mut app = owner_and_bob();
    InvitationCoordinator::invite(&mut app, id(1), id(100), "bob").unwrap();
    let e = InvitationCoordinator::invite(&mut app, id(1), id(100), "bob").unwrap_err();
    assert_eq!(e.error_type, AppErrorType::AlreadyInvited);
    assert_eq!(e.message(), "The user bob is already invited or a member");
    assert_eq!(e.status_code(), 409);
    assert_eq!(app.users.get(id(2)).unwrap().invitations, vec![id(100)]);
    assert_eq!(app.projects.get_project(id(100)).unwrap().invitations, vec![id(2)]);
}

#[test]
fn a_member_cannot_be_invited() {
    let mut app = owner_and_bob();
    let e = InvitationCoordinator::invite(&mut app, id(1), id(100), "owner").unwrap_err();
    assert_eq!(e.error_type, AppErrorType::AlreadyInvited);
    InvitationCoordinator::invite(&mut app, id(1), id(100), "bob").unwrap();
    InvitationCoordinator::accept(&mut app, id(2), id(100)).unwrap();
    let e = InvitationCoordinator::invite(&mut app, id(1), id(100), "bob").unwrap_err();
    assert_eq!(e.error_type, AppErrorType::AlreadyInvited);
    assert!(app.users.get(id(2)).unwrap().invitations.is_empty());
}

#[test]
fn only_a_member_can_invite() {
    let mut app = owner_and_bob();
    app.users.create(user(3, "carol")).unwrap();
    let e = InvitationCoordinator::invite(&mut app, id(2), id(100), "carol").unwrap_err();
    assert_eq!(e.error_type, AppErrorType::NotInProject);
    assert_eq!(e.message(), "The user 020000000000000000000002 is not in the project");
    assert_eq!(e.status_code(), 401);
    assert!(app.users.get(id(3)).unwrap().invitations.is_empty());
    assert!(app.projects.get_project(id(100)).unwrap().invitations.is_empty());
}

#[test]
fn an_invitation_to_a_missing_project_is_not_found() {
    let mut app = owner_and_bob();
    let e = InvitationCoordinator::invite(&mut app, id(1), id(101), "bob").unwrap_err();
    assert_eq!(e.error_type, AppErrorType::NotFoundError);
    assert_eq!(e.message(), "The ressource 650000000000000000000065 was not found");
    assert_eq!(e.status_code(), 404);
}

#[test]
fn an_invitation_of_an_unknown_name_is_not_found() {
    let mut app = owner_and_bob();
    let e = InvitationCoordinator::invite(&mut app, id(1), id(100), "nobody").unwrap_err();
    assert_eq!(e.error_type, AppErrorType::NotFoundError);
    assert_eq!(e.message(), "The ressource nobody was not found");
    assert!(app.projects.get_project(id(100)).unwrap().invitations.is_empty());
}

#[test]
fn accept_without_invitation_fails_and_changes_nothing() {
    let mut app = owner_and_bob();
    let before_user = app.users.get(id(2)).unwrap();
    let before_project = app.projects.get_project(id(100)).unwrap();
    let e = InvitationCoordinator::accept(&mut app, id(2), id(100)).unwrap_err();
    assert_eq!(e.error_type, AppErrorType::NotFoundError);
    assert_eq!(e.message(), "The ressource 640000000000000000000064 was not found");
    assert!(same_user(&before_user, &app.users.get(id(2)).unwrap()));
    assert!(same_project(&before_project, &app.projects.get_project(id(100)).unwrap()));
}

#[test]
fn deny_without_invitation_fails_and_changes_nothing() {
    let mut app = owner_and_bob();
    let before_user = app.users.get(id(2)).unwrap();
    let before_project = app.projects.get_project(id(100)).unwrap();
    let e = InvitationCoordinator::deny(&mut app, id(2), id(100)).unwrap_err();
    assert_eq!(e.error_type, AppErrorType::NotFoundError);
    assert!(same_user(&before_user, &app.users.get(id(2)).unwrap()));
    assert!(same_project(&before_project, &app.projects.get_project(id(100)).unwrap()));
}

#[test]
fn accept_by_an_unknown_user_is_not_found() {
    let mut app = owner_and_bob();
    let e = InvitationCoordinator::accept(&mut app, id(9), id(100)).unwrap_err();
    assert_eq!(e.error_type, AppErrorType::NotFoundError);
    assert_eq!(e.message(), "The ressource 090000000000000000000009 was not found");
}

#[test]
fn accepting_twice_ends_where_accepting_once_ends() {
    let mut app = owner_and_bob();
    InvitationCoordinator::invite(&mut app, id(1), id(100), "bob").unwrap();
    InvitationCoordinator::accept(&mut app, id(2), id(100)).unwrap();
    let user_once = app.users.get(id(2)).unwrap();
    let project_once = app.projects.get_project(id(100)).unwrap();
    let e = InvitationCoordinator::accept(&mut app, id(2), id(100)).unwrap_err();
    assert_eq!(e.error_type, AppErrorType::NotFoundError);
    assert!(same_user(&user_once, &app.users.get(id(2)).unwrap()));
    assert!(same_project(&project_once, &app.projects.get_project(id(100)).unwrap()));
    assert_eq!(project_once.members, vec![id(1), id(2)]);
}

#[test]
fn deny_takes_the_invitation_off_both_records() {
    let mut app = owner_and_bob();
    InvitationCoordinator::invite(&mut app, id(1), id(100), "bob").unwrap();
    InvitationCoordinator::deny(&mut app, id(2), id(100)).unwrap();
    let bob = app.users.get(id(2)).unwrap();
    assert!(bob.invitations.is_empty());
    assert!(bob.projects.is_empty());
    let p1 = app.projects.get_project(id(100)).unwrap();
    assert!(p1.invitations.is_empty());
    assert_eq!(p1.members, vec![id(1)]);
    // The pair is back where it started: bob can be invited again.
    InvitationCoordinator::invite(&mut app, id(1), id(100), "bob").unwrap();
    assert_eq!(app.users.get(id(2)).unwrap().invitations, vec![id(100)]);
}

#[test]
fn accept_with_a_missing_project_is_a_partial_transition() {
    let mut app = AppState::new();
    let mut bob = user(2, "bob");
    bob.invitations.push(id(100));
    bob.invitations.push(id(101));
    app.users.create(bob).unwrap();
    let e = InvitationCoordinator::accept(&mut app, id(2), id(100)).unwrap_err();
    assert_eq!(e.error_type, AppErrorType::PartialTransition);
    assert_eq!(e.message(), "The operation was only partly applied");
    assert_eq!(e.cause.as_deref(), Some("640000000000000000000064"));
    assert_eq!(e.status_code(), 500);
    let bob = app.users.get(id(2)).unwrap();
    assert_eq!(bob.projects, vec![id(100)]);
    assert_eq!(bob.invitations, vec![id(101)]);
}

#[test]
fn deny_with_a_missing_project_is_a_partial_transition() {
    let mut app = AppState::new();
    let mut bob = user(2, "bob");
    bob.invitations.push(id(100));
    app.users.create(bob).unwrap();
    let e = InvitationCoordinator::deny(&mut app, id(2), id(100)).unwrap_err();
    assert_eq!(e.error_type, AppErrorType::PartialTransition);
    assert!(app.users.get(id(2)).unwrap().invitations.is_empty());
}

#[test]
fn a_half_written_invitation_can_be_driven_again() {
    // The user's side was written and the project's side was not.
    let mut app = AppState::new();
    let mut owner = user(1, "owner");
    owner.projects.push(id(100));
    app.users.create(owner).unwrap();
    let mut bob = user(2, "bob");
    bob.invitations.push(id(100));
    app.users.create(bob).unwrap();
    app.projects.create(project(100, id(1))).unwrap();
    InvitationCoordinator::invite(&mut app, id(1), id(100), "bob").unwrap();
    assert_eq!(app.users.get(id(2)).unwrap().invitations, vec![id(100)]);
    assert_eq!(app.projects.get_project(id(100)).unwrap().invitations, vec![id(2)]);
}

#[test]
fn the_writes_of_an_acceptance_come_in_their_order() {
    let mut bob = user(2, "bob");
    bob.invitations.push(id(100));
    let calls = plan_accept(id(2), id(100), Some(&bob)).unwrap();
    assert_eq!(calls.len(), 4);
    assert!(matches!(calls[0], StoreCall::UserAddProject { user, project } if user == id(2) && project == id(100)));
    assert!(matches!(calls[1], StoreCall::UserRemoveInvitation { user, project } if user == id(2) && project == id(100)));
    assert!(matches!(calls[2], StoreCall::ProjectAddUser { project, user } if user == id(2) && project == id(100)));
    assert!(matches!(calls[3], StoreCall::ProjectRemoveInvitation { project, user } if user == id(2) && project == id(100)));
}

#[test]
fn the_writes_of_a_refusal_and_of_an_invitation() {
    let mut bob = user(2, "bob");
    bob.invitations.push(id(100));
    let calls = plan_deny(id(2), id(100), Some(&bob)).unwrap();
    assert_eq!(calls.len(), 2);
    assert!(matches!(calls[0], StoreCall::UserRemoveInvitation { user, project } if user == id(2) && project == id(100)));
    assert!(matches!(calls[1], StoreCall::ProjectRemoveInvitation { project, user } if user == id(2) && project == id(100)));

    let p1 = project(100, id(1));
    let carol = user(3, "carol");
    let calls = plan_invite(id(1), id(100), Some(&p1), "carol", Some(&carol)).unwrap();
    assert_eq!(calls.len(), 2);
    assert!(matches!(calls[0], StoreCall::UserAddInvitation { user, project } if user == id(3) && project == id(100)));
    assert!(matches!(calls[1], StoreCall::ProjectAddInvitation { project, user } if user == id(3) && project == id(100)));
}

#[test]
fn plans_are_refused_without_a_record_or_an_invitation() {
    let bob = user(2, "bob");
    assert_eq!(plan_accept(id(2), id(100), None).unwrap_err().error_type, AppErrorType::NotFoundError);
    assert_eq!(plan_accept(id(2), id(100), Some(&bob)).unwrap_err().error_type, AppErrorType::NotFoundError);
    assert_eq!(plan_deny(id(2), id(100), None).unwrap_err().error_type, AppErrorType::NotFoundError);
    assert_eq!(plan_deny(id(2), id(100), Some(&bob)).unwrap_err().error_type, AppErrorType::NotFoundError);
    let p1 = project(100, id(1));
    assert_eq!(
        plan_invite(id(1), id(100), None, "bob", Some(&bob)).unwrap_err().error_type,
        AppErrorType::NotFoundError
    );
    assert_eq!(
        plan_invite(id(2), id(100), Some(&p1), "bob", Some(&bob)).unwrap_err().error_type,
        AppErrorType::NotInProject
    );
    assert_eq!(
        plan_invite(id(1), id(100), Some(&p1), "bob", None).unwrap_err().error_type,
        AppErrorType::NotFoundError
    );
    let mut enrolled = user(2, "bob");
    enrolled.projects.push(id(100));
    assert_eq!(
        plan_invite(id(1), id(100), Some(&p1), "bob", Some(&enrolled)).unwrap_err().error_type,
        AppErrorType::AlreadyInvited
    );
}

#[test]
fn a_first_failure_is_passed_on_and_a_later_one_is_partial() {
    let first = settle(0, AppError::not_found_error("abc"));
    assert_eq!(first.error_type, AppErrorType::NotFoundError);
    assert_eq!(first.message(), "The ressource abc was not found");
    let later = settle(1, AppError::not_found_error("abc"));
    assert_eq!(later.error_type, AppErrorType::PartialTransition);
    assert_eq!(later.cause.as_deref(), Some("abc"));
    let later = settle(3, AppError::db_error("down"));
    assert_eq!(later.error_type, AppErrorType::PartialTransition);
    assert_eq!(later.cause.as_deref(), Some("down"));
}

#[test]
fn a_run_stops_at_the_first_write_that_fails() {
    let mut app = owner_and_bob();
    let calls = vec![
        StoreCall::UserAddInvitation { user: id(2), project: id(100) },
        StoreCall::ProjectAddInvitation { project: id(101), user: id(2) },
        StoreCall::UserAddProject { user: id(2), project: id(100) },
    ];
    let e = run_calls(&mut app, &calls).unwrap_err();
    assert_eq!(e.error_type, AppErrorType::PartialTransition);
    let bob = app.users.get(id(2)).unwrap();
    assert_eq!(bob.invitations, vec![id(100)]);
    assert!(bob.projects.is_empty());

    let calls = vec![StoreCall::ProjectAddUser { project: id(101), user: id(2) }];
    let e = run_calls(&mut app, &calls).unwrap_err();
    assert_eq!(e.error_type, AppErrorType::NotFoundError);
    assert!(run_calls(&mut app, &Vec::new()).is_ok());
}

#[test]
fn each_write_is_a_set_operation() {
    let mut app = owner_and_bob();
    let add = StoreCall::ProjectAddUser { project: id(100), user: id(2) };
    perform(&mut app, add).unwrap();
    perform(&mut app, add).unwrap();
    assert_eq!(app.projects.get_project(id(100)).unwrap().members, vec![id(1), id(2)]);
    let invite = StoreCall::UserAddInvitation { user: id(2), project: id(100) };
    perform(&mut app, invite).unwrap();
    perform(&mut app, invite).unwrap();
    assert_eq!(app.users.get(id(2)).unwrap().invitations, vec![id(100)]);
    let remove = StoreCall::UserRemoveInvitation { user: id(2), project: id(100) };
    perform(&mut app, remove).unwrap();
    perform(&mut app, remove).unwrap();
    assert!(app.users.get(id(2)).unwrap().invitations.is_empty());
    let remove = StoreCall::ProjectRemoveInvitation { project: id(100), user: id(2) };
    perform(&mut app, remove).unwrap();
    assert!(app.projects.get_project(id(100)).unwrap().invitations.is_empty());
    let add = StoreCall::UserAddProject { user: id(2), project: id(100) };
    perform(&mut app, add).unwrap();
    perform(&mut app, add).unwrap();
    assert_eq!(app.users.get(id(2)).unwrap().projects, vec![id(100)]);
    let add = StoreCall::ProjectAddInvitation { project: id(100), user: id(3) };
    perform(&mut app, add).unwrap();
    perform(&mut app, add).unwrap();
    assert_eq!(app.projects.get_project(id(100)).unwrap().invitations, vec![id(3)]);
}
