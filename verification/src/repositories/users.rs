//! The store of user records.

use vstd::prelude::*;
use vstd::string::StringExecFns;
use vstd::utf8::encode_utf8;
use crate::errors::{AppError, AppErrorView};
use crate::failures::{duplicate_key, listed_twice, name_not_found, not_found, not_in_project};
use crate::failures::user_exists;
use crate::idlist::{contains_id, has_duplicates, insert_id, remove_id, with_id, without_id};
use crate::idlist::{lemma_with_id, lemma_without_id};
use crate::models::{AvailableUser, User, UserView};
use crate::oid::ObjectId;
use crate::repositories::table::{distinct, held, keys, lists_keys, slot, table};
use crate::repositories::table::{lemma_keys, lemma_keys_push, lemma_keys_update};
use crate::repositories::table::{lemma_push, lemma_slot, lemma_update};

verus! {

/// What holds of every table of users: a record is filed under its own identifier, lists
/// nothing twice, and shares its username with no other record.
pub open spec fn users_wf(users: Map<ObjectId, UserView>) -> bool {
    &&& forall|id: ObjectId| #[trigger]
        users.contains_key(id) ==> users[id].id == id && users[id].wf()
    &&& forall|a: ObjectId, b: ObjectId|
        #![trigger users[a], users[b]]
        users.contains_key(a) && users.contains_key(b) && users[a].username == users[b].username
            ==> a == b
}

/// Whether some user goes by `username`.
pub open spec fn username_taken(users: Map<ObjectId, UserView>, username: Seq<char>) -> bool {
    exists|id: ObjectId| #[trigger] users.contains_key(id) && users[id].username == username
}

/// The user who goes by `username`, where there is one.
pub open spec fn user_named(users: Map<ObjectId, UserView>, username: Seq<char>) -> ObjectId {
    choose|id: ObjectId| #[trigger] users.contains_key(id) && users[id].username == username
}

/// Whether `user` is on record as a member of `project`.
pub open spec fn user_in_project(
    users: Map<ObjectId, UserView>,
    user: ObjectId,
    project: ObjectId,
) -> bool {
    users.contains_key(user) && users[user].projects.contains(project)
}

/// Whether `user` is on record as invited to `project`.
pub open spec fn user_invited(
    users: Map<ObjectId, UserView>,
    user: ObjectId,
    project: ObjectId,
) -> bool {
    users.contains_key(user) && users[user].invitations.contains(project)
}

/// The table after `project` is added to the memberships of `user`. A table that does not
/// hold `user` stays as it is.
pub open spec fn user_add_project(
    users: Map<ObjectId, UserView>,
    user: ObjectId,
    project: ObjectId,
) -> Map<ObjectId, UserView> {
    if users.contains_key(user) {
        users.insert(
            user,
            UserView { projects: with_id(users[user].projects, project), ..users[user] },
        )
    } else {
        users
    }
}

/// The table after `project` is added to the invitations of `user`.
pub open spec fn user_add_invitation(
    users: Map<ObjectId, UserView>,
    user: ObjectId,
    project: ObjectId,
) -> Map<ObjectId, UserView> {
    if users.contains_key(user) {
        users.insert(
            user,
            UserView { invitations: with_id(users[user].invitations, project), ..users[user] },
        )
    } else {
        users
    }
}

/// The table after `project` is taken off the invitations of `user`.
pub open spec fn user_remove_invitation(
    users: Map<ObjectId, UserView>,
    user: ObjectId,
    project: ObjectId,
) -> Map<ObjectId, UserView> {
    if users.contains_key(user) {
        users.insert(
            user,
            UserView { invitations: without_id(users[user].invitations, project), ..users[user] },
        )
    } else {
        users
    }
}

/// What becomes of a new record offered to a table: the reason for which it is refused, if
/// it is.
pub open spec fn user_refusal(users: Map<ObjectId, UserView>, user: UserView) -> Option<AppErrorView> {
    if users.contains_key(user.id) {
        Some(duplicate_key())
    } else if username_taken(users, user.username) {
        Some(user_exists(user.username))
    } else if !user.wf() {
        Some(listed_twice())
    } else {
        None
    }
}

/// The most users that a search for users to invite hands back.
pub const AVAILABLE_LIMIT: usize = 5;

/// Whether the user under `id` can be offered for an invitation to `project` in answer to
/// `query`: the user is on record, is not a member of the project, and goes by a name
/// whose bytes start with those of the query.
pub open spec fn available(
    users: Map<ObjectId, UserView>,
    project: ObjectId,
    query: Seq<char>,
    id: ObjectId,
) -> bool {
    &&& users.contains_key(id)
    &&& !users[id].projects.contains(project)
    &&& encode_utf8(query).is_prefix_of(encode_utf8(users[id].username))
}

/// The test that the users pass who can be offered for an invitation to `project` in
/// answer to `query`.
pub open spec fn offered(
    users: Map<ObjectId, UserView>,
    project: ObjectId,
    query: Seq<char>,
) -> spec_fn(ObjectId) -> bool {
    |id: ObjectId| available(users, project, query, id)
}

/// The users that are offered in answer to a search: the available ones in the order in
/// which they were filed, and the first five of them where they are more.
pub open spec fn available_ids(
    order: Seq<ObjectId>,
    users: Map<ObjectId, UserView>,
    project: ObjectId,
    query: Seq<char>,
) -> Seq<ObjectId> {
    let all = order.filter(offered(users, project, query));
    if all.len() > AVAILABLE_LIMIT {
        all.take(AVAILABLE_LIMIT as int)
    } else {
        all
    }
}

/// The identifiers of a list of users, in order.
pub open spec fn offered_ids(found: Seq<AvailableUser>) -> Seq<ObjectId> {
    Seq::new(found.len(), |i: int| found[i].id)
}

/// Whether `found` is the answer to a search for users to invite: the users that are
/// offered, in their order, each with the name on record.
pub open spec fn lists_available(
    found: Seq<AvailableUser>,
    order: Seq<ObjectId>,
    users: Map<ObjectId, UserView>,
    project: ObjectId,
    query: Seq<char>,
) -> bool {
    &&& offered_ids(found) == available_ids(order, users, project, query)
    &&& forall|k: int|
        0 <= k < found.len() ==> (#[trigger] found[k]).username@ == users[found[k].id].username
}

/// The pattern that a store of documents is asked to match names against: an anchor at
/// the start, then the query as it came.
pub fn name_pattern(username_query: &str) -> (pattern: String)
    ensures
        pattern@ == "^"@ + username_query@,
{
    let mut pattern = "^".to_owned();
    pattern.append(username_query);
    pattern
}

/// Whether `text` starts with `start`.
pub fn starts_with(text: &[u8], start: &[u8]) -> (starts: bool)
    ensures
        starts == start@.is_prefix_of(text@),
{
    if start.len() > text.len() {
        return false;
    }
    let mut i: usize = 0;
    while i < start.len()
        invariant
            i <= start.len() <= text.len(),
            forall|k: int| 0 <= k < i ==> start@[k] == text@[k],
        decreases start.len() - i,
    {
        if start[i] != text[i] {
            return false;
        }
        i = i + 1;
    }
    assert(start@ =~= text@.subrange(0, start@.len() as int));
    true
}

/// The store of user records.
pub struct UserRepository {
    users: Vec<User>,
}

impl View for UserRepository {
    type V = Map<ObjectId, UserView>;

    /// The records of the store, each under its identifier.
    closed spec fn view(&self) -> Map<ObjectId, UserView> {
        table(self.users@)
    }
}

impl UserRepository {
    /// No two records of the store share an identifier.
    pub closed spec fn inv(&self) -> bool {
        distinct(self.users@)
    }

    /// The identifiers of the records, in the order in which they were filed.
    pub closed spec fn order(&self) -> Seq<ObjectId> {
        keys(self.users@)
    }

    /// The store is in order: its records can be told apart, its table is well formed,
    /// and the identifiers in use are those that were filed.
    pub open spec fn wf(&self) -> bool {
        self.inv() && users_wf(self@) && lists_keys(self.order(), self@)
    }

    /// An empty store.
    pub fn new() -> (store: UserRepository)
        ensures
            store.wf(),
            store@ == Map::<ObjectId, UserView>::empty(),
            store.order() == Seq::<ObjectId>::empty(),
    {
        let store = UserRepository { users: Vec::new() };
        assert(store@ =~= Map::<ObjectId, UserView>::empty());
        assert(store.order() =~= Seq::<ObjectId>::empty());
        proof {
            lemma_keys(store.users@);
        }
        store
    }

    fn find(&self, id: ObjectId) -> (at: Option<usize>)
        requires
            self.wf(),
        ensures
            match at {
                Some(i) => i < self.users.len() && self.users[i as int].id == id
                    && self@.contains_key(id) && self@[id] == self.users[i as int]@,
                None => !self@.contains_key(id),
            },
    {
        let mut i: usize = 0;
        while i < self.users.len()
            invariant
                self.wf(),
                i <= self.users.len(),
                forall|k: int| 0 <= k < i ==> self.users[k].id != id,
            decreases self.users.len() - i,
        {
            if self.users[i].id == id {
                proof {
                    lemma_slot(self.users@, i as int);
                }
                return Some(i);
            }
            i = i + 1;
        }
        None
    }

    fn find_named(&self, username: &str) -> (at: Option<usize>)
        requires
            self.wf(),
        ensures
            match at {
                Some(i) => i < self.users.len() && self.users[i as int].username@ == username@
                    && self@.contains_key(self.users[i as int].id)
                    && self@[self.users[i as int].id] == self.users[i as int]@
                    && username_taken(self@, username@)
                    && user_named(self@, username@) == self.users[i as int].id,
                None => !username_taken(self@, username@),
            },
    {
        let name = username.to_owned();
        let mut i: usize = 0;
        while i < self.users.len()
            invariant
                self.wf(),
                name@ == username@,
                i <= self.users.len(),
                forall|k: int| 0 <= k < i ==> self.users[k].username@ != username@,
            decreases self.users.len() - i,
        {
            if self.users[i].username == name {
                proof {
                    lemma_slot(self.users@, i as int);
                    let id = self.users[i as int].id;
                    assert(self@.contains_key(id) && self@[id].username == username@);
                    let other = user_named(self@, username@);
                    assert(self@.contains_key(other) && self@[other].username == username@);
                }
                return Some(i);
            }
            i = i + 1;
        }
        proof {
            if username_taken(self@, username@) {
                let id = user_named(self@, username@);
                assert(self@.contains_key(id) && self@[id].username == username@);
                let k = slot(self.users@, id);
                lemma_slot(self.users@, k);
                assert(false);
            }
        }
        None
    }

    /// Files a new record. It is refused, and the store left as it was, where its
    /// identifier or its username is in use, or where it lists a project twice.
    pub fn create(&mut self, user: User) -> (created: Result<ObjectId, AppError>)
        requires
            old(self).wf(),
        ensures
            final(self).wf(),
            match user_refusal(old(self)@, user@) {
                Some(why) => created matches Err(e) && e@ == why && final(self)@ == old(self)@
                    && final(self).order() == old(self).order(),
                None => created == Ok::<ObjectId, AppError>(user.id) && final(self)@ == old(
                    self,
                )@.insert(user.id, user@) && final(self).order() == old(self).order().push(user.id),
            },
    {
        if self.find(user.id).is_some() {
            return Err(AppError::db_error("A record with this identifier exists already"));
        }
        if self.find_named(user.username.as_str()).is_some() {
            return Err(AppError::user_exist_error(user.username.as_str()));
        }
        if has_duplicates(&user.projects) || has_duplicates(&user.invitations) {
            return Err(AppError::db_error("An identifier is listed twice"));
        }
        let id = user.id;
        proof {
            assert(!held(self.users@, id));
            lemma_push(self.users@, user);
            lemma_keys_push(self.users@, user);
        }
        self.users.push(user);
        proof {
            lemma_keys(self.users@);
            let before = old(self)@;
            let after = self@;
            assert forall|a: ObjectId, b: ObjectId|
                after.contains_key(a) && after.contains_key(b) && after[a].username
                    == after[b].username implies a == b by {
                if a != b {
                    if a == id {
                        assert(before.contains_key(b) && before[b].username == user@.username);
                    } else if b == id {
                        assert(before.contains_key(a) && before[a].username == user@.username);
                    }
                }
            }
        }
        Ok(id)
    }

    /// The record of a user.
    pub fn get(&self, user_id: ObjectId) -> (found: Result<User, AppError>)
        requires
            self.wf(),
        ensures
            found is Ok <==> self@.contains_key(user_id),
            found matches Ok(user) ==> user@ == self@[user_id],
            found matches Err(e) ==> e@ == not_found(user_id),
    {
        match self.find(user_id) {
            Some(i) => Ok(self.users[i].clone()),
            None => Err(AppError::not_found_error(user_id.to_hex().as_str())),
        }
    }

    /// The record of the user who goes by `username`.
    pub fn get_by_username(&self, username: &str) -> (found: Result<User, AppError>)
        requires
            self.wf(),
        ensures
            found is Ok <==> username_taken(self@, username@),
            found matches Ok(user) ==> user@ == self@[user_named(self@, username@)],
            found matches Err(e) ==> e@ == name_not_found(username@),
    {
        match self.find_named(username) {
            Some(i) => Ok(self.users[i].clone()),
            None => Err(AppError::not_found_error(username)),
        }
    }

    /// Passes where the user is on record as a member of the project.
    pub fn in_project(&self, user_id: ObjectId, project_id: ObjectId) -> (checked: Result<(), AppError>)
        requires
            self.wf(),
        ensures
            checked is Ok <==> user_in_project(self@, user_id, project_id),
            checked matches Err(e) ==> e@ == not_in_project(user_id),
    {
        match self.find(user_id) {
            Some(i) => {
                if contains_id(&self.users[i].projects, project_id) {
                    return Ok(());
                }
            },
            None => {},
        }
        Err(AppError::not_in_project_error(user_id.to_hex().as_str()))
    }

    /// Adds a project to the memberships of a user. Where it is one already, nothing
    /// changes and the call succeeds all the same.
    pub fn add_project(&mut self, user_id: ObjectId, project_id: ObjectId) -> (added: Result<(), AppError>)
        requires
            old(self).wf(),
        ensures
            final(self).wf(),
            final(self)@ == user_add_project(old(self)@, user_id, project_id),
            final(self).order() == old(self).order(),
            added is Ok <==> old(self)@.contains_key(user_id),
            added matches Err(e) ==> e@ == not_found(user_id),
    {
        match self.find(user_id) {
            Some(i) => {
                let mut user = self.users[i].clone();
                insert_id(&mut user.projects, project_id);
                proof {
                    lemma_with_id(self.users[i as int]@.projects, project_id);
                    lemma_update(self.users@, i as int, user);
                    lemma_keys_update(self.users@, i as int, user);
                }
                self.users.set(i, user);
                proof {
                    lemma_keys(self.users@);
                }
                Ok(())
            },
            None => Err(AppError::not_found_error(user_id.to_hex().as_str())),
        }
    }

    /// Adds a project to the invitations of a user. Where it is one already, nothing
    /// changes and the call succeeds all the same.
    pub fn add_invitation(&mut self, user_id: ObjectId, project_id: ObjectId) -> (added: Result<(), AppError>)
        requires
            old(self).wf(),
        ensures
            final(self).wf(),
            final(self)@ == user_add_invitation(old(self)@, user_id, project_id),
            final(self).order() == old(self).order(),
            added is Ok <==> old(self)@.contains_key(user_id),
            added matches Err(e) ==> e@ == not_found(user_id),
    {
        match self.find(user_id) {
            Some(i) => {
                let mut user = self.users[i].clone();
                insert_id(&mut user.invitations, project_id);
                proof {
                    lemma_with_id(self.users[i as int]@.invitations, project_id);
                    lemma_update(self.users@, i as int, user);
                    lemma_keys_update(self.users@, i as int, user);
                }
                self.users.set(i, user);
                proof {
                    lemma_keys(self.users@);
                }
                Ok(())
            },
            None => Err(AppError::not_found_error(user_id.to_hex().as_str())),
        }
    }

    /// Takes a project off the invitations of a user. Where it is not one, nothing changes
    /// and the call succeeds all the same.
    pub fn remove_invitation(&mut self, user_id: ObjectId, project_id: ObjectId) -> (removed: Result<(), AppError>)
        requires
            old(self).wf(),
        ensures
            final(self).wf(),
            final(self)@ == user_remove_invitation(old(self)@, user_id, project_id),
            final(self).order() == old(self).order(),
            removed is Ok <==> old(self)@.contains_key(user_id),
            removed matches Err(e) ==> e@ == not_found(user_id),
    {
        match self.find(user_id) {
            Some(i) => {
                let mut user = self.users[i].clone();
                remove_id(&mut user.invitations, project_id);
                proof {
                    lemma_without_id(self.users[i as int]@.invitations, project_id);
                    lemma_update(self.users@, i as int, user);
                    lemma_keys_update(self.users@, i as int, user);
                }
                self.users.set(i, user);
                proof {
                    lemma_keys(self.users@);
                }
                Ok(())
            },
            None => Err(AppError::not_found_error(user_id.to_hex().as_str())),
        }
    }

    /// The users that can be invited to a project and whose names start with
    /// `username_query`: the first five of them at most, in the order in which they were
    /// filed.
    pub fn get_available_users(&self, project_id: ObjectId, username_query: &str) -> (found: Vec<
        AvailableUser,
    >)
        requires
            self.wf(),
        ensures
            lists_available(found@, self.order(), self@, project_id, username_query@),
    {
        let query = username_query.as_bytes();
        let ghost test = offered(self@, project_id, username_query@);
        let ghost order = self.order();
        let mut found: Vec<AvailableUser> = Vec::new();
        let mut i: usize = 0;
        assert(order.take(0).filter(test) =~= Seq::<ObjectId>::empty());
        while i < self.users.len() && found.len() < AVAILABLE_LIMIT
            invariant
                self.wf(),
                query@ == encode_utf8(username_query@),
                test == offered(self@, project_id, username_query@),
                order == self.order(),
                i <= self.users.len(),
                found.len() <= AVAILABLE_LIMIT,
                offered_ids(found@) == order.take(i as int).filter(test),
                forall|k: int|
                    0 <= k < found.len() ==> (#[trigger] found[k]).username@
                        == self@[found[k].id].username,
            decreases self.users.len() - i,
        {
            let user = &self.users[i];
            let ghost before = offered_ids(found@);
            proof {
                lemma_slot(self.users@, i as int);
                assert(order[i as int] == user.id);
                assert(order.take(i + 1) =~= order.take(i as int).push(user.id));
                Seq::lemma_filter_push(order.take(i as int), user.id, test);
            }
            if !contains_id(&user.projects, project_id) && starts_with(
                user.username.as_str().as_bytes(),
                query,
            ) {
                found.push(AvailableUser { id: user.id, username: user.username.clone() });
                assert(offered_ids(found@) =~= before.push(user.id));
            } else {
                assert(offered_ids(found@) =~= before);
            }
            i = i + 1;
        }
        proof {
            let all = order.filter(test);
            let seen = order.take(i as int);
            let rest = order.skip(i as int);
            assert(order =~= seen + rest);
            Seq::filter_distributes_over_add(seen, rest, test);
            if i == self.users.len() {
                assert(rest.len() == 0);
                assert(rest.filter(test) =~= Seq::<ObjectId>::empty());
                assert(all =~= seen.filter(test));
            } else {
                assert(all.take(AVAILABLE_LIMIT as int) =~= seen.filter(test));
                if all.len() <= AVAILABLE_LIMIT {
                    assert(all =~= seen.filter(test));
                }
            }
        }
        found
    }
}

} // verus!
