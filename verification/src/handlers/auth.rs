//! Registration and login.

use vstd::prelude::*;
use crate::auth::{bcrypt_verify, check_password, form_failure, form_fault, hash_password};
use crate::auth::{password_fault, validate_form, verdict_fault, verify_password};
use crate::cloud::{application_bucket, application_region, no_bucket_cause, object_url};
use crate::cloud::{s3_failure, CloudClient, ObjectStore, ObjectStoreView, StoredObjectView};
use crate::errors::{AppError, AppErrorView};
use crate::failures::{duplicate_key, name_not_found, user_exists};
use crate::models::{User, UserView};
use crate::oid::{hex_text, ObjectId};
use crate::repositories::users::user_named;
use crate::repositories::users::username_taken;
use crate::state::{AppState, StateView};
use crate::utils::Claims;

verus! {

/// A registration as asked for.
#[derive(Debug)]
pub struct RegisterPayload {
    pub username: String,
    pub password: String,
}

/// A login as asked for.
#[derive(Debug)]
pub struct LoginPayload {
    pub username: String,
    pub password: String,
}

impl RegisterPayload {
    /// Checks the form: the username and the password have six characters each at least.
    pub fn validate(&self) -> (checked: Result<(), AppError>)
        ensures
            match form_fault(self.username@, self.password@) {
                Some(why) => checked matches Err(e) && e@ == form_failure(why),
                None => checked is Ok,
            },
    {
        validate_form(self.username.as_str(), self.password.as_str())
    }
}

impl LoginPayload {
    /// Checks the form: the username and the password have six characters each at least.
    pub fn validate(&self) -> (checked: Result<(), AppError>)
        ensures
            match form_fault(self.username@, self.password@) {
                Some(why) => checked matches Err(e) && e@ == form_failure(why),
                None => checked is Ok,
            },
    {
        validate_form(self.username.as_str(), self.password.as_str())
    }
}

/// Why a login fails, if it does: the form is not acceptable, nobody goes by the name,
/// the hash on record cannot be read, or the password does not match it.
pub open spec fn login_fault(s: StateView, username: Seq<char>, password: Seq<char>) -> Option<
    AppErrorView,
> {
    match form_fault(username, password) {
        Some(why) => Some(form_failure(why)),
        None => if !username_taken(s.users, username) {
            Some(name_not_found(username))
        } else {
            password_fault(
                bcrypt_verify(password, s.users[user_named(s.users, username)].password),
                username,
            )
        },
    }
}

/// Logs a user in and hands back the claims of the token to issue.
pub fn login(app: &AppState, user: &LoginPayload) -> (logged: Result<Claims, AppError>)
    requires
        app.wf(),
    ensures
        match login_fault(app@, user.username@, user.password@) {
            Some(why) => logged matches Err(e) && e@ == why,
            None => logged matches Ok(claims) && claims.id == user_named(
                app@.users,
                user.username@,
            ) && claims.sub@ == hex_text(claims.id.bytes@),
        },
{
    match user.validate() {
        Ok(()) => {},
        Err(e) => {
            return Err(e);
        },
    }
    let record = match app.users.get_by_username(user.username.as_str()) {
        Ok(record) => record,
        Err(e) => {
            return Err(e);
        },
    };
    proof {
        let id = user_named(app@.users, user.username@);
        assert(app@.users.contains_key(id) && app@.users[id].username == user.username@);
        assert(app@.users[id].id == id);
    }
    match check_password(
        user.password.as_str(),
        record.password.as_str(),
        user.username.as_str(),
    ) {
        Ok(()) => Ok(Claims::issue(record.id)),
        Err(e) => Err(e),
    }
}

/// Why no claims are handed out for a name and a password, if none are: nobody goes by
/// the name, the hash on record cannot be read, or the password does not match it.
pub open spec fn credentials_fault(s: StateView, username: Seq<char>, password: Seq<char>) -> Option<
    AppErrorView,
> {
    if !username_taken(s.users, username) {
        Some(name_not_found(username))
    } else {
        verdict_fault(bcrypt_verify(password, s.users[user_named(s.users, username)].password))
    }
}

/// Hands back the claims of the token to issue for a name and a password, without
/// looking at the form.
pub fn get_crendentials(app: &AppState, user: &LoginPayload) -> (logged: Result<Claims, AppError>)
    requires
        app.wf(),
    ensures
        match credentials_fault(app@, user.username@, user.password@) {
            Some(why) => logged matches Err(e) && e@ == why,
            None => logged matches Ok(claims) && claims.id == user_named(
                app@.users,
                user.username@,
            ) && claims.sub@ == hex_text(claims.id.bytes@),
        },
{
    let record = match app.users.get_by_username(user.username.as_str()) {
        Ok(record) => record,
        Err(e) => {
            return Err(e);
        },
    };
    proof {
        let id = user_named(app@.users, user.username@);
        assert(app@.users.contains_key(id) && app@.users[id].username == user.username@);
        assert(app@.users[id].id == id);
    }
    match verify_password(user.password.as_str(), record.password.as_str()) {
        Ok(()) => Ok(Claims::issue(record.id)),
        Err(e) => Err(e),
    }
}

/// The record of a user as it is made at registration: no membership, no invitation, and
/// the picture in the bucket of the application under the user's identifier.
pub open spec fn fresh_user(id: ObjectId, username: Seq<char>, password: Seq<char>) -> UserView {
    UserView {
        id,
        username,
        password,
        avatar: object_url(application_bucket(), application_region(), hex_text(id.bytes@)),
        projects: Seq::<ObjectId>::empty(),
        invitations: Seq::<ObjectId>::empty(),
    }
}

/// Why a registration fails before anything is written, if it does: the form is not
/// acceptable, the name is taken, the password could not be hashed, or the bucket of the
/// application is not there.
pub open spec fn register_refusal(
    s: StateView,
    store: ObjectStoreView,
    username: Seq<char>,
    password: Seq<char>,
    hashed: Result<Seq<char>, AppErrorView>,
) -> Option<AppErrorView> {
    match form_fault(username, password) {
        Some(why) => Some(form_failure(why)),
        None => if username_taken(s.users, username) {
            Some(user_exists(username))
        } else {
            match hashed {
                Err(e) => Some(e),
                Ok(_) => if !store.has_bucket(application_bucket()) {
                    Some(s3_failure(no_bucket_cause()))
                } else {
                    None
                },
            }
        },
    }
}

/// The value of a hash that may have failed.
pub open spec fn hashed_value(hashed: Result<String, AppError>) -> Result<Seq<char>, AppErrorView> {
    match hashed {
        Ok(hash) => Ok(hash@),
        Err(e) => Err(e@),
    }
}

/// Registers a user under the identifier and with the hash given. The picture is put
/// into the bucket of the application first and the record is filed after; where the
/// identifier is in use the picture stays and the record is refused.
pub fn register_as(
    app: &mut AppState,
    store: &mut ObjectStore,
    user: &RegisterPayload,
    picture: Vec<u8>,
    user_id: ObjectId,
    hashed: Result<String, AppError>,
) -> (registered: Result<Claims, AppError>)
    requires
        old(app).wf(),
    ensures
        final(app).wf(),
        final(app).projects.order() == old(app).projects.order(),
        final(app).users.order() == if registered is Ok {
            old(app).users.order().push(user_id)
        } else {
            old(app).users.order()
        },
        final(app)@.projects == old(app)@.projects,
        final(store)@.buckets == old(store)@.buckets,
        match register_refusal(
            old(app)@,
            old(store)@,
            user.username@,
            user.password@,
            hashed_value(hashed),
        ) {
            Some(why) => registered matches Err(e) && e@ == why && final(app)@ == old(app)@
                && final(store)@ == old(store)@,
            None => final(store)@.objects == old(store)@.objects.push(
                StoredObjectView {
                    bucket: application_bucket(),
                    key: hex_text(user_id.bytes@),
                    body: picture@,
                },
            ) && if old(app)@.users.contains_key(user_id) {
                registered matches Err(e) && e@ == duplicate_key() && final(app)@ == old(app)@
            } else {
                registered matches Ok(claims) && claims.id == user_id && claims.sub@ == hex_text(
                    user_id.bytes@,
                ) && final(app)@.users == old(app)@.users.insert(
                    user_id,
                    fresh_user(user_id, user.username@, hashed->Ok_0@),
                )
            },
        },
{
    match user.validate() {
        Ok(()) => {},
        Err(e) => {
            return Err(e);
        },
    }
    match app.users.get_by_username(user.username.as_str()) {
        Ok(_) => {
            return Err(AppError::user_exist_error(user.username.as_str()));
        },
        Err(_) => {},
    }
    let password = match hashed {
        Ok(hash) => hash,
        Err(e) => {
            return Err(e);
        },
    };
    let client = match CloudClient::new_application_client() {
        Ok(client) => client,
        Err(e) => {
            return Err(e);
        },
    };
    let avatar = match client.put_object(store, picture, user_id.to_hex().as_str()) {
        Ok(address) => address,
        Err(e) => {
            return Err(e);
        },
    };
    let record = User {
        id: user_id,
        username: user.username.clone(),
        password,
        avatar,
        projects: Vec::new(),
        invitations: Vec::new(),
    };
    match app.users.create(record) {
        Ok(_) => Ok(Claims::issue(user_id)),
        Err(e) => Err(e),
    }
}

/// Registers a user: checks the form and the name, hashes the password, stores the
/// picture drawn for the user, files the record under a fresh identifier, and hands back
/// the claims of the token to issue.
pub fn register(
    app: &mut AppState,
    store: &mut ObjectStore,
    user: &RegisterPayload,
    picture: Vec<u8>,
) -> (registered: Result<Claims, AppError>)
    requires
        old(app).wf(),
    ensures
        final(app).wf(),
        final(app).projects.order() == old(app).projects.order(),
        final(app)@.projects == old(app)@.projects,
        final(store)@.buckets == old(store)@.buckets,
        form_fault(user.username@, user.password@) matches Some(why) ==> (registered matches Err(e)
            && e@ == form_failure(why)),
        form_fault(user.username@, user.password@) is None && username_taken(
            old(app)@.users,
            user.username@,
        ) ==> (registered matches Err(e) && e@ == user_exists(user.username@)),
        registered matches Ok(claims) ==> {
            &&& !old(app)@.users.contains_key(claims.id)
            &&& final(app).users.order() == old(app).users.order().push(claims.id)
            &&& claims.sub@ == hex_text(claims.id.bytes@)
            &&& final(app)@.users == old(app)@.users.insert(
                claims.id,
                fresh_user(claims.id, user.username@, final(app)@.users[claims.id].password),
            )
            &&& final(store)@.objects == old(store)@.objects.push(
                StoredObjectView {
                    bucket: application_bucket(),
                    key: hex_text(claims.id.bytes@),
                    body: picture@,
                },
            )
        },
        registered is Err ==> final(app)@ == old(app)@ && final(app).users.order() == old(
            app,
        ).users.order(),
{
    match user.validate() {
        Ok(()) => {},
        Err(e) => {
            return Err(e);
        },
    }
    let user_id = ObjectId::new();
    let hashed = hash_password(user.password.as_str());
    register_as(app, store, user, picture, user_id, hashed)
}

} // verus!
