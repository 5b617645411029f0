//! Requests about the bearer.

use vstd::prelude::*;
use crate::errors::AppError;
use crate::failures::not_found;
use crate::models::User;
use crate::state::AppState;
use crate::utils::Claims;

verus! {

/// The record of the bearer.
pub fn me(app: &AppState, claims: &Claims) -> (found: Result<User, AppError>)
    requires
        app.wf(),
    ensures
        found is Ok <==> app@.users.contains_key(claims.id),
        found matches Ok(user) ==> user@ == app@.users[claims.id],
        found matches Err(e) ==> e@ == not_found(claims.id),
{
    app.users.get(claims.id)
}

} // verus!
