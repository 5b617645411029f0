//! What the service does for each request, on the state it is handed. The transport is
//! not its business: a request comes as plain values, with the claims of the bearer that
//! the gateway has verified, and the answer goes back as a plain value.

pub mod auth;
pub mod avatars;
pub mod projects;
pub mod users;
