//! Projects with members, invitations and avatars: the rules that keep user records and
//! project records in agreement, and the pipeline that takes in an avatar image.

pub mod auth;
pub mod avatars;
pub mod cloud;
pub mod config;
pub mod coordinator;
pub mod errors;
pub mod failures;
pub mod handlers;
pub mod idlist;
pub mod ingest;
pub mod laws;
pub mod models;
pub mod oid;
pub mod outcomes;
pub mod payload;
pub mod repositories;
pub mod state;
pub mod text;
pub mod utils;
