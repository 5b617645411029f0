//! The two record stores, held in memory: one of users, one of projects. Each mutation is
//! a set operation on one record, so that applying it again changes nothing.

pub mod projects;
pub mod table;
pub mod users;
