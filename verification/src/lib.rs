//! User-record persistence for a multi-tenant application: the `User` record,
//! the rules of the `user` table (unique names, immutable ids, sorted
//! listings) and the statements that carry them to a relational store.

pub mod ident;
pub mod laws;
pub mod model;
pub mod outcome;
pub mod statement;
pub mod text;
pub mod user;
pub mod user_core;
