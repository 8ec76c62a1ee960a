//! What stands before the requests that need a session.

pub mod auth;
