//! A bookmark start page: named profiles of bookmarks behind an optional
//! cookie session.
//!
//! The crate holds the state of the program and every decision that the
//! request handlers make, each with a contract over a plain model of the
//! state: the profiles as a sequence, the sessions as a map from token to
//! session. Reading requests, writing files and talking to other hosts is
//! left to the program around it, which holds the state behind one lock and
//! saves it after each change.
//!
//! - [`state`] holds the state, and finds profiles in it.
//! - [`api`] is what each request does to the profiles, and logging in
//!   and out.
//! - [`session`] keeps the login sessions, with their sliding expiry.
//! - [`middleware`] decides whether a request may pass.
//! - [`images`] checks uploaded images and records them.
//! - [`favicon`] searches the icons of a site, one request at a time.
//! - [`laws`] states what holds of all this whatever the requests are.
//!
//! The clock, the random identifiers and the parsers of other crates are
//! reached through a few functions whose contracts are taken on trust; each
//! of them says so.

pub mod api;
pub mod bookmark;
pub mod clock;
pub mod config;
pub mod cookie;
pub mod error;
pub mod favicon;
pub mod ident;
pub mod images;
pub mod laws;
pub mod middleware;
pub mod session;
pub mod state;
pub mod text;
