//! An in-process virtual web server: a byte-level host bridge, a path router
//! with handler dispatch, and the in-memory state of a small interactive list
//! with counters. Markup is left to the caller, who renders the replies that
//! the handlers describe.

pub mod text;
pub mod filter;
pub mod store;
pub mod router;
pub mod request;
pub mod form;
pub mod reply;
pub mod handlers;
pub mod site;
pub mod bridge;
