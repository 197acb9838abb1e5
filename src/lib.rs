//! A small HTTP dispatch core: a method-and-path router, the decisions of
//! the middleware layers that wrap it, and an in-memory car store served
//! through it.
pub mod path;
pub mod context;
pub mod router;
pub mod text;
pub mod error;
pub mod store;
pub mod response;
pub mod poll;
pub mod timeout;
pub mod auth;
pub mod error_handling;
pub mod map_response;
pub mod log;
pub mod parse;
pub mod ctl;
pub mod service;
pub mod plain;
pub mod handler;
