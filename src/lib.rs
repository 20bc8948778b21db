//! A small request-processing core: an HTTP/1.1 subset parser, a router, a
//! session store, login rules, row mapping for the stored entities and the
//! response writer, each stated and proved over plain values.

pub mod auth;
pub mod date;
pub mod entity;
pub mod request;
pub mod response;
pub mod row;
pub mod server;
pub mod session;
pub mod text;
