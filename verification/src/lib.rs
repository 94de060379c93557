//! A link shortener behind single sign-on: the rules by which short names are
//! validated, authorised and registered, the records they are kept in, and the
//! decisions of the login handshake.

pub mod admin;
pub mod api;
pub mod auth;
pub mod config;
pub mod database;
pub mod guarantees;
pub mod http;
pub mod routes;
pub mod text;
pub mod utils;
pub mod validation;
