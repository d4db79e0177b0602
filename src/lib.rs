//! Forward-authentication core: session tokens and their storage, password
//! checking, and the dispatch of the Basic, Bearer and session methods.

pub mod token;
pub mod datastore;
pub mod config;
pub mod passwords;
pub mod sessions;
pub mod text;
pub mod auth;
pub mod headers;
pub mod login;
