//! A verified core for a small HTTP-style CRUD service over a single `users`
//! table: the request parser, the router, the validation and persistence
//! layers, and the JSON codec for the wire shape of a user.

pub mod config;
pub mod controller;
pub mod json;
pub mod laws;
pub mod parse;
pub mod repository;
pub mod service;
pub mod user;

pub use user::User;
