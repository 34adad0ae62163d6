//! An in-memory collection of named records ("Pokemon") with the five
//! operations of a CRUD service: create, list, get-by-id, update, delete.
//! The collection and its operations are verified; an HTTP front end can sit
//! on top of them without adding logic of its own.

pub mod models;
pub mod store;
pub mod laws;
