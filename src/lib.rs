//! An in-memory store of users and their per-user task lists.
//!
//! The store keeps users, each with a salted one-way password hash, and one
//! ordered task list per user. Every operation is a single in-memory change,
//! stated over the mathematical model in [`model`].
pub mod laws;
pub mod model;
pub mod password;
pub mod report;
pub mod store;
