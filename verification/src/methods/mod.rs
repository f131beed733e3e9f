//! Plain answers to requests of each method.

pub mod get;
