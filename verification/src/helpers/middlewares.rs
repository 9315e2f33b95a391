//! Steps that every response of a server goes through.

pub mod json;
