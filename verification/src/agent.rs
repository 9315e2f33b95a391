//! The agent layer: what the application next door talks to.

pub mod default;
