//! Small utilities shared by the layers.

pub mod http;
pub mod middlewares;
pub mod text;
pub mod utils;
