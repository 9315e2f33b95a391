//! What the two servers share: requests as they read them, responses as they
//! give them.

pub mod responses;
