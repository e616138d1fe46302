//! Session data, tokens and timeouts, and the session-lookup table that the
//! host shares with its plugins across the boundary.

pub mod checked_user;
pub mod data;
pub mod session_store;
pub mod sessions;
pub mod timeout;
