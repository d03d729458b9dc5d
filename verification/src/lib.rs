//! Verified core of a small user/session/item API service.
//!
//! The subsystem modelled and proved here is authentication and
//! authorization: password hashing and verification, the session store,
//! bearer-token resolution, and the per-operation authorization policy
//! that every resolver applies before touching data.

pub mod errors;
pub mod external;
pub mod graphql;
pub mod models;
pub mod store;
