//! Verified core of a webhook receiving server: GitHub signature checks,
//! bearer-token authorization, a bounded cache of recent events, the
//! registry of WebSocket subscribers and the server's configuration.
use vstd::prelude::*;

pub mod auth;
pub mod cache;
pub mod config;
pub mod github;
pub mod headers;
pub mod metrics;
pub mod session;
pub mod sessions;
pub mod signature;

verus! {

} // verus!
