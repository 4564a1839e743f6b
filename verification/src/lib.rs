//! Account-pool scheduling and quota-aware request routing for a proxy that
//! serves a generative-AI API from a pool of OAuth-authenticated accounts.
//!
//! The functions of this crate carry contracts that Verus proves. The
//! exceptions are five small wrappers around calls into other crates, in
//! `oauth` and `store`: their contracts are taken on trust, and each says
//! above its header which call it makes and what is claimed of it.

pub mod affinity;
pub mod api;
pub mod error;
pub mod models;
pub mod oauth;
pub mod pool;
pub mod quota;
pub mod router;
pub mod scheduler;
pub mod settings;
pub mod store;
pub mod text;
pub mod token;
