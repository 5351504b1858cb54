//! Stateless session authentication core.
//!
//! The crate turns a federated identity proof (a provider-signed bearer
//! token) into a first-party session credential carried by a cookie:
//! a cache of the provider's rotating signing keys, a bearer-token
//! verifier, a session-token codec, and a cookie builder, together with
//! the request-side resolvers that route handlers consume.

pub mod auth_controller;
pub mod b64;
pub mod bytes;
pub mod checklists;
pub mod checklists_controller;
pub mod claims;
pub mod config;
pub mod cookie;
pub mod cors;
pub mod json_obj;
pub mod jwk;
pub mod jwt;
pub mod marble_game;
pub mod marble_game_controller;
pub mod error;
pub mod google_verification;
pub mod helpers;
pub mod json;
pub mod models;
pub mod user_guard;
pub mod users_controller;
pub mod v1;
