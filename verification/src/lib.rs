//! Identity and access management: credential hashing, session issuance and
//! invalidation, declarative input validation, and a structured error
//! taxonomy with a stable JSON error envelope.

pub mod chars;
pub mod config;
pub mod errors;
pub mod hasher;
pub mod identity;
pub mod logging;
pub mod models;
pub mod repository;
pub mod responder;
pub mod strutil;
pub mod types;
pub mod utils;
pub mod validation;

use vstd::prelude::*;

verus! {

/// Number of seconds a freshly issued access session stays valid by default.
pub const ACCESS_TOKEN_DURATION: i64 = 3600;

} // verus!
