//! Control plane of a self-hosted code-hosting and deployment platform.
//!
//! - `naming`: canonical repository names, project-name validation, URLs and
//!   the namespace check on requested repository paths.
//! - `credentials`: reading `Authorization` values (bearer and basic).
//! - `password`: the salted password hash.
//! - `accounts`: the credential store: signup, email verification, sessions.
//! - `catalog`: published project versions and substring search.
//! - `provision`: the repository provisioning steps, their actions and the
//!   rendered `hooks/update` script.
//! - `deploy`: the CI deploy request and its answer.
//! - `service`: the request-level decisions that tie these together.
//! - `json`: framing of response bodies.
use vstd::prelude::*;

pub mod accounts;
pub mod catalog;
pub mod credentials;
pub mod deploy;
pub mod json;
pub mod naming;
pub mod password;
pub mod provision;
pub mod service;
pub mod text;

verus! {

} // verus!
