//! A multi-account credential store for GitHub Copilot identities.
//!
//! The crate keeps an index of account summaries plus one detail record per
//! account, resolves account identity case-insensitively from the username,
//! drives the classification step of GitHub's OAuth device authorization
//! grant, and normalizes the provider's usage payload into a quota snapshot.
//! All persistence and HTTP transport stays with the caller, who hands the
//! library plain values.
use vstd::prelude::*;

pub mod errors;
pub mod ident;
pub mod json;
pub mod laws;
pub mod models;
pub mod oauth;
pub mod quota;
pub mod store;

verus! {

} // verus!
