//! A verified core for key-based accounts and document sharing: signed
//! registration messages, canonical identities, the sharing-list text format
//! and the ownership rules that guard every grant.

pub mod identity;
pub mod sharing;
pub mod error;
pub mod signature;
pub mod registry;
pub mod documents;
