//! Strips tracking parameters from URLs and canonicalizes YouTube links.

pub mod text;
pub mod settings;
pub mod link;
pub mod rules;
pub mod laws;
