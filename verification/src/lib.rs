//! A verified core for a campaign-site publisher.
//!
//! The library models the publish-or-skip workflow of a small static-site
//! pipeline: scrape the newest campaign from a remote archive, compare its
//! link against a stored marker, and either skip (nothing new) or rebuild
//! and republish the site, committing the marker only at the very end.

pub mod config;
pub mod content;
pub mod invalidation;
pub mod laws;
pub mod orchestrator;
pub mod scrape;
