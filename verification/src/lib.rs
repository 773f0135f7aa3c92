//! Request signing and profile storage for Oracle Cloud Infrastructure.
//!
//! The crate parses and renders the section-based credential file, resolves
//! key file paths, builds the canonical signing string of a request, signs it
//! with RSA-SHA256 and classifies the service's answers. Every function runs
//! on plain values: reading files and sending requests is left to the caller.

pub mod text;
pub mod models;
pub mod oci;
pub mod commands;
