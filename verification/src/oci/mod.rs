//! Profiles on disk, regions, request signing and the client's decisions.

pub mod client;
pub mod config_parser;
pub mod paths;
pub mod regions;
pub mod round_trip;
pub mod signature;
pub mod whole_file;
