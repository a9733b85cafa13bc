//! Verified core of the Box photo-location sidecar.

pub mod charclass;
pub mod json;
pub mod text;
pub mod coordinate;
pub mod metadata;
pub mod config;
pub mod box_api;
pub mod chat;
pub mod representation;
pub mod photos;
pub mod scan;
pub mod mcp;
pub mod auth;
pub mod server;
pub mod geotag;
pub mod desktop;
pub mod jobs;
