//! Resolution of a game-server version manifest into download targets, with
//! platform-rule evaluation, version queries and batch completion accounting.
//! Network and disk work live outside this library; everything here is pure.

pub mod api;
pub mod download;
pub mod install;
pub mod parser;
