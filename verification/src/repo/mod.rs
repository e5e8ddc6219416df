//! The repository side of workspace navigation: what `jj` reports, where
//! workspaces live, and what the tool records about them.

pub mod jj;
pub mod paths;
pub mod metadata;
pub mod config;
pub mod state;
pub mod workspace;
pub mod doctor;
pub mod discovery;
