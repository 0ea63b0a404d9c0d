//! Configuration interpretation and code-shape planning for a server that
//! embeds a single-page application's assets and registers grouped endpoint
//! handlers.

pub mod attr;
pub mod lit;
pub mod config;
pub mod assets;
pub mod embed;
pub mod plan;
pub mod handler;
pub mod release;
