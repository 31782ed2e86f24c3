//! Automatic login to captive wireless portals: the text extraction, the
//! per-vendor authentication step machine, the retry policy of the transport,
//! the portal registry and the supervision loop's decisions.

pub mod config;
pub mod http;
pub mod models;
pub mod network;
pub mod parser;
pub mod payload;
pub mod portal;
pub mod supervisor;
pub mod text;
pub mod url;
