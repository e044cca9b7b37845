//! A single-upstream HTTP forwarding proxy: the decisions of the request
//! handler, stated over plain values and proved.
pub mod config;
pub mod cors;
pub mod handler;
pub mod header;
pub mod target;
