//! The desktop backend of the web front-end: its own encoder, exporter and
//! port handling, which differ from the native application's in their
//! messages and in what they accept.

pub mod commands;
pub mod encoding;
pub mod exporter;
pub mod manager;
