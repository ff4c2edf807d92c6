//! The web front-end's services: its store and the arguments of its calls
//! to the desktop backend.

pub mod api;
pub mod store;
