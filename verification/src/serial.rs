//! Serial payload encodings, port settings and the events of the receive path.

pub mod encoding;
pub mod manager;
pub mod protocol;
