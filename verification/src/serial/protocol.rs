//! Events that the receive path reports to the application.

use crate::state::Encoding;
use vstd::prelude::*;

verus! {

/// One chunk read from the port.
#[derive(Debug, Clone)]
pub struct ReceivedData {
    pub timestamp: String,
    pub raw_bytes: Vec<u8>,
    pub encoding: Encoding,
}

/// What the receive path reports.
#[derive(Debug, Clone)]
pub enum SerialEvent {
    Data(ReceivedData),
    Error(String),
    Disconnected,
}

} // verus!
