//! What the backend's commands decide: the port list entries and the bytes a
//! send request stands for.

use crate::backend::encoding::{encode, encode_spec};
use crate::serial::encoding::{gbk_size_ok, hex_input_cuts_character};
use crate::state::Encoding;
use vstd::prelude::*;
use vstd::utf8::encode_utf8;

verus! {

/// A port as listed to the front-end: its name and the debug form of its type.
#[derive(Debug, Clone)]
pub struct PortInfo {
    pub port_name: String,
    pub port_type: String,
}

/// A send request: text and the encoding to send it in.
#[derive(Debug, Clone)]
pub struct SendRequest {
    pub content: String,
    pub encoding: Encoding,
}

/// The bytes a send request stands for, or why it has none.
pub fn send_data_bytes(request: &SendRequest) -> (r: Result<Vec<u8>, String>)
    requires
        request.encoding == Encoding::Hex ==> !hex_input_cuts_character(request.content@),
        request.encoding == Encoding::Gbk ==> gbk_size_ok(encode_utf8(request.content@).len()),
    ensures
        r matches Ok(b) ==> encode_spec(request.content@, request.encoding) == Ok::<
            Seq<u8>,
            Seq<char>,
        >(b@),
        r matches Err(m) ==> encode_spec(request.content@, request.encoding) == Err::<
            Seq<u8>,
            Seq<char>,
        >(m@),
{
    encode(request.content.as_str(), &request.encoding)
}

} // verus!
