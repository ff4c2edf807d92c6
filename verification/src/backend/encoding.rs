//! Text to wire bytes and back as the backend does it: ASCII is not checked
//! on the way out and bytes are read as Latin-1 on the way in, and errors
//! carry the standard library's own messages.

use crate::serial::encoding::{
    bytes_as_chars, chars_from_bytes, format_hex, gbk_decode, gbk_decoding, gbk_encode,
    gbk_encode_message, gbk_encoding, gbk_size_ok, hex_input_cuts_character, hex_scan,
    odd_hex_message, scan_hex, utf8_error_text, utf8_len, utf8_string, format_hex_spec,
    HexScan,
};
use crate::state::Encoding;
use crate::text::without_whitespace;
use vstd::prelude::*;
use vstd::string::{StrSliceExecFns, StringExecFns, StringSliceAdditionalSpecFns};
use vstd::utf8::{decode_utf8, encode_utf8, valid_utf8};

verus! {

broadcast use vstd::string::group_string_axioms;

/// The message of the error `u8::from_str_radix(slice, 16)` gives; empty when
/// the slice parses.
pub uninterp spec fn parse_int_error_text(slice: Seq<char>) -> Seq<char>;

/// `u8::from_str_radix(slice, 16)`: the error's message, or nothing when it
/// parses. The message is only named.
#[verifier::external_body]
fn hex_parse_error(slice: &str) -> (m: String)
    ensures
        m@ == parse_int_error_text(slice@),
{
    match u8::from_str_radix(slice, 16) {
        Ok(_) => String::new(),
        Err(e) => e.to_string(),
    }
}

/// HEX text to bytes as the backend reads it: like the native parser, but a
/// slice that is not hex is reported with the standard library's message.
pub open spec fn parse_hex_spec(s: Seq<char>) -> Result<Seq<u8>, Seq<char>> {
    let cleaned = without_whitespace(s);
    if utf8_len(cleaned) % 2 != 0 {
        Err(odd_hex_message())
    } else {
        match hex_scan(cleaned) {
            HexScan::Bytes(b) => Ok(b),
            HexScan::Invalid(slice) => Err("无效的 HEX 字符: "@ + parse_int_error_text(slice)),
            HexScan::CutsCharacter => Err(Seq::empty()),
        }
    }
}

pub fn parse_hex(input: &str) -> (r: Result<Vec<u8>, String>)
    requires
        !hex_input_cuts_character(input@),
    ensures
        r matches Ok(b) ==> parse_hex_spec(input@) == Ok::<Seq<u8>, Seq<char>>(b@),
        r matches Err(m) ==> parse_hex_spec(input@) == Err::<Seq<u8>, Seq<char>>(m@),
{
    match scan_hex(input) {
        Ok(bytes) => Ok(bytes),
        Err(None) => Err(String::from_str("HEX 字符串长度必须为偶数")),
        Err(Some(slice)) => {
            let mut m = String::from_str("无效的 HEX 字符: ");
            let reason = hex_parse_error(slice.as_str());
            m.append(reason.as_str());
            Err(m)
        },
    }
}

/// What the backend's `encode` returns.
pub open spec fn encode_spec(input: Seq<char>, encoding: Encoding) -> Result<Seq<u8>, Seq<char>> {
    match encoding {
        Encoding::Ascii => Ok(encode_utf8(input)),
        Encoding::Utf8 => Ok(encode_utf8(input)),
        Encoding::Hex => parse_hex_spec(input),
        Encoding::Gbk => if gbk_encoding(input).1 {
            Err(gbk_encode_message())
        } else {
            Ok(gbk_encoding(input).0)
        },
    }
}

/// Text to wire bytes; ASCII text is sent as its UTF-8 bytes unchecked.
pub fn encode(input: &str, encoding: &Encoding) -> (r: Result<Vec<u8>, String>)
    requires
        *encoding == Encoding::Hex ==> !hex_input_cuts_character(input@),
        *encoding == Encoding::Gbk ==> gbk_size_ok(encode_utf8(input@).len()),
    ensures
        r matches Ok(b) ==> encode_spec(input@, *encoding) == Ok::<Seq<u8>, Seq<char>>(b@),
        r matches Err(m) ==> encode_spec(input@, *encoding) == Err::<Seq<u8>, Seq<char>>(m@),
{
    match encoding {
        Encoding::Ascii => Ok(input.as_bytes_vec()),
        Encoding::Utf8 => Ok(input.as_bytes_vec()),
        Encoding::Hex => parse_hex(input),
        Encoding::Gbk => {
            let (bytes, had_errors) = gbk_encode(input);
            if had_errors {
                Err(String::from_str("GBK 编码失败：包含不支持的字符"))
            } else {
                Ok(bytes)
            }
        },
    }
}

/// What the backend's `decode` returns.
pub open spec fn decode_spec(data: Seq<u8>, encoding: Encoding) -> Result<Seq<char>, Seq<char>> {
    match encoding {
        Encoding::Ascii => Ok(bytes_as_chars(data)),
        Encoding::Utf8 => if valid_utf8(data) {
            Ok(decode_utf8(data))
        } else {
            Err(utf8_error_text(data))
        },
        Encoding::Hex => Ok(format_hex_spec(data)),
        Encoding::Gbk => if gbk_decoding(data).1 {
            Err("GBK 解码失败：无效的字节序列"@)
        } else {
            Ok(gbk_decoding(data).0)
        },
    }
}

/// Wire bytes to text; every byte is a character in ASCII (Latin-1) mode.
pub fn decode(data: &[u8], encoding: &Encoding) -> (r: Result<String, String>)
    requires
        *encoding == Encoding::Gbk ==> gbk_size_ok(data@.len()),
    ensures
        r matches Ok(s) ==> decode_spec(data@, *encoding) == Ok::<Seq<char>, Seq<char>>(s@),
        r matches Err(m) ==> decode_spec(data@, *encoding) == Err::<Seq<char>, Seq<char>>(m@),
{
    match encoding {
        Encoding::Ascii => Ok(chars_from_bytes(data)),
        Encoding::Utf8 => utf8_string(vstd::slice::slice_to_vec(data)),
        Encoding::Hex => Ok(format_hex(data)),
        Encoding::Gbk => {
            let (text, had_errors) = gbk_decode(data);
            if had_errors {
                Err(String::from_str("GBK 解码失败：无效的字节序列"))
            } else {
                Ok(text)
            }
        },
    }
}

} // verus!
