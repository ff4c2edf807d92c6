//! Turning user text into wire bytes and received bytes into text, for the
//! four encodings ASCII, HEX, UTF-8 and GBK.

use crate::state::Encoding;
use crate::text::{is_white_space, is_whitespace, push_char, without_whitespace};
use vstd::prelude::*;
use vstd::utf8::*;
use vstd::string::{StringSliceAdditionalSpecFns, StrSliceExecFns, StringExecFns};

verus! {

broadcast use vstd::string::group_string_axioms;

// ---------------------------------------------------------------------------
// Outside calls: encoding_rs (GBK) and std's UTF-8 validation.
// ---------------------------------------------------------------------------

/// What `encoding_rs::GBK.encode` returns for a text: the bytes and whether an
/// unmappable character was met.
pub uninterp spec fn gbk_encoding(text: Seq<char>) -> (Seq<u8>, bool);

/// What `encoding_rs::GBK.decode` returns for a byte sequence: the text (with
/// malformed sequences replaced) and whether a malformed sequence was met.
pub uninterp spec fn gbk_decoding(bytes: Seq<u8>) -> (Seq<char>, bool);

/// The message of std's `FromUtf8Error` for an invalid byte sequence.
pub uninterp spec fn utf8_error_text(bytes: Seq<u8>) -> Seq<char>;

/// What `String::from_utf8_lossy` returns: the text with each malformed
/// sequence replaced by U+FFFD.
pub uninterp spec fn utf8_lossy_decoding(bytes: Seq<u8>) -> Seq<char>;

/// Upper bound on input sizes handed to encoding_rs: below it the crate's
/// buffer-size arithmetic cannot overflow `usize`.
pub open spec fn gbk_size_ok(len: nat) -> bool {
    len <= usize::MAX / 8
}

/// `encoding_rs::GBK.encode(text)`: the encoded bytes and the crate's
/// "had unmappable characters" flag. The bytes themselves are only named.
#[verifier::external_body]
pub(crate) fn gbk_encode(text: &str) -> (r: (Vec<u8>, bool))
    requires
        gbk_size_ok(text.spec_bytes().len()),
    ensures
        (r.0@, r.1) == gbk_encoding(text@),
{
    let (bytes, _, had_errors) = encoding_rs::GBK.encode(text);
    (bytes.into_owned(), had_errors)
}

/// `encoding_rs::GBK.decode(bytes)`: the decoded text and the crate's
/// "had malformed sequences" flag. The text itself is only named.
#[verifier::external_body]
pub(crate) fn gbk_decode(bytes: &[u8]) -> (r: (String, bool))
    requires
        gbk_size_ok(bytes@.len()),
    ensures
        (r.0@, r.1) == gbk_decoding(bytes@),
{
    let (text, _, had_errors) = encoding_rs::GBK.decode(bytes);
    (text.into_owned(), had_errors)
}

/// `String::from_utf8`: succeeds exactly on valid UTF-8, giving the decoded
/// characters; otherwise gives the error's message (only named).
#[verifier::external_body]
pub(crate) fn utf8_string(bytes: Vec<u8>) -> (r: Result<String, String>)
    ensures
        r is Ok <==> valid_utf8(bytes@),
        r matches Ok(s) ==> s@ == decode_utf8(bytes@),
        r matches Err(m) ==> m@ == utf8_error_text(bytes@),
{
    String::from_utf8(bytes).map_err(|e| e.to_string())
}

/// Length of the longest prefix of `b[..k]` that is valid UTF-8.
pub open spec fn longest_valid_prefix(b: Seq<u8>, k: int) -> int
    decreases k,
{
    if k <= 0 {
        0
    } else if valid_utf8(b.take(k)) {
        k
    } else {
        longest_valid_prefix(b, k - 1)
    }
}

/// `std::str::from_utf8`: the whole length on success, `Utf8Error::valid_up_to`
/// otherwise, which std documents as the largest index `i` such that
/// `from_utf8(&input[..i])` succeeds.
#[verifier::external_body]
fn utf8_valid_up_to(bytes: &[u8]) -> (n: usize)
    ensures
        n as int == longest_valid_prefix(bytes@, bytes@.len() as int),
{
    match std::str::from_utf8(bytes) {
        Ok(_) => bytes.len(),
        Err(e) => e.valid_up_to(),
    }
}

/// `String::from_utf8_lossy`: the result is only named, except that std documents
/// valid input to come back unchanged.
#[verifier::external_body]
fn utf8_lossy(bytes: &[u8]) -> (s: String)
    ensures
        s@ == utf8_lossy_decoding(bytes@),
        valid_utf8(bytes@) ==> s@ == decode_utf8(bytes@),
{
    String::from_utf8_lossy(bytes).into_owned()
}

// ---------------------------------------------------------------------------
// HEX text.
// ---------------------------------------------------------------------------

/// Upper-case hex digit for `n` (0..=15).
pub open spec fn hex_digit_char(n: nat) -> char {
    if n < 10 {
        (48 + n) as char
    } else {
        (55 + n) as char
    }
}

/// The two hex digits of a byte.
pub open spec fn hex_pair(b: u8) -> Seq<char> {
    seq![hex_digit_char((b / 16) as nat), hex_digit_char((b % 16) as nat)]
}

/// `"{:02X}"` of each byte, separated by single spaces.
pub open spec fn format_hex_spec(bs: Seq<u8>) -> Seq<char>
    decreases bs.len(),
{
    if bs.len() == 0 {
        Seq::empty()
    } else if bs.len() == 1 {
        hex_pair(bs[0])
    } else {
        format_hex_spec(bs.drop_last()).push(' ') + hex_pair(bs.last())
    }
}

/// Value of one hex digit (either case).
pub open spec fn hex_digit_value(c: char) -> Option<u8> {
    let u = c as u32;
    if 48 <= u <= 57 {
        Some((u - 48) as u8)
    } else if 65 <= u <= 70 {
        Some((u - 55) as u8)
    } else if 97 <= u <= 102 {
        Some((u - 87) as u8)
    } else {
        None
    }
}

/// `u8::from_str_radix` on a two-character string in base 16: either two hex
/// digits, or a `+` sign followed by one hex digit.
pub open spec fn hex_pair_value(a: char, b: char) -> Option<u8> {
    if a == '+' {
        hex_digit_value(b)
    } else {
        match (hex_digit_value(a), hex_digit_value(b)) {
            (Some(x), Some(y)) => Some((x * 16 + y) as u8),
            _ => None,
        }
    }
}

/// Number of bytes of the UTF-8 encoding of `c`.
pub open spec fn char_utf8_len(c: char) -> nat {
    let u = c as u32;
    if u < 0x80 {
        1
    } else if u < 0x800 {
        2
    } else if u < 0x10000 {
        3
    } else {
        4
    }
}

/// Number of bytes of the UTF-8 encoding of `s`.
pub open spec fn utf8_len(s: Seq<char>) -> nat
    decreases s.len(),
{
    if s.len() == 0 {
        0
    } else {
        utf8_len(s.drop_last()) + char_utf8_len(s.last())
    }
}

/// Outcome of reading whitespace-free hex text two bytes at a time.
pub enum HexScan {
    /// All pairs were hex: the bytes they denote.
    Bytes(Seq<u8>),
    /// The first slice that is not a hex number.
    Invalid(Seq<char>),
    /// A two-byte slice would cut a multi-byte character in half, which
    /// panics in std's string slicing.
    CutsCharacter,
}

/// Prefixes a byte sequence to a successful scan.
pub open spec fn scan_after(prefix: Seq<u8>, rest: HexScan) -> HexScan {
    match rest {
        HexScan::Bytes(r) => HexScan::Bytes(prefix + r),
        other => other,
    }
}

/// Reads `cs` as consecutive two-byte slices, from the front, stopping at the
/// first slice that is not hex.
pub open spec fn hex_scan(cs: Seq<char>) -> HexScan
    decreases cs.len(),
{
    if cs.len() == 0 {
        HexScan::Bytes(Seq::empty())
    } else if char_utf8_len(cs[0]) == 1 {
        if cs.len() < 2 {
            HexScan::Invalid(cs)
        } else if char_utf8_len(cs[1]) != 1 {
            HexScan::CutsCharacter
        } else {
            match hex_pair_value(cs[0], cs[1]) {
                Some(v) => scan_after(seq![v], hex_scan(cs.skip(2))),
                None => HexScan::Invalid(cs.take(2)),
            }
        }
    } else if char_utf8_len(cs[0]) == 2 {
        HexScan::Invalid(cs.take(1))
    } else {
        HexScan::CutsCharacter
    }
}

/// Whether parsing `s` as HEX slices a multi-byte character apart.
pub open spec fn hex_input_cuts_character(s: Seq<char>) -> bool {
    let cleaned = without_whitespace(s);
    utf8_len(cleaned) % 2 == 0 && hex_scan(cleaned) is CutsCharacter
}

/// The message for an odd number of hex characters.
pub open spec fn odd_hex_message() -> Seq<char> {
    "HEX 字符串长度必须为偶数"@
}

/// The message for a slice that is not hex.
pub open spec fn invalid_hex_message(slice: Seq<char>) -> Seq<char> {
    "无效的 HEX 字符: "@ + slice
}

/// HEX text to bytes: whitespace is ignored, the rest must have an even byte
/// length and consist of hex numbers.
pub open spec fn parse_hex_spec(s: Seq<char>) -> Result<Seq<u8>, Seq<char>> {
    let cleaned = without_whitespace(s);
    if utf8_len(cleaned) % 2 != 0 {
        Err(odd_hex_message())
    } else {
        match hex_scan(cleaned) {
            HexScan::Bytes(b) => Ok(b),
            HexScan::Invalid(slice) => Err(invalid_hex_message(slice)),
            HexScan::CutsCharacter => Err(Seq::empty()),
        }
    }
}

fn hex_digit(n: u8) -> (c: char)
    requires
        n < 16,
    ensures
        c == hex_digit_char(n as nat),
{
    if n < 10 {
        (48u8 + n) as char
    } else {
        (55u8 + n) as char
    }
}

/// Appends the two upper-case hex digits of a byte.
pub fn push_hex_pair(out: &mut String, b: u8)
    ensures
        final(out)@ == old(out)@ + hex_pair(b),
{
    push_char(out, hex_digit(b / 16));
    push_char(out, hex_digit(b % 16));
}

/// Bytes as upper-case hex pairs separated by spaces, e.g. `00 FF 0A`.
pub fn format_hex(data: &[u8]) -> (s: String)
    ensures
        s@ == format_hex_spec(data@),
{
    let mut s = String::new();
    let mut i: usize = 0;
    while i < data.len()
        invariant
            i <= data@.len(),
            s@ == format_hex_spec(data@.take(i as int)),
        decreases data@.len() - i,
    {
        let b = data[i];
        let ghost t = data@.take(i + 1);
        assert(t.drop_last() == data@.take(i as int));
        assert(t.last() == b);
        if i > 0 {
            push_char(&mut s, ' ');
        }
        push_char(&mut s, hex_digit(b / 16));
        push_char(&mut s, hex_digit(b % 16));
        proof {
            if i == 0 {
                assert(format_hex_spec(data@.take(0)) == Seq::<char>::empty());
            }
        }
        i += 1;
    }
    assert(data@.take(data@.len() as int) == data@);
    s
}

fn hex_value(c: char) -> (r: Option<u8>)
    ensures
        r == hex_digit_value(c),
{
    let u = c as u32;
    if 48 <= u && u <= 57 {
        Some((u - 48) as u8)
    } else if 65 <= u && u <= 70 {
        Some((u - 55) as u8)
    } else if 97 <= u && u <= 102 {
        Some((u - 87) as u8)
    } else {
        None
    }
}

fn pair_value(a: char, b: char) -> (r: Option<u8>)
    ensures
        r == hex_pair_value(a, b),
{
    if a == '+' {
        hex_value(b)
    } else {
        match (hex_value(a), hex_value(b)) {
            (Some(x), Some(y)) => Some(x * 16 + y),
            _ => None,
        }
    }
}

fn utf8_width(c: char) -> (n: usize)
    ensures
        n == char_utf8_len(c),
{
    let u = c as u32;
    if u < 0x80 {
        1
    } else if u < 0x800 {
        2
    } else if u < 0x10000 {
        3
    } else {
        4
    }
}

/// The non-whitespace characters of `s`.
fn strip_whitespace(s: &str) -> (v: Vec<char>)
    ensures
        v@ == without_whitespace(s@),
{
    let mut v: Vec<char> = Vec::new();
    for c in it: s.chars()
        invariant
            it.seq() == s@,
            v@ == without_whitespace(s@.take(it.index() as int)),
    {
        let ghost t = s@.take(it.index() + 1);
        assert(t.drop_last() == s@.take(it.index() as int));
        assert(t.last() == c);
        if !is_whitespace(c) {
            v.push(c);
        }
    }
    assert(s@.take(s@.len() as int) == s@);
    v
}

/// Parity of the UTF-8 byte length of `v`.
fn utf8_len_is_even(v: &Vec<char>) -> (b: bool)
    ensures
        b == (utf8_len(v@) % 2 == 0),
{
    let mut odd = false;
    let mut i: usize = 0;
    while i < v.len()
        invariant
            i <= v@.len(),
            odd == (utf8_len(v@.take(i as int)) % 2 == 1),
        decreases v@.len() - i,
    {
        let ghost t = v@.take(i + 1);
        assert(t.drop_last() == v@.take(i as int));
        assert(t.last() == v@[i as int]);
        if utf8_width(v[i]) % 2 == 1 {
            odd = !odd;
        }
        i += 1;
    }
    assert(v@.take(v@.len() as int) == v@);
    !odd
}

/// Reads HEX text: whitespace is ignored; the remaining text must have an
/// even UTF-8 byte length (else `Err(None)`), and each two-byte slice must be
/// a base-16 `u8` (else `Err(Some(slice))` for the first one that is not).
pub fn scan_hex(input: &str) -> (r: Result<Vec<u8>, Option<String>>)
    requires
        !hex_input_cuts_character(input@),
    ensures
        ({
            let cleaned = without_whitespace(input@);
            match r {
                Ok(b) => utf8_len(cleaned) % 2 == 0 && hex_scan(cleaned) == HexScan::Bytes(b@),
                Err(None) => utf8_len(cleaned) % 2 != 0,
                Err(Some(slice)) => utf8_len(cleaned) % 2 == 0 && hex_scan(cleaned)
                    == HexScan::Invalid(slice@),
            }
        }),
{
    let cleaned = strip_whitespace(input);
    if !utf8_len_is_even(&cleaned) {
        return Err(None);
    }
    let mut out: Vec<u8> = Vec::new();
    let mut i: usize = 0;
    let n = cleaned.len();
    proof {
        assert(cleaned@.skip(0) == cleaned@);
        match hex_scan(cleaned@) {
            HexScan::Bytes(r) => {
                assert(Seq::<u8>::empty() + r == r);
            },
            _ => {},
        }
    }
    while i < n
        invariant
            i <= n == cleaned@.len(),
            cleaned@ == without_whitespace(input@),
            utf8_len(cleaned@) % 2 == 0,
            !(hex_scan(cleaned@) is CutsCharacter),
            hex_scan(cleaned@) == scan_after(out@, hex_scan(cleaned@.skip(i as int))),
        decreases n - i,
    {
        let ghost rest = cleaned@.skip(i as int);
        let c0 = cleaned[i];
        let w0 = utf8_width(c0);
        assert(rest[0] == c0);
        if w0 == 1 {
            if i + 1 >= n {
                proof {
                    assert(rest.len() == 1);
                }
                let mut m = String::new();
                push_char(&mut m, c0);
                proof {
                    assert(rest == seq![c0]);
                    assert(m@ == seq![c0]);
                }
                return Err(Some(m));
            }
            let c1 = cleaned[i + 1];
            assert(rest[1] == c1);
            if utf8_width(c1) != 1 {
                proof {
                    assert(hex_scan(rest) is CutsCharacter);
                }
                return Err(None);
            }
            match pair_value(c0, c1) {
                Some(v) => {
                    assert(rest.skip(2) == cleaned@.skip(i + 2));
                    assert(hex_scan(rest) == scan_after(seq![v], hex_scan(rest.skip(2))));
                    let ghost old_out = out@;
                    out.push(v);
                    proof {
                        match hex_scan(cleaned@.skip(i + 2)) {
                            HexScan::Bytes(r) => {
                                assert(old_out + (seq![v] + r) == out@ + r);
                            },
                            _ => {},
                        }
                    }
                    i += 2;
                },
                None => {
                    let mut m = String::new();
                    push_char(&mut m, c0);
                    push_char(&mut m, c1);
                    proof {
                        assert(rest.take(2) == seq![c0, c1]);
                        assert(m@ == seq![c0, c1]);
                        assert(hex_scan(rest) == HexScan::Invalid(rest.take(2)));
                    }
                    return Err(Some(m));
                },
            }
        } else if w0 == 2 {
            let mut m = String::new();
            push_char(&mut m, c0);
            proof {
                assert(rest.take(1) == seq![c0]);
                assert(m@ == seq![c0]);
            }
            return Err(Some(m));
        } else {
            proof {
                assert(hex_scan(rest) is CutsCharacter);
            }
            return Err(None);
        }
    }
    proof {
        assert(cleaned@.skip(n as int) == Seq::<char>::empty());
        assert(out@ + Seq::<u8>::empty() == out@);
    }
    Ok(out)
}

/// Parses HEX text: whitespace is ignored; the remaining text must have an even
/// UTF-8 byte length, and each two-byte slice must be a base-16 `u8`.
pub fn parse_hex(input: &str) -> (r: Result<Vec<u8>, String>)
    requires
        !hex_input_cuts_character(input@),
    ensures
        r matches Ok(b) ==> parse_hex_spec(input@) == Ok::<Seq<u8>, Seq<char>>(b@),
        r matches Err(m) ==> parse_hex_spec(input@) == Err::<Seq<u8>, Seq<char>>(m@),
{
    match scan_hex(input) {
        Ok(bytes) => Ok(bytes),
        Err(None) => Err(String::from_str("HEX 字符串长度必须为偶数")),
        Err(Some(slice)) => {
            let mut m = String::from_str("无效的 HEX 字符: ");
            m.append(slice.as_str());
            Err(m)
        },
    }
}

// ---------------------------------------------------------------------------
// Encode and decode.
// ---------------------------------------------------------------------------

/// Whether encoding `input` as `encoding` panics (only HEX text can).
pub open spec fn encode_panics(input: Seq<char>, encoding: Encoding) -> bool {
    encoding == Encoding::Hex && hex_input_cuts_character(input)
}

/// Inputs whose size the outside encoder accepts.
pub open spec fn encode_size_ok(input: Seq<char>, encoding: Encoding) -> bool {
    encoding == Encoding::Gbk ==> gbk_size_ok(encode_utf8(input).len())
}

pub open spec fn ascii_only_message() -> Seq<char> {
    "ASCII 只能包含 0-127 范围内的字符"@
}

pub open spec fn gbk_encode_message() -> Seq<char> {
    "GBK 编码失败：包含不支持的字符"@
}

/// What `encode` returns.
pub open spec fn encode_spec(input: Seq<char>, encoding: Encoding) -> Result<Seq<u8>, Seq<char>> {
    match encoding {
        Encoding::Ascii => if is_ascii_chars(input) {
            Ok(encode_utf8(input))
        } else {
            Err(ascii_only_message())
        },
        Encoding::Utf8 => Ok(encode_utf8(input)),
        Encoding::Hex => parse_hex_spec(input),
        Encoding::Gbk => if gbk_encoding(input).1 {
            Err(gbk_encode_message())
        } else {
            Ok(gbk_encoding(input).0)
        },
    }
}

/// Text to wire bytes in the given encoding.
pub fn encode(input: &str, encoding: &Encoding) -> (r: Result<Vec<u8>, String>)
    requires
        !encode_panics(input@, *encoding),
        encode_size_ok(input@, *encoding),
    ensures
        r matches Ok(b) ==> encode_spec(input@, *encoding) == Ok::<Seq<u8>, Seq<char>>(b@),
        r matches Err(m) ==> encode_spec(input@, *encoding) == Err::<Seq<u8>, Seq<char>>(m@),
{
    match encoding {
        Encoding::Ascii => {
            if !input.is_ascii() {
                return Err(String::from_str("ASCII 只能包含 0-127 范围内的字符"));
            }
            Ok(input.as_bytes_vec())
        },
        Encoding::Utf8 => Ok(input.as_bytes_vec()),
        Encoding::Hex => parse_hex(input),
        Encoding::Gbk => {
            let (bytes, had_errors) = gbk_encode(input);
            if had_errors {
                Err(String::from_str("GBK 编码失败：包含不支持的字符"))
            } else {
                Ok(bytes)
            }
        },
    }
}

/// Whether HEX text would slice a multi-byte character apart while being
/// read two bytes at a time.
fn hex_text_cuts_character(input: &str) -> (b: bool)
    ensures
        b == hex_input_cuts_character(input@),
{
    let cleaned = strip_whitespace(input);
    if !utf8_len_is_even(&cleaned) {
        return false;
    }
    let n = cleaned.len();
    let mut i: usize = 0;
    assert(cleaned@.skip(0) == cleaned@);
    while i < n
        invariant
            i <= n == cleaned@.len(),
            cleaned@ == without_whitespace(input@),
            utf8_len(cleaned@) % 2 == 0,
            (hex_scan(cleaned@) is CutsCharacter) == (hex_scan(cleaned@.skip(i as int)) is CutsCharacter),
        decreases n - i,
    {
        let ghost rest = cleaned@.skip(i as int);
        let c0 = cleaned[i];
        assert(rest[0] == c0);
        let w0 = utf8_width(c0);
        if w0 == 1 {
            if i + 1 >= n {
                return false;
            }
            let c1 = cleaned[i + 1];
            assert(rest[1] == c1);
            if utf8_width(c1) != 1 {
                return true;
            }
            match pair_value(c0, c1) {
                Some(v) => {
                    assert(rest.skip(2) == cleaned@.skip(i + 2));
                    i += 2;
                },
                None => {
                    return false;
                },
            }
        } else {
            return w0 != 2;
        }
    }
    assert(cleaned@.skip(n as int) == Seq::<char>::empty());
    false
}

/// Whether `encode` of this text would panic: HEX text that slices a
/// multi-byte character apart.
pub fn encode_would_panic(input: &str, encoding: &Encoding) -> (b: bool)
    ensures
        b == encode_panics(input@, *encoding),
{
    match encoding {
        Encoding::Hex => hex_text_cuts_character(input),
        _ => false,
    }
}

/// All bytes are at most 0x7F.
pub open spec fn ascii_bytes(b: Seq<u8>) -> bool {
    forall|i: int| 0 <= i < b.len() ==> #[trigger] b[i] <= 0x7f
}

/// Each byte read as the character with that code.
pub open spec fn bytes_as_chars(b: Seq<u8>) -> Seq<char> {
    Seq::new(b.len(), |i: int| b[i] as char)
}

pub open spec fn non_ascii_message() -> Seq<char> {
    "收到非 ASCII 字节"@
}

pub open spec fn utf8_decode_message(bytes: Seq<u8>) -> Seq<char> {
    "UTF-8 解码失败: "@ + utf8_error_text(bytes)
}

pub open spec fn gbk_decode_message() -> Seq<char> {
    "GBK 解码失败：无效的字节序列"@
}

/// What `decode` returns.
pub open spec fn decode_spec(data: Seq<u8>, encoding: Encoding) -> Result<Seq<char>, Seq<char>> {
    match encoding {
        Encoding::Ascii => if ascii_bytes(data) {
            Ok(bytes_as_chars(data))
        } else {
            Err(non_ascii_message())
        },
        Encoding::Utf8 => if valid_utf8(data) {
            Ok(decode_utf8(data))
        } else {
            Err(utf8_decode_message(data))
        },
        Encoding::Hex => Ok(format_hex_spec(data)),
        Encoding::Gbk => if gbk_decoding(data).1 {
            Err(gbk_decode_message())
        } else {
            Ok(gbk_decoding(data).0)
        },
    }
}

fn all_ascii(data: &[u8]) -> (b: bool)
    ensures
        b == ascii_bytes(data@),
{
    let mut i: usize = 0;
    while i < data.len()
        invariant
            i <= data@.len(),
            forall|j: int| 0 <= j < i ==> #[trigger] data@[j] <= 0x7f,
        decreases data@.len() - i,
    {
        if data[i] > 0x7f {
            return false;
        }
        i += 1;
    }
    true
}

pub(crate) fn chars_from_bytes(data: &[u8]) -> (s: String)
    ensures
        s@ == bytes_as_chars(data@),
{
    let mut s = String::new();
    let mut i: usize = 0;
    while i < data.len()
        invariant
            i <= data@.len(),
            s@ == bytes_as_chars(data@.take(i as int)),
        decreases data@.len() - i,
    {
        push_char(&mut s, data[i] as char);
        assert(bytes_as_chars(data@.take(i + 1)) == bytes_as_chars(data@.take(i as int)).push(
            data@[i as int] as char,
        ));
        i += 1;
    }
    assert(data@.take(data@.len() as int) == data@);
    s
}

/// Wire bytes to text in the given encoding.
pub fn decode(data: &[u8], encoding: &Encoding) -> (r: Result<String, String>)
    requires
        *encoding == Encoding::Gbk ==> gbk_size_ok(data@.len()),
    ensures
        r matches Ok(s) ==> decode_spec(data@, *encoding) == Ok::<Seq<char>, Seq<char>>(s@),
        r matches Err(m) ==> decode_spec(data@, *encoding) == Err::<Seq<char>, Seq<char>>(m@),
{
    match encoding {
        Encoding::Ascii => {
            if !all_ascii(data) {
                return Err(String::from_str("收到非 ASCII 字节"));
            }
            Ok(chars_from_bytes(data))
        },
        Encoding::Utf8 => match utf8_string(vstd::slice::slice_to_vec(data)) {
            Ok(s) => Ok(s),
            Err(e) => {
                let mut m = String::from_str("UTF-8 解码失败: ");
                m.append(e.as_str());
                Err(m)
            },
        },
        Encoding::Hex => Ok(format_hex(data)),
        Encoding::Gbk => {
            let (text, had_errors) = gbk_decode(data);
            if had_errors {
                Err(String::from_str("GBK 解码失败：无效的字节序列"))
            } else {
                Ok(text)
            }
        },
    }
}


// ---------------------------------------------------------------------------
// Receive-side decoding.
// ---------------------------------------------------------------------------

/// Display text for received bytes that never fails: ASCII shows bytes above
/// 0x7F as U+FFFD, UTF-8 and GBK replace malformed sequences, HEX shows pairs.
pub open spec fn lossy_text(bytes: Seq<u8>, encoding: Encoding) -> Seq<char> {
    match encoding {
        Encoding::Ascii => Seq::new(
            bytes.len(),
            |i: int|
                if bytes[i] <= 0x7f {
                    bytes[i] as char
                } else {
                    '\u{FFFD}'
                },
        ),
        Encoding::Utf8 => utf8_lossy_decoding(bytes),
        Encoding::Hex => format_hex_spec(bytes),
        Encoding::Gbk => gbk_decoding(bytes).0,
    }
}

/// Received bytes as display text; malformed input is shown with
/// replacement characters instead of failing.
pub fn decode_received_bytes_lossy(bytes: &[u8], encoding: &Encoding) -> (s: String)
    requires
        *encoding == Encoding::Gbk ==> gbk_size_ok(bytes@.len()),
    ensures
        s@ == lossy_text(bytes@, *encoding),
{
    match encoding {
        Encoding::Ascii => {
            let mut s = String::new();
            let mut i: usize = 0;
            while i < bytes.len()
                invariant
                    i <= bytes@.len(),
                    s@ == lossy_text(bytes@.take(i as int), Encoding::Ascii),
                decreases bytes@.len() - i,
            {
                let b = bytes[i];
                if b <= 0x7f {
                    push_char(&mut s, b as char);
                } else {
                    push_char(&mut s, '\u{FFFD}');
                }
                assert(lossy_text(bytes@.take(i + 1), Encoding::Ascii) == lossy_text(
                    bytes@.take(i as int),
                    Encoding::Ascii,
                ).push(if b <= 0x7f { b as char } else { '\u{FFFD}' }));
                i += 1;
            }
            assert(bytes@.take(bytes@.len() as int) == bytes@);
            s
        },
        Encoding::Utf8 => utf8_lossy(bytes),
        Encoding::Hex => format_hex(bytes),
        Encoding::Gbk => gbk_decode(bytes).0,
    }
}

proof fn lemma_longest_valid_prefix(b: Seq<u8>, k: int)
    requires
        k <= b.len(),
    ensures
        0 <= longest_valid_prefix(b, k) <= if k < 0 { 0 } else { k },
        valid_utf8(b.take(longest_valid_prefix(b, k))),
    decreases k,
{
    if k <= 0 {
        assert(b.take(0).len() == 0);
    } else if !valid_utf8(b.take(k)) {
        lemma_longest_valid_prefix(b, k - 1);
    }
}

/// Width of the UTF-8 sequence a byte starts, by Unicode's table of
/// well-formed byte sequences (0 for a byte that starts none: ASCII is
/// complete in itself, and continuation bytes, `C0`, `C1` and `F5`..`FF`
/// start nothing).
pub open spec fn utf8_lead_width(b: u8) -> nat {
    if 0xC2 <= b <= 0xDF {
        2
    } else if 0xE0 <= b <= 0xEF {
        3
    } else if 0xF0 <= b <= 0xF4 {
        4
    } else {
        0
    }
}

pub open spec fn utf8_continuation(b: u8) -> bool {
    0x80 <= b <= 0xBF
}

/// The range the second byte of a multi-byte sequence must lie in, given
/// its first byte.
pub open spec fn utf8_second_ok(b0: u8, b1: u8) -> bool {
    if b0 == 0xE0 {
        0xA0 <= b1 <= 0xBF
    } else if b0 == 0xED {
        0x80 <= b1 <= 0x9F
    } else if b0 == 0xF0 {
        0x90 <= b1 <= 0xBF
    } else if b0 == 0xF4 {
        0x80 <= b1 <= 0x8F
    } else {
        utf8_continuation(b1)
    }
}

/// A UTF-8 sequence cut short: bytes that begin a well-formed encoding of
/// one character but end before it is complete.
pub open spec fn utf8_truncated(t: Seq<u8>) -> bool {
    &&& 1 <= t.len() < utf8_lead_width(t[0])
    &&& t.len() >= 2 ==> utf8_second_ok(t[0], t[1])
    &&& t.len() >= 3 ==> utf8_continuation(t[2])
}

/// One UTF-8 step of the stream decoder, from the held-back bytes and the
/// next chunk: the text of the longest valid prefix of both joined, with the
/// rest held back, when that rest is empty or a sequence cut short (it may
/// be completed by the next chunk); otherwise the decoding error of the
/// joined bytes, with nothing held back.
pub open spec fn utf8_stream_step(held: Seq<u8>, bytes: Seq<u8>) -> (
    Result<Seq<char>, Seq<char>>,
    Seq<u8>,
) {
    let all = held + bytes;
    let n = longest_valid_prefix(all, all.len() as int);
    let rest = all.skip(n);
    if rest.len() == 0 || utf8_truncated(rest) {
        (Ok(decode_utf8(all.take(n))), rest)
    } else {
        (Err(utf8_decode_message(all)), Seq::empty())
    }
}

fn utf8_second_byte_ok(b0: u8, b1: u8) -> (r: bool)
    ensures
        r == utf8_second_ok(b0, b1),
{
    if b0 == 0xE0 {
        0xA0 <= b1 && b1 <= 0xBF
    } else if b0 == 0xED {
        0x80 <= b1 && b1 <= 0x9F
    } else if b0 == 0xF0 {
        0x90 <= b1 && b1 <= 0xBF
    } else if b0 == 0xF4 {
        0x80 <= b1 && b1 <= 0x8F
    } else {
        0x80 <= b1 && b1 <= 0xBF
    }
}

/// Whether the bytes of `v` from `n` on are a UTF-8 sequence cut short.
fn utf8_truncated_from(v: &Vec<u8>, n: usize) -> (r: bool)
    requires
        n <= v@.len(),
    ensures
        r == utf8_truncated(v@.skip(n as int)),
{
    let ghost t = v@.skip(n as int);
    let len = v.len() - n;
    if len == 0 || len > 3 {
        return false;
    }
    let b0 = v[n];
    assert(t[0] == b0);
    let w: usize = if 0xC2 <= b0 && b0 <= 0xDF {
        2
    } else if 0xE0 <= b0 && b0 <= 0xEF {
        3
    } else if 0xF0 <= b0 && b0 <= 0xF4 {
        4
    } else {
        0
    };
    if len >= w {
        return false;
    }
    if len >= 2 {
        assert(t[1] == v@[n + 1]);
        if !utf8_second_byte_ok(b0, v[n + 1]) {
            return false;
        }
    }
    if len >= 3 {
        assert(t[2] == v@[n + 2]);
        if !(0x80 <= v[n + 2] && v[n + 2] <= 0xBF) {
            return false;
        }
    }
    true
}

/// Incremental decoder for the receive path: an incomplete UTF-8 sequence at
/// the end of a chunk is kept for the next chunk instead of being shown; an
/// invalid one is reported and dropped, so that later chunks decode again.
#[derive(Debug)]
pub struct StreamDecoder {
    pending: Vec<u8>,
}

impl View for StreamDecoder {
    type V = Seq<u8>;

    /// The bytes held back for the next chunk.
    closed spec fn view(&self) -> Seq<u8> {
        self.pending@
    }
}

impl Default for StreamDecoder {
    fn default() -> (d: Self)
        ensures
            d@ == Seq::<u8>::empty(),
    {
        StreamDecoder { pending: Vec::new() }
    }
}

impl StreamDecoder {
    /// Forgets any held-back bytes.
    pub fn clear(&mut self)
        ensures
            final(self)@ == Seq::<u8>::empty(),
    {
        self.pending.clear();
    }

    /// Decodes the next chunk. Non-UTF-8 encodings decode the chunk alone. For
    /// UTF-8 the held-back bytes and the chunk are joined and decoded as
    /// `utf8_stream_step` says: valid text is returned and an incomplete
    /// tail held back; an invalid sequence gives the error.
    pub fn decode(&mut self, bytes: &[u8], encoding: &Encoding) -> (r: Result<String, String>)
        requires
            *encoding == Encoding::Gbk ==> gbk_size_ok(bytes@.len()),
        ensures
            *encoding != Encoding::Utf8 ==> final(self)@ == old(self)@ && (match r {
                Ok(s) => decode_spec(bytes@, *encoding) == Ok::<Seq<char>, Seq<char>>(s@),
                Err(m) => decode_spec(bytes@, *encoding) == Err::<Seq<char>, Seq<char>>(m@),
            }),
            *encoding == Encoding::Utf8 ==> {
                let step = utf8_stream_step(old(self)@, bytes@);
                &&& final(self)@ == step.1
                &&& match r {
                    Ok(s) => step.0 == Ok::<Seq<char>, Seq<char>>(s@),
                    Err(m) => step.0 == Err::<Seq<char>, Seq<char>>(m@),
                }
                &&& r matches Ok(s) ==> encode_utf8(s@) + final(self)@ == old(self)@ + bytes@
            },
    {
        if *encoding != Encoding::Utf8 {
            return decode(bytes, encoding);
        }
        let mut more = vstd::slice::slice_to_vec(bytes);
        self.pending.append(&mut more);
        let mut all = Vec::new();
        std::mem::swap(&mut all, &mut self.pending);
        let ghost whole = all@;
        let n = utf8_valid_up_to(&all);
        proof {
            lemma_longest_valid_prefix(whole, whole.len() as int);
            assert(whole.take(whole.len() as int) == whole);
        }
        if n < all.len() && !utf8_truncated_from(&all, n) {
            self.pending = Vec::new();
            return decode(all.as_slice(), encoding);
        }
        let tail = all.split_off(n);
        self.pending = tail;
        match utf8_string(all) {
            Ok(text) => {
                proof {
                    vstd::utf8::decode_utf8_encode_utf8(whole.take(n as int));
                    assert(whole.take(n as int) + whole.skip(n as int) == whole);
                }
                Ok(text)
            },
            Err(e) => Err(e),
        }
    }
}

/// A prefix of a well-formed encoding of one character, shorter than that
/// encoding, is a sequence cut short.
proof fn lemma_scalar_prefix_truncated(s: Seq<u8>, j: int)
    requires
        valid_first_scalar(s),
        1 <= j < length_of_first_scalar(s),
    ensures
        utf8_truncated(s.take(j)),
{
    let t = s.take(j);
    let b0 = s[0];
    let b1 = s[1];
    let cp = decode_first_codepoint(s);
    assert(t[0] == b0);
    if j >= 2 {
        assert(t[1] == b1);
    }
    if j >= 3 {
        assert(t[2] == s[2]);
    }
    if is_leading_byte_width_2(b0) {
        assert(cp == ((((b0 & 0x1F) as u32) << 6u32) | ((b1 & 0x3F) as u32)));
        assert(0xC2 <= b0) by (bit_vector)
            requires
                0xC0 <= b0 <= 0xDF,
                0x80 <= b1 <= 0xBF,
                ((((b0 & 0x1F) as u32) << 6u32) | ((b1 & 0x3F) as u32)) >= 0x80u32,
        ;
    } else if is_leading_byte_width_3(b0) {
        let b2 = s[2];
        assert(cp == ((((b0 & 0x0F) as u32) << 12u32) | (((b1 & 0x3F) as u32) << 6u32) | ((b2
            & 0x3F) as u32)));
        assert(utf8_second_ok(b0, b1)) by (bit_vector)
            requires
                0xE0 <= b0 <= 0xEF,
                0x80 <= b1 <= 0xBF,
                0x80 <= b2 <= 0xBF,
                ((((b0 & 0x0F) as u32) << 12u32) | (((b1 & 0x3F) as u32) << 6u32) | ((b2
                    & 0x3F) as u32)) >= 0x800u32,
                !(0xD800u32 <= ((((b0 & 0x0F) as u32) << 12u32) | (((b1 & 0x3F) as u32)
                    << 6u32) | ((b2 & 0x3F) as u32)) <= 0xDFFFu32),
        ;
    } else {
        let b2 = s[2];
        let b3 = s[3];
        assert(is_leading_byte_width_4(b0));
        assert(cp == ((((b0 & 0x07) as u32) << 18u32) | (((b1 & 0x3F) as u32) << 12u32) | (((b2
            & 0x3F) as u32) << 6u32) | ((b3 & 0x3F) as u32)));
        assert(b0 <= 0xF4 && utf8_second_ok(b0, b1)) by (bit_vector)
            requires
                0xF0 <= b0 <= 0xF7,
                0x80 <= b1 <= 0xBF,
                0x80 <= b2 <= 0xBF,
                0x80 <= b3 <= 0xBF,
                0x10000u32 <= ((((b0 & 0x07) as u32) << 18u32) | (((b1 & 0x3F) as u32)
                    << 12u32) | (((b2 & 0x3F) as u32) << 6u32) | ((b3 & 0x3F) as u32))
                    <= 0x10FFFFu32,
        ;
    }
}

/// Valid UTF-8 cut after `k` bytes: the cut is preceded by a character
/// boundary `m`, the first `m` bytes are valid, no longer prefix up to `k`
/// is, and the bytes from `m` to `k` are empty or a sequence cut short.
proof fn lemma_cut_valid_utf8(x: Seq<u8>, k: int) -> (m: int)
    requires
        valid_utf8(x),
        0 <= k <= x.len(),
    ensures
        0 <= m <= k,
        is_char_boundary(x, m),
        valid_utf8(x.take(m)),
        forall|j: int| m < j <= k ==> !valid_utf8(#[trigger] x.take(j)),
        m == k || utf8_truncated(x.subrange(m, k)),
    decreases x.len(),
{
    if k == 0 {
        assert(x.take(0) == Seq::<u8>::empty());
        return 0;
    }
    let w = length_of_first_scalar(x);
    if k < w {
        assert forall|j: int| 0 < j <= k implies !valid_utf8(#[trigger] x.take(j)) by {
            let y = x.take(j);
            assert(y[0] == x[0]);
        }
        assert(x.take(0) == Seq::<u8>::empty());
        lemma_scalar_prefix_truncated(x, k);
        assert(x.subrange(0, k) == x.take(k));
        return 0;
    }
    let y = pop_first_scalar(x);
    let m1 = lemma_cut_valid_utf8(y, k - w);
    let m = m1 + w;
    let head = x.take(w);
    assert(valid_utf8(head)) by {
        reveal_with_fuel(valid_utf8, 2);
        assert(pop_first_scalar(head) == Seq::<u8>::empty());
    }
    assert(x.take(m) == head + y.take(m1));
    valid_utf8_concat(head, y.take(m1));
    assert forall|j: int| m < j <= k implies !valid_utf8(#[trigger] x.take(j)) by {
        let z = x.take(j);
        assert(z[0] == x[0]);
        if valid_utf8(z) {
            assert(pop_first_scalar(z) == y.take(j - w));
            assert(!valid_utf8(y.take(j - w)));
        }
    }
    assert(x.subrange(m, k) == y.subrange(m1, k - w));
    m
}

/// The longest valid prefix up to `k` is `m` when the first `m` bytes are
/// valid and no longer prefix up to `k` is.
proof fn lemma_longest_valid_prefix_is(b: Seq<u8>, k: int, m: int)
    requires
        0 <= m <= k <= b.len(),
        valid_utf8(b.take(m)),
        forall|j: int| m < j <= k ==> !valid_utf8(#[trigger] b.take(j)),
    ensures
        longest_valid_prefix(b, k) == m,
    decreases k,
{
    if k > m {
        lemma_longest_valid_prefix_is(b, k - 1, m);
    }
}

/// Where a valid UTF-8 stream is split into two chunks does not change what
/// a decoder with nothing held back shows: the first chunk decodes, holding
/// back at most an incomplete last character, the second completes it and
/// leaves nothing held back, and the two texts together are the decoding of
/// the whole stream.
pub proof fn law_utf8_chunks_decode_as_whole(a: Seq<u8>, b: Seq<u8>)
    requires
        valid_utf8(a + b),
    ensures
        ({
            let (r1, h1) = utf8_stream_step(Seq::empty(), a);
            let (r2, h2) = utf8_stream_step(h1, b);
            &&& r1 is Ok
            &&& r2 is Ok
            &&& h2 == Seq::<u8>::empty()
            &&& r1->Ok_0 + r2->Ok_0 == decode_utf8(a + b)
        }),
{
    let x = a + b;
    let k = a.len() as int;
    let m = lemma_cut_valid_utf8(x, k);
    assert(Seq::<u8>::empty() + a == a);
    assert(x.take(k) == a);
    assert forall|j: int| 0 <= j <= k implies #[trigger] a.take(j) == x.take(j) by {}
    lemma_longest_valid_prefix_is(a, k, m);
    assert(a.skip(m) == x.subrange(m, k));
    let h1 = a.skip(m);
    let all2 = h1 + b;
    assert(all2 == x.subrange(m, x.len() as int));
    valid_utf8_split(x, m);
    assert(all2.take(all2.len() as int) == all2);
    assert(longest_valid_prefix(all2, all2.len() as int) == all2.len());
    assert(all2.skip(all2.len() as int) == Seq::<u8>::empty());
    decode_utf8_split(x, m);
    assert(a.take(m) == x.subrange(0, m));
}

// ---------------------------------------------------------------------------
// Round trips.
// ---------------------------------------------------------------------------

/// The hex pairs of `bs`, without separators.
pub open spec fn hex_pairs(bs: Seq<u8>) -> Seq<char>
    decreases bs.len(),
{
    if bs.len() == 0 {
        Seq::empty()
    } else {
        hex_pairs(bs.drop_last()) + hex_pair(bs.last())
    }
}

proof fn lemma_without_whitespace_concat(a: Seq<char>, b: Seq<char>)
    ensures
        without_whitespace(a + b) == without_whitespace(a) + without_whitespace(b),
    decreases b.len(),
{
    if b.len() == 0 {
        assert(a + b == a);
        assert(without_whitespace(b) == b);
        assert(without_whitespace(a) + b == without_whitespace(a));
    } else {
        lemma_without_whitespace_concat(a, b.drop_last());
        assert((a + b).drop_last() == a + b.drop_last());
        assert((a + b).last() == b.last());
        if !is_white_space(b.last()) {
            assert(without_whitespace(a) + without_whitespace(b.drop_last()).push(b.last())
                == (without_whitespace(a) + without_whitespace(b.drop_last())).push(b.last()));
        }
    }
}

proof fn lemma_hex_digit(n: nat)
    requires
        n < 16,
    ensures
        hex_digit_value(hex_digit_char(n)) == Some(n as u8),
        !is_white_space(hex_digit_char(n)),
        char_utf8_len(hex_digit_char(n)) == 1,
        hex_digit_char(n) != '+',
{
}

proof fn lemma_hex_pair_plain(b: u8)
    ensures
        without_whitespace(hex_pair(b)) == hex_pair(b),
        utf8_len(hex_pair(b)) == 2,
        hex_pair_value(hex_pair(b)[0], hex_pair(b)[1]) == Some(b),
        char_utf8_len(hex_pair(b)[0]) == 1,
        char_utf8_len(hex_pair(b)[1]) == 1,
{
    let p = hex_pair(b);
    lemma_hex_digit((b / 16) as nat);
    lemma_hex_digit((b % 16) as nat);
    assert(p.drop_last() == seq![p[0]]);
    let one = seq![p[0]];
    assert(one.drop_last() == Seq::<char>::empty());
    assert(one.last() == p[0]);
    assert(without_whitespace(Seq::<char>::empty()) == Seq::<char>::empty());
    assert(Seq::<char>::empty().push(p[0]) == one);
    assert(without_whitespace(one) == one);
    assert(utf8_len(Seq::<char>::empty()) == 0);
    assert(seq![p[0]].push(p[1]) == p);
    assert(utf8_len(seq![p[0]]) == 1);
}

proof fn lemma_utf8_len_concat(a: Seq<char>, b: Seq<char>)
    ensures
        utf8_len(a + b) == utf8_len(a) + utf8_len(b),
    decreases b.len(),
{
    if b.len() == 0 {
        assert(a + b == a);
    } else {
        lemma_utf8_len_concat(a, b.drop_last());
        assert((a + b).drop_last() == a + b.drop_last());
        assert((a + b).last() == b.last());
    }
}

proof fn lemma_format_hex_pairs(bs: Seq<u8>)
    ensures
        without_whitespace(format_hex_spec(bs)) == hex_pairs(bs),
        utf8_len(hex_pairs(bs)) == 2 * bs.len(),
    decreases bs.len(),
{
    if bs.len() == 0 {
    } else {
        let dl = bs.drop_last();
        lemma_format_hex_pairs(dl);
        lemma_hex_pair_plain(bs.last());
        lemma_utf8_len_concat(hex_pairs(dl), hex_pair(bs.last()));
        if bs.len() == 1 {
            assert(dl.len() == 0);
            assert(hex_pairs(bs) == Seq::<char>::empty() + hex_pair(bs[0]));
            assert(Seq::<char>::empty() + hex_pair(bs[0]) == hex_pair(bs[0]));
        } else {
            let f = format_hex_spec(dl);
            lemma_without_whitespace_concat(f.push(' '), hex_pair(bs.last()));
            assert(f.push(' ').drop_last() == f);
        }
    }
}

proof fn lemma_scan_pairs(bs: Seq<u8>, t: Seq<char>)
    ensures
        hex_scan(hex_pairs(bs) + t) == scan_after(bs, hex_scan(t)),
    decreases bs.len(),
{
    if bs.len() == 0 {
        assert(hex_pairs(bs) + t == t);
        match hex_scan(t) {
            HexScan::Bytes(r) => {
                assert(bs + r == r);
            },
            _ => {},
        }
    } else {
        let dl = bs.drop_last();
        let p = hex_pair(bs.last());
        lemma_hex_pair_plain(bs.last());
        assert(hex_pairs(bs) + t == hex_pairs(dl) + (p + t));
        lemma_scan_pairs(dl, p + t);
        let pt = p + t;
        assert(pt[0] == p[0] && pt[1] == p[1]);
        assert(pt.skip(2) == t);
        assert(hex_scan(pt) == scan_after(seq![bs.last()], hex_scan(t)));
        assert(dl + seq![bs.last()] == bs);
        match hex_scan(t) {
            HexScan::Bytes(r) => {
                assert(dl + (seq![bs.last()] + r) == bs + r);
            },
            _ => {},
        }
    }
}

/// HEX display text reads back as the bytes it shows: decoding bytes as HEX
/// and encoding that text as HEX gives the same bytes again.
pub proof fn law_hex_decode_then_encode(bytes: Seq<u8>, text: Seq<char>)
    requires
        text == format_hex_spec(bytes),
    ensures
        decode_spec(bytes, Encoding::Hex) == Ok::<Seq<char>, Seq<char>>(text),
        !encode_panics(text, Encoding::Hex),
        encode_spec(text, Encoding::Hex) == Ok::<Seq<u8>, Seq<char>>(bytes),
{
    lemma_format_hex_pairs(bytes);
    lemma_scan_pairs(bytes, Seq::empty());
    assert(hex_pairs(bytes) + Seq::<char>::empty() == hex_pairs(bytes));
    assert(Seq::<char>::empty().len() == 0);
    assert(bytes + Seq::<u8>::empty() == bytes);
}

/// UTF-8 text survives encoding and decoding unchanged.
pub proof fn law_utf8_encode_then_decode(text: Seq<char>)
    ensures
        encode_spec(text, Encoding::Utf8) == Ok::<Seq<u8>, Seq<char>>(encode_utf8(text)),
        decode_spec(encode_utf8(text), Encoding::Utf8) == Ok::<Seq<char>, Seq<char>>(text),
{
    encode_utf8_valid_utf8(text);
    encode_utf8_decode_utf8(text);
}

/// ASCII text is accepted exactly when every character is ASCII, and then
/// survives encoding and decoding unchanged.
pub proof fn law_ascii_encode_then_decode(text: Seq<char>)
    ensures
        encode_spec(text, Encoding::Ascii) is Ok <==> is_ascii_chars(text),
        is_ascii_chars(text) ==> decode_spec(encode_utf8(text), Encoding::Ascii)
            == Ok::<Seq<char>, Seq<char>>(text),
{
    if is_ascii_chars(text) {
        is_ascii_chars_encode_utf8(text);
        let b = encode_utf8(text);
        assert forall|i: int| 0 <= i < b.len() implies #[trigger] b[i] <= 0x7f by {
            assert(b[i] == text[i] as u8);
        }
        assert forall|i: int| 0 <= i < b.len() implies #[trigger] bytes_as_chars(b)[i] == text[i] by {
            let c = text[i];
            assert(b[i] == c as u8);
            vstd::utf8::char_u32_cast(c, c as u32);
        }
        assert(bytes_as_chars(b) == text);
    }
}

} // verus!
