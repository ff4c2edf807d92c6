//! Application state and the pure helpers of the message log: line framing of
//! received data, line endings of sent data, display of messages, the bounded
//! log and the loop-send generation rule.

use crate::serial::encoding::{
    char_utf8_len, decode_received_bytes_lossy, encode_spec, format_hex, format_hex_spec,
    gbk_size_ok, hex_input_cuts_character, hex_pair_value, hex_scan, lossy_text, parse_hex_spec,
    scan_after, utf8_len, HexScan,
};
use crate::text::{
    chars_of, decimal, is_digit, is_white_space, is_whitespace, lemma_decimal_digits, push_char,
    push_decimal, push_zero_padded, to_uppercase, trim_end, trim_end_spec, unicode_uppercase,
    without_whitespace, zero_padded,
};
use chrono::Timelike;
use vstd::prelude::*;
use vstd::string::{StrSliceExecFns, StringExecFns, StringSliceAdditionalSpecFns};
use vstd::utf8::{encode_utf8, is_ascii_chars};

verus! {

broadcast use vstd::string::group_string_axioms;

/// Character encoding used to turn text into bytes and back.
#[derive(Debug, Clone, Copy, PartialEq, Eq, Structural)]
pub enum Encoding {
    Ascii,
    Hex,
    Utf8,
    Gbk,
}

impl Default for Encoding {
    fn default() -> (e: Self)
        ensures
            e == Encoding::Ascii,
    {
        Encoding::Ascii
    }
}

/// Whether a log entry was received from the port or sent to it.
#[derive(Debug, Clone, Copy, PartialEq, Eq, Structural)]
pub enum MessageDirection {
    Received,
    Sent,
}

/// Line ending appended to each sent payload.
#[derive(Debug, Clone, Copy, PartialEq, Eq, Structural)]
pub enum SendLineEnding {
    NoEnding,
    Cr,
    Lf,
    Crlf,
}

impl Default for SendLineEnding {
    fn default() -> (e: Self)
        ensures
            e == SendLineEnding::NoEnding,
    {
        SendLineEnding::NoEnding
    }
}

/// Serial parameters as the user chose them; the strings are validated when
/// the port is opened.
#[derive(Debug, Clone)]
pub struct PortConfig {
    pub port_name: String,
    pub baud_rate: u32,
    pub data_bits: u8,
    pub stop_bits: String,
    pub parity: String,
    pub flow_control: String,
}

/// The settings a fresh installation starts with.
pub open spec fn is_default_port_config(c: PortConfig) -> bool {
    &&& c.port_name@ == Seq::<char>::empty()
    &&& c.baud_rate == 115_200
    &&& c.data_bits == 8
    &&& c.stop_bits@ == "1"@
    &&& c.parity@ == "none"@
    &&& c.flow_control@ == "none"@
}

impl Default for PortConfig {
    fn default() -> (c: Self)
        ensures
            is_default_port_config(c),
    {
        PortConfig {
            port_name: String::new(),
            baud_rate: 115_200,
            data_bits: 8,
            stop_bits: String::from_str("1"),
            parity: String::from_str("none"),
            flow_control: String::from_str("none"),
        }
    }
}

/// One entry of the message log.
#[derive(Debug, Clone)]
pub struct ReceivedMessage {
    pub direction: MessageDirection,
    pub timestamp: String,
    pub data: String,
    pub encoding: Encoding,
    pub raw_bytes: Vec<u8>,
}

// ---------------------------------------------------------------------------
// Line framing.
// ---------------------------------------------------------------------------

/// One step of line framing: CR and LF end a line, and an LF right after a
/// CR is swallowed so that CRLF is a single break. The state is the pending
/// partial line and whether an LF is to be swallowed.
pub open spec fn frame_step<T>(st: (Seq<T>, bool), x: T, cr: T, lf: T) -> ((Seq<T>, bool), Seq<
    Seq<T>,
>) {
    if st.1 && x == lf {
        ((st.0, false), Seq::empty())
    } else if x == cr {
        ((Seq::empty(), true), seq![st.0])
    } else if x == lf {
        ((Seq::empty(), false), seq![st.0])
    } else {
        ((st.0.push(x), false), Seq::empty())
    }
}

/// Line framing of a whole stream: the final state and the completed lines.
pub open spec fn frame_all<T>(st: (Seq<T>, bool), xs: Seq<T>, cr: T, lf: T) -> ((Seq<T>, bool), Seq<
    Seq<T>,
>)
    decreases xs.len(),
{
    if xs.len() == 0 {
        (st, Seq::empty())
    } else {
        let (s1, f1) = frame_all(st, xs.drop_last(), cr, lf);
        let (s2, f2) = frame_step(s1, xs.last(), cr, lf);
        (s2, f1 + f2)
    }
}

/// Splits incoming data into lines. Text is framed as characters and raw
/// bytes as bytes, each with its own partial line.
#[derive(Debug)]
pub struct ReceiveLineBuffer {
    pending: String,
    skip_next_lf: bool,
    pending_raw: Vec<u8>,
    skip_next_lf_raw: bool,
}

impl ReceiveLineBuffer {
    /// Neither partial line holds a CR or an LF: those always end a line.
    #[verifier::type_invariant]
    spec fn holds_no_breaks(self) -> bool {
        &&& !self.pending@.contains('\r')
        &&& !self.pending@.contains('\n')
        &&& !self.pending_raw@.contains(13u8)
        &&& !self.pending_raw@.contains(10u8)
    }

    /// Framing state of the text path: partial line and LF-swallow flag.
    pub closed spec fn text_state(&self) -> (Seq<char>, bool) {
        (self.pending@, self.skip_next_lf)
    }

    /// Framing state of the byte path: partial line and LF-swallow flag.
    pub closed spec fn byte_state(&self) -> (Seq<u8>, bool) {
        (self.pending_raw@, self.skip_next_lf_raw)
    }

    /// Both paths start with no partial line.
    pub open spec fn is_empty_state(&self) -> bool {
        &&& self.text_state() == (Seq::<char>::empty(), false)
        &&& self.byte_state() == (Seq::<u8>::empty(), false)
    }

    pub fn new() -> (b: Self)
        ensures
            b.is_empty_state(),
    {
        ReceiveLineBuffer {
            pending: String::new(),
            skip_next_lf: false,
            pending_raw: Vec::new(),
            skip_next_lf_raw: false,
        }
    }

    /// Drops any partial line on both paths.
    pub fn clear(&mut self)
        ensures
            final(self).is_empty_state(),
    {
        proof {
            use_type_invariant(&*self);
        }
        self.pending = String::new();
        proof {
            lemma_empty_holds_none(self.pending@);
        }
        self.skip_next_lf = false;
        self.pending_raw = Vec::new();
        proof {
            lemma_empty_holds_none(self.pending_raw@);
        }
        self.skip_next_lf_raw = false;
    }

    /// The partial line of the text path.
    pub fn pending(&self) -> (s: &str)
        ensures
            s@ == self.text_state().0,
            !s@.contains('\r') && !s@.contains('\n'),
    {
        proof {
            use_type_invariant(self);
        }
        self.pending.as_str()
    }

    /// The partial line of the byte path.
    pub fn pending_bytes(&self) -> (b: &[u8])
        ensures
            b@ == self.byte_state().0,
            !b@.contains(13u8) && !b@.contains(10u8),
    {
        proof {
            use_type_invariant(self);
        }
        self.pending_raw.as_slice()
    }

    /// Whether the byte path holds a partial line.
    pub fn has_pending(&self) -> (b: bool)
        ensures
            b == (self.byte_state().0.len() > 0),
    {
        self.pending_raw.len() > 0
    }

    /// Removes and returns the partial line of the byte path.
    pub fn take_pending(&mut self) -> (b: Vec<u8>)
        ensures
            b@ == old(self).byte_state().0,
            final(self).byte_state() == (Seq::<u8>::empty(), old(self).byte_state().1),
            final(self).text_state() == old(self).text_state(),
    {
        proof {
            use_type_invariant(&*self);
        }
        let mut out = Vec::new();
        proof {
            lemma_empty_holds_none(out@);
        }
        std::mem::swap(&mut out, &mut self.pending_raw);
        out
    }
}

impl Clone for ReceiveLineBuffer {
    /// A copy with the same partial lines and flags.
    fn clone(&self) -> (c: Self)
        ensures
            c.text_state() == self.text_state(),
            c.byte_state() == self.byte_state(),
    {
        proof {
            use_type_invariant(self);
        }
        ReceiveLineBuffer {
            pending: self.pending.clone(),
            skip_next_lf: self.skip_next_lf,
            pending_raw: vstd::slice::slice_to_vec(self.pending_raw.as_slice()),
            skip_next_lf_raw: self.skip_next_lf_raw,
        }
    }
}

impl Default for ReceiveLineBuffer {
    fn default() -> (b: Self)
        ensures
            b.is_empty_state(),
    {
        ReceiveLineBuffer::new()
    }
}

/// An empty sequence holds nothing.
proof fn lemma_empty_holds_none<T>(s: Seq<T>)
    requires
        s.len() == 0,
    ensures
        forall|y: T| !s.contains(y),
{
}

/// Appending an element other than `y` to a sequence without `y` gives a
/// sequence without `y`.
proof fn lemma_push_keeps_out<T>(s: Seq<T>, x: T, y: T)
    requires
        !s.contains(y),
        x != y,
    ensures
        !s.push(x).contains(y),
{
    if s.push(x).contains(y) {
        let k = choose|k: int| 0 <= k < s.push(x).len() && s.push(x)[k] == y;
        if k < s.len() {
            assert(s[k] == y);
        }
    }
}

/// A line cut from a received text message: it keeps the message's time
/// stamp and encoding and carries no raw bytes.
pub open spec fn is_text_line(m: ReceivedMessage, source: ReceivedMessage, line: Seq<char>) -> bool {
    &&& m.direction == MessageDirection::Received
    &&& m.timestamp@ == source.timestamp@
    &&& m.data@ == line
    &&& m.encoding == source.encoding
    &&& m.raw_bytes@ == Seq::<u8>::empty()
}

/// Splits a received text message into complete lines (CR, LF and CRLF end a
/// line, also when CR and LF arrive in different messages); an unfinished
/// line stays in `buffer` for the next message.
pub fn split_received_message_lines(buffer: &mut ReceiveLineBuffer, message: ReceivedMessage) -> (lines:
    Vec<ReceivedMessage>)
    ensures
        ({
            let (st, fs) = frame_all(old(buffer).text_state(), message.data@, '\r', '\n');
            &&& final(buffer).text_state() == st
            &&& lines@.len() == fs.len()
            &&& forall|i: int|
                0 <= i < fs.len() ==> is_text_line(#[trigger] lines@[i], message, fs[i])
        }),
        final(buffer).byte_state() == old(buffer).byte_state(),
        forall|i: int|
            0 <= i < lines@.len() ==> !(#[trigger] lines@[i]).data@.contains('\r')
                && !lines@[i].data@.contains('\n'),
{
    let mut lines: Vec<ReceivedMessage> = Vec::new();
    proof {
        use_type_invariant(&*buffer);
    }
    let ghost st0 = buffer.text_state();
    let ghost data = message.data@;
    for ch in it: message.data.as_str().chars()
        invariant
            it.seq() == data,
            data == message.data@,
            buffer.holds_no_breaks(),
            buffer.byte_state() == old(buffer).byte_state(),
            st0 == old(buffer).text_state(),
            ({
                let (st, fs) = frame_all(st0, data.take(it.index() as int), '\r', '\n');
                &&& buffer.text_state() == st
                &&& lines@.len() == fs.len()
                &&& forall|i: int|
                    0 <= i < fs.len() ==> is_text_line(#[trigger] lines@[i], message, fs[i])
            }),
    {
        let ghost k = it.index();
        let ghost t = data.take(k + 1);
        assert(t.drop_last() == data.take(k as int));
        assert(t.last() == ch);
        let ghost prev = frame_all(st0, data.take(k as int), '\r', '\n');
        let ghost old_lines = lines@;
        if buffer.skip_next_lf && ch == '\n' {
            buffer.skip_next_lf = false;
            assert(prev.1 + Seq::<Seq<char>>::empty() == prev.1);
        } else {
            buffer.skip_next_lf = false;
            if ch == '\r' || ch == '\n' {
                let mut line = String::new();
                std::mem::swap(&mut line, &mut buffer.pending);
                lines.push(
                    ReceivedMessage {
                        direction: MessageDirection::Received,
                        timestamp: message.timestamp.clone(),
                        data: line,
                        encoding: message.encoding,
                        raw_bytes: Vec::new(),
                    },
                );
                if ch == '\r' {
                    buffer.skip_next_lf = true;
                }
                proof {
                    let fs = prev.1 + seq![prev.0.0];
                    assert forall|i: int| 0 <= i < fs.len() implies is_text_line(
                        #[trigger] lines@[i],
                        message,
                        fs[i],
                    ) by {
                        if i < prev.1.len() {
                            assert(lines@[i] == old_lines[i]);
                        }
                    }
                }
            } else {
                proof {
                    use_type_invariant(&*buffer);
                }
                let mut partial = String::new();
                std::mem::swap(&mut partial, &mut buffer.pending);
                let ghost before = partial@;
                push_char(&mut partial, ch);
                proof {
                    lemma_push_keeps_out(before, ch, '\r');
                    lemma_push_keeps_out(before, ch, '\n');
                }
                buffer.pending = partial;
                assert(prev.1 + Seq::<Seq<char>>::empty() == prev.1);
            }
        }
    }
    assert(data.take(data.len() as int) == data);
    proof {
        law_lines_hold_no_breaks(st0, data, '\r', '\n');
    }
    lines
}

/// A line cut from received bytes: time stamp and encoding of the chunk, the
/// line's own bytes, and its display text.
pub open spec fn is_byte_line(
    m: ReceivedMessage,
    timestamp: Seq<char>,
    line: Seq<u8>,
    encoding: Encoding,
) -> bool {
    &&& m.direction == MessageDirection::Received
    &&& m.timestamp@ == timestamp
    &&& m.data@ == lossy_text(line, encoding)
    &&& m.encoding == encoding
    &&& m.raw_bytes@ == line
}

proof fn lemma_frame_lengths<T>(st: (Seq<T>, bool), xs: Seq<T>, cr: T, lf: T)
    ensures
        ({
            let (s, fs) = frame_all(st, xs, cr, lf);
            &&& s.0.len() <= st.0.len() + xs.len()
            &&& forall|i: int| 0 <= i < fs.len() ==> #[trigger] fs[i].len() <= st.0.len() + xs.len()
        }),
    decreases xs.len(),
{
    if xs.len() > 0 {
        lemma_frame_lengths(st, xs.drop_last(), cr, lf);
    }
}

/// Splits received bytes into complete lines on CR, LF and CRLF (also across
/// chunks); every line keeps its raw bytes and is shown in `encoding`. An
/// unfinished line stays in `buffer` for the next chunk.
pub fn split_received_data_lines(
    buffer: &mut ReceiveLineBuffer,
    timestamp: &str,
    raw_bytes: &[u8],
    encoding: &Encoding,
) -> (lines: Vec<ReceivedMessage>)
    requires
        *encoding == Encoding::Gbk ==> gbk_size_ok(
            old(buffer).byte_state().0.len() + raw_bytes@.len(),
        ),
    ensures
        ({
            let (st, fs) = frame_all(old(buffer).byte_state(), raw_bytes@, 13u8, 10u8);
            &&& final(buffer).byte_state() == st
            &&& lines@.len() == fs.len()
            &&& forall|i: int|
                0 <= i < fs.len() ==> is_byte_line(#[trigger] lines@[i], timestamp@, fs[i], *encoding)
        }),
        final(buffer).text_state() == old(buffer).text_state(),
        final(buffer).byte_state().0.len() <= old(buffer).byte_state().0.len() + raw_bytes@.len(),
        forall|i: int|
            0 <= i < lines@.len() ==> !(#[trigger] lines@[i]).raw_bytes@.contains(13u8)
                && !lines@[i].raw_bytes@.contains(10u8),
{
    let mut lines: Vec<ReceivedMessage> = Vec::new();
    proof {
        use_type_invariant(&*buffer);
    }
    let ghost st0 = buffer.byte_state();
    let mut i: usize = 0;
    while i < raw_bytes.len()
        invariant
            i <= raw_bytes@.len(),
            buffer.holds_no_breaks(),
            buffer.text_state() == old(buffer).text_state(),
            st0 == old(buffer).byte_state(),
            *encoding == Encoding::Gbk ==> gbk_size_ok(st0.0.len() + raw_bytes@.len()),
            ({
                let (st, fs) = frame_all(st0, raw_bytes@.take(i as int), 13u8, 10u8);
                &&& buffer.byte_state() == st
                &&& lines@.len() == fs.len()
                &&& forall|j: int|
                    0 <= j < fs.len() ==> is_byte_line(
                        #[trigger] lines@[j],
                        timestamp@,
                        fs[j],
                        *encoding,
                    )
            }),
        decreases raw_bytes@.len() - i,
    {
        let b = raw_bytes[i];
        let ghost t = raw_bytes@.take(i + 1);
        assert(t.drop_last() == raw_bytes@.take(i as int));
        assert(t.last() == b);
        let ghost prev = frame_all(st0, raw_bytes@.take(i as int), 13u8, 10u8);
        let ghost old_lines = lines@;
        proof {
            lemma_frame_lengths(st0, raw_bytes@.take(i as int), 13u8, 10u8);
        }
        if buffer.skip_next_lf_raw && b == 10 {
            buffer.skip_next_lf_raw = false;
            assert(prev.1 + Seq::<Seq<u8>>::empty() == prev.1);
        } else {
            buffer.skip_next_lf_raw = false;
            if b == 13 || b == 10 {
                let mut line: Vec<u8> = Vec::new();
                std::mem::swap(&mut line, &mut buffer.pending_raw);
                let data = decode_received_bytes_lossy(line.as_slice(), encoding);
                lines.push(
                    ReceivedMessage {
                        direction: MessageDirection::Received,
                        timestamp: String::from_str(timestamp),
                        data,
                        encoding: *encoding,
                        raw_bytes: line,
                    },
                );
                if b == 13 {
                    buffer.skip_next_lf_raw = true;
                }
                proof {
                    let fs = prev.1 + seq![prev.0.0];
                    assert forall|j: int| 0 <= j < fs.len() implies is_byte_line(
                        #[trigger] lines@[j],
                        timestamp@,
                        fs[j],
                        *encoding,
                    ) by {
                        if j < prev.1.len() {
                            assert(lines@[j] == old_lines[j]);
                        }
                    }
                }
            } else {
                proof {
                    use_type_invariant(&*buffer);
                }
                let mut partial: Vec<u8> = Vec::new();
                std::mem::swap(&mut partial, &mut buffer.pending_raw);
                let ghost before = partial@;
                partial.push(b);
                proof {
                    lemma_push_keeps_out(before, b, 13u8);
                    lemma_push_keeps_out(before, b, 10u8);
                }
                buffer.pending_raw = partial;
                assert(prev.1 + Seq::<Seq<u8>>::empty() == prev.1);
            }
        }
        i += 1;
    }
    assert(raw_bytes@.take(raw_bytes@.len() as int) == raw_bytes@);
    proof {
        lemma_frame_lengths(st0, raw_bytes@, 13u8, 10u8);
        law_lines_hold_no_breaks(st0, raw_bytes@, 13u8, 10u8);
    }
    lines
}

/// Framing does not depend on how the stream is cut into chunks: framing `a`
/// and then `b` gives the same lines and state as framing `a + b` at once.
pub proof fn law_framing_is_chunk_independent<T>(st: (Seq<T>, bool), a: Seq<T>, b: Seq<T>, cr: T, lf: T)
    ensures
        ({
            let (s1, f1) = frame_all(st, a, cr, lf);
            let (s2, f2) = frame_all(s1, b, cr, lf);
            frame_all(st, a + b, cr, lf) == (s2, f1 + f2)
        }),
    decreases b.len(),
{
    if b.len() == 0 {
        assert(a + b == a);
        let (s1, f1) = frame_all(st, a, cr, lf);
        assert(f1 + Seq::<Seq<T>>::empty() == f1);
    } else {
        law_framing_is_chunk_independent(st, a, b.drop_last(), cr, lf);
        assert((a + b).drop_last() == a + b.drop_last());
        assert((a + b).last() == b.last());
        let (s1, f1) = frame_all(st, a, cr, lf);
        let (s2, f2) = frame_all(s1, b.drop_last(), cr, lf);
        let (s3, f3) = frame_step(s2, b.last(), cr, lf);
        assert(f1 + f2 + f3 == f1 + (f2 + f3));
    }
}

/// The stream without its CRs and LFs.
pub open spec fn without_breaks<T>(xs: Seq<T>, cr: T, lf: T) -> Seq<T>
    decreases xs.len(),
{
    if xs.len() == 0 {
        Seq::empty()
    } else if xs.last() == cr || xs.last() == lf {
        without_breaks(xs.drop_last(), cr, lf)
    } else {
        without_breaks(xs.drop_last(), cr, lf).push(xs.last())
    }
}

/// Lines one after the other, with nothing between them.
pub open spec fn concat_lines<T>(fs: Seq<Seq<T>>) -> Seq<T>
    decreases fs.len(),
{
    if fs.len() == 0 {
        Seq::empty()
    } else {
        concat_lines(fs.drop_last()) + fs.last()
    }
}

/// Framing loses nothing but the line breaks: the partial line at the start
/// followed by the stream without its CRs and LFs is the completed lines one
/// after the other, followed by the partial line at the end.
pub proof fn law_framing_keeps_text<T>(st: (Seq<T>, bool), xs: Seq<T>, cr: T, lf: T)
    ensures
        ({
            let (s, fs) = frame_all(st, xs, cr, lf);
            st.0 + without_breaks(xs, cr, lf) == concat_lines(fs) + s.0
        }),
    decreases xs.len(),
{
    if xs.len() == 0 {
        assert(st.0 + Seq::<T>::empty() == st.0);
        assert(Seq::<T>::empty() + st.0 == st.0);
    } else {
        law_framing_keeps_text(st, xs.drop_last(), cr, lf);
        let (s1, f1) = frame_all(st, xs.drop_last(), cr, lf);
        let x = xs.last();
        let w1 = without_breaks(xs.drop_last(), cr, lf);
        assert(f1 + Seq::<Seq<T>>::empty() == f1);
        if s1.1 && x == lf {
        } else if x == cr || x == lf {
            let f = f1 + seq![s1.0];
            assert(f.drop_last() == f1);
            assert(concat_lines(f) == concat_lines(f1) + s1.0);
            assert(concat_lines(f) + Seq::<T>::empty() == concat_lines(f));
        } else {
            assert(st.0 + w1.push(x) == (st.0 + w1).push(x));
            assert(concat_lines(f1) + s1.0.push(x) == (concat_lines(f1) + s1.0).push(x));
        }
    }
}

/// No completed line and no partial line ever holds a CR or an LF, provided
/// the partial line did not hold one to start with.
pub proof fn law_lines_hold_no_breaks<T>(st: (Seq<T>, bool), xs: Seq<T>, cr: T, lf: T)
    requires
        !st.0.contains(cr),
        !st.0.contains(lf),
    ensures
        ({
            let (s, fs) = frame_all(st, xs, cr, lf);
            &&& !s.0.contains(cr)
            &&& !s.0.contains(lf)
            &&& forall|i: int| 0 <= i < fs.len() ==> !(#[trigger] fs[i]).contains(cr) && !fs[i].contains(lf)
        }),
    decreases xs.len(),
{
    if xs.len() > 0 {
        law_lines_hold_no_breaks(st, xs.drop_last(), cr, lf);
        let (s1, f1) = frame_all(st, xs.drop_last(), cr, lf);
        let x = xs.last();
        if !(s1.1 && x == lf) && x != cr && x != lf {
            assert forall|y: T| s1.0.push(x).contains(y) implies s1.0.contains(y) || y == x by {
                let k = choose|k: int| 0 <= k < s1.0.push(x).len() && s1.0.push(x)[k] == y;
                if k < s1.0.len() {
                    assert(s1.0[k] == y);
                }
            }
        }
    }
}

// ---------------------------------------------------------------------------
// Sending.
// ---------------------------------------------------------------------------

/// The text appended for a line ending: hex pairs for HEX payloads, control
/// characters otherwise.
pub open spec fn line_ending_suffix(encoding: Encoding, ending: SendLineEnding) -> Seq<char> {
    match (encoding, ending) {
        (_, SendLineEnding::NoEnding) => Seq::empty(),
        (Encoding::Hex, SendLineEnding::Cr) => "0D"@,
        (Encoding::Hex, SendLineEnding::Lf) => "0A"@,
        (Encoding::Hex, SendLineEnding::Crlf) => "0D 0A"@,
        (_, SendLineEnding::Cr) => seq!['\r'],
        (_, SendLineEnding::Lf) => seq!['\n'],
        (_, SendLineEnding::Crlf) => seq!['\r', '\n'],
    }
}

/// The payload with its line ending: HEX text drops trailing whitespace and
/// gets the ending pair after one space (just the pair when nothing is left);
/// other text gets the control characters appended.
pub open spec fn with_line_ending(content: Seq<char>, encoding: Encoding, ending: SendLineEnding) -> Seq<
    char,
> {
    let suffix = line_ending_suffix(encoding, ending);
    if suffix.len() == 0 {
        content
    } else if encoding == Encoding::Hex {
        let clean = trim_end_spec(content);
        if clean.len() == 0 {
            suffix
        } else {
            clean.push(' ') + suffix
        }
    } else {
        content + suffix
    }
}

/// For every encoding but HEX the payload is sent as it is, followed by the
/// control characters of the line ending: nothing for none, CR, LF, or CR
/// then LF.
pub proof fn law_line_ending_appends_control_chars(
    content: Seq<char>,
    encoding: Encoding,
    ending: SendLineEnding,
)
    requires
        encoding != Encoding::Hex,
    ensures
        ending == SendLineEnding::NoEnding ==> with_line_ending(content, encoding, ending)
            == content,
        ending == SendLineEnding::Cr ==> with_line_ending(content, encoding, ending)
            == content.push('\r'),
        ending == SendLineEnding::Lf ==> with_line_ending(content, encoding, ending)
            == content.push('\n'),
        ending == SendLineEnding::Crlf ==> with_line_ending(content, encoding, ending)
            == content.push('\r').push('\n'),
{
    assert(content + seq!['\r'] == content.push('\r'));
    assert(content + seq!['\n'] == content.push('\n'));
    assert(content + seq!['\r', '\n'] == content.push('\r').push('\n'));
}

/// Adds the selected line ending to a payload.
pub fn apply_send_line_ending(content: &str, encoding: &Encoding, ending: &SendLineEnding) -> (r:
    String)
    ensures
        r@ == with_line_ending(content@, *encoding, *ending),
{
    proof {
        reveal_strlit("0D");
        reveal_strlit("0A");
        reveal_strlit("0D 0A");
    }
    let suffix: &str = match (encoding, ending) {
        (_, SendLineEnding::NoEnding) => "",
        (Encoding::Hex, SendLineEnding::Cr) => "0D",
        (Encoding::Hex, SendLineEnding::Lf) => "0A",
        (Encoding::Hex, SendLineEnding::Crlf) => "0D 0A",
        (_, SendLineEnding::Cr) => "\r",
        (_, SendLineEnding::Lf) => "\n",
        (_, SendLineEnding::Crlf) => "\r\n",
    };
    proof {
        reveal_strlit("");
        reveal_strlit("\r");
        reveal_strlit("\n");
        reveal_strlit("\r\n");
        assert(suffix@ == line_ending_suffix(*encoding, *ending));
    }
    if suffix.unicode_len() == 0 {
        return String::from_str(content);
    }
    if *encoding == Encoding::Hex {
        let clean = trim_end(content);
        if clean.as_str().unicode_len() == 0 {
            String::from_str(suffix)
        } else {
            let mut out = clean;
            push_char(&mut out, ' ');
            out.append(suffix);
            out
        }
    } else {
        let mut out = String::from_str(content);
        out.append(suffix);
        out
    }
}


/// The bytes a line ending adds on the wire.
pub open spec fn line_ending_bytes(ending: SendLineEnding) -> Seq<u8> {
    match ending {
        SendLineEnding::NoEnding => Seq::empty(),
        SendLineEnding::Cr => seq![13u8],
        SendLineEnding::Lf => seq![10u8],
        SendLineEnding::Crlf => seq![13u8, 10u8],
    }
}

proof fn lemma_encode_utf8_concat(a: Seq<char>, b: Seq<char>)
    ensures
        encode_utf8(a + b) == encode_utf8(a) + encode_utf8(b),
    decreases a.len(),
{
    if a.len() == 0 {
        assert(a + b == b);
        assert(Seq::<u8>::empty() + encode_utf8(b) == encode_utf8(b));
    } else {
        assert((a + b).drop_first() == a.drop_first() + b);
        assert((a + b)[0] == a[0]);
        lemma_encode_utf8_concat(a.drop_first(), b);
    }
}

proof fn lemma_control_suffix_bytes(ending: SendLineEnding)
    ensures
        encode_utf8(line_ending_suffix(Encoding::Utf8, ending)) == line_ending_bytes(ending),
        is_ascii_chars(line_ending_suffix(Encoding::Utf8, ending)),
{
    let s = line_ending_suffix(Encoding::Utf8, ending);
    vstd::utf8::is_ascii_chars_encode_utf8(s);
    assert(encode_utf8(s) == line_ending_bytes(ending));
}

/// For UTF-8 text, and for ASCII text that is all ASCII, the line ending adds
/// exactly its CR/LF bytes after the payload's bytes.
pub proof fn law_line_ending_adds_control_bytes(
    content: Seq<char>,
    wire: Seq<char>,
    encoding: Encoding,
    ending: SendLineEnding,
)
    requires
        encoding == Encoding::Utf8 || (encoding == Encoding::Ascii && is_ascii_chars(content)),
        wire == with_line_ending(content, encoding, ending),
    ensures
        encode_spec(content, encoding) is Ok,
        encode_spec(wire, encoding) == Ok::<Seq<u8>, Seq<char>>(
            encode_spec(content, encoding)->Ok_0 + line_ending_bytes(ending),
        ),
{
    let suffix = line_ending_suffix(encoding, ending);
    assert(suffix == line_ending_suffix(Encoding::Utf8, ending));
    lemma_control_suffix_bytes(ending);
    if suffix.len() == 0 {
        assert(line_ending_bytes(ending) == Seq::<u8>::empty());
        assert(encode_utf8(content) + Seq::<u8>::empty() == encode_utf8(content));
    } else {
        assert(wire == content + suffix);
        lemma_encode_utf8_concat(content, suffix);
        if encoding == Encoding::Ascii {
            assert(is_ascii_chars(wire));
        }
    }
}

proof fn lemma_without_whitespace_trim_end(s: Seq<char>)
    ensures
        without_whitespace(trim_end_spec(s)) == without_whitespace(s),
    decreases s.len(),
{
    if s.len() > 0 && is_white_space(s.last()) {
        lemma_without_whitespace_trim_end(s.drop_last());
    }
}

proof fn lemma_without_whitespace_append(a: Seq<char>, b: Seq<char>)
    ensures
        without_whitespace(a + b) == without_whitespace(a) + without_whitespace(b),
    decreases b.len(),
{
    if b.len() == 0 {
        assert(a + b == a);
        assert(without_whitespace(a) + Seq::<char>::empty() == without_whitespace(a));
    } else {
        lemma_without_whitespace_append(a, b.drop_last());
        assert((a + b).drop_last() == a + b.drop_last());
        assert((a + b).last() == b.last());
        if !is_white_space(b.last()) {
            assert(without_whitespace(a) + without_whitespace(b.drop_last()).push(b.last())
                == (without_whitespace(a) + without_whitespace(b.drop_last())).push(b.last()));
        }
    }
}

proof fn lemma_utf8_len_append(a: Seq<char>, b: Seq<char>)
    ensures
        utf8_len(a + b) == utf8_len(a) + utf8_len(b),
    decreases b.len(),
{
    if b.len() == 0 {
        assert(a + b == a);
    } else {
        lemma_utf8_len_append(a, b.drop_last());
        assert((a + b).drop_last() == a + b.drop_last());
        assert((a + b).last() == b.last());
    }
}

proof fn lemma_scan_append(x: Seq<char>, y: Seq<char>)
    requires
        hex_scan(x) is Bytes,
    ensures
        hex_scan(x + y) == scan_after(hex_scan(x)->Bytes_0, hex_scan(y)),
    decreases x.len(),
{
    if x.len() == 0 {
        assert(x + y == y);
        match hex_scan(y) {
            HexScan::Bytes(r) => {
                assert(Seq::<u8>::empty() + r == r);
            },
            _ => {},
        }
    } else {
        let xy = x + y;
        assert(xy[0] == x[0] && xy[1] == x[1]);
        assert(xy.skip(2) == x.skip(2) + y);
        lemma_scan_append(x.skip(2), y);
        let v = hex_pair_value(x[0], x[1])->Some_0;
        match hex_scan(y) {
            HexScan::Bytes(r) => {
                let rest = hex_scan(x.skip(2))->Bytes_0;
                assert(seq![v] + (rest + r) == (seq![v] + rest) + r);
            },
            _ => {},
        }
    }
}

proof fn lemma_hex_suffix(ending: SendLineEnding)
    requires
        ending != SendLineEnding::NoEnding,
    ensures
        ({
            let w = without_whitespace(line_ending_suffix(Encoding::Hex, ending));
            &&& utf8_len(w) % 2 == 0
            &&& hex_scan(w) == HexScan::Bytes(line_ending_bytes(ending))
        }),
{
    reveal_strlit("0D");
    reveal_strlit("0A");
    reveal_strlit("0D 0A");
    let s = line_ending_suffix(Encoding::Hex, ending);
    let zd = seq!['0', 'D'];
    let za = seq!['0', 'A'];
    assert(without_whitespace(seq!['0']) == seq!['0']) by {
        assert(seq!['0'].drop_last() == Seq::<char>::empty());
        assert(seq!['0'].last() == '0');
        assert(!is_white_space('0'));
        assert(without_whitespace(Seq::<char>::empty()) == Seq::<char>::empty());
        assert(Seq::<char>::empty().push('0') == seq!['0']);
    }
    assert(without_whitespace(zd) == zd) by {
        assert(zd.drop_last() == seq!['0']);
        assert(seq!['0'].push('D') == zd);
    }
    assert(without_whitespace(za) == za) by {
        assert(za.drop_last() == seq!['0']);
        assert(seq!['0'].push('A') == za);
    }
    assert(utf8_len(seq!['0']) == 1) by {
        assert(seq!['0'].drop_last() == Seq::<char>::empty());
        assert(seq!['0'].last() == '0');
        assert(char_utf8_len('0') == 1);
        assert(utf8_len(Seq::<char>::empty()) == 0);
    }
    assert(utf8_len(zd) == 2) by {
        assert(zd.drop_last() == seq!['0']);
    }
    assert(utf8_len(za) == 2) by {
        assert(za.drop_last() == seq!['0']);
    }
    assert(zd.skip(2) == Seq::<char>::empty());
    assert(za.skip(2) == Seq::<char>::empty());
    assert(hex_pair_value('0', 'D') == Some(13u8));
    assert(hex_pair_value('0', 'A') == Some(10u8));
    assert(hex_scan(Seq::<char>::empty()) == HexScan::Bytes(Seq::<u8>::empty()));
    assert(hex_scan(zd) == HexScan::Bytes(seq![13u8])) by {
        assert(seq![13u8] + Seq::<u8>::empty() == seq![13u8]);
    }
    assert(hex_scan(za) == HexScan::Bytes(seq![10u8])) by {
        assert(seq![10u8] + Seq::<u8>::empty() == seq![10u8]);
    }
    if ending == SendLineEnding::Cr {
        assert(s == zd);
    } else if ending == SendLineEnding::Lf {
        assert(s == za);
    } else {
        assert(s == zd.push(' ') + za);
        lemma_without_whitespace_append(zd.push(' '), za);
        assert(zd.push(' ').drop_last() == zd);
        assert(without_whitespace(s) == zd + za);
        lemma_utf8_len_append(zd, za);
        lemma_scan_append(zd, za);
        assert(seq![13u8] + seq![10u8] == seq![13u8, 10u8]);
    }
}

/// For HEX text that parses, the line ending adds exactly its CR/LF bytes
/// after the parsed bytes.
pub proof fn law_hex_line_ending_adds_control_bytes(content: Seq<char>, ending: SendLineEnding)
    requires
        parse_hex_spec(content) is Ok,
    ensures
        !hex_input_cuts_character(with_line_ending(content, Encoding::Hex, ending)),
        parse_hex_spec(with_line_ending(content, Encoding::Hex, ending)) == Ok::<
            Seq<u8>,
            Seq<char>,
        >(parse_hex_spec(content)->Ok_0 + line_ending_bytes(ending)),
{
    let b = parse_hex_spec(content)->Ok_0;
    let wc = without_whitespace(content);
    if ending == SendLineEnding::NoEnding {
        assert(b + Seq::<u8>::empty() == b);
    } else {
        let suffix = line_ending_suffix(Encoding::Hex, ending);
        let ws = without_whitespace(suffix);
        lemma_hex_suffix(ending);
        let clean = trim_end_spec(content);
        lemma_without_whitespace_trim_end(content);
        let wire = with_line_ending(content, Encoding::Hex, ending);
        if clean.len() == 0 {
            assert(wc == Seq::<char>::empty());
            assert(b == Seq::<u8>::empty());
            assert(Seq::<u8>::empty() + line_ending_bytes(ending) == line_ending_bytes(ending));
        } else {
            lemma_without_whitespace_append(clean.push(' '), suffix);
            assert(clean.push(' ').drop_last() == clean);
            assert(without_whitespace(wire) == wc + ws);
            lemma_utf8_len_append(wc, ws);
            lemma_scan_append(wc, ws);
        }
    }
}

/// A log entry for data that was sent.
pub fn sent_message(timestamp: &str, data: String, encoding: Encoding, raw_bytes: Vec<u8>) -> (m:
    ReceivedMessage)
    ensures
        m.direction == MessageDirection::Sent,
        m.timestamp@ == timestamp@,
        m.data@ == data@,
        m.encoding == encoding,
        m.raw_bytes@ == raw_bytes@,
{
    ReceivedMessage {
        direction: MessageDirection::Sent,
        timestamp: String::from_str(timestamp),
        data,
        encoding,
        raw_bytes,
    }
}

// ---------------------------------------------------------------------------
// Time stamps and identifiers.
// ---------------------------------------------------------------------------

/// The local time of day from `chrono::Local::now()`: hour, minute, second and
/// nanosecond. Only the ranges chrono documents are stated; the values depend
/// on the clock and the time zone.
#[verifier::external_body]
fn local_time_of_day() -> (t: (u32, u32, u32, u32))
    ensures
        t.0 < 24,
        t.1 < 60,
        t.2 < 60,
        t.3 < 2_000_000_000,
{
    let now = chrono::Local::now();
    (now.hour(), now.minute(), now.second(), now.nanosecond())
}

/// `HH:MM:SS.mmm`, each part zero-padded.
pub open spec fn timestamp_text(hour: nat, minute: nat, second: nat, millis: nat) -> Seq<char> {
    zero_padded(hour, 2).push(':') + zero_padded(minute, 2).push(':') + zero_padded(second, 2).push(
        '.',
    ) + zero_padded(millis, 3)
}

/// Formats a time of day as `HH:MM:SS.mmm`.
pub fn format_timestamp(hour: u32, minute: u32, second: u32, millis: u32) -> (s: String)
    ensures
        s@ == timestamp_text(hour as nat, minute as nat, second as nat, millis as nat),
{
    let mut s = String::new();
    push_zero_padded(&mut s, hour as u64, 2);
    push_char(&mut s, ':');
    push_zero_padded(&mut s, minute as u64, 2);
    push_char(&mut s, ':');
    push_zero_padded(&mut s, second as u64, 2);
    push_char(&mut s, '.');
    push_zero_padded(&mut s, millis as u64, 3);
    s
}

/// A time of day as the clock reports it, in the form `HH:MM:SS.mmm`; the
/// millisecond part reaches 1000 and above only during a leap second.
pub open spec fn is_clock_timestamp(s: Seq<char>) -> bool {
    exists|h: nat, m: nat, sec: nat, ms: nat|
        h < 24 && m < 60 && sec < 60 && ms < 2000 && s == timestamp_text(h, m, sec, ms)
}

/// The current local time as `HH:MM:SS.mmm`.
pub fn current_message_timestamp() -> (s: String)
    ensures
        is_clock_timestamp(s@),
{
    let (h, m, sec, ns) = local_time_of_day();
    let s = format_timestamp(h, m, sec, ns / 1_000_000);
    assert(s@ == timestamp_text(h as nat, m as nat, sec as nat, (ns / 1_000_000) as nat));
    s
}

/// A lower-case hex digit.
pub open spec fn is_lower_hex_digit(c: char) -> bool {
    ('0' <= c && c <= '9') || ('a' <= c && c <= 'f')
}

/// The hyphenated text of a random UUID: 32 lower-case hex digits in groups
/// of 8, 4, 4, 4 and 12 separated by `-`, with the version digit `4` and an
/// RFC 4122 variant digit (`8`, `9`, `a` or `b`).
pub open spec fn is_uuid_v4_text(s: Seq<char>) -> bool {
    &&& s.len() == 36
    &&& forall|i: int|
        0 <= i < 36 ==> if i == 8 || i == 13 || i == 18 || i == 23 {
            s[i] == '-'
        } else {
            is_lower_hex_digit(#[trigger] s[i])
        }
    &&& s[14] == '4'
    &&& (s[19] == '8' || s[19] == '9' || s[19] == 'a' || s[19] == 'b')
}

/// A fresh identifier for a preset command: `uuid::Uuid::new_v4()` in its
/// `Display` form, which is the lower-case hyphenated text; `new_v4` sets
/// the version and variant bits of a random number. Which random number is
/// not stated, and the uuid crate panics if the system random source fails.
#[verifier::external_body]
pub fn new_preset_command_id() -> (id: String)
    ensures
        is_uuid_v4_text(id@),
{
    uuid::Uuid::new_v4().to_string()
}

// ---------------------------------------------------------------------------
// Display.
// ---------------------------------------------------------------------------

/// Label of a direction in the log and the exports.
pub open spec fn direction_label(direction: MessageDirection) -> Seq<char> {
    match direction {
        MessageDirection::Received => "收到"@,
        MessageDirection::Sent => "发送"@,
    }
}

pub fn message_direction_label(direction: &MessageDirection) -> (s: &'static str)
    ensures
        s@ == direction_label(*direction),
{
    match direction {
        MessageDirection::Received => "收到",
        MessageDirection::Sent => "发送",
    }
}

/// Visible form of one character: CR and LF become `\r` and `\n`.
pub open spec fn visible(c: char) -> Seq<char> {
    if c == '\r' {
        seq!['\\', 'r']
    } else if c == '\n' {
        seq!['\\', 'n']
    } else {
        seq![c]
    }
}

/// Text with CR and LF written as escapes.
pub open spec fn visualize_spec(s: Seq<char>) -> Seq<char>
    decreases s.len(),
{
    if s.len() == 0 {
        Seq::empty()
    } else {
        visualize_spec(s.drop_last()) + visible(s.last())
    }
}

/// Visible text holds no CR or LF, and text without them is shown as it
/// is.
pub proof fn law_visualized_text_has_no_breaks(s: Seq<char>)
    ensures
        !visualize_spec(s).contains('\r'),
        !visualize_spec(s).contains('\n'),
        !s.contains('\r') && !s.contains('\n') ==> visualize_spec(s) == s,
    decreases s.len(),
{
    if s.len() > 0 {
        let dl = s.drop_last();
        law_visualized_text_has_no_breaks(dl);
        let v = visualize_spec(dl);
        let w = visible(s.last());
        assert forall|c: char| c == '\r' || c == '\n' implies !(v + w).contains(c) by {
            if (v + w).contains(c) {
                let k = choose|k: int| 0 <= k < (v + w).len() && (v + w)[k] == c;
                if k < v.len() {
                    assert(v[k] == c);
                } else {
                    assert(w[k - v.len()] == c);
                }
            }
        }
        if !s.contains('\r') && !s.contains('\n') {
            assert(s[s.len() - 1] == s.last());
            assert forall|c: char| dl.contains(c) implies s.contains(c) by {
                let k = choose|k: int| 0 <= k < dl.len() && dl[k] == c;
                assert(s[k] == c);
            }
            assert(dl.push(s.last()) == s);
            assert(dl + seq![s.last()] == s);
        }
    }
}

/// Shows CR and LF as `\r` and `\n` so that control characters are visible.
pub fn visualize_serial_data(data: &str) -> (out: String)
    ensures
        out@ == visualize_spec(data@),
{
    let mut out = String::new();
    for c in it: data.chars()
        invariant
            it.seq() == data@,
            out@ == visualize_spec(data@.take(it.index() as int)),
    {
        assert(data@.take(it.index() + 1).drop_last() == data@.take(it.index() as int));
        if c == '\r' {
            push_char(&mut out, '\\');
            push_char(&mut out, 'r');
        } else if c == '\n' {
            push_char(&mut out, '\\');
            push_char(&mut out, 'n');
        } else {
            push_char(&mut out, c);
        }
    }
    assert(data@.take(data@.len() as int) == data@);
    out
}

/// Whitespace-separated words of `s` (maximal runs of non-whitespace).
pub open spec fn words(s: Seq<char>) -> Seq<Seq<char>> {
    let (done, cur) = word_scan(s);
    if cur.len() > 0 {
        done.push(cur)
    } else {
        done
    }
}

/// Completed words and the word in progress after reading `s`.
pub open spec fn word_scan(s: Seq<char>) -> (Seq<Seq<char>>, Seq<char>)
    decreases s.len(),
{
    if s.len() == 0 {
        (Seq::empty(), Seq::empty())
    } else {
        let (done, cur) = word_scan(s.drop_last());
        if is_white_space(s.last()) {
            if cur.len() > 0 {
                (done.push(cur), Seq::empty())
            } else {
                (done, cur)
            }
        } else {
            (done, cur.push(s.last()))
        }
    }
}

/// Words in upper case, joined with single spaces.
pub open spec fn upper_words_joined(ws: Seq<Seq<char>>) -> Seq<char>
    decreases ws.len(),
{
    if ws.len() == 0 {
        Seq::empty()
    } else if ws.len() == 1 {
        unicode_uppercase(ws[0])
    } else {
        upper_words_joined(ws.drop_last()).push(' ') + unicode_uppercase(ws.last())
    }
}

/// Appends one upper-cased word to the joined text.
fn push_upper_word(out: &mut String, word: &Vec<char>, first: bool, ghost_done: Ghost<Seq<Seq<char>>>)
    requires
        old(out)@ == upper_words_joined(ghost_done@),
        first == (ghost_done@.len() == 0),
    ensures
        final(out)@ == upper_words_joined(ghost_done@.push(word@)),
{
    let w = crate::text::string_from_chars(word, 0, word.len());
    assert(word@.subrange(0, word@.len() as int) == word@);
    let up = to_uppercase(w.as_str());
    let ghost ws = ghost_done@.push(word@);
    assert(ws.drop_last() =~= ghost_done@);
    assert(ws.last() == word@);
    if first {
        assert(old(out)@ == Seq::<char>::empty());
        out.append(up.as_str());
        assert(Seq::<char>::empty() + up@ == up@);
    } else {
        push_char(out, ' ');
        out.append(up.as_str());
    }
}

/// `s.split_whitespace()`, each word upper-cased, joined with single spaces.
fn upper_case_words(s: &str) -> (out: String)
    ensures
        out@ == upper_words_joined(words(s@)),
{
    let mut out = String::new();
    let mut cur: Vec<char> = Vec::new();
    let mut first = true;
    let ghost mut done: Seq<Seq<char>> = Seq::empty();
    for c in it: s.chars()
        invariant
            it.seq() == s@,
            word_scan(s@.take(it.index() as int)) == (done, cur@),
            out@ == upper_words_joined(done),
            first == (done.len() == 0),
    {
        let ghost t = s@.take(it.index() + 1);
        assert(t.drop_last() == s@.take(it.index() as int));
        assert(t.last() == c);
        if is_whitespace(c) {
            if cur.len() > 0 {
                push_upper_word(&mut out, &cur, first, Ghost(done));
                proof {
                    done = done.push(cur@);
                }
                first = false;
                cur = Vec::new();
            }
        } else {
            cur.push(c);
        }
    }
    assert(s@.take(s@.len() as int) == s@);
    if cur.len() > 0 {
        push_upper_word(&mut out, &cur, first, Ghost(done));
    }
    out
}

/// The display text of a log entry: with HEX display off, the text with
/// visible CR/LF; with it on, the raw bytes in hex, or for entries without
/// raw bytes the HEX text upper-cased word by word, or the UTF-8 bytes of the
/// text in hex.
pub open spec fn message_display(msg: ReceivedMessage, hex_display: bool) -> Seq<char> {
    if !hex_display {
        visualize_spec(msg.data@)
    } else if msg.raw_bytes@.len() > 0 {
        format_hex_spec(msg.raw_bytes@)
    } else if msg.encoding == Encoding::Hex {
        upper_words_joined(words(msg.data@))
    } else {
        format_hex_spec(vstd::utf8::encode_utf8(msg.data@))
    }
}

/// With HEX display on, an entry that carries raw bytes shows exactly those
/// bytes, whatever its encoding and text: the display is their hex text, and
/// read back as HEX it gives the same bytes.
pub proof fn law_hex_display_shows_wire_bytes(msg: ReceivedMessage)
    requires
        msg.raw_bytes@.len() > 0,
    ensures
        message_display(msg, true) == format_hex_spec(msg.raw_bytes@),
        encode_spec(message_display(msg, true), Encoding::Hex) == Ok::<Seq<u8>, Seq<char>>(
            msg.raw_bytes@,
        ),
{
    crate::serial::encoding::law_hex_decode_then_encode(
        msg.raw_bytes@,
        format_hex_spec(msg.raw_bytes@),
    );
}

/// With HEX display on, an entry without raw bytes in a text encoding shows
/// the UTF-8 bytes of its text: read back as HEX, the display gives them.
/// With HEX display off, any entry shows its text, with CR and LF made
/// visible and nothing else changed.
pub proof fn law_display_of_text_entries(msg: ReceivedMessage)
    ensures
        msg.raw_bytes@.len() == 0 && msg.encoding != Encoding::Hex ==> encode_spec(
            message_display(msg, true),
            Encoding::Hex,
        ) == Ok::<Seq<u8>, Seq<char>>(vstd::utf8::encode_utf8(msg.data@)),
        !message_display(msg, false).contains('\r') && !message_display(msg, false).contains(
            '\n',
        ),
        !msg.data@.contains('\r') && !msg.data@.contains('\n') ==> message_display(msg, false)
            == msg.data@,
{
    let b = vstd::utf8::encode_utf8(msg.data@);
    crate::serial::encoding::law_hex_decode_then_encode(b, format_hex_spec(b));
    law_visualized_text_has_no_breaks(msg.data@);
}

pub fn format_message_display(msg: &ReceivedMessage, hex_display: bool) -> (s: String)
    ensures
        s@ == message_display(*msg, hex_display),
{
    if !hex_display {
        return visualize_serial_data(msg.data.as_str());
    }
    if msg.raw_bytes.len() > 0 {
        return format_hex(msg.raw_bytes.as_slice());
    }
    match msg.encoding {
        Encoding::Hex => upper_case_words(msg.data.as_str()),
        _ => format_hex(msg.data.as_str().as_bytes()),
    }
}

/// Bytes as upper-case hex pairs separated by spaces.
pub fn format_hex_bytes(bytes: &[u8]) -> (s: String)
    ensures
        s@ == format_hex_spec(bytes@),
{
    format_hex(bytes)
}

// ---------------------------------------------------------------------------
// Presets, export rows and the bounded log.
// ---------------------------------------------------------------------------

/// A saved command that can be sent with one click.
#[derive(Debug, Clone)]
pub struct PresetCommand {
    pub id: String,
    pub name: String,
    pub content: String,
    pub encoding: Encoding,
}

/// One exported log row.
#[derive(Debug, Clone)]
pub struct LogEntry {
    pub timestamp: String,
    pub direction: String,
    pub encoding: String,
    pub data: String,
}

/// The log keeps at most this many entries; the oldest are dropped first.
pub const MAX_LOG_ENTRIES: usize = 10_000;

/// The log after appending: everything, or the newest `MAX_LOG_ENTRIES`.
pub open spec fn bounded_log<T>(log: Seq<T>) -> Seq<T> {
    if log.len() > MAX_LOG_ENTRIES {
        log.skip(log.len() - MAX_LOG_ENTRIES)
    } else {
        log
    }
}

/// Appends to the log and drops the oldest entries beyond the limit.
pub fn push_log_bounded(log: &mut Vec<ReceivedMessage>, message: ReceivedMessage)
    requires
        old(log)@.len() < usize::MAX,
    ensures
        final(log)@ == bounded_log(old(log)@.push(message)),
        final(log)@.len() <= MAX_LOG_ENTRIES,
{
    log.push(message);
    if log.len() > MAX_LOG_ENTRIES {
        let excess = log.len() - MAX_LOG_ENTRIES;
        let kept = log.split_off(excess);
        *log = kept;
    }
}

/// Appending keeps the newest entry last and never lets the log grow past
/// the limit; a log below the limit only grows.
pub proof fn law_bounded_log_keeps_newest<T>(log: Seq<T>, message: T)
    requires
        log.len() <= MAX_LOG_ENTRIES,
    ensures
        bounded_log(log.push(message)).len() == if log.len() < MAX_LOG_ENTRIES {
            log.len() + 1
        } else {
            MAX_LOG_ENTRIES as nat
        },
        bounded_log(log.push(message)).last() == message,
        log.len() < MAX_LOG_ENTRIES ==> bounded_log(log.push(message)) == log.push(message),
        log.len() == MAX_LOG_ENTRIES ==> bounded_log(log.push(message)) == log.skip(1).push(
            message,
        ),
{
    if log.len() == MAX_LOG_ENTRIES {
        assert(log.push(message).skip(1) == log.skip(1).push(message));
    }
}

// ---------------------------------------------------------------------------
// Loop send and connection rules.
// ---------------------------------------------------------------------------

/// Loop-send intervals are kept between 1 ms and one day.
pub open spec fn loop_interval_spec(value: u64) -> u64 {
    if value < 1 {
        1
    } else if value > 86_400_000 {
        86_400_000
    } else {
        value
    }
}

pub fn normalize_loop_interval_ms(value: u64) -> (r: u64)
    ensures
        r == loop_interval_spec(value),
        1 <= r <= 86_400_000,
{
    if value < 1 {
        1
    } else if value > 86_400_000 {
        86_400_000
    } else {
        value
    }
}

/// A loop-send worker may send again only while the port is connected, loop
/// send is on, and its generation is the current one.
pub fn should_continue_loop_send(
    is_connected: bool,
    enabled: bool,
    generation: u64,
    current_generation: u64,
) -> (b: bool)
    ensures
        b == (is_connected && enabled && generation == current_generation),
{
    is_connected && enabled && generation == current_generation
}

/// The connect/disconnect button works unless a request is in flight, and
/// connecting needs a port name.
pub fn can_toggle_connection(is_connected: bool, port_name: &str, is_in_progress: bool) -> (b: bool)
    ensures
        b == (!is_in_progress && (is_connected || port_name@.len() > 0)),
{
    !is_in_progress && (is_connected || !port_name.is_empty())
}

/// Marks the data listener as registered; true only for the first claim.
pub fn claim_serial_data_listener_registration(registered: &mut bool) -> (claimed: bool)
    ensures
        claimed == !*old(registered),
        *final(registered),
{
    if *registered {
        false
    } else {
        *registered = true;
        true
    }
}

/// The render key of the `index`-th log entry: `index-timestamp`.
pub open spec fn render_key(index: nat, timestamp: Seq<char>) -> Seq<char> {
    decimal(index).push('-') + timestamp
}

/// Render keys of different positions differ, whatever the time stamps: the
/// position is the part before the first `-`, and positions are written
/// without a `-`.
pub proof fn law_render_keys_differ_by_position(i: nat, j: nat, t1: Seq<char>, t2: Seq<char>)
    requires
        i != j,
    ensures
        render_key(i, t1) != render_key(j, t2),
{
    lemma_decimal_digits(i);
    lemma_decimal_digits(j);
    let a = decimal(i);
    let b = decimal(j);
    let k1 = render_key(i, t1);
    let k2 = render_key(j, t2);
    if k1 == k2 {
        if a.len() < b.len() {
            assert(k1[a.len() as int] == '-');
            assert(k2[a.len() as int] == b[a.len() as int]);
            assert(is_digit(b[a.len() as int]));
        } else if b.len() < a.len() {
            assert(k2[b.len() as int] == '-');
            assert(k1[b.len() as int] == a[b.len() as int]);
            assert(is_digit(a[b.len() as int]));
        } else {
            assert forall|x: int| 0 <= x < a.len() implies a[x] == b[x] by {
                assert(k1[x] == a[x]);
                assert(k2[x] == b[x]);
            }
            assert(a == b);
        }
    }
}

pub fn received_message_render_key(index: usize, message: &ReceivedMessage) -> (k: String)
    ensures
        k@ == render_key(index as nat, message.timestamp@),
{
    let mut k = String::new();
    push_decimal(&mut k, index as u64);
    push_char(&mut k, '-');
    k.append(message.timestamp.as_str());
    k
}

/// Value names of the line endings as the settings store them.
pub open spec fn line_ending_value(e: SendLineEnding) -> Seq<char> {
    match e {
        SendLineEnding::NoEnding => "none"@,
        SendLineEnding::Cr => "cr"@,
        SendLineEnding::Lf => "lf"@,
        SendLineEnding::Crlf => "crlf"@,
    }
}

pub fn send_line_ending_value(line_ending: &SendLineEnding) -> (s: &'static str)
    ensures
        s@ == line_ending_value(*line_ending),
{
    match line_ending {
        SendLineEnding::NoEnding => "none",
        SendLineEnding::Cr => "cr",
        SendLineEnding::Lf => "lf",
        SendLineEnding::Crlf => "crlf",
    }
}

/// Reads a stored line-ending value; anything unknown means no line ending.
pub open spec fn parse_line_ending_spec(value: Seq<char>) -> SendLineEnding {
    if value == "cr"@ {
        SendLineEnding::Cr
    } else if value == "lf"@ {
        SendLineEnding::Lf
    } else if value == "crlf"@ {
        SendLineEnding::Crlf
    } else {
        SendLineEnding::NoEnding
    }
}

pub fn parse_send_line_ending_value(value: &str) -> (e: SendLineEnding)
    ensures
        e == parse_line_ending_spec(value@),
{
    let v = chars_of(value);
    let cr = chars_of("cr");
    let lf = chars_of("lf");
    let crlf = chars_of("crlf");
    if crate::text::chars_equal(&v, &cr) {
        SendLineEnding::Cr
    } else if crate::text::chars_equal(&v, &lf) {
        SendLineEnding::Lf
    } else if crate::text::chars_equal(&v, &crlf) {
        SendLineEnding::Crlf
    } else {
        SendLineEnding::NoEnding
    }
}

/// Storing a line ending and reading it back gives the same line ending.
pub proof fn law_line_ending_value_round_trip(e: SendLineEnding)
    ensures
        parse_line_ending_spec(line_ending_value(e)) == e,
{
    reveal_strlit("none");
    reveal_strlit("cr");
    reveal_strlit("lf");
    reveal_strlit("crlf");
    assert("none"@.len() == 4 && "cr"@.len() == 2 && "lf"@.len() == 2 && "crlf"@.len() == 4);
    assert("cr"@[0] == 'c' && "lf"@[0] == 'l' && "none"@[0] == 'n' && "crlf"@[0] == 'c');
    assert("none"@ != "cr"@ && "none"@ != "lf"@ && "none"@ != "crlf"@);
    assert("lf"@ != "cr"@ && "crlf"@ != "cr"@ && "crlf"@ != "lf"@);
}

// ---------------------------------------------------------------------------
// Application state.
// ---------------------------------------------------------------------------

/// Which tab of the main view is shown.
#[derive(Debug, Clone, Copy, PartialEq, Eq, Structural)]
pub enum ActiveTab {
    ReceiveSend,
    CommandManager,
}

/// Everything the user sees and edits, apart from widget state.
#[derive(Debug, Clone)]
pub struct AppState {
    pub connected: bool,
    pub connecting: bool,
    pub config: PortConfig,
    pub active_tab: ActiveTab,
    pub messages: Vec<ReceivedMessage>,
    pub receive_buffer: ReceiveLineBuffer,
    pub receive_preview: String,
    pub bytes_received: u64,
    pub bytes_sent: u64,
    pub send_encoding: Encoding,
    pub send_line_ending: SendLineEnding,
    pub auto_scroll: bool,
    pub loop_send: bool,
    pub loop_interval_ms: u64,
    pub hex_display: bool,
    pub status: String,
    pub error: Option<String>,
    pub presets: Vec<PresetCommand>,
}

/// The state at start-up.
pub open spec fn is_initial_state(s: AppState) -> bool {
    &&& is_initial_session(s)
    &&& is_default_port_config(s.config)
    &&& s.error is None
    &&& s.presets@.len() == 0
}

/// The start-up values of everything that is not loaded from the settings:
/// all but the port configuration, the presets and the error.
pub open spec fn is_initial_session(s: AppState) -> bool {
    &&& !s.connected
    &&& !s.connecting
    &&& s.active_tab == ActiveTab::ReceiveSend
    &&& s.messages@.len() == 0
    &&& s.receive_buffer.is_empty_state()
    &&& s.receive_preview@.len() == 0
    &&& s.bytes_received == 0
    &&& s.bytes_sent == 0
    &&& s.send_encoding == Encoding::Ascii
    &&& s.send_line_ending == SendLineEnding::NoEnding
    &&& s.auto_scroll
    &&& !s.loop_send
    &&& s.loop_interval_ms == 1000
    &&& !s.hex_display
    &&& s.status@ == "未连接"@
}

impl Default for AppState {
    fn default() -> (s: Self)
        ensures
            is_initial_state(s),
    {
        AppState {
            connected: false,
            connecting: false,
            config: PortConfig::default(),
            active_tab: ActiveTab::ReceiveSend,
            messages: Vec::new(),
            receive_buffer: ReceiveLineBuffer::new(),
            receive_preview: String::new(),
            bytes_received: 0,
            bytes_sent: 0,
            send_encoding: Encoding::Ascii,
            send_line_ending: SendLineEnding::NoEnding,
            auto_scroll: true,
            loop_send: false,
            loop_interval_ms: 1000,
            hex_display: false,
            status: String::from_str("未连接"),
            error: None,
            presets: Vec::new(),
        }
    }
}

impl AppState {
    /// The state at start-up.
    pub fn init() -> (s: Self)
        ensures
            is_initial_state(s),
    {
        AppState::default()
    }
}

} // verus!
