//! The receive and send tab of the web front-end: taking received events,
//! logging sends, clearing, exporting and the loop-send switch.

use crate::services::store::{
    current_message_timestamp, message_direction_label, sent_message, should_continue_loop_send,
    split_received_message_lines, AppState,
};
use crate::state::{direction_label, frame_all, is_clock_timestamp, is_text_line, Encoding, LogEntry, MessageDirection, ReceivedMessage};
use crate::text::{parse_u64, parse_u64_spec};
use vstd::prelude::*;
use vstd::string::{StrSliceExecFns, StringExecFns};

verus! {

broadcast use vstd::string::group_string_axioms;

/// The debug name of an encoding, as the web front-end writes it in exports.
pub open spec fn encoding_debug_name(e: Encoding) -> Seq<char> {
    match e {
        Encoding::Ascii => "Ascii"@,
        Encoding::Hex => "Hex"@,
        Encoding::Utf8 => "Utf8"@,
        Encoding::Gbk => "Gbk"@,
    }
}

pub fn encoding_debug_label(e: &Encoding) -> (s: &'static str)
    ensures
        s@ == encoding_debug_name(*e),
{
    match e {
        Encoding::Ascii => "Ascii",
        Encoding::Hex => "Hex",
        Encoding::Utf8 => "Utf8",
        Encoding::Gbk => "Gbk",
    }
}

/// The value of an encoding in the encoding selector.
pub fn encoding_value(e: &Encoding) -> (s: &'static str)
    ensures
        s@ == (match *e {
            Encoding::Ascii => "ascii"@,
            Encoding::Hex => "hex"@,
            Encoding::Utf8 => "utf8"@,
            Encoding::Gbk => "gbk"@,
        }),
{
    match e {
        Encoding::Ascii => "ascii",
        Encoding::Hex => "hex",
        Encoding::Utf8 => "utf8",
        Encoding::Gbk => "gbk",
    }
}

/// The encoding a selector value stands for; anything unknown is ASCII.
pub fn encoding_from_value(value: &str) -> (e: Encoding)
    ensures
        e == (if value@ == "hex"@ {
            Encoding::Hex
        } else if value@ == "utf8"@ {
            Encoding::Utf8
        } else if value@ == "gbk"@ {
            Encoding::Gbk
        } else {
            Encoding::Ascii
        }),
{
    if crate::text::str_equal(value, "hex") {
        Encoding::Hex
    } else if crate::text::str_equal(value, "utf8") {
        Encoding::Utf8
    } else if crate::text::str_equal(value, "gbk") {
        Encoding::Gbk
    } else {
        Encoding::Ascii
    }
}

/// Takes a received message: its complete lines are appended to the log,
/// the rest waits in the line buffer, and its bytes are counted.
pub fn receive_payload(state: &mut AppState, payload: ReceivedMessage)
    requires
        old(state).bytes_received + payload.raw_bytes@.len() <= u64::MAX,
    ensures
        ({
            let (st, fs) = frame_all(
                old(state).receive_line_buffer.text_state(),
                payload.data@,
                '\r',
                '\n',
            );
            &&& final(state).receive_line_buffer.text_state() == st
            &&& exists|lines: Seq<ReceivedMessage>|
                lines.len() == fs.len() && (forall|i: int|
                    0 <= i < fs.len() ==> is_text_line(#[trigger] lines[i], payload, fs[i]))
                    && final(state).received_messages@ == old(state).received_messages@ + lines
        }),
        final(state).bytes_received == old(state).bytes_received + payload.raw_bytes@.len(),
        *final(state) == (AppState {
            received_messages: final(state).received_messages,
            receive_line_buffer: final(state).receive_line_buffer,
            bytes_received: final(state).bytes_received,
            ..*old(state)
        }),
{
    let len = payload.raw_bytes.len() as u64;
    let mut lines = split_received_message_lines(&mut state.receive_line_buffer, payload);
    let ghost all = lines@;
    if lines.len() > 0 {
        state.received_messages.append(&mut lines);
    } else {
        assert(old(state).received_messages@ + all == old(state).received_messages@);
    }
    state.bytes_received = state.bytes_received + len;
}

/// Logs text the port took and counts its bytes.
pub fn record_sent(state: &mut AppState, wire_content: String, encoding: Encoding, written: usize)
    requires
        old(state).bytes_sent + written <= u64::MAX,
    ensures
        final(state).bytes_sent == old(state).bytes_sent + written,
        ({
            let m = final(state).received_messages@.last();
            &&& final(state).received_messages@ == old(state).received_messages@.push(m)
            &&& m.direction == MessageDirection::Sent
            &&& is_clock_timestamp(m.timestamp@)
            &&& m.data@ == wire_content@
            &&& m.encoding == encoding
            &&& m.raw_bytes@.len() == 0
        }),
        *final(state) == (AppState {
            received_messages: final(state).received_messages,
            bytes_sent: final(state).bytes_sent,
            ..*old(state)
        }),
{
    state.bytes_sent = state.bytes_sent + written as u64;
    let timestamp = current_message_timestamp();
    state.received_messages.push(sent_message(timestamp.as_str(), wire_content, encoding));
}

/// The clear button: log, unfinished line and counters.
pub fn clear(state: &mut AppState)
    ensures
        final(state).received_messages@.len() == 0,
        final(state).receive_line_buffer.is_empty_state(),
        *final(state) == (AppState {
            received_messages: final(state).received_messages,
            receive_line_buffer: final(state).receive_line_buffer,
            bytes_received: 0,
            bytes_sent: 0,
            ..*old(state)
        }),
{
    state.received_messages.clear();
    state.receive_line_buffer.clear();
    state.bytes_received = 0;
    state.bytes_sent = 0;
}

/// An export row: time, direction label, the encoding's debug name and the
/// text as it is.
pub open spec fn is_export_row(e: LogEntry, m: ReceivedMessage) -> bool {
    &&& e.timestamp@ == m.timestamp@
    &&& e.direction@ == direction_label(m.direction)
    &&& e.encoding@ == encoding_debug_name(m.encoding)
    &&& e.data@ == m.data@
}

/// The export rows of the log.
pub fn export_entries(messages: &[ReceivedMessage]) -> (entries: Vec<LogEntry>)
    ensures
        entries@.len() == messages@.len(),
        forall|i: int| 0 <= i < messages@.len() ==> is_export_row(#[trigger] entries@[i], messages@[i]),
{
    let mut entries: Vec<LogEntry> = Vec::new();
    let mut i: usize = 0;
    while i < messages.len()
        invariant
            i <= messages@.len(),
            entries@.len() == i,
            forall|j: int| 0 <= j < i ==> is_export_row(#[trigger] entries@[j], messages@[j]),
        decreases messages@.len() - i,
    {
        let m = &messages[i];
        entries.push(
            LogEntry {
                timestamp: String::from_str(m.timestamp.as_str()),
                direction: String::from_str(message_direction_label(&m.direction)),
                encoding: String::from_str(encoding_debug_label(&m.encoding)),
                data: String::from_str(m.data.as_str()),
            },
        );
        i += 1;
    }
    entries
}

/// The export format a chosen path asks for: CSV when it ends in `.csv`.
pub fn export_format_for_path(path: &str) -> (f: &'static str)
    ensures
        f@ == (if path@.len() >= 4 && path@.subrange(path@.len() - 4, path@.len() as int)
            == ".csv"@ {
            "csv"@
        } else {
            "txt"@
        }),
{
    proof {
        reveal_strlit(".csv");
    }
    let v = crate::text::chars_of(path);
    let n = v.len();
    if n >= 4 && v[n - 4] == '.' && v[n - 3] == 'c' && v[n - 2] == 's' && v[n - 1] == 'v' {
        assert(path@.subrange(n - 4, n as int) == ".csv"@);
        "csv"
    } else {
        proof {
            if path@.len() >= 4 {
                let tail = path@.subrange(path@.len() - 4, path@.len() as int);
                if tail == ".csv"@ {
                    assert(tail[0] == v@[n - 4]);
                    assert(tail[1] == v@[n - 3]);
                    assert(tail[2] == v@[n - 2]);
                    assert(tail[3] == v@[n - 1]);
                }
            }
        }
        "txt"
    }
}

/// The loop-send button: switches loop send; true when it was switched on.
pub fn toggle_loop(state: &mut AppState) -> (started: bool)
    ensures
        started == !old(state).loop_send,
        *final(state) == (AppState { loop_send: started, ..*old(state) }),
{
    let is_loop = state.loop_send;
    state.loop_send = !is_loop;
    !is_loop
}

/// A loop-send worker's check before each send: it stops, switching loop
/// send off, once the port is closed or loop send is off.
pub fn loop_may_continue(state: &mut AppState) -> (go_on: bool)
    ensures
        go_on == (old(state).is_connected && old(state).loop_send),
        go_on ==> *final(state) == *old(state),
        !go_on ==> *final(state) == (AppState { loop_send: false, ..*old(state) }),
{
    if !should_continue_loop_send(state.is_connected, state.loop_send) {
        state.loop_send = false;
        return false;
    }
    true
}

/// A failed loop send switches loop send off.
pub fn loop_send_failed(state: &mut AppState)
    ensures
        *final(state) == (AppState { loop_send: false, ..*old(state) }),
{
    state.loop_send = false;
}

/// The interval field: a number becomes the loop interval; anything else
/// is ignored.
pub fn set_loop_interval(state: &mut AppState, text: &str)
    ensures
        match parse_u64_spec(text@) {
            Some(v) => *final(state) == (AppState { loop_interval_ms: v, ..*old(state) }),
            None => *final(state) == *old(state),
        },
{
    if let Some(v) = parse_u64(text) {
        state.loop_interval_ms = v;
    }
}

} // verus!
