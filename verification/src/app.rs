//! The application's decisions, apart from the widgets and the port itself:
//! what each user action and each port event does to the state, and which
//! outside work (opening or closing the port, sending bytes, saving the
//! settings, writing an export) it asks for. The caller does that work and
//! hands the outcome back to the matching `finish_*` method.

pub mod view;

use crate::export::exporter::{
    csv_content, csv_document, csv_records, entries_from_messages, is_entry_of,
    normalize_export_path, normalize_export_path_spec, txt_content, txt_document, utf8_bom,
};
use crate::export::persistence::SavedSettings;
use crate::serial::encoding::{
    decode_received_bytes_lossy, decode_spec, encode, encode_panics, encode_size_ok, encode_spec,
    gbk_size_ok, lossy_text, utf8_stream_step, StreamDecoder,
};
use crate::serial::protocol::{ReceivedData, SerialEvent};
use crate::state::{
    apply_send_line_ending, bounded_log, current_message_timestamp, frame_all, is_byte_line,
    is_clock_timestamp, is_default_port_config, is_initial_session, is_uuid_v4_text,
    loop_interval_spec,
    new_preset_command_id, normalize_loop_interval_ms, push_log_bounded, sent_message,
    should_continue_loop_send, with_line_ending, ActiveTab, AppState, Encoding, LogEntry,
    MessageDirection, PortConfig, PresetCommand, ReceivedMessage, SendLineEnding,
    MAX_LOG_ENTRIES,
};
use crate::text::{
    decimal, parse_u64, parse_u64_spec, push_decimal, str_equal, trim, trim_spec, zero_padded,
};
use vstd::prelude::*;
use vstd::pervasive::VecAdditionalExecFns;
use vstd::string::{StrSliceExecFns, StringExecFns, StringSliceAdditionalSpecFns};
use vstd::utf8::{decode_utf8, encode_utf8};

verus! {

broadcast use vstd::string::group_string_axioms;

/// The application: its state, the text of its input fields and the
/// bookkeeping of loop sends, preset editing and confirmations.
#[derive(Debug)]
pub struct AppView {
    pub state: AppState,
    /// Encoding of the data currently being received.
    pub receive_encoding: Encoding,
    /// Encoding chosen in the preset editor.
    pub preset_encoding: Encoding,
    /// Decoder for the preview of the unfinished received line.
    pub preview_decoder: StreamDecoder,
    /// Names of the ports found by the last scan.
    pub available_ports: Vec<String>,
    pub port_input: String,
    pub send_input: String,
    pub preset_name_input: String,
    pub preset_content_input: String,
    pub loop_interval_input: String,
    /// Generation of the current loop send; a worker of another generation stops.
    pub loop_generation: u64,
    /// Id of the preset being edited.
    pub editing_preset: Option<String>,
    /// Id of the preset whose deletion awaits confirmation.
    pub pending_delete: Option<String>,
    /// Whether clearing the log awaits confirmation.
    pub confirm_clear: bool,
    pub log_focused: bool,
    /// Path of the last export.
    pub last_export: Option<String>,
}

/// The log after appending lines one by one, each with the bound applied.
pub open spec fn log_with_lines(log: Seq<ReceivedMessage>, lines: Seq<ReceivedMessage>) -> Seq<
    ReceivedMessage,
> {
    bounded_log(log + lines)
}

/// Lines cut from one received chunk, in order.
pub open spec fn are_byte_lines(
    lines: Seq<ReceivedMessage>,
    timestamp: Seq<char>,
    frames: Seq<Seq<u8>>,
    encoding: Encoding,
) -> bool {
    &&& lines.len() == frames.len()
    &&& forall|i: int|
        0 <= i < frames.len() ==> is_byte_line(#[trigger] lines[i], timestamp, frames[i], encoding)
}

/// The preview of an unfinished received line: the strict decoding (for
/// UTF-8 by a fresh stream decoder, which leaves an incomplete last
/// character out), or the lossy one where that fails.
pub open spec fn preview_text(pending: Seq<u8>, encoding: Encoding) -> Seq<char> {
    if encoding == Encoding::Utf8 {
        match utf8_stream_step(Seq::empty(), pending).0 {
            Ok(s) => s,
            Err(_) => lossy_text(pending, encoding),
        }
    } else {
        match decode_spec(pending, encoding) {
            Ok(s) => s,
            Err(_) => lossy_text(pending, encoding),
        }
    }
}

/// What the preview decoder holds back after showing `pending`.
pub open spec fn preview_held(pending: Seq<u8>, encoding: Encoding) -> Seq<u8> {
    if encoding == Encoding::Utf8 {
        utf8_stream_step(Seq::empty(), pending).1
    } else {
        Seq::empty()
    }
}

/// The entry that flushing an unfinished received line adds: the line's
/// bytes, shown in the receive encoding, stamped with the clock.
pub open spec fn is_flushed_line(m: ReceivedMessage, pending: Seq<u8>, encoding: Encoding) -> bool {
    &&& is_byte_line(m, m.timestamp@, pending, encoding)
    &&& is_clock_timestamp(m.timestamp@)
}

/// Whether the outside GBK decoder takes the unfinished line and `extra` more bytes.
pub open spec fn gbk_fits(v: AppView, encoding: Encoding, extra: nat) -> bool {
    encoding == Encoding::Gbk ==> gbk_size_ok(
        v.state.receive_buffer.byte_state().0.len() + extra,
    )
}

/// What a port event needs to be taken without overflow.
pub open spec fn event_fits(v: AppView, event: SerialEvent) -> bool {
    match event {
        SerialEvent::Data(d) => {
            &&& gbk_fits(v, d.encoding, d.raw_bytes@.len())
            &&& v.state.bytes_received + d.raw_bytes@.len() <= u64::MAX
        },
        SerialEvent::Error(_) => true,
        SerialEvent::Disconnected => gbk_fits(v, v.receive_encoding, 0),
    }
}

/// The state after a data chunk: complete lines into the log, the rest
/// previewed, the byte count grown, the chunk's encoding remembered.
pub open spec fn data_taken(v0: AppView, v1: AppView, d: ReceivedData) -> bool {
    let (st, frames) = frame_all(v0.state.receive_buffer.byte_state(), d.raw_bytes@, 13u8, 10u8);
    &&& v1.state.receive_buffer.byte_state() == st
    &&& v1.state.receive_buffer.text_state() == v0.state.receive_buffer.text_state()
    &&& exists|lines: Seq<ReceivedMessage>|
        are_byte_lines(lines, d.timestamp@, frames, d.encoding) && v1.state.messages@
            == log_with_lines(v0.state.messages@, lines)
    &&& v1.state.receive_preview@ == preview_text(st.0, d.encoding)
    &&& v1.preview_decoder@ == preview_held(st.0, d.encoding)
    &&& v1.state.bytes_received == v0.state.bytes_received + d.raw_bytes@.len()
    &&& v1.state.status@ == "正在接收"@
    &&& v1 == (AppView {
        state: AppState {
            receive_buffer: v1.state.receive_buffer,
            messages: v1.state.messages,
            receive_preview: v1.state.receive_preview,
            bytes_received: v1.state.bytes_received,
            status: v1.state.status,
            ..v0.state
        },
        receive_encoding: d.encoding,
        preview_decoder: v1.preview_decoder,
        ..v0
    })
}

/// The state after an error report: it is the error and the status.
pub open spec fn error_taken(v0: AppView, v1: AppView, e: Seq<char>) -> bool {
    &&& v1.state.error matches Some(m) && m@ == e
    &&& v1.state.status@ == e
    &&& v1 == (AppView {
        state: AppState { error: v1.state.error, status: v1.state.status, ..v0.state },
        ..v0
    })
}

/// The state after flushing the unfinished received line.
pub open spec fn flushed(v0: AppView, v1: AppView) -> bool {
    let pending = v0.state.receive_buffer.byte_state().0;
    &&& if pending.len() == 0 {
        &&& v1.state.receive_buffer.is_empty_state()
        &&& v1.state.messages == v0.state.messages
    } else {
        &&& v1.state.receive_buffer.byte_state() == (
            Seq::<u8>::empty(),
            v0.state.receive_buffer.byte_state().1,
        )
        &&& v1.state.receive_buffer.text_state() == v0.state.receive_buffer.text_state()
        &&& is_flushed_line(v1.state.messages@.last(), pending, v0.receive_encoding)
        &&& v1.state.messages@ == bounded_log(v0.state.messages@.push(v1.state.messages@.last()))
    }
    &&& v1.state.receive_preview@ == Seq::<char>::empty()
    &&& v1.preview_decoder@ == Seq::<u8>::empty()
    &&& v1 == (AppView {
        state: AppState {
            receive_buffer: v1.state.receive_buffer,
            messages: v1.state.messages,
            receive_preview: v1.state.receive_preview,
            ..v0.state
        },
        preview_decoder: v1.preview_decoder,
        ..v0
    })
}

/// The next loop-send generation (the counter wraps around).
pub open spec fn next_generation(g: u64) -> u64 {
    if g == u64::MAX { 0 } else { (g + 1) as u64 }
}

/// The connection and any loop send end; running loop-send workers are
/// invalidated.
pub open spec fn connection_ended(v0: AppView, v1: AppView) -> bool {
    &&& !v1.state.connected
    &&& !v1.state.loop_send
    &&& v1.loop_generation == next_generation(v0.loop_generation)
    &&& v1 == (AppView {
        state: AppState {
            connected: false,
            loop_send: false,
            status: v1.state.status,
            ..v0.state
        },
        loop_generation: v1.loop_generation,
        ..v0
    })
}

/// The state after the device went away: the unfinished line flushed, the
/// connection ended.
pub open spec fn disconnect_taken(v0: AppView, v1: AppView) -> bool {
    exists|mid: AppView|
        flushed(v0, mid) && connection_ended(mid, v1) && v1.state.status@ == "设备已断开"@
}

/// What the caller does after the connect/disconnect button.
#[derive(Debug, Clone, Copy, PartialEq, Eq, Structural)]
pub enum ConnectionRequest {
    /// Close the port, then call `finish_disconnect`.
    Close,
    /// Open the port with `state.config` and `receive_encoding`, then call
    /// `finish_connect`.
    Open,
    /// Nothing to do.
    Stay,
}

/// A copy of a port configuration.
fn copy_config(c: &PortConfig) -> (r: PortConfig)
    ensures
        r == *c,
{
    PortConfig {
        port_name: c.port_name.clone(),
        baud_rate: c.baud_rate,
        data_bits: c.data_bits,
        stop_bits: c.stop_bits.clone(),
        parity: c.parity.clone(),
        flow_control: c.flow_control.clone(),
    }
}

/// A copy of a preset command.
fn copy_preset(p: &PresetCommand) -> (r: PresetCommand)
    ensures
        r == *p,
{
    PresetCommand {
        id: p.id.clone(),
        name: p.name.clone(),
        content: p.content.clone(),
        encoding: p.encoding,
    }
}

/// A copy of a list of preset commands.
fn copy_presets(ps: &Vec<PresetCommand>) -> (r: Vec<PresetCommand>)
    ensures
        r@ == ps@,
{
    let mut r: Vec<PresetCommand> = Vec::new();
    let mut i: usize = 0;
    while i < ps.len()
        invariant
            i <= ps@.len(),
            r@ == ps@.take(i as int),
        decreases ps@.len() - i,
    {
        r.push(copy_preset(&ps[i]));
        assert(ps@.take(i + 1) == ps@.take(i as int).push(ps@[i as int]));
        i += 1;
    }
    assert(ps@.take(ps@.len() as int) == ps@);
    r
}

/// The log emptied and the counters reset.
pub open spec fn logs_cleared(v0: AppView, v1: AppView) -> bool {
    &&& v1.state.messages@.len() == 0
    &&& v1.state.receive_buffer.is_empty_state()
    &&& v1.state.receive_preview@ == Seq::<char>::empty()
    &&& v1.preview_decoder@ == Seq::<u8>::empty()
    &&& v1.state.status@ == "日志已清空"@
    &&& v1 == (AppView {
        state: AppState {
            messages: v1.state.messages,
            receive_buffer: v1.state.receive_buffer,
            receive_preview: v1.state.receive_preview,
            bytes_received: 0,
            bytes_sent: 0,
            status: v1.state.status,
            ..v0.state
        },
        preview_decoder: v1.preview_decoder,
        ..v0
    })
}

/// Bytes to send, with the text they came from (line ending included) and
/// its encoding, as logged once sent.
#[derive(Debug)]
pub struct Transmission {
    pub content: String,
    pub bytes: Vec<u8>,
    pub encoding: Encoding,
}

/// Whether encoding `text` with the line ending neither panics nor exceeds
/// what the outside encoder takes.
pub open spec fn send_fits(text: Seq<char>, encoding: Encoding, ending: SendLineEnding) -> bool {
    let wire = with_line_ending(text, encoding, ending);
    &&& !encode_panics(wire, encoding)
    &&& encode_size_ok(wire, encoding)
}

/// What preparing a send of `text` gives: the text with its line ending
/// and its bytes, or the encoder's message.
pub open spec fn prepared(
    t: Option<Transmission>,
    error: Option<String>,
    text: Seq<char>,
    encoding: Encoding,
    ending: SendLineEnding,
) -> bool {
    let wire = with_line_ending(text, encoding, ending);
    match encode_spec(wire, encoding) {
        Ok(b) => t matches Some(t) && t.content@ == wire && t.bytes@ == b && t.encoding == encoding,
        Err(m) => t is None && (error matches Some(e) && e@ == m),
    }
}

/// The log entry for sent bytes, stamped with the clock.
pub open spec fn is_sent_line(m: ReceivedMessage, t: Transmission) -> bool {
    &&& m.direction == MessageDirection::Sent
    &&& is_clock_timestamp(m.timestamp@)
    &&& m.data@ == t.content@
    &&& m.encoding == t.encoding
    &&& m.raw_bytes@ == t.bytes@
}

/// The state after the port took `written` bytes of `t`: the counter grows
/// and the log gains the entry.
pub open spec fn sent_recorded(v0: AppView, v1: AppView, t: Transmission, written: nat) -> bool {
    &&& v1.state.bytes_sent == v0.state.bytes_sent + written
    &&& is_sent_line(v1.state.messages@.last(), t)
    &&& v1.state.messages@ == bounded_log(v0.state.messages@.push(v1.state.messages@.last()))
    &&& v1 == (AppView {
        state: AppState {
            bytes_sent: v1.state.bytes_sent,
            messages: v1.state.messages,
            status: v1.state.status,
            ..v0.state
        },
        ..v0
    })
}

/// What the caller does after the loop-send button.
#[derive(Debug)]
pub enum LoopRequest {
    /// The loop was stopped; its worker stops at its next check.
    Stopped,
    /// Start a worker: while `loop_may_send(generation)` holds, send the
    /// bytes, report with `finish_loop_send`, and wait `next_loop_interval()`
    /// milliseconds (the first wait is `interval_ms`).
    Start { generation: u64, interval_ms: u64, transmission: Transmission },
    /// Nothing to do.
    Refused,
}

/// The two export formats.
#[derive(Debug, Clone, Copy, PartialEq, Eq, Structural)]
pub enum ExportFormat {
    Txt,
    Csv,
}

/// File extension of a format.
pub open spec fn format_extension(f: ExportFormat) -> Seq<char> {
    match f {
        ExportFormat::Txt => "txt"@,
        ExportFormat::Csv => "csv"@,
    }
}

/// Name of a format in the save dialog's filter.
pub open spec fn format_filter_name(f: ExportFormat) -> Seq<char> {
    match f {
        ExportFormat::Txt => "文本文件"@,
        ExportFormat::Csv => "CSV 文件"@,
    }
}

/// What the caller needs for the save dialog and the file.
#[derive(Debug)]
pub struct ExportRequest {
    /// The rows to write, taken when the export was asked for.
    pub entries: Vec<LogEntry>,
    /// Proposed file name: `serial-log-<local date and time>.<extension>`.
    pub file_name: String,
    pub filter_name: String,
    pub extension: String,
    pub format: ExportFormat,
}

/// The index of the first preset with the given id at or after `k`.
pub open spec fn preset_index_from(ps: Seq<PresetCommand>, id: Seq<char>, k: int) -> Option<int>
    decreases ps.len() - k,
{
    if k < 0 || k >= ps.len() {
        None
    } else if ps[k].id@ == id {
        Some(k)
    } else {
        preset_index_from(ps, id, k + 1)
    }
}

/// The index of the first preset with the given id.
pub open spec fn preset_index(ps: Seq<PresetCommand>, id: Seq<char>) -> Option<int> {
    preset_index_from(ps, id, 0)
}

pub proof fn lemma_preset_index_from(ps: Seq<PresetCommand>, id: Seq<char>, k: int)
    requires
        k >= 0,
    ensures
        preset_index_from(ps, id, k) matches Some(j) ==> k <= j < ps.len() && ps[j].id@ == id,
    decreases ps.len() - k,
{
    if k < ps.len() && ps[k].id@ != id {
        lemma_preset_index_from(ps, id, k + 1);
    }
}

/// The presets without those of the given id, in order.
pub open spec fn presets_without(ps: Seq<PresetCommand>, id: Seq<char>) -> Seq<PresetCommand>
    decreases ps.len(),
{
    if ps.len() == 0 {
        Seq::empty()
    } else if ps.last().id@ == id {
        presets_without(ps.drop_last(), id)
    } else {
        presets_without(ps.drop_last(), id).push(ps.last())
    }
}

/// Deleting a command leaves no command with its id, keeps every other
/// command, and never adds one.
pub proof fn law_deleted_presets_are_gone(ps: Seq<PresetCommand>, id: Seq<char>)
    ensures
        forall|i: int|
            0 <= i < presets_without(ps, id).len() ==> #[trigger] presets_without(ps, id)[i].id@
                != id,
        forall|i: int|
            0 <= i < ps.len() && ps[i].id@ != id ==> presets_without(ps, id).contains(#[trigger] ps[i]),
        presets_without(ps, id).len() <= ps.len(),
    decreases ps.len(),
{
    if ps.len() > 0 {
        let rest = ps.drop_last();
        law_deleted_presets_are_gone(rest, id);
        let kept = presets_without(rest, id);
        if ps.last().id@ != id {
            assert forall|i: int| 0 <= i < kept.push(ps.last()).len() implies #[trigger] kept.push(
                ps.last(),
            )[i].id@ != id by {
                if i < kept.len() {
                    assert(kept.push(ps.last())[i] == kept[i]);
                }
            }
            assert forall|i: int| 0 <= i < ps.len() && ps[i].id@ != id implies presets_without(
                ps,
                id,
            ).contains(#[trigger] ps[i]) by {
                if i < ps.len() - 1 {
                    assert(rest[i] == ps[i]);
                    let j = choose|j: int| 0 <= j < kept.len() && kept[j] == rest[i];
                    assert(kept.push(ps.last())[j] == ps[i]);
                } else {
                    assert(kept.push(ps.last())[kept.len() as int] == ps[i]);
                }
            }
        } else {
            assert forall|i: int| 0 <= i < ps.len() && ps[i].id@ != id implies presets_without(
                ps,
                id,
            ).contains(#[trigger] ps[i]) by {
                assert(rest[i] == ps[i]);
            }
        }
    }
}

/// A preset as the editor saves it: the trimmed name, the content and the
/// editor's encoding.
pub open spec fn is_saved_preset(p: PresetCommand, id: Seq<char>, v: AppView) -> bool {
    &&& p.id@ == id
    &&& p.name@ == trim_spec(v.preset_name_input@)
    &&& p.content@ == v.preset_content_input@
    &&& p.encoding == v.preset_encoding
}

/// The editor's preset stored: into the edited preset (the edit ends either
/// way; an error if that preset is gone), or appended with a fresh id.
pub open spec fn preset_stored(v0: AppView, v1: AppView, ok: bool) -> bool {
    match v0.editing_preset {
        Some(id) => match preset_index(v0.state.presets@, id@) {
            None => {
                &&& !ok
                &&& v1.state.error matches Some(e) && e@ == "要编辑的命令已不存在"@
                &&& v1 == (AppView {
                    state: AppState { error: v1.state.error, ..v0.state },
                    editing_preset: None,
                    ..v0
                })
            },
            Some(k) => {
                &&& ok
                &&& v1.state.presets@ == v0.state.presets@.update(k, v1.state.presets@[k])
                &&& is_saved_preset(v1.state.presets@[k], id@, v0)
                &&& v1 == (AppView {
                    state: AppState { presets: v1.state.presets, ..v0.state },
                    editing_preset: None,
                    ..v0
                })
            },
        },
        None => {
            &&& ok
            &&& v1.state.presets@ == v0.state.presets@.push(v1.state.presets@.last())
            &&& is_saved_preset(v1.state.presets@.last(), v1.state.presets@.last().id@, v0)
            &&& is_uuid_v4_text(v1.state.presets@.last().id@)
            &&& v1 == (AppView {
                state: AppState { presets: v1.state.presets, ..v0.state },
                ..v0
            })
        },
    }
}

/// A stored preset carries what the editor held: the trimmed name, the
/// content and the encoding chosen in the editor, whether it was added (at
/// the end, with the other presets kept) or edited in place.
pub proof fn law_stored_preset_keeps_editor_fields(v0: AppView, v1: AppView, ok: bool)
    requires
        preset_stored(v0, v1, ok),
        ok,
    ensures
        v0.editing_preset is None ==> {
            let p = v1.state.presets@.last();
            &&& v1.state.presets@.len() == v0.state.presets@.len() + 1
            &&& v1.state.presets@.take(v0.state.presets@.len() as int) == v0.state.presets@
            &&& p.name@ == trim_spec(v0.preset_name_input@)
            &&& p.content@ == v0.preset_content_input@
            &&& p.encoding == v0.preset_encoding
        },
        v0.editing_preset matches Some(id) ==> exists|k: int|
            0 <= k < v1.state.presets@.len() && v1.state.presets@.len() == v0.state.presets@.len()
                && v0.state.presets@[k].id@ == id@ && (#[trigger] v1.state.presets@[k]).id@ == id@
                && v1.state.presets@[k].name@ == trim_spec(v0.preset_name_input@)
                && v1.state.presets@[k].content@ == v0.preset_content_input@
                && v1.state.presets@[k].encoding == v0.preset_encoding,
{
    match v0.editing_preset {
        Some(id) => {
            let k = preset_index(v0.state.presets@, id@)->Some_0;
            lemma_preset_index_from(v0.state.presets@, id@, 0);
            assert(v1.state.presets@[k] == v1.state.presets@[k]);
        },
        None => {
            assert(v1.state.presets@.take(v0.state.presets@.len() as int) == v0.state.presets@);
        },
    }
}

/// After a preset was stored: the empty-fields error is withdrawn, the
/// status tells whether it was updated or added, and the editor is reset.
pub open spec fn preset_save_finished(v0: AppView, v1: AppView, was_editing: bool) -> bool {
    let empty_fields_error = v0.state.error matches Some(e) && e@ == "命令名称和内容都不能为空"@;
    &&& empty_fields_error ==> v1.state.error is None
    &&& !empty_fields_error ==> v1.state.error == v0.state.error
    &&& v1.state.status@ == (if was_editing { "命令已更新"@ } else { "命令已保存"@ })
    &&& editor_reset(v1)
    &&& v1 == (AppView {
        state: AppState { error: v1.state.error, status: v1.state.status, ..v0.state },
        preset_name_input: v1.preset_name_input,
        preset_content_input: v1.preset_content_input,
        ..v0
    })
}

/// The editor's fields back to their start values.
pub open spec fn editor_reset(v: AppView) -> bool {
    &&& v.preset_name_input@ == "新命令"@
    &&& v.preset_content_input@ == Seq::<char>::empty()
}

/// The baud rate after `rate` in the offered list 9600, 19200, 38400, 57600,
/// 115200, 230400, 460800, 921600 (wrapping around); a rate not in the list
/// counts as the first one.
pub open spec fn next_baud_rate(rate: u32) -> u32 {
    if rate == 19_200 {
        38_400
    } else if rate == 38_400 {
        57_600
    } else if rate == 57_600 {
        115_200
    } else if rate == 115_200 {
        230_400
    } else if rate == 230_400 {
        460_800
    } else if rate == 460_800 {
        921_600
    } else if rate == 921_600 {
        9_600
    } else {
        19_200
    }
}

/// Data bits cycle 5, 6, 7, 8; any other value goes to 5.
pub open spec fn next_data_bits(bits: u8) -> u8 {
    if bits == 5 { 6 } else if bits == 6 { 7 } else if bits == 7 { 8 } else { 5 }
}

/// Stop bits toggle between "1" and "2"; anything but "1" goes to "1".
pub open spec fn next_stop_bits(s: Seq<char>) -> Seq<char> {
    if s == "1"@ { "2"@ } else { "1"@ }
}

/// Parity cycles none, odd, even; anything else goes to none.
pub open spec fn next_parity(s: Seq<char>) -> Seq<char> {
    if s == "none"@ { "odd"@ } else if s == "odd"@ { "even"@ } else { "none"@ }
}

/// Flow control cycles none, rts_cts, xon_xoff; anything else goes to none.
pub open spec fn next_flow_control(s: Seq<char>) -> Seq<char> {
    if s == "none"@ { "rts_cts"@ } else if s == "rts_cts"@ { "xon_xoff"@ } else { "none"@ }
}

/// Encodings cycle ASCII, HEX, UTF-8, GBK.
pub open spec fn next_encoding(e: Encoding) -> Encoding {
    match e {
        Encoding::Ascii => Encoding::Hex,
        Encoding::Hex => Encoding::Utf8,
        Encoding::Utf8 => Encoding::Gbk,
        Encoding::Gbk => Encoding::Ascii,
    }
}

/// Line endings cycle none, CR, LF, CRLF.
pub open spec fn next_line_ending(e: SendLineEnding) -> SendLineEnding {
    match e {
        SendLineEnding::NoEnding => SendLineEnding::Cr,
        SendLineEnding::Cr => SendLineEnding::Lf,
        SendLineEnding::Lf => SendLineEnding::Crlf,
        SendLineEnding::Crlf => SendLineEnding::NoEnding,
    }
}

/// The generation after `n` stops, disconnections, failed loop sends and
/// starts.
pub open spec fn generation_after(g: u64, n: nat) -> u64
    decreases n,
{
    if n == 0 {
        g
    } else {
        next_generation(generation_after(g, (n - 1) as nat))
    }
}

proof fn lemma_generation_after(g: u64, n: nat)
    ensures
        generation_after(g, n) == (g + n) % 0x1_0000_0000_0000_0000,
    decreases n,
{
    if n > 0 {
        lemma_generation_after(g, (n - 1) as nat);
        let m: int = 0x1_0000_0000_0000_0000;
        let prev = (g + n - 1) % m;
        assert((g + n) % m == if prev + 1 == m { 0 } else { prev + 1 }) by (nonlinear_arith)
            requires
                prev == (g + n - 1) % m,
                m > 0,
                g + n - 1 >= 0,
        ;
    }
}

/// A loop-send worker never sends again once its loop was stopped: stopping,
/// a disconnection, a failed loop send and every new start move the
/// generation on, so after any
/// number of them (short of the counter wrapping all the way round) the
/// worker's generation is not the current one, whatever else the state holds.
pub proof fn law_stale_loop_worker_never_resumes(worker: u64, v: AppView, steps: nat)
    requires
        1 <= steps < 0x1_0000_0000_0000_0000,
        v.loop_generation == generation_after(worker, steps),
    ensures
        !should_continue_loop_send_spec(v, worker),
{
    lemma_generation_after(worker, steps);
}

/// What `loop_may_send` answers.
pub open spec fn should_continue_loop_send_spec(v: AppView, generation: u64) -> bool {
    v.state.connected && v.state.loop_send && generation == v.loop_generation
}

/// Appending one entry at a time with the bound applied keeps the newest
/// entries of everything appended.
pub proof fn lemma_bounded_log_push<T>(log: Seq<T>, m: T)
    ensures
        bounded_log(bounded_log(log).push(m)) == bounded_log(log.push(m)),
{
    if log.len() > MAX_LOG_ENTRIES {
        let k = log.len() - MAX_LOG_ENTRIES;
        assert(bounded_log(log).push(m).skip(1) == log.push(m).skip(k + 1));
    }
}

/// A year as chrono's `%Y` writes it: at least four digits, with a sign
/// before years outside 0 to 9999.
pub open spec fn is_year_text(y: Seq<char>) -> bool {
    let digits = if y.len() > 0 && (y[0] == '+' || y[0] == '-') {
        y.skip(1)
    } else {
        y
    };
    &&& digits.len() >= 4
    &&& forall|i: int| 0 <= i < digits.len() ==> '0' <= #[trigger] digits[i] && digits[i] <= '9'
}

/// A local date and time in the form `%Y%m%d-%H%M%S`: year, month, day,
/// `-`, hour, minute and second (60 during a leap second), each of the last
/// five in two digits.
pub open spec fn is_export_stamp(s: Seq<char>) -> bool {
    exists|y: Seq<char>, mo: nat, d: nat, h: nat, mi: nat, sec: nat|
        is_year_text(y) && 1 <= mo <= 12 && 1 <= d <= 31 && h < 24 && mi < 60 && sec <= 60
            && s == y + zero_padded(mo, 2) + zero_padded(d, 2) + seq!['-'] + zero_padded(h, 2)
            + zero_padded(mi, 2) + zero_padded(sec, 2)
}

/// `chrono::Local::now().format("%Y%m%d-%H%M%S")` as text. chrono documents
/// each of these fields (`%Y` zero-padded to four digits with a sign outside
/// 0 to 9999, `%m` 01 to 12, `%d` 01 to 31, `%H` 00 to 23, `%M` 00 to 59,
/// `%S` 00 to 60); which date and time it is depends on the clock and the
/// time zone and is not stated.
#[verifier::external_body]
fn export_time_stamp() -> (s: String)
    ensures
        is_export_stamp(s@),
{
    chrono::Local::now().format("%Y%m%d-%H%M%S").to_string()
}

/// The bytes of an export: TXT lines as UTF-8, or the CSV document.
pub fn export_bytes(entries: &[LogEntry], format: ExportFormat) -> (r: Result<Vec<u8>, String>)
    ensures
        format == ExportFormat::Txt ==> (r matches Ok(b) && b@ == encode_utf8(
            txt_document(entries@),
        )),
        format == ExportFormat::Csv ==> (r matches Ok(b) && b@ == utf8_bom() + csv_document(
            csv_records(entries@),
        )),
{
    match format {
        ExportFormat::Txt => Ok(txt_content(entries).as_str().as_bytes_vec()),
        ExportFormat::Csv => csv_content(entries),
    }
}

impl AppView {
    /// The log never holds more than `MAX_LOG_ENTRIES` entries.
    pub open spec fn wf(&self) -> bool {
        self.state.messages@.len() <= MAX_LOG_ENTRIES
    }

    /// Start-up: the saved settings, or the defaults and the load error, and
    /// the ports found at start-up.
    pub fn new(loaded: Result<SavedSettings, String>, available_ports: Vec<String>) -> (v: AppView)
        ensures
            v.wf(),
            is_initial_session(v.state),
            match loaded {
                Ok(s) => v.state.config == s.port_config && v.state.presets == s.presets
                    && v.state.error is None,
                Err(e) => is_default_port_config(v.state.config) && v.state.presets@.len() == 0
                    && v.state.error == Some(e),
            },
            v.receive_encoding == Encoding::Ascii,
            v.preset_encoding == Encoding::Ascii,
            v.preview_decoder@ == Seq::<u8>::empty(),
            v.available_ports == available_ports,
            v.port_input@ == v.state.config.port_name@,
            v.send_input@ == Seq::<char>::empty(),
            v.preset_name_input@ == "新命令"@,
            v.preset_content_input@ == Seq::<char>::empty(),
            v.loop_interval_input@ == "1000"@,
            v.loop_generation == 0,
            v.editing_preset is None,
            v.pending_delete is None,
            !v.confirm_clear,
            !v.log_focused,
            v.last_export is None,
    {
        let (settings, load_error) = match loaded {
            Ok(settings) => (settings, None),
            Err(error) => (SavedSettings::default(), Some(error)),
        };
        let mut state = AppState::default();
        let port_input = String::from_str(settings.port_config.port_name.as_str());
        state.config = settings.port_config;
        state.presets = settings.presets;
        state.error = load_error;
        AppView {
            state,
            receive_encoding: Encoding::Ascii,
            preset_encoding: Encoding::Ascii,
            preview_decoder: StreamDecoder::default(),
            available_ports,
            port_input,
            send_input: String::new(),
            preset_name_input: String::from_str("新命令"),
            preset_content_input: String::new(),
            loop_interval_input: String::from_str("1000"),
            loop_generation: 0,
            editing_preset: None,
            pending_delete: None,
            confirm_clear: false,
            log_focused: false,
            last_export: None,
        }
    }

    /// Moves an unfinished received line into the log, shown in the receive
    /// encoding; with none, resets the line buffer. The preview is emptied.
    pub fn flush_receive_buffer(&mut self)
        requires
            old(self).wf(),
            gbk_fits(*old(self), old(self).receive_encoding, 0),
        ensures
            final(self).wf(),
            flushed(*old(self), *final(self)),
    {
        if !self.state.receive_buffer.has_pending() {
            self.state.receive_buffer.clear();
            self.state.receive_preview = String::new();
            self.preview_decoder.clear();
            return;
        }
        let raw_bytes = self.state.receive_buffer.take_pending();
        let encoding = self.receive_encoding;
        self.preview_decoder.clear();
        let data = decode_received_bytes_lossy(raw_bytes.as_slice(), &encoding);
        let ghost log0 = self.state.messages@;
        let message = ReceivedMessage {
            direction: MessageDirection::Received,
            timestamp: current_message_timestamp(),
            data,
            encoding,
            raw_bytes,
        };
        let ghost m = message;
        push_log_bounded(&mut self.state.messages, message);
        proof {
            crate::state::law_bounded_log_keeps_newest(log0, m);
        }
        self.state.receive_preview = String::new();
    }

    /// Shows the unfinished received line, decoded afresh.
    fn refresh_preview(&mut self, encoding: &Encoding)
        requires
            *encoding == Encoding::Gbk ==> gbk_size_ok(
                old(self).state.receive_buffer.byte_state().0.len(),
            ),
        ensures
            final(self).state.receive_preview@ == preview_text(
                old(self).state.receive_buffer.byte_state().0,
                *encoding,
            ),
            final(self).preview_decoder@ == preview_held(
                old(self).state.receive_buffer.byte_state().0,
                *encoding,
            ),
            *final(self) == (AppView {
                state: AppState { receive_preview: final(self).state.receive_preview, ..old(self).state },
                preview_decoder: final(self).preview_decoder,
                ..*old(self)
            }),
    {
        let ghost pending = self.state.receive_buffer.byte_state().0;
        self.preview_decoder.clear();
        assert(Seq::<u8>::empty() + pending == pending);
        let decoded = self.preview_decoder.decode(self.state.receive_buffer.pending_bytes(), encoding);
        self.state.receive_preview = match decoded {
            Ok(text) => text,
            Err(_) => decode_received_bytes_lossy(self.state.receive_buffer.pending_bytes(), encoding),
        };
    }


    fn take_data(&mut self, data: ReceivedData)
        requires
            old(self).wf(),
            event_fits(*old(self), SerialEvent::Data(data)),
        ensures
            final(self).wf(),
            data_taken(*old(self), *final(self), data),
    {
        self.receive_encoding = data.encoding;
        self.state.bytes_received = self.state.bytes_received + data.raw_bytes.len() as u64;
        let ghost log0 = self.state.messages@;
        let lines = crate::state::split_received_data_lines(
            &mut self.state.receive_buffer,
            data.timestamp.as_str(),
            data.raw_bytes.as_slice(),
            &data.encoding,
        );
        let ghost all = lines@;
        let ghost mid = *self;
        for line in it: lines
            invariant
                it.seq() == all,
                log0.len() <= MAX_LOG_ENTRIES,
                self.state.messages@ == log_with_lines(log0, all.take(it.index() as int)),
                *self == (AppView { state: AppState { messages: self.state.messages, ..mid.state }, ..mid }),
        {
            let ghost k = it.index();
            proof {
                assert(all.take(k + 1) == all.take(k as int).push(line));
                assert(log0 + all.take(k + 1) == (log0 + all.take(k as int)).push(line));
                lemma_bounded_log_push(log0 + all.take(k as int), line);
            }
            push_log_bounded(&mut self.state.messages, line);
        }
        proof {
            assert(all.take(all.len() as int) == all);
        }
        self.refresh_preview(&data.encoding);
        self.state.status = String::from_str("正在接收");
    }

    fn take_disconnect(&mut self)
        requires
            old(self).wf(),
            gbk_fits(*old(self), old(self).receive_encoding, 0),
        ensures
            final(self).wf(),
            disconnect_taken(*old(self), *final(self)),
    {
        self.flush_receive_buffer();
        let ghost mid = *self;
        self.state.connected = false;
        self.state.loop_send = false;
        self.loop_generation = self.loop_generation.wrapping_add(1);
        self.state.status = String::from_str("设备已断开");
        assert(connection_ended(mid, *self));
    }

    /// Takes one event of the port. Data: its complete lines go to the log,
    /// the unfinished rest is previewed, and the byte count grows. Error: it
    /// becomes the error and the status. Disconnected: the unfinished line is
    /// flushed, the connection and any loop send end, and running loop-send
    /// workers are invalidated. The caller closes the port on a disconnection.
    pub fn handle_serial_event(&mut self, event: SerialEvent)
        requires
            old(self).wf(),
            event_fits(*old(self), event),
        ensures
            final(self).wf(),
            match event {
                SerialEvent::Data(d) => data_taken(*old(self), *final(self), d),
                SerialEvent::Error(e) => error_taken(*old(self), *final(self), e@),
                SerialEvent::Disconnected => disconnect_taken(*old(self), *final(self)),
            },
    {
        match event {
            SerialEvent::Data(data) => self.take_data(data),
            SerialEvent::Error(error) => {
                self.state.error = Some(error.clone());
                self.state.status = error;
            },
            SerialEvent::Disconnected => self.take_disconnect(),
        }
    }

    /// The settings to save: the port configuration and the presets.
    pub fn settings_snapshot(&self) -> (s: SavedSettings)
        ensures
            s.port_config == self.state.config,
            s.presets@ == self.state.presets@,
    {
        SavedSettings {
            port_config: copy_config(&self.state.config),
            presets: copy_presets(&self.state.presets),
        }
    }

    /// Takes the outcome of saving the settings: a failure becomes the error.
    pub fn finish_save(&mut self, result: Result<(), String>)
        ensures
            match result {
                Ok(()) => *final(self) == *old(self),
                Err(e) => *final(self) == (AppView {
                    state: AppState { error: Some(e), ..old(self).state },
                    ..*old(self)
                }),
            },
    {
        if let Err(error) = result {
            self.state.error = Some(error);
        }
    }

    /// The port name is the port field's text without surrounding whitespace.
    pub fn sync_config_from_input(&mut self)
        ensures
            final(self).state.config.port_name@ == trim_spec(old(self).port_input@),
            *final(self) == (AppView {
                state: AppState {
                    config: PortConfig {
                        port_name: final(self).state.config.port_name,
                        ..old(self).state.config
                    },
                    ..old(self).state
                },
                ..*old(self)
            }),
    {
        self.state.config.port_name = trim(self.port_input.as_str());
    }

    /// The connect/disconnect button. Connected: asks to close the port.
    /// Otherwise the port name is taken from its field; without one the
    /// error asks for it, else the connection starts in the send encoding
    /// and asks to open the port.
    pub fn toggle_connection(&mut self) -> (r: ConnectionRequest)
        ensures
            old(self).state.connected ==> r == ConnectionRequest::Close && *final(self) == *old(
                self,
            ),
            !old(self).state.connected && trim_spec(old(self).port_input@).len() == 0 ==> {
                &&& r == ConnectionRequest::Stay
                &&& final(self).state.error matches Some(m) && m@ == "请先填写串口名称"@
                &&& final(self).state.config.port_name@ == Seq::<char>::empty()
                &&& *final(self) == (AppView {
                    state: AppState {
                        config: PortConfig {
                            port_name: final(self).state.config.port_name,
                            ..old(self).state.config
                        },
                        error: final(self).state.error,
                        ..old(self).state
                    },
                    ..*old(self)
                })
            },
            !old(self).state.connected && trim_spec(old(self).port_input@).len() > 0 ==> {
                &&& r == ConnectionRequest::Open
                &&& final(self).state.config.port_name@ == trim_spec(old(self).port_input@)
                &&& *final(self) == (AppView {
                    state: AppState {
                        config: PortConfig {
                            port_name: final(self).state.config.port_name,
                            ..old(self).state.config
                        },
                        connecting: true,
                        error: None,
                        ..old(self).state
                    },
                    receive_encoding: old(self).state.send_encoding,
                    ..*old(self)
                })
            },
    {
        if self.state.connected {
            return ConnectionRequest::Close;
        }
        self.sync_config_from_input();
        if self.state.config.port_name.as_str().unicode_len() == 0 {
            self.state.error = Some(String::from_str("请先填写串口名称"));
            return ConnectionRequest::Stay;
        }
        self.state.connecting = true;
        self.state.error = None;
        self.receive_encoding = self.state.send_encoding;
        ConnectionRequest::Open
    }

    /// Takes the outcome of opening the port. On success the status names
    /// the port and the settings are to be saved (true is returned); on
    /// failure the status says so and the error is the reason.
    pub fn finish_connect(&mut self, result: Result<(), String>) -> (save: bool)
        ensures
            save == result is Ok,
            match result {
                Ok(()) => {
                    &&& final(self).state.status@ == "已连接 · "@ + old(self).state.config.port_name@
                    &&& *final(self) == (AppView {
                        state: AppState {
                            connecting: false,
                            connected: true,
                            status: final(self).state.status,
                            ..old(self).state
                        },
                        ..*old(self)
                    })
                },
                Err(e) => {
                    &&& final(self).state.status@ == "连接失败"@
                    &&& *final(self) == (AppView {
                        state: AppState {
                            connecting: false,
                            connected: false,
                            status: final(self).state.status,
                            error: Some(e),
                            ..old(self).state
                        },
                        ..*old(self)
                    })
                },
            },
    {
        self.state.connecting = false;
        match result {
            Ok(()) => {
                self.state.connected = true;
                let mut status = String::from_str("已连接 · ");
                status.append(self.state.config.port_name.as_str());
                self.state.status = status;
                true
            },
            Err(error) => {
                self.state.connected = false;
                self.state.status = String::from_str("连接失败");
                self.state.error = Some(error);
                false
            },
        }
    }

    /// Takes the outcome of closing the port: the unfinished line is
    /// flushed, the connection and any loop send end, the connection flag
    /// then follows whether the port is still open, and the status is
    /// "已断开" or the reason closing failed.
    pub fn finish_disconnect(&mut self, close_result: Result<(), String>, still_open: bool)
        requires
            old(self).wf(),
            gbk_fits(*old(self), old(self).receive_encoding, 0),
        ensures
            final(self).wf(),
            exists|mid: AppView, ended: AppView|
                flushed(*old(self), mid) && connection_ended(mid, ended) && *final(self) == (
                AppView {
                    state: AppState {
                        connected: still_open,
                        status: final(self).state.status,
                        ..ended.state
                    },
                    ..ended
                }),
            match close_result {
                Ok(()) => final(self).state.status@ == "已断开"@,
                Err(e) => final(self).state.status@ == e@,
            },
    {
        self.flush_receive_buffer();
        let ghost mid = *self;
        self.state.connected = false;
        self.state.loop_send = false;
        self.loop_generation = self.loop_generation.wrapping_add(1);
        let ghost ended = *self;
        assert(connection_ended(mid, ended));
        self.state.connected = still_open;
        self.state.status = match close_result {
            Ok(()) => String::from_str("已断开"),
            Err(error) => error,
        };
    }

    /// Empties the log and the unfinished line, and resets the counters.
    pub fn clear_logs(&mut self)
        ensures
            logs_cleared(*old(self), *final(self)),
    {
        self.state.messages.clear();
        self.state.receive_buffer.clear();
        self.state.receive_preview = String::new();
        self.preview_decoder.clear();
        self.state.bytes_received = 0;
        self.state.bytes_sent = 0;
        self.state.status = String::from_str("日志已清空");
    }

    /// The clear button: the first press asks for confirmation, the second clears.
    pub fn press_clear(&mut self)
        ensures
            old(self).confirm_clear ==> exists|cleared: AppView|
                logs_cleared(*old(self), cleared) && *final(self) == (AppView {
                    confirm_clear: false,
                    ..cleared
                }),
            !old(self).confirm_clear ==> final(self).state.status@ == "再次点击“确认清空”完成操作"@
                && *final(self) == (AppView {
                state: AppState { status: final(self).state.status, ..old(self).state },
                confirm_clear: true,
                ..*old(self)
            }),
    {
        if self.confirm_clear {
            self.clear_logs();
            self.confirm_clear = false;
        } else {
            self.confirm_clear = true;
            self.state.status = String::from_str("再次点击“确认清空”完成操作");
        }
    }

    /// Withdraws a pending request to clear the log.
    pub fn cancel_clear(&mut self)
        ensures
            final(self).state.status@ == "已取消清空日志"@,
            *final(self) == (AppView {
                state: AppState { status: final(self).state.status, ..old(self).state },
                confirm_clear: false,
                ..*old(self)
            }),
    {
        self.confirm_clear = false;
        self.state.status = String::from_str("已取消清空日志");
    }

    /// The text with its line ending, encoded; an encoder failure becomes the error.
    fn prepare(&mut self, text: &str, encoding: Encoding) -> (t: Option<Transmission>)
        requires
            send_fits(text@, encoding, old(self).state.send_line_ending),
        ensures
            prepared(t, final(self).state.error, text@, encoding, old(self).state.send_line_ending),
            t is Some ==> *final(self) == *old(self),
            t is None ==> *final(self) == (AppView {
                state: AppState { error: final(self).state.error, ..old(self).state },
                ..*old(self)
            }),
    {
        let wire = apply_send_line_ending(text, &encoding, &self.state.send_line_ending);
        match encode(wire.as_str(), &encoding) {
            Ok(bytes) => Some(Transmission { content: wire, bytes, encoding }),
            Err(error) => {
                self.state.error = Some(error);
                None
            },
        }
    }

    /// The send button: needs a connection and some text; the text is sent
    /// with the line ending in the send encoding.
    pub fn send_message(&mut self) -> (t: Option<Transmission>)
        requires
            old(self).state.connected && old(self).send_input@.len() > 0 ==> send_fits(
                old(self).send_input@,
                old(self).state.send_encoding,
                old(self).state.send_line_ending,
            ),
        ensures
            !old(self).state.connected ==> {
                &&& t is None
                &&& final(self).state.error matches Some(e) && e@ == "请先连接串口"@
                &&& *final(self) == (AppView {
                    state: AppState { error: final(self).state.error, ..old(self).state },
                    ..*old(self)
                })
            },
            old(self).state.connected && old(self).send_input@.len() == 0 ==> t is None
                && *final(self) == *old(self),
            old(self).state.connected && old(self).send_input@.len() > 0 ==> {
                &&& prepared(
                    t,
                    final(self).state.error,
                    old(self).send_input@,
                    old(self).state.send_encoding,
                    old(self).state.send_line_ending,
                )
                &&& t is Some ==> final(self).state.status@ == "发送中…"@ && *final(self) == (
                AppView {
                    state: AppState { status: final(self).state.status, ..old(self).state },
                    ..*old(self)
                })
                &&& t is None ==> *final(self) == (AppView {
                    state: AppState { error: final(self).state.error, ..old(self).state },
                    ..*old(self)
                })
            },
    {
        if !self.state.connected {
            self.state.error = Some(String::from_str("请先连接串口"));
            return None;
        }
        if self.send_input.as_str().unicode_len() == 0 {
            return None;
        }
        let content = String::from_str(self.send_input.as_str());
        let t = self.prepare(content.as_str(), self.state.send_encoding);
        if t.is_some() {
            self.state.status = String::from_str("发送中…");
        }
        t
    }

    /// A preset's send button: needs a connection; the preset's text is sent
    /// with the line ending in the preset's encoding.
    pub fn send_preset(&mut self, preset: PresetCommand) -> (t: Option<Transmission>)
        requires
            old(self).state.connected ==> send_fits(
                preset.content@,
                preset.encoding,
                old(self).state.send_line_ending,
            ),
        ensures
            !old(self).state.connected ==> {
                &&& t is None
                &&& final(self).state.error matches Some(e) && e@ == "请先连接串口"@
                &&& *final(self) == (AppView {
                    state: AppState { error: final(self).state.error, ..old(self).state },
                    ..*old(self)
                })
            },
            old(self).state.connected ==> {
                &&& prepared(
                    t,
                    final(self).state.error,
                    preset.content@,
                    preset.encoding,
                    old(self).state.send_line_ending,
                )
                &&& t is Some ==> final(self).state.status@ == "预设发送中…"@ && *final(self) == (
                AppView {
                    state: AppState { status: final(self).state.status, ..old(self).state },
                    ..*old(self)
                })
                &&& t is None ==> *final(self) == (AppView {
                    state: AppState { error: final(self).state.error, ..old(self).state },
                    ..*old(self)
                })
            },
    {
        if !self.state.connected {
            self.state.error = Some(String::from_str("请先连接串口"));
            return None;
        }
        let t = self.prepare(preset.content.as_str(), preset.encoding);
        if t.is_some() {
            self.state.status = String::from_str("预设发送中…");
        }
        t
    }

    /// Logs bytes the port took and counts them.
    fn record_sent(&mut self, t: Transmission, written: usize)
        requires
            old(self).wf(),
            old(self).state.bytes_sent + written <= u64::MAX,
        ensures
            final(self).wf(),
            final(self).state.status == old(self).state.status,
            sent_recorded(*old(self), *final(self), t, written as nat),
    {
        self.state.bytes_sent = self.state.bytes_sent + written as u64;
        let ghost log0 = self.state.messages@;
        let timestamp = current_message_timestamp();
        let m = sent_message(timestamp.as_str(), t.content, t.encoding, t.bytes);
        let ghost gm = m;
        push_log_bounded(&mut self.state.messages, m);
        proof {
            crate::state::law_bounded_log_keeps_newest(log0, gm);
        }
    }

    /// Takes the outcome of a send from the send button (`preset` false) or
    /// a preset (`preset` true): the bytes the port took are counted and
    /// logged and the status reports their number; a failure is the error.
    pub fn finish_send(&mut self, t: Transmission, result: Result<usize, String>, preset: bool)
        requires
            old(self).wf(),
            result matches Ok(n) ==> old(self).state.bytes_sent + n <= u64::MAX,
        ensures
            final(self).wf(),
            match result {
                Ok(n) => sent_recorded(*old(self), *final(self), t, n as nat)
                    && final(self).state.status@ == (if preset {
                    "预设已发送 "@
                } else {
                    "已发送 "@
                }) + decimal(n as nat) + " 字节"@,
                Err(e) => *final(self) == (AppView {
                    state: AppState { error: Some(e), ..old(self).state },
                    ..*old(self)
                }),
            },
    {
        match result {
            Ok(written) => {
                self.record_sent(t, written);
                let mut status = if preset {
                    String::from_str("预设已发送 ")
                } else {
                    String::from_str("已发送 ")
                };
                push_decimal(&mut status, written as u64);
                status.append(" 字节");
                self.state.status = status;
            },
            Err(error) => {
                self.state.error = Some(error);
            },
        }
    }

    /// The interval typed in its field, or `fallback` when it is not a number,
    /// kept between 1 ms and one day.
    fn typed_interval(&self, fallback: u64) -> (ms: u64)
        ensures
            ms == loop_interval_spec(
                match parse_u64_spec(self.loop_interval_input@) {
                    Some(v) => v,
                    None => fallback,
                },
            ),
    {
        let value = match parse_u64(self.loop_interval_input.as_str()) {
            Some(v) => v,
            None => fallback,
        };
        normalize_loop_interval_ms(value)
    }

    /// The loop-send button. While looping: stops the loop and invalidates
    /// its worker. Otherwise it needs a connection and some text; the typed
    /// interval (1000 ms when not a number) becomes the loop interval, the
    /// text is encoded with its line ending, and a worker of a new generation
    /// is asked for.
    pub fn toggle_loop_send(&mut self) -> (r: LoopRequest)
        requires
            !old(self).state.loop_send && old(self).state.connected && old(self).send_input@.len()
                > 0 ==> send_fits(
                old(self).send_input@,
                old(self).state.send_encoding,
                old(self).state.send_line_ending,
            ),
        ensures
            old(self).state.loop_send ==> {
                &&& r is Stopped
                &&& final(self).state.status@ == "循环发送已停止"@
                &&& *final(self) == (AppView {
                    state: AppState {
                        loop_send: false,
                        status: final(self).state.status,
                        ..old(self).state
                    },
                    loop_generation: next_generation(old(self).loop_generation),
                    ..*old(self)
                })
            },
            !old(self).state.loop_send && !old(self).state.connected ==> {
                &&& r is Refused
                &&& final(self).state.error matches Some(e) && e@ == "请先连接串口"@
                &&& *final(self) == (AppView {
                    state: AppState { error: final(self).state.error, ..old(self).state },
                    ..*old(self)
                })
            },
            !old(self).state.loop_send && old(self).state.connected && old(self).send_input@.len()
                == 0 ==> {
                &&& r is Refused
                &&& final(self).state.error matches Some(e) && e@ == "循环发送内容不能为空"@
                &&& *final(self) == (AppView {
                    state: AppState { error: final(self).state.error, ..old(self).state },
                    ..*old(self)
                })
            },
            !old(self).state.loop_send && old(self).state.connected && old(self).send_input@.len()
                > 0 ==> {
                let interval = loop_interval_spec(
                    match parse_u64_spec(old(self).loop_interval_input@) {
                        Some(v) => v,
                        None => 1000,
                    },
                );
                let generation = next_generation(old(self).loop_generation);
                let t = match r {
                    LoopRequest::Start { transmission, .. } => Some(transmission),
                    _ => None,
                };
                &&& final(self).state.loop_interval_ms == interval
                &&& prepared(
                    t,
                    final(self).state.error,
                    old(self).send_input@,
                    old(self).state.send_encoding,
                    old(self).state.send_line_ending,
                )
                &&& r is Refused ==> *final(self) == (AppView {
                    state: AppState {
                        loop_interval_ms: interval,
                        error: final(self).state.error,
                        ..old(self).state
                    },
                    ..*old(self)
                })
                &&& r is Start ==> {
                    &&& r->generation == generation
                    &&& r->interval_ms == interval
                    &&& final(self).state.status@ == "循环发送中 · 每 "@ + decimal(interval as nat)
                        + " ms"@
                    &&& *final(self) == (AppView {
                        state: AppState {
                            loop_interval_ms: interval,
                            loop_send: true,
                            error: None,
                            status: final(self).state.status,
                            ..old(self).state
                        },
                        loop_generation: generation,
                        ..*old(self)
                    })
                }
                &&& !(r is Stopped)
            },
    {
        if self.state.loop_send {
            self.state.loop_send = false;
            self.loop_generation = self.loop_generation.wrapping_add(1);
            self.state.status = String::from_str("循环发送已停止");
            return LoopRequest::Stopped;
        }
        if !self.state.connected {
            self.state.error = Some(String::from_str("请先连接串口"));
            return LoopRequest::Refused;
        }
        if self.send_input.as_str().unicode_len() == 0 {
            self.state.error = Some(String::from_str("循环发送内容不能为空"));
            return LoopRequest::Refused;
        }
        let interval = self.typed_interval(1000);
        self.state.loop_interval_ms = interval;
        let content = String::from_str(self.send_input.as_str());
        let transmission = match self.prepare(content.as_str(), self.state.send_encoding) {
            Some(t) => t,
            None => return LoopRequest::Refused,
        };
        self.loop_generation = self.loop_generation.wrapping_add(1);
        let generation = self.loop_generation;
        self.state.loop_send = true;
        self.state.error = None;
        let mut status = String::from_str("循环发送中 · 每 ");
        push_decimal(&mut status, interval);
        status.append(" ms");
        self.state.status = status;
        LoopRequest::Start { generation, interval_ms: interval, transmission }
    }

    /// Whether the loop-send worker of `generation` may send again: only
    /// while connected, looping, and of the current generation.
    pub fn loop_may_send(&self, generation: u64) -> (b: bool)
        ensures
            b == should_continue_loop_send_spec(*self, generation),
    {
        should_continue_loop_send(
            self.state.connected,
            self.state.loop_send,
            generation,
            self.loop_generation,
        )
    }

    /// Takes the outcome of one loop send: the bytes the port took are
    /// counted and logged and the loop goes on (true); a failure ends the
    /// loop, moves the generation on (no worker of the old one sends again)
    /// and becomes the error.
    pub fn finish_loop_send(&mut self, t: &Transmission, result: Result<usize, String>) -> (go_on:
        bool)
        requires
            old(self).wf(),
            result matches Ok(n) ==> old(self).state.bytes_sent + n <= u64::MAX,
        ensures
            final(self).wf(),
            go_on == result is Ok,
            match result {
                Ok(n) => sent_recorded(*old(self), *final(self), *t, n as nat)
                    && final(self).state.status == old(self).state.status,
                Err(e) => *final(self) == (AppView {
                    state: AppState { loop_send: false, error: Some(e), ..old(self).state },
                    loop_generation: next_generation(old(self).loop_generation),
                    ..*old(self)
                }),
            },
    {
        match result {
            Ok(written) => {
                let copy = Transmission {
                    content: t.content.clone(),
                    bytes: vstd::slice::slice_to_vec(t.bytes.as_slice()),
                    encoding: t.encoding,
                };
                self.record_sent(copy, written);
                true
            },
            Err(error) => {
                self.state.loop_send = false;
                self.loop_generation = self.loop_generation.wrapping_add(1);
                self.state.error = Some(error);
                false
            },
        }
    }

    /// The wait before the next loop send: the typed interval, or the
    /// current one when the field is not a number, kept between 1 ms and one
    /// day; it becomes the loop interval.
    pub fn next_loop_interval(&mut self) -> (ms: u64)
        ensures
            ms == loop_interval_spec(
                match parse_u64_spec(old(self).loop_interval_input@) {
                    Some(v) => v,
                    None => old(self).state.loop_interval_ms,
                },
            ),
            *final(self) == (AppView {
                state: AppState { loop_interval_ms: ms, ..old(self).state },
                ..*old(self)
            }),
    {
        let ms = self.typed_interval(self.state.loop_interval_ms);
        self.state.loop_interval_ms = ms;
        ms
    }

    /// An export button: the unfinished received line is flushed, the log
    /// becomes export rows, and the save dialog is asked for with a file
    /// name stamped with the local time.
    pub fn export_logs(&mut self, format: ExportFormat) -> (r: ExportRequest)
        requires
            old(self).wf(),
            gbk_fits(*old(self), old(self).receive_encoding, 0),
        ensures
            final(self).wf(),
            exists|mid: AppView|
                flushed(*old(self), mid) && *final(self) == (AppView {
                    state: AppState { status: final(self).state.status, ..mid.state },
                    ..mid
                }),
            r.entries@.len() == final(self).state.messages@.len(),
            forall|i: int|
                0 <= i < r.entries@.len() ==> is_entry_of(
                    #[trigger] r.entries@[i],
                    final(self).state.messages@[i],
                ),
            exists|stamp: Seq<char>|
                is_export_stamp(stamp) && r.file_name@ == "serial-log-"@ + stamp + "."@
                    + format_extension(format),
            r.filter_name@ == format_filter_name(format),
            r.extension@ == format_extension(format),
            r.format == format,
            final(self).state.status@ == "等待选择 "@ + format_filter_name(format) + " 保存位置"@,
    {
        self.flush_receive_buffer();
        let ghost mid = *self;
        let entries = entries_from_messages(self.state.messages.as_slice());
        let (extension, filter_name) = match format {
            ExportFormat::Txt => ("txt", "文本文件"),
            ExportFormat::Csv => ("csv", "CSV 文件"),
        };
        let stamp = export_time_stamp();
        let mut file_name = String::from_str("serial-log-");
        file_name.append(stamp.as_str());
        file_name.append(".");
        file_name.append(extension);
        let mut status = String::from_str("等待选择 ");
        status.append(filter_name);
        status.append(" 保存位置");
        self.state.status = status;
        assert(("serial-log-"@ + stamp@) + "."@ + format_extension(format) == "serial-log-"@ + stamp@ + "."@ + format_extension(format));
        ExportRequest {
            entries,
            file_name,
            filter_name: String::from_str(filter_name),
            extension: String::from_str(extension),
            format,
        }
    }

    /// Checks the path chosen in the save dialog against the format; a bad
    /// path becomes the error.
    pub fn export_target(&mut self, chosen: &str, format: ExportFormat) -> (r: Option<String>)
        ensures
            match normalize_export_path_spec(chosen@, format_extension(format)) {
                Ok(p) => r matches Some(q) && q@ == p && *final(self) == *old(self),
                Err(m) => r is None && (final(self).state.error matches Some(e) && e@ == m)
                    && *final(self) == (AppView {
                    state: AppState { error: final(self).state.error, ..old(self).state },
                    ..*old(self)
                }),
            },
    {
        let extension = match format {
            ExportFormat::Txt => "txt",
            ExportFormat::Csv => "csv",
        };
        match normalize_export_path(chosen, extension) {
            Ok(path) => Some(path),
            Err(error) => {
                self.state.error = Some(error);
                None
            },
        }
    }

    /// Takes the outcome of writing `count` rows to `path`: on success the
    /// path is the last export and the status gives the count; a failure is
    /// the error.
    pub fn finish_export(&mut self, path: String, count: usize, result: Result<(), String>)
        ensures
            match result {
                Ok(()) => final(self).state.status@ == "已导出 "@ + decimal(count as nat)
                    + " 条日志"@ && *final(self) == (AppView {
                    state: AppState { status: final(self).state.status, ..old(self).state },
                    last_export: Some(path),
                    ..*old(self)
                }),
                Err(e) => *final(self) == (AppView {
                    state: AppState { error: Some(e), ..old(self).state },
                    ..*old(self)
                }),
            },
    {
        match result {
            Ok(()) => {
                self.last_export = Some(path);
                let mut status = String::from_str("已导出 ");
                push_decimal(&mut status, count as u64);
                status.append(" 条日志");
                self.state.status = status;
            },
            Err(error) => {
                self.state.error = Some(error);
            },
        }
    }

    /// The first preset with the given id, from `k` on.
    fn find_preset(&self, id: &str) -> (r: Option<usize>)
        ensures
            match preset_index(self.state.presets@, id@) {
                Some(k) => r matches Some(j) && j as int == k,
                None => r is None,
            },
            r matches Some(k) ==> k < self.state.presets@.len() && self.state.presets@[k as int].id@
                == id@,
    {
        proof {
            lemma_preset_index_from(self.state.presets@, id@, 0);
        }
        let mut i: usize = 0;
        while i < self.state.presets.len()
            invariant
                i <= self.state.presets@.len(),
                preset_index(self.state.presets@, id@) == preset_index_from(
                    self.state.presets@,
                    id@,
                    i as int,
                ),
            decreases self.state.presets@.len() - i,
        {
            if str_equal(self.state.presets[i].id.as_str(), id) {
                return Some(i);
            }
            i += 1;
        }
        None
    }

    /// Stores the editor's preset: into the edited preset, or as a new one.
    fn store_preset(&mut self, name: String, content: String) -> (ok: bool)
        requires
            name@ == trim_spec(old(self).preset_name_input@),
            content@ == old(self).preset_content_input@,
        ensures
            preset_stored(*old(self), *final(self), ok),
    {
        let editing = self.editing_preset.take();
        match editing {
            Some(id) => {
                match self.find_preset(id.as_str()) {
                    Some(k) => {
                        let p = PresetCommand { id, name, content, encoding: self.preset_encoding };
                        self.state.presets.set(k, p);
                        true
                    },
                    None => {
                        self.state.error = Some(String::from_str("要编辑的命令已不存在"));
                        false
                    },
                }
            },
            None => {
                let p = PresetCommand {
                    id: new_preset_command_id(),
                    name,
                    content,
                    encoding: self.preset_encoding,
                };
                self.state.presets.push(p);
                true
            },
        }
    }

    /// The save button of the preset editor. Name (trimmed) and content must
    /// not be empty. While editing, the edited preset takes the name,
    /// content and encoding (an error if it is gone); otherwise a new preset
    /// with a fresh id is added. On success the editor is reset, the
    /// empty-fields error is withdrawn, and the settings are to be saved
    /// (true is returned).
    pub fn add_preset(&mut self) -> (save: bool)
        ensures
            trim_spec(old(self).preset_name_input@).len() == 0 || old(self).preset_content_input@.len() == 0 ==> {
                &&& !save
                &&& final(self).state.error matches Some(e) && e@ == "命令名称和内容都不能为空"@
                &&& *final(self) == (AppView {
                    state: AppState { error: final(self).state.error, ..old(self).state },
                    ..*old(self)
                })
            },
            trim_spec(old(self).preset_name_input@).len() > 0 && old(self).preset_content_input@.len() > 0 ==> exists|mid: AppView|
                preset_stored(*old(self), mid, save) && (!save ==> *final(self) == mid) && (save
                    ==> preset_save_finished(
                    mid,
                    *final(self),
                    old(self).editing_preset is Some,
                )),
    {
        let name = trim(self.preset_name_input.as_str());
        if name.as_str().unicode_len() == 0 || self.preset_content_input.as_str().unicode_len() == 0 {
            self.state.error = Some(String::from_str("命令名称和内容都不能为空"));
            return false;
        }
        let content = String::from_str(self.preset_content_input.as_str());
        let was_editing = self.editing_preset.is_some();
        if !self.store_preset(name, content) {
            return false;
        }
        self.finish_preset_save(was_editing);
        true
    }

    /// Whether the error is the empty-fields message.
    fn error_is_empty_fields(&self) -> (b: bool)
        ensures
            b == (self.state.error matches Some(e) && e@ == "命令名称和内容都不能为空"@),
    {
        match &self.state.error {
            Some(e) => str_equal(e.as_str(), "命令名称和内容都不能为空"),
            None => false,
        }
    }

    fn finish_preset_save(&mut self, was_editing: bool)
        ensures
            preset_save_finished(*old(self), *final(self), was_editing),
    {
        if self.error_is_empty_fields() {
            self.state.error = None;
        }
        self.state.status = if was_editing {
            String::from_str("命令已更新")
        } else {
            String::from_str("命令已保存")
        };
        self.preset_name_input = String::from_str("新命令");
        self.preset_content_input = String::new();
    }

    /// Loads a preset into the editor for editing.
    pub fn begin_edit(&mut self, preset: PresetCommand)
        ensures
            final(self).editing_preset == Some(preset.id),
            final(self).preset_name_input == preset.name,
            final(self).preset_content_input == preset.content,
            final(self).state.status@ == "正在编辑命令"@,
            *final(self) == (AppView {
                state: AppState { status: final(self).state.status, ..old(self).state },
                editing_preset: final(self).editing_preset,
                pending_delete: None,
                preset_encoding: preset.encoding,
                preset_name_input: final(self).preset_name_input,
                preset_content_input: final(self).preset_content_input,
                ..*old(self)
            }),
    {
        self.editing_preset = Some(preset.id);
        self.pending_delete = None;
        self.preset_encoding = preset.encoding;
        self.preset_name_input = preset.name;
        self.preset_content_input = preset.content;
        self.state.status = String::from_str("正在编辑命令");
    }

    /// Leaves editing and resets the editor.
    pub fn cancel_edit(&mut self)
        ensures
            editor_reset(*final(self)),
            final(self).state.status@ == "已取消编辑"@,
            *final(self) == (AppView {
                state: AppState { status: final(self).state.status, ..old(self).state },
                editing_preset: None,
                preset_name_input: final(self).preset_name_input,
                preset_content_input: final(self).preset_content_input,
                ..*old(self)
            }),
    {
        self.editing_preset = None;
        self.preset_name_input = String::from_str("新命令");
        self.preset_content_input = String::new();
        self.state.status = String::from_str("已取消编辑");
    }

    /// The presets without those of the given id.
    fn remove_presets(&mut self, id: &str)
        ensures
            final(self).state.presets@ == presets_without(old(self).state.presets@, id@),
            *final(self) == (AppView {
                state: AppState { presets: final(self).state.presets, ..old(self).state },
                ..*old(self)
            }),
    {
        let mut kept: Vec<PresetCommand> = Vec::new();
        let mut all: Vec<PresetCommand> = Vec::new();
        std::mem::swap(&mut all, &mut self.state.presets);
        let ghost ps = all@;
        for p in it: all
            invariant
                it.seq() == ps,
                kept@ == presets_without(ps.take(it.index() as int), id@),
        {
            let ghost k = it.index();
            proof {
                assert(ps.take(k + 1).drop_last() == ps.take(k as int));
                assert(ps.take(k + 1).last() == p);
            }
            if !str_equal(p.id.as_str(), id) {
                kept.push(p);
            }
        }
        proof {
            assert(ps.take(ps.len() as int) == ps);
        }
        self.state.presets = kept;
    }

    /// A preset's delete button: the first press asks for confirmation, the
    /// second removes every preset with that id, ends editing it, and asks
    /// for the settings to be saved (true is returned).
    pub fn confirm_or_request_delete(&mut self, id: String) -> (save: bool)
        ensures
            ({
                let v0 = *old(self);
                let v1 = *final(self);
                let confirmed = v0.pending_delete matches Some(p) && p@ == id@;
                &&& save == confirmed
                &&& confirmed ==> {
                    let was_edited = v0.editing_preset matches Some(e) && e@ == id@;
                    &&& v1.state.presets@ == presets_without(v0.state.presets@, id@)
                    &&& v1.state.status@ == "命令已删除"@
                    &&& was_edited ==> editor_reset(v1)
                    &&& v1 == (AppView {
                        state: AppState {
                            presets: v1.state.presets,
                            status: v1.state.status,
                            ..v0.state
                        },
                        editing_preset: if was_edited { None } else { v0.editing_preset },
                        preset_name_input: if was_edited { v1.preset_name_input } else { v0.preset_name_input },
                        preset_content_input: if was_edited { v1.preset_content_input } else { v0.preset_content_input },
                        pending_delete: None,
                        ..v0
                    })
                }
                &&& !confirmed ==> {
                    &&& v1.state.status@ == "再次点击“确认删除”完成操作"@
                    &&& v1 == (AppView {
                        state: AppState { status: v1.state.status, ..v0.state },
                        pending_delete: Some(id),
                        ..v0
                    })
                }
            }),
    {
        let confirmed = match &self.pending_delete {
            Some(p) => str_equal(p.as_str(), id.as_str()),
            None => false,
        };
        if confirmed {
            self.remove_presets(id.as_str());
            let was_edited = match &self.editing_preset {
                Some(e) => str_equal(e.as_str(), id.as_str()),
                None => false,
            };
            if was_edited {
                self.editing_preset = None;
                self.preset_name_input = String::from_str("新命令");
                self.preset_content_input = String::new();
            }
            self.pending_delete = None;
            self.state.status = String::from_str("命令已删除");
            true
        } else {
            self.pending_delete = Some(id);
            self.state.status = String::from_str("再次点击“确认删除”完成操作");
            false
        }
    }

    /// Withdraws a pending deletion.
    pub fn cancel_delete(&mut self)
        ensures
            final(self).state.status@ == "已取消删除命令"@,
            *final(self) == (AppView {
                state: AppState { status: final(self).state.status, ..old(self).state },
                pending_delete: None,
                ..*old(self)
            }),
    {
        self.pending_delete = None;
        self.state.status = String::from_str("已取消删除命令");
    }

    /// Loads a preset into the send field, in its encoding, on the terminal tab.
    pub fn use_preset(&mut self, preset: PresetCommand)
        ensures
            final(self).send_input == preset.content,
            final(self).state.status@ == "已载入命令 · "@ + preset.name@,
            *final(self) == (AppView {
                state: AppState {
                    send_encoding: preset.encoding,
                    active_tab: ActiveTab::ReceiveSend,
                    status: final(self).state.status,
                    ..old(self).state
                },
                send_input: final(self).send_input,
                pending_delete: None,
                ..*old(self)
            }),
    {
        let mut status = String::from_str("已载入命令 · ");
        status.append(preset.name.as_str());
        self.send_input = preset.content;
        self.state.send_encoding = preset.encoding;
        self.state.active_tab = ActiveTab::ReceiveSend;
        self.pending_delete = None;
        self.state.status = status;
    }

    /// The editor's encoding button.
    pub fn cycle_preset_encoding(&mut self)
        ensures
            *final(self) == (AppView { preset_encoding: next_encoding(old(self).preset_encoding), ..*old(self) }),
    {
        self.preset_encoding = match self.preset_encoding {
            Encoding::Ascii => Encoding::Hex,
            Encoding::Hex => Encoding::Utf8,
            Encoding::Utf8 => Encoding::Gbk,
            Encoding::Gbk => Encoding::Ascii,
        };
    }

    /// The send encoding button.
    pub fn cycle_encoding(&mut self)
        ensures
            *final(self) == (AppView {
                state: AppState { send_encoding: next_encoding(old(self).state.send_encoding), ..old(self).state },
                ..*old(self)
            }),
    {
        self.state.send_encoding = match self.state.send_encoding {
            Encoding::Ascii => Encoding::Hex,
            Encoding::Hex => Encoding::Utf8,
            Encoding::Utf8 => Encoding::Gbk,
            Encoding::Gbk => Encoding::Ascii,
        };
    }

    /// The line-ending button.
    pub fn cycle_line_ending(&mut self)
        ensures
            *final(self) == (AppView {
                state: AppState {
                    send_line_ending: next_line_ending(old(self).state.send_line_ending),
                    ..old(self).state
                },
                ..*old(self)
            }),
    {
        self.state.send_line_ending = match self.state.send_line_ending {
            SendLineEnding::NoEnding => SendLineEnding::Cr,
            SendLineEnding::Cr => SendLineEnding::Lf,
            SendLineEnding::Lf => SendLineEnding::Crlf,
            SendLineEnding::Crlf => SendLineEnding::NoEnding,
        };
    }

    /// The baud-rate button; the settings are to be saved afterwards.
    pub fn cycle_baud(&mut self)
        ensures
            *final(self) == (AppView {
                state: AppState {
                    config: PortConfig {
                        baud_rate: next_baud_rate(old(self).state.config.baud_rate),
                        ..old(self).state.config
                    },
                    ..old(self).state
                },
                ..*old(self)
            }),
    {
        let rates: Vec<u32> = vec![9_600, 19_200, 38_400, 57_600, 115_200, 230_400, 460_800, 921_600];
        let rate = self.state.config.baud_rate;
        let mut position: Option<usize> = None;
        let mut i: usize = 0;
        while i < rates.len()
            invariant
                rates@ == seq![9_600u32, 19_200, 38_400, 57_600, 115_200, 230_400, 460_800, 921_600],
                i <= 8,
                position matches Some(p) ==> p < i && rates@[p as int] == rate && forall|j: int|
                    0 <= j < p ==> rates@[j] != rate,
                position is None ==> forall|j: int| 0 <= j < i ==> rates@[j] != rate,
            decreases 8 - i,
        {
            if position.is_none() && rates[i] == rate {
                position = Some(i);
            }
            i += 1;
        }
        let index = match position {
            Some(p) => p,
            None => 0,
        };
        proof {
            if position is None {
                assert(rates@[0] != rate && rates@[1] != rate && rates@[2] != rate && rates@[3] != rate);
                assert(rates@[4] != rate && rates@[5] != rate && rates@[6] != rate && rates@[7] != rate);
            }
        }
        self.state.config.baud_rate = rates[(index + 1) % 8];
    }

    /// The data-bits button; the settings are to be saved afterwards.
    pub fn cycle_data_bits(&mut self)
        ensures
            *final(self) == (AppView {
                state: AppState {
                    config: PortConfig {
                        data_bits: next_data_bits(old(self).state.config.data_bits),
                        ..old(self).state.config
                    },
                    ..old(self).state
                },
                ..*old(self)
            }),
    {
        self.state.config.data_bits = match self.state.config.data_bits {
            5 => 6,
            6 => 7,
            7 => 8,
            _ => 5,
        };
    }

    /// The stop-bits button; the settings are to be saved afterwards.
    pub fn cycle_stop_bits(&mut self)
        ensures
            final(self).state.config.stop_bits@ == next_stop_bits(old(self).state.config.stop_bits@),
            *final(self) == (AppView {
                state: AppState {
                    config: PortConfig { stop_bits: final(self).state.config.stop_bits, ..old(self).state.config },
                    ..old(self).state
                },
                ..*old(self)
            }),
    {
        self.state.config.stop_bits = if str_equal(self.state.config.stop_bits.as_str(), "1") {
            String::from_str("2")
        } else {
            String::from_str("1")
        };
    }

    /// The parity button; the settings are to be saved afterwards.
    pub fn cycle_parity(&mut self)
        ensures
            final(self).state.config.parity@ == next_parity(old(self).state.config.parity@),
            *final(self) == (AppView {
                state: AppState {
                    config: PortConfig { parity: final(self).state.config.parity, ..old(self).state.config },
                    ..old(self).state
                },
                ..*old(self)
            }),
    {
        let current = self.state.config.parity.as_str();
        self.state.config.parity = if str_equal(current, "none") {
            String::from_str("odd")
        } else if str_equal(current, "odd") {
            String::from_str("even")
        } else {
            String::from_str("none")
        };
    }

    /// The flow-control button; the settings are to be saved afterwards.
    pub fn cycle_flow_control(&mut self)
        ensures
            final(self).state.config.flow_control@ == next_flow_control(
                old(self).state.config.flow_control@,
            ),
            *final(self) == (AppView {
                state: AppState {
                    config: PortConfig {
                        flow_control: final(self).state.config.flow_control,
                        ..old(self).state.config
                    },
                    ..old(self).state
                },
                ..*old(self)
            }),
    {
        let current = self.state.config.flow_control.as_str();
        self.state.config.flow_control = if str_equal(current, "none") {
            String::from_str("rts_cts")
        } else if str_equal(current, "rts_cts") {
            String::from_str("xon_xoff")
        } else {
            String::from_str("none")
        };
    }

    /// Takes the names of the ports found by a new scan.
    pub fn refresh_ports(&mut self, ports: Vec<String>)
        ensures
            final(self).state.status@ == "已刷新串口列表 · "@ + decimal(ports@.len()) + " 个设备"@,
            *final(self) == (AppView {
                state: AppState { status: final(self).state.status, ..old(self).state },
                available_ports: ports,
                ..*old(self)
            }),
    {
        let mut status = String::from_str("已刷新串口列表 · ");
        push_decimal(&mut status, ports.len() as u64);
        status.append(" 个设备");
        self.available_ports = ports;
        self.state.status = status;
    }

    /// A listed port's button: it becomes the port name and the port field's
    /// text; the settings are to be saved afterwards.
    pub fn select_port(&mut self, port: String)
        ensures
            final(self).state.config.port_name == port,
            *final(self) == (AppView {
                state: AppState {
                    config: PortConfig { port_name: port, ..old(self).state.config },
                    ..old(self).state
                },
                port_input: port,
                ..*old(self)
            }),
    {
        self.state.config.port_name = port.clone();
        self.port_input = port;
    }

    /// The terminal tab; a pending deletion is withdrawn.
    pub fn show_terminal_tab(&mut self)
        ensures
            *final(self) == (AppView {
                state: AppState { active_tab: ActiveTab::ReceiveSend, ..old(self).state },
                pending_delete: None,
                ..*old(self)
            }),
    {
        self.state.active_tab = ActiveTab::ReceiveSend;
        self.pending_delete = None;
    }

    /// The command tab; a pending clear is withdrawn.
    pub fn show_commands_tab(&mut self)
        ensures
            *final(self) == (AppView {
                state: AppState { active_tab: ActiveTab::CommandManager, ..old(self).state },
                confirm_clear: false,
                ..*old(self)
            }),
    {
        self.state.active_tab = ActiveTab::CommandManager;
        self.confirm_clear = false;
    }

    /// The HEX display check box.
    pub fn set_hex_display(&mut self, checked: bool)
        ensures
            *final(self) == (AppView {
                state: AppState { hex_display: checked, ..old(self).state },
                ..*old(self)
            }),
    {
        self.state.hex_display = checked;
    }

    /// The auto-scroll check box.
    pub fn set_auto_scroll(&mut self, checked: bool)
        ensures
            *final(self) == (AppView {
                state: AppState { auto_scroll: checked, ..old(self).state },
                ..*old(self)
            }),
    {
        self.state.auto_scroll = checked;
    }

    /// The focus button: shows the log alone, or everything again.
    pub fn toggle_log_focus(&mut self)
        ensures
            *final(self) == (AppView { log_focused: !old(self).log_focused, ..*old(self) }),
    {
        self.log_focused = !self.log_focused;
    }

    /// The button that dismisses the error.
    pub fn dismiss_error(&mut self)
        ensures
            *final(self) == (AppView {
                state: AppState { error: None, ..old(self).state },
                ..*old(self)
            }),
    {
        self.state.error = None;
    }
}

} // verus!
