//! The web front-end's store. Its data types and most helpers are those of
//! `crate::state`; a sent message carries no raw bytes here, loop send has
//! no generations, and the loop interval has no upper bound.

pub use crate::state::{
    apply_send_line_ending, can_toggle_connection, claim_serial_data_listener_registration,
    current_message_timestamp, message_direction_label, new_preset_command_id,
    parse_send_line_ending_value, received_message_render_key, send_line_ending_value,
    split_received_message_lines, visualize_serial_data, ActiveTab, Encoding, LogEntry,
    MessageDirection, PortConfig, PresetCommand, ReceiveLineBuffer, ReceivedMessage,
    SendLineEnding,
};
use crate::state::is_default_port_config;
use vstd::prelude::*;
use vstd::string::StrSliceExecFns;

verus! {

/// A log entry for sent text; the web front-end keeps no raw bytes.
pub fn sent_message(timestamp: &str, data: String, encoding: Encoding) -> (m: ReceivedMessage)
    ensures
        m.direction == MessageDirection::Sent,
        m.timestamp@ == timestamp@,
        m.data@ == data@,
        m.encoding == encoding,
        m.raw_bytes@ == Seq::<u8>::empty(),
{
    ReceivedMessage {
        direction: MessageDirection::Sent,
        timestamp: String::from_str(timestamp),
        data,
        encoding,
        raw_bytes: Vec::new(),
    }
}

/// Loop send goes on while connected and switched on.
pub fn should_continue_loop_send(is_connected: bool, loop_send: bool) -> (b: bool)
    ensures
        b == (is_connected && loop_send),
{
    is_connected && loop_send
}

/// A loop interval is at least 1 ms.
pub fn normalize_loop_interval_ms(interval_ms: u64) -> (r: u64)
    ensures
        r == if interval_ms < 1 {
            1
        } else {
            interval_ms
        },
{
    if interval_ms < 1 {
        1
    } else {
        interval_ms
    }
}

/// The message when an event is neither a wrapped nor a bare message.
pub fn event_parse_failure(payload_error: &str, direct_error: &str) -> (m: String)
    ensures
        m@ == "无法解析串口事件 payload: "@ + payload_error@ + "; 直接解析消息也失败: "@
            + direct_error@,
{
    let mut m = String::from_str("无法解析串口事件 payload: ");
    m.append(payload_error);
    m.append("; 直接解析消息也失败: ");
    m.append(direct_error);
    m
}

/// The web front-end's shared state.
#[derive(Debug)]
pub struct AppState {
    pub is_connected: bool,
    pub connection_in_progress: bool,
    pub port_config: PortConfig,
    pub active_tab: ActiveTab,
    pub received_messages: Vec<ReceivedMessage>,
    pub receive_line_buffer: ReceiveLineBuffer,
    pub serial_data_listener_registered: bool,
    pub log_entries: Vec<LogEntry>,
    pub preset_commands: Vec<PresetCommand>,
    pub bytes_received: u64,
    pub bytes_sent: u64,
    pub send_encoding: Encoding,
    pub send_line_ending: SendLineEnding,
    pub auto_scroll: bool,
    pub loop_send: bool,
    pub loop_interval_ms: u64,
}

impl AppState {
    /// The state when the front-end starts.
    pub fn init() -> (s: Self)
        ensures
            !s.is_connected,
            !s.connection_in_progress,
            is_default_port_config(s.port_config),
            s.active_tab == ActiveTab::ReceiveSend,
            s.received_messages@.len() == 0,
            s.receive_line_buffer.is_empty_state(),
            !s.serial_data_listener_registered,
            s.log_entries@.len() == 0,
            s.preset_commands@.len() == 0,
            s.bytes_received == 0,
            s.bytes_sent == 0,
            s.send_encoding == Encoding::Ascii,
            s.send_line_ending == SendLineEnding::NoEnding,
            s.auto_scroll,
            !s.loop_send,
            s.loop_interval_ms == 1000,
    {
        AppState {
            is_connected: false,
            connection_in_progress: false,
            port_config: PortConfig::default(),
            active_tab: ActiveTab::ReceiveSend,
            received_messages: Vec::new(),
            receive_line_buffer: ReceiveLineBuffer::new(),
            serial_data_listener_registered: false,
            log_entries: Vec::new(),
            preset_commands: Vec::new(),
            bytes_received: 0,
            bytes_sent: 0,
            send_encoding: Encoding::Ascii,
            send_line_ending: SendLineEnding::NoEnding,
            auto_scroll: true,
            loop_send: false,
            loop_interval_ms: 1000,
        }
    }
}

} // verus!
