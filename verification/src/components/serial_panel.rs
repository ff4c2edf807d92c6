//! The serial panel: the port list, the connect button and its outcome.

use crate::backend::commands::PortInfo;
use crate::services::store::{can_toggle_connection, AppState};
use crate::text::{contains, contains_spec, decimal, parse_u64, parse_u64_spec, push_decimal, str_equal};
use vstd::prelude::*;
use vstd::string::{StrSliceExecFns, StringExecFns};

verus! {

broadcast use vstd::string::group_string_axioms;

/// Short label for a port type given in its debug form.
pub open spec fn port_type_label(port_type: Seq<char>) -> Seq<char> {
    if contains_spec(port_type, "UsbPort"@) {
        "USB 设备"@
    } else if contains_spec(port_type, "BluetoothPort"@) {
        "蓝牙设备"@
    } else if contains_spec(port_type, "PciPort"@) {
        "PCI 设备"@
    } else {
        "未知类型"@
    }
}

pub fn compact_port_type(port_type: &str) -> (s: &'static str)
    ensures
        s@ == port_type_label(port_type@),
{
    if contains(port_type, "UsbPort") {
        "USB 设备"
    } else if contains(port_type, "BluetoothPort") {
        "蓝牙设备"
    } else if contains(port_type, "PciPort") {
        "PCI 设备"
    } else {
        "未知类型"
    }
}

/// The index of the first listed port with the given name.
pub open spec fn port_index_from(ports: Seq<PortInfo>, name: Seq<char>, k: int) -> Option<int>
    decreases ports.len() - k,
{
    if k < 0 || k >= ports.len() {
        None
    } else if ports[k].port_name@ == name {
        Some(k)
    } else {
        port_index_from(ports, name, k + 1)
    }
}

proof fn lemma_port_index_from(ports: Seq<PortInfo>, name: Seq<char>, k: int)
    requires
        k >= 0,
    ensures
        port_index_from(ports, name, k) matches Some(j) ==> k <= j < ports.len()
            && ports[j].port_name@ == name,
    decreases ports.len() - k,
{
    if k < ports.len() && ports[k].port_name@ != name {
        lemma_port_index_from(ports, name, k + 1);
    }
}

/// The line under the port list: the selected port's type, or a hint.
pub open spec fn port_meta(ports: Seq<PortInfo>, name: Seq<char>) -> Seq<char> {
    match port_index_from(ports, name, 0) {
        Some(k) => "类型: "@ + port_type_label(ports[k].port_type@),
        None => if ports.len() == 0 {
            "未发现可用串口"@
        } else {
            "请选择一个串口设备"@
        },
    }
}

pub fn selected_port_meta(ports: &[PortInfo], port_name: &str) -> (s: String)
    ensures
        s@ == port_meta(ports@, port_name@),
{
    proof {
        lemma_port_index_from(ports@, port_name@, 0);
    }
    let mut i: usize = 0;
    while i < ports.len()
        invariant
            i <= ports@.len(),
            port_index_from(ports@, port_name@, 0) == port_index_from(ports@, port_name@, i as int),
        decreases ports@.len() - i,
    {
        if str_equal(ports[i].port_name.as_str(), port_name) {
            let mut s = String::from_str("类型: ");
            s.append(compact_port_type(ports[i].port_type.as_str()));
            return s;
        }
        i += 1;
    }
    if ports.len() == 0 {
        String::from_str("未发现可用串口")
    } else {
        String::from_str("请选择一个串口设备")
    }
}

/// The connect button's label.
pub fn connect_button_label(in_progress: bool, connected: bool) -> (s: &'static str)
    ensures
        s@ == (if in_progress {
            "处理中..."@
        } else if connected {
            "断开连接"@
        } else {
            "打开串口"@
        }),
{
    if in_progress {
        "处理中..."
    } else if connected {
        "断开连接"
    } else {
        "打开串口"
    }
}

/// The port count in the panel's header.
pub fn port_count_label(n: usize) -> (s: String)
    ensures
        s@ == decimal(n as nat) + " 个端口"@,
{
    let mut s = String::new();
    push_decimal(&mut s, n as u64);
    s.append(" 个端口");
    assert(Seq::<char>::empty() + decimal(n as nat) == decimal(n as nat));
    s
}

/// The status message after listing the ports.
pub fn ports_status(result: &Result<Vec<PortInfo>, String>) -> (s: String)
    ensures
        match result {
            Ok(p) => s@ == if p@.len() == 0 {
                "未发现串口，请连接设备后刷新"@
            } else {
                Seq::<char>::empty()
            },
            Err(e) => s@ == "获取串口失败: "@ + e@,
        },
{
    match result {
        Ok(p) => if p.len() == 0 {
            String::from_str("未发现串口，请连接设备后刷新")
        } else {
            String::new()
        },
        Err(e) => {
            let mut s = String::from_str("获取串口失败: ");
            s.append(e.as_str());
            s
        },
    }
}

/// What the caller does after the connect button.
#[derive(Debug, Clone, Copy, PartialEq, Eq, Structural)]
pub enum PanelRequest {
    /// Close the port, then call `finish_toggle`.
    Close,
    /// Open the port with the configuration and the send encoding, then call
    /// `finish_toggle`.
    Open,
    /// The button does nothing now.
    Ignored,
}

/// The connect button: ignored while a request is in flight or without a
/// port name; otherwise the request starts, and closing also ends the loop.
pub fn toggle_connection(state: &mut AppState) -> (r: PanelRequest)
    ensures
        !can_toggle_spec(*old(state)) ==> r == PanelRequest::Ignored && *final(state) == *old(state),
        can_toggle_spec(*old(state)) && old(state).is_connected ==> r == PanelRequest::Close
            && *final(state) == (AppState {
            connection_in_progress: true,
            loop_send: false,
            ..*old(state)
        }),
        can_toggle_spec(*old(state)) && !old(state).is_connected ==> r == PanelRequest::Open
            && *final(state) == (AppState { connection_in_progress: true, ..*old(state) }),
{
    if !can_toggle_connection(
        state.is_connected,
        state.port_config.port_name.as_str(),
        state.connection_in_progress,
    ) {
        return PanelRequest::Ignored;
    }
    state.connection_in_progress = true;
    if state.is_connected {
        state.loop_send = false;
        PanelRequest::Close
    } else {
        PanelRequest::Open
    }
}

/// Whether the connect button works.
pub open spec fn can_toggle_spec(s: AppState) -> bool {
    !s.connection_in_progress && (s.is_connected || s.port_config.port_name@.len() > 0)
}

/// Takes the outcome of closing (`was_connected`) or opening the port: success
/// flips the connection and clears the message (closing also drops the
/// unfinished line); failure leaves it and says why. The request ends.
pub fn finish_toggle(
    state: &mut AppState,
    status_message: &mut String,
    was_connected: bool,
    result: Result<(), String>,
)
    ensures
        !final(state).connection_in_progress,
        match result {
            Ok(()) => {
                &&& final(state).is_connected == !was_connected
                &&& final(status_message)@ == Seq::<char>::empty()
                &&& was_connected ==> final(state).receive_line_buffer.is_empty_state()
                &&& *final(state) == (AppState {
                    is_connected: !was_connected,
                    connection_in_progress: false,
                    receive_line_buffer: final(state).receive_line_buffer,
                    ..*old(state)
                })
                &&& !was_connected ==> final(state).receive_line_buffer == old(
                    state,
                ).receive_line_buffer
            },
            Err(e) => {
                &&& final(status_message)@ == (if was_connected {
                    "关闭失败: "@
                } else {
                    "打开失败: "@
                }) + e@
                &&& *final(state) == (AppState { connection_in_progress: false, ..*old(state) })
            },
        },
{
    match result {
        Ok(()) => {
            state.is_connected = !was_connected;
            if was_connected {
                state.receive_line_buffer.clear();
            }
            *status_message = String::new();
        },
        Err(e) => {
            let mut m = if was_connected {
                String::from_str("关闭失败: ")
            } else {
                String::from_str("打开失败: ")
            };
            m.append(e.as_str());
            *status_message = m;
        },
    }
    state.connection_in_progress = false;
}

/// The baud-rate selector: a number that fits becomes the baud rate;
/// anything else is ignored.
pub fn set_baud_rate(state: &mut AppState, text: &str)
    ensures
        (parse_u64_spec(text@) matches Some(v) && v <= u32::MAX) ==> final(state).port_config.baud_rate
            == parse_u64_spec(text@)->Some_0,
        !(parse_u64_spec(text@) matches Some(v) && v <= u32::MAX) ==> final(state).port_config.baud_rate
            == old(state).port_config.baud_rate,
        *final(state) == (AppState {
            port_config: crate::state::PortConfig {
                baud_rate: final(state).port_config.baud_rate,
                ..old(state).port_config
            },
            ..*old(state)
        }),
{
    if let Some(v) = parse_u64(text) {
        if v <= 0xFFFF_FFFF {
            state.port_config.baud_rate = v as u32;
        }
    }
}

/// The data-bits selector: a number that fits becomes the data bits;
/// anything else is ignored.
pub fn set_data_bits(state: &mut AppState, text: &str)
    ensures
        (parse_u64_spec(text@) matches Some(v) && v <= u8::MAX) ==> final(state).port_config.data_bits
            == parse_u64_spec(text@)->Some_0,
        !(parse_u64_spec(text@) matches Some(v) && v <= u8::MAX) ==> final(state).port_config.data_bits
            == old(state).port_config.data_bits,
        *final(state) == (AppState {
            port_config: crate::state::PortConfig {
                data_bits: final(state).port_config.data_bits,
                ..old(state).port_config
            },
            ..*old(state)
        }),
{
    if let Some(v) = parse_u64(text) {
        if v <= 0xFF {
            state.port_config.data_bits = v as u8;
        }
    }
}

} // verus!
