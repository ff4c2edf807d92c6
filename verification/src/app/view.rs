//! What the window shows for a given application state: the labels,
//! tones, enabled states and rows of the header, the connection panel, the
//! terminal, the command library and the footer. Drawing them is left to
//! the caller.

use crate::app::AppView;
use crate::export::exporter::{encoding_label, format_encoding};
use crate::state::{
    format_message_display, message_display, visualize_serial_data, visualize_spec, ActiveTab,
    Encoding, MessageDirection, ReceivedMessage, SendLineEnding,
};
use crate::text::{decimal, push_decimal, push_zero_padded, str_equal, zero_padded};
use crate::ui::components::ButtonTone;
use crate::ui::theme::{LIME, PINK, SURFACE_ALT, YELLOW};
use vstd::prelude::*;
use vstd::string::{StrSliceExecFns, StringExecFns};

verus! {

broadcast use vstd::string::group_string_axioms;

/// The log shows at most this many of the newest entries.
pub const VISIBLE_LOG_ROWS: usize = 500;

/// Name of a line ending on its button.
pub open spec fn line_ending_title(e: SendLineEnding) -> Seq<char> {
    match e {
        SendLineEnding::NoEnding => "无"@,
        SendLineEnding::Cr => "CR"@,
        SendLineEnding::Lf => "LF"@,
        SendLineEnding::Crlf => "CRLF"@,
    }
}

/// Name of a parity setting; anything unknown reads as none.
pub open spec fn parity_title(p: Seq<char>) -> Seq<char> {
    if p == "odd"@ {
        "奇校验"@
    } else if p == "even"@ {
        "偶校验"@
    } else {
        "无校验"@
    }
}

/// Name of a flow-control setting; anything unknown reads as none.
pub open spec fn flow_title(f: Seq<char>) -> Seq<char> {
    if f == "rts_cts"@ {
        "RTS/CTS"@
    } else if f == "xon_xoff"@ {
        "XON/XOFF"@
    } else {
        "无流控"@
    }
}

/// One-letter parity code of the configuration summary.
pub open spec fn parity_code(p: Seq<char>) -> Seq<char> {
    if p == "odd"@ {
        "O"@
    } else if p == "even"@ {
        "E"@
    } else {
        "N"@
    }
}

/// Name of an encoding on its button.
pub fn encoding_name(encoding: &Encoding) -> (s: &'static str)
    ensures
        s@ == encoding_label(*encoding),
{
    format_encoding(encoding)
}

pub fn line_ending_name(ending: &SendLineEnding) -> (s: &'static str)
    ensures
        s@ == line_ending_title(*ending),
{
    match ending {
        SendLineEnding::NoEnding => "无",
        SendLineEnding::Cr => "CR",
        SendLineEnding::Lf => "LF",
        SendLineEnding::Crlf => "CRLF",
    }
}

pub fn parity_name(value: &str) -> (s: &'static str)
    ensures
        s@ == parity_title(value@),
{
    if str_equal(value, "odd") {
        "奇校验"
    } else if str_equal(value, "even") {
        "偶校验"
    } else {
        "无校验"
    }
}

pub fn flow_name(value: &str) -> (s: &'static str)
    ensures
        s@ == flow_title(value@),
{
    if str_equal(value, "rts_cts") {
        "RTS/CTS"
    } else if str_equal(value, "xon_xoff") {
        "XON/XOFF"
    } else {
        "无流控"
    }
}

fn parity_letter(value: &str) -> (s: &'static str)
    ensures
        s@ == parity_code(value@),
{
    if str_equal(value, "odd") {
        "O"
    } else if str_equal(value, "even") {
        "E"
    } else {
        "N"
    }
}

fn text(s: &str) -> (r: String)
    ensures
        r@ == s@,
{
    String::from_str(s)
}

fn joined(a: &str, b: &str) -> (r: String)
    ensures
        r@ == a@ + b@,
{
    let mut r = String::from_str(a);
    r.append(b);
    r
}

fn joined3(a: &str, b: &str, c: &str) -> (r: String)
    ensures
        r@ == a@ + b@ + c@,
{
    let mut r = String::from_str(a);
    r.append(b);
    r.append(c);
    r
}

fn number_then(n: u64, after: &str) -> (r: String)
    ensures
        r@ == decimal(n as nat) + after@,
{
    let mut r = String::new();
    push_decimal(&mut r, n);
    r.append(after);
    assert(Seq::<char>::empty() + decimal(n as nat) == decimal(n as nat));
    r
}

fn number_between(before: &str, n: u64, after: &str) -> (r: String)
    ensures
        r@ == before@ + decimal(n as nat) + after@,
{
    let mut r = String::from_str(before);
    push_decimal(&mut r, n);
    r.append(after);
    r
}

// ---------------------------------------------------------------------------
// Header.
// ---------------------------------------------------------------------------

/// The header: which tab button is highlighted and the connection badge.
#[derive(Debug)]
pub struct HeaderView {
    pub terminal_tab: ButtonTone,
    pub commands_tab: ButtonTone,
    pub connection_label: String,
    pub connection_color: u32,
}

/// The connection badge: connecting, connected, or not connected.
pub open spec fn connection_badge(connecting: bool, connected: bool) -> (Seq<char>, u32) {
    if connecting {
        ("正在连接"@, YELLOW)
    } else if connected {
        ("已连接"@, LIME)
    } else {
        ("未连接"@, PINK)
    }
}

// ---------------------------------------------------------------------------
// Connection panel.
// ---------------------------------------------------------------------------

/// The connection panel.
#[derive(Debug)]
pub struct ConnectionPanelView {
    /// The settings cannot be changed while connected or connecting.
    pub controls_locked: bool,
    pub connect_label: String,
    pub connect_tone: ButtonTone,
    pub connect_disabled: bool,
    pub refresh_disabled: bool,
    pub baud_label: String,
    pub data_bits_label: String,
    pub stop_bits_label: String,
    pub parity_label: String,
    pub flow_label: String,
    pub device_summary: String,
    pub device_summary_color: u32,
    pub lock_note: String,
    pub lock_note_color: u32,
    /// The ports offered for quick selection.
    pub quick_ports: Vec<String>,
    pub error: Option<String>,
    pub config_summary: String,
}

/// The label of the connect button.
pub open spec fn connect_title(connecting: bool, connected: bool) -> Seq<char> {
    if connecting {
        "连接中…"@
    } else if connected {
        "断开串口"@
    } else {
        "建立连接"@
    }
}

/// `port · baud · <data bits><parity code><stop bits>`, with a placeholder
/// for a missing port name.
pub open spec fn config_summary_text(v: AppView) -> Seq<char> {
    let c = v.state.config;
    let port = if c.port_name@.len() == 0 {
        "未选择端口"@
    } else {
        c.port_name@
    };
    port + " · "@ + decimal(c.baud_rate as nat) + " · "@ + decimal(c.data_bits as nat)
        + parity_code(c.parity@) + c.stop_bits@
}

// ---------------------------------------------------------------------------
// Terminal.
// ---------------------------------------------------------------------------

/// One row of the log.
#[derive(Debug)]
pub struct LogRow {
    pub timestamp: String,
    pub direction: String,
    pub received: bool,
    /// Every other row is shaded.
    pub shaded: bool,
    pub text: String,
}

/// The terminal tab.
#[derive(Debug)]
pub struct TerminalView {
    pub encoding_label: String,
    pub line_ending_label: String,
    pub loop_label: String,
    pub loop_tone: ButtonTone,
    pub loop_disabled: bool,
    pub send_disabled: bool,
    pub clear_label: String,
    pub show_cancel_clear: bool,
    pub focus_label: String,
    pub counters: String,
    pub receive_encoding_label: String,
    /// The newest entries of the log, oldest first; empty shows a placeholder.
    pub rows: Vec<LogRow>,
    /// The unfinished received line, when there is one.
    pub preview: Option<String>,
    /// The send field and its buttons are shown unless the log is focused.
    pub show_composer: bool,
}

/// The entries the log shows: the newest `VISIBLE_LOG_ROWS`.
pub open spec fn visible_entries(log: Seq<ReceivedMessage>) -> Seq<ReceivedMessage> {
    if log.len() > VISIBLE_LOG_ROWS {
        log.skip(log.len() - VISIBLE_LOG_ROWS)
    } else {
        log
    }
}

/// The row of the `index`-th shown entry.
pub open spec fn is_row_of(row: LogRow, m: ReceivedMessage, index: int, hex_display: bool) -> bool {
    let received = m.direction == MessageDirection::Received;
    &&& row.timestamp@ == m.timestamp@
    &&& row.received == received
    &&& row.direction@ == (if received {
        "RX / 收到"@
    } else {
        "TX / 发出"@
    })
    &&& row.shaded == (index % 2 == 1)
    &&& row.text@ == message_display(m, hex_display)
}

// ---------------------------------------------------------------------------
// Command library.
// ---------------------------------------------------------------------------

/// One saved command.
#[derive(Debug)]
pub struct PresetRow {
    /// Its position, from 01.
    pub number: String,
    pub name: String,
    pub encoding_label: String,
    pub content: String,
    /// It is being edited.
    pub is_current: bool,
    pub edit_tone: ButtonTone,
    pub delete_label: String,
    pub show_cancel_delete: bool,
    pub send_disabled: bool,
}

/// The command library tab.
#[derive(Debug)]
pub struct CommandsView {
    pub editor_title: String,
    pub save_label: String,
    pub show_cancel_edit: bool,
    pub show_editing_badge: bool,
    pub line_ending_badge: String,
    pub preset_encoding_label: String,
    pub count_label: String,
    /// Empty shows a placeholder.
    pub rows: Vec<PresetRow>,
}

/// The row of the `index`-th preset.
pub open spec fn is_preset_row(row: PresetRow, v: AppView, index: int) -> bool {
    let p = v.state.presets@[index];
    let current = v.editing_preset matches Some(id) && id@ == p.id@;
    let pending = v.pending_delete matches Some(id) && id@ == p.id@;
    &&& row.number@ == zero_padded((index + 1) as nat, 2)
    &&& row.name@ == p.name@
    &&& row.encoding_label@ == encoding_label(p.encoding)
    &&& row.content@ == p.content@
    &&& row.is_current == current
    &&& row.edit_tone == (if current {
        ButtonTone::Accent
    } else {
        ButtonTone::Secondary
    })
    &&& row.delete_label@ == (if pending {
        "确认删除"@
    } else {
        "删除"@
    })
    &&& row.show_cancel_delete == pending
    &&& row.send_disabled == !v.state.connected
}

// ---------------------------------------------------------------------------
// Footer.
// ---------------------------------------------------------------------------

/// The status line.
#[derive(Debug)]
pub struct FooterView {
    pub has_error: bool,
    pub primary: String,
    pub secondary: String,
    pub show_dismiss: bool,
}

impl AppView {
    /// What the header shows.
    pub fn header_view(&self) -> (h: HeaderView)
        ensures
            h.terminal_tab == (if self.state.active_tab == ActiveTab::ReceiveSend {
                ButtonTone::Primary
            } else {
                ButtonTone::Secondary
            }),
            h.commands_tab == (if self.state.active_tab == ActiveTab::CommandManager {
                ButtonTone::Primary
            } else {
                ButtonTone::Secondary
            }),
            (h.connection_label@, h.connection_color) == connection_badge(
                self.state.connecting,
                self.state.connected,
            ),
    {
        let terminal_tab = if self.state.active_tab == ActiveTab::ReceiveSend {
            ButtonTone::Primary
        } else {
            ButtonTone::Secondary
        };
        let commands_tab = if self.state.active_tab == ActiveTab::CommandManager {
            ButtonTone::Primary
        } else {
            ButtonTone::Secondary
        };
        let (label, color) = if self.state.connecting {
            ("正在连接", YELLOW)
        } else if self.state.connected {
            ("已连接", LIME)
        } else {
            ("未连接", PINK)
        };
        HeaderView {
            terminal_tab,
            commands_tab,
            connection_label: text(label),
            connection_color: color,
        }
    }

    /// What the connection panel shows.
    pub fn connection_panel_view(&self) -> (p: ConnectionPanelView)
        ensures
            ({
                let st = self.state;
                let locked = st.connected || st.connecting;
                &&& p.controls_locked == locked
                &&& p.connect_label@ == connect_title(st.connecting, st.connected)
                &&& p.connect_tone == (if st.connected {
                    ButtonTone::Danger
                } else {
                    ButtonTone::Primary
                })
                &&& p.connect_disabled == st.connecting
                &&& p.refresh_disabled == st.connecting
                &&& p.baud_label@ == "波特率 "@ + decimal(st.config.baud_rate as nat) + " ↻"@
                &&& p.data_bits_label@ == decimal(st.config.data_bits as nat) + " bit ↻"@
                &&& p.stop_bits_label@ == st.config.stop_bits@ + " stop ↻"@
                &&& p.parity_label@ == parity_title(st.config.parity@) + " ↻"@
                &&& p.flow_label@ == flow_title(st.config.flow_control@) + " ↻"@
                &&& self.available_ports@.len() == 0 ==> p.device_summary@ == "未发现设备 · 可手动输入"@
                    && p.device_summary_color == PINK
                &&& self.available_ports@.len() > 0 ==> p.device_summary@ == "发现 "@ + decimal(
                    self.available_ports@.len(),
                ) + " 个设备"@ && p.device_summary_color == LIME
                &&& p.lock_note@ == (if locked {
                    "当前会话参数已锁定"@
                } else {
                    "参数可编辑"@
                })
                &&& p.lock_note_color == (if locked {
                    YELLOW
                } else {
                    SURFACE_ALT
                })
                &&& p.quick_ports@.len() == self.available_ports@.len()
                &&& forall|i: int|
                    0 <= i < p.quick_ports@.len() ==> #[trigger] p.quick_ports@[i]@
                        == self.available_ports@[i]@
                &&& (p.error is None <==> st.error is None)
                &&& (p.error matches Some(e) ==> st.error matches Some(f) && e@ == f@)
                &&& p.config_summary@ == config_summary_text(*self)
            }),
    {
        let st = &self.state;
        let locked = st.connected || st.connecting;
        let connect_label = if st.connecting {
            "连接中…"
        } else if st.connected {
            "断开串口"
        } else {
            "建立连接"
        };
        let connect_tone = if st.connected {
            ButtonTone::Danger
        } else {
            ButtonTone::Primary
        };
        let (device_summary, device_summary_color) = if self.available_ports.len() == 0 {
            (text("未发现设备 · 可手动输入"), PINK)
        } else {
            (number_between("发现 ", self.available_ports.len() as u64, " 个设备"), LIME)
        };
        let (lock_note, lock_note_color) = if locked {
            ("当前会话参数已锁定", YELLOW)
        } else {
            ("参数可编辑", SURFACE_ALT)
        };
        let mut quick_ports: Vec<String> = Vec::new();
        let mut i: usize = 0;
        while i < self.available_ports.len()
            invariant
                i <= self.available_ports@.len(),
                quick_ports@.len() == i,
                forall|j: int|
                    0 <= j < i ==> #[trigger] quick_ports@[j]@ == self.available_ports@[j]@,
            decreases self.available_ports@.len() - i,
        {
            quick_ports.push(text(self.available_ports[i].as_str()));
            i += 1;
        }
        let error = match &st.error {
            Some(e) => Some(text(e.as_str())),
            None => None,
        };
        let mut summary = if st.config.port_name.as_str().unicode_len() == 0 {
            text("未选择端口")
        } else {
            text(st.config.port_name.as_str())
        };
        summary.append(" · ");
        push_decimal(&mut summary, st.config.baud_rate as u64);
        summary.append(" · ");
        push_decimal(&mut summary, st.config.data_bits as u64);
        summary.append(parity_letter(st.config.parity.as_str()));
        summary.append(st.config.stop_bits.as_str());
        ConnectionPanelView {
            controls_locked: locked,
            connect_label: text(connect_label),
            connect_tone,
            connect_disabled: st.connecting,
            refresh_disabled: st.connecting,
            baud_label: number_between("波特率 ", st.config.baud_rate as u64, " ↻"),
            data_bits_label: number_then(st.config.data_bits as u64, " bit ↻"),
            stop_bits_label: joined(st.config.stop_bits.as_str(), " stop ↻"),
            parity_label: joined(parity_name(st.config.parity.as_str()), " ↻"),
            flow_label: joined(flow_name(st.config.flow_control.as_str()), " ↻"),
            device_summary,
            device_summary_color,
            lock_note: text(lock_note),
            lock_note_color,
            quick_ports,
            error,
            config_summary: summary,
        }
    }

    /// The rows of the newest log entries.
    fn log_rows(&self) -> (rows: Vec<LogRow>)
        ensures
            ({
                let shown = visible_entries(self.state.messages@);
                &&& rows@.len() == shown.len()
                &&& forall|i: int|
                    0 <= i < shown.len() ==> is_row_of(
                        #[trigger] rows@[i],
                        shown[i],
                        i,
                        self.state.hex_display,
                    )
            }),
    {
        let n = self.state.messages.len();
        let first: usize = if n > VISIBLE_LOG_ROWS {
            n - VISIBLE_LOG_ROWS
        } else {
            0
        };
        let ghost shown = visible_entries(self.state.messages@);
        let mut rows: Vec<LogRow> = Vec::new();
        let mut k: usize = first;
        while k < n
            invariant
                first <= k <= n == self.state.messages@.len(),
                shown == self.state.messages@.skip(first as int),
                rows@.len() == k - first,
                forall|i: int|
                    0 <= i < k - first ==> is_row_of(
                        #[trigger] rows@[i],
                        shown[i],
                        i,
                        self.state.hex_display,
                    ),
            decreases n - k,
        {
            let m = &self.state.messages[k];
            let received = m.direction == MessageDirection::Received;
            let direction = if received {
                "RX / 收到"
            } else {
                "TX / 发出"
            };
            let index = k - first;
            rows.push(
                LogRow {
                    timestamp: text(m.timestamp.as_str()),
                    direction: text(direction),
                    received,
                    shaded: index % 2 == 1,
                    text: format_message_display(m, self.state.hex_display),
                },
            );
            assert(shown[index as int] == self.state.messages@[k as int]);
            k += 1;
        }
        rows
    }

    /// What the terminal tab shows.
    pub fn terminal_view(&self) -> (t: TerminalView)
        ensures
            ({
                let st = self.state;
                let shown = visible_entries(st.messages@);
                &&& t.encoding_label@ == "编码 · "@ + encoding_label(st.send_encoding) + " ↻"@
                &&& t.line_ending_label@ == "行尾 · "@ + line_ending_title(st.send_line_ending)
                    + " ↻"@
                &&& t.loop_label@ == (if st.loop_send {
                    "停止循环"@
                } else {
                    "循环发送"@
                })
                &&& t.loop_tone == (if st.loop_send {
                    ButtonTone::Danger
                } else {
                    ButtonTone::Dark
                })
                &&& t.loop_disabled == (!st.connected || st.connecting)
                &&& t.send_disabled == (!st.connected || st.connecting)
                &&& t.clear_label@ == (if self.confirm_clear {
                    "确认清空"@
                } else {
                    "清空日志"@
                })
                &&& t.show_cancel_clear == self.confirm_clear
                &&& t.focus_label@ == (if self.log_focused {
                    "退出专注"@
                } else {
                    "专注日志"@
                })
                &&& t.counters@ == "RX "@ + decimal(st.bytes_received as nat) + " B · TX "@
                    + decimal(st.bytes_sent as nat) + " B"@
                &&& t.receive_encoding_label@ == (if st.connected {
                    "RX "@ + encoding_label(self.receive_encoding) + "（连接时）"@
                } else {
                    "RX 等待连接"@
                })
                &&& t.rows@.len() == shown.len()
                &&& forall|i: int|
                    0 <= i < shown.len() ==> is_row_of(
                        #[trigger] t.rows@[i],
                        shown[i],
                        i,
                        st.hex_display,
                    )
                &&& (t.preview is None <==> st.receive_preview@.len() == 0)
                &&& (t.preview matches Some(p) ==> p@ == "未完成行 / "@ + visualize_spec(
                    st.receive_preview@,
                ))
                &&& t.show_composer == !self.log_focused
            }),
    {
        let st = &self.state;
        let mut counters = number_between("RX ", st.bytes_received, " B · TX ");
        push_decimal(&mut counters, st.bytes_sent);
        counters.append(" B");
        let receive_encoding_label = if st.connected {
            joined3("RX ", encoding_name(&self.receive_encoding), "（连接时）")
        } else {
            text("RX 等待连接")
        };
        let preview = if st.receive_preview.as_str().unicode_len() == 0 {
            None
        } else {
            let shown = visualize_serial_data(st.receive_preview.as_str());
            Some(joined("未完成行 / ", shown.as_str()))
        };
        TerminalView {
            encoding_label: joined3("编码 · ", encoding_name(&st.send_encoding), " ↻"),
            line_ending_label: joined3("行尾 · ", line_ending_name(&st.send_line_ending), " ↻"),
            loop_label: text(
                if st.loop_send {
                    "停止循环"
                } else {
                    "循环发送"
                },
            ),
            loop_tone: if st.loop_send {
                ButtonTone::Danger
            } else {
                ButtonTone::Dark
            },
            loop_disabled: !st.connected || st.connecting,
            send_disabled: !st.connected || st.connecting,
            clear_label: text(
                if self.confirm_clear {
                    "确认清空"
                } else {
                    "清空日志"
                },
            ),
            show_cancel_clear: self.confirm_clear,
            focus_label: text(
                if self.log_focused {
                    "退出专注"
                } else {
                    "专注日志"
                },
            ),
            counters,
            receive_encoding_label,
            rows: self.log_rows(),
            preview,
            show_composer: !self.log_focused,
        }
    }

    /// Whether an optional id is the given one.
    fn is_id(slot: &Option<String>, id: &str) -> (b: bool)
        ensures
            b == (slot matches Some(s) && s@ == id@),
    {
        match slot {
            Some(s) => str_equal(s.as_str(), id),
            None => false,
        }
    }

    /// What the command library shows.
    pub fn commands_view(&self) -> (c: CommandsView)
        requires
            self.state.presets@.len() < u64::MAX,
        ensures
            ({
                let editing = self.editing_preset is Some;
                &&& c.editor_title@ == (if editing {
                    "编辑命令"@
                } else {
                    "新建命令"@
                })
                &&& c.save_label@ == (if editing {
                    "更新命令"@
                } else {
                    "保存命令"@
                })
                &&& c.show_cancel_edit == editing
                &&& c.show_editing_badge == editing
                &&& c.line_ending_badge@ == "直接发送行尾 · "@ + line_ending_title(
                    self.state.send_line_ending,
                )
                &&& c.preset_encoding_label@ == encoding_label(self.preset_encoding) + " ↻"@
                &&& c.count_label@ == decimal(self.state.presets@.len()) + " 条"@
                &&& c.rows@.len() == self.state.presets@.len()
                &&& forall|i: int|
                    0 <= i < c.rows@.len() ==> is_preset_row(#[trigger] c.rows@[i], *self, i)
            }),
    {
        let editing = self.editing_preset.is_some();
        let mut rows: Vec<PresetRow> = Vec::new();
        let mut i: usize = 0;
        while i < self.state.presets.len()
            invariant
                i <= self.state.presets@.len() < u64::MAX,
                rows@.len() == i,
                forall|j: int| 0 <= j < i ==> is_preset_row(#[trigger] rows@[j], *self, j),
            decreases self.state.presets@.len() - i,
        {
            let p = &self.state.presets[i];
            let current = AppView::is_id(&self.editing_preset, p.id.as_str());
            let pending = AppView::is_id(&self.pending_delete, p.id.as_str());
            let mut number = String::new();
            push_zero_padded(&mut number, (i + 1) as u64, 2);
            rows.push(
                PresetRow {
                    number,
                    name: text(p.name.as_str()),
                    encoding_label: text(encoding_name(&p.encoding)),
                    content: text(p.content.as_str()),
                    is_current: current,
                    edit_tone: if current {
                        ButtonTone::Accent
                    } else {
                        ButtonTone::Secondary
                    },
                    delete_label: text(
                        if pending {
                            "确认删除"
                        } else {
                            "删除"
                        },
                    ),
                    show_cancel_delete: pending,
                    send_disabled: !self.state.connected,
                },
            );
            i += 1;
        }
        CommandsView {
            editor_title: text(
                if editing {
                    "编辑命令"
                } else {
                    "新建命令"
                },
            ),
            save_label: text(
                if editing {
                    "更新命令"
                } else {
                    "保存命令"
                },
            ),
            show_cancel_edit: editing,
            show_editing_badge: editing,
            line_ending_badge: joined("直接发送行尾 · ", line_ending_name(&self.state.send_line_ending)),
            preset_encoding_label: joined(encoding_name(&self.preset_encoding), " ↻"),
            count_label: number_then(self.state.presets.len() as u64, " 条"),
            rows,
        }
    }

    /// What the footer shows: the error, or else the status; the last export
    /// path, or else a note that data stays local.
    pub fn footer_view(&self) -> (f: FooterView)
        ensures
            f.has_error == self.state.error is Some,
            f.show_dismiss == self.state.error is Some,
            f.primary@ == match self.state.error {
                Some(e) => "注意 / "@ + e@,
                None => "活动 / "@ + self.state.status@,
            },
            f.secondary@ == match self.last_export {
                Some(p) => "最近导出 / "@ + p@,
                None => "本地处理 · 数据不会离开此设备"@,
            },
    {
        let primary = match &self.state.error {
            Some(e) => joined("注意 / ", e.as_str()),
            None => joined("活动 / ", self.state.status.as_str()),
        };
        let secondary = match &self.last_export {
            Some(p) => joined("最近导出 / ", p.as_str()),
            None => text("本地处理 · 数据不会离开此设备"),
        };
        FooterView {
            has_error: self.state.error.is_some(),
            primary,
            secondary,
            show_dismiss: self.state.error.is_some(),
        }
    }
}

} // verus!
