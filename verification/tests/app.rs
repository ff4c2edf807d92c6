use serial_debugger::app::{
    AppView, ConnectionRequest, ExportFormat, LoopRequest, Transmission,
};
use serial_debugger::export::persistence::SavedSettings;
use serial_debugger::serial::protocol::{ReceivedData, SerialEvent};
use serial_debugger::state::{
    ActiveTab, Encoding, MessageDirection, PortConfig, PresetCommand, SendLineEnding,
    MAX_LOG_ENTRIES,
};
use serial_debugger::ui::components::ButtonTone;

fn fresh() -> AppView {
    AppView::new(Ok(SavedSettings::default()), vec!["COM3".to_string()])
}

fn connected() -> AppView {
    let mut v = fresh();
    v.port_input = "  COM3 ".to_string();
    assert_eq!(v.toggle_connection(), ConnectionRequest::Open);
    assert!(v.finish_connect(Ok(())));
    v
}

fn data(bytes: &[u8], encoding: Encoding) -> SerialEvent {
    SerialEvent::Data(ReceivedData {
        timestamp: "10:00:00.000".to_string(),
        raw_bytes: bytes.to_vec(),
        encoding,
    })
}

fn preset(id: &str, name: &str, content: &str) -> PresetCommand {
    PresetCommand {
        id: id.to_string(),
        name: name.to_string(),
        content: content.to_string(),
        encoding: Encoding::Ascii,
    }
}

#[test]
fn start_up_takes_the_saved_settings_or_reports_the_load_error() {
    let mut settings = SavedSettings::default();
    settings.port_config.port_name = "/dev/ttyUSB0".to_string();
    settings.presets.push(preset("1", "ping", "AT"));
    let v = AppView::new(Ok(settings), vec![]);
    assert_eq!(v.state.config.port_name, "/dev/ttyUSB0");
    assert_eq!(v.port_input, "/dev/ttyUSB0");
    assert_eq!(v.state.presets.len(), 1);
    assert!(v.state.error.is_none());
    assert_eq!(v.preset_name_input, "新命令");
    assert_eq!(v.loop_interval_input, "1000");

    let v = AppView::new(Err("读取配置失败".to_string()), vec![]);
    assert_eq!(v.state.error.as_deref(), Some("读取配置失败"));
    assert_eq!(v.state.config.baud_rate, 115_200);
    assert_eq!(v.state.status, "未连接");
}

#[test]
fn connecting_needs_a_port_name() {
    let mut v = fresh();
    v.port_input = "   ".to_string();
    assert_eq!(v.toggle_connection(), ConnectionRequest::Stay);
    assert_eq!(v.state.error.as_deref(), Some("请先填写串口名称"));
    assert!(!v.state.connecting);
}

#[test]
fn connecting_trims_the_name_and_reports_the_outcome() {
    let mut v = fresh();
    v.port_input = "  COM3 ".to_string();
    v.state.send_encoding = Encoding::Hex;
    assert_eq!(v.toggle_connection(), ConnectionRequest::Open);
    assert!(v.state.connecting);
    assert_eq!(v.state.config.port_name, "COM3");
    assert_eq!(v.receive_encoding, Encoding::Hex);
    assert!(v.finish_connect(Ok(())));
    assert!(v.state.connected && !v.state.connecting);
    assert_eq!(v.state.status, "已连接 · COM3");

    let mut w = fresh();
    w.port_input = "COM9".to_string();
    w.toggle_connection();
    assert!(!w.finish_connect(Err("打开串口失败: busy".to_string())));
    assert!(!w.state.connected && !w.state.connecting);
    assert_eq!(w.state.status, "连接失败");
    assert_eq!(w.state.error.as_deref(), Some("打开串口失败: busy"));
}

#[test]
fn disconnecting_flushes_and_stops_the_loop() {
    let mut v = connected();
    v.send_input = "AT".to_string();
    let generation = match v.toggle_loop_send() {
        LoopRequest::Start { generation, .. } => generation,
        other => panic!("unexpected {other:?}"),
    };
    v.handle_serial_event(data(b"partial", Encoding::Ascii));
    assert_eq!(v.toggle_connection(), ConnectionRequest::Close);
    v.finish_disconnect(Ok(()), false);
    assert!(!v.state.connected && !v.state.loop_send);
    assert_eq!(v.state.status, "已断开");
    assert_eq!(v.state.messages.last().unwrap().data, "partial");
    assert_eq!(v.state.messages.last().unwrap().raw_bytes, b"partial".to_vec());
    assert!(!v.loop_may_send(generation));

    let mut w = connected();
    w.finish_disconnect(Err("接收线程关闭失败".to_string()), true);
    assert!(w.state.connected);
    assert_eq!(w.state.status, "接收线程关闭失败");
}

#[test]
fn received_data_is_split_into_lines_with_a_preview() {
    let mut v = connected();
    v.handle_serial_event(data(b"hello\r\nwor", Encoding::Ascii));
    assert_eq!(v.state.messages.len(), 1);
    assert_eq!(v.state.messages[0].data, "hello");
    assert_eq!(v.state.messages[0].direction, MessageDirection::Received);
    assert_eq!(v.state.messages[0].timestamp, "10:00:00.000");
    assert_eq!(v.state.receive_preview, "wor");
    assert_eq!(v.state.bytes_received, 10);
    assert_eq!(v.state.status, "正在接收");
    v.handle_serial_event(data(b"ld\n", Encoding::Ascii));
    assert_eq!(v.state.messages[1].data, "world");
    assert_eq!(v.state.receive_preview, "");
}

#[test]
fn utf8_preview_holds_back_a_split_character() {
    let mut v = connected();
    v.handle_serial_event(data(&[0x41, 0xe4, 0xbd], Encoding::Utf8));
    assert_eq!(v.state.receive_preview, "A");
    v.handle_serial_event(data(&[0xa0], Encoding::Utf8));
    assert_eq!(v.state.receive_preview, "A你");
    assert_eq!(v.receive_encoding, Encoding::Utf8);
}

#[test]
fn port_errors_and_disconnections_are_reported() {
    let mut v = connected();
    v.handle_serial_event(SerialEvent::Error("读取串口失败: EIO".to_string()));
    assert_eq!(v.state.error.as_deref(), Some("读取串口失败: EIO"));
    assert_eq!(v.state.status, "读取串口失败: EIO");
    let g = v.loop_generation;
    v.handle_serial_event(SerialEvent::Disconnected);
    assert!(!v.state.connected);
    assert_eq!(v.state.status, "设备已断开");
    assert_eq!(v.loop_generation, g + 1);
}

#[test]
fn sending_needs_a_connection_and_logs_what_was_sent() {
    let mut v = fresh();
    v.send_input = "AT".to_string();
    assert!(v.send_message().is_none());
    assert_eq!(v.state.error.as_deref(), Some("请先连接串口"));

    let mut v = connected();
    assert!(v.send_message().is_none());
    v.send_input = "AT".to_string();
    v.state.send_line_ending = SendLineEnding::Crlf;
    let t = v.send_message().unwrap();
    assert_eq!(t.content, "AT\r\n");
    assert_eq!(t.bytes, b"AT\r\n".to_vec());
    assert_eq!(v.state.status, "发送中…");
    v.finish_send(t, Ok(4), false);
    assert_eq!(v.state.bytes_sent, 4);
    assert_eq!(v.state.status, "已发送 4 字节");
    let m = v.state.messages.last().unwrap();
    assert_eq!(m.direction, MessageDirection::Sent);
    assert_eq!(m.data, "AT\r\n");
    assert_eq!(m.raw_bytes, b"AT\r\n".to_vec());
}

#[test]
fn encoding_failures_become_the_error() {
    let mut v = connected();
    v.send_input = "你好".to_string();
    assert!(v.send_message().is_none());
    assert_eq!(v.state.error.as_deref(), Some("ASCII 只能包含 0-127 范围内的字符"));
    v.state.send_encoding = Encoding::Hex;
    v.send_input = "4".to_string();
    assert!(v.send_message().is_none());
    assert_eq!(v.state.error.as_deref(), Some("HEX 字符串长度必须为偶数"));
}

#[test]
fn preset_sends_use_the_preset_encoding() {
    let mut v = connected();
    let mut p = preset("1", "hex", "41 54");
    p.encoding = Encoding::Hex;
    v.state.send_line_ending = SendLineEnding::Cr;
    let t = v.send_preset(p).unwrap();
    assert_eq!(t.content, "41 54 0D");
    assert_eq!(t.bytes, vec![0x41, 0x54, 0x0D]);
    assert_eq!(v.state.status, "预设发送中…");
    v.finish_send(t, Ok(3), true);
    assert_eq!(v.state.status, "预设已发送 3 字节");
    let t = Transmission { content: "x".into(), bytes: vec![1], encoding: Encoding::Ascii };
    v.finish_send(t, Err("发送失败: EIO".to_string()), true);
    assert_eq!(v.state.error.as_deref(), Some("发送失败: EIO"));
}

#[test]
fn loop_send_starts_runs_and_stops() {
    let mut v = connected();
    assert!(matches!(v.toggle_loop_send(), LoopRequest::Refused));
    assert_eq!(v.state.error.as_deref(), Some("循环发送内容不能为空"));
    v.send_input = "ping".to_string();
    v.loop_interval_input = "0".to_string();
    let (generation, interval, t) = match v.toggle_loop_send() {
        LoopRequest::Start { generation, interval_ms, transmission } => {
            (generation, interval_ms, transmission)
        }
        other => panic!("unexpected {other:?}"),
    };
    assert_eq!(interval, 1);
    assert_eq!(v.state.status, "循环发送中 · 每 1 ms");
    assert!(v.state.error.is_none());
    assert!(v.loop_may_send(generation));
    assert!(v.finish_loop_send(&t, Ok(4)));
    assert!(v.finish_loop_send(&t, Ok(4)));
    assert_eq!(v.state.bytes_sent, 8);
    assert_eq!(v.state.messages.len(), 2);
    v.loop_interval_input = "abc".to_string();
    assert_eq!(v.next_loop_interval(), 1);
    v.loop_interval_input = "999999999999".to_string();
    assert_eq!(v.next_loop_interval(), 86_400_000);
    assert!(matches!(v.toggle_loop_send(), LoopRequest::Stopped));
    assert_eq!(v.state.status, "循环发送已停止");
    assert!(!v.loop_may_send(generation));
    let g2 = match v.toggle_loop_send() {
        LoopRequest::Start { generation, .. } => generation,
        other => panic!("unexpected {other:?}"),
    };
    assert!(v.loop_may_send(g2));
    assert!(!v.loop_may_send(generation));
    assert!(!v.finish_loop_send(&t, Err("发送失败: EIO".to_string())));
    assert!(!v.state.loop_send);
    assert_ne!(v.loop_generation, g2);
    v.state.loop_send = true;
    assert!(!v.loop_may_send(g2));
}

#[test]
fn loop_send_interval_defaults_to_a_second() {
    let mut v = connected();
    v.send_input = "ping".to_string();
    v.loop_interval_input = "soon".to_string();
    match v.toggle_loop_send() {
        LoopRequest::Start { interval_ms, .. } => assert_eq!(interval_ms, 1000),
        other => panic!("unexpected {other:?}"),
    }
}

#[test]
fn clearing_asks_for_confirmation() {
    let mut v = connected();
    v.handle_serial_event(data(b"a\nb", Encoding::Ascii));
    v.press_clear();
    assert!(v.confirm_clear);
    assert_eq!(v.state.status, "再次点击“确认清空”完成操作");
    assert_eq!(v.state.messages.len(), 1);
    v.cancel_clear();
    assert!(!v.confirm_clear);
    assert_eq!(v.state.status, "已取消清空日志");
    v.press_clear();
    v.press_clear();
    assert!(!v.confirm_clear);
    assert!(v.state.messages.is_empty());
    assert_eq!(v.state.receive_preview, "");
    assert_eq!(v.state.bytes_received, 0);
    assert_eq!(v.state.status, "日志已清空");
}

#[test]
fn exports_flush_and_report() {
    let mut v = connected();
    v.handle_serial_event(data(b"a\nrest", Encoding::Ascii));
    let r = v.export_logs(ExportFormat::Csv);
    assert_eq!(r.entries.len(), 2);
    assert_eq!(r.entries[1].data, "rest");
    assert!(r.file_name.starts_with("serial-log-"));
    assert!(r.file_name.ends_with(".csv"));
    let stamp = &r.file_name["serial-log-".len()..r.file_name.len() - ".csv".len()];
    assert_eq!(stamp.len(), 15);
    for (i, c) in stamp.chars().enumerate() {
        if i == 8 {
            assert_eq!(c, '-');
        } else {
            assert!(c.is_ascii_digit());
        }
    }
    assert_eq!(r.filter_name, "CSV 文件");
    assert_eq!(v.state.status, "等待选择 CSV 文件 保存位置");
    assert_eq!(v.export_target("out", ExportFormat::Csv).unwrap(), "out.csv");
    assert!(v.export_target("out.txt", ExportFormat::Csv).is_none());
    assert!(v.state.error.as_deref().unwrap().starts_with("路径扩展名不匹配"));
    v.finish_export("out.csv".to_string(), 2, Ok(()));
    assert_eq!(v.state.status, "已导出 2 条日志");
    assert_eq!(v.last_export.as_deref(), Some("out.csv"));
    let t = v.export_logs(ExportFormat::Txt);
    assert_eq!(t.filter_name, "文本文件");
    assert_eq!(t.extension, "txt");
}

#[test]
fn presets_are_added_edited_and_deleted() {
    let mut v = fresh();
    v.preset_name_input = "  ".to_string();
    v.preset_content_input = "AT".to_string();
    assert!(!v.add_preset());
    assert_eq!(v.state.error.as_deref(), Some("命令名称和内容都不能为空"));
    v.preset_name_input = " ping ".to_string();
    assert!(v.add_preset());
    assert!(v.state.error.is_none());
    assert_eq!(v.state.status, "命令已保存");
    assert_eq!(v.state.presets.len(), 1);
    let p = v.state.presets[0].clone();
    assert_eq!(p.name, "ping");
    assert_eq!(p.content, "AT");
    assert_eq!(p.id.len(), 36);
    for (i, c) in p.id.chars().enumerate() {
        if [8, 13, 18, 23].contains(&i) {
            assert_eq!(c, '-');
        } else {
            assert!(c.is_ascii_digit() || ('a'..='f').contains(&c));
        }
    }
    assert_eq!(p.id.as_bytes()[14], b'4');
    assert!(b"89ab".contains(&p.id.as_bytes()[19]));
    assert_eq!(v.preset_name_input, "新命令");
    assert_eq!(v.preset_content_input, "");

    v.begin_edit(p.clone());
    assert_eq!(v.state.status, "正在编辑命令");
    assert_eq!(v.preset_name_input, "ping");
    v.preset_content_input = "AT+RST".to_string();
    v.cycle_preset_encoding();
    assert!(v.add_preset());
    assert_eq!(v.state.status, "命令已更新");
    assert_eq!(v.state.presets[0].content, "AT+RST");
    assert_eq!(v.state.presets[0].encoding, Encoding::Hex);
    assert!(v.editing_preset.is_none());

    assert!(!v.confirm_or_request_delete(p.id.clone()));
    assert_eq!(v.state.status, "再次点击“确认删除”完成操作");
    v.cancel_delete();
    assert!(v.pending_delete.is_none());
    assert!(!v.confirm_or_request_delete(p.id.clone()));
    assert!(v.confirm_or_request_delete(p.id.clone()));
    assert!(v.state.presets.is_empty());
    assert_eq!(v.state.status, "命令已删除");
}

#[test]
fn editing_a_vanished_preset_is_an_error() {
    let mut v = fresh();
    v.begin_edit(preset("gone", "x", "y"));
    v.preset_name_input = "x".to_string();
    v.preset_content_input = "y".to_string();
    assert!(!v.add_preset());
    assert_eq!(v.state.error.as_deref(), Some("要编辑的命令已不存在"));
    assert!(v.editing_preset.is_none());
}

#[test]
fn using_a_preset_loads_the_send_field() {
    let mut v = fresh();
    v.show_commands_tab();
    let mut p = preset("1", "ping", "AT");
    p.encoding = Encoding::Utf8;
    v.use_preset(p);
    assert_eq!(v.send_input, "AT");
    assert_eq!(v.state.send_encoding, Encoding::Utf8);
    assert_eq!(v.state.active_tab, ActiveTab::ReceiveSend);
    assert_eq!(v.state.status, "已载入命令 · ping");
}

#[test]
fn settings_buttons_cycle() {
    let mut v = fresh();
    v.cycle_baud();
    assert_eq!(v.state.config.baud_rate, 230_400);
    v.state.config.baud_rate = 921_600;
    v.cycle_baud();
    assert_eq!(v.state.config.baud_rate, 9_600);
    v.state.config.baud_rate = 1234;
    v.cycle_baud();
    assert_eq!(v.state.config.baud_rate, 19_200);
    v.cycle_data_bits();
    assert_eq!(v.state.config.data_bits, 5);
    v.cycle_stop_bits();
    assert_eq!(v.state.config.stop_bits, "2");
    v.cycle_parity();
    assert_eq!(v.state.config.parity, "odd");
    v.cycle_flow_control();
    assert_eq!(v.state.config.flow_control, "rts_cts");
    v.cycle_encoding();
    assert_eq!(v.state.send_encoding, Encoding::Hex);
    v.cycle_line_ending();
    assert_eq!(v.state.send_line_ending, SendLineEnding::Cr);
    let s = v.settings_snapshot();
    assert_eq!(s.port_config.flow_control, "rts_cts");
}

#[test]
fn ports_are_refreshed_and_selected() {
    let mut v = fresh();
    v.refresh_ports(vec!["COM1".to_string(), "COM2".to_string()]);
    assert_eq!(v.state.status, "已刷新串口列表 · 2 个设备");
    v.select_port("COM2".to_string());
    assert_eq!(v.state.config.port_name, "COM2");
    assert_eq!(v.port_input, "COM2");
    v.finish_save(Err("写入配置失败: denied".to_string()));
    assert_eq!(v.state.error.as_deref(), Some("写入配置失败: denied"));
    v.dismiss_error();
    assert!(v.state.error.is_none());
}

#[test]
fn views_follow_the_state() {
    let mut v = fresh();
    let h = v.header_view();
    assert_eq!(h.connection_label, "未连接");
    assert_eq!(h.terminal_tab, ButtonTone::Primary);
    let p = v.connection_panel_view();
    assert_eq!(p.connect_label, "建立连接");
    assert_eq!(p.config_summary, "未选择端口 · 115200 · 8N1");
    assert_eq!(p.device_summary, "发现 1 个设备");
    assert_eq!(p.parity_label, "无校验 ↻");
    v = connected();
    v.handle_serial_event(data(b"ok\r\nmore", Encoding::Ascii));
    let p = v.connection_panel_view();
    assert!(p.controls_locked);
    assert_eq!(p.connect_label, "断开串口");
    assert_eq!(p.lock_note, "当前会话参数已锁定");
    let t = v.terminal_view();
    assert_eq!(t.rows.len(), 1);
    assert_eq!(t.rows[0].direction, "RX / 收到");
    assert_eq!(t.rows[0].text, "ok");
    assert_eq!(t.preview.as_deref(), Some("未完成行 / more"));
    assert_eq!(t.counters, "RX 8 B · TX 0 B");
    assert_eq!(t.receive_encoding_label, "RX ASCII（连接时）");
    assert_eq!(t.loop_label, "循环发送");
    v.state.presets.push(preset("a", "one", "1"));
    v.pending_delete = Some("a".to_string());
    let c = v.commands_view();
    assert_eq!(c.count_label, "1 条");
    assert_eq!(c.rows[0].number, "01");
    assert_eq!(c.rows[0].delete_label, "确认删除");
    let f = v.footer_view();
    assert_eq!(f.primary, "活动 / 正在接收");
    assert_eq!(f.secondary, "本地处理 · 数据不会离开此设备");
}

#[test]
fn the_log_view_shows_the_newest_entries() {
    let mut v = connected();
    for _ in 0..600 {
        v.handle_serial_event(data(b"x\n", Encoding::Ascii));
    }
    let t = v.terminal_view();
    assert_eq!(t.rows.len(), 500);
    assert!(!t.rows[0].shaded);
    assert!(t.rows[1].shaded);
}

#[test]
fn the_log_stays_bounded_through_the_app() {
    let mut v = connected();
    let mut chunk = Vec::new();
    for _ in 0..(MAX_LOG_ENTRIES + 5) {
        chunk.extend_from_slice(b"x\n");
    }
    v.handle_serial_event(data(&chunk, Encoding::Ascii));
    assert_eq!(v.state.messages.len(), MAX_LOG_ENTRIES);
}

#[test]
fn tabs_and_toggles() {
    let mut v = fresh();
    v.confirm_clear = true;
    v.show_commands_tab();
    assert_eq!(v.state.active_tab, ActiveTab::CommandManager);
    assert!(!v.confirm_clear);
    v.pending_delete = Some("x".into());
    v.show_terminal_tab();
    assert!(v.pending_delete.is_none());
    v.set_hex_display(true);
    v.set_auto_scroll(false);
    v.toggle_log_focus();
    assert!(v.state.hex_display && !v.state.auto_scroll && v.log_focused);
    assert!(!v.terminal_view().show_composer);
}

#[test]
fn config_default_matches_the_settings_default() {
    let c = PortConfig::default();
    assert_eq!((c.baud_rate, c.data_bits), (115_200, 8));
    assert_eq!((c.stop_bits.as_str(), c.parity.as_str(), c.flow_control.as_str()), ("1", "none", "none"));
}
