use serial_debugger::backend::commands::PortInfo;
use serial_debugger::components::command_manager_tab::{delete_command, save_command};
use serial_debugger::components::receive_send_tab::{
    clear, encoding_from_value, encoding_value, export_entries, export_format_for_path,
    loop_may_continue, loop_send_failed, receive_payload, record_sent, set_loop_interval,
    toggle_loop,
};
use serial_debugger::components::serial_panel::{
    connect_button_label, finish_toggle, port_count_label, ports_status, selected_port_meta,
    set_baud_rate, set_data_bits, toggle_connection, PanelRequest,
};
use serial_debugger::components::status_bar::{status_text, traffic_labels};
use serial_debugger::services::store::{AppState, Encoding, MessageDirection, PresetCommand, ReceivedMessage};

fn port(name: &str, kind: &str) -> PortInfo {
    PortInfo { port_name: name.into(), port_type: kind.into() }
}

fn payload(data: &str) -> ReceivedMessage {
    ReceivedMessage {
        direction: MessageDirection::Received,
        timestamp: "12:00:00.000".into(),
        data: data.into(),
        encoding: Encoding::Ascii,
        raw_bytes: data.as_bytes().to_vec(),
    }
}

#[test]
fn port_meta_names_the_selected_port_type() {
    let ports = [port("COM1", "PciPort"), port("COM3", "UsbPort(UsbPortInfo { vid: 1 })")];
    assert_eq!(selected_port_meta(&ports, "COM3"), "类型: USB 设备");
    assert_eq!(selected_port_meta(&ports, "COM9"), "请选择一个串口设备");
    assert_eq!(selected_port_meta(&[], "COM9"), "未发现可用串口");
    assert_eq!(port_count_label(2), "2 个端口");
    assert_eq!(connect_button_label(true, true), "处理中...");
    assert_eq!(connect_button_label(false, true), "断开连接");
    assert_eq!(connect_button_label(false, false), "打开串口");
}

#[test]
fn port_listing_status() {
    assert_eq!(ports_status(&Ok(vec![])), "未发现串口，请连接设备后刷新");
    assert_eq!(ports_status(&Ok(vec![port("a", "b")])), "");
    assert_eq!(ports_status(&Err("denied".into())), "获取串口失败: denied");
}

#[test]
fn panel_connection_flow() {
    let mut s = AppState::init();
    assert_eq!(toggle_connection(&mut s), PanelRequest::Ignored);
    s.port_config.port_name = "COM3".into();
    assert_eq!(toggle_connection(&mut s), PanelRequest::Open);
    assert!(s.connection_in_progress);
    assert_eq!(toggle_connection(&mut s), PanelRequest::Ignored);
    let mut status = String::from("old");
    finish_toggle(&mut s, &mut status, false, Err("busy".into()));
    assert_eq!(status, "打开失败: busy");
    assert!(!s.is_connected && !s.connection_in_progress);
    toggle_connection(&mut s);
    finish_toggle(&mut s, &mut status, false, Ok(()));
    assert!(s.is_connected);
    assert_eq!(status, "");
    s.loop_send = true;
    assert_eq!(toggle_connection(&mut s), PanelRequest::Close);
    assert!(!s.loop_send);
    receive_payload(&mut s, payload("half"));
    finish_toggle(&mut s, &mut status, true, Ok(()));
    assert!(!s.is_connected);
    assert_eq!(s.receive_line_buffer.pending(), "");
}

#[test]
fn panel_selectors_parse_numbers() {
    let mut s = AppState::init();
    set_baud_rate(&mut s, "9600");
    assert_eq!(s.port_config.baud_rate, 9600);
    set_baud_rate(&mut s, "fast");
    assert_eq!(s.port_config.baud_rate, 9600);
    set_data_bits(&mut s, "7");
    assert_eq!(s.port_config.data_bits, 7);
    set_data_bits(&mut s, "300");
    assert_eq!(s.port_config.data_bits, 7);
}

#[test]
fn received_payloads_become_lines() {
    let mut s = AppState::init();
    receive_payload(&mut s, payload("a\r"));
    receive_payload(&mut s, payload("\nbc"));
    assert_eq!(s.received_messages.len(), 1);
    assert_eq!(s.received_messages[0].data, "a");
    assert_eq!(s.receive_line_buffer.pending(), "bc");
    assert_eq!(s.bytes_received, 5);
    record_sent(&mut s, "AT\r\n".into(), Encoding::Ascii, 4);
    assert_eq!(s.bytes_sent, 4);
    assert_eq!(s.received_messages[1].direction, MessageDirection::Sent);
    assert!(s.received_messages[1].raw_bytes.is_empty());
    clear(&mut s);
    assert!(s.received_messages.is_empty());
    assert_eq!((s.bytes_received, s.bytes_sent), (0, 0));
}

#[test]
fn web_exports_use_debug_encoding_names() {
    let mut m = payload("x\r\n");
    m.encoding = Encoding::Utf8;
    let e = export_entries(&[m]);
    assert_eq!(e[0].encoding, "Utf8");
    assert_eq!(e[0].direction, "收到");
    assert_eq!(e[0].data, "x\r\n");
    assert_eq!(export_format_for_path("/tmp/log.csv"), "csv");
    assert_eq!(export_format_for_path("/tmp/log.CSV"), "txt");
    assert_eq!(export_format_for_path("csv"), "txt");
}

#[test]
fn web_encoding_selector_values() {
    for e in [Encoding::Ascii, Encoding::Hex, Encoding::Utf8, Encoding::Gbk] {
        assert_eq!(encoding_from_value(encoding_value(&e)), e);
    }
    assert_eq!(encoding_from_value("latin1"), Encoding::Ascii);
}

#[test]
fn web_loop_send_switch() {
    let mut s = AppState::init();
    assert!(toggle_loop(&mut s));
    assert!(!loop_may_continue(&mut s));
    assert!(!s.loop_send);
    s.is_connected = true;
    assert!(toggle_loop(&mut s));
    assert!(loop_may_continue(&mut s));
    loop_send_failed(&mut s);
    assert!(!s.loop_send);
    assert!(!toggle_loop(&mut AppState { loop_send: true, ..AppState::init() }));
    set_loop_interval(&mut s, "250");
    assert_eq!(s.loop_interval_ms, 250);
    set_loop_interval(&mut s, "x");
    assert_eq!(s.loop_interval_ms, 250);
}

#[test]
fn web_command_library() {
    let mut commands: Vec<PresetCommand> = Vec::new();
    assert!(!save_command(&mut commands, None, "".into(), "AT".into(), Encoding::Ascii));
    assert!(save_command(&mut commands, None, "ping".into(), "AT".into(), Encoding::Ascii));
    assert_eq!(commands.len(), 1);
    let id = commands[0].id.clone();
    assert!(save_command(&mut commands, Some(id.clone()), "ping2".into(), "AT+X".into(), Encoding::Hex));
    assert_eq!(commands[0].name, "ping2");
    assert_eq!(commands[0].id, id);
    assert!(save_command(&mut commands, Some("gone".into()), "x".into(), "y".into(), Encoding::Hex));
    assert_eq!(commands.len(), 1);
    delete_command(&mut commands, &id);
    assert!(commands.is_empty());
}

#[test]
fn status_bar_texts() {
    assert_eq!(status_text(true), "已连接");
    assert_eq!(status_text(false), "未连接");
    assert_eq!(traffic_labels(3, 4), ("接收: 3 字节".to_string(), "发送: 4 字节".to_string()));
}
