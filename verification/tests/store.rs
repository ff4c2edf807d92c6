use serial_debugger::services::api::{
    preset_store_get_args, preset_store_load_args, store_resource_args, stored_presets,
};
use serial_debugger::services::store::{
    apply_send_line_ending, can_toggle_connection, claim_serial_data_listener_registration,
    event_parse_failure, message_direction_label, normalize_loop_interval_ms,
    parse_send_line_ending_value, received_message_render_key, send_line_ending_value,
    sent_message, should_continue_loop_send, split_received_message_lines, visualize_serial_data,
    Encoding, MessageDirection, ReceiveLineBuffer, ReceivedMessage, SendLineEnding,
};

fn received_message(data: &str) -> ReceivedMessage {
    ReceivedMessage {
        direction: MessageDirection::Received,
        timestamp: "12:34:56.789".to_string(),
        data: data.to_string(),
        encoding: Encoding::Ascii,
        raw_bytes: data.as_bytes().to_vec(),
    }
}

#[test]
fn loop_send_stops_when_connection_is_closed() {
    assert!(!should_continue_loop_send(false, true));
    assert!(!should_continue_loop_send(true, false));
    assert!(should_continue_loop_send(true, true));
}

#[test]
fn loop_interval_is_never_zero() {
    assert_eq!(normalize_loop_interval_ms(0), 1);
    assert_eq!(normalize_loop_interval_ms(250), 250);
}

#[test]
fn apply_send_line_ending_appends_text_endings_for_text_encodings() {
    assert_eq!(
        apply_send_line_ending("AT", &Encoding::Ascii, &SendLineEnding::NoEnding),
        "AT"
    );
    assert_eq!(
        apply_send_line_ending("AT", &Encoding::Ascii, &SendLineEnding::Cr),
        "AT\r"
    );
    assert_eq!(
        apply_send_line_ending("AT", &Encoding::Utf8, &SendLineEnding::Lf),
        "AT\n"
    );
    assert_eq!(
        apply_send_line_ending("AT", &Encoding::Gbk, &SendLineEnding::Crlf),
        "AT\r\n"
    );
}

#[test]
fn apply_send_line_ending_appends_hex_bytes_for_hex_encoding() {
    assert_eq!(
        apply_send_line_ending("41 54", &Encoding::Hex, &SendLineEnding::Cr),
        "41 54 0D"
    );
    assert_eq!(
        apply_send_line_ending("41 54", &Encoding::Hex, &SendLineEnding::Lf),
        "41 54 0A"
    );
    assert_eq!(
        apply_send_line_ending("41 54", &Encoding::Hex, &SendLineEnding::Crlf),
        "41 54 0D 0A"
    );
    assert_eq!(
        apply_send_line_ending("", &Encoding::Hex, &SendLineEnding::Crlf),
        "0D 0A"
    );
}

#[test]
fn sent_message_marks_direction_and_visualizes_control_characters() {
    let message = sent_message("12:34:56.789", "AT\r\n".to_string(), Encoding::Ascii);

    assert_eq!(message.direction, MessageDirection::Sent);
    assert_eq!(message_direction_label(&message.direction), "发送");
    assert_eq!(visualize_serial_data(&message.data), "AT\\r\\n");
}

#[test]
fn received_message_render_keys_stay_unique_when_timestamps_match() {
    let first = ReceivedMessage {
        direction: MessageDirection::Received,
        timestamp: "12:34:56.789".to_string(),
        data: "first".to_string(),
        encoding: Encoding::Ascii,
        raw_bytes: vec![1],
    };
    let second = ReceivedMessage {
        direction: MessageDirection::Received,
        timestamp: "12:34:56.789".to_string(),
        data: "second".to_string(),
        encoding: Encoding::Ascii,
        raw_bytes: vec![2],
    };

    assert_ne!(
        received_message_render_key(0, &first),
        received_message_render_key(1, &second)
    );
}

#[test]
fn serial_data_listener_registration_can_only_be_claimed_once() {
    let mut registered = false;

    assert!(claim_serial_data_listener_registration(&mut registered));
    assert!(!claim_serial_data_listener_registration(&mut registered));
    assert!(registered);
}

#[test]
fn connection_toggle_is_disabled_while_request_is_in_progress() {
    assert!(!can_toggle_connection(false, "tty.usbserial", true));
    assert!(!can_toggle_connection(true, "tty.usbserial", true));
    assert!(!can_toggle_connection(false, "", false));
    assert!(can_toggle_connection(false, "tty.usbserial", false));
    assert!(can_toggle_connection(true, "", false));
}

#[test]
fn split_received_message_lines_uses_received_newline_characters() {
    let mut buffer = ReceiveLineBuffer::default();
    let message = received_message("first\r\nsecond\nthird\r");

    let lines = split_received_message_lines(&mut buffer, message);

    assert_eq!(
        lines
            .iter()
            .map(|line| line.data.as_str())
            .collect::<Vec<_>>(),
        vec!["first", "second", "third"]
    );
    assert!(buffer.pending().is_empty());
}

#[test]
fn split_received_message_lines_buffers_incomplete_line_between_events() {
    let mut buffer = ReceiveLineBuffer::default();

    let first_lines = split_received_message_lines(&mut buffer, received_message("hello "));
    assert!(first_lines.is_empty());
    assert_eq!(buffer.pending(), "hello ");

    let second_lines = split_received_message_lines(&mut buffer, received_message("world\nnext"));

    assert_eq!(
        second_lines
            .iter()
            .map(|line| line.data.as_str())
            .collect::<Vec<_>>(),
        vec!["hello world"]
    );
    assert_eq!(buffer.pending(), "next");
}

#[test]
fn split_received_message_lines_treats_crlf_across_events_as_one_break() {
    let mut buffer = ReceiveLineBuffer::default();

    let first_lines = split_received_message_lines(&mut buffer, received_message("hello\r"));
    let second_lines = split_received_message_lines(&mut buffer, received_message("\nnext\n"));

    assert_eq!(
        first_lines
            .iter()
            .map(|line| line.data.as_str())
            .collect::<Vec<_>>(),
        vec!["hello"]
    );
    assert_eq!(
        second_lines
            .iter()
            .map(|line| line.data.as_str())
            .collect::<Vec<_>>(),
        vec!["next"]
    );
    assert!(buffer.pending().is_empty());
}

#[test]
fn render_key_is_position_then_timestamp() {
    assert_eq!(received_message_render_key(12, &received_message("x")), "12-12:34:56.789");
}

#[test]
fn split_lines_keep_timestamp_and_drop_raw_bytes() {
    let mut buffer = ReceiveLineBuffer::default();
    let lines = split_received_message_lines(&mut buffer, received_message("a\n"));
    assert_eq!(lines[0].timestamp, "12:34:56.789");
    assert_eq!(lines[0].encoding, Encoding::Ascii);
    assert!(lines[0].raw_bytes.is_empty());
    assert_eq!(lines[0].direction, MessageDirection::Received);
}

#[test]
fn line_ending_values_round_trip() {
    for e in [SendLineEnding::NoEnding, SendLineEnding::Cr, SendLineEnding::Lf, SendLineEnding::Crlf] {
        assert_eq!(parse_send_line_ending_value(send_line_ending_value(&e)), e);
    }
    assert_eq!(parse_send_line_ending_value("bogus"), SendLineEnding::NoEnding);
}

#[test]
fn web_loop_interval_has_no_upper_bound() {
    assert_eq!(normalize_loop_interval_ms(u64::MAX), u64::MAX);
}

#[test]
fn event_parse_failure_names_both_errors() {
    assert_eq!(
        event_parse_failure("a", "b"),
        "无法解析串口事件 payload: a; 直接解析消息也失败: b"
    );
}

#[test]
fn preset_store_arguments() {
    assert_eq!(preset_store_load_args().path, "preset-commands.json");
    let a = preset_store_get_args(42);
    assert_eq!((a.rid, a.key.as_str()), (42, "preset_commands"));
    assert_eq!(store_resource_args(42).rid, 42);
    assert!(stored_presets(false, Err("ignored".into())).unwrap().is_empty());
    assert_eq!(
        stored_presets(true, Err("bad json".into())).unwrap_err(),
        "解析预设指令失败: bad json"
    );
}
