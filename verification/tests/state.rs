use serial_debugger::export::persistence::SavedSettings;
use serial_debugger::state::{
    apply_send_line_ending, format_hex_bytes, format_message_display, format_timestamp,
    normalize_loop_interval_ms, push_log_bounded, should_continue_loop_send,
    split_received_data_lines, split_received_message_lines, AppState, Encoding,
    MessageDirection, ReceiveLineBuffer, ReceivedMessage, SendLineEnding, MAX_LOG_ENTRIES,
};

fn text_message(data: &str) -> ReceivedMessage {
    ReceivedMessage {
        direction: MessageDirection::Received,
        timestamp: "t".into(),
        data: data.into(),
        encoding: Encoding::Ascii,
        raw_bytes: vec![],
    }
}

#[test]
fn split_keeps_partial_lines() {
    let mut b = ReceiveLineBuffer::default();
    assert!(split_received_message_lines(
        &mut b,
        ReceivedMessage {
            direction: MessageDirection::Received,
            timestamp: "t".into(),
            data: "hello".into(),
            encoding: Encoding::Ascii,
            raw_bytes: vec![]
        }
    )
    .is_empty());
    assert_eq!(b.pending(), "hello");
}

#[test]
fn crlf_is_single_break() {
    let mut b = ReceiveLineBuffer::default();
    let m = ReceivedMessage {
        direction: MessageDirection::Received,
        timestamp: "t".into(),
        data: "a\r\nb\n".into(),
        encoding: Encoding::Ascii,
        raw_bytes: vec![],
    };
    let out = split_received_message_lines(&mut b, m);
    assert_eq!(
        out.iter().map(|m| m.data.as_str()).collect::<Vec<_>>(),
        ["a", "b"]
    );
}

#[test]
fn hex_ending_is_valid() {
    assert_eq!(
        apply_send_line_ending("41", &Encoding::Hex, &SendLineEnding::Crlf),
        "41 0D 0A"
    );
}

#[test]
fn bounded_log_applies_to_sent_and_received() {
    let mut log = Vec::new();
    for _ in 0..(MAX_LOG_ENTRIES + 1) {
        push_log_bounded(
            &mut log,
            ReceivedMessage {
                direction: MessageDirection::Received,
                timestamp: "t".into(),
                data: "x".into(),
                encoding: Encoding::Ascii,
                raw_bytes: vec![],
            },
        );
    }
    assert_eq!(log.len(), MAX_LOG_ENTRIES);
}

#[test]
fn loop_generation_invalidates_old_worker() {
    assert!(!should_continue_loop_send(true, true, 1, 2));
    assert!(should_continue_loop_send(true, true, 2, 2));
}

#[test]
fn default_settings_are_usable() {
    let settings = SavedSettings::default();
    assert_eq!(settings.port_config.baud_rate, 115200);
}

#[test]
fn bounded_log_drops_the_oldest_first() {
    let mut log = Vec::new();
    for i in 0..(MAX_LOG_ENTRIES + 2) {
        push_log_bounded(&mut log, text_message(&i.to_string()));
    }
    assert_eq!(log.len(), MAX_LOG_ENTRIES);
    assert_eq!(log[0].data, "2");
    assert_eq!(log[MAX_LOG_ENTRIES - 1].data, (MAX_LOG_ENTRIES + 1).to_string());
}

#[test]
fn byte_lines_keep_their_bytes_across_chunks() {
    let mut b = ReceiveLineBuffer::new();
    let first = split_received_data_lines(&mut b, "10:00:00.000", b"ab\rc", &Encoding::Ascii);
    assert_eq!(first.len(), 1);
    assert_eq!(first[0].data, "ab");
    assert_eq!(first[0].raw_bytes, b"ab".to_vec());
    assert_eq!(first[0].timestamp, "10:00:00.000");
    assert_eq!(b.pending_bytes(), b"c");
    let second = split_received_data_lines(&mut b, "10:00:01.000", b"\n", &Encoding::Ascii);
    assert_eq!(second.len(), 1);
    assert_eq!(second[0].data, "c");
    assert!(!b.has_pending());
    let third = split_received_data_lines(&mut b, "10:00:02.000", b"\nx", &Encoding::Hex);
    assert_eq!(third.len(), 1);
    assert_eq!(third[0].data, "");
    assert_eq!(b.take_pending(), b"x".to_vec());
    assert!(!b.has_pending());
}

#[test]
fn chunking_does_not_change_the_lines() {
    let whole = {
        let mut b = ReceiveLineBuffer::new();
        split_received_data_lines(&mut b, "t", b"one\r\ntwo\rthree\n", &Encoding::Utf8)
    };
    let mut b = ReceiveLineBuffer::new();
    let mut parts = Vec::new();
    for chunk in [&b"one\r"[..], b"\ntw", b"o\r", b"three\n"] {
        parts.extend(split_received_data_lines(&mut b, "t", chunk, &Encoding::Utf8));
    }
    let texts = |v: &Vec<ReceivedMessage>| v.iter().map(|m| m.data.clone()).collect::<Vec<_>>();
    assert_eq!(texts(&whole), texts(&parts));
    assert_eq!(texts(&whole), ["one", "two", "three"]);
}

#[test]
fn text_line_endings_follow_the_encoding() {
    assert_eq!(apply_send_line_ending("AT", &Encoding::Utf8, &SendLineEnding::Crlf), "AT\r\n");
    assert_eq!(apply_send_line_ending("41  ", &Encoding::Hex, &SendLineEnding::Lf), "41 0A");
    assert_eq!(apply_send_line_ending("41 ", &Encoding::Hex, &SendLineEnding::NoEnding), "41 ");
}

#[test]
fn loop_interval_is_kept_within_a_day() {
    assert_eq!(normalize_loop_interval_ms(0), 1);
    assert_eq!(normalize_loop_interval_ms(250), 250);
    assert_eq!(normalize_loop_interval_ms(u64::MAX), 86_400_000);
}

#[test]
fn timestamps_are_zero_padded() {
    assert_eq!(format_timestamp(9, 5, 3, 7), "09:05:03.007");
    assert_eq!(format_timestamp(23, 59, 59, 999), "23:59:59.999");
}

#[test]
fn hex_display_shows_bytes() {
    let mut m = text_message("AB");
    m.raw_bytes = vec![0x41, 0x42];
    assert_eq!(format_message_display(&m, true), "41 42");
    assert_eq!(format_message_display(&m, false), "AB");
    assert_eq!(format_hex_bytes(&[]), "");
}

#[test]
fn initial_state_is_disconnected_and_empty() {
    let s = AppState::init();
    assert!(!s.connected);
    assert_eq!(s.status, "未连接");
    assert_eq!(s.loop_interval_ms, 1000);
    assert!(s.messages.is_empty());
    assert_eq!(s.config.stop_bits, "1");
}

#[test]
fn hex_text_entries_are_shown_upper_cased() {
    let mut m = text_message(" de ad\tbe ");
    m.encoding = Encoding::Hex;
    assert_eq!(format_message_display(&m, true), "DE AD BE");
    let mut u = text_message("AB");
    u.encoding = Encoding::Utf8;
    assert_eq!(format_message_display(&u, true), "41 42");
}

#[test]
fn framing_loses_only_the_line_breaks() {
    let mut b = ReceiveLineBuffer::new();
    let mut joined = String::new();
    for chunk in ["ab\r", "\ncd\n\ne", "f\rg"] {
        for line in split_received_message_lines(&mut b, text_message(chunk)) {
            assert!(!line.data.contains('\r') && !line.data.contains('\n'));
            joined.push_str(&line.data);
        }
    }
    joined.push_str(b.pending());
    assert_eq!(joined, "abcdefg");
    let copy = b.clone();
    assert_eq!(copy.pending(), "g");
}
