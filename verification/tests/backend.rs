use serial_debugger::backend::commands::{send_data_bytes, SendRequest};
use serial_debugger::backend::encoding::{decode, encode};
use serial_debugger::backend::exporter::{csv_text, export_data, normalize_export_path};
use serial_debugger::backend::manager::{
    debug_hex_list, report_read, BackendEvent, ReadResult, SendOutcome, SendProgress,
};
use serial_debugger::state::{Encoding, LogEntry};

#[test]
fn test_ascii_encode_decode() {
    let data = encode("Hello", &Encoding::Ascii).unwrap();
    assert_eq!(data, vec![72, 101, 108, 108, 111]);
    let text = decode(&data, &Encoding::Ascii).unwrap();
    assert_eq!(text, "Hello");
}

#[test]
fn test_hex_encode_decode() {
    let data = encode("48 65 6C 6C 6F", &Encoding::Hex).unwrap();
    assert_eq!(data, vec![0x48, 0x65, 0x6C, 0x6C, 0x6F]);
    let text = decode(&data, &Encoding::Hex).unwrap();
    assert_eq!(text, "48 65 6C 6C 6F");
}

#[test]
fn test_hex_without_spaces() {
    let data = encode("48656C6C6F", &Encoding::Hex).unwrap();
    assert_eq!(data, vec![0x48, 0x65, 0x6C, 0x6C, 0x6F]);
}

#[test]
fn test_hex_odd_length_error() {
    let result = encode("486", &Encoding::Hex);
    assert!(result.is_err());
}

#[test]
fn test_utf8_encode_decode() {
    let data = encode("你好世界", &Encoding::Utf8).unwrap();
    let text = decode(&data, &Encoding::Utf8).unwrap();
    assert_eq!(text, "你好世界");
}

#[test]
fn test_gbk_encode_decode() {
    let data = encode("你好", &Encoding::Gbk).unwrap();
    let text = decode(&data, &Encoding::Gbk).unwrap();
    assert_eq!(text, "你好");
}

#[test]
fn ascii_is_sent_unchecked_and_read_as_latin1() {
    assert_eq!(encode("é", &Encoding::Ascii).unwrap(), vec![0xC3, 0xA9]);
    assert_eq!(decode(&[0xC3, 0xA9], &Encoding::Ascii).unwrap(), "Ã©");
}

#[test]
fn backend_errors_carry_std_messages() {
    assert_eq!(
        encode("4G", &Encoding::Hex).unwrap_err(),
        "无效的 HEX 字符: invalid digit found in string"
    );
    assert_eq!(decode(&[0xff], &Encoding::Utf8).unwrap_err(), String::from_utf8(vec![0xff]).unwrap_err().to_string());
}

#[test]
fn csv_text_quotes_only_the_data() {
    let entries = [LogEntry {
        timestamp: "t".into(),
        direction: "收到".into(),
        encoding: "Ascii".into(),
        data: "a\"b".into(),
    }];
    assert_eq!(csv_text(&entries), "\u{FEFF}时间,方向,编码,数据\nt,收到,Ascii,\"a\"\"b\"\n");
    assert_eq!(csv_text(&[]), "\u{FEFF}时间,方向,编码,数据\n");
}

#[test]
fn export_data_checks_format_and_path() {
    let entries = [LogEntry {
        timestamp: "t".into(),
        direction: "发送".into(),
        encoding: "Hex".into(),
        data: "41".into(),
    }];
    let f = export_data(&entries, "out", "txt").unwrap();
    assert_eq!(f.path, "out.txt");
    assert_eq!(f.content, "[t] 发送: 41");
    let f = export_data(&entries, "out.CSV", "csv").unwrap();
    assert_eq!(f.path, "out.CSV");
    assert!(f.content.ends_with("t,发送,Hex,\"41\"\n"));
    assert_eq!(export_data(&entries, "out", "json").unwrap_err(), "不支持的导出格式");
    assert!(export_data(&entries, "out.txt", "csv").unwrap_err().starts_with("路径扩展名不匹配"));
}

#[test]
fn backend_path_check_takes_any_extension() {
    assert_eq!(normalize_export_path("log", "json").unwrap(), "log.json");
}

#[test]
fn undecodable_chunks_are_shown_as_a_hex_list() {
    assert_eq!(debug_hex_list(&[0x48, 0x0A, 0xFF]), "[48, 0A, FF]");
    assert_eq!(debug_hex_list(&[]), "[]");
    match report_read(ReadResult::Bytes(vec![0xff, 0x41]), Encoding::Utf8) {
        (Some(BackendEvent::SerialData(d)), true) => {
            assert_eq!(d.data, "[FF, 41]");
            assert_eq!(d.raw_bytes, vec![0xff, 0x41]);
        }
        other => panic!("unexpected {other:?}"),
    }
}

#[test]
fn read_errors_stop_the_receiver() {
    assert!(matches!(report_read(ReadResult::Idle, Encoding::Ascii), (None, true)));
    assert!(matches!(report_read(ReadResult::Bytes(vec![]), Encoding::Ascii), (None, true)));
    match report_read(ReadResult::Failed("EIO".into()), Encoding::Ascii) {
        (Some(BackendEvent::SerialError(m)), false) => assert_eq!(m, "读取错误: EIO"),
        other => panic!("unexpected {other:?}"),
    }
}

#[test]
fn backend_send_waits_without_deadline() {
    assert_eq!(SendProgress::start(false, 3).unwrap_err(), "串口未打开");
    let mut p = SendProgress::start(true, 3).unwrap();
    assert_eq!(p.next_offset(), Some(0));
    assert!(p.record(SendOutcome::WouldBlock).is_none());
    assert!(p.record(SendOutcome::Interrupted).is_none());
    assert!(p.record(SendOutcome::Wrote(2)).is_none());
    assert_eq!(p.next_offset(), Some(2));
    assert_eq!(p.record(SendOutcome::Wrote(0)).unwrap(), "发送失败: 写入 0 字节");
    assert_eq!(p.record(SendOutcome::Failed("x".into())).unwrap(), "发送失败: x");
    assert!(p.record(SendOutcome::Wrote(1)).is_none());
    assert_eq!(p.next_offset(), None);
    assert_eq!(p.written(), 3);
}

#[test]
fn send_requests_are_encoded() {
    let r = SendRequest { content: "41 54".into(), encoding: Encoding::Hex };
    assert_eq!(send_data_bytes(&r).unwrap(), vec![0x41, 0x54]);
    let r = SendRequest { content: "4".into(), encoding: Encoding::Hex };
    assert_eq!(send_data_bytes(&r).unwrap_err(), "HEX 字符串长度必须为偶数");
}
