use serial_debugger::app::{export_bytes, ExportFormat};
use serial_debugger::backend::exporter::normalize_export_path as backend_normalize;
use serial_debugger::export::exporter::{
    csv_content, entries_from_messages, normalize_export_path, txt_content,
};
use serial_debugger::state::{Encoding, LogEntry, MessageDirection, ReceivedMessage};

fn entry(timestamp: &str, direction: &str, encoding: &str, data: &str) -> LogEntry {
    LogEntry {
        timestamp: timestamp.to_string(),
        direction: direction.to_string(),
        encoding: encoding.to_string(),
        data: data.to_string(),
    }
}

#[test]
fn normalize_export_path_appends_missing_csv_extension() {
    let path = backend_normalize("log", "csv").expect("path should normalize");

    assert_eq!(path, "log.csv");
}

#[test]
fn normalize_export_path_rejects_mismatched_extension() {
    let err = backend_normalize("log.txt", "csv").expect_err("extension must match format");

    assert!(err.contains("路径扩展名不匹配"));
}

#[test]
fn extension_is_normalized_and_validated() {
    assert_eq!(
        std::path::Path::new(&normalize_export_path("log", "csv").unwrap())
            .extension()
            .unwrap(),
        "csv"
    );
    assert!(normalize_export_path("log.txt", "csv").is_err());
}

#[test]
fn csv_quotes_every_field_safely() {
    let bytes = csv_content(&[entry("t,1", "收到", "UTF-8", "a\"b\nc")]).unwrap();
    let text = String::from_utf8(bytes).unwrap();
    assert!(text.contains("\"t,1\""));
    assert!(text.contains("\"a\"\"b\nc\""));
}

#[test]
fn mismatch_message_names_both_extensions() {
    assert_eq!(
        normalize_export_path("log.txt", "csv").unwrap_err(),
        "路径扩展名不匹配: 期望 .csv，实际 .txt"
    );
}

#[test]
fn unknown_export_format_is_refused() {
    assert_eq!(normalize_export_path("log", "json").unwrap_err(), "不支持的导出格式");
}

#[test]
fn matching_extension_in_other_case_is_kept() {
    assert_eq!(normalize_export_path("dir/LOG.CSV", "csv").unwrap(), "dir/LOG.CSV");
}

#[test]
fn trailing_dot_and_separators_are_replaced() {
    assert_eq!(normalize_export_path("log.", "txt").unwrap(), "log.txt");
    assert_eq!(normalize_export_path("dir/log/", "txt").unwrap(), "dir/log.txt");
    assert_eq!(normalize_export_path(".hidden", "txt").unwrap(), ".hidden.txt");
}

#[test]
fn path_without_file_name_is_left_alone() {
    assert_eq!(normalize_export_path("..", "csv").unwrap(), "..");
    assert_eq!(normalize_export_path("", "csv").unwrap(), "");
}

#[test]
fn normalizing_twice_changes_nothing() {
    for (path, format) in [("log", "csv"), ("a/b.", "txt"), ("x.TXT", "txt"), ("d/", "csv")] {
        let once = normalize_export_path(path, format).unwrap();
        let twice = normalize_export_path(&once, format).unwrap();
        assert_eq!(once, twice);
    }
}

#[test]
fn txt_export_joins_lines_without_trailing_newline() {
    let entries = [entry("12:00:00.000", "收到", "ASCII", "a"), entry("12:00:01.000", "发送", "HEX", "41")];
    assert_eq!(
        txt_content(&entries),
        "[12:00:00.000] 收到 ASCII: a\n[12:00:01.000] 发送 HEX: 41"
    );
    assert_eq!(txt_content(&[]), "");
}

#[test]
fn csv_export_starts_with_bom_and_header() {
    let bytes = csv_content(&[entry("t", "收到", "ASCII", "x")]).unwrap();
    assert_eq!(&bytes[..3], &[0xEF, 0xBB, 0xBF]);
    let text = String::from_utf8(bytes[3..].to_vec()).unwrap();
    assert_eq!(text, "时间,方向,编码,数据\nt,收到,ASCII,x\n");
}

#[test]
fn export_bytes_follow_the_format() {
    let entries = [entry("t", "收到", "ASCII", "x")];
    assert_eq!(export_bytes(&entries, ExportFormat::Txt).unwrap(), "[t] 收到 ASCII: x".as_bytes());
    assert_eq!(
        export_bytes(&entries, ExportFormat::Csv).unwrap(),
        csv_content(&entries).unwrap()
    );
}

#[test]
fn entries_show_labels_and_visible_line_breaks() {
    let messages = [ReceivedMessage {
        direction: MessageDirection::Sent,
        timestamp: "12:34:56.789".to_string(),
        data: "AT\r\n".to_string(),
        encoding: Encoding::Utf8,
        raw_bytes: vec![],
    }];
    let entries = entries_from_messages(&messages);
    assert_eq!(entries.len(), 1);
    assert_eq!(entries[0].timestamp, "12:34:56.789");
    assert_eq!(entries[0].direction, "发送");
    assert_eq!(entries[0].encoding, "UTF-8");
    assert_eq!(entries[0].data, "AT\\r\\n");
}

#[test]
fn csv_quotes_only_fields_that_need_it() {
    let bytes = csv_content(&[entry("t,1", "收到", "UTF-8", "a\"b\nc"), entry("x\ry", "", "HEX", "")]).unwrap();
    let text = String::from_utf8(bytes[3..].to_vec()).unwrap();
    assert_eq!(text, "时间,方向,编码,数据\n\"t,1\",收到,UTF-8,\"a\"\"b\nc\"\n\"x\ry\",,HEX,\n");
}

#[test]
fn trailing_current_dir_components_are_skipped() {
    assert_eq!(normalize_export_path("foo/.", "csv").unwrap(), "foo.csv");
    assert_eq!(normalize_export_path("a/b/./", "txt").unwrap(), "a/b.txt");
    assert!(normalize_export_path("foo.txt/.", "csv").is_err());
    assert_eq!(normalize_export_path("foo.csv/.", "csv").unwrap(), "foo.csv/.");
    assert_eq!(normalize_export_path("./.", "csv").unwrap(), "./.");
    assert_eq!(normalize_export_path("/.", "csv").unwrap(), "/.");
}

#[test]
fn backslash_is_part_of_the_file_name() {
    assert_eq!(normalize_export_path("dir\\", "csv").unwrap(), "dir\\.csv");
    assert_eq!(normalize_export_path("a.d\\log", "txt").unwrap_err(), "路径扩展名不匹配: 期望 .txt，实际 .d\\log");
}

#[test]
fn csv_export_reads_back_as_its_records() {
    let entries = [entry("t,1", "收到", "UTF-8", "a\"b\nc"), entry("", "发送", "HEX", "x\ry"), entry("t", "", "", "")];
    let bytes = csv_content(&entries).unwrap();
    let mut reader = csv::ReaderBuilder::new().has_headers(false).from_reader(&bytes[3..]);
    let records: Vec<Vec<String>> = reader
        .records()
        .map(|r| r.unwrap().iter().map(|f| f.to_string()).collect())
        .collect();
    let mut expected = vec![vec!["时间".to_string(), "方向".into(), "编码".into(), "数据".into()]];
    for e in &entries {
        expected.push(vec![e.timestamp.clone(), e.direction.clone(), e.encoding.clone(), e.data.clone()]);
    }
    assert_eq!(records, expected);
}
