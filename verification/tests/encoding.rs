use serial_debugger::serial::encoding::{
    decode, decode_received_bytes_lossy, encode, encode_would_panic, format_hex, parse_hex,
    StreamDecoder,
};
use serial_debugger::state::Encoding;

#[test]
fn test_hex_format() {
    assert_eq!(format_hex(&[0x00, 0xFF, 0x0A]), "00 FF 0A");
}

#[test]
fn ascii_rejects_non_ascii() {
    assert!(encode("你好", &Encoding::Ascii).is_err());
}

#[test]
fn hex_roundtrip() {
    let b = encode("48 65", &Encoding::Hex).unwrap();
    assert_eq!(b, [0x48, 0x65]);
    assert_eq!(decode(&b, &Encoding::Hex).unwrap(), "48 65");
}

#[test]
fn utf8_tail_is_buffered() {
    let mut d = StreamDecoder::default();
    assert_eq!(d.decode(&[0xe4], &Encoding::Utf8).unwrap(), "");
    assert_eq!(d.decode(&[0xbd, 0xa0], &Encoding::Utf8).unwrap(), "你");
}

#[test]
fn gbk_bytes_are_the_gbk_code_points() {
    assert_eq!(encode("你好", &Encoding::Gbk).unwrap(), vec![0xC4, 0xE3, 0xBA, 0xC3]);
    assert_eq!(decode(&[0xC4, 0xE3], &Encoding::Gbk).unwrap(), "你");
}

#[test]
fn error_messages_name_the_problem() {
    assert_eq!(encode("486", &Encoding::Hex).unwrap_err(), "HEX 字符串长度必须为偶数");
    assert_eq!(encode("4G", &Encoding::Hex).unwrap_err(), "无效的 HEX 字符: 4G");
    assert_eq!(encode("é", &Encoding::Ascii).unwrap_err(), "ASCII 只能包含 0-127 范围内的字符");
    assert_eq!(decode(&[0x80], &Encoding::Ascii).unwrap_err(), "收到非 ASCII 字节");
    assert!(decode(&[0xff], &Encoding::Utf8).unwrap_err().starts_with("UTF-8 解码失败: "));
    assert_eq!(decode(&[0x81], &Encoding::Gbk).unwrap_err(), "GBK 解码失败：无效的字节序列");
}

#[test]
fn hex_accepts_lower_case_and_spacing() {
    assert_eq!(parse_hex(" de\tAD\nbe ef ").unwrap(), vec![0xDE, 0xAD, 0xBE, 0xEF]);
    assert_eq!(parse_hex("").unwrap(), Vec::<u8>::new());
}

#[test]
fn hex_text_that_would_split_a_character_is_recognised() {
    assert!(encode_would_panic("中文", &Encoding::Hex));
    assert!(!encode_would_panic("中文", &Encoding::Utf8));
    assert!(!encode_would_panic("41 54", &Encoding::Hex));
    assert!(!encode_would_panic("A中B", &Encoding::Hex));
}

#[test]
fn lossy_decoding_never_fails() {
    assert_eq!(decode_received_bytes_lossy(&[0x41, 0x80], &Encoding::Ascii), "A\u{FFFD}");
    assert_eq!(decode_received_bytes_lossy(&[0x41, 0xff], &Encoding::Utf8), "A\u{FFFD}");
    assert_eq!(decode_received_bytes_lossy(&[0x41, 0x0d], &Encoding::Hex), "41 0D");
    assert_eq!(decode_received_bytes_lossy(&[0xC4, 0xE3], &Encoding::Gbk), "你");
}

#[test]
fn stream_decoder_passes_other_encodings_through() {
    let mut d = StreamDecoder::default();
    assert_eq!(d.decode(&[0x41, 0x42], &Encoding::Ascii).unwrap(), "AB");
    assert_eq!(d.decode(&[0x41, 0x42], &Encoding::Hex).unwrap(), "41 42");
    assert_eq!(d.decode(&[0xe4, 0xbd, 0xa0, 0xe5], &Encoding::Utf8).unwrap(), "你");
    d.clear();
    assert_eq!(d.decode(&[0x41], &Encoding::Utf8).unwrap(), "A");
}

#[test]
fn utf8_and_ascii_text_survive_a_round_trip() {
    let text = "温度=23.5°C\r\n";
    assert_eq!(decode(&encode(text, &Encoding::Utf8).unwrap(), &Encoding::Utf8).unwrap(), text);
    let ascii = "AT+GMR\r\n";
    assert_eq!(decode(&encode(ascii, &Encoding::Ascii).unwrap(), &Encoding::Ascii).unwrap(), ascii);
}

#[test]
fn stream_decoder_reports_invalid_utf8_and_recovers() {
    let mut d = StreamDecoder::default();
    assert!(d.decode(&[0xFF], &Encoding::Utf8).unwrap_err().starts_with("UTF-8 解码失败"));
    assert_eq!(d.decode(&[0x41], &Encoding::Utf8).unwrap(), "A");
    assert!(d.decode(&[0x41, 0xC0, 0x80], &Encoding::Utf8).is_err());
    assert_eq!(d.decode(&[0xE0, 0xA0], &Encoding::Utf8).unwrap(), "");
    assert_eq!(d.decode(&[0x80, 0x42], &Encoding::Utf8).unwrap(), "\u{800}B");
    assert!(d.decode(&[0xED, 0xA0], &Encoding::Utf8).is_err());
    assert_eq!(d.decode(&[0xF4, 0x8F, 0xBF], &Encoding::Utf8).unwrap(), "");
    assert_eq!(d.decode(&[0xBF], &Encoding::Utf8).unwrap(), "\u{10FFFF}");
    assert!(d.decode(&[0xF4, 0x90], &Encoding::Utf8).is_err());
}

#[test]
fn utf8_split_anywhere_decodes_as_a_whole() {
    let whole = "a你好🙂z".as_bytes();
    for cut in 0..=whole.len() {
        let mut d = StreamDecoder::default();
        let first = d.decode(&whole[..cut], &Encoding::Utf8).unwrap();
        let second = d.decode(&whole[cut..], &Encoding::Utf8).unwrap();
        assert_eq!(first + &second, "a你好🙂z");
    }
}
