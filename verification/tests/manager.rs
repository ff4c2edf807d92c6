use serial_debugger::components::serial_panel::compact_port_type;
use serial_debugger::serial::manager::{
    events_for_read, plan_open, DataBits, FlowControl, Parity, ReadOutcome, StopBits,
    WriteAction, WriteOutcome, WriteProgress,
};
use serial_debugger::serial::protocol::SerialEvent;
use serial_debugger::state::{Encoding, PortConfig};

#[test]
fn compacts_serial_port_debug_type_for_display() {
    assert_eq!(
        compact_port_type("UsbPort(UsbPortInfo { vid: 1027, pid: 24577 })"),
        "USB 设备"
    );
    assert_eq!(compact_port_type("BluetoothPort"), "蓝牙设备");
    assert_eq!(compact_port_type("PciPort"), "PCI 设备");
    assert_eq!(compact_port_type("Unknown"), "未知类型");
}

#[test]
fn invalid_serial_options_are_refused_before_opening() {
    let config = PortConfig { data_bits: 9, ..Default::default() };
    assert_eq!(plan_open(false, &config).unwrap_err(), "无效的数据位");
    let config = PortConfig { stop_bits: "3".into(), ..Default::default() };
    assert_eq!(plan_open(false, &config).unwrap_err(), "无效的停止位");
    let config = PortConfig { parity: "mark".into(), ..Default::default() };
    assert_eq!(plan_open(false, &config).unwrap_err(), "无效的校验位");
    let config = PortConfig { flow_control: "dtr".into(), ..Default::default() };
    assert_eq!(plan_open(false, &config).unwrap_err(), "无效的流控方式");
    assert_eq!(plan_open(true, &PortConfig::default()).unwrap_err(), "串口已打开，请先关闭");
}

#[test]
fn valid_options_become_port_settings() {
    let config = PortConfig {
        port_name: "/dev/ttyUSB0".into(),
        baud_rate: 9600,
        data_bits: 7,
        stop_bits: "2".into(),
        parity: "even".into(),
        flow_control: "rts_cts".into(),
    };
    let s = plan_open(false, &config).unwrap();
    assert_eq!(s.port_name, "/dev/ttyUSB0");
    assert_eq!(s.baud_rate, 9600);
    assert_eq!(s.data_bits, DataBits::Seven);
    assert_eq!(s.stop_bits, StopBits::Two);
    assert_eq!(s.parity, Parity::Even);
    assert_eq!(s.flow_control, FlowControl::Hardware);
}

#[test]
fn send_requires_open_connection() {
    assert!(WriteProgress::start(false, b"x".len()).is_err());
}

#[test]
fn send_without_port_says_so() {
    assert_eq!(WriteProgress::start(false, 1).unwrap_err(), "串口未打开");
}

#[test]
fn send_writes_until_everything_is_taken() {
    let mut p = WriteProgress::start(true, 5).unwrap();
    assert!(matches!(p.next_action(false), WriteAction::Write(0)));
    assert!(p.record(WriteOutcome::Wrote(2)).is_none());
    assert!(p.record(WriteOutcome::Retry).is_none());
    assert!(matches!(p.next_action(false), WriteAction::Write(2)));
    assert!(p.record(WriteOutcome::Wrote(3)).is_none());
    assert!(matches!(p.next_action(true), WriteAction::Finished(5)));
}

#[test]
fn send_failures_have_messages() {
    let mut p = WriteProgress::start(true, 4).unwrap();
    match p.next_action(true) {
        WriteAction::Fail(m) => assert_eq!(m, "发送超时：串口写入缓冲区已满"),
        other => panic!("unexpected {other:?}"),
    }
    assert_eq!(p.record(WriteOutcome::Wrote(0)).unwrap(), "发送失败：写入 0 字节");
    assert_eq!(
        p.record(WriteOutcome::Failed("broken pipe".into())).unwrap(),
        "发送失败: broken pipe"
    );
}

#[test]
fn reads_become_events() {
    let (events, go_on) = events_for_read(ReadOutcome::Bytes(vec![1, 2]), Encoding::Hex);
    assert!(go_on);
    assert_eq!(events.len(), 1);
    match &events[0] {
        SerialEvent::Data(d) => {
            assert_eq!(d.raw_bytes, vec![1, 2]);
            assert_eq!(d.encoding, Encoding::Hex);
            assert_eq!(d.timestamp.len(), 12);
        }
        other => panic!("unexpected {other:?}"),
    }
    let (events, go_on) = events_for_read(ReadOutcome::Bytes(vec![]), Encoding::Hex);
    assert!(go_on && events.is_empty());
    let (events, go_on) = events_for_read(ReadOutcome::Idle, Encoding::Hex);
    assert!(go_on && events.is_empty());
    let (events, go_on) = events_for_read(ReadOutcome::Failed("gone".into()), Encoding::Hex);
    assert!(!go_on);
    assert!(matches!(&events[0], SerialEvent::Error(m) if m == "读取串口失败: gone"));
    assert!(matches!(events[1], SerialEvent::Disconnected));
}

#[test]
fn a_reader_run_keeps_every_chunk_in_order() {
    let outcomes = vec![
        ReadOutcome::Bytes(vec![1, 2]),
        ReadOutcome::Idle,
        ReadOutcome::Bytes(vec![]),
        ReadOutcome::Bytes(vec![3]),
        ReadOutcome::Failed("gone".into()),
    ];
    let mut all = Vec::new();
    for outcome in outcomes {
        let (events, go_on) = events_for_read(outcome, Encoding::Utf8);
        all.extend(events);
        if !go_on {
            break;
        }
    }
    assert_eq!(all.len(), 4);
    let chunks: Vec<Vec<u8>> = all
        .iter()
        .filter_map(|e| match e {
            SerialEvent::Data(d) => {
                assert_eq!(d.encoding, Encoding::Utf8);
                Some(d.raw_bytes.clone())
            }
            _ => None,
        })
        .collect();
    assert_eq!(chunks, vec![vec![1, 2], vec![3]]);
    assert!(matches!(&all[2], SerialEvent::Error(m) if m == "读取串口失败: gone"));
    assert!(matches!(all[3], SerialEvent::Disconnected));
}
