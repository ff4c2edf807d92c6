//! The status bar: connection state and traffic counters.

use crate::text::{decimal, push_decimal};
use vstd::prelude::*;
use vstd::string::{StrSliceExecFns, StringExecFns};

verus! {

/// The connection state's text.
pub fn status_text(is_connected: bool) -> (s: &'static str)
    ensures
        s@ == (if is_connected {
            "已连接"@
        } else {
            "未连接"@
        }),
{
    if is_connected {
        "已连接"
    } else {
        "未连接"
    }
}

/// The traffic counters: received and sent bytes.
pub fn traffic_labels(bytes_rx: u64, bytes_tx: u64) -> (r: (String, String))
    ensures
        r.0@ == "接收: "@ + decimal(bytes_rx as nat) + " 字节"@,
        r.1@ == "发送: "@ + decimal(bytes_tx as nat) + " 字节"@,
{
    let mut rx = String::from_str("接收: ");
    push_decimal(&mut rx, bytes_rx);
    rx.append(" 字节");
    let mut tx = String::from_str("发送: ");
    push_decimal(&mut tx, bytes_tx);
    tx.append(" 字节");
    (rx, tx)
}

} // verus!
