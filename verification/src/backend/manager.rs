//! The backend's port handling: what a read reports to the front-end and
//! how a send proceeds. It waits for a full output queue without a deadline.

use crate::backend::encoding::{decode, decode_spec};
use crate::serial::encoding::{gbk_size_ok, hex_pair, push_hex_pair};
use crate::state::{current_message_timestamp, is_clock_timestamp, Encoding};
use vstd::prelude::*;
use vstd::string::{StrSliceExecFns, StringExecFns};

verus! {

broadcast use vstd::string::group_string_axioms;

/// Receive poll timeout, in milliseconds.
pub const READ_POLL_TIMEOUT_MS: u64 = 100;

/// Write timeout of the port, in milliseconds.
pub const WRITE_TIMEOUT_MS: u64 = 100;

/// Pause before retrying a write the port could not take yet, in milliseconds.
pub const WRITE_RETRY_PAUSE_MS: u64 = 1;

/// Size of the receive buffer.
pub const READ_BUFFER_SIZE: usize = 1024;

/// A chunk as the front-end receives it.
#[derive(Debug, Clone)]
pub struct ReceivedData {
    pub timestamp: String,
    pub data: String,
    pub encoding: Encoding,
    pub raw_bytes: Vec<u8>,
}

/// What the receive thread tells the front-end.
#[derive(Debug)]
pub enum BackendEvent {
    /// The `serial-data` event.
    SerialData(ReceivedData),
    /// The `serial-error` event.
    SerialError(String),
}

/// Result of one read attempt.
#[derive(Debug)]
pub enum ReadResult {
    /// These bytes were read (possibly none).
    Bytes(Vec<u8>),
    /// Timed out or would block.
    Idle,
    /// Any other error, with its message.
    Failed(String),
}

/// Hex pairs separated by `, `.
pub open spec fn hex_list(bs: Seq<u8>) -> Seq<char>
    decreases bs.len(),
{
    if bs.len() == 0 {
        Seq::empty()
    } else if bs.len() == 1 {
        hex_pair(bs[0])
    } else {
        hex_list(bs.drop_last()) + ", "@ + hex_pair(bs.last())
    }
}

/// Bytes in the debug form of a hex-formatted byte list: `[48, 6F]`.
pub fn debug_hex_list(data: &[u8]) -> (s: String)
    ensures
        s@ == "["@ + hex_list(data@) + "]"@,
{
    let mut s = String::from_str("[");
    let mut i: usize = 0;
    while i < data.len()
        invariant
            i <= data@.len(),
            s@ == "["@ + hex_list(data@.take(i as int)),
        decreases data@.len() - i,
    {
        let ghost t = data@.take(i + 1);
        assert(t.drop_last() == data@.take(i as int));
        assert(t.last() == data@[i as int]);
        if i > 0 {
            s.append(", ");
        }
        proof {
            if i == 0 {
                assert(data@.take(0) == Seq::<u8>::empty());
                assert("["@ + Seq::<char>::empty() == "["@);
            }
        }
        push_hex_pair(&mut s, data[i]);
        i += 1;
    }
    assert(data@.take(data@.len() as int) == data@);
    s.append("]");
    s
}

/// The text shown for a chunk: its decoding, or the hex list when that fails.
pub open spec fn received_text(bytes: Seq<u8>, encoding: Encoding) -> Seq<char> {
    match decode_spec(bytes, encoding) {
        Ok(s) => s,
        Err(_) => "["@ + hex_list(bytes) + "]"@,
    }
}

/// The events a read produces, and whether reading goes on: a non-empty chunk
/// becomes a data event stamped with the clock; nothing read produces
/// nothing; any other error reports `读取错误: ` and the message, and stops.
pub fn report_read(result: ReadResult, encoding: Encoding) -> (r: (Option<BackendEvent>, bool))
    requires
        encoding == Encoding::Gbk ==> (result matches ReadResult::Bytes(b) ==> gbk_size_ok(b@.len())),
    ensures
        match result {
            ReadResult::Bytes(b) => r.1 && if b@.len() > 0 {
                r.0 matches Some(BackendEvent::SerialData(d)) && d.raw_bytes@ == b@ && d.encoding
                    == encoding && d.data@ == received_text(b@, encoding) && is_clock_timestamp(
                    d.timestamp@,
                )
            } else {
                r.0 is None
            },
            ReadResult::Idle => r.1 && r.0 is None,
            ReadResult::Failed(e) => !r.1 && (r.0 matches Some(BackendEvent::SerialError(m)) && m@
                == "读取错误: "@ + e@),
        },
{
    match result {
        ReadResult::Bytes(bytes) => {
            if bytes.len() == 0 {
                return (None, true);
            }
            let data = match decode(bytes.as_slice(), &encoding) {
                Ok(text) => text,
                Err(_) => debug_hex_list(bytes.as_slice()),
            };
            let received = ReceivedData {
                timestamp: current_message_timestamp(),
                data,
                encoding,
                raw_bytes: bytes,
            };
            (Some(BackendEvent::SerialData(received)), true)
        },
        ReadResult::Idle => (None, true),
        ReadResult::Failed(e) => {
            let mut m = String::from_str("读取错误: ");
            m.append(e.as_str());
            (Some(BackendEvent::SerialError(m)), false)
        },
    }
}

/// Result of one write attempt.
#[derive(Debug)]
pub enum SendOutcome {
    /// The port took this many bytes.
    Wrote(usize),
    /// Interrupted: try again at once.
    Interrupted,
    /// The output queue is full: try again after a pause.
    WouldBlock,
    /// Any other error, with its message.
    Failed(String),
}

/// Progress of one send: the payload length and how much of it is written.
#[derive(Debug)]
pub struct SendProgress {
    total: usize,
    written: usize,
}

impl View for SendProgress {
    type V = (nat, nat);

    /// (payload length, bytes written)
    closed spec fn view(&self) -> (nat, nat) {
        (self.total as nat, self.written as nat)
    }
}

impl SendProgress {
    pub closed spec fn wf(&self) -> bool {
        self.written <= self.total
    }

    /// Starts a send of `total` bytes; refused when no port is open.
    pub fn start(port_is_open: bool, total: usize) -> (r: Result<SendProgress, String>)
        ensures
            r is Ok <==> port_is_open,
            r matches Err(m) ==> m@ == "串口未打开"@,
            r matches Ok(p) ==> p.wf() && p@ == (total as nat, 0nat),
    {
        if !port_is_open {
            return Err(String::from_str("串口未打开"));
        }
        Ok(SendProgress { total, written: 0 })
    }

    /// Where the next write starts, or nothing once every byte is written.
    pub fn next_offset(&self) -> (o: Option<usize>)
        requires
            self.wf(),
        ensures
            self@.1 < self@.0 ==> o == Some(self@.1 as usize),
            self@.1 >= self@.0 ==> o is None,
    {
        if self.written < self.total {
            Some(self.written)
        } else {
            None
        }
    }

    /// The bytes written so far.
    pub fn written(&self) -> (n: usize)
        ensures
            n == self@.1,
    {
        self.written
    }

    /// Takes the outcome of a write: a zero-byte write and an error end the
    /// send with a message; accepted bytes advance; the rest changes nothing.
    pub fn record(&mut self, outcome: SendOutcome) -> (failure: Option<String>)
        requires
            old(self).wf(),
            old(self)@.1 < old(self)@.0,
            outcome matches SendOutcome::Wrote(n) ==> n <= old(self)@.0 - old(self)@.1,
        ensures
            final(self).wf(),
            final(self)@.0 == old(self)@.0,
            match outcome {
                SendOutcome::Wrote(n) => if n == 0 {
                    (failure matches Some(m) && m@ == "发送失败: 写入 0 字节"@) && final(self)@
                        == old(self)@
                } else {
                    failure is None && final(self)@.1 == old(self)@.1 + n
                },
                SendOutcome::Interrupted => failure is None && final(self)@ == old(self)@,
                SendOutcome::WouldBlock => failure is None && final(self)@ == old(self)@,
                SendOutcome::Failed(e) => (failure matches Some(m) && m@ == "发送失败: "@ + e@)
                    && final(self)@ == old(self)@,
            },
    {
        match outcome {
            SendOutcome::Wrote(n) => {
                if n == 0 {
                    Some(String::from_str("发送失败: 写入 0 字节"))
                } else {
                    self.written = self.written + n;
                    None
                }
            },
            SendOutcome::Interrupted => None,
            SendOutcome::WouldBlock => None,
            SendOutcome::Failed(e) => {
                let mut m = String::from_str("发送失败: ");
                m.append(e.as_str());
                Some(m)
            },
        }
    }
}

} // verus!
