//! Decisions of the serial port service: which settings a configuration
//! opens the port with, how a send proceeds through partial writes and
//! retries, and what a read reports. The port itself is driven by the caller.

use crate::serial::protocol::{ReceivedData, SerialEvent};
use crate::state::{concat_lines, current_message_timestamp, is_clock_timestamp, Encoding, PortConfig};
use crate::text::str_equal;
use vstd::prelude::*;
use vstd::string::{StrSliceExecFns, StringExecFns};

verus! {

broadcast use vstd::string::group_string_axioms;

/// Receive poll timeout of the port, in milliseconds.
pub const READ_TIMEOUT_MS: u64 = 100;

/// How long one send may take before it is given up, in milliseconds.
pub const WRITE_TIMEOUT_MS: u64 = 2000;

/// Pause before retrying a write the port could not take yet, in milliseconds.
pub const WRITE_RETRY_PAUSE_MS: u64 = 2;

/// Size of the receive buffer.
pub const READ_BUFFER_SIZE: usize = 4096;

#[derive(Debug, Clone, Copy, PartialEq, Eq, Structural)]
pub enum DataBits {
    Five,
    Six,
    Seven,
    Eight,
}

#[derive(Debug, Clone, Copy, PartialEq, Eq, Structural)]
pub enum StopBits {
    One,
    Two,
}

#[derive(Debug, Clone, Copy, PartialEq, Eq, Structural)]
pub enum Parity {
    NoParity,
    Odd,
    Even,
}

#[derive(Debug, Clone, Copy, PartialEq, Eq, Structural)]
pub enum FlowControl {
    NoFlowControl,
    Hardware,
    Software,
}

/// Validated settings to open the port with.
#[derive(Debug, Clone)]
pub struct SerialSettings {
    pub port_name: String,
    pub baud_rate: u32,
    pub data_bits: DataBits,
    pub stop_bits: StopBits,
    pub parity: Parity,
    pub flow_control: FlowControl,
}

pub open spec fn data_bits_of(n: u8) -> Option<DataBits> {
    if n == 5 {
        Some(DataBits::Five)
    } else if n == 6 {
        Some(DataBits::Six)
    } else if n == 7 {
        Some(DataBits::Seven)
    } else if n == 8 {
        Some(DataBits::Eight)
    } else {
        None
    }
}

pub open spec fn stop_bits_of(s: Seq<char>) -> Option<StopBits> {
    if s == "1"@ {
        Some(StopBits::One)
    } else if s == "2"@ {
        Some(StopBits::Two)
    } else {
        None
    }
}

pub open spec fn parity_of(s: Seq<char>) -> Option<Parity> {
    if s == "none"@ {
        Some(Parity::NoParity)
    } else if s == "odd"@ {
        Some(Parity::Odd)
    } else if s == "even"@ {
        Some(Parity::Even)
    } else {
        None
    }
}

pub open spec fn flow_control_of(s: Seq<char>) -> Option<FlowControl> {
    if s == "none"@ {
        Some(FlowControl::NoFlowControl)
    } else if s == "rts_cts"@ {
        Some(FlowControl::Hardware)
    } else if s == "xon_xoff"@ {
        Some(FlowControl::Software)
    } else {
        None
    }
}

/// The outcome of an open request: refused while a port is open, then the
/// data bits, stop bits, parity and flow control are checked in that order.
pub open spec fn open_plan_spec(port_is_open: bool, config: PortConfig) -> Result<
    (DataBits, StopBits, Parity, FlowControl),
    Seq<char>,
> {
    if port_is_open {
        Err("串口已打开，请先关闭"@)
    } else if data_bits_of(config.data_bits) is None {
        Err("无效的数据位"@)
    } else if stop_bits_of(config.stop_bits@) is None {
        Err("无效的停止位"@)
    } else if parity_of(config.parity@) is None {
        Err("无效的校验位"@)
    } else if flow_control_of(config.flow_control@) is None {
        Err("无效的流控方式"@)
    } else {
        Ok(
            (
                data_bits_of(config.data_bits)->Some_0,
                stop_bits_of(config.stop_bits@)->Some_0,
                parity_of(config.parity@)->Some_0,
                flow_control_of(config.flow_control@)->Some_0,
            ),
        )
    }
}

/// The port is opened with exactly the configured settings: the request
/// succeeds exactly when no port is open and every setting names a known
/// value, and then the data bits, stop bits, parity and flow control are the
/// ones the configuration names.
pub proof fn law_open_uses_configured_settings(port_is_open: bool, config: PortConfig)
    ensures
        open_plan_spec(port_is_open, config) is Ok <==> {
            &&& !port_is_open
            &&& 5 <= config.data_bits <= 8
            &&& (config.stop_bits@ == "1"@ || config.stop_bits@ == "2"@)
            &&& (config.parity@ == "none"@ || config.parity@ == "odd"@ || config.parity@ == "even"@)
            &&& (config.flow_control@ == "none"@ || config.flow_control@ == "rts_cts"@
                || config.flow_control@ == "xon_xoff"@)
        },
        port_is_open ==> open_plan_spec(port_is_open, config) == Err::<
            (DataBits, StopBits, Parity, FlowControl),
            Seq<char>,
        >("串口已打开，请先关闭"@),
        open_plan_spec(port_is_open, config) matches Ok(t) ==> {
            &&& (config.data_bits == 5 ==> t.0 == DataBits::Five)
            &&& (config.data_bits == 6 ==> t.0 == DataBits::Six)
            &&& (config.data_bits == 7 ==> t.0 == DataBits::Seven)
            &&& (config.data_bits == 8 ==> t.0 == DataBits::Eight)
            &&& (config.stop_bits@ == "1"@ ==> t.1 == StopBits::One)
            &&& (config.stop_bits@ == "2"@ ==> t.1 == StopBits::Two)
            &&& (config.parity@ == "none"@ ==> t.2 == Parity::NoParity)
            &&& (config.parity@ == "odd"@ ==> t.2 == Parity::Odd)
            &&& (config.parity@ == "even"@ ==> t.2 == Parity::Even)
            &&& (config.flow_control@ == "none"@ ==> t.3 == FlowControl::NoFlowControl)
            &&& (config.flow_control@ == "rts_cts"@ ==> t.3 == FlowControl::Hardware)
            &&& (config.flow_control@ == "xon_xoff"@ ==> t.3 == FlowControl::Software)
        },
{
    reveal_strlit("1");
    reveal_strlit("2");
    reveal_strlit("none");
    reveal_strlit("odd");
    reveal_strlit("even");
    reveal_strlit("rts_cts");
    reveal_strlit("xon_xoff");
    assert("2"@[0] != "1"@[0]);
    assert("odd"@.len() != "none"@.len());
    assert("even"@[0] != "none"@[0]);
    assert("rts_cts"@.len() != "none"@.len());
    assert("xon_xoff"@.len() != "none"@.len() && "xon_xoff"@.len() != "rts_cts"@.len());
    if open_plan_spec(port_is_open, config) is Ok {
        let t = open_plan_spec(port_is_open, config)->Ok_0;
        assert(t.0 == data_bits_of(config.data_bits)->Some_0);
        assert(t.1 == stop_bits_of(config.stop_bits@)->Some_0);
        assert(t.2 == parity_of(config.parity@)->Some_0);
        assert(t.3 == flow_control_of(config.flow_control@)->Some_0);
    }
}

/// Checks an open request against the current port state and the
/// configuration; on success gives the settings to open the port with.
pub fn plan_open(port_is_open: bool, config: &PortConfig) -> (r: Result<SerialSettings, String>)
    ensures
        r matches Err(m) ==> open_plan_spec(port_is_open, *config) == Err::<
            (DataBits, StopBits, Parity, FlowControl),
            Seq<char>,
        >(m@),
        r matches Ok(s) ==> {
            &&& open_plan_spec(port_is_open, *config) == Ok::<
                (DataBits, StopBits, Parity, FlowControl),
                Seq<char>,
            >((s.data_bits, s.stop_bits, s.parity, s.flow_control))
            &&& s.port_name@ == config.port_name@
            &&& s.baud_rate == config.baud_rate
        },
{
    if port_is_open {
        return Err(String::from_str("串口已打开，请先关闭"));
    }
    let data_bits = match config.data_bits {
        5 => DataBits::Five,
        6 => DataBits::Six,
        7 => DataBits::Seven,
        8 => DataBits::Eight,
        _ => return Err(String::from_str("无效的数据位")),
    };
    let stop_bits = if str_equal(config.stop_bits.as_str(), "1") {
        StopBits::One
    } else if str_equal(config.stop_bits.as_str(), "2") {
        StopBits::Two
    } else {
        return Err(String::from_str("无效的停止位"));
    };
    let parity = if str_equal(config.parity.as_str(), "none") {
        Parity::NoParity
    } else if str_equal(config.parity.as_str(), "odd") {
        Parity::Odd
    } else if str_equal(config.parity.as_str(), "even") {
        Parity::Even
    } else {
        return Err(String::from_str("无效的校验位"));
    };
    let flow_control = if str_equal(config.flow_control.as_str(), "none") {
        FlowControl::NoFlowControl
    } else if str_equal(config.flow_control.as_str(), "rts_cts") {
        FlowControl::Hardware
    } else if str_equal(config.flow_control.as_str(), "xon_xoff") {
        FlowControl::Software
    } else {
        return Err(String::from_str("无效的流控方式"));
    };
    Ok(
        SerialSettings {
            port_name: String::from_str(config.port_name.as_str()),
            baud_rate: config.baud_rate,
            data_bits,
            stop_bits,
            parity,
            flow_control,
        },
    )
}

// ---------------------------------------------------------------------------
// Sending.
// ---------------------------------------------------------------------------

/// Result of one write attempt on the port.
#[derive(Debug)]
pub enum WriteOutcome {
    /// The port accepted this many bytes.
    Wrote(usize),
    /// Interrupted, would block, or timed out: try again after a pause.
    Retry,
    /// Any other I/O error, with its message.
    Failed(String),
}

/// What the sender does next.
#[derive(Debug)]
pub enum WriteAction {
    /// Write the payload from this offset on.
    Write(usize),
    /// Everything is written; the count of bytes sent.
    Finished(usize),
    /// Give up with this message.
    Fail(String),
}

/// Progress of one send: the payload length and how much of it is written.
#[derive(Debug)]
pub struct WriteProgress {
    total: usize,
    written: usize,
}

impl View for WriteProgress {
    type V = (nat, nat);

    /// (payload length, bytes written)
    closed spec fn view(&self) -> (nat, nat) {
        (self.total as nat, self.written as nat)
    }
}

impl WriteProgress {
    pub closed spec fn wf(&self) -> bool {
        self.written <= self.total
    }

    /// Starts a send of `total` bytes; refused when no port is open.
    pub fn start(port_is_open: bool, total: usize) -> (r: Result<WriteProgress, String>)
        ensures
            r is Ok <==> port_is_open,
            r matches Err(m) ==> m@ == "串口未打开"@,
            r matches Ok(p) ==> p.wf() && p@ == (total as nat, 0nat),
    {
        if !port_is_open {
            return Err(String::from_str("串口未打开"));
        }
        Ok(WriteProgress { total, written: 0 })
    }

    /// The next step: finished once every byte is written, failed once the
    /// deadline has passed, otherwise write the rest.
    pub fn next_action(&self, deadline_passed: bool) -> (a: WriteAction)
        requires
            self.wf(),
        ensures
            self@.1 >= self@.0 ==> (a matches WriteAction::Finished(n) && n == self@.0),
            self@.1 < self@.0 && deadline_passed ==> (a matches WriteAction::Fail(m) && m@
                == "发送超时：串口写入缓冲区已满"@),
            self@.1 < self@.0 && !deadline_passed ==> (a matches WriteAction::Write(k) && k
                == self@.1),
    {
        if self.written >= self.total {
            WriteAction::Finished(self.written)
        } else if deadline_passed {
            WriteAction::Fail(String::from_str("发送超时：串口写入缓冲区已满"))
        } else {
            WriteAction::Write(self.written)
        }
    }

    /// Takes the outcome of a write: a zero-byte write and an I/O error end
    /// the send with a message; accepted bytes advance the progress; a retry
    /// changes nothing.
    pub fn record(&mut self, outcome: WriteOutcome) -> (failure: Option<String>)
        requires
            old(self).wf(),
            old(self)@.1 < old(self)@.0,
            outcome matches WriteOutcome::Wrote(n) ==> n <= old(self)@.0 - old(self)@.1,
        ensures
            final(self).wf(),
            final(self)@.0 == old(self)@.0,
            match outcome {
                WriteOutcome::Wrote(n) => if n == 0 {
                    failure matches Some(m) && m@ == "发送失败：写入 0 字节"@ && final(self)@
                        == old(self)@
                } else {
                    failure is None && final(self)@.1 == old(self)@.1 + n
                },
                WriteOutcome::Retry => failure is None && final(self)@ == old(self)@,
                WriteOutcome::Failed(e) => failure matches Some(m) && m@ == "发送失败: "@ + e@
                    && final(self)@ == old(self)@,
            },
    {
        match outcome {
            WriteOutcome::Wrote(n) => {
                if n == 0 {
                    Some(String::from_str("发送失败：写入 0 字节"))
                } else {
                    self.written = self.written + n;
                    None
                }
            },
            WriteOutcome::Retry => None,
            WriteOutcome::Failed(e) => {
                let mut m = String::from_str("发送失败: ");
                m.append(e.as_str());
                Some(m)
            },
        }
    }
}

/// A send that finishes reports exactly the payload length as sent.
pub proof fn law_finished_send_reports_payload_length(p: WriteProgress, deadline_passed: bool)
    requires
        p.wf(),
        p@.1 >= p@.0,
    ensures
        p@.1 == p@.0,
{
}

// ---------------------------------------------------------------------------
// Receiving.
// ---------------------------------------------------------------------------

/// Result of one read attempt on the port.
#[derive(Debug)]
pub enum ReadOutcome {
    /// These bytes were read (possibly none).
    Bytes(Vec<u8>),
    /// Timed out, would block, or interrupted.
    Idle,
    /// Any other I/O error, with its message.
    Failed(String),
}

/// The data event for a chunk, stamped with the clock.
pub open spec fn is_data_event(e: SerialEvent, bytes: Seq<u8>, encoding: Encoding) -> bool {
    e matches SerialEvent::Data(d) && d.raw_bytes@ == bytes && d.encoding == encoding
        && is_clock_timestamp(d.timestamp@)
}

/// What one read gives: a non-empty chunk becomes one data event, nothing
/// read gives no event, and an I/O error gives the error and then the
/// disconnection; reading goes on except after an I/O error.
pub open spec fn is_read_step(
    outcome: ReadOutcome,
    encoding: Encoding,
    events: Seq<SerialEvent>,
    go_on: bool,
) -> bool {
    match outcome {
        ReadOutcome::Bytes(b) => go_on && if b@.len() > 0 {
            events.len() == 1 && is_data_event(events[0], b@, encoding)
        } else {
            events.len() == 0
        },
        ReadOutcome::Idle => go_on && events.len() == 0,
        ReadOutcome::Failed(e) => !go_on && events.len() == 2 && (events[0] matches SerialEvent::Error(
            m,
        ) && m@ == "读取串口失败: "@ + e@) && events[1] matches SerialEvent::Disconnected,
    }
}

/// The events a read produces, and whether reading goes on: a non-empty chunk
/// becomes a data event stamped with the current time; nothing read produces
/// nothing; an I/O error reports the error, then the disconnection, and
/// stops the reader.
pub fn events_for_read(outcome: ReadOutcome, encoding: Encoding) -> (r: (Vec<SerialEvent>, bool))
    ensures
        is_read_step(outcome, encoding, r.0@, r.1),
{
    let mut events: Vec<SerialEvent> = Vec::new();
    match outcome {
        ReadOutcome::Bytes(b) => {
            if b.len() > 0 {
                events.push(
                    SerialEvent::Data(
                        ReceivedData {
                            timestamp: current_message_timestamp(),
                            raw_bytes: b,
                            encoding,
                        },
                    ),
                );
            }
            (events, true)
        },
        ReadOutcome::Idle => (events, true),
        ReadOutcome::Failed(e) => {
            let mut m = String::from_str("读取串口失败: ");
            m.append(e.as_str());
            events.push(SerialEvent::Error(m));
            events.push(SerialEvent::Disconnected);
            (events, false)
        },
    }
}


/// A reader's run: the events of each read, as `events_for_read` gives them,
/// one read after the other; every read but the last let reading go on.
pub open spec fn is_reader_run(
    outcomes: Seq<ReadOutcome>,
    encoding: Encoding,
    steps: Seq<Seq<SerialEvent>>,
) -> bool {
    &&& steps.len() == outcomes.len()
    &&& forall|i: int|
        0 <= i < outcomes.len() ==> is_read_step(
            outcomes[i],
            encoding,
            #[trigger] steps[i],
            !(outcomes[i] is Failed),
        )
    &&& forall|i: int| 0 <= i < outcomes.len() - 1 ==> !(#[trigger] outcomes[i] is Failed)
}

/// The chunks the data events carry, in order.
pub open spec fn data_chunks(events: Seq<SerialEvent>) -> Seq<Seq<u8>>
    decreases events.len(),
{
    if events.len() == 0 {
        Seq::empty()
    } else {
        match events.last() {
            SerialEvent::Data(d) => data_chunks(events.drop_last()).push(d.raw_bytes@),
            _ => data_chunks(events.drop_last()),
        }
    }
}

/// The non-empty chunks the reads returned, in order.
pub open spec fn read_chunks(outcomes: Seq<ReadOutcome>) -> Seq<Seq<u8>>
    decreases outcomes.len(),
{
    if outcomes.len() == 0 {
        Seq::empty()
    } else {
        match outcomes.last() {
            ReadOutcome::Bytes(b) => if b@.len() > 0 {
                read_chunks(outcomes.drop_last()).push(b@)
            } else {
                read_chunks(outcomes.drop_last())
            },
            _ => read_chunks(outcomes.drop_last()),
        }
    }
}

/// Only data events, each in `encoding` and stamped with the clock.
pub open spec fn only_data(events: Seq<SerialEvent>, encoding: Encoding) -> bool {
    forall|i: int|
        0 <= i < events.len() ==> (#[trigger] events[i] matches SerialEvent::Data(d)
            && d.encoding == encoding && is_clock_timestamp(d.timestamp@))
}

proof fn lemma_data_chunks_concat(a: Seq<SerialEvent>, b: Seq<SerialEvent>)
    ensures
        data_chunks(a + b) == data_chunks(a) + data_chunks(b),
    decreases b.len(),
{
    if b.len() == 0 {
        assert(a + b == a);
        assert(data_chunks(a) + Seq::<Seq<u8>>::empty() == data_chunks(a));
    } else {
        lemma_data_chunks_concat(a, b.drop_last());
        assert((a + b).drop_last() == a + b.drop_last());
        assert((a + b).last() == b.last());
        match b.last() {
            SerialEvent::Data(d) => {
                assert(data_chunks(a) + data_chunks(b.drop_last()).push(d.raw_bytes@) == (
                data_chunks(a) + data_chunks(b.drop_last())).push(d.raw_bytes@));
            },
            _ => {},
        }
    }
}

/// A reader loses and reorders no byte: the data events of a run carry the
/// non-empty chunks the port returned, each as it came and in order, in the
/// chosen encoding. A run that ends in an I/O error ends with the error and
/// the disconnection and has no other such event; any other run has only
/// data events.
pub proof fn law_reader_keeps_every_chunk(
    outcomes: Seq<ReadOutcome>,
    encoding: Encoding,
    steps: Seq<Seq<SerialEvent>>,
)
    requires
        is_reader_run(outcomes, encoding, steps),
    ensures
        data_chunks(concat_lines(steps)) == read_chunks(outcomes),
        outcomes.len() > 0 && outcomes.last() is Failed ==> {
            let evs = concat_lines(steps);
            &&& evs.len() >= 2
            &&& only_data(evs.take(evs.len() - 2), encoding)
            &&& outcomes.last() matches ReadOutcome::Failed(e) && evs[evs.len() - 2] matches SerialEvent::Error(m) && m@ == "读取串口失败: "@ + e@
            &&& evs.last() matches SerialEvent::Disconnected
        },
        !(outcomes.len() > 0 && outcomes.last() is Failed) ==> only_data(concat_lines(steps), encoding),
    decreases outcomes.len(),
{
    if outcomes.len() == 0 {
        return;
    }
    let n = outcomes.len() - 1;
    let os = outcomes.drop_last();
    let ss = steps.drop_last();
    assert forall|i: int| 0 <= i < os.len() implies is_read_step(
        os[i],
        encoding,
        #[trigger] ss[i],
        !(os[i] is Failed),
    ) by {
        assert(os[i] == outcomes[i] && ss[i] == steps[i]);
    }
    assert forall|i: int| 0 <= i < os.len() - 1 implies !(#[trigger] os[i] is Failed) by {
        assert(os[i] == outcomes[i]);
    }
    law_reader_keeps_every_chunk(os, encoding, ss);
    if os.len() > 0 {
        assert(os.last() == outcomes[n - 1]);
    }
    let pre = concat_lines(ss);
    let last = steps[n];
    assert(steps.last() == last);
    assert(concat_lines(steps) == pre + last);
    lemma_data_chunks_concat(pre, last);
    assert(is_read_step(outcomes[n], encoding, last, !(outcomes[n] is Failed)));
    let evs = pre + last;
    match outcomes[n] {
        ReadOutcome::Bytes(b) => {
            if b@.len() > 0 {
                assert(last.drop_last() == Seq::<SerialEvent>::empty());
                assert(last.last() == last[0]);
                assert(data_chunks(Seq::<SerialEvent>::empty()) == Seq::<Seq<u8>>::empty());
                assert(data_chunks(last) == Seq::<Seq<u8>>::empty().push(b@));
            } else {
                assert(last == Seq::<SerialEvent>::empty());
                assert(pre + last == pre);
            }
            assert(only_data(evs, encoding)) by {
                assert forall|i: int| 0 <= i < evs.len() implies (#[trigger] evs[i] matches SerialEvent::Data(d)
                    && d.encoding == encoding && is_clock_timestamp(d.timestamp@)) by {
                    if i < pre.len() {
                        assert(evs[i] == pre[i]);
                    } else {
                        assert(evs[i] == last[i - pre.len()]);
                    }
                }
            }
        },
        ReadOutcome::Idle => {
            assert(last == Seq::<SerialEvent>::empty());
            assert(pre + last == pre);
        },
        ReadOutcome::Failed(e) => {
            assert(last.drop_last() == seq![last[0]]);
            assert(seq![last[0]].drop_last() == Seq::<SerialEvent>::empty());
            assert(seq![last[0]].last() == last[0]);
            assert(last.last() == last[1]);
            assert(data_chunks(Seq::<SerialEvent>::empty()) == Seq::<Seq<u8>>::empty());
            assert(data_chunks(seq![last[0]]) == Seq::<Seq<u8>>::empty());
            assert(data_chunks(last) == Seq::<Seq<u8>>::empty());
            assert(evs.take(evs.len() - 2) == pre);
            assert(evs[evs.len() - 2] == last[0]);
        },
    }
}

} // verus!
