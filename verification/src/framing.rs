//! Packet framing for the background reader: raw byte arrivals are
//! accumulated and emitted as one packet once the line has been idle for at
//! least the framing gap.
//!
//! The reader loop itself lives with the caller, who owns the device, the
//! clock and the sleep. Each iteration it hands `PacketAssembler::step` the
//! stop flag, the read outcome and the current time in milliseconds, performs
//! the emission the result asks for, and exits when the result says so.

use vstd::prelude::*;

verus! {

/// Idle time, in milliseconds, after which an accumulated buffer is emitted
/// as one packet.
pub const FRAMING_GAP_MS: u64 = 5;

/// Sleep between reader iterations, to bound CPU usage.
pub const POLL_INTERVAL_MS: u64 = 1;

/// Pause after acquiring the device, before the second input-buffer clear,
/// so that power-on transients are dropped.
pub const SETTLE_DELAY_MS: u64 = 50;

/// Size of the scratch buffer handed to each bounded read.
pub const READ_BUFFER_BYTES: usize = 1024;

/// One iteration's read result: bytes arrived (a zero-length read changes
/// nothing), the bounded read timed out with no bytes, or it failed fatally.
pub enum ReadOutcome {
    Bytes(Vec<u8>),
    TimedOut,
    Failed,
}

/// Mathematical form of a read outcome.
pub enum ReadEventModel {
    Bytes(Seq<u8>),
    TimedOut,
    Failed,
}

impl View for ReadOutcome {
    type V = ReadEventModel;

    open spec fn view(&self) -> ReadEventModel {
        match self {
            ReadOutcome::Bytes(b) => ReadEventModel::Bytes(b@),
            ReadOutcome::TimedOut => ReadEventModel::TimedOut,
            ReadOutcome::Failed => ReadEventModel::Failed,
        }
    }
}

/// Mathematical form of the assembler state: the accumulated bytes and the
/// time the last byte arrived.
pub struct AssemblerModel {
    pub buffer: Seq<u8>,
    pub last_receive_ms: int,
}

/// Mathematical form of one iteration's effect: the next state, whether the
/// loop exits, and the packet emitted, if any.
pub struct StepModel {
    pub state: AssemblerModel,
    pub exit: bool,
    pub emitted: Option<Seq<u8>>,
}

/// The emission decision at the end of an iteration: a non-empty buffer that
/// has been idle for at least the framing gap leaves as one packet.
pub open spec fn spec_emit_check(m: AssemblerModel, now: int) -> StepModel {
    if m.buffer.len() > 0 && now - m.last_receive_ms >= FRAMING_GAP_MS as int {
        StepModel {
            state: AssemblerModel { buffer: Seq::empty(), last_receive_ms: m.last_receive_ms },
            exit: false,
            emitted: Some(m.buffer),
        }
    } else {
        StepModel { state: m, exit: false, emitted: None }
    }
}

/// One reader iteration: exit at once on a stop request; on bytes, append
/// them and restart the idle clock; on a timeout, change nothing; on a fatal
/// error, exit without flushing the partial buffer. Unless it exited, the
/// iteration ends with the emission decision.
pub open spec fn spec_step(
    m: AssemblerModel,
    stop_requested: bool,
    ev: ReadEventModel,
    now: int,
) -> StepModel {
    if stop_requested {
        StepModel { state: m, exit: true, emitted: None }
    } else {
        match ev {
            ReadEventModel::Bytes(b) => if b.len() > 0 {
                spec_emit_check(AssemblerModel { buffer: m.buffer + b, last_receive_ms: now }, now)
            } else {
                spec_emit_check(m, now)
            },
            ReadEventModel::TimedOut => spec_emit_check(m, now),
            ReadEventModel::Failed => StepModel { state: m, exit: true, emitted: None },
        }
    }
}

/// What one call of `PacketAssembler::step` tells its caller to do.
pub struct StepResult {
    /// The reader loop must exit now.
    pub exit: bool,
    /// A completed packet to push to the notification sink, in arrival order.
    pub packet: Option<Vec<u8>>,
}

/// The reader's framing state: an accumulation buffer and the time the last
/// byte arrived, against the caller's monotonic millisecond clock.
pub struct PacketAssembler {
    buffer: Vec<u8>,
    last_receive_ms: u64,
}

impl View for PacketAssembler {
    type V = AssemblerModel;

    closed spec fn view(&self) -> AssemblerModel {
        AssemblerModel { buffer: self.buffer@, last_receive_ms: self.last_receive_ms as int }
    }
}

impl PacketAssembler {
    /// A fresh assembler with an empty buffer, started at the current time.
    pub fn new(now_ms: u64) -> (a: PacketAssembler)
        ensures
            a@.buffer.len() == 0,
            a@.last_receive_ms == now_ms as int,
    {
        PacketAssembler { buffer: Vec::new(), last_receive_ms: now_ms }
    }

    /// One iteration of the reader loop, exactly as `spec_step` describes it.
    /// The caller's clock must not run backwards.
    pub fn step(&mut self, stop_requested: bool, outcome: ReadOutcome, now_ms: u64) -> (r:
        StepResult)
        requires
            old(self)@.last_receive_ms <= now_ms as int,
        ensures
            ({
                let sm = spec_step(old(self)@, stop_requested, outcome@, now_ms as int);
                &&& final(self)@ == sm.state
                &&& r.exit == sm.exit
                &&& r.packet.deep_view() == sm.emitted
            }),
    {
        if stop_requested {
            return StepResult { exit: true, packet: None };
        }
        match outcome {
            ReadOutcome::Bytes(mut b) => {
                if b.len() > 0 {
                    self.buffer.append(&mut b);
                    self.last_receive_ms = now_ms;
                }
            },
            ReadOutcome::TimedOut => {},
            ReadOutcome::Failed => {
                return StepResult { exit: true, packet: None };
            },
        }
        if self.buffer.len() > 0 && now_ms - self.last_receive_ms >= FRAMING_GAP_MS {
            let packet = self.buffer.clone();
            self.buffer.clear();
            StepResult { exit: false, packet: Some(packet) }
        } else {
            StepResult { exit: false, packet: None }
        }
    }
}

/// Law: two bursts separated by less than the framing gap are framed as one
/// packet. Nothing is emitted while they arrive, and the first quiet check at
/// least a gap after the second burst emits exactly their concatenation.
pub proof fn lemma_reads_within_gap_coalesce(
    m: AssemblerModel,
    b1: Seq<u8>,
    b2: Seq<u8>,
    t1: int,
    t2: int,
    t3: int,
)
    requires
        m.buffer.len() == 0,
        b1.len() > 0,
        b2.len() > 0,
        t1 <= t2,
        t2 - t1 < FRAMING_GAP_MS as int,
        t3 - t2 >= FRAMING_GAP_MS as int,
    ensures
        ({
            let s1 = spec_step(m, false, ReadEventModel::Bytes(b1), t1);
            let s2 = spec_step(s1.state, false, ReadEventModel::Bytes(b2), t2);
            let s3 = spec_step(s2.state, false, ReadEventModel::TimedOut, t3);
            &&& s1.emitted is None
            &&& s2.emitted is None
            &&& s3.emitted == Some(b1 + b2)
            &&& s3.state.buffer.len() == 0
        }),
{
    assert(m.buffer + b1 =~= b1);
    assert((m.buffer + b1) + b2 =~= b1 + b2);
}

/// Law: a quiet period of at least the framing gap between two bursts splits
/// them into two packets, emitted in arrival order: the first quiet check
/// after the gap emits the first burst alone, and the second burst is framed
/// on its own afterwards.
pub proof fn lemma_gap_between_reads_splits(
    m: AssemblerModel,
    b1: Seq<u8>,
    b2: Seq<u8>,
    t1: int,
    t2: int,
    t3: int,
    t4: int,
)
    requires
        m.buffer.len() == 0,
        b1.len() > 0,
        b2.len() > 0,
        t2 - t1 >= FRAMING_GAP_MS as int,
        t2 <= t3,
        t4 - t3 >= FRAMING_GAP_MS as int,
    ensures
        ({
            let s1 = spec_step(m, false, ReadEventModel::Bytes(b1), t1);
            let s2 = spec_step(s1.state, false, ReadEventModel::TimedOut, t2);
            let s3 = spec_step(s2.state, false, ReadEventModel::Bytes(b2), t3);
            let s4 = spec_step(s3.state, false, ReadEventModel::TimedOut, t4);
            &&& s1.emitted is None
            &&& s2.emitted == Some(b1)
            &&& s3.emitted is None
            &&& s4.emitted == Some(b2)
        }),
{
    assert(m.buffer + b1 =~= b1);
    let s2state = spec_step(
        spec_step(m, false, ReadEventModel::Bytes(b1), t1).state,
        false,
        ReadEventModel::TimedOut,
        t2,
    ).state;
    assert(s2state.buffer + b2 =~= b2);
}

} // verus!
