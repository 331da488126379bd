//! The hot path: pooled buffers, the append-only capture log and the sink that writes it.
//!
//! A log is a stream of records. Each record is a tag byte and the fields of one event in a fixed
//! order, so no attribute keys are written. Numbers are varints, text has its length in front, and
//! a charge is the four bytes of its single-precision pattern, lowest first.

use vstd::prelude::*;
use vstd::string::*;

use crate::charge::{Charge, ChargeModel};
use crate::combo4::preamble::PREAMBLE_ID;
use crate::scenarios::{start_event, stored_id, DiagSink, OperationInput, Outcome, SinkEvent};
use crate::wire::{text_bytes, text_fits, varint_bytes, write_str, write_varint};

verus! {

/// The tag of the record of an operation's start.
pub const TAG_OP: u8 = 1;

/// The tag of the record of an attempt.
pub const TAG_ATTEMPT: u8 = 2;

/// The tag of the record of a fan-out child.
pub const TAG_CHILD: u8 = 3;

/// The tag of the record of an operation's end.
pub const TAG_END: u8 = 4;

/// A pool of reusable capture buffers. A buffer that is returned is parked for the next operation,
/// so that dropping a log costs no allocation and no free.
#[derive(Debug)]
pub struct LogPool {
    free: Vec<Vec<u8>>,
}

impl View for LogPool {
    type V = nat;

    /// How many buffers are parked.
    closed spec fn view(&self) -> nat {
        self.free@.len()
    }
}

impl Default for LogPool {
    fn default() -> (pool: Self)
        ensures
            pool@ == 0,
    {
        LogPool { free: Vec::new() }
    }
}

impl LogPool {
    /// Creates an empty pool.
    pub fn new() -> (pool: Self)
        ensures
            pool@ == 0,
    {
        LogPool { free: Vec::new() }
    }

    /// Rents an empty buffer: a parked one where there is one, else a new one.
    pub fn rent(&mut self) -> (buf: Vec<u8>)
        ensures
            buf@ == Seq::<u8>::empty(),
            final(self)@ == (if old(self)@ == 0 {
                0
            } else {
                old(self)@ - 1
            }),
    {
        match self.free.pop() {
            Some(mut buf) => {
                buf.clear();
                buf
            },
            None => Vec::with_capacity(256),
        }
    }

    /// Parks a buffer in the pool.
    pub fn give_back(&mut self, mut buf: Vec<u8>)
        ensures
            final(self)@ == old(self)@ + 1,
    {
        buf.clear();
        self.free.push(buf);
    }

    /// How many buffers are parked.
    pub fn pooled(&self) -> (n: usize)
        ensures
            n == self@,
    {
        self.free.len()
    }
}

/// A number of 32 bits in four bytes, lowest first.
pub open spec fn le_bytes(n: u32) -> Seq<u8> {
    seq![
        (n % 0x100) as u8,
        ((n / 0x100) % 0x100) as u8,
        ((n / 0x1_0000) % 0x100) as u8,
        (n / 0x100_0000) as u8,
    ]
}

/// Appends a number of 32 bits in four bytes, lowest first.
fn write_le(out: &mut Vec<u8>, n: u32)
    ensures
        final(out)@ == old(out)@ + le_bytes(n),
{
    let ghost before = out@;
    out.push((n % 0x100) as u8);
    out.push(((n / 0x100) % 0x100) as u8);
    out.push(((n / 0x1_0000) % 0x100) as u8);
    out.push((n / 0x100_0000) as u8);
    proof {
        assert(out@ =~= before + le_bytes(n));
    }
}

/// The byte that stands for an outcome.
pub open spec fn outcome_code(outcome: Outcome) -> u8 {
    match outcome {
        Outcome::Success => 0,
        Outcome::Error => 1,
    }
}

/// The charge that a log stores: the pattern of zero where there was none.
pub open spec fn stored_charge(c: Option<ChargeModel>) -> u32 {
    match c {
        Some(v) => v.single,
        None => 0,
    }
}

/// The record of an attempt.
pub open spec fn attempt_record(
    index: u32,
    status: u16,
    id: Seq<char>,
    single: u32,
    start_ns: u64,
    duration_ns: u64,
) -> Seq<u8> {
    seq![TAG_ATTEMPT] + (varint_bytes(index as nat) + (varint_bytes(status as nat) + (text_bytes(
        id,
    ) + (le_bytes(single) + (varint_bytes(start_ns as nat) + varint_bytes(duration_ns as nat))))))
}

/// Pieces that are appended one by one stand in a row.
proof fn lemma_appended(
    before: Seq<u8>,
    tag: u8,
    a: Seq<u8>,
    b: Seq<u8>,
    c: Seq<u8>,
    d: Seq<u8>,
    e: Seq<u8>,
    f: Seq<u8>,
)
    ensures
        before.push(tag) + a + b + c + d + e + f == before + (seq![tag] + (a + (b + (c + (d + (e
            + f)))))),
{
    assert(before.push(tag) =~= before + seq![tag]);
    assert(before.push(tag) + a + b + c =~= before + (seq![tag] + (a + (b + c))));
    assert(before + (seq![tag] + (a + (b + c))) + d + e + f =~= before + (seq![tag] + (a + (b + (c
        + (d + (e + f)))))));
}

/// Appends the record of an attempt.
fn write_attempt(
    out: &mut Vec<u8>,
    index: u32,
    status: u16,
    id: &str,
    single: u32,
    start_ns: u64,
    duration_ns: u64,
)
    ensures
        final(out)@ == old(out)@ + attempt_record(
            index,
            status,
            id@,
            single,
            start_ns,
            duration_ns,
        ),
        text_fits(id@),
{
    let ghost before = out@;
    out.push(TAG_ATTEMPT);
    write_varint(out, index as u64);
    write_varint(out, status as u64);
    write_str(out, id);
    write_le(out, single);
    write_varint(out, start_ns);
    write_varint(out, duration_ns);
    proof {
        lemma_appended(
            before,
            TAG_ATTEMPT,
            varint_bytes(index as nat),
            varint_bytes(status as nat),
            text_bytes(id@),
            le_bytes(single),
            varint_bytes(start_ns as nat),
            varint_bytes(duration_ns as nat),
        );
    }
}

/// The record of an event.
pub open spec fn record(event: SinkEvent) -> Seq<u8> {
    match event {
        SinkEvent::Start { name, endpoint, client_request_id, start_ns } => {
            seq![TAG_OP, PREAMBLE_ID] + (text_bytes(name) + (text_bytes(endpoint) + (text_bytes(
                client_request_id,
            ) + varint_bytes(start_ns as nat))))
        },
        SinkEvent::Attempt {
            index,
            status,
            service_request_id,
            request_charge,
            start_ns,
            duration_ns,
        } => attempt_record(
            index,
            status,
            stored_id(service_request_id),
            stored_charge(request_charge),
            start_ns,
            duration_ns,
        ),
        SinkEvent::Child { index, plan_node_id, feed_range, start_ns, duration_ns } => {
            seq![TAG_CHILD] + (text_bytes(plan_node_id) + (text_bytes(feed_range) + (varint_bytes(
                start_ns as nat,
            ) + varint_bytes(duration_ns as nat))))
        },
        SinkEvent::End { outcome, attempt_count, total_ns } => {
            seq![TAG_END, outcome_code(outcome)] + (varint_bytes(attempt_count as nat)
                + varint_bytes(total_ns as nat))
        },
    }
}

/// Every text of an event is short enough for its length to be written.
pub open spec fn event_fits(event: SinkEvent) -> bool {
    match event {
        SinkEvent::Start { name, endpoint, client_request_id, start_ns } => {
            &&& text_fits(name)
            &&& text_fits(endpoint)
            &&& text_fits(client_request_id)
        },
        SinkEvent::Attempt {
            index,
            status,
            service_request_id,
            request_charge,
            start_ns,
            duration_ns,
        } => text_fits(stored_id(service_request_id)),
        SinkEvent::Child { index, plan_node_id, feed_range, start_ns, duration_ns } => {
            &&& text_fits(plan_node_id)
            &&& text_fits(feed_range)
        },
        SinkEvent::End { outcome, attempt_count, total_ns } => true,
    }
}

/// What a [`CaptureLog`] holds.
#[verifier::ext_equal]
pub struct LogModel {
    /// The records.
    pub bytes: Seq<u8>,
    /// When the operation started (ns).
    pub start_ns: u64,
    /// How long the operation took (ns).
    pub total_ns: u64,
    /// How the operation ended.
    pub outcome: Outcome,
    /// How many attempts the operation made.
    pub attempt_count: u32,
    /// Every text that was recorded was short enough for its length to be written, as every text
    /// in memory is.
    pub fits: bool,
}

impl LogModel {
    /// Nothing recorded yet.
    pub open spec fn empty() -> LogModel {
        LogModel {
            bytes: Seq::empty(),
            start_ns: 0,
            total_ns: 0,
            outcome: Outcome::Success,
            attempt_count: 0,
            fits: true,
        }
    }
}

/// An append-only capture log of one operation, in a pooled buffer.
#[derive(Debug)]
pub struct CaptureLog {
    buf: Vec<u8>,
    start_ns: u64,
    total_ns: u64,
    outcome: Outcome,
    attempt_count: u32,
}

impl View for CaptureLog {
    type V = LogModel;

    closed spec fn view(&self) -> LogModel {
        LogModel {
            bytes: self.buf@,
            start_ns: self.start_ns,
            total_ns: self.total_ns,
            outcome: self.outcome,
            attempt_count: self.attempt_count,
            fits: true,
        }
    }
}

impl CaptureLog {
    /// An empty log in a rented buffer.
    fn from_buf(buf: Vec<u8>) -> (log: Self)
        ensures
            log@ == (LogModel { bytes: buf@, ..LogModel::empty() }),
    {
        CaptureLog { buf, start_ns: 0, total_ns: 0, outcome: Outcome::Success, attempt_count: 0 }
    }

    /// Consumes the log and returns its buffer, for returning it to a pool.
    pub fn into_buf(self) -> (buf: Vec<u8>)
        ensures
            buf@ == self@.bytes,
    {
        self.buf
    }

    /// The records.
    pub fn bytes(&self) -> (bytes: &[u8])
        ensures
            bytes@ == self@.bytes,
    {
        self.buf.as_slice()
    }

    /// How the operation ended.
    pub fn outcome(&self) -> (outcome: Outcome)
        ensures
            outcome == self@.outcome,
    {
        self.outcome
    }

    /// How long the operation took (ns).
    pub fn elapsed_ns(&self) -> (ns: u64)
        ensures
            ns == self@.total_ns,
    {
        self.total_ns
    }

    /// The size of what was appended on the hot path.
    pub fn raw_len(&self) -> (n: usize)
        ensures
            n == self@.bytes.len(),
    {
        self.buf.len()
    }
}

/// A [`DiagSink`] that appends to a [`CaptureLog`].
#[derive(Debug)]
pub struct Combo4Sink {
    log: CaptureLog,
}

impl Combo4Sink {
    /// A sink that records into a rented buffer.
    pub fn new(buf: Vec<u8>) -> (sink: Self)
        ensures
            sink.model() == (LogModel { bytes: buf@, ..LogModel::empty() }),
    {
        Combo4Sink { log: CaptureLog::from_buf(buf) }
    }

    /// Consumes the sink and returns the log.
    pub fn into_log(self) -> (log: CaptureLog)
        ensures
            log@ == self.model(),
            log@.fits,
    {
        self.log
    }
}

impl DiagSink for Combo4Sink {
    type Model = LogModel;

    closed spec fn model(&self) -> LogModel {
        self.log@
    }

    open spec fn step(m: LogModel, event: SinkEvent) -> LogModel {
        let appended = LogModel {
            bytes: m.bytes + record(event),
            fits: m.fits && event_fits(event),
            ..m
        };
        match event {
            SinkEvent::Start { name, endpoint, client_request_id, start_ns } => LogModel {
                start_ns,
                ..appended
            },
            SinkEvent::End { outcome, attempt_count, total_ns } => LogModel {
                outcome,
                attempt_count,
                total_ns,
                ..appended
            },
            _ => appended,
        }
    }

    fn op_start(&mut self, input: &OperationInput, start_ns: u64) {
        let ghost before = self.log.buf@;
        self.log.start_ns = start_ns;
        self.log.buf.push(TAG_OP);
        self.log.buf.push(PREAMBLE_ID);
        write_str(&mut self.log.buf, input.name);
        write_str(&mut self.log.buf, input.endpoint);
        write_str(&mut self.log.buf, input.client_request_id);
        write_varint(&mut self.log.buf, start_ns);
        proof {
            assert(self.log.buf@ =~= before + record(
                start_event(input@, start_ns),
            ));
        }
    }

    fn attempt(
        &mut self,
        attempt_index: u32,
        status: u16,
        service_request_id: Option<&str>,
        request_charge: Option<&Charge>,
        start_ns: u64,
        duration_ns: u64,
    ) {
        let id: &str = match service_request_id {
            Some(s) => s,
            None => "",
        };
        proof {
            reveal_strlit("");
            assert(""@ =~= Seq::empty());
        }
        let single: u32 = match request_charge {
            Some(c) => c.single,
            None => 0,
        };
        write_attempt(
            &mut self.log.buf,
            attempt_index,
            status,
            id,
            single,
            start_ns,
            duration_ns,
        );
    }

    fn child(
        &mut self,
        child_index: u32,
        plan_node_id: &str,
        feed_range: &str,
        start_ns: u64,
        duration_ns: u64,
    ) {
        let ghost before = self.log.buf@;
        self.log.buf.push(TAG_CHILD);
        write_str(&mut self.log.buf, plan_node_id);
        write_str(&mut self.log.buf, feed_range);
        write_varint(&mut self.log.buf, start_ns);
        write_varint(&mut self.log.buf, duration_ns);
        proof {
            assert(self.log.buf@ =~= before + record(
                SinkEvent::Child {
                    index: child_index,
                    plan_node_id: plan_node_id@,
                    feed_range: feed_range@,
                    start_ns,
                    duration_ns,
                },
            ));
        }
    }

    fn op_end(&mut self, outcome: Outcome, attempt_count: u32, total_ns: u64) {
        let ghost before = self.log.buf@;
        self.log.outcome = outcome;
        self.log.attempt_count = attempt_count;
        self.log.total_ns = total_ns;
        self.log.buf.push(TAG_END);
        let code: u8 = match outcome {
            Outcome::Success => 0,
            Outcome::Error => 1,
        };
        self.log.buf.push(code);
        write_varint(&mut self.log.buf, attempt_count as u64);
        write_varint(&mut self.log.buf, total_ns);
        proof {
            assert(self.log.buf@ =~= before + record(
                SinkEvent::End { outcome, attempt_count, total_ns },
            ));
        }
    }
}

} // verus!
