//! Reading a capture log back.

use vstd::prelude::*;
use vstd::string::*;

use crate::combo4::log::{
    attempt_record, event_fits, le_bytes, outcome_code, record, stored_charge, Combo4Sink,
    LogModel, TAG_ATTEMPT, TAG_CHILD, TAG_END, TAG_OP,
};
use crate::combo4::preamble::PREAMBLE_ID;
use crate::scenarios::{
    after_events, attempt_event, attempt_events, child_event, child_events, children_start,
    end_event, operation_events, start_event, stored_id, InputModel, Outcome, ResponseModel,
    SinkEvent,
};
use crate::wire::{
    lemma_stands_split, lemma_text_reads, lemma_varint_reads, read_str, read_varint, stands_at,
    text_at, text_bytes, text_fits, varint_at, varint_bytes, varint_within, MAX_VARINT_BYTES,
};

verus! {

/// An attempt, as a log tells it.
#[derive(Clone, Debug)]
pub struct ParsedAttempt {
    /// Zero-based attempt index.
    pub index: u32,
    /// HTTP status code.
    pub status: u16,
    /// Service request id from the response; empty where there was none.
    pub service_request_id: String,
    /// The bit pattern of the charge in single precision.
    pub request_charge: u32,
    /// Start tick (ns).
    pub start_ns: u64,
    /// Duration (ns).
    pub duration_ns: u64,
}

/// What a [`ParsedAttempt`] holds.
#[verifier::ext_equal]
pub struct ParsedAttemptModel {
    pub index: u32,
    pub status: u16,
    pub service_request_id: Seq<char>,
    pub request_charge: u32,
    pub start_ns: u64,
    pub duration_ns: u64,
}

impl View for ParsedAttempt {
    type V = ParsedAttemptModel;

    open spec fn view(&self) -> ParsedAttemptModel {
        ParsedAttemptModel {
            index: self.index,
            status: self.status,
            service_request_id: self.service_request_id@,
            request_charge: self.request_charge,
            start_ns: self.start_ns,
            duration_ns: self.duration_ns,
        }
    }
}

/// A fan-out child, as a log tells it.
#[derive(Clone, Debug)]
pub struct ParsedChild {
    /// Query-plan tree node id.
    pub plan_node_id: String,
    /// Feed range that the child addresses.
    pub feed_range: String,
    /// Start tick (ns).
    pub start_ns: u64,
    /// Duration (ns).
    pub duration_ns: u64,
}

/// What a [`ParsedChild`] holds.
#[verifier::ext_equal]
pub struct ParsedChildModel {
    pub plan_node_id: Seq<char>,
    pub feed_range: Seq<char>,
    pub start_ns: u64,
    pub duration_ns: u64,
}

impl View for ParsedChild {
    type V = ParsedChildModel;

    open spec fn view(&self) -> ParsedChildModel {
        ParsedChildModel {
            plan_node_id: self.plan_node_id@,
            feed_range: self.feed_range@,
            start_ns: self.start_ns,
            duration_ns: self.duration_ns,
        }
    }
}

/// An operation, as a log tells it.
#[derive(Clone, Debug)]
pub struct Parsed {
    /// Operation name.
    pub operation: String,
    /// Service endpoint.
    pub endpoint: String,
    /// Client request id.
    pub client_request_id: String,
    /// Operation start tick (ns).
    pub start_ns: u64,
    /// The attempts, in order.
    pub attempts: Vec<ParsedAttempt>,
    /// The fan-out children, in order.
    pub children: Vec<ParsedChild>,
    /// How the operation ended.
    pub outcome: Outcome,
    /// Total attempt count.
    pub attempt_count: u32,
    /// Total elapsed (ns).
    pub total_ns: u64,
}

/// What a [`Parsed`] holds.
#[verifier::ext_equal]
pub struct ParsedModel {
    pub operation: Seq<char>,
    pub endpoint: Seq<char>,
    pub client_request_id: Seq<char>,
    pub start_ns: u64,
    pub attempts: Seq<ParsedAttemptModel>,
    pub children: Seq<ParsedChildModel>,
    pub outcome: Outcome,
    pub attempt_count: u32,
    pub total_ns: u64,
}

/// What a list of parsed attempts holds.
pub open spec fn attempts_view(attempts: Seq<ParsedAttempt>) -> Seq<ParsedAttemptModel> {
    Seq::new(attempts.len(), |i: int| attempts[i]@)
}

/// What a list of parsed children holds.
pub open spec fn children_view(children: Seq<ParsedChild>) -> Seq<ParsedChildModel> {
    Seq::new(children.len(), |i: int| children[i]@)
}

impl View for Parsed {
    type V = ParsedModel;

    open spec fn view(&self) -> ParsedModel {
        ParsedModel {
            operation: self.operation@,
            endpoint: self.endpoint@,
            client_request_id: self.client_request_id@,
            start_ns: self.start_ns,
            attempts: attempts_view(self.attempts@),
            children: children_view(self.children@),
            outcome: self.outcome,
            attempt_count: self.attempt_count,
            total_ns: self.total_ns,
        }
    }
}

impl ParsedModel {
    /// Nothing read yet.
    pub open spec fn empty() -> ParsedModel {
        ParsedModel {
            operation: Seq::empty(),
            endpoint: Seq::empty(),
            client_request_id: Seq::empty(),
            start_ns: 0,
            attempts: Seq::empty(),
            children: Seq::empty(),
            outcome: Outcome::Success,
            attempt_count: 0,
            total_ns: 0,
        }
    }
}

// ---------------------------------------------------------------------------
// What the bytes of a log say
// ---------------------------------------------------------------------------

/// The position `n` further on, or the end.
pub open spec fn skipped(buf: Seq<u8>, pos: int, n: int) -> int {
    if pos + n <= buf.len() {
        pos + n
    } else {
        buf.len() as int
    }
}

/// The number at `pos`, and where to go on. Where no number can be read it is zero, and reading
/// goes on from the same place.
pub open spec fn number_or_zero(buf: Seq<u8>, pos: int) -> (u64, int) {
    match varint_at(buf, pos) {
        Ok((v, next)) => (v as u64, next),
        Err(e) => (0, pos),
    }
}

/// The text at `pos`, and where to go on. Where no text can be read it is empty, and reading goes
/// on from the same place.
pub open spec fn text_or_empty(buf: Seq<u8>, pos: int) -> (Seq<char>, int) {
    match text_at(buf, pos) {
        Ok((s, next)) => (s, next),
        Err(e) => (Seq::empty(), pos),
    }
}

/// The number of 32 bits in the four bytes at `pos`, lowest first; zero where there are fewer.
pub open spec fn le_at(buf: Seq<u8>, pos: int) -> u32 {
    if pos + 4 <= buf.len() {
        (buf[pos] + 0x100 * buf[pos + 1] + 0x1_0000 * buf[pos + 2] + 0x100_0000 * buf[pos
            + 3]) as u32
    } else {
        0
    }
}

/// What the record of an operation's start says, and where it ends.
pub open spec fn start_at(buf: Seq<u8>, pos: int, p: ParsedModel) -> (ParsedModel, int) {
    let (operation, p1) = text_or_empty(buf, skipped(buf, pos, 1));
    let (endpoint, p2) = text_or_empty(buf, p1);
    let (client_request_id, p3) = text_or_empty(buf, p2);
    let (start_ns, p4) = number_or_zero(buf, p3);
    (ParsedModel { operation, endpoint, client_request_id, start_ns, ..p }, p4)
}

/// What the record of an attempt says, and where it ends.
pub open spec fn attempt_at(buf: Seq<u8>, pos: int) -> (ParsedAttemptModel, int) {
    let (index, p1) = number_or_zero(buf, pos);
    let (status, p2) = number_or_zero(buf, p1);
    let (service_request_id, p3) = text_or_empty(buf, p2);
    let p4 = skipped(buf, p3, 4);
    let (start_ns, p5) = number_or_zero(buf, p4);
    let (duration_ns, p6) = number_or_zero(buf, p5);
    (
        ParsedAttemptModel {
            index: index as u32,
            status: status as u16,
            service_request_id,
            request_charge: le_at(buf, p3),
            start_ns,
            duration_ns,
        },
        p6,
    )
}

/// What the record of a child says, and where it ends.
pub open spec fn child_at(buf: Seq<u8>, pos: int) -> (ParsedChildModel, int) {
    let (plan_node_id, p1) = text_or_empty(buf, pos);
    let (feed_range, p2) = text_or_empty(buf, p1);
    let (start_ns, p3) = number_or_zero(buf, p2);
    let (duration_ns, p4) = number_or_zero(buf, p3);
    (ParsedChildModel { plan_node_id, feed_range, start_ns, duration_ns }, p4)
}

/// What the record of an operation's end says, and where it ends.
pub open spec fn end_at(buf: Seq<u8>, pos: int, p: ParsedModel) -> (ParsedModel, int) {
    let outcome = if pos < buf.len() && buf[pos] == 1 {
        Outcome::Error
    } else {
        Outcome::Success
    };
    let (attempt_count, p1) = number_or_zero(buf, skipped(buf, pos, 1));
    let (total_ns, p2) = number_or_zero(buf, p1);
    (ParsedModel { outcome, attempt_count: attempt_count as u32, total_ns, ..p }, p2)
}

/// What the record whose tag stands at `pos` adds to `p`, and where it ends; `None` where the tag
/// is none of a record.
pub open spec fn record_at(buf: Seq<u8>, pos: int, p: ParsedModel) -> Option<(ParsedModel, int)> {
    let tag = buf[pos];
    if tag == TAG_OP {
        Some(start_at(buf, pos + 1, p))
    } else if tag == TAG_ATTEMPT {
        let (attempt, next) = attempt_at(buf, pos + 1);
        Some((ParsedModel { attempts: p.attempts.push(attempt), ..p }, next))
    } else if tag == TAG_CHILD {
        let (child, next) = child_at(buf, pos + 1);
        Some((ParsedModel { children: p.children.push(child), ..p }, next))
    } else if tag == TAG_END {
        Some(end_at(buf, pos + 1, p))
    } else {
        None
    }
}

/// What the records from `pos` on add to `p`. Reading stops at the end, and at a tag that is none
/// of a record.
pub open spec fn parsed_from(buf: Seq<u8>, pos: int, p: ParsedModel) -> ParsedModel
    decreases buf.len() - pos,
{
    if pos < 0 || pos >= buf.len() {
        p
    } else {
        match record_at(buf, pos, p) {
            Some((q, next)) => {
                proof {
                    lemma_record_moves_on(buf, pos, p);
                }
                parsed_from(buf, next, q)
            },
            None => p,
        }
    }
}

/// What the bytes of a log say.
pub open spec fn parsed_log(buf: Seq<u8>) -> ParsedModel {
    parsed_from(buf, 0, ParsedModel::empty())
}

proof fn lemma_varint_within_moves_on(buf: Seq<u8>, pos: int, budget: nat)
    ensures
        varint_within(buf, pos, budget) matches Ok((v, next)) ==> pos < next <= buf.len(),
    decreases budget,
{
    if budget > 0 {
        lemma_varint_within_moves_on(buf, pos + 1, (budget - 1) as nat);
    }
}

proof fn lemma_number_moves_on(buf: Seq<u8>, pos: int)
    requires
        pos <= buf.len(),
    ensures
        pos <= number_or_zero(buf, pos).1 <= buf.len(),
{
    lemma_varint_within_moves_on(buf, pos, MAX_VARINT_BYTES as nat);
}

proof fn lemma_text_moves_on(buf: Seq<u8>, pos: int)
    requires
        pos <= buf.len(),
    ensures
        pos <= text_or_empty(buf, pos).1 <= buf.len(),
{
    lemma_varint_within_moves_on(buf, pos, MAX_VARINT_BYTES as nat);
}

/// Reading a record moves on, and not past the end.
pub proof fn lemma_record_moves_on(buf: Seq<u8>, pos: int, p: ParsedModel)
    requires
        0 <= pos < buf.len(),
    ensures
        record_at(buf, pos, p) matches Some((q, next)) ==> pos < next <= buf.len(),
{
    let tag = buf[pos];
    if tag == TAG_OP {
        let p0 = skipped(buf, pos + 1, 1);
        lemma_text_moves_on(buf, p0);
        let p1 = text_or_empty(buf, p0).1;
        lemma_text_moves_on(buf, p1);
        let p2 = text_or_empty(buf, p1).1;
        lemma_text_moves_on(buf, p2);
        lemma_number_moves_on(buf, text_or_empty(buf, p2).1);
    } else if tag == TAG_ATTEMPT {
        lemma_number_moves_on(buf, pos + 1);
        let p1 = number_or_zero(buf, pos + 1).1;
        lemma_number_moves_on(buf, p1);
        let p2 = number_or_zero(buf, p1).1;
        lemma_text_moves_on(buf, p2);
        let p4 = skipped(buf, text_or_empty(buf, p2).1, 4);
        lemma_number_moves_on(buf, p4);
        lemma_number_moves_on(buf, number_or_zero(buf, p4).1);
    } else if tag == TAG_CHILD {
        lemma_text_moves_on(buf, pos + 1);
        let p1 = text_or_empty(buf, pos + 1).1;
        lemma_text_moves_on(buf, p1);
        let p2 = text_or_empty(buf, p1).1;
        lemma_number_moves_on(buf, p2);
        lemma_number_moves_on(buf, number_or_zero(buf, p2).1);
    } else if tag == TAG_END {
        let p0 = skipped(buf, pos + 1, 1);
        lemma_number_moves_on(buf, p0);
        lemma_number_moves_on(buf, number_or_zero(buf, p0).1);
    }
}

// ---------------------------------------------------------------------------
// Reading
// ---------------------------------------------------------------------------

fn read_number(buf: &[u8], pos: &mut usize) -> (v: u64)
    requires
        *old(pos) <= buf@.len(),
    ensures
        (v, *final(pos) as int) == number_or_zero(buf@, *old(pos) as int),
        *final(pos) <= buf@.len(),
{
    match read_varint(buf, pos) {
        Ok(v) => v,
        Err(_) => 0,
    }
}

fn read_text(buf: &[u8], pos: &mut usize) -> (s: String)
    requires
        *old(pos) <= buf@.len(),
    ensures
        (s@, *final(pos) as int) == text_or_empty(buf@, *old(pos) as int),
        *final(pos) <= buf@.len(),
{
    match read_str(buf, pos) {
        Ok(s) => s,
        Err(_) => {
            let s = String::new();
            proof {
                assert(s@ =~= Seq::empty());
            }
            s
        },
    }
}

fn skip_bytes(buf: &[u8], pos: &mut usize, n: usize)
    requires
        *old(pos) <= buf@.len(),
    ensures
        *final(pos) == skipped(buf@, *old(pos) as int, n as int),
{
    if n <= buf.len() - *pos {
        *pos = *pos + n;
    } else {
        *pos = buf.len();
    }
}

fn read_le(buf: &[u8], pos: usize) -> (n: u32)
    requires
        pos <= buf@.len(),
    ensures
        n == le_at(buf@, pos as int),
{
    if buf.len() - pos >= 4 {
        let a: u32 = buf[pos] as u32;
        let b: u32 = buf[pos + 1] as u32;
        let c: u32 = buf[pos + 2] as u32;
        let d: u32 = buf[pos + 3] as u32;
        a + 0x100 * b + 0x1_0000 * c + 0x100_0000 * d
    } else {
        0
    }
}

fn read_start(buf: &[u8], pos: &mut usize, p: &mut Parsed)
    requires
        *old(pos) <= buf@.len(),
    ensures
        (final(p)@, *final(pos) as int) == start_at(buf@, *old(pos) as int, old(p)@),
        *final(pos) <= buf@.len(),
{
    skip_bytes(buf, pos, 1);
    p.operation = read_text(buf, pos);
    p.endpoint = read_text(buf, pos);
    p.client_request_id = read_text(buf, pos);
    p.start_ns = read_number(buf, pos);
}

fn read_attempt(buf: &[u8], pos: &mut usize) -> (a: ParsedAttempt)
    requires
        *old(pos) <= buf@.len(),
    ensures
        (a@, *final(pos) as int) == attempt_at(buf@, *old(pos) as int),
        *final(pos) <= buf@.len(),
{
    let index: u32 = read_number(buf, pos) as u32;
    let status: u16 = read_number(buf, pos) as u16;
    let service_request_id = read_text(buf, pos);
    let request_charge: u32 = read_le(buf, *pos);
    skip_bytes(buf, pos, 4);
    let start_ns: u64 = read_number(buf, pos);
    let duration_ns: u64 = read_number(buf, pos);
    ParsedAttempt { index, status, service_request_id, request_charge, start_ns, duration_ns }
}

fn read_child(buf: &[u8], pos: &mut usize) -> (c: ParsedChild)
    requires
        *old(pos) <= buf@.len(),
    ensures
        (c@, *final(pos) as int) == child_at(buf@, *old(pos) as int),
        *final(pos) <= buf@.len(),
{
    let plan_node_id = read_text(buf, pos);
    let feed_range = read_text(buf, pos);
    let start_ns: u64 = read_number(buf, pos);
    let duration_ns: u64 = read_number(buf, pos);
    ParsedChild { plan_node_id, feed_range, start_ns, duration_ns }
}

fn read_end(buf: &[u8], pos: &mut usize, p: &mut Parsed)
    requires
        *old(pos) <= buf@.len(),
    ensures
        (final(p)@, *final(pos) as int) == end_at(buf@, *old(pos) as int, old(p)@),
        *final(pos) <= buf@.len(),
{
    p.outcome = if *pos < buf.len() && buf[*pos] == 1 {
        Outcome::Error
    } else {
        Outcome::Success
    };
    skip_bytes(buf, pos, 1);
    p.attempt_count = read_number(buf, pos) as u32;
    p.total_ns = read_number(buf, pos);
}

/// Reads a capture log.
pub fn parse(buf: &[u8]) -> (p: Parsed)
    ensures
        p@ == parsed_log(buf@),
{
    let mut p = Parsed {
        operation: String::new(),
        endpoint: String::new(),
        client_request_id: String::new(),
        start_ns: 0,
        attempts: Vec::new(),
        children: Vec::new(),
        outcome: Outcome::Success,
        attempt_count: 0,
        total_ns: 0,
    };
    proof {
        assert(p@ =~= ParsedModel::empty());
    }
    let mut pos: usize = 0;
    let mut known: bool = true;
    while known && pos < buf.len()
        invariant
            pos <= buf@.len(),
            known ==> parsed_log(buf@) == parsed_from(buf@, pos as int, p@),
            !known ==> parsed_log(buf@) == p@,
        decreases buf.len() - pos, (if known { 1int } else { 0 }),
    {
        let ghost before = p@;
        let ghost at = pos as int;
        proof {
            lemma_record_moves_on(buf@, at, before);
        }
        let tag: u8 = buf[pos];
        if tag == TAG_OP {
            pos = pos + 1;
            read_start(buf, &mut pos, &mut p);
        } else if tag == TAG_ATTEMPT {
            pos = pos + 1;
            let ghost attempts = p.attempts@;
            let attempt = read_attempt(buf, &mut pos);
            p.attempts.push(attempt);
            proof {
                assert(attempts_view(p.attempts@) =~= attempts_view(attempts).push(attempt@));
            }
        } else if tag == TAG_CHILD {
            pos = pos + 1;
            let ghost children = p.children@;
            let child = read_child(buf, &mut pos);
            p.children.push(child);
            proof {
                assert(children_view(p.children@) =~= children_view(children).push(child@));
            }
        } else if tag == TAG_END {
            pos = pos + 1;
            read_end(buf, &mut pos, &mut p);
        } else {
            known = false;
        }
    }
    p
}

// ---------------------------------------------------------------------------
// What was recorded reads back
// ---------------------------------------------------------------------------

/// What an event adds to what is known of an operation.
pub open spec fn told(p: ParsedModel, event: SinkEvent) -> ParsedModel {
    match event {
        SinkEvent::Start { name, endpoint, client_request_id, start_ns } => ParsedModel {
            operation: name,
            endpoint,
            client_request_id,
            start_ns,
            ..p
        },
        SinkEvent::Attempt {
            index,
            status,
            service_request_id,
            request_charge,
            start_ns,
            duration_ns,
        } => ParsedModel {
            attempts: p.attempts.push(
                ParsedAttemptModel {
                    index,
                    status,
                    service_request_id: stored_id(service_request_id),
                    request_charge: stored_charge(request_charge),
                    start_ns,
                    duration_ns,
                },
            ),
            ..p
        },
        SinkEvent::Child { index, plan_node_id, feed_range, start_ns, duration_ns } => ParsedModel {
            children: p.children.push(
                ParsedChildModel { plan_node_id, feed_range, start_ns, duration_ns },
            ),
            ..p
        },
        SinkEvent::End { outcome, attempt_count, total_ns } => ParsedModel {
            outcome,
            attempt_count,
            total_ns,
            ..p
        },
    }
}

/// What events tell of an operation.
pub open spec fn all_told(events: Seq<SinkEvent>) -> ParsedModel
    decreases events.len(),
{
    if events.len() == 0 {
        ParsedModel::empty()
    } else {
        told(all_told(events.drop_last()), events.last())
    }
}

proof fn lemma_le_reads(buf: Seq<u8>, pos: int, n: u32)
    requires
        stands_at(buf, pos, le_bytes(n)),
    ensures
        le_at(buf, pos) == n,
{
    let b = buf.subrange(pos, pos + 4);
    assert(b == le_bytes(n));
    assert(buf[pos] == b[0] && buf[pos + 1] == b[1] && buf[pos + 2] == b[2] && buf[pos + 3]
        == b[3]);
    assert(n == n % 0x100 + 0x100 * ((n / 0x100) % 0x100) + 0x1_0000 * ((n / 0x1_0000) % 0x100)
        + 0x100_0000 * (n / 0x100_0000)) by (bit_vector);
}

proof fn lemma_start_reads(
    buf: Seq<u8>,
    pos: int,
    p: ParsedModel,
    name: Seq<char>,
    endpoint: Seq<char>,
    id: Seq<char>,
    start_ns: u64,
)
    requires
        text_fits(name),
        text_fits(endpoint),
        text_fits(id),
        stands_at(
            buf,
            pos,
            record(
                SinkEvent::Start {
                    name,
                    endpoint,
                    client_request_id: id,
                    start_ns,
                },
            ),
        ),
    ensures
        record_at(buf, pos, p) == Some(
            (
                told(
                    p,
                    SinkEvent::Start { name, endpoint, client_request_id: id, start_ns },
                ),
                pos + record(
                    SinkEvent::Start { name, endpoint, client_request_id: id, start_ns },
                ).len(),
            ),
        ),
{
    let tag = seq![TAG_OP, PREAMBLE_ID];
    let a = text_bytes(name);
    let b = text_bytes(endpoint);
    let c = text_bytes(id);
    let d = varint_bytes(start_ns as nat);
    lemma_stands_split(buf, pos, tag, a + (b + (c + d)));
    assert(buf.subrange(pos, pos + 2)[0] == buf[pos]);
    let p0 = pos + 2;
    lemma_stands_split(buf, p0, a, b + (c + d));
    let p1 = p0 + a.len();
    lemma_stands_split(buf, p1, b, c + d);
    let p2 = p1 + b.len();
    lemma_stands_split(buf, p2, c, d);
    let p3 = p2 + c.len();
    lemma_text_reads(buf, p0, name);
    lemma_text_reads(buf, p1, endpoint);
    lemma_text_reads(buf, p2, id);
    lemma_varint_reads(buf, p3, start_ns as nat);
    assert(start_at(buf, pos + 1, p).1 == p3 + d.len());
}

proof fn lemma_attempt_reads(
    buf: Seq<u8>,
    pos: int,
    index: u32,
    status: u16,
    id: Seq<char>,
    single: u32,
    start_ns: u64,
    duration_ns: u64,
)
    requires
        text_fits(id),
        stands_at(buf, pos, attempt_record(index, status, id, single, start_ns, duration_ns)),
    ensures
        buf[pos] == TAG_ATTEMPT,
        attempt_at(buf, pos + 1) == (
            ParsedAttemptModel {
                index,
                status,
                service_request_id: id,
                request_charge: single,
                start_ns,
                duration_ns,
            },
            pos + attempt_record(index, status, id, single, start_ns, duration_ns).len(),
        ),
{
    let tag = seq![TAG_ATTEMPT];
    let a = varint_bytes(index as nat);
    let b = varint_bytes(status as nat);
    let c = text_bytes(id);
    let d = le_bytes(single);
    let e = varint_bytes(start_ns as nat);
    let f = varint_bytes(duration_ns as nat);
    lemma_stands_split(buf, pos, tag, a + (b + (c + (d + (e + f)))));
    assert(buf.subrange(pos, pos + 1)[0] == buf[pos]);
    let p0 = pos + 1;
    lemma_stands_split(buf, p0, a, b + (c + (d + (e + f))));
    let p1 = p0 + a.len();
    lemma_stands_split(buf, p1, b, c + (d + (e + f)));
    let p2 = p1 + b.len();
    lemma_stands_split(buf, p2, c, d + (e + f));
    let p3 = p2 + c.len();
    lemma_stands_split(buf, p3, d, e + f);
    let p4 = p3 + 4;
    lemma_stands_split(buf, p4, e, f);
    let p5 = p4 + e.len();
    lemma_varint_reads(buf, p0, index as nat);
    lemma_varint_reads(buf, p1, status as nat);
    lemma_text_reads(buf, p2, id);
    lemma_le_reads(buf, p3, single);
    lemma_varint_reads(buf, p4, start_ns as nat);
    lemma_varint_reads(buf, p5, duration_ns as nat);
    assert(skipped(buf, p3, 4) == p4);
}

proof fn lemma_child_reads(
    buf: Seq<u8>,
    pos: int,
    index: u32,
    plan_node_id: Seq<char>,
    feed_range: Seq<char>,
    start_ns: u64,
    duration_ns: u64,
)
    requires
        text_fits(plan_node_id),
        text_fits(feed_range),
        stands_at(
            buf,
            pos,
            record(
                SinkEvent::Child { index, plan_node_id, feed_range, start_ns, duration_ns },
            ),
        ),
    ensures
        buf[pos] == TAG_CHILD,
        child_at(buf, pos + 1) == (
            ParsedChildModel { plan_node_id, feed_range, start_ns, duration_ns },
            pos + record(
                SinkEvent::Child { index, plan_node_id, feed_range, start_ns, duration_ns },
            ).len(),
        ),
{
    let tag = seq![TAG_CHILD];
    let a = text_bytes(plan_node_id);
    let b = text_bytes(feed_range);
    let c = varint_bytes(start_ns as nat);
    let d = varint_bytes(duration_ns as nat);
    lemma_stands_split(buf, pos, tag, a + (b + (c + d)));
    assert(buf.subrange(pos, pos + 1)[0] == buf[pos]);
    let p0 = pos + 1;
    lemma_stands_split(buf, p0, a, b + (c + d));
    let p1 = p0 + a.len();
    lemma_stands_split(buf, p1, b, c + d);
    let p2 = p1 + b.len();
    lemma_stands_split(buf, p2, c, d);
    let p3 = p2 + c.len();
    lemma_text_reads(buf, p0, plan_node_id);
    lemma_text_reads(buf, p1, feed_range);
    lemma_varint_reads(buf, p2, start_ns as nat);
    lemma_varint_reads(buf, p3, duration_ns as nat);
}

proof fn lemma_end_reads(
    buf: Seq<u8>,
    pos: int,
    p: ParsedModel,
    outcome: Outcome,
    attempt_count: u32,
    total_ns: u64,
)
    requires
        stands_at(buf, pos, record(SinkEvent::End { outcome, attempt_count, total_ns })),
    ensures
        record_at(buf, pos, p) == Some(
            (
                told(p, SinkEvent::End { outcome, attempt_count, total_ns }),
                pos + record(SinkEvent::End { outcome, attempt_count, total_ns }).len(),
            ),
        ),
{
    let tag = seq![TAG_END, outcome_code(outcome)];
    let a = varint_bytes(attempt_count as nat);
    let b = varint_bytes(total_ns as nat);
    lemma_stands_split(buf, pos, tag, a + b);
    assert(buf.subrange(pos, pos + 2)[0] == buf[pos]);
    assert(buf.subrange(pos, pos + 2)[1] == buf[pos + 1]);
    let p0 = pos + 2;
    lemma_stands_split(buf, p0, a, b);
    let p1 = p0 + a.len();
    lemma_varint_reads(buf, p0, attempt_count as nat);
    lemma_varint_reads(buf, p1, total_ns as nat);
    assert(end_at(buf, pos + 1, p).1 == p1 + b.len());
}

/// A record that was appended reads back as its event.
proof fn lemma_record_reads(buf: Seq<u8>, pos: int, p: ParsedModel, event: SinkEvent)
    requires
        event_fits(event),
        stands_at(buf, pos, record(event)),
    ensures
        record_at(buf, pos, p) == Some((told(p, event), pos + record(event).len())),
{
    match event {
        SinkEvent::Start { name, endpoint, client_request_id, start_ns } => {
            lemma_start_reads(buf, pos, p, name, endpoint, client_request_id, start_ns);
        },
        SinkEvent::Attempt {
            index,
            status,
            service_request_id,
            request_charge,
            start_ns,
            duration_ns,
        } => {
            lemma_attempt_reads(
                buf,
                pos,
                index,
                status,
                stored_id(service_request_id),
                stored_charge(request_charge),
                start_ns,
                duration_ns,
            );
        },
        SinkEvent::Child { index, plan_node_id, feed_range, start_ns, duration_ns } => {
            lemma_child_reads(
                buf,
                pos,
                index,
                plan_node_id,
                feed_range,
                start_ns,
                duration_ns,
            );
        },
        SinkEvent::End { outcome, attempt_count, total_ns } => {
            lemma_end_reads(buf, pos, p, outcome, attempt_count, total_ns);
        },
    }
}

/// The log after some events.
pub open spec fn log_after(events: Seq<SinkEvent>) -> LogModel {
    after_events::<Combo4Sink>(LogModel::empty(), events)
}

/// Reading goes on behind a record that was appended.
proof fn lemma_record_parsed(buf: Seq<u8>, pos: int, p: ParsedModel, event: SinkEvent)
    requires
        event_fits(event),
        stands_at(buf, pos, record(event)),
    ensures
        parsed_from(buf, pos, p) == parsed_from(buf, pos + record(event).len(), told(p, event)),
{
    lemma_record_reads(buf, pos, p, event);
    assert(record(event).len() > 0);
}

/// The record of an event stands behind the log of the events before it.
proof fn lemma_record_stands(events: Seq<SinkEvent>, m: nat)
    requires
        m < events.len(),
        log_after(events).fits,
    ensures
        ({
            let whole = log_after(events).bytes;
            let before = log_after(events.take(m as int)).bytes;
            let after = log_after(events.take((m + 1) as int)).bytes;
            &&& stands_at(whole, before.len() as int, record(events[m as int]))
            &&& after.len() == before.len() + record(events[m as int]).len()
            &&& event_fits(events[m as int])
        }),
{
    let whole = log_after(events).bytes;
    let before = log_after(events.take(m as int)).bytes;
    let longer = events.take((m + 1) as int);
    let after = log_after(longer).bytes;
    let event = events[m as int];
    lemma_log_prefix(events, m + 1);
    assert(longer.drop_last() =~= events.take(m as int));
    assert(longer.last() == event);
    assert(after == before + record(event));
    assert(whole.subrange(before.len() as int, after.len() as int) =~= whole.take(
        after.len() as int,
    ).skip(before.len() as int));
    assert(after.skip(before.len() as int) =~= record(event));
}

/// Reading the log of all events comes, after the first `n`, to where the log of those ends.
proof fn lemma_log_reads_so_far(events: Seq<SinkEvent>, n: nat)
    requires
        n <= events.len(),
        log_after(events).fits,
    ensures
        parsed_log(log_after(events).bytes) == parsed_from(
            log_after(events).bytes,
            log_after(events.take(n as int)).bytes.len() as int,
            all_told(events.take(n as int)),
        ),
    decreases n,
{
    if n == 0 {
        assert(events.take(0) =~= Seq::empty());
    } else {
        let m = (n - 1) as nat;
        let upto = events.take(m as int);
        lemma_log_reads_so_far(events, m);
        lemma_record_stands(events, m);
        lemma_record_parsed(
            log_after(events).bytes,
            log_after(upto).bytes.len() as int,
            all_told(upto),
            events[m as int],
        );
        assert(events.take(n as int).drop_last() =~= upto);
        assert(events.take(n as int).last() == events[m as int]);
    }
}

/// The log of the first events is a prefix of the log of all of them.
proof fn lemma_log_prefix(events: Seq<SinkEvent>, n: nat)
    requires
        n <= events.len(),
        log_after(events).fits,
    ensures
        ({
            let whole = log_after(events).bytes;
            let part = log_after(events.take(n as int)).bytes;
            &&& part.len() <= whole.len()
            &&& whole.take(part.len() as int) == part
            &&& log_after(events.take(n as int)).fits
            &&& n > 0 ==> event_fits(events[n - 1])
        }),
    decreases events.len() - n,
{
    let whole = log_after(events).bytes;
    let part = log_after(events.take(n as int)).bytes;
    if n == events.len() {
        assert(events.take(n as int) =~= events);
        assert(whole.take(whole.len() as int) =~= whole);
    } else {
        lemma_log_prefix(events, n + 1);
        let longer = events.take((n + 1) as int);
        assert(longer.drop_last() =~= events.take(n as int));
        let next = log_after(longer).bytes;
        assert(next == part + record(longer.last()));
        assert(whole.take(part.len() as int) =~= whole.take(next.len() as int).take(
            part.len() as int,
        ));
        assert(next.take(part.len() as int) =~= part);
    }
    if n > 0 {
        let upto = events.take(n as int);
        assert(upto.drop_last() =~= events.take(n - 1));
        assert(upto.last() == events[n - 1]);
    }
}

/// A capture log keeps everything that is recorded: reading the log of some events gives what the
/// events told. The events are those whose texts are short enough for their lengths to be
/// written.
pub proof fn law_log_reads_back(events: Seq<SinkEvent>)
    requires
        log_after(events).fits,
    ensures
        parsed_log(log_after(events).bytes) == all_told(events),
{
    lemma_log_reads_so_far(events, events.len());
    assert(events.take(events.len() as int) =~= events);
}

// ---------------------------------------------------------------------------
// What a log says of an operation
// ---------------------------------------------------------------------------

/// What a log says of attempt `i` of an operation that starts at `now`.
pub open spec fn logged_attempt(
    input: InputModel,
    response: ResponseModel,
    now: u64,
    i: int,
) -> ParsedAttemptModel {
    ParsedAttemptModel {
        index: i as u32,
        status: response.status,
        service_request_id: stored_id(response.service_request_id),
        request_charge: stored_charge(response.request_charge),
        start_ns: (now + input.attempts_ns(i as nat)) as u64,
        duration_ns: input.attempts[i].duration_ns,
    }
}

/// What a log says of child `i` of an operation whose children start at `now`.
pub open spec fn logged_child(input: InputModel, now: u64, i: int) -> ParsedChildModel {
    ParsedChildModel {
        plan_node_id: input.children[i].plan_node_id,
        feed_range: input.children[i].feed_range,
        start_ns: (now + input.children_ns(i as nat)) as u64,
        duration_ns: input.children[i].duration_ns,
    }
}

/// What a log says of an operation that starts at `now` and gets these responses.
pub open spec fn logged(
    input: InputModel,
    responses: Seq<ResponseModel>,
    now: u64,
) -> ParsedModel {
    ParsedModel {
        operation: input.name,
        endpoint: input.endpoint,
        client_request_id: input.client_request_id,
        start_ns: now,
        attempts: Seq::new(
            input.attempts.len(),
            |i: int| logged_attempt(input, responses[i], now, i),
        ),
        children: Seq::new(
            input.children.len(),
            |i: int| logged_child(input, children_start(input, now), i),
        ),
        outcome: input.outcome(),
        attempt_count: input.attempts.len() as u32,
        total_ns: input.total_ns() as u64,
    }
}

proof fn lemma_attempts_told(
    input: InputModel,
    responses: Seq<ResponseModel>,
    now: u64,
    n: nat,
)
    ensures
        all_told(seq![start_event(input, now)] + attempt_events(input, responses, now, n)) == (
        ParsedModel {
            operation: input.name,
            endpoint: input.endpoint,
            client_request_id: input.client_request_id,
            start_ns: now,
            attempts: Seq::new(n, |i: int| logged_attempt(input, responses[i], now, i)),
            ..ParsedModel::empty()
        }),
    decreases n,
{
    let opening = seq![start_event(input, now)];
    let events = opening + attempt_events(input, responses, now, n);
    let attempts = Seq::new(n, |i: int| logged_attempt(input, responses[i], now, i));
    if n == 0 {
        assert(events.drop_last() =~= Seq::empty());
        assert(events.last() == start_event(input, now));
        assert(all_told(events.drop_last()) == ParsedModel::empty());
        assert(attempts =~= Seq::empty());
    } else {
        let i = n - 1;
        lemma_attempts_told(input, responses, now, i as nat);
        assert(events.drop_last() =~= opening + attempt_events(input, responses, now, i as nat));
        assert(events.last() == attempt_event(input, responses[i], now, i));
        assert(Seq::new(i as nat, |k: int| logged_attempt(input, responses[k], now, k)).push(
            attempts[i],
        ) =~= attempts);
    }
}

proof fn lemma_children_told(opening: Seq<SinkEvent>, input: InputModel, now: u64, n: nat)
    requires
        all_told(opening).children.len() == 0,
    ensures
        all_told(opening + child_events(input, now, n)) == (ParsedModel {
            children: Seq::new(n, |i: int| logged_child(input, now, i)),
            ..all_told(opening)
        }),
    decreases n,
{
    let events = opening + child_events(input, now, n);
    let children = Seq::new(n, |i: int| logged_child(input, now, i));
    if n == 0 {
        assert(events =~= opening);
        assert(children =~= all_told(opening).children);
    } else {
        let i = n - 1;
        lemma_children_told(opening, input, now, i as nat);
        assert(events.drop_last() =~= opening + child_events(input, now, i as nat));
        assert(events.last() == child_event(input, now, i));
        assert(Seq::new(i as nat, |k: int| logged_child(input, now, k)).push(children[i])
            =~= children);
    }
}

/// The events of an operation tell all of it.
proof fn lemma_operation_told(input: InputModel, responses: Seq<ResponseModel>, now: u64)
    requires
        responses.len() == input.attempts.len(),
    ensures
        all_told(operation_events(input, responses, now)) == logged(input, responses, now),
{
    let opening = seq![start_event(input, now)] + attempt_events(
        input,
        responses,
        now,
        input.attempts.len(),
    );
    let start = children_start(input, now);
    let events = operation_events(input, responses, now);
    lemma_attempts_told(input, responses, now, input.attempts.len());
    lemma_children_told(opening, input, start, input.children.len());
    assert(events.drop_last() =~= opening + child_events(input, start, input.children.len()));
    assert(events.last() == end_event(input));
}

/// What the log itself remembers of the end of an operation.
proof fn lemma_log_end(input: InputModel, responses: Seq<ResponseModel>, now: u64)
    ensures
        ({
            let log = log_after(operation_events(input, responses, now));
            &&& log.outcome == input.outcome()
            &&& log.total_ns == input.total_ns() as u64
            &&& log.attempt_count == input.attempts.len() as u32
        }),
{
    let events = operation_events(input, responses, now);
    assert(events.last() == end_event(input));
}

/// The capture log of an operation reads back as the operation: every attempt with what its
/// response carried, every child, how it ended and how long it took. Of a service request id that
/// a response lacked, an empty one is read; of a charge, zero.
pub proof fn law_log_keeps_the_operation(
    input: InputModel,
    responses: Seq<ResponseModel>,
    now: u64,
)
    requires
        responses.len() == input.attempts.len(),
        log_after(operation_events(input, responses, now)).fits,
    ensures
        ({
            let log = log_after(operation_events(input, responses, now));
            &&& parsed_log(log.bytes) == logged(input, responses, now)
            &&& log.outcome == input.outcome()
            &&& log.total_ns == input.total_ns() as u64
            &&& log.attempt_count == input.attempts.len() as u32
        }),
{
    law_log_reads_back(operation_events(input, responses, now));
    lemma_operation_told(input, responses, now);
    lemma_log_end(input, responses, now);
}

} // verus!
