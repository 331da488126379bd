//! Tiered output: a small summary by default, and the full detail on demand or on error.
//!
//! The default output is a summary that people can read and that can be aggregated. The complete
//! span tree, as a binary blob, is produced only on demand, or by itself on error.

use vstd::prelude::*;
use vstd::string::*;

use crate::charge::Charge;
use crate::clock::MockClock;
use crate::combo1::{law_arena_keeps_the_operation, Combo1Model, Combo1Sink};
use crate::combo2::model::{
    attempts_view, children_view, AttemptRecModel, CapturedModel, ChildRecModel,
};
use crate::combo2::summary::summary_of;
use crate::laws::times::{law_what_can_run, time_of};
use crate::laws::trees::{law_trees_tell_the_script, tells_script};
use crate::scenarios::{
    after_events, attempt_event, attempt_events, child_event, child_events, children_start,
    closing_events, drive_sink, law_events_compose, operation_events, scripted_responses,
    start_event, DiagSink, InputModel, OperationInput, Outcome, ResponseModel, SinkEvent,
};
use crate::spans::{attempt_nodes, child_nodes, detailed_tree, scripted_tree};
use crate::wire::{
    auto_compresses, decoded, encode_auto, is_encoding, DecodeError, TreeModel, WireTree,
};

pub mod model;
pub mod summary;

pub use crate::combo2::model::{AttemptRec, Captured, ChildRec};
pub use crate::combo2::summary::{reduce, Summary, SummaryThresholds, TopError};

verus! {

/// The name of this design in samples and bench rows.
pub const COMBO: &'static str = "combo2";

/// How much detail is asked for.
#[derive(Clone, Copy, Debug, PartialEq, Eq, Structural)]
pub enum Verbosity {
    /// Only the summary.
    Summary,
    /// The full detailed span tree (binary).
    Detailed,
}

/// Applies the rule that errors escalate: a request for a summary becomes one for the detail when
/// the operation failed, so that the diagnostics of an error are never lossy.
pub open spec fn escalated(requested: Verbosity, succeeded: bool) -> Verbosity {
    if succeeded {
        requested
    } else {
        Verbosity::Detailed
    }
}

/// Applies the rule that errors escalate: a request for a summary becomes one for the detail when
/// the operation failed, so that the diagnostics of an error are never lossy.
pub fn effective_verbosity(requested: Verbosity, succeeded: bool) -> (v: Verbosity)
    ensures
        v == escalated(requested, succeeded),
{
    match requested {
        Verbosity::Detailed => Verbosity::Detailed,
        Verbosity::Summary => {
            if succeeded {
                Verbosity::Summary
            } else {
                Verbosity::Detailed
            }
        },
    }
}

/// The rendered diagnostics of one operation.
#[derive(Clone, Debug)]
pub enum Rendered {
    /// The summary alone.
    Summary {
        /// The summary in compact JSON.
        json: Vec<u8>,
    },
    /// The summary and the full detail.
    Detailed {
        /// The summary in compact JSON.
        json: Vec<u8>,
        /// The full span tree as an `AZD1` blob.
        blob: Vec<u8>,
    },
}

impl Rendered {
    /// The summary JSON, which both tiers have.
    pub open spec fn json(self) -> Seq<u8> {
        match self {
            Rendered::Summary { json } => json@,
            Rendered::Detailed { json, blob } => json@,
        }
    }

    /// The detailed blob, which only the detailed tier has.
    pub open spec fn blob(self) -> Option<Seq<u8>> {
        match self {
            Rendered::Summary { json } => None,
            Rendered::Detailed { json, blob } => Some(blob@),
        }
    }

    /// The summary JSON, which both tiers have.
    pub fn summary_json(&self) -> (bytes: &[u8])
        ensures
            bytes@ == self.json(),
    {
        match self {
            Rendered::Summary { json } => json.as_slice(),
            Rendered::Detailed { json, .. } => json.as_slice(),
        }
    }

    /// The detailed blob, which only the detailed tier has.
    pub fn detailed_blob(&self) -> (bytes: Option<&[u8]>)
        ensures
            match bytes {
                Some(b) => self.blob() == Some(b@),
                None => self.blob() is None,
            },
    {
        match self {
            Rendered::Detailed { blob, .. } => Some(blob.as_slice()),
            Rendered::Summary { .. } => None,
        }
    }
}

/// A [`DiagSink`] that records into the retained model.
#[derive(Debug)]
pub struct Combo2Sink {
    captured: Captured,
}

impl Default for Combo2Sink {
    fn default() -> (sink: Self)
        ensures
            sink.model() == CapturedModel::empty(),
    {
        Combo2Sink { captured: Captured::default() }
    }
}

impl Combo2Sink {
    /// Consumes the sink and returns the retained model.
    pub fn into_captured(self) -> (captured: Captured)
        ensures
            captured@ == self.model(),
    {
        self.captured
    }
}

impl DiagSink for Combo2Sink {
    type Model = CapturedModel;

    closed spec fn model(&self) -> CapturedModel {
        self.captured@
    }

    open spec fn step(m: CapturedModel, event: SinkEvent) -> CapturedModel {
        match event {
            SinkEvent::Start { name, endpoint, client_request_id, start_ns } => CapturedModel {
                operation: name,
                endpoint,
                client_request_id,
                start_ns,
                ..m
            },
            SinkEvent::Attempt {
                index,
                status,
                service_request_id,
                request_charge,
                start_ns,
                duration_ns,
            } => CapturedModel {
                attempts: m.attempts.push(
                    AttemptRecModel {
                        index,
                        status,
                        service_request_id,
                        request_charge,
                        start_ns,
                        duration_ns,
                    },
                ),
                ..m
            },
            SinkEvent::Child { index, plan_node_id, feed_range, start_ns, duration_ns } =>
                CapturedModel {
                children: m.children.push(
                    ChildRecModel { plan_node_id, feed_range, start_ns, duration_ns },
                ),
                ..m
            },
            SinkEvent::End { outcome, attempt_count, total_ns } => CapturedModel {
                succeeded: outcome == Outcome::Success,
                attempt_count,
                total_ns,
                ..m
            },
        }
    }

    fn op_start(&mut self, input: &OperationInput, start_ns: u64) {
        self.captured.operation = input.name.to_owned();
        self.captured.endpoint = input.endpoint.to_owned();
        self.captured.client_request_id = input.client_request_id.to_owned();
        self.captured.start_ns = start_ns;
    }

    fn attempt(
        &mut self,
        attempt_index: u32,
        status: u16,
        service_request_id: Option<&str>,
        request_charge: Option<&Charge>,
        start_ns: u64,
        duration_ns: u64,
    ) {
        let ghost before = self.captured.attempts@;
        let id: Option<String> = match service_request_id {
            Some(s) => Some(s.to_owned()),
            None => None,
        };
        let charge: Option<Charge> = match request_charge {
            Some(c) => Some(c.clone()),
            None => None,
        };
        self.captured.attempts.push(
            AttemptRec {
                index: attempt_index,
                status,
                service_request_id: id,
                request_charge: charge,
                start_ns,
                duration_ns,
            },
        );
        proof {
            let after = self.captured.attempts@;
            assert(attempts_view(after) =~= attempts_view(before).push(after.last()@));
        }
    }

    fn child(
        &mut self,
        _child_index: u32,
        plan_node_id: &str,
        feed_range: &str,
        start_ns: u64,
        duration_ns: u64,
    ) {
        let ghost before = self.captured.children@;
        self.captured.children.push(
            ChildRec {
                plan_node_id: plan_node_id.to_owned(),
                feed_range: feed_range.to_owned(),
                start_ns,
                duration_ns,
            },
        );
        proof {
            let after = self.captured.children@;
            assert(children_view(after) =~= children_view(before).push(after.last()@));
        }
    }

    fn op_end(&mut self, outcome: Outcome, attempt_count: u32, total_ns: u64) {
        self.captured.succeeded = outcome == Outcome::Success;
        self.captured.attempt_count = attempt_count;
        self.captured.total_ns = total_ns;
    }
}

// ---------------------------------------------------------------------------
// What is retained of an operation
// ---------------------------------------------------------------------------

/// The record of attempt `i` of an operation that starts at `now`.
pub open spec fn attempt_record(
    input: InputModel,
    response: ResponseModel,
    now: u64,
    i: int,
) -> AttemptRecModel {
    AttemptRecModel {
        index: i as u32,
        status: response.status,
        service_request_id: response.service_request_id,
        request_charge: response.request_charge,
        start_ns: (now + input.attempts_ns(i as nat)) as u64,
        duration_ns: input.attempts[i].duration_ns,
    }
}

/// The record of child `i` of an operation whose children start at `now`.
pub open spec fn child_record(input: InputModel, now: u64, i: int) -> ChildRecModel {
    ChildRecModel {
        plan_node_id: input.children[i].plan_node_id,
        feed_range: input.children[i].feed_range,
        start_ns: (now + input.children_ns(i as nat)) as u64,
        duration_ns: input.children[i].duration_ns,
    }
}

/// What is retained of an operation that starts at `now` and gets these responses.
pub open spec fn retained(
    input: InputModel,
    responses: Seq<ResponseModel>,
    now: u64,
) -> CapturedModel {
    CapturedModel {
        operation: input.name,
        endpoint: input.endpoint,
        client_request_id: input.client_request_id,
        attempts: Seq::new(
            input.attempts.len(),
            |i: int| attempt_record(input, responses[i], now, i),
        ),
        children: Seq::new(
            input.children.len(),
            |i: int| child_record(input, children_start(input, now), i),
        ),
        attempt_count: input.attempts.len() as u32,
        succeeded: input.succeeded(),
        start_ns: now,
        total_ns: input.total_ns() as u64,
    }
}

/// What the first `n` attempts leave.
proof fn lemma_attempts_retained(
    input: InputModel,
    responses: Seq<ResponseModel>,
    now: u64,
    n: nat,
)
    ensures
        after_events::<Combo2Sink>(
            CapturedModel::empty(),
            seq![start_event(input, now)] + attempt_events(input, responses, now, n),
        ) == (CapturedModel {
            operation: input.name,
            endpoint: input.endpoint,
            client_request_id: input.client_request_id,
            start_ns: now,
            attempts: Seq::new(n, |i: int| attempt_record(input, responses[i], now, i)),
            ..CapturedModel::empty()
        }),
    decreases n,
{
    let opening = seq![start_event(input, now)];
    let events = opening + attempt_events(input, responses, now, n);
    let records = Seq::new(n, |i: int| attempt_record(input, responses[i], now, i));
    if n == 0 {
        assert(events.drop_last() =~= Seq::empty());
        assert(events.last() == start_event(input, now));
        assert(after_events::<Combo2Sink>(CapturedModel::empty(), events.drop_last())
            == CapturedModel::empty());
        assert(records =~= Seq::empty());
    } else {
        let i = n - 1;
        lemma_attempts_retained(input, responses, now, i as nat);
        assert(events.drop_last() =~= opening + attempt_events(input, responses, now, i as nat));
        assert(events.last() == attempt_event(input, responses[i], now, i));
        assert(Seq::new(i as nat, |k: int| attempt_record(input, responses[k], now, k)).push(
            records[i],
        ) =~= records);
    }
}

/// What the first `n` children add.
proof fn lemma_children_retained(m: CapturedModel, input: InputModel, now: u64, n: nat)
    requires
        m.children.len() == 0,
    ensures
        after_events::<Combo2Sink>(m, child_events(input, now, n)) == (CapturedModel {
            children: Seq::new(n, |i: int| child_record(input, now, i)),
            ..m
        }),
    decreases n,
{
    let events = child_events(input, now, n);
    let records = Seq::new(n, |i: int| child_record(input, now, i));
    if n == 0 {
        assert(records =~= m.children);
    } else {
        let i = n - 1;
        lemma_children_retained(m, input, now, i as nat);
        assert(events.drop_last() =~= child_events(input, now, i as nat));
        assert(events.last() == child_event(input, now, i));
        assert(Seq::new(i as nat, |k: int| child_record(input, now, k)).push(records[i])
            =~= records);
    }
}

/// Recording an operation retains all of it: its name, every attempt with what its response
/// carried, every child, how it ended and how long it took.
pub proof fn law_model_retains_the_operation(
    input: InputModel,
    responses: Seq<ResponseModel>,
    now: u64,
)
    requires
        responses.len() == input.attempts.len(),
    ensures
        after_events::<Combo2Sink>(
            CapturedModel::empty(),
            operation_events(input, responses, now),
        ) == retained(input, responses, now),
{
    let opening = seq![start_event(input, now)] + attempt_events(
        input,
        responses,
        now,
        input.attempts.len(),
    );
    let empty = CapturedModel::empty();
    let start = children_start(input, now);
    law_events_compose::<Combo2Sink>(empty, opening, closing_events(input, now));
    lemma_attempts_retained(input, responses, now, input.attempts.len());
    let attempted = after_events::<Combo2Sink>(empty, opening);
    lemma_children_retained(attempted, input, start, input.children.len());
    assert(closing_events(input, now).drop_last() =~= child_events(
        input,
        start,
        input.children.len(),
    ));
}

/// The detailed tree of what is retained is the detailed tree of the operation.
pub proof fn law_retained_tree(input: InputModel, responses: Seq<ResponseModel>, now: u64)
    requires
        responses.len() == input.attempts.len(),
    ensures
        retained(input, responses, now).tree() == detailed_tree(input, responses, now),
{
    let c = retained(input, responses, now);
    assert(c.attempts.map_values(|a: AttemptRecModel| a.node()) =~= attempt_nodes(
        input,
        responses,
        now,
        input.attempts.len(),
    ));
    assert(c.children.map_values(|r: ChildRecModel| r.node()) =~= child_nodes(
        input,
        children_start(input, now),
        input.children.len(),
    ));
}

/// The retained model and the arena give the same detailed tree for the same operation, as long
/// as the nodes of the arena can be told apart by their ids.
pub proof fn law_designs_agree(input: InputModel, responses: Seq<ResponseModel>, now: u64)
    requires
        responses.len() == input.attempts.len(),
        input.attempts.len() + input.children.len() <= u32::MAX,
    ensures
        after_events::<Combo2Sink>(
            CapturedModel::empty(),
            operation_events(input, responses, now),
        ).tree() == after_events::<Combo1Sink>(
            Combo1Model::empty(),
            operation_events(input, responses, now),
        ).arena.wire(),
{
    law_model_retains_the_operation(input, responses, now);
    law_retained_tree(input, responses, now);
    law_arena_keeps_the_operation(input, responses, now);
}

/// The diagnostics of an error are never lossy, and a success stays as cheap as was asked for.
pub proof fn law_errors_escalate(requested: Verbosity)
    ensures
        escalated(requested, false) == Verbosity::Detailed,
        escalated(requested, true) == requested,
{
}

// ---------------------------------------------------------------------------
// Collecting and rendering
// ---------------------------------------------------------------------------

/// Collects diagnostics into the retained model.
pub fn collect(input: &OperationInput, clock: &mut MockClock) -> (captured: Captured)
    requires
        input@.runs_from(old(clock)@),
    ensures
        final(clock)@ == old(clock)@ + input@.total_ns(),
        captured@ == retained(input@, scripted_responses(input@), old(clock)@),
        captured@.tree() == scripted_tree(input@, old(clock)@),
        captured.start_ns == old(clock)@,
        captured.total_ns == final(clock)@ - old(clock)@,
        captured.total_ns == time_of(input@),
        captured.attempts@.len() == input.attempts@.len(),
        captured.children@.len() == input.children@.len(),
        input@.attempts.len() + input@.children.len() <= u32::MAX ==> tells_script(
            captured@.tree(),
            input@,
            old(clock)@,
        ),
{
    let mut sink = Combo2Sink::default();
    proof {
        law_what_can_run(input@, clock@);
        crate::laws::times::law_time_adds_up(input@);
        if input@.attempts.len() + input@.children.len() <= u32::MAX {
            law_trees_tell_the_script(input@, clock@);
        }
        law_model_retains_the_operation(input@, scripted_responses(input@), clock@);
        law_retained_tree(input@, scripted_responses(input@), clock@);
    }
    drive_sink(input, &mut sink, clock);
    sink.into_captured()
}

/// Builds the summary view. `total` is the bit pattern of the sum of the charge terms.
pub fn summarize(captured: &Captured, thresholds: &SummaryThresholds, total: u64) -> (s: Summary)
    requires
        captured@.attempts.len() <= u32::MAX,
    ensures
        s@ == summary_of(
            captured@,
            thresholds.slow_attempt_ns,
            thresholds.request_charge_ru,
            total,
        ),
{
    reduce(captured, thresholds, total)
}

/// Builds the detailed span tree.
pub fn detailed_wire(captured: &Captured) -> (tree: WireTree)
    ensures
        tree@ == captured@.tree(),
{
    captured.to_wire()
}

/// Encodes the detailed span tree to the binary blob.
pub fn detailed_blob(captured: &Captured) -> (blob: Vec<u8>)
    ensures
        is_encoding(blob@, captured@.tree(), auto_compresses(captured@.tree())),
        decoded(blob@) == Ok::<TreeModel, DecodeError>(captured@.tree()),
{
    encode_auto(&captured.to_wire())
}

/// Renders what was collected, with the detail that was asked for and the rule that errors
/// escalate. `json` is the summary in JSON.
pub fn render(captured: &Captured, requested: Verbosity, json: Vec<u8>) -> (r: Rendered)
    ensures
        r.json() == json@,
        r.blob() is Some <==> escalated(requested, captured@.succeeded) == Verbosity::Detailed,
        r.blob() matches Some(blob) ==> {
            &&& is_encoding(blob, captured@.tree(), auto_compresses(captured@.tree()))
            &&& decoded(blob) == Ok::<TreeModel, DecodeError>(captured@.tree())
        },
{
    match effective_verbosity(requested, captured.succeeded) {
        Verbosity::Summary => Rendered::Summary { json },
        Verbosity::Detailed => {
            let blob = detailed_blob(captured);
            Rendered::Detailed { json, blob }
        },
    }
}

} // verus!
