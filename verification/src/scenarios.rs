//! Scripted operations, the [`DiagSink`] that a capture design implements, and the drivers that
//! feed a script to a sink.
//!
//! [`drive_sink`] feeds a sink straight from the script. [`Drive`] takes the same path one step at
//! a time, so that a caller can fetch each attempt's response from elsewhere between the steps.

use vstd::prelude::*;

use crate::charge::{Charge, ChargeModel};
use crate::clock::MockClock;
use crate::status::{is_success_status, status_succeeds};
use crate::text::{
    concatenation, decimal, decimal_text, digits, joined, padded_decimal_text, padded_hex_text,
    zero_padded,
};

verus! {

/// One scripted HTTP attempt within an operation.
#[derive(Clone, Debug)]
pub struct AttemptScript {
    /// HTTP status code that this attempt returns.
    pub status: u16,
    /// Service request id of the response.
    pub service_request_id: &'static str,
    /// Request charge of the response.
    pub request_charge: Charge,
    /// How long this attempt takes (ns).
    pub duration_ns: u64,
}

/// What an [`AttemptScript`] holds.
#[verifier::ext_equal]
pub struct AttemptModel {
    pub status: u16,
    pub service_request_id: Seq<char>,
    pub request_charge: ChargeModel,
    pub duration_ns: u64,
}

impl View for AttemptScript {
    type V = AttemptModel;

    open spec fn view(&self) -> AttemptModel {
        AttemptModel {
            status: self.status,
            service_request_id: self.service_request_id@,
            request_charge: self.request_charge@,
            duration_ns: self.duration_ns,
        }
    }
}

/// One scripted child span (fan-out / routing node), child of the operation root.
#[derive(Clone, Debug)]
pub struct ChildScript {
    /// The query-plan tree node id.
    pub plan_node_id: String,
    /// The feed range that this child addresses.
    pub feed_range: String,
    /// How long this child span takes (ns).
    pub duration_ns: u64,
}

/// What a [`ChildScript`] holds.
#[verifier::ext_equal]
pub struct ChildModel {
    pub plan_node_id: Seq<char>,
    pub feed_range: Seq<char>,
    pub duration_ns: u64,
}

impl View for ChildScript {
    type V = ChildModel;

    open spec fn view(&self) -> ChildModel {
        ChildModel {
            plan_node_id: self.plan_node_id@,
            feed_range: self.feed_range@,
            duration_ns: self.duration_ns,
        }
    }
}

/// A fully scripted operation.
#[derive(Clone, Debug)]
pub struct OperationInput {
    /// Operation name (such as `read_item`).
    pub name: &'static str,
    /// Service endpoint URL.
    pub endpoint: &'static str,
    /// Client-generated request id.
    pub client_request_id: &'static str,
    /// The HTTP attempts, in order.
    pub attempts: Vec<AttemptScript>,
    /// Fan-out child spans.
    pub children: Vec<ChildScript>,
}

/// What an [`OperationInput`] holds.
#[verifier::ext_equal]
pub struct InputModel {
    pub name: Seq<char>,
    pub endpoint: Seq<char>,
    pub client_request_id: Seq<char>,
    pub attempts: Seq<AttemptModel>,
    pub children: Seq<ChildModel>,
}

impl View for OperationInput {
    type V = InputModel;

    open spec fn view(&self) -> InputModel {
        InputModel {
            name: self.name@,
            endpoint: self.endpoint@,
            client_request_id: self.client_request_id@,
            attempts: Seq::new(self.attempts@.len(), |i: int| self.attempts@[i]@),
            children: Seq::new(self.children@.len(), |i: int| self.children@[i]@),
        }
    }
}

impl InputModel {
    /// The final attempt succeeded.
    pub open spec fn succeeded(self) -> bool {
        self.attempts.len() > 0 && is_success_status(self.attempts.last().status)
    }

    /// How the operation ends.
    pub open spec fn outcome(self) -> Outcome {
        if self.succeeded() {
            Outcome::Success
        } else {
            Outcome::Error
        }
    }

    /// How long the first `n` attempts take together.
    pub open spec fn attempts_ns(self, n: nat) -> nat
        decreases n,
    {
        if n == 0 {
            0
        } else {
            self.attempts_ns((n - 1) as nat) + self.attempts[n - 1].duration_ns as nat
        }
    }

    /// How long the first `n` children take together.
    pub open spec fn children_ns(self, n: nat) -> nat
        decreases n,
    {
        if n == 0 {
            0
        } else {
            self.children_ns((n - 1) as nat) + self.children[n - 1].duration_ns as nat
        }
    }

    /// How long the whole operation takes.
    pub open spec fn total_ns(self) -> nat {
        self.attempts_ns(self.attempts.len()) + self.children_ns(self.children.len())
    }

    /// The clock does not run out while the operation runs, and its attempts can be counted.
    pub open spec fn runs_from(self, now: u64) -> bool {
        &&& now + self.total_ns() <= u64::MAX
        &&& self.attempts.len() <= u32::MAX
    }
}

impl OperationInput {
    /// Returns `true` when the final attempt succeeded (HTTP 2xx).
    pub fn succeeded(&self) -> (r: bool)
        ensures
            r == self@.succeeded(),
    {
        let n: usize = self.attempts.len();
        if n == 0 {
            false
        } else {
            status_succeeds(self.attempts[n - 1].status)
        }
    }
}

impl OperationInput {
    /// Whether the operation can run from `now`: the clock does not run out while it runs, and its
    /// attempts can be counted.
    pub fn can_run_from(&self, now: u64) -> (r: bool)
        ensures
            r == self@.runs_from(now),
    {
        let ghost model = self@;
        if self.attempts.len() as u64 > u32::MAX as u64 {
            return false;
        }
        let mut end: u64 = now;
        let mut i: usize = 0;
        while i < self.attempts.len()
            invariant
                i <= self.attempts.len(),
                model == self@,
                end == now + model.attempts_ns(i as nat),
            decreases self.attempts.len() - i,
        {
            proof {
                assert(model.attempts[i as int] == self.attempts@[i as int]@);
                lemma_attempts_ns_grow(model, (i + 1) as nat, model.attempts.len());
            }
            match end.checked_add(self.attempts[i].duration_ns) {
                Some(later) => {
                    end = later;
                },
                None => {
                    return false;
                },
            }
            i = i + 1;
        }
        let mut j: usize = 0;
        while j < self.children.len()
            invariant
                j <= self.children.len(),
                model == self@,
                end == now + model.attempts_ns(model.attempts.len()) + model.children_ns(j as nat),
            decreases self.children.len() - j,
        {
            proof {
                assert(model.children[j as int] == self.children@[j as int]@);
                lemma_children_ns_grow(model, (j + 1) as nat, model.children.len());
            }
            match end.checked_add(self.children[j].duration_ns) {
                Some(later) => {
                    end = later;
                },
                None => {
                    return false;
                },
            }
            j = j + 1;
        }
        true
    }
}

/// The outcome of a driven operation.
#[derive(Clone, Copy, Debug, PartialEq, Eq, Structural)]
pub enum Outcome {
    /// The operation ultimately succeeded.
    Success,
    /// The operation ultimately failed.
    Error,
}

impl Outcome {
    /// The word for an outcome.
    pub open spec fn word(self) -> Seq<char> {
        match self {
            Outcome::Success => "success"@,
            Outcome::Error => "error"@,
        }
    }

    /// The word for an outcome: `success` or `error`.
    pub fn as_str(self) -> (s: &'static str)
        ensures
            s@ == self.word(),
    {
        match self {
            Outcome::Success => "success",
            Outcome::Error => "error",
        }
    }
}

/// What a response to one attempt carried.
#[derive(Debug)]
pub struct Response {
    /// HTTP status code.
    pub status: u16,
    /// The service request id, from the response headers.
    pub service_request_id: Option<String>,
    /// The request charge, from the response headers.
    pub request_charge: Option<Charge>,
}

/// What a [`Response`] holds.
#[verifier::ext_equal]
pub struct ResponseModel {
    pub status: u16,
    pub service_request_id: Option<Seq<char>>,
    pub request_charge: Option<ChargeModel>,
}

/// The text in an optional string.
pub open spec fn opt_text(s: Option<String>) -> Option<Seq<char>> {
    match s {
        Some(t) => Some(t@),
        None => None,
    }
}

/// The text in an optional string slice.
pub open spec fn opt_str(s: Option<&str>) -> Option<Seq<char>> {
    match s {
        Some(t) => Some(t@),
        None => None,
    }
}

/// The service request id where one has to be written: empty where there was none.
pub open spec fn stored_id(id: Option<Seq<char>>) -> Seq<char> {
    match id {
        Some(s) => s,
        None => Seq::empty(),
    }
}

/// What an optional charge holds.
pub open spec fn opt_charge(c: Option<Charge>) -> Option<ChargeModel> {
    match c {
        Some(v) => Some(v@),
        None => None,
    }
}

/// What an optional borrowed charge holds.
pub open spec fn opt_charge_ref(c: Option<&Charge>) -> Option<ChargeModel> {
    match c {
        Some(v) => Some(v@),
        None => None,
    }
}

impl View for Response {
    type V = ResponseModel;

    open spec fn view(&self) -> ResponseModel {
        ResponseModel {
            status: self.status,
            service_request_id: opt_text(self.service_request_id),
            request_charge: opt_charge(self.request_charge),
        }
    }
}

/// The response that a script asks for.
pub open spec fn scripted_response(a: AttemptModel) -> ResponseModel {
    ResponseModel {
        status: a.status,
        service_request_id: Some(a.service_request_id),
        request_charge: Some(a.request_charge),
    }
}

/// One event of an operation, as a sink is told of it.
#[verifier::ext_equal]
pub enum SinkEvent {
    Start {
        name: Seq<char>,
        endpoint: Seq<char>,
        client_request_id: Seq<char>,
        start_ns: u64,
    },
    Attempt {
        index: u32,
        status: u16,
        service_request_id: Option<Seq<char>>,
        request_charge: Option<ChargeModel>,
        start_ns: u64,
        duration_ns: u64,
    },
    Child {
        index: u32,
        plan_node_id: Seq<char>,
        feed_range: Seq<char>,
        start_ns: u64,
        duration_ns: u64,
    },
    End { outcome: Outcome, attempt_count: u32, total_ns: u64 },
}

/// The semantic events of an operation. Each capture design implements this with its own storage;
/// the events are the same for all of them.
pub trait DiagSink {
    /// What a sink has stored.
    type Model;

    /// What this sink has stored.
    spec fn model(&self) -> Self::Model;

    /// What is stored after one more event.
    spec fn step(m: Self::Model, event: SinkEvent) -> Self::Model;

    /// Called once at the start of the operation.
    fn op_start(&mut self, input: &OperationInput, start_ns: u64)
        ensures
            final(self).model() == Self::step(old(self).model(), start_event(input@, start_ns)),
    ;

    /// Called once per HTTP attempt with the values from the response.
    fn attempt(
        &mut self,
        attempt_index: u32,
        status: u16,
        service_request_id: Option<&str>,
        request_charge: Option<&Charge>,
        start_ns: u64,
        duration_ns: u64,
    )
        ensures
            final(self).model() == Self::step(
                old(self).model(),
                SinkEvent::Attempt {
                    index: attempt_index,
                    status,
                    service_request_id: opt_str(service_request_id),
                    request_charge: opt_charge_ref(request_charge),
                    start_ns,
                    duration_ns,
                },
            ),
    ;

    /// Called once per fan-out child span.
    fn child(
        &mut self,
        child_index: u32,
        plan_node_id: &str,
        feed_range: &str,
        start_ns: u64,
        duration_ns: u64,
    )
        ensures
            final(self).model() == Self::step(
                old(self).model(),
                SinkEvent::Child {
                    index: child_index,
                    plan_node_id: plan_node_id@,
                    feed_range: feed_range@,
                    start_ns,
                    duration_ns,
                },
            ),
    ;

    /// Called once at the end of the operation.
    fn op_end(&mut self, outcome: Outcome, attempt_count: u32, total_ns: u64)
        ensures
            final(self).model() == Self::step(
                old(self).model(),
                SinkEvent::End { outcome, attempt_count, total_ns },
            ),
    ;
}

/// What a sink has stored after `events`, in order.
pub open spec fn after_events<S: DiagSink>(m: S::Model, events: Seq<SinkEvent>) -> S::Model
    decreases events.len(),
{
    if events.len() == 0 {
        m
    } else {
        S::step(after_events::<S>(m, events.drop_last()), events.last())
    }
}

// ---------------------------------------------------------------------------
// The events of an operation
// ---------------------------------------------------------------------------

/// The event at the start of an operation.
pub open spec fn start_event(input: InputModel, now: u64) -> SinkEvent {
    SinkEvent::Start {
        name: input.name,
        endpoint: input.endpoint,
        client_request_id: input.client_request_id,
        start_ns: now,
    }
}

/// The event of attempt `i`, with what its response carried, in an operation that started at
/// `now`.
pub open spec fn attempt_event(
    input: InputModel,
    response: ResponseModel,
    now: u64,
    i: int,
) -> SinkEvent {
    SinkEvent::Attempt {
        index: i as u32,
        status: response.status,
        service_request_id: response.service_request_id,
        request_charge: response.request_charge,
        start_ns: (now + input.attempts_ns(i as nat)) as u64,
        duration_ns: input.attempts[i].duration_ns,
    }
}

/// The event of child `i`, in an operation whose children start at `now`.
pub open spec fn child_event(input: InputModel, now: u64, i: int) -> SinkEvent {
    SinkEvent::Child {
        index: i as u32,
        plan_node_id: input.children[i].plan_node_id,
        feed_range: input.children[i].feed_range,
        start_ns: (now + input.children_ns(i as nat)) as u64,
        duration_ns: input.children[i].duration_ns,
    }
}

/// The events of the first `n` attempts of an operation that started at `now`.
pub open spec fn attempt_events(
    input: InputModel,
    responses: Seq<ResponseModel>,
    now: u64,
    n: nat,
) -> Seq<SinkEvent> {
    Seq::new(n, |i: int| attempt_event(input, responses[i], now, i))
}

/// The events of the first `n` children, in an operation whose children start at `now`.
pub open spec fn child_events(input: InputModel, now: u64, n: nat) -> Seq<SinkEvent> {
    Seq::new(n, |i: int| child_event(input, now, i))
}

/// When the children of an operation that started at `now` start.
pub open spec fn children_start(input: InputModel, now: u64) -> u64 {
    (now + input.attempts_ns(input.attempts.len())) as u64
}

/// The event at the end of an operation.
pub open spec fn end_event(input: InputModel) -> SinkEvent {
    SinkEvent::End {
        outcome: input.outcome(),
        attempt_count: input.attempts.len() as u32,
        total_ns: input.total_ns() as u64,
    }
}

/// What follows the attempts of an operation that started at `now`: its children and its end.
pub open spec fn closing_events(input: InputModel, now: u64) -> Seq<SinkEvent> {
    child_events(input, children_start(input, now), input.children.len()).push(end_event(input))
}

/// Every event of an operation that starts at `now` and whose attempts get these responses.
pub open spec fn operation_events(
    input: InputModel,
    responses: Seq<ResponseModel>,
    now: u64,
) -> Seq<SinkEvent> {
    seq![start_event(input, now)] + attempt_events(input, responses, now, input.attempts.len())
        + closing_events(input, now)
}

/// The responses that a script asks for.
pub open spec fn scripted_responses(input: InputModel) -> Seq<ResponseModel> {
    input.attempts.map_values(|a: AttemptModel| scripted_response(a))
}

/// Every event of an operation that runs as its script says, from `now`.
pub open spec fn script_events(input: InputModel, now: u64) -> Seq<SinkEvent> {
    operation_events(input, scripted_responses(input), now)
}

// ---------------------------------------------------------------------------
// Laws of the drivers
// ---------------------------------------------------------------------------

/// Feeding a sink some events and then some more is feeding it all of them.
pub proof fn law_events_compose<S: DiagSink>(m: S::Model, a: Seq<SinkEvent>, b: Seq<SinkEvent>)
    ensures
        after_events::<S>(m, a + b) == after_events::<S>(after_events::<S>(m, a), b),
    decreases b.len(),
{
    if b.len() == 0 {
        assert(a + b =~= a);
    } else {
        assert((a + b).drop_last() =~= a + b.drop_last());
        law_events_compose::<S>(m, a, b.drop_last());
    }
}

/// An operation whose attempts are answered as the script says gives the events of the script, so
/// every sink stores the same for both.
pub proof fn law_scripted_answers_give_the_script(
    input: InputModel,
    responses: Seq<ResponseModel>,
    now: u64,
)
    requires
        responses.len() == input.attempts.len(),
        forall|i: int|
            0 <= i < responses.len() ==> #[trigger] responses[i] == scripted_response(
                input.attempts[i],
            ),
    ensures
        operation_events(input, responses, now) == script_events(input, now),
{
    assert(responses =~= scripted_responses(input));
}

/// What a sink has stored after the first attempts of a stepwise drive.
proof fn lemma_steps_so_far<S: DiagSink>(
    m: S::Model,
    models: Seq<S::Model>,
    input: InputModel,
    responses: Seq<ResponseModel>,
    now: u64,
    n: nat,
)
    requires
        n < models.len(),
        models[0] == S::step(m, start_event(input, now)),
        forall|i: int|
            0 <= i < models.len() - 1 ==> models[i + 1] == S::step(
                #[trigger] models[i],
                attempt_event(input, responses[i], now, i),
            ),
    ensures
        models[n as int] == after_events::<S>(
            m,
            seq![start_event(input, now)] + attempt_events(input, responses, now, n),
        ),
    decreases n,
{
    let opening = seq![start_event(input, now)];
    let events = opening + attempt_events(input, responses, now, n);
    if n == 0 {
        assert(events =~= opening);
        assert(opening.drop_last() =~= Seq::empty());
        reveal_with_fuel(after_events, 2);
    } else {
        let i = n - 1;
        lemma_steps_so_far::<S>(m, models, input, responses, now, i as nat);
        assert(events.drop_last() =~= opening + attempt_events(input, responses, now, i as nat));
        assert(events.last() == attempt_event(input, responses[i], now, i));
        assert(models[i + 1] == S::step(models[i], attempt_event(input, responses[i], now, i)));
    }
}

/// An operation that is driven step by step stores what its events store: `models` is what the
/// sink has stored after the start and after each response.
pub proof fn law_steps_make_the_operation<S: DiagSink>(
    m: S::Model,
    models: Seq<S::Model>,
    input: InputModel,
    responses: Seq<ResponseModel>,
    now: u64,
)
    requires
        responses.len() == input.attempts.len(),
        models.len() == responses.len() + 1,
        models[0] == S::step(m, start_event(input, now)),
        forall|i: int|
            0 <= i < responses.len() ==> models[i + 1] == S::step(
                #[trigger] models[i],
                attempt_event(input, responses[i], now, i),
            ),
    ensures
        after_events::<S>(models.last(), closing_events(input, now)) == after_events::<S>(
            m,
            operation_events(input, responses, now),
        ),
{
    let n = responses.len();
    lemma_steps_so_far::<S>(m, models, input, responses, now, n);
    law_events_compose::<S>(
        m,
        seq![start_event(input, now)] + attempt_events(input, responses, now, n),
        closing_events(input, now),
    );
}

/// The first attempts take no longer than all of them.
proof fn lemma_attempts_ns_grow(input: InputModel, i: nat, j: nat)
    requires
        i <= j,
    ensures
        input.attempts_ns(i) <= input.attempts_ns(j),
    decreases j,
{
    if i < j {
        lemma_attempts_ns_grow(input, i, (j - 1) as nat);
    }
}

/// The first children take no longer than all of them.
proof fn lemma_children_ns_grow(input: InputModel, i: nat, j: nat)
    requires
        i <= j,
    ensures
        input.children_ns(i) <= input.children_ns(j),
    decreases j,
{
    if i < j {
        lemma_children_ns_grow(input, i, (j - 1) as nat);
    }
}

// ---------------------------------------------------------------------------
// The drivers
// ---------------------------------------------------------------------------

/// An operation under way: when it started and how many attempts were made.
#[derive(Debug)]
pub struct Drive {
    start_ns: u64,
    attempts: u32,
}

impl Drive {
    /// When the operation started.
    pub closed spec fn started(&self) -> u64 {
        self.start_ns
    }

    /// How many attempts were made.
    pub closed spec fn made(&self) -> nat {
        self.attempts as nat
    }

    /// Starts an operation.
    pub fn begin<S: DiagSink>(input: &OperationInput, sink: &mut S, clock: &MockClock) -> (d: Self)
        ensures
            d.started() == clock@,
            d.made() == 0,
            final(sink).model() == S::step(old(sink).model(), start_event(input@, clock@)),
    {
        let now: u64 = clock.now_ns();
        sink.op_start(input, now);
        Drive { start_ns: now, attempts: 0 }
    }

    /// Whether the script holds another attempt.
    pub fn wants_attempt(&self, input: &OperationInput) -> (r: bool)
        ensures
            r == (self.made() < input@.attempts.len()),
    {
        (self.attempts as usize) < input.attempts.len()
    }

    /// Takes the response to the next attempt.
    pub fn respond<S: DiagSink>(
        &mut self,
        input: &OperationInput,
        response: &Response,
        sink: &mut S,
        clock: &mut MockClock,
    )
        requires
            input@.runs_from(old(self).started()),
            old(self).made() < input@.attempts.len(),
            old(clock)@ == old(self).started() + input@.attempts_ns(old(self).made()),
        ensures
            final(self).started() == old(self).started(),
            final(self).made() == old(self).made() + 1,
            final(clock)@ == final(self).started() + input@.attempts_ns(final(self).made()),
            final(sink).model() == S::step(
                old(sink).model(),
                attempt_event(input@, response@, old(self).started(), old(self).made() as int),
            ),
    {
        let i: u32 = self.attempts;
        proof {
            lemma_attempts_ns_grow(input@, (i + 1) as nat, input@.attempts.len());
            assert(input@.attempts[i as int] == input.attempts@[i as int]@);
        }
        let duration_ns: u64 = input.attempts[i as usize].duration_ns;
        let start: u64 = clock.now_ns();
        clock.advance_ns(duration_ns);
        let id: Option<&str> = match &response.service_request_id {
            Some(s) => Some(s.as_str()),
            None => None,
        };
        sink.attempt(i, response.status, id, response.request_charge.as_ref(), start, duration_ns);
        self.attempts = i + 1;
    }

    /// Runs the children and ends the operation.
    pub fn finish<S: DiagSink>(self, input: &OperationInput, sink: &mut S, clock: &mut MockClock)
        requires
            input@.runs_from(self.started()),
            self.made() == input@.attempts.len(),
            old(clock)@ == self.started() + input@.attempts_ns(self.made()),
        ensures
            final(clock)@ == self.started() + input@.total_ns(),
            final(sink).model() == after_events::<S>(
                old(sink).model(),
                closing_events(input@, self.started()),
            ),
    {
        let ghost model = input@;
        let ghost m0 = sink.model();
        let ghost start0 = clock@;
        let mut i: usize = 0;
        proof {
            assert(child_events(model, start0, 0) =~= Seq::empty());
        }
        while i < input.children.len()
            invariant
                i <= input.children.len(),
                model == input@,
                model.children.len() == input.children.len(),
                model.runs_from(self.started()),
                start0 == children_start(model, self.started()),
                clock@ == start0 + model.children_ns(i as nat),
                self.started() + model.total_ns() == start0 + model.children_ns(
                    model.children.len(),
                ),
                sink.model() == after_events::<S>(m0, child_events(model, start0, i as nat)),
            decreases input.children.len() - i,
        {
            let ghost done = child_events(model, start0, i as nat);
            proof {
                lemma_children_ns_grow(model, (i + 1) as nat, model.children.len());
                assert(model.children[i as int] == input.children@[i as int]@);
            }
            let child = &input.children[i];
            let start: u64 = clock.now_ns();
            clock.advance_ns(child.duration_ns);
            sink.child(
                i as u32,
                child.plan_node_id.as_str(),
                child.feed_range.as_str(),
                start,
                child.duration_ns,
            );
            proof {
                let grown = child_events(model, start0, (i + 1) as nat);
                assert(grown.drop_last() =~= done);
                assert(grown.last() == child_event(model, start0, i as int));
            }
            i = i + 1;
        }
        let outcome = if input.succeeded() {
            Outcome::Success
        } else {
            Outcome::Error
        };
        let total: u64 = clock.now_ns() - self.start_ns;
        sink.op_end(outcome, self.attempts, total);
        proof {
            let closing = closing_events(model, self.started());
            assert(closing.drop_last() =~= child_events(model, start0, model.children.len()));
        }
    }
}

/// Drives `sink` from the script, advancing `clock` as the script says.
pub fn drive_sink<S: DiagSink>(input: &OperationInput, sink: &mut S, clock: &mut MockClock)
    requires
        input@.runs_from(old(clock)@),
    ensures
        final(clock)@ == old(clock)@ + input@.total_ns(),
        final(sink).model() == after_events::<S>(
            old(sink).model(),
            script_events(input@, old(clock)@),
        ),
{
    let ghost model = input@;
    let ghost now = clock@;
    let ghost m0 = sink.model();
    let ghost responses = scripted_responses(model);
    let ghost opening = seq![start_event(model, now)];
    let mut drive = Drive::begin(input, sink, clock);
    proof {
        assert(opening.drop_last() =~= Seq::empty());
        assert(opening + attempt_events(model, responses, now, 0) =~= opening);
        reveal_with_fuel(after_events, 2);
    }
    while drive.wants_attempt(input)
        invariant
            model == input@,
            model.attempts.len() == input.attempts.len(),
            model.runs_from(now),
            drive.started() == now,
            drive.made() <= model.attempts.len(),
            responses == scripted_responses(model),
            opening == seq![start_event(model, now)],
            clock@ == now + model.attempts_ns(drive.made()),
            sink.model() == after_events::<S>(
                m0,
                opening + attempt_events(model, responses, now, drive.made()),
            ),
        decreases model.attempts.len() - drive.made(),
    {
        let ghost i = drive.made();
        let ghost done = attempt_events(model, responses, now, i);
        let attempt = &input.attempts[drive.attempts as usize];
        let response = Response {
            status: attempt.status,
            service_request_id: Some(attempt.service_request_id.to_owned()),
            request_charge: Some(attempt.request_charge.clone()),
        };
        proof {
            assert(model.attempts[i as int] == input.attempts@[i as int]@);
            assert(response@ == responses[i as int]);
        }
        drive.respond(input, &response, sink, clock);
        proof {
            let grown = attempt_events(model, responses, now, i + 1);
            assert((opening + grown).drop_last() =~= opening + done);
            assert((opening + grown).last() == attempt_event(model, response@, now, i as int));
        }
    }
    proof {
        law_events_compose::<S>(
            m0,
            opening + attempt_events(model, responses, now, model.attempts.len()),
            closing_events(model, now),
        );
    }
    drive.finish(input, sink, clock);
}

// ---------------------------------------------------------------------------
// The reference scenarios
// ---------------------------------------------------------------------------

/// The charge of the reference point operations: 4.2 request units.
pub open spec fn default_charge() -> ChargeModel {
    ChargeModel {
        bits: 0x4010_CCCC_CCCC_CCCD,
        single: 0x4086_6666,
        text: "4.2"@,
        json: "4.2"@,
    }
}

/// The charge of the reference point operations: 4.2 request units.
pub fn ru_default() -> (c: Charge)
    ensures
        c@ == default_charge(),
{
    Charge {
        bits: 0x4010_CCCC_CCCC_CCCD,
        single: 0x4086_6666,
        text: "4.2".to_owned(),
        json: "4.2".to_owned(),
    }
}

/// A single success: one attempt, `200`, `svc-200`.
pub open spec fn s1_model() -> InputModel {
    InputModel {
        name: "read_item"@,
        endpoint: "https://contoso.documents.azure.com/dbs/db/colls/c/docs/1"@,
        client_request_id: "client-0001"@,
        attempts: seq![
            AttemptModel {
                status: 200,
                service_request_id: "svc-200"@,
                request_charge: default_charge(),
                duration_ns: 4_000_000,
            },
        ],
        children: Seq::empty(),
    }
}

/// A single success: one attempt, `200`, `svc-200`.
pub fn s1() -> (input: OperationInput)
    ensures
        input@ == s1_model(),
{
    let mut attempts: Vec<AttemptScript> = Vec::new();
    attempts.push(
        AttemptScript {
            status: 200,
            service_request_id: "svc-200",
            request_charge: ru_default(),
            duration_ns: 4_000_000,
        },
    );
    let input = OperationInput {
        name: "read_item",
        endpoint: "https://contoso.documents.azure.com/dbs/db/colls/c/docs/1",
        client_request_id: "client-0001",
        attempts,
        children: Vec::new(),
    };
    proof {
        assert(input@ =~= s1_model());
    }
    input
}

/// A retry, then success: `429`, then `200`.
pub open spec fn s2_model() -> InputModel {
    InputModel {
        name: "read_item"@,
        endpoint: "https://contoso.documents.azure.com/dbs/db/colls/c/docs/1"@,
        client_request_id: "client-0002"@,
        attempts: seq![
            AttemptModel {
                status: 429,
                service_request_id: "svc-429"@,
                request_charge: default_charge(),
                duration_ns: 3_000_000,
            },
            AttemptModel {
                status: 200,
                service_request_id: "svc-200"@,
                request_charge: default_charge(),
                duration_ns: 4_000_000,
            },
        ],
        children: Seq::empty(),
    }
}

/// A retry, then success: `429`, then `200`.
pub fn s2() -> (input: OperationInput)
    ensures
        input@ == s2_model(),
{
    let mut attempts: Vec<AttemptScript> = Vec::new();
    attempts.push(
        AttemptScript {
            status: 429,
            service_request_id: "svc-429",
            request_charge: ru_default(),
            duration_ns: 3_000_000,
        },
    );
    attempts.push(
        AttemptScript {
            status: 200,
            service_request_id: "svc-200",
            request_charge: ru_default(),
            duration_ns: 4_000_000,
        },
    );
    let input = OperationInput {
        name: "read_item",
        endpoint: "https://contoso.documents.azure.com/dbs/db/colls/c/docs/1",
        client_request_id: "client-0002",
        attempts,
        children: Vec::new(),
    };
    proof {
        assert(input@ =~= s2_model());
    }
    input
}

/// An error: `404`, `svc-404`.
pub open spec fn s3_model() -> InputModel {
    InputModel {
        name: "read_item"@,
        endpoint: "https://contoso.documents.azure.com/dbs/db/colls/c/docs/missing"@,
        client_request_id: "client-0003"@,
        attempts: seq![
            AttemptModel {
                status: 404,
                service_request_id: "svc-404"@,
                request_charge: default_charge(),
                duration_ns: 2_500_000,
            },
        ],
        children: Seq::empty(),
    }
}

/// An error: `404`, `svc-404`.
pub fn s3() -> (input: OperationInput)
    ensures
        input@ == s3_model(),
{
    let mut attempts: Vec<AttemptScript> = Vec::new();
    attempts.push(
        AttemptScript {
            status: 404,
            service_request_id: "svc-404",
            request_charge: ru_default(),
            duration_ns: 2_500_000,
        },
    );
    let input = OperationInput {
        name: "read_item",
        endpoint: "https://contoso.documents.azure.com/dbs/db/colls/c/docs/missing",
        client_request_id: "client-0003",
        attempts,
        children: Vec::new(),
    };
    proof {
        assert(input@ =~= s3_model());
    }
    input
}

/// Child `i` of the fan-out scenario.
pub open spec fn s4_child(i: int) -> ChildModel {
    ChildModel {
        plan_node_id: "plan/node/"@ + decimal(i as nat),
        feed_range: concatenation(
            seq![
                "range-"@,
                zero_padded(decimal(i as nat), 2),
                ":["@,
                zero_padded(digits((i * 256) as nat, 16), 4),
                "-"@,
                zero_padded(digits(((i + 1) * 256) as nat, 16), 4),
                ")"@,
            ],
        ),
        duration_ns: (1_000_000 + i * 50_000) as u64,
    }
}

/// Fan-out: a query operation with `n` child spans, each with a plan-tree node id and a feed
/// range.
pub open spec fn s4_model(n: nat) -> InputModel {
    InputModel {
        name: "query_items"@,
        endpoint: "https://contoso.documents.azure.com/dbs/db/colls/c/docs"@,
        client_request_id: "client-0004"@,
        attempts: seq![
            AttemptModel {
                status: 200,
                service_request_id: "svc-query-200"@,
                request_charge: ChargeModel {
                    bits: 0x4032_9999_9999_999A,
                    single: 0x4194_CCCD,
                    text: "18.6"@,
                    json: "18.6"@,
                },
                duration_ns: 6_000_000,
            },
        ],
        children: Seq::new(n, |i: int| s4_child(i)),
    }
}

/// Makes child `i` of the fan-out scenario.
fn s4_child_script(i: u64) -> (child: ChildScript)
    requires
        (i + 1) * 256 <= u64::MAX,
        1_000_000 + i * 50_000 <= u64::MAX,
    ensures
        child@ == s4_child(i as int),
{
    let number = decimal_text(i);
    let mut plan_node_id = "plan/node/".to_owned();
    plan_node_id.append(number.as_str());
    let short = padded_decimal_text(i, 2);
    let low = padded_hex_text(i * 256, 4);
    let high = padded_hex_text((i + 1) * 256, 4);
    let parts: Vec<&str> = vec![
        "range-",
        short.as_str(),
        ":[",
        low.as_str(),
        "-",
        high.as_str(),
        ")",
    ];
    let feed_range = joined(&parts);
    let child = ChildScript { plan_node_id, feed_range, duration_ns: 1_000_000 + i * 50_000 };
    proof {
        let pieces = seq![
            "range-"@,
            zero_padded(decimal(i as nat), 2),
            ":["@,
            zero_padded(digits((i * 256) as nat, 16), 4),
            "-"@,
            zero_padded(digits(((i + 1) * 256) as nat, 16), 4),
            ")"@,
        ];
        assert(parts@.map_values(|p: &str| p@) =~= pieces);
    }
    child
}

/// Fan-out: a query operation with `n` child spans, each with a plan-tree node id and a feed
/// range.
pub fn s4(n: usize) -> (input: OperationInput)
    requires
        n * 256 <= usize::MAX,
        1_000_000 + (n - 1) * 50_000 <= u64::MAX,
    ensures
        input@ == s4_model(n as nat),
{
    let mut children: Vec<ChildScript> = Vec::new();
    let mut i: usize = 0;
    while i < n
        invariant
            i <= n,
            n * 256 <= usize::MAX,
            1_000_000 + (n - 1) * 50_000 <= u64::MAX,
            children@.len() == i,
            forall|k: int| 0 <= k < i ==> (#[trigger] children@[k])@ == s4_child(k),
        decreases n - i,
    {
        children.push(s4_child_script(i as u64));
        i = i + 1;
    }
    let mut attempts: Vec<AttemptScript> = Vec::new();
    attempts.push(
        AttemptScript {
            status: 200,
            service_request_id: "svc-query-200",
            request_charge: Charge {
                bits: 0x4032_9999_9999_999A,
                single: 0x4194_CCCD,
                text: "18.6".to_owned(),
                json: "18.6".to_owned(),
            },
            duration_ns: 6_000_000,
        },
    );
    let input = OperationInput {
        name: "query_items",
        endpoint: "https://contoso.documents.azure.com/dbs/db/colls/c/docs",
        client_request_id: "client-0004",
        attempts,
        children,
    };
    proof {
        assert(input@ =~= s4_model(n as nat));
    }
    input
}

/// An operation that does nothing, for telling the cost of a pool from the cost of recording.
pub open spec fn noop_model() -> InputModel {
    InputModel {
        name: "noop"@,
        endpoint: "https://noop"@,
        client_request_id: "noop"@,
        attempts: Seq::empty(),
        children: Seq::empty(),
    }
}

/// An operation that does nothing, for telling the cost of a pool from the cost of recording.
pub fn noop_input() -> (input: OperationInput)
    ensures
        input@ == noop_model(),
{
    let input = OperationInput {
        name: "noop",
        endpoint: "https://noop",
        client_request_id: "noop",
        attempts: Vec::new(),
        children: Vec::new(),
    };
    proof {
        assert(input@ =~= noop_model());
    }
    input
}

/// The names and scripts of the reference scenarios, in the order in which they are measured.
pub fn scenarios() -> (list: Vec<(&'static str, OperationInput)>)
    ensures
        list@.len() == 5,
        list@[0].0@ == "S1"@ && list@[0].1@ == s1_model(),
        list@[1].0@ == "S2"@ && list@[1].1@ == s2_model(),
        list@[2].0@ == "S3"@ && list@[2].1@ == s3_model(),
        list@[3].0@ == "S4x10"@ && list@[3].1@ == s4_model(10),
        list@[4].0@ == "S4x25"@ && list@[4].1@ == s4_model(25),
{
    let mut list: Vec<(&'static str, OperationInput)> = Vec::new();
    list.push(("S1", s1()));
    list.push(("S2", s2()));
    list.push(("S3", s3()));
    list.push(("S4x10", s4(10)));
    list.push(("S4x25", s4(25)));
    list
}

} // verus!
