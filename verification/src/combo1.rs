//! Span tree plus compact binary: full fidelity that is cheap to build, free to drop on success
//! and small on the wire.
//!
//! The hot path only pushes into the [`Arena`]. Serialization happens on the error path, or when
//! the caller asks for it.

use vstd::prelude::*;
use vstd::string::*;

use crate::attrs::{
    ATTR_ATTEMPT_COUNT, ATTR_ATTEMPT_INDEX, ATTR_CLIENT_REQUEST_ID, ATTR_ENDPOINT, ATTR_ERROR_KIND,
    ATTR_FEED_RANGE, ATTR_OPERATION, ATTR_OUTCOME, ATTR_PLAN_NODE_ID, ATTR_REQUEST_CHARGE,
    ATTR_SERVICE_REQUEST_ID, ATTR_STATUS_CODE,
};
use crate::charge::{Charge, ChargeModel};
use crate::clock::MockClock;
use crate::laws::times::law_what_can_run;
use crate::laws::trees::{law_trees_tell_the_script, tells_script};
use crate::scenarios::{
    after_events, attempt_event, attempt_events, child_event, child_events, children_start,
    closing_events, drive_sink, end_event, law_events_compose, operation_events, script_events,
    scripted_responses, start_event, DiagSink, InputModel, OperationInput, Outcome, ResponseModel,
    SinkEvent,
};
use crate::spans::{
    attempt_attrs, charge_text, child_attrs, closing_attrs, detailed_tree, opening_attrs,
    optional_attr, scripted_tree,
};
use crate::status::{error_kind, failure_kind_of, status_succeeds};
use crate::text::{decimal, decimal_text};
use crate::wire::{
    auto_compresses, decode, decoded, encode, encode_auto, is_encoding, is_settled,
    law_blobs_begin_with_the_magic, law_one_encoding, magic, DecodeError, NodeKind,
    TreeModel, WireTree,
};

pub mod arena;

pub use crate::combo1::arena::{Arena, Node};
use crate::combo1::arena::{ArenaModel, SpanModel};

verus! {

/// The name of this design in samples and bench rows.
pub const COMBO: &'static str = "combo1";

/// A [`DiagSink`] that records into the arena. It pushes only; nothing is serialized here.
#[derive(Debug)]
pub struct Combo1Sink {
    arena: Arena,
    root: u32,
}

/// What a [`Combo1Sink`] has stored: the arena, and the id of the root.
#[verifier::ext_equal]
pub struct Combo1Model {
    pub arena: ArenaModel,
    pub root: u32,
}

impl Combo1Model {
    /// Nothing stored yet.
    pub open spec fn empty() -> Combo1Model {
        Combo1Model { arena: ArenaModel::empty(), root: 0 }
    }

    /// The id that the next node gets.
    pub open spec fn next_id(self) -> u32 {
        self.arena.nodes.len() as u32
    }
}

/// The arena with an attribute added to node `id` where there is a value.
pub open spec fn with_optional_attr(
    arena: ArenaModel,
    id: u32,
    key: Seq<char>,
    value: Option<Seq<char>>,
) -> ArenaModel {
    match value {
        Some(v) => arena.with_attr(id, key, v),
        None => arena,
    }
}

/// The decimal text of an optional charge.
pub open spec fn opt_charge_text(c: Option<ChargeModel>) -> Option<Seq<char>> {
    match c {
        Some(v) => Some(v.text),
        None => None,
    }
}

/// The operation starts: its root node, with the attributes known so far.
pub open spec fn after_start(
    m: Combo1Model,
    name: Seq<char>,
    endpoint: Seq<char>,
    client_request_id: Seq<char>,
    start_ns: u64,
) -> Combo1Model {
    let root = m.next_id();
    Combo1Model {
        arena: (ArenaModel { operation: name, ..m.arena }).pushed(
            SpanModel::new(None, NodeKind::Operation, start_ns, 0),
        ).with_attr(root, ATTR_OPERATION@, name).with_attr(
            root,
            ATTR_ENDPOINT@,
            endpoint,
        ).with_attr(root, ATTR_CLIENT_REQUEST_ID@, client_request_id),
        root,
    }
}

/// An attempt: one more node under the root.
pub open spec fn after_attempt(
    m: Combo1Model,
    index: u32,
    status: u16,
    service_request_id: Option<Seq<char>>,
    request_charge: Option<ChargeModel>,
    start_ns: u64,
    duration_ns: u64,
) -> Combo1Model {
    let id = m.next_id();
    let pushed = m.arena.pushed(
        SpanModel::new(Some(m.root), NodeKind::Attempt, start_ns, duration_ns),
    ).with_status(id, status).with_attr(
        id,
        ATTR_ATTEMPT_INDEX@,
        decimal(index as nat),
    ).with_attr(id, ATTR_STATUS_CODE@, decimal(status as nat));
    let identified = with_optional_attr(pushed, id, ATTR_SERVICE_REQUEST_ID@, service_request_id);
    let charged = with_optional_attr(
        identified,
        id,
        ATTR_REQUEST_CHARGE@,
        opt_charge_text(request_charge),
    );
    Combo1Model {
        arena: with_optional_attr(charged, id, ATTR_ERROR_KIND@, failure_kind_of(status)),
        root: m.root,
    }
}

/// A fan-out child: one more node under the root.
pub open spec fn after_child(
    m: Combo1Model,
    plan_node_id: Seq<char>,
    feed_range: Seq<char>,
    start_ns: u64,
    duration_ns: u64,
) -> Combo1Model {
    let id = m.next_id();
    Combo1Model {
        arena: m.arena.pushed(
            SpanModel::new(Some(m.root), NodeKind::Routing, start_ns, duration_ns),
        ).with_attr(id, ATTR_PLAN_NODE_ID@, plan_node_id).with_attr(
            id,
            ATTR_FEED_RANGE@,
            feed_range,
        ),
        root: m.root,
    }
}

/// The operation ends: the root gets its duration and its last attributes.
pub open spec fn after_end(
    m: Combo1Model,
    outcome: Outcome,
    attempt_count: u32,
    total_ns: u64,
) -> Combo1Model {
    Combo1Model {
        arena: (ArenaModel { success: outcome == Outcome::Success, ..m.arena }).with_duration(
            m.root,
            total_ns,
        ).with_attr(m.root, ATTR_ATTEMPT_COUNT@, decimal(attempt_count as nat)).with_attr(
            m.root,
            ATTR_OUTCOME@,
            outcome.word(),
        ),
        root: m.root,
    }
}

impl Combo1Sink {
    /// Consumes the sink and returns the populated [`Arena`].
    pub fn into_arena(self) -> (arena: Arena)
        ensures
            arena@ == self.model().arena,
    {
        self.arena
    }
}

impl Default for Combo1Sink {
    fn default() -> (sink: Self)
        ensures
            sink.model() == Combo1Model::empty(),
    {
        Combo1Sink { arena: Arena::new(), root: 0 }
    }
}

impl DiagSink for Combo1Sink {
    type Model = Combo1Model;

    closed spec fn model(&self) -> Combo1Model {
        Combo1Model { arena: self.arena@, root: self.root }
    }

    open spec fn step(m: Combo1Model, event: SinkEvent) -> Combo1Model {
        match event {
            SinkEvent::Start { name, endpoint, client_request_id, start_ns } => after_start(
                m,
                name,
                endpoint,
                client_request_id,
                start_ns,
            ),
            SinkEvent::Attempt {
                index,
                status,
                service_request_id,
                request_charge,
                start_ns,
                duration_ns,
            } => after_attempt(
                m,
                index,
                status,
                service_request_id,
                request_charge,
                start_ns,
                duration_ns,
            ),
            SinkEvent::Child { index, plan_node_id, feed_range, start_ns, duration_ns } =>
                after_child(m, plan_node_id, feed_range, start_ns, duration_ns),
            SinkEvent::End { outcome, attempt_count, total_ns } => after_end(
                m,
                outcome,
                attempt_count,
                total_ns,
            ),
        }
    }

    fn op_start(&mut self, input: &OperationInput, start_ns: u64) {
        let ghost m = self.model();
        self.arena.operation = input.name.to_owned();
        proof {
            assert(self.arena@ == (ArenaModel { operation: input@.name, ..m.arena }));
        }
        self.root = self.arena.push(None, NodeKind::Operation, start_ns, 0);
        self.arena.attr(self.root, ATTR_OPERATION, input.name.to_owned());
        self.arena.attr(self.root, ATTR_ENDPOINT, input.endpoint.to_owned());
        self.arena.attr(self.root, ATTR_CLIENT_REQUEST_ID, input.client_request_id.to_owned());
    }

    fn attempt(
        &mut self,
        attempt_index: u32,
        status: u16,
        service_request_id: Option<&str>,
        request_charge: Option<&Charge>,
        start_ns: u64,
        duration_ns: u64,
    ) {
        let id: u32 = self.arena.push(Some(self.root), NodeKind::Attempt, start_ns, duration_ns);
        self.arena.set_status(id, status);
        self.arena.attr(id, ATTR_ATTEMPT_INDEX, decimal_text(attempt_index as u64));
        self.arena.attr(id, ATTR_STATUS_CODE, decimal_text(status as u64));
        if let Some(svc) = service_request_id {
            self.arena.attr(id, ATTR_SERVICE_REQUEST_ID, svc.to_owned());
        }
        if let Some(ru) = request_charge {
            self.arena.attr(id, ATTR_REQUEST_CHARGE, ru.text.clone());
        }
        if !status_succeeds(status) {
            self.arena.attr(id, ATTR_ERROR_KIND, error_kind(status).to_owned());
        }
    }

    fn child(
        &mut self,
        _child_index: u32,
        plan_node_id: &str,
        feed_range: &str,
        start_ns: u64,
        duration_ns: u64,
    ) {
        let id: u32 = self.arena.push(Some(self.root), NodeKind::Routing, start_ns, duration_ns);
        self.arena.attr(id, ATTR_PLAN_NODE_ID, plan_node_id.to_owned());
        self.arena.attr(id, ATTR_FEED_RANGE, feed_range.to_owned());
    }

    fn op_end(&mut self, outcome: Outcome, attempt_count: u32, total_ns: u64) {
        let ghost m = self.model();
        self.arena.success = outcome == Outcome::Success;
        proof {
            assert(self.arena@ == (ArenaModel {
                success: outcome == Outcome::Success,
                ..m.arena
            }));
        }
        self.arena.set_duration(self.root, total_ns);
        self.arena.attr(self.root, ATTR_ATTEMPT_COUNT, decimal_text(attempt_count as u64));
        self.arena.attr(self.root, ATTR_OUTCOME, outcome.as_str().to_owned());
    }
}

// ---------------------------------------------------------------------------
// What the arena holds after an operation
// ---------------------------------------------------------------------------

/// Replacing the node that was pushed last is pushing the other node in its place.
proof fn lemma_last_replaced(arena: ArenaModel, span: SpanModel, other: SpanModel)
    requires
        arena.nodes.len() <= u32::MAX,
    ensures
        arena.pushed(span).replaced(arena.nodes.len() as u32, other) == arena.pushed(other),
        arena.pushed(span).nodes[arena.nodes.len() as u32 as int] == span,
{
    assert(arena.nodes.push(span).update(arena.nodes.len() as int, other) =~= arena.nodes.push(
        other,
    ));
}

/// Adding an optional attribute to the node that was pushed last.
proof fn lemma_last_optional_attr(
    arena: ArenaModel,
    span: SpanModel,
    key: Seq<char>,
    value: Option<Seq<char>>,
)
    requires
        arena.nodes.len() <= u32::MAX,
    ensures
        with_optional_attr(arena.pushed(span), arena.nodes.len() as u32, key, value)
            == arena.pushed(SpanModel { attrs: span.attrs + optional_attr(key, value), ..span }),
{
    match value {
        Some(v) => {
            lemma_last_replaced(
                arena,
                span,
                SpanModel { attrs: span.attrs.push((key, v)), ..span },
            );
            assert(span.attrs.push((key, v)) =~= span.attrs + seq![(key, v)]);
        },
        None => {
            assert(span.attrs + optional_attr(key, value) =~= span.attrs);
        },
    }
}

/// The span of an attempt.
pub open spec fn attempt_span(
    root: u32,
    index: u32,
    status: u16,
    service_request_id: Option<Seq<char>>,
    request_charge: Option<Seq<char>>,
    start_ns: u64,
    duration_ns: u64,
) -> SpanModel {
    SpanModel {
        parent: Some(root),
        kind: NodeKind::Attempt,
        start_ns,
        duration_ns,
        status,
        attrs: attempt_attrs(index, status, service_request_id, request_charge),
    }
}

/// The span of a fan-out child.
pub open spec fn child_span(
    root: u32,
    plan_node_id: Seq<char>,
    feed_range: Seq<char>,
    start_ns: u64,
    duration_ns: u64,
) -> SpanModel {
    SpanModel {
        parent: Some(root),
        kind: NodeKind::Routing,
        start_ns,
        duration_ns,
        status: 0,
        attrs: child_attrs(plan_node_id, feed_range),
    }
}

/// An attempt appends its span and changes nothing else.
proof fn lemma_attempt_appends(
    m: Combo1Model,
    index: u32,
    status: u16,
    service_request_id: Option<Seq<char>>,
    request_charge: Option<ChargeModel>,
    start_ns: u64,
    duration_ns: u64,
)
    requires
        m.arena.nodes.len() <= u32::MAX,
    ensures
        after_attempt(
            m,
            index,
            status,
            service_request_id,
            request_charge,
            start_ns,
            duration_ns,
        ) == (Combo1Model {
            arena: m.arena.pushed(
                attempt_span(
                    m.root,
                    index,
                    status,
                    service_request_id,
                    opt_charge_text(request_charge),
                    start_ns,
                    duration_ns,
                ),
            ),
            root: m.root,
        }),
{
    let s0 = SpanModel::new(Some(m.root), NodeKind::Attempt, start_ns, duration_ns);
    let s1 = SpanModel { status, ..s0 };
    let i = (ATTR_ATTEMPT_INDEX@, decimal(index as nat));
    let c = (ATTR_STATUS_CODE@, decimal(status as nat));
    let s2 = SpanModel { attrs: seq![i], ..s1 };
    let s3 = SpanModel { attrs: seq![i, c], ..s1 };
    lemma_last_replaced(m.arena, s0, s1);
    lemma_last_replaced(m.arena, s1, s2);
    assert(s1.attrs.push(i) =~= seq![i]);
    lemma_last_replaced(m.arena, s2, s3);
    assert(s2.attrs.push(c) =~= seq![i, c]);
    lemma_last_optional_attr(m.arena, s3, ATTR_SERVICE_REQUEST_ID@, service_request_id);
    let s4 = SpanModel {
        attrs: s3.attrs + optional_attr(ATTR_SERVICE_REQUEST_ID@, service_request_id),
        ..s3
    };
    let charge = opt_charge_text(request_charge);
    lemma_last_optional_attr(m.arena, s4, ATTR_REQUEST_CHARGE@, charge);
    let s5 = SpanModel { attrs: s4.attrs + optional_attr(ATTR_REQUEST_CHARGE@, charge), ..s4 };
    lemma_last_optional_attr(m.arena, s5, ATTR_ERROR_KIND@, failure_kind_of(status));
}

/// A child appends its span and changes nothing else.
proof fn lemma_child_appends(
    m: Combo1Model,
    plan_node_id: Seq<char>,
    feed_range: Seq<char>,
    start_ns: u64,
    duration_ns: u64,
)
    requires
        m.arena.nodes.len() <= u32::MAX,
    ensures
        after_child(m, plan_node_id, feed_range, start_ns, duration_ns) == (Combo1Model {
            arena: m.arena.pushed(
                child_span(m.root, plan_node_id, feed_range, start_ns, duration_ns),
            ),
            root: m.root,
        }),
{
    let s0 = SpanModel::new(Some(m.root), NodeKind::Routing, start_ns, duration_ns);
    let p = (ATTR_PLAN_NODE_ID@, plan_node_id);
    let f = (ATTR_FEED_RANGE@, feed_range);
    let s1 = SpanModel { attrs: seq![p], ..s0 };
    let s2 = SpanModel { attrs: seq![p, f], ..s0 };
    lemma_last_replaced(m.arena, s0, s1);
    assert(s0.attrs.push(p) =~= seq![p]);
    lemma_last_replaced(m.arena, s1, s2);
    assert(s1.attrs.push(f) =~= seq![p, f]);
}

/// The root span as the start of an operation leaves it.
pub open spec fn opening_span(input: InputModel, now: u64) -> SpanModel {
    SpanModel {
        parent: None,
        kind: NodeKind::Operation,
        start_ns: now,
        duration_ns: 0,
        status: 0,
        attrs: opening_attrs(input.name, input.endpoint, input.client_request_id),
    }
}

/// The spans of the first `n` attempts.
pub open spec fn attempt_spans(
    input: InputModel,
    responses: Seq<ResponseModel>,
    now: u64,
    n: nat,
) -> Seq<SpanModel> {
    Seq::new(
        n,
        |i: int|
            attempt_span(
                0,
                i as u32,
                responses[i].status,
                responses[i].service_request_id,
                charge_text(responses[i]),
                (now + input.attempts_ns(i as nat)) as u64,
                input.attempts[i].duration_ns,
            ),
    )
}

/// The spans of the first `n` children.
pub open spec fn child_spans(input: InputModel, now: u64, n: nat) -> Seq<SpanModel> {
    Seq::new(
        n,
        |i: int|
            child_span(
                0,
                input.children[i].plan_node_id,
                input.children[i].feed_range,
                (now + input.children_ns(i as nat)) as u64,
                input.children[i].duration_ns,
            ),
    )
}

/// What is stored once the operation has started.
proof fn lemma_started(input: InputModel, now: u64)
    ensures
        Combo1Sink::step(Combo1Model::empty(), start_event(input, now)) == (Combo1Model {
            arena: ArenaModel {
                operation: input.name,
                nodes: seq![opening_span(input, now)],
                success: false,
            },
            root: 0,
        }),
{
    let a = ArenaModel { operation: input.name, ..ArenaModel::empty() };
    let s0 = SpanModel::new(None, NodeKind::Operation, now, 0);
    let o = (ATTR_OPERATION@, input.name);
    let e = (ATTR_ENDPOINT@, input.endpoint);
    let c = (ATTR_CLIENT_REQUEST_ID@, input.client_request_id);
    let s1 = SpanModel { attrs: seq![o], ..s0 };
    let s2 = SpanModel { attrs: seq![o, e], ..s0 };
    let s3 = SpanModel { attrs: seq![o, e, c], ..s0 };
    lemma_last_replaced(a, s0, s1);
    assert(s0.attrs.push(o) =~= seq![o]);
    lemma_last_replaced(a, s1, s2);
    assert(s1.attrs.push(e) =~= seq![o, e]);
    lemma_last_replaced(a, s2, s3);
    assert(s2.attrs.push(c) =~= seq![o, e, c]);
    assert(a.nodes.push(s3) =~= seq![opening_span(input, now)]);
}

/// What is stored after the first `n` attempts.
proof fn lemma_attempts_stored(
    input: InputModel,
    responses: Seq<ResponseModel>,
    now: u64,
    n: nat,
)
    requires
        n <= u32::MAX,
    ensures
        after_events::<Combo1Sink>(
            Combo1Model::empty(),
            seq![start_event(input, now)] + attempt_events(input, responses, now, n),
        ) == (Combo1Model {
            arena: ArenaModel {
                operation: input.name,
                nodes: seq![opening_span(input, now)] + attempt_spans(input, responses, now, n),
                success: false,
            },
            root: 0,
        }),
    decreases n,
{
    let events = seq![start_event(input, now)] + attempt_events(input, responses, now, n);
    if n == 0 {
        assert(events.drop_last() =~= Seq::empty());
        assert(events.last() == start_event(input, now));
        lemma_started(input, now);
        assert(after_events::<Combo1Sink>(Combo1Model::empty(), events.drop_last())
            == Combo1Model::empty());
        assert(seq![opening_span(input, now)] + attempt_spans(input, responses, now, 0) =~= seq![
            opening_span(input, now),
        ]);
    } else {
        let i = n - 1;
        lemma_attempts_stored(input, responses, now, i as nat);
        assert(events.drop_last() =~= seq![start_event(input, now)] + attempt_events(
            input,
            responses,
            now,
            i as nat,
        ));
        assert(events.last() == attempt_event(input, responses[i], now, i));
        let before = after_events::<Combo1Sink>(Combo1Model::empty(), events.drop_last());
        lemma_attempt_appends(
            before,
            i as u32,
            responses[i].status,
            responses[i].service_request_id,
            responses[i].request_charge,
            (now + input.attempts_ns(i as nat)) as u64,
            input.attempts[i].duration_ns,
        );
        assert(before.arena.nodes.push(attempt_spans(input, responses, now, n)[i]) =~= seq![
            opening_span(input, now),
        ] + attempt_spans(input, responses, now, n));
    }
}

/// What the first `n` children add to what is stored.
proof fn lemma_children_stored(m: Combo1Model, input: InputModel, now: u64, n: nat)
    requires
        m.root == 0,
        m.arena.nodes.len() + n <= u32::MAX + 1,
    ensures
        after_events::<Combo1Sink>(m, child_events(input, now, n)) == (Combo1Model {
            arena: ArenaModel {
                nodes: m.arena.nodes + child_spans(input, now, n),
                ..m.arena
            },
            root: 0,
        }),
    decreases n,
{
    let events = child_events(input, now, n);
    if n == 0 {
        assert(m.arena.nodes + child_spans(input, now, 0) =~= m.arena.nodes);
    } else {
        let i = n - 1;
        lemma_children_stored(m, input, now, i as nat);
        assert(events.drop_last() =~= child_events(input, now, i as nat));
        assert(events.last() == child_event(input, now, i));
        let before = after_events::<Combo1Sink>(m, events.drop_last());
        lemma_child_appends(
            before,
            input.children[i].plan_node_id,
            input.children[i].feed_range,
            (now + input.children_ns(i as nat)) as u64,
            input.children[i].duration_ns,
        );
        assert(before.arena.nodes.push(child_spans(input, now, n)[i]) =~= m.arena.nodes
            + child_spans(input, now, n));
    }
}

/// What the end of the operation makes of what is stored.
proof fn lemma_ended(m: Combo1Model, input: InputModel, now: u64)
    requires
        m.root == 0,
        m.arena.nodes.len() > 0,
        m.arena.nodes[0] == opening_span(input, now),
    ensures
        ({
            let done = Combo1Sink::step(m, end_event(input)).arena;
            &&& done.operation == m.arena.operation
            &&& done.success == input.succeeded()
            &&& done.nodes == m.arena.nodes.update(
                0,
                SpanModel {
                    duration_ns: input.total_ns() as u64,
                    attrs: opening_attrs(input.name, input.endpoint, input.client_request_id)
                        + closing_attrs(input.attempts.len() as u32, input.outcome()),
                    ..opening_span(input, now)
                },
            )
        }),
{
    let opening = opening_attrs(input.name, input.endpoint, input.client_request_id);
    let closing = closing_attrs(input.attempts.len() as u32, input.outcome());
    let nodes = m.arena.nodes;
    let done = Combo1Sink::step(m, end_event(input)).arena;
    assert(opening.push(closing[0]).push(closing[1]) =~= opening + closing);
    assert(done.nodes =~= nodes.update(
        0,
        SpanModel {
            duration_ns: input.total_ns() as u64,
            attrs: opening + closing,
            ..opening_span(input, now)
        },
    ));
}

/// Recording an operation keeps all of it: the arena of an operation projects to the tree with
/// the root, every attempt with what its response carried, and every child, and it knows whether
/// the operation succeeded. This holds as long as the nodes can be told apart by their ids.
pub proof fn law_arena_keeps_the_operation(
    input: InputModel,
    responses: Seq<ResponseModel>,
    now: u64,
)
    requires
        responses.len() == input.attempts.len(),
        input.attempts.len() + input.children.len() <= u32::MAX,
    ensures
        ({
            let arena = after_events::<Combo1Sink>(
                Combo1Model::empty(),
                operation_events(input, responses, now),
            ).arena;
            &&& arena.wire() == detailed_tree(input, responses, now)
            &&& arena.success == input.succeeded()
        }),
{
    let opening = seq![start_event(input, now)] + attempt_events(
        input,
        responses,
        now,
        input.attempts.len(),
    );
    let empty = Combo1Model::empty();
    let start = children_start(input, now);
    law_events_compose::<Combo1Sink>(empty, opening, closing_events(input, now));
    lemma_attempts_stored(input, responses, now, input.attempts.len());
    let attempted = after_events::<Combo1Sink>(empty, opening);
    lemma_children_stored(attempted, input, start, input.children.len());
    let childed = after_events::<Combo1Sink>(
        attempted,
        child_events(input, start, input.children.len()),
    );
    assert(closing_events(input, now).drop_last() =~= child_events(
        input,
        start,
        input.children.len(),
    ));
    lemma_ended(childed, input, now);
    let done = Combo1Sink::step(childed, end_event(input)).arena;
    assert(done.wire().nodes =~= detailed_tree(input, responses, now).nodes);
}

// ---------------------------------------------------------------------------
// Collecting and capturing
// ---------------------------------------------------------------------------

/// The arena of an operation that runs as its script says, from `now`.
pub open spec fn collected(input: InputModel, now: u64) -> ArenaModel {
    after_events::<Combo1Sink>(Combo1Model::empty(), script_events(input, now)).arena
}

/// Collects diagnostics for `input` into an arena (the hot-path cost: pushes only).
pub fn collect(input: &OperationInput, clock: &mut MockClock) -> (arena: Arena)
    requires
        input@.runs_from(old(clock)@),
    ensures
        final(clock)@ == old(clock)@ + input@.total_ns(),
        arena@ == collected(input@, old(clock)@),
        arena@.success == input@.succeeded(),
        input@.attempts.len() + input@.children.len() <= u32::MAX ==> arena@.wire()
            == scripted_tree(input@, old(clock)@),
        input@.attempts.len() + input@.children.len() <= u32::MAX ==> tells_script(
            arena@.wire(),
            input@,
            old(clock)@,
        ),
{
    let mut sink = Combo1Sink::default();
    proof {
        law_what_can_run(input@, clock@);
        if input@.attempts.len() + input@.children.len() <= u32::MAX {
            law_trees_tell_the_script(input@, clock@);
        }
        lemma_success_is_kept(input@, clock@);
        if input@.attempts.len() + input@.children.len() <= u32::MAX {
            law_arena_keeps_the_operation(input@, scripted_responses(input@), clock@);
        }
    }
    drive_sink(input, &mut sink, clock);
    sink.into_arena()
}

/// Projects the arena into the shared [`WireTree`].
pub fn construct(arena: &Arena) -> (tree: WireTree)
    ensures
        tree@ == arena@.wire(),
{
    arena.to_wire()
}

/// Encodes a [`WireTree`] to the binary blob, compressing large trees.
pub fn serialize(tree: &WireTree) -> (blob: Vec<u8>)
    ensures
        is_encoding(blob@, tree@, auto_compresses(tree@)),
        decoded(blob@) == Ok::<TreeModel, DecodeError>(tree@),
{
    encode_auto(tree)
}

/// Encodes with explicit control over compression.
pub fn serialize_with(tree: &WireTree, compress: bool) -> (blob: Vec<u8>)
    ensures
        is_encoding(blob@, tree@, compress),
        decoded(blob@) == Ok::<TreeModel, DecodeError>(tree@),
{
    encode(tree, compress)
}

/// Decodes a blob back into a [`WireTree`] (off the hot path).
pub fn decode_blob(blob: &[u8]) -> (r: Result<WireTree, DecodeError>)
    ensures
        match r {
            Ok(tree) => decoded(blob@) == Ok::<TreeModel, DecodeError>(tree@),
            Err(e) => decoded(blob@) == Err::<TreeModel, DecodeError>(e),
        },
{
    decode(blob)
}

/// The bytes of a blob, where there is one.
pub open spec fn blob_view(blob: Option<Vec<u8>>) -> Option<Seq<u8>> {
    match blob {
        Some(b) => Some(b@),
        None => None,
    }
}

/// `blob` is what is kept of an arena: nothing on success unless `verbose` is set, and otherwise
/// the encoded tree.
pub open spec fn is_rendering(blob: Option<Seq<u8>>, arena: ArenaModel, verbose: bool) -> bool {
    match blob {
        Some(b) => {
            &&& !arena.success || verbose
            &&& is_encoding(b, arena.wire(), auto_compresses(arena.wire()))
        },
        None => arena.success && !verbose,
    }
}

/// Renders what was collected: nothing on success unless `verbose` is set, and otherwise the
/// encoded tree.
pub fn render(arena: &Arena, verbose: bool) -> (blob: Option<Vec<u8>>)
    ensures
        is_rendering(blob_view(blob), arena@, verbose),
        blob matches Some(b) ==> decoded(b@) == Ok::<TreeModel, DecodeError>(arena@.wire()),
{
    if arena.success && !verbose {
        None
    } else {
        Some(serialize(&construct(arena)))
    }
}

/// The outcome-aware capture path: returns `None` (a free drop, with nothing serialized) on
/// success unless `verbose` is set, and otherwise the encoded binary blob.
pub fn capture_blob(input: &OperationInput, clock: &mut MockClock, verbose: bool) -> (blob: Option<
    Vec<u8>,
>)
    requires
        input@.runs_from(old(clock)@),
    ensures
        final(clock)@ == old(clock)@ + input@.total_ns(),
        blob is None <==> (input@.succeeded() && !verbose),
        is_rendering(blob_view(blob), collected(input@, old(clock)@), verbose),
        blob matches Some(b) ==> decoded(b@) == Ok::<TreeModel, DecodeError>(
            collected(input@, old(clock)@).wire(),
        ),
        input@.attempts.len() + input@.children.len() <= u32::MAX ==> {
            blob matches Some(b) ==> decoded(b@) == Ok::<TreeModel, DecodeError>(
                scripted_tree(input@, old(clock)@),
            )
        },
{
    proof {
        lemma_success_is_kept(input@, clock@);
    }
    let arena = collect(input, clock);
    render(&arena, verbose)
}

// ---------------------------------------------------------------------------
// Laws
// ---------------------------------------------------------------------------

/// The arena of an operation knows whether the operation succeeded.
proof fn lemma_success_is_kept(input: InputModel, now: u64)
    ensures
        collected(input, now).success == input.succeeded(),
{
    let events = script_events(input, now);
    assert(events.last() == end_event(input));
}

/// What [`serialize`] makes of a tree is what [`serialize_with`] makes of it, compressing exactly
/// where the uncompressed payload is longer than 256 bytes. `plain` is the uncompressed form, whose
/// payload follows a header of 6 bytes, `chosen` the form that [`serialize`] gives, and `told` the
/// one that [`serialize_with`] gives; the two are the same bytes, as long as tree and flag settle
/// them. All of them begin with the magic bytes.
pub proof fn law_serialize_goes_by_the_size(
    t: TreeModel,
    plain: Seq<u8>,
    chosen: Seq<u8>,
    told: Seq<u8>,
)
    requires
        is_encoding(plain, t, false),
        is_encoding(chosen, t, auto_compresses(t)),
        is_encoding(told, t, plain.len() - 6 > 256),
    ensures
        plain.take(4) == magic(),
        chosen.take(4) == magic(),
        auto_compresses(t) == (plain.len() - 6 > 256),
        is_settled(chosen, auto_compresses(t)) ==> chosen == told,
{
    law_blobs_begin_with_the_magic(plain, t, false);
    law_blobs_begin_with_the_magic(chosen, t, auto_compresses(t));
    assert(plain.skip(6).len() == plain.len() - 6);
    if is_settled(chosen, auto_compresses(t)) {
        law_one_encoding(chosen, told, t, auto_compresses(t));
    }
}

/// Capturing drops exactly a success that is not verbose, and otherwise gives the bytes that
/// [`serialize`] makes of the tree that is collected from the same time on, as long as tree and
/// flag settle them. `captured` is the blob of [`capture_blob`], and `separate` that of
/// [`serialize`].
pub proof fn law_capture_is_collect_and_serialize(
    input: InputModel,
    now: u64,
    verbose: bool,
    captured: Option<Seq<u8>>,
    separate: Seq<u8>,
)
    requires
        is_rendering(captured, collected(input, now), verbose),
        is_encoding(
            separate,
            collected(input, now).wire(),
            auto_compresses(collected(input, now).wire()),
        ),
    ensures
        captured is None <==> (input.succeeded() && !verbose),
        is_settled(separate, auto_compresses(collected(input, now).wire())) ==> (captured matches
            Some(b) ==> b == separate),
{
    let tree = collected(input, now).wire();
    lemma_success_is_kept(input, now);
    if captured is Some && is_settled(separate, auto_compresses(tree)) {
        law_one_encoding(separate, captured->0, tree, auto_compresses(tree));
    }
}

} // verus!
