//! Spans that are materialized eagerly: the baseline.
//!
//! An `operation` span wraps the retries, each attempt is an `attempt` span, and fan-out makes
//! `routing` spans. Everything is captured and projected into typed objects, on success too.

use vstd::prelude::*;
use vstd::string::*;

use crate::attrs::{
    ATTR_ATTEMPT_COUNT, ATTR_ATTEMPT_INDEX, ATTR_CLIENT_REQUEST_ID, ATTR_ENDPOINT, ATTR_ERROR_KIND,
    ATTR_FEED_RANGE, ATTR_OPERATION, ATTR_OUTCOME, ATTR_PLAN_NODE_ID, ATTR_REQUEST_CHARGE,
    ATTR_SERVICE_REQUEST_ID, ATTR_STATUS_CODE,
};
use crate::charge::{Charge, ChargeModel};
use crate::clock::MockClock;
use crate::combo3::collector::{
    is_child, is_root, is_top, law_children_listed_one_way, law_one_root, lists_children, precedes,
    RawModel, SpansModel, StoreModel,
};
use crate::combo3::fields::{
    charge_field, charge_value, fields_view, put, FieldModel, FieldValue, Fields, FieldsModel,
};
use crate::combo3::model::{
    attempt_of, attempts_among, child_of, children_among, project, projected, AttemptSpanModel,
    ChildSpanModel, OperationModel, FIELD_DURATION_NS, FIELD_START_NS, SPAN_ATTEMPT,
    SPAN_OPERATION, SPAN_ROUTING,
};
use crate::laws::records::law_captured_objects_tell_the_script;
use crate::laws::times::{law_what_can_run, time_of};
use crate::scenarios::{
    after_events, attempt_event, attempt_events, child_event, child_events, children_start,
    closing_events, drive_sink, end_event, law_events_compose, operation_events, script_events,
    scripted_responses, start_event, stored_id, DiagSink, InputModel, OperationInput, Outcome,
    ResponseModel, SinkEvent,
};
use crate::status::{error_kind, error_kind_of, is_success_status, status_succeeds};

pub mod collector;
pub mod fields;
pub mod model;

pub use crate::combo3::collector::Store;
pub use crate::combo3::model::{AttemptSpan, ChildSpan, EventRecord, OperationSpan};

verus! {

/// The name of this design in samples and bench rows.
pub const COMBO: &'static str = "combo3";

/// Field name for the kind of an event.
pub const FIELD_EVENT: &'static str = "az.event";

// ---------------------------------------------------------------------------
// The fields of spans and events
// ---------------------------------------------------------------------------

/// The fields that the span of an operation has from its start.
pub open spec fn opening_fields(
    name: Seq<char>,
    endpoint: Seq<char>,
    client_request_id: Seq<char>,
    start_ns: u64,
) -> FieldsModel {
    Map::empty().insert(ATTR_OPERATION@, FieldModel::Text(name)).insert(
        ATTR_ENDPOINT@,
        FieldModel::Text(endpoint),
    ).insert(ATTR_CLIENT_REQUEST_ID@, FieldModel::Text(client_request_id)).insert(
        FIELD_START_NS@,
        FieldModel::U64(start_ns),
    )
}

/// The fields that the span of an operation gets at its end.
pub open spec fn closing_fields(
    outcome: Outcome,
    attempt_count: u32,
    total_ns: u64,
) -> FieldsModel {
    Map::empty().insert(ATTR_ATTEMPT_COUNT@, FieldModel::U64(attempt_count as u64)).insert(
        FIELD_DURATION_NS@,
        FieldModel::U64(total_ns),
    ).insert(ATTR_OUTCOME@, FieldModel::Text(outcome.word()))
}

/// The fields of the span of an attempt.
pub open spec fn attempt_fields(
    index: u32,
    status: u16,
    service_request_id: Option<Seq<char>>,
    request_charge: Option<ChargeModel>,
    start_ns: u64,
    duration_ns: u64,
) -> FieldsModel {
    Map::empty().insert(ATTR_ATTEMPT_INDEX@, FieldModel::U64(index as u64)).insert(
        ATTR_STATUS_CODE@,
        FieldModel::U64(status as u64),
    ).insert(ATTR_SERVICE_REQUEST_ID@, FieldModel::Text(stored_id(service_request_id))).insert(
        ATTR_REQUEST_CHARGE@,
        charge_value(request_charge),
    ).insert(FIELD_START_NS@, FieldModel::U64(start_ns)).insert(
        FIELD_DURATION_NS@,
        FieldModel::U64(duration_ns),
    )
}

/// The fields of the event of an attempt: the response, or the error.
pub open spec fn answer_fields(status: u16) -> FieldsModel {
    if is_success_status(status) {
        Map::empty().insert(FIELD_EVENT@, FieldModel::Text("response"@)).insert(
            ATTR_STATUS_CODE@,
            FieldModel::U64(status as u64),
        )
    } else {
        Map::empty().insert(FIELD_EVENT@, FieldModel::Text("error"@)).insert(
            ATTR_STATUS_CODE@,
            FieldModel::U64(status as u64),
        ).insert(ATTR_ERROR_KIND@, FieldModel::Text(error_kind_of(status)))
    }
}

/// The fields of the span of a fan-out child.
pub open spec fn child_fields(
    plan_node_id: Seq<char>,
    feed_range: Seq<char>,
    start_ns: u64,
    duration_ns: u64,
) -> FieldsModel {
    Map::empty().insert(ATTR_PLAN_NODE_ID@, FieldModel::Text(plan_node_id)).insert(
        ATTR_FEED_RANGE@,
        FieldModel::Text(feed_range),
    ).insert(FIELD_START_NS@, FieldModel::U64(start_ns)).insert(
        FIELD_DURATION_NS@,
        FieldModel::U64(duration_ns),
    )
}

/// Makes an empty set of fields.
fn no_fields() -> (fields: Fields)
    ensures
        fields_view(fields@) == Map::<Seq<char>, FieldModel>::empty(),
{
    let fields: Fields = Fields::new();
    proof {
        assert(fields_view(fields@) =~= Map::<Seq<char>, FieldModel>::empty());
    }
    fields
}

/// Makes the fields of the event of an attempt.
fn make_answer_fields(status: u16) -> (fields: Fields)
    ensures
        fields_view(fields@) == answer_fields(status),
{
    let mut fields = no_fields();
    if status_succeeds(status) {
        put(&mut fields, FIELD_EVENT, FieldValue::Text("response".to_owned()));
        put(&mut fields, ATTR_STATUS_CODE, FieldValue::U64(status as u64));
    } else {
        put(&mut fields, FIELD_EVENT, FieldValue::Text("error".to_owned()));
        put(&mut fields, ATTR_STATUS_CODE, FieldValue::U64(status as u64));
        put(&mut fields, ATTR_ERROR_KIND, FieldValue::Text(error_kind(status).to_owned()));
    }
    fields
}

// ---------------------------------------------------------------------------
// The sink
// ---------------------------------------------------------------------------

/// A [`DiagSink`] that records spans and events into a [`Store`].
#[derive(Debug)]
pub struct Combo3Sink {
    store: Store,
    op_span: Option<u64>,
}

/// What a [`Combo3Sink`] has stored: the spans, and the id of the open operation span.
#[verifier::ext_equal]
pub struct Combo3Model {
    pub store: StoreModel,
    pub op_span: Option<u64>,
}

impl Combo3Model {
    /// Nothing stored yet.
    pub open spec fn empty() -> Combo3Model {
        Combo3Model { store: StoreModel::empty(), op_span: None }
    }
}

impl Default for Combo3Sink {
    fn default() -> (sink: Self)
        ensures
            sink.model() == Combo3Model::empty(),
    {
        Combo3Sink { store: Store::new(), op_span: None }
    }
}

impl Combo3Sink {
    /// Consumes the sink and returns the store.
    pub fn into_store(self) -> (store: Store)
        ensures
            store@ == self.model().store,
    {
        self.store
    }
}

impl DiagSink for Combo3Sink {
    type Model = Combo3Model;

    closed spec fn model(&self) -> Combo3Model {
        Combo3Model { store: self.store@, op_span: self.op_span }
    }

    open spec fn step(m: Combo3Model, event: SinkEvent) -> Combo3Model {
        let id = m.store.next_order;
        match event {
            SinkEvent::Start { name, endpoint, client_request_id, start_ns } => Combo3Model {
                store: m.store.with_span(
                    id,
                    SPAN_OPERATION@,
                    None,
                    opening_fields(name, endpoint, client_request_id, start_ns),
                ),
                op_span: Some(id),
            },
            SinkEvent::Attempt {
                index,
                status,
                service_request_id,
                request_charge,
                start_ns,
                duration_ns,
            } => match m.op_span {
                None => m,
                Some(op) => Combo3Model {
                    store: m.store.with_span(
                        id,
                        SPAN_ATTEMPT@,
                        Some(op),
                        attempt_fields(
                            index,
                            status,
                            service_request_id,
                            request_charge,
                            start_ns,
                            duration_ns,
                        ),
                    ).with_event(Some(id), answer_fields(status)),
                    op_span: m.op_span,
                },
            },
            SinkEvent::Child { index, plan_node_id, feed_range, start_ns, duration_ns } =>
                match m.op_span {
                None => m,
                Some(op) => Combo3Model {
                    store: m.store.with_span(
                        id,
                        SPAN_ROUTING@,
                        Some(op),
                        child_fields(plan_node_id, feed_range, start_ns, duration_ns),
                    ),
                    op_span: m.op_span,
                },
            },
            SinkEvent::End { outcome, attempt_count, total_ns } => Combo3Model {
                store: match m.op_span {
                    None => m.store,
                    Some(op) => m.store.with_fields(
                        op,
                        closing_fields(outcome, attempt_count, total_ns),
                    ),
                },
                op_span: None,
            },
        }
    }

    fn op_start(&mut self, input: &OperationInput, start_ns: u64) {
        let mut fields = no_fields();
        put(&mut fields, ATTR_OPERATION, FieldValue::Text(input.name.to_owned()));
        put(&mut fields, ATTR_ENDPOINT, FieldValue::Text(input.endpoint.to_owned()));
        put(
            &mut fields,
            ATTR_CLIENT_REQUEST_ID,
            FieldValue::Text(input.client_request_id.to_owned()),
        );
        put(&mut fields, FIELD_START_NS, FieldValue::U64(start_ns));
        let id: u64 = self.store.next_order();
        self.store.new_span(id, SPAN_OPERATION, None, fields);
        self.op_span = Some(id);
    }

    fn attempt(
        &mut self,
        attempt_index: u32,
        status: u16,
        service_request_id: Option<&str>,
        request_charge: Option<&Charge>,
        start_ns: u64,
        duration_ns: u64,
    ) {
        if let Some(op) = self.op_span {
            let svc: &str = match service_request_id {
                Some(s) => s,
                None => "",
            };
            proof {
                reveal_strlit("");
                assert(""@ =~= Seq::empty());
            }
            let mut fields = no_fields();
            put(&mut fields, ATTR_ATTEMPT_INDEX, FieldValue::U64(attempt_index as u64));
            put(&mut fields, ATTR_STATUS_CODE, FieldValue::U64(status as u64));
            put(&mut fields, ATTR_SERVICE_REQUEST_ID, FieldValue::Text(svc.to_owned()));
            put(&mut fields, ATTR_REQUEST_CHARGE, charge_field(request_charge));
            put(&mut fields, FIELD_START_NS, FieldValue::U64(start_ns));
            put(&mut fields, FIELD_DURATION_NS, FieldValue::U64(duration_ns));
            let id: u64 = self.store.next_order();
            self.store.new_span(id, SPAN_ATTEMPT, Some(op), fields);
            self.store.event(Some(id), make_answer_fields(status));
        }
    }

    fn child(
        &mut self,
        _child_index: u32,
        plan_node_id: &str,
        feed_range: &str,
        start_ns: u64,
        duration_ns: u64,
    ) {
        if let Some(op) = self.op_span {
            let mut fields = no_fields();
            put(&mut fields, ATTR_PLAN_NODE_ID, FieldValue::Text(plan_node_id.to_owned()));
            put(&mut fields, ATTR_FEED_RANGE, FieldValue::Text(feed_range.to_owned()));
            put(&mut fields, FIELD_START_NS, FieldValue::U64(start_ns));
            put(&mut fields, FIELD_DURATION_NS, FieldValue::U64(duration_ns));
            let id: u64 = self.store.next_order();
            self.store.new_span(id, SPAN_ROUTING, Some(op), fields);
        }
    }

    fn op_end(&mut self, outcome: Outcome, attempt_count: u32, total_ns: u64) {
        if let Some(op) = self.op_span {
            let mut fields = no_fields();
            put(&mut fields, ATTR_ATTEMPT_COUNT, FieldValue::U64(attempt_count as u64));
            put(&mut fields, FIELD_DURATION_NS, FieldValue::U64(total_ns));
            put(&mut fields, ATTR_OUTCOME, FieldValue::Text(outcome.as_str().to_owned()));
            self.store.record(op, &fields);
        }
        self.op_span = None;
    }
}

// ---------------------------------------------------------------------------
// What the store holds after an operation
// ---------------------------------------------------------------------------

/// The root span as the start of an operation leaves it.
pub open spec fn opening_span(input: InputModel, now: u64) -> RawModel {
    RawModel {
        name: SPAN_OPERATION@,
        parent: None,
        fields: opening_fields(input.name, input.endpoint, input.client_request_id, now),
        events: Seq::empty(),
        order: 0,
    }
}

/// The root span as the end of an operation leaves it.
pub open spec fn closed_span(input: InputModel, now: u64) -> RawModel {
    RawModel {
        fields: opening_fields(
            input.name,
            input.endpoint,
            input.client_request_id,
            now,
        ).union_prefer_right(
            closing_fields(
                input.outcome(),
                input.attempts.len() as u32,
                input.total_ns() as u64,
            ),
        ),
        ..opening_span(input, now)
    }
}

/// The span of attempt `i`.
pub open spec fn attempt_span(
    input: InputModel,
    response: ResponseModel,
    now: u64,
    i: int,
) -> RawModel {
    RawModel {
        name: SPAN_ATTEMPT@,
        parent: Some(0),
        fields: attempt_fields(
            i as u32,
            response.status,
            response.service_request_id,
            response.request_charge,
            (now + input.attempts_ns(i as nat)) as u64,
            input.attempts[i].duration_ns,
        ),
        events: seq![answer_fields(response.status)],
        order: (i + 1) as u64,
    }
}

/// The span of child `i` of an operation whose children start at `now`.
pub open spec fn child_span(input: InputModel, now: u64, i: int) -> RawModel {
    RawModel {
        name: SPAN_ROUTING@,
        parent: Some(0),
        fields: child_fields(
            input.children[i].plan_node_id,
            input.children[i].feed_range,
            (now + input.children_ns(i as nat)) as u64,
            input.children[i].duration_ns,
        ),
        events: Seq::empty(),
        order: (input.attempts.len() + i + 1) as u64,
    }
}

/// Span `id` of an operation that starts at `now` and gets these responses: the root, then the
/// attempts, then the children.
pub open spec fn span_with_id(
    input: InputModel,
    responses: Seq<ResponseModel>,
    now: u64,
    root: RawModel,
    id: u64,
) -> RawModel {
    if id == 0 {
        root
    } else if id <= input.attempts.len() {
        attempt_span(input, responses[id - 1], now, id - 1)
    } else {
        child_span(input, children_start(input, now), id - 1 - input.attempts.len())
    }
}

/// The root and the first `n` spans under it.
pub open spec fn spans_upto(
    input: InputModel,
    responses: Seq<ResponseModel>,
    now: u64,
    root: RawModel,
    n: nat,
) -> SpansModel {
    Map::new(|id: u64| id <= n, |id: u64| span_with_id(input, responses, now, root, id))
}

/// What is stored once the operation has started.
proof fn lemma_started(input: InputModel, responses: Seq<ResponseModel>, now: u64)
    ensures
        Combo3Sink::step(Combo3Model::empty(), start_event(input, now)) == (Combo3Model {
            store: StoreModel {
                spans: spans_upto(input, responses, now, opening_span(input, now), 0),
                next_order: 1,
            },
            op_span: Some(0),
        }),
{
    let m = Combo3Sink::step(Combo3Model::empty(), start_event(input, now));
    assert(m.store.spans =~= spans_upto(input, responses, now, opening_span(input, now), 0));
}

/// What is stored after the first `n` attempts.
proof fn lemma_attempts_stored(
    input: InputModel,
    responses: Seq<ResponseModel>,
    now: u64,
    n: nat,
)
    requires
        n <= input.attempts.len(),
        n + 1 < u64::MAX,
    ensures
        after_events::<Combo3Sink>(
            Combo3Model::empty(),
            seq![start_event(input, now)] + attempt_events(input, responses, now, n),
        ) == (Combo3Model {
            store: StoreModel {
                spans: spans_upto(input, responses, now, opening_span(input, now), n),
                next_order: (n + 1) as u64,
            },
            op_span: Some(0),
        }),
    decreases n,
{
    let opening = seq![start_event(input, now)];
    let root = opening_span(input, now);
    let events = opening + attempt_events(input, responses, now, n);
    let empty = Combo3Model::empty();
    if n == 0 {
        assert(events.drop_last() =~= Seq::empty());
        assert(events.last() == start_event(input, now));
        assert(after_events::<Combo3Sink>(empty, events.drop_last()) == empty);
        lemma_started(input, responses, now);
    } else {
        let i = n - 1;
        lemma_attempts_stored(input, responses, now, i as nat);
        assert(events.drop_last() =~= opening + attempt_events(input, responses, now, i as nat));
        assert(events.last() == attempt_event(input, responses[i], now, i));
        let before = after_events::<Combo3Sink>(empty, events.drop_last());
        let after = Combo3Sink::step(before, events.last());
        let span = attempt_span(input, responses[i], now, i);
        assert(after.store.spans[n as u64].events =~= span.events);
        assert(after.store.spans =~= spans_upto(input, responses, now, root, n));
    }
}

/// What the first `n` children add to what is stored.
proof fn lemma_children_stored(
    input: InputModel,
    responses: Seq<ResponseModel>,
    now: u64,
    n: nat,
)
    requires
        n <= input.children.len(),
        input.attempts.len() + n + 1 < u64::MAX,
    ensures
        after_events::<Combo3Sink>(
            Combo3Model {
                store: StoreModel {
                    spans: spans_upto(
                        input,
                        responses,
                        now,
                        opening_span(input, now),
                        input.attempts.len(),
                    ),
                    next_order: (input.attempts.len() + 1) as u64,
                },
                op_span: Some(0),
            },
            child_events(input, children_start(input, now), n),
        ) == (Combo3Model {
            store: StoreModel {
                spans: spans_upto(
                    input,
                    responses,
                    now,
                    opening_span(input, now),
                    input.attempts.len() + n,
                ),
                next_order: (input.attempts.len() + n + 1) as u64,
            },
            op_span: Some(0),
        }),
    decreases n,
{
    let start = children_start(input, now);
    let root = opening_span(input, now);
    let a = input.attempts.len();
    let events = child_events(input, start, n);
    let first = Combo3Model {
        store: StoreModel {
            spans: spans_upto(input, responses, now, root, a),
            next_order: (a + 1) as u64,
        },
        op_span: Some(0u64),
    };
    if n > 0 {
        let i = n - 1;
        lemma_children_stored(input, responses, now, i as nat);
        assert(events.drop_last() =~= child_events(input, start, i as nat));
        assert(events.last() == child_event(input, start, i));
        let before = after_events::<Combo3Sink>(first, events.drop_last());
        let after = Combo3Sink::step(before, events.last());
        assert(after.store.spans =~= spans_upto(input, responses, now, root, a + n));
    }
}

/// The spans of an operation.
pub open spec fn operation_spans(
    input: InputModel,
    responses: Seq<ResponseModel>,
    now: u64,
) -> SpansModel {
    spans_upto(
        input,
        responses,
        now,
        closed_span(input, now),
        input.attempts.len() + input.children.len(),
    )
}

/// What is stored of a whole operation.
pub proof fn lemma_operation_stored(input: InputModel, responses: Seq<ResponseModel>, now: u64)
    requires
        responses.len() == input.attempts.len(),
        input.attempts.len() + input.children.len() + 1 < u64::MAX,
    ensures
        after_events::<Combo3Sink>(
            Combo3Model::empty(),
            operation_events(input, responses, now),
        ).store.spans == operation_spans(input, responses, now),
{
    let opening = seq![start_event(input, now)] + attempt_events(
        input,
        responses,
        now,
        input.attempts.len(),
    );
    let empty = Combo3Model::empty();
    let start = children_start(input, now);
    law_events_compose::<Combo3Sink>(empty, opening, closing_events(input, now));
    lemma_attempts_stored(input, responses, now, input.attempts.len());
    lemma_children_stored(input, responses, now, input.children.len());
    let attempted = after_events::<Combo3Sink>(empty, opening);
    assert(closing_events(input, now).drop_last() =~= child_events(
        input,
        start,
        input.children.len(),
    ));
    let childed = after_events::<Combo3Sink>(
        attempted,
        child_events(input, start, input.children.len()),
    );
    let done = Combo3Sink::step(childed, end_event(input));
    assert(done.store.spans =~= operation_spans(input, responses, now));
}

// ---------------------------------------------------------------------------
// What the typed objects say of an operation
// ---------------------------------------------------------------------------

/// The typed object of attempt `i`.
pub open spec fn eager_attempt(
    input: InputModel,
    response: ResponseModel,
    now: u64,
    i: int,
) -> AttemptSpanModel {
    AttemptSpanModel {
        attempt_index: i as u32 as u64,
        status: response.status as u64,
        service_request_id: Some(stored_id(response.service_request_id)),
        request_charge: charge_value(response.request_charge).as_number(),
        start_ns: (now + input.attempts_ns(i as nat)) as u64,
        duration_ns: input.attempts[i].duration_ns,
        events: seq![answer_fields(response.status)],
    }
}

/// The typed object of child `i` of an operation whose children start at `now`.
pub open spec fn eager_child(input: InputModel, now: u64, i: int) -> ChildSpanModel {
    ChildSpanModel {
        plan_node_id: Some(input.children[i].plan_node_id),
        feed_range: Some(input.children[i].feed_range),
        start_ns: (now + input.children_ns(i as nat)) as u64,
        duration_ns: input.children[i].duration_ns,
    }
}

/// The typed object of an operation that starts at `now` and gets these responses.
pub open spec fn eager(
    input: InputModel,
    responses: Seq<ResponseModel>,
    now: u64,
) -> OperationModel {
    OperationModel {
        operation: Some(input.name),
        endpoint: Some(input.endpoint),
        client_request_id: Some(input.client_request_id),
        outcome: Some(input.outcome().word()),
        attempt_count: input.attempts.len() as u32 as u64,
        start_ns: now,
        duration_ns: input.total_ns() as u64,
        attempts: Seq::new(
            input.attempts.len(),
            |i: int| eager_attempt(input, responses[i], now, i),
        ),
        children: Seq::new(
            input.children.len(),
            |i: int| eager_child(input, children_start(input, now), i),
        ),
    }
}

/// The names of the fields of the root span differ.
proof fn lemma_root_names_differ()
    ensures
        ATTR_OPERATION@ != ATTR_ENDPOINT@,
        ATTR_OPERATION@ != ATTR_CLIENT_REQUEST_ID@,
        ATTR_OPERATION@ != FIELD_START_NS@,
        ATTR_ENDPOINT@ != ATTR_CLIENT_REQUEST_ID@,
        ATTR_ENDPOINT@ != FIELD_START_NS@,
        ATTR_CLIENT_REQUEST_ID@ != FIELD_START_NS@,
        ATTR_ATTEMPT_COUNT@ != FIELD_DURATION_NS@,
        ATTR_ATTEMPT_COUNT@ != ATTR_OUTCOME@,
        FIELD_DURATION_NS@ != ATTR_OUTCOME@,
        ATTR_OPERATION@ != ATTR_ATTEMPT_COUNT@,
        ATTR_OPERATION@ != FIELD_DURATION_NS@,
        ATTR_OPERATION@ != ATTR_OUTCOME@,
        ATTR_ENDPOINT@ != ATTR_ATTEMPT_COUNT@,
        ATTR_ENDPOINT@ != FIELD_DURATION_NS@,
        ATTR_ENDPOINT@ != ATTR_OUTCOME@,
        ATTR_CLIENT_REQUEST_ID@ != ATTR_ATTEMPT_COUNT@,
        ATTR_CLIENT_REQUEST_ID@ != FIELD_DURATION_NS@,
        ATTR_CLIENT_REQUEST_ID@ != ATTR_OUTCOME@,
        FIELD_START_NS@ != ATTR_ATTEMPT_COUNT@,
        FIELD_START_NS@ != FIELD_DURATION_NS@,
        FIELD_START_NS@ != ATTR_OUTCOME@,
{
    reveal_strlit("az.operation");
    reveal_strlit("az.endpoint");
    reveal_strlit("az.client_request_id");
    reveal_strlit("az.start_ns");
    reveal_strlit("az.attempt_count");
    reveal_strlit("az.duration_ns");
    reveal_strlit("az.outcome");
    assert(ATTR_OPERATION@.len() == 12);
    assert(ATTR_ENDPOINT@.len() == 11);
    assert(ATTR_CLIENT_REQUEST_ID@.len() == 20);
    assert(FIELD_START_NS@.len() == 11);
    assert(ATTR_ATTEMPT_COUNT@.len() == 16);
    assert(FIELD_DURATION_NS@.len() == 14);
    assert(ATTR_OUTCOME@.len() == 10);
    assert(ATTR_ENDPOINT@[3] != FIELD_START_NS@[3]);
}

/// The names of the fields of the span of an attempt differ.
proof fn lemma_attempt_names_differ()
    ensures
        ATTR_ATTEMPT_INDEX@ != ATTR_STATUS_CODE@,
        ATTR_ATTEMPT_INDEX@ != ATTR_SERVICE_REQUEST_ID@,
        ATTR_ATTEMPT_INDEX@ != ATTR_REQUEST_CHARGE@,
        ATTR_ATTEMPT_INDEX@ != FIELD_START_NS@,
        ATTR_ATTEMPT_INDEX@ != FIELD_DURATION_NS@,
        ATTR_STATUS_CODE@ != ATTR_SERVICE_REQUEST_ID@,
        ATTR_STATUS_CODE@ != ATTR_REQUEST_CHARGE@,
        ATTR_STATUS_CODE@ != FIELD_START_NS@,
        ATTR_STATUS_CODE@ != FIELD_DURATION_NS@,
        ATTR_SERVICE_REQUEST_ID@ != ATTR_REQUEST_CHARGE@,
        ATTR_SERVICE_REQUEST_ID@ != FIELD_START_NS@,
        ATTR_SERVICE_REQUEST_ID@ != FIELD_DURATION_NS@,
        ATTR_REQUEST_CHARGE@ != FIELD_START_NS@,
        ATTR_REQUEST_CHARGE@ != FIELD_DURATION_NS@,
        FIELD_START_NS@ != FIELD_DURATION_NS@,
{
    reveal_strlit("attempt_index");
    reveal_strlit("az.status_code");
    reveal_strlit("az.service_request_id");
    reveal_strlit("az.request_charge");
    reveal_strlit("az.start_ns");
    reveal_strlit("az.duration_ns");
    assert(ATTR_ATTEMPT_INDEX@.len() == 13);
    assert(ATTR_STATUS_CODE@.len() == 14);
    assert(ATTR_SERVICE_REQUEST_ID@.len() == 21);
    assert(ATTR_REQUEST_CHARGE@.len() == 17);
    assert(FIELD_START_NS@.len() == 11);
    assert(FIELD_DURATION_NS@.len() == 14);
    assert(ATTR_STATUS_CODE@[3] != FIELD_DURATION_NS@[3]);
}

/// The names of the fields of the span of a child differ, and so do the names of spans.
proof fn lemma_child_names_differ()
    ensures
        ATTR_PLAN_NODE_ID@ != ATTR_FEED_RANGE@,
        ATTR_PLAN_NODE_ID@ != FIELD_START_NS@,
        ATTR_PLAN_NODE_ID@ != FIELD_DURATION_NS@,
        ATTR_FEED_RANGE@ != FIELD_START_NS@,
        ATTR_FEED_RANGE@ != FIELD_DURATION_NS@,
        FIELD_START_NS@ != FIELD_DURATION_NS@,
        SPAN_ATTEMPT@ != SPAN_ROUTING@,
{
    reveal_strlit("az.plan_node_id");
    reveal_strlit("az.feed_range");
    reveal_strlit("az.start_ns");
    reveal_strlit("az.duration_ns");
    reveal_strlit("attempt");
    reveal_strlit("routing");
    assert(ATTR_PLAN_NODE_ID@.len() == 15);
    assert(ATTR_FEED_RANGE@.len() == 13);
    assert(FIELD_START_NS@.len() == 11);
    assert(FIELD_DURATION_NS@.len() == 14);
    assert(SPAN_ATTEMPT@[0] != SPAN_ROUTING@[0]);
}

/// The typed objects of the spans of attempts and children.
proof fn lemma_spans_typed(input: InputModel, response: ResponseModel, now: u64, i: int)
    ensures
        attempt_of(attempt_span(input, response, now, i)) == eager_attempt(input, response, now, i),
        child_of(child_span(input, now, i)) == eager_child(input, now, i),
{
    lemma_attempt_names_differ();
    lemma_child_names_differ();
}

/// The ids of the first `n` spans under the root.
pub open spec fn ids_upto(n: nat) -> Seq<u64> {
    Seq::new(n, |i: int| (i + 1) as u64)
}

/// The spans under the root are its children, in the order of their ids.
proof fn lemma_children_listed(input: InputModel, responses: Seq<ResponseModel>, now: u64)
    requires
        responses.len() == input.attempts.len(),
        input.attempts.len() + input.children.len() + 1 < u64::MAX,
    ensures
        is_root(operation_spans(input, responses, now), 0),
        lists_children(
            operation_spans(input, responses, now),
            0,
            ids_upto(input.attempts.len() + input.children.len()),
        ),
{
    let spans = operation_spans(input, responses, now);
    let n = input.attempts.len() + input.children.len();
    let ids = ids_upto(n);
    assert forall|other: u64| #[trigger] is_top(spans, other) && other != 0 implies precedes(
        spans,
        0,
        other,
    ) by {
        assert(spans[other].parent == Some(0u64));
    }
    assert forall|id: u64| #[trigger] ids.contains(id) <==> is_child(spans, 0, id) by {
        if ids.contains(id) {
            let i = choose|i: int| 0 <= i < ids.len() && ids[i] == id;
            assert(id == i + 1);
        }
        if is_child(spans, 0, id) {
            assert(id != 0);
            assert(ids[id - 1] == id);
        }
    }
    assert forall|i: int, j: int| 0 <= i < j < ids.len() implies precedes(
        spans,
        #[trigger] ids[i],
        #[trigger] ids[j],
    ) by {
        assert(spans[ids[i]].order == ids[i]);
        assert(spans[ids[j]].order == ids[j]);
    }
}

/// The typed objects of the first `n` spans under the root.
proof fn lemma_projected_upto(
    input: InputModel,
    responses: Seq<ResponseModel>,
    now: u64,
    n: nat,
)
    requires
        responses.len() == input.attempts.len(),
        input.attempts.len() + input.children.len() + 1 < u64::MAX,
        n <= input.attempts.len() + input.children.len(),
    ensures
        ({
            let spans = operation_spans(input, responses, now);
            let whole = eager(input, responses, now);
            let a = input.attempts.len();
            &&& attempts_among(spans, ids_upto(n)) == whole.attempts.take(
                if n <= a {
                    n as int
                } else {
                    a as int
                },
            )
            &&& children_among(spans, ids_upto(n)) == whole.children.take(
                if n <= a {
                    0
                } else {
                    n - a
                },
            )
        }),
    decreases n,
{
    let spans = operation_spans(input, responses, now);
    let whole = eager(input, responses, now);
    let a = input.attempts.len();
    let ids = ids_upto(n);
    if n == 0 {
        assert(whole.attempts.take(0) =~= Seq::empty());
        assert(whole.children.take(0) =~= Seq::empty());
    } else {
        lemma_projected_upto(input, responses, now, (n - 1) as nat);
        assert(ids.drop_last() =~= ids_upto((n - 1) as nat));
        assert(ids.last() == n as u64);
        lemma_child_names_differ();
        if n <= a {
            let i = n - 1;
            lemma_spans_typed(input, responses[i], now, i);
            assert(spans[n as u64] == attempt_span(input, responses[i], now, i));
            assert(whole.attempts.take(n as int) =~= whole.attempts.take(i).push(
                eager_attempt(input, responses[i], now, i),
            ));
        } else {
            let i = n - 1 - a;
            let start = children_start(input, now);
            lemma_spans_typed(input, responses[0], start, i);
            assert(spans[n as u64] == child_span(input, start, i));
            assert(whole.children.take(n - a) =~= whole.children.take(i).push(
                eager_child(input, start, i),
            ));
        }
    }
}

/// The eager objects tell all of an operation: its name, every attempt with what its response
/// carried and the event that answered it, every child, how it ended and how long it took. This
/// holds as long as the spans can be told apart by their ids.
pub proof fn law_spans_tell_the_operation(
    input: InputModel,
    responses: Seq<ResponseModel>,
    now: u64,
)
    requires
        responses.len() == input.attempts.len(),
        input.attempts.len() + input.children.len() + 1 < u64::MAX,
    ensures
        projected(
            after_events::<Combo3Sink>(
                Combo3Model::empty(),
                operation_events(input, responses, now),
            ).store.spans,
        ) == eager(input, responses, now),
{
    let spans = operation_spans(input, responses, now);
    let n = input.attempts.len() + input.children.len();
    let whole = eager(input, responses, now);
    lemma_operation_stored(input, responses, now);
    lemma_children_listed(input, responses, now);
    law_one_root(spans, 0);
    law_children_listed_one_way(spans, 0, ids_upto(n));
    lemma_projected_upto(input, responses, now, n);
    assert(whole.attempts.take(input.attempts.len() as int) =~= whole.attempts);
    assert(whole.children.take(input.children.len() as int) =~= whole.children);
    lemma_root_names_differ();
    let root = spans[0];
    assert(root == closed_span(input, now));
    assert(projected(spans) =~= whole);
}

// ---------------------------------------------------------------------------
// Collecting and constructing
// ---------------------------------------------------------------------------

/// The spans that are stored of an operation that runs as its script says, from `now`.
pub open spec fn collected(input: InputModel, now: u64) -> StoreModel {
    after_events::<Combo3Sink>(Combo3Model::empty(), script_events(input, now)).store
}

/// Collects the spans of `input` into a [`Store`].
pub fn collect(input: &OperationInput, clock: &mut MockClock) -> (store: Store)
    requires
        input@.runs_from(old(clock)@),
    ensures
        final(clock)@ == old(clock)@ + input@.total_ns(),
        store@ == collected(input@, old(clock)@),
{
    let mut sink = Combo3Sink::default();
    drive_sink(input, &mut sink, clock);
    sink.into_store()
}

/// Materializes the typed [`OperationSpan`] of a captured store.
pub fn construct(store: &Store) -> (op: OperationSpan)
    ensures
        op@ == projected(store@.spans),
{
    project(store)
}

/// Collects and constructs in one call.
pub fn capture(input: &OperationInput, clock: &mut MockClock) -> (op: OperationSpan)
    requires
        input@.runs_from(old(clock)@),
    ensures
        final(clock)@ == old(clock)@ + input@.total_ns(),
        op@ == projected(collected(input@, old(clock)@).spans),
        input@.attempts.len() + input@.children.len() + 1 < u64::MAX ==> op@ == eager(
            input@,
            scripted_responses(input@),
            old(clock)@,
        ),
        input@.attempts.len() + input@.children.len() + 1 < u64::MAX ==> {
            &&& op.start_ns == old(clock)@
            &&& op.duration_ns == final(clock)@ - old(clock)@
            &&& op.duration_ns == time_of(input@)
            &&& op.attempt_count == input.attempts@.len()
            &&& op.attempts@.len() == input.attempts@.len()
            &&& op.children@.len() == input.children@.len()
            &&& forall|i: int|
                0 <= i < op.attempts@.len() ==> (#[trigger] op.attempts@[i]).attempt_index == i
                    && op.attempts@[i].status == input.attempts@[i].status
                    && op.attempts@[i].duration_ns == input.attempts@[i].duration_ns
            &&& forall|i: int|
                0 <= i < op.children@.len() ==> (#[trigger] op.children@[i]).duration_ns
                    == input.children@[i].duration_ns
        },
{
    proof {
        law_what_can_run(input@, clock@);
        if input@.attempts.len() + input@.children.len() + 1 < u64::MAX {
            law_spans_tell_the_operation(input@, scripted_responses(input@), clock@);
            law_captured_objects_tell_the_script(input@, clock@);
            crate::laws::times::law_time_adds_up(input@);
        }
    }
    let store = collect(input, clock);
    let op = construct(&store);
    proof {
        assert forall|i: int| 0 <= i < op.attempts@.len() implies (
        #[trigger] op.attempts@[i])@ == op@.attempts[i] by {}
        assert forall|i: int| 0 <= i < op.children@.len() implies (
        #[trigger] op.children@[i])@ == op@.children[i] by {}
    }
    op
}

} // verus!
