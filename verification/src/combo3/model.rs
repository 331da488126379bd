//! The typed objects, and their projection from the captured [`Store`].
//!
//! The whole object graph is materialized, whether the operation succeeded or not.

use vstd::prelude::*;
use vstd::string::*;

use crate::attrs::{
    ATTR_ATTEMPT_COUNT, ATTR_ATTEMPT_INDEX, ATTR_CLIENT_REQUEST_ID, ATTR_ENDPOINT, ATTR_FEED_RANGE,
    ATTR_OPERATION, ATTR_OUTCOME, ATTR_PLAN_NODE_ID, ATTR_REQUEST_CHARGE, ATTR_SERVICE_REQUEST_ID,
    ATTR_STATUS_CODE,
};
use crate::combo3::collector::{
    children_of, events_view, lists_children, root_of, RawModel, RawSpan, SpansModel, Store,
};
use crate::combo3::fields::{
    copy_fields, field_number, field_str, field_u64, fields_view, number_in, text_in, u64_in,
    FieldNumber, Fields, FieldsModel,
};
use crate::scenarios::opt_text;
use crate::text::same_text;

verus! {

/// Field name for a start tick.
pub const FIELD_START_NS: &'static str = "az.start_ns";

/// Field name for a duration.
pub const FIELD_DURATION_NS: &'static str = "az.duration_ns";

/// The name of the span of an operation.
pub const SPAN_OPERATION: &'static str = "operation";

/// The name of the span of an attempt.
pub const SPAN_ATTEMPT: &'static str = "attempt";

/// The name of the span of a fan-out child.
pub const SPAN_ROUTING: &'static str = "routing";

/// A captured event, such as the response to an attempt.
#[derive(Clone, Debug, Default)]
pub struct EventRecord {
    /// The fields of the event.
    pub fields: Fields,
}

/// The span of an HTTP attempt.
#[derive(Clone, Debug, Default)]
pub struct AttemptSpan {
    /// Zero-based attempt index.
    pub attempt_index: u64,
    /// HTTP status code.
    pub status: u64,
    /// Service request id from the response.
    pub service_request_id: Option<String>,
    /// Request charge.
    pub request_charge: Option<FieldNumber>,
    /// Start tick (ns).
    pub start_ns: u64,
    /// Duration (ns).
    pub duration_ns: u64,
    /// Events of the attempt.
    pub events: Vec<EventRecord>,
}

/// What an [`AttemptSpan`] holds.
#[verifier::ext_equal]
pub struct AttemptSpanModel {
    pub attempt_index: u64,
    pub status: u64,
    pub service_request_id: Option<Seq<char>>,
    pub request_charge: Option<FieldNumber>,
    pub start_ns: u64,
    pub duration_ns: u64,
    pub events: Seq<FieldsModel>,
}

/// What a list of events holds.
pub open spec fn records_view(events: Seq<EventRecord>) -> Seq<FieldsModel> {
    Seq::new(events.len(), |i: int| fields_view(events[i].fields@))
}

impl View for AttemptSpan {
    type V = AttemptSpanModel;

    open spec fn view(&self) -> AttemptSpanModel {
        AttemptSpanModel {
            attempt_index: self.attempt_index,
            status: self.status,
            service_request_id: opt_text(self.service_request_id),
            request_charge: self.request_charge,
            start_ns: self.start_ns,
            duration_ns: self.duration_ns,
            events: records_view(self.events@),
        }
    }
}

/// The span of a fan-out child.
#[derive(Clone, Debug, Default)]
pub struct ChildSpan {
    /// Query-plan tree node id.
    pub plan_node_id: Option<String>,
    /// Feed range that the child addresses.
    pub feed_range: Option<String>,
    /// Start tick (ns).
    pub start_ns: u64,
    /// Duration (ns).
    pub duration_ns: u64,
}

/// What a [`ChildSpan`] holds.
#[verifier::ext_equal]
pub struct ChildSpanModel {
    pub plan_node_id: Option<Seq<char>>,
    pub feed_range: Option<Seq<char>>,
    pub start_ns: u64,
    pub duration_ns: u64,
}

impl View for ChildSpan {
    type V = ChildSpanModel;

    open spec fn view(&self) -> ChildSpanModel {
        ChildSpanModel {
            plan_node_id: opt_text(self.plan_node_id),
            feed_range: opt_text(self.feed_range),
            start_ns: self.start_ns,
            duration_ns: self.duration_ns,
        }
    }
}

/// The span of an operation, with everything under it.
#[derive(Clone, Debug)]
pub struct OperationSpan {
    /// Operation name.
    pub operation: Option<String>,
    /// Service endpoint.
    pub endpoint: Option<String>,
    /// Client request id.
    pub client_request_id: Option<String>,
    /// Final outcome (`success` or `error`).
    pub outcome: Option<String>,
    /// Total attempt count.
    pub attempt_count: u64,
    /// Start tick (ns).
    pub start_ns: u64,
    /// Total duration (ns).
    pub duration_ns: u64,
    /// The attempts, in order.
    pub attempts: Vec<AttemptSpan>,
    /// The fan-out children, in order.
    pub children: Vec<ChildSpan>,
}

/// What an [`OperationSpan`] holds.
#[verifier::ext_equal]
pub struct OperationModel {
    pub operation: Option<Seq<char>>,
    pub endpoint: Option<Seq<char>>,
    pub client_request_id: Option<Seq<char>>,
    pub outcome: Option<Seq<char>>,
    pub attempt_count: u64,
    pub start_ns: u64,
    pub duration_ns: u64,
    pub attempts: Seq<AttemptSpanModel>,
    pub children: Seq<ChildSpanModel>,
}

/// What a list of attempt spans holds.
pub open spec fn attempts_view(attempts: Seq<AttemptSpan>) -> Seq<AttemptSpanModel> {
    Seq::new(attempts.len(), |i: int| attempts[i]@)
}

/// What a list of child spans holds.
pub open spec fn children_view(children: Seq<ChildSpan>) -> Seq<ChildSpanModel> {
    Seq::new(children.len(), |i: int| children[i]@)
}

impl View for OperationSpan {
    type V = OperationModel;

    open spec fn view(&self) -> OperationModel {
        OperationModel {
            operation: opt_text(self.operation),
            endpoint: opt_text(self.endpoint),
            client_request_id: opt_text(self.client_request_id),
            outcome: opt_text(self.outcome),
            attempt_count: self.attempt_count,
            start_ns: self.start_ns,
            duration_ns: self.duration_ns,
            attempts: attempts_view(self.attempts@),
            children: children_view(self.children@),
        }
    }
}

impl OperationModel {
    /// An operation of which nothing is known.
    pub open spec fn empty() -> OperationModel {
        OperationModel {
            operation: None,
            endpoint: None,
            client_request_id: None,
            outcome: None,
            attempt_count: 0,
            start_ns: 0,
            duration_ns: 0,
            attempts: Seq::empty(),
            children: Seq::empty(),
        }
    }
}

impl Default for OperationSpan {
    fn default() -> (op: Self)
        ensures
            op@ == OperationModel::empty(),
    {
        let op = OperationSpan {
            operation: None,
            endpoint: None,
            client_request_id: None,
            outcome: None,
            attempt_count: 0,
            start_ns: 0,
            duration_ns: 0,
            attempts: Vec::new(),
            children: Vec::new(),
        };
        proof {
            assert(op@ =~= OperationModel::empty());
        }
        op
    }
}

// ---------------------------------------------------------------------------
// The projection
// ---------------------------------------------------------------------------

/// The typed object of an attempt's span.
pub open spec fn attempt_of(span: RawModel) -> AttemptSpanModel {
    AttemptSpanModel {
        attempt_index: u64_in(span.fields, ATTR_ATTEMPT_INDEX@),
        status: u64_in(span.fields, ATTR_STATUS_CODE@),
        service_request_id: text_in(span.fields, ATTR_SERVICE_REQUEST_ID@),
        request_charge: number_in(span.fields, ATTR_REQUEST_CHARGE@),
        start_ns: u64_in(span.fields, FIELD_START_NS@),
        duration_ns: u64_in(span.fields, FIELD_DURATION_NS@),
        events: span.events,
    }
}

/// The typed object of a child's span.
pub open spec fn child_of(span: RawModel) -> ChildSpanModel {
    ChildSpanModel {
        plan_node_id: text_in(span.fields, ATTR_PLAN_NODE_ID@),
        feed_range: text_in(span.fields, ATTR_FEED_RANGE@),
        start_ns: u64_in(span.fields, FIELD_START_NS@),
        duration_ns: u64_in(span.fields, FIELD_DURATION_NS@),
    }
}

/// The typed objects of the attempts among some spans, in their order.
pub open spec fn attempts_among(spans: SpansModel, ids: Seq<u64>) -> Seq<AttemptSpanModel>
    decreases ids.len(),
{
    if ids.len() == 0 {
        Seq::empty()
    } else {
        let before = attempts_among(spans, ids.drop_last());
        let span = spans[ids.last()];
        if span.name == SPAN_ATTEMPT@ {
            before.push(attempt_of(span))
        } else {
            before
        }
    }
}

/// The typed objects of the children among some spans, in their order.
pub open spec fn children_among(spans: SpansModel, ids: Seq<u64>) -> Seq<ChildSpanModel>
    decreases ids.len(),
{
    if ids.len() == 0 {
        Seq::empty()
    } else {
        let before = children_among(spans, ids.drop_last());
        let span = spans[ids.last()];
        if span.name != SPAN_ATTEMPT@ && span.name == SPAN_ROUTING@ {
            before.push(child_of(span))
        } else {
            before
        }
    }
}

/// The typed object of an operation, of its root span and of the spans right under it.
pub open spec fn projected(spans: SpansModel) -> OperationModel {
    match root_of(spans) {
        None => OperationModel::empty(),
        Some(id) => {
            let root = spans[id];
            let kids = children_of(spans, id);
            OperationModel {
                operation: text_in(root.fields, ATTR_OPERATION@),
                endpoint: text_in(root.fields, ATTR_ENDPOINT@),
                client_request_id: text_in(root.fields, ATTR_CLIENT_REQUEST_ID@),
                outcome: text_in(root.fields, ATTR_OUTCOME@),
                attempt_count: u64_in(root.fields, ATTR_ATTEMPT_COUNT@),
                start_ns: u64_in(root.fields, FIELD_START_NS@),
                duration_ns: u64_in(root.fields, FIELD_DURATION_NS@),
                attempts: attempts_among(spans, kids),
                children: children_among(spans, kids),
            }
        },
    }
}

/// Copies the events of a span.
fn copy_events(events: &Vec<Fields>) -> (copy: Vec<EventRecord>)
    ensures
        records_view(copy@) == events_view(events@),
{
    let mut copy: Vec<EventRecord> = Vec::new();
    let mut i: usize = 0;
    while i < events.len()
        invariant
            i <= events.len(),
            copy@.len() == i,
            forall|k: int|
                0 <= k < i ==> fields_view((#[trigger] copy@[k]).fields@) == fields_view(
                    events@[k]@,
                ),
        decreases events.len() - i,
    {
        copy.push(EventRecord { fields: copy_fields(&events[i]) });
        i = i + 1;
    }
    proof {
        assert(records_view(copy@) =~= events_view(events@));
    }
    copy
}

/// Makes the typed object of an attempt's span.
fn project_attempt(span: &RawSpan) -> (a: AttemptSpan)
    ensures
        a@ == attempt_of(span@),
{
    AttemptSpan {
        attempt_index: field_u64(&span.fields, ATTR_ATTEMPT_INDEX),
        status: field_u64(&span.fields, ATTR_STATUS_CODE),
        service_request_id: field_str(&span.fields, ATTR_SERVICE_REQUEST_ID),
        request_charge: field_number(&span.fields, ATTR_REQUEST_CHARGE),
        start_ns: field_u64(&span.fields, FIELD_START_NS),
        duration_ns: field_u64(&span.fields, FIELD_DURATION_NS),
        events: copy_events(&span.events),
    }
}

/// Makes the typed object of a child's span.
fn project_child(span: &RawSpan) -> (c: ChildSpan)
    ensures
        c@ == child_of(span@),
{
    ChildSpan {
        plan_node_id: field_str(&span.fields, ATTR_PLAN_NODE_ID),
        feed_range: field_str(&span.fields, ATTR_FEED_RANGE),
        start_ns: field_u64(&span.fields, FIELD_START_NS),
        duration_ns: field_u64(&span.fields, FIELD_DURATION_NS),
    }
}

/// Projects the raw capture [`Store`] into the typed [`OperationSpan`].
pub fn project(store: &Store) -> (op: OperationSpan)
    ensures
        op@ == projected(store@.spans),
{
    let root_id: u64 = match store.root() {
        Some(id) => id,
        None => {
            return OperationSpan::default();
        },
    };
    let root = match store.span(root_id) {
        Some(span) => span,
        None => {
            return OperationSpan::default();
        },
    };
    let ghost spans = store@.spans;
    let kids = store.children(root_id);
    let mut attempts: Vec<AttemptSpan> = Vec::new();
    let mut children: Vec<ChildSpan> = Vec::new();
    let mut i: usize = 0;
    proof {
        assert(attempts_view(attempts@) =~= attempts_among(spans, kids@.take(0)));
        assert(children_view(children@) =~= children_among(spans, kids@.take(0)));
    }
    while i < kids.len()
        invariant
            i <= kids.len(),
            spans == store@.spans,
            lists_children(spans, root_id, kids@),
            attempts_view(attempts@) == attempts_among(spans, kids@.take(i as int)),
            children_view(children@) == children_among(spans, kids@.take(i as int)),
        decreases kids.len() - i,
    {
        let id: u64 = kids[i];
        let ghost attempts_before = attempts@;
        let ghost children_before = children@;
        proof {
            assert(kids@.contains(id));
            assert(kids@.take(i + 1).drop_last() =~= kids@.take(i as int));
            assert(kids@.take(i + 1).last() == id);
        }
        if let Some(span) = store.span(id) {
            if same_text(span.name.as_str(), SPAN_ATTEMPT) {
                attempts.push(project_attempt(span));
                proof {
                    assert(attempts_view(attempts@) =~= attempts_view(attempts_before).push(
                        attempt_of(span@),
                    ));
                }
            } else if same_text(span.name.as_str(), SPAN_ROUTING) {
                children.push(project_child(span));
                proof {
                    assert(children_view(children@) =~= children_view(children_before).push(
                        child_of(span@),
                    ));
                }
            }
        }
        i = i + 1;
    }
    proof {
        assert(kids@.take(i as int) =~= kids@);
    }
    OperationSpan {
        operation: field_str(&root.fields, ATTR_OPERATION),
        endpoint: field_str(&root.fields, ATTR_ENDPOINT),
        client_request_id: field_str(&root.fields, ATTR_CLIENT_REQUEST_ID),
        outcome: field_str(&root.fields, ATTR_OUTCOME),
        attempt_count: field_u64(&root.fields, ATTR_ATTEMPT_COUNT),
        start_ns: field_u64(&root.fields, FIELD_START_NS),
        duration_ns: field_u64(&root.fields, FIELD_DURATION_NS),
        attempts,
        children,
    }
}

} // verus!
