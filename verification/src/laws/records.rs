//! What is kept of an operation before anything is built of it.

use vstd::prelude::*;
use vstd::string::*;

use crate::combo1::arena::{ArenaModel, SpanModel};
use crate::combo2::retained;
use crate::combo3;
use crate::combo3::{Combo3Model, Combo3Sink};
use crate::combo3::collector::{RawModel, StoreModel};
use crate::combo3::fields::{charge_value, double_value, FieldModel, FieldNumber, FieldsModel};
use crate::combo3::model::projected;
use crate::combo4::log::stored_charge;
use crate::combo4::parsed::{log_after, logged};
use crate::laws::times::{
    attempt_start, attempt_times, child_start, child_times, ends_well, law_time_adds_up,
    lemma_sum_within, sum_of, time_of,
};
use crate::laws::trees::fault_word;
use crate::scenarios::{
    after_events, operation_events, scripted_responses, InputModel, Outcome, ResponseModel,
};
use crate::wire::NodeKind;

verus! {

/// When the parts of an operation start, as the models count it.
proof fn lemma_starts(input: InputModel, now: u64)
    requires
        now + time_of(input) <= 0xFFFF_FFFF_FFFF_FFFF,
    ensures
        forall|i: int|
            #![trigger attempt_start(input, now, i)]
            #![trigger input.attempts[i]]
            0 <= i < input.attempts.len() ==> attempt_start(input, now, i) == (now
                + input.attempts_ns(i as nat)) as u64,
        forall|i: int|
            #![trigger child_start(input, now, i)]
            #![trigger input.children[i]]
            0 <= i < input.children.len() ==> child_start(input, now, i) == (
            crate::scenarios::children_start(input, now) + input.children_ns(i as nat)) as u64,
        input.total_ns() as u64 == time_of(input),
{
    law_time_adds_up(input);
    let a = attempt_times(input);
    let c = child_times(input);
    assert(a.take(input.attempts.len() as int) =~= a);
    assert(c.take(input.children.len() as int) =~= c);
    lemma_sum_within(a, 0, input.attempts.len() as int);
    lemma_sum_within(c, 0, input.children.len() as int);
    assert forall|i: int| 0 <= i < input.attempts.len() implies #[trigger] attempt_start(
        input,
        now,
        i,
    ) == (now + input.attempts_ns(i as nat)) as u64 by {
        assert(0 <= sum_of(a.take(i)) <= sum_of(a));
    }
    assert forall|i: int| 0 <= i < input.children.len() implies #[trigger] child_start(
        input,
        now,
        i,
    ) == (crate::scenarios::children_start(input, now) + input.children_ns(i as nat)) as u64 by {
        assert(0 <= sum_of(c.take(i)) <= sum_of(c));
    }
}

/// The retained model holds the operation: what it was, how it ended, how long it took, every
/// attempt with all that its response carried, and every child.
pub proof fn law_retained_holds_the_run(
    input: InputModel,
    responses: Seq<ResponseModel>,
    now: u64,
)
    requires
        responses.len() == input.attempts.len(),
        input.attempts.len() <= 0xFFFF_FFFF,
        now + time_of(input) <= 0xFFFF_FFFF_FFFF_FFFF,
    ensures
        ({
            let c = retained(input, responses, now);
            &&& c.operation == input.name
            &&& c.endpoint == input.endpoint
            &&& c.client_request_id == input.client_request_id
            &&& c.attempt_count == input.attempts.len()
            &&& c.succeeded == ends_well(input)
            &&& c.start_ns == now
            &&& c.total_ns == time_of(input)
            &&& c.attempts.len() == input.attempts.len()
            &&& forall|i: int|
                0 <= i < c.attempts.len() ==> (#[trigger] c.attempts[i]).index == i
                    && c.attempts[i].status == responses[i].status
                    && c.attempts[i].service_request_id == responses[i].service_request_id
                    && c.attempts[i].request_charge == responses[i].request_charge
                    && c.attempts[i].start_ns == attempt_start(input, now, i)
                    && c.attempts[i].duration_ns == input.attempts[i].duration_ns
            &&& c.children.len() == input.children.len()
            &&& forall|i: int|
                0 <= i < c.children.len() ==> (#[trigger] c.children[i]).plan_node_id
                    == input.children[i].plan_node_id && c.children[i].feed_range
                    == input.children[i].feed_range && c.children[i].start_ns == child_start(
                    input,
                    now,
                    i,
                ) && c.children[i].duration_ns == input.children[i].duration_ns
        }),
{
    lemma_starts(input, now);
}

/// A log holds the operation: what it was, how it ended, how long it took, every attempt with what
/// its response carried, and every child.
pub proof fn law_log_holds_the_run(
    input: InputModel,
    responses: Seq<ResponseModel>,
    now: u64,
)
    requires
        responses.len() == input.attempts.len(),
        input.attempts.len() <= 0xFFFF_FFFF,
        now + time_of(input) <= 0xFFFF_FFFF_FFFF_FFFF,
    ensures
        ({
            let p = logged(input, responses, now);
            &&& p.operation == input.name
            &&& p.endpoint == input.endpoint
            &&& p.client_request_id == input.client_request_id
            &&& p.attempt_count == input.attempts.len()
            &&& p.outcome == Outcome::Success <==> ends_well(input)
            &&& p.start_ns == now
            &&& p.total_ns == time_of(input)
            &&& p.attempts.len() == input.attempts.len()
            &&& forall|i: int|
                0 <= i < p.attempts.len() ==> (#[trigger] p.attempts[i]).index == i
                    && p.attempts[i].status == responses[i].status && p.attempts[i].start_ns
                    == attempt_start(input, now, i) && p.attempts[i].duration_ns
                    == input.attempts[i].duration_ns && (responses[i].service_request_id matches
                    Some(id) ==> p.attempts[i].service_request_id == id) && (
                responses[i].service_request_id is None ==> p.attempts[i].service_request_id.len()
                    == 0) && (responses[i].request_charge matches Some(c)
                    ==> p.attempts[i].request_charge == c.single) && (
                responses[i].request_charge is None ==> p.attempts[i].request_charge == 0)
            &&& p.children.len() == input.children.len()
            &&& forall|i: int|
                0 <= i < p.children.len() ==> (#[trigger] p.children[i]).plan_node_id
                    == input.children[i].plan_node_id && p.children[i].feed_range
                    == input.children[i].feed_range && p.children[i].start_ns == child_start(
                    input,
                    now,
                    i,
                ) && p.children[i].duration_ns == input.children[i].duration_ns
        }),
{
    lemma_starts(input, now);
}

/// What a finished log says of the end without being read is what the operation did.
pub proof fn law_finished_logs_know_the_end(
    input: InputModel,
    responses: Seq<ResponseModel>,
    now: u64,
)
    requires
        responses.len() == input.attempts.len(),
        input.attempts.len() <= 0xFFFF_FFFF,
        now + time_of(input) <= 0xFFFF_FFFF_FFFF_FFFF,
    ensures
        ({
            let log = log_after(operation_events(input, responses, now));
            &&& log.outcome == Outcome::Success <==> ends_well(input)
            &&& log.total_ns == time_of(input)
            &&& log.attempt_count == input.attempts.len()
        }),
{
    lemma_starts(input, now);
    let events = operation_events(input, responses, now);
    assert(events.last() == crate::scenarios::end_event(input));
}

/// The charge that a number of a field stands for.
pub open spec fn charge_number(bits: u64) -> Option<FieldNumber> {
    if bits % 0x8000_0000_0000_0000 < 0x7FF0_0000_0000_0000 {
        Some(FieldNumber::Float(bits))
    } else {
        None
    }
}

/// The typed objects tell the operation: what it was, how it ended, how far the clock moved, every
/// attempt with what its response carried and the one event that answered it, and every child.
pub proof fn law_objects_tell_the_run(
    input: InputModel,
    responses: Seq<ResponseModel>,
    now: u64,
)
    requires
        responses.len() == input.attempts.len(),
        input.attempts.len() <= 0xFFFF_FFFF,
        now + time_of(input) <= 0xFFFF_FFFF_FFFF_FFFF,
    ensures
        ({
            let op = combo3::eager(input, responses, now);
            &&& op.operation == Some(input.name)
            &&& op.endpoint == Some(input.endpoint)
            &&& op.client_request_id == Some(input.client_request_id)
            &&& ends_well(input) ==> op.outcome == Some("success"@)
            &&& !ends_well(input) ==> op.outcome == Some("error"@)
            &&& op.attempt_count == input.attempts.len()
            &&& op.start_ns == now
            &&& op.duration_ns == time_of(input)
            &&& op.attempts.len() == input.attempts.len()
            &&& forall|i: int|
                0 <= i < op.attempts.len() ==> (#[trigger] op.attempts[i]).attempt_index == i
                    && op.attempts[i].status == responses[i].status && op.attempts[i].start_ns
                    == attempt_start(input, now, i) && op.attempts[i].duration_ns
                    == input.attempts[i].duration_ns && (responses[i].service_request_id matches
                    Some(id) ==> op.attempts[i].service_request_id == Some(id)) && (
                responses[i].service_request_id is None ==> op.attempts[i].service_request_id
                    == Some(Seq::<char>::empty())) && (responses[i].request_charge matches Some(c)
                    ==> op.attempts[i].request_charge == charge_number(c.bits)) && (
                responses[i].request_charge is None ==> op.attempts[i].request_charge == Some(
                    FieldNumber::Float(0),
                ))
            &&& forall|i: int|
                0 <= i < op.attempts.len() ==> (#[trigger] op.attempts[i]).events.len() == 1
                    && tells_answer(op.attempts[i].events[0], responses[i].status)
            &&& op.children.len() == input.children.len()
            &&& forall|i: int|
                0 <= i < op.children.len() ==> (#[trigger] op.children[i]).plan_node_id == Some(
                    input.children[i].plan_node_id,
                ) && op.children[i].feed_range == Some(input.children[i].feed_range)
                    && op.children[i].start_ns == child_start(input, now, i)
                    && op.children[i].duration_ns == input.children[i].duration_ns
        }),
{
    lemma_starts(input, now);
    let op = combo3::eager(input, responses, now);
    assert forall|i: int| 0 <= i < op.attempts.len() implies (
    #[trigger] op.attempts[i]).events.len() == 1 && tells_answer(
        op.attempts[i].events[0],
        responses[i].status,
    ) by {
        lemma_answer(responses[i].status);
    }
    assert forall|bits: u64, text: Seq<char>| #[trigger]
        double_value(bits, text).as_number() == charge_number(bits) by {
        if bits >= 0x8000_0000_0000_0000 {
            assert(bits % 0x8000_0000_0000_0000 == bits - 0x8000_0000_0000_0000);
        }
    }
}

/// The event says that a response came, or that an error did and which, with its status.
pub open spec fn tells_answer(event: FieldsModel, status: u16) -> bool {
    &&& event.contains_key("az.event"@)
    &&& event.contains_key("az.status_code"@)
    &&& event["az.status_code"@] == FieldModel::U64(status as u64)
    &&& event["az.event"@] == FieldModel::Text(
        if 200 <= status <= 299 {
            "response"@
        } else {
            "error"@
        },
    )
    &&& match fault_word(status) {
        Some(word) => event.contains_key("az.error_kind"@) && event["az.error_kind"@]
            == FieldModel::Text(word),
        None => !event.contains_key("az.error_kind"@),
    }
    &&& forall|key: Seq<char>| #[trigger]
        event.contains_key(key) ==> key == "az.event"@ || key == "az.status_code"@ || key
            == "az.error_kind"@
}

proof fn lemma_answer(status: u16)
    ensures
        tells_answer(combo3::answer_fields(status), status),
{
    reveal_strlit("az.event");
    reveal_strlit("az.status_code");
    reveal_strlit("az.error_kind");
    assert("az.event"@.len() == 8);
    assert("az.status_code"@.len() == 14);
    assert("az.error_kind"@.len() == 13);
}

/// Capturing a script eagerly gives objects that tell the script, as long as its spans can be told
/// apart by their ids; the operation lasts as long as its attempts and children together.
pub proof fn law_captured_objects_tell_the_script(input: InputModel, now: u64)
    requires
        input.attempts.len() <= 0xFFFF_FFFF,
        input.attempts.len() + input.children.len() + 1 < 0xFFFF_FFFF_FFFF_FFFF,
        now + time_of(input) <= 0xFFFF_FFFF_FFFF_FFFF,
    ensures
        ({
            let op = projected(combo3::collected(input, now).spans);
            &&& op.operation == Some(input.name)
            &&& op.endpoint == Some(input.endpoint)
            &&& op.client_request_id == Some(input.client_request_id)
            &&& ends_well(input) ==> op.outcome == Some("success"@)
            &&& !ends_well(input) ==> op.outcome == Some("error"@)
            &&& op.attempt_count == input.attempts.len()
            &&& op.start_ns == now
            &&& op.duration_ns == time_of(input)
            &&& op.attempts.len() == input.attempts.len()
            &&& forall|i: int|
                0 <= i < op.attempts.len() ==> (#[trigger] op.attempts[i]).attempt_index == i
                    && op.attempts[i].status == input.attempts[i].status
                    && op.attempts[i].service_request_id == Some(
                    input.attempts[i].service_request_id,
                ) && op.attempts[i].request_charge == charge_number(
                    input.attempts[i].request_charge.bits,
                ) && op.attempts[i].start_ns == attempt_start(input, now, i)
                    && op.attempts[i].duration_ns == input.attempts[i].duration_ns
                    && op.attempts[i].events.len() == 1 && tells_answer(
                    op.attempts[i].events[0],
                    input.attempts[i].status,
                )
            &&& op.children.len() == input.children.len()
            &&& forall|i: int|
                0 <= i < op.children.len() ==> (#[trigger] op.children[i]).plan_node_id == Some(
                    input.children[i].plan_node_id,
                ) && op.children[i].feed_range == Some(input.children[i].feed_range)
                    && op.children[i].start_ns == child_start(input, now, i)
                    && op.children[i].duration_ns == input.children[i].duration_ns
        }),
{
    let responses = scripted_responses(input);
    combo3::law_spans_tell_the_operation(input, responses, now);
    law_objects_tell_the_run(input, responses, now);
    let op = projected(combo3::collected(input, now).spans);
    assert forall|i: int| 0 <= i < op.attempts.len() implies (#[trigger] op.attempts[i]).status
        == input.attempts[i].status && op.attempts[i].service_request_id == Some(
        input.attempts[i].service_request_id,
    ) && op.attempts[i].request_charge == charge_number(input.attempts[i].request_charge.bits)
        && tells_answer(op.attempts[i].events[0], input.attempts[i].status) by {
        assert(responses[i].status == input.attempts[i].status);
        assert(responses[i].service_request_id == Some(input.attempts[i].service_request_id));
        assert(responses[i].request_charge == Some(input.attempts[i].request_charge));
    }
}

// ---------------------------------------------------------------------------
// Fields
// ---------------------------------------------------------------------------

/// A double is kept where it is finite, with its text; nothing is kept of any other.
pub proof fn law_doubles_as_fields(bits: u64, text: Seq<char>)
    ensures
        bits % 0x8000_0000_0000_0000 < 0x7FF0_0000_0000_0000 ==> double_value(bits, text)
            == (FieldModel::Float { bits, text }),
        bits % 0x8000_0000_0000_0000 >= 0x7FF0_0000_0000_0000 ==> double_value(bits, text)
            == FieldModel::Null,
{
    if bits >= 0x8000_0000_0000_0000 {
        assert(bits % 0x8000_0000_0000_0000 == bits - 0x8000_0000_0000_0000);
    }
}

/// A charge is kept as its number and its JSON text, and zero where there is none; a log keeps its
/// single-precision pattern.
pub proof fn law_charges_as_fields(c: crate::charge::ChargeModel)
    ensures
        charge_value(Some(c)) == double_value(c.bits, c.json),
        charge_value(None) == (FieldModel::Float { bits: 0, text: "0.0"@ }),
        stored_charge(Some(c)) == c.single,
        stored_charge(None) == 0,
{
}

/// What a field reads as: text as it is, numbers in decimal, words for the rest; as a number only
/// where it holds one, and as one without a sign only where it is not negative.
pub proof fn law_fields_read(b: bool, n: u64, z: i64, bits: u64, text: Seq<char>)
    ensures
        FieldModel::Text(text).as_text() == text,
        (FieldModel::Float { bits, text }).as_text() == text,
        FieldModel::U64(n).as_text() == crate::text::decimal(n as nat),
        z >= 0 ==> FieldModel::I64(z).as_text() == crate::text::decimal(z as nat),
        z < 0 ==> FieldModel::I64(z).as_text() == "-"@ + crate::text::decimal((-z) as nat),
        FieldModel::Bool(b).as_text() == if b {
            "true"@
        } else {
            "false"@
        },
        FieldModel::Null.as_text() == "null"@,
        FieldModel::U64(n).as_u64() == Some(n),
        z >= 0 ==> FieldModel::I64(z).as_u64() == Some(z as u64),
        z < 0 ==> FieldModel::I64(z).as_u64() is None,
        FieldModel::Text(text).as_u64() is None,
        FieldModel::Bool(b).as_u64() is None,
        FieldModel::Null.as_u64() is None,
        (FieldModel::Float { bits, text }).as_u64() is None,
        FieldModel::U64(n).as_number() == Some(FieldNumber::U64(n)),
        FieldModel::I64(z).as_number() == Some(FieldNumber::I64(z)),
        (FieldModel::Float { bits, text }).as_number() == Some(FieldNumber::Float(bits)),
        FieldModel::Text(text).as_number() is None,
        FieldModel::Bool(b).as_number() is None,
        FieldModel::Null.as_number() is None,
{
}

/// A lookup among fields reads the field of that name, and gives nothing, or zero, where there is
/// none.
pub proof fn law_fields_are_looked_up(fields: FieldsModel, key: Seq<char>)
    ensures
        ({
            let text = crate::combo3::fields::text_in(fields, key);
            let whole = crate::combo3::fields::u64_in(fields, key);
            let number = crate::combo3::fields::number_in(fields, key);
            &&& !fields.contains_key(key) ==> text is None && whole == 0 && number is None
            &&& fields.contains_key(key) ==> text == Some(fields[key].as_text())
            &&& fields.contains_key(key) ==> number == fields[key].as_number()
            &&& fields.contains_key(key) && fields[key].as_u64() is Some ==> whole
                == fields[key].as_u64()->0
            &&& fields.contains_key(key) && fields[key].as_u64() is None ==> whole == 0
        }),
{
}

/// The typed object of a root span holds the root's own fields, each read under its name.
pub proof fn law_objects_hold_the_root(spans: Map<u64, RawModel>, root: u64)
    requires
        crate::combo3::collector::is_root(spans, root),
    ensures
        ({
            let op = projected(spans);
            let fields = spans[root].fields;
            &&& op.operation == crate::combo3::fields::text_in(fields, "az.operation"@)
            &&& op.endpoint == crate::combo3::fields::text_in(fields, "az.endpoint"@)
            &&& op.client_request_id == crate::combo3::fields::text_in(
                fields,
                "az.client_request_id"@,
            )
            &&& op.outcome == crate::combo3::fields::text_in(fields, "az.outcome"@)
            &&& op.attempt_count == crate::combo3::fields::u64_in(fields, "az.attempt_count"@)
            &&& op.start_ns == crate::combo3::fields::u64_in(fields, "az.start_ns"@)
            &&& op.duration_ns == crate::combo3::fields::u64_in(fields, "az.duration_ns"@)
        }),
{
    crate::combo3::collector::law_one_root(spans, root);
}

/// The typed objects of an attempt and of a child hold the fields of their span, each read under
/// its name, and the attempt its events.
pub proof fn law_objects_hold_their_span(span: RawModel)
    ensures
        ({
            let a = crate::combo3::model::attempt_of(span);
            let c = crate::combo3::model::child_of(span);
            let f = span.fields;
            &&& a.attempt_index == crate::combo3::fields::u64_in(f, "attempt_index"@)
            &&& a.status == crate::combo3::fields::u64_in(f, "az.status_code"@)
            &&& a.service_request_id == crate::combo3::fields::text_in(
                f,
                "az.service_request_id"@,
            )
            &&& a.request_charge == crate::combo3::fields::number_in(f, "az.request_charge"@)
            &&& a.start_ns == crate::combo3::fields::u64_in(f, "az.start_ns"@)
            &&& a.duration_ns == crate::combo3::fields::u64_in(f, "az.duration_ns"@)
            &&& a.events == span.events
            &&& c.plan_node_id == crate::combo3::fields::text_in(f, "az.plan_node_id"@)
            &&& c.feed_range == crate::combo3::fields::text_in(f, "az.feed_range"@)
            &&& c.start_ns == crate::combo3::fields::u64_in(f, "az.start_ns"@)
            &&& c.duration_ns == crate::combo3::fields::u64_in(f, "az.duration_ns"@)
        }),
{
}

/// The spans named `attempt` become attempts and those named `routing` children, in order; a span
/// of any other name becomes neither.
pub proof fn law_span_names_decide(spans: Map<u64, RawModel>, ids: Seq<u64>, id: u64)
    ensures
        ({
            let attempts = crate::combo3::model::attempts_among(spans, ids);
            let children = crate::combo3::model::children_among(spans, ids);
            let more = ids.push(id);
            let span = spans[id];
            &&& crate::combo3::model::attempts_among(spans, more) == if span.name == "attempt"@ {
                attempts.push(crate::combo3::model::attempt_of(span))
            } else {
                attempts
            }
            &&& crate::combo3::model::children_among(spans, more) == if span.name == "routing"@ {
                children.push(crate::combo3::model::child_of(span))
            } else {
                children
            }
            &&& crate::combo3::model::attempts_among(spans, Seq::empty()).len() == 0
            &&& crate::combo3::model::children_among(spans, Seq::empty()).len() == 0
        }),
{
    assert(ids.push(id).drop_last() =~= ids);
    assert(ids.push(id).last() == id);
    reveal_strlit("attempt");
    reveal_strlit("routing");
    assert("attempt"@[0] != "routing"@[0]);
}

// ---------------------------------------------------------------------------
// The stores
// ---------------------------------------------------------------------------

/// A new span is stored under its id as it was given, with no events yet, after those stored
/// before; all other spans stay.
pub proof fn law_new_spans_are_stored(
    store: StoreModel,
    id: u64,
    name: Seq<char>,
    parent: Option<u64>,
    fields: FieldsModel,
    other: u64,
)
    ensures
        ({
            let after = store.with_span(id, name, parent, fields);
            &&& after.spans.contains_key(id)
            &&& after.spans[id].name == name
            &&& after.spans[id].parent == parent
            &&& after.spans[id].fields == fields
            &&& after.spans[id].events.len() == 0
            &&& after.spans[id].order == store.next_order
            &&& store.next_order < 0xFFFF_FFFF_FFFF_FFFF ==> after.next_order == store.next_order
                + 1
            &&& store.next_order == 0xFFFF_FFFF_FFFF_FFFF ==> after.next_order == 0
            &&& other != id ==> (after.spans.contains_key(other) <==> store.spans.contains_key(
                other,
            ))
            &&& other != id && store.spans.contains_key(other) ==> after.spans[other]
                == store.spans[other]
        }),
{
}

/// Recording fields on a span sets those and keeps its other fields; an event is added behind the
/// span's events; nothing else changes, and nothing at all where there is no such span.
pub proof fn law_spans_are_added_to(
    store: StoreModel,
    id: u64,
    fields: FieldsModel,
    key: Seq<char>,
    other: u64,
)
    ensures
        ({
            let recorded = store.with_fields(id, fields);
            let told = store.with_event(Some(id), fields);
            &&& !store.spans.contains_key(id) ==> recorded == store && told == store
            &&& store.with_event(None, fields) == store
            &&& store.spans.contains_key(id) ==> {
                &&& fields.contains_key(key) ==> recorded.spans[id].fields.contains_key(key)
                    && recorded.spans[id].fields[key] == fields[key]
                &&& !fields.contains_key(key) && store.spans[id].fields.contains_key(key)
                    ==> recorded.spans[id].fields.contains_key(key)
                    && recorded.spans[id].fields[key] == store.spans[id].fields[key]
                &&& !fields.contains_key(key) && !store.spans[id].fields.contains_key(key)
                    ==> !recorded.spans[id].fields.contains_key(key)
                &&& recorded.spans[id].events == store.spans[id].events
                &&& recorded.spans[id].name == store.spans[id].name
                &&& recorded.spans[id].parent == store.spans[id].parent
                &&& recorded.spans[id].order == store.spans[id].order
                &&& told.spans[id].events == store.spans[id].events.push(fields)
                &&& told.spans[id].fields == store.spans[id].fields
                &&& told.spans[id].name == store.spans[id].name
                &&& told.spans[id].parent == store.spans[id].parent
                &&& told.spans[id].order == store.spans[id].order
            }
            &&& recorded.next_order == store.next_order && told.next_order == store.next_order
            &&& other != id ==> (recorded.spans.contains_key(other) <==> store.spans.contains_key(
                other,
            ))
            &&& other != id ==> (told.spans.contains_key(other) <==> store.spans.contains_key(
                other,
            ))
            &&& other != id && store.spans.contains_key(other) ==> recorded.spans[other]
                == store.spans[other] && told.spans[other] == store.spans[other]
        }),
{
}

/// Pushing a node puts it behind the others, bare; setting something on a node changes that alone,
/// and changes nothing where there is no such node.
pub proof fn law_arena_nodes(
    arena: ArenaModel,
    parent: Option<u32>,
    kind: NodeKind,
    start_ns: u64,
    duration_ns: u64,
    id: u32,
    key: Seq<char>,
    value: Seq<char>,
    status: u16,
    other: int,
)
    ensures
        ({
            let pushed = arena.pushed(SpanModel::new(parent, kind, start_ns, duration_ns));
            let n = arena.nodes.len();
            &&& pushed.nodes.len() == n + 1
            &&& pushed.operation == arena.operation && pushed.success == arena.success
            &&& pushed.nodes[n as int].parent == parent
            &&& pushed.nodes[n as int].kind == kind
            &&& pushed.nodes[n as int].start_ns == start_ns
            &&& pushed.nodes[n as int].duration_ns == duration_ns
            &&& pushed.nodes[n as int].status == 0
            &&& pushed.nodes[n as int].attrs.len() == 0
            &&& 0 <= other < n ==> pushed.nodes[other] == arena.nodes[other]
        }),
        id >= arena.nodes.len() ==> {
            &&& arena.with_attr(id, key, value) == arena
            &&& arena.with_status(id, status) == arena
            &&& arena.with_duration(id, duration_ns) == arena
        },
        id < arena.nodes.len() ==> {
            let node = arena.nodes[id as int];
            let named = arena.with_attr(id, key, value);
            let answered = arena.with_status(id, status);
            let timed = arena.with_duration(id, duration_ns);
            &&& named.nodes[id as int].attrs == node.attrs.push((key, value))
            &&& named.nodes[id as int].status == node.status
            &&& named.nodes[id as int].duration_ns == node.duration_ns
            &&& named.nodes[id as int].start_ns == node.start_ns
            &&& named.nodes[id as int].parent == node.parent
            &&& named.nodes[id as int].kind == node.kind
            &&& answered.nodes[id as int].status == status
            &&& answered.nodes[id as int].attrs == node.attrs
            &&& answered.nodes[id as int].duration_ns == node.duration_ns
            &&& answered.nodes[id as int].start_ns == node.start_ns
            &&& answered.nodes[id as int].parent == node.parent
            &&& answered.nodes[id as int].kind == node.kind
            &&& timed.nodes[id as int].duration_ns == duration_ns
            &&& timed.nodes[id as int].attrs == node.attrs
            &&& timed.nodes[id as int].status == node.status
            &&& timed.nodes[id as int].start_ns == node.start_ns
            &&& timed.nodes[id as int].parent == node.parent
            &&& timed.nodes[id as int].kind == node.kind
            &&& named.nodes.len() == arena.nodes.len()
            &&& answered.nodes.len() == arena.nodes.len()
            &&& timed.nodes.len() == arena.nodes.len()
            &&& named.operation == arena.operation && named.success == arena.success
            &&& answered.operation == arena.operation && answered.success == arena.success
            &&& timed.operation == arena.operation && timed.success == arena.success
            &&& 0 <= other < arena.nodes.len() && other != id ==> {
                &&& named.nodes[other] == arena.nodes[other]
                &&& answered.nodes[other] == arena.nodes[other]
                &&& timed.nodes[other] == arena.nodes[other]
            }
        },
{
}

/// Projecting an arena keeps its nodes in order, with all that they hold.
pub proof fn law_arena_projects_node_by_node(arena: ArenaModel, i: int)
    requires
        0 <= i < arena.nodes.len(),
    ensures
        ({
            let tree = arena.wire();
            let node = arena.nodes[i];
            &&& tree.operation == arena.operation
            &&& tree.nodes.len() == arena.nodes.len()
            &&& tree.nodes[i].parent == node.parent
            &&& tree.nodes[i].start_ns == node.start_ns
            &&& tree.nodes[i].duration_ns == node.duration_ns
            &&& tree.nodes[i].status == node.status
            &&& tree.nodes[i].attrs == node.attrs
            &&& tree.nodes[i].kind == 0 <==> node.kind == NodeKind::Operation
            &&& tree.nodes[i].kind == 1 <==> node.kind == NodeKind::Attempt
            &&& tree.nodes[i].kind == 2 <==> node.kind == NodeKind::Transport
            &&& tree.nodes[i].kind == 3 <==> node.kind == NodeKind::Routing
            &&& tree.nodes[i].kind == 4 <==> node.kind == NodeKind::Query
        }),
{
}

/// The store holds one span for the operation, one for each attempt and one for each child, in the
/// order in which they came, all of them under the span of the operation; nothing else is stored.
/// Each attempt holds the event that answered it, and the others hold none.
pub proof fn law_store_holds_the_spans(
    input: InputModel,
    responses: Seq<ResponseModel>,
    now: u64,
)
    requires
        responses.len() == input.attempts.len(),
        input.attempts.len() + input.children.len() + 1 < 0xFFFF_FFFF_FFFF_FFFF,
    ensures
        ({
            let spans = after_events::<Combo3Sink>(
                Combo3Model::empty(),
                operation_events(input, responses, now),
            ).store.spans;
            let a = input.attempts.len();
            &&& forall|id: u64| #[trigger]
                spans.contains_key(id) <==> id <= a + input.children.len()
            &&& spans[0].name == "operation"@ && spans[0].parent is None && spans[0].order == 0
                && spans[0].events.len() == 0
            &&& forall|id: u64|
                1 <= id <= a ==> (#[trigger] spans[id]).name == "attempt"@ && spans[id].parent
                    == Some(0u64) && spans[id].order == id && spans[id].events.len() == 1
                    && tells_answer(spans[id].events[0], responses[id - 1].status)
            &&& forall|id: u64|
                a < id <= a + input.children.len() ==> (#[trigger] spans[id]).name == "routing"@
                    && spans[id].parent == Some(0u64) && spans[id].order == id
                    && spans[id].events.len() == 0
        }),
{
    combo3::lemma_operation_stored(input, responses, now);
    let spans = combo3::operation_spans(input, responses, now);
    let a = input.attempts.len();
    assert forall|id: u64| 1 <= id <= a implies tells_answer(
        (#[trigger] spans[id]).events[0],
        responses[id - 1].status,
    ) by {
        lemma_answer(responses[id - 1].status);
    }
}

} // verus!
