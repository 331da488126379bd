//! What a value holds is what its fields hold.

use vstd::prelude::*;
use vstd::string::*;

use crate::charge::Charge;
use crate::combo1::arena::{Arena, Node};
use crate::combo2;
use crate::combo2::model::{AttemptRec, Captured, ChildRec};
use crate::combo3::collector::RawSpan;
use crate::combo3::fields::{fields_view, FieldModel, FieldValue};
use crate::combo3::model::{AttemptSpan, ChildSpan, OperationSpan};
use crate::combo4;
use crate::combo4::parsed::{Parsed, ParsedAttempt, ParsedChild};
use crate::combo4::preamble::Preamble;
use crate::combo4::ClientInfo;
use crate::scenarios::{AttemptScript, ChildScript, OperationInput, Response};
use crate::wire::{WireNode, WireTree};

verus! {

/// The characters of a text, where there is one.
pub open spec fn chars_of(s: Option<String>) -> Option<Seq<char>> {
    if s is Some {
        Some(s->0@)
    } else {
        None
    }
}

/// What a charge holds.
pub proof fn law_charge_view(c: Charge)
    ensures
        c@.bits == c.bits,
        c@.single == c.single,
        c@.text == c.text@,
        c@.json == c.json@,
{
}

/// What scripts and responses hold.
pub proof fn law_script_views(o: OperationInput, a: AttemptScript, c: ChildScript, r: Response)
    ensures
        o@.name == o.name@,
        o@.endpoint == o.endpoint@,
        o@.client_request_id == o.client_request_id@,
        o@.attempts.len() == o.attempts@.len(),
        o@.children.len() == o.children@.len(),
        forall|i: int|
            0 <= i < o.attempts@.len() ==> #[trigger] o@.attempts[i] == o.attempts@[i]@,
        forall|i: int|
            0 <= i < o.children@.len() ==> #[trigger] o@.children[i] == o.children@[i]@,
        a@.status == a.status,
        a@.service_request_id == a.service_request_id@,
        a@.request_charge == a.request_charge@,
        a@.duration_ns == a.duration_ns,
        c@.plan_node_id == c.plan_node_id@,
        c@.feed_range == c.feed_range@,
        c@.duration_ns == c.duration_ns,
        r@.status == r.status,
        r@.service_request_id == chars_of(r.service_request_id),
        r.request_charge is Some ==> r@.request_charge == Some(r.request_charge->0@),
        r.request_charge is None ==> r@.request_charge is None,
{
}

/// What trees and their nodes hold.
pub proof fn law_tree_views(t: WireTree, n: WireNode)
    ensures
        t@.operation == t.operation@,
        t@.nodes.len() == t.nodes@.len(),
        forall|i: int| 0 <= i < t.nodes@.len() ==> #[trigger] t@.nodes[i] == t.nodes@[i]@,
        n@.parent == n.parent,
        n@.kind == n.kind,
        n@.start_ns == n.start_ns,
        n@.duration_ns == n.duration_ns,
        n@.status == n.status,
        n@.attrs.len() == n.attrs@.len(),
        forall|i: int|
            0 <= i < n.attrs@.len() ==> (#[trigger] n@.attrs[i]).0 == n.attrs@[i].0@
                && n@.attrs[i].1 == n.attrs@[i].1@,
{
}

/// What an arena and its nodes hold.
pub proof fn law_arena_views(a: Arena, n: Node)
    ensures
        a@.operation == a.operation@,
        a@.success == a.success,
        a@.nodes.len() == a.nodes@.len(),
        forall|i: int| 0 <= i < a.nodes@.len() ==> #[trigger] a@.nodes[i] == a.nodes@[i]@,
        n@.parent == n.parent,
        n@.kind == n.kind,
        n@.start_ns == n.start_ns,
        n@.duration_ns == n.duration_ns,
        n@.status == n.status,
        n@.attrs.len() == n.attrs@.len(),
        forall|i: int|
            0 <= i < n.attrs@.len() ==> (#[trigger] n@.attrs[i]).0 == n.attrs@[i].0@
                && n@.attrs[i].1 == n.attrs@[i].1@,
{
}

/// What a retained model and its records hold.
pub proof fn law_retained_views(c: Captured, a: AttemptRec, k: ChildRec)
    ensures
        c@.operation == c.operation@,
        c@.endpoint == c.endpoint@,
        c@.client_request_id == c.client_request_id@,
        c@.attempt_count == c.attempt_count,
        c@.succeeded == c.succeeded,
        c@.start_ns == c.start_ns,
        c@.total_ns == c.total_ns,
        c@.attempts.len() == c.attempts@.len(),
        c@.children.len() == c.children@.len(),
        forall|i: int|
            0 <= i < c.attempts@.len() ==> #[trigger] c@.attempts[i] == c.attempts@[i]@,
        forall|i: int|
            0 <= i < c.children@.len() ==> #[trigger] c@.children[i] == c.children@[i]@,
        a@.index == a.index,
        a@.status == a.status,
        a@.service_request_id == chars_of(a.service_request_id),
        a.request_charge is Some ==> a@.request_charge == Some(a.request_charge->0@),
        a.request_charge is None ==> a@.request_charge is None,
        a@.start_ns == a.start_ns,
        a@.duration_ns == a.duration_ns,
        k@.plan_node_id == k.plan_node_id@,
        k@.feed_range == k.feed_range@,
        k@.start_ns == k.start_ns,
        k@.duration_ns == k.duration_ns,
{
}

/// What a tiered summary holds.
pub proof fn law_tiered_summary_view(s: combo2::Summary, e: combo2::TopError)
    ensures
        s@.operation == s.operation@,
        s@.outcome == s.outcome@,
        s@.succeeded == s.succeeded,
        s@.attempt_count == s.attempt_count,
        s@.retry_count == s.retry_count,
        s@.total_elapsed_ns == s.total_elapsed_ns,
        s@.total_request_charge == s.total_request_charge,
        s@.throttle_count == s.throttle_count,
        s@.status_counts == s.status_counts@,
        s@.final_service_request_id == chars_of(s.final_service_request_id),
        s@.child_count == s.child_count,
        s.top_error is Some ==> s@.top_error == Some(s.top_error->0@),
        s.top_error is None ==> s@.top_error is None,
        s@.slow_attempt_ns == s.slow_attempt_ns,
        s@.high_charge == s.high_charge,
        e@.status == e.status,
        e@.error_kind == e.error_kind@,
        e@.service_request_id == chars_of(e.service_request_id),
{
}

/// What a gated summary holds.
pub proof fn law_gated_summary_view(s: combo4::Summary, e: combo4::TopError, i: ClientInfo)
    ensures
        s@.operation == s.operation@,
        s@.outcome == s.outcome@,
        s@.attempt_count == s.attempt_count,
        s@.retry_count == s.retry_count,
        s@.total_elapsed_ns == s.total_elapsed_ns,
        s@.total_request_charge == s.total_request_charge,
        s@.throttle_count == s.throttle_count,
        s@.status_counts == s.status_counts@,
        s@.final_service_request_id == chars_of(s.final_service_request_id),
        s@.child_count == s.child_count,
        s.top_error is Some ==> s@.top_error == Some(s.top_error->0@),
        s.top_error is None ==> s@.top_error is None,
        s@.client == s.client@,
        e@.status == e.status,
        e@.error_kind == e.error_kind@,
        e@.service_request_id == e.service_request_id@,
        i@.sdk_version == i.sdk_version@,
        i@.driver_version == i.driver_version@,
        i@.user_agent == i.user_agent@,
{
}

/// What a log that was read holds, and the preamble.
pub proof fn law_parsed_views(p: Parsed, a: ParsedAttempt, c: ParsedChild, b: Preamble)
    ensures
        p@.operation == p.operation@,
        p@.endpoint == p.endpoint@,
        p@.client_request_id == p.client_request_id@,
        p@.start_ns == p.start_ns,
        p@.outcome == p.outcome,
        p@.attempt_count == p.attempt_count,
        p@.total_ns == p.total_ns,
        p@.attempts.len() == p.attempts@.len(),
        p@.children.len() == p.children@.len(),
        forall|i: int|
            0 <= i < p.attempts@.len() ==> #[trigger] p@.attempts[i] == p.attempts@[i]@,
        forall|i: int|
            0 <= i < p.children@.len() ==> #[trigger] p@.children[i] == p.children@[i]@,
        a@.index == a.index,
        a@.status == a.status,
        a@.service_request_id == a.service_request_id@,
        a@.request_charge == a.request_charge,
        a@.start_ns == a.start_ns,
        a@.duration_ns == a.duration_ns,
        c@.plan_node_id == c.plan_node_id@,
        c@.feed_range == c.feed_range@,
        c@.start_ns == c.start_ns,
        c@.duration_ns == c.duration_ns,
        b@.sdk_name == b.sdk_name@,
        b@.sdk_ver == b.sdk_ver@,
        b@.driver_ver == b.driver_ver@,
        b@.ua_suffix == b.ua_suffix@,
        b@.os == b.os@,
        b@.arch == b.arch@,
{
}

/// What the typed objects hold.
pub proof fn law_object_views(o: OperationSpan, a: AttemptSpan, c: ChildSpan)
    ensures
        o@.operation == chars_of(o.operation),
        o@.endpoint == chars_of(o.endpoint),
        o@.client_request_id == chars_of(o.client_request_id),
        o@.outcome == chars_of(o.outcome),
        o@.attempt_count == o.attempt_count,
        o@.start_ns == o.start_ns,
        o@.duration_ns == o.duration_ns,
        o@.attempts.len() == o.attempts@.len(),
        o@.children.len() == o.children@.len(),
        forall|i: int|
            0 <= i < o.attempts@.len() ==> #[trigger] o@.attempts[i] == o.attempts@[i]@,
        forall|i: int|
            0 <= i < o.children@.len() ==> #[trigger] o@.children[i] == o.children@[i]@,
        a@.attempt_index == a.attempt_index,
        a@.status == a.status,
        a@.service_request_id == chars_of(a.service_request_id),
        a@.request_charge == a.request_charge,
        a@.start_ns == a.start_ns,
        a@.duration_ns == a.duration_ns,
        a@.events.len() == a.events@.len(),
        forall|i: int|
            0 <= i < a.events@.len() ==> #[trigger] a@.events[i] == fields_view(
                a.events@[i].fields@,
            ),
        c@.plan_node_id == chars_of(c.plan_node_id),
        c@.feed_range == chars_of(c.feed_range),
        c@.start_ns == c.start_ns,
        c@.duration_ns == c.duration_ns,
{
}

/// What raw spans and fields hold.
pub proof fn law_raw_views(s: RawSpan, v: FieldValue, key: Seq<char>)
    ensures
        s@.name == s.name@,
        s@.parent == s.parent,
        s@.order == s.order,
        s@.events.len() == s.events@.len(),
        s@.fields.contains_key(key) <==> s.fields@.contains_key(key),
        s.fields@.contains_key(key) ==> s@.fields[key] == s.fields@[key]@,
        v matches FieldValue::Bool(b) ==> v@ == FieldModel::Bool(b),
        v matches FieldValue::U64(n) ==> v@ == FieldModel::U64(n),
        v matches FieldValue::I64(n) ==> v@ == FieldModel::I64(n),
        v matches FieldValue::Text(t) ==> v@ == FieldModel::Text(t@),
        v matches FieldValue::Float { bits, text } ==> v@ == (FieldModel::Float {
            bits,
            text: text@,
        }),
        v is Null ==> v@ == FieldModel::Null,
{
}

} // verus!
