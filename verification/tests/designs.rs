use azure_core_diag::attrs;
use azure_core_diag::charge::Charge;
use azure_core_diag::clock::MockClock;
use azure_core_diag::combo1;
use azure_core_diag::combo2;
use azure_core_diag::combo3;
use azure_core_diag::combo3::fields::{
    charge_field, double_field, field_number, field_str, field_u64, FieldNumber, FieldValue, Fields,
};
use azure_core_diag::combo4;
use azure_core_diag::driver::duration::Duration;
use azure_core_diag::driver::gate;
use azure_core_diag::scenarios::{
    drive_sink, noop_input, s1, s2, s3, s4, DiagSink, Drive, OperationInput, Outcome, Response,
    SinkEvent,
};
use azure_core_diag::wire::{decode, NodeKind};
use serde_json::{Number, Value};

// ---------------------------------------------------------------------------
// Helpers: numbers and JSON
// ---------------------------------------------------------------------------

fn sum_of(terms: &[u64]) -> f64 {
    let mut total = 0.0;
    for t in terms {
        total += f64::from_bits(*t);
    }
    total
}

fn rounded_sum(terms: &[u32]) -> f64 {
    let mut total = 0.0f64;
    for t in terms {
        total += f64::from(f32::from_bits(*t));
    }
    (total * 10_000.0).round() / 10_000.0
}

fn charge_texts(terms: &[u32]) -> Vec<String> {
    terms
        .iter()
        .map(|t| f32::from_bits(*t).to_string())
        .collect()
}

fn number(v: f64) -> Value {
    Number::from_f64(v).map(Value::Number).unwrap_or(Value::Null)
}

fn text(v: &Option<String>) -> Value {
    match v {
        Some(s) => Value::from(s.as_str()),
        None => Value::Null,
    }
}

fn number_of(n: FieldNumber) -> f64 {
    match n {
        FieldNumber::U64(v) => v as f64,
        FieldNumber::I64(v) => v as f64,
        FieldNumber::Float(bits) => f64::from_bits(bits),
    }
}

fn field_json(v: &FieldValue) -> Value {
    match v {
        FieldValue::Null => Value::Null,
        FieldValue::Bool(b) => Value::from(*b),
        FieldValue::U64(n) => Value::from(*n),
        FieldValue::I64(n) => Value::from(*n),
        FieldValue::Float { bits, .. } => number(f64::from_bits(*bits)),
        FieldValue::Text(s) => Value::from(s.as_str()),
    }
}

fn fields_json(fields: &Fields) -> Value {
    let mut map = serde_json::Map::new();
    for i in 0..fields.len() {
        let (key, value) = fields.entry(i);
        map.insert(key.to_string(), field_json(value));
    }
    Value::Object(map)
}

fn summary_json_2(s: &combo2::Summary) -> Vec<u8> {
    let mut map = serde_json::Map::new();
    map.insert("operation".into(), Value::from(s.operation.as_str()));
    map.insert("outcome".into(), Value::from(s.outcome));
    map.insert("succeeded".into(), Value::from(s.succeeded));
    map.insert("attempt_count".into(), Value::from(s.attempt_count));
    map.insert("retry_count".into(), Value::from(s.retry_count));
    map.insert("total_elapsed_ns".into(), Value::from(s.total_elapsed_ns));
    map.insert(
        "total_request_charge".into(),
        number(f64::from_bits(s.total_request_charge)),
    );
    map.insert("throttle_count".into(), Value::from(s.throttle_count));
    let mut counts = serde_json::Map::new();
    for i in 0..s.status_counts.len() {
        let (key, value) = s.status_counts.entry(i);
        counts.insert(key.to_string(), Value::from(*value));
    }
    map.insert("status_counts".into(), Value::Object(counts));
    map.insert(
        "final_service_request_id".into(),
        text(&s.final_service_request_id),
    );
    map.insert("child_count".into(), Value::from(s.child_count));
    if let Some(e) = &s.top_error {
        let mut error = serde_json::Map::new();
        error.insert("status".into(), Value::from(e.status));
        error.insert("error_kind".into(), Value::from(e.error_kind.as_str()));
        error.insert("service_request_id".into(), text(&e.service_request_id));
        map.insert("top_error".into(), Value::Object(error));
    }
    if let Some(ns) = s.slow_attempt_ns {
        map.insert("slow_attempt_ns".into(), Value::from(ns));
    }
    if let Some(bits) = s.high_charge {
        map.insert("high_charge".into(), number(f64::from_bits(bits)));
    }
    serde_json::to_vec(&Value::Object(map)).unwrap()
}

fn summary_json_4(s: &combo4::Summary) -> Vec<u8> {
    let mut map = serde_json::Map::new();
    map.insert("operation".into(), Value::from(s.operation.as_str()));
    map.insert("outcome".into(), Value::from(s.outcome));
    map.insert("attempt_count".into(), Value::from(s.attempt_count));
    map.insert("retry_count".into(), Value::from(s.retry_count));
    map.insert("total_elapsed_ns".into(), Value::from(s.total_elapsed_ns));
    map.insert(
        "total_request_charge".into(),
        number(f64::from_bits(s.total_request_charge)),
    );
    map.insert("throttle_count".into(), Value::from(s.throttle_count));
    let mut counts = serde_json::Map::new();
    for i in 0..s.status_counts.len() {
        let (key, value) = s.status_counts.entry(i);
        counts.insert(key.to_string(), Value::from(*value));
    }
    map.insert("status_counts".into(), Value::Object(counts));
    map.insert(
        "final_service_request_id".into(),
        text(&s.final_service_request_id),
    );
    map.insert("child_count".into(), Value::from(s.child_count));
    if let Some(e) = &s.top_error {
        let mut error = serde_json::Map::new();
        error.insert("status".into(), Value::from(e.status));
        error.insert("error_kind".into(), Value::from(e.error_kind.as_str()));
        error.insert(
            "service_request_id".into(),
            Value::from(e.service_request_id.as_str()),
        );
        map.insert("top_error".into(), Value::Object(error));
    }
    let mut client = serde_json::Map::new();
    client.insert("sdk_version".into(), Value::from(s.client.sdk_version.as_str()));
    client.insert(
        "driver_version".into(),
        Value::from(s.client.driver_version.as_str()),
    );
    client.insert("user_agent".into(), Value::from(s.client.user_agent.as_str()));
    map.insert("client".into(), Value::Object(client));
    serde_json::to_vec(&Value::Object(map)).unwrap()
}

fn to_json_compact(op: &combo3::OperationSpan) -> Vec<u8> {
    let mut map = serde_json::Map::new();
    map.insert("operation".into(), text(&op.operation));
    map.insert("endpoint".into(), text(&op.endpoint));
    map.insert("client_request_id".into(), text(&op.client_request_id));
    map.insert("outcome".into(), text(&op.outcome));
    map.insert("attempt_count".into(), Value::from(op.attempt_count));
    map.insert("start_ns".into(), Value::from(op.start_ns));
    map.insert("duration_ns".into(), Value::from(op.duration_ns));
    let mut attempts = Vec::new();
    for a in &op.attempts {
        let mut one = serde_json::Map::new();
        one.insert("attempt_index".into(), Value::from(a.attempt_index));
        one.insert("status".into(), Value::from(a.status));
        one.insert("service_request_id".into(), text(&a.service_request_id));
        one.insert(
            "request_charge".into(),
            match a.request_charge {
                Some(n) => number(number_of(n)),
                None => Value::Null,
            },
        );
        one.insert("start_ns".into(), Value::from(a.start_ns));
        one.insert("duration_ns".into(), Value::from(a.duration_ns));
        let events: Vec<Value> = a.events.iter().map(|e| fields_json(&e.fields)).collect();
        one.insert("events".into(), Value::Array(events));
        attempts.push(Value::Object(one));
    }
    map.insert("attempts".into(), Value::Array(attempts));
    let mut children = Vec::new();
    for c in &op.children {
        let mut one = serde_json::Map::new();
        one.insert("plan_node_id".into(), text(&c.plan_node_id));
        one.insert("feed_range".into(), text(&c.feed_range));
        one.insert("start_ns".into(), Value::from(c.start_ns));
        one.insert("duration_ns".into(), Value::from(c.duration_ns));
        children.push(Value::Object(one));
    }
    map.insert("children".into(), Value::Array(children));
    serde_json::to_vec(&Value::Object(map)).unwrap()
}

// ---------------------------------------------------------------------------
// The drivers
// ---------------------------------------------------------------------------

#[derive(Default)]
struct CountingSink {
    events: Vec<String>,
    last_outcome: Option<Outcome>,
    attempt_count: u32,
}

impl DiagSink for CountingSink {
    type Model = ();

    fn model(&self) {}

    fn step(_m: (), _event: SinkEvent) {}

    fn op_start(&mut self, input: &OperationInput, _start_ns: u64) {
        self.events.push(format!("op_start:{}", input.name));
    }

    fn attempt(
        &mut self,
        attempt_index: u32,
        status: u16,
        service_request_id: Option<&str>,
        _request_charge: Option<&Charge>,
        _start_ns: u64,
        _duration_ns: u64,
    ) {
        self.events.push(format!(
            "attempt:{attempt_index}:{status}:{}",
            service_request_id.unwrap_or("-")
        ));
    }

    fn child(
        &mut self,
        child_index: u32,
        plan_node_id: &str,
        _feed_range: &str,
        _start_ns: u64,
        _duration_ns: u64,
    ) {
        self.events
            .push(format!("child:{child_index}:{plan_node_id}"));
    }

    fn op_end(&mut self, outcome: Outcome, attempt_count: u32, _total_ns: u64) {
        self.last_outcome = Some(outcome);
        self.attempt_count = attempt_count;
    }
}

#[test]
fn drive_sink_s2_records_both_attempts() {
    let mut clock = MockClock::new();
    let mut sink = CountingSink::default();
    drive_sink(&s2(), &mut sink, &mut clock);
    assert_eq!(sink.attempt_count, 2);
    assert_eq!(sink.last_outcome, Some(Outcome::Success));
    assert!(sink.events.iter().any(|e| e == "attempt:0:429:svc-429"));
    assert!(sink.events.iter().any(|e| e == "attempt:1:200:svc-200"));
}

#[test]
fn drive_sink_s4_emits_children() {
    let mut clock = MockClock::new();
    let mut sink = CountingSink::default();
    drive_sink(&s4(10), &mut sink, &mut clock);
    let children = sink
        .events
        .iter()
        .filter(|e| e.starts_with("child:"))
        .count();
    assert_eq!(children, 10);
}

#[test]
fn drive_sink_moves_the_clock_by_the_total() {
    let mut clock = MockClock::new();
    let mut sink = CountingSink::default();
    drive_sink(&s2(), &mut sink, &mut clock);
    assert_eq!(clock.now_ns(), MockClock::EPOCH_NS + 7_000_000);
    assert_eq!(
        sink.events,
        vec![
            "op_start:read_item",
            "attempt:0:429:svc-429",
            "attempt:1:200:svc-200",
        ]
    );
}

fn drive_with_scripted_answers(input: &OperationInput, sink: &mut CountingSink) {
    let mut clock = MockClock::new();
    let mut drive = Drive::begin(input, sink, &clock);
    let mut i = 0;
    while drive.wants_attempt(input) {
        let response = Response {
            status: input.attempts[i].status,
            service_request_id: Some(input.attempts[i].service_request_id.to_string()),
            request_charge: Some(input.attempts[i].request_charge.clone()),
        };
        drive.respond(input, &response, sink, &mut clock);
        i += 1;
    }
    drive.finish(input, sink, &mut clock);
}

#[test]
fn inputs_that_outlast_the_clock_cannot_run() {
    let mut input = s4(2);
    assert!(input.can_run_from(MockClock::EPOCH_NS));
    let total = 6_000_000 + 1_000_000 + 1_050_000;
    assert!(input.can_run_from(u64::MAX - total));
    assert!(!input.can_run_from(u64::MAX - total + 1));
    assert!(!input.can_run_from(u64::MAX));
    input.attempts[0].duration_ns = u64::MAX;
    assert!(!input.can_run_from(1));
}

#[test]
fn scripted_answers_give_the_script() {
    for input in [s1(), s2(), s3(), s4(10)] {
        let mut clock = MockClock::new();
        let mut straight = CountingSink::default();
        drive_sink(&input, &mut straight, &mut clock);
        let mut stepped = CountingSink::default();
        drive_with_scripted_answers(&input, &mut stepped);
        assert_eq!(straight.events, stepped.events);
        assert_eq!(straight.last_outcome, stepped.last_outcome);
        assert_eq!(straight.attempt_count, stepped.attempt_count);
    }
}

#[test]
fn answers_are_recorded_as_they_come() {
    let input = s3();
    let mut clock = MockClock::new();
    let mut sink = combo2::Combo2Sink::default();
    let mut drive = Drive::begin(&input, &mut sink, &clock);
    assert!(drive.wants_attempt(&input));
    let response = Response {
        status: 503,
        service_request_id: None,
        request_charge: None,
    };
    drive.respond(&input, &response, &mut sink, &mut clock);
    assert!(!drive.wants_attempt(&input));
    drive.finish(&input, &mut sink, &mut clock);
    let captured = sink.into_captured();
    assert_eq!(captured.attempts[0].status, 503);
    assert_eq!(captured.attempts[0].service_request_id, None);
    assert_eq!(captured.attempts[0].error_kind(), Some("server_error"));
    assert!(captured.attempts[0].request_charge.is_none());
    assert!(!captured.succeeded);
    let tree = captured.to_wire();
    assert_eq!(tree.nodes[1].attr(attrs::ATTR_SERVICE_REQUEST_ID), None);
    assert_eq!(tree.nodes[1].attr(attrs::ATTR_REQUEST_CHARGE), None);
}

// ---------------------------------------------------------------------------
// The arena design
// ---------------------------------------------------------------------------

fn blob_for(input: &OperationInput) -> Vec<u8> {
    let mut clock = MockClock::new();
    let arena = combo1::collect(input, &mut clock);
    combo1::serialize(&combo1::construct(&arena))
}

#[test]
fn s1_round_trips_through_decoder() {
    let blob = blob_for(&s1());
    let tree = combo1::decode_blob(&blob).unwrap();
    assert_eq!(tree.operation, "read_item");
    // node 0 = operation, node 1 = attempt
    let attempt = &tree.nodes[1];
    assert_eq!(attempt.status, 200);
    assert_eq!(
        attempt.attr(attrs::ATTR_SERVICE_REQUEST_ID),
        Some("svc-200")
    );
    assert_eq!(tree.nodes[0].attr("az.outcome"), Some("success"));
}

#[test]
fn s2_round_trips_two_attempts() {
    let blob = blob_for(&s2());
    let tree = combo1::decode_blob(&blob).unwrap();
    let attempts: Vec<_> = tree
        .nodes
        .iter()
        .filter(|n| n.node_kind() == NodeKind::Attempt)
        .collect();
    assert_eq!(attempts.len(), 2);
    assert_eq!(attempts[0].status, 429);
    assert_eq!(
        attempts[0].attr(attrs::ATTR_SERVICE_REQUEST_ID),
        Some("svc-429")
    );
    assert_eq!(attempts[1].status, 200);
    assert_eq!(
        attempts[1].attr(attrs::ATTR_SERVICE_REQUEST_ID),
        Some("svc-200")
    );
}

#[test]
fn s3_error_round_trips_and_drops_on_success_only() {
    let blob = blob_for(&s3());
    let tree = combo1::decode_blob(&blob).unwrap();
    let attempt = &tree.nodes[1];
    assert_eq!(attempt.status, 404);
    assert_eq!(
        attempt.attr(attrs::ATTR_SERVICE_REQUEST_ID),
        Some("svc-404")
    );
    assert_eq!(attempt.attr(attrs::ATTR_ERROR_KIND), Some("not_found"));

    // Outcome-aware: success drops (None), error serializes (Some).
    let mut clock = MockClock::new();
    assert!(combo1::capture_blob(&s1(), &mut clock, false).is_none());
    let mut clock = MockClock::new();
    assert!(combo1::capture_blob(&s3(), &mut clock, false).is_some());
}

#[test]
fn blob_is_smaller_than_combo3_json() {
    for input in [s1(), s2(), s3(), s4(10), s4(25)] {
        let mut clock = MockClock::new();
        let combo3_json = to_json_compact(&combo3::capture(&input, &mut clock));
        let blob = blob_for(&input);
        assert!(
            blob.len() < combo3_json.len(),
            "scenario {}: blob {} not < json {}",
            input.name,
            blob.len(),
            combo3_json.len()
        );
    }
}

#[test]
fn s4_verbose_round_trips_and_stays_small() {
    let input = s4(25);
    let blob = blob_for(&input);
    let tree = combo1::decode_blob(&blob).unwrap();
    let children: Vec<_> = tree
        .nodes
        .iter()
        .filter(|n| n.node_kind() == NodeKind::Routing)
        .collect();
    assert_eq!(children.len(), 25);
    assert_eq!(
        children[0].attr(attrs::ATTR_PLAN_NODE_ID),
        Some("plan/node/0")
    );

    let mut clock = MockClock::new();
    let combo3_json = to_json_compact(&combo3::capture(&input, &mut clock));
    assert!(blob.len() < combo3_json.len());
}

#[test]
fn verbose_keeps_a_success() {
    let mut clock = MockClock::new();
    let blob = combo1::capture_blob(&s1(), &mut clock, true).unwrap();
    let tree = combo1::decode_blob(&blob).unwrap();
    assert_eq!(tree.nodes.len(), 2);
    assert_eq!(tree.nodes[0].duration_ns, 4_000_000);
    assert_eq!(tree.nodes[0].start_ns, MockClock::EPOCH_NS);
    assert_eq!(tree.nodes[0].attr(attrs::ATTR_ATTEMPT_COUNT), Some("1"));
    assert_eq!(tree.nodes[1].attr("attempt_index"), Some("0"));
    assert_eq!(tree.nodes[1].attr(attrs::ATTR_STATUS_CODE), Some("200"));
    assert_eq!(tree.nodes[1].attr(attrs::ATTR_REQUEST_CHARGE), Some("4.2"));
    assert_eq!(tree.nodes[1].attr(attrs::ATTR_ERROR_KIND), None);
}

#[test]
fn arena_ignores_ids_that_it_did_not_give() {
    let mut arena = combo1::Arena::new();
    let root = arena.push(None, NodeKind::Operation, 1, 2);
    assert_eq!(root, 0);
    arena.attr(7, "key", "value".to_string());
    arena.set_status(7, 500);
    arena.set_duration(7, 9);
    assert_eq!(arena.nodes.len(), 1);
    assert!(arena.nodes[0].attrs.is_empty());
    assert_eq!(arena.nodes[0].status, 0);
    assert_eq!(arena.nodes[0].duration_ns, 2);
    arena.attr(root, "key", "value".to_string());
    arena.set_status(root, 500);
    arena.set_duration(root, 9);
    let tree = combo1::construct(&arena);
    assert_eq!(tree.nodes[0].attr("key"), Some("value"));
    assert_eq!(tree.nodes[0].status, 500);
    assert_eq!(tree.nodes[0].duration_ns, 9);
}

// ---------------------------------------------------------------------------
// The tiered design
// ---------------------------------------------------------------------------

fn summary_from(captured: &combo2::Captured) -> combo2::Summary {
    let total = sum_of(&combo2::summary::charge_terms(captured));
    combo2::summarize(
        captured,
        &combo2::SummaryThresholds::default(),
        total.to_bits(),
    )
}

fn summary_of(input: &OperationInput) -> combo2::Summary {
    let mut clock = MockClock::new();
    summary_from(&combo2::collect(input, &mut clock))
}

fn render(input: &OperationInput, requested: combo2::Verbosity) -> combo2::Rendered {
    let mut clock = MockClock::new();
    let captured = combo2::collect(input, &mut clock);
    let json = summary_json_2(&summary_from(&captured));
    combo2::render(&captured, requested, json)
}

#[test]
fn s1_default_is_summary_with_aggregates() {
    let rendered = render(&s1(), combo2::Verbosity::Summary);
    assert!(matches!(rendered, combo2::Rendered::Summary { .. }));
    let summary = summary_of(&s1());
    assert!(summary.succeeded);
    assert_eq!(summary.attempt_count, 1);
    assert_eq!(f64::from_bits(summary.total_request_charge), 4.2);
    assert_eq!(summary.status_counts.get("200"), Some(&1));
    // Fast point read does not surface a slow-attempt signal.
    assert_eq!(summary.slow_attempt_ns, None);
    // 4.2 RU is below the 10 RU threshold, so no high-charge signal.
    assert_eq!(summary.high_charge, None);
}

#[test]
fn s2_summary_aggregates_throttle_and_retry() {
    let summary = summary_of(&s2());
    assert_eq!(summary.attempt_count, 2);
    assert_eq!(summary.retry_count, 1);
    assert_eq!(summary.throttle_count, 1);
    assert_eq!(summary.status_counts.get("429"), Some(&1));
    assert_eq!(summary.status_counts.get("200"), Some(&1));
    assert!((f64::from_bits(summary.total_request_charge) - 8.4).abs() < 1e-9);
    assert_eq!(summary.final_service_request_id.as_deref(), Some("svc-200"));
}

#[test]
fn s3_auto_escalates_to_detailed_binary() {
    let rendered = render(&s3(), combo2::Verbosity::Summary);
    // Escalate-on-error: a Summary request becomes Detailed when the op failed.
    let blob = rendered
        .detailed_blob()
        .expect("error escalates to detailed");
    let tree = decode(blob).unwrap();
    assert_eq!(
        tree.nodes[1].attr(attrs::ATTR_SERVICE_REQUEST_ID),
        Some("svc-404")
    );
    assert_eq!(
        tree.nodes[1].attr(attrs::ATTR_ERROR_KIND),
        Some("not_found")
    );

    // The summary is still present alongside the detailed blob.
    let summary: Value = serde_json::from_slice(rendered.summary_json()).unwrap();
    assert_eq!(summary["outcome"], "error");
    assert_eq!(summary["top_error"]["status"], 404);
}

#[test]
fn s4_summary_stays_small_detailed_has_all_children() {
    let mut clock = MockClock::new();
    let captured = combo2::collect(&s4(25), &mut clock);
    let summary_json = summary_json_2(&summary_from(&captured));
    let blob = combo2::detailed_blob(&captured);

    // Summary omits per-child detail (only a count), so it is far smaller than the detailed blob.
    assert!(
        summary_json.len() < blob.len(),
        "summary {} should be < detailed {}",
        summary_json.len(),
        blob.len()
    );

    let tree = decode(&blob).unwrap();
    let children = tree
        .nodes
        .iter()
        .filter(|n| n.node_kind() == NodeKind::Routing)
        .count();
    assert_eq!(children, 25);

    // S4's 6ms attempt exceeds the 5ms slow threshold and is surfaced.
    let summary = summary_from(&captured);
    assert_eq!(summary.child_count, 25);
    assert_eq!(summary.slow_attempt_ns, Some(6_000_000));
    // S4's 18.6 RU query crosses the 10 RU threshold.
    assert_eq!(summary.high_charge.map(f64::from_bits), Some(18.6));
}

#[test]
fn detailed_requested_includes_blob_even_on_success() {
    let rendered = render(&s1(), combo2::Verbosity::Detailed);
    assert!(rendered.detailed_blob().is_some());
}

#[test]
fn only_a_success_keeps_the_summary_tier() {
    assert_eq!(
        combo2::effective_verbosity(combo2::Verbosity::Summary, true),
        combo2::Verbosity::Summary
    );
    assert_eq!(
        combo2::effective_verbosity(combo2::Verbosity::Summary, false),
        combo2::Verbosity::Detailed
    );
    assert_eq!(
        combo2::effective_verbosity(combo2::Verbosity::Detailed, true),
        combo2::Verbosity::Detailed
    );
    assert_eq!(
        combo2::effective_verbosity(combo2::Verbosity::Detailed, false),
        combo2::Verbosity::Detailed
    );
}

#[test]
fn summary_of_nothing() {
    let captured = combo2::Captured::default();
    let summary = summary_from(&captured);
    assert_eq!(summary.outcome, "error");
    assert_eq!(summary.retry_count, 0);
    assert_eq!(summary.status_counts.len(), 0);
    assert_eq!(summary.final_service_request_id, None);
    assert!(summary.top_error.is_none());
    assert_eq!(f64::from_bits(summary.total_request_charge), 0.0);
}

#[test]
fn top_error_is_the_first_failure() {
    let summary = summary_of(&s2());
    let error = summary.top_error.clone().unwrap();
    assert_eq!(summary.top_error.as_ref(), Some(&error));
    let other = combo2::TopError {
        status: error.status + 1,
        ..error.clone()
    };
    assert_ne!(other, error);
    assert_eq!(error.status, 429);
    assert_eq!(error.error_kind, "throttled");
    assert_eq!(error.service_request_id.as_deref(), Some("svc-429"));
    assert_eq!(summary.clone().status_counts.get("429"), Some(&1));
}

#[test]
fn tiered_and_arena_designs_agree() {
    for input in [s1(), s2(), s3(), s4(10), s4(25)] {
        let mut clock = MockClock::new();
        let arena_tree = combo1::construct(&combo1::collect(&input, &mut clock));
        let mut clock = MockClock::new();
        let tiered_tree = combo2::detailed_wire(&combo2::collect(&input, &mut clock));
        assert_eq!(
            combo1::serialize_with(&arena_tree, false),
            combo1::serialize_with(&tiered_tree, false)
        );
    }
}

// ---------------------------------------------------------------------------
// The eager design
// ---------------------------------------------------------------------------

#[test]
fn s1_single_success() {
    let mut clock = MockClock::new();
    let op = combo3::capture(&s1(), &mut clock);
    assert_eq!(op.operation.as_deref(), Some("read_item"));
    assert_eq!(op.outcome.as_deref(), Some("success"));
    assert_eq!(op.attempt_count, 1);
    assert_eq!(op.attempts.len(), 1);
    assert_eq!(op.attempts[0].status, 200);
    assert_eq!(
        op.attempts[0].service_request_id.as_deref(),
        Some("svc-200")
    );
    assert_eq!(op.attempts[0].request_charge.map(number_of), Some(4.2));
}

#[test]
fn s2_retry_then_success() {
    let mut clock = MockClock::new();
    let op = combo3::capture(&s2(), &mut clock);
    assert_eq!(op.attempt_count, 2);
    assert_eq!(op.outcome.as_deref(), Some("success"));
    assert_eq!(op.attempts[0].status, 429);
    assert_eq!(
        op.attempts[0].service_request_id.as_deref(),
        Some("svc-429")
    );
    assert_eq!(op.attempts[1].status, 200);
    assert_eq!(
        op.attempts[1].service_request_id.as_deref(),
        Some("svc-200")
    );
}

#[test]
fn s3_error_path_captures_service_id() {
    let mut clock = MockClock::new();
    let op = combo3::capture(&s3(), &mut clock);
    assert_eq!(op.outcome.as_deref(), Some("error"));
    assert_eq!(op.attempts.len(), 1);
    assert_eq!(op.attempts[0].status, 404);
    assert_eq!(
        op.attempts[0].service_request_id.as_deref(),
        Some("svc-404")
    );
}

#[test]
fn s4_fanout_produces_children() {
    for n in [10usize, 25] {
        let mut clock = MockClock::new();
        let op = combo3::capture(&s4(n), &mut clock);
        assert_eq!(op.children.len(), n);
        assert_eq!(op.attempts[0].status, 200);
        assert_eq!(op.children[0].plan_node_id.as_deref(), Some("plan/node/0"));
        assert!(op.children[0].feed_range.is_some());
    }
}

#[test]
fn serializes_to_json() {
    let mut clock = MockClock::new();
    let op = combo3::capture(&s2(), &mut clock);
    let json = to_json_compact(&op);
    let parsed: Value = serde_json::from_slice(&json).unwrap();
    assert_eq!(parsed["attempt_count"], 2);
    assert_eq!(parsed["attempts"][0]["service_request_id"], "svc-429");
}

#[test]
fn attempts_carry_the_event_that_answered_them() {
    let mut clock = MockClock::new();
    let op = combo3::capture(&s2(), &mut clock);
    let json = to_json_compact(&op);
    let parsed: Value = serde_json::from_slice(&json).unwrap();
    assert_eq!(parsed["attempts"][0]["events"][0]["az.event"], "error");
    assert_eq!(
        parsed["attempts"][0]["events"][0]["az.error_kind"],
        "throttled"
    );
    assert_eq!(parsed["attempts"][1]["events"][0]["az.event"], "response");
    assert_eq!(parsed["attempts"][1]["events"][0]["az.status_code"], 200);
    assert_eq!(op.attempts[1].events.len(), 1);
    assert_eq!(op.attempts[1].start_ns, MockClock::EPOCH_NS + 3_000_000);
}

#[test]
fn spans_project_in_the_order_of_insertion() {
    let mut store = combo3::Store::new();
    assert_eq!(store.root(), None);
    assert_eq!(combo3::construct(&store).operation, None);

    let mut fields = Fields::new();
    fields.insert("az.operation".to_string(), FieldValue::I64(-12));
    store.new_span(40, "operation", None, fields);
    store.new_span(9, "attempt", Some(40), Fields::new());
    store.new_span(3, "other", Some(40), Fields::new());
    store.new_span(2, "attempt", Some(40), Fields::new());
    store.new_span(1, "attempt", None, Fields::new());
    store.new_span(5, "routing", Some(40), Fields::new());

    let mut status = Fields::new();
    status.insert("az.status_code".to_string(), FieldValue::I64(7));
    store.record(9, &status);
    store.record(77, &status);
    store.event(Some(2), status.clone());
    store.event(Some(78), status.clone());
    store.event(None, status);

    assert_eq!(store.root(), Some(40));
    assert_eq!(store.children(40), vec![9, 3, 2, 5]);
    assert_eq!(store.children(41), Vec::<u64>::new());
    let op = combo3::construct(&store);
    assert_eq!(op.operation.as_deref(), Some("-12"));
    assert_eq!(op.endpoint, None);
    assert_eq!(op.attempts.len(), 2);
    assert_eq!(op.attempts[0].status, 7);
    assert_eq!(op.attempts[0].events.len(), 0);
    assert_eq!(op.attempts[1].status, 0);
    assert_eq!(op.attempts[1].events.len(), 1);
    assert_eq!(op.children.len(), 1);
}

#[test]
fn fields_read_as_json_reads_them() {
    let mut fields = Fields::new();
    fields.insert("null".to_string(), FieldValue::Null);
    fields.insert("yes".to_string(), FieldValue::Bool(true));
    fields.insert("big".to_string(), FieldValue::U64(u64::MAX));
    fields.insert("least".to_string(), FieldValue::I64(i64::MIN));
    fields.insert("zero".to_string(), FieldValue::I64(0));
    fields.insert("half".to_string(), double_field(0.5f64.to_bits(), "0.5".to_string()));
    fields.insert("nan".to_string(), double_field(f64::NAN.to_bits(), "NaN".to_string()));
    fields.insert(
        "inf".to_string(),
        double_field(f64::NEG_INFINITY.to_bits(), "-inf".to_string()),
    );
    assert_eq!(field_str(&fields, "null").as_deref(), Some("null"));
    assert_eq!(field_str(&fields, "yes").as_deref(), Some("true"));
    assert_eq!(
        field_str(&fields, "big").as_deref(),
        Some("18446744073709551615")
    );
    assert_eq!(
        field_str(&fields, "least").as_deref(),
        Some("-9223372036854775808")
    );
    assert_eq!(field_str(&fields, "half").as_deref(), Some("0.5"));
    assert_eq!(field_str(&fields, "nan").as_deref(), Some("null"));
    assert_eq!(field_str(&fields, "none"), None);
    assert_eq!(field_u64(&fields, "big"), u64::MAX);
    assert_eq!(field_u64(&fields, "least"), 0);
    assert_eq!(field_u64(&fields, "half"), 0);
    assert_eq!(field_number(&fields, "zero").map(number_of), Some(0.0));
    assert_eq!(field_number(&fields, "half").map(number_of), Some(0.5));
    assert_eq!(field_number(&fields, "inf"), None);
    assert_eq!(field_number(&fields, "yes"), None);
}

// ---------------------------------------------------------------------------
// The gated design
// ---------------------------------------------------------------------------

fn test_preamble() -> combo4::Preamble {
    combo4::Preamble::on("linux", "x86_64")
}

fn default_policy() -> combo4::DiagnosticsPolicy {
    combo4::DiagnosticsPolicy {
        binary: true,
        ..Default::default()
    }
}

fn capture_and_gate(
    pool: &mut combo4::LogPool,
    input: &OperationInput,
    policy: &combo4::DiagnosticsPolicy,
) -> combo4::Rendered {
    let mut clock = MockClock::new();
    match combo4::capture_and_gate(pool, input, &mut clock, policy) {
        None => combo4::Rendered::Dropped,
        Some(parsed) => {
            let terms = combo4::charge_terms(&parsed);
            let total = rounded_sum(&terms).to_bits();
            let json = summary_json_4(&combo4::summarize(&parsed, total, &test_preamble()));
            combo4::render(
                &parsed,
                policy,
                json,
                &charge_texts(&terms),
                &test_preamble(),
            )
        }
    }
}

#[test]
fn s1_fast_success_is_dropped_for_free() {
    let mut pool = combo4::LogPool::new();
    let rendered = capture_and_gate(&mut pool, &s1(), &default_policy());
    assert!(rendered.is_dropped(), "fast success should be gated away");
    // The buffer was returned to the pool for reuse.
    assert_eq!(pool.pooled(), 1);
}

#[test]
fn s2_slow_success_builds() {
    let mut pool = combo4::LogPool::new();
    // S2 total is 7ms > 5ms threshold -> build.
    let rendered = capture_and_gate(&mut pool, &s2(), &default_policy());
    let json = rendered.summary_json().expect("S2 builds a summary");
    let summary: Value = serde_json::from_slice(json).unwrap();
    assert_eq!(summary["attempt_count"], 2);
    assert_eq!(summary["throttle_count"], 1);
    assert_eq!(summary["final_service_request_id"], "svc-200");
}

#[test]
fn s3_error_escalates_and_round_trips() {
    let mut pool = combo4::LogPool::new();
    let rendered = capture_and_gate(&mut pool, &s3(), &default_policy());
    let blob = rendered
        .detailed_blob()
        .expect("error builds detailed binary");
    let tree = decode(blob).unwrap();
    assert_eq!(
        tree.nodes[1].attr(attrs::ATTR_SERVICE_REQUEST_ID),
        Some("svc-404")
    );
    assert_eq!(
        tree.nodes[1].attr(attrs::ATTR_ERROR_KIND),
        Some("not_found")
    );
}

#[test]
fn version_provenance_survives_into_built_output() {
    let mut pool = combo4::LogPool::new();
    let rendered = capture_and_gate(&mut pool, &s3(), &default_policy());
    let summary: Value = serde_json::from_slice(rendered.summary_json().unwrap()).unwrap();
    let ua = summary["client"]["user_agent"].as_str().unwrap();
    assert!(ua.starts_with("azsdk-rust-azure_data_cosmos/"));
    // The hot path stored the provenance in a single byte; only the build expands it.
    let blob = rendered.detailed_blob().unwrap();
    let tree = decode(blob).unwrap();
    assert!(tree.nodes[0].attr("az.user_agent").is_some());
}

#[test]
fn off_mode_never_builds_but_still_captures_cheaply() {
    let mut pool = combo4::LogPool::new();
    let policy = combo4::DiagnosticsPolicy {
        mode: combo4::Mode::Off,
        ..default_policy()
    };
    assert!(capture_and_gate(&mut pool, &s3(), &policy).is_dropped());
}

#[test]
fn always_mode_builds_even_fast_success() {
    let mut pool = combo4::LogPool::new();
    let policy = combo4::DiagnosticsPolicy {
        mode: combo4::Mode::Always,
        ..default_policy()
    };
    assert!(!capture_and_gate(&mut pool, &s1(), &policy).is_dropped());
}

#[test]
fn s4_builds_and_detailed_has_all_children() {
    let mut pool = combo4::LogPool::new();
    let rendered = capture_and_gate(&mut pool, &s4(25), &default_policy());
    let blob = rendered.detailed_blob().expect("S4 is slow -> builds");
    let tree = decode(blob).unwrap();
    let children = tree
        .nodes
        .iter()
        .filter(|n| n.node_kind() == NodeKind::Routing)
        .count();
    assert_eq!(children, 25);
    // Summary stays compact (a count, not the children).
    let summary: Value = serde_json::from_slice(rendered.summary_json().unwrap()).unwrap();
    assert_eq!(summary["child_count"], 25);
}

#[test]
fn pool_is_reused_across_operations() {
    let mut pool = combo4::LogPool::new();
    for _ in 0..5 {
        let _ = capture_and_gate(&mut pool, &s1(), &default_policy());
    }
    // Every op dropped and returned its buffer; the pool never grows past one.
    assert_eq!(pool.pooled(), 1);
}

#[test]
fn buffers_come_back_empty() {
    let mut pool = combo4::LogPool::default();
    let mut clock = MockClock::new();
    let log = combo4::collect(&mut pool, &s2(), &mut clock);
    assert_eq!(pool.pooled(), 0);
    assert!(log.raw_len() > 0);
    assert_eq!(log.outcome(), Outcome::Success);
    assert_eq!(log.elapsed_ns(), 7_000_000);
    combo4::discard(&mut pool, log);
    assert_eq!(pool.pooled(), 1);
    assert!(pool.rent().is_empty());
    assert_eq!(pool.pooled(), 0);
    pool.give_back(vec![1, 2, 3]);
    assert!(pool.rent().is_empty());
}

#[test]
fn a_log_reads_back() {
    let mut pool = combo4::LogPool::new();
    let mut clock = MockClock::new();
    let log = combo4::collect(&mut pool, &s4(3), &mut clock);
    let parsed = combo4::parsed::parse(log.bytes());
    assert_eq!(parsed.operation, "query_items");
    assert_eq!(parsed.client_request_id, "client-0004");
    assert_eq!(parsed.start_ns, MockClock::EPOCH_NS);
    assert_eq!(parsed.attempts.len(), 1);
    assert_eq!(parsed.attempts[0].service_request_id, "svc-query-200");
    assert_eq!(f32::from_bits(parsed.attempts[0].request_charge), 18.6f32);
    assert_eq!(parsed.children.len(), 3);
    assert_eq!(parsed.children[2].plan_node_id, "plan/node/2");
    assert_eq!(parsed.children[2].feed_range, "range-02:[0200-0300)");
    assert_eq!(parsed.children[2].duration_ns, 1_100_000);
    assert_eq!(parsed.outcome, Outcome::Success);
    assert_eq!(parsed.attempt_count, 1);
    assert_eq!(parsed.total_ns, 6_000_000 + 3_150_000);
    let summary = combo4::build_summary(&log, 18.6f64.to_bits(), &test_preamble());
    assert_eq!(summary.child_count, 3);
    assert!(summary.top_error.is_none());
    let blob = combo4::build_detailed_blob(&log, &vec!["18.6".to_string()], &test_preamble());
    assert_eq!(
        decode(&blob).unwrap().nodes[1].attr(attrs::ATTR_REQUEST_CHARGE),
        Some("18.6")
    );
    assert_eq!(log.into_buf().len() > 0, true);
}

#[test]
fn the_first_bytes_of_a_log() {
    let mut pool = combo4::LogPool::new();
    let mut clock = MockClock::new();
    let log = combo4::collect(&mut pool, &s1(), &mut clock);
    let bytes = log.bytes();
    assert_eq!(&bytes[..3], &[1, 0, 9]);
    assert_eq!(&bytes[3..12], b"read_item");
}

#[test]
fn a_log_without_an_id_or_a_charge_reads_back_empty() {
    let input = s3();
    let mut clock = MockClock::new();
    let mut pool = combo4::LogPool::new();
    let mut sink = combo4::Combo4Sink::new(pool.rent());
    let mut drive = Drive::begin(&input, &mut sink, &clock);
    let response = Response {
        status: 700,
        service_request_id: None,
        request_charge: None,
    };
    drive.respond(&input, &response, &mut sink, &mut clock);
    drive.finish(&input, &mut sink, &mut clock);
    let parsed = combo4::gate(&mut pool, sink.into_log(), &default_policy()).unwrap();
    assert_eq!(parsed.attempts[0].service_request_id, "");
    assert_eq!(parsed.attempts[0].request_charge, 0);
    let summary = combo4::summarize(&parsed, 0, &test_preamble());
    assert_eq!(summary.top_error.unwrap().error_kind, "unknown");
    assert_eq!(summary.final_service_request_id.as_deref(), Some(""));
}

#[test]
fn broken_logs_are_read_as_far_as_they_go() {
    let empty = combo4::parsed::parse(&[]);
    assert_eq!(empty.operation, "");
    assert_eq!(empty.outcome, Outcome::Success);
    let unknown = combo4::parsed::parse(&[9, 1, 0]);
    assert_eq!(unknown.attempts.len(), 0);
    let cut = combo4::parsed::parse(&[2, 5]);
    assert_eq!(cut.attempts.len(), 1);
    assert_eq!(cut.attempts[0].index, 5);
    assert_eq!(cut.attempts[0].status, 0);
    assert_eq!(cut.attempts[0].request_charge, 0);
    let failed = combo4::parsed::parse(&[4, 1, 3, 7]);
    assert_eq!(failed.outcome, Outcome::Error);
    assert_eq!(failed.attempt_count, 3);
    assert_eq!(failed.total_ns, 7);
    let only_tag = combo4::parsed::parse(&[4]);
    assert_eq!(only_tag.outcome, Outcome::Success);
}

#[test]
fn should_build_goes_by_the_log() {
    let mut pool = combo4::LogPool::new();
    let mut clock = MockClock::new();
    let log = combo4::collect(&mut pool, &s3(), &mut clock);
    let default = combo4::DiagnosticsPolicy::default();
    assert!(combo4::should_build(&log, &default));
    let quiet = combo4::DiagnosticsPolicy {
        capture_on_error: false,
        ..default
    };
    assert!(!combo4::should_build(&log, &quiet));
    let strict = combo4::DiagnosticsPolicy {
        latency_threshold_ns: Some(2_499_999),
        ..quiet
    };
    assert!(combo4::should_build(&log, &strict));
    let exact = combo4::DiagnosticsPolicy {
        latency_threshold_ns: Some(2_500_000),
        ..quiet
    };
    assert!(!combo4::should_build(&log, &exact));
    let none = combo4::DiagnosticsPolicy {
        latency_threshold_ns: None,
        ..quiet
    };
    assert!(!combo4::should_build(&log, &none));
}

#[test]
fn a_summary_alone_without_the_binary_option() {
    let mut pool = combo4::LogPool::new();
    let policy = combo4::DiagnosticsPolicy::default();
    let rendered = capture_and_gate(&mut pool, &s3(), &policy);
    assert!(rendered.summary_json().is_some());
    assert!(rendered.detailed_blob().is_none());
    assert!(!rendered.is_dropped());
    assert!(combo4::Rendered::Dropped.summary_json().is_none());
}

#[test]
fn user_agents_have_the_canonical_shape() {
    let p = test_preamble();
    assert_eq!(p.sdk_version(), "0.1.0");
    assert_eq!(p.driver_version(), "0.1.0");
    assert_eq!(
        p.user_agent(),
        "azsdk-rust-azure_data_cosmos/0.1.0 (linux; x86_64)"
    );
    let suffixed = combo4::Preamble {
        sdk_ver: [12, 345, 65535],
        ua_suffix: "F1",
        ..p
    };
    assert_eq!(
        suffixed.user_agent(),
        "azsdk-rust-azure_data_cosmos/12.345.65535 (linux; x86_64) F1"
    );
    let info = combo4::client_info(&suffixed);
    assert_eq!(info.sdk_version, "azure_data_cosmos 12.345.65535");
    assert_eq!(info.driver_version, "0.1.0");
}

#[test]
fn the_driver_finishes_a_log() {
    let mut pool = combo4::LogPool::new();
    let mut clock = MockClock::new();
    let log = combo4::collect(&mut pool, &s1(), &mut clock);
    let slow_only = gate::DiagnosticsPolicy::threshold(Duration::from_millis(5));
    let gated = gate::finish(&mut pool, log, &slow_only);
    assert_eq!(pool.pooled(), 1);
    let dropped = gate::render(&gated, &slow_only, 0, &Vec::new(), &test_preamble());
    assert!(dropped.is_dropped());
    assert!(dropped.summary().is_none());

    let mut clock = MockClock::new();
    let log = combo4::collect(&mut pool, &s2(), &mut clock);
    let binary = gate::DiagnosticsPolicy {
        binary: true,
        ..slow_only
    };
    let gated = gate::finish(&mut pool, log, &binary);
    let terms = combo4::charge_terms(gated.as_ref().unwrap());
    let total = rounded_sum(&terms);
    assert_eq!(total, 8.4);
    let built = gate::render(
        &gated,
        &binary,
        total.to_bits(),
        &charge_texts(&terms),
        &test_preamble(),
    );
    let summary = built.summary().unwrap();
    assert_eq!(summary.throttle_count, 1);
    assert_eq!(f64::from_bits(summary.total_request_charge), 8.4);
    let tree = decode(built.detailed_blob().unwrap()).unwrap();
    assert_eq!(tree.nodes.len(), 3);
    assert_eq!(tree.nodes[2].attr(attrs::ATTR_REQUEST_CHARGE), Some("4.2"));
}

#[test]
fn gated_and_tiered_summaries_agree() {
    for input in [s1(), s2(), s3(), s4(10)] {
        let tiered = summary_of(&input);
        let mut pool = combo4::LogPool::new();
        let mut clock = MockClock::new();
        let log = combo4::collect(&mut pool, &input, &mut clock);
        let gated = combo4::build_summary(&log, 0, &test_preamble());
        assert_eq!(gated.operation, tiered.operation);
        assert_eq!(gated.outcome, tiered.outcome);
        assert_eq!(gated.attempt_count, tiered.attempt_count);
        assert_eq!(gated.retry_count, tiered.retry_count);
        assert_eq!(gated.total_elapsed_ns, tiered.total_elapsed_ns);
        assert_eq!(gated.throttle_count, tiered.throttle_count);
        assert_eq!(gated.status_counts.len(), tiered.status_counts.len());
        for i in 0..gated.status_counts.len() {
            assert_eq!(gated.status_counts.entry(i), tiered.status_counts.entry(i));
        }
        assert_eq!(
            gated.final_service_request_id,
            tiered.final_service_request_id
        );
        assert_eq!(gated.child_count, tiered.child_count);
        assert_eq!(
            gated.top_error.map(|e| (e.status, e.error_kind)),
            tiered.top_error.map(|e| (e.status, e.error_kind))
        );
    }
}

#[test]
fn trees_are_rooted_at_the_operation() {
    let mut clock = MockClock::new();
    let tree = combo2::detailed_wire(&combo2::collect(&s4(3), &mut clock));
    assert_eq!(tree.nodes.len(), 5);
    assert_eq!(tree.nodes[0].parent, None);
    let kinds: Vec<u8> = tree.nodes.iter().map(|n| n.kind).collect();
    assert_eq!(kinds, vec![0, 1, 3, 3, 3]);
    assert!(tree.nodes[1..].iter().all(|n| n.parent == Some(0)));
}

#[test]
fn the_preamble_of_a_platform() {
    let p = combo4::Preamble::on("linux", "x86_64");
    assert_eq!(p.sdk_name, "azure_data_cosmos");
    assert_eq!(p.sdk_ver, [0, 1, 0]);
    assert_eq!(p.driver_ver, [0, 1, 0]);
    assert_eq!(p.ua_suffix, "");
    assert_eq!((p.os, p.arch), ("linux", "x86_64"));
    assert_eq!(
        p.user_agent(),
        "azsdk-rust-azure_data_cosmos/0.1.0 (linux; x86_64)"
    );
}

#[test]
fn serialize_goes_by_the_size() {
    for (input, long) in [(noop_input(), false), (s1(), true), (s4(25), true)] {
        let mut clock = MockClock::new();
        let tree = combo1::construct(&combo1::collect(&input, &mut clock));
        let plain = combo1::serialize_with(&tree, false);
        assert_eq!(plain.len() - 6 > 256, long);
        let blob = combo1::serialize(&tree);
        assert!(plain.starts_with(b"AZD1"));
        assert!(blob.starts_with(b"AZD1"));
        assert_eq!(blob, combo1::serialize_with(&tree, long));
        assert_eq!(blob == plain, !long);
    }
}

#[test]
fn capturing_is_collecting_and_serializing() {
    for (input, verbose) in [(s1(), true), (s2(), true), (s3(), false), (s4(10), true)] {
        let (mut c, mut d) = (MockClock::new(), MockClock::new());
        let blob = combo1::capture_blob(&input, &mut c, verbose).unwrap();
        let arena = combo1::collect(&input, &mut d);
        assert_eq!(blob, combo1::serialize(&combo1::construct(&arena)));
    }
}

#[test]
fn a_whole_charge_reads_as_json_has_it() {
    let mut input = s1();
    input.attempts[0].request_charge = Charge {
        bits: 5.0f64.to_bits(),
        single: 5.0f32.to_bits(),
        text: 5.0f64.to_string(),
        json: serde_json::Value::from(5.0f64).to_string(),
    };
    assert_eq!(input.attempts[0].request_charge.text, "5");
    let value = charge_field(Some(&input.attempts[0].request_charge));
    assert_eq!(value.as_text(), "5.0");
    assert_eq!(charge_field(None).as_text(), "0.0");
}
