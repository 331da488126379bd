use azure_core_diag::attrs;
use azure_core_diag::charge::{charge_exceeds, charge_is_finite};
use azure_core_diag::combo2::summary::TEN_REQUEST_UNITS;
use azure_core_diag::scenarios::{noop_input, ru_default, s1, s2, s3, s4, scenarios, Outcome};
use azure_core_diag::status::{error_kind, failure_kind, status_succeeds};
use azure_core_diag::tally::tally_statuses;
use azure_core_diag::text::{decimal_text, joined, padded_decimal_text, padded_hex_text, same_text};
use azure_core_diag::text_map::{comes_before, TextMap};

#[test]
fn attribute_keys() {
    assert_eq!(attrs::HEADER_SERVICE_REQUEST_ID, "x-ms-request-id");
    assert_eq!(attrs::HEADER_CLIENT_REQUEST_ID, "x-ms-client-request-id");
    assert_eq!(attrs::HEADER_REQUEST_CHARGE, "x-ms-request-charge");
    assert_eq!(attrs::ATTR_SERVICE_REQUEST_ID, "az.service_request_id");
    assert_eq!(attrs::ATTR_OPERATION, "az.operation");
}

#[test]
fn charges_carry_the_patterns_of_their_numbers() {
    let c = ru_default();
    assert_eq!(c.bits, 4.2f64.to_bits());
    assert_eq!(c.single, 4.2f32.to_bits());
    assert_eq!(c.text, 4.2f64.to_string());
    assert_eq!(c.json, serde_json::Value::from(4.2f64).to_string());
    let q = &s4(1).attempts[0].request_charge;
    assert_eq!(q.bits, 18.6f64.to_bits());
    assert_eq!(q.single, 18.6f32.to_bits());
    assert_eq!(q.text, 18.6f64.to_string());
    assert_eq!(q.json, serde_json::Value::from(18.6f64).to_string());
    assert_eq!(TEN_REQUEST_UNITS, 10.0f64.to_bits());
}

#[test]
fn patterns_compare_as_their_numbers_do() {
    let numbers = [
        0.0,
        -0.0,
        1.0,
        -1.0,
        4.2,
        18.6,
        1e300,
        -1e300,
        f64::MIN_POSITIVE,
        5e-324,
        f64::INFINITY,
        f64::NEG_INFINITY,
        f64::NAN,
        -f64::NAN,
    ];
    for a in numbers {
        assert_eq!(charge_is_finite(a.to_bits()), a.is_finite());
        for b in numbers {
            assert_eq!(charge_exceeds(a.to_bits(), b.to_bits()), a > b);
        }
    }
}

#[test]
fn statuses_have_kinds() {
    assert_eq!(error_kind(429), "throttled");
    assert_eq!(error_kind(404), "not_found");
    assert_eq!(error_kind(400), "client_error");
    assert_eq!(error_kind(499), "client_error");
    assert_eq!(error_kind(500), "server_error");
    assert_eq!(error_kind(599), "server_error");
    assert_eq!(error_kind(600), "unknown");
    assert_eq!(error_kind(304), "unknown");
    assert!(status_succeeds(200) && status_succeeds(299));
    assert!(!status_succeeds(199) && !status_succeeds(300));
    assert_eq!(failure_kind(204), None);
    assert_eq!(failure_kind(503), Some("server_error"));
}

#[test]
fn numbers_render() {
    assert_eq!(decimal_text(0), "0");
    assert_eq!(decimal_text(u64::MAX), "18446744073709551615");
    assert_eq!(padded_decimal_text(7, 2), "07");
    assert_eq!(padded_decimal_text(123, 2), "123");
    assert_eq!(padded_hex_text(0x1a00, 4), "1a00");
    assert_eq!(padded_hex_text(0x1ff00, 4), "1ff00");
    assert_eq!(padded_hex_text(0, 4), "0000");
    assert_eq!(joined(&vec!["a", "", "bc"]), "abc");
    assert!(same_text("é", "é"));
    assert!(!same_text("é", "e"));
    assert!(!same_text("a", "ab"));
}

#[test]
fn text_is_ordered_as_strings_are() {
    let words = ["", "a", "ab", "b", "é", "S1", "S4x10", "S4x25", "zebra", "429", "\u{10FFFF}"];
    for a in words {
        for b in words {
            assert_eq!(comes_before(a, b), a < b);
        }
    }
}

#[test]
fn maps_keep_their_keys_in_order() {
    let mut map: TextMap<u32> = TextMap::new();
    assert_eq!(map.get("a"), None);
    for (i, key) in ["m", "a", "z", "a", "é"].iter().enumerate() {
        map.insert(key.to_string(), i as u32);
    }
    let copy = map.clone();
    assert_eq!(copy.len(), 4);
    let entries: Vec<(&str, u32)> = (0..copy.len())
        .map(|i| (copy.entry(i).0, *copy.entry(i).1))
        .collect();
    assert_eq!(entries, vec![("a", 3), ("m", 0), ("z", 2), ("é", 4)]);
    assert_eq!(map.get("a"), Some(&3));
    assert_eq!(map.get("b"), None);
}

#[test]
fn statuses_are_tallied() {
    let tally = tally_statuses(&vec![200, 429, 429, 503, 200]);
    assert_eq!(tally.counts.get("200"), Some(&2));
    assert_eq!(tally.counts.get("429"), Some(&2));
    assert_eq!(tally.counts.get("503"), Some(&1));
    assert_eq!(tally.counts.get("404"), None);
    assert_eq!(tally.throttled, 2);
    assert_eq!(tally.first_failure, Some(1));
    let sum: u32 = (0..tally.counts.len()).map(|i| *tally.counts.entry(i).1).sum();
    assert_eq!(sum, 5);
    assert_eq!(tally_statuses(&vec![204]).first_failure, None);
}

#[test]
fn reference_scenarios() {
    let names: Vec<&str> = scenarios().iter().map(|(name, _)| *name).collect();
    assert_eq!(names, vec!["S1", "S2", "S3", "S4x10", "S4x25"]);
    assert!(s1().succeeded());
    assert!(s2().succeeded());
    assert!(!s3().succeeded());
    assert!(!noop_input().succeeded());
    let query = s4(12);
    assert_eq!(query.children.len(), 12);
    assert_eq!(query.children[11].plan_node_id, "plan/node/11");
    assert_eq!(query.children[11].feed_range, "range-11:[0b00-0c00)");
    assert_eq!(query.children[11].duration_ns, 1_550_000);
    assert_eq!(Outcome::Success.as_str(), "success");
    assert_eq!(Outcome::Error.as_str(), "error");
}
