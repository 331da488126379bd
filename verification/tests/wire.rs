use azure_core_diag::clock::MockClock;
use azure_core_diag::combo1;
use azure_core_diag::scenarios::{s2, s4, OperationInput};
use azure_core_diag::wire::{
    decode, encode, encode_auto, read_str, read_varint, write_str, write_varint, DecodeError,
    NodeKind, WireNode, WireTree,
};

fn tree_for(input: &OperationInput) -> WireTree {
    let mut clock = MockClock::new();
    combo1::construct(&combo1::collect(input, &mut clock))
}

fn small_tree() -> WireTree {
    WireTree {
        operation: "op".to_string(),
        nodes: vec![
            WireNode {
                parent: None,
                kind: NodeKind::Operation.as_u8(),
                start_ns: 300,
                duration_ns: 1,
                status: 0,
                attrs: vec![("k".to_string(), "é".to_string())],
            },
            WireNode {
                parent: Some(0),
                kind: NodeKind::Query.as_u8(),
                start_ns: u64::MAX,
                duration_ns: 128,
                status: 429,
                attrs: Vec::new(),
            },
        ],
    }
}

fn same_trees(a: &WireTree, b: &WireTree) -> bool {
    encode(a, false) == encode(b, false)
}

#[test]
fn the_bytes_of_a_blob() {
    let blob = encode(&small_tree(), false);
    let expected: Vec<u8> = vec![
        b'A', b'Z', b'D', b'1', 1, 0, // header
        2, b'o', b'p', 2, // operation, node count
        0, 0, 0xAC, 0x02, 1, 0, 1, 1, b'k', 2, 0xC3, 0xA9, // root
        1, 4, 0xFF, 0xFF, 0xFF, 0xFF, 0xFF, 0xFF, 0xFF, 0xFF, 0xFF, 0x01, 0x80, 0x01, 0xAD, 0x03,
        0, // query
    ];
    assert_eq!(blob, expected);
}

#[test]
fn blobs_round_trip_compressed_or_not() {
    for tree in [small_tree(), tree_for(&s2()), tree_for(&s4(25))] {
        for compress in [false, true] {
            let blob = encode(&tree, compress);
            assert_eq!(&blob[..4], b"AZD1");
            assert_eq!(blob[5], u8::from(compress));
            assert!(same_trees(&decode(&blob).unwrap(), &tree));
        }
    }
}

#[test]
fn compression_inflates_to_the_payload_and_not_to_itself() {
    let tree = tree_for(&s4(25));
    let plain = encode(&tree, false);
    let packed = encode(&tree, true);
    assert!(packed.len() < plain.len());
    assert_ne!(&packed[6..], &plain[6..]);
}

fn tree_with_payload_of(n: usize) -> WireTree {
    // The name takes its length in two bytes, and the node count takes one.
    WireTree {
        operation: "x".repeat(n - 3),
        nodes: Vec::new(),
    }
}

#[test]
fn only_large_payloads_are_compressed() {
    assert_eq!(encode_auto(&small_tree())[5], 0);
    assert_eq!(encode_auto(&tree_for(&s4(10)))[5], 1);
    assert_eq!(encode_auto(&tree_for(&s4(25)))[5], 1);
    let largest = tree_with_payload_of(256);
    assert_eq!(encode(&largest, false).len(), 6 + 256);
    assert_eq!(encode_auto(&largest)[5], 0);
    let larger = tree_with_payload_of(257);
    assert_eq!(encode_auto(&larger)[5], 1);
    assert!(same_trees(&decode(&encode_auto(&larger)).unwrap(), &larger));
}

#[test]
fn bad_magic_is_refused() {
    assert_eq!(decode(b"").unwrap_err(), DecodeError::BadMagic);
    assert_eq!(decode(b"AZD").unwrap_err(), DecodeError::BadMagic);
    assert_eq!(decode(b"{\"a\": 1}").unwrap_err(), DecodeError::BadMagic);
    assert_eq!(
        DecodeError::BadMagic.message(),
        "not an AZD1 diagnostics blob"
    );
}

#[test]
fn unknown_versions_are_refused() {
    let mut blob = encode(&small_tree(), false);
    blob[4] = 2;
    assert_eq!(
        decode(&blob).unwrap_err(),
        DecodeError::UnsupportedVersion(2)
    );
    assert_eq!(
        DecodeError::UnsupportedVersion(2).message(),
        "unsupported AZD1 version 2"
    );
}

#[test]
fn cut_blobs_end_too_soon() {
    let blob = encode(&small_tree(), false);
    for n in 4..blob.len() {
        assert_eq!(decode(&blob[..n]).unwrap_err(), DecodeError::UnexpectedEnd);
    }
    assert_eq!(
        DecodeError::UnexpectedEnd.message(),
        "unexpected end of blob"
    );
}

#[test]
fn malformed_fields_are_refused() {
    // The operation name is not UTF-8.
    assert_eq!(
        decode(&[b'A', b'Z', b'D', b'1', 1, 0, 1, 0xFF, 0]).unwrap_err(),
        DecodeError::Malformed
    );
    // A varint of eleven bytes.
    let mut long = vec![b'A', b'Z', b'D', b'1', 1, 0];
    long.extend_from_slice(&[0x80; 11]);
    assert_eq!(decode(&long).unwrap_err(), DecodeError::Malformed);
    // A payload that says it is compressed and is not.
    assert_eq!(
        decode(&[b'A', b'Z', b'D', b'1', 1, 1, 0xFF, 0xFF]).unwrap_err(),
        DecodeError::Malformed
    );
    assert_eq!(DecodeError::Malformed.message(), "malformed blob");
}

#[test]
fn varints_round_trip_at_their_edges() {
    for n in [0u64, 1, 127, 128, 16_383, 16_384, u64::from(u32::MAX), u64::MAX] {
        let mut out = Vec::new();
        write_varint(&mut out, n);
        let mut pos = 0;
        assert_eq!(read_varint(&out, &mut pos), Ok(n));
        assert_eq!(pos, out.len());
    }
    let mut pos = 0;
    assert_eq!(
        read_varint(&[0x80], &mut pos),
        Err(DecodeError::UnexpectedEnd)
    );
    assert_eq!(pos, 0);
    // 2^64 does not fit.
    let over = [0x80, 0x80, 0x80, 0x80, 0x80, 0x80, 0x80, 0x80, 0x80, 0x02];
    assert_eq!(read_varint(&over, &mut pos), Err(DecodeError::Malformed));
}

#[test]
fn strings_round_trip() {
    let mut out = vec![9];
    write_str(&mut out, "héllo");
    write_str(&mut out, "");
    let mut pos = 1;
    assert_eq!(read_str(&out, &mut pos).as_deref(), Ok("héllo"));
    assert_eq!(read_str(&out, &mut pos).as_deref(), Ok(""));
    assert_eq!(pos, out.len());
    assert_eq!(
        read_str(&out, &mut pos).unwrap_err(),
        DecodeError::UnexpectedEnd
    );
}

#[test]
fn kinds_have_codes() {
    for (kind, code) in [
        (NodeKind::Operation, 0u8),
        (NodeKind::Attempt, 1),
        (NodeKind::Transport, 2),
        (NodeKind::Routing, 3),
        (NodeKind::Query, 4),
    ] {
        assert_eq!(kind.as_u8(), code);
        assert_eq!(NodeKind::from_u8(code), kind);
    }
}

#[test]
fn the_first_attribute_of_a_key_counts() {
    let node = WireNode {
        parent: None,
        kind: 1,
        start_ns: 0,
        duration_ns: 0,
        status: 0,
        attrs: vec![
            ("a".to_string(), "1".to_string()),
            ("a".to_string(), "2".to_string()),
        ],
    };
    assert_eq!(node.attr("a"), Some("1"));
    assert_eq!(node.attr("b"), None);
    assert_eq!(node.node_kind(), NodeKind::Attempt);
}
