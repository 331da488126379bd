//! The bytes of blobs and logs, the order of charges, and the words of provenance.

use vstd::prelude::*;
use vstd::string::*;
use vstd::utf8::*;

use crate::charge::{exceeds, is_finite, is_nan};
use crate::combo2::summary::TEN_REQUEST_UNITS;
use crate::combo4::client_of;
use crate::combo4::log::{le_bytes, record};
use crate::combo4::parsed::{
    le_at, number_or_zero, parsed_from, parsed_log, text_or_empty, ParsedModel,
};
use crate::combo4::preamble::{version_of, PreambleModel};
use crate::scenarios::{Outcome, SinkEvent};
use crate::text::{concatenation, decimal};
use crate::text_map::{departs_below, text_below};
use crate::wire::{
    attrs_bytes, auto_compresses, decoded, header, inflated, is_encoding, node_bytes, nodes_bytes,
    payload, text_at, text_bytes, tree_of_payload, varint_at, varint_bytes, AttrsModel,
    DecodeError, NodeModel, TreeModel,
};

verus! {

// ---------------------------------------------------------------------------
// Blobs
// ---------------------------------------------------------------------------

/// The number that groups of seven bits stand for, lowest first.
pub open spec fn worth_of(groups: Seq<u8>) -> int
    decreases groups.len(),
{
    if groups.len() == 0 {
        0
    } else {
        groups[0] % 128 + 128 * worth_of(groups.skip(1))
    }
}

/// A varint stands for its number, seven bits to a byte; every byte but the last is marked, and
/// the last is not zero unless it stands alone.
pub proof fn law_varints_stand_for_their_number(n: nat)
    ensures
        ({
            let bytes = varint_bytes(n);
            &&& bytes.len() >= 1
            &&& worth_of(bytes) == n
            &&& forall|i: int| 0 <= i < bytes.len() - 1 ==> #[trigger] bytes[i] >= 128
            &&& bytes[bytes.len() - 1] < 128
            &&& bytes.len() > 1 ==> bytes[bytes.len() - 1] > 0
            &&& bytes.len() > 1 <==> n >= 128
        }),
    decreases n,
{
    let bytes = varint_bytes(n);
    if n < 128 {
        assert(bytes =~= seq![n as u8]);
        assert(bytes.skip(1) =~= Seq::empty());
        reveal_with_fuel(worth_of, 2);
    } else {
        let rest = varint_bytes(n / 128);
        law_varints_stand_for_their_number(n / 128);
        assert(bytes.skip(1) =~= rest);
        assert(bytes[0] == (n % 128 + 128) as u8);
        assert forall|i: int| 0 <= i < bytes.len() - 1 implies #[trigger] bytes[i] >= 128 by {
            if i > 0 {
                assert(bytes[i] == rest[i - 1]);
            }
        }
        assert(bytes[bytes.len() - 1] == rest[rest.len() - 1]);
    }
}

/// The header is the letters `AZD1`, version one, and one flag for compression.
pub proof fn law_headers()
    ensures
        header(false) == seq![0x41u8, 0x5Au8, 0x44u8, 0x31u8, 1u8, 0u8],
        header(true) == seq![0x41u8, 0x5Au8, 0x44u8, 0x31u8, 1u8, 1u8],
{
    assert(header(false) =~= seq![0x41u8, 0x5Au8, 0x44u8, 0x31u8, 1u8, 0u8]);
    assert(header(true) =~= seq![0x41u8, 0x5Au8, 0x44u8, 0x31u8, 1u8, 1u8]);
}

proof fn lemma_regrouped(a: Seq<u8>, b: Seq<u8>, c: Seq<u8>)
    ensures
        a + (b + c) == a + b + c,
{
    assert(a + (b + c) =~= a + b + c);
}

/// The bytes of a node: its parent link, kind, start, duration, status and attributes, in this
/// order. The link is zero for none, and else one more than the parent's index.
pub proof fn law_node_layout(n: NodeModel)
    ensures
        node_bytes(n) == varint_bytes(
            match n.parent {
                Some(p) => (p + 1) as nat,
                None => 0,
            },
        ) + seq![n.kind] + varint_bytes(n.start_ns as nat) + varint_bytes(n.duration_ns as nat)
            + varint_bytes(n.status as nat) + varint_bytes(n.attrs.len()) + attrs_bytes(n.attrs),
{
    let link = varint_bytes(
        match n.parent {
            Some(p) => (p + 1) as nat,
            None => 0,
        },
    );
    let kind = seq![n.kind];
    let start = varint_bytes(n.start_ns as nat);
    let duration = varint_bytes(n.duration_ns as nat);
    let status = varint_bytes(n.status as nat);
    let count = varint_bytes(n.attrs.len());
    let rest = attrs_bytes(n.attrs);
    lemma_regrouped(link, kind, start + (duration + (status + (count + rest))));
    lemma_regrouped(link + kind, start, duration + (status + (count + rest)));
    lemma_regrouped(link + kind + start, duration, status + (count + rest));
    lemma_regrouped(link + kind + start + duration, status, count + rest);
    lemma_regrouped(link + kind + start + duration + status, count, rest);
}

/// A payload is the name of the operation and the number of its nodes, and then the nodes; the
/// attributes of a node follow each other, key and value.
pub proof fn law_payload_layout(
    t: TreeModel,
    nodes: Seq<NodeModel>,
    n: NodeModel,
    attrs: AttrsModel,
    key: Seq<char>,
    value: Seq<char>,
)
    ensures
        payload(t) == text_bytes(t.operation) + varint_bytes(t.nodes.len()) + nodes_bytes(t.nodes),
        nodes_bytes(Seq::empty()) == Seq::<u8>::empty(),
        nodes_bytes(nodes.push(n)) == nodes_bytes(nodes) + node_bytes(n),
        attrs_bytes(Seq::empty()) == Seq::<u8>::empty(),
        attrs_bytes(attrs.push((key, value))) == attrs_bytes(attrs) + text_bytes(key) + text_bytes(
            value,
        ),
        text_bytes(key) == varint_bytes(encode_utf8(key).len()) + encode_utf8(key),
{
    lemma_regrouped(
        text_bytes(t.operation),
        varint_bytes(t.nodes.len()),
        nodes_bytes(t.nodes),
    );
    assert(nodes.push(n).drop_last() =~= nodes);
    assert(attrs.push((key, value)).drop_last() =~= attrs);
    lemma_regrouped(attrs_bytes(attrs), text_bytes(key), text_bytes(value));
}

/// A payload is compressed on its own account exactly where it is longer than 256 bytes.
pub proof fn law_long_payloads_are_compressed(t: TreeModel)
    ensures
        auto_compresses(t) <==> payload(t).len() > 256,
{
}

/// What is no blob of this version is refused, and why: other letters, another version, or too few
/// bytes for a header. What has a header is read as its lowest flag says.
pub proof fn law_what_blobs_are_read(blob: Seq<u8>)
    ensures
        blob.len() < 4 ==> decoded(blob) == Err::<TreeModel, DecodeError>(DecodeError::BadMagic),
        blob.len() >= 4 && (blob[0] != 0x41 || blob[1] != 0x5A || blob[2] != 0x44 || blob[3]
            != 0x31) ==> decoded(blob) == Err::<TreeModel, DecodeError>(DecodeError::BadMagic),
        blob.len() >= 4 && blob[0] == 0x41 && blob[1] == 0x5A && blob[2] == 0x44 && blob[3] == 0x31
            ==> {
            &&& blob.len() == 4 ==> decoded(blob) == Err::<TreeModel, DecodeError>(
                DecodeError::UnexpectedEnd,
            )
            &&& blob.len() > 4 && blob[4] != 1 ==> decoded(blob) == Err::<TreeModel, DecodeError>(
                DecodeError::UnsupportedVersion(blob[4]),
            )
            &&& blob.len() == 5 && blob[4] == 1 ==> decoded(blob) == Err::<TreeModel, DecodeError>(
                DecodeError::UnexpectedEnd,
            )
            &&& blob.len() > 5 && blob[4] == 1 && blob[5] % 2 == 0 ==> decoded(blob)
                == tree_of_payload(blob.skip(6))
            &&& blob.len() > 5 && blob[4] == 1 && blob[5] % 2 == 1 && inflated(
                blob.skip(6),
            ) is None ==> decoded(blob) == Err::<TreeModel, DecodeError>(DecodeError::Malformed)
            &&& blob.len() > 5 && blob[4] == 1 && blob[5] % 2 == 1 && inflated(
                blob.skip(6),
            ) is Some ==> decoded(blob) == tree_of_payload(inflated(blob.skip(6))->0)
        },
{
    if blob.len() >= 4 {
        let letters = seq![0x41u8, 0x5Au8, 0x44u8, 0x31u8];
        if blob[0] == 0x41 && blob[1] == 0x5A && blob[2] == 0x44 && blob[3] == 0x31 {
            assert(blob.take(4) =~= letters);
        } else {
            let head = blob.take(4);
            assert(head[0] == blob[0] && head[1] == blob[1] && head[2] == blob[2] && head[3]
                == blob[3]);
            assert(letters[0] == 0x41 && letters[1] == 0x5A && letters[2] == 0x44 && letters[3]
                == 0x31);
        }
    }
}

/// The sentences for the errors.
pub proof fn law_error_messages(v: u8)
    ensures
        DecodeError::BadMagic.spec_message() == "not an AZD1 diagnostics blob"@,
        DecodeError::UnsupportedVersion(v).spec_message() == "unsupported AZD1 version "@
            + decimal(v as nat),
        DecodeError::UnexpectedEnd.spec_message() == "unexpected end of blob"@,
        DecodeError::Malformed.spec_message() == "malformed blob"@,
{
}

// ---------------------------------------------------------------------------
// Logs
// ---------------------------------------------------------------------------

/// Four bytes stand for a number of 32 bits, lowest first.
pub proof fn law_four_bytes_are_the_number(n: u32)
    ensures
        le_bytes(n).len() == 4,
        le_bytes(n)[0] + 0x100 * le_bytes(n)[1] + 0x1_0000 * le_bytes(n)[2] + 0x100_0000
            * le_bytes(n)[3] == n,
{
}

/// The records of a log: a tag for the event, and its fields in order. The provenance of an
/// operation is one byte of its first record.
pub proof fn law_record_layout(
    name: Seq<char>,
    endpoint: Seq<char>,
    client_request_id: Seq<char>,
    start_ns: u64,
    index: u32,
    status: u16,
    id: Seq<char>,
    charge: crate::charge::ChargeModel,
    duration_ns: u64,
    plan_node_id: Seq<char>,
    feed_range: Seq<char>,
    outcome: Outcome,
    total_ns: u64,
)
    ensures
        record(SinkEvent::Start { name, endpoint, client_request_id, start_ns }) == seq![1u8, 0u8]
            + text_bytes(name) + text_bytes(endpoint) + text_bytes(client_request_id)
            + varint_bytes(start_ns as nat),
        record(
            SinkEvent::Attempt {
                index,
                status,
                service_request_id: Some(id),
                request_charge: Some(charge),
                start_ns,
                duration_ns,
            },
        ) == seq![2u8] + varint_bytes(index as nat) + varint_bytes(status as nat) + text_bytes(id)
            + le_bytes(charge.single) + varint_bytes(start_ns as nat) + varint_bytes(
            duration_ns as nat,
        ),
        record(SinkEvent::Child { index, plan_node_id, feed_range, start_ns, duration_ns })
            == seq![3u8] + text_bytes(plan_node_id) + text_bytes(feed_range) + varint_bytes(
            start_ns as nat,
        ) + varint_bytes(duration_ns as nat),
        record(SinkEvent::End { outcome, attempt_count: index, total_ns }) == seq![
            4u8,
            if outcome == Outcome::Success {
                0u8
            } else {
                1u8
            },
        ] + varint_bytes(index as nat) + varint_bytes(total_ns as nat),
{
    assert(record(SinkEvent::Start { name, endpoint, client_request_id, start_ns }) =~= seq![
        1u8,
        0u8,
    ] + text_bytes(name) + text_bytes(endpoint) + text_bytes(client_request_id) + varint_bytes(
        start_ns as nat,
    ));
    assert(record(
        SinkEvent::Attempt {
            index,
            status,
            service_request_id: Some(id),
            request_charge: Some(charge),
            start_ns,
            duration_ns,
        },
    ) =~= seq![2u8] + varint_bytes(index as nat) + varint_bytes(status as nat) + text_bytes(id)
        + le_bytes(charge.single) + varint_bytes(start_ns as nat) + varint_bytes(
        duration_ns as nat,
    ));
    assert(record(SinkEvent::Child { index, plan_node_id, feed_range, start_ns, duration_ns })
        =~= seq![3u8] + text_bytes(plan_node_id) + text_bytes(feed_range) + varint_bytes(
        start_ns as nat,
    ) + varint_bytes(duration_ns as nat));
    let code = if outcome == Outcome::Success {
        0u8
    } else {
        1u8
    };
    assert(record(SinkEvent::End { outcome, attempt_count: index, total_ns }) =~= seq![4u8, code]
        + varint_bytes(index as nat) + varint_bytes(total_ns as nat));
}

/// Reading a log stops at its end and at a byte that is no tag, with what was read so far.
pub proof fn law_reading_stops(buf: Seq<u8>, pos: int, p: ParsedModel)
    ensures
        pos >= buf.len() ==> parsed_from(buf, pos, p) == p,
        0 <= pos < buf.len() && (buf[pos] == 0 || buf[pos] > 4) ==> parsed_from(buf, pos, p) == p,
        buf.len() == 0 ==> parsed_log(buf).attempts.len() == 0 && parsed_log(buf).children.len()
            == 0 && parsed_log(buf).operation.len() == 0 && parsed_log(buf).attempt_count == 0
            && parsed_log(buf).total_ns == 0 && parsed_log(buf).outcome == Outcome::Success,
{
}

// ---------------------------------------------------------------------------
// The order of charges
// ---------------------------------------------------------------------------

/// Charges are ordered as the numbers that their patterns stand for: patterns without a sign by
/// size, patterns with one the other way round, and those with a sign below those without. The two
/// zeros are alike, and nothing compares with what is no number.
pub proof fn law_charges_are_ordered(a: u64, b: u64)
    ensures
        is_nan(a) <==> a % 0x8000_0000_0000_0000 > 0x7FF0_0000_0000_0000,
        is_finite(a) <==> a % 0x8000_0000_0000_0000 < 0x7FF0_0000_0000_0000,
        is_nan(a) || is_nan(b) ==> !exceeds(a, b),
        !is_nan(a) && !is_nan(b) && a < 0x8000_0000_0000_0000 && b < 0x8000_0000_0000_0000 ==> (
        exceeds(a, b) <==> a > b),
        !is_nan(a) && !is_nan(b) && a >= 0x8000_0000_0000_0000 && b >= 0x8000_0000_0000_0000 ==> (
        exceeds(a, b) <==> a < b),
        !is_nan(a) && !is_nan(b) && a < 0x8000_0000_0000_0000 && b >= 0x8000_0000_0000_0000 ==> (
        exceeds(a, b) <==> a != 0 || b != 0x8000_0000_0000_0000),
        a >= 0x8000_0000_0000_0000 && b < 0x8000_0000_0000_0000 ==> !exceeds(a, b),
        !(exceeds(a, b) && exceeds(b, a)),
{
    if a >= 0x8000_0000_0000_0000 {
        assert(a % 0x8000_0000_0000_0000 == a - 0x8000_0000_0000_0000);
    } else {
        assert(a % 0x8000_0000_0000_0000 == a);
    }
}

/// Ten request units, as the pattern of a double: exponent three, and a quarter above eight.
pub proof fn law_ten_request_units()
    ensures
        TEN_REQUEST_UNITS == 0x4024_0000_0000_0000,
        TEN_REQUEST_UNITS == (1023int + 3) * 0x10_0000_0000_0000 + 0x4_0000_0000_0000,
{
}

// ---------------------------------------------------------------------------
// Provenance
// ---------------------------------------------------------------------------

/// Versions have dots between their numbers, the User-Agent names the SDK, its version and the
/// platform, with the suffix behind it where there is one, and the provenance is made of these.
pub proof fn law_provenance(p: PreambleModel)
    ensures
        version_of(p.sdk_ver) == decimal(p.sdk_ver[0] as nat) + "."@ + decimal(
            p.sdk_ver[1] as nat,
        ) + "."@ + decimal(p.sdk_ver[2] as nat),
        version_of(p.driver_ver) == decimal(p.driver_ver[0] as nat) + "."@ + decimal(
            p.driver_ver[1] as nat,
        ) + "."@ + decimal(p.driver_ver[2] as nat),
        p.ua_suffix.len() == 0 ==> p.agent() == "azsdk-rust-"@ + p.sdk_name + "/"@ + version_of(
            p.sdk_ver,
        ) + " ("@ + p.os + "; "@ + p.arch + ")"@,
        p.ua_suffix.len() > 0 ==> p.agent() == "azsdk-rust-"@ + p.sdk_name + "/"@ + version_of(
            p.sdk_ver,
        ) + " ("@ + p.os + "; "@ + p.arch + ")"@ + " "@ + p.ua_suffix,
        client_of(p).sdk_version == p.sdk_name + " "@ + version_of(p.sdk_ver),
        client_of(p).driver_version == version_of(p.driver_ver),
        client_of(p).user_agent == p.agent(),
{
    lemma_version(p.sdk_ver);
    lemma_version(p.driver_ver);
    lemma_three(p.sdk_name, " "@, version_of(p.sdk_ver));
    lemma_three(p.base_agent(), " "@, p.ua_suffix);
    let v = version_of(p.sdk_ver);
    let a = seq!["azsdk-rust-"@, p.sdk_name, "/"@, v];
    let all = seq!["azsdk-rust-"@, p.sdk_name, "/"@, v, " ("@, p.os, "; "@, p.arch, ")"@];
    lemma_pushed(all);
    assert(all.drop_last() =~= seq!["azsdk-rust-"@, p.sdk_name, "/"@, v, " ("@, p.os, "; "@, p.arch]);
    lemma_pushed(all.drop_last());
    let six = seq!["azsdk-rust-"@, p.sdk_name, "/"@, v, " ("@, p.os];
    assert(all.drop_last().drop_last() =~= six.push("; "@));
    lemma_pushed(six.push("; "@));
    assert(six.push("; "@).drop_last() =~= six);
    lemma_pushed(six);
    assert(six.drop_last() =~= a.push(" ("@));
    lemma_pushed(a.push(" ("@));
    assert(a.push(" ("@).drop_last() =~= a);
    lemma_pushed(a);
    assert(a.drop_last() =~= seq!["azsdk-rust-"@, p.sdk_name, "/"@]);
    lemma_three("azsdk-rust-"@, p.sdk_name, "/"@);
}

proof fn lemma_pushed(parts: Seq<Seq<char>>)
    requires
        parts.len() > 0,
    ensures
        concatenation(parts) == concatenation(parts.drop_last()) + parts.last(),
{
}

/// Three pieces stand in a row.
pub proof fn lemma_three(a: Seq<char>, b: Seq<char>, c: Seq<char>)
    ensures
        concatenation(seq![a, b, c]) == a + b + c,
{
    assert(seq![a, b, c].drop_last() =~= seq![a, b]);
    assert(seq![a, b].drop_last() =~= seq![a]);
    assert(seq![a].drop_last() =~= Seq::empty());
    reveal_with_fuel(concatenation, 2);
    assert(concatenation(seq![a]) =~= a);
    assert(concatenation(seq![a, b]) =~= a + b);
}

/// Five pieces stand in a row.
pub proof fn lemma_five(a: Seq<char>, b: Seq<char>, c: Seq<char>, d: Seq<char>, e: Seq<char>)
    ensures
        concatenation(seq![a, b, c, d, e]) == a + b + c + d + e,
{
    lemma_three(a, b, c);
    assert(seq![a, b, c, d, e].drop_last() =~= seq![a, b, c, d]);
    assert(seq![a, b, c, d].drop_last() =~= seq![a, b, c]);
    lemma_pushed(seq![a, b, c, d]);
    lemma_pushed(seq![a, b, c, d, e]);
}

proof fn lemma_version(v: Seq<u16>)
    ensures
        version_of(v) == decimal(v[0] as nat) + "."@ + decimal(v[1] as nat) + "."@ + decimal(
            v[2] as nat,
        ),
{
    lemma_five(
        decimal(v[0] as nat),
        "."@,
        decimal(v[1] as nat),
        "."@,
        decimal(v[2] as nat),
    );
}

/// The names of the headers that carry ids and charges.
pub proof fn law_header_names()
    ensures
        crate::attrs::HEADER_SERVICE_REQUEST_ID@ == "x-ms-request-id"@,
        crate::attrs::HEADER_CLIENT_REQUEST_ID@ == "x-ms-client-request-id"@,
        crate::attrs::HEADER_REQUEST_CHARGE@ == "x-ms-request-charge"@,
{
}

/// Reads that run off the end say so, and so does a text that is announced longer than what is
/// left; a number that stands there is read, and what follows it is not looked at.
pub proof fn law_reads_at_the_end(buf: Seq<u8>, pos: int)
    ensures
        pos >= buf.len() ==> varint_at(buf, pos) == Err::<(nat, int), DecodeError>(
            DecodeError::UnexpectedEnd,
        ),
        0 <= pos < buf.len() && buf[pos] < 128 ==> varint_at(buf, pos) == Ok::<
            (nat, int),
            DecodeError,
        >((buf[pos] as nat, pos + 1)),
        0 <= pos < buf.len() && buf[pos] < 128 && pos + 1 + buf[pos] > buf.len() ==> text_at(
            buf,
            pos,
        ) == Err::<(Seq<char>, int), DecodeError>(DecodeError::UnexpectedEnd),
        buf.len() == 0 ==> tree_of_payload(buf) == Err::<TreeModel, DecodeError>(
            DecodeError::UnexpectedEnd,
        ),
{
}

/// Where a log holds no number or no text, zero and an empty text are read, and nothing is skipped.
pub proof fn law_unreadable_is_nothing(buf: Seq<u8>, pos: int)
    ensures
        varint_at(buf, pos) is Err ==> number_or_zero(buf, pos) == (0u64, pos),
        text_at(buf, pos) is Err ==> text_or_empty(buf, pos).0.len() == 0 && text_or_empty(
            buf,
            pos,
        ).1 == pos,
        varint_at(buf, pos) matches Ok((v, next)) ==> number_or_zero(buf, pos) == (v as u64, next),
        text_at(buf, pos) matches Ok((s, next)) ==> text_or_empty(buf, pos) == (s, next),
        pos + 4 > buf.len() ==> le_at(buf, pos) == 0,
{
}

/// Texts are ordered by the first byte in which their UTF-8 forms differ, and a text comes before
/// what it begins.
pub proof fn law_order_of_texts(a: Seq<char>, b: Seq<char>, i: int)
    ensures
        ({
            let x = encode_utf8(a);
            let y = encode_utf8(b);
            0 <= i <= x.len() && i <= y.len() && (forall|k: int|
                0 <= k < i ==> #[trigger] x[k] == y[k]) ==> {
                &&& i < x.len() && i < y.len() && x[i] < y[i] ==> text_below(a, b) && !text_below(
                    b,
                    a,
                )
                &&& i == x.len() && i < y.len() ==> text_below(a, b) && !text_below(b, a)
            }
        }),
        !text_below(a, a),
{
    let x = encode_utf8(a);
    let y = encode_utf8(b);
    if 0 <= i <= x.len() && i < y.len() && (forall|k: int| 0 <= k < i ==> #[trigger] x[k] == y[k])
        && (i == x.len() || x[i] < y[i]) {
        assert(departs_below(x, y, i));
        assert forall|j: int| !departs_below(y, x, j) by {
            if departs_below(y, x, j) {
                if j < i {
                    assert(x[j] == y[j]);
                } else if i < j {
                    assert(y[i] == x[i]);
                }
            }
        }
    }
    assert forall|j: int| !departs_below(x, x, j) by {}
}

/// What is kept of an arena: nothing of a success unless it was asked for, else a blob that reads
/// back as its tree.
pub proof fn law_what_is_kept_of_an_arena(
    blob: Option<Seq<u8>>,
    arena: crate::combo1::arena::ArenaModel,
    verbose: bool,
)
    ensures
        crate::combo1::is_rendering(blob, arena, verbose) ==> {
            &&& blob is None <==> arena.success && !verbose
            &&& blob matches Some(b) ==> is_encoding(b, arena.wire(), payload(arena.wire()).len()
                > 256)
        },
{
}

} // verus!
