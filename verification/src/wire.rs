//! The span tree that every capture design shares, and its `AZD1` binary form.
//!
//! A blob is the four bytes `AZD1`, a version byte, a flag byte and a payload. The payload is the
//! operation name and the node count, then for each node the parent link, the kind byte, the
//! start, duration and status, and the attributes. Numbers are LEB128 varints, and a string is
//! its length in bytes followed by its UTF-8 bytes. The lowest bit of the flag byte says that the
//! payload is DEFLATE-compressed.

use std::io::{Read, Write};
use vstd::prelude::*;
use vstd::slice::*;
use vstd::string::*;
use vstd::utf8::*;

use crate::text::{decimal, decimal_text, same_text};

verus! {

/// The first four bytes of every blob: `AZD1`.
pub open spec fn magic() -> Seq<u8> {
    seq![0x41u8, 0x5Au8, 0x44u8, 0x31u8]
}

/// The version that this codec writes and reads.
pub const VERSION: u8 = 1;

/// The flag byte of a blob whose payload is compressed.
pub const FLAG_COMPRESSED: u8 = 1;

/// Payloads longer than this many bytes are compressed by [`encode_auto`].
pub const COMPRESS_THRESHOLD: usize = 256;

/// The most bytes that a varint of 64 bits takes.
pub const MAX_VARINT_BYTES: u32 = 10;

/// What a span stands for.
#[derive(Clone, Copy, Debug, PartialEq, Eq, Structural)]
pub enum NodeKind {
    /// The root operation.
    Operation,
    /// One HTTP attempt.
    Attempt,
    /// Transport-level work within an attempt.
    Transport,
    /// A routing / fan-out child.
    Routing,
    /// A query child.
    Query,
}

impl NodeKind {
    /// The byte that stands for this kind on the wire.
    pub open spec fn code(self) -> u8 {
        match self {
            NodeKind::Operation => 0,
            NodeKind::Attempt => 1,
            NodeKind::Transport => 2,
            NodeKind::Routing => 3,
            NodeKind::Query => 4,
        }
    }

    /// The kind that a byte on the wire stands for. A byte that no kind has reads as an operation.
    pub open spec fn of_code(code: u8) -> NodeKind {
        if code == 1 {
            NodeKind::Attempt
        } else if code == 2 {
            NodeKind::Transport
        } else if code == 3 {
            NodeKind::Routing
        } else if code == 4 {
            NodeKind::Query
        } else {
            NodeKind::Operation
        }
    }

    /// The byte that stands for this kind on the wire.
    pub fn as_u8(self) -> (code: u8)
        ensures
            code == self.code(),
    {
        match self {
            NodeKind::Operation => 0,
            NodeKind::Attempt => 1,
            NodeKind::Transport => 2,
            NodeKind::Routing => 3,
            NodeKind::Query => 4,
        }
    }

    /// The kind that a byte on the wire stands for.
    pub fn from_u8(code: u8) -> (kind: NodeKind)
        ensures
            kind == Self::of_code(code),
    {
        if code == 1 {
            NodeKind::Attempt
        } else if code == 2 {
            NodeKind::Transport
        } else if code == 3 {
            NodeKind::Routing
        } else if code == 4 {
            NodeKind::Query
        } else {
            NodeKind::Operation
        }
    }
}

/// A kind reads back from its byte.
pub proof fn law_kinds_read_back(kind: NodeKind)
    ensures
        NodeKind::of_code(kind.code()) == kind,
{
}

/// Attribute key/value pairs as text.
pub type AttrsModel = Seq<(Seq<char>, Seq<char>)>;

/// The attributes that `attrs` holds.
pub open spec fn attrs_view(attrs: Seq<(String, String)>) -> AttrsModel {
    Seq::new(attrs.len(), |i: int| (attrs[i].0@, attrs[i].1@))
}

/// What one [`WireNode`] holds.
#[verifier::ext_equal]
pub struct NodeModel {
    pub parent: Option<u32>,
    pub kind: u8,
    pub start_ns: u64,
    pub duration_ns: u64,
    pub status: u16,
    pub attrs: AttrsModel,
}

/// What one [`WireTree`] holds.
#[verifier::ext_equal]
pub struct TreeModel {
    pub operation: Seq<char>,
    pub nodes: Seq<NodeModel>,
}

/// One span of a [`WireTree`].
#[derive(Clone, Debug)]
pub struct WireNode {
    /// Index of the parent node, or `None` for the root operation.
    pub parent: Option<u32>,
    /// The kind byte; see [`NodeKind`].
    pub kind: u8,
    /// Start tick (ns).
    pub start_ns: u64,
    /// Duration (ns).
    pub duration_ns: u64,
    /// HTTP status code, or `0` when not applicable.
    pub status: u16,
    /// Attribute key/value pairs, in order.
    pub attrs: Vec<(String, String)>,
}

impl View for WireNode {
    type V = NodeModel;

    open spec fn view(&self) -> NodeModel {
        NodeModel {
            parent: self.parent,
            kind: self.kind,
            start_ns: self.start_ns,
            duration_ns: self.duration_ns,
            status: self.status,
            attrs: attrs_view(self.attrs@),
        }
    }
}

/// A span tree as a flat list of nodes that link to their parents by index.
#[derive(Clone, Debug)]
pub struct WireTree {
    /// Operation name.
    pub operation: String,
    /// The nodes; the root operation comes first.
    pub nodes: Vec<WireNode>,
}

/// The nodes that `nodes` holds.
pub open spec fn nodes_view(nodes: Seq<WireNode>) -> Seq<NodeModel> {
    Seq::new(nodes.len(), |i: int| nodes[i]@)
}

impl View for WireTree {
    type V = TreeModel;

    open spec fn view(&self) -> TreeModel {
        TreeModel { operation: self.operation@, nodes: nodes_view(self.nodes@) }
    }
}

/// The value of the first attribute with this key.
pub open spec fn attr_value(attrs: AttrsModel, key: Seq<char>) -> Option<Seq<char>>
    decreases attrs.len(),
{
    if attrs.len() == 0 {
        None
    } else if attrs[0].0 == key {
        Some(attrs[0].1)
    } else {
        attr_value(attrs.drop_first(), key)
    }
}

impl WireNode {
    /// The kind of this span.
    pub fn node_kind(&self) -> (kind: NodeKind)
        ensures
            kind == NodeKind::of_code(self.kind),
    {
        NodeKind::from_u8(self.kind)
    }

    /// The value of the first attribute with this key, if there is one.
    pub fn attr(&self, key: &str) -> (value: Option<&str>)
        ensures
            match value {
                Some(v) => attr_value(self@.attrs, key@) == Some(v@),
                None => attr_value(self@.attrs, key@) is None,
            },
    {
        let mut i: usize = 0;
        proof {
            assert(self@.attrs.skip(0) =~= self@.attrs);
        }
        while i < self.attrs.len()
            invariant
                i <= self.attrs.len(),
                self@.attrs.len() == self.attrs.len(),
                attr_value(self@.attrs, key@) == attr_value(self@.attrs.skip(i as int), key@),
            decreases self.attrs.len() - i,
        {
            let ghost rest = self@.attrs.skip(i as int);
            if same_text(self.attrs[i].0.as_str(), key) {
                return Some(self.attrs[i].1.as_str());
            }
            proof {
                assert(rest.drop_first() =~= self@.attrs.skip(i + 1));
            }
            i = i + 1;
        }
        None
    }
}

/// Why a blob could not be decoded.
#[derive(Clone, Copy, Debug, PartialEq, Eq, Structural)]
pub enum DecodeError {
    /// The blob does not start with the magic bytes.
    BadMagic,
    /// The blob has a version that this codec does not read.
    UnsupportedVersion(u8),
    /// The blob ends in the middle of a field.
    UnexpectedEnd,
    /// A field holds something that it cannot hold.
    Malformed,
}

impl DecodeError {
    /// What [`DecodeError::message`] says.
    pub open spec fn spec_message(self) -> Seq<char> {
        match self {
            DecodeError::BadMagic => "not an AZD1 diagnostics blob"@,
            DecodeError::UnsupportedVersion(v) => "unsupported AZD1 version "@ + decimal(v as nat),
            DecodeError::UnexpectedEnd => "unexpected end of blob"@,
            DecodeError::Malformed => "malformed blob"@,
        }
    }

    /// A sentence for a person who reads the error.
    pub fn message(&self) -> (s: String)
        ensures
            s@ == self.spec_message(),
    {
        match self {
            DecodeError::BadMagic => "not an AZD1 diagnostics blob".to_owned(),
            DecodeError::UnsupportedVersion(v) => {
                let mut s = "unsupported AZD1 version ".to_owned();
                let n = decimal_text(*v as u64);
                s.append(n.as_str());
                s
            },
            DecodeError::UnexpectedEnd => "unexpected end of blob".to_owned(),
            DecodeError::Malformed => "malformed blob".to_owned(),
        }
    }
}

// ---------------------------------------------------------------------------
// The format
// ---------------------------------------------------------------------------

/// `n` as a LEB128 varint: seven bits to a byte, lowest first, the high bit set on all but the
/// last.
pub open spec fn varint_bytes(n: nat) -> Seq<u8>
    decreases n,
{
    if n < 128 {
        seq![n as u8]
    } else {
        seq![(n % 128 + 128) as u8] + varint_bytes(n / 128)
    }
}

/// A string: its length in bytes, then its UTF-8 bytes.
pub open spec fn text_bytes(s: Seq<char>) -> Seq<u8> {
    varint_bytes(encode_utf8(s).len()) + encode_utf8(s)
}

/// The attributes of a node, one after the other.
pub open spec fn attrs_bytes(attrs: AttrsModel) -> Seq<u8>
    decreases attrs.len(),
{
    if attrs.len() == 0 {
        Seq::empty()
    } else {
        attrs_bytes(attrs.drop_last()) + (text_bytes(attrs.last().0) + text_bytes(attrs.last().1))
    }
}

/// The number that stands for a parent link: zero for none, else one more than the index.
pub open spec fn parent_code(parent: Option<u32>) -> nat {
    match parent {
        None => 0,
        Some(p) => p as nat + 1,
    }
}

/// One node.
pub open spec fn node_bytes(n: NodeModel) -> Seq<u8> {
    varint_bytes(parent_code(n.parent)) + (seq![n.kind] + (varint_bytes(n.start_ns as nat) + (
    varint_bytes(n.duration_ns as nat) + (varint_bytes(n.status as nat) + (varint_bytes(
        n.attrs.len(),
    ) + attrs_bytes(n.attrs))))))
}

/// The nodes, one after the other.
pub open spec fn nodes_bytes(nodes: Seq<NodeModel>) -> Seq<u8>
    decreases nodes.len(),
{
    if nodes.len() == 0 {
        Seq::empty()
    } else {
        nodes_bytes(nodes.drop_last()) + node_bytes(nodes.last())
    }
}

/// The payload of a tree.
pub open spec fn payload(t: TreeModel) -> Seq<u8> {
    text_bytes(t.operation) + (varint_bytes(t.nodes.len()) + nodes_bytes(t.nodes))
}

/// What precedes the payload.
pub open spec fn header(compressed: bool) -> Seq<u8> {
    magic().push(VERSION).push(if compressed { FLAG_COMPRESSED } else { 0 })
}

/// The bytes that a raw DEFLATE stream inflates to, or `None` where it is not one.
pub uninterp spec fn inflated(stream: Seq<u8>) -> Option<Seq<u8>>;

/// The room that the compressor has for what it has not handed on yet, at the least.
pub const DEFLATE_ROOM: usize = 32768;

/// The raw DEFLATE stream that the compressor makes of `data` where it never runs out of room.
pub uninterp spec fn deflated(data: Seq<u8>) -> Seq<u8>;

/// The compressor has room for all of the stream at once.
pub open spec fn has_room(stream: Seq<u8>) -> bool {
    stream.len() < DEFLATE_ROOM
}

/// `stream` is `data` compressed: it inflates to `data`, and where there is room for all of it, it
/// is the one stream that the compressor makes of `data`.
pub open spec fn is_compression(stream: Seq<u8>, data: Seq<u8>) -> bool {
    &&& inflated(stream) == Some(data)
    &&& has_room(stream) || has_room(deflated(data)) ==> stream == deflated(data)
}

/// `blob` is an `AZD1` form of `t`.
pub open spec fn is_encoding(blob: Seq<u8>, t: TreeModel, compressed: bool) -> bool {
    &&& blob.len() >= 6
    &&& blob.take(6) == header(compressed)
    &&& if compressed {
        is_compression(blob.skip(6), payload(t))
    } else {
        blob.skip(6) == payload(t)
    }
}

/// The tree and the flag settle the bytes of `blob`: nothing in it is compressed, or the
/// compressor had room for all of it at once.
pub open spec fn is_settled(blob: Seq<u8>, compressed: bool) -> bool {
    compressed ==> has_room(blob.skip(6))
}

// ---------------------------------------------------------------------------
// Reading the format
// ---------------------------------------------------------------------------

/// What stands at a position: a value and the position after it.
pub type ReadResult<T> = Result<(T, int), DecodeError>;

/// The varint at `pos`, of at most `budget` bytes.
pub open spec fn varint_within(buf: Seq<u8>, pos: int, budget: nat) -> ReadResult<nat>
    decreases budget,
{
    if budget == 0 {
        Err(DecodeError::Malformed)
    } else if pos < 0 || pos >= buf.len() {
        Err(DecodeError::UnexpectedEnd)
    } else if buf[pos] < 128 {
        Ok((buf[pos] as nat, pos + 1))
    } else {
        match varint_within(buf, pos + 1, (budget - 1) as nat) {
            Err(e) => Err(e),
            Ok((high, next)) => {
                let v = (buf[pos] - 128) + 128 * high;
                if v > u64::MAX {
                    Err(DecodeError::Malformed)
                } else {
                    Ok((v as nat, next))
                }
            },
        }
    }
}

/// The varint at `pos`.
pub open spec fn varint_at(buf: Seq<u8>, pos: int) -> ReadResult<nat> {
    varint_within(buf, pos, MAX_VARINT_BYTES as nat)
}

/// The string at `pos`.
pub open spec fn text_at(buf: Seq<u8>, pos: int) -> ReadResult<Seq<char>> {
    match varint_at(buf, pos) {
        Err(e) => Err(e),
        Ok((n, start)) => {
            if start + n > buf.len() {
                Err(DecodeError::UnexpectedEnd)
            } else if !valid_utf8(buf.subrange(start, start + n)) {
                Err(DecodeError::Malformed)
            } else {
                Ok((decode_utf8(buf.subrange(start, start + n)), start + n))
            }
        },
    }
}

/// The `count` attributes that start at `pos`.
pub open spec fn attrs_at(buf: Seq<u8>, pos: int, count: nat) -> ReadResult<AttrsModel>
    decreases count,
{
    if count == 0 {
        Ok((Seq::empty(), pos))
    } else {
        match attrs_at(buf, pos, (count - 1) as nat) {
            Err(e) => Err(e),
            Ok((attrs, p1)) => match text_at(buf, p1) {
                Err(e) => Err(e),
                Ok((key, p2)) => match text_at(buf, p2) {
                    Err(e) => Err(e),
                    Ok((value, p3)) => Ok((attrs.push((key, value)), p3)),
                },
            },
        }
    }
}

/// The parent link that a number stands for.
pub open spec fn parent_of_code(code: nat) -> Option<u32> {
    if code == 0 {
        None
    } else {
        Some((code - 1) as u32)
    }
}

/// The byte at `pos`.
pub open spec fn byte_at(buf: Seq<u8>, pos: int) -> ReadResult<u8> {
    if 0 <= pos < buf.len() {
        Ok((buf[pos], pos + 1))
    } else {
        Err(DecodeError::UnexpectedEnd)
    }
}

/// The node at `pos`.
pub open spec fn node_at(buf: Seq<u8>, pos: int) -> ReadResult<NodeModel> {
    match varint_at(buf, pos) {
        Err(e) => Err(e),
        Ok((link, p1)) => if link > u32::MAX as nat + 1 {
            Err(DecodeError::Malformed)
        } else {
            match byte_at(buf, p1) {
                Err(e) => Err(e),
                Ok((kind, p2)) => match varint_at(buf, p2) {
                    Err(e) => Err(e),
                    Ok((start, p3)) => match varint_at(buf, p3) {
                        Err(e) => Err(e),
                        Ok((duration, p4)) => match varint_at(buf, p4) {
                            Err(e) => Err(e),
                            Ok((status, p5)) => if status > u16::MAX {
                                Err(DecodeError::Malformed)
                            } else {
                                match varint_at(buf, p5) {
                                    Err(e) => Err(e),
                                    Ok((count, p6)) => match attrs_at(buf, p6, count) {
                                        Err(e) => Err(e),
                                        Ok((attrs, p7)) => Ok(
                                            (
                                                NodeModel {
                                                    parent: parent_of_code(link),
                                                    kind,
                                                    start_ns: start as u64,
                                                    duration_ns: duration as u64,
                                                    status: status as u16,
                                                    attrs,
                                                },
                                                p7,
                                            ),
                                        ),
                                    },
                                }
                            },
                        },
                    },
                },
            }
        },
    }
}

/// The `count` nodes that start at `pos`.
pub open spec fn nodes_at(buf: Seq<u8>, pos: int, count: nat) -> ReadResult<Seq<NodeModel>>
    decreases count,
{
    if count == 0 {
        Ok((Seq::empty(), pos))
    } else {
        match nodes_at(buf, pos, (count - 1) as nat) {
            Err(e) => Err(e),
            Ok((nodes, p1)) => match node_at(buf, p1) {
                Err(e) => Err(e),
                Ok((node, p2)) => Ok((nodes.push(node), p2)),
            },
        }
    }
}

/// The tree that a payload holds. Bytes after the last node are not read.
pub open spec fn tree_of_payload(buf: Seq<u8>) -> Result<TreeModel, DecodeError> {
    match text_at(buf, 0) {
        Err(e) => Err(e),
        Ok((operation, p1)) => match varint_at(buf, p1) {
            Err(e) => Err(e),
            Ok((count, p2)) => match nodes_at(buf, p2, count) {
                Err(e) => Err(e),
                Ok((nodes, _)) => Ok(TreeModel { operation, nodes }),
            },
        },
    }
}

/// The tree that a blob holds, or why it holds none.
pub open spec fn decoded(blob: Seq<u8>) -> Result<TreeModel, DecodeError> {
    if blob.len() < 4 || blob.take(4) != magic() {
        Err(DecodeError::BadMagic)
    } else if blob.len() < 5 {
        Err(DecodeError::UnexpectedEnd)
    } else if blob[4] != VERSION {
        Err(DecodeError::UnsupportedVersion(blob[4]))
    } else if blob.len() < 6 {
        Err(DecodeError::UnexpectedEnd)
    } else if blob[5] % 2 == 1 {
        match inflated(blob.skip(6)) {
            None => Err(DecodeError::Malformed),
            Some(p) => tree_of_payload(p),
        }
    } else {
        tree_of_payload(blob.skip(6))
    }
}

// ---------------------------------------------------------------------------
// What is written reads back
// ---------------------------------------------------------------------------

/// `bytes` stand in `buf` at `pos`.
pub open spec fn stands_at(buf: Seq<u8>, pos: int, bytes: Seq<u8>) -> bool {
    &&& 0 <= pos
    &&& pos + bytes.len() <= buf.len()
    &&& buf.subrange(pos, pos + bytes.len()) == bytes
}

/// Where two pieces stand one after the other, each stands in its own place.
pub proof fn lemma_stands_split(buf: Seq<u8>, pos: int, a: Seq<u8>, b: Seq<u8>)
    requires
        stands_at(buf, pos, a + b),
    ensures
        stands_at(buf, pos, a),
        stands_at(buf, pos + a.len(), b),
{
    let whole = buf.subrange(pos, pos + (a + b).len());
    assert(buf.subrange(pos, pos + a.len()) =~= whole.take(a.len() as int));
    assert((a + b).take(a.len() as int) =~= a);
    assert(buf.subrange(pos + a.len(), pos + a.len() + b.len()) =~= whole.skip(a.len() as int));
    assert((a + b).skip(a.len() as int) =~= b);
}

/// The least number whose varint takes more than `k` bytes.
spec fn varint_limit(k: nat) -> nat
    decreases k,
{
    if k == 0 {
        1
    } else {
        128 * varint_limit((k - 1) as nat)
    }
}

proof fn lemma_varint_len_within(n: nat, k: nat)
    requires
        k >= 1,
        n < varint_limit(k),
    ensures
        1 <= varint_bytes(n).len() <= k,
    decreases k,
{
    reveal_with_fuel(varint_limit, 2);
    if n >= 128 {
        assert(k >= 2);
        assert(n / 128 < varint_limit((k - 1) as nat));
        lemma_varint_len_within(n / 128, (k - 1) as nat);
    }
}

/// A number of 64 bits takes between one and ten bytes.
pub proof fn lemma_varint_len(n: nat)
    requires
        n <= u64::MAX,
    ensures
        1 <= varint_bytes(n).len() <= MAX_VARINT_BYTES,
{
    assert(varint_limit(10) > u64::MAX) by {
        reveal_with_fuel(varint_limit, 11);
    }
    lemma_varint_len_within(n, 10);
}

proof fn lemma_varint_reads_within(buf: Seq<u8>, pos: int, n: nat, budget: nat)
    requires
        n <= u64::MAX,
        stands_at(buf, pos, varint_bytes(n)),
        varint_bytes(n).len() <= budget,
    ensures
        varint_within(buf, pos, budget) == Ok::<(nat, int), DecodeError>(
            (n, pos + varint_bytes(n).len()),
        ),
    decreases n,
{
    let bytes = varint_bytes(n);
    assert(bytes[0] == buf[pos]) by {
        assert(buf.subrange(pos, pos + bytes.len())[0] == buf[pos]);
    }
    if n >= 128 {
        let low = seq![(n % 128 + 128) as u8];
        lemma_stands_split(buf, pos, low, varint_bytes(n / 128));
        lemma_varint_reads_within(buf, pos + 1, n / 128, (budget - 1) as nat);
    }
}

/// A number that was written reads back.
pub proof fn lemma_varint_reads(buf: Seq<u8>, pos: int, n: nat)
    requires
        n <= u64::MAX,
        stands_at(buf, pos, varint_bytes(n)),
    ensures
        varint_at(buf, pos) == Ok::<(nat, int), DecodeError>((n, pos + varint_bytes(n).len())),
{
    lemma_varint_len(n);
    lemma_varint_reads_within(buf, pos, n, MAX_VARINT_BYTES as nat);
}

/// `s` is short enough for its length to be written.
pub open spec fn text_fits(s: Seq<char>) -> bool {
    encode_utf8(s).len() <= u64::MAX
}

/// A string that was written reads back.
pub proof fn lemma_text_reads(buf: Seq<u8>, pos: int, s: Seq<char>)
    requires
        text_fits(s),
        stands_at(buf, pos, text_bytes(s)),
    ensures
        text_at(buf, pos) == Ok::<(Seq<char>, int), DecodeError>((s, pos + text_bytes(s).len())),
{
    let bytes = encode_utf8(s);
    lemma_stands_split(buf, pos, varint_bytes(bytes.len()), bytes);
    lemma_varint_reads(buf, pos, bytes.len());
    encode_utf8_valid_utf8(s);
    encode_utf8_decode_utf8(s);
}

/// The key and the value of an attribute fit.
pub open spec fn attr_fits(attr: (Seq<char>, Seq<char>)) -> bool {
    text_fits(attr.0) && text_fits(attr.1)
}

/// Every key and value of `attrs` fits, and so does their number.
pub open spec fn attrs_fit(attrs: AttrsModel) -> bool {
    &&& attrs.len() <= u64::MAX
    &&& forall|i: int| 0 <= i < attrs.len() ==> attr_fits(#[trigger] attrs[i])
}

/// Attributes that were written read back.
pub proof fn lemma_attrs_read(buf: Seq<u8>, pos: int, attrs: AttrsModel)
    requires
        attrs_fit(attrs),
        stands_at(buf, pos, attrs_bytes(attrs)),
    ensures
        attrs_at(buf, pos, attrs.len()) == Ok::<(AttrsModel, int), DecodeError>(
            (attrs, pos + attrs_bytes(attrs).len()),
        ),
    decreases attrs.len(),
{
    if attrs.len() == 0 {
        assert(attrs =~= Seq::empty());
    } else {
        let init = attrs.drop_last();
        let key = text_bytes(attrs.last().0);
        let value = text_bytes(attrs.last().1);
        lemma_stands_split(buf, pos, attrs_bytes(init), key + value);
        assert forall|i: int| 0 <= i < init.len() implies attr_fits(#[trigger] init[i]) by {
            assert(init[i] == attrs[i]);
        }
        assert(attr_fits(attrs[attrs.len() - 1]));
        lemma_attrs_read(buf, pos, init);
        let p1 = pos + attrs_bytes(init).len();
        lemma_stands_split(buf, p1, key, value);
        lemma_text_reads(buf, p1, attrs.last().0);
        lemma_text_reads(buf, p1 + key.len(), attrs.last().1);
        assert(init.push(attrs.last()) =~= attrs);
    }
}

/// A node that was written reads back.
pub proof fn lemma_node_reads(buf: Seq<u8>, pos: int, n: NodeModel)
    requires
        attrs_fit(n.attrs),
        stands_at(buf, pos, node_bytes(n)),
    ensures
        node_at(buf, pos) == Ok::<(NodeModel, int), DecodeError>((n, pos + node_bytes(n).len())),
{
    let link = varint_bytes(parent_code(n.parent));
    let kind = seq![n.kind];
    let start = varint_bytes(n.start_ns as nat);
    let duration = varint_bytes(n.duration_ns as nat);
    let status = varint_bytes(n.status as nat);
    let count = varint_bytes(n.attrs.len());
    let attrs = attrs_bytes(n.attrs);
    lemma_stands_split(buf, pos, link, kind + (start + (duration + (status + (count + attrs)))));
    let p1 = pos + link.len();
    lemma_stands_split(buf, p1, kind, start + (duration + (status + (count + attrs))));
    let p2 = p1 + 1;
    lemma_stands_split(buf, p2, start, duration + (status + (count + attrs)));
    let p3 = p2 + start.len();
    lemma_stands_split(buf, p3, duration, status + (count + attrs));
    let p4 = p3 + duration.len();
    lemma_stands_split(buf, p4, status, count + attrs);
    let p5 = p4 + status.len();
    lemma_stands_split(buf, p5, count, attrs);
    let p6 = p5 + count.len();
    lemma_varint_reads(buf, pos, parent_code(n.parent));
    assert(buf.subrange(p1, p1 + 1)[0] == buf[p1]);
    lemma_varint_reads(buf, p2, n.start_ns as nat);
    lemma_varint_reads(buf, p3, n.duration_ns as nat);
    lemma_varint_reads(buf, p4, n.status as nat);
    lemma_varint_reads(buf, p5, n.attrs.len());
    lemma_attrs_read(buf, p6, n.attrs);
}

/// The attributes of every node fit, and so does the number of nodes.
pub open spec fn nodes_fit(nodes: Seq<NodeModel>) -> bool {
    &&& nodes.len() <= u64::MAX
    &&& forall|i: int| 0 <= i < nodes.len() ==> attrs_fit((#[trigger] nodes[i]).attrs)
}

/// Nodes that were written read back.
pub proof fn lemma_nodes_read(buf: Seq<u8>, pos: int, nodes: Seq<NodeModel>)
    requires
        nodes_fit(nodes),
        stands_at(buf, pos, nodes_bytes(nodes)),
    ensures
        nodes_at(buf, pos, nodes.len()) == Ok::<(Seq<NodeModel>, int), DecodeError>(
            (nodes, pos + nodes_bytes(nodes).len()),
        ),
    decreases nodes.len(),
{
    if nodes.len() == 0 {
        assert(nodes =~= Seq::empty());
    } else {
        let init = nodes.drop_last();
        lemma_stands_split(buf, pos, nodes_bytes(init), node_bytes(nodes.last()));
        assert forall|i: int| 0 <= i < init.len() implies attrs_fit(
            (#[trigger] init[i]).attrs,
        ) by {
            assert(init[i] == nodes[i]);
        }
        assert(attrs_fit(nodes[nodes.len() - 1].attrs));
        lemma_nodes_read(buf, pos, init);
        lemma_node_reads(buf, pos + nodes_bytes(init).len(), nodes.last());
        assert(init.push(nodes.last()) =~= nodes);
    }
}

/// Every length in `t` can be written.
pub open spec fn tree_fits(t: TreeModel) -> bool {
    &&& text_fits(t.operation)
    &&& nodes_fit(t.nodes)
}

/// A payload reads back as the tree that it was made of.
pub proof fn lemma_payload_reads(t: TreeModel)
    requires
        tree_fits(t),
    ensures
        tree_of_payload(payload(t)) == Ok::<TreeModel, DecodeError>(t),
{
    let p = payload(t);
    let op = text_bytes(t.operation);
    let count = varint_bytes(t.nodes.len());
    let nodes = nodes_bytes(t.nodes);
    assert(stands_at(p, 0, p)) by {
        assert(p.subrange(0, p.len() as int) =~= p);
    }
    lemma_stands_split(p, 0, op, count + nodes);
    lemma_stands_split(p, op.len() as int, count, nodes);
    lemma_text_reads(p, 0, t.operation);
    lemma_varint_reads(p, op.len() as int, t.nodes.len());
    lemma_nodes_read(p, (op.len() + count.len()) as int, t.nodes);
}

/// A blob that encodes a tree decodes to that tree, compressed or not.
pub proof fn law_decode_undoes_encode(blob: Seq<u8>, t: TreeModel, compressed: bool)
    requires
        tree_fits(t),
        is_encoding(blob, t, compressed),
    ensures
        decoded(blob) == Ok::<TreeModel, DecodeError>(t),
{
    let h = header(compressed);
    assert(blob.take(4) == magic() && blob[4] == VERSION && blob[5] == (if compressed {
        FLAG_COMPRESSED
    } else {
        0
    })) by {
        assert(h.take(4) =~= magic());
        assert(blob.take(4) =~= blob.take(6).take(4));
        assert(blob[4] == blob.take(6)[4]);
        assert(blob[5] == blob.take(6)[5]);
    }
    let p = payload(t);
    assert(decoded(blob) == tree_of_payload(p));
    lemma_payload_reads(t);
}

/// Encoding a tree twice gives the same bytes, as long as the tree and the flag settle them.
pub proof fn law_one_encoding(a: Seq<u8>, b: Seq<u8>, t: TreeModel, compressed: bool)
    requires
        is_encoding(a, t, compressed),
        is_encoding(b, t, compressed),
        is_settled(a, compressed),
    ensures
        a == b,
{
    assert(a.skip(6) == b.skip(6));
    assert(a =~= a.take(6) + a.skip(6));
    assert(b =~= b.take(6) + b.skip(6));
}

/// Every blob begins with the magic bytes.
pub proof fn law_blobs_begin_with_the_magic(blob: Seq<u8>, t: TreeModel, compressed: bool)
    requires
        is_encoding(blob, t, compressed),
    ensures
        blob.take(4) == magic(),
{
    assert(header(compressed).take(4) =~= magic());
    assert(blob.take(4) =~= blob.take(6).take(4));
}

// ---------------------------------------------------------------------------
// Writing
// ---------------------------------------------------------------------------

/// Appends a varint.
pub fn write_varint(out: &mut Vec<u8>, n: u64)
    ensures
        final(out)@ == old(out)@ + varint_bytes(n as nat),
{
    let mut v: u64 = n;
    let ghost start = out@;
    proof {
        assert(start =~= out@);
    }
    while v >= 128
        invariant
            start + varint_bytes(n as nat) == out@ + varint_bytes(v as nat),
        decreases v,
    {
        let ghost before = out@;
        let low: u8 = (v % 128 + 128) as u8;
        out.push(low);
        proof {
            assert(before + varint_bytes(v as nat) =~= before.push(low) + varint_bytes(
                (v / 128) as nat,
            ));
        }
        v = v / 128;
    }
    let ghost before = out@;
    out.push(v as u8);
    proof {
        assert(before.push(v as u8) =~= before + varint_bytes(v as nat));
    }
}

/// Appends a string.
pub fn write_str(out: &mut Vec<u8>, s: &str)
    ensures
        final(out)@ == old(out)@ + text_bytes(s@),
        text_fits(s@),
{
    let bytes = s.as_bytes();
    let ghost before = out@;
    write_varint(out, bytes.len() as u64);
    push_bytes(out, bytes);
    proof {
        assert(out@ =~= before + text_bytes(s@));
    }
}

/// Appends bytes.
fn push_bytes(out: &mut Vec<u8>, bytes: &[u8])
    ensures
        final(out)@ == old(out)@ + bytes@,
{
    let ghost before = out@;
    let mut i: usize = 0;
    while i < bytes.len()
        invariant
            i <= bytes.len(),
            out@ == before + bytes@.take(i as int),
        decreases bytes.len() - i,
    {
        out.push(bytes[i]);
        proof {
            assert(out@ =~= before + bytes@.take(i + 1));
        }
        i = i + 1;
    }
    proof {
        assert(bytes@.take(i as int) =~= bytes@);
    }
}

/// Appends attributes.
fn write_attrs(out: &mut Vec<u8>, attrs: &Vec<(String, String)>)
    ensures
        final(out)@ == old(out)@ + attrs_bytes(attrs_view(attrs@)),
        attrs_fit(attrs_view(attrs@)),
{
    let ghost head = out@;
    let ghost model = attrs_view(attrs@);
    let mut i: usize = 0;
    proof {
        assert(out@ =~= head + attrs_bytes(model.take(0)));
    }
    while i < attrs.len()
        invariant
            i <= attrs.len(),
            model == attrs_view(attrs@),
            out@ == head + attrs_bytes(model.take(i as int)),
            forall|k: int| 0 <= k < i ==> attr_fits(#[trigger] model[k]),
        decreases attrs.len() - i,
    {
        write_str(out, attrs[i].0.as_str());
        write_str(out, attrs[i].1.as_str());
        proof {
            assert(model[i as int] == (attrs[i as int].0@, attrs[i as int].1@));
            assert(attr_fits(model[i as int]));
            assert(model.take(i + 1).drop_last() =~= model.take(i as int));
            assert(out@ =~= head + attrs_bytes(model.take(i + 1)));
        }
        i = i + 1;
    }
    proof {
        assert(model.take(i as int) =~= model);
        assert(model.len() == attrs.len());
        assert(attrs_fit(model));
    }
}

/// Appends one node.
fn write_node(out: &mut Vec<u8>, node: &WireNode)
    ensures
        final(out)@ == old(out)@ + node_bytes(node@),
        attrs_fit(node@.attrs),
{
    let ghost before = out@;
    let link: u64 = match node.parent {
        None => 0,
        Some(p) => p as u64 + 1,
    };
    write_varint(out, link);
    out.push(node.kind);
    write_varint(out, node.start_ns);
    write_varint(out, node.duration_ns);
    write_varint(out, node.status as u64);
    write_varint(out, node.attrs.len() as u64);
    write_attrs(out, &node.attrs);
    proof {
        assert(out@ =~= before + node_bytes(node@));
    }
}

/// Compresses `data` into a raw DEFLATE stream, with `flate2::write::DeflateEncoder` at the
/// default level. What is claimed of it: the stream inflates to `data`, and where it is shorter
/// than the buffer that the encoder compresses into ([`DEFLATE_ROOM`] bytes at the least), it is a
/// function of `data`. A longer stream fills that buffer on the way. Where it fills depends on the
/// capacity that the allocator gave it, and the matches that the encoder finds after that can
/// depend on where it was: which stream it is then is left open.
#[verifier::external_body]
fn deflate(data: &[u8]) -> (stream: Vec<u8>)
    ensures
        inflated(stream@) == Some(data@),
        has_room(stream@) || has_room(deflated(data@)) ==> stream@ == deflated(data@),
{
    let level = flate2::Compression::default();
    let mut encoder = flate2::write::DeflateEncoder::new(Vec::new(), level);
    encoder.write_all(data).expect("writing to a Vec does not fail");
    encoder.finish().expect("writing to a Vec does not fail")
}

/// Inflates a raw DEFLATE stream, with `flate2::read::DeflateDecoder` read to its end. What is
/// claimed of it: the result is a function of the stream, `None` where the decoder reports an
/// error.
#[verifier::external_body]
fn inflate(stream: &[u8]) -> (data: Option<Vec<u8>>)
    ensures
        match data {
            Some(d) => inflated(stream@) == Some(d@),
            None => inflated(stream@) is None,
        },
{
    let mut out = Vec::new();
    match flate2::read::DeflateDecoder::new(stream).read_to_end(&mut out) {
        Ok(_) => Some(out),
        Err(_) => None,
    }
}

/// Makes a string of UTF-8 bytes, with `String::from_utf8`. What is claimed of it: it succeeds
/// exactly on valid UTF-8, and the string's characters are the ones that the bytes encode.
#[verifier::external_body]
fn utf8_text(bytes: Vec<u8>) -> (s: Option<String>)
    ensures
        match s {
            Some(t) => valid_utf8(bytes@) && t@ == decode_utf8(bytes@),
            None => !valid_utf8(bytes@),
        },
{
    String::from_utf8(bytes).ok()
}

/// The payload of `tree`.
fn payload_of(tree: &WireTree) -> (out: Vec<u8>)
    ensures
        out@ == payload(tree@),
        tree_fits(tree@),
{
    let mut out: Vec<u8> = Vec::new();
    write_str(&mut out, tree.operation.as_str());
    write_varint(&mut out, tree.nodes.len() as u64);
    let ghost head = out@;
    let mut i: usize = 0;
    let ghost nodes = tree@.nodes;
    while i < tree.nodes.len()
        invariant
            i <= tree.nodes.len(),
            nodes == tree@.nodes,
            nodes.len() == tree.nodes.len(),
            out@ == head + nodes_bytes(nodes.take(i as int)),
            forall|k: int| 0 <= k < i ==> attrs_fit((#[trigger] nodes[k]).attrs),
        decreases tree.nodes.len() - i,
    {
        write_node(&mut out, &tree.nodes[i]);
        proof {
            assert(nodes[i as int] == tree.nodes[i as int]@);
            assert(nodes.take(i + 1).drop_last() =~= nodes.take(i as int));
            assert(out@ =~= head + nodes_bytes(nodes.take(i + 1)));
        }
        i = i + 1;
    }
    proof {
        assert(nodes.take(i as int) =~= nodes);
        assert(out@ =~= payload(tree@));
    }
    out
}

/// Puts the header in front of a payload.
fn framed(payload: &Vec<u8>, compress: bool) -> (blob: Vec<u8>)
    ensures
        blob@.len() >= 6,
        blob@.take(6) == header(compress),
        if compress {
            is_compression(blob@.skip(6), payload@)
        } else {
            blob@.skip(6) == payload@
        },
{
    let mut blob: Vec<u8> = Vec::new();
    blob.push(0x41);
    blob.push(0x5A);
    blob.push(0x44);
    blob.push(0x31);
    blob.push(VERSION);
    if compress {
        blob.push(FLAG_COMPRESSED);
    } else {
        blob.push(0);
    }
    let ghost head = blob@;
    proof {
        assert(head =~= header(compress));
    }
    if compress {
        let stream = deflate(payload.as_slice());
        push_bytes(&mut blob, stream.as_slice());
        proof {
            assert(blob@.skip(6) =~= stream@);
        }
    } else {
        push_bytes(&mut blob, payload.as_slice());
        proof {
            assert(blob@.skip(6) =~= payload@);
        }
    }
    proof {
        assert(blob@.take(6) =~= head);
    }
    blob
}

/// Encodes `tree`, compressing the payload where `compress` asks for it.
pub fn encode(tree: &WireTree, compress: bool) -> (blob: Vec<u8>)
    ensures
        is_encoding(blob@, tree@, compress),
        decoded(blob@) == Ok::<TreeModel, DecodeError>(tree@),
{
    let body = payload_of(tree);
    let blob = framed(&body, compress);
    proof {
        law_decode_undoes_encode(blob@, tree@, compress);
    }
    blob
}

/// Whether [`encode_auto`] compresses a tree.
pub open spec fn auto_compresses(t: TreeModel) -> bool {
    payload(t).len() > COMPRESS_THRESHOLD
}

/// Encodes `tree`, compressing the payload where it is longer than [`COMPRESS_THRESHOLD`].
pub fn encode_auto(tree: &WireTree) -> (blob: Vec<u8>)
    ensures
        is_encoding(blob@, tree@, auto_compresses(tree@)),
        decoded(blob@) == Ok::<TreeModel, DecodeError>(tree@),
{
    let body = payload_of(tree);
    let compress = body.len() > COMPRESS_THRESHOLD;
    let blob = framed(&body, compress);
    proof {
        law_decode_undoes_encode(blob@, tree@, compress);
    }
    blob
}

// ---------------------------------------------------------------------------
// Reading
// ---------------------------------------------------------------------------

fn varint_bounded(buf: &[u8], pos: usize, budget: u32) -> (r: Result<(u64, usize), DecodeError>)
    ensures
        match r {
            Ok((v, next)) => varint_within(buf@, pos as int, budget as nat) == Ok::<
                (nat, int),
                DecodeError,
            >((v as nat, next as int)) && pos < next <= buf@.len(),
            Err(e) => varint_within(buf@, pos as int, budget as nat) == Err::<
                (nat, int),
                DecodeError,
            >(e),
        },
    decreases budget,
{
    if budget == 0 {
        return Err(DecodeError::Malformed);
    }
    if pos >= buf.len() {
        return Err(DecodeError::UnexpectedEnd);
    }
    let b: u8 = buf[pos];
    if b < 128 {
        return Ok((b as u64, pos + 1));
    }
    match varint_bounded(buf, pos + 1, budget - 1) {
        Err(e) => Err(e),
        Ok((high, next)) => {
            let low: u64 = (b - 128) as u64;
            if high > (u64::MAX - low) / 128 {
                Err(DecodeError::Malformed)
            } else {
                Ok((low + 128 * high, next))
            }
        },
    }
}

/// Reads the varint at `pos` and moves `pos` behind it. A read that fails leaves `pos` alone.
pub fn read_varint(buf: &[u8], pos: &mut usize) -> (r: Result<u64, DecodeError>)
    ensures
        match r {
            Ok(v) => varint_at(buf@, *old(pos) as int) == Ok::<(nat, int), DecodeError>(
                (v as nat, *final(pos) as int),
            ) && *old(pos) < *final(pos) <= buf@.len(),
            Err(e) => varint_at(buf@, *old(pos) as int) == Err::<(nat, int), DecodeError>(e)
                && *final(pos) == *old(pos),
        },
{
    match varint_bounded(buf, *pos, MAX_VARINT_BYTES) {
        Err(e) => Err(e),
        Ok((v, next)) => {
            *pos = next;
            Ok(v)
        },
    }
}

/// Reads the string at `pos` and moves `pos` behind it. A read that fails leaves `pos` alone.
pub fn read_str(buf: &[u8], pos: &mut usize) -> (r: Result<String, DecodeError>)
    ensures
        match r {
            Ok(s) => text_at(buf@, *old(pos) as int) == Ok::<(Seq<char>, int), DecodeError>(
                (s@, *final(pos) as int),
            ) && *old(pos) < *final(pos) <= buf@.len(),
            Err(e) => text_at(buf@, *old(pos) as int) == Err::<(Seq<char>, int), DecodeError>(e)
                && *final(pos) == *old(pos),
        },
{
    match varint_bounded(buf, *pos, MAX_VARINT_BYTES) {
        Err(e) => Err(e),
        Ok((n, start)) => {
            let left: usize = buf.len() - start;
            if n > left as u64 {
                return Err(DecodeError::UnexpectedEnd);
            }
            let end: usize = start + n as usize;
            let bytes = slice_to_vec(slice_subrange(buf, start, end));
            match utf8_text(bytes) {
                None => Err(DecodeError::Malformed),
                Some(s) => {
                    *pos = end;
                    Ok(s)
                },
            }
        },
    }
}

/// A prefix of the attributes that cannot be read cannot be read on.
proof fn lemma_attrs_stay_unread(buf: Seq<u8>, pos: int, part: nat, count: nat, e: DecodeError)
    requires
        part <= count,
        attrs_at(buf, pos, part) == Err::<(AttrsModel, int), DecodeError>(e),
    ensures
        attrs_at(buf, pos, count) == Err::<(AttrsModel, int), DecodeError>(e),
    decreases count,
{
    if part < count {
        lemma_attrs_stay_unread(buf, pos, part, (count - 1) as nat, e);
    }
}

/// A prefix of the nodes that cannot be read cannot be read on.
proof fn lemma_nodes_stay_unread(buf: Seq<u8>, pos: int, part: nat, count: nat, e: DecodeError)
    requires
        part <= count,
        nodes_at(buf, pos, part) == Err::<(Seq<NodeModel>, int), DecodeError>(e),
    ensures
        nodes_at(buf, pos, count) == Err::<(Seq<NodeModel>, int), DecodeError>(e),
    decreases count,
{
    if part < count {
        lemma_nodes_stay_unread(buf, pos, part, (count - 1) as nat, e);
    }
}

/// Reads `count` attributes.
fn read_attrs(buf: &[u8], pos: &mut usize, count: u64) -> (r: Result<
    Vec<(String, String)>,
    DecodeError,
>)
    ensures
        match r {
            Ok(attrs) => attrs_at(buf@, *old(pos) as int, count as nat) == Ok::<
                (AttrsModel, int),
                DecodeError,
            >((attrs_view(attrs@), *final(pos) as int)),
            Err(e) => attrs_at(buf@, *old(pos) as int, count as nat) == Err::<
                (AttrsModel, int),
                DecodeError,
            >(e),
        },
{
    let ghost start = *pos as int;
    let mut attrs: Vec<(String, String)> = Vec::new();
    let mut i: u64 = 0;
    proof {
        assert(attrs_view(attrs@) =~= Seq::empty());
    }
    while i < count
        invariant
            i <= count,
            start == *old(pos) as int,
            attrs_at(buf@, start, i as nat) == Ok::<(AttrsModel, int), DecodeError>(
                (attrs_view(attrs@), *pos as int),
            ),
        decreases count - i,
    {
        let ghost before = attrs_view(attrs@);
        match read_str(buf, pos) {
            Err(e) => {
                proof {
                    lemma_attrs_stay_unread(buf@, start, (i + 1) as nat, count as nat, e);
                }
                return Err(e);
            },
            Ok(key) => {
                match read_str(buf, pos) {
                    Err(e) => {
                        proof {
                            lemma_attrs_stay_unread(buf@, start, (i + 1) as nat, count as nat, e);
                        }
                        return Err(e);
                    },
                    Ok(value) => {
                        let ghost pair = (key@, value@);
                        attrs.push((key, value));
                        proof {
                            assert(attrs_view(attrs@) =~= before.push(pair));
                        }
                    },
                }
            },
        }
        i = i + 1;
    }
    Ok(attrs)
}

/// Reads one node.
fn read_node(buf: &[u8], pos: &mut usize) -> (r: Result<WireNode, DecodeError>)
    ensures
        match r {
            Ok(node) => node_at(buf@, *old(pos) as int) == Ok::<(NodeModel, int), DecodeError>(
                (node@, *final(pos) as int),
            ),
            Err(e) => node_at(buf@, *old(pos) as int) == Err::<(NodeModel, int), DecodeError>(e),
        },
{
    let link: u64 = match read_varint(buf, pos) {
        Err(e) => return Err(e),
        Ok(v) => v,
    };
    if link > u32::MAX as u64 + 1 {
        return Err(DecodeError::Malformed);
    }
    let parent: Option<u32> = if link == 0 {
        None
    } else {
        Some((link - 1) as u32)
    };
    if *pos >= buf.len() {
        return Err(DecodeError::UnexpectedEnd);
    }
    let kind: u8 = buf[*pos];
    *pos = *pos + 1;
    let start_ns: u64 = match read_varint(buf, pos) {
        Err(e) => return Err(e),
        Ok(v) => v,
    };
    let duration_ns: u64 = match read_varint(buf, pos) {
        Err(e) => return Err(e),
        Ok(v) => v,
    };
    let status: u64 = match read_varint(buf, pos) {
        Err(e) => return Err(e),
        Ok(v) => v,
    };
    if status > u16::MAX as u64 {
        return Err(DecodeError::Malformed);
    }
    let count: u64 = match read_varint(buf, pos) {
        Err(e) => return Err(e),
        Ok(v) => v,
    };
    match read_attrs(buf, pos, count) {
        Err(e) => Err(e),
        Ok(attrs) => Ok(
            WireNode { parent, kind, start_ns, duration_ns, status: status as u16, attrs },
        ),
    }
}

/// Reads a payload.
fn read_tree(buf: &[u8]) -> (r: Result<WireTree, DecodeError>)
    ensures
        match r {
            Ok(tree) => tree_of_payload(buf@) == Ok::<TreeModel, DecodeError>(tree@),
            Err(e) => tree_of_payload(buf@) == Err::<TreeModel, DecodeError>(e),
        },
{
    let mut pos: usize = 0;
    let operation = match read_str(buf, &mut pos) {
        Err(e) => return Err(e),
        Ok(s) => s,
    };
    let count: u64 = match read_varint(buf, &mut pos) {
        Err(e) => return Err(e),
        Ok(v) => v,
    };
    let ghost start = pos as int;
    let mut nodes: Vec<WireNode> = Vec::new();
    let mut i: u64 = 0;
    proof {
        assert(nodes_view(nodes@) =~= Seq::empty());
    }
    while i < count
        invariant
            i <= count,
            nodes_at(buf@, start, i as nat) == Ok::<(Seq<NodeModel>, int), DecodeError>(
                (nodes_view(nodes@), pos as int),
            ),
            tree_of_payload(buf@) == (match nodes_at(buf@, start, count as nat) {
                Err(e) => Err::<TreeModel, DecodeError>(e),
                Ok((n, _)) => Ok(TreeModel { operation: operation@, nodes: n }),
            }),
        decreases count - i,
    {
        let ghost before = nodes_view(nodes@);
        match read_node(buf, &mut pos) {
            Err(e) => {
                proof {
                    lemma_nodes_stay_unread(buf@, start, (i + 1) as nat, count as nat, e);
                }
                return Err(e);
            },
            Ok(node) => {
                let ghost view = node@;
                nodes.push(node);
                proof {
                    assert(nodes_view(nodes@) =~= before.push(view));
                }
            },
        }
        i = i + 1;
    }
    Ok(WireTree { operation, nodes })
}

/// Decodes a blob.
pub fn decode(blob: &[u8]) -> (r: Result<WireTree, DecodeError>)
    ensures
        match r {
            Ok(tree) => decoded(blob@) == Ok::<TreeModel, DecodeError>(tree@),
            Err(e) => decoded(blob@) == Err::<TreeModel, DecodeError>(e),
        },
{
    if blob.len() < 4 {
        return Err(DecodeError::BadMagic);
    }
    proof {
        assert(blob@.take(4)[0] == blob@[0] && blob@.take(4)[1] == blob@[1] && blob@.take(4)[2]
            == blob@[2] && blob@.take(4)[3] == blob@[3]);
    }
    if blob[0] != 0x41 || blob[1] != 0x5A || blob[2] != 0x44 || blob[3] != 0x31 {
        return Err(DecodeError::BadMagic);
    }
    proof {
        assert(blob@.take(4) =~= magic());
    }
    if blob.len() < 5 {
        return Err(DecodeError::UnexpectedEnd);
    }
    if blob[4] != VERSION {
        return Err(DecodeError::UnsupportedVersion(blob[4]));
    }
    if blob.len() < 6 {
        return Err(DecodeError::UnexpectedEnd);
    }
    let body = slice_subrange(blob, 6, blob.len());
    proof {
        assert(body@ =~= blob@.skip(6));
    }
    if blob[5] % 2 == 1 {
        match inflate(body) {
            None => Err(DecodeError::Malformed),
            Some(p) => read_tree(p.as_slice()),
        }
    } else {
        read_tree(body)
    }
}

} // verus!
