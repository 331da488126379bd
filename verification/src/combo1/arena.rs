//! The arena: a span tree stored as a flat list of nodes with index-linked parents.
//!
//! Adding a span is one push, and a span is passed on by its index. On success the whole arena can
//! be dropped without serializing; on error it is projected into a [`WireTree`].

use vstd::prelude::*;
use vstd::string::*;

use crate::wire::{attrs_view, AttrsModel, NodeKind, NodeModel, TreeModel, WireNode, WireTree};

verus! {

/// A single span in the arena.
#[derive(Clone, Debug)]
pub struct Node {
    /// Parent node index, or `None` for the root operation.
    pub parent: Option<u32>,
    /// The kind of span.
    pub kind: NodeKind,
    /// Start tick (ns).
    pub start_ns: u64,
    /// Duration (ns).
    pub duration_ns: u64,
    /// HTTP status code, or `0` when not applicable.
    pub status: u16,
    /// Attribute key/value pairs.
    pub attrs: Vec<(String, String)>,
}

/// What a [`Node`] holds.
#[verifier::ext_equal]
pub struct SpanModel {
    pub parent: Option<u32>,
    pub kind: NodeKind,
    pub start_ns: u64,
    pub duration_ns: u64,
    pub status: u16,
    pub attrs: AttrsModel,
}

impl SpanModel {
    /// A span with no status and no attributes.
    pub open spec fn new(
        parent: Option<u32>,
        kind: NodeKind,
        start_ns: u64,
        duration_ns: u64,
    ) -> SpanModel {
        SpanModel { parent, kind, start_ns, duration_ns, status: 0, attrs: Seq::empty() }
    }

    /// This span as a node of a [`WireTree`].
    pub open spec fn wire(self) -> NodeModel {
        NodeModel {
            parent: self.parent,
            kind: self.kind.code(),
            start_ns: self.start_ns,
            duration_ns: self.duration_ns,
            status: self.status,
            attrs: self.attrs,
        }
    }
}

impl View for Node {
    type V = SpanModel;

    open spec fn view(&self) -> SpanModel {
        SpanModel {
            parent: self.parent,
            kind: self.kind,
            start_ns: self.start_ns,
            duration_ns: self.duration_ns,
            status: self.status,
            attrs: attrs_view(self.attrs@),
        }
    }
}

impl Node {
    fn new(parent: Option<u32>, kind: NodeKind, start_ns: u64, duration_ns: u64) -> (node: Self)
        ensures
            node@ == SpanModel::new(parent, kind, start_ns, duration_ns),
    {
        let node = Node {
            parent,
            kind,
            start_ns,
            duration_ns,
            status: 0,
            attrs: Vec::new(),
        };
        proof {
            assert(attrs_view(node.attrs@) =~= Seq::empty());
        }
        node
    }
}

/// The arena tree for one operation.
#[derive(Clone, Debug)]
pub struct Arena {
    /// Operation name.
    pub operation: String,
    /// All nodes; the root operation is index `0`.
    pub nodes: Vec<Node>,
    /// Whether the operation ultimately succeeded.
    pub success: bool,
}

/// What an [`Arena`] holds.
#[verifier::ext_equal]
pub struct ArenaModel {
    pub operation: Seq<char>,
    pub nodes: Seq<SpanModel>,
    pub success: bool,
}

/// What a list of arena nodes holds.
pub open spec fn spans_view(nodes: Seq<Node>) -> Seq<SpanModel> {
    Seq::new(nodes.len(), |i: int| nodes[i]@)
}

impl View for Arena {
    type V = ArenaModel;

    open spec fn view(&self) -> ArenaModel {
        ArenaModel {
            operation: self.operation@,
            nodes: spans_view(self.nodes@),
            success: self.success,
        }
    }
}

impl ArenaModel {
    /// The empty arena.
    pub open spec fn empty() -> ArenaModel {
        ArenaModel { operation: Seq::empty(), nodes: Seq::empty(), success: false }
    }

    /// With one more node at the end.
    pub open spec fn pushed(self, span: SpanModel) -> ArenaModel {
        ArenaModel { nodes: self.nodes.push(span), ..self }
    }

    /// With node `id` replaced; unchanged where there is no such node.
    pub open spec fn replaced(self, id: u32, span: SpanModel) -> ArenaModel {
        if id < self.nodes.len() {
            ArenaModel { nodes: self.nodes.update(id as int, span), ..self }
        } else {
            self
        }
    }

    /// With an attribute added to node `id`; unchanged where there is no such node.
    pub open spec fn with_attr(self, id: u32, key: Seq<char>, value: Seq<char>) -> ArenaModel {
        let span = self.nodes[id as int];
        self.replaced(id, SpanModel { attrs: span.attrs.push((key, value)), ..span })
    }

    /// With the status of node `id` set; unchanged where there is no such node.
    pub open spec fn with_status(self, id: u32, status: u16) -> ArenaModel {
        self.replaced(id, SpanModel { status, ..self.nodes[id as int] })
    }

    /// With the duration of node `id` set; unchanged where there is no such node.
    pub open spec fn with_duration(self, id: u32, duration_ns: u64) -> ArenaModel {
        self.replaced(id, SpanModel { duration_ns, ..self.nodes[id as int] })
    }

    /// The arena as a [`WireTree`].
    pub open spec fn wire(self) -> TreeModel {
        TreeModel {
            operation: self.operation,
            nodes: self.nodes.map_values(|s: SpanModel| s.wire()),
        }
    }
}

/// Copies attributes.
pub fn copy_attrs(attrs: &Vec<(String, String)>) -> (copy: Vec<(String, String)>)
    ensures
        attrs_view(copy@) == attrs_view(attrs@),
{
    let mut copy: Vec<(String, String)> = Vec::new();
    let mut i: usize = 0;
    while i < attrs.len()
        invariant
            i <= attrs.len(),
            copy@.len() == i,
            forall|k: int|
                0 <= k < i ==> (#[trigger] copy@[k]).0@ == attrs@[k].0@ && copy@[k].1@
                    == attrs@[k].1@,
        decreases attrs.len() - i,
    {
        copy.push((attrs[i].0.clone(), attrs[i].1.clone()));
        i = i + 1;
    }
    proof {
        assert(attrs_view(copy@) =~= attrs_view(attrs@));
    }
    copy
}

impl Default for Arena {
    fn default() -> (arena: Self)
        ensures
            arena@ == ArenaModel::empty(),
    {
        Arena::new()
    }
}

impl Arena {
    /// Creates an empty arena.
    pub fn new() -> (arena: Self)
        ensures
            arena@ == ArenaModel::empty(),
    {
        let arena = Arena { operation: String::new(), nodes: Vec::new(), success: false };
        proof {
            assert(arena@ =~= ArenaModel::empty());
        }
        arena
    }

    /// Pushes a node and returns its index (the "span id").
    pub fn push(
        &mut self,
        parent: Option<u32>,
        kind: NodeKind,
        start_ns: u64,
        duration_ns: u64,
    ) -> (id: u32)
        ensures
            id == old(self)@.nodes.len() as u32,
            final(self)@ == old(self)@.pushed(
                SpanModel::new(parent, kind, start_ns, duration_ns),
            ),
    {
        let ghost before = self@;
        let id: u32 = self.nodes.len() as u32;
        self.nodes.push(Node::new(parent, kind, start_ns, duration_ns));
        proof {
            assert(self@.nodes =~= before.nodes.push(
                SpanModel::new(parent, kind, start_ns, duration_ns),
            ));
        }
        id
    }

    /// Adds an attribute to the node at `id`.
    pub fn attr(&mut self, id: u32, key: &str, value: String)
        ensures
            final(self)@ == old(self)@.with_attr(id, key@, value@),
    {
        let ghost before = self@;
        let i: usize = id as usize;
        if i < self.nodes.len() {
            let ghost pair = (key@, value@);
            let ghost attrs = self.nodes@[i as int].attrs@;
            self.nodes[i].attrs.push((key.to_owned(), value));
            proof {
                assert(attrs_view(self.nodes@[i as int].attrs@) =~= attrs_view(attrs).push(pair));
                assert(self@ =~= before.with_attr(id, key@, value@));
            }
        }
    }

    /// Sets the HTTP status on the node at `id`.
    pub fn set_status(&mut self, id: u32, status: u16)
        ensures
            final(self)@ == old(self)@.with_status(id, status),
    {
        let ghost before = self@;
        let i: usize = id as usize;
        if i < self.nodes.len() {
            self.nodes[i].status = status;
            proof {
                assert(self@ =~= before.with_status(id, status));
            }
        }
    }

    /// Sets the duration on the node at `id`.
    pub fn set_duration(&mut self, id: u32, duration_ns: u64)
        ensures
            final(self)@ == old(self)@.with_duration(id, duration_ns),
    {
        let ghost before = self@;
        let i: usize = id as usize;
        if i < self.nodes.len() {
            self.nodes[i].duration_ns = duration_ns;
            proof {
                assert(self@ =~= before.with_duration(id, duration_ns));
            }
        }
    }

    /// Projects the arena into the shared [`WireTree`]: a flat copy of the nodes.
    pub fn to_wire(&self) -> (tree: WireTree)
        ensures
            tree@ == self@.wire(),
    {
        let mut nodes: Vec<WireNode> = Vec::new();
        let mut i: usize = 0;
        while i < self.nodes.len()
            invariant
                i <= self.nodes.len(),
                nodes@.len() == i,
                forall|k: int| 0 <= k < i ==> (#[trigger] nodes@[k])@ == self.nodes@[k]@.wire(),
            decreases self.nodes.len() - i,
        {
            let n = &self.nodes[i];
            nodes.push(
                WireNode {
                    parent: n.parent,
                    kind: n.kind.as_u8(),
                    start_ns: n.start_ns,
                    duration_ns: n.duration_ns,
                    status: n.status,
                    attrs: copy_attrs(&n.attrs),
                },
            );
            i = i + 1;
        }
        let tree = WireTree { operation: self.operation.clone(), nodes };
        proof {
            assert(tree@ =~= self@.wire());
        }
        tree
    }
}

} // verus!
