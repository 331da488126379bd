//! The raw store of captured spans, keyed by span id.

use vstd::prelude::*;
use vstd::string::*;
use vstd::std_specs::btree::spec_keys_iter;
use vstd::std_specs::iter::IteratorSpec;
use std::collections::BTreeMap;

use crate::combo3::fields::{fields_view, put, Fields, FieldsModel};

verus! {

broadcast use {vstd::std_specs::btree::group_btree_axioms, vstd::laws_cmp::group_laws_cmp};

/// A captured span, before it is projected into a typed object.
#[derive(Clone, Debug, Default)]
pub struct RawSpan {
    /// The span's name (such as `operation`, `attempt`, `routing`).
    pub name: String,
    /// The parent span id, where there is one.
    pub parent: Option<u64>,
    /// Recorded span fields.
    pub fields: Fields,
    /// Events with this span as their parent, in order.
    pub events: Vec<Fields>,
    /// Insertion order.
    pub order: u64,
}

/// What a [`RawSpan`] holds.
#[verifier::ext_equal]
pub struct RawModel {
    pub name: Seq<char>,
    pub parent: Option<u64>,
    pub fields: FieldsModel,
    pub events: Seq<FieldsModel>,
    pub order: u64,
}

/// What a list of events holds.
pub open spec fn events_view(events: Seq<Fields>) -> Seq<FieldsModel> {
    Seq::new(events.len(), |i: int| fields_view(events[i]@))
}

impl View for RawSpan {
    type V = RawModel;

    open spec fn view(&self) -> RawModel {
        RawModel {
            name: self.name@,
            parent: self.parent,
            fields: fields_view(self.fields@),
            events: events_view(self.events@),
            order: self.order,
        }
    }
}

/// The raw capture store.
#[derive(Clone, Debug)]
pub struct Store {
    /// All captured spans by their ids.
    pub spans: BTreeMap<u64, RawSpan>,
    next_order: u64,
}

/// Spans by their ids.
pub type SpansModel = Map<u64, RawModel>;

/// What a [`Store`] holds.
#[verifier::ext_equal]
pub struct StoreModel {
    pub spans: SpansModel,
    pub next_order: u64,
}

/// What spans hold.
pub open spec fn spans_view(spans: Map<u64, RawSpan>) -> SpansModel {
    spans.map_values(|s: RawSpan| s@)
}

impl View for Store {
    type V = StoreModel;

    closed spec fn view(&self) -> StoreModel {
        StoreModel { spans: spans_view(self.spans@), next_order: self.next_order }
    }
}

impl StoreModel {
    /// The empty store.
    pub open spec fn empty() -> StoreModel {
        StoreModel { spans: Map::empty(), next_order: 0 }
    }

    /// With a new span. The count of spans starts over when it runs out.
    pub open spec fn with_span(
        self,
        id: u64,
        name: Seq<char>,
        parent: Option<u64>,
        fields: FieldsModel,
    ) -> StoreModel {
        StoreModel {
            spans: self.spans.insert(
                id,
                RawModel { name, parent, fields, events: Seq::empty(), order: self.next_order },
            ),
            next_order: if self.next_order == u64::MAX {
                0
            } else {
                (self.next_order + 1) as u64
            },
        }
    }

    /// With fields recorded on a span; unchanged where there is no such span.
    pub open spec fn with_fields(self, id: u64, fields: FieldsModel) -> StoreModel {
        if self.spans.contains_key(id) {
            let span = self.spans[id];
            StoreModel {
                spans: self.spans.insert(
                    id,
                    RawModel { fields: span.fields.union_prefer_right(fields), ..span },
                ),
                ..self
            }
        } else {
            self
        }
    }

    /// With an event under a span; unchanged where there is no such span.
    pub open spec fn with_event(self, parent: Option<u64>, fields: FieldsModel) -> StoreModel {
        match parent {
            Some(id) => if self.spans.contains_key(id) {
                let span = self.spans[id];
                StoreModel {
                    spans: self.spans.insert(
                        id,
                        RawModel { events: span.events.push(fields), ..span },
                    ),
                    ..self
                }
            } else {
                self
            },
            None => self,
        }
    }
}

/// Span `a` was inserted before span `b`; of two with the same order, the lesser id is first.
pub open spec fn precedes(spans: SpansModel, a: u64, b: u64) -> bool {
    spans[a].order < spans[b].order || (spans[a].order == spans[b].order && a < b)
}

/// Span `id` has no parent.
pub open spec fn is_top(spans: SpansModel, id: u64) -> bool {
    spans.contains_key(id) && spans[id].parent is None
}

/// Span `id` is the first of those that have no parent.
pub open spec fn is_root(spans: SpansModel, id: u64) -> bool {
    &&& is_top(spans, id)
    &&& forall|other: u64| #[trigger] is_top(spans, other) && other != id ==> precedes(
        spans,
        id,
        other,
    )
}

/// The first span without a parent, where there is one.
pub open spec fn root_of(spans: SpansModel) -> Option<u64> {
    if exists|id: u64| is_root(spans, id) {
        Some(choose|id: u64| is_root(spans, id))
    } else {
        None
    }
}

/// Span `id` is a child of `parent`.
pub open spec fn is_child(spans: SpansModel, parent: u64, id: u64) -> bool {
    spans.contains_key(id) && spans[id].parent == Some(parent)
}

/// `ids` stand in the order of insertion.
pub open spec fn in_order(spans: SpansModel, ids: Seq<u64>) -> bool {
    forall|i: int, j: int|
        0 <= i < j < ids.len() ==> precedes(spans, #[trigger] ids[i], #[trigger] ids[j])
}

/// `ids` are the children of `parent`, in the order of insertion.
pub open spec fn lists_children(spans: SpansModel, parent: u64, ids: Seq<u64>) -> bool {
    &&& forall|id: u64| #[trigger] ids.contains(id) <==> is_child(spans, parent, id)
    &&& in_order(spans, ids)
}

/// The children of `parent`, in the order of insertion.
pub open spec fn children_of(spans: SpansModel, parent: u64) -> Seq<u64> {
    choose|ids: Seq<u64>| lists_children(spans, parent, ids)
}

/// Two lists in order with the same ids are the same.
proof fn lemma_order_unique(spans: SpansModel, a: Seq<u64>, b: Seq<u64>)
    requires
        in_order(spans, a),
        in_order(spans, b),
        forall|id: u64| a.contains(id) <==> b.contains(id),
    ensures
        a == b,
    decreases a.len(),
{
    if a.len() == 0 {
        if b.len() > 0 {
            assert(b.contains(b[0]));
            assert(a.contains(b[0]));
        }
        assert(a =~= b);
    } else {
        assert(a.contains(a[0]));
        assert(b.contains(a[0]));
        let x = a.last();
        assert(a.contains(x)) by {
            assert(a[a.len() - 1] == x);
        }
        let y = b.last();
        assert(b.contains(y)) by {
            assert(b[b.len() - 1] == y);
        }
        let i = choose|i: int| 0 <= i < b.len() && b[i] == x;
        let j = choose|j: int| 0 <= j < a.len() && a[j] == y;
        if i < b.len() - 1 {
            assert(precedes(spans, b[i], b[b.len() - 1]));
        }
        if j < a.len() - 1 {
            assert(precedes(spans, a[j], a[a.len() - 1]));
        }
        assert(x == y);
        let p = a.drop_last();
        let q = b.drop_last();
        assert forall|id: u64| p.contains(id) <==> q.contains(id) by {
            if p.contains(id) {
                let k = choose|k: int| 0 <= k < p.len() && p[k] == id;
                assert(a[k] == id);
                assert(a.contains(id));
                assert(precedes(spans, a[k], a[a.len() - 1]));
                let m = choose|m: int| 0 <= m < b.len() && b[m] == id;
                assert(m < b.len() - 1);
                assert(q[m] == id);
            }
            if q.contains(id) {
                let k = choose|k: int| 0 <= k < q.len() && q[k] == id;
                assert(b[k] == id);
                assert(b.contains(id));
                assert(precedes(spans, b[k], b[b.len() - 1]));
                let m = choose|m: int| 0 <= m < a.len() && a[m] == id;
                assert(m < a.len() - 1);
                assert(p[m] == id);
            }
        }
        assert forall|s: int, t: int| 0 <= s < t < p.len() implies precedes(
            spans,
            #[trigger] p[s],
            #[trigger] p[t],
        ) by {
            assert(p[s] == a[s] && p[t] == a[t]);
        }
        assert forall|s: int, t: int| 0 <= s < t < q.len() implies precedes(
            spans,
            #[trigger] q[s],
            #[trigger] q[t],
        ) by {
            assert(q[s] == b[s] && q[t] == b[t]);
        }
        lemma_order_unique(spans, p, q);
        assert(a =~= p.push(x));
        assert(b =~= q.push(y));
    }
}

/// A list of the children of `parent` is the list of its children: there is only one.
pub proof fn law_children_listed_one_way(spans: SpansModel, parent: u64, ids: Seq<u64>)
    requires
        lists_children(spans, parent, ids),
    ensures
        children_of(spans, parent) == ids,
{
    let chosen = children_of(spans, parent);
    assert(lists_children(spans, parent, chosen));
    assert forall|id: u64| chosen.contains(id) <==> ids.contains(id) by {}
    lemma_order_unique(spans, chosen, ids);
}

/// There is at most one root.
pub proof fn law_one_root(spans: SpansModel, id: u64)
    requires
        is_root(spans, id),
    ensures
        root_of(spans) == Some(id),
{
    let chosen = choose|r: u64| is_root(spans, r);
    assert(is_root(spans, chosen));
    if chosen != id {
        assert(is_top(spans, id) && is_top(spans, chosen));
    }
}

impl Default for Store {
    fn default() -> (store: Self)
        ensures
            store@ == StoreModel::empty(),
    {
        Store::new()
    }
}

impl Store {
    /// Creates an empty store.
    pub fn new() -> (store: Self)
        ensures
            store@ == StoreModel::empty(),
    {
        let store = Store { spans: BTreeMap::new(), next_order: 0 };
        proof {
            assert(spans_view(store.spans@) =~= Map::empty());
        }
        store
    }

    /// The order that the next span gets.
    pub fn next_order(&self) -> (n: u64)
        ensures
            n == self@.next_order,
    {
        self.next_order
    }

    /// Records a new span.
    pub fn new_span(&mut self, id: u64, name: &str, parent: Option<u64>, fields: Fields)
        ensures
            final(self)@ == old(self)@.with_span(id, name@, parent, fields_view(fields@)),
    {
        let ghost before = self.spans@;
        let order: u64 = self.next_order;
        self.next_order = if order == u64::MAX {
            0
        } else {
            order + 1
        };
        let events: Vec<Fields> = Vec::new();
        proof {
            assert(events_view(events@) =~= Seq::empty());
        }
        let span = RawSpan { name: name.to_owned(), parent, fields, events, order };
        let ghost model = span@;
        self.spans.insert(id, span);
        proof {
            assert(spans_view(self.spans@) =~= spans_view(before).insert(id, model));
        }
    }

    /// Records fields on a span.
    pub fn record(&mut self, id: u64, fields: &Fields)
        ensures
            final(self)@ == old(self)@.with_fields(id, fields_view(fields@)),
    {
        let ghost before = self.spans@;
        if let Some(mut span) = self.spans.remove(&id) {
            let ghost old_span = span@;
            merge(&mut span.fields, fields);
            let ghost model = span@;
            self.spans.insert(id, span);
            proof {
                assert(before.contains_key(id) && before[id]@ == old_span);
                assert(spans_view(self.spans@) =~= spans_view(before).insert(id, model));
                assert(self@ =~= old(self)@.with_fields(id, fields_view(fields@)));
            }
        } else {
            proof {
                assert(self.spans@ =~= before);
            }
        }
    }

    /// Records an event under a span.
    pub fn event(&mut self, parent: Option<u64>, fields: Fields)
        ensures
            final(self)@ == old(self)@.with_event(parent, fields_view(fields@)),
    {
        let ghost before = self.spans@;
        if let Some(id) = parent {
            if let Some(mut span) = self.spans.remove(&id) {
                let ghost old_span = span;
                span.events.push(fields);
                let ghost model = span@;
                self.spans.insert(id, span);
                proof {
                    assert(before.contains_key(id) && before[id] == old_span);
                    assert(model.events =~= old_span@.events.push(fields_view(fields@)));
                    assert(spans_view(self.spans@) =~= spans_view(before).insert(id, model));
                    assert(self@ =~= old(self)@.with_event(parent, fields_view(fields@)));
                }
            } else {
                proof {
                    assert(self.spans@ =~= before);
                }
            }
        }
    }
}

impl Store {
    /// The ids of all spans.
    fn ids(&self) -> (ids: Vec<u64>)
        ensures
            forall|id: u64| #[trigger] ids@.contains(id) <==> self@.spans.contains_key(id),
    {
        let ghost keys = spec_keys_iter(&self.spans).remaining();
        let mut ids: Vec<u64> = Vec::new();
        for id in it: self.spans.keys()
            invariant
                it.seq() == keys,
                ids@ == keys.unref().take(it.index()),
        {
            ids.push(*id);
        }
        proof {
            assert(ids@ =~= keys.unref());
            assert forall|id: u64| #[trigger] ids@.contains(id) <==> self@.spans.contains_key(
                id,
            ) by {
                assert(ids@.to_set().contains(id) <==> self.spans@.dom().contains(id));
            }
        }
        ids
    }
}

impl Store {
    /// The span with this id.
    pub fn span(&self, id: u64) -> (span: Option<&RawSpan>)
        ensures
            match span {
                Some(s) => self@.spans.contains_key(id) && self@.spans[id] == s@,
                None => !self@.spans.contains_key(id),
            },
    {
        self.spans.get(&id)
    }

    /// Whether span `a` precedes span `b`.
    fn is_before(&self, a: u64, b: u64) -> (r: bool)
        requires
            self@.spans.contains_key(a),
            self@.spans.contains_key(b),
        ensures
            r == precedes(self@.spans, a, b),
    {
        match (self.span(a), self.span(b)) {
            (Some(x), Some(y)) => x.order < y.order || (x.order == y.order && a < b),
            _ => false,
        }
    }

    /// Returns the id of the root span: of those with no parent, the one inserted first.
    pub fn root(&self) -> (root: Option<u64>)
        ensures
            root == root_of(self@.spans),
            match root {
                Some(id) => is_root(self@.spans, id),
                None => forall|id: u64| !is_top(self@.spans, id),
            },
    {
        let ids = self.ids();
        let ghost spans = self@.spans;
        let mut best: Option<u64> = None;
        let mut i: usize = 0;
        while i < ids.len()
            invariant
                i <= ids.len(),
                spans == self@.spans,
                forall|id: u64| #[trigger] ids@.contains(id) <==> spans.contains_key(id),
                match best {
                    Some(b) => {
                        &&& is_top(spans, b)
                        &&& forall|k: int|
                            0 <= k < i && is_top(spans, #[trigger] ids@[k]) && ids@[k] != b
                                ==> precedes(spans, b, ids@[k])
                    },
                    None => forall|k: int| 0 <= k < i ==> !is_top(spans, #[trigger] ids@[k]),
                },
            decreases ids.len() - i,
        {
            let id: u64 = ids[i];
            proof {
                assert(ids@.contains(id));
            }
            let top: bool = match self.span(id) {
                Some(s) => s.parent.is_none(),
                None => false,
            };
            if top {
                best = match best {
                    Some(b) => if self.is_before(id, b) {
                        Some(id)
                    } else {
                        Some(b)
                    },
                    None => Some(id),
                };
            }
            i = i + 1;
        }
        proof {
            assert forall|id: u64| #[trigger] is_top(spans, id) implies exists|k: int|
                0 <= k < ids@.len() && #[trigger] ids@[k] == id by {
                assert(ids@.contains(id));
            }
            match best {
                Some(b) => {
                    assert(is_root(spans, b));
                    law_one_root(spans, b);
                },
                None => {
                    assert forall|id: u64| !is_root(spans, id) by {
                        assert(!is_top(spans, id));
                    }
                },
            }
        }
        best
    }

    /// Returns the ids of the children of `parent`, in the order of insertion.
    pub fn children(&self, parent: u64) -> (kids: Vec<u64>)
        ensures
            kids@ == children_of(self@.spans, parent),
            lists_children(self@.spans, parent, kids@),
    {
        let ids = self.ids();
        let ghost spans = self@.spans;
        let mut kids: Vec<u64> = Vec::new();
        let mut i: usize = 0;
        while i < ids.len()
            invariant
                i <= ids.len(),
                spans == self@.spans,
                forall|id: u64| #[trigger] ids@.contains(id) <==> spans.contains_key(id),
                forall|id: u64| #[trigger]
                    kids@.contains(id) <==> is_child(spans, parent, id) && ids@.take(
                        i as int,
                    ).contains(id),
                in_order(spans, kids@),
            decreases ids.len() - i,
        {
            let id: u64 = ids[i];
            let ghost done = ids@.take(i as int);
            let ghost more = ids@.take(i + 1);
            proof {
                assert(ids@.contains(id));
                assert(more =~= done.push(id));
                assert(more[i as int] == id);
                assert(more.contains(id));
                assert forall|other: u64| #[trigger] more.contains(other) <==> done.contains(other)
                    || other == id by {
                    if done.contains(other) {
                        let k = choose|k: int| 0 <= k < done.len() && done[k] == other;
                        assert(more[k] == other);
                    }
                    if more.contains(other) && other != id {
                        let k = choose|k: int| 0 <= k < more.len() && more[k] == other;
                        assert(done[k] == other);
                    }
                }
            }
            let child: bool = match self.span(id) {
                Some(s) => s.parent == Some(parent),
                None => false,
            };
            if child {
                proof {
                    assert forall|k: int| 0 <= k < kids@.len() implies spans.contains_key(
                        #[trigger] kids@[k],
                    ) by {
                        assert(kids@.contains(kids@[k]));
                    }
                }
                self.insert_in_order(&mut kids, id);
            }
            i = i + 1;
        }
        proof {
            assert(ids@.take(i as int) =~= ids@);
            law_children_listed_one_way(spans, parent, kids@);
        }
        kids
    }

    /// Puts an id where it belongs in a list in order. An id that is there already stays alone.
    fn insert_in_order(&self, kids: &mut Vec<u64>, id: u64)
        requires
            self@.spans.contains_key(id),
            forall|k: int|
                0 <= k < old(kids)@.len() ==> self@.spans.contains_key(#[trigger] old(kids)@[k]),
            in_order(self@.spans, old(kids)@),
        ensures
            in_order(self@.spans, final(kids)@),
            forall|other: u64| #[trigger]
                final(kids)@.contains(other) <==> old(kids)@.contains(other) || other == id,
    {
        let ghost spans = self@.spans;
        let ghost before = kids@;
        let mut at: usize = 0;
        while at < kids.len() && self.is_before(kids[at], id)
            invariant
                at <= kids.len(),
                kids@ == before,
                spans == self@.spans,
                spans.contains_key(id),
                forall|k: int| 0 <= k < before.len() ==> spans.contains_key(#[trigger] before[k]),
                forall|k: int| 0 <= k < at ==> precedes(spans, #[trigger] before[k], id),
            decreases kids.len() - at,
        {
            at = at + 1;
        }
        if at < kids.len() && kids[at] == id {
            proof {
                assert(before[at as int] == id);
                assert(before.contains(id));
            }
        } else {
            kids.insert(at, id);
            proof {
                lemma_inserted_in_order(spans, before, at as int, id);
            }
        }
    }
}

/// Inserting an id behind all that precede it keeps a list in order.
proof fn lemma_inserted_in_order(spans: SpansModel, ids: Seq<u64>, at: int, id: u64)
    requires
        in_order(spans, ids),
        0 <= at <= ids.len(),
        forall|k: int| 0 <= k < at ==> precedes(spans, #[trigger] ids[k], id),
        at < ids.len() ==> precedes(spans, id, ids[at]),
    ensures
        in_order(spans, ids.insert(at, id)),
        forall|other: u64| #[trigger]
            ids.insert(at, id).contains(other) <==> ids.contains(other) || other == id,
{
    let after = ids.insert(at, id);
    assert forall|i: int, j: int| 0 <= i < j < after.len() implies precedes(
        spans,
        #[trigger] after[i],
        #[trigger] after[j],
    ) by {
        if i == at && j > at + 1 {
            assert(precedes(spans, ids[at], ids[j - 1]));
        } else if i < at && j > at {
            assert(precedes(spans, ids[i], ids[j - 1]));
        } else if i > at {
            assert(precedes(spans, ids[i - 1], ids[j - 1]));
        } else if j < at {
            assert(precedes(spans, ids[i], ids[j]));
        }
    }
    assert forall|other: u64| #[trigger] after.contains(other) <==> ids.contains(other) || other
        == id by {
        assert(after[at] == id);
        if after.contains(other) && other != id {
            let k = choose|k: int| 0 <= k < after.len() && after[k] == other;
            if k < at {
                assert(ids[k] == other);
            } else {
                assert(ids[k - 1] == other);
            }
        }
        if ids.contains(other) {
            let k = choose|k: int| 0 <= k < ids.len() && ids[k] == other;
            if k < at {
                assert(after[k] == other);
            } else {
                assert(after[k + 1] == other);
            }
        }
    }
}

/// Puts every field of `more` into `fields`.
fn merge(fields: &mut Fields, more: &Fields)
    ensures
        fields_view(final(fields)@) == fields_view(old(fields)@).union_prefer_right(
            fields_view(more@),
        ),
{
    let ghost before = fields_view(fields@);
    let ghost added = fields_view(more@);
    let n: usize = more.len();
    let mut i: usize = 0;
    while i < n
        invariant
            i <= n,
            n == more.entries().len(),
            added == fields_view(more@),
            forall|k: Seq<char>| #[trigger]
                fields_view(fields@).contains_key(k) <==> before.contains_key(k) || exists|j: int|
                    0 <= j < i && crate::text_map::has_key(more.entries(), j, k),
            forall|k: Seq<char>| #[trigger]
                fields_view(fields@).contains_key(k) ==> fields_view(fields@)[k] == (if exists|
                    j: int,
                |
                    0 <= j < i && crate::text_map::has_key(more.entries(), j, k) {
                    added[k]
                } else {
                    before[k]
                }),
        decreases n - i,
    {
        let ghost old_fields = fields_view(fields@);
        let (key, value) = more.entry(i);
        put(fields, key, value.clone());
        proof {
            let key_text = key@;
            assert(crate::text_map::has_key(more.entries(), i as int, key_text));
            assert forall|k: Seq<char>| #[trigger]
                fields_view(fields@).contains_key(k) <==> before.contains_key(k) || exists|j: int|
                    0 <= j < i + 1 && crate::text_map::has_key(more.entries(), j, k) by {
                assert(fields_view(fields@).contains_key(k) == (old_fields.contains_key(k) || k
                    == key_text));
            }
            assert forall|k: Seq<char>| #[trigger]
                fields_view(fields@).contains_key(k) implies fields_view(fields@)[k] == (if exists|
                j: int,
            |
                0 <= j < i + 1 && crate::text_map::has_key(more.entries(), j, k) {
                added[k]
            } else {
                before[k]
            }) by {
                if k != key_text {
                    assert(old_fields.contains_key(k));
                }
            }
        }
        i = i + 1;
    }
    proof {
        assert forall|k: Seq<char>| #[trigger]
            more@.contains_key(k) <==> exists|j: int|
                0 <= j < n && crate::text_map::has_key(more.entries(), j, k) by {}
        assert(fields_view(fields@) =~= before.union_prefer_right(added));
    }
}

} // verus!
