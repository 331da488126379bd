//! A map from text to values, kept in the order of its keys.

use vstd::prelude::*;
use vstd::string::*;
use vstd::utf8::*;

use crate::text::same_text;

verus! {

/// `a` and `b` agree on their first `i` bytes, and then `a` ends or has the lesser byte.
pub open spec fn departs_below(a: Seq<u8>, b: Seq<u8>, i: int) -> bool {
    &&& 0 <= i <= a.len()
    &&& i < b.len()
    &&& forall|k: int| 0 <= k < i ==> #[trigger] a[k] == b[k]
    &&& (i == a.len() || a[i] < b[i])
}

/// `a` comes before `b` when they are ordered byte by byte.
pub open spec fn bytes_below(a: Seq<u8>, b: Seq<u8>) -> bool {
    exists|i: int| departs_below(a, b, i)
}

/// `a` comes before `b`. Text is ordered by the bytes of its UTF-8 form.
pub open spec fn text_below(a: Seq<char>, b: Seq<char>) -> bool {
    bytes_below(encode_utf8(a), encode_utf8(b))
}

/// What comes before something that comes before a third thing comes before that too.
proof fn lemma_below_transitive(a: Seq<char>, b: Seq<char>, c: Seq<char>)
    requires
        text_below(a, b),
        text_below(b, c),
    ensures
        text_below(a, c),
{
    let x = encode_utf8(a);
    let y = encode_utf8(b);
    let z = encode_utf8(c);
    let i = choose|i: int| departs_below(x, y, i);
    let j = choose|j: int| departs_below(y, z, j);
    let m = if i < j {
        i
    } else {
        j
    };
    assert forall|k: int| 0 <= k < m implies #[trigger] x[k] == z[k] by {
        assert(x[k] == y[k]);
        assert(y[k] == z[k]);
    }
    if m < x.len() && m < i {
        assert(x[m] == y[m]);
    }
    if m < j {
        assert(y[m] == z[m]);
    }
    assert(departs_below(x, z, m));
}

/// Nothing comes before itself.
proof fn lemma_below_irreflexive(a: Seq<char>)
    ensures
        !text_below(a, a),
{
}

/// Whether `a` comes before `b`.
pub fn comes_before(a: &str, b: &str) -> (r: bool)
    ensures
        r == text_below(a@, b@),
{
    let x = a.as_bytes();
    let y = b.as_bytes();
    let mut i: usize = 0;
    while i < x.len() && i < y.len() && x[i] == y[i]
        invariant
            i <= x.len(),
            i <= y.len(),
            forall|k: int| 0 <= k < i ==> #[trigger] x@[k] == y@[k],
        decreases x.len() - i,
    {
        i = i + 1;
    }
    let r = i < y.len() && (i == x.len() || x[i] < y[i]);
    proof {
        if r {
            assert(departs_below(x@, y@, i as int));
        } else {
            assert forall|j: int| !departs_below(x@, y@, j) by {
                if departs_below(x@, y@, j) {
                    if j < i {
                        assert(x@[j] == y@[j]);
                    }
                    if i < j {
                        assert(x@[i as int] == y@[i as int]);
                    }
                }
            }
        }
    }
    r
}

/// Neither comes before the other only where they are the same.
proof fn lemma_below_total(a: Seq<char>, b: Seq<char>)
    ensures
        text_below(a, b) || text_below(b, a) || a == b,
{
    let x = encode_utf8(a);
    let y = encode_utf8(b);
    if !text_below(a, b) && !text_below(b, a) {
        lemma_no_departure(x, y, 0);
        encode_utf8_decode_utf8(a);
        encode_utf8_decode_utf8(b);
    }
}

/// Byte strings that agree so far and neither of which comes before the other are the same.
proof fn lemma_no_departure(x: Seq<u8>, y: Seq<u8>, i: int)
    requires
        0 <= i <= x.len(),
        i <= y.len(),
        forall|k: int| 0 <= k < i ==> #[trigger] x[k] == y[k],
        !bytes_below(x, y),
        !bytes_below(y, x),
    ensures
        x == y,
    decreases x.len() - i,
{
    assert(!departs_below(x, y, i));
    assert(!departs_below(y, x, i));
    if i < x.len() && i < y.len() {
        assert(x[i] == y[i]);
        lemma_no_departure(x, y, i + 1);
    } else {
        assert(x =~= y);
    }
}

/// The keys stand in order, so none stands twice.
pub open spec fn ascending<V>(entries: Seq<(String, V)>) -> bool {
    forall|i: int, j: int|
        0 <= i < j < entries.len() ==> text_below(
            (#[trigger] entries[i]).0@,
            (#[trigger] entries[j]).0@,
        )
}

/// A map from text to values, kept in the order of its keys.
#[derive(Debug)]
pub struct TextMap<V> {
    entries: Vec<(String, V)>,
}

/// Entry `i` has this key.
pub open spec fn has_key<V>(entries: Seq<(String, V)>, i: int, key: Seq<char>) -> bool {
    0 <= i < entries.len() && entries[i].0@ == key
}

/// The value under a key in a list of entries.
pub open spec fn value_in<V>(entries: Seq<(String, V)>, key: Seq<char>) -> V {
    entries[choose|i: int| has_key(entries, i, key)].1
}

/// The map that a list of entries stands for.
pub open spec fn map_of<V>(entries: Seq<(String, V)>) -> Map<Seq<char>, V> {
    Map::new(
        |key: Seq<char>| exists|i: int| has_key(entries, i, key),
        |key: Seq<char>| value_in(entries, key),
    )
}

/// In a list in order, an entry is what its key stands for.
proof fn lemma_value_at<V>(entries: Seq<(String, V)>, i: int)
    requires
        ascending(entries),
        0 <= i < entries.len(),
    ensures
        map_of(entries).contains_key(entries[i].0@),
        map_of(entries)[entries[i].0@] == entries[i].1,
{
    let key = entries[i].0@;
    assert(has_key(entries, i, key));
    let j = choose|j: int| has_key(entries, j, key);
    lemma_below_irreflexive(key);
    if i < j {
        assert(text_below(entries[i].0@, entries[j].0@));
    } else if j < i {
        assert(text_below(entries[j].0@, entries[i].0@));
    }
}

/// In a list in order there are as many keys as entries.
proof fn lemma_as_many_keys<V>(entries: Seq<(String, V)>)
    requires
        ascending(entries),
    ensures
        map_of(entries).dom().finite(),
        map_of(entries).dom().len() == entries.len(),
    decreases entries.len(),
{
    let keys = map_of(entries).dom();
    if entries.len() == 0 {
        assert(keys =~= Set::empty());
    } else {
        let init = entries.drop_last();
        let last = entries.last().0@;
        assert(ascending(init));
        lemma_as_many_keys(init);
        let before = map_of(init).dom();
        assert(!before.contains(last)) by {
            if before.contains(last) {
                let i = choose|i: int| has_key(init, i, last);
                assert(text_below(entries[i].0@, entries[entries.len() - 1].0@));
                lemma_below_irreflexive(last);
            }
        }
        assert forall|key: Seq<char>| keys.contains(key) == before.insert(last).contains(key) by {
            if keys.contains(key) && key != last {
                let i = choose|i: int| has_key(entries, i, key);
                assert(has_key(init, i, key));
            }
            if before.contains(key) {
                let i = choose|i: int| has_key(init, i, key);
                assert(has_key(entries, i, key));
            }
            assert(has_key(entries, entries.len() - 1, last));
        }
        assert(keys =~= before.insert(last));
    }
}

impl<V> View for TextMap<V> {
    type V = Map<Seq<char>, V>;

    closed spec fn view(&self) -> Map<Seq<char>, V> {
        map_of(self.entries@)
    }
}

impl<V> TextMap<V> {
    #[verifier::type_invariant]
    closed spec fn in_order(self) -> bool {
        ascending(self.entries@)
    }

    /// The entries, in the order of their keys.
    pub closed spec fn entries(&self) -> Seq<(String, V)> {
        self.entries@
    }

    /// Creates an empty map.
    pub fn new() -> (map: Self)
        ensures
            map@ == Map::<Seq<char>, V>::empty(),
    {
        let entries: Vec<(String, V)> = Vec::new();
        proof {
            assert(map_of(entries@) =~= Map::<Seq<char>, V>::empty());
        }
        TextMap { entries }
    }

    /// The number of keys.
    pub fn len(&self) -> (n: usize)
        ensures
            n == self.entries().len(),
            n == self@.dom().len(),
            forall|key: Seq<char>| #[trigger]
                self@.contains_key(key) <==> exists|i: int| has_key(self.entries(), i, key),
    {
        proof {
            use_type_invariant(self);
            lemma_as_many_keys(self.entries@);
            assert forall|key: Seq<char>| #[trigger]
                self@.contains_key(key) <==> exists|i: int|
                    has_key(self.entries(), i, key) by {
                assert(self@ == map_of(self.entries()));
            }
        }
        self.entries.len()
    }

    /// Entry `i`, in the order of the keys.
    pub fn entry(&self, i: usize) -> (e: (&str, &V))
        requires
            i < self.entries().len(),
        ensures
            e.0@ == self.entries()[i as int].0@,
            *e.1 == self.entries()[i as int].1,
            self@.contains_key(e.0@),
            self@[e.0@] == *e.1,
            forall|j: int|
                0 <= j < i ==> text_below((#[trigger] self.entries()[j]).0@, e.0@),
    {
        proof {
            use_type_invariant(self);
            lemma_value_at(self.entries@, i as int);
        }
        (self.entries[i].0.as_str(), &self.entries[i].1)
    }

    /// The value under `key`.
    pub fn get(&self, key: &str) -> (value: Option<&V>)
        ensures
            match value {
                Some(v) => self@.contains_key(key@) && self@[key@] == *v,
                None => !self@.contains_key(key@),
            },
    {
        proof {
            use_type_invariant(self);
        }
        let mut i: usize = 0;
        while i < self.entries.len()
            invariant
                i <= self.entries.len(),
                ascending(self.entries@),
                forall|k: int| 0 <= k < i ==> !has_key(self.entries@, k, key@),
            decreases self.entries.len() - i,
        {
            if same_text(self.entries[i].0.as_str(), key) {
                proof {
                    lemma_value_at(self.entries@, i as int);
                }
                return Some(&self.entries[i].1);
            }
            i = i + 1;
        }
        None
    }

    /// Puts `value` under `key`, in place of what was there.
    pub fn insert(&mut self, key: String, value: V)
        ensures
            final(self)@ == old(self)@.insert(key@, value),
    {
        proof {
            use_type_invariant(&*self);
        }
        let ghost before = self.entries@;
        let mut entries: Vec<(String, V)> = Vec::new();
        std::mem::swap(&mut entries, &mut self.entries);
        let mut i: usize = 0;
        while i < entries.len() && comes_before(entries[i].0.as_str(), key.as_str())
            invariant
                i <= entries.len(),
                forall|k: int| 0 <= k < i ==> text_below((#[trigger] entries@[k]).0@, key@),
            decreases entries.len() - i,
        {
            i = i + 1;
        }
        let ghost at = i as int;
        let ghost pair = (key, value);
        if i < entries.len() && same_text(entries[i].0.as_str(), key.as_str()) {
            entries.set(i, (key, value));
            proof {
                assert(entries@ == before.update(at, pair));
                lemma_replaced(before, at, pair);
            }
        } else {
            entries.insert(i, (key, value));
            proof {
                if at < before.len() {
                    lemma_below_total(before[at].0@, pair.0@);
                }
                assert(entries@ == before.insert(at, pair));
                lemma_inserted(before, at, pair);
            }
        }
        self.entries = entries;
    }
}

/// Replacing the entry of a key.
proof fn lemma_replaced<V>(entries: Seq<(String, V)>, at: int, pair: (String, V))
    requires
        ascending(entries),
        0 <= at < entries.len(),
        entries[at].0@ == pair.0@,
    ensures
        ascending(entries.update(at, pair)),
        map_of(entries.update(at, pair)) == map_of(entries).insert(pair.0@, pair.1),
{
    let after = entries.update(at, pair);
    assert(ascending(after));
    assert forall|key: Seq<char>| map_of(after).contains_key(key) == map_of(entries).insert(
        pair.0@,
        pair.1,
    ).contains_key(key) by {
        if map_of(after).contains_key(key) {
            let i = choose|i: int| has_key(after, i, key);
            assert(has_key(entries, i, key));
        }
        if map_of(entries).contains_key(key) {
            let i = choose|i: int| has_key(entries, i, key);
            assert(has_key(after, i, key));
        }
        assert(has_key(after, at, pair.0@));
    }
    assert forall|key: Seq<char>| map_of(after).contains_key(key) implies map_of(after)[key]
        == map_of(entries).insert(pair.0@, pair.1)[key] by {
        let i = choose|i: int| has_key(after, i, key);
        lemma_value_at(after, i);
        lemma_value_at(entries, i);
        lemma_value_at(after, at);
    }
    assert(map_of(after) =~= map_of(entries).insert(pair.0@, pair.1));
}

/// Inserting an entry where its key belongs.
proof fn lemma_inserted<V>(entries: Seq<(String, V)>, at: int, pair: (String, V))
    requires
        ascending(entries),
        0 <= at <= entries.len(),
        forall|k: int| 0 <= k < at ==> text_below((#[trigger] entries[k]).0@, pair.0@),
        at < entries.len() ==> text_below(pair.0@, entries[at].0@),
    ensures
        ascending(entries.insert(at, pair)),
        map_of(entries.insert(at, pair)) == map_of(entries).insert(pair.0@, pair.1),
{
    let after = entries.insert(at, pair);
    assert forall|i: int, j: int| 0 <= i < j < after.len() implies text_below(
        (#[trigger] after[i]).0@,
        (#[trigger] after[j]).0@,
    ) by {
        if i == at && j > at + 1 {
            assert(text_below(entries[at].0@, entries[j - 1].0@));
            lemma_below_transitive(pair.0@, entries[at].0@, entries[j - 1].0@);
        }
    }
    assert forall|key: Seq<char>| map_of(after).contains_key(key) == map_of(entries).insert(
        pair.0@,
        pair.1,
    ).contains_key(key) by {
        if map_of(after).contains_key(key) {
            let i = choose|i: int| has_key(after, i, key);
            if i < at {
                assert(has_key(entries, i, key));
            } else if i > at {
                assert(has_key(entries, i - 1, key));
            }
        }
        if map_of(entries).contains_key(key) {
            let i = choose|i: int| has_key(entries, i, key);
            if i < at {
                assert(has_key(after, i, key));
            } else {
                assert(has_key(after, i + 1, key));
            }
        }
        assert(has_key(after, at, pair.0@));
    }
    assert forall|key: Seq<char>| map_of(after).contains_key(key) implies map_of(after)[key]
        == map_of(entries).insert(pair.0@, pair.1)[key] by {
        let i = choose|i: int| has_key(after, i, key);
        lemma_value_at(after, i);
        lemma_value_at(after, at);
        if i < at {
            lemma_value_at(entries, i);
            lemma_below_irreflexive(key);
        } else if i > at {
            assert(text_below(after[at].0@, after[i].0@));
            lemma_below_irreflexive(key);
            lemma_value_at(entries, i - 1);
        }
    }
    assert(map_of(after) =~= map_of(entries).insert(pair.0@, pair.1));
}

impl<V> Default for TextMap<V> {
    fn default() -> (map: Self)
        ensures
            map@ == Map::<Seq<char>, V>::empty(),
    {
        TextMap::new()
    }
}

impl<V: Clone> Clone for TextMap<V> {
    fn clone(&self) -> (map: Self)
        ensures
            map@.dom() == self@.dom(),
            forall|key: Seq<char>| #[trigger]
                map@.contains_key(key) ==> cloned(self@[key], map@[key]),
    {
        proof {
            use_type_invariant(self);
        }
        let mut entries: Vec<(String, V)> = Vec::new();
        let mut i: usize = 0;
        while i < self.entries.len()
            invariant
                i <= self.entries.len(),
                entries@.len() == i,
                forall|k: int|
                    0 <= k < i ==> (#[trigger] entries@[k]).0@ == self.entries@[k].0@ && cloned(
                        self.entries@[k].1,
                        entries@[k].1,
                    ),
            decreases self.entries.len() - i,
        {
            entries.push((self.entries[i].0.clone(), self.entries[i].1.clone()));
            i = i + 1;
        }
        proof {
            lemma_cloned_map(self.entries@, entries@);
        }
        TextMap { entries }
    }
}

/// A list of entries with the same keys and clones of the values stands for a map with clones of
/// the values.
proof fn lemma_cloned_map<V: Clone>(a: Seq<(String, V)>, b: Seq<(String, V)>)
    requires
        ascending(a),
        a.len() == b.len(),
        forall|k: int|
            0 <= k < b.len() ==> (#[trigger] b[k]).0@ == a[k].0@ && cloned(a[k].1, b[k].1),
    ensures
        ascending(b),
        map_of(a).dom() == map_of(b).dom(),
        forall|key: Seq<char>| #[trigger]
            map_of(b).contains_key(key) ==> cloned(map_of(a)[key], map_of(b)[key]),
{
    assert(ascending(b)) by {
        assert forall|i: int, j: int| 0 <= i < j < b.len() implies text_below(
            (#[trigger] b[i]).0@,
            (#[trigger] b[j]).0@,
        ) by {
            assert(text_below(a[i].0@, a[j].0@));
        }
    }
    assert forall|key: Seq<char>| map_of(a).contains_key(key) == map_of(b).contains_key(key) by {
        if map_of(a).contains_key(key) {
            let i = choose|i: int| has_key(a, i, key);
            assert(has_key(b, i, key));
        }
        if map_of(b).contains_key(key) {
            let i = choose|i: int| has_key(b, i, key);
            assert(has_key(a, i, key));
        }
    }
    assert forall|key: Seq<char>| #[trigger] map_of(b).contains_key(key) implies cloned(
        map_of(a)[key],
        map_of(b)[key],
    ) by {
        let i = choose|i: int| has_key(b, i, key);
        lemma_value_at(a, i);
        lemma_value_at(b, i);
    }
    assert(map_of(a).dom() =~= map_of(b).dom());
}

} // verus!
