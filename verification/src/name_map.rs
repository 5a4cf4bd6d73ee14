//! A map from names to values that keeps its entries in the order of their names.

use vstd::prelude::*;
use vstd::utf8::encode_utf8;

use crate::text::{lemma_encoding_injective, same_text};

verus! {

/// `a` comes before `b` in the lexicographic order of bytes.
pub open spec fn bytes_before(a: Seq<u8>, b: Seq<u8>) -> bool
    decreases a.len(),
{
    if b.len() == 0 {
        false
    } else if a.len() == 0 {
        true
    } else {
        a[0] < b[0] || (a[0] == b[0] && bytes_before(a.drop_first(), b.drop_first()))
    }
}

/// The order of names: that of their UTF-8 bytes.
pub open spec fn name_before(a: Seq<char>, b: Seq<char>) -> bool {
    bytes_before(encode_utf8(a), encode_utf8(b))
}

proof fn lemma_bytes_irreflexive(a: Seq<u8>)
    ensures
        !bytes_before(a, a),
    decreases a.len(),
{
    if a.len() > 0 {
        lemma_bytes_irreflexive(a.drop_first());
    }
}

proof fn lemma_bytes_transitive(a: Seq<u8>, b: Seq<u8>, c: Seq<u8>)
    requires
        bytes_before(a, b),
        bytes_before(b, c),
    ensures
        bytes_before(a, c),
    decreases a.len(),
{
    if a.len() > 0 && b.len() > 0 && c.len() > 0 && a[0] == b[0] && b[0] == c[0] {
        lemma_bytes_transitive(a.drop_first(), b.drop_first(), c.drop_first());
    }
}

proof fn lemma_bytes_total(a: Seq<u8>, b: Seq<u8>)
    ensures
        a == b || bytes_before(a, b) || bytes_before(b, a),
    decreases a.len(),
{
    if a.len() > 0 && b.len() > 0 && a[0] == b[0] {
        lemma_bytes_total(a.drop_first(), b.drop_first());
        if a.drop_first() == b.drop_first() {
            assert(a =~= seq![a[0]] + a.drop_first());
            assert(b =~= seq![b[0]] + b.drop_first());
        }
    } else if a.len() == 0 && b.len() == 0 {
        assert(a =~= b);
    }
}

/// Of two sequences that agree before `i`, the order is that of what follows.
proof fn lemma_bytes_skip(a: Seq<u8>, b: Seq<u8>, i: int)
    requires
        0 <= i <= a.len(),
        i <= b.len(),
        forall|j: int| 0 <= j < i ==> a[j] == b[j],
    ensures
        bytes_before(a, b) == bytes_before(a.skip(i), b.skip(i)),
    decreases i,
{
    if i == 0 {
        assert(a.skip(0) =~= a);
        assert(b.skip(0) =~= b);
    } else {
        assert(forall|j: int| 0 <= j < i - 1 ==> a.drop_first()[j] == b.drop_first()[j]);
        lemma_bytes_skip(a.drop_first(), b.drop_first(), i - 1);
        assert(a.drop_first().skip(i - 1) =~= a.skip(i));
        assert(b.drop_first().skip(i - 1) =~= b.skip(i));
    }
}

/// The order of names is strict and total.
pub proof fn name_order_is_strict_and_total(a: Seq<char>, b: Seq<char>, c: Seq<char>)
    ensures
        !name_before(a, a),
        name_before(a, b) && name_before(b, c) ==> name_before(a, c),
        a == b || name_before(a, b) || name_before(b, a),
        name_before(a, b) ==> a != b && !name_before(b, a),
{
    let x = encode_utf8(a);
    let y = encode_utf8(b);
    let z = encode_utf8(c);
    lemma_bytes_irreflexive(x);
    lemma_bytes_total(x, y);
    lemma_encoding_injective(a, b);
    if bytes_before(x, y) && bytes_before(y, z) {
        lemma_bytes_transitive(x, y, z);
    }
    if bytes_before(x, y) && bytes_before(y, x) {
        lemma_bytes_transitive(x, y, x);
    }
}

/// Whether the name `a` comes before the name `b`.
fn comes_before(a: &str, b: &str) -> (r: bool)
    ensures
        r == name_before(a@, b@),
{
    let x = a.as_bytes();
    let y = b.as_bytes();
    let mut i: usize = 0;
    while i < x.len() && i < y.len() && x[i] == y[i]
        invariant
            i <= x.len(),
            i <= y.len(),
            forall|j: int| 0 <= j < i ==> x@[j] == y@[j],
        decreases x.len() - i,
    {
        i = i + 1;
    }
    proof {
        lemma_bytes_skip(x@, y@, i as int);
    }
    if i == y.len() {
        false
    } else if i == x.len() {
        true
    } else {
        x[i] < y[i]
    }
}

/// The names of `entries` strictly ascend, so that none occurs twice.
pub open spec fn ascending<V>(entries: Seq<(Seq<char>, V)>) -> bool {
    forall|i: int, j: int|
        0 <= i < j < entries.len() ==> name_before(#[trigger] entries[i].0, #[trigger] entries[j].0)
}

/// One of `entries` has the name `name`.
pub open spec fn has_name<V>(entries: Seq<(Seq<char>, V)>, name: Seq<char>) -> bool {
    exists|i: int| 0 <= i < entries.len() && (#[trigger] entries[i]).0 == name
}

/// The place of an entry with the name `name`.
pub open spec fn place_of<V>(entries: Seq<(Seq<char>, V)>, name: Seq<char>) -> int {
    choose|i: int| 0 <= i < entries.len() && (#[trigger] entries[i]).0 == name
}

/// The map that `entries` spell out.
pub open spec fn map_of<V>(entries: Seq<(Seq<char>, V)>) -> Map<Seq<char>, V> {
    Map::new(
        |name: Seq<char>| has_name(entries, name),
        |name: Seq<char>| entries[place_of(entries, name)].1,
    )
}

/// A map from names to values, walked in the order of the names.
#[derive(Debug, PartialEq, Eq)]
pub struct NameMap<V> {
    entries: Vec<(String, V)>,
}

impl<V: Clone> Clone for NameMap<V> {
    fn clone(&self) -> (r: Self)
        ensures
            r.entries().len() == self.entries().len(),
            forall|i: int|
                #![trigger r.entries()[i]]
                0 <= i < r.entries().len() ==> r.entries()[i].0 == self.entries()[i].0 && cloned(
                    self.entries()[i].1,
                    r.entries()[i].1,
                ),
    {
        proof {
            use_type_invariant(self);
        }
        let mut entries: Vec<(String, V)> = Vec::new();
        let mut i: usize = 0;
        while i < self.entries.len()
            invariant
                i <= self.entries.len(),
                entries.len() == i,
                forall|j: int|
                    #![trigger entries@[j]]
                    0 <= j < i ==> entries@[j].0@ == self.entries()[j].0 && cloned(
                        self.entries()[j].1,
                        entries@[j].1,
                    ),
            decreases self.entries.len() - i,
        {
            entries.push((self.entries[i].0.clone(), self.entries[i].1.clone()));
            i = i + 1;
        }
        let ghost copied = entries@.map_values(|e: (String, V)| (e.0@, e.1));
        assert forall|a: int, b: int| 0 <= a < b < copied.len() implies name_before(
            #[trigger] copied[a].0,
            #[trigger] copied[b].0,
        ) by {
            assert(entries@[a].0@ == self.entries()[a].0);
            assert(entries@[b].0@ == self.entries()[b].0);
        }
        NameMap { entries }
    }
}

impl<V> View for NameMap<V> {
    type V = Map<Seq<char>, V>;

    open spec fn view(&self) -> Map<Seq<char>, V> {
        map_of(self.entries())
    }
}

impl<V> NameMap<V> {
    /// Names and values in the order in which they are walked.
    pub closed spec fn entries(self) -> Seq<(Seq<char>, V)> {
        self.entries@.map_values(|e: (String, V)| (e.0@, e.1))
    }

    /// The names strictly ascend.
    #[verifier::type_invariant]
    pub open spec fn wf(self) -> bool {
        ascending(self.entries())
    }

    /// A map without entries.
    pub fn new() -> (r: Self)
        ensures
            r.entries() == Seq::<(Seq<char>, V)>::empty(),
            r@ == Map::<Seq<char>, V>::empty(),
            r.wf(),
    {
        let entries: Vec<(String, V)> = Vec::new();
        let r = NameMap { entries };
        assert(r.entries() =~= Seq::<(Seq<char>, V)>::empty());
        assert(r@ =~= Map::<Seq<char>, V>::empty());
        r
    }

    /// The number of entries.
    pub fn len(&self) -> (r: usize)
        ensures
            r == self.entries().len(),
    {
        self.entries.len()
    }

    /// Whether there are no entries.
    pub fn is_empty(&self) -> (r: bool)
        ensures
            r == (self.entries().len() == 0),
    {
        self.entries.len() == 0
    }

    /// The name at place `i` of the order.
    pub fn name_at(&self, i: usize) -> (r: &str)
        requires
            i < self.entries().len(),
        ensures
            r@ == self.entries()[i as int].0,
    {
        self.entries[i].0.as_str()
    }

    /// The value at place `i` of the order.
    pub fn value_at(&self, i: usize) -> (r: &V)
        requires
            i < self.entries().len(),
        ensures
            *r == self.entries()[i as int].1,
    {
        &self.entries[i].1
    }

    /// The value of the name `name`, if it has one.
    pub fn get(&self, name: &str) -> (r: Option<&V>)
        ensures
            match r {
                Some(v) => self@.contains_key(name@) && self@[name@] == *v,
                None => !self@.contains_key(name@),
            },
    {
        proof {
            use_type_invariant(self);
        }
        let mut i: usize = 0;
        while i < self.entries.len()
            invariant
                i <= self.entries.len(),
                self.wf(),
                forall|j: int| 0 <= j < i ==> (#[trigger] self.entries()[j]).0 != name@,
            decreases self.entries.len() - i,
        {
            if same_text(self.entries[i].0.as_str(), name) {
                proof {
                    assert(self.entries()[i as int].0 == name@);
                    lemma_place(self.entries(), i as int);
                }
                return Some(&self.entries[i].1);
            }
            i = i + 1;
        }
        None
    }

    /// Binds `name` to `value` and hands back the value that it had before.
    pub fn insert(&mut self, name: String, value: V) -> (r: Option<V>)
        ensures
            final(self).wf(),
            final(self)@ == old(self)@.insert(name@, value),
            match r {
                Some(v) => old(self)@.contains_key(name@) && old(self)@[name@] == v,
                None => !old(self)@.contains_key(name@),
            },
    {
        proof {
            use_type_invariant(&*self);
        }
        let ghost before = self.entries();
        let mut entries: Vec<(String, V)> = Vec::new();
        std::mem::swap(&mut entries, &mut self.entries);
        let mut i: usize = 0;
        while i < entries.len() && comes_before(entries[i].0.as_str(), name.as_str())
            invariant
                i <= entries.len(),
                before == entries@.map_values(|e: (String, V)| (e.0@, e.1)),
                forall|j: int| 0 <= j < i ==> name_before((#[trigger] before[j]).0, name@),
            decreases entries.len() - i,
        {
            assert(before[i as int].0 == entries@[i as int].0@);
            i = i + 1;
        }
        let ghost key = name@;
        if i < entries.len() && same_text(entries[i].0.as_str(), name.as_str()) {
            assert(before[i as int].0 == key);
            let old_entry = entries.remove(i);
            entries.insert(i, (name, value));
            let ghost after = entries@.map_values(|e: (String, V)| (e.0@, e.1));
            proof {
                assert(after =~= before.update(i as int, (key, value)));
                lemma_updated(before, i as int, value);
            }
            self.entries = entries;
            Some(old_entry.1)
        } else {
            entries.insert(i, (name, value));
            let ghost after = entries@.map_values(|e: (String, V)| (e.0@, e.1));
            proof {
                if i < before.len() {
                    name_order_is_strict_and_total(before[i as int].0, key, key);
                }
                assert(after =~= before.insert(i as int, (key, value)));
                lemma_inserted(before, i as int, key, value);
            }
            self.entries = entries;
            None
        }
    }
}

proof fn lemma_place<V>(entries: Seq<(Seq<char>, V)>, i: int)
    requires
        ascending(entries),
        0 <= i < entries.len(),
    ensures
        has_name(entries, entries[i].0),
        place_of(entries, entries[i].0) == i,
        map_of(entries).contains_key(entries[i].0),
        map_of(entries)[entries[i].0] == entries[i].1,
{
    let name = entries[i].0;
    assert(entries[i].0 == name);
    let p = place_of(entries, name);
    assert(0 <= p < entries.len() && entries[p].0 == name);
    name_order_is_strict_and_total(name, name, name);
    if p < i {
        assert(name_before(entries[p].0, entries[i].0));
    } else if i < p {
        assert(name_before(entries[i].0, entries[p].0));
    }
}

/// Giving the entry at place `i` another value changes the map at its name alone.
proof fn lemma_updated<V>(before: Seq<(Seq<char>, V)>, i: int, value: V)
    requires
        ascending(before),
        0 <= i < before.len(),
    ensures
        ascending(before.update(i, (before[i].0, value))),
        map_of(before).contains_key(before[i].0),
        map_of(before)[before[i].0] == before[i].1,
        map_of(before.update(i, (before[i].0, value))) == map_of(before).insert(before[i].0, value),
{
    let key = before[i].0;
    let after = before.update(i, (key, value));
    assert forall|a: int, b: int| 0 <= a < b < after.len() implies name_before(
        #[trigger] after[a].0,
        #[trigger] after[b].0,
    ) by {
        assert(after[a].0 == before[a].0 && after[b].0 == before[b].0);
    }
    lemma_place(before, i);
    lemma_place(after, i);
    assert forall|name: Seq<char>| name != key implies has_name(before, name) == has_name(after, name)
        && (has_name(before, name) ==> map_of(before)[name] == map_of(after)[name]) by {
        if has_name(before, name) {
            let p = place_of(before, name);
            assert(before[p].0 == name);
            assert(after[p] == before[p]);
            lemma_place(before, p);
            lemma_place(after, p);
        }
        if has_name(after, name) {
            let p = place_of(after, name);
            assert(after[p].0 == name);
            assert(after[p] == before[p]);
        }
    }
    assert(map_of(after) =~= map_of(before).insert(key, value));
}

/// An entry put at its place in the order adds its name to the map and changes nothing else.
proof fn lemma_inserted<V>(before: Seq<(Seq<char>, V)>, i: int, key: Seq<char>, value: V)
    requires
        ascending(before),
        0 <= i <= before.len(),
        forall|j: int| 0 <= j < i ==> name_before((#[trigger] before[j]).0, key),
        i < before.len() ==> name_before(key, before[i].0),
    ensures
        ascending(before.insert(i, (key, value))),
        !map_of(before).contains_key(key),
        map_of(before.insert(i, (key, value))) == map_of(before).insert(key, value),
{
    let after = before.insert(i, (key, value));
    assert forall|j: int| i <= j < before.len() implies name_before(
        key,
        (#[trigger] before[j]).0,
    ) by {
        if i < j {
            name_order_is_strict_and_total(key, before[i].0, before[j].0);
        }
    }
    assert forall|a: int, b: int| 0 <= a < b < after.len() implies name_before(
        #[trigger] after[a].0,
        #[trigger] after[b].0,
    ) by {
        if a < i {
            assert(after[a] == before[a]);
        } else if a > i {
            assert(after[a] == before[a - 1]);
        }
        if b < i {
            assert(after[b] == before[b]);
        } else if b > i {
            assert(after[b] == before[b - 1]);
        }
    }
    if has_name(before, key) {
        let p = place_of(before, key);
        name_order_is_strict_and_total(key, key, key);
        assert(before[p].0 == key);
    }
    assert(after[i] == (key, value));
    lemma_place(after, i);
    assert forall|name: Seq<char>| name != key implies has_name(before, name) == has_name(after, name)
        && (has_name(before, name) ==> map_of(before)[name] == map_of(after)[name]) by {
        if has_name(before, name) {
            let p = place_of(before, name);
            let q = if p < i { p } else { p + 1 };
            assert(before[p].0 == name);
            assert(after[q] == before[p]);
            lemma_place(before, p);
            lemma_place(after, q);
        }
        if has_name(after, name) {
            let q = place_of(after, name);
            assert(after[q].0 == name);
            let p = if q < i { q } else { q - 1 };
            assert(after[q] == before[p]);
        }
    }
    assert(map_of(after) =~= map_of(before).insert(key, value));
}

/// The entries of a map, and the order in which they are walked, follow from what it holds alone.
pub proof fn order_follows_from_content<V>(a: NameMap<V>, b: NameMap<V>)
    requires
        a.wf(),
        b.wf(),
        a@ == b@,
    ensures
        a.entries() == b.entries(),
{
    lemma_same_entries(a.entries(), b.entries());
}

proof fn lemma_same_entries<V>(a: Seq<(Seq<char>, V)>, b: Seq<(Seq<char>, V)>)
    requires
        ascending(a),
        ascending(b),
        map_of(a) == map_of(b),
    ensures
        a == b,
    decreases a.len(),
{
    if a.len() == 0 {
        if b.len() > 0 {
            lemma_place(b, 0);
            assert(has_name(a, b[0].0));
        }
        assert(a =~= b);
    } else {
        let i = a.len() - 1;
        lemma_place(a, i);
        assert(map_of(b).contains_key(a[i].0));
        let j = b.len() - 1;
        let p = place_of(b, a[i].0);
        assert(b[p].0 == a[i].0);
        lemma_place(b, j);
        lemma_place(b, p);
        assert(map_of(a).contains_key(b[j].0));
        let q = place_of(a, b[j].0);
        assert(a[q].0 == b[j].0);
        name_order_is_strict_and_total(a[i].0, b[j].0, a[i].0);
        if p < j {
            assert(name_before(b[p].0, b[j].0));
            if q < i {
                assert(name_before(a[q].0, a[i].0));
            }
        }
        assert(p == j);
        let x = a.drop_last();
        let y = b.drop_last();
        assert(ascending(x)) by {
            assert(forall|k: int| 0 <= k < x.len() ==> x[k] == a[k]);
        }
        assert(ascending(y)) by {
            assert(forall|k: int| 0 <= k < y.len() ==> y[k] == b[k]);
        }
        lemma_dropped(a);
        lemma_dropped(b);
        assert(map_of(x) =~= map_of(a).remove(a[i].0));
        assert(map_of(y) =~= map_of(b).remove(b[j].0));
        lemma_same_entries(x, y);
        assert(a =~= x.push(a[i]));
        assert(b =~= y.push(b[j]));
    }
}

/// Without its last entry, the map lacks that name and is the same otherwise.
proof fn lemma_dropped<V>(entries: Seq<(Seq<char>, V)>)
    requires
        ascending(entries),
        entries.len() > 0,
    ensures
        map_of(entries.drop_last()) == map_of(entries).remove(entries.last().0),
{
    let rest = entries.drop_last();
    let n = entries.len() - 1;
    assert(ascending(rest)) by {
        assert(forall|k: int| 0 <= k < rest.len() ==> rest[k] == entries[k]);
    }
    let key = entries.last().0;
    assert forall|name: Seq<char>| name != key implies has_name(rest, name) == has_name(
        entries,
        name,
    ) && (has_name(rest, name) ==> map_of(rest)[name] == map_of(entries)[name]) by {
        if has_name(rest, name) {
            let p = place_of(rest, name);
            assert(rest[p].0 == name && entries[p] == rest[p]);
            lemma_place(rest, p);
            lemma_place(entries, p);
        }
        if has_name(entries, name) {
            let p = place_of(entries, name);
            assert(entries[p].0 == name);
            assert(p < n);
            assert(rest[p] == entries[p]);
        }
    }
    if has_name(rest, key) {
        let p = place_of(rest, key);
        assert(rest[p].0 == key && entries[p] == rest[p]);
        assert(name_before(entries[p].0, entries[n].0));
        name_order_is_strict_and_total(key, key, key);
    }
    assert(map_of(rest) =~= map_of(entries).remove(key));
}

/// Of two names whose bytes agree before place `i`, the first to come is the one that ends there, or
/// else the one with the smaller byte there.
pub proof fn names_are_in_the_order_of_their_bytes(a: Seq<char>, b: Seq<char>, i: int)
    requires
        0 <= i <= encode_utf8(a).len(),
        i <= encode_utf8(b).len(),
        forall|j: int| 0 <= j < i ==> #[trigger] encode_utf8(a)[j] == encode_utf8(b)[j],
        i < encode_utf8(a).len() && i < encode_utf8(b).len() ==> encode_utf8(a)[i] != encode_utf8(
            b,
        )[i],
    ensures
        name_before(a, b) <==> i < encode_utf8(b).len() && (i == encode_utf8(a).len()
            || encode_utf8(a)[i] < encode_utf8(b)[i]),
{
    lemma_bytes_skip(encode_utf8(a), encode_utf8(b), i);
}

/// A map holds what its entries say: a name if and only if an entry has it, with that entry's value.
pub proof fn maps_hold_their_entries<V>(map: NameMap<V>, name: Seq<char>)
    requires
        map.wf(),
    ensures
        map@.contains_key(name) <==> exists|i: int|
            0 <= i < map.entries().len() && (#[trigger] map.entries()[i]).0 == name,
        forall|i: int|
            0 <= i < map.entries().len() && (#[trigger] map.entries()[i]).0 == name ==> map@[name]
                == map.entries()[i].1,
        forall|i: int, j: int|
            0 <= i < j < map.entries().len() ==> name_before(
                (#[trigger] map.entries()[i]).0,
                (#[trigger] map.entries()[j]).0,
            ),
{
    let entries = map.entries();
    assert forall|i: int| 0 <= i < entries.len() && (#[trigger] entries[i]).0 == name implies map@[name]
        == entries[i].1 by {
        lemma_place(entries, i);
    }
}

} // verus!
