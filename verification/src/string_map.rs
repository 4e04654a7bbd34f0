//! A map from strings that is walked in the order of its keys.
use crate::order::str_precedes;
use vstd::prelude::*;

verus! {

/// A map from strings to `V`. It is walked in ascending order of its keys.
pub struct StringMap<V> {
    entries: Vec<(String, V)>,
}

/// Whether the keys of `entries` ascend, so that no key stands twice.
pub open spec fn ascending<V>(entries: Seq<(Seq<char>, V)>) -> bool {
    forall|i: int, j: int|
        0 <= i < j < entries.len() ==> crate::order::precedes(
            (#[trigger] entries[i]).0,
            (#[trigger] entries[j]).0,
        )
}

/// Whether no key stands twice in `entries`.
pub open spec fn distinct_keys<V>(entries: Seq<(Seq<char>, V)>) -> bool {
    forall|i: int, j: int|
        0 <= i < j < entries.len() ==> (#[trigger] entries[i]).0 != (#[trigger] entries[j]).0
}

/// Whether some entry has the key `key`.
pub open spec fn has_key<V>(entries: Seq<(Seq<char>, V)>, key: Seq<char>) -> bool {
    exists|i: int| 0 <= i < entries.len() && (#[trigger] entries[i]).0 == key
}

/// What `entries` maps each of its keys to.
pub open spec fn as_map<V>(entries: Seq<(Seq<char>, V)>) -> Map<Seq<char>, V> {
    Map::new(
        |key: Seq<char>| has_key(entries, key),
        |key: Seq<char>|
            entries[choose|i: int| 0 <= i < entries.len() && (#[trigger] entries[i]).0 == key].1,
    )
}

impl<V> View for StringMap<V> {
    type V = Seq<(Seq<char>, V)>;

    /// The entries, in the order in which they are walked.
    closed spec fn view(&self) -> Seq<(Seq<char>, V)> {
        self.entries@.map_values(|entry: (String, V)| (entry.0@, entry.1))
    }
}

impl<V: DeepView> DeepView for StringMap<V> {
    type V = Seq<(Seq<char>, V::V)>;

    /// The entries with the values that stand in them, in the order in which they are walked.
    open spec fn deep_view(&self) -> Seq<(Seq<char>, V::V)> {
        self@.map_values(|entry: (Seq<char>, V)| (entry.0, entry.1.deep_view()))
    }
}

impl<V> StringMap<V> {
    /// The keys ascend.
    #[verifier::type_invariant]
    pub open spec fn well_formed(self) -> bool {
        ascending(self@)
    }

    /// The map that this is, without its order.
    pub open spec fn map(self) -> Map<Seq<char>, V> {
        as_map(self@)
    }

    /// A map without entries.
    pub fn new() -> (res: Self)
        ensures
            res.well_formed(),
            res@ == Seq::<(Seq<char>, V)>::empty(),
            res.map() == Map::<Seq<char>, V>::empty(),
    {
        let res = StringMap { entries: Vec::new() };
        assert(res@ =~= Seq::empty());
        assert(res.map() =~= Map::empty());
        res
    }

    /// The place of the first key that does not come before `key`.
    fn position(&self, key: &str) -> (res: usize)
        ensures
            res <= self@.len(),
            self@.len() == self.entries@.len(),
            forall|i: int|
                0 <= i < res ==> crate::order::precedes((#[trigger] self@[i]).0, key@),
            res < self@.len() ==> !crate::order::precedes(self@[res as int].0, key@),
    {
        let mut at: usize = 0;
        while at < self.entries.len() && str_precedes(self.entries[at].0.as_str(), key)
            invariant
                at <= self.entries@.len(),
                self@.len() == self.entries@.len(),
                forall|i: int|
                    0 <= i < at ==> crate::order::precedes((#[trigger] self@[i]).0, key@),
            decreases self.entries@.len() - at,
        {
            at = at + 1;
        }
        at
    }

    /// The value at `key`, if there is one.
    pub fn get(&self, key: &str) -> (res: Option<&V>)
        ensures
            match res {
                Some(value) => self.map().contains_key(key@) && *value == self.map()[key@],
                None => !self.map().contains_key(key@),
            },
    {
        proof {
            use_type_invariant(self);
        }
        let at = self.position(key);
        if at < self.entries.len() && !str_precedes(key, self.entries[at].0.as_str()) {
            proof {
                if self@[at as int].0 != key@ {
                    crate::order::lemma_precedes_total(self@[at as int].0, key@);
                }
                lemma_ascending(self@);
                lemma_entry(self@, at as int);
            }
            Some(&self.entries[at].1)
        } else {
            proof {
                lemma_gap(self@, at as int, key@);
            }
            None
        }
    }

    /// Maps `key` to `value`, in place of what it was mapped to before.
    pub fn insert(&mut self, key: String, value: V)
        ensures
            final(self).well_formed(),
            final(self).map() == old(self).map().insert(key@, value),
    {
        proof {
            use_type_invariant(&*self);
        }
        let ghost before = self@;
        let ghost name = key@;
        let at = self.position(key.as_str());
        let mut entries: Vec<(String, V)> = Vec::new();
        std::mem::swap(&mut entries, &mut self.entries);
        if at < entries.len() && !str_precedes(key.as_str(), entries[at].0.as_str()) {
            proof {
                if before[at as int].0 != name {
                    crate::order::lemma_precedes_total(before[at as int].0, name);
                }
                lemma_replace(before, at as int, name, value);
            }
            entries.set(at, (key, value));
            assert(entries@.map_values(|entry: (String, V)| (entry.0@, entry.1)) =~= before.update(
                at as int,
                (name, value),
            ));
        } else {
            proof {
                if at < before.len() {
                    crate::order::lemma_precedes_irreflexive(name);
                }
                lemma_insert(before, at as int, name, value);
            }
            entries.insert(at, (key, value));
            assert(entries@.map_values(|entry: (String, V)| (entry.0@, entry.1)) =~= before.insert(
                at as int,
                (name, value),
            ));
        }
        self.entries = entries;
    }

    /// The entries, in ascending order of their keys.
    pub fn entries(&self) -> (res: &Vec<(String, V)>)
        ensures
            self.well_formed(),
            self@ == res@.map_values(|entry: (String, V)| (entry.0@, entry.1)),
    {
        proof {
            use_type_invariant(self);
        }
        &self.entries
    }

    /// Gives the entries away, in ascending order of their keys.
    pub fn into_entries(self) -> (res: Vec<(String, V)>)
        ensures
            self.well_formed(),
            self@ == res@.map_values(|entry: (String, V)| (entry.0@, entry.1)),
    {
        proof {
            use_type_invariant(&self);
        }
        self.entries
    }
}

/// The text that stands at each key.
pub open spec fn texts(map: StringMap<String>) -> Map<Seq<char>, Seq<char>> {
    as_map(map.deep_view())
}

/// Where the keys ascend, none stands twice.
pub proof fn lemma_ascending<V>(entries: Seq<(Seq<char>, V)>)
    requires
        ascending(entries),
    ensures
        distinct_keys(entries),
{
    assert forall|i: int, j: int| 0 <= i < j < entries.len() implies (#[trigger] entries[i]).0 != (
    #[trigger] entries[j]).0 by {
        crate::order::lemma_precedes_irreflexive(entries[i].0);
    }
}

/// Where no key stands twice, each key is mapped to the value beside it.
pub proof fn lemma_entry<V>(entries: Seq<(Seq<char>, V)>, i: int)
    requires
        distinct_keys(entries),
        0 <= i < entries.len(),
    ensures
        as_map(entries).contains_key(entries[i].0),
        as_map(entries)[entries[i].0] == entries[i].1,
{
    let key = entries[i].0;
    assert(has_key(entries, key));
    let j = choose|j: int| 0 <= j < entries.len() && (#[trigger] entries[j]).0 == key;
    assert(i == j);
}

/// A map and its deep view have the same keys and what stands at them.
pub proof fn lemma_deep<V: DeepView>(map: StringMap<V>)
    requires
        map.well_formed(),
    ensures
        ascending(map.deep_view()),
        as_map(map.deep_view()) == map.map().map_values(|value: V| value.deep_view()),
{
    let deep = map.deep_view();
    assert(ascending(deep)) by {
        assert forall|i: int, j: int| 0 <= i < j < deep.len() implies crate::order::precedes(
            (#[trigger] deep[i]).0,
            (#[trigger] deep[j]).0,
        ) by {
            assert(crate::order::precedes(map@[i].0, map@[j].0));
        }
    }
    lemma_ascending(map@);
    lemma_ascending(deep);
    assert forall|key: Seq<char>| has_key(deep, key) == has_key(map@, key) && (has_key(map@, key)
        ==> as_map(deep)[key] == map.map()[key].deep_view()) by {
        if has_key(deep, key) {
            let i = choose|i: int| 0 <= i < deep.len() && (#[trigger] deep[i]).0 == key;
            assert(map@[i].0 == key);
        }
        if has_key(map@, key) {
            let i = choose|i: int| 0 <= i < map@.len() && (#[trigger] map@[i]).0 == key;
            assert(deep[i].0 == key);
            lemma_entry(map@, i);
            lemma_entry(deep, i);
        }
    }
    assert(as_map(deep) =~= map.map().map_values(|value: V| value.deep_view()));
}

/// A key between the keys before and from `at` is no key of `entries`.
proof fn lemma_gap<V>(entries: Seq<(Seq<char>, V)>, at: int, key: Seq<char>)
    requires
        ascending(entries),
        0 <= at <= entries.len(),
        forall|i: int| 0 <= i < at ==> crate::order::precedes((#[trigger] entries[i]).0, key),
        at < entries.len() ==> crate::order::precedes(key, entries[at].0),
    ensures
        !has_key(entries, key),
        forall|i: int|
            at <= i < entries.len() ==> crate::order::precedes(key, (#[trigger] entries[i]).0),
{
    assert forall|i: int| at <= i < entries.len() implies crate::order::precedes(
        key,
        (#[trigger] entries[i]).0,
    ) by {
        if i > at {
            crate::order::lemma_precedes_transitive(key, entries[at].0, entries[i].0);
        }
    }
    crate::order::lemma_precedes_irreflexive(key);
}

/// Putting a value beside a key that is there already.
proof fn lemma_replace<V>(entries: Seq<(Seq<char>, V)>, at: int, key: Seq<char>, value: V)
    requires
        ascending(entries),
        0 <= at < entries.len(),
        entries[at].0 == key,
    ensures
        ascending(entries.update(at, (key, value))),
        as_map(entries.update(at, (key, value))) == as_map(entries).insert(key, value),
{
    let after = entries.update(at, (key, value));
    assert(ascending(after));
    lemma_ascending(entries);
    lemma_ascending(after);
    lemma_same_entries(entries, after, key, value, at);
}

/// Putting a new key where the keys before it come before it and the keys behind it after it.
proof fn lemma_insert<V>(entries: Seq<(Seq<char>, V)>, at: int, key: Seq<char>, value: V)
    requires
        ascending(entries),
        0 <= at <= entries.len(),
        forall|i: int| 0 <= i < at ==> crate::order::precedes((#[trigger] entries[i]).0, key),
        at < entries.len() ==> crate::order::precedes(key, entries[at].0),
    ensures
        ascending(entries.insert(at, (key, value))),
        as_map(entries.insert(at, (key, value))) == as_map(entries).insert(key, value),
{
    let after = entries.insert(at, (key, value));
    lemma_gap(entries, at, key);
    assert forall|i: int, j: int| 0 <= i < j < after.len() implies crate::order::precedes(
        (#[trigger] after[i]).0,
        (#[trigger] after[j]).0,
    ) by {
        if i < at && j > at {
            crate::order::lemma_precedes_transitive(after[i].0, key, after[j].0);
        }
    }
    lemma_ascending(entries);
    lemma_ascending(after);
    lemma_same_entries(entries, after, key, value, at);
}

/// Two lists of entries that differ in the entry of one key alone differ so as maps.
pub proof fn lemma_same_entries<V>(
    before: Seq<(Seq<char>, V)>,
    after: Seq<(Seq<char>, V)>,
    key: Seq<char>,
    value: V,
    at: int,
)
    requires
        distinct_keys(before),
        distinct_keys(after),
        0 <= at <= before.len(),
        after == before.insert(at, (key, value)) || (at < before.len() && before[at].0 == key
            && after == before.update(at, (key, value))),
    ensures
        as_map(after) == as_map(before).insert(key, value),
{
    lemma_entry(after, at);
    assert forall|k: Seq<char>| k != key implies has_key(before, k) == has_key(after, k) && (
    has_key(before, k) ==> as_map(before)[k] == as_map(after)[k]) by {
        if has_key(before, k) {
            let i = choose|i: int| 0 <= i < before.len() && (#[trigger] before[i]).0 == k;
            let j = if after.len() > before.len() && i >= at {
                i + 1
            } else {
                i
            };
            assert(after[j] == before[i]);
            lemma_entry(before, i);
            lemma_entry(after, j);
        }
        if has_key(after, k) {
            let j = choose|j: int| 0 <= j < after.len() && (#[trigger] after[j]).0 == k;
            let i = if after.len() > before.len() && j > at {
                j - 1
            } else {
                j
            };
            assert(before[i] == after[j]);
        }
    }
    assert(as_map(after) =~= as_map(before).insert(key, value));
}

/// Without its first entry a list maps all but the first key as before.
proof fn lemma_drop_first<V>(entries: Seq<(Seq<char>, V)>)
    requires
        ascending(entries),
        entries.len() > 0,
    ensures
        ascending(entries.drop_first()),
        as_map(entries.drop_first()) == as_map(entries).remove(entries[0].0),
{
    let rest = entries.drop_first();
    let key = entries[0].0;
    assert(rest.insert(0, entries[0]) =~= entries);
    assert(ascending(rest));
    lemma_ascending(rest);
    lemma_ascending(entries);
    lemma_same_entries(rest, entries, key, entries[0].1, 0);
    assert(!has_key(rest, key)) by {
        if has_key(rest, key) {
            let i = choose|i: int| 0 <= i < rest.len() && (#[trigger] rest[i]).0 == key;
            assert(entries[i + 1] == rest[i]);
            crate::order::lemma_precedes_irreflexive(key);
        }
    }
    assert(as_map(rest) =~= as_map(entries).remove(key));
}

/// Two maps that map the same keys to the same values are walked alike, whatever was inserted
/// first.
pub proof fn map_fixes_walk<V>(a: Seq<(Seq<char>, V)>, b: Seq<(Seq<char>, V)>)
    requires
        ascending(a),
        ascending(b),
        as_map(a) == as_map(b),
    ensures
        a == b,
    decreases a.len(),
{
    lemma_ascending(a);
    lemma_ascending(b);
    if a.len() == 0 || b.len() == 0 {
        if a.len() > 0 {
            lemma_entry(a, 0);
            assert(has_key(b, a[0].0));
        }
        if b.len() > 0 {
            lemma_entry(b, 0);
            assert(has_key(a, b[0].0));
        }
        assert(a =~= b);
    } else {
        lemma_entry(a, 0);
        lemma_entry(b, 0);
        assert(has_key(b, a[0].0) && has_key(a, b[0].0));
        let j = choose|j: int| 0 <= j < b.len() && (#[trigger] b[j]).0 == a[0].0;
        let i = choose|i: int| 0 <= i < a.len() && (#[trigger] a[i]).0 == b[0].0;
        if i > 0 && j > 0 {
            crate::order::lemma_precedes_transitive(a[0].0, b[0].0, a[0].0);
            crate::order::lemma_precedes_irreflexive(a[0].0);
        }
        lemma_drop_first(a);
        lemma_drop_first(b);
        map_fixes_walk(a.drop_first(), b.drop_first());
        assert(a =~= seq![a[0]] + a.drop_first());
        assert(b =~= seq![b[0]] + b.drop_first());
    }
}

/// A map holds a value at a key exactly if an entry of it does, and it has no other keys.
pub proof fn map_holds_its_entries<V>(map: StringMap<V>, key: Seq<char>, value: V)
    requires
        map.well_formed(),
    ensures
        map.map().contains_key(key) && map.map()[key] == value <==> map@.contains((key, value)),
        map.map().contains_key(key) <==> exists|i: int|
            0 <= i < map@.len() && (#[trigger] map@[i]).0 == key,
{
    lemma_ascending(map@);
    entries_fix_map(map@, key, value);
}

/// Entries in which no key stands twice map a key to a value exactly if they hold both together.
pub proof fn entries_fix_map<V>(entries: Seq<(Seq<char>, V)>, key: Seq<char>, value: V)
    requires
        forall|i: int, j: int|
            0 <= i < j < entries.len() ==> (#[trigger] entries[i]).0 != (#[trigger] entries[j]).0,
    ensures
        as_map(entries).contains_key(key) && as_map(entries)[key] == value <==> entries.contains(
            (key, value),
        ),
        as_map(entries).contains_key(key) <==> exists|i: int|
            0 <= i < entries.len() && (#[trigger] entries[i]).0 == key,
{
    if as_map(entries).contains_key(key) {
        let i = choose|i: int| 0 <= i < entries.len() && (#[trigger] entries[i]).0 == key;
        lemma_entry(entries, i);
        if entries[i].1 == value {
            assert(entries[i] == (key, value));
        }
    }
    if entries.contains((key, value)) {
        let i = choose|i: int| 0 <= i < entries.len() && entries[i] == (key, value);
        lemma_entry(entries, i);
    }
}

/// A map is walked so that each key comes before all later ones.
pub proof fn map_is_walked_in_order<V>(map: StringMap<V>, i: int, j: int)
    requires
        map.well_formed(),
        0 <= i < j < map@.len(),
    ensures
        crate::order::precedes(map@[i].0, map@[j].0),
        map@[i].0 != map@[j].0,
{
    lemma_ascending(map@);
}

/// The deep view of a map has the same keys in the same places, with what stands in the values.
pub proof fn deep_view_keeps_places<V: DeepView>(map: StringMap<V>)
    ensures
        map.deep_view().len() == map@.len(),
        forall|i: int|
            0 <= i < map@.len() ==> #[trigger] map.deep_view()[i] == (
                map@[i].0,
                map@[i].1.deep_view(),
            ),
{
}

/// A map of texts has a text at a key exactly if an entry of it has.
pub proof fn texts_are_those_of_the_entries(map: StringMap<String>, key: Seq<char>, text: Seq<char>)
    requires
        map.well_formed(),
    ensures
        texts(map).contains_key(key) && texts(map)[key] == text <==> exists|i: int|
            0 <= i < map@.len() && (#[trigger] map@[i]).0 == key && map@[i].1@ == text,
        texts(map).contains_key(key) <==> exists|i: int|
            0 <= i < map@.len() && (#[trigger] map@[i]).0 == key,
{
    let deep = map.deep_view();
    lemma_deep(map);
    lemma_ascending(deep);
    entries_fix_map(deep, key, text);
    if deep.contains((key, text)) {
        let i = choose|i: int| 0 <= i < deep.len() && deep[i] == (key, text);
        assert(map@[i].0 == key && map@[i].1@ == text);
    }
    if exists|i: int| 0 <= i < map@.len() && (#[trigger] map@[i]).0 == key && map@[i].1@ == text {
        let i = choose|i: int|
            0 <= i < map@.len() && (#[trigger] map@[i]).0 == key && map@[i].1@ == text;
        assert(deep[i] == (key, text));
    }
    if texts(map).contains_key(key) {
        let i = choose|i: int| 0 <= i < deep.len() && (#[trigger] deep[i]).0 == key;
        assert(map@[i].0 == key);
    }
    if exists|i: int| 0 <= i < map@.len() && (#[trigger] map@[i]).0 == key {
        let i = choose|i: int| 0 <= i < map@.len() && (#[trigger] map@[i]).0 == key;
        assert(deep[i].0 == key);
    }
}

} // verus!
