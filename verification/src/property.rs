//! The properties that a role group is configured with, by where they take effect.
use crate::string_map::StringMap;
use vstd::prelude::*;

verus! {

/// Where a property takes effect.
#[derive(Debug, PartialEq, Eq)]
pub enum PropertyNameKind {
    /// In the file of this name.
    File(String),
    /// In the environment.
    Env,
    /// On the command line.
    Cli,
}

/// A [`PropertyNameKind`] as a mathematical value.
pub ghost enum KindView {
    File(Seq<char>),
    Env,
    Cli,
}

/// Names and values of properties, in ascending order of the names.
pub type Properties = Seq<(Seq<char>, Seq<char>)>;

impl View for PropertyNameKind {
    type V = KindView;

    open spec fn view(&self) -> KindView {
        match *self {
            PropertyNameKind::File(name) => KindView::File(name@),
            PropertyNameKind::Env => KindView::Env,
            PropertyNameKind::Cli => KindView::Cli,
        }
    }
}

impl DeepView for PropertyNameKind {
    type V = KindView;

    open spec fn deep_view(&self) -> KindView {
        self@
    }
}

impl PropertyNameKind {
    /// Tells whether two kinds are the same.
    pub fn same(&self, other: &PropertyNameKind) -> (res: bool)
        ensures
            res == (self@ == other@),
    {
        match (self, other) {
            (PropertyNameKind::File(a), PropertyNameKind::File(b)) => *a == *b,
            (PropertyNameKind::Env, PropertyNameKind::Env) => true,
            (PropertyNameKind::Cli, PropertyNameKind::Cli) => true,
            _ => false,
        }
    }
}

/// The validated properties of a role group. Each kind stands in it at most once; the order in
/// which the kinds are walked is open.
pub struct RoleGroupConfig {
    entries: Vec<(PropertyNameKind, StringMap<String>)>,
}

/// Whether no kind stands twice in `entries`.
pub open spec fn distinct_kinds(entries: Seq<(PropertyNameKind, StringMap<String>)>) -> bool {
    forall|i: int, j: int|
        0 <= i < j < entries.len() ==> (#[trigger] entries[i]).0@ != (#[trigger] entries[j]).0@
}

/// Whether the kind `kind` stands in `entries`.
pub open spec fn has_kind(
    entries: Seq<(PropertyNameKind, StringMap<String>)>,
    kind: KindView,
) -> bool {
    exists|i: int| 0 <= i < entries.len() && (#[trigger] entries[i]).0@ == kind
}

/// The properties that stand in `entries` for each kind.
pub open spec fn by_kind(entries: Seq<(PropertyNameKind, StringMap<String>)>) -> Map<
    KindView,
    Properties,
> {
    Map::new(
        |kind: KindView| has_kind(entries, kind),
        |kind: KindView|
            entries[choose|i: int|
                0 <= i < entries.len() && (#[trigger] entries[i]).0@ == kind].1.deep_view(),
    )
}

impl View for RoleGroupConfig {
    type V = Map<KindView, Properties>;

    /// The properties of each kind.
    closed spec fn view(&self) -> Map<KindView, Properties> {
        by_kind(self.entries@)
    }
}

impl RoleGroupConfig {
    #[verifier::type_invariant]
    spec fn well_formed(self) -> bool {
        distinct_kinds(self.entries@)
    }

    /// A configuration without properties.
    pub fn new() -> (res: Self)
        ensures
            res@ == Map::<KindView, Properties>::empty(),
    {
        let res = RoleGroupConfig { entries: Vec::new() };
        assert(res@ =~= Map::empty());
        res
    }

    /// The place of `kind`, or the number of kinds if it is not there.
    fn position(&self, kind: &PropertyNameKind) -> (res: usize)
        ensures
            res <= self.entries@.len(),
            res < self.entries@.len() ==> self.entries@[res as int].0@ == kind@,
            res == self.entries@.len() ==> !has_kind(self.entries@, kind@),
    {
        let mut at: usize = 0;
        while at < self.entries.len()
            invariant
                at <= self.entries@.len(),
                forall|i: int| 0 <= i < at ==> (#[trigger] self.entries@[i]).0@ != kind@,
            decreases self.entries@.len() - at,
        {
            if self.entries[at].0.same(kind) {
                return at;
            }
            at = at + 1;
        }
        at
    }

    /// The properties of the kind `kind`, if there are any.
    pub fn get(&self, kind: &PropertyNameKind) -> (res: Option<&StringMap<String>>)
        ensures
            match res {
                Some(properties) => self@.contains_key(kind@) && properties.deep_view()
                    == self@[kind@],
                None => !self@.contains_key(kind@),
            },
    {
        proof {
            use_type_invariant(self);
        }
        let at = self.position(kind);
        if at < self.entries.len() {
            proof {
                lemma_kind(self.entries@, at as int);
            }
            Some(&self.entries[at].1)
        } else {
            None
        }
    }

    /// Gives the kind `kind` the properties `properties`, in place of those it had before.
    pub fn insert(&mut self, kind: PropertyNameKind, properties: StringMap<String>)
        ensures
            final(self)@ == old(self)@.insert(kind@, properties.deep_view()),
    {
        proof {
            use_type_invariant(&*self);
        }
        let ghost before = self.entries@;
        let ghost entry = (kind, properties);
        let at = self.position(&kind);
        let mut entries: Vec<(PropertyNameKind, StringMap<String>)> = Vec::new();
        std::mem::swap(&mut entries, &mut self.entries);
        if at < entries.len() {
            entries.set(at, (kind, properties));
        } else {
            entries.push((kind, properties));
        }
        proof {
            assert(entries@ == before.update(at as int, entry) || entries@ == before.push(entry));
            assert forall|i: int, j: int| 0 <= i < j < entries@.len() implies (
            #[trigger] entries@[i]).0@ != (#[trigger] entries@[j]).0@ by {
                if j == before.len() {
                    assert(entries@[i] == before[i]);
                }
            }
            lemma_other_kinds(before, entries@, at as int);
        }
        self.entries = entries;
    }

    /// The kinds and their properties, in the order in which they are walked.
    pub fn entries(&self) -> (res: &Vec<(PropertyNameKind, StringMap<String>)>)
        ensures
            distinct_kinds(res@),
            self@ == by_kind(res@),
    {
        proof {
            use_type_invariant(self);
        }
        &self.entries
    }
}

/// Where no kind stands twice, each kind has the properties beside it.
pub proof fn lemma_kind(entries: Seq<(PropertyNameKind, StringMap<String>)>, i: int)
    requires
        distinct_kinds(entries),
        0 <= i < entries.len(),
    ensures
        by_kind(entries).contains_key(entries[i].0@),
        by_kind(entries)[entries[i].0@] == entries[i].1.deep_view(),
{
    let kind = entries[i].0@;
    assert(has_kind(entries, kind));
    let j = choose|j: int| 0 <= j < entries.len() && (#[trigger] entries[j]).0@ == kind;
    assert(i == j);
}

/// Two lists that agree but in the entry at `at` give the other kinds the same properties.
proof fn lemma_other_kinds(
    before: Seq<(PropertyNameKind, StringMap<String>)>,
    after: Seq<(PropertyNameKind, StringMap<String>)>,
    at: int,
)
    requires
        distinct_kinds(before),
        distinct_kinds(after),
        0 <= at < after.len(),
        before.len() <= after.len(),
        at < before.len() ==> before[at].0@ == after[at].0@ && after.len() == before.len(),
        at >= before.len() ==> after.len() == before.len() + 1,
        forall|i: int| 0 <= i < before.len() && i != at ==> before[i] == #[trigger] after[i],
    ensures
        by_kind(after) == by_kind(before).insert(after[at].0@, after[at].1.deep_view()),
{
    let kind = after[at].0@;
    lemma_kind(after, at);
    assert forall|k: KindView| k != kind implies has_kind(before, k) == has_kind(after, k) && (
    has_kind(before, k) ==> by_kind(before)[k] == by_kind(after)[k]) by {
        if has_kind(before, k) {
            let i = choose|i: int| 0 <= i < before.len() && (#[trigger] before[i]).0@ == k;
            assert(after[i] == before[i]);
            lemma_kind(before, i);
            lemma_kind(after, i);
        }
        if has_kind(after, k) {
            let i = choose|i: int| 0 <= i < after.len() && (#[trigger] after[i]).0@ == k;
            assert(before[i] == after[i]);
        }
    }
    assert(by_kind(after) =~= by_kind(before).insert(kind, after[at].1.deep_view()));
}

/// The order in which the kinds are walked does not matter: two lists of the same entries give
/// each kind the same properties.
pub proof fn walk_order_is_open(
    a: Seq<(PropertyNameKind, StringMap<String>)>,
    b: Seq<(PropertyNameKind, StringMap<String>)>,
)
    requires
        distinct_kinds(a),
        a.to_multiset() == b.to_multiset(),
    ensures
        distinct_kinds(b),
        by_kind(a) == by_kind(b),
{
    broadcast use vstd::seq_lib::group_to_multiset_ensures;

    assert(a.no_duplicates());
    a.lemma_multiset_has_no_duplicates();
    b.lemma_multiset_has_no_duplicates_conv();
    assert forall|entry: (PropertyNameKind, StringMap<String>)|
        a.contains(entry) == b.contains(entry) by {
        assert(a.contains(entry) <==> a.to_multiset().count(entry) > 0);
        assert(b.contains(entry) <==> b.to_multiset().count(entry) > 0);
    }
    assert forall|i: int, j: int| 0 <= i < j < b.len() implies (#[trigger] b[i]).0@ != (
    #[trigger] b[j]).0@ by {
        if b[i].0@ == b[j].0@ {
            assert(b.contains(b[i]) && b.contains(b[j]));
            assert(a.contains(b[i]) && a.contains(b[j]));
            let k = choose|k: int| 0 <= k < a.len() && a[k] == b[i];
            let l = choose|l: int| 0 <= l < a.len() && a[l] == b[j];
            assert(a[k].0@ == a[l].0@ && k != l);
        }
    }
    assert forall|kind: KindView| has_kind(a, kind) == has_kind(b, kind) && (has_kind(a, kind)
        ==> by_kind(a)[kind] == by_kind(b)[kind]) by {
        if has_kind(a, kind) {
            let i = choose|i: int| 0 <= i < a.len() && (#[trigger] a[i]).0@ == kind;
            assert(a.contains(a[i]) && b.contains(a[i]));
            let j = choose|j: int| 0 <= j < b.len() && b[j] == a[i];
            lemma_kind(a, i);
            lemma_kind(b, j);
        }
        if has_kind(b, kind) {
            let j = choose|j: int| 0 <= j < b.len() && (#[trigger] b[j]).0@ == kind;
            assert(b.contains(b[j]) && a.contains(b[j]));
            let i = choose|i: int| 0 <= i < a.len() && a[i] == b[j];
            assert(a[i].0@ == kind);
        }
    }
    assert(by_kind(a) =~= by_kind(b));
}

/// A configuration holds properties for a kind exactly if one of the entries does, and for no
/// other kind.
pub proof fn config_holds_its_entries(
    entries: Seq<(PropertyNameKind, StringMap<String>)>,
    kind: KindView,
    properties: Properties,
)
    requires
        forall|i: int, j: int|
            0 <= i < j < entries.len() ==> (#[trigger] entries[i]).0@ != (#[trigger] entries[j]).0@,
    ensures
        by_kind(entries).contains_key(kind) && by_kind(entries)[kind] == properties <==> exists|
            i: int,
        |
            0 <= i < entries.len() && (#[trigger] entries[i]).0@ == kind && entries[i].1.deep_view()
                == properties,
        by_kind(entries).contains_key(kind) <==> exists|i: int|
            0 <= i < entries.len() && (#[trigger] entries[i]).0@ == kind,
{
    if has_kind(entries, kind) {
        let i = choose|i: int| 0 <= i < entries.len() && (#[trigger] entries[i]).0@ == kind;
        lemma_kind(entries, i);
    }
}

/// In no list of entries that is walked a kind stands twice.
pub proof fn walked_kinds_are_distinct(
    entries: Seq<(PropertyNameKind, StringMap<String>)>,
    i: int,
    j: int,
)
    requires
        distinct_kinds(entries),
        0 <= i < j < entries.len(),
    ensures
        entries[i].0@ != entries[j].0@,
{
}

/// Two kinds are the same exactly if both are the file of one name, the environment, or the
/// command line.
pub proof fn kinds_tell_where(a: PropertyNameKind, b: PropertyNameKind)
    ensures
        a@ == b@ <==> match (a, b) {
            (PropertyNameKind::File(a), PropertyNameKind::File(b)) => a@ == b@,
            (PropertyNameKind::Env, PropertyNameKind::Env) => true,
            (PropertyNameKind::Cli, PropertyNameKind::Cli) => true,
            _ => false,
        },
        a matches PropertyNameKind::File(name) ==> a@ == KindView::File(name@),
        a is Env ==> a@ == KindView::Env,
        a is Cli ==> a@ == KindView::Cli,
        a.deep_view() == a@,
{
}

} // verus!
