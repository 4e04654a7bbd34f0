//! The groups of a role.
use vstd::prelude::*;

verus! {

/// The groups of a role by their names, each with an `N`. Each group stands in it at most once;
/// the order in which the groups are walked is open.
pub struct RoleGroups<N> {
    entries: Vec<(String, N)>,
}

impl<N> View for RoleGroups<N> {
    type V = Seq<(Seq<char>, N)>;

    /// The groups, in the order in which they are walked.
    closed spec fn view(&self) -> Seq<(Seq<char>, N)> {
        self.entries@.map_values(|entry: (String, N)| (entry.0@, entry.1))
    }
}

impl<N> RoleGroups<N> {
    /// No group stands twice.
    #[verifier::type_invariant]
    pub open spec fn well_formed(self) -> bool {
        crate::string_map::distinct_keys(self@)
    }

    /// What stands beside each group, without the order of the groups.
    pub open spec fn map(self) -> Map<Seq<char>, N> {
        crate::string_map::as_map(self@)
    }

    /// A role without groups.
    pub fn new() -> (res: Self)
        ensures
            res.well_formed(),
            res@ == Seq::<(Seq<char>, N)>::empty(),
            res.map() == Map::<Seq<char>, N>::empty(),
    {
        let res = RoleGroups { entries: Vec::new() };
        assert(res@ =~= Seq::empty());
        assert(res.map() =~= Map::empty());
        res
    }

    /// Puts `value` beside the group `group`, in place of what stood there before.
    pub fn insert(&mut self, group: String, value: N)
        ensures
            final(self).well_formed(),
            final(self).map() == old(self).map().insert(group@, value),
    {
        proof {
            use_type_invariant(&*self);
        }
        let ghost before = self@;
        let ghost name = group@;
        let mut at: usize = 0;
        while at < self.entries.len() && self.entries[at].0 != group
            invariant
                at <= self.entries@.len(),
                before == self@,
                name == group@,
                before.len() == self.entries@.len(),
                forall|i: int| 0 <= i < at ==> (#[trigger] before[i]).0 != name,
            decreases self.entries@.len() - at,
        {
            at = at + 1;
        }
        assert(at < before.len() ==> before[at as int].0 == name);
        let mut entries: Vec<(String, N)> = Vec::new();
        std::mem::swap(&mut entries, &mut self.entries);
        let ghost after = if at < before.len() {
            before.update(at as int, (name, value))
        } else {
            before.insert(at as int, (name, value))
        };
        if at < entries.len() {
            entries.set(at, (group, value));
        } else {
            entries.push((group, value));
        }
        proof {
            assert(entries@.map_values(|entry: (String, N)| (entry.0@, entry.1)) =~= after);
            assert forall|i: int, j: int| 0 <= i < j < after.len() implies (
            #[trigger] after[i]).0 != (#[trigger] after[j]).0 by {
                if j == before.len() {
                    assert(after[i] == before[i]);
                }
            }
            crate::string_map::lemma_same_entries(before, after, name, value, at as int);
        }
        self.entries = entries;
    }

    /// The groups, in the order in which they are walked.
    pub fn entries(&self) -> (res: &Vec<(String, N)>)
        ensures
            self.well_formed(),
            self@ == res@.map_values(|entry: (String, N)| (entry.0@, entry.1)),
    {
        proof {
            use_type_invariant(self);
        }
        &self.entries
    }
}

/// A value stands beside a group exactly if it does so in the walk, and no group is walked twice.
pub proof fn groups_are_those_of_the_walk<N>(groups: RoleGroups<N>, group: Seq<char>, value: N)
    requires
        groups.well_formed(),
    ensures
        groups.map().contains_key(group) && groups.map()[group] == value <==> groups@.contains(
            (group, value),
        ),
        groups.map().contains_key(group) <==> exists|i: int|
            0 <= i < groups@.len() && (#[trigger] groups@[i]).0 == group,
        forall|i: int, j: int|
            0 <= i < j < groups@.len() ==> (#[trigger] groups@[i]).0 != (#[trigger] groups@[j]).0,
{
    crate::string_map::entries_fix_map(groups@, group, value);
}

} // verus!
