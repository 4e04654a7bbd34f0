//! The roles that OPA knows.
use vstd::prelude::*;

verus! {

/// The names of all roles, in the order in which they are served. No name stands twice, and one
/// of them is that of the role that OPA servers play.
#[derive(Debug, PartialEq, Eq)]
pub struct Roles {
    names: Vec<String>,
    server: String,
}

/// [`Roles`] as a mathematical value.
pub ghost struct RolesView {
    pub names: Seq<Seq<char>>,
    pub server: Seq<char>,
}

impl View for Roles {
    type V = RolesView;

    closed spec fn view(&self) -> RolesView {
        RolesView { names: self.names.deep_view(), server: self.server@ }
    }
}

/// Whether no name of a role stands twice and the role of the servers is among the roles.
pub open spec fn are_roles(names: Seq<Seq<char>>, server: Seq<char>) -> bool {
    names.no_duplicates() && names.contains(server)
}

/// Tells whether `name` is among the first `end` of `names`.
fn is_among(names: &Vec<String>, end: usize, name: &String) -> (res: bool)
    requires
        end <= names@.len(),
    ensures
        res == names.deep_view().take(end as int).contains(name@),
{
    let ghost all = names.deep_view();
    for i in 0..end
        invariant
            end <= names@.len(),
            all == names.deep_view(),
            forall|j: int| 0 <= j < i ==> #[trigger] all[j] != name@,
    {
        if names[i] == *name {
            assert(all.take(end as int)[i as int] == name@);
            return true;
        }
    }
    false
}

impl Roles {
    /// The roles are distinct, and that of the servers is among them.
    #[verifier::type_invariant]
    pub open spec fn well_formed(self) -> bool {
        are_roles(self@.names, self@.server)
    }

    /// The roles `names` with the role `server` of the servers, if they are distinct and hold it.
    pub fn new(names: Vec<String>, server: String) -> (res: Option<Roles>)
        ensures
            match res {
                Some(roles) => are_roles(names.deep_view(), server@) && roles@ == (RolesView {
                    names: names.deep_view(),
                    server: server@,
                }),
                None => !are_roles(names.deep_view(), server@),
            },
    {
        let ghost all = names.deep_view();
        for i in 0..names.len()
            invariant
                all == names.deep_view(),
                all.take(i as int).no_duplicates(),
        {
            if is_among(&names, i, &names[i]) {
                proof {
                    let j = choose|j: int| 0 <= j < i && all.take(i as int)[j] == all[i as int];
                    assert(all[j] == all[i as int]);
                }
                return None;
            }
            proof {
                let earlier = all.take(i as int);
                let more = all.take(i + 1);
                assert forall|a: int, b: int| 0 <= a < i + 1 && 0 <= b < i + 1 && a
                    != b implies #[trigger] more[a] != #[trigger] more[b] by {
                    assert(a < i ==> earlier[a] == all[a]);
                    assert(b < i ==> earlier[b] == all[b]);
                }
            }
        }
        assert(all.take(names@.len() as int) =~= all);
        if is_among(&names, names.len(), &server) {
            Some(Roles { names, server })
        } else {
            None
        }
    }

    /// The names of all roles, in the order in which they are served.
    pub fn names(&self) -> (res: &Vec<String>)
        ensures
            self.well_formed(),
            res.deep_view() == self@.names,
    {
        proof {
            use_type_invariant(self);
        }
        &self.names
    }

    /// The name of the role that OPA servers play.
    pub fn server(&self) -> (res: &String)
        ensures
            self.well_formed(),
            res@ == self@.server,
    {
        proof {
            use_type_invariant(self);
        }
        &self.server
    }
}

/// Names are roles exactly if none of them stands twice and the role of the servers is one of
/// them.
pub proof fn roles_are_distinct_names(names: Seq<Seq<char>>, server: Seq<char>)
    ensures
        are_roles(names, server) <==> {
            &&& forall|i: int, j: int|
                0 <= i < j < names.len() ==> #[trigger] names[i] != #[trigger] names[j]
            &&& exists|i: int| 0 <= i < names.len() && #[trigger] names[i] == server
        },
{
    if forall|i: int, j: int|
        0 <= i < j < names.len() ==> #[trigger] names[i] != #[trigger] names[j] {
        assert forall|i: int, j: int|
            0 <= i < names.len() && 0 <= j < names.len() && i != j implies names[i] != names[j] by {
            if i > j {
                assert(names[j] != names[i]);
            }
        }
        assert(names.no_duplicates());
    }
}

} // verus!
