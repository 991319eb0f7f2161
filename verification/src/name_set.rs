//! A set of names that keeps its members in the order of names.

use vstd::prelude::*;
use crate::name_map::lemma_entries_map;
use crate::name_map::lemma_sorted_names;
use crate::name_map::sorted_names;
use crate::name_map::NameMap;
use crate::names::strictly_increasing;

verus! {

/// The names that stand at the first `i` places of a sequence.
pub open spec fn prefix_set(names: Seq<Seq<char>>, i: int) -> Set<Seq<char>> {
    names.subrange(0, i).to_set()
}

/// Before the first place stands no name.
pub proof fn lemma_prefix_set_start(names: Seq<Seq<char>>)
    ensures
        prefix_set(names, 0) == Set::<Seq<char>>::empty(),
{
    assert(prefix_set(names, 0) =~= Set::<Seq<char>>::empty());
}

/// One place further stands one name more.
pub proof fn lemma_prefix_set_step(names: Seq<Seq<char>>, i: int)
    requires
        0 <= i < names.len(),
    ensures
        prefix_set(names, i + 1) == prefix_set(names, i).insert(names[i]),
{
    let shorter = names.subrange(0, i);
    let longer = names.subrange(0, i + 1);
    assert forall|k: Seq<char>| #[trigger] longer.to_set().contains(k) implies shorter.to_set().insert(
        names[i],
    ).contains(k) by {
        let j = longer.index_of(k);
        assert(0 <= j < longer.len() && longer[j] == k);
        if j < i {
            assert(shorter[j] == k);
        }
    }
    assert forall|k: Seq<char>| #[trigger]
        shorter.to_set().insert(names[i]).contains(k) implies longer.to_set().contains(k) by {
        if k == names[i] {
            assert(longer[i] == k);
        } else {
            let j = shorter.index_of(k);
            assert(0 <= j < shorter.len() && shorter[j] == k);
            assert(longer[j] == k);
        }
    }
    assert(longer.to_set() =~= shorter.to_set().insert(names[i]));
}

/// At the last place every name has been passed.
pub proof fn lemma_prefix_set_whole(names: Seq<Seq<char>>)
    ensures
        prefix_set(names, names.len() as int) == names.to_set(),
{
    assert(names.subrange(0, names.len() as int) =~= names);
}

/// A set of names, whose members stand in the order of names.
#[derive(Debug, PartialEq, Eq)]
pub struct NameSet {
    members: NameMap<()>,
}

impl View for NameSet {
    type V = Set<Seq<char>>;

    /// The members of the set.
    closed spec fn view(&self) -> Set<Seq<char>> {
        self.members.bindings().dom()
    }
}

impl NameSet {
    /// The members, in the order in which they stand.
    pub closed spec fn names(&self) -> Seq<Seq<char>> {
        self.members.names()
    }

    /// The members increase strictly, and are what the view holds.
    #[verifier::type_invariant]
    pub open spec fn well_formed(&self) -> bool {
        &&& strictly_increasing(self.names())
        &&& forall|k: Seq<char>| #[trigger] self@.contains(k) <==> self.names().contains(k)
    }

    /// The members, as they stand, are the members in their order.
    pub proof fn lemma_names(&self)
        requires
            self.well_formed(),
        ensures
            self.names().to_set() == self@,
            self.names() == sorted_names(self@),
    {
        assert(self.names().to_set() =~= self@);
        lemma_sorted_names(self.names());
    }

    /// The empty set.
    pub fn new() -> (s: Self)
        ensures
            s@ == Set::<Seq<char>>::empty(),
            s.names() == Seq::<Seq<char>>::empty(),
            s.well_formed(),
    {
        let s = NameSet { members: NameMap::new() };
        proof {
            assert(s@ =~= Set::<Seq<char>>::empty());
        }
        s
    }

    /// The number of members.
    pub fn len(&self) -> (n: usize)
        ensures
            n == sorted_names(self@).len(),
            n == self.names().len(),
            self.names() == sorted_names(self@),
            self.well_formed(),
    {
        let n = self.members.len();
        proof {
            lemma_entries_map(self.members.names(), self.members.items());
            use_type_invariant(&*self);
            self.lemma_names();
        }
        n
    }

    /// Whether the set has no member.
    pub fn is_empty(&self) -> (b: bool)
        ensures
            b == (self.names().len() == 0),
            b == (self@ == Set::<Seq<char>>::empty()),
            self.well_formed(),
    {
        let b = self.members.is_empty();
        proof {
            lemma_entries_map(self.members.names(), self.members.items());
            if b {
                assert(self@ =~= Set::<Seq<char>>::empty());
            } else {
                assert(self@.contains(self.names()[0]));
            }
        }
        b
    }

    /// The member at one place.
    pub fn name_at(&self, i: usize) -> (name: &String)
        requires
            i < self.names().len(),
        ensures
            name@ == sorted_names(self@)[i as int],
            name@ == self.names()[i as int],
            self@.contains(name@),
            self.well_formed(),
    {
        let name = self.members.name_at(i);
        proof {
            lemma_entries_map(self.members.names(), self.members.items());
            use_type_invariant(&*self);
            self.lemma_names();
        }
        name
    }

    /// Whether `name` is a member.
    pub fn contains(&self, name: &str) -> (b: bool)
        ensures
            b == self@.contains(name@),
    {
        self.members.contains_key(name)
    }

    /// Makes `name` a member; says whether it was none before.
    pub fn insert(&mut self, name: String) -> (added: bool)
        ensures
            final(self)@ == old(self)@.insert(name@),
            added == !old(self)@.contains(name@),
            final(self).well_formed(),
    {
        let ghost before = self.members.bindings();
        let mut members = NameMap::new();
        std::mem::swap(&mut members, &mut self.members);
        let previous = members.insert(name, ());
        proof {
            assert(members.bindings().dom() =~= before.dom().insert(name@));
            lemma_entries_map(members.names(), members.items());
        }
        self.members = members;
        previous.is_none()
    }

    /// Makes every member of `other` a member.
    pub fn extend_from(&mut self, other: &NameSet)
        ensures
            final(self)@ == old(self)@.union(other@),
            final(self).well_formed(),
    {
        let n = other.len();
        let ghost names = other.names();
        proof {
            lemma_prefix_set_start(names);
            assert(self@.union(prefix_set(names, 0)) =~= self@);
        }
        let mut i: usize = 0;
        while i < n
            invariant
                i <= n,
                n == names.len(),
                names == other.names(),
                other.well_formed(),
                self@ == old(self)@.union(prefix_set(names, i as int)),
            decreases n - i,
        {
            let name = other.name_at(i).clone();
            self.insert(name);
            proof {
                lemma_prefix_set_step(names, i as int);
                assert(self@ =~= old(self)@.union(prefix_set(names, i as int + 1)));
            }
            i += 1;
        }
        proof {
            lemma_prefix_set_whole(names);
            assert(other@ =~= names.to_set());
        }
        proof {
            use_type_invariant(&*self);
        }
    }

    /// The members that are none of `other`.
    pub fn difference(&self, other: &NameSet) -> (rest: NameSet)
        ensures
            rest@ == self@.difference(other@),
            rest.well_formed(),
    {
        let n = self.len();
        let ghost names = self.names();
        let mut rest = NameSet::new();
        proof {
            lemma_prefix_set_start(names);
            assert(rest@ =~= prefix_set(names, 0).difference(other@));
        }
        let mut i: usize = 0;
        while i < n
            invariant
                i <= n,
                n == names.len(),
                names == self.names(),
                self.well_formed(),
                rest.well_formed(),
                rest@ == prefix_set(names, i as int).difference(other@),
            decreases n - i,
        {
            let name = self.name_at(i);
            if !other.contains(name.as_str()) {
                rest.insert(name.clone());
            }
            proof {
                lemma_prefix_set_step(names, i as int);
                assert(rest@ =~= prefix_set(names, i as int + 1).difference(other@));
            }
            i += 1;
        }
        proof {
            lemma_prefix_set_whole(names);
            assert(self@ =~= names.to_set());
        }
        rest
    }

    /// Removes `name` from the members; says whether it was one.
    pub fn remove(&mut self, name: &str) -> (removed: bool)
        ensures
            final(self)@ == old(self)@.remove(name@),
            removed == old(self)@.contains(name@),
            final(self).well_formed(),
    {
        let ghost before = self.members.bindings();
        let mut members = NameMap::new();
        std::mem::swap(&mut members, &mut self.members);
        let previous = members.remove(name);
        proof {
            assert(members.bindings().dom() =~= before.dom().remove(name@));
            lemma_entries_map(members.names(), members.items());
        }
        self.members = members;
        previous.is_some()
    }
}

} // verus!
