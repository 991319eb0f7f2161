//! A map from names to values that keeps its entries in the order of names.

use vstd::prelude::*;
use crate::name_set::NameSet;
use crate::names::lemma_name_lt_asymmetric;
use crate::names::lemma_name_lt_irreflexive;
use crate::names::lemma_name_lt_transitive;
use crate::names::name_lt;
use crate::names::order_names;
use crate::names::strictly_increasing;
use crate::names::NameOrder;

verus! {

/// The map that a sequence of names and a sequence of values of the same
/// length stand for: each name is bound to the value at its place.
pub open spec fn entries_map<V>(names: Seq<Seq<char>>, items: Seq<V>) -> Map<Seq<char>, V> {
    Map::new(|k: Seq<char>| names.contains(k), |k: Seq<char>| items[names.index_of(k)])
}

/// In a strictly increasing sequence every name stands at one place only.
pub proof fn lemma_increasing_distinct(names: Seq<Seq<char>>, i: int, j: int)
    requires
        strictly_increasing(names),
        0 <= i < names.len(),
        0 <= j < names.len(),
        names[i] == names[j],
    ensures
        i == j,
{
    if i < j {
        lemma_name_lt_asymmetric(names[i], names[j]);
    } else if j < i {
        lemma_name_lt_asymmetric(names[j], names[i]);
    }
}

/// What `entries_map` holds for strictly increasing names.
pub proof fn lemma_entries_map<V>(names: Seq<Seq<char>>, items: Seq<V>)
    requires
        strictly_increasing(names),
        names.len() == items.len(),
    ensures
        forall|i: int|
            0 <= i < names.len() ==> entries_map(names, items).contains_key(#[trigger] names[i])
                && entries_map(names, items)[names[i]] == items[i],
        forall|k: Seq<char>| #[trigger]
            entries_map(names, items).contains_key(k) ==> names.contains(k),
{
    assert forall|i: int| 0 <= i < names.len() implies entries_map(names, items).contains_key(
        #[trigger] names[i],
    ) && entries_map(names, items)[names[i]] == items[i] by {
        assert(names.contains(names[i]));
        let j = names.index_of(names[i]);
        lemma_increasing_distinct(names, i, j);
    }
}

/// Two strictly increasing sequences of names that bind the same map hold
/// the same names at the same places, with the same values.
pub proof fn lemma_entries_canonical<V>(
    names1: Seq<Seq<char>>,
    items1: Seq<V>,
    names2: Seq<Seq<char>>,
    items2: Seq<V>,
)
    requires
        strictly_increasing(names1),
        strictly_increasing(names2),
        names1.len() == items1.len(),
        names2.len() == items2.len(),
        entries_map(names1, items1) == entries_map(names2, items2),
    ensures
        names1 == names2,
        items1 == items2,
    decreases names1.len(),
{
    lemma_entries_map(names1, items1);
    lemma_entries_map(names2, items2);
    let m = entries_map(names1, items1);
    if names1.len() == 0 {
        if names2.len() > 0 {
            assert(m.contains_key(names2[0]));
            assert(names1.contains(names2[0]));
        }
        assert(names1 =~= names2);
        assert(items1 =~= items2);
    } else if names2.len() == 0 {
        assert(m.contains_key(names1[0]));
        assert(names2.contains(names1[0]));
    } else {
        // The least name of both is the same.
        let a = names1[0];
        let b = names2[0];
        assert(m.contains_key(a));
        assert(names2.contains(a));
        let ia = names2.index_of(a);
        assert(m.contains_key(b));
        assert(names1.contains(b));
        let ib = names1.index_of(b);
        if a != b {
            assert(ia != 0);
            assert(ib != 0);
            assert(name_lt(names2[0], names2[ia]));
            assert(name_lt(names1[0], names1[ib]));
            lemma_name_lt_asymmetric(a, b);
        }
        assert(items1[0] == m[a]);
        assert(items2[0] == m[b]);
        let n1 = names1.drop_first();
        let n2 = names2.drop_first();
        let v1 = items1.drop_first();
        let v2 = items2.drop_first();
        assert(strictly_increasing(n1)) by {
            assert forall|i: int, j: int| 0 <= i < j < n1.len() implies name_lt(
                #[trigger] n1[i],
                #[trigger] n1[j],
            ) by {
                assert(n1[i] == names1[i + 1]);
                assert(n1[j] == names1[j + 1]);
            }
        }
        assert(strictly_increasing(n2)) by {
            assert forall|i: int, j: int| 0 <= i < j < n2.len() implies name_lt(
                #[trigger] n2[i],
                #[trigger] n2[j],
            ) by {
                assert(n2[i] == names2[i + 1]);
                assert(n2[j] == names2[j + 1]);
            }
        }
        lemma_entries_map(n1, v1);
        lemma_entries_map(n2, v2);
        assert(entries_map(n1, v1) =~= entries_map(n2, v2)) by {
            assert forall|k: Seq<char>| entries_map(n1, v1).contains_key(k) implies entries_map(
                n2,
                v2,
            ).contains_key(k) && entries_map(n1, v1)[k] == entries_map(n2, v2)[k] by {
                assert(n1.contains(k));
                let i = n1.index_of(k);
                assert(names1[i + 1] == k);
                assert(name_lt(names1[0], names1[i + 1]));
                lemma_name_lt_asymmetric(a, k);
                assert(m.contains_key(names1[i + 1]));
                assert(names2.contains(k));
                let j = names2.index_of(k);
                assert(j != 0);
                assert(n2[j - 1] == k);
                assert(entries_map(n2, v2)[n2[j - 1]] == v2[j - 1]);
                assert(entries_map(n1, v1)[n1[i]] == v1[i]);
                assert(m[names1[i + 1]] == items1[i + 1]);
                assert(m[names2[j]] == items2[j]);
            }
            assert forall|k: Seq<char>| entries_map(n2, v2).contains_key(k) implies entries_map(
                n1,
                v1,
            ).contains_key(k) by {
                assert(n2.contains(k));
                let j = n2.index_of(k);
                assert(names2[j + 1] == k);
                assert(name_lt(names2[0], names2[j + 1]));
                lemma_name_lt_asymmetric(b, k);
                assert(m.contains_key(names2[j + 1]));
                assert(names1.contains(k));
                let i = names1.index_of(k);
                assert(i != 0);
                assert(n1[i - 1] == k);
            }
        }
        lemma_entries_canonical(n1, v1, n2, v2);
        assert(names1 =~= seq![a] + n1);
        assert(names2 =~= seq![b] + n2);
        assert(items1 =~= seq![items1[0]] + v1);
        assert(items2 =~= seq![items2[0]] + v2);
    }
}

/// The names of a set in their order.
pub open spec fn sorted_names(names: Set<Seq<char>>) -> Seq<Seq<char>> {
    choose|s: Seq<Seq<char>>| strictly_increasing(s) && s.to_set() == names
}

/// Two strictly increasing sequences that hold the same names are the same
/// sequence.
pub proof fn lemma_increasing_unique(a: Seq<Seq<char>>, b: Seq<Seq<char>>)
    requires
        strictly_increasing(a),
        strictly_increasing(b),
        a.to_set() == b.to_set(),
    ensures
        a == b,
{
    let ua = Seq::new(a.len(), |i: int| ());
    let ub = Seq::new(b.len(), |i: int| ());
    assert forall|k: Seq<char>| #![trigger a.contains(k)] a.contains(k) == b.contains(k) by {
        assert(a.to_set().contains(k) == a.contains(k));
        assert(b.to_set().contains(k) == b.contains(k));
    }
    assert(entries_map(a, ua) =~= entries_map(b, ub));
    lemma_entries_canonical(a, ua, b, ub);
}

/// A strictly increasing sequence is the sequence of its names in their
/// order.
pub proof fn lemma_sorted_names(names: Seq<Seq<char>>)
    requires
        strictly_increasing(names),
    ensures
        sorted_names(names.to_set()) == names,
{
    let s = sorted_names(names.to_set());
    assert(strictly_increasing(names) && names.to_set() == names.to_set());
    lemma_increasing_unique(s, names);
}

/// Putting a new name in at the place that keeps the order binds it, and
/// leaves every other binding as it was.
pub proof fn lemma_entries_insert<V>(
    names: Seq<Seq<char>>,
    items: Seq<V>,
    at: int,
    name: Seq<char>,
    item: V,
)
    requires
        strictly_increasing(names),
        names.len() == items.len(),
        0 <= at <= names.len(),
        forall|j: int| 0 <= j < at ==> name_lt(#[trigger] names[j], name),
        forall|j: int| at <= j < names.len() ==> name_lt(name, #[trigger] names[j]),
    ensures
        strictly_increasing(names.insert(at, name)),
        entries_map(names.insert(at, name), items.insert(at, item)) == entries_map(
            names,
            items,
        ).insert(name, item),
{
    let names2 = names.insert(at, name);
    let items2 = items.insert(at, item);
    assert forall|i: int, j: int| 0 <= i < j < names2.len() implies name_lt(
        #[trigger] names2[i],
        #[trigger] names2[j],
    ) by {
        let a = if i < at { names[i] } else if i == at { name } else { names[i - 1] };
        let b = if j < at { names[j] } else if j == at { name } else { names[j - 1] };
        assert(names2[i] == a);
        assert(names2[j] == b);
    }
    lemma_entries_map(names, items);
    lemma_entries_map(names2, items2);
    let m = entries_map(names, items).insert(name, item);
    let m2 = entries_map(names2, items2);
    assert forall|k: Seq<char>| #[trigger] m.contains_key(k) implies m2.contains_key(k) && m2[k] == m[k] by {
        if k == name {
            assert(names2[at] == k);
            assert(m2[names2[at]] == items2[at]);
        } else {
            assert(names.contains(k));
            let i = names.index_of(k);
            assert(0 <= i < names.len() && names[i] == k);
            assert(entries_map(names, items)[names[i]] == items[i]);
            if i < at {
                assert(names2[i] == k);
                assert(items2[i] == items[i]);
                assert(m2[names2[i]] == items2[i]);
            } else {
                assert(names2[i + 1] == k);
                assert(items2[i + 1] == items[i]);
                assert(m2[names2[i + 1]] == items2[i + 1]);
            }
        }
    }
    assert forall|k: Seq<char>| #[trigger] m2.contains_key(k) implies m.contains_key(k) by {
        assert(names2.contains(k));
        let i = names2.index_of(k);
        assert(0 <= i < names2.len() && names2[i] == k);
        if i < at {
            assert(names[i] == k);
            assert(entries_map(names, items).contains_key(names[i]));
        } else if i > at {
            assert(names[i - 1] == k);
            assert(entries_map(names, items).contains_key(names[i - 1]));
        }
    }
    assert(m2 =~= m);
}

/// Taking out the entry at one place unbinds its name, and leaves every
/// other binding as it was.
pub proof fn lemma_entries_remove<V>(names: Seq<Seq<char>>, items: Seq<V>, at: int)
    requires
        strictly_increasing(names),
        names.len() == items.len(),
        0 <= at < names.len(),
    ensures
        strictly_increasing(names.remove(at)),
        entries_map(names.remove(at), items.remove(at)) == entries_map(names, items).remove(
            names[at],
        ),
{
    let names2 = names.remove(at);
    let items2 = items.remove(at);
    assert forall|i: int, j: int| 0 <= i < j < names2.len() implies name_lt(
        #[trigger] names2[i],
        #[trigger] names2[j],
    ) by {
        let a = if i < at { names[i] } else { names[i + 1] };
        let b = if j < at { names[j] } else { names[j + 1] };
        assert(names2[i] == a);
        assert(names2[j] == b);
    }
    lemma_entries_map(names, items);
    lemma_entries_map(names2, items2);
    let m = entries_map(names, items).remove(names[at]);
    let m2 = entries_map(names2, items2);
    assert forall|k: Seq<char>| #[trigger] m.contains_key(k) implies m2.contains_key(k) && m2[k] == m[k] by {
        assert(names.contains(k));
        let i = names.index_of(k);
        assert(0 <= i < names.len() && names[i] == k);
        assert(entries_map(names, items)[names[i]] == items[i]);
        if i < at {
            assert(names2[i] == k);
            assert(items2[i] == items[i]);
            assert(m2[names2[i]] == items2[i]);
        } else {
            assert(i != at);
            assert(names2[i - 1] == k);
            assert(items2[i - 1] == items[i]);
            assert(m2[names2[i - 1]] == items2[i - 1]);
        }
    }
    assert forall|k: Seq<char>| #[trigger] m2.contains_key(k) implies m.contains_key(k) by {
        assert(names2.contains(k));
        let i = names2.index_of(k);
        assert(0 <= i < names2.len() && names2[i] == k);
        if i < at {
            assert(names[i] == k);
            if k == names[at] {
                lemma_increasing_distinct(names, i, at);
            }
        } else {
            assert(names[i + 1] == k);
            if k == names[at] {
                lemma_increasing_distinct(names, i + 1, at);
            }
        }
        assert(entries_map(names, items).contains_key(k));
    }
    assert(m2 =~= m);
}

/// A map with each value taken by its view.
pub open spec fn value_views<V: View>(m: Map<Seq<char>, V>) -> Map<Seq<char>, V::V> {
    m.map_values(|v: V| v@)
}

/// The names that a sequence of strings holds.
pub open spec fn name_views(keys: Seq<String>) -> Seq<Seq<char>> {
    Seq::new(keys.len(), |i: int| keys[i]@)
}

/// Adds a name at the end of a list of names.
pub fn push_name(names: &mut Vec<String>, name: String)
    ensures
        name_views(final(names)@) == name_views(old(names)@).push(name@),
{
    names.push(name);
    proof {
        assert(name_views(names@) =~= name_views(old(names)@).push(name@));
    }
}

/// A map keyed by name, whose entries stand in the order of their names.
#[derive(Debug, PartialEq, Eq)]
pub struct NameMap<V> {
    keys: Vec<String>,
    values: Vec<V>,
}

impl<V: View> View for NameMap<V> {
    type V = Map<Seq<char>, V::V>;

    /// What the map holds: each name with the view of its value.
    open spec fn view(&self) -> Map<Seq<char>, V::V> {
        value_views(self.bindings())
    }
}

impl<V> NameMap<V> {
    /// The names of the map, in the order in which the entries stand.
    pub closed spec fn names(&self) -> Seq<Seq<char>> {
        name_views(self.keys@)
    }

    /// The values of the map, each at the place of its name.
    pub closed spec fn items(&self) -> Seq<V> {
        self.values@
    }

    /// The values that the names are bound to.
    pub open spec fn bindings(&self) -> Map<Seq<char>, V> {
        entries_map(self.names(), self.items())
    }

    /// Every name has its value, and the names increase strictly.
    #[verifier::type_invariant]
    pub open spec fn well_formed(&self) -> bool {
        &&& self.names().len() == self.items().len()
        &&& strictly_increasing(self.names())
    }
}

impl<V: View> NameMap<V> {
    /// How the names and values, as they stand, make up what the map holds.
    pub proof fn lemma_names(&self)
        requires
            self.well_formed(),
        ensures
            self.names().to_set() == self@.dom(),
            self.names() == sorted_names(self@.dom()),
            forall|i: int|
                0 <= i < self.names().len() ==> self@.contains_key(#[trigger] self.names()[i])
                    && self@[self.names()[i]] == self.items()[i]@,
    {
        lemma_entries_map(self.names(), self.items());
        assert(self.names().to_set() =~= self@.dom()) by {
            assert forall|k: Seq<char>| #[trigger] self.names().to_set().contains(k) implies self@.dom().contains(
                k,
            ) by {
                let j = self.names().index_of(k);
                assert(0 <= j < self.names().len() && self.names()[j] == k);
                assert(self.bindings().contains_key(self.names()[j]));
            }
        }
        lemma_sorted_names(self.names());
    }


    /// The empty map.
    pub fn new() -> (m: Self)
        ensures
            m@ == Map::<Seq<char>, V::V>::empty(),
            m.bindings() == Map::<Seq<char>, V>::empty(),
            m.names() == Seq::<Seq<char>>::empty(),
            m.items() == Seq::<V>::empty(),
            m.well_formed(),
    {
        let m = NameMap { keys: Vec::new(), values: Vec::new() };
        proof {
            assert(m.names() =~= Seq::<Seq<char>>::empty());
            assert(m.bindings() =~= Map::<Seq<char>, V>::empty());
            assert(m@ =~= Map::<Seq<char>, V::V>::empty());
        }
        m
    }

    /// The number of entries.
    pub fn len(&self) -> (n: usize)
        ensures
            n == sorted_names(self@.dom()).len(),
            n == self.names().len(),
            n == self.items().len(),
            self.names() == sorted_names(self@.dom()),
            self.well_formed(),
    {
        proof {
            use_type_invariant(&*self);
            self.lemma_names();
        }
        self.keys.len()
    }

    /// Whether the map has no entry.
    pub fn is_empty(&self) -> (b: bool)
        ensures
            b == (self.names().len() == 0),
            b == (self@ == Map::<Seq<char>, V::V>::empty()),
            self.well_formed(),
    {
        proof {
            use_type_invariant(&*self);
            lemma_entries_map(self.names(), self.items());
            if self.names().len() == 0 {
                assert(self@ =~= Map::<Seq<char>, V::V>::empty());
            } else {
                assert(self@.contains_key(self.names()[0]));
            }
        }
        self.keys.len() == 0
    }

    /// The name at one place.
    pub fn name_at(&self, i: usize) -> (name: &String)
        requires
            i < self.names().len(),
        ensures
            name@ == sorted_names(self@.dom())[i as int],
            name@ == self.names()[i as int],
            self@.contains_key(name@),
            self.well_formed(),
    {
        proof {
            use_type_invariant(&*self);
            lemma_entries_map(self.names(), self.items());
            assert(self.bindings().contains_key(self.names()[i as int]));
            self.lemma_names();
        }
        &self.keys[i]
    }

    /// The value at one place.
    pub fn item_at(&self, i: usize) -> (item: &V)
        requires
            i < self.items().len(),
        ensures
            item@ == self@[sorted_names(self@.dom())[i as int]],
            *item == self.items()[i as int],
            *item == self.bindings()[self.names()[i as int]],
            item@ == self@[self.names()[i as int]],
            self.well_formed(),
    {
        proof {
            use_type_invariant(&*self);
            lemma_entries_map(self.names(), self.items());
            self.lemma_names();
        }
        &self.values[i]
    }

    /// Where `name` stands, or where it would have to be put in.
    fn locate(&self, name: &str) -> (r: (bool, usize))
        ensures
            self.well_formed(),
            r.1 <= self.names().len(),
            r.0 ==> r.1 < self.names().len() && self.names()[r.1 as int] == name@,
            r.0 == self.bindings().contains_key(name@),
            r.0 ==> self.bindings()[name@] == self.items()[r.1 as int],
            forall|j: int| 0 <= j < r.1 ==> name_lt(#[trigger] self.names()[j], name@),
            forall|j: int|
                r.1 <= j < self.names().len() && !(r.0 && j == r.1) ==> name_lt(
                    name@,
                    #[trigger] self.names()[j],
                ),
    {
        proof {
            use_type_invariant(&*self);
            lemma_entries_map(self.names(), self.items());
        }
        let ghost names = self.names();
        let mut lo: usize = 0;
        let mut hi: usize = self.keys.len();
        while lo < hi
            invariant
                names == self.names(),
                self.well_formed(),
                strictly_increasing(names),
                lo <= hi <= names.len(),
                names.len() == self.keys@.len(),
                forall|j: int| 0 <= j < lo ==> name_lt(#[trigger] names[j], name@),
                forall|j: int| hi <= j < names.len() ==> name_lt(name@, #[trigger] names[j]),
            decreases hi - lo,
        {
            let mid = lo + (hi - lo) / 2;
            let key = &self.keys[mid];
            assert(key@ == names[mid as int]);
            match order_names(key.as_str(), name) {
                NameOrder::Before => {
                    proof {
                        assert forall|j: int| 0 <= j < mid + 1 implies name_lt(
                            #[trigger] names[j],
                            name@,
                        ) by {
                            if j < mid {
                                assert(name_lt(names[j], names[mid as int]));
                                lemma_name_lt_transitive(names[j], names[mid as int], name@);
                            }
                        }
                    }
                    lo = mid + 1;
                },
                NameOrder::After => {
                    proof {
                        assert forall|j: int| mid <= j < names.len() implies name_lt(
                            name@,
                            #[trigger] names[j],
                        ) by {
                            if mid < j {
                                assert(name_lt(names[mid as int], names[j]));
                                lemma_name_lt_transitive(name@, names[mid as int], names[j]);
                            }
                        }
                    }
                    hi = mid;
                },
                NameOrder::Same => {
                    proof {
                        assert forall|j: int| 0 <= j < mid implies name_lt(
                            #[trigger] names[j],
                            name@,
                        ) by {
                            assert(name_lt(names[j], names[mid as int]));
                        }
                        assert forall|j: int| mid < j < names.len() implies name_lt(
                            name@,
                            #[trigger] names[j],
                        ) by {
                            assert(name_lt(names[mid as int], names[j]));
                        }
                        lemma_entries_map(self.names(), self.items());
                        assert(self.bindings().contains_key(names[mid as int]));
                    }
                    return (true, mid);
                },
            }
        }
        proof {
            if self.bindings().contains_key(name@) {
                assert(names.contains(name@));
                let i = names.index_of(name@);
                lemma_name_lt_irreflexive(name@);
                if i < lo {
                    assert(name_lt(names[i], name@));
                } else {
                    assert(name_lt(name@, names[i]));
                }
            }
        }
        (false, lo)
    }

    /// Whether `name` is bound.
    pub fn contains_key(&self, name: &str) -> (b: bool)
        ensures
            b == self@.contains_key(name@),
    {
        self.locate(name).0
    }

    /// The value that `name` is bound to, if it is bound.
    pub fn get(&self, name: &str) -> (r: Option<&V>)
        ensures
            r is Some == self@.contains_key(name@),
            r is Some ==> r->0@ == self@[name@] && *r->0 == self.bindings()[name@],
    {
        let (found, at) = self.locate(name);
        if found {
            Some(&self.values[at])
        } else {
            None
        }
    }

    /// Binds `name` to `value`, and returns what it was bound to before.
    pub fn insert(&mut self, name: String, value: V) -> (previous: Option<V>)
        ensures
            final(self)@ == old(self)@.insert(name@, value@),
            final(self).bindings() == old(self).bindings().insert(name@, value),
            previous is Some == old(self)@.contains_key(name@),
            previous is Some ==> previous->0@ == old(self)@[name@] && previous->0 == old(
                self,
            ).bindings()[name@],
            final(self).well_formed(),
    {
        let (found, at) = self.locate(name.as_str());
        let ghost names = self.names();
        let ghost items = self.items();
        let mut taken = NameMap::new();
        std::mem::swap(&mut taken, self);
        let NameMap { keys, values } = taken;
        let mut keys = keys;
        let mut values = values;
        let previous = if found {
            let old_value = values.remove(at);
            values.insert(at, value);
            proof {
                lemma_entries_remove(names, items, at as int);
                lemma_entries_insert(
                    names.remove(at as int),
                    items.remove(at as int),
                    at as int,
                    name@,
                    value,
                );
                assert(names.remove(at as int).insert(at as int, name@) =~= names);
                assert(entries_map(names, items).remove(name@).insert(name@, value)
                    =~= entries_map(names, items).insert(name@, value));
            }
            Some(old_value)
        } else {
            keys.insert(at, name);
            values.insert(at, value);
            proof {
                lemma_entries_insert(names, items, at as int, name@, value);
            }
            None
        };
        proof {
            let rebuilt_names = name_views(keys@);
            if found {
                assert(rebuilt_names =~= names);
            } else {
                assert(rebuilt_names =~= names.insert(at as int, name@));
            }
        }
        *self = NameMap { keys, values };
        proof {
            assert(self@ =~= value_views(entries_map(names, items)).insert(name@, value@));
        }
        previous
    }

    /// Unbinds `name`, and returns what it was bound to.
    pub fn remove(&mut self, name: &str) -> (previous: Option<V>)
        ensures
            final(self)@ == old(self)@.remove(name@),
            final(self).bindings() == old(self).bindings().remove(name@),
            previous is Some == old(self)@.contains_key(name@),
            previous is Some ==> previous->0@ == old(self)@[name@] && previous->0 == old(
                self,
            ).bindings()[name@],
            final(self).well_formed(),
    {
        let (found, at) = self.locate(name);
        if !found {
            proof {
                assert(self.bindings().remove(name@) =~= self.bindings());
                assert(self@.remove(name@) =~= self@);
            }
            return None;
        }
        let ghost names = self.names();
        let ghost items = self.items();
        let mut taken = NameMap::new();
        std::mem::swap(&mut taken, self);
        let NameMap { keys, values } = taken;
        let mut keys = keys;
        let mut values = values;
        keys.remove(at);
        let old_value = values.remove(at);
        proof {
            lemma_entries_remove(names, items, at as int);
        }
        proof {
            let rebuilt_names = name_views(keys@);
            assert(rebuilt_names =~= names.remove(at as int));
        }
        *self = NameMap { keys, values };
        proof {
            assert(self@ =~= value_views(entries_map(names, items)).remove(name@));
        }
        Some(old_value)
    }

    /// The place at which `name` stands, if it is bound.
    pub fn position(&self, name: &str) -> (r: Option<usize>)
        ensures
            r is Some == self@.contains_key(name@),
            r is Some ==> r->0 < self.names().len() && self.names()[r->0 as int] == name@
                && self.items()[r->0 as int] == self.bindings()[name@] && self.items()[r->0 as int]@
                == self@[name@],
            self.well_formed(),
    {
        let (found, at) = self.locate(name);
        if found {
            Some(at)
        } else {
            None
        }
    }

    /// Puts `value` in the place of the value at `i`, and returns that one.
    pub fn replace_at(&mut self, i: usize, value: V) -> (previous: V)
        requires
            i < old(self).names().len(),
        ensures
            previous == old(self).items()[i as int],
            final(self).names() == old(self).names(),
            final(self).items() == old(self).items().update(i as int, value),
            final(self).bindings() == old(self).bindings().insert(
                old(self).names()[i as int],
                value,
            ),
            final(self)@ == old(self)@.insert(old(self).names()[i as int], value@),
            final(self).well_formed(),
    {
        proof {
            use_type_invariant(&*self);
        }
        let ghost names = self.names();
        let ghost items = self.items();
        let mut taken = NameMap::new();
        std::mem::swap(&mut taken, self);
        let NameMap { keys, values } = taken;
        let mut values = values;
        values.push(value);
        let previous = values.swap_remove(i);
        proof {
            assert(values@ =~= items.update(i as int, value));
            lemma_entries_map(names, items);
            lemma_entries_map(names, values@);
            let m = entries_map(names, items).insert(names[i as int], value);
            let m2 = entries_map(names, values@);
            assert forall|k: Seq<char>| #[trigger] m.contains_key(k) implies m2.contains_key(k)
                && m2[k] == m[k] by {
                assert(names.contains(k));
                let j = names.index_of(k);
                assert(0 <= j < names.len() && names[j] == k);
                assert(m2[names[j]] == values@[j]);
                assert(entries_map(names, items)[names[j]] == items[j]);
                if j != i && names[j] == names[i as int] {
                    lemma_increasing_distinct(names, j, i as int);
                }
            }
            assert forall|k: Seq<char>| #[trigger] m2.contains_key(k) implies m.contains_key(k) by {
                assert(names.contains(k));
                let j = names.index_of(k);
                assert(0 <= j < names.len() && names[j] == k);
                assert(entries_map(names, items).contains_key(names[j]));
            }
            assert(m2 =~= m);
        }
        *self = NameMap { keys, values };
        proof {
            assert(self@ =~= value_views(entries_map(names, items)).insert(names[i as int], value@));
        }
        previous
    }

    /// Keeps the entries whose names are in `keep`, and returns the others.
    pub fn split_by(&mut self, keep: &NameSet) -> (others: NameMap<V>)
        ensures
            final(self)@ == old(self)@.restrict(keep@),
            others@ == old(self)@.remove_keys(keep@),
            final(self).bindings() == old(self).bindings().restrict(keep@),
            others.bindings() == old(self).bindings().remove_keys(keep@),
            final(self).well_formed(),
            others.well_formed(),
    {
        proof {
            use_type_invariant(&*self);
            lemma_entries_map(self.names(), self.items());
        }
        let ghost before = self.bindings();
        let mut taken = NameMap::new();
        std::mem::swap(&mut taken, self);
        let NameMap { keys, values } = taken;
        let mut keys = keys;
        let mut values = values;
        let mut gone_keys: Vec<String> = Vec::new();
        let mut gone_values: Vec<V> = Vec::new();
        proof {
            lemma_entries_map(name_views(gone_keys@), gone_values@);
        }
        let mut i: usize = 0;
        while i < keys.len()
            invariant
                i <= keys@.len(),
                keys@.len() == values@.len(),
                gone_keys@.len() == gone_values@.len(),
                strictly_increasing(name_views(keys@)),
                strictly_increasing(name_views(gone_keys@)),
                forall|j: int| 0 <= j < i ==> keep@.contains(#[trigger] name_views(keys@)[j]),
                forall|g: int, j: int|
                    0 <= g < gone_keys@.len() && i <= j < keys@.len() ==> name_lt(
                        #[trigger] name_views(gone_keys@)[g],
                        #[trigger] name_views(keys@)[j],
                    ),
                forall|k: Seq<char>| #[trigger]
                    entries_map(name_views(keys@), values@).contains_key(k) ==> before.contains_key(
                        k,
                    ) && entries_map(name_views(keys@), values@)[k] == before[k],
                forall|k: Seq<char>| #[trigger]
                    entries_map(name_views(gone_keys@), gone_values@).contains_key(k)
                        ==> before.contains_key(k) && !keep@.contains(k) && entries_map(
                        name_views(gone_keys@),
                        gone_values@,
                    )[k] == before[k],
                forall|k: Seq<char>| #[trigger]
                    before.contains_key(k) ==> entries_map(
                        name_views(keys@),
                        values@,
                    ).contains_key(k) || (!keep@.contains(k) && entries_map(
                        name_views(gone_keys@),
                        gone_values@,
                    ).contains_key(k)),
            decreases keys@.len() - i,
        {
            let ghost names = name_views(keys@);
            let ghost items = values@;
            let ghost gone_names = name_views(gone_keys@);
            let ghost gone_items = gone_values@;
            if keep.contains(keys[i].as_str()) {
                i += 1;
            } else {
                let key = keys.remove(i);
                let value = values.remove(i);
                proof {
                    assert(key@ == names[i as int]);
                    lemma_entries_map(names, items);
                    assert(entries_map(names, items).contains_key(names[i as int]));
                    assert(entries_map(names, items)[names[i as int]] == value);
                    lemma_entries_remove(names, items, i as int);
                    assert(name_views(keys@) =~= names.remove(i as int));
                    assert forall|j: int| 0 <= j < gone_names.len() implies name_lt(
                        #[trigger] gone_names[j],
                        key@,
                    ) by {
                        assert(name_lt(gone_names[j], names[i as int]));
                    }
                    lemma_entries_insert(
                        gone_names,
                        gone_items,
                        gone_names.len() as int,
                        key@,
                        value,
                    );
                    assert(gone_names.insert(gone_names.len() as int, key@) =~= gone_names.push(
                        key@,
                    ));
                    assert(gone_items.insert(gone_items.len() as int, value) =~= gone_items.push(
                        value,
                    ));
                }
                gone_keys.push(key);
                gone_values.push(value);
                proof {
                    let names2 = name_views(keys@);
                    let gone2 = name_views(gone_keys@);
                    assert(gone2 =~= gone_names.push(key@));
                    assert forall|j: int| 0 <= j < i implies keep@.contains(
                        #[trigger] names2[j],
                    ) by {
                        assert(names2[j] == names[j]);
                    }
                    assert forall|g: int, j: int|
                        0 <= g < gone2.len() && i <= j < names2.len() implies name_lt(
                        #[trigger] gone2[g],
                        #[trigger] names2[j],
                    ) by {
                        assert(names2[j] == names[j + 1]);
                        if g < gone_names.len() {
                            assert(gone2[g] == gone_names[g]);
                            assert(name_lt(gone_names[g], names[j + 1]));
                        } else {
                            assert(gone2[g] == names[i as int]);
                            assert(name_lt(names[i as int], names[j + 1]));
                        }
                    }
                }
            }
        }
        proof {
            let names = name_views(keys@);
            let gone_names = name_views(gone_keys@);
            let kept = entries_map(names, values@);
            let gone = entries_map(gone_names, gone_values@);
            lemma_entries_map(names, values@);
            assert forall|k: Seq<char>| #[trigger] kept.contains_key(k) implies keep@.contains(
                k,
            ) by {
                assert(names.contains(k));
                let j = names.index_of(k);
                assert(0 <= j < names.len() && names[j] == k);
            }
            assert(kept =~= before.restrict(keep@));
            assert(gone =~= before.remove_keys(keep@));
        }
        *self = NameMap { keys, values };
        let others = NameMap { keys: gone_keys, values: gone_values };
        proof {
            assert(self@ =~= value_views(before).restrict(keep@));
            assert(others@ =~= value_views(before).remove_keys(keep@));
        }
        others
    }

    /// Keeps the entries whose names are in `keep`, and drops the others.
    pub fn retain_in(&mut self, keep: &NameSet)
        ensures
            final(self)@ == old(self)@.restrict(keep@),
            final(self).bindings() == old(self).bindings().restrict(keep@),
            final(self).well_formed(),
    {
        let _ = self.split_by(keep);
    }
}

} // verus!
