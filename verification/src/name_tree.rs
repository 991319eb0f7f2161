//! Maps of two levels: a name, then a name under it, then a value.

use vstd::prelude::*;
use crate::name_map::lemma_entries_map;
use crate::name_map::NameMap;
use crate::name_set::lemma_prefix_set_start;
use crate::name_set::lemma_prefix_set_step;
use crate::name_set::lemma_prefix_set_whole;
use crate::name_set::prefix_set;
use crate::name_set::NameSet;
use crate::packages::key_set;

verus! {

/// The tree with `value` bound under `outer`, then `inner`. What else stands
/// under `outer` stays.
pub open spec fn tree_insert<V>(
    tree: Map<Seq<char>, Map<Seq<char>, V>>,
    outer: Seq<char>,
    inner: Seq<char>,
    value: V,
) -> Map<Seq<char>, Map<Seq<char>, V>> {
    let under = if tree.contains_key(outer) {
        tree[outer]
    } else {
        Map::empty()
    };
    tree.insert(outer, under.insert(inner, value))
}

/// The tree with every second-level map cut down to the names in `keep`.
pub open spec fn tree_restrict_inner<V>(
    tree: Map<Seq<char>, Map<Seq<char>, V>>,
    keep: Set<Seq<char>>,
) -> Map<Seq<char>, Map<Seq<char>, V>> {
    tree.map_values(|inner: Map<Seq<char>, V>| inner.restrict(keep))
}

/// Binds `value` under `outer`, then `inner`.
pub fn insert_nested<V: View>(
    tree: &mut NameMap<NameMap<V>>,
    outer: String,
    inner: String,
    value: V,
)
    ensures
        final(tree)@ == tree_insert(old(tree)@, outer@, inner@, value@),
{
    let ghost before = tree@;
    match tree.position(outer.as_str()) {
        Some(i) => {
            let mut under = tree.replace_at(i, NameMap::new());
            under.insert(inner, value);
            tree.replace_at(i, under);
        },
        None => {
            let mut under = NameMap::new();
            under.insert(inner, value);
            tree.insert(outer, under);
        },
    }
    proof {
        assert(tree@ =~= tree_insert(before, outer@, inner@, value@));
    }
}

/// Cuts every second-level map down to the names in `keep`.
pub fn retain_nested<V: View>(tree: &mut NameMap<NameMap<V>>, keep: &NameSet)
    ensures
        final(tree)@ == tree_restrict_inner(old(tree)@, keep@),
{
    let ghost names = tree.names();
    let ghost items = tree.items();
    let n = tree.len();
    let mut i: usize = 0;
    while i < n
        invariant
            i <= n,
            n == names.len(),
            tree.names() == names,
            tree.items().len() == n,
            items.len() == n,
            tree.well_formed(),
            forall|j: int| 0 <= j < i ==> (#[trigger] tree.items()[j])@ == items[j]@.restrict(keep@),
            forall|j: int| i <= j < n ==> #[trigger] tree.items()[j] == items[j],
        decreases n - i,
    {
        let mut under = tree.replace_at(i, NameMap::new());
        under.retain_in(keep);
        tree.replace_at(i, under);
        i += 1;
    }
    proof {
        let before = old(tree)@;
        let after = tree@;
        let expected = tree_restrict_inner(before, keep@);
        lemma_entries_map(names, items);
        lemma_entries_map(names, tree.items());
        assert forall|k: Seq<char>| #[trigger] expected.contains_key(k) implies after.contains_key(k)
            && after[k] == expected[k] by {
            assert(names.contains(k));
            let j = names.index_of(k);
            assert(0 <= j < names.len() && names[j] == k);
            assert(tree.bindings()[names[j]] == tree.items()[j]);
            assert(old(tree).bindings()[names[j]] == items[j]);
        }
        assert forall|k: Seq<char>| #[trigger] after.contains_key(k) implies expected.contains_key(
            k,
        ) by {
            assert(names.contains(k));
            let j = names.index_of(k);
            assert(0 <= j < names.len() && names[j] == k);
            assert(old(tree).bindings().contains_key(names[j]));
        }
        assert(after =~= expected);
    }
}

/// For each second-level map, the names that it binds and that are not in
/// `keep`.
pub open spec fn tree_names_outside<W>(
    tree: Map<Seq<char>, Map<Seq<char>, W>>,
    keep: Set<Seq<char>>,
) -> Map<Seq<char>, Set<Seq<char>>> {
    tree.map_values(|inner: Map<Seq<char>, W>| inner.dom().difference(keep))
}

/// The names that a map binds and that are not in `keep`.
pub fn names_outside<V: View>(map: &NameMap<V>, keep: &NameSet) -> (outside: NameSet)
    ensures
        outside@ == map@.dom().difference(keep@),
{
    key_set(map).difference(keep)
}

/// For each second-level map, the names that it binds and that are not in
/// `keep`.
pub fn nested_names_outside<V: View>(tree: &NameMap<NameMap<V>>, keep: &NameSet) -> (outside:
    NameMap<NameSet>)
    ensures
        outside@ == tree_names_outside(tree@, keep@),
{
    let n = tree.len();
    let ghost names = tree.names();
    let ghost all = tree_names_outside(tree@, keep@);
    let mut outside: NameMap<NameSet> = NameMap::new();
    proof {
        lemma_prefix_set_start(names);
        assert(outside@ =~= all.restrict(prefix_set(names, 0)));
    }
    let mut i: usize = 0;
    while i < n
        invariant
            i <= n,
            n == names.len(),
            names == tree.names(),
            tree.items().len() == n,
            tree.well_formed(),
            all == tree_names_outside(tree@, keep@),
            outside@ == all.restrict(prefix_set(names, i as int)),
        decreases n - i,
    {
        let name = tree.name_at(i);
        let under = tree.item_at(i);
        outside.insert(name.clone(), names_outside(under, keep));
        proof {
            lemma_prefix_set_step(names, i as int);
            assert(outside@ =~= all.restrict(prefix_set(names, i as int + 1)));
        }
        i += 1;
    }
    proof {
        lemma_prefix_set_whole(names);
        tree.lemma_names();
        assert(all.restrict(names.to_set()) =~= all);
    }
    outside
}

} // verus!
