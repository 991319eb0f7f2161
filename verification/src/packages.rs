//! Packages, as the dots in module names imply them.

use vstd::prelude::*;
use vstd::string::StrSliceExecFns;
use crate::name_map::lemma_entries_map;
use crate::name_map::NameMap;
use crate::name_set::lemma_prefix_set_start;
use crate::name_set::lemma_prefix_set_step;
use crate::name_set::lemma_prefix_set_whole;
use crate::name_set::prefix_set;
use crate::name_set::NameSet;

verus! {

/// `package` is a parent package of `module`: the name of the module is the
/// name of the package, a dot, and more.
pub open spec fn is_parent_package(package: Seq<char>, module: Seq<char>) -> bool {
    &&& package.len() < module.len()
    &&& module[package.len() as int] == '.'
    &&& module.subrange(0, package.len() as int) == package
}

/// The parent packages of one module.
pub open spec fn parent_packages(module: Seq<char>) -> Set<Seq<char>> {
    Set::new(|package: Seq<char>| is_parent_package(package, module))
}

/// The parent packages of the modules of a set.
pub open spec fn derived_packages(modules: Set<Seq<char>>) -> Set<Seq<char>> {
    Set::new(
        |package: Seq<char>|
            exists|module: Seq<char>|
                modules.contains(module) && #[trigger] is_parent_package(package, module),
    )
}

/// The characters of a string.
pub fn chars_of(text: &str) -> (chars: Vec<char>)
    ensures
        chars@ == text@,
{
    let mut chars: Vec<char> = Vec::new();
    for c in it: text.chars()
        invariant
            chars@ == it.seq().subrange(0, it.index() as int),
    {
        chars.push(c);
    }
    chars
}

/// The parent packages of one module: for `a.b.c` they are `a` and `a.b`.
pub fn packages_from_module_name(module: &str) -> (packages: NameSet)
    ensures
        packages@ == parent_packages(module@),
        packages.well_formed(),
{
    let chars = chars_of(module);
    let mut packages = NameSet::new();
    let n = chars.len();
    let mut i: usize = 0;
    proof {
        assert(packages@ =~= Set::new(
            |p: Seq<char>| is_parent_package(p, module@) && p.len() < 0,
        ));
    }
    while i < n
        invariant
            i <= n,
            n == chars@.len(),
            chars@ == module@,
            packages.well_formed(),
            packages@ == Set::new(|p: Seq<char>| is_parent_package(p, module@) && p.len() < i),
        decreases n - i,
    {
        if chars[i] == '.' {
            let package = module.substring_char(0, i).to_owned();
            packages.insert(package);
        }
        proof {
            assert(packages@ =~= Set::new(
                |p: Seq<char>| is_parent_package(p, module@) && p.len() < i + 1,
            ));
        }
        i += 1;
    }
    proof {
        assert(packages@ =~= parent_packages(module@));
    }
    packages
}

/// The parent packages of the modules of a set.
pub fn packages_from_module_names(modules: &NameSet) -> (packages: NameSet)
    ensures
        packages@ == derived_packages(modules@),
        packages.well_formed(),
{
    let mut packages = NameSet::new();
    let n = modules.len();
    let ghost names = modules.names();
    proof {
        lemma_prefix_set_start(names);
        assert(packages@ =~= derived_packages(prefix_set(names, 0)));
    }
    let mut i: usize = 0;
    while i < n
        invariant
            i <= n,
            n == names.len(),
            names == modules.names(),
            modules.well_formed(),
            packages.well_formed(),
            packages@ == derived_packages(prefix_set(names, i as int)),
        decreases n - i,
    {
        let found = packages_from_module_name(modules.name_at(i).as_str());
        let ghost before = packages@;
        packages.extend_from(&found);
        proof {
            lemma_prefix_set_step(names, i as int);
            let shorter = prefix_set(names, i as int);
            let longer = prefix_set(names, i as int + 1);
            assert forall|p: Seq<char>| #[trigger] packages@.contains(p) implies derived_packages(
                longer,
            ).contains(p) by {
                if before.contains(p) {
                    let m = choose|m: Seq<char>|
                        shorter.contains(m) && #[trigger] is_parent_package(p, m);
                    assert(longer.contains(m) && is_parent_package(p, m));
                } else {
                    assert(longer.contains(names[i as int]) && is_parent_package(
                        p,
                        names[i as int],
                    ));
                }
            }
            assert forall|p: Seq<char>| #[trigger]
                derived_packages(longer).contains(p) implies packages@.contains(p) by {
                let m = choose|m: Seq<char>|
                    longer.contains(m) && #[trigger] is_parent_package(p, m);
                if m == names[i as int] {
                    assert(found@.contains(p));
                } else {
                    assert(shorter.contains(m) && is_parent_package(p, m));
                    assert(before.contains(p));
                }
            }
            assert(packages@ =~= derived_packages(longer));
        }
        i += 1;
    }
    proof {
        lemma_prefix_set_whole(names);
        assert(modules@ =~= names.to_set());
    }
    packages
}

/// The names that a map binds.
pub fn key_set<V: View>(map: &NameMap<V>) -> (keys: NameSet)
    ensures
        keys@ == map@.dom(),
        keys.well_formed(),
{
    let mut keys = NameSet::new();
    let n = map.len();
    let ghost names = map.names();
    proof {
        lemma_prefix_set_start(names);
    }
    let mut i: usize = 0;
    while i < n
        invariant
            i <= n,
            n == names.len(),
            names == map.names(),
            keys.well_formed(),
            keys@ == prefix_set(names, i as int),
        decreases n - i,
    {
        keys.insert(map.name_at(i).clone());
        proof {
            lemma_prefix_set_step(names, i as int);
        }
        i += 1;
    }
    proof {
        lemma_prefix_set_whole(names);
        lemma_entries_map(map.names(), map.items());
        assert(names.to_set() =~= map@.dom()) by {
            assert forall|k: Seq<char>| #[trigger] names.to_set().contains(k) implies map@.dom().contains(
                k,
            ) by {
                let j = names.index_of(k);
                assert(0 <= j < names.len() && names[j] == k);
                assert(map.bindings().contains_key(names[j]));
            }
        }
    }
    keys
}

} // verus!
