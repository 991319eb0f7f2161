//! What is put right once every rule has been taken: parent packages that
//! nobody asked for, extension modules that no build can do without, and
//! extension modules that the platform cannot take.

use vstd::prelude::*;
use vstd::string::StringExecFns;
use crate::audit::contains_text;
use crate::audit::occurs_in;
use crate::name_map::lemma_entries_map;
use crate::name_map::NameMap;
use crate::name_set::lemma_prefix_set_start;
use crate::name_set::lemma_prefix_set_step;
use crate::name_set::lemma_prefix_set_whole;
use crate::name_set::prefix_set;
use crate::name_set::NameSet;
use crate::packages::derived_packages;
use crate::packages::chars_of;
use crate::packages::key_set;
use crate::packages::packages_from_module_names;
use crate::resource::BytecodeOptimizationLevel;
use crate::resource::BytecodeRequest;
use crate::resource::BytecodeRequestView;
use crate::resource::ExtensionModule;
use crate::resource::ExtensionModuleView;
use crate::working_set::WorkingSet;
use crate::working_set::WorkingSetView;

verus! {

/// The request that stands for a package that nobody asked for: no source,
/// no optimisation, a package.
pub open spec fn empty_package_request() -> BytecodeRequestView {
    BytecodeRequestView {
        source: Seq::empty(),
        optimize_level: BytecodeOptimizationLevel::Zero,
        is_package: true,
    }
}

/// The requests, and an empty package for each name of `packages` that has
/// no request.
pub open spec fn fill_missing(
    requests: Map<Seq<char>, BytecodeRequestView>,
    packages: Set<Seq<char>>,
) -> Map<Seq<char>, BytecodeRequestView> {
    Map::new(
        |k: Seq<char>| requests.contains_key(k) || packages.contains(k),
        |k: Seq<char>|
            if requests.contains_key(k) {
                requests[k]
            } else {
                empty_package_request()
            },
    )
}

/// The requests, and an empty package for each parent package of a
/// requested module that has no request of its own.
pub open spec fn with_parent_packages(requests: Map<Seq<char>, BytecodeRequestView>) -> Map<
    Seq<char>,
    BytecodeRequestView,
> {
    fill_missing(requests, derived_packages(requests.dom()))
}

/// The extension modules, and those of the catalogue under the names of
/// `names` that every build needs and that are not among them.
pub open spec fn with_required_from(
    extensions: Map<Seq<char>, ExtensionModuleView>,
    catalog: Map<Seq<char>, ExtensionModuleView>,
    names: Set<Seq<char>>,
) -> Map<Seq<char>, ExtensionModuleView> {
    Map::new(
        |k: Seq<char>|
            extensions.contains_key(k) || (names.contains(k) && catalog.contains_key(k)
                && catalog[k].is_always_needed()),
        |k: Seq<char>|
            if extensions.contains_key(k) {
                extensions[k]
            } else {
                catalog[k]
            },
    )
}

/// The extension modules, and those of the catalogue that every build needs
/// and that are not among them.
pub open spec fn with_required_extensions(
    extensions: Map<Seq<char>, ExtensionModuleView>,
    catalog: Map<Seq<char>, ExtensionModuleView>,
) -> Map<Seq<char>, ExtensionModuleView> {
    with_required_from(extensions, catalog, catalog.dom())
}

/// The working set after repair: parent packages filled in, needed
/// extension modules added, then the ignored ones taken out.
pub open spec fn repaired(
    working_set: WorkingSetView,
    catalog: Map<Seq<char>, ExtensionModuleView>,
    ignored: Set<Seq<char>>,
) -> WorkingSetView {
    WorkingSetView {
        bytecode_requests: with_parent_packages(working_set.bytecode_requests),
        extension_modules: with_required_extensions(
            working_set.extension_modules,
            catalog,
        ).remove_keys(ignored),
        ..working_set
    }
}

/// Adds an empty package for each parent package of a requested module
/// that has no request of its own.
pub fn add_missing_parents(requests: &mut NameMap<BytecodeRequest>)
    ensures
        final(requests)@ == with_parent_packages(old(requests)@),
{
    let keys = key_set(requests);
    let packages = packages_from_module_names(&keys);
    let n = packages.len();
    let ghost names = packages.names();
    let ghost before = requests@;
    proof {
        lemma_prefix_set_start(names);
        assert(requests@ =~= fill_missing(before, prefix_set(names, 0)));
    }
    let mut i: usize = 0;
    while i < n
        invariant
            i <= n,
            n == names.len(),
            names == packages.names(),
            packages.well_formed(),
            requests@ == fill_missing(before, prefix_set(names, i as int)),
        decreases n - i,
    {
        let package = packages.name_at(i);
        if !requests.contains_key(package.as_str()) {
            requests.insert(
                package.clone(),
                BytecodeRequest {
                    source: Vec::new(),
                    optimize_level: BytecodeOptimizationLevel::Zero,
                    is_package: true,
                },
            );
        }
        proof {
            lemma_prefix_set_step(names, i as int);
            assert(requests@ =~= fill_missing(before, prefix_set(names, i as int + 1)));
        }
        i += 1;
    }
    proof {
        lemma_prefix_set_whole(names);
        assert(packages@ =~= names.to_set());
    }
}

/// Adds the extension modules of the catalogue that every build needs and
/// that are not there.
pub fn add_required_extensions(
    extensions: &mut NameMap<ExtensionModule>,
    catalog: &NameMap<ExtensionModule>,
)
    ensures
        final(extensions)@ == with_required_extensions(old(extensions)@, catalog@),
{
    let n = catalog.len();
    let ghost names = catalog.names();
    let ghost before = extensions@;
    proof {
        lemma_prefix_set_start(names);
        assert(extensions@ =~= with_required_from(before, catalog@, prefix_set(names, 0)));
    }
    let mut i: usize = 0;
    while i < n
        invariant
            i <= n,
            n == names.len(),
            names == catalog.names(),
            catalog.items().len() == n,
            catalog.well_formed(),
            extensions@ == with_required_from(before, catalog@, prefix_set(names, i as int)),
        decreases n - i,
    {
        let name = catalog.name_at(i);
        let module = catalog.item_at(i);
        if module.is_always_needed() && !extensions.contains_key(name.as_str()) {
            extensions.insert(name.clone(), module.duplicate());
        }
        proof {
            lemma_prefix_set_step(names, i as int);
            assert(extensions@ =~= with_required_from(
                before,
                catalog@,
                prefix_set(names, i as int + 1),
            ));
        }
        i += 1;
    }
    proof {
        lemma_prefix_set_whole(names);
        let whole = with_required_from(before, catalog@, names.to_set());
        let expected = with_required_extensions(before, catalog@);
        lemma_entries_map(catalog.names(), catalog.items());
        assert forall|k: Seq<char>| #[trigger] expected.contains_key(k) implies whole.contains_key(
            k,
        ) by {
            if !before.contains_key(k) {
                assert(catalog.bindings().contains_key(k));
                assert(names.contains(k));
            }
        }
        assert(whole =~= expected);
    }
}

/// Takes out the extension modules whose names are in `ignored`.
pub fn remove_ignored_extensions(extensions: &mut NameMap<ExtensionModule>, ignored: &NameSet)
    ensures
        final(extensions)@ == old(extensions)@.remove_keys(ignored@),
{
    let n = ignored.len();
    let ghost names = ignored.names();
    let ghost before = extensions@;
    proof {
        lemma_prefix_set_start(names);
        assert(extensions@ =~= before.remove_keys(prefix_set(names, 0)));
    }
    let mut i: usize = 0;
    while i < n
        invariant
            i <= n,
            n == names.len(),
            names == ignored.names(),
            ignored.well_formed(),
            extensions@ == before.remove_keys(prefix_set(names, i as int)),
        decreases n - i,
    {
        extensions.remove(ignored.name_at(i).as_str());
        proof {
            lemma_prefix_set_step(names, i as int);
            assert(extensions@ =~= before.remove_keys(prefix_set(names, i as int + 1)));
        }
        i += 1;
    }
    proof {
        lemma_prefix_set_whole(names);
        assert(ignored@ =~= names.to_set());
    }
}

/// The platforms that a binary is built for, as far as the extension
/// modules to leave out differ between them.
#[derive(Debug, Clone, Copy, PartialEq, Eq)]
pub enum TargetPlatform {
    Linux,
    MacOs,
    Other,
}

/// The platform that a target triple names: Linux where it names `linux`
/// and not `android`, macOS where it names `darwin`, else another.
pub open spec fn platform_of(target: Seq<char>) -> TargetPlatform {
    if occurs_in("linux"@, target) && !occurs_in("android"@, target) {
        TargetPlatform::Linux
    } else if occurs_in("darwin"@, target) {
        TargetPlatform::MacOs
    } else {
        TargetPlatform::Other
    }
}

/// The platform that a target triple names.
pub fn target_platform(target: &str) -> (platform: TargetPlatform)
    ensures
        platform == platform_of(target@),
{
    let triple = chars_of(target);
    if contains_text(&triple, &chars_of("linux")) && !contains_text(&triple, &chars_of("android")) {
        TargetPlatform::Linux
    } else if contains_text(&triple, &chars_of("darwin")) {
        TargetPlatform::MacOs
    } else {
        TargetPlatform::Other
    }
}

/// The extension modules that are left out on a platform: they do not link
/// there.
pub open spec fn ignored_extensions(platform: TargetPlatform) -> Set<Seq<char>> {
    match platform {
        TargetPlatform::Linux => set!["_crypt"@, "nis"@],
        TargetPlatform::MacOs => set!["_curses"@, "_curses_panel"@, "readline"@],
        TargetPlatform::Other => Set::empty(),
    }
}

/// The extension modules that are left out on a platform.
pub fn platform_ignored_extensions(platform: TargetPlatform) -> (ignored: NameSet)
    ensures
        ignored@ == ignored_extensions(platform),
        ignored.well_formed(),
{
    let mut ignored = NameSet::new();
    match platform {
        TargetPlatform::Linux => {
            ignored.insert(String::from_str("_crypt"));
            ignored.insert(String::from_str("nis"));
        },
        TargetPlatform::MacOs => {
            ignored.insert(String::from_str("_curses"));
            ignored.insert(String::from_str("_curses_panel"));
            ignored.insert(String::from_str("readline"));
        },
        TargetPlatform::Other => {},
    }
    proof {
        assert(ignored@ =~= ignored_extensions(platform));
    }
    ignored
}

impl WorkingSet {
    /// Repairs the working set, once every rule has been taken.
    pub fn repair(&mut self, catalog: &NameMap<ExtensionModule>, ignored: &NameSet)
        ensures
            final(self)@ == repaired(old(self)@, catalog@, ignored@),
    {
        add_missing_parents(&mut self.bytecode_requests);
        add_required_extensions(&mut self.extension_modules, catalog);
        remove_ignored_extensions(&mut self.extension_modules, ignored);
    }
}

} // verus!
