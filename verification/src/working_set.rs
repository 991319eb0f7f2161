//! The working set: the resources that the packaging rules have asked for so
//! far, and the table by which one more step changes it.

use vstd::prelude::*;
use vstd::string::StringExecFns;
use crate::name_map::lemma_entries_map;
use crate::name_map::name_views;
use crate::name_map::NameMap;
use crate::name_set::lemma_prefix_set_start;
use crate::name_set::lemma_prefix_set_step;
use crate::name_set::lemma_prefix_set_whole;
use crate::name_set::prefix_set;
use crate::name_set::NameSet;
use crate::name_tree::names_outside;
use crate::name_tree::nested_names_outside;
use crate::name_tree::tree_names_outside;
use crate::name_tree::insert_nested;
use crate::name_tree::retain_nested;
use crate::name_tree::tree_insert;
use crate::name_tree::tree_restrict_inner;
use crate::resource::AppRelativeResources;
use crate::resource::AppRelativeView;
use crate::resource::BuiltExtensionModule;
use crate::resource::BuiltExtensionModuleView;
use crate::resource::BytecodeRequest;
use crate::resource::BytecodeRequestView;
use crate::resource::ExtensionModule;
use crate::resource::ExtensionModuleView;
use crate::resource::LocationKind;
use crate::resource::PackagedModuleSource;
use crate::resource::PackagedModuleSourceView;
use crate::resource::PythonResource;
use crate::resource::PythonResourceAction;
use crate::resource::ResourceAction;
use crate::resource::ResourceKind;
use crate::resource::ResourceLocation;
use crate::resource::ResourceTree;

verus! {

/// Whether the working set has a place for this action on this kind of
/// resource at this sink.
pub open spec fn is_supported(
    action: ResourceAction,
    location: LocationKind,
    resource: ResourceKind,
) -> bool {
    &&& resource != ResourceKind::ModuleBytecode
    &&& !(action == ResourceAction::Remove && location == LocationKind::AppRelative)
    &&& !(action == ResourceAction::Add && location == LocationKind::AppRelative && resource
        == ResourceKind::ExtensionModule)
}

/// Whether the working set has a place for this action on this kind of
/// resource at this sink.
pub fn supported(action: ResourceAction, location: LocationKind, resource: ResourceKind) -> (b:
    bool)
    ensures
        b == is_supported(action, location, resource),
{
    let bytecode = match resource {
        ResourceKind::ModuleBytecode => true,
        _ => false,
    };
    let extension = match resource {
        ResourceKind::ExtensionModule => true,
        _ => false,
    };
    let remove = match action {
        ResourceAction::Remove => true,
        ResourceAction::Add => false,
    };
    let beside = match location {
        LocationKind::AppRelative => true,
        LocationKind::Embedded => false,
    };
    !bytecode && !(remove && beside) && !(!remove && beside && extension)
}

/// A step that the working set has no place for. A rule that asks for one is
/// broken.
#[derive(Debug, Clone, Copy, PartialEq, Eq)]
pub struct StructuralError {
    pub action: ResourceAction,
    pub location: LocationKind,
    pub resource: ResourceKind,
}

/// The name of an action.
pub open spec fn action_name(action: ResourceAction) -> Seq<char> {
    match action {
        ResourceAction::Add => "Add"@,
        ResourceAction::Remove => "Remove"@,
    }
}

/// The name of a sink.
pub open spec fn location_name(location: LocationKind) -> Seq<char> {
    match location {
        LocationKind::Embedded => "Embedded"@,
        LocationKind::AppRelative => "AppRelative"@,
    }
}

/// The name of a kind of resource.
pub open spec fn resource_name(resource: ResourceKind) -> Seq<char> {
    match resource {
        ResourceKind::ExtensionModule => "ExtensionModule"@,
        ResourceKind::ModuleSource => "ModuleSource"@,
        ResourceKind::ModuleBytecodeRequest => "ModuleBytecodeRequest"@,
        ResourceKind::ModuleBytecode => "ModuleBytecode"@,
        ResourceKind::Resource => "Resource"@,
        ResourceKind::BuiltExtensionModule => "BuiltExtensionModule"@,
    }
}

/// How a step is written: its action, its sink and its kind of resource.
pub open spec fn shape_name(
    action: ResourceAction,
    location: LocationKind,
    resource: ResourceKind,
) -> Seq<char> {
    "("@ + action_name(action) + ", "@ + location_name(location) + ", "@ + resource_name(resource)
        + ")"@
}

/// Why a step has no place.
pub open spec fn refusal_reason(
    action: ResourceAction,
    location: LocationKind,
    resource: ResourceKind,
) -> Seq<char> {
    if resource == ResourceKind::ModuleBytecode {
        match (action, location) {
            (ResourceAction::Add, LocationKind::Embedded) => "adding embedded ModuleBytecode not supported"@,
            (ResourceAction::Remove, LocationKind::Embedded) => "removing embedded ModuleBytecode not supported"@,
            (ResourceAction::Add, LocationKind::AppRelative) => "adding app-relative ModuleBytecode not supported"@,
            (ResourceAction::Remove, LocationKind::AppRelative) => "removing app-relative ModuleBytecode not supported"@,
        }
    } else if action == ResourceAction::Remove && location == LocationKind::AppRelative {
        "should not have gotten an action to remove an app-relative resource"@
    } else if action == ResourceAction::Add && location == LocationKind::AppRelative && resource
        == ResourceKind::ExtensionModule {
        "should not have gotten an app-relative extension module"@
    } else {
        "supported"@
    }
}

impl StructuralError {
    /// The text of the error: the shape of the step, then why it has no
    /// place.
    pub open spec fn spec_message(self) -> Seq<char> {
        shape_name(self.action, self.location, self.resource) + ": "@ + refusal_reason(
            self.action,
            self.location,
            self.resource,
        )
    }

    /// The text of the error: the shape of the step, then why it has no
    /// place.
    pub fn message(&self) -> (text: String)
        ensures
            text@ == self.spec_message(),
    {
        let mut text = String::from_str("(");
        text.append(
            match self.action {
                ResourceAction::Add => "Add",
                ResourceAction::Remove => "Remove",
            },
        );
        text.append(", ");
        text.append(
            match self.location {
                LocationKind::Embedded => "Embedded",
                LocationKind::AppRelative => "AppRelative",
            },
        );
        text.append(", ");
        text.append(
            match self.resource {
                ResourceKind::ExtensionModule => "ExtensionModule",
                ResourceKind::ModuleSource => "ModuleSource",
                ResourceKind::ModuleBytecodeRequest => "ModuleBytecodeRequest",
                ResourceKind::ModuleBytecode => "ModuleBytecode",
                ResourceKind::Resource => "Resource",
                ResourceKind::BuiltExtensionModule => "BuiltExtensionModule",
            },
        );
        text.append(")");
        text.append(": ");
        let bytecode = match self.resource {
            ResourceKind::ModuleBytecode => true,
            _ => false,
        };
        let extension = match self.resource {
            ResourceKind::ExtensionModule => true,
            _ => false,
        };
        let reason = match (self.action, self.location) {
            (ResourceAction::Add, LocationKind::Embedded) => if bytecode {
                "adding embedded ModuleBytecode not supported"
            } else {
                "supported"
            },
            (ResourceAction::Remove, LocationKind::Embedded) => if bytecode {
                "removing embedded ModuleBytecode not supported"
            } else {
                "supported"
            },
            (ResourceAction::Add, LocationKind::AppRelative) => if bytecode {
                "adding app-relative ModuleBytecode not supported"
            } else if extension {
                "should not have gotten an app-relative extension module"
            } else {
                "supported"
            },
            (ResourceAction::Remove, LocationKind::AppRelative) => if bytecode {
                "removing app-relative ModuleBytecode not supported"
            } else {
                "should not have gotten an action to remove an app-relative resource"
            },
        };
        text.append(reason);
        text
    }
}

/// The names that a filter has taken out of one directory beside the
/// binary.
#[derive(Debug, PartialEq, Eq)]
pub struct DirectoryRemovals {
    pub module_sources: NameSet,
    pub module_bytecodes: NameSet,
    /// The packages whose data files were taken out.
    pub resources: NameSet,
}

/// What a `DirectoryRemovals` holds.
pub struct DirectoryRemovalsView {
    pub module_sources: Set<Seq<char>>,
    pub module_bytecodes: Set<Seq<char>>,
    pub resources: Set<Seq<char>>,
}

impl View for DirectoryRemovals {
    type V = DirectoryRemovalsView;

    open spec fn view(&self) -> DirectoryRemovalsView {
        DirectoryRemovalsView {
            module_sources: self.module_sources@,
            module_bytecodes: self.module_bytecodes@,
            resources: self.resources@,
        }
    }
}

/// The names that a filter has taken out, map by map.
#[derive(Debug, PartialEq, Eq)]
pub struct FilterRemovals {
    pub extension_modules: NameSet,
    pub module_sources: NameSet,
    pub bytecode_requests: NameSet,
    /// The packages whose data files were taken out.
    pub resources: NameSet,
    pub built_extension_modules: NameSet,
    /// What was taken out beside the binary, by directory.
    pub app_relative: NameMap<DirectoryRemovals>,
    /// The requests for bytecode that were taken out beside the binary, by
    /// directory.
    pub app_relative_bytecode_requests: NameMap<NameSet>,
}

/// What a `FilterRemovals` holds.
pub struct FilterRemovalsView {
    pub extension_modules: Set<Seq<char>>,
    pub module_sources: Set<Seq<char>>,
    pub bytecode_requests: Set<Seq<char>>,
    pub resources: Set<Seq<char>>,
    pub built_extension_modules: Set<Seq<char>>,
    pub app_relative: Map<Seq<char>, DirectoryRemovalsView>,
    pub app_relative_bytecode_requests: Map<Seq<char>, Set<Seq<char>>>,
}

impl View for FilterRemovals {
    type V = FilterRemovalsView;

    open spec fn view(&self) -> FilterRemovalsView {
        FilterRemovalsView {
            extension_modules: self.extension_modules@,
            module_sources: self.module_sources@,
            bytecode_requests: self.bytecode_requests@,
            resources: self.resources@,
            built_extension_modules: self.built_extension_modules@,
            app_relative: self.app_relative@,
            app_relative_bytecode_requests: self.app_relative_bytecode_requests@,
        }
    }
}

/// What a sequence of removals holds.
pub open spec fn removal_views(removals: Seq<FilterRemovals>) -> Seq<FilterRemovalsView> {
    Seq::new(removals.len(), |i: int| removals[i]@)
}

/// The resources that the rules have asked for so far.
#[derive(Debug, PartialEq, Eq)]
pub struct WorkingSet {
    /// Extension modules of the distribution that go into the binary.
    pub extension_modules: NameMap<ExtensionModule>,
    /// Module sources that go into the binary.
    pub module_sources: NameMap<PackagedModuleSource>,
    /// Modules whose bytecode goes into the binary, once compiled.
    pub bytecode_requests: NameMap<BytecodeRequest>,
    /// Data files that go into the binary, by package.
    pub resources: NameMap<NameMap<Vec<u8>>>,
    /// Extension modules built by rules that go into the binary.
    pub built_extension_modules: NameMap<BuiltExtensionModule>,
    /// What is installed beside the binary, by directory.
    pub app_relative: NameMap<AppRelativeResources>,
    /// Modules whose bytecode is installed beside the binary, once compiled,
    /// by directory.
    pub app_relative_bytecode_requests: NameMap<NameMap<BytecodeRequest>>,
    /// The files that were read to find out which names to keep.
    pub read_files: Vec<String>,
    /// The directory into which licence files are written.
    pub license_files_path: Option<String>,
    /// The built extension modules that were asked for beside the binary.
    /// They went into the binary: a build could not yet put them elsewhere.
    pub app_relative_built_extensions: Vec<String>,
    /// What each filter has taken out, filter by filter.
    pub filtered: Vec<FilterRemovals>,
}

/// What a `WorkingSet` holds.
pub struct WorkingSetView {
    pub extension_modules: Map<Seq<char>, ExtensionModuleView>,
    pub module_sources: Map<Seq<char>, PackagedModuleSourceView>,
    pub bytecode_requests: Map<Seq<char>, BytecodeRequestView>,
    pub resources: ResourceTree,
    pub built_extension_modules: Map<Seq<char>, BuiltExtensionModuleView>,
    pub app_relative: Map<Seq<char>, AppRelativeView>,
    pub app_relative_bytecode_requests: Map<Seq<char>, Map<Seq<char>, BytecodeRequestView>>,
    pub read_files: Seq<Seq<char>>,
    pub license_files_path: Option<Seq<char>>,
    pub app_relative_built_extensions: Seq<Seq<char>>,
    pub filtered: Seq<FilterRemovalsView>,
}

/// What a directory beside the binary holds; nothing, where there is none
/// yet.
pub open spec fn directory_or_empty(
    directories: Map<Seq<char>, AppRelativeView>,
    path: Seq<char>,
) -> AppRelativeView {
    if directories.contains_key(path) {
        directories[path]
    } else {
        AppRelativeView::empty()
    }
}

/// The names of a directory that are not in `keep`.
pub open spec fn directory_names_outside(
    d: AppRelativeView,
    keep: Set<Seq<char>>,
) -> DirectoryRemovalsView {
    DirectoryRemovalsView {
        module_sources: d.module_sources.dom().difference(keep),
        module_bytecodes: d.module_bytecodes.dom().difference(keep),
        resources: d.resources.dom().difference(keep),
    }
}

/// For each directory, its names that are not in `keep`.
pub open spec fn directories_names_outside(
    directories: Map<Seq<char>, AppRelativeView>,
    keep: Set<Seq<char>>,
) -> Map<Seq<char>, DirectoryRemovalsView> {
    directories.map_values(|d: AppRelativeView| directory_names_outside(d, keep))
}

/// A directory cut down to the names in `keep`.
pub open spec fn directory_restrict(d: AppRelativeView, keep: Set<Seq<char>>) -> AppRelativeView {
    AppRelativeView {
        module_sources: d.module_sources.restrict(keep),
        module_bytecodes: d.module_bytecodes.restrict(keep),
        resources: d.resources.restrict(keep),
    }
}

impl View for WorkingSet {
    type V = WorkingSetView;

    open spec fn view(&self) -> WorkingSetView {
        WorkingSetView {
            extension_modules: self.extension_modules@,
            module_sources: self.module_sources@,
            bytecode_requests: self.bytecode_requests@,
            resources: self.resources@,
            built_extension_modules: self.built_extension_modules@,
            app_relative: self.app_relative@,
            app_relative_bytecode_requests: self.app_relative_bytecode_requests@,
            read_files: name_views(self.read_files@),
            license_files_path: match self.license_files_path {
                Some(path) => Some(path@),
                None => None,
            },
            app_relative_built_extensions: name_views(self.app_relative_built_extensions@),
            filtered: removal_views(self.filtered@),
        }
    }
}

impl WorkingSetView {
    /// The working set before any rule.
    pub open spec fn empty() -> WorkingSetView {
        WorkingSetView {
            extension_modules: Map::empty(),
            module_sources: Map::empty(),
            bytecode_requests: Map::empty(),
            resources: Map::empty(),
            built_extension_modules: Map::empty(),
            app_relative: Map::empty(),
            app_relative_bytecode_requests: Map::empty(),
            read_files: Seq::empty(),
            license_files_path: None,
            app_relative_built_extensions: Seq::empty(),
            filtered: Seq::empty(),
        }
    }

    /// The working set after one step. A step that has no place leaves it as
    /// it is.
    pub open spec fn apply(self, entry: PythonResourceAction) -> WorkingSetView {
        if !is_supported(entry.action, entry.location.spec_kind(), entry.resource.spec_kind()) {
            self
        } else {
            match entry.resource {
                PythonResource::ExtensionModule { name, module } => match entry.action {
                    ResourceAction::Add => WorkingSetView {
                        extension_modules: self.extension_modules.insert(name@, module@),
                        ..self
                    },
                    ResourceAction::Remove => WorkingSetView {
                        extension_modules: self.extension_modules.remove(name@),
                        ..self
                    },
                },
                PythonResource::ModuleSource { name, source, is_package } => match (
                    entry.action,
                    entry.location,
                ) {
                    (ResourceAction::Add, ResourceLocation::Embedded) => WorkingSetView {
                        module_sources: self.module_sources.insert(
                            name@,
                            PackagedModuleSourceView { source: source@, is_package },
                        ),
                        ..self
                    },
                    (ResourceAction::Add, ResourceLocation::AppRelative { path }) => {
                        let directory = directory_or_empty(self.app_relative, path@);
                        WorkingSetView {
                            app_relative: self.app_relative.insert(
                                path@,
                                AppRelativeView {
                                    module_sources: directory.module_sources.insert(
                                        name@,
                                        PackagedModuleSourceView { source: source@, is_package },
                                    ),
                                    ..directory
                                },
                            ),
                            ..self
                        }
                    },
                    (ResourceAction::Remove, _) => WorkingSetView {
                        module_sources: self.module_sources.remove(name@),
                        ..self
                    },
                },
                PythonResource::ModuleBytecodeRequest {
                    name,
                    source,
                    optimize_level,
                    is_package,
                } => match (entry.action, entry.location) {
                    (ResourceAction::Add, ResourceLocation::Embedded) => WorkingSetView {
                        bytecode_requests: self.bytecode_requests.insert(
                            name@,
                            BytecodeRequestView { source: source@, optimize_level, is_package },
                        ),
                        ..self
                    },
                    (ResourceAction::Add, ResourceLocation::AppRelative { path }) => WorkingSetView {
                        app_relative_bytecode_requests: tree_insert(
                            self.app_relative_bytecode_requests,
                            path@,
                            name@,
                            BytecodeRequestView { source: source@, optimize_level, is_package },
                        ),
                        ..self
                    },
                    (ResourceAction::Remove, _) => WorkingSetView {
                        bytecode_requests: self.bytecode_requests.remove(name@),
                        ..self
                    },
                },
                PythonResource::ModuleBytecode { .. } => self,
                PythonResource::Resource { package, name, data } => match (
                    entry.action,
                    entry.location,
                ) {
                    (ResourceAction::Add, ResourceLocation::Embedded) => WorkingSetView {
                        resources: tree_insert(self.resources, package@, name@, data@),
                        ..self
                    },
                    (ResourceAction::Add, ResourceLocation::AppRelative { path }) => {
                        let directory = directory_or_empty(self.app_relative, path@);
                        WorkingSetView {
                            app_relative: self.app_relative.insert(
                                path@,
                                AppRelativeView {
                                    resources: tree_insert(
                                        directory.resources,
                                        package@,
                                        name@,
                                        data@,
                                    ),
                                    ..directory
                                },
                            ),
                            ..self
                        }
                    },
                    (ResourceAction::Remove, _) => WorkingSetView {
                        resources: self.resources.remove(name@),
                        ..self
                    },
                },
                PythonResource::BuiltExtensionModule(module) => match (
                    entry.action,
                    entry.location,
                ) {
                    (ResourceAction::Add, ResourceLocation::Embedded) => WorkingSetView {
                        built_extension_modules: self.built_extension_modules.insert(
                            module.name@,
                            module@,
                        ),
                        ..self
                    },
                    (ResourceAction::Add, ResourceLocation::AppRelative { path }) => WorkingSetView {
                        built_extension_modules: self.built_extension_modules.insert(
                            module.name@,
                            module@,
                        ),
                        app_relative_built_extensions: self.app_relative_built_extensions.push(
                            module.name@,
                        ),
                        ..self
                    },
                    (ResourceAction::Remove, _) => WorkingSetView {
                        built_extension_modules: self.built_extension_modules.remove(
                            module.name@,
                        ),
                        ..self
                    },
                },
            }
        }
    }

    /// The names that a filter that keeps `keep` takes out, map by map.
    pub open spec fn names_outside(self, keep: Set<Seq<char>>) -> FilterRemovalsView {
        FilterRemovalsView {
            extension_modules: self.extension_modules.dom().difference(keep),
            module_sources: self.module_sources.dom().difference(keep),
            bytecode_requests: self.bytecode_requests.dom().difference(keep),
            resources: self.resources.dom().difference(keep),
            built_extension_modules: self.built_extension_modules.dom().difference(keep),
            app_relative: directories_names_outside(self.app_relative, keep),
            app_relative_bytecode_requests: tree_names_outside(
                self.app_relative_bytecode_requests,
                keep,
            ),
        }
    }

    /// The working set with every map that is keyed by the name of a module
    /// or of a package cut down to the names in `keep`, and with what was
    /// taken out put on record.
    pub open spec fn filter(self, keep: Set<Seq<char>>) -> WorkingSetView {
        WorkingSetView {
            filtered: self.filtered.push(self.names_outside(keep)),
            extension_modules: self.extension_modules.restrict(keep),
            module_sources: self.module_sources.restrict(keep),
            bytecode_requests: self.bytecode_requests.restrict(keep),
            resources: self.resources.restrict(keep),
            built_extension_modules: self.built_extension_modules.restrict(keep),
            app_relative: self.app_relative.map_values(
                |d: AppRelativeView| directory_restrict(d, keep),
            ),
            app_relative_bytecode_requests: tree_restrict_inner(
                self.app_relative_bytecode_requests,
                keep,
            ),
            ..self
        }
    }
}

/// Takes the directory at `path` out, or makes one.
pub fn take_directory(directories: &mut NameMap<AppRelativeResources>, path: &str) -> (directory:
    AppRelativeResources)
    ensures
        directory@ == directory_or_empty(old(directories)@, path@),
        final(directories)@ == old(directories)@.remove(path@),
{
    match directories.remove(path) {
        Some(directory) => directory,
        None => AppRelativeResources::new(),
    }
}

/// For each directory, its names that are not in `keep`.
fn directories_outside(directories: &NameMap<AppRelativeResources>, keep: &NameSet) -> (outside:
    NameMap<DirectoryRemovals>)
    ensures
        outside@ == directories_names_outside(directories@, keep@),
{
    let n = directories.len();
    let ghost names = directories.names();
    let ghost all = directories_names_outside(directories@, keep@);
    let mut outside: NameMap<DirectoryRemovals> = NameMap::new();
    proof {
        lemma_prefix_set_start(names);
        assert(outside@ =~= all.restrict(prefix_set(names, 0)));
    }
    let mut i: usize = 0;
    while i < n
        invariant
            i <= n,
            n == names.len(),
            names == directories.names(),
            directories.items().len() == n,
            directories.well_formed(),
            all == directories_names_outside(directories@, keep@),
            outside@ == all.restrict(prefix_set(names, i as int)),
        decreases n - i,
    {
        let name = directories.name_at(i);
        let directory = directories.item_at(i);
        let removals = DirectoryRemovals {
            module_sources: names_outside(&directory.module_sources, keep),
            module_bytecodes: names_outside(&directory.module_bytecodes, keep),
            resources: names_outside(&directory.resources, keep),
        };
        outside.insert(name.clone(), removals);
        proof {
            lemma_prefix_set_step(names, i as int);
            assert(outside@ =~= all.restrict(prefix_set(names, i as int + 1)));
        }
        i += 1;
    }
    proof {
        lemma_prefix_set_whole(names);
        directories.lemma_names();
        assert(all.restrict(names.to_set()) =~= all);
    }
    outside
}

/// Cuts every directory down to the names in `keep`.
fn retain_directories(directories: &mut NameMap<AppRelativeResources>, keep: &NameSet)
    ensures
        final(directories)@ == old(directories)@.map_values(
            |d: AppRelativeView| directory_restrict(d, keep@),
        ),
{
    let ghost names = directories.names();
    let ghost items = directories.items();
    let n = directories.len();
    let mut i: usize = 0;
    while i < n
        invariant
            i <= n,
            n == names.len(),
            items.len() == n,
            directories.names() == names,
            directories.items().len() == n,
            directories.well_formed(),
            forall|j: int|
                0 <= j < i ==> (#[trigger] directories.items()[j])@ == directory_restrict(
                    items[j]@,
                    keep@,
                ),
            forall|j: int| i <= j < n ==> #[trigger] directories.items()[j] == items[j],
        decreases n - i,
    {
        let mut directory = directories.replace_at(i, AppRelativeResources::new());
        directory.module_sources.retain_in(keep);
        directory.module_bytecodes.retain_in(keep);
        directory.resources.retain_in(keep);
        proof {
            assert(directory@ == directory_restrict(items[i as int]@, keep@));
        }
        directories.replace_at(i, directory);
        i += 1;
    }
    proof {
        let got = directories@;
        let expected = old(directories)@.map_values(
            |d: AppRelativeView| directory_restrict(d, keep@),
        );
        lemma_entries_map(names, items);
        lemma_entries_map(names, directories.items());
        assert forall|k: Seq<char>| #[trigger] expected.contains_key(k) implies got.contains_key(
            k,
        ) && got[k] == expected[k] by {
            assert(names.contains(k));
            let j = names.index_of(k);
            assert(0 <= j < names.len() && names[j] == k);
            assert(directories.bindings()[names[j]] == directories.items()[j]);
            assert(old(directories).bindings()[names[j]] == items[j]);
        }
        assert forall|k: Seq<char>| #[trigger] got.contains_key(k) implies expected.contains_key(
            k,
        ) by {
            assert(names.contains(k));
            let j = names.index_of(k);
            assert(0 <= j < names.len() && names[j] == k);
            assert(old(directories).bindings().contains_key(names[j]));
        }
        assert(got =~= expected);
    }
}

impl WorkingSet {
    /// The working set before any rule.
    pub fn new() -> (working_set: Self)
        ensures
            working_set@ == WorkingSetView::empty(),
    {
        let working_set = WorkingSet {
            extension_modules: NameMap::new(),
            module_sources: NameMap::new(),
            bytecode_requests: NameMap::new(),
            resources: NameMap::new(),
            built_extension_modules: NameMap::new(),
            app_relative: NameMap::new(),
            app_relative_bytecode_requests: NameMap::new(),
            read_files: Vec::new(),
            license_files_path: None,
            app_relative_built_extensions: Vec::new(),
            filtered: Vec::new(),
        };
        proof {
            assert(working_set@.resources =~= Map::empty());
            assert(working_set@.app_relative =~= Map::empty());
            assert(working_set@.app_relative_bytecode_requests =~= Map::empty());
            assert(working_set@.read_files =~= Seq::empty());
            assert(working_set@.app_relative_built_extensions =~= Seq::empty());
            assert(working_set@.filtered =~= Seq::empty());
        }
        working_set
    }

    /// Takes one step. A step that has no place is refused, and the working
    /// set stays as it is.
    pub fn apply(&mut self, entry: PythonResourceAction) -> (r: Result<(), StructuralError>)
        ensures
            final(self)@ == old(self)@.apply(entry),
            r is Ok <==> is_supported(
                entry.action,
                entry.location.spec_kind(),
                entry.resource.spec_kind(),
            ),
            r is Err ==> r->Err_0 == (StructuralError {
                action: entry.action,
                location: entry.location.spec_kind(),
                resource: entry.resource.spec_kind(),
            }),
    {
        let ghost before = self@;
        let ghost after = before.apply(entry);
        let PythonResourceAction { action, location, resource } = entry;
        let place = location.kind();
        let kind = resource.kind();
        if !supported(action, place, kind) {
            return Err(StructuralError { action, location: place, resource: kind });
        }
        match resource {
            PythonResource::ExtensionModule { name, module } => match action {
                ResourceAction::Add => {
                    self.extension_modules.insert(name, module);
                },
                ResourceAction::Remove => {
                    self.extension_modules.remove(name.as_str());
                },
            },
            PythonResource::ModuleSource { name, source, is_package } => match (action, location) {
                (ResourceAction::Add, ResourceLocation::Embedded) => {
                    self.module_sources.insert(name, PackagedModuleSource { source, is_package });
                },
                (ResourceAction::Add, ResourceLocation::AppRelative { path }) => {
                    let mut directory = take_directory(&mut self.app_relative, path.as_str());
                    directory.module_sources.insert(
                        name,
                        PackagedModuleSource { source, is_package },
                    );
                    self.app_relative.insert(path, directory);
                    proof {
                        assert(self@.app_relative =~= after.app_relative);
                    }
                },
                (ResourceAction::Remove, _) => {
                    self.module_sources.remove(name.as_str());
                },
            },
            PythonResource::ModuleBytecodeRequest {
                name,
                source,
                optimize_level,
                is_package,
            } => match (action, location) {
                (ResourceAction::Add, ResourceLocation::Embedded) => {
                    self.bytecode_requests.insert(
                        name,
                        BytecodeRequest { source, optimize_level, is_package },
                    );
                },
                (ResourceAction::Add, ResourceLocation::AppRelative { path }) => {
                    insert_nested(
                        &mut self.app_relative_bytecode_requests,
                        path,
                        name,
                        BytecodeRequest { source, optimize_level, is_package },
                    );
                },
                (ResourceAction::Remove, _) => {
                    self.bytecode_requests.remove(name.as_str());
                },
            },
            PythonResource::ModuleBytecode { .. } => {},
            PythonResource::Resource { package, name, data } => match (action, location) {
                (ResourceAction::Add, ResourceLocation::Embedded) => {
                    insert_nested(&mut self.resources, package, name, data);
                },
                (ResourceAction::Add, ResourceLocation::AppRelative { path }) => {
                    let mut directory = take_directory(&mut self.app_relative, path.as_str());
                    insert_nested(&mut directory.resources, package, name, data);
                    self.app_relative.insert(path, directory);
                    proof {
                        assert(self@.app_relative =~= after.app_relative);
                    }
                },
                (ResourceAction::Remove, _) => {
                    self.resources.remove(name.as_str());
                    proof {
                        assert(self@.resources =~= after.resources);
                    }
                },
            },
            PythonResource::BuiltExtensionModule(module) => match (action, location) {
                (ResourceAction::Add, ResourceLocation::Embedded) => {
                    let name = module.name.clone();
                    self.built_extension_modules.insert(name, module);
                },
                (ResourceAction::Add, ResourceLocation::AppRelative { path }) => {
                    let name = module.name.clone();
                    self.app_relative_built_extensions.push(module.name.clone());
                    self.built_extension_modules.insert(name, module);
                    proof {
                        assert(self@.app_relative_built_extensions
                            =~= after.app_relative_built_extensions);
                    }
                },
                (ResourceAction::Remove, _) => {
                    self.built_extension_modules.remove(module.name.as_str());
                },
            },
        }
        Ok(())
    }

    /// The names that a filter that keeps `keep` would take out, map by map.
    pub fn names_outside(&self, keep: &NameSet) -> (outside: FilterRemovals)
        ensures
            outside@ == self@.names_outside(keep@),
    {
        FilterRemovals {
            extension_modules: names_outside(&self.extension_modules, keep),
            module_sources: names_outside(&self.module_sources, keep),
            bytecode_requests: names_outside(&self.bytecode_requests, keep),
            resources: names_outside(&self.resources, keep),
            built_extension_modules: names_outside(&self.built_extension_modules, keep),
            app_relative: directories_outside(&self.app_relative, keep),
            app_relative_bytecode_requests: nested_names_outside(
                &self.app_relative_bytecode_requests,
                keep,
            ),
        }
    }

    /// Cuts every map that is keyed by the name of a module or of a package
    /// down to the names in `keep`, and puts on record what was taken out.
    pub fn filter(&mut self, keep: &NameSet)
        ensures
            final(self)@ == old(self)@.filter(keep@),
    {
        let ghost before = self@;
        let ghost after = before.filter(keep@);
        let outside = self.names_outside(keep);
        self.filtered.push(outside);
        proof {
            assert(self@.filtered =~= after.filtered);
        }
        self.extension_modules.retain_in(keep);
        self.module_sources.retain_in(keep);
        self.bytecode_requests.retain_in(keep);
        self.resources.retain_in(keep);
        self.built_extension_modules.retain_in(keep);
        retain_nested(&mut self.app_relative_bytecode_requests, keep);
        proof {
            assert(self@.resources =~= after.resources);
        }
        retain_directories(&mut self.app_relative, keep);
    }
}

} // verus!
