//! From what the rules have yielded to the resources that are packaged.

use vstd::prelude::*;
use crate::audit::audit_sources;
use crate::audit::modules_naming_file_attribute;
use crate::materialize::add_packaged;
use crate::materialize::directory_job_views;
use crate::materialize::directory_jobs_for;
use crate::materialize::job_views;
use crate::materialize::jobs_for;
use crate::materialize::packaged;
use crate::materialize::plan_directory_jobs;
use crate::materialize::plan_jobs;
use crate::materialize::same_names;
use crate::materialize::same_nested_names;
use crate::materialize::CompileJob;
use crate::materialize::CompileJobView;
use crate::materialize::CompileMode;
use crate::materialize::DirectoryJobs;
use crate::materialize::DirectoryJobsView;
use crate::name_map::lemma_increasing_distinct;
use crate::name_map::name_views;
use crate::name_map::NameMap;
use crate::name_set::lemma_prefix_set_start;
use crate::name_set::lemma_prefix_set_step;
use crate::name_set::lemma_prefix_set_whole;
use crate::name_set::prefix_set;
use crate::name_set::NameSet;
use crate::packages::derived_packages;
use crate::packages::key_set;
use crate::packages::packages_from_module_names;
use crate::repair::repaired;
use crate::resource::AppRelativeResources;
use crate::resource::AppRelativeView;
use crate::resource::BuiltExtensionModule;
use crate::resource::BuiltExtensionModuleView;
use crate::resource::BytecodeRequest;
use crate::resource::BytecodeRequestView;
use crate::resource::ExtensionModule;
use crate::resource::ExtensionModuleView;
use crate::resource::PackagedModuleBytecode;
use crate::resource::PackagedModuleBytecodeView;
use crate::resource::PackagedModuleSource;
use crate::resource::PackagedModuleSourceView;
use crate::resource::ResourceTree;
use crate::rules::reduce_rules;
use crate::rules::reduced;
use crate::rules::ResolveError;
use crate::rules::RuleOutcome;
use crate::working_set::directory_or_empty;
use crate::working_set::removal_views;
use crate::working_set::take_directory;
use crate::working_set::FilterRemovals;
use crate::working_set::FilterRemovalsView;
use crate::working_set::WorkingSet;
use crate::working_set::WorkingSetView;

verus! {

/// The resources that go into the binary.
#[derive(Debug, PartialEq, Eq)]
pub struct EmbeddedPythonResources {
    pub module_sources: NameMap<PackagedModuleSource>,
    pub module_bytecodes: NameMap<PackagedModuleBytecode>,
    /// The names of all modules: those with source, with bytecode, and the
    /// built extension modules.
    pub all_modules: NameSet,
    /// The names of all packages.
    pub all_packages: NameSet,
    pub resources: NameMap<NameMap<Vec<u8>>>,
    pub extension_modules: NameMap<ExtensionModule>,
    pub built_extension_modules: NameMap<BuiltExtensionModule>,
}

/// What an `EmbeddedPythonResources` holds.
pub struct EmbeddedView {
    pub module_sources: Map<Seq<char>, PackagedModuleSourceView>,
    pub module_bytecodes: Map<Seq<char>, PackagedModuleBytecodeView>,
    pub all_modules: Set<Seq<char>>,
    pub all_packages: Set<Seq<char>>,
    pub resources: ResourceTree,
    pub extension_modules: Map<Seq<char>, ExtensionModuleView>,
    pub built_extension_modules: Map<Seq<char>, BuiltExtensionModuleView>,
}

impl View for EmbeddedPythonResources {
    type V = EmbeddedView;

    open spec fn view(&self) -> EmbeddedView {
        EmbeddedView {
            module_sources: self.module_sources@,
            module_bytecodes: self.module_bytecodes@,
            all_modules: self.all_modules@,
            all_packages: self.all_packages@,
            resources: self.resources@,
            extension_modules: self.extension_modules@,
            built_extension_modules: self.built_extension_modules@,
        }
    }
}

/// The resources to package with an application.
#[derive(Debug, PartialEq, Eq)]
pub struct PythonResources {
    /// What goes into the binary.
    pub embedded: EmbeddedPythonResources,
    /// What is installed beside the binary, by directory.
    pub app_relative: NameMap<AppRelativeResources>,
    /// The files that were read to find all this out.
    pub read_files: Vec<String>,
    /// The directory into which licence files are written.
    pub license_files_path: Option<String>,
}

/// What a `PythonResources` holds.
pub struct PythonResourcesView {
    pub embedded: EmbeddedView,
    pub app_relative: Map<Seq<char>, AppRelativeView>,
    pub read_files: Seq<Seq<char>>,
    pub license_files_path: Option<Seq<char>>,
}

impl View for PythonResources {
    type V = PythonResourcesView;

    open spec fn view(&self) -> PythonResourcesView {
        PythonResourcesView {
            embedded: self.embedded@,
            app_relative: self.app_relative@,
            read_files: name_views(self.read_files@),
            license_files_path: match self.license_files_path {
                Some(path) => Some(path@),
                None => None,
            },
        }
    }
}

/// What is worth a warning, though it stops nothing.
#[derive(Debug, PartialEq, Eq)]
pub struct Diagnostics {
    /// Packages that the dots in module names imply and that no module is
    /// marked as.
    pub unexpected_packages: NameSet,
    /// Data files that were left out, since no package of their name goes
    /// into the binary.
    pub orphan_resources: NameMap<NameMap<Vec<u8>>>,
    /// Modules whose source names `__file__`, which the embedded importer
    /// does not set.
    pub modules_naming_file_attribute: NameSet,
    /// Built extension modules that were asked for beside the binary and
    /// went into it.
    pub app_relative_built_extensions: Vec<String>,
    /// What each rule that keeps names has taken out, rule by rule.
    pub filtered: Vec<FilterRemovals>,
}

/// What a `Diagnostics` holds.
pub struct DiagnosticsView {
    pub unexpected_packages: Set<Seq<char>>,
    pub orphan_resources: ResourceTree,
    pub modules_naming_file_attribute: Set<Seq<char>>,
    pub app_relative_built_extensions: Seq<Seq<char>>,
    pub filtered: Seq<FilterRemovalsView>,
}

impl View for Diagnostics {
    type V = DiagnosticsView;

    open spec fn view(&self) -> DiagnosticsView {
        DiagnosticsView {
            unexpected_packages: self.unexpected_packages@,
            orphan_resources: self.orphan_resources@,
            modules_naming_file_attribute: self.modules_naming_file_attribute@,
            app_relative_built_extensions: name_views(self.app_relative_built_extensions@),
            filtered: removal_views(self.filtered@),
        }
    }
}

/// The resources to package, and what is worth a warning.
#[derive(Debug, PartialEq, Eq)]
pub struct Resolution {
    pub resources: PythonResources,
    pub diagnostics: Diagnostics,
}

/// What a `Resolution` holds.
pub struct ResolutionView {
    pub resources: PythonResourcesView,
    pub diagnostics: DiagnosticsView,
}

impl View for Resolution {
    type V = ResolutionView;

    open spec fn view(&self) -> ResolutionView {
        ResolutionView { resources: self.resources@, diagnostics: self.diagnostics@ }
    }
}

/// The modules to compile.
#[derive(Debug, Clone, PartialEq, Eq)]
pub struct CompilePlan {
    /// For the binary.
    pub embedded: Vec<CompileJob>,
    /// For the directories beside the binary.
    pub app_relative: Vec<DirectoryJobs>,
}

/// What a `CompilePlan` holds.
pub struct CompilePlanView {
    pub embedded: Seq<CompileJobView>,
    pub app_relative: Seq<DirectoryJobsView>,
}

impl View for CompilePlan {
    type V = CompilePlanView;

    open spec fn view(&self) -> CompilePlanView {
        CompilePlanView {
            embedded: job_views(self.embedded@),
            app_relative: directory_job_views(self.app_relative@),
        }
    }
}

/// What the compiler has given: bytecode by the name of the module.
#[derive(Debug, PartialEq, Eq)]
pub struct CompiledBytecode {
    /// For the binary.
    pub embedded: NameMap<Vec<u8>>,
    /// For the directories beside the binary, by directory.
    pub app_relative: NameMap<NameMap<Vec<u8>>>,
}

/// What a `CompiledBytecode` holds.
pub struct CompiledView {
    pub embedded: Map<Seq<char>, Seq<u8>>,
    pub app_relative: Map<Seq<char>, Map<Seq<char>, Seq<u8>>>,
}

impl View for CompiledBytecode {
    type V = CompiledView;

    open spec fn view(&self) -> CompiledView {
        CompiledView { embedded: self.embedded@, app_relative: self.app_relative@ }
    }
}

/// The working set that the rules make, repaired.
pub open spec fn prepared(
    rules: Seq<RuleOutcome>,
    catalog: Map<Seq<char>, ExtensionModuleView>,
    ignored: Set<Seq<char>>,
) -> Result<WorkingSetView, ResolveError> {
    match reduced(rules) {
        Ok(working_set) => Ok(repaired(working_set, catalog, ignored)),
        Err(e) => Err(e),
    }
}

/// The modules to compile for a working set: those for the binary as code
/// objects, those for the directories beside it as `.pyc` files.
pub open spec fn plan_of(working_set: WorkingSetView) -> CompilePlanView {
    CompilePlanView {
        embedded: jobs_for(working_set.bytecode_requests, CompileMode::Bytecode),
        app_relative: directory_jobs_for(working_set.app_relative_bytecode_requests),
    }
}

/// Whether there is compiled bytecode for the modules that were to be
/// compiled, and for no others.
pub open spec fn compiled_fits(working_set: WorkingSetView, compiled: CompiledView) -> bool {
    &&& working_set.bytecode_requests.dom() == compiled.embedded.dom()
    &&& working_set.app_relative_bytecode_requests.dom() == compiled.app_relative.dom()
    &&& forall|path: Seq<char>| #[trigger]
        working_set.app_relative_bytecode_requests.contains_key(path)
            ==> working_set.app_relative_bytecode_requests[path].dom()
            == compiled.app_relative[path].dom()
}

/// The directories beside the binary, with the compiled modules of the
/// directories in `paths` added. A directory for which modules were to be
/// compiled is there even if nothing else goes into it.
pub open spec fn directories_with_bytecode_from(
    directories: Map<Seq<char>, AppRelativeView>,
    requests: Map<Seq<char>, Map<Seq<char>, BytecodeRequestView>>,
    compiled: Map<Seq<char>, Map<Seq<char>, Seq<u8>>>,
    paths: Set<Seq<char>>,
) -> Map<Seq<char>, AppRelativeView> {
    Map::new(
        |p: Seq<char>| directories.contains_key(p) || (paths.contains(p) && requests.contains_key(p)),
        |p: Seq<char>|
            if paths.contains(p) && requests.contains_key(p) {
                let directory = directory_or_empty(directories, p);
                AppRelativeView {
                    module_bytecodes: directory.module_bytecodes.union_prefer_right(
                        packaged(requests[p], compiled[p]),
                    ),
                    ..directory
                }
            } else {
                directories[p]
            },
    )
}

/// The directories beside the binary, with the compiled modules added.
pub open spec fn directories_with_bytecode(
    directories: Map<Seq<char>, AppRelativeView>,
    requests: Map<Seq<char>, Map<Seq<char>, BytecodeRequestView>>,
    compiled: Map<Seq<char>, Map<Seq<char>, Seq<u8>>>,
) -> Map<Seq<char>, AppRelativeView> {
    directories_with_bytecode_from(directories, requests, compiled, requests.dom())
}

/// The names of the modules that are marked as packages.
pub open spec fn annotated_packages(
    sources: Map<Seq<char>, PackagedModuleSourceView>,
    bytecodes: Map<Seq<char>, PackagedModuleBytecodeView>,
    built: Map<Seq<char>, BuiltExtensionModuleView>,
) -> Set<Seq<char>> {
    Set::new(
        |k: Seq<char>|
            (sources.contains_key(k) && sources[k].is_package) || (bytecodes.contains_key(k)
                && bytecodes[k].is_package) || (built.contains_key(k) && built[k].is_package),
    )
}

/// What goes into the binary, for a repaired working set and the bytecode
/// of its modules.
pub open spec fn embedded_of(working_set: WorkingSetView, compiled: Map<Seq<char>, Seq<u8>>) -> EmbeddedView {
    let bytecodes = packaged(working_set.bytecode_requests, compiled);
    let all_modules = working_set.module_sources.dom().union(bytecodes.dom()).union(
        working_set.built_extension_modules.dom(),
    );
    let all_packages = annotated_packages(
        working_set.module_sources,
        bytecodes,
        working_set.built_extension_modules,
    ).union(derived_packages(all_modules));
    EmbeddedView {
        module_sources: working_set.module_sources,
        module_bytecodes: bytecodes,
        all_modules,
        all_packages,
        resources: working_set.resources.restrict(all_packages),
        extension_modules: working_set.extension_modules,
        built_extension_modules: working_set.built_extension_modules,
    }
}

/// The resources to package and what is worth a warning, for a repaired
/// working set and the bytecode of its modules.
pub open spec fn finalized(working_set: WorkingSetView, compiled: CompiledView) -> ResolutionView {
    let embedded = embedded_of(working_set, compiled.embedded);
    ResolutionView {
        resources: PythonResourcesView {
            embedded,
            app_relative: directories_with_bytecode(
                working_set.app_relative,
                working_set.app_relative_bytecode_requests,
                compiled.app_relative,
            ),
            read_files: working_set.read_files,
            license_files_path: working_set.license_files_path,
        },
        diagnostics: DiagnosticsView {
            unexpected_packages: derived_packages(embedded.all_modules).difference(
                annotated_packages(
                    embedded.module_sources,
                    embedded.module_bytecodes,
                    embedded.built_extension_modules,
                ),
            ),
            orphan_resources: working_set.resources.remove_keys(embedded.all_packages),
            modules_naming_file_attribute: modules_naming_file_attribute(
                working_set.bytecode_requests,
            ),
            app_relative_built_extensions: working_set.app_relative_built_extensions,
            filtered: working_set.filtered,
        },
    }
}

/// What the rules, the catalogue of the distribution, the names that the
/// platform cannot take and the compiled bytecode resolve to.
pub open spec fn resolved(
    rules: Seq<RuleOutcome>,
    catalog: Map<Seq<char>, ExtensionModuleView>,
    ignored: Set<Seq<char>>,
    compiled: CompiledView,
) -> Result<ResolutionView, ResolveError> {
    match prepared(rules, catalog, ignored) {
        Err(e) => Err(e),
        Ok(working_set) => if compiled_fits(working_set, compiled) {
            Ok(finalized(working_set, compiled))
        } else {
            Err(ResolveError::BytecodeCount)
        },
    }
}

/// What tells a package from a module.
pub trait PackageFlag {
    /// Whether this is a package.
    spec fn package_flag(&self) -> bool;

    /// Whether this is a package.
    fn is_package(&self) -> (b: bool)
        ensures
            b == self.package_flag(),
    ;
}

impl PackageFlag for PackagedModuleSource {
    open spec fn package_flag(&self) -> bool {
        self.is_package
    }

    fn is_package(&self) -> (b: bool) {
        self.is_package
    }
}

impl PackageFlag for PackagedModuleBytecode {
    open spec fn package_flag(&self) -> bool {
        self.is_package
    }

    fn is_package(&self) -> (b: bool) {
        self.is_package
    }
}

impl PackageFlag for BuiltExtensionModule {
    open spec fn package_flag(&self) -> bool {
        self.is_package
    }

    fn is_package(&self) -> (b: bool) {
        self.is_package
    }
}

/// The names in a map that are bound to a package.
pub open spec fn packages_in<V: PackageFlag>(modules: Map<Seq<char>, V>) -> Set<Seq<char>> {
    Set::new(|k: Seq<char>| modules.contains_key(k) && modules[k].package_flag())
}

/// Adds the names that are bound to a package to `packages`.
fn add_packages_of<V: View + PackageFlag>(packages: &mut NameSet, modules: &NameMap<V>)
    ensures
        final(packages)@ == old(packages)@.union(packages_in(modules.bindings())),
        final(packages).well_formed(),
{
    let n = modules.len();
    let ghost names = modules.names();
    let ghost all = packages_in(modules.bindings());
    proof {
        lemma_prefix_set_start(names);
        assert(packages@ =~= old(packages)@.union(all.intersect(prefix_set(names, 0))));
    }
    proof {
        use_type_invariant(&*packages);
    }
    let mut i: usize = 0;
    while i < n
        invariant
            i <= n,
            n == names.len(),
            names == modules.names(),
            modules.items().len() == n,
            modules.well_formed(),
            packages.well_formed(),
            all == packages_in(modules.bindings()),
            packages@ == old(packages)@.union(all.intersect(prefix_set(names, i as int))),
        decreases n - i,
    {
        let name = modules.name_at(i);
        let module = modules.item_at(i);
        if module.is_package() {
            packages.insert(name.clone());
        }
        proof {
            lemma_prefix_set_step(names, i as int);
            assert(modules.bindings().contains_key(names[i as int])) by {
                modules.lemma_names();
            }
            assert(packages@ =~= old(packages)@.union(
                all.intersect(prefix_set(names, i as int + 1)),
            ));
        }
        i += 1;
    }
    proof {
        lemma_prefix_set_whole(names);
        modules.lemma_names();
        assert(all.intersect(names.to_set()) =~= all);
    }
}

/// Adds the compiled modules to the directories beside the binary.
fn add_directory_bytecode(
    directories: &mut NameMap<AppRelativeResources>,
    requests: &NameMap<NameMap<BytecodeRequest>>,
    compiled: NameMap<NameMap<Vec<u8>>>,
)
    requires
        requests@.dom() == compiled@.dom(),
        forall|path: Seq<char>| #[trigger]
            requests@.contains_key(path) ==> requests@[path].dom() == compiled@[path].dom(),
    ensures
        final(directories)@ == directories_with_bytecode(old(directories)@, requests@, compiled@),
{
    let mut compiled = compiled;
    let n = requests.len();
    proof {
        use_type_invariant(&compiled);
    }
    let ghost paths = requests.names();
    let ghost given = compiled@;
    let ghost before = directories@;
    proof {
        requests.lemma_names();
        compiled.lemma_names();
        lemma_prefix_set_start(paths);
        assert(directories@ =~= directories_with_bytecode_from(
            before,
            requests@,
            given,
            prefix_set(paths, 0),
        ));
    }
    let mut i: usize = 0;
    while i < n
        invariant
            i <= n,
            n == paths.len(),
            paths == requests.names(),
            paths == compiled.names(),
            requests.items().len() == n,
            compiled.items().len() == n,
            requests.well_formed(),
            compiled.well_formed(),
            requests@.dom() == given.dom(),
            forall|path: Seq<char>| #[trigger]
                requests@.contains_key(path) ==> requests@[path].dom() == given[path].dom(),
            forall|j: int| i <= j < n ==> (#[trigger] compiled.items()[j])@ == given[paths[j]],
            directories@ == directories_with_bytecode_from(
                before,
                requests@,
                given,
                prefix_set(paths, i as int),
            ),
        decreases n - i,
    {
        proof {
            requests.lemma_names();
        }
        let path = requests.name_at(i);
        let under = requests.item_at(i);
        let bytecode = compiled.replace_at(i, NameMap::new());
        let ghost shorter = prefix_set(paths, i as int);
        proof {
            assert(!shorter.contains(paths[i as int])) by {
                if shorter.contains(paths[i as int]) {
                    let head = paths.subrange(0, i as int);
                    let j = head.index_of(paths[i as int]);
                    assert(0 <= j < i && head[j] == paths[i as int]);
                    lemma_increasing_distinct(paths, j, i as int);
                }
            }
            assert(requests@.contains_key(paths[i as int]));
        }
        let mut directory = take_directory(directories, path.as_str());
        add_packaged(&mut directory.module_bytecodes, under, bytecode);
        directories.insert(path.clone(), directory);
        proof {
            lemma_prefix_set_step(paths, i as int);
            assert(directories@ =~= directories_with_bytecode_from(
                before,
                requests@,
                given,
                prefix_set(paths, i as int + 1),
            ));
        }
        i += 1;
    }
    proof {
        lemma_prefix_set_whole(paths);
        requests.lemma_names();
        assert(directories@ =~= directories_with_bytecode(before, requests@, given));
    }
}

impl WorkingSet {
    /// The modules to compile.
    pub fn plan_bytecode(&self) -> (plan: CompilePlan)
        ensures
            plan@ == plan_of(self@),
    {
        CompilePlan {
            embedded: plan_jobs(&self.bytecode_requests, CompileMode::Bytecode),
            app_relative: plan_directory_jobs(&self.app_relative_bytecode_requests),
        }
    }

    /// Makes the resources to package from the working set, repaired, and
    /// the bytecode of its modules. Bytecode for other modules than those
    /// that were to be compiled is refused.
    pub fn finalize(self, compiled: CompiledBytecode) -> (r: Result<Resolution, ResolveError>)
        ensures
            r is Ok <==> compiled_fits(self@, compiled@),
            r is Ok ==> r->Ok_0@ == finalized(self@, compiled@),
            r is Err ==> r->Err_0 == ResolveError::BytecodeCount,
    {
        let ghost start = self@;
        let ghost given = compiled@;
        let WorkingSet {
            extension_modules,
            module_sources,
            bytecode_requests,
            resources,
            built_extension_modules,
            app_relative,
            app_relative_bytecode_requests,
            read_files,
            license_files_path,
            app_relative_built_extensions,
            filtered,
        } = self;
        let CompiledBytecode { embedded, app_relative: beside } = compiled;
        if !same_names(&bytecode_requests, &embedded) {
            return Err(ResolveError::BytecodeCount);
        }
        if !same_nested_names(&app_relative_bytecode_requests, &beside) {
            return Err(ResolveError::BytecodeCount);
        }
        let modules_naming_file_attribute = audit_sources(&bytecode_requests);
        let mut module_bytecodes: NameMap<PackagedModuleBytecode> = NameMap::new();
        add_packaged(&mut module_bytecodes, &bytecode_requests, embedded);
        proof {
            assert(module_bytecodes@ =~= packaged(start.bytecode_requests, given.embedded));
        }
        let mut app_relative = app_relative;
        add_directory_bytecode(&mut app_relative, &app_relative_bytecode_requests, beside);

        let mut all_modules = key_set(&module_sources);
        let with_bytecode = key_set(&module_bytecodes);
        all_modules.extend_from(&with_bytecode);
        let built = key_set(&built_extension_modules);
        all_modules.extend_from(&built);

        let mut annotated = NameSet::new();
        add_packages_of(&mut annotated, &module_sources);
        add_packages_of(&mut annotated, &module_bytecodes);
        add_packages_of(&mut annotated, &built_extension_modules);
        proof {
            assert(annotated@ =~= annotated_packages(
                module_sources@,
                module_bytecodes@,
                built_extension_modules@,
            ));
        }
        let derived = packages_from_module_names(&all_modules);
        let unexpected_packages = derived.difference(&annotated);
        let mut all_packages = annotated;
        all_packages.extend_from(&derived);

        let mut resources = resources;
        let orphan_resources = resources.split_by(&all_packages);

        Ok(
            Resolution {
                resources: PythonResources {
                    embedded: EmbeddedPythonResources {
                        module_sources,
                        module_bytecodes,
                        all_modules,
                        all_packages,
                        resources,
                        extension_modules,
                        built_extension_modules,
                    },
                    app_relative,
                    read_files,
                    license_files_path,
                },
                diagnostics: Diagnostics {
                    unexpected_packages,
                    orphan_resources,
                    modules_naming_file_attribute,
                    app_relative_built_extensions,
                    filtered,
                },
            },
        )
    }
}

/// Makes the working set from what the rules have yielded, and repairs it.
pub fn prepare_working_set(
    rules: Vec<RuleOutcome>,
    catalog: &NameMap<ExtensionModule>,
    ignored: &NameSet,
) -> (r: Result<WorkingSet, ResolveError>)
    ensures
        r is Ok <==> prepared(rules@, catalog@, ignored@) is Ok,
        r is Ok ==> r->Ok_0@ == prepared(rules@, catalog@, ignored@)->Ok_0,
        r is Err ==> r->Err_0 == prepared(rules@, catalog@, ignored@)->Err_0,
{
    match reduce_rules(rules) {
        Ok(working_set) => {
            let mut working_set = working_set;
            working_set.repair(catalog, ignored);
            Ok(working_set)
        },
        Err(e) => Err(e),
    }
}

/// The modules to compile for what the rules have yielded.
pub fn resolve_bytecode_requests(
    rules: Vec<RuleOutcome>,
    catalog: &NameMap<ExtensionModule>,
    ignored: &NameSet,
) -> (r: Result<CompilePlan, ResolveError>)
    ensures
        r is Ok <==> prepared(rules@, catalog@, ignored@) is Ok,
        r is Ok ==> r->Ok_0@ == plan_of(prepared(rules@, catalog@, ignored@)->Ok_0),
        r is Err ==> r->Err_0 == prepared(rules@, catalog@, ignored@)->Err_0,
{
    match prepare_working_set(rules, catalog, ignored) {
        Ok(working_set) => Ok(working_set.plan_bytecode()),
        Err(e) => Err(e),
    }
}

/// Resolves what the packaging rules have yielded to the resources to
/// package: the rules are taken in their order, the working set is
/// repaired, and the compiled bytecode is packaged with it.
pub fn resolve_python_resources(
    rules: Vec<RuleOutcome>,
    catalog: &NameMap<ExtensionModule>,
    ignored: &NameSet,
    compiled: CompiledBytecode,
) -> (r: Result<Resolution, ResolveError>)
    ensures
        r is Ok <==> resolved(rules@, catalog@, ignored@, compiled@) is Ok,
        r is Ok ==> r->Ok_0@ == resolved(rules@, catalog@, ignored@, compiled@)->Ok_0,
        r is Err ==> r->Err_0 == resolved(rules@, catalog@, ignored@, compiled@)->Err_0,
{
    match prepare_working_set(rules, catalog, ignored) {
        Ok(working_set) => working_set.finalize(compiled),
        Err(e) => Err(e),
    }
}

} // verus!
