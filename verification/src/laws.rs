//! What holds of every resolution, whatever the rules.

use vstd::prelude::*;
use crate::blobs::blobs_fit;
use crate::blobs::blobs_of;
use crate::install::install_files;
use crate::materialize::jobs_for;
use crate::materialize::packaged;
use crate::materialize::CompileMode;
use crate::name_map::lemma_increasing_distinct;
use crate::name_map::NameMap;
use crate::packages::derived_packages;
use crate::packages::is_parent_package;
use crate::repair::empty_package_request;
use crate::repair::repaired;
use crate::repair::with_parent_packages;
use crate::resolve::compiled_fits;
use crate::resolve::finalized;
use crate::resolve::prepared;
use crate::resolve::resolved;
use crate::resolve::CompiledView;
use crate::resolve::EmbeddedPythonResources;
use crate::resolve::ResolutionView;
use crate::resource::AppRelativeResources;
use crate::resource::AppRelativeView;
use crate::resource::BytecodeRequest;
use crate::resource::BytecodeRequestView;
use crate::resource::ExtensionModuleView;
use crate::resource::LocationKind;
use crate::resource::PythonResource;
use crate::resource::PythonResourceAction;
use crate::resource::ResourceAction;
use crate::resource::ResourceKind;
use crate::resource::ResourceLocation;
use crate::rules::apply_actions;
use crate::rules::apply_rule;
use crate::rules::apply_rules;
use crate::rules::lemma_apply_actions_error;
use crate::rules::lemma_apply_rules_error;
use crate::rules::license_rule_count;
use crate::rules::reduced;
use crate::rules::ResolveError;
use crate::rules::RuleOutcome;
use crate::working_set::is_supported;
use crate::working_set::shape_name;
use crate::working_set::StructuralError;
use crate::working_set::WorkingSetView;

verus! {

/// The parent of a parent is a parent.
pub proof fn lemma_parent_of_parent(a: Seq<char>, b: Seq<char>, c: Seq<char>)
    requires
        is_parent_package(a, b),
        is_parent_package(b, c),
    ensures
        is_parent_package(a, c),
{
    assert(c[a.len() as int] == c.subrange(0, b.len() as int)[a.len() as int]);
    assert(c.subrange(0, a.len() as int) =~= c.subrange(0, b.len() as int).subrange(
        0,
        a.len() as int,
    ));
}

/// After repair every parent package of a requested module is requested
/// too. A request that repair has added is an empty package.
pub proof fn lemma_parents_are_requested(requests: Map<Seq<char>, BytecodeRequestView>)
    ensures
        forall|module: Seq<char>, package: Seq<char>|
            with_parent_packages(requests).contains_key(module) && #[trigger] is_parent_package(
                package,
                module,
            ) ==> with_parent_packages(requests).contains_key(package),
        forall|name: Seq<char>|
            requests.contains_key(name) ==> #[trigger] with_parent_packages(requests).contains_key(
                name,
            ) && with_parent_packages(requests)[name] == requests[name],
        forall|name: Seq<char>| #[trigger]
            with_parent_packages(requests).contains_key(name) && !requests.contains_key(name)
                ==> with_parent_packages(requests)[name] == empty_package_request(),
{
    let after = with_parent_packages(requests);
    assert forall|module: Seq<char>, package: Seq<char>|
        after.contains_key(module) && #[trigger] is_parent_package(
            package,
            module,
        ) implies after.contains_key(package) by {
        if requests.contains_key(module) {
            assert(derived_packages(requests.dom()).contains(package));
        } else {
            assert(derived_packages(requests.dom()).contains(module));
            let below = choose|below: Seq<char>|
                requests.dom().contains(below) && #[trigger] is_parent_package(module, below);
            lemma_parent_of_parent(package, module, below);
            assert(derived_packages(requests.dom()).contains(package));
        }
    }
}

/// In what is resolved, every parent package of a module with bytecode has
/// bytecode too, and the bytecode of a package that no rule asked for is
/// marked as that of a package.
pub proof fn lemma_bytecode_closed_under_packages(
    working_set: WorkingSetView,
    catalog: Map<Seq<char>, ExtensionModuleView>,
    ignored: Set<Seq<char>>,
    compiled: CompiledView,
)
    ensures
        ({
            let bytecodes = finalized(
                repaired(working_set, catalog, ignored),
                compiled,
            ).resources.embedded.module_bytecodes;
            &&& forall|module: Seq<char>, package: Seq<char>|
                bytecodes.contains_key(module) && #[trigger] is_parent_package(package, module)
                    ==> bytecodes.contains_key(package)
            &&& forall|name: Seq<char>| #[trigger]
                bytecodes.contains_key(name) && !working_set.bytecode_requests.contains_key(name)
                    ==> bytecodes[name].is_package && repaired(
                    working_set,
                    catalog,
                    ignored,
                ).bytecode_requests[name].source == Seq::<u8>::empty()
        }),
{
    lemma_parents_are_requested(working_set.bytecode_requests);
}

/// After repair every extension module of the catalogue that each build
/// needs is there, unless the platform cannot take it; and none that the
/// platform cannot take is there.
pub proof fn lemma_required_extensions(
    working_set: WorkingSetView,
    catalog: Map<Seq<char>, ExtensionModuleView>,
    ignored: Set<Seq<char>>,
)
    ensures
        forall|name: Seq<char>| #[trigger]
            catalog.contains_key(name) && catalog[name].is_always_needed() && !ignored.contains(
                name,
            ) ==> repaired(working_set, catalog, ignored).extension_modules.contains_key(name),
        forall|name: Seq<char>|
            ignored.contains(name) ==> !(#[trigger] repaired(
                working_set,
                catalog,
                ignored,
            ).extension_modules.contains_key(name)),
{
}

/// In what is resolved, the data files of a package go into the binary
/// only if the package does.
pub proof fn lemma_resources_have_packages(working_set: WorkingSetView, compiled: CompiledView)
    ensures
        forall|package: Seq<char>| #[trigger]
            finalized(working_set, compiled).resources.embedded.resources.contains_key(package)
                ==> finalized(working_set, compiled).resources.embedded.all_packages.contains(
                package,
            ),
{
}

/// After a filter, no map that is keyed by the name of a module or of a
/// package binds a name that is not kept.
pub proof fn lemma_filter_keeps_only(working_set: WorkingSetView, keep: Set<Seq<char>>)
    ensures
        ({
            let after = working_set.filter(keep);
            &&& forall|k: Seq<char>| #[trigger]
                after.extension_modules.contains_key(k) ==> keep.contains(k)
            &&& forall|k: Seq<char>| #[trigger]
                after.module_sources.contains_key(k) ==> keep.contains(k)
            &&& forall|k: Seq<char>| #[trigger]
                after.bytecode_requests.contains_key(k) ==> keep.contains(k)
            &&& forall|k: Seq<char>| #[trigger] after.resources.contains_key(k) ==> keep.contains(k)
            &&& forall|k: Seq<char>| #[trigger]
                after.built_extension_modules.contains_key(k) ==> keep.contains(k)
            &&& forall|path: Seq<char>, k: Seq<char>|
                after.app_relative.contains_key(path) && (#[trigger] after.app_relative[path].module_sources.contains_key(
                    k,
                )) ==> keep.contains(k)
            &&& forall|path: Seq<char>, k: Seq<char>|
                after.app_relative.contains_key(path) && (#[trigger] after.app_relative[path].module_bytecodes.contains_key(
                    k,
                )) ==> keep.contains(k)
            &&& forall|path: Seq<char>, k: Seq<char>|
                after.app_relative.contains_key(path) && (#[trigger] after.app_relative[path].resources.contains_key(
                    k,
                )) ==> keep.contains(k)
            &&& forall|path: Seq<char>, k: Seq<char>|
                after.app_relative_bytecode_requests.contains_key(path) && (
                #[trigger] after.app_relative_bytecode_requests[path].contains_key(k))
                    ==> keep.contains(k)
        }),
{
}

/// The name under which a resource goes into the binary, and comes out of
/// it again.
pub open spec fn embedded_key(resource: PythonResource) -> Seq<char> {
    match resource {
        PythonResource::ExtensionModule { name, .. } => name@,
        PythonResource::ModuleSource { name, .. } => name@,
        PythonResource::ModuleBytecodeRequest { name, .. } => name@,
        PythonResource::ModuleBytecode { name, .. } => name@,
        PythonResource::Resource { name, .. } => name@,
        PythonResource::BuiltExtensionModule(module) => module.name@,
    }
}

/// Whether the binary holds something of the kind of `resource` under its
/// name. Data files are held under the name of their package.
pub open spec fn embeds(working_set: WorkingSetView, resource: PythonResource) -> bool {
    match resource {
        PythonResource::ExtensionModule { name, .. } => working_set.extension_modules.contains_key(
            name@,
        ),
        PythonResource::ModuleSource { name, .. } => working_set.module_sources.contains_key(name@),
        PythonResource::ModuleBytecodeRequest { name, .. } => working_set.bytecode_requests.contains_key(
            name@,
        ),
        PythonResource::ModuleBytecode { .. } => false,
        PythonResource::Resource { package, .. } => working_set.resources.contains_key(package@),
        PythonResource::BuiltExtensionModule(module) => working_set.built_extension_modules.contains_key(
            module.name@,
        ),
    }
}

/// Adding a resource to the binary and then removing it leaves the binary
/// without it; removing and then adding leaves the binary with it. This is
/// stated of every kind of resource that can be removed; of a data file,
/// where its package has the same name as the file, since what is removed
/// is the package of that name.
pub proof fn lemma_last_step_counts(working_set: WorkingSetView, resource: PythonResource)
    requires
        resource.spec_kind() != ResourceKind::ModuleBytecode,
        resource matches PythonResource::Resource { package, name, .. } ==> package@ == name@,
    ensures
        ({
            let add = PythonResourceAction {
                action: ResourceAction::Add,
                location: ResourceLocation::Embedded,
                resource,
            };
            let remove = PythonResourceAction {
                action: ResourceAction::Remove,
                location: ResourceLocation::Embedded,
                resource,
            };
            &&& !embeds(working_set.apply(add).apply(remove), resource)
            &&& embeds(working_set.apply(remove).apply(add), resource)
        }),
{
}

/// A step on the source of a module, on a request for its bytecode or on a
/// built extension module leaves what is kept under the same name for the
/// other two as it is.
pub proof fn lemma_kinds_are_kept_apart(working_set: WorkingSetView, entry: PythonResourceAction)
    ensures
        entry.resource is ModuleSource ==> working_set.apply(entry).bytecode_requests
            == working_set.bytecode_requests && working_set.apply(entry).built_extension_modules
            == working_set.built_extension_modules,
        entry.resource is ModuleBytecodeRequest ==> working_set.apply(entry).module_sources
            == working_set.module_sources && working_set.apply(entry).built_extension_modules
            == working_set.built_extension_modules,
        entry.resource is BuiltExtensionModule ==> working_set.apply(entry).module_sources
            == working_set.module_sources && working_set.apply(entry).bytecode_requests
            == working_set.bytecode_requests,
{
}

/// A step that has no place is the error of the steps it stands among,
/// unless one before it is.
pub proof fn lemma_unsupported_action_fails(
    working_set: WorkingSetView,
    actions: Seq<PythonResourceAction>,
    at: int,
)
    requires
        0 <= at < actions.len(),
        !is_supported(
            actions[at].action,
            actions[at].location.spec_kind(),
            actions[at].resource.spec_kind(),
        ),
    ensures
        apply_actions(working_set, actions) is Err,
        apply_actions(working_set, actions.subrange(0, at)) is Ok ==> apply_actions(
            working_set,
            actions,
        )->Err_0 == (StructuralError {
            action: actions[at].action,
            location: actions[at].location.spec_kind(),
            resource: actions[at].resource.spec_kind(),
        }),
{
    let upto = actions.subrange(0, at + 1);
    assert(upto.drop_last() =~= actions.subrange(0, at));
    assert(upto.last() == actions[at]);
    assert(apply_actions(working_set, upto) is Err);
    lemma_apply_actions_error(working_set, actions, at + 1);
}

/// The steps that have no place: a precompiled module, whatever is to be
/// done with it and wherever; whatever is to be removed beside the binary;
/// an extension module of the distribution to be added beside the binary.
pub open spec fn is_structural_error(
    action: ResourceAction,
    location: LocationKind,
    resource: ResourceKind,
) -> bool {
    ||| resource == ResourceKind::ModuleBytecode
    ||| (action == ResourceAction::Remove && location == LocationKind::AppRelative)
    ||| (action == ResourceAction::Add && location == LocationKind::AppRelative && resource
        == ResourceKind::ExtensionModule)
}

/// Rules that ask for a step that has no place resolve to nothing. Where
/// nothing fails before that step, and the rules name no more than one
/// directory for licence files, the error holds the shape of the step; the
/// text of that error begins with the shape.
pub proof fn lemma_structural_rejection(rules: Seq<RuleOutcome>, rule: int, at: int)
    requires
        0 <= rule < rules.len(),
        rules[rule] is Resources,
        0 <= at < rules[rule]->actions@.len(),
        is_structural_error(
            rules[rule]->actions@[at].action,
            rules[rule]->actions@[at].location.spec_kind(),
            rules[rule]->actions@[at].resource.spec_kind(),
        ),
    ensures
        reduced(rules) is Err,
        ({
            let entry = rules[rule]->actions@[at];
            let shape = StructuralError {
                action: entry.action,
                location: entry.location.spec_kind(),
                resource: entry.resource.spec_kind(),
            };
            &&& shape.spec_message().subrange(
                0,
                shape_name(shape.action, shape.location, shape.resource).len() as int,
            ) == shape_name(shape.action, shape.location, shape.resource)
            &&& (apply_rules(WorkingSetView::empty(), rules.subrange(0, rule)) matches Ok(before)
                && license_rule_count(rules) <= 1 && apply_actions(
                before,
                rules[rule]->actions@.subrange(0, at),
            ) is Ok) ==> reduced(rules) == Err::<WorkingSetView, ResolveError>(
                ResolveError::UnsupportedStep(shape),
            )
        }),
{
    let entry = rules[rule]->actions@[at];
    let shape = StructuralError {
        action: entry.action,
        location: entry.location.spec_kind(),
        resource: entry.resource.spec_kind(),
    };
    let name = shape_name(shape.action, shape.location, shape.resource);
    assert(shape.spec_message().subrange(0, name.len() as int) =~= name);
    let start = WorkingSetView::empty();
    let upto = rules.subrange(0, rule + 1);
    assert(upto.drop_last() =~= rules.subrange(0, rule));
    assert(upto.last() == rules[rule]);
    match apply_rules(start, rules.subrange(0, rule)) {
        Ok(before) => {
            lemma_unsupported_action_fails(before, rules[rule]->actions@, at);
            assert(apply_rule(before, rules[rule]) is Err);
        },
        Err(_) => {},
    }
    assert(apply_rules(start, upto) is Err);
    lemma_apply_rules_error(start, rules, rule + 1);
}

/// There is one job for each requested module, under its name, with its
/// source and its optimisation, and jobs for no others. The bytecode that
/// is packaged stands under the names of the requests, one for each, with
/// the package flag of the request and what the compiler gave.
pub proof fn lemma_compile_round_trip(requests: NameMap<BytecodeRequest>, compiled: Map<Seq<char>, Seq<u8>>, mode: CompileMode)
    requires
        requests.well_formed(),
    ensures
        ({
            let jobs = jobs_for(requests@, mode);
            let bytecodes = packaged(requests@, compiled);
            &&& bytecodes.dom() == requests@.dom()
            &&& forall|name: Seq<char>| #[trigger]
                bytecodes.contains_key(name) ==> bytecodes[name].is_package
                    == requests@[name].is_package && bytecodes[name].bytecode == compiled[name]
            &&& forall|i: int|
                0 <= i < jobs.len() ==> requests@.contains_key((#[trigger] jobs[i]).name)
                    && jobs[i].source == requests@[jobs[i].name].source && jobs[i].optimize_level
                    == requests@[jobs[i].name].optimize_level && jobs[i].mode == mode
            &&& forall|i: int, j: int|
                0 <= i < jobs.len() && 0 <= j < jobs.len() && (#[trigger] jobs[i]).name == (
                #[trigger] jobs[j]).name ==> i == j
            &&& forall|name: Seq<char>| #[trigger]
                requests@.contains_key(name) ==> exists|i: int|
                    0 <= i < jobs.len() && (#[trigger] jobs[i]).name == name
        }),
{
    requests.lemma_names();
    let names = requests.names();
    let jobs = jobs_for(requests@, mode);
    assert(packaged(requests@, compiled).dom() =~= requests@.dom());
    assert forall|i: int, j: int|
        0 <= i < jobs.len() && 0 <= j < jobs.len() && (#[trigger] jobs[i]).name == (
        #[trigger] jobs[j]).name implies i == j by {
        lemma_increasing_distinct(names, i, j);
    }
    assert forall|name: Seq<char>| #[trigger] requests@.contains_key(name) implies exists|i: int|
        0 <= i < jobs.len() && (#[trigger] jobs[i]).name == name by {
        assert(names.to_set().contains(name));
        let i = names.index_of(name);
        assert(0 <= i < names.len() && names[i] == name);
        assert(jobs[i].name == name);
    }
}

/// Two maps that hold the same have their entries in the same order,
/// whatever the order in which they were filled.
pub proof fn lemma_same_content_same_order<V: View>(a: NameMap<V>, b: NameMap<V>)
    requires
        a.well_formed(),
        b.well_formed(),
        a@ == b@,
    ensures
        a.names() == b.names(),
        a.items().len() == b.items().len(),
        forall|i: int| 0 <= i < a.items().len() ==> (#[trigger] a.items()[i])@ == b.items()[i]@,
{
    a.lemma_names();
    b.lemma_names();
    assert forall|i: int| 0 <= i < a.items().len() implies (#[trigger] a.items()[i])@
        == b.items()[i]@ by {
        assert(a@.contains_key(a.names()[i]));
        assert(b@[b.names()[i]] == b.items()[i]@);
    }
}

/// What is written for the binary, and what is installed beside it, is
/// the same for resources that hold the same, however they were put
/// together.
pub proof fn lemma_same_resources_same_bytes(
    a: EmbeddedPythonResources,
    b: EmbeddedPythonResources,
    c: AppRelativeResources,
    d: AppRelativeResources,
    tag: Seq<char>,
)
    requires
        a@ == b@,
        c@ == d@,
    ensures
        blobs_fit(a@) == blobs_fit(b@),
        blobs_of(a@) == blobs_of(b@),
        install_files(c@, tag) == install_files(d@, tag),
{
}

/// A step that adds to the binary something that the binary has a place
/// for.
pub open spec fn is_embedded_add(entry: PythonResourceAction) -> bool {
    &&& entry.action == ResourceAction::Add
    &&& entry.location is Embedded
    &&& entry.resource.spec_kind() != ResourceKind::ModuleBytecode
}

/// Whether a step is on a resource of a kind, under a name.
pub open spec fn step_names(entry: PythonResourceAction, kind: ResourceKind, name: Seq<char>) -> bool {
    entry.resource.spec_kind() == kind && embedded_key(entry.resource) == name
}

/// The names under which the steps are on resources of a kind.
pub open spec fn names_of_kind(actions: Seq<PythonResourceAction>, kind: ResourceKind) -> Set<
    Seq<char>,
> {
    Set::new(
        |name: Seq<char>|
            exists|i: int| 0 <= i < actions.len() && #[trigger] step_names(actions[i], kind, name),
    )
}

/// The names of the steps are those of all but the last step, and that of
/// the last.
pub proof fn lemma_names_of_kind_step(actions: Seq<PythonResourceAction>, kind: ResourceKind)
    requires
        actions.len() > 0,
    ensures
        names_of_kind(actions, kind) == names_of_kind(actions.drop_last(), kind).union(
            if actions.last().resource.spec_kind() == kind {
                set![embedded_key(actions.last().resource)]
            } else {
                Set::empty()
            },
        ),
{
    let before = actions.drop_last();
    let last = actions.last();
    let own = if last.resource.spec_kind() == kind {
        set![embedded_key(last.resource)]
    } else {
        Set::<Seq<char>>::empty()
    };
    assert forall|name: Seq<char>| #[trigger]
        names_of_kind(actions, kind).contains(name) implies names_of_kind(before, kind).union(
        own,
    ).contains(name) by {
        let i = choose|i: int| 0 <= i < actions.len() && #[trigger] step_names(actions[i], kind, name);
        if i < before.len() {
            assert(step_names(before[i], kind, name));
        }
    }
    assert forall|name: Seq<char>| #[trigger]
        names_of_kind(before, kind).union(own).contains(name) implies names_of_kind(
        actions,
        kind,
    ).contains(name) by {
        if names_of_kind(before, kind).contains(name) {
            let i = choose|i: int| 0 <= i < before.len() && #[trigger] step_names(before[i], kind, name);
            assert(step_names(actions[i], kind, name));
        } else {
            assert(step_names(actions[actions.len() - 1], kind, name));
        }
    }
    assert(names_of_kind(actions, kind) =~= names_of_kind(before, kind).union(own));
}

/// Steps that only add to the binary all have their place. They leave what
/// is beside the binary, the directory for licence files and the records as
/// they are, and they bind, beside what was bound, the names of the steps.
pub proof fn lemma_embedded_adds(working_set: WorkingSetView, actions: Seq<PythonResourceAction>)
    requires
        forall|i: int| 0 <= i < actions.len() ==> is_embedded_add(#[trigger] actions[i]),
    ensures
        apply_actions(working_set, actions) is Ok,
        ({
            let after = apply_actions(working_set, actions)->Ok_0;
            &&& after.app_relative == working_set.app_relative
            &&& after.app_relative_bytecode_requests == working_set.app_relative_bytecode_requests
            &&& after.license_files_path == working_set.license_files_path
            &&& after.read_files == working_set.read_files
            &&& after.filtered == working_set.filtered
            &&& after.app_relative_built_extensions == working_set.app_relative_built_extensions
            &&& after.extension_modules.dom() == working_set.extension_modules.dom().union(
                names_of_kind(actions, ResourceKind::ExtensionModule),
            )
            &&& after.module_sources.dom() == working_set.module_sources.dom().union(
                names_of_kind(actions, ResourceKind::ModuleSource),
            )
            &&& after.bytecode_requests.dom() == working_set.bytecode_requests.dom().union(
                names_of_kind(actions, ResourceKind::ModuleBytecodeRequest),
            )
        }),
    decreases actions.len(),
{
    if actions.len() == 0 {
        assert(working_set.extension_modules.dom().union(
            names_of_kind(actions, ResourceKind::ExtensionModule),
        ) =~= working_set.extension_modules.dom());
        assert(working_set.module_sources.dom().union(
            names_of_kind(actions, ResourceKind::ModuleSource),
        ) =~= working_set.module_sources.dom());
        assert(working_set.bytecode_requests.dom().union(
            names_of_kind(actions, ResourceKind::ModuleBytecodeRequest),
        ) =~= working_set.bytecode_requests.dom());
    } else {
        let before = actions.drop_last();
        let last = actions.last();
        assert forall|i: int| 0 <= i < before.len() implies is_embedded_add(
            #[trigger] before[i],
        ) by {
            assert(before[i] == actions[i]);
        }
        lemma_embedded_adds(working_set, before);
        assert(is_embedded_add(actions[actions.len() - 1]));
        lemma_names_of_kind_step(actions, ResourceKind::ExtensionModule);
        lemma_names_of_kind_step(actions, ResourceKind::ModuleSource);
        lemma_names_of_kind_step(actions, ResourceKind::ModuleBytecodeRequest);
        let middle = apply_actions(working_set, before)->Ok_0;
        let after = middle.apply(last);
        assert(apply_actions(working_set, actions) == Ok::<WorkingSetView, StructuralError>(after));
        assert(after.extension_modules.dom() =~= working_set.extension_modules.dom().union(
            names_of_kind(actions, ResourceKind::ExtensionModule),
        ));
        assert(after.module_sources.dom() =~= working_set.module_sources.dom().union(
            names_of_kind(actions, ResourceKind::ModuleSource),
        ));
        assert(after.bytecode_requests.dom() =~= working_set.bytecode_requests.dom().union(
            names_of_kind(actions, ResourceKind::ModuleBytecodeRequest),
        ));
    }
}

/// Two rules whose steps only add to the binary, and add the source of at
/// least one module and a request for the bytecode of at least one, resolve
/// where there is bytecode for what was to be compiled. Nothing goes beside
/// the binary, and no directory for licence files is named. The binary
/// holds source and bytecode. Its extension modules are those that the
/// rules added and those of the catalogue that every build needs, without
/// those that the platform cannot take.
pub proof fn lemma_rules_that_only_add(
    first: Seq<PythonResourceAction>,
    second: Seq<PythonResourceAction>,
    rules: Seq<RuleOutcome>,
    catalog: Map<Seq<char>, ExtensionModuleView>,
    ignored: Set<Seq<char>>,
    compiled: CompiledView,
)
    requires
        rules.len() == 2,
        rules[0] matches RuleOutcome::Resources { actions } && actions@ == first,
        rules[1] matches RuleOutcome::Resources { actions } && actions@ == second,
        forall|i: int| 0 <= i < first.len() ==> is_embedded_add(#[trigger] first[i]),
        forall|i: int| 0 <= i < second.len() ==> is_embedded_add(#[trigger] second[i]),
        exists|i: int|
            0 <= i < (first + second).len() && (#[trigger] (first + second)[i]).resource
                is ModuleSource,
        exists|i: int|
            0 <= i < (first + second).len() && (#[trigger] (first + second)[i]).resource
                is ModuleBytecodeRequest,
    ensures
        prepared(rules, catalog, ignored) is Ok,
        ({
            let working_set = prepared(rules, catalog, ignored)->Ok_0;
            let resolution = finalized(working_set, compiled);
            let extensions = resolution.resources.embedded.extension_modules;
            &&& compiled_fits(working_set, compiled) ==> resolved(
                rules,
                catalog,
                ignored,
                compiled,
            ) == Ok::<ResolutionView, ResolveError>(resolution)
            &&& resolution.resources.app_relative == Map::<
                Seq<char>,
                AppRelativeView,
            >::empty()
            &&& resolution.resources.license_files_path is None
            &&& exists|name: Seq<char>| #[trigger]
                resolution.resources.embedded.module_sources.contains_key(name)
            &&& exists|name: Seq<char>| #[trigger]
                resolution.resources.embedded.module_bytecodes.contains_key(name)
            &&& forall|name: Seq<char>| #[trigger]
                extensions.contains_key(name) <==> !ignored.contains(name) && (names_of_kind(
                    first + second,
                    ResourceKind::ExtensionModule,
                ).contains(name) || (catalog.contains_key(name)
                    && catalog[name].is_always_needed()))
        }),
{
    let start = WorkingSetView::empty();
    let all = first + second;
    // The rules, one by one.
    let one = rules.drop_last();
    assert(one.len() == 1);
    assert(one.drop_last() =~= Seq::<RuleOutcome>::empty());
    assert(one.last() == rules[0]);
    assert(rules.last() == rules[1]);
    lemma_embedded_adds(start, first);
    let middle = apply_actions(start, first)->Ok_0;
    assert(apply_rules(start, one.drop_last()) == Ok::<WorkingSetView, ResolveError>(start));
    assert(apply_rule(start, rules[0]) == Ok::<WorkingSetView, ResolveError>(middle));
    assert(apply_rules(start, one) == Ok::<WorkingSetView, ResolveError>(middle));
    lemma_embedded_adds(middle, second);
    let reduced_set = apply_actions(middle, second)->Ok_0;
    assert(apply_rule(middle, rules[1]) == Ok::<WorkingSetView, ResolveError>(reduced_set));
    assert(apply_rules(start, rules) == Ok::<WorkingSetView, ResolveError>(reduced_set));
    assert(license_rule_count(one.drop_last()) == 0);
    assert(license_rule_count(one) == 0);
    assert(license_rule_count(rules) == 0);
    assert(reduced(rules) == Ok::<WorkingSetView, ResolveError>(reduced_set));
    // The names of the steps of both rules.
    lemma_names_of_both(first, second, ResourceKind::ExtensionModule);
    lemma_names_of_both(first, second, ResourceKind::ModuleSource);
    lemma_names_of_both(first, second, ResourceKind::ModuleBytecodeRequest);
    let working_set = repaired(reduced_set, catalog, ignored);
    let resolution = finalized(working_set, compiled);
    assert(resolution.resources.app_relative =~= Map::<
        Seq<char>,
        AppRelativeView,
    >::empty());
    let i = choose|i: int| 0 <= i < all.len() && (#[trigger] all[i]).resource is ModuleSource;
    let source = embedded_key(all[i].resource);
    assert(step_names(all[i], ResourceKind::ModuleSource, source));
    assert(names_of_kind(all, ResourceKind::ModuleSource).contains(source));
    assert(resolution.resources.embedded.module_sources.contains_key(source));
    let j = choose|j: int|
        0 <= j < all.len() && (#[trigger] all[j]).resource is ModuleBytecodeRequest;
    let request = embedded_key(all[j].resource);
    assert(step_names(all[j], ResourceKind::ModuleBytecodeRequest, request));
    assert(names_of_kind(all, ResourceKind::ModuleBytecodeRequest).contains(request));
    assert(reduced_set.bytecode_requests.contains_key(request));
    assert(working_set.bytecode_requests.contains_key(request));
    assert(resolution.resources.embedded.module_bytecodes.contains_key(request));
    assert(reduced_set.extension_modules.dom() =~= names_of_kind(
        all,
        ResourceKind::ExtensionModule,
    ));
}

/// The names of the steps of two runs, one after the other, are those of
/// the one and those of the other.
pub proof fn lemma_names_of_both(
    first: Seq<PythonResourceAction>,
    second: Seq<PythonResourceAction>,
    kind: ResourceKind,
)
    ensures
        names_of_kind(first + second, kind) == names_of_kind(first, kind).union(
            names_of_kind(second, kind),
        ),
{
    let all = first + second;
    assert forall|name: Seq<char>| #[trigger]
        names_of_kind(all, kind).contains(name) implies names_of_kind(first, kind).union(
        names_of_kind(second, kind),
    ).contains(name) by {
        let i = choose|i: int| 0 <= i < all.len() && #[trigger] step_names(all[i], kind, name);
        if i < first.len() {
            assert(step_names(first[i], kind, name));
        } else {
            assert(step_names(second[i - first.len()], kind, name));
        }
    }
    assert forall|name: Seq<char>| #[trigger]
        names_of_kind(first, kind).union(names_of_kind(second, kind)).contains(
            name,
        ) implies names_of_kind(all, kind).contains(name) by {
        if names_of_kind(first, kind).contains(name) {
            let i = choose|i: int| 0 <= i < first.len() && #[trigger] step_names(first[i], kind, name);
            assert(step_names(all[i], kind, name));
        } else {
            let i = choose|i: int|
                0 <= i < second.len() && #[trigger] step_names(second[i], kind, name);
            assert(step_names(all[i + first.len()], kind, name));
        }
    }
    assert(names_of_kind(all, kind) =~= names_of_kind(first, kind).union(
        names_of_kind(second, kind),
    ));
}

} // verus!
