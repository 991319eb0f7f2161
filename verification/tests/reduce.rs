use pyoxidizer::name_set::NameSet;
use pyoxidizer::resource::BuiltExtensionModule;
use pyoxidizer::resource::BytecodeOptimizationLevel;
use pyoxidizer::resource::BytecodeRequest;
use pyoxidizer::resource::ExtensionModule;
use pyoxidizer::resource::LocationKind;
use pyoxidizer::resource::PackagedModuleSource;
use pyoxidizer::resource::PythonResource;
use pyoxidizer::resource::PythonResourceAction;
use pyoxidizer::resource::ResourceAction;
use pyoxidizer::resource::ResourceKind;
use pyoxidizer::resource::ResourceLocation;
use pyoxidizer::rules::parse_resource_names;
use pyoxidizer::rules::reduce_rules;
use pyoxidizer::rules::resolve_filter_include;
use pyoxidizer::rules::NamesFile;
use pyoxidizer::rules::ResolveError;
use pyoxidizer::rules::RuleOutcome;
use pyoxidizer::working_set::supported;
use pyoxidizer::working_set::StructuralError;
use pyoxidizer::working_set::WorkingSet;

fn extension(name: &str) -> ExtensionModule {
    ExtensionModule {
        module: String::from(name),
        init_fn: Some(format!("PyInit_{}", name)),
        builtin_default: false,
        disableable: true,
        required: false,
        variant: String::from("default"),
    }
}

fn built(name: &str, is_package: bool) -> BuiltExtensionModule {
    BuiltExtensionModule {
        name: String::from(name),
        init_fn: format!("PyInit_{}", name),
        object_file_data: vec![vec![1, 2, 3]],
        is_package,
        libraries: vec![String::from("m")],
    }
}

fn source(name: &str, text: &str, is_package: bool) -> PythonResource {
    PythonResource::ModuleSource {
        name: String::from(name),
        source: text.as_bytes().to_vec(),
        is_package,
    }
}

fn request(name: &str, text: &str, is_package: bool) -> PythonResource {
    PythonResource::ModuleBytecodeRequest {
        name: String::from(name),
        source: text.as_bytes().to_vec(),
        optimize_level: BytecodeOptimizationLevel::One,
        is_package,
    }
}

fn bytecode(name: &str) -> PythonResource {
    PythonResource::ModuleBytecode {
        name: String::from(name),
        bytecode: vec![0, 1],
        optimize_level: BytecodeOptimizationLevel::Zero,
        is_package: false,
    }
}

fn data(package: &str, name: &str, content: &[u8]) -> PythonResource {
    PythonResource::Resource {
        package: String::from(package),
        name: String::from(name),
        data: content.to_vec(),
    }
}

fn add(resource: PythonResource) -> PythonResourceAction {
    PythonResourceAction {
        action: ResourceAction::Add,
        location: ResourceLocation::Embedded,
        resource,
    }
}

fn remove(resource: PythonResource) -> PythonResourceAction {
    PythonResourceAction {
        action: ResourceAction::Remove,
        location: ResourceLocation::Embedded,
        resource,
    }
}

fn add_beside(path: &str, resource: PythonResource) -> PythonResourceAction {
    PythonResourceAction {
        action: ResourceAction::Add,
        location: ResourceLocation::AppRelative {
            path: String::from(path),
        },
        resource,
    }
}

fn remove_beside(path: &str, resource: PythonResource) -> PythonResourceAction {
    PythonResourceAction {
        action: ResourceAction::Remove,
        location: ResourceLocation::AppRelative {
            path: String::from(path),
        },
        resource,
    }
}

fn set_of(names: &[&str]) -> NameSet {
    let mut set = NameSet::new();
    for name in names {
        set.insert(String::from(*name));
    }
    set
}

fn names_of(set: &NameSet) -> Vec<String> {
    let mut names = Vec::new();
    for i in 0..set.len() {
        names.push(set.name_at(i).clone());
    }
    names
}

#[test]
fn new_working_set_is_empty() {
    let working_set = WorkingSet::new();
    assert!(working_set.extension_modules.is_empty());
    assert!(working_set.module_sources.is_empty());
    assert!(working_set.bytecode_requests.is_empty());
    assert!(working_set.resources.is_empty());
    assert!(working_set.built_extension_modules.is_empty());
    assert!(working_set.app_relative.is_empty());
    assert!(working_set.app_relative_bytecode_requests.is_empty());
    assert!(working_set.read_files.is_empty());
    assert_eq!(working_set.license_files_path, None);
    assert!(working_set.app_relative_built_extensions.is_empty());
}

#[test]
fn add_and_remove_embedded_extension_module() {
    let mut working_set = WorkingSet::new();
    let module = PythonResource::ExtensionModule {
        name: String::from("_ssl"),
        module: extension("_ssl"),
    };
    assert_eq!(working_set.apply(add(module.clone())), Ok(()));
    assert_eq!(
        working_set.extension_modules.get("_ssl"),
        Some(&extension("_ssl"))
    );
    assert_eq!(working_set.apply(remove(module.clone())), Ok(()));
    assert!(working_set.extension_modules.is_empty());
    assert_eq!(working_set.apply(remove(module)), Ok(()));
    assert!(working_set.extension_modules.is_empty());
}

#[test]
fn add_embedded_extension_module_overwrites() {
    let mut working_set = WorkingSet::new();
    let mut other = extension("_ssl");
    other.variant = String::from("openssl");
    working_set
        .apply(add(PythonResource::ExtensionModule {
            name: String::from("_ssl"),
            module: extension("_ssl"),
        }))
        .unwrap();
    working_set
        .apply(add(PythonResource::ExtensionModule {
            name: String::from("_ssl"),
            module: other.clone(),
        }))
        .unwrap();
    assert_eq!(working_set.extension_modules.len(), 1);
    assert_eq!(working_set.extension_modules.get("_ssl"), Some(&other));
}

#[test]
fn add_and_remove_embedded_module_source() {
    let mut working_set = WorkingSet::new();
    working_set.apply(add(source("foo", "x = 1", false))).unwrap();
    working_set.apply(add(source("pkg", "", true))).unwrap();
    assert_eq!(
        working_set.module_sources.get("foo"),
        Some(&PackagedModuleSource {
            source: b"x = 1".to_vec(),
            is_package: false
        })
    );
    assert_eq!(
        working_set.module_sources.get("pkg"),
        Some(&PackagedModuleSource {
            source: Vec::new(),
            is_package: true
        })
    );
    working_set.apply(remove(source("foo", "", false))).unwrap();
    assert!(!working_set.module_sources.contains_key("foo"));
    assert!(working_set.module_sources.contains_key("pkg"));
    assert!(working_set.bytecode_requests.is_empty());
}

#[test]
fn add_app_relative_module_source_creates_the_directory() {
    let mut working_set = WorkingSet::new();
    working_set
        .apply(add_beside("lib", source("pkg.sub", "y = 2", true)))
        .unwrap();
    working_set
        .apply(add_beside("lib", source("pkg", "", true)))
        .unwrap();
    working_set
        .apply(add_beside("other", source("pkg", "z", false)))
        .unwrap();
    assert!(working_set.module_sources.is_empty());
    assert_eq!(working_set.app_relative.len(), 2);
    let lib = working_set.app_relative.get("lib").unwrap();
    assert_eq!(lib.module_sources.len(), 2);
    assert_eq!(
        lib.module_sources.get("pkg.sub"),
        Some(&PackagedModuleSource {
            source: b"y = 2".to_vec(),
            is_package: true
        })
    );
    assert!(lib.module_bytecodes.is_empty());
    assert!(lib.resources.is_empty());
    let other = working_set.app_relative.get("other").unwrap();
    assert_eq!(
        other.module_sources.get("pkg"),
        Some(&PackagedModuleSource {
            source: b"z".to_vec(),
            is_package: false
        })
    );
}

#[test]
fn add_and_remove_embedded_bytecode_request() {
    let mut working_set = WorkingSet::new();
    working_set.apply(add(request("foo", "x = 1", false))).unwrap();
    assert_eq!(
        working_set.bytecode_requests.get("foo"),
        Some(&BytecodeRequest {
            source: b"x = 1".to_vec(),
            optimize_level: BytecodeOptimizationLevel::One,
            is_package: false
        })
    );
    assert!(working_set.module_sources.is_empty());
    working_set.apply(remove(request("foo", "", true))).unwrap();
    assert!(working_set.bytecode_requests.is_empty());
}

#[test]
fn add_app_relative_bytecode_request() {
    let mut working_set = WorkingSet::new();
    working_set
        .apply(add_beside("lib", request("foo", "x = 1", false)))
        .unwrap();
    working_set
        .apply(add_beside("lib", request("bar", "", true)))
        .unwrap();
    assert!(working_set.bytecode_requests.is_empty());
    assert!(working_set.app_relative.is_empty());
    let lib = working_set.app_relative_bytecode_requests.get("lib").unwrap();
    assert_eq!(lib.len(), 2);
    assert_eq!(lib.get("foo").unwrap().source, b"x = 1".to_vec());
    assert!(lib.get("bar").unwrap().is_package);
}

#[test]
fn add_embedded_resource_is_kept_by_package_and_name() {
    let mut working_set = WorkingSet::new();
    working_set.apply(add(data("pkg", "a.txt", b"A"))).unwrap();
    working_set.apply(add(data("pkg", "b.txt", b"B"))).unwrap();
    working_set.apply(add(data("other", "a.txt", b"C"))).unwrap();
    working_set.apply(add(data("pkg", "a.txt", b"D"))).unwrap();
    assert_eq!(working_set.resources.len(), 2);
    let pkg = working_set.resources.get("pkg").unwrap();
    assert_eq!(pkg.len(), 2);
    assert_eq!(pkg.get("a.txt"), Some(&b"D".to_vec()));
    assert_eq!(pkg.get("b.txt"), Some(&b"B".to_vec()));
    assert_eq!(
        working_set.resources.get("other").unwrap().get("a.txt"),
        Some(&b"C".to_vec())
    );
}

#[test]
fn remove_embedded_resource_removes_the_package_of_that_name() {
    let mut working_set = WorkingSet::new();
    working_set.apply(add(data("pkg", "a.txt", b"A"))).unwrap();
    working_set.apply(add(data("pkg", "pkg", b"B"))).unwrap();
    working_set.apply(add(data("a.txt", "c", b"C"))).unwrap();
    working_set
        .apply(remove(data("pkg", "a.txt", b"")))
        .unwrap();
    assert!(working_set.resources.contains_key("pkg"));
    assert_eq!(working_set.resources.get("pkg").unwrap().len(), 2);
    assert!(!working_set.resources.contains_key("a.txt"));
    working_set.apply(remove(data("zzz", "pkg", b""))).unwrap();
    assert!(working_set.resources.is_empty());
}

#[test]
fn add_app_relative_resource() {
    let mut working_set = WorkingSet::new();
    working_set
        .apply(add_beside("lib", data("pkg", "a.txt", b"A")))
        .unwrap();
    working_set
        .apply(add_beside("lib", data("pkg", "b.txt", b"B")))
        .unwrap();
    assert!(working_set.resources.is_empty());
    let lib = working_set.app_relative.get("lib").unwrap();
    let pkg = lib.resources.get("pkg").unwrap();
    assert_eq!(pkg.get("a.txt"), Some(&b"A".to_vec()));
    assert_eq!(pkg.get("b.txt"), Some(&b"B".to_vec()));
    assert!(lib.module_sources.is_empty());
}

#[test]
fn add_and_remove_built_extension_module() {
    let mut working_set = WorkingSet::new();
    working_set
        .apply(add(PythonResource::BuiltExtensionModule(built("fast", false))))
        .unwrap();
    assert_eq!(
        working_set.built_extension_modules.get("fast"),
        Some(&built("fast", false))
    );
    assert!(working_set.app_relative_built_extensions.is_empty());
    working_set
        .apply(remove(PythonResource::BuiltExtensionModule(built(
            "fast", true,
        ))))
        .unwrap();
    assert!(working_set.built_extension_modules.is_empty());
}

#[test]
fn app_relative_built_extension_module_goes_into_the_binary_with_a_warning() {
    let mut working_set = WorkingSet::new();
    working_set
        .apply(add_beside(
            "lib",
            PythonResource::BuiltExtensionModule(built("fast", false)),
        ))
        .unwrap();
    assert_eq!(
        working_set.built_extension_modules.get("fast"),
        Some(&built("fast", false))
    );
    assert!(working_set.app_relative.is_empty());
    assert_eq!(
        working_set.app_relative_built_extensions,
        vec![String::from("fast")]
    );
}

#[test]
fn the_table_of_supported_steps() {
    let actions = [ResourceAction::Add, ResourceAction::Remove];
    let locations = [LocationKind::Embedded, LocationKind::AppRelative];
    let kinds = [
        ResourceKind::ExtensionModule,
        ResourceKind::ModuleSource,
        ResourceKind::ModuleBytecodeRequest,
        ResourceKind::ModuleBytecode,
        ResourceKind::Resource,
        ResourceKind::BuiltExtensionModule,
    ];
    let mut refused = 0;
    for action in actions.iter() {
        for location in locations.iter() {
            for kind in kinds.iter() {
                let expected = match (action, location, kind) {
                    (_, _, ResourceKind::ModuleBytecode) => false,
                    (ResourceAction::Remove, LocationKind::AppRelative, _) => false,
                    (
                        ResourceAction::Add,
                        LocationKind::AppRelative,
                        ResourceKind::ExtensionModule,
                    ) => false,
                    _ => true,
                };
                assert_eq!(supported(*action, *location, *kind), expected);
                if !expected {
                    refused += 1;
                }
            }
        }
    }
    assert_eq!(refused, 10);
}

#[test]
fn structural_rejection_of_embedded_module_bytecode() {
    let mut working_set = WorkingSet::new();
    working_set.apply(add(source("foo", "x", false))).unwrap();
    let error = working_set.apply(add(bytecode("foo"))).unwrap_err();
    assert_eq!(
        error,
        StructuralError {
            action: ResourceAction::Add,
            location: LocationKind::Embedded,
            resource: ResourceKind::ModuleBytecode,
        }
    );
    assert_eq!(
        error.message(),
        "(Add, Embedded, ModuleBytecode): adding embedded ModuleBytecode not supported"
    );
    assert_eq!(working_set.module_sources.len(), 1);
    assert!(working_set.bytecode_requests.is_empty());
}

#[test]
fn structural_rejection_messages_name_the_shape() {
    let mut working_set = WorkingSet::new();
    let cases = vec![
        (
            remove(bytecode("foo")),
            "(Remove, Embedded, ModuleBytecode): removing embedded ModuleBytecode not supported",
        ),
        (
            add_beside("lib", bytecode("foo")),
            "(Add, AppRelative, ModuleBytecode): adding app-relative ModuleBytecode not supported",
        ),
        (
            remove_beside("lib", bytecode("foo")),
            "(Remove, AppRelative, ModuleBytecode): removing app-relative ModuleBytecode not supported",
        ),
        (
            add_beside(
                "lib",
                PythonResource::ExtensionModule {
                    name: String::from("_ssl"),
                    module: extension("_ssl"),
                },
            ),
            "(Add, AppRelative, ExtensionModule): should not have gotten an app-relative extension module",
        ),
        (
            remove_beside("lib", data("pkg", "a", b"")),
            "(Remove, AppRelative, Resource): should not have gotten an action to remove an app-relative resource",
        ),
        (
            remove_beside("lib", source("foo", "", false)),
            "(Remove, AppRelative, ModuleSource): should not have gotten an action to remove an app-relative resource",
        ),
        (
            remove_beside("lib", request("foo", "", false)),
            "(Remove, AppRelative, ModuleBytecodeRequest): should not have gotten an action to remove an app-relative resource",
        ),
        (
            remove_beside(
                "lib",
                PythonResource::BuiltExtensionModule(built("fast", false)),
            ),
            "(Remove, AppRelative, BuiltExtensionModule): should not have gotten an action to remove an app-relative resource",
        ),
        (
            remove_beside(
                "lib",
                PythonResource::ExtensionModule {
                    name: String::from("_ssl"),
                    module: extension("_ssl"),
                },
            ),
            "(Remove, AppRelative, ExtensionModule): should not have gotten an action to remove an app-relative resource",
        ),
    ];
    for (entry, message) in cases {
        let shape = StructuralError {
            action: entry.action,
            location: entry.location.kind(),
            resource: entry.resource.kind(),
        };
        let error = working_set.apply(entry).unwrap_err();
        assert_eq!(error, shape);
        assert_eq!(error.message(), message);
    }
    assert_eq!(working_set, WorkingSet::new());
}

#[test]
fn the_last_step_on_a_name_counts() {
    let mut first = WorkingSet::new();
    first.apply(add(source("x", "1", false))).unwrap();
    first.apply(remove(source("x", "", false))).unwrap();
    assert!(!first.module_sources.contains_key("x"));

    let mut second = WorkingSet::new();
    second.apply(remove(source("x", "", false))).unwrap();
    second.apply(add(source("x", "1", false))).unwrap();
    assert!(second.module_sources.contains_key("x"));
    assert_ne!(first, second);
}

#[test]
fn filter_cuts_every_map_down() {
    let mut working_set = WorkingSet::new();
    for name in ["os", "sys", "io", "json"].iter() {
        working_set.apply(add(source(name, "s", false))).unwrap();
        working_set.apply(add(request(name, "s", false))).unwrap();
        working_set
            .apply(add_beside("lib", source(name, "s", false)))
            .unwrap();
        working_set
            .apply(add_beside("lib", request(name, "s", false)))
            .unwrap();
        working_set.apply(add(data(name, "f", b"d"))).unwrap();
        working_set
            .apply(add_beside("lib", data(name, "f", b"d")))
            .unwrap();
        working_set
            .apply(add(PythonResource::ExtensionModule {
                name: String::from(*name),
                module: extension(name),
            }))
            .unwrap();
        working_set
            .apply(add(PythonResource::BuiltExtensionModule(built(name, false))))
            .unwrap();
    }
    working_set.filter(&set_of(&["os", "io", "f", "lib", "nothing"]));
    let expected = set_of(&["io", "os"]);
    assert_eq!(
        pyoxidizer::packages::key_set(&working_set.extension_modules),
        expected
    );
    assert_eq!(
        pyoxidizer::packages::key_set(&working_set.module_sources),
        expected
    );
    assert_eq!(
        pyoxidizer::packages::key_set(&working_set.bytecode_requests),
        expected
    );
    assert_eq!(
        pyoxidizer::packages::key_set(&working_set.resources),
        expected
    );
    assert_eq!(
        pyoxidizer::packages::key_set(&working_set.built_extension_modules),
        expected
    );
    assert_eq!(working_set.app_relative.len(), 1);
    let lib = working_set.app_relative.get("lib").unwrap();
    assert_eq!(pyoxidizer::packages::key_set(&lib.module_sources), expected);
    assert_eq!(pyoxidizer::packages::key_set(&lib.resources), expected);
    assert_eq!(
        lib.resources.get("os").unwrap().get("f"),
        Some(&b"d".to_vec())
    );
    let requests = working_set.app_relative_bytecode_requests.get("lib").unwrap();
    assert_eq!(pyoxidizer::packages::key_set(requests), expected);

    let removed = set_of(&["json", "sys"]);
    assert_eq!(working_set.filtered.len(), 1);
    let report = &working_set.filtered[0];
    assert_eq!(report.extension_modules, removed);
    assert_eq!(report.module_sources, removed);
    assert_eq!(report.bytecode_requests, removed);
    assert_eq!(report.resources, removed);
    assert_eq!(report.built_extension_modules, removed);
    assert_eq!(report.app_relative.len(), 1);
    let beside = report.app_relative.get("lib").unwrap();
    assert_eq!(beside.module_sources, removed);
    assert!(beside.module_bytecodes.is_empty());
    assert_eq!(beside.resources, removed);
    assert_eq!(report.app_relative_bytecode_requests.len(), 1);
    assert_eq!(
        report.app_relative_bytecode_requests.get("lib"),
        Some(&removed)
    );

    let nothing = working_set.names_outside(&set_of(&["os", "io"]));
    assert!(nothing.module_sources.is_empty());
    assert!(nothing.app_relative.get("lib").unwrap().resources.is_empty());
    working_set.filter(&set_of(&["os"]));
    assert_eq!(working_set.filtered.len(), 2);
    assert_eq!(working_set.filtered[1].module_sources, set_of(&["io"]));
}

#[test]
fn names_are_read_one_to_a_line() {
    assert_eq!(
        names_of(&parse_resource_names("os\nsys\n# a comment\n\nio\n")),
        vec!["io", "os", "sys"]
    );
    assert_eq!(
        names_of(&parse_resource_names("os\r\nsys\r\nio")),
        vec!["io", "os", "sys"]
    );
    assert!(parse_resource_names("").is_empty());
    assert!(parse_resource_names("\n\n#x\n").is_empty());
    assert_eq!(names_of(&parse_resource_names(" os")), vec![" os"]);
    assert_eq!(names_of(&parse_resource_names("os\r")), vec!["os\r"]);
    assert_eq!(names_of(&parse_resource_names("a\nb\na")), vec!["a", "b"]);
    assert!(parse_resource_names("\r\n").is_empty());
}

#[test]
fn names_to_keep_come_from_files_and_patterns() {
    let files = vec![
        NamesFile {
            path: String::from("names-1"),
            content: String::from("os\nsys\n"),
        },
        NamesFile {
            path: String::from("names-2"),
            content: String::from("# nothing\n"),
        },
    ];
    let globs = vec![
        vec![
            NamesFile {
                path: String::from("g/a"),
                content: String::from(""),
            },
            NamesFile {
                path: String::from("g/b"),
                content: String::from("io\n"),
            },
        ],
        vec![NamesFile {
            path: String::from("h/a"),
            content: String::from("os\n"),
        }],
    ];
    let kept = resolve_filter_include(&files, &globs).unwrap();
    assert_eq!(names_of(&kept.names), vec!["io", "os", "sys"]);
    assert_eq!(
        kept.read_files,
        vec!["names-1", "names-2", "g/a", "g/b", "h/a"]
    );
}

#[test]
fn a_pattern_whose_files_list_no_name_is_an_error() {
    let files = vec![NamesFile {
        path: String::from("names"),
        content: String::from("os\n"),
    }];
    assert_eq!(
        resolve_filter_include(&files, &vec![Vec::new()]),
        Err(ResolveError::EmptyGlob)
    );
    let only_comments = vec![vec![NamesFile {
        path: String::from("g/a"),
        content: String::from("# none\n\n"),
    }]];
    assert_eq!(
        resolve_filter_include(&files, &only_comments),
        Err(ResolveError::EmptyGlob)
    );
    let kept = resolve_filter_include(&Vec::new(), &Vec::new()).unwrap();
    assert!(kept.names.is_empty());
    assert!(kept.read_files.is_empty());
}

#[test]
fn rules_are_taken_in_their_order() {
    let rules = vec![
        RuleOutcome::Resources {
            actions: vec![
                add(source("os", "1", false)),
                add(source("sys", "2", false)),
                add(request("os", "1", false)),
            ],
        },
        RuleOutcome::FilterInclude {
            files: vec![NamesFile {
                path: String::from("names"),
                content: String::from("os\n"),
            }],
            glob_files: Vec::new(),
        },
        RuleOutcome::Resources {
            actions: vec![add(source("json", "3", false))],
        },
        RuleOutcome::WriteLicenseFiles {
            path: String::from("licenses"),
        },
    ];
    let working_set = reduce_rules(rules).unwrap();
    assert_eq!(
        pyoxidizer::packages::key_set(&working_set.module_sources),
        set_of(&["json", "os"])
    );
    assert_eq!(
        pyoxidizer::packages::key_set(&working_set.bytecode_requests),
        set_of(&["os"])
    );
    assert_eq!(working_set.read_files, vec!["names"]);
    assert_eq!(
        working_set.license_files_path,
        Some(String::from("licenses"))
    );
}

#[test]
fn a_step_without_a_place_fails_the_rules() {
    let rules = vec![
        RuleOutcome::Resources {
            actions: vec![add(source("os", "1", false))],
        },
        RuleOutcome::Resources {
            actions: vec![
                add(source("sys", "2", false)),
                add(bytecode("sys")),
                remove_beside("lib", source("sys", "", false)),
            ],
        },
    ];
    assert_eq!(
        reduce_rules(rules),
        Err(ResolveError::UnsupportedStep(StructuralError {
            action: ResourceAction::Add,
            location: LocationKind::Embedded,
            resource: ResourceKind::ModuleBytecode,
        }))
    );
}

#[test]
fn two_directories_for_licence_files_fail_the_rules() {
    let rules = vec![
        RuleOutcome::WriteLicenseFiles {
            path: String::from("a"),
        },
        RuleOutcome::Resources {
            actions: vec![add(bytecode("sys"))],
        },
        RuleOutcome::WriteLicenseFiles {
            path: String::from("b"),
        },
    ];
    assert_eq!(reduce_rules(rules), Err(ResolveError::DuplicateLicenseFiles));
}

#[test]
fn an_empty_pattern_fails_the_rules() {
    let rules = vec![
        RuleOutcome::Resources {
            actions: vec![add(source("os", "1", false))],
        },
        RuleOutcome::FilterInclude {
            files: Vec::new(),
            glob_files: vec![Vec::new()],
        },
    ];
    assert_eq!(reduce_rules(rules), Err(ResolveError::EmptyGlob));
    assert!(reduce_rules(Vec::new()).unwrap() == WorkingSet::new());
}
