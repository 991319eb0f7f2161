use pyoxidizer::materialize::CompileJob;
use pyoxidizer::materialize::CompileMode;
use pyoxidizer::materialize::DirectoryJobs;
use pyoxidizer::name_map::NameMap;
use pyoxidizer::name_set::NameSet;
use pyoxidizer::packages::key_set;
use pyoxidizer::repair::platform_ignored_extensions;
use pyoxidizer::repair::TargetPlatform;
use pyoxidizer::resolve::resolve_bytecode_requests;
use pyoxidizer::resolve::resolve_python_resources;
use pyoxidizer::resolve::CompilePlan;
use pyoxidizer::resolve::CompiledBytecode;
use pyoxidizer::resource::BuiltExtensionModule;
use pyoxidizer::resource::BytecodeOptimizationLevel;
use pyoxidizer::resource::ExtensionModule;
use pyoxidizer::resource::PackagedModuleBytecode;
use pyoxidizer::resource::PackagedModuleSource;
use pyoxidizer::resource::PythonResource;
use pyoxidizer::resource::PythonResourceAction;
use pyoxidizer::resource::ResourceAction;
use pyoxidizer::resource::ResourceLocation;
use pyoxidizer::rules::NamesFile;
use pyoxidizer::rules::ResolveError;
use pyoxidizer::rules::RuleOutcome;

fn extension(name: &str, builtin_default: bool, required: bool) -> ExtensionModule {
    ExtensionModule {
        module: String::from(name),
        init_fn: None,
        builtin_default,
        disableable: false,
        required,
        variant: String::from("default"),
    }
}

fn add(resource: PythonResource) -> PythonResourceAction {
    PythonResourceAction {
        action: ResourceAction::Add,
        location: ResourceLocation::Embedded,
        resource,
    }
}

fn add_beside(path: &str, resource: PythonResource) -> PythonResourceAction {
    PythonResourceAction {
        action: ResourceAction::Add,
        location: ResourceLocation::AppRelative {
            path: String::from(path),
        },
        resource,
    }
}

fn source(name: &str, text: &str, is_package: bool) -> PythonResource {
    PythonResource::ModuleSource {
        name: String::from(name),
        source: text.as_bytes().to_vec(),
        is_package,
    }
}

fn request(name: &str, text: &str, level: BytecodeOptimizationLevel, is_package: bool) -> PythonResource {
    PythonResource::ModuleBytecodeRequest {
        name: String::from(name),
        source: text.as_bytes().to_vec(),
        optimize_level: level,
        is_package,
    }
}

fn data(package: &str, name: &str, content: &[u8]) -> PythonResource {
    PythonResource::Resource {
        package: String::from(package),
        name: String::from(name),
        data: content.to_vec(),
    }
}

fn set_of(names: &[&str]) -> NameSet {
    let mut set = NameSet::new();
    for name in names {
        set.insert(String::from(*name));
    }
    set
}

fn catalog() -> NameMap<ExtensionModule> {
    let mut catalog = NameMap::new();
    catalog.insert(String::from("zipimport"), extension("zipimport", true, false));
    catalog.insert(String::from("_thread"), extension("_thread", false, true));
    catalog.insert(String::from("_ssl"), extension("_ssl", false, false));
    catalog.insert(String::from("nis"), extension("nis", false, false));
    catalog.insert(String::from("_crypt"), extension("_crypt", true, false));
    catalog
}

/// What a compiler would give: the source in capitals, behind a mark of the mode.
fn compile(job: &CompileJob) -> Vec<u8> {
    let mut out = match job.mode {
        CompileMode::Bytecode => b"BC:".to_vec(),
        CompileMode::PycUncheckedHash => b"PYC:".to_vec(),
    };
    out.push(b'0' + job.optimize_level.number() as u8);
    out.push(b':');
    out.extend(job.source.to_ascii_uppercase());
    out
}

fn compile_all(plan: &CompilePlan) -> CompiledBytecode {
    let mut embedded = NameMap::new();
    for job in plan.embedded.iter() {
        embedded.insert(job.name.clone(), compile(job));
    }
    let mut app_relative = NameMap::new();
    for directory in plan.app_relative.iter() {
        let mut under = NameMap::new();
        for job in directory.jobs.iter() {
            under.insert(job.name.clone(), compile(job));
        }
        app_relative.insert(directory.path.clone(), under);
    }
    CompiledBytecode {
        embedded,
        app_relative,
    }
}

fn stdlib_rules() -> Vec<RuleOutcome> {
    vec![
        RuleOutcome::Resources {
            actions: vec![
                add(PythonResource::ExtensionModule {
                    name: String::from("_ssl"),
                    module: extension("_ssl", false, false),
                }),
                add(PythonResource::ExtensionModule {
                    name: String::from("nis"),
                    module: extension("nis", false, false),
                }),
            ],
        },
        RuleOutcome::Resources {
            actions: vec![
                add(source("os", "import sys", false)),
                add(request("os", "import sys", BytecodeOptimizationLevel::Zero, false)),
                add(source("io", "pass", false)),
                add(request("io", "pass", BytecodeOptimizationLevel::Zero, false)),
                add(source("json", "", true)),
                add(request("json", "", BytecodeOptimizationLevel::Zero, true)),
                add(source("json.decoder", "x = __file__", false)),
                add(request(
                    "json.decoder",
                    "x = __file__",
                    BytecodeOptimizationLevel::Zero,
                    false,
                )),
                add(data("json", "data.txt", b"D")),
            ],
        },
    ]
}

#[test]
fn minimal_config() {
    let ignored = platform_ignored_extensions(TargetPlatform::Linux);
    let plan = resolve_bytecode_requests(stdlib_rules(), &catalog(), &ignored).unwrap();
    assert!(plan.app_relative.is_empty());
    assert_eq!(plan.embedded.len(), 4);
    let compiled = compile_all(&plan);
    let resolution = resolve_python_resources(stdlib_rules(), &catalog(), &ignored, compiled).unwrap();
    let resources = resolution.resources;
    let expected = set_of(&["io", "json", "json.decoder", "os"]);
    assert_eq!(key_set(&resources.embedded.module_sources), expected);
    assert_eq!(key_set(&resources.embedded.module_bytecodes), expected);
    assert_eq!(resources.embedded.all_modules, expected);
    assert_eq!(resources.embedded.all_packages, set_of(&["json"]));
    assert_eq!(
        key_set(&resources.embedded.extension_modules),
        set_of(&["_ssl", "_thread", "zipimport"])
    );
    assert!(resources.embedded.built_extension_modules.is_empty());
    assert_eq!(key_set(&resources.embedded.resources), set_of(&["json"]));
    assert!(resources.app_relative.is_empty());
    assert!(resources.read_files.is_empty());
    assert_eq!(resources.license_files_path, None);
    assert_eq!(
        resources.embedded.module_bytecodes.get("os"),
        Some(&PackagedModuleBytecode {
            bytecode: b"BC:0:IMPORT SYS".to_vec(),
            is_package: false
        })
    );
    assert_eq!(
        resources.embedded.module_bytecodes.get("json"),
        Some(&PackagedModuleBytecode {
            bytecode: b"BC:0:".to_vec(),
            is_package: true
        })
    );
    assert_eq!(
        resources.embedded.module_sources.get("os"),
        Some(&PackagedModuleSource {
            source: b"import sys".to_vec(),
            is_package: false
        })
    );
    let diagnostics = resolution.diagnostics;
    assert!(diagnostics.unexpected_packages.is_empty());
    assert!(diagnostics.orphan_resources.is_empty());
    assert_eq!(
        diagnostics.modules_naming_file_attribute,
        set_of(&["json.decoder"])
    );
    assert!(diagnostics.app_relative_built_extensions.is_empty());
    assert!(diagnostics.filtered.is_empty());
}

#[test]
fn filter_include_trims_bytecode() {
    let mut rules = stdlib_rules();
    rules.push(RuleOutcome::Resources {
        actions: vec![
            add(source("sys", "", false)),
            add(request("sys", "", BytecodeOptimizationLevel::Zero, false)),
        ],
    });
    rules.push(RuleOutcome::FilterInclude {
        files: vec![NamesFile {
            path: String::from("names.txt"),
            content: String::from("os\nsys\nio\n"),
        }],
        glob_files: Vec::new(),
    });
    let ignored = NameSet::new();
    let plan = resolve_bytecode_requests(rules.clone(), &NameMap::new(), &ignored).unwrap();
    let names: Vec<&str> = plan.embedded.iter().map(|job| job.name.as_str()).collect();
    assert_eq!(names, vec!["io", "os", "sys"]);
    let compiled = compile_all(&plan);
    let resolution = resolve_python_resources(rules, &NameMap::new(), &ignored, compiled).unwrap();
    let resources = resolution.resources;
    assert_eq!(
        key_set(&resources.embedded.module_bytecodes),
        set_of(&["io", "os", "sys"])
    );
    assert_eq!(
        key_set(&resources.embedded.module_sources),
        set_of(&["io", "os", "sys"])
    );
    assert!(resources.embedded.extension_modules.is_empty());
    assert!(resources.embedded.resources.is_empty());
    assert_eq!(resources.read_files, vec!["names.txt"]);
    assert!(resolution.diagnostics.orphan_resources.is_empty());
    assert_eq!(resolution.diagnostics.filtered.len(), 1);
    let report = &resolution.diagnostics.filtered[0];
    assert_eq!(report.module_sources, set_of(&["json", "json.decoder"]));
    assert_eq!(report.bytecode_requests, set_of(&["json", "json.decoder"]));
    assert_eq!(report.extension_modules, set_of(&["_ssl", "nis"]));
    assert_eq!(report.resources, set_of(&["json"]));
    assert!(report.built_extension_modules.is_empty());
    assert!(report.app_relative.is_empty());
}

#[test]
fn missing_parent_synthesis() {
    let rules = vec![RuleOutcome::Resources {
        actions: vec![add(request(
            "a.b.c",
            "x = 1",
            BytecodeOptimizationLevel::Two,
            false,
        ))],
    }];
    let plan = resolve_bytecode_requests(rules.clone(), &NameMap::new(), &NameSet::new()).unwrap();
    assert_eq!(
        plan.embedded,
        vec![
            CompileJob {
                name: String::from("a"),
                source: Vec::new(),
                optimize_level: BytecodeOptimizationLevel::Zero,
                mode: CompileMode::Bytecode,
            },
            CompileJob {
                name: String::from("a.b"),
                source: Vec::new(),
                optimize_level: BytecodeOptimizationLevel::Zero,
                mode: CompileMode::Bytecode,
            },
            CompileJob {
                name: String::from("a.b.c"),
                source: b"x = 1".to_vec(),
                optimize_level: BytecodeOptimizationLevel::Two,
                mode: CompileMode::Bytecode,
            },
        ]
    );
    let compiled = compile_all(&plan);
    let resolution = resolve_python_resources(rules, &NameMap::new(), &NameSet::new(), compiled).unwrap();
    let bytecodes = &resolution.resources.embedded.module_bytecodes;
    assert_eq!(key_set(bytecodes), set_of(&["a", "a.b", "a.b.c"]));
    assert!(bytecodes.get("a").unwrap().is_package);
    assert!(bytecodes.get("a.b").unwrap().is_package);
    assert!(!bytecodes.get("a.b.c").unwrap().is_package);
    assert_eq!(bytecodes.get("a.b.c").unwrap().bytecode, b"BC:2:X = 1".to_vec());
    assert_eq!(
        resolution.resources.embedded.all_packages,
        set_of(&["a", "a.b"])
    );
}

#[test]
fn structural_rejection() {
    let rules = vec![RuleOutcome::Resources {
        actions: vec![add(PythonResource::ModuleBytecode {
            name: String::from("foo"),
            bytecode: vec![1],
            optimize_level: BytecodeOptimizationLevel::Zero,
            is_package: false,
        })],
    }];
    let error = resolve_bytecode_requests(rules.clone(), &catalog(), &NameSet::new()).unwrap_err();
    match error {
        ResolveError::UnsupportedStep(shape) => {
            assert!(shape.message().starts_with("(Add, Embedded, ModuleBytecode)"));
        }
        other => panic!("{:?}", other),
    }
    let compiled = CompiledBytecode {
        embedded: NameMap::new(),
        app_relative: NameMap::new(),
    };
    assert_eq!(
        resolve_python_resources(rules, &catalog(), &NameSet::new(), compiled),
        Err(error)
    );
}

#[test]
fn app_relative_resources_are_resolved_by_directory() {
    let rules = vec![RuleOutcome::Resources {
        actions: vec![
            add_beside("lib", source("pkg", "", true)),
            add_beside("lib", source("pkg.sub", "y = 2", false)),
            add_beside(
                "lib",
                request("pkg.sub", "y = 2", BytecodeOptimizationLevel::One, false),
            ),
            add_beside("lib", data("pkg", "a.txt", b"A")),
            add_beside(
                "only-bytecode",
                request("m", "z", BytecodeOptimizationLevel::Zero, false),
            ),
            add_beside(
                "lib",
                PythonResource::BuiltExtensionModule(BuiltExtensionModule {
                    name: String::from("fast"),
                    init_fn: String::from("PyInit_fast"),
                    object_file_data: Vec::new(),
                    is_package: false,
                    libraries: Vec::new(),
                }),
            ),
        ],
    }];
    let plan = resolve_bytecode_requests(rules.clone(), &NameMap::new(), &NameSet::new()).unwrap();
    assert!(plan.embedded.is_empty());
    assert_eq!(
        plan.app_relative,
        vec![
            DirectoryJobs {
                path: String::from("lib"),
                jobs: vec![CompileJob {
                    name: String::from("pkg.sub"),
                    source: b"y = 2".to_vec(),
                    optimize_level: BytecodeOptimizationLevel::One,
                    mode: CompileMode::PycUncheckedHash,
                }],
            },
            DirectoryJobs {
                path: String::from("only-bytecode"),
                jobs: vec![CompileJob {
                    name: String::from("m"),
                    source: b"z".to_vec(),
                    optimize_level: BytecodeOptimizationLevel::Zero,
                    mode: CompileMode::PycUncheckedHash,
                }],
            },
        ]
    );
    let compiled = compile_all(&plan);
    let resolution = resolve_python_resources(rules, &NameMap::new(), &NameSet::new(), compiled).unwrap();
    let resources = resolution.resources;
    assert!(resources.embedded.module_sources.is_empty());
    assert!(resources.embedded.module_bytecodes.is_empty());
    assert_eq!(resources.embedded.all_modules, set_of(&["fast"]));
    assert_eq!(key_set(&resources.app_relative), set_of(&["lib", "only-bytecode"]));
    let lib = resources.app_relative.get("lib").unwrap();
    assert_eq!(key_set(&lib.module_sources), set_of(&["pkg", "pkg.sub"]));
    assert_eq!(
        lib.module_bytecodes.get("pkg.sub"),
        Some(&PackagedModuleBytecode {
            bytecode: b"PYC:1:Y = 2".to_vec(),
            is_package: false
        })
    );
    assert_eq!(lib.module_bytecodes.len(), 1);
    assert_eq!(
        lib.resources.get("pkg").unwrap().get("a.txt"),
        Some(&b"A".to_vec())
    );
    let other = resources.app_relative.get("only-bytecode").unwrap();
    assert!(other.module_sources.is_empty());
    assert!(other.resources.is_empty());
    assert_eq!(other.module_bytecodes.get("m").unwrap().bytecode, b"PYC:0:Z".to_vec());
    assert_eq!(
        resolution.diagnostics.app_relative_built_extensions,
        vec![String::from("fast")]
    );
}

#[test]
fn orphan_resources_are_left_out_and_reported() {
    let rules = vec![RuleOutcome::Resources {
        actions: vec![
            add(source("pkg", "", true)),
            add(source("other.mod", "x", false)),
            add(source("plain", "x", false)),
            add(data("pkg", "a.txt", b"A")),
            add(data("other", "b.txt", b"B")),
            add(data("plain", "c.txt", b"C")),
            add(data("gone", "d.txt", b"D")),
        ],
    }];
    let compiled = CompiledBytecode {
        embedded: NameMap::new(),
        app_relative: NameMap::new(),
    };
    let resolution = resolve_python_resources(rules, &NameMap::new(), &NameSet::new(), compiled).unwrap();
    let embedded = &resolution.resources.embedded;
    assert_eq!(embedded.all_modules, set_of(&["other.mod", "pkg", "plain"]));
    assert_eq!(embedded.all_packages, set_of(&["other", "pkg"]));
    assert_eq!(key_set(&embedded.resources), set_of(&["other", "pkg"]));
    assert_eq!(
        embedded.resources.get("other").unwrap().get("b.txt"),
        Some(&b"B".to_vec())
    );
    let diagnostics = &resolution.diagnostics;
    assert_eq!(diagnostics.unexpected_packages, set_of(&["other"]));
    assert_eq!(
        key_set(&diagnostics.orphan_resources),
        set_of(&["gone", "plain"])
    );
    assert_eq!(
        diagnostics.orphan_resources.get("gone").unwrap().get("d.txt"),
        Some(&b"D".to_vec())
    );
    assert!(diagnostics.modules_naming_file_attribute.is_empty());
}

#[test]
fn bytecode_for_other_modules_than_were_asked_for_is_refused() {
    let rules = vec![RuleOutcome::Resources {
        actions: vec![
            add(request("a", "x", BytecodeOptimizationLevel::Zero, false)),
            add_beside("lib", request("b", "y", BytecodeOptimizationLevel::Zero, false)),
        ],
    }];
    let plan = resolve_bytecode_requests(rules.clone(), &NameMap::new(), &NameSet::new()).unwrap();

    let nothing = CompiledBytecode {
        embedded: NameMap::new(),
        app_relative: NameMap::new(),
    };
    assert_eq!(
        resolve_python_resources(rules.clone(), &NameMap::new(), &NameSet::new(), nothing),
        Err(ResolveError::BytecodeCount)
    );

    let mut too_much = compile_all(&plan);
    too_much.embedded.insert(String::from("c"), vec![1]);
    assert_eq!(
        resolve_python_resources(rules.clone(), &NameMap::new(), &NameSet::new(), too_much),
        Err(ResolveError::BytecodeCount)
    );

    let mut wrong_directory = compile_all(&plan);
    let under = wrong_directory.app_relative.remove("lib").unwrap();
    wrong_directory.app_relative.insert(String::from("bin"), under);
    assert_eq!(
        resolve_python_resources(
            rules.clone(),
            &NameMap::new(),
            &NameSet::new(),
            wrong_directory
        ),
        Err(ResolveError::BytecodeCount)
    );

    let mut wrong_name = compile_all(&plan);
    let mut under = NameMap::new();
    under.insert(String::from("z"), vec![1]);
    wrong_name.app_relative.insert(String::from("lib"), under);
    assert_eq!(
        resolve_python_resources(rules.clone(), &NameMap::new(), &NameSet::new(), wrong_name),
        Err(ResolveError::BytecodeCount)
    );

    assert!(resolve_python_resources(
        rules,
        &NameMap::new(),
        &NameSet::new(),
        compile_all(&plan)
    )
    .is_ok());
}

#[test]
fn resolving_twice_gives_the_same() {
    let ignored = platform_ignored_extensions(TargetPlatform::MacOs);
    let plan = resolve_bytecode_requests(stdlib_rules(), &catalog(), &ignored).unwrap();
    let again = resolve_bytecode_requests(stdlib_rules(), &catalog(), &ignored).unwrap();
    assert_eq!(plan, again);
    let first = resolve_python_resources(stdlib_rules(), &catalog(), &ignored, compile_all(&plan));
    let second = resolve_python_resources(stdlib_rules(), &catalog(), &ignored, compile_all(&again));
    assert_eq!(first, second);
    let resources = first.unwrap().resources;
    assert_eq!(
        key_set(&resources.embedded.extension_modules),
        set_of(&["_crypt", "_ssl", "_thread", "nis", "zipimport"])
    );
}
