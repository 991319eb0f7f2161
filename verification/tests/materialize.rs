use pyoxidizer::materialize::add_packaged;
use pyoxidizer::materialize::copy_bytes;
use pyoxidizer::materialize::plan_directory_jobs;
use pyoxidizer::materialize::plan_jobs;
use pyoxidizer::materialize::same_names;
use pyoxidizer::materialize::same_nested_names;
use pyoxidizer::materialize::CompileJob;
use pyoxidizer::materialize::CompileMode;
use pyoxidizer::name_map::NameMap;
use pyoxidizer::packages::key_set;
use pyoxidizer::resource::BuiltExtensionModule;
use pyoxidizer::resource::BytecodeOptimizationLevel;
use pyoxidizer::resource::BytecodeRequest;
use pyoxidizer::resource::ExtensionModule;
use pyoxidizer::resource::LocationKind;
use pyoxidizer::resource::PackagedModuleBytecode;
use pyoxidizer::resource::PythonResource;
use pyoxidizer::resource::ResourceKind;
use pyoxidizer::resource::ResourceLocation;

fn request(text: &str, level: BytecodeOptimizationLevel, is_package: bool) -> BytecodeRequest {
    BytecodeRequest {
        source: text.as_bytes().to_vec(),
        optimize_level: level,
        is_package,
    }
}

fn requests() -> NameMap<BytecodeRequest> {
    let mut map = NameMap::new();
    map.insert(
        String::from("pkg.mod"),
        request("x = 1", BytecodeOptimizationLevel::Two, false),
    );
    map.insert(
        String::from("pkg"),
        request("", BytecodeOptimizationLevel::One, true),
    );
    map
}

#[test]
fn optimization_levels_and_their_numbers() {
    assert_eq!(BytecodeOptimizationLevel::Zero.number(), 0);
    assert_eq!(BytecodeOptimizationLevel::One.number(), 1);
    assert_eq!(BytecodeOptimizationLevel::Two.number(), 2);
    assert_eq!(
        BytecodeOptimizationLevel::from_number(0),
        Some(BytecodeOptimizationLevel::Zero)
    );
    assert_eq!(
        BytecodeOptimizationLevel::from_number(1),
        Some(BytecodeOptimizationLevel::One)
    );
    assert_eq!(
        BytecodeOptimizationLevel::from_number(2),
        Some(BytecodeOptimizationLevel::Two)
    );
    assert_eq!(BytecodeOptimizationLevel::from_number(3), None);
    assert_eq!(BytecodeOptimizationLevel::from_number(-1), None);
}

#[test]
fn resources_and_locations_know_their_kinds() {
    assert_eq!(ResourceLocation::Embedded.kind(), LocationKind::Embedded);
    assert_eq!(
        ResourceLocation::AppRelative {
            path: String::from("lib")
        }
        .kind(),
        LocationKind::AppRelative
    );
    let module = ExtensionModule {
        module: String::from("_ssl"),
        init_fn: Some(String::from("PyInit__ssl")),
        builtin_default: false,
        disableable: true,
        required: true,
        variant: String::from("default"),
    };
    assert_eq!(module.duplicate(), module);
    assert!(module.is_always_needed());
    let mut optional = module.duplicate();
    optional.required = false;
    assert!(!optional.is_always_needed());
    optional.builtin_default = true;
    assert!(optional.is_always_needed());
    assert_eq!(
        PythonResource::ExtensionModule {
            name: String::from("_ssl"),
            module
        }
        .kind(),
        ResourceKind::ExtensionModule
    );
    assert_eq!(
        PythonResource::Resource {
            package: String::new(),
            name: String::new(),
            data: Vec::new()
        }
        .kind(),
        ResourceKind::Resource
    );
    assert_eq!(
        PythonResource::BuiltExtensionModule(BuiltExtensionModule {
            name: String::from("x"),
            init_fn: String::from("PyInit_x"),
            object_file_data: Vec::new(),
            is_package: false,
            libraries: Vec::new(),
        })
        .kind(),
        ResourceKind::BuiltExtensionModule
    );
}

#[test]
fn bytes_are_copied() {
    assert_eq!(copy_bytes(&vec![1, 2, 3]), vec![1, 2, 3]);
    assert!(copy_bytes(&Vec::new()).is_empty());
}

#[test]
fn jobs_come_in_the_order_of_names_with_what_was_asked_for() {
    assert_eq!(
        plan_jobs(&requests(), CompileMode::Bytecode),
        vec![
            CompileJob {
                name: String::from("pkg"),
                source: Vec::new(),
                optimize_level: BytecodeOptimizationLevel::One,
                mode: CompileMode::Bytecode,
            },
            CompileJob {
                name: String::from("pkg.mod"),
                source: b"x = 1".to_vec(),
                optimize_level: BytecodeOptimizationLevel::Two,
                mode: CompileMode::Bytecode,
            },
        ]
    );
    assert!(plan_jobs(&NameMap::new(), CompileMode::PycUncheckedHash).is_empty());
}

#[test]
fn jobs_for_directories_come_in_the_order_of_paths() {
    let mut tree = NameMap::new();
    tree.insert(String::from("lib"), requests());
    tree.insert(String::from("bin"), NameMap::new());
    let jobs = plan_directory_jobs(&tree);
    assert_eq!(jobs.len(), 2);
    assert_eq!(jobs[0].path, "bin");
    assert!(jobs[0].jobs.is_empty());
    assert_eq!(jobs[1].path, "lib");
    assert_eq!(
        jobs[1].jobs,
        plan_jobs(&requests(), CompileMode::PycUncheckedHash)
    );
    assert_eq!(jobs[1].jobs[0].mode, CompileMode::PycUncheckedHash);
}

#[test]
fn maps_are_compared_by_their_names() {
    let mut compiled: NameMap<Vec<u8>> = NameMap::new();
    assert!(!same_names(&requests(), &compiled));
    compiled.insert(String::from("pkg"), vec![1]);
    assert!(!same_names(&requests(), &compiled));
    compiled.insert(String::from("pkg.mod"), vec![2]);
    assert!(same_names(&requests(), &compiled));
    compiled.insert(String::from("z"), vec![3]);
    assert!(!same_names(&requests(), &compiled));
    compiled.remove("pkg");
    assert!(!same_names(&requests(), &compiled));
    let nothing: NameMap<Vec<u8>> = NameMap::new();
    assert!(same_names(&nothing, &NameMap::<BytecodeRequest>::new()));

    let mut tree = NameMap::new();
    tree.insert(String::from("lib"), requests());
    let mut given: NameMap<NameMap<Vec<u8>>> = NameMap::new();
    assert!(!same_nested_names(&tree, &given));
    given.insert(String::from("lib"), NameMap::new());
    assert!(!same_nested_names(&tree, &given));
    let mut under = NameMap::new();
    under.insert(String::from("pkg"), vec![1]);
    under.insert(String::from("pkg.mod"), vec![2]);
    given.insert(String::from("lib"), under);
    assert!(same_nested_names(&tree, &given));
}

#[test]
fn compiled_modules_keep_the_flag_of_the_request() {
    let mut compiled: NameMap<Vec<u8>> = NameMap::new();
    compiled.insert(String::from("pkg"), vec![1]);
    compiled.insert(String::from("pkg.mod"), vec![2, 3]);
    let mut bytecodes: NameMap<PackagedModuleBytecode> = NameMap::new();
    bytecodes.insert(
        String::from("old"),
        PackagedModuleBytecode {
            bytecode: vec![9],
            is_package: false,
        },
    );
    bytecodes.insert(
        String::from("pkg"),
        PackagedModuleBytecode {
            bytecode: vec![8],
            is_package: false,
        },
    );
    add_packaged(&mut bytecodes, &requests(), compiled);
    assert_eq!(key_set(&bytecodes).len(), 3);
    assert_eq!(
        bytecodes.get("pkg"),
        Some(&PackagedModuleBytecode {
            bytecode: vec![1],
            is_package: true
        })
    );
    assert_eq!(
        bytecodes.get("pkg.mod"),
        Some(&PackagedModuleBytecode {
            bytecode: vec![2, 3],
            is_package: false
        })
    );
    assert_eq!(
        bytecodes.get("old"),
        Some(&PackagedModuleBytecode {
            bytecode: vec![9],
            is_package: false
        })
    );
}
