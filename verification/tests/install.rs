use pyoxidizer::context::plan_license_files;
use pyoxidizer::context::LicenseInfo;
use pyoxidizer::install::bytecode_install_path;
use pyoxidizer::install::plan_install;
use pyoxidizer::install::resource_install_path;
use pyoxidizer::install::source_install_path;
use pyoxidizer::install::InstallFile;
use pyoxidizer::install::InstallKind;
use pyoxidizer::name_map::NameMap;
use pyoxidizer::resource::AppRelativeResources;
use pyoxidizer::resource::PackagedModuleBytecode;
use pyoxidizer::resource::PackagedModuleSource;

fn file(kind: InstallKind, path: &[&str], data: &[u8]) -> InstallFile {
    InstallFile {
        kind,
        path: path.iter().map(|p| String::from(*p)).collect(),
        data: data.to_vec(),
    }
}

#[test]
fn app_relative_path_layout() {
    assert_eq!(
        source_install_path("pkg.sub", true),
        vec!["pkg", "sub", "__init__.py"]
    );
    assert_eq!(
        bytecode_install_path("pkg.sub", false, "cpython-37"),
        vec!["pkg", "__pycache__", "sub.cpython-37.pyc"]
    );
    assert_eq!(
        bytecode_install_path("pkg.sub", true, "cpython-37"),
        vec!["pkg", "sub", "__pycache__", "__init__.cpython-37.pyc"]
    );
}

#[test]
fn source_paths() {
    assert_eq!(source_install_path("a.b.c", false), vec!["a", "b", "c.py"]);
    assert_eq!(source_install_path("a.b", true), vec!["a", "b", "__init__.py"]);
    assert_eq!(source_install_path("top", false), vec!["top.py"]);
    assert_eq!(source_install_path("top", true), vec!["top", "__init__.py"]);
}

#[test]
fn bytecode_paths() {
    assert_eq!(
        bytecode_install_path("a.b.c", false, "cpython-37"),
        vec!["a", "b", "__pycache__", "c.cpython-37.pyc"]
    );
    assert_eq!(
        bytecode_install_path("a.b", true, "cpython-38"),
        vec!["a", "b", "__pycache__", "__init__.cpython-38.pyc"]
    );
    assert_eq!(
        bytecode_install_path("top", false, "cpython-37"),
        vec!["__pycache__", "top.cpython-37.pyc"]
    );
}

#[test]
fn resource_paths() {
    assert_eq!(resource_install_path("a.b", "leaf"), vec!["a", "b", "leaf"]);
    assert_eq!(
        resource_install_path("a", "sub/leaf.txt"),
        vec!["a", "sub/leaf.txt"]
    );
}

#[test]
fn files_of_a_directory_come_in_a_fixed_order() {
    let mut directory = AppRelativeResources::new();
    directory.module_sources.insert(
        String::from("pkg.sub"),
        PackagedModuleSource {
            source: b"y = 2".to_vec(),
            is_package: false,
        },
    );
    directory.module_sources.insert(
        String::from("pkg"),
        PackagedModuleSource {
            source: Vec::new(),
            is_package: true,
        },
    );
    directory.module_bytecodes.insert(
        String::from("pkg.sub"),
        PackagedModuleBytecode {
            bytecode: vec![1, 2],
            is_package: false,
        },
    );
    directory.module_bytecodes.insert(
        String::from("pkg"),
        PackagedModuleBytecode {
            bytecode: vec![3],
            is_package: true,
        },
    );
    let mut files: NameMap<Vec<u8>> = NameMap::new();
    files.insert(String::from("b.txt"), b"B".to_vec());
    files.insert(String::from("a.txt"), b"A".to_vec());
    directory.resources.insert(String::from("pkg.sub"), files);
    let mut more: NameMap<Vec<u8>> = NameMap::new();
    more.insert(String::from("c"), b"C".to_vec());
    directory.resources.insert(String::from("pkg"), more);

    assert_eq!(
        plan_install(&directory, "cpython-37"),
        vec![
            file(InstallKind::ModuleSource, &["pkg", "__init__.py"], b""),
            file(InstallKind::ModuleSource, &["pkg", "sub.py"], b"y = 2"),
            file(InstallKind::ModuleBytecode, &["pkg", "__pycache__", "__init__.cpython-37.pyc"], &[3]),
            file(InstallKind::ModuleBytecode, &["pkg", "__pycache__", "sub.cpython-37.pyc"], &[1, 2]),
            file(InstallKind::Resource, &["pkg", "c"], b"C"),
            file(InstallKind::Resource, &["pkg", "sub", "a.txt"], b"A"),
            file(InstallKind::Resource, &["pkg", "sub", "b.txt"], b"B"),
        ]
    );
    assert!(plan_install(&AppRelativeResources::new(), "cpython-37").is_empty());
}

#[test]
fn licence_files_go_below_their_directory() {
    let infos = vec![
        LicenseInfo {
            licenses: vec![String::from("MIT")],
            license_filename: String::from("LICENSE.foo.txt"),
            license_text: String::from("text of foo"),
        },
        LicenseInfo {
            licenses: Vec::new(),
            license_filename: String::from("LICENSE.bar.txt"),
            license_text: String::from("\u{a9} bar"),
        },
    ];
    assert_eq!(
        plan_license_files("licenses", &infos),
        vec![
            file(InstallKind::License, &["licenses", "LICENSE.foo.txt"], b"text of foo"),
            file(InstallKind::License, &["licenses", "LICENSE.bar.txt"], "\u{a9} bar".as_bytes()),
        ]
    );
    assert_eq!(
        plan_license_files("", &infos),
        vec![
            file(InstallKind::License, &["LICENSE.foo.txt"], b"text of foo"),
            file(InstallKind::License, &["LICENSE.bar.txt"], "\u{a9} bar".as_bytes()),
        ]
    );
    assert!(plan_license_files("x", &Vec::new()).is_empty());
}
