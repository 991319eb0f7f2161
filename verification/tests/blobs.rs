use pyoxidizer::blobs::append_bytes;
use pyoxidizer::blobs::append_u32;
use pyoxidizer::blobs::list_module_names;
use pyoxidizer::blobs::pack_modules;
use pyoxidizer::blobs::pack_resources;
use pyoxidizer::blobs::Blobs;
use pyoxidizer::name_map::NameMap;
use pyoxidizer::name_set::NameSet;
use pyoxidizer::resolve::EmbeddedPythonResources;
use pyoxidizer::resource::PackagedModuleBytecode;
use pyoxidizer::resource::PackagedModuleSource;

fn sources(entries: &[(&str, &[u8], bool)]) -> NameMap<PackagedModuleSource> {
    let mut map = NameMap::new();
    for (name, source, is_package) in entries {
        map.insert(
            String::from(*name),
            PackagedModuleSource {
                source: source.to_vec(),
                is_package: *is_package,
            },
        );
    }
    map
}

fn bytecodes(entries: &[(&str, &[u8], bool)]) -> NameMap<PackagedModuleBytecode> {
    let mut map = NameMap::new();
    for (name, bytecode, is_package) in entries {
        map.insert(
            String::from(*name),
            PackagedModuleBytecode {
                bytecode: bytecode.to_vec(),
                is_package: *is_package,
            },
        );
    }
    map
}

fn resources(entries: &[(&str, &[(&str, &[u8])])]) -> NameMap<NameMap<Vec<u8>>> {
    let mut map = NameMap::new();
    for (package, files) in entries {
        let mut under = NameMap::new();
        for (name, data) in files.iter() {
            under.insert(String::from(*name), data.to_vec());
        }
        map.insert(String::from(*package), under);
    }
    map
}

#[test]
fn numbers_are_written_lowest_byte_first() {
    let mut bytes = vec![9u8];
    append_u32(&mut bytes, 0);
    append_u32(&mut bytes, 1);
    append_u32(&mut bytes, 0x0102_0304);
    append_u32(&mut bytes, 0xffff_ffff);
    append_u32(&mut bytes, 256);
    append_bytes(&mut bytes, b"xy");
    append_bytes(&mut bytes, b"");
    assert_eq!(
        bytes,
        vec![
            9, 0, 0, 0, 0, 1, 0, 0, 0, 4, 3, 2, 1, 0xff, 0xff, 0xff, 0xff, 0, 1, 0, 0, b'x', b'y'
        ]
    );
}

#[test]
fn packed_modules() {
    let blob = pack_modules(
        &sources(&[("a", b"sa", true)]),
        &bytecodes(&[("b", b"x", false), ("a", b"bc1", false)]),
    )
    .unwrap();
    let mut expected: Vec<u8> = vec![2, 0, 0, 0];
    expected.extend_from_slice(&[1, 0, 0, 0, 2, 0, 0, 0, 3, 0, 0, 0, 1, 0, 0, 0]);
    expected.extend_from_slice(&[1, 0, 0, 0, 0, 0, 0, 0, 1, 0, 0, 0, 0, 0, 0, 0]);
    expected.extend_from_slice(b"ab");
    expected.extend_from_slice(b"sa");
    expected.extend_from_slice(b"bc1x");
    assert_eq!(blob, expected);
}

#[test]
fn packed_modules_of_nothing() {
    assert_eq!(
        pack_modules(&NameMap::new(), &NameMap::new()),
        Ok(vec![0, 0, 0, 0])
    );
}

#[test]
fn packed_modules_mark_packages_and_write_names_as_utf_8() {
    let blob = pack_modules(
        &sources(&[("p\u{e9}", b"", false)]),
        &bytecodes(&[("p\u{e9}", b"", true)]),
    )
    .unwrap();
    let mut expected: Vec<u8> = vec![1, 0, 0, 0];
    expected.extend_from_slice(&[3, 0, 0, 0, 0, 0, 0, 0, 0, 0, 0, 0, 1, 0, 0, 0]);
    expected.extend_from_slice("p\u{e9}".as_bytes());
    assert_eq!(blob, expected);
}

#[test]
fn packed_resources() {
    let blob = pack_resources(&resources(&[
        ("z", &[]),
        ("pkg", &[("g", b""), ("f.txt", b"hello")]),
    ]))
    .unwrap();
    let mut expected: Vec<u8> = vec![2, 0, 0, 0];
    expected.extend_from_slice(&[3, 0, 0, 0, 2, 0, 0, 0]);
    expected.extend_from_slice(&[5, 0, 0, 0, 5, 0, 0, 0]);
    expected.extend_from_slice(&[1, 0, 0, 0, 0, 0, 0, 0]);
    expected.extend_from_slice(&[1, 0, 0, 0, 0, 0, 0, 0]);
    expected.extend_from_slice(b"pkgf.txtgz");
    expected.extend_from_slice(b"hello");
    assert_eq!(blob, expected);
    assert_eq!(pack_resources(&NameMap::new()), Ok(vec![0, 0, 0, 0]));
}

#[test]
fn module_names_are_listed_one_to_a_line() {
    let mut names = NameSet::new();
    names.insert(String::from("os"));
    names.insert(String::from("abc"));
    names.insert(String::from("os.path"));
    assert_eq!(list_module_names(&names), b"abc\nos\nos.path\n".to_vec());
    assert!(list_module_names(&NameSet::new()).is_empty());
}

#[test]
fn the_same_resources_give_the_same_bytes() {
    let mut all_modules = NameSet::new();
    all_modules.insert(String::from("a"));
    all_modules.insert(String::from("b"));
    let first = EmbeddedPythonResources {
        module_sources: sources(&[("a", b"1", false), ("b", b"2", false)]),
        module_bytecodes: bytecodes(&[("a", b"x", false)]),
        all_modules,
        all_packages: NameSet::new(),
        resources: resources(&[("a", &[("one", b"1"), ("two", b"2")])]),
        extension_modules: NameMap::new(),
        built_extension_modules: NameMap::new(),
    };
    let mut all_modules = NameSet::new();
    all_modules.insert(String::from("b"));
    all_modules.insert(String::from("a"));
    let second = EmbeddedPythonResources {
        module_sources: sources(&[("b", b"2", false), ("a", b"1", false)]),
        module_bytecodes: bytecodes(&[("a", b"x", false)]),
        all_modules,
        all_packages: NameSet::new(),
        resources: resources(&[("a", &[("two", b"2"), ("one", b"1")])]),
        extension_modules: NameMap::new(),
        built_extension_modules: NameMap::new(),
    };
    let blobs = first.write_blobs().unwrap();
    assert_eq!(blobs, second.write_blobs().unwrap());
    assert_eq!(
        blobs,
        Blobs {
            module_names: b"a\nb\n".to_vec(),
            modules: {
                let mut bytes: Vec<u8> = vec![2, 0, 0, 0];
                bytes.extend_from_slice(&[1, 0, 0, 0, 1, 0, 0, 0, 1, 0, 0, 0, 0, 0, 0, 0]);
                bytes.extend_from_slice(&[1, 0, 0, 0, 1, 0, 0, 0, 0, 0, 0, 0, 0, 0, 0, 0]);
                bytes.extend_from_slice(b"ab12x");
                bytes
            },
            resources: {
                let mut bytes: Vec<u8> = vec![1, 0, 0, 0];
                bytes.extend_from_slice(&[1, 0, 0, 0, 2, 0, 0, 0]);
                bytes.extend_from_slice(&[3, 0, 0, 0, 1, 0, 0, 0]);
                bytes.extend_from_slice(&[3, 0, 0, 0, 1, 0, 0, 0]);
                bytes.extend_from_slice(b"aonetwo12");
                bytes
            },
        }
    );
}
