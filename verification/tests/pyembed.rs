use pyoxidizer::config::EmbeddedPythonConfig;
use pyoxidizer::config::RawAllocator;
use pyoxidizer::config::RunMode;
use pyoxidizer::config::TerminfoResolution;
use pyoxidizer::pyembed::append_bool;
use pyoxidizer::pyembed::append_decimal;
use pyoxidizer::pyembed::data_rs_source;
use pyoxidizer::pyembed::derive_python_config;

fn plain() -> EmbeddedPythonConfig {
    EmbeddedPythonConfig {
        bytes_warning: 0,
        dont_write_bytecode: true,
        ignore_environment: true,
        inspect: false,
        interactive: false,
        isolated: false,
        legacy_windows_fs_encoding: false,
        legacy_windows_stdio: false,
        no_site: true,
        no_user_site_directory: true,
        optimize_level: 0,
        parser_debug: false,
        quiet: false,
        stdio_encoding_name: None,
        stdio_encoding_errors: None,
        unbuffered_stdio: false,
        use_hash_seed: false,
        verbose: 0,
        filesystem_importer: false,
        sys_frozen: false,
        sys_meipass: false,
        sys_paths: Vec::new(),
        raw_allocator: RawAllocator::Jemalloc,
        terminfo_resolution: TerminfoResolution::Dynamic,
        write_modules_directory_env: None,
    }
}

fn decimal(n: i64) -> String {
    let mut text = String::new();
    append_decimal(&mut text, n);
    text
}

#[test]
fn whole_numbers_in_decimal_digits() {
    assert_eq!(decimal(0), "0");
    assert_eq!(decimal(7), "7");
    assert_eq!(decimal(10), "10");
    assert_eq!(decimal(-1), "-1");
    assert_eq!(decimal(1234567890), "1234567890");
    assert_eq!(decimal(-907), "-907");
    assert_eq!(decimal(i64::MAX), "9223372036854775807");
    assert_eq!(decimal(i64::MIN), "-9223372036854775808");
    for n in [-1000i64, -99, -10, -9, 9, 99, 100, 101, 65536].iter() {
        assert_eq!(decimal(*n), format!("{}", n));
    }
    let mut text = String::from("n = ");
    append_decimal(&mut text, 42);
    append_bool(&mut text, true);
    append_bool(&mut text, false);
    assert_eq!(text, "n = 42truefalse");
}

#[test]
fn python_config_of_a_plain_configuration() {
    let text = derive_python_config(
        &plain(),
        &RunMode::Repl,
        "/out/importlib_bootstrap",
        "/out/importlib_bootstrap_external",
        "/out/py-modules",
        "/out/python-resources",
    );
    let expected = "PythonConfig {\n    \
        standard_io_encoding: None,\n    \
        standard_io_errors: None,\n    \
        opt_level: 0,\n    \
        use_custom_importlib: true,\n    \
        filesystem_importer: false,\n    \
        sys_paths: [].to_vec(),\n    \
        bytes_warning: 0,\n    \
        import_site: false,\n    \
        import_user_site: false,\n    \
        ignore_python_env: true,\n    \
        inspect: false,\n    \
        interactive: false,\n    \
        isolated: false,\n    \
        legacy_windows_fs_encoding: false,\n    \
        legacy_windows_stdio: false,\n    \
        dont_write_bytecode: true,\n    \
        unbuffered_stdio: false,\n    \
        parser_debug: false,\n    \
        quiet: false,\n    \
        use_hash_seed: false,\n    \
        verbose: 0,\n    \
        frozen_importlib_data: include_bytes!(r#\"/out/importlib_bootstrap\"#),\n    \
        frozen_importlib_external_data: include_bytes!(r#\"/out/importlib_bootstrap_external\"#),\n    \
        py_modules_data: include_bytes!(r#\"/out/py-modules\"#),\n    \
        py_resources_data: include_bytes!(r#\"/out/python-resources\"#),\n    \
        extra_extension_modules: vec![],\n    \
        argvb: false,\n    \
        sys_frozen: false,\n    \
        sys_meipass: false,\n    \
        raw_allocator: PythonRawAllocator::Jemalloc,\n    \
        terminfo_resolution: TerminfoResolution::Dynamic,\n    \
        write_modules_directory_env: None,\n    \
        run: PythonRunMode::Repl,\n\
        }";
    assert_eq!(text, expected);
}

#[test]
fn python_config_writes_every_option() {
    let mut embedded = plain();
    embedded.stdio_encoding_name = Some(String::from("utf-8"));
    embedded.stdio_encoding_errors = Some(String::from("strict"));
    embedded.optimize_level = 2;
    embedded.bytes_warning = -3;
    embedded.verbose = 12;
    embedded.filesystem_importer = true;
    embedded.no_site = false;
    embedded.no_user_site_directory = false;
    embedded.ignore_environment = false;
    embedded.inspect = true;
    embedded.sys_frozen = true;
    embedded.sys_paths = vec![String::from("$ORIGIN/lib"), String::from("other")];
    embedded.raw_allocator = RawAllocator::System;
    embedded.terminfo_resolution = TerminfoResolution::Static(String::from("/usr/share/terminfo"));
    embedded.write_modules_directory_env = Some(String::from("MODULES_DIR"));
    let text = derive_python_config(
        &embedded,
        &RunMode::Eval {
            code: String::from("print(\"hi\")\nprint(2)"),
        },
        "a",
        "b",
        "c",
        "d",
    );
    let lines: Vec<&str> = text.split('\n').collect();
    assert_eq!(lines.len(), 36);
    assert_eq!(lines[0], "PythonConfig {");
    assert_eq!(lines[1], "    standard_io_encoding: Some(\"utf-8\"),");
    assert_eq!(lines[2], "    standard_io_errors: Some(\"strict\"),");
    assert_eq!(lines[3], "    opt_level: 2,");
    assert_eq!(lines[5], "    filesystem_importer: true,");
    assert_eq!(
        lines[6],
        "    sys_paths: [\"$ORIGIN/lib\".to_string(), \"other\".to_string()].to_vec(),"
    );
    assert_eq!(lines[7], "    bytes_warning: -3,");
    assert_eq!(lines[8], "    import_site: true,");
    assert_eq!(lines[9], "    import_user_site: true,");
    assert_eq!(lines[10], "    ignore_python_env: false,");
    assert_eq!(lines[11], "    inspect: true,");
    assert_eq!(lines[21], "    verbose: 12,");
    assert_eq!(lines[22], "    frozen_importlib_data: include_bytes!(r#\"a\"#),");
    assert_eq!(lines[25], "    py_resources_data: include_bytes!(r#\"d\"#),");
    assert_eq!(lines[28], "    sys_frozen: true,");
    assert_eq!(lines[30], "    raw_allocator: PythonRawAllocator::System,");
    assert_eq!(
        lines[31],
        "    terminfo_resolution: TerminfoResolution::Static(r###\"/usr/share/terminfo\"###,"
    );
    assert_eq!(
        lines[32],
        "    write_modules_directory_env: Some(\"MODULES_DIR\".to_string()),"
    );
    assert_eq!(
        lines[33],
        "    run: PythonRunMode::Eval { code: r###\"print(\"hi\")"
    );
    assert_eq!(lines[34], "print(2)\"###.to_string() },");
    assert_eq!(lines[35], "}");
}

#[test]
fn python_config_run_modes_and_allocators() {
    let text = derive_python_config(&plain(), &RunMode::Noop, "a", "b", "c", "d");
    assert!(text.ends_with("    run: PythonRunMode::None,\n}"));
    let text = derive_python_config(
        &plain(),
        &RunMode::Module {
            module: String::from("app.main"),
        },
        "a",
        "b",
        "c",
        "d",
    );
    assert!(text.ends_with(
        "    run: PythonRunMode::Module { module: \"app.main\".to_string() },\n}"
    ));
    let mut embedded = plain();
    embedded.raw_allocator = RawAllocator::Rust;
    embedded.terminfo_resolution = TerminfoResolution::NoResolution;
    embedded.sys_paths = vec![String::from("one")];
    let text = derive_python_config(&embedded, &RunMode::Noop, "a", "b", "c", "d");
    assert!(text.contains("    raw_allocator: PythonRawAllocator::Rust,\n"));
    assert!(text.contains("    terminfo_resolution: TerminfoResolution::None,\n"));
    assert!(text.contains("    sys_paths: [\"one\".to_string()].to_vec(),\n"));
}

#[test]
fn data_rs_holds_the_configuration_behind_four_spaces() {
    let text = data_rs_source("PythonConfig {\n    a: 1,\n}");
    let expected = "use super::config::{PythonConfig, PythonRawAllocator, PythonRunMode, TerminfoResolution};\n\n\
        /// Obtain the default Python configuration\n\
        ///\n\
        /// The crate is compiled with a default Python configuration embedded\n         \
        /// in the crate. This function will return an instance of that\n         \
        /// configuration.\n         \
        pub fn default_python_config() -> PythonConfig {\n    \
        PythonConfig {\n        a: 1,\n    }\n}\n";
    assert_eq!(text, expected);
}

#[test]
fn data_rs_of_one_line_and_of_none() {
    let head = "use super::config::{PythonConfig, PythonRawAllocator, PythonRunMode, TerminfoResolution};\n\n/// Obtain the default Python configuration\n///\n/// The crate is compiled with a default Python configuration embedded\n         /// in the crate. This function will return an instance of that\n         /// configuration.\n         pub fn default_python_config() -> PythonConfig {\n";
    assert_eq!(data_rs_source("x"), format!("{}    x\n}}\n", head));
    assert_eq!(data_rs_source(""), format!("{}    \n}}\n", head));
    assert_eq!(
        data_rs_source("a\n\nb\n"),
        format!("{}    a\n    \n    b\n    \n}}\n", head)
    );
}
