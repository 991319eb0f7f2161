use pyoxidizer::config::Config;
use pyoxidizer::config::ConfigArguments;
use pyoxidizer::config::ConfigErrorKind;
use pyoxidizer::config::ConfigValue;
use pyoxidizer::config::Distribution;
use pyoxidizer::config::EmbeddedPythonConfig;
use pyoxidizer::config::InstallLocation;
use pyoxidizer::config::PythonDistributionLocation;
use pyoxidizer::config::PythonPackaging;
use pyoxidizer::config::RawAllocator;
use pyoxidizer::config::RunMode;
use pyoxidizer::config::TerminfoResolution;

fn embedded() -> EmbeddedPythonConfig {
    EmbeddedPythonConfig {
        bytes_warning: 0,
        dont_write_bytecode: true,
        ignore_environment: true,
        inspect: false,
        interactive: false,
        isolated: false,
        legacy_windows_fs_encoding: false,
        legacy_windows_stdio: false,
        no_site: true,
        no_user_site_directory: true,
        optimize_level: 0,
        parser_debug: false,
        quiet: false,
        stdio_encoding_name: None,
        stdio_encoding_errors: None,
        unbuffered_stdio: false,
        use_hash_seed: false,
        verbose: 0,
        filesystem_importer: false,
        sys_frozen: false,
        sys_meipass: false,
        sys_paths: Vec::new(),
        raw_allocator: RawAllocator::Jemalloc,
        terminfo_resolution: TerminfoResolution::Dynamic,
        write_modules_directory_env: None,
    }
}

fn distribution() -> PythonDistributionLocation {
    PythonDistributionLocation::Url {
        url: String::from("https://example.com/cpython.tar.zst"),
        sha256: String::from("0123456789abcdef"),
    }
}

fn stdlib() -> PythonPackaging {
    PythonPackaging::Stdlib {
        optimize_level: 0,
        exclude_test_modules: true,
        include_source: true,
        include_resources: false,
        install_location: InstallLocation::Embedded,
    }
}

fn policy() -> PythonPackaging {
    PythonPackaging::StdlibExtensionsPolicy {
        policy: String::from("minimal"),
    }
}

fn basic() -> ConfigArguments {
    ConfigArguments {
        application_name: Some(ConfigValue::Text(String::from("myapp"))),
        embedded_python_config: ConfigValue::EmbeddedPythonConfig(embedded()),
        python_distribution: ConfigValue::PythonDistribution(distribution()),
        packaging_rules: ConfigValue::List(vec![
            ConfigValue::PackagingRule(stdlib()),
            ConfigValue::PackagingRule(policy()),
        ]),
        python_run_mode: ConfigValue::PythonRunMode(RunMode::Repl),
        distributions: ConfigValue::Nothing,
    }
}

fn make(arguments: ConfigArguments) -> Result<Config, (ConfigErrorKind, String)> {
    Config::from_arguments(arguments, String::from("build"), String::from("pyoxidizer.bzl"))
        .map_err(|e| (e.kind, e.message))
}

fn error_of(arguments: ConfigArguments) -> (ConfigErrorKind, String) {
    make(arguments).unwrap_err()
}

#[test]
fn test_config_default() {
    let err = Config::from_arguments(
        ConfigArguments::new(),
        String::from("build"),
        String::from("pyoxidizer.bzl"),
    )
    .unwrap_err();
    assert!(err
        .message
        .starts_with("Missing parameter application_name"));
    assert_eq!(err.kind, ConfigErrorKind::MissingParameter);
}

#[test]
fn test_config_basic() {
    let config = make(basic()).unwrap();
    assert_eq!(config.get_type(), "Config");
    assert!(config.to_bool());
    assert_eq!(config.config_path, "pyoxidizer.bzl");
    assert_eq!(config.build_config.application_name, "myapp");
    assert_eq!(config.build_config.build_path, "build");
    assert_eq!(config.embedded_python_config, embedded());
    assert_eq!(config.python_distribution, distribution());
    assert_eq!(config.python_packaging, vec![stdlib(), policy()]);
    assert_eq!(config.run, RunMode::Repl);
    assert!(config.distributions.is_empty());
}

#[test]
fn config_takes_distributions() {
    let mut arguments = basic();
    arguments.distributions = ConfigValue::List(vec![
        ConfigValue::Distribution(Distribution::Tarball { path_prefix: None }),
        ConfigValue::Distribution(Distribution::WixInstaller {
            msi_upgrade_code_x86: None,
            msi_upgrade_code_amd64: Some(String::from("code")),
        }),
    ]);
    let config = make(arguments).unwrap();
    assert_eq!(
        config.distributions,
        vec![
            Distribution::Tarball { path_prefix: None },
            Distribution::WixInstaller {
                msi_upgrade_code_x86: None,
                msi_upgrade_code_amd64: Some(String::from("code")),
            },
        ]
    );
}

#[test]
fn config_names_the_value_of_the_wrong_type() {
    let mut arguments = basic();
    arguments.application_name = Some(ConfigValue::List(Vec::new()));
    assert_eq!(
        error_of(arguments),
        (
            ConfigErrorKind::WrongType,
            String::from("function expects a string for application_name; got type list")
        )
    );
    let mut arguments = basic();
    arguments.embedded_python_config = ConfigValue::Nothing;
    assert_eq!(
        error_of(arguments),
        (
            ConfigErrorKind::WrongType,
            String::from(
                "function expects a EmbeddedPythonConfig for embedded_python_config; got type NoneType"
            )
        )
    );
    let mut arguments = basic();
    arguments.python_distribution = ConfigValue::PythonRunMode(RunMode::Noop);
    arguments.python_run_mode = ConfigValue::Nothing;
    assert_eq!(
        error_of(arguments),
        (
            ConfigErrorKind::WrongType,
            String::from(
                "function expects a PythonDistribution for python_distribution; got type PythonRunMode"
            )
        )
    );
    let mut arguments = basic();
    arguments.python_run_mode = ConfigValue::Other {
        kind_name: String::from("int"),
    };
    assert_eq!(
        error_of(arguments),
        (
            ConfigErrorKind::WrongType,
            String::from("function expects a PythonRunMode for python_run_mode; got type int")
        )
    );
}

#[test]
fn config_wants_rules_in_a_list() {
    let mut arguments = basic();
    arguments.packaging_rules = ConfigValue::Nothing;
    assert_eq!(
        error_of(arguments),
        (
            ConfigErrorKind::NotIterable,
            String::from("packaging_rules is not iterable")
        )
    );
    let mut arguments = basic();
    arguments.packaging_rules = ConfigValue::List(vec![
        ConfigValue::PackagingRule(stdlib()),
        ConfigValue::Text(String::from("Stdlib")),
        ConfigValue::Distribution(Distribution::Tarball { path_prefix: None }),
    ]);
    assert_eq!(
        error_of(arguments),
        (
            ConfigErrorKind::InvalidPackagingRule,
            String::from("invalid packaging rule type: string")
        )
    );
}

#[test]
fn config_wants_distributions_in_a_list_or_left_out() {
    let mut arguments = basic();
    arguments.distributions = ConfigValue::Text(String::from("tarball"));
    assert_eq!(
        error_of(arguments),
        (
            ConfigErrorKind::DistributionsNotAList,
            String::from("distributions must be a list or None")
        )
    );
    let mut arguments = basic();
    arguments.distributions = ConfigValue::List(vec![ConfigValue::PackagingRule(
        PythonPackaging::WriteLicenseFiles {
            path: String::from("licenses"),
        },
    )]);
    assert_eq!(
        error_of(arguments),
        (
            ConfigErrorKind::InvalidDistribution,
            String::from("invalid packaging rule type: WriteLicenseFiles")
        )
    );
}

#[test]
fn config_needs_the_standard_library_and_a_policy() {
    let mut arguments = basic();
    arguments.packaging_rules = ConfigValue::List(vec![ConfigValue::PackagingRule(stdlib())]);
    assert_eq!(
        error_of(arguments),
        (
            ConfigErrorKind::NoStdlibExtensionsPolicy,
            String::from("no StdLibExtensionsPolicy packaging rule")
        )
    );
    let mut arguments = basic();
    arguments.packaging_rules = ConfigValue::List(vec![ConfigValue::PackagingRule(policy())]);
    assert_eq!(
        error_of(arguments),
        (
            ConfigErrorKind::NoStdlib,
            String::from("no StdLib packaging rule")
        )
    );
    let mut arguments = basic();
    arguments.packaging_rules = ConfigValue::List(Vec::new());
    assert_eq!(error_of(arguments).0, ConfigErrorKind::NoStdlibExtensionsPolicy);
}

#[test]
fn config_reports_the_first_error() {
    let mut arguments = basic();
    arguments.application_name = None;
    arguments.embedded_python_config = ConfigValue::Nothing;
    arguments.packaging_rules = ConfigValue::Nothing;
    assert_eq!(error_of(arguments).0, ConfigErrorKind::MissingParameter);
    let mut arguments = basic();
    arguments.packaging_rules = ConfigValue::List(Vec::new());
    arguments.distributions = ConfigValue::Text(String::from("x"));
    assert_eq!(error_of(arguments).0, ConfigErrorKind::DistributionsNotAList);
}

#[test]
fn values_know_their_types() {
    assert_eq!(ConfigValue::Nothing.get_type(), "NoneType");
    assert_eq!(ConfigValue::Text(String::new()).get_type(), "string");
    assert_eq!(ConfigValue::List(Vec::new()).get_type(), "list");
    assert_eq!(ConfigValue::PackagingRule(stdlib()).get_type(), "Stdlib");
    assert_eq!(
        ConfigValue::PackagingRule(policy()).get_type(),
        "StdlibExtensionsPolicy"
    );
    assert_eq!(
        ConfigValue::PackagingRule(PythonPackaging::FilterInclude {
            files: Vec::new(),
            glob_files: Vec::new()
        })
        .get_type(),
        "FilterInclude"
    );
    assert_eq!(
        ConfigValue::Distribution(Distribution::Tarball { path_prefix: None }).get_type(),
        "TarballDistribution"
    );
    assert_eq!(
        ConfigValue::Other {
            kind_name: String::from("dict")
        }
        .get_type(),
        "dict"
    );
}
