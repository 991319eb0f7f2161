//! How the embedded interpreter is to be set up.

use vstd::prelude::*;
use vstd::string::StringExecFns;

verus! {

/// The allocator that the interpreter gets its raw memory from.
#[derive(Debug, Clone, Copy, PartialEq, Eq)]
pub enum RawAllocator {
    Jemalloc,
    Rust,
    System,
}

/// How the interpreter finds the terminfo database.
#[derive(Debug, Clone, PartialEq, Eq)]
pub enum TerminfoResolution {
    /// It looks for it when it starts.
    Dynamic,
    /// It does not look for it.
    NoResolution,
    /// It is told where it is.
    Static(String),
}

/// What the interpreter does once it is up.
#[derive(Debug, Clone, PartialEq, Eq)]
pub enum RunMode {
    /// Nothing.
    Noop,
    /// It reads, evaluates and prints.
    Repl,
    /// It runs a module as `__main__`.
    Module { module: String },
    /// It evaluates code.
    Eval { code: String },
}

/// The options of the embedded interpreter.
#[derive(Debug, Clone, PartialEq, Eq)]
pub struct EmbeddedPythonConfig {
    pub bytes_warning: i32,
    pub dont_write_bytecode: bool,
    pub ignore_environment: bool,
    pub inspect: bool,
    pub interactive: bool,
    pub isolated: bool,
    pub legacy_windows_fs_encoding: bool,
    pub legacy_windows_stdio: bool,
    pub no_site: bool,
    pub no_user_site_directory: bool,
    pub optimize_level: i64,
    pub parser_debug: bool,
    pub quiet: bool,
    pub stdio_encoding_name: Option<String>,
    pub stdio_encoding_errors: Option<String>,
    pub unbuffered_stdio: bool,
    pub use_hash_seed: bool,
    pub verbose: i32,
    pub filesystem_importer: bool,
    pub sys_frozen: bool,
    pub sys_meipass: bool,
    pub sys_paths: Vec<String>,
    pub raw_allocator: RawAllocator,
    pub terminfo_resolution: TerminfoResolution,
    pub write_modules_directory_env: Option<String>,
}

/// Where the Python distribution comes from.
#[derive(Debug, Clone, PartialEq, Eq)]
pub enum PythonDistributionLocation {
    /// A file on this machine.
    Local { local_path: String, sha256: String },
    /// A file to be fetched.
    Url { url: String, sha256: String },
}

/// What is built, and where.
#[derive(Debug, Clone, PartialEq, Eq)]
pub struct BuildConfig {
    pub application_name: String,
    pub build_path: String,
}

/// Where the resources of a rule go.
#[derive(Debug, Clone, PartialEq, Eq)]
pub enum InstallLocation {
    Embedded,
    AppRelative { path: String },
}

/// A packaging rule, as the configuration states it.
#[derive(Debug, Clone, PartialEq, Eq)]
pub enum PythonPackaging {
    /// Keep the names that files list.
    FilterInclude { files: Vec<String>, glob_files: Vec<String> },
    /// Take the standard library.
    Stdlib {
        optimize_level: i64,
        exclude_test_modules: bool,
        include_source: bool,
        include_resources: bool,
        install_location: InstallLocation,
    },
    /// Take one variant of an extension module.
    StdlibExtensionVariant { extension: String, variant: String },
    /// Leave out extension modules by name.
    StdlibExtensionsExplicitExcludes { excludes: Vec<String> },
    /// Take extension modules by name.
    StdlibExtensionsExplicitIncludes { includes: Vec<String> },
    /// Take the extension modules that a policy picks.
    StdlibExtensionsPolicy { policy: String },
    /// Write licence files into a directory.
    WriteLicenseFiles { path: String },
}

/// A form in which the built application is handed on.
#[derive(Debug, Clone, PartialEq, Eq)]
pub enum Distribution {
    Tarball { path_prefix: Option<String> },
    WixInstaller { msi_upgrade_code_x86: Option<String>, msi_upgrade_code_amd64: Option<String> },
}

/// A configuration: what to build, from which distribution, by which rules.
#[derive(Debug, Clone, PartialEq, Eq)]
pub struct Config {
    pub config_path: String,
    pub build_config: BuildConfig,
    pub embedded_python_config: EmbeddedPythonConfig,
    pub python_distribution: PythonDistributionLocation,
    pub python_packaging: Vec<PythonPackaging>,
    pub run: RunMode,
    pub distributions: Vec<Distribution>,
}

/// What a `Config` holds.
pub struct ConfigView {
    pub config_path: Seq<char>,
    pub application_name: Seq<char>,
    pub build_path: Seq<char>,
    pub embedded_python_config: EmbeddedPythonConfig,
    pub python_distribution: PythonDistributionLocation,
    pub python_packaging: Seq<PythonPackaging>,
    pub run: RunMode,
    pub distributions: Seq<Distribution>,
}

impl View for Config {
    type V = ConfigView;

    open spec fn view(&self) -> ConfigView {
        ConfigView {
            config_path: self.config_path@,
            application_name: self.build_config.application_name@,
            build_path: self.build_config.build_path@,
            embedded_python_config: self.embedded_python_config,
            python_distribution: self.python_distribution,
            python_packaging: self.python_packaging@,
            run: self.run,
            distributions: self.distributions@,
        }
    }
}

/// A value that is handed to the configuration, as far as the
/// configuration reads it.
#[derive(Debug, PartialEq, Eq)]
pub enum ConfigValue {
    /// No value.
    Nothing,
    /// A text.
    Text(String),
    /// The options of the embedded interpreter.
    EmbeddedPythonConfig(EmbeddedPythonConfig),
    /// Where the distribution comes from.
    PythonDistribution(PythonDistributionLocation),
    /// What the interpreter does once it is up.
    PythonRunMode(RunMode),
    /// A packaging rule.
    PackagingRule(PythonPackaging),
    /// A form in which the application is handed on.
    Distribution(Distribution),
    /// A list of values.
    List(Vec<ConfigValue>),
    /// A value of another type.
    Other { kind_name: String },
}

/// The name of the type of a packaging rule.
pub open spec fn rule_type_name(rule: PythonPackaging) -> Seq<char> {
    match rule {
        PythonPackaging::FilterInclude { .. } => "FilterInclude"@,
        PythonPackaging::Stdlib { .. } => "Stdlib"@,
        PythonPackaging::StdlibExtensionVariant { .. } => "StdlibExtensionVariant"@,
        PythonPackaging::StdlibExtensionsExplicitExcludes { .. } => "StdlibExtensionsExplicitExcludes"@,
        PythonPackaging::StdlibExtensionsExplicitIncludes { .. } => "StdlibExtensionsExplicitIncludes"@,
        PythonPackaging::StdlibExtensionsPolicy { .. } => "StdlibExtensionsPolicy"@,
        PythonPackaging::WriteLicenseFiles { .. } => "WriteLicenseFiles"@,
    }
}

/// The name of the type of a value.
pub open spec fn kind_name(value: ConfigValue) -> Seq<char> {
    match value {
        ConfigValue::Nothing => "NoneType"@,
        ConfigValue::Text(_) => "string"@,
        ConfigValue::EmbeddedPythonConfig(_) => "EmbeddedPythonConfig"@,
        ConfigValue::PythonDistribution(_) => "PythonDistribution"@,
        ConfigValue::PythonRunMode(_) => "PythonRunMode"@,
        ConfigValue::PackagingRule(rule) => rule_type_name(rule),
        ConfigValue::Distribution(Distribution::Tarball { .. }) => "TarballDistribution"@,
        ConfigValue::Distribution(Distribution::WixInstaller { .. }) => "WixInstallerDistribution"@,
        ConfigValue::List(_) => "list"@,
        ConfigValue::Other { kind_name } => kind_name@,
    }
}

impl ConfigValue {
    /// The name of the type of the value.
    pub fn get_type(&self) -> (name: String)
        ensures
            name@ == kind_name(*self),
    {
        match self {
            ConfigValue::Nothing => String::from_str("NoneType"),
            ConfigValue::Text(_) => String::from_str("string"),
            ConfigValue::EmbeddedPythonConfig(_) => String::from_str("EmbeddedPythonConfig"),
            ConfigValue::PythonDistribution(_) => String::from_str("PythonDistribution"),
            ConfigValue::PythonRunMode(_) => String::from_str("PythonRunMode"),
            ConfigValue::PackagingRule(rule) => match rule {
                PythonPackaging::FilterInclude { .. } => String::from_str("FilterInclude"),
                PythonPackaging::Stdlib { .. } => String::from_str("Stdlib"),
                PythonPackaging::StdlibExtensionVariant { .. } => String::from_str(
                    "StdlibExtensionVariant",
                ),
                PythonPackaging::StdlibExtensionsExplicitExcludes { .. } => String::from_str(
                    "StdlibExtensionsExplicitExcludes",
                ),
                PythonPackaging::StdlibExtensionsExplicitIncludes { .. } => String::from_str(
                    "StdlibExtensionsExplicitIncludes",
                ),
                PythonPackaging::StdlibExtensionsPolicy { .. } => String::from_str(
                    "StdlibExtensionsPolicy",
                ),
                PythonPackaging::WriteLicenseFiles { .. } => String::from_str("WriteLicenseFiles"),
            },
            ConfigValue::Distribution(distribution) => match distribution {
                Distribution::Tarball { .. } => String::from_str("TarballDistribution"),
                Distribution::WixInstaller { .. } => String::from_str("WixInstallerDistribution"),
            },
            ConfigValue::List(_) => String::from_str("list"),
            ConfigValue::Other { kind_name } => kind_name.clone(),
        }
    }
}

/// The values that a configuration is made from. All but the name of the
/// application may be left out: what is left out is `Nothing`.
#[derive(Debug, PartialEq, Eq)]
pub struct ConfigArguments {
    pub application_name: Option<ConfigValue>,
    pub embedded_python_config: ConfigValue,
    pub python_distribution: ConfigValue,
    pub packaging_rules: ConfigValue,
    pub python_run_mode: ConfigValue,
    pub distributions: ConfigValue,
}

impl ConfigArguments {
    /// No value at all.
    pub fn new() -> (arguments: Self)
        ensures
            arguments.application_name is None,
            arguments.embedded_python_config is Nothing,
            arguments.python_distribution is Nothing,
            arguments.packaging_rules is Nothing,
            arguments.python_run_mode is Nothing,
            arguments.distributions is Nothing,
    {
        ConfigArguments {
            application_name: None,
            embedded_python_config: ConfigValue::Nothing,
            python_distribution: ConfigValue::Nothing,
            packaging_rules: ConfigValue::Nothing,
            python_run_mode: ConfigValue::Nothing,
            distributions: ConfigValue::Nothing,
        }
    }
}

/// Why values make no configuration.
#[derive(Debug, Clone, Copy, PartialEq, Eq)]
pub enum ConfigErrorKind {
    /// The name of the application is not given.
    MissingParameter,
    /// A value is not of the type that its place asks for.
    WrongType,
    /// The packaging rules are no list.
    NotIterable,
    /// Something among the packaging rules is none.
    InvalidPackagingRule,
    /// Something among the distributions is none.
    InvalidDistribution,
    /// The distributions are neither a list nor left out.
    DistributionsNotAList,
    /// No rule picks extension modules by a policy.
    NoStdlibExtensionsPolicy,
    /// No rule takes the standard library.
    NoStdlib,
}

/// Why values make no configuration, with the text that says so.
#[derive(Debug, Clone, PartialEq, Eq)]
pub struct ConfigError {
    pub kind: ConfigErrorKind,
    pub message: String,
}

/// What an error says.
pub struct ConfigErrorView {
    pub kind: ConfigErrorKind,
    pub message: Seq<char>,
}

impl View for ConfigError {
    type V = ConfigErrorView;

    open spec fn view(&self) -> ConfigErrorView {
        ConfigErrorView { kind: self.kind, message: self.message@ }
    }
}

/// The error of a value that is not of the type that its place asks for.
pub open spec fn wrong_type(parameter: Seq<char>, expected: Seq<char>, found: Seq<char>) -> ConfigErrorView {
    ConfigErrorView {
        kind: ConfigErrorKind::WrongType,
        message: "function expects a "@ + expected + " for "@ + parameter + "; got type "@ + found,
    }
}

/// The error of something that is not of one of the types of a list.
pub open spec fn invalid_type(kind: ConfigErrorKind, found: Seq<char>) -> ConfigErrorView {
    ConfigErrorView { kind, message: "invalid packaging rule type: "@ + found }
}

/// The error that has a text of its own.
pub open spec fn plain_error(kind: ConfigErrorKind) -> ConfigErrorView {
    ConfigErrorView {
        kind,
        message: match kind {
            ConfigErrorKind::MissingParameter => "Missing parameter application_name for call to Config"@,
            ConfigErrorKind::NotIterable => "packaging_rules is not iterable"@,
            ConfigErrorKind::DistributionsNotAList => "distributions must be a list or None"@,
            ConfigErrorKind::NoStdlibExtensionsPolicy => "no StdLibExtensionsPolicy packaging rule"@,
            ConfigErrorKind::NoStdlib => "no StdLib packaging rule"@,
            _ => Seq::empty(),
        },
    }
}

/// The packaging rules that the values of a list are, or the error of the
/// first that is none.
pub open spec fn rules_of(items: Seq<ConfigValue>) -> Result<Seq<PythonPackaging>, ConfigErrorView>
    decreases items.len(),
{
    if items.len() == 0 {
        Ok(Seq::empty())
    } else {
        match rules_of(items.drop_last()) {
            Err(e) => Err(e),
            Ok(rules) => match items.last() {
                ConfigValue::PackagingRule(rule) => Ok(rules.push(rule)),
                other => Err(
                    invalid_type(ConfigErrorKind::InvalidPackagingRule, kind_name(other)),
                ),
            },
        }
    }
}

/// The distributions that the values of a list are, or the error of the
/// first that is none.
pub open spec fn distributions_of(items: Seq<ConfigValue>) -> Result<
    Seq<Distribution>,
    ConfigErrorView,
>
    decreases items.len(),
{
    if items.len() == 0 {
        Ok(Seq::empty())
    } else {
        match distributions_of(items.drop_last()) {
            Err(e) => Err(e),
            Ok(distributions) => match items.last() {
                ConfigValue::Distribution(distribution) => Ok(distributions.push(distribution)),
                other => Err(invalid_type(ConfigErrorKind::InvalidDistribution, kind_name(other))),
            },
        }
    }
}

/// Whether one of the rules picks extension modules by a policy.
pub open spec fn has_extensions_policy(rules: Seq<PythonPackaging>) -> bool {
    exists|i: int| 0 <= i < rules.len() && (#[trigger] rules[i]) is StdlibExtensionsPolicy
}

/// Whether one of the rules takes the standard library.
pub open spec fn has_stdlib(rules: Seq<PythonPackaging>) -> bool {
    exists|i: int| 0 <= i < rules.len() && (#[trigger] rules[i]) is Stdlib
}

/// The configuration that the values make, or why they make none. The
/// values are looked at in this order: the name of the application, the
/// options of the interpreter, the distribution, the run mode, the rules,
/// the distributions; then the rules are looked through for the two that
/// every configuration needs.
pub open spec fn config_of(
    arguments: ConfigArguments,
    build_path: Seq<char>,
    config_path: Seq<char>,
) -> Result<ConfigView, ConfigErrorView> {
    match arguments.application_name {
        None => Err(plain_error(ConfigErrorKind::MissingParameter)),
        Some(ConfigValue::Text(application_name)) => match arguments.embedded_python_config {
            ConfigValue::EmbeddedPythonConfig(embedded_python_config) => match arguments.python_distribution {
                ConfigValue::PythonDistribution(python_distribution) => match arguments.python_run_mode {
                    ConfigValue::PythonRunMode(run) => match arguments.packaging_rules {
                        ConfigValue::List(rules) => match rules_of(rules@) {
                            Err(e) => Err(e),
                            Ok(python_packaging) => {
                                let distributions = match arguments.distributions {
                                    ConfigValue::List(items) => distributions_of(items@),
                                    ConfigValue::Nothing => Ok(Seq::empty()),
                                    _ => Err(plain_error(ConfigErrorKind::DistributionsNotAList)),
                                };
                                match distributions {
                                    Err(e) => Err(e),
                                    Ok(distributions) => if !has_extensions_policy(
                                        python_packaging,
                                    ) {
                                        Err(plain_error(ConfigErrorKind::NoStdlibExtensionsPolicy))
                                    } else if !has_stdlib(python_packaging) {
                                        Err(plain_error(ConfigErrorKind::NoStdlib))
                                    } else {
                                        Ok(
                                            ConfigView {
                                                config_path,
                                                application_name: application_name@,
                                                build_path,
                                                embedded_python_config,
                                                python_distribution,
                                                python_packaging,
                                                run,
                                                distributions,
                                            },
                                        )
                                    },
                                }
                            },
                        },
                        _ => Err(plain_error(ConfigErrorKind::NotIterable)),
                    },
                    other => Err(
                        wrong_type("python_run_mode"@, "PythonRunMode"@, kind_name(other)),
                    ),
                },
                other => Err(
                    wrong_type("python_distribution"@, "PythonDistribution"@, kind_name(other)),
                ),
            },
            other => Err(
                wrong_type("embedded_python_config"@, "EmbeddedPythonConfig"@, kind_name(other)),
            ),
        },
        Some(other) => Err(wrong_type("application_name"@, "string"@, kind_name(other))),
    }
}

/// The error of a value that is not of the type that its place asks for.
fn wrong_type_error(parameter: &str, expected: &str, found: &ConfigValue) -> (e: ConfigError)
    ensures
        e@ == wrong_type(parameter@, expected@, kind_name(*found)),
{
    let mut message = String::from_str("function expects a ");
    message.append(expected);
    message.append(" for ");
    message.append(parameter);
    message.append("; got type ");
    message.append(found.get_type().as_str());
    ConfigError { kind: ConfigErrorKind::WrongType, message }
}

/// The error of something that is not of one of the types of a list.
fn invalid_type_error(kind: ConfigErrorKind, found: &ConfigValue) -> (e: ConfigError)
    ensures
        e@ == invalid_type(kind, kind_name(*found)),
{
    let mut message = String::from_str("invalid packaging rule type: ");
    message.append(found.get_type().as_str());
    ConfigError { kind, message }
}

/// The error that has a text of its own.
fn plain_config_error(kind: ConfigErrorKind) -> (e: ConfigError)
    ensures
        e@ == plain_error(kind),
{
    let message = match kind {
        ConfigErrorKind::MissingParameter => String::from_str(
            "Missing parameter application_name for call to Config",
        ),
        ConfigErrorKind::NotIterable => String::from_str("packaging_rules is not iterable"),
        ConfigErrorKind::DistributionsNotAList => String::from_str(
            "distributions must be a list or None",
        ),
        ConfigErrorKind::NoStdlibExtensionsPolicy => String::from_str(
            "no StdLibExtensionsPolicy packaging rule",
        ),
        ConfigErrorKind::NoStdlib => String::from_str("no StdLib packaging rule"),
        _ => String::new(),
    };
    ConfigError { kind, message }
}

/// The packaging rules that the values of a list are.
fn collect_rules(items: Vec<ConfigValue>) -> (r: Result<Vec<PythonPackaging>, ConfigError>)
    ensures
        r is Ok <==> rules_of(items@) is Ok,
        r is Ok ==> r->Ok_0@ == rules_of(items@)->Ok_0,
        r is Err ==> r->Err_0@ == rules_of(items@)->Err_0,
{
    let ghost all = items@;
    let mut rules: Vec<PythonPackaging> = Vec::new();
    proof {
        assert(all.subrange(0, 0) =~= Seq::<ConfigValue>::empty());
    }
    for item in it: items
        invariant
            it.seq() == all,
            all == items@,
            rules_of(all.subrange(0, it.index() as int)) == Ok::<
                Seq<PythonPackaging>,
                ConfigErrorView,
            >(rules@),
    {
        let ghost i = it.index() as int;
        proof {
            let longer = all.subrange(0, i + 1);
            assert(longer.drop_last() =~= all.subrange(0, i));
            assert(longer.last() == item);
        }
        match item {
            ConfigValue::PackagingRule(rule) => {
                rules.push(rule);
            },
            other => {
                proof {
                    lemma_rules_error(all, i + 1);
                }
                return Err(invalid_type_error(ConfigErrorKind::InvalidPackagingRule, &other));
            },
        }
    }
    proof {
        assert(all.subrange(0, all.len() as int) =~= all);
    }
    Ok(rules)
}

/// An error in a part of the list is the error of the whole.
pub proof fn lemma_rules_error(items: Seq<ConfigValue>, count: int)
    requires
        0 <= count <= items.len(),
        rules_of(items.subrange(0, count)) is Err,
    ensures
        rules_of(items) == rules_of(items.subrange(0, count)),
    decreases items.len() - count,
{
    if count < items.len() {
        let longer = items.subrange(0, count + 1);
        assert(longer.drop_last() =~= items.subrange(0, count));
        lemma_rules_error(items, count + 1);
    } else {
        assert(items.subrange(0, count) =~= items);
    }
}

/// An error in a part of the list is the error of the whole.
pub proof fn lemma_distributions_error(items: Seq<ConfigValue>, count: int)
    requires
        0 <= count <= items.len(),
        distributions_of(items.subrange(0, count)) is Err,
    ensures
        distributions_of(items) == distributions_of(items.subrange(0, count)),
    decreases items.len() - count,
{
    if count < items.len() {
        let longer = items.subrange(0, count + 1);
        assert(longer.drop_last() =~= items.subrange(0, count));
        lemma_distributions_error(items, count + 1);
    } else {
        assert(items.subrange(0, count) =~= items);
    }
}

/// The distributions that the values of a list are.
fn collect_distributions(items: Vec<ConfigValue>) -> (r: Result<Vec<Distribution>, ConfigError>)
    ensures
        r is Ok <==> distributions_of(items@) is Ok,
        r is Ok ==> r->Ok_0@ == distributions_of(items@)->Ok_0,
        r is Err ==> r->Err_0@ == distributions_of(items@)->Err_0,
{
    let ghost all = items@;
    let mut distributions: Vec<Distribution> = Vec::new();
    proof {
        assert(all.subrange(0, 0) =~= Seq::<ConfigValue>::empty());
    }
    for item in it: items
        invariant
            it.seq() == all,
            all == items@,
            distributions_of(all.subrange(0, it.index() as int)) == Ok::<
                Seq<Distribution>,
                ConfigErrorView,
            >(distributions@),
    {
        let ghost i = it.index() as int;
        proof {
            let longer = all.subrange(0, i + 1);
            assert(longer.drop_last() =~= all.subrange(0, i));
            assert(longer.last() == item);
        }
        match item {
            ConfigValue::Distribution(distribution) => {
                distributions.push(distribution);
            },
            other => {
                proof {
                    lemma_distributions_error(all, i + 1);
                }
                return Err(invalid_type_error(ConfigErrorKind::InvalidDistribution, &other));
            },
        }
    }
    proof {
        assert(all.subrange(0, all.len() as int) =~= all);
    }
    Ok(distributions)
}

/// Whether one of the rules picks extension modules by a policy, and
/// whether one takes the standard library.
fn needed_rules(rules: &Vec<PythonPackaging>) -> (r: (bool, bool))
    ensures
        r.0 == has_extensions_policy(rules@),
        r.1 == has_stdlib(rules@),
{
    let mut have_policy = false;
    let mut have_stdlib = false;
    let n = rules.len();
    let mut i: usize = 0;
    while i < n
        invariant
            i <= n,
            n == rules@.len(),
            have_policy == (exists|j: int|
                0 <= j < i && (#[trigger] rules@[j]) is StdlibExtensionsPolicy),
            have_stdlib == (exists|j: int| 0 <= j < i && (#[trigger] rules@[j]) is Stdlib),
        decreases n - i,
    {
        match &rules[i] {
            PythonPackaging::StdlibExtensionsPolicy { .. } => {
                have_policy = true;
            },
            PythonPackaging::Stdlib { .. } => {
                have_stdlib = true;
            },
            _ => {},
        }
        i += 1;
    }
    (have_policy, have_stdlib)
}

impl Config {
    /// Makes a configuration from the values that were handed over for it.
    pub fn from_arguments(arguments: ConfigArguments, build_path: String, config_path: String) -> (r:
        Result<Config, ConfigError>)
        ensures
            r is Ok <==> config_of(arguments, build_path@, config_path@) is Ok,
            r is Ok ==> r->Ok_0@ == config_of(arguments, build_path@, config_path@)->Ok_0,
            r is Err ==> r->Err_0@ == config_of(arguments, build_path@, config_path@)->Err_0,
    {
        let ConfigArguments {
            application_name,
            embedded_python_config,
            python_distribution,
            packaging_rules,
            python_run_mode,
            distributions,
        } = arguments;
        let application_name = match application_name {
            None => {
                return Err(plain_config_error(ConfigErrorKind::MissingParameter));
            },
            Some(ConfigValue::Text(name)) => name,
            Some(other) => {
                return Err(wrong_type_error("application_name", "string", &other));
            },
        };
        let embedded_python_config = match embedded_python_config {
            ConfigValue::EmbeddedPythonConfig(config) => config,
            other => {
                return Err(
                    wrong_type_error("embedded_python_config", "EmbeddedPythonConfig", &other),
                );
            },
        };
        let python_distribution = match python_distribution {
            ConfigValue::PythonDistribution(location) => location,
            other => {
                return Err(wrong_type_error("python_distribution", "PythonDistribution", &other));
            },
        };
        let run = match python_run_mode {
            ConfigValue::PythonRunMode(run) => run,
            other => {
                return Err(wrong_type_error("python_run_mode", "PythonRunMode", &other));
            },
        };
        let python_packaging = match packaging_rules {
            ConfigValue::List(items) => match collect_rules(items) {
                Ok(rules) => rules,
                Err(e) => {
                    return Err(e);
                },
            },
            _ => {
                return Err(plain_config_error(ConfigErrorKind::NotIterable));
            },
        };
        let distributions = match distributions {
            ConfigValue::List(items) => match collect_distributions(items) {
                Ok(distributions) => distributions,
                Err(e) => {
                    return Err(e);
                },
            },
            ConfigValue::Nothing => Vec::new(),
            _ => {
                return Err(plain_config_error(ConfigErrorKind::DistributionsNotAList));
            },
        };
        let (have_policy, have_stdlib) = needed_rules(&python_packaging);
        if !have_policy {
            return Err(plain_config_error(ConfigErrorKind::NoStdlibExtensionsPolicy));
        }
        if !have_stdlib {
            return Err(plain_config_error(ConfigErrorKind::NoStdlib));
        }
        Ok(
            Config {
                config_path,
                build_config: BuildConfig { application_name, build_path },
                embedded_python_config,
                python_distribution,
                python_packaging,
                run,
                distributions,
            },
        )
    }

    /// How values of this type are called.
    pub fn get_type(&self) -> (name: &'static str)
        ensures
            name@ == "Config"@,
    {
        "Config"
    }

    /// A configuration counts as true.
    pub fn to_bool(&self) -> (b: bool)
        ensures
            b,
    {
        true
    }
}

} // verus!
