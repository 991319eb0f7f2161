//! What a build is laid out as: the names and places of what it makes, the
//! lines that it hands to the build tool, and what it leaves behind for the
//! step that installs the application.

use vstd::prelude::*;
use vstd::string::StrSliceExecFns;
use vstd::string::StringExecFns;
use vstd::utf8::encode_utf8;
use crate::audit::contains_text;
use crate::audit::occurs_in;
use crate::config::Config;
use crate::config::PythonDistributionLocation;
use crate::install::InstallFile;
use crate::install::InstallKind;
use crate::install::InstallFileView;
use crate::install::file_views;
use crate::name_map::name_views;
use crate::name_map::push_name;
use crate::name_map::NameMap;
use crate::packages::chars_of;
use crate::resource::AppRelativeResources;

verus! {

/// The name of the directory of a build: `release` or `debug`.
pub open spec fn profile_name(release: bool) -> Seq<char> {
    if release {
        "release"@
    } else {
        "debug"@
    }
}

/// The name of the file of the application: on Windows it ends in `.exe`.
pub open spec fn exe_name(app_name: Seq<char>, target: Seq<char>) -> Seq<char> {
    if occurs_in("pc-windows"@, target) {
        app_name + ".exe"@
    } else {
        app_name
    }
}

/// The name of the directory that a Python distribution is unpacked into:
/// `python.` and the first twelve characters of the hash of the
/// distribution.
pub open spec fn distribution_directory(sha256: Seq<char>) -> Seq<char> {
    "python."@ + sha256.subrange(0, 12)
}

/// Where a build puts what it makes. Each path is given directory by
/// directory, below the directory that all of the build goes into.
#[derive(Debug, Clone, PartialEq, Eq)]
pub struct BuildLayout {
    pub app_name: String,
    pub exe_name: String,
    pub host_triple: String,
    pub target_triple: String,
    pub release: bool,
    /// Where the compiler puts its output.
    pub target_base_path: Vec<String>,
    /// Where the compiler puts its output for this target and profile.
    pub target_triple_base_path: Vec<String>,
    /// The directory of the application among the output of the compiler.
    pub app_target_path: Vec<String>,
    /// The directory that the application is packaged into.
    pub app_path: Vec<String>,
    /// The file of the application among the output of the compiler.
    pub app_exe_target_path: Vec<String>,
    /// The file of the application where it is packaged.
    pub app_exe_path: Vec<String>,
    /// Where the artifacts of packaging go, unless another place is forced.
    pub artifacts_path: Vec<String>,
    /// Where distributions are kept.
    pub distributions_path: Vec<String>,
    /// The directory, below that of the artifacts, that the Python
    /// distribution is unpacked into.
    pub python_distribution_directory: String,
}

/// What a `BuildLayout` holds.
pub struct BuildLayoutView {
    pub app_name: Seq<char>,
    pub exe_name: Seq<char>,
    pub host_triple: Seq<char>,
    pub target_triple: Seq<char>,
    pub release: bool,
    pub target_base_path: Seq<Seq<char>>,
    pub target_triple_base_path: Seq<Seq<char>>,
    pub app_target_path: Seq<Seq<char>>,
    pub app_path: Seq<Seq<char>>,
    pub app_exe_target_path: Seq<Seq<char>>,
    pub app_exe_path: Seq<Seq<char>>,
    pub artifacts_path: Seq<Seq<char>>,
    pub distributions_path: Seq<Seq<char>>,
    pub python_distribution_directory: Seq<char>,
}

impl View for BuildLayout {
    type V = BuildLayoutView;

    open spec fn view(&self) -> BuildLayoutView {
        BuildLayoutView {
            app_name: self.app_name@,
            exe_name: self.exe_name@,
            host_triple: self.host_triple@,
            target_triple: self.target_triple@,
            release: self.release,
            target_base_path: name_views(self.target_base_path@),
            target_triple_base_path: name_views(self.target_triple_base_path@),
            app_target_path: name_views(self.app_target_path@),
            app_path: name_views(self.app_path@),
            app_exe_target_path: name_views(self.app_exe_target_path@),
            app_exe_path: name_views(self.app_exe_path@),
            artifacts_path: name_views(self.artifacts_path@),
            distributions_path: name_views(self.distributions_path@),
            python_distribution_directory: self.python_distribution_directory@,
        }
    }
}

/// The hash that a distribution is known by.
pub open spec fn distribution_hash(location: PythonDistributionLocation) -> Seq<char> {
    match location {
        PythonDistributionLocation::Local { sha256, .. } => sha256@,
        PythonDistributionLocation::Url { sha256, .. } => sha256@,
    }
}

/// The layout of a build of an application for a target. Where no host is
/// given, the build runs on `default_host`.
pub open spec fn layout_of(
    app_name: Seq<char>,
    host: Option<Seq<char>>,
    default_host: Seq<char>,
    target: Seq<char>,
    release: bool,
    sha256: Seq<char>,
) -> BuildLayoutView {
    let profile = profile_name(release);
    let exe = exe_name(app_name, target);
    BuildLayoutView {
        app_name,
        exe_name: exe,
        host_triple: match host {
            Some(host) => host,
            None => default_host,
        },
        target_triple: target,
        release,
        target_base_path: seq!["target"@],
        target_triple_base_path: seq!["target"@, target, profile],
        app_target_path: seq!["target"@, target, profile, app_name],
        app_path: seq!["apps"@, app_name, target, profile],
        app_exe_target_path: seq!["target"@, target, profile, exe],
        app_exe_path: seq!["apps"@, app_name, target, profile, exe],
        artifacts_path: seq!["target"@, target, profile, "pyoxidizer"@],
        distributions_path: seq!["distribution"@],
        python_distribution_directory: distribution_directory(sha256),
    }
}

/// A path of several directories.
fn path_of_3(a: &str, b: &str, c: &str) -> (path: Vec<String>)
    ensures
        name_views(path@) == seq![a@, b@, c@],
{
    let mut path: Vec<String> = Vec::new();
    path.push(String::from_str(a));
    path.push(String::from_str(b));
    path.push(String::from_str(c));
    proof {
        assert(name_views(path@) =~= seq![a@, b@, c@]);
    }
    path
}

/// A path with one directory more.
fn path_with(path: &Vec<String>, last: &str) -> (longer: Vec<String>)
    ensures
        name_views(longer@) == name_views(path@).push(last@),
{
    let mut longer: Vec<String> = Vec::new();
    let n = path.len();
    let mut i: usize = 0;
    while i < n
        invariant
            i <= n,
            n == path@.len(),
            name_views(longer@) == name_views(path@).subrange(0, i as int),
        decreases n - i,
    {
        push_name(&mut longer, path[i].clone());
        proof {
            assert(name_views(longer@) =~= name_views(path@).subrange(0, i as int + 1));
        }
        i += 1;
    }
    longer.push(String::from_str(last));
    proof {
        assert(name_views(path@).subrange(0, n as int) =~= name_views(path@));
        assert(name_views(longer@) =~= name_views(path@).push(last@));
    }
    longer
}

/// The layout of a build.
pub fn derive_build_layout(
    app_name: &str,
    host: Option<&str>,
    default_host: &str,
    target: &str,
    release: bool,
    distribution_sha256: &str,
) -> (layout: BuildLayout)
    requires
        distribution_sha256@.len() >= 12,
    ensures
        layout@ == layout_of(
            app_name@,
            match host {
                Some(host) => Some(host@),
                None => None,
            },
            default_host@,
            target@,
            release,
            distribution_sha256@,
        ),
{
    let profile = if release {
        "release"
    } else {
        "debug"
    };
    let target_chars = chars_of(target);
    let marker = chars_of("pc-windows");
    let mut exe = String::from_str(app_name);
    if contains_text(&target_chars, &marker) {
        exe.append(".exe");
    }
    let host_triple = match host {
        Some(host) => String::from_str(host),
        None => String::from_str(default_host),
    };
    let mut target_base_path: Vec<String> = Vec::new();
    target_base_path.push(String::from_str("target"));
    let mut distributions_path: Vec<String> = Vec::new();
    distributions_path.push(String::from_str("distribution"));
    let target_triple_base_path = path_of_3("target", target, profile);
    let apps = path_of_3("apps", app_name, target);
    let app_path = path_with(&apps, profile);
    let app_target_path = path_with(&target_triple_base_path, app_name);
    let app_exe_target_path = path_with(&target_triple_base_path, exe.as_str());
    let app_exe_path = path_with(&app_path, exe.as_str());
    let artifacts_path = path_with(&target_triple_base_path, "pyoxidizer");
    let mut python_distribution_directory = String::from_str("python.");
    python_distribution_directory.append(distribution_sha256.substring_char(0, 12));
    let layout = BuildLayout {
        app_name: String::from_str(app_name),
        exe_name: exe,
        host_triple,
        target_triple: String::from_str(target),
        release,
        target_base_path,
        target_triple_base_path,
        app_target_path,
        app_path,
        app_exe_target_path,
        app_exe_path,
        artifacts_path,
        distributions_path,
        python_distribution_directory,
    };
    proof {
        let expected = layout_of(
            app_name@,
            match host {
                Some(host) => Some(host@),
                None => None,
            },
            default_host@,
            target@,
            release,
            distribution_sha256@,
        );
        assert(layout@.target_base_path =~= expected.target_base_path);
        assert(layout@.distributions_path =~= expected.distributions_path);
        assert(layout@.target_triple_base_path =~= expected.target_triple_base_path);
        assert(layout@.app_path =~= expected.app_path);
        assert(layout@.app_target_path =~= expected.app_target_path);
        assert(layout@.app_exe_target_path =~= expected.app_exe_target_path);
        assert(layout@.app_exe_path =~= expected.app_exe_path);
        assert(layout@.artifacts_path =~= expected.artifacts_path);
    }
    layout
}

/// The manifest of a project, as `cargo_toml` reads it.
#[verifier::external_type_specification]
#[verifier::external_body]
#[verifier::reject_recursive_types(Metadata)]
pub struct ExManifest<Metadata>(cargo_toml::Manifest<Metadata>);

/// What `cargo_toml` takes for the data of a package that it does not know.
#[verifier::external_type_specification]
#[verifier::external_body]
pub struct ExManifestValue(cargo_toml::Value);

/// Why `cargo_toml` could not read a manifest.
#[verifier::external_type_specification]
#[verifier::external_body]
pub struct ExManifestError(cargo_toml::Error);

/// Whether bytes are a manifest that can be read.
pub uninterp spec fn is_manifest(data: Seq<u8>) -> bool;

/// Calls `cargo_toml::Manifest::from_slice`. Claimed: whether the bytes are
/// read as a manifest depends on the bytes alone.
#[verifier::external_body]
fn parse_manifest(data: &Vec<u8>) -> (r: Result<cargo_toml::Manifest, cargo_toml::Error>)
    ensures
        r is Ok == is_manifest(data@),
{
    cargo_toml::Manifest::from_slice(data.as_slice())
}

/// Calls `to_string` on an error of `cargo_toml`. Nothing is claimed of
/// the text.
#[verifier::external_body]
fn manifest_error_text(error: &cargo_toml::Error) -> (text: String) {
    error.to_string()
}

/// Where the artifacts of packaging go.
#[derive(Debug, Clone, PartialEq, Eq)]
pub enum ArtifactsPlace {
    /// Into a directory that was asked for.
    Forced(String),
    /// Into the directory of the layout, given directory by directory below
    /// the directory that all of the build goes into.
    BelowBuildPath(Vec<String>),
}

/// Whether a place for the artifacts is the one that was asked for, or,
/// where none was asked for, that of the layout.
pub open spec fn is_artifacts_place(
    place: ArtifactsPlace,
    forced: Option<Seq<char>>,
    layout: BuildLayoutView,
) -> bool {
    match forced {
        Some(directory) => place matches ArtifactsPlace::Forced(path) && path@ == directory,
        None => place matches ArtifactsPlace::BelowBuildPath(path) && name_views(path@)
            == layout.artifacts_path,
    }
}

/// A copy of a path.
fn copy_path(path: &Vec<String>) -> (copy: Vec<String>)
    ensures
        name_views(copy@) == name_views(path@),
{
    let mut copy: Vec<String> = Vec::new();
    let n = path.len();
    let mut i: usize = 0;
    while i < n
        invariant
            i <= n,
            n == path@.len(),
            name_views(copy@) == name_views(path@).subrange(0, i as int),
        decreases n - i,
    {
        push_name(&mut copy, path[i].clone());
        proof {
            assert(name_views(copy@) =~= name_views(path@).subrange(0, i as int + 1));
        }
        i += 1;
    }
    proof {
        assert(name_views(path@).subrange(0, n as int) =~= name_views(path@));
    }
    copy
}

/// Where the artifacts of packaging go: into the directory that was asked
/// for, or, where none was asked for, into that of the layout.
pub fn artifacts_place(forced: Option<&str>, layout: &BuildLayout) -> (place: ArtifactsPlace)
    ensures
        is_artifacts_place(
            place,
            match forced {
                Some(directory) => Some(directory@),
                None => None,
            },
            layout@,
        ),
{
    match forced {
        Some(directory) => ArtifactsPlace::Forced(String::from_str(directory)),
        None => ArtifactsPlace::BelowBuildPath(copy_path(&layout.artifacts_path)),
    }
}

/// What is known of a build before it starts.
#[derive(Debug)]
pub struct BuildContext {
    /// The configuration of the build.
    pub config: Config,
    /// The manifest of the project that is built.
    pub cargo_config: cargo_toml::Manifest,
    /// Whether the build says what it does.
    pub verbose: bool,
    /// Where the build puts what it makes.
    pub layout: BuildLayout,
    /// Where the artifacts of packaging go.
    pub artifacts: ArtifactsPlace,
}

impl BuildContext {
    /// Makes the context of a build from its configuration and the bytes
    /// of the manifest of the project. Bytes that are no manifest are an
    /// error. The artifacts go into `force_artifacts_path` where one is
    /// given, else into the directory of the layout.
    pub fn new(
        config: Config,
        cargo_toml_data: &Vec<u8>,
        host: Option<&str>,
        default_host: &str,
        target: &str,
        release: bool,
        force_artifacts_path: Option<&str>,
        verbose: bool,
    ) -> (r: Result<BuildContext, String>)
        requires
            distribution_hash(config.python_distribution).len() >= 12,
        ensures
            r is Ok == is_manifest(cargo_toml_data@),
            r is Ok ==> r->Ok_0.config == config && r->Ok_0.verbose == verbose && r->Ok_0.layout@
                == layout_of(
                config.build_config.application_name@,
                match host {
                    Some(host) => Some(host@),
                    None => None,
                },
                default_host@,
                target@,
                release,
                distribution_hash(config.python_distribution),
            ) && is_artifacts_place(
                r->Ok_0.artifacts,
                match force_artifacts_path {
                    Some(directory) => Some(directory@),
                    None => None,
                },
                r->Ok_0.layout@,
            ),
    {
        let cargo_config = match parse_manifest(cargo_toml_data) {
            Ok(manifest) => manifest,
            Err(e) => {
                return Err(manifest_error_text(&e));
            },
        };
        let layout = {
            let sha256 = match &config.python_distribution {
                PythonDistributionLocation::Local { sha256, .. } => sha256,
                PythonDistributionLocation::Url { sha256, .. } => sha256,
            };
            derive_build_layout(
                config.build_config.application_name.as_str(),
                host,
                default_host,
                target,
                release,
                sha256.as_str(),
            )
        };
        let artifacts = artifacts_place(force_artifacts_path, &layout);
        Ok(BuildContext { config, cargo_config, verbose, layout, artifacts })
    }
}

/// The line that has the build tool run the build again when a file has
/// changed.
pub open spec fn rerun_if_changed(path: Seq<char>) -> Seq<char> {
    "cargo:rerun-if-changed="@ + path
}

/// The lines for the files.
pub open spec fn rerun_lines(paths: Seq<Seq<char>>) -> Seq<Seq<char>> {
    Seq::new(paths.len(), |i: int| rerun_if_changed(paths[i]))
}

/// The lines that a build hands to the build tool: to run again when the
/// configuration has changed, or the distribution, where it is a file on
/// this machine; what the linker has to say; to run again when a file that
/// was read for the packaging rules has changed; and where the generated
/// source file is.
pub open spec fn cargo_metadata_of(
    config_path: Seq<char>,
    distribution: PythonDistributionLocation,
    linker_lines: Seq<Seq<char>>,
    read_files: Seq<Seq<char>>,
    data_rs_path: Seq<char>,
) -> Seq<Seq<char>> {
    seq![rerun_if_changed(config_path)] + (match distribution {
        PythonDistributionLocation::Local { local_path, .. } => seq![
            rerun_if_changed(local_path@),
        ],
        PythonDistributionLocation::Url { .. } => Seq::empty(),
    }) + linker_lines + rerun_lines(read_files) + seq![
        "cargo:rustc-env=DATA_RS_PATH="@ + data_rs_path,
    ]
}

/// The line that has the build tool run the build again when a file has
/// changed.
fn rerun_line(path: &str) -> (line: String)
    ensures
        line@ == rerun_if_changed(path@),
{
    let mut line = String::from_str("cargo:rerun-if-changed=");
    line.append(path);
    line
}

/// The lines that a build hands to the build tool.
pub fn cargo_metadata_lines(
    config_path: &str,
    distribution: &PythonDistributionLocation,
    linker_lines: &Vec<String>,
    read_files: &Vec<String>,
    data_rs_path: &str,
) -> (lines: Vec<String>)
    ensures
        name_views(lines@) == cargo_metadata_of(
            config_path@,
            *distribution,
            name_views(linker_lines@),
            name_views(read_files@),
            data_rs_path@,
        ),
{
    let mut lines: Vec<String> = Vec::new();
    lines.push(rerun_line(config_path));
    match distribution {
        PythonDistributionLocation::Local { local_path, .. } => {
            lines.push(rerun_line(local_path.as_str()));
        },
        PythonDistributionLocation::Url { .. } => {},
    }
    let ghost head = name_views(lines@);
    let n = linker_lines.len();
    let mut i: usize = 0;
    proof {
        assert(name_views(linker_lines@).subrange(0, 0) =~= Seq::<Seq<char>>::empty());
        assert(name_views(lines@) =~= head + name_views(linker_lines@).subrange(0, 0));
    }
    while i < n
        invariant
            i <= n,
            n == linker_lines@.len(),
            name_views(lines@) == head + name_views(linker_lines@).subrange(0, i as int),
        decreases n - i,
    {
        push_name(&mut lines, linker_lines[i].clone());
        proof {
            assert(name_views(lines@) =~= head + name_views(linker_lines@).subrange(
                0,
                i as int + 1,
            ));
        }
        i += 1;
    }
    let ghost middle = name_views(lines@);
    let m = read_files.len();
    let mut j: usize = 0;
    proof {
        assert(name_views(linker_lines@).subrange(0, n as int) =~= name_views(linker_lines@));
        assert(rerun_lines(name_views(read_files@)).subrange(0, 0) =~= Seq::<Seq<char>>::empty());
        assert(name_views(lines@) =~= middle + rerun_lines(name_views(read_files@)).subrange(
            0,
            0,
        ));
    }
    while j < m
        invariant
            j <= m,
            m == read_files@.len(),
            name_views(lines@) == middle + rerun_lines(name_views(read_files@)).subrange(
                0,
                j as int,
            ),
        decreases m - j,
    {
        push_name(&mut lines, rerun_line(read_files[j].as_str()));
        proof {
            assert(name_views(lines@) =~= middle + rerun_lines(
                name_views(read_files@),
            ).subrange(0, j as int + 1));
        }
        j += 1;
    }
    let ghost most = name_views(lines@);
    let mut last = String::from_str("cargo:rustc-env=DATA_RS_PATH=");
    last.append(data_rs_path);
    lines.push(last);
    proof {
        assert(rerun_lines(name_views(read_files@)).subrange(0, m as int) =~= rerun_lines(
            name_views(read_files@),
        ));
        assert(name_views(lines@) =~= most.push(
            "cargo:rustc-env=DATA_RS_PATH="@ + data_rs_path@,
        ));
        assert(name_views(lines@) =~= cargo_metadata_of(
            config_path@,
            *distribution,
            name_views(linker_lines@),
            name_views(read_files@),
            data_rs_path@,
        ));
    }
    lines
}

/// The lines that a build script hands to the build tool before anything
/// else: to run again when the script itself has changed, or the variable
/// that says where the configuration is.
pub open spec fn build_script_lines_of(build_script: Seq<char>) -> Seq<Seq<char>> {
    seq![rerun_if_changed(build_script), "cargo:rerun-if-env-changed=PYOXIDIZER_CONFIG"@]
}

/// The lines that a build script hands to the build tool before anything
/// else.
pub fn build_script_lines(build_script: &str) -> (lines: Vec<String>)
    ensures
        name_views(lines@) == build_script_lines_of(build_script@),
{
    let mut lines: Vec<String> = Vec::new();
    lines.push(rerun_line(build_script));
    lines.push(String::from_str("cargo:rerun-if-env-changed=PYOXIDIZER_CONFIG"));
    proof {
        assert(name_views(lines@) =~= build_script_lines_of(build_script@));
    }
    lines
}

/// The files and the text that embed Python in a larger binary, as a build
/// has made them.
#[derive(Debug, Clone, PartialEq, Eq)]
pub struct EmbeddedPythonConfig {
    /// The configuration that was built.
    pub config: Config,
    /// The archive of the Python distribution.
    pub python_distribution_path: String,
    /// The frozen bytecode of `importlib._bootstrap`.
    pub importlib_bootstrap_path: String,
    /// The frozen bytecode of `importlib._bootstrap_external`.
    pub importlib_bootstrap_external_path: String,
    /// The list of all module names.
    pub module_names_path: String,
    /// The packed modules.
    pub py_modules_path: String,
    /// The packed data files.
    pub resources_path: String,
    /// The library that holds Python.
    pub libpython_path: String,
    /// The lines for the build tool.
    pub cargo_metadata: Vec<String>,
    /// The source text that constructs the configuration of the interpreter.
    pub python_config_rs: String,
    /// What the build leaves behind for the step that installs.
    pub packaging_state_path: String,
}

/// The names of the files that a build writes into its directory of
/// artifacts.
#[derive(Debug, Clone, PartialEq, Eq)]
pub struct ArtifactNames {
    pub importlib_bootstrap: String,
    pub importlib_bootstrap_external: String,
    pub module_names: String,
    pub py_modules: String,
    pub resources: String,
    pub data_rs: String,
    pub cargo_metadata: String,
    pub packaging_state: String,
}

/// The names of the files that a build writes into its directory of
/// artifacts.
pub fn artifact_names() -> (names: ArtifactNames)
    ensures
        names.importlib_bootstrap@ == "importlib_bootstrap"@,
        names.importlib_bootstrap_external@ == "importlib_bootstrap_external"@,
        names.module_names@ == "py-module-names"@,
        names.py_modules@ == "py-modules"@,
        names.resources@ == "python-resources"@,
        names.data_rs@ == "data.rs"@,
        names.cargo_metadata@ == "cargo_metadata.txt"@,
        names.packaging_state@ == "packaging_state.cbor"@,
{
    ArtifactNames {
        importlib_bootstrap: String::from_str("importlib_bootstrap"),
        importlib_bootstrap_external: String::from_str("importlib_bootstrap_external"),
        module_names: String::from_str("py-module-names"),
        py_modules: String::from_str("py-modules"),
        resources: String::from_str("python-resources"),
        data_rs: String::from_str("data.rs"),
        cargo_metadata: String::from_str("cargo_metadata.txt"),
        packaging_state: String::from_str("packaging_state.cbor"),
    }
}

/// The licence of one component.
#[derive(Debug, Clone, PartialEq, Eq)]
pub struct LicenseInfo {
    /// The licences that the component is under.
    pub licenses: Vec<String>,
    /// The name of the file that the text of the licence goes into.
    pub license_filename: String,
    /// The text of the licence.
    pub license_text: String,
}

/// What a build leaves behind for the step that installs the application.
#[derive(Debug, PartialEq, Eq)]
pub struct PackagingState {
    /// The directory into which licence files are written.
    pub license_files_path: Option<String>,
    /// The licences of the components, by component.
    pub license_infos: NameMap<Vec<LicenseInfo>>,
    /// What is installed beside the binary, by directory.
    pub app_relative_resources: NameMap<AppRelativeResources>,
}

impl View for LicenseInfo {
    type V = LicenseInfo;

    open spec fn view(&self) -> LicenseInfo {
        *self
    }
}

/// The licence file of one component: below the directory for licence
/// files, unless that is the directory of the application itself.
pub open spec fn license_file(directory: Seq<char>, info: LicenseInfo) -> InstallFileView {
    InstallFileView {
        kind: InstallKind::License,
        path: if directory.len() == 0 {
            seq![info.license_filename@]
        } else {
            seq![directory, info.license_filename@]
        },
        data: encode_utf8(info.license_text@),
    }
}

/// The licence files of the components of one name.
pub open spec fn license_files_of(directory: Seq<char>, infos: Seq<LicenseInfo>) -> Seq<
    InstallFileView,
> {
    Seq::new(infos.len(), |i: int| license_file(directory, infos[i]))
}

/// The licence files to write for the components of one name, each with
/// its path below the directory of the application.
pub fn plan_license_files(directory: &str, infos: &Vec<LicenseInfo>) -> (files: Vec<InstallFile>)
    ensures
        file_views(files@) == license_files_of(directory@, infos@),
{
    let at_top = directory.unicode_len() == 0;
    let mut files: Vec<InstallFile> = Vec::new();
    let n = infos.len();
    let mut i: usize = 0;
    while i < n
        invariant
            i <= n,
            n == infos@.len(),
            at_top == (directory@.len() == 0),
            files@.len() == i,
            forall|j: int|
                0 <= j < i ==> (#[trigger] files@[j])@ == license_file(directory@, infos@[j]),
        decreases n - i,
    {
        let info = &infos[i];
        let mut path: Vec<String> = Vec::new();
        if !at_top {
            path.push(String::from_str(directory));
        }
        path.push(info.license_filename.clone());
        proof {
            assert(name_views(path@) =~= license_file(directory@, infos@[i as int]).path);
        }
        let data = info.license_text.as_str().as_bytes_vec();
        files.push(InstallFile { kind: InstallKind::License, path, data });
        i += 1;
    }
    proof {
        assert(file_views(files@) =~= license_files_of(directory@, infos@));
    }
    files
}

} // verus!
