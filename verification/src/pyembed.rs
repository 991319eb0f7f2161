//! The source text that sets up the embedded interpreter.

use itertools::Itertools;
use vstd::prelude::*;
use vstd::string::StringExecFns;
use crate::config::EmbeddedPythonConfig;
use crate::config::RawAllocator;
use crate::config::RunMode;
use crate::config::TerminfoResolution;
use crate::name_map::name_views;
use crate::text::split;
use crate::text::split_text;

verus! {

/// The character that stands for a digit.
pub open spec fn digit_char(d: int) -> char {
    if d == 0 {
        '0'
    } else if d == 1 {
        '1'
    } else if d == 2 {
        '2'
    } else if d == 3 {
        '3'
    } else if d == 4 {
        '4'
    } else if d == 5 {
        '5'
    } else if d == 6 {
        '6'
    } else if d == 7 {
        '7'
    } else if d == 8 {
        '8'
    } else {
        '9'
    }
}

/// A natural number in decimal digits, without leading zeros.
pub open spec fn digits(n: nat) -> Seq<char>
    decreases n,
{
    if n < 10 {
        seq![digit_char(n as int)]
    } else {
        digits(n / 10).push(digit_char((n % 10) as int))
    }
}

/// A whole number in decimal digits, with a minus sign before it where it
/// is negative.
pub open spec fn decimal(n: int) -> Seq<char> {
    if n < 0 {
        seq!['-'] + digits((-n) as nat)
    } else {
        digits(n as nat)
    }
}

/// How a truth value is written.
pub open spec fn bool_text(b: bool) -> Seq<char> {
    if b {
        "true"@
    } else {
        "false"@
    }
}

/// The text of one digit.
fn digit_text(d: u64) -> (text: &'static str)
    requires
        d < 10,
    ensures
        text@ == seq![digit_char(d as int)],
{
    proof {
        reveal_strlit("0");
        reveal_strlit("1");
        reveal_strlit("2");
        reveal_strlit("3");
        reveal_strlit("4");
        reveal_strlit("5");
        reveal_strlit("6");
        reveal_strlit("7");
        reveal_strlit("8");
        reveal_strlit("9");
    }
    let text = if d == 0 {
        "0"
    } else if d == 1 {
        "1"
    } else if d == 2 {
        "2"
    } else if d == 3 {
        "3"
    } else if d == 4 {
        "4"
    } else if d == 5 {
        "5"
    } else if d == 6 {
        "6"
    } else if d == 7 {
        "7"
    } else if d == 8 {
        "8"
    } else {
        "9"
    };
    assert(text@ =~= seq![digit_char(d as int)]);
    text
}

/// Appends a natural number in decimal digits.
fn append_digits(text: &mut String, n: u64)
    ensures
        final(text)@ == old(text)@ + digits(n as nat),
    decreases n,
{
    if n >= 10 {
        append_digits(text, n / 10);
    }
    text.append(digit_text(n % 10));
    proof {
        if n >= 10 {
            assert(text@ =~= old(text)@ + digits(n as nat));
        }
    }
}

/// Appends a whole number in decimal digits.
pub fn append_decimal(text: &mut String, n: i64)
    ensures
        final(text)@ == old(text)@ + decimal(n as int),
{
    if n < 0 {
        text.append("-");
        proof {
            reveal_strlit("-");
        }
        let magnitude: u64 = if n == i64::MIN {
            0x8000_0000_0000_0000u64
        } else {
            (-n) as u64
        };
        append_digits(text, magnitude);
        proof {
            assert(text@ =~= old(text)@ + decimal(n as int));
        }
    } else {
        append_digits(text, n as u64);
    }
}

/// Appends a truth value.
pub fn append_bool(text: &mut String, b: bool)
    ensures
        final(text)@ == old(text)@ + bool_text(b),
{
    if b {
        text.append("true");
    } else {
        text.append("false");
    }
}

/// A text that may be missing, as it is written: in quotes inside `Some`,
/// or `None`.
pub open spec fn optional_text(value: Option<String>) -> Seq<char> {
    match value {
        Some(text) => "Some(\""@ + text@ + "\")"@,
        None => "None"@,
    }
}

/// An owned text that may be missing, as it is written.
pub open spec fn optional_owned_text(value: Option<String>) -> Seq<char> {
    match value {
        Some(text) => "Some(\""@ + text@ + "\".to_string())"@,
        None => "None"@,
    }
}

/// One path of the module search path, as it is written.
pub open spec fn quoted_path(path: Seq<char>) -> Seq<char> {
    "\""@ + path + "\".to_string()"@
}

/// The module search path, as it is written: its paths with a comma and a
/// space between them.
pub open spec fn quoted_paths(paths: Seq<Seq<char>>) -> Seq<char>
    decreases paths.len(),
{
    if paths.len() == 0 {
        Seq::empty()
    } else if paths.len() == 1 {
        quoted_path(paths[0])
    } else {
        quoted_paths(paths.drop_last()) + ", "@ + quoted_path(paths.last())
    }
}

/// The allocator, as it is written.
pub open spec fn allocator_text(allocator: RawAllocator) -> Seq<char> {
    match allocator {
        RawAllocator::Jemalloc => "PythonRawAllocator::Jemalloc"@,
        RawAllocator::Rust => "PythonRawAllocator::Rust"@,
        RawAllocator::System => "PythonRawAllocator::System"@,
    }
}

/// The way to the terminfo database, as it is written.
pub open spec fn terminfo_text(resolution: TerminfoResolution) -> Seq<char> {
    match resolution {
        TerminfoResolution::Dynamic => "TerminfoResolution::Dynamic"@,
        TerminfoResolution::NoResolution => "TerminfoResolution::None"@,
        TerminfoResolution::Static(value) => "TerminfoResolution::Static(r###\""@ + value@
            + "\"###"@,
    }
}

/// What the interpreter is to do, as it is written.
pub open spec fn run_mode_text(run_mode: RunMode) -> Seq<char> {
    match run_mode {
        RunMode::Noop => "PythonRunMode::None"@,
        RunMode::Repl => "PythonRunMode::Repl"@,
        RunMode::Module { module } => "PythonRunMode::Module { module: \""@ + module@
            + "\".to_string() }"@,
        RunMode::Eval { code } => "PythonRunMode::Eval { code: r###\""@ + code@
            + "\"###.to_string() }"@,
    }
}

/// A file whose bytes are compiled in, as it is written.
pub open spec fn bytes_of_file_text(path: Seq<char>) -> Seq<char> {
    "include_bytes!(r#\""@ + path + "\"#)"@
}

/// One field of the configuration, as it is written: indented, with its
/// name, a colon, its value and a comma, on a line of its own.
pub open spec fn field_line(name: Seq<char>, value: Seq<char>) -> Seq<char> {
    "    "@ + name + ": "@ + value + ",\n"@
}

/// The fields that say how text goes in and out and where modules are looked for.
pub open spec fn stream_fields(
    embedded: EmbeddedPythonConfig,
) -> Seq<(Seq<char>, Seq<char>)> {
    seq![
        ("standard_io_encoding"@, optional_text(embedded.stdio_encoding_name)),
        ("standard_io_errors"@, optional_text(embedded.stdio_encoding_errors)),
        ("opt_level"@, decimal(embedded.optimize_level as int)),
        ("use_custom_importlib"@, "true"@),
        ("filesystem_importer"@, bool_text(embedded.filesystem_importer)),
        ("sys_paths"@, "["@ + quoted_paths(name_views(embedded.sys_paths@)) + "].to_vec()"@),
    ]
}

/// The fields that warn, and say what the interpreter takes from its surroundings.
pub open spec fn flag_fields(
    embedded: EmbeddedPythonConfig,
) -> Seq<(Seq<char>, Seq<char>)> {
    seq![
        ("bytes_warning"@, decimal(embedded.bytes_warning as int)),
        ("import_site"@, bool_text(!embedded.no_site)),
        ("import_user_site"@, bool_text(!embedded.no_user_site_directory)),
        ("ignore_python_env"@, bool_text(embedded.ignore_environment)),
        ("inspect"@, bool_text(embedded.inspect)),
        ("interactive"@, bool_text(embedded.interactive)),
        ("isolated"@, bool_text(embedded.isolated)),
        ("legacy_windows_fs_encoding"@, bool_text(embedded.legacy_windows_fs_encoding)),
    ]
}

/// The fields that say how the interpreter reads, writes and reports.
pub open spec fn mode_fields(
    embedded: EmbeddedPythonConfig,
) -> Seq<(Seq<char>, Seq<char>)> {
    seq![
        ("legacy_windows_stdio"@, bool_text(embedded.legacy_windows_stdio)),
        ("dont_write_bytecode"@, bool_text(embedded.dont_write_bytecode)),
        ("unbuffered_stdio"@, bool_text(embedded.unbuffered_stdio)),
        ("parser_debug"@, bool_text(embedded.parser_debug)),
        ("quiet"@, bool_text(embedded.quiet)),
        ("use_hash_seed"@, bool_text(embedded.use_hash_seed)),
        ("verbose"@, decimal(embedded.verbose as int)),
    ]
}

/// The fields that name the files whose bytes are compiled in.
pub open spec fn data_fields(
    importlib_bootstrap_path: Seq<char>,
    importlib_bootstrap_external_path: Seq<char>,
    py_modules_path: Seq<char>,
    py_resources_path: Seq<char>,
) -> Seq<(Seq<char>, Seq<char>)> {
    seq![
        ("frozen_importlib_data"@, bytes_of_file_text(importlib_bootstrap_path)),
        ("frozen_importlib_external_data"@, bytes_of_file_text(importlib_bootstrap_external_path)),
        ("py_modules_data"@, bytes_of_file_text(py_modules_path)),
        ("py_resources_data"@, bytes_of_file_text(py_resources_path)),
        ("extra_extension_modules"@, "vec![]"@),
        ("argvb"@, "false"@),
    ]
}

/// The fields that say what the interpreter is and what it runs.
pub open spec fn runtime_fields(
    embedded: EmbeddedPythonConfig, run_mode: RunMode,
) -> Seq<(Seq<char>, Seq<char>)> {
    seq![
        ("sys_frozen"@, bool_text(embedded.sys_frozen)),
        ("sys_meipass"@, bool_text(embedded.sys_meipass)),
        ("raw_allocator"@, allocator_text(embedded.raw_allocator)),
        ("terminfo_resolution"@, terminfo_text(embedded.terminfo_resolution)),
        ("write_modules_directory_env"@, optional_owned_text(embedded.write_modules_directory_env)),
        ("run"@, run_mode_text(run_mode)),
    ]
}

/// The fields of the configuration, with their values as they are written.
pub open spec fn config_fields(
    embedded: EmbeddedPythonConfig,
    run_mode: RunMode,
    importlib_bootstrap_path: Seq<char>,
    importlib_bootstrap_external_path: Seq<char>,
    py_modules_path: Seq<char>,
    py_resources_path: Seq<char>,
) -> Seq<(Seq<char>, Seq<char>)> {
    stream_fields(embedded) + flag_fields(embedded) + mode_fields(embedded) + data_fields(
        importlib_bootstrap_path,
        importlib_bootstrap_external_path,
        py_modules_path,
        py_resources_path,
    ) + runtime_fields(embedded, run_mode)
}

/// The lines of the fields, one after the other.
pub open spec fn field_lines(fields: Seq<(Seq<char>, Seq<char>)>) -> Seq<char>
    decreases fields.len(),
{
    if fields.len() == 0 {
        Seq::empty()
    } else {
        field_lines(fields.drop_last()) + field_line(fields.last().0, fields.last().1)
    }
}

/// The source text of the configuration of the embedded interpreter.
pub open spec fn python_config_text(
    embedded: EmbeddedPythonConfig,
    run_mode: RunMode,
    importlib_bootstrap_path: Seq<char>,
    importlib_bootstrap_external_path: Seq<char>,
    py_modules_path: Seq<char>,
    py_resources_path: Seq<char>,
) -> Seq<char> {
    "PythonConfig {\n"@ + field_lines(
        config_fields(
            embedded,
            run_mode,
            importlib_bootstrap_path,
            importlib_bootstrap_external_path,
            py_modules_path,
            py_resources_path,
        ),
    ) + "}"@
}

/// A field of the configuration, with its value as it is written.
pub struct ConfigField {
    pub name: &'static str,
    pub value: String,
}

/// What a sequence of fields holds.
pub open spec fn field_views(fields: Seq<ConfigField>) -> Seq<(Seq<char>, Seq<char>)> {
    Seq::new(fields.len(), |i: int| (fields[i].name@, fields[i].value@))
}

/// Appends one field of the configuration.
fn append_field(text: &mut String, name: &str, value: &str)
    ensures
        final(text)@ == old(text)@ + field_line(name@, value@),
{
    let mut line = String::from_str("    ");
    line.append(name);
    line.append(": ");
    line.append(value);
    line.append(",\n");
    text.append(line.as_str());
}

/// A truth value, as it is written.
fn bool_string(b: bool) -> (text: String)
    ensures
        text@ == bool_text(b),
{
    let mut text = String::new();
    append_bool(&mut text, b);
    proof {
        assert(text@ =~= bool_text(b));
    }
    text
}

/// A whole number, as it is written.
fn decimal_string(n: i64) -> (text: String)
    ensures
        text@ == decimal(n as int),
{
    let mut text = String::new();
    append_decimal(&mut text, n);
    proof {
        assert(text@ =~= decimal(n as int));
    }
    text
}

/// A text that may be missing, as it is written.
fn optional_string(value: &Option<String>) -> (text: String)
    ensures
        text@ == optional_text(*value),
{
    match value {
        Some(inner) => {
            let mut text = String::from_str("Some(\"");
            text.append(inner.as_str());
            text.append("\")");
            text
        },
        None => String::from_str("None"),
    }
}

/// An owned text that may be missing, as it is written.
fn optional_owned_string(value: &Option<String>) -> (text: String)
    ensures
        text@ == optional_owned_text(*value),
{
    match value {
        Some(inner) => {
            let mut text = String::from_str("Some(\"");
            text.append(inner.as_str());
            text.append("\".to_string())");
            text
        },
        None => String::from_str("None"),
    }
}

/// The module search path, as it is written.
fn quoted_paths_string(paths: &Vec<String>) -> (text: String)
    ensures
        text@ == quoted_paths(name_views(paths@)),
{
    let ghost all = name_views(paths@);
    let mut text = String::new();
    let n = paths.len();
    let mut i: usize = 0;
    proof {
        assert(all.subrange(0, 0) =~= Seq::<Seq<char>>::empty());
    }
    while i < n
        invariant
            i <= n,
            n == paths@.len(),
            all == name_views(paths@),
            text@ == quoted_paths(all.subrange(0, i as int)),
        decreases n - i,
    {
        proof {
            let longer = all.subrange(0, i as int + 1);
            assert(longer.drop_last() =~= all.subrange(0, i as int));
            assert(longer.last() == paths@[i as int]@);
            if i == 0 {
                assert(longer[0] == paths@[0]@);
            }
        }
        let ghost before = text@;
        if i > 0 {
            text.append(", ");
        }
        text.append("\"");
        text.append(paths[i].as_str());
        text.append("\".to_string()");
        proof {
            let quoted = quoted_path(paths@[i as int]@);
            if i == 0 {
                assert(before =~= Seq::<char>::empty());
                assert(text@ =~= quoted);
            } else {
                assert(text@ =~= before + ", "@ + quoted);
            }
        }
        i += 1;
    }
    proof {
        assert(all.subrange(0, n as int) =~= all);
    }
    text
}

/// A file whose bytes are compiled in, as it is written.
fn bytes_of_file_string(path: &str) -> (text: String)
    ensures
        text@ == bytes_of_file_text(path@),
{
    let mut text = String::from_str("include_bytes!(r#\"");
    text.append(path);
    text.append("\"#)");
    text
}

/// The way to the terminfo database, as it is written.
fn terminfo_string(resolution: &TerminfoResolution) -> (text: String)
    ensures
        text@ == terminfo_text(*resolution),
{
    match resolution {
        TerminfoResolution::Dynamic => String::from_str("TerminfoResolution::Dynamic"),
        TerminfoResolution::NoResolution => String::from_str("TerminfoResolution::None"),
        TerminfoResolution::Static(value) => {
            let mut text = String::from_str("TerminfoResolution::Static(r###\"");
            text.append(value.as_str());
            text.append("\"###");
            text
        },
    }
}

/// What the interpreter is to do, as it is written.
fn run_mode_string(run_mode: &RunMode) -> (text: String)
    ensures
        text@ == run_mode_text(*run_mode),
{
    match run_mode {
        RunMode::Noop => String::from_str("PythonRunMode::None"),
        RunMode::Repl => String::from_str("PythonRunMode::Repl"),
        RunMode::Module { module } => {
            let mut text = String::from_str("PythonRunMode::Module { module: \"");
            text.append(module.as_str());
            text.append("\".to_string() }");
            text
        },
        RunMode::Eval { code } => {
            let mut text = String::from_str("PythonRunMode::Eval { code: r###\"");
            text.append(code.as_str());
            text.append("\"###.to_string() }");
            text
        },
    }
}

/// The fields that say how text goes in and out and where modules are looked for.
fn collect_stream_fields(
    embedded: &EmbeddedPythonConfig,
) -> (fields: Vec<ConfigField>)
    ensures
        field_views(fields@) == stream_fields(*embedded),
{
    let mut paths = String::from_str("[");
    paths.append(quoted_paths_string(&embedded.sys_paths).as_str());
    paths.append("].to_vec()");
    let mut fields: Vec<ConfigField> = Vec::new();
    fields.push(
        ConfigField { name: "standard_io_encoding", value: optional_string(&embedded.stdio_encoding_name) },
    );
    fields.push(
        ConfigField { name: "standard_io_errors", value: optional_string(&embedded.stdio_encoding_errors) },
    );
    fields.push(
        ConfigField { name: "opt_level", value: decimal_string(embedded.optimize_level) },
    );
    fields.push(
        ConfigField { name: "use_custom_importlib", value: String::from_str("true") },
    );
    fields.push(
        ConfigField { name: "filesystem_importer", value: bool_string(embedded.filesystem_importer) },
    );
    fields.push(
        ConfigField { name: "sys_paths", value: paths },
    );
    proof {
        assert(field_views(fields@) =~= stream_fields(*embedded));
    }
    fields
}

/// The fields that warn, and say what the interpreter takes from its surroundings.
fn collect_flag_fields(
    embedded: &EmbeddedPythonConfig,
) -> (fields: Vec<ConfigField>)
    ensures
        field_views(fields@) == flag_fields(*embedded),
{
    let mut fields: Vec<ConfigField> = Vec::new();
    fields.push(
        ConfigField { name: "bytes_warning", value: decimal_string(embedded.bytes_warning as i64) },
    );
    fields.push(
        ConfigField { name: "import_site", value: bool_string(!embedded.no_site) },
    );
    fields.push(
        ConfigField { name: "import_user_site", value: bool_string(!embedded.no_user_site_directory) },
    );
    fields.push(
        ConfigField { name: "ignore_python_env", value: bool_string(embedded.ignore_environment) },
    );
    fields.push(
        ConfigField { name: "inspect", value: bool_string(embedded.inspect) },
    );
    fields.push(
        ConfigField { name: "interactive", value: bool_string(embedded.interactive) },
    );
    fields.push(
        ConfigField { name: "isolated", value: bool_string(embedded.isolated) },
    );
    fields.push(
        ConfigField { name: "legacy_windows_fs_encoding", value: bool_string(embedded.legacy_windows_fs_encoding) },
    );
    proof {
        assert(field_views(fields@) =~= flag_fields(*embedded));
    }
    fields
}

/// The fields that say how the interpreter reads, writes and reports.
fn collect_mode_fields(
    embedded: &EmbeddedPythonConfig,
) -> (fields: Vec<ConfigField>)
    ensures
        field_views(fields@) == mode_fields(*embedded),
{
    let mut fields: Vec<ConfigField> = Vec::new();
    fields.push(
        ConfigField { name: "legacy_windows_stdio", value: bool_string(embedded.legacy_windows_stdio) },
    );
    fields.push(
        ConfigField { name: "dont_write_bytecode", value: bool_string(embedded.dont_write_bytecode) },
    );
    fields.push(
        ConfigField { name: "unbuffered_stdio", value: bool_string(embedded.unbuffered_stdio) },
    );
    fields.push(
        ConfigField { name: "parser_debug", value: bool_string(embedded.parser_debug) },
    );
    fields.push(
        ConfigField { name: "quiet", value: bool_string(embedded.quiet) },
    );
    fields.push(
        ConfigField { name: "use_hash_seed", value: bool_string(embedded.use_hash_seed) },
    );
    fields.push(
        ConfigField { name: "verbose", value: decimal_string(embedded.verbose as i64) },
    );
    proof {
        assert(field_views(fields@) =~= mode_fields(*embedded));
    }
    fields
}

/// The fields that name the files whose bytes are compiled in.
fn collect_data_fields(
    importlib_bootstrap_path: &str,
    importlib_bootstrap_external_path: &str,
    py_modules_path: &str,
    py_resources_path: &str,
) -> (fields: Vec<ConfigField>)
    ensures
        field_views(fields@) == data_fields(
            importlib_bootstrap_path@,
            importlib_bootstrap_external_path@,
            py_modules_path@,
            py_resources_path@,
        ),
{
    let mut fields: Vec<ConfigField> = Vec::new();
    fields.push(
        ConfigField { name: "frozen_importlib_data", value: bytes_of_file_string(importlib_bootstrap_path) },
    );
    fields.push(
        ConfigField { name: "frozen_importlib_external_data", value: bytes_of_file_string(importlib_bootstrap_external_path) },
    );
    fields.push(
        ConfigField { name: "py_modules_data", value: bytes_of_file_string(py_modules_path) },
    );
    fields.push(
        ConfigField { name: "py_resources_data", value: bytes_of_file_string(py_resources_path) },
    );
    fields.push(
        ConfigField { name: "extra_extension_modules", value: String::from_str("vec![]") },
    );
    fields.push(
        ConfigField { name: "argvb", value: String::from_str("false") },
    );
    proof {
        assert(field_views(fields@) =~= data_fields(
            importlib_bootstrap_path@,
            importlib_bootstrap_external_path@,
            py_modules_path@,
            py_resources_path@,
        ));
    }
    fields
}

/// The fields that say what the interpreter is and what it runs.
fn collect_runtime_fields(
    embedded: &EmbeddedPythonConfig, run_mode: &RunMode,
) -> (fields: Vec<ConfigField>)
    ensures
        field_views(fields@) == runtime_fields(*embedded, *run_mode),
{
    let allocator = match embedded.raw_allocator {
        RawAllocator::Jemalloc => "PythonRawAllocator::Jemalloc",
        RawAllocator::Rust => "PythonRawAllocator::Rust",
        RawAllocator::System => "PythonRawAllocator::System",
    };
    let mut fields: Vec<ConfigField> = Vec::new();
    fields.push(
        ConfigField { name: "sys_frozen", value: bool_string(embedded.sys_frozen) },
    );
    fields.push(
        ConfigField { name: "sys_meipass", value: bool_string(embedded.sys_meipass) },
    );
    fields.push(
        ConfigField { name: "raw_allocator", value: String::from_str(allocator) },
    );
    fields.push(
        ConfigField { name: "terminfo_resolution", value: terminfo_string(&embedded.terminfo_resolution) },
    );
    fields.push(
        ConfigField { name: "write_modules_directory_env", value: optional_owned_string(&embedded.write_modules_directory_env) },
    );
    fields.push(
        ConfigField { name: "run", value: run_mode_string(run_mode) },
    );
    proof {
        assert(field_views(fields@) =~= runtime_fields(*embedded, *run_mode));
    }
    fields
}

/// The fields of the configuration, with their values as they are written.
fn collect_fields(
    embedded: &EmbeddedPythonConfig,
    run_mode: &RunMode,
    importlib_bootstrap_path: &str,
    importlib_bootstrap_external_path: &str,
    py_modules_path: &str,
    py_resources_path: &str,
) -> (fields: Vec<ConfigField>)
    ensures
        field_views(fields@) == config_fields(
            *embedded,
            *run_mode,
            importlib_bootstrap_path@,
            importlib_bootstrap_external_path@,
            py_modules_path@,
            py_resources_path@,
        ),
{
    let mut fields = collect_stream_fields(embedded);
    let ghost first = field_views(fields@);
    let mut flags = collect_flag_fields(embedded);
    let ghost second = field_views(flags@);
    fields.append(&mut flags);
    proof {
        assert(field_views(fields@) =~= first + second);
    }
    let mut modes = collect_mode_fields(embedded);
    let ghost third = field_views(modes@);
    fields.append(&mut modes);
    proof {
        assert(field_views(fields@) =~= first + second + third);
    }
    let mut data = collect_data_fields(
        importlib_bootstrap_path,
        importlib_bootstrap_external_path,
        py_modules_path,
        py_resources_path,
    );
    let ghost fourth = field_views(data@);
    fields.append(&mut data);
    proof {
        assert(field_views(fields@) =~= first + second + third + fourth);
    }
    let mut runtime = collect_runtime_fields(embedded, run_mode);
    let ghost fifth = field_views(runtime@);
    fields.append(&mut runtime);
    proof {
        assert(field_views(fields@) =~= first + second + third + fourth + fifth);
    }
    fields
}

/// The source text that constructs the configuration of the embedded
/// interpreter.
pub fn derive_python_config(
    embedded: &EmbeddedPythonConfig,
    run_mode: &RunMode,
    importlib_bootstrap_path: &str,
    importlib_bootstrap_external_path: &str,
    py_modules_path: &str,
    py_resources_path: &str,
) -> (text: String)
    ensures
        text@ == python_config_text(
            *embedded,
            *run_mode,
            importlib_bootstrap_path@,
            importlib_bootstrap_external_path@,
            py_modules_path@,
            py_resources_path@,
        ),
{
    let fields = collect_fields(
        embedded,
        run_mode,
        importlib_bootstrap_path,
        importlib_bootstrap_external_path,
        py_modules_path,
        py_resources_path,
    );
    let ghost all = field_views(fields@);
    let mut text = String::from_str("PythonConfig {\n");
    let n = fields.len();
    let mut i: usize = 0;
    proof {
        assert(all.subrange(0, 0) =~= Seq::<(Seq<char>, Seq<char>)>::empty());
    }
    while i < n
        invariant
            i <= n,
            n == fields@.len(),
            all == field_views(fields@),
            text@ == "PythonConfig {\n"@ + field_lines(all.subrange(0, i as int)),
        decreases n - i,
    {
        proof {
            let longer = all.subrange(0, i as int + 1);
            assert(longer.drop_last() =~= all.subrange(0, i as int));
            assert(longer.last() == all[i as int]);
        }
        append_field(&mut text, fields[i].name, fields[i].value.as_str());
        proof {
            assert(text@ =~= "PythonConfig {\n"@ + field_lines(all.subrange(0, i as int + 1)));
        }
        i += 1;
    }
    proof {
        assert(all.subrange(0, n as int) =~= all);
    }
    text.append("}");
    text
}

/// The pieces, with the separator between each two of them.
pub open spec fn joined(pieces: Seq<Seq<char>>, separator: Seq<char>) -> Seq<char>
    decreases pieces.len(),
{
    if pieces.len() == 0 {
        Seq::empty()
    } else if pieces.len() == 1 {
        pieces[0]
    } else {
        joined(pieces.drop_last(), separator) + separator + pieces.last()
    }
}

/// The lines, each behind four spaces.
pub open spec fn indented(lines: Seq<Seq<char>>) -> Seq<Seq<char>> {
    Seq::new(lines.len(), |i: int| "    "@ + lines[i])
}

/// What stands before the configuration in the generated source file.
pub open spec fn data_rs_head() -> Seq<char> {
    "use super::config::{PythonConfig, PythonRawAllocator, PythonRunMode, TerminfoResolution};\n\n"@
        + "/// Obtain the default Python configuration\n///\n/// The crate is compiled with a default Python configuration embedded\n         /// in the crate. This function will return an instance of that\n         /// configuration.\n         pub fn default_python_config() -> PythonConfig {\n"@
}

/// The generated source file: a function that returns the configuration,
/// whose source text stands in it behind four spaces, line by line.
pub open spec fn data_rs_text(python_config_rs: Seq<char>) -> Seq<char> {
    data_rs_head() + joined(indented(split(python_config_rs, '\n')), "\n"@) + "\n}\n"@
}

/// Calls `itertools::Itertools::join` on the lines. Claimed: the result is
/// the lines with the separator between each two of them, and nothing for
/// no line. The call sizes its buffer by the length of the separator times
/// the number of lines: the separator is kept short, so that this is no
/// more than a buffer can be.
#[verifier::external_body]
fn join_lines(lines: &Vec<String>, separator: &str) -> (text: String)
    requires
        separator@.len() <= 4,
    ensures
        text@ == joined(name_views(lines@), separator@),
{
    lines.iter().join(separator)
}

/// The text of the generated source file that holds the configuration.
pub fn data_rs_source(python_config_rs: &str) -> (text: String)
    ensures
        text@ == data_rs_text(python_config_rs@),
{
    let lines = split_text(python_config_rs, '\n');
    let ghost all = name_views(lines@);
    let n = lines.len();
    let mut shifted: Vec<String> = Vec::new();
    let mut i: usize = 0;
    while i < n
        invariant
            i <= n,
            n == lines@.len(),
            all == name_views(lines@),
            shifted@.len() == i,
            forall|j: int| 0 <= j < i ==> (#[trigger] shifted@[j])@ == "    "@ + all[j],
        decreases n - i,
    {
        let mut line = String::from_str("    ");
        line.append(lines[i].as_str());
        shifted.push(line);
        i += 1;
    }
    proof {
        assert(name_views(shifted@) =~= indented(all));
        reveal_strlit("\n");
    }
    let body = join_lines(&shifted, "\n");
    let mut text = String::from_str(
        "use super::config::{PythonConfig, PythonRawAllocator, PythonRunMode, TerminfoResolution};\n\n",
    );
    text.append(
        "/// Obtain the default Python configuration\n///\n/// The crate is compiled with a default Python configuration embedded\n         /// in the crate. This function will return an instance of that\n         /// configuration.\n         pub fn default_python_config() -> PythonConfig {\n",
    );
    text.append(body.as_str());
    text.append("\n}\n");
    text
}

} // verus!
