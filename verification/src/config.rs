//! Configuration of a coverage run: where to scan, which call names count
//! as logging, what to analyze and how to report.
//!
//! Loading a configuration file and parsing command-line arguments happen
//! outside the library; what arrives here are plain values. Merging
//! command-line overrides into a configuration and validating the result
//! are specified exactly and verified.

use vstd::prelude::*;

use crate::string_utils::ascii_case_eq;
use crate::string_utils::clone_string_vec;
use crate::string_utils::trim_spec;

verus! {

/// Where to scan: root directories, exclusion patterns (regular
/// expressions over absolute paths) and accepted file extensions
/// (dot-prefixed, e.g. `.cpp`).
#[derive(Debug, Clone)]
pub struct ScanConfig {
    pub directories: Vec<String>,
    pub excludes: Vec<String>,
    pub file_types: Vec<String>,
}

#[verifier::ext_equal]
pub ghost struct ScanModel {
    pub directories: Seq<Seq<char>>,
    pub excludes: Seq<Seq<char>>,
    pub file_types: Seq<Seq<char>>,
}

impl View for ScanConfig {
    type V = ScanModel;

    open spec fn view(&self) -> ScanModel {
        ScanModel {
            directories: self.directories@.map_values(|s: String| s@),
            excludes: self.excludes@.map_values(|s: String| s@),
            file_types: self.file_types@.map_values(|s: String| s@),
        }
    }
}

/// The built-in logging convention: a list of global logging function
/// names and a list of category logging function names.
#[derive(Debug, Clone)]
pub struct QtLogConfig {
    pub enabled: bool,
    pub functions: Vec<String>,
    pub category_functions: Vec<String>,
}

#[verifier::ext_equal]
pub ghost struct QtLogModel {
    pub enabled: bool,
    pub functions: Seq<Seq<char>>,
    pub category_functions: Seq<Seq<char>>,
}

impl View for QtLogConfig {
    type V = QtLogModel;

    open spec fn view(&self) -> QtLogModel {
        QtLogModel {
            enabled: self.enabled,
            functions: self.functions@.map_values(|s: String| s@),
            category_functions: self.category_functions@.map_values(|s: String| s@),
        }
    }
}

/// User-configured logging functions: a table from a level tag (such as
/// `debug` or `warning`) to the function names counted at that level,
/// kept in a fixed order. A well-formed table carries each tag once
/// ([`custom_tags_unique`]); lookups read it first-match, so a duplicated
/// tag would be shadowed by its first occurrence.
#[derive(Debug, Clone)]
pub struct CustomLogConfig {
    pub enabled: bool,
    pub functions: Vec<(String, Vec<String>)>,
}

#[verifier::ext_equal]
pub ghost struct CustomLogModel {
    pub enabled: bool,
    pub functions: Seq<(Seq<char>, Seq<Seq<char>>)>,
}

/// The invariant the table structure is meant to keep: each level tag
/// occurs at most once.
pub open spec fn custom_tags_unique(m: CustomLogModel) -> bool {
    forall|i: int, j: int|
        0 <= i < j < m.functions.len() ==> (#[trigger] m.functions[i]).0
            != (#[trigger] m.functions[j]).0
}

impl View for CustomLogConfig {
    type V = CustomLogModel;

    open spec fn view(&self) -> CustomLogModel {
        CustomLogModel {
            enabled: self.enabled,
            functions: self.functions@.map_values(
                |e: (String, Vec<String>)| (e.0@, e.1@.map_values(|s: String| s@)),
            ),
        }
    }
}

#[derive(Debug, Clone)]
pub struct LogFunctionsConfig {
    pub qt: QtLogConfig,
    pub custom: CustomLogConfig,
}

#[verifier::ext_equal]
pub ghost struct LogFunctionsModel {
    pub qt: QtLogModel,
    pub custom: CustomLogModel,
}

impl View for LogFunctionsConfig {
    type V = LogFunctionsModel;

    open spec fn view(&self) -> LogFunctionsModel {
        LogFunctionsModel { qt: self.qt@, custom: self.custom@ }
    }
}

/// Which of the coverage categories are computed.
#[derive(Debug, Clone)]
pub struct AnalysisConfig {
    pub function_coverage: bool,
    pub branch_coverage: bool,
    pub exception_coverage: bool,
    pub key_path_coverage: bool,
}

#[derive(Debug, Clone)]
pub struct ReportConfig {
    pub format: String,
    pub timestamp_format: String,
}

#[verifier::ext_equal]
pub ghost struct ReportModel {
    pub format: Seq<char>,
    pub timestamp_format: Seq<char>,
}

impl View for ReportConfig {
    type V = ReportModel;

    open spec fn view(&self) -> ReportModel {
        ReportModel {
            format: self.format@,
            timestamp_format: self.timestamp_format@,
        }
    }
}

#[derive(Debug, Clone)]
pub struct Config {
    pub scan: ScanConfig,
    pub log_functions: LogFunctionsConfig,
    pub analysis: AnalysisConfig,
    pub report: ReportConfig,
}

#[verifier::ext_equal]
pub ghost struct ConfigModel {
    pub scan: ScanModel,
    pub log_functions: LogFunctionsModel,
    pub analysis: AnalysisConfig,
    pub report: ReportModel,
}

impl View for Config {
    type V = ConfigModel;

    open spec fn view(&self) -> ConfigModel {
        ConfigModel {
            scan: self.scan@,
            log_functions: self.log_functions@,
            analysis: self.analysis,
            report: self.report@,
        }
    }
}

/// The options read from the command line, as plain values.
#[derive(Debug, Clone)]
pub struct CliOptions {
    pub directory: Option<String>,
    pub output: Option<String>,
    pub config: Option<String>,
    pub exclude: Vec<String>,
    pub log_level: Option<String>,
    pub format: Option<String>,
}

#[verifier::ext_equal]
pub ghost struct CliModel {
    pub directory: Option<Seq<char>>,
    pub output: Option<Seq<char>>,
    pub config: Option<Seq<char>>,
    pub exclude: Seq<Seq<char>>,
    pub log_level: Option<Seq<char>>,
    pub format: Option<Seq<char>>,
}

pub open spec fn opt_string_view(o: Option<String>) -> Option<Seq<char>> {
    match o {
        Some(s) => Some(s@),
        None => None,
    }
}

impl View for CliOptions {
    type V = CliModel;

    open spec fn view(&self) -> CliModel {
        CliModel {
            directory: opt_string_view(self.directory),
            output: opt_string_view(self.output),
            config: opt_string_view(self.config),
            exclude: self.exclude@.map_values(|s: String| s@),
            log_level: opt_string_view(self.log_level),
            format: opt_string_view(self.format),
        }
    }
}

// ---------------------------------------------------------------------------
// Merging command-line overrides
// ---------------------------------------------------------------------------

/// The configuration after command-line overrides: the scan directory and
/// report format are replaced when given, the exclusion list is replaced
/// when non-empty; everything else is kept. The output path and log level
/// do not live in the configuration.
pub open spec fn merged_config(c: ConfigModel, cli: CliModel) -> ConfigModel {
    ConfigModel {
        scan: ScanModel {
            directories: match cli.directory {
                Some(d) => seq![d],
                None => c.scan.directories,
            },
            excludes: if cli.exclude.len() > 0 {
                cli.exclude
            } else {
                c.scan.excludes
            },
            file_types: c.scan.file_types,
        },
        log_functions: c.log_functions,
        analysis: c.analysis,
        report: ReportModel {
            format: match cli.format {
                Some(f) => f,
                None => c.report.format,
            },
            timestamp_format: c.report.timestamp_format,
        },
    }
}

// ---------------------------------------------------------------------------
// Validation
// ---------------------------------------------------------------------------

/// Whether a string is empty or consists of whitespace only.
pub open spec fn all_whitespace(s: Seq<char>) -> bool {
    trim_spec(s).len() == 0
}

/// A file type entry must be a dot followed by at least one character.
pub open spec fn invalid_file_type(ft: Seq<char>) -> bool {
    !"."@.is_prefix_of(ft) || ft.len() < 2
}

pub open spec fn file_type_error_msg(ft: Seq<char>) -> Seq<char> {
    "Invalid file type format: '"@ + ft
        + "'. Must start with '.' and have at least one character (e.g. '.cpp')."@
}

pub open spec fn level_error_msg(level: Seq<char>) -> Seq<char> {
    "Custom log functions for level '"@ + level + "' is an empty list."@
}

pub open spec fn format_error_msg(f: Seq<char>) -> Seq<char> {
    "Invalid report format: '"@ + f
        + "'. Allowed formats are: [\"text\", \"html\", \"json\"]"@
}

/// The accepted report formats, compared ignoring case.
pub open spec fn report_format_ok(f: Seq<char>) -> bool {
    ||| ascii_case_eq(f, "text"@)
    ||| ascii_case_eq(f, "html"@)
    ||| ascii_case_eq(f, "json"@)
}

pub open spec fn dir_errors(dirs: Seq<Seq<char>>) -> Seq<Seq<char>>
    decreases dirs.len(),
{
    if dirs.len() == 0 {
        seq![]
    } else {
        dir_errors(dirs.drop_last()) + if all_whitespace(dirs.last()) {
            seq!["Scan directory path cannot be empty or just whitespace."@]
        } else {
            seq![]
        }
    }
}

pub open spec fn file_type_errors(fts: Seq<Seq<char>>) -> Seq<Seq<char>>
    decreases fts.len(),
{
    if fts.len() == 0 {
        seq![]
    } else {
        file_type_errors(fts.drop_last()) + if invalid_file_type(fts.last()) {
            seq![file_type_error_msg(fts.last())]
        } else {
            seq![]
        }
    }
}

pub open spec fn custom_level_errors(entries: Seq<(Seq<char>, Seq<Seq<char>>)>)
    -> Seq<Seq<char>>
    decreases entries.len(),
{
    if entries.len() == 0 {
        seq![]
    } else {
        custom_level_errors(entries.drop_last()) + if entries.last().1.len() == 0 {
            seq![level_error_msg(entries.last().0)]
        } else {
            seq![]
        }
    }
}

/// The complaints about the scan directories, in order.
pub open spec fn scan_dir_errors(dirs: Seq<Seq<char>>) -> Seq<Seq<char>> {
    let head: Seq<Seq<char>> = if dirs.len() == 0 {
        seq!["Scan directories list cannot be empty."@]
    } else {
        seq![]
    };
    head + dir_errors(dirs)
}

/// The complaints about the accepted file types, in order.
pub open spec fn scan_file_type_errors(fts: Seq<Seq<char>>) -> Seq<Seq<char>> {
    let head: Seq<Seq<char>> = if fts.len() == 0 {
        seq!["Scan file_types list cannot be empty."@]
    } else {
        seq![]
    };
    head + file_type_errors(fts)
}

/// The complaints about the logging-function configuration, in order.
pub open spec fn log_functions_errors(lf: LogFunctionsModel) -> Seq<Seq<char>> {
    let qt_err: Seq<Seq<char>> = if lf.qt.enabled && lf.qt.functions.len() == 0
        && lf.qt.category_functions.len() == 0 {
        seq![
            "Qt logging is enabled, but no Qt log functions or category functions are specified."@,
        ]
    } else {
        seq![]
    };
    let missing_custom: Seq<Seq<char>> = if lf.custom.enabled && lf.custom.functions.len() == 0 {
        seq!["Custom logging is enabled, but no custom log functions are specified."@]
    } else {
        seq![]
    };
    let level_errs: Seq<Seq<char>> = if lf.custom.enabled {
        custom_level_errors(lf.custom.functions)
    } else {
        seq![]
    };
    qt_err + missing_custom + level_errs
}

/// The complaints about the report settings, in order.
pub open spec fn report_errors(rep: ReportModel) -> Seq<Seq<char>> {
    let fmt_err: Seq<Seq<char>> = if !report_format_ok(rep.format) {
        seq![format_error_msg(rep.format)]
    } else {
        seq![]
    };
    let ts_err: Seq<Seq<char>> = if all_whitespace(rep.timestamp_format) {
        seq!["Report timestamp_format cannot be empty."@]
    } else {
        seq![]
    };
    fmt_err + ts_err
}

/// Every complaint [`ConfigManager::validate_config`] raises, in order.
pub open spec fn validation_errors(c: ConfigModel) -> Seq<Seq<char>> {
    scan_dir_errors(c.scan.directories) + scan_file_type_errors(c.scan.file_types)
        + log_functions_errors(c.log_functions) + report_errors(c.report)
}

/// Owns the effective configuration of a run.
pub struct ConfigManager {
    pub config: Config,
}

impl ConfigManager {
    /// Builds the effective configuration: command-line options override
    /// the base configuration, and the merged result must validate.
    pub fn new(base: Config, cli_options: &CliOptions) -> (r: Result<ConfigManager, Vec<String>>)
        ensures
            r is Ok <==> validation_errors(merged_config(base@, cli_options@)).len() == 0,
            r is Ok ==> r->Ok_0.config@ == merged_config(base@, cli_options@),
            r is Err ==> r->Err_0@.map_values(|e: String| e@)
                == validation_errors(merged_config(base@, cli_options@)),
    {
        let mut config = base;
        Self::merge_cli_options(&mut config, cli_options);
        match Self::validate_config(&config) {
            Ok(()) => Ok(ConfigManager { config }),
            Err(errors) => Err(errors),
        }
    }

    /// Applies command-line overrides to `config` (see [`merged_config`]).
    pub fn merge_cli_options(config: &mut Config, cli_options: &CliOptions)
        ensures
            final(config)@ == merged_config(old(config)@, cli_options@),
    {
        match &cli_options.directory {
            Some(dir) => {
                config.scan.directories = vec![dir.clone()];
                proof {
                    assert(config.scan.directories@.map_values(|s: String| s@)
                        =~= seq![dir@]);
                }
            },
            None => {},
        }
        if cli_options.exclude.len() > 0 {
            config.scan.excludes = clone_string_vec(&cli_options.exclude);
        }
        match &cli_options.format {
            Some(format) => {
                config.report.format = format.clone();
            },
            None => {},
        }
        proof {
            assert(config@ =~~= merged_config(old(config)@, cli_options@));
        }
    }

    /// The built-in default configuration.
    pub fn get_default_config() -> (r: Config)
        ensures
            r@ == default_config_model(),
    {
        let config = Config {
            scan: ScanConfig {
                directories: vec![String::from_str("./")],
                excludes: vec![String::from_str("build/"), String::from_str("test/")],
                file_types: vec![
                    String::from_str(".cpp"),
                    String::from_str(".cc"),
                    String::from_str(".cxx"),
                    String::from_str(".h"),
                    String::from_str(".hpp"),
                ],
            },
            log_functions: LogFunctionsConfig {
                qt: QtLogConfig {
                    enabled: true,
                    functions: vec![
                        String::from_str("qDebug"),
                        String::from_str("qInfo"),
                        String::from_str("qWarning"),
                        String::from_str("qCritical"),
                        String::from_str("qFatal"),
                    ],
                    category_functions: vec![
                        String::from_str("qCDebug"),
                        String::from_str("qCInfo"),
                        String::from_str("qCWarning"),
                        String::from_str("qCCritical"),
                    ],
                },
                custom: CustomLogConfig {
                    enabled: true,
                    functions: vec![
                        (String::from_str("debug"), vec![String::from_str("fmDebug")]),
                        (String::from_str("info"), vec![String::from_str("fmInfo")]),
                        (String::from_str("warning"), vec![String::from_str("fmWarning")]),
                        (String::from_str("critical"), vec![String::from_str("fmCritical")]),
                    ],
                },
            },
            analysis: AnalysisConfig {
                function_coverage: true,
                branch_coverage: true,
                exception_coverage: true,
                key_path_coverage: true,
            },
            report: ReportConfig {
                format: String::from_str("text"),
                timestamp_format: String::from_str("YYYYMMDD_HHMMSS"),
            },
        };
        proof {
            assert(config@ =~~= default_config_model());
        }
        config
    }

    /// Checks the configuration and reports every complaint; the result is
    /// `Ok` exactly when there is none (see [`validation_errors`]).
    pub fn validate_config(config: &Config) -> (r: Result<(), Vec<String>>)
        ensures
            r is Ok <==> validation_errors(config@).len() == 0,
            r is Err ==> r->Err_0@.map_values(|e: String| e@) == validation_errors(config@),
            r is Err ==> r->Err_0@.len() > 0,
    {
        let mut errors: Vec<String> = Vec::new();
        check_scan_directories(&config.scan.directories, &mut errors);
        check_file_types(&config.scan.file_types, &mut errors);
        check_log_functions(&config.log_functions, &mut errors);
        check_report(&config.report, &mut errors);
        proof {
            assert(errors@.map_values(|e: String| e@) =~= validation_errors(config@));
        }
        if errors.len() == 0 {
            Ok(())
        } else {
            Err(errors)
        }
    }
}

/// Appends the scan-directory complaints (see [`scan_dir_errors`]).
#[verifier::loop_isolation(false)]
fn check_scan_directories(directories: &Vec<String>, errors: &mut Vec<String>)
    ensures
        final(errors)@.map_values(|e: String| e@)
            == old(errors)@.map_values(|e: String| e@)
                + scan_dir_errors(directories@.map_values(|s: String| s@)),
{
    let ghost base = errors@.map_values(|e: String| e@);
    let ghost dirs = directories@.map_values(|s: String| s@);
    if directories.len() == 0 {
        let ghost prevm = errors@.map_values(|e: String| e@);
        let msg = String::from_str("Scan directories list cannot be empty.");
        let ghost mv = msg@;
        errors.push(msg);
        proof {
            assert(errors@.map_values(|e: String| e@) =~= prevm.push(mv));
        }
    }
    let ghost ce1 = errors@.map_values(|e: String| e@);
    let nd = directories.len();
    for i in 0..nd
        invariant
            nd == directories@.len(),
            errors@.map_values(|e: String| e@) =~= ce1 + dir_errors(dirs.take(i as int)),
    {
        let ghost prevm = errors@.map_values(|e: String| e@);
        let trimmed = crate::string_utils::trim(directories[i].as_str());
        if trimmed.as_str().is_empty() {
            let msg = String::from_str(
                "Scan directory path cannot be empty or just whitespace.",
            );
            let ghost mv = msg@;
            errors.push(msg);
            proof {
                assert(errors@.map_values(|e: String| e@) =~= prevm.push(mv));
            }
        }
        proof {
            assert(dirs.take(i + 1).drop_last() =~= dirs.take(i as int));
            assert(dirs.take(i + 1).last() == dirs[i as int]);
            assert(dirs[i as int] == directories@[i as int]@);
            assert(dir_errors(dirs.take(i + 1))
                == dir_errors(dirs.take(i as int)) + if all_whitespace(dirs[i as int]) {
                    seq!["Scan directory path cannot be empty or just whitespace."@]
                } else {
                    seq![]
                });
            assert(errors@.map_values(|e: String| e@)
                =~= ce1 + dir_errors(dirs.take(i + 1)));
        }
    }
    proof {
        assert(dirs.take(nd as int) =~= dirs);
        assert(errors@.map_values(|e: String| e@) =~= base + scan_dir_errors(dirs));
    }
}

/// Appends the file-type complaints (see [`scan_file_type_errors`]).
#[verifier::loop_isolation(false)]
fn check_file_types(file_types: &Vec<String>, errors: &mut Vec<String>)
    ensures
        final(errors)@.map_values(|e: String| e@)
            == old(errors)@.map_values(|e: String| e@)
                + scan_file_type_errors(file_types@.map_values(|s: String| s@)),
{
    let ghost base = errors@.map_values(|e: String| e@);
    let ghost fts = file_types@.map_values(|s: String| s@);
    if file_types.len() == 0 {
        let ghost prevm = errors@.map_values(|e: String| e@);
        let msg = String::from_str("Scan file_types list cannot be empty.");
        let ghost mv = msg@;
        errors.push(msg);
        proof {
            assert(errors@.map_values(|e: String| e@) =~= prevm.push(mv));
        }
    }
    let ghost ce1 = errors@.map_values(|e: String| e@);
    let nf = file_types.len();
    for i in 0..nf
        invariant
            nf == file_types@.len(),
            errors@.map_values(|e: String| e@)
                =~= ce1 + file_type_errors(fts.take(i as int)),
    {
        let ghost prevm = errors@.map_values(|e: String| e@);
        let ft = &file_types[i];
        let bad = !crate::string_utils::starts_with(ft.as_str(), ".")
            || ft.as_str().unicode_len() < 2;
        if bad {
            let mut msg = String::from_str("Invalid file type format: '");
            msg.append(ft.as_str());
            msg.append(
                "'. Must start with '.' and have at least one character (e.g. '.cpp').",
            );
            proof {
                assert(msg@ == file_type_error_msg(ft@));
            }
            let ghost mv = msg@;
            errors.push(msg);
            proof {
                assert(errors@.map_values(|e: String| e@) =~= prevm.push(mv));
            }
        }
        proof {
            assert(fts.take(i + 1).drop_last() =~= fts.take(i as int));
            assert(fts.take(i + 1).last() == fts[i as int]);
            assert(ft@ == fts[i as int]);
            assert(bad == invalid_file_type(fts[i as int]));
            assert(file_type_errors(fts.take(i + 1))
                == file_type_errors(fts.take(i as int))
                    + if invalid_file_type(fts[i as int]) {
                    seq![file_type_error_msg(fts[i as int])]
                } else {
                    seq![]
                });
            assert(errors@.map_values(|e: String| e@)
                =~= ce1 + file_type_errors(fts.take(i + 1)));
        }
    }
    proof {
        assert(fts.take(nf as int) =~= fts);
        assert(errors@.map_values(|e: String| e@) =~= base + scan_file_type_errors(fts));
    }
}

/// Appends the logging-function complaints (see [`log_functions_errors`]).
#[verifier::loop_isolation(false)]
fn check_log_functions(lf: &LogFunctionsConfig, errors: &mut Vec<String>)
    ensures
        final(errors)@.map_values(|e: String| e@)
            == old(errors)@.map_values(|e: String| e@) + log_functions_errors(lf@),
{
    let ghost base = errors@.map_values(|e: String| e@);
    if lf.qt.enabled && lf.qt.functions.len() == 0 && lf.qt.category_functions.len() == 0 {
        let ghost prevm = errors@.map_values(|e: String| e@);
        let msg = String::from_str(
            "Qt logging is enabled, but no Qt log functions or category functions are specified.",
        );
        let ghost mv = msg@;
        errors.push(msg);
        proof {
            assert(errors@.map_values(|e: String| e@) =~= prevm.push(mv));
        }
    }
    if lf.custom.enabled && lf.custom.functions.len() == 0 {
        let ghost prevm = errors@.map_values(|e: String| e@);
        let msg = String::from_str(
            "Custom logging is enabled, but no custom log functions are specified.",
        );
        let ghost mv = msg@;
        errors.push(msg);
        proof {
            assert(errors@.map_values(|e: String| e@) =~= prevm.push(mv));
        }
    }
    let ghost ce1 = errors@.map_values(|e: String| e@);
    let ghost entries = lf@.custom.functions;
    if lf.custom.enabled {
        let nc = lf.custom.functions.len();
        for i in 0..nc
            invariant
                nc == lf.custom.functions@.len(),
                errors@.map_values(|e: String| e@)
                    =~= ce1 + custom_level_errors(entries.take(i as int)),
        {
            let ghost prevm = errors@.map_values(|e: String| e@);
            let entry = &lf.custom.functions[i];
            if entry.1.len() == 0 {
                let mut msg = String::from_str("Custom log functions for level '");
                msg.append(entry.0.as_str());
                msg.append("' is an empty list.");
                proof {
                    assert(msg@ == level_error_msg(entry.0@));
                }
                let ghost mv = msg@;
                errors.push(msg);
                proof {
                    assert(errors@.map_values(|e: String| e@) =~= prevm.push(mv));
                }
            }
            proof {
                assert(entries.take(i + 1).drop_last() =~= entries.take(i as int));
                assert(entries.take(i + 1).last() == entries[i as int]);
                assert(entries[i as int] == (entry.0@, entry.1@.map_values(|s: String| s@)));
                assert(entries[i as int].1.len() == entry.1@.len());
                assert(custom_level_errors(entries.take(i + 1))
                    == custom_level_errors(entries.take(i as int))
                        + if entries[i as int].1.len() == 0 {
                        seq![level_error_msg(entries[i as int].0)]
                    } else {
                        seq![]
                    });
                assert(errors@.map_values(|e: String| e@)
                    =~= ce1 + custom_level_errors(entries.take(i + 1)));
            }
        }
        proof {
            assert(entries.take(nc as int) =~= entries);
        }
    }
    proof {
        assert(errors@.map_values(|e: String| e@) =~= base + log_functions_errors(lf@));
    }
}

/// Appends the report complaints (see [`report_errors`]).
fn check_report(report: &ReportConfig, errors: &mut Vec<String>)
    ensures
        final(errors)@.map_values(|e: String| e@)
            == old(errors)@.map_values(|e: String| e@) + report_errors(report@),
{
    let ghost base = errors@.map_values(|e: String| e@);
    let format = &report.format;
    let format_ok = crate::string_utils::eq_ignore_ascii_case(format.as_str(), "text")
        || crate::string_utils::eq_ignore_ascii_case(format.as_str(), "html")
        || crate::string_utils::eq_ignore_ascii_case(format.as_str(), "json");
    if !format_ok {
        let ghost prevm = errors@.map_values(|e: String| e@);
        let mut msg = String::from_str("Invalid report format: '");
        msg.append(format.as_str());
        msg.append("'. Allowed formats are: [\"text\", \"html\", \"json\"]");
        proof {
            assert(msg@ == format_error_msg(format@));
        }
        let ghost mv = msg@;
        errors.push(msg);
        proof {
            assert(errors@.map_values(|e: String| e@) =~= prevm.push(mv));
        }
    }
    let trimmed_ts = crate::string_utils::trim(report.timestamp_format.as_str());
    if trimmed_ts.as_str().is_empty() {
        let ghost prevm = errors@.map_values(|e: String| e@);
        let msg = String::from_str("Report timestamp_format cannot be empty.");
        let ghost mv = msg@;
        errors.push(msg);
        proof {
            assert(errors@.map_values(|e: String| e@) =~= prevm.push(mv));
        }
    }
    proof {
        assert(errors@.map_values(|e: String| e@) =~= base + report_errors(report@));
    }
}

/// What [`ConfigManager::get_default_config`] returns.
pub open spec fn default_config_model() -> ConfigModel {
    ConfigModel {
        scan: ScanModel {
            directories: seq!["./"@],
            excludes: seq!["build/"@, "test/"@],
            file_types: seq![".cpp"@, ".cc"@, ".cxx"@, ".h"@, ".hpp"@],
        },
        log_functions: LogFunctionsModel {
            qt: QtLogModel {
                enabled: true,
                functions: seq!["qDebug"@, "qInfo"@, "qWarning"@, "qCritical"@, "qFatal"@],
                category_functions: seq!["qCDebug"@, "qCInfo"@, "qCWarning"@, "qCCritical"@],
            },
            custom: CustomLogModel {
                enabled: true,
                functions: seq![
                    ("debug"@, seq!["fmDebug"@]),
                    ("info"@, seq!["fmInfo"@]),
                    ("warning"@, seq!["fmWarning"@]),
                    ("critical"@, seq!["fmCritical"@]),
                ],
            },
        },
        analysis: AnalysisConfig {
            function_coverage: true,
            branch_coverage: true,
            exception_coverage: true,
            key_path_coverage: true,
        },
        report: ReportModel {
            format: "text"@,
            timestamp_format: "YYYYMMDD_HHMMSS"@,
        },
    }
}

/// The built-in default table carries each level tag once, so it satisfies
/// the well-formedness the table structure is meant to keep.
pub proof fn lemma_default_custom_tags_unique()
    ensures
        custom_tags_unique(default_config_model().log_functions.custom),
{
    reveal_strlit("debug");
    reveal_strlit("info");
    reveal_strlit("warning");
    reveal_strlit("critical");
    let t = default_config_model().log_functions.custom.functions;
    assert(t[0].0.len() == 5 && t[1].0.len() == 4 && t[2].0.len() == 7 && t[3].0.len() == 8);
}

} // verus!
