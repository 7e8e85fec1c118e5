use dlogcover::config::{CliOptions, Config, ConfigManager};

fn no_cli() -> CliOptions {
    CliOptions {
        directory: None,
        output: None,
        config: None,
        exclude: vec![],
        log_level: None,
        format: None,
    }
}

fn default_config() -> Config {
    ConfigManager::get_default_config()
}

#[test]
fn default_configuration_values() {
    let c = default_config();
    assert_eq!(c.scan.directories, vec!["./"]);
    assert_eq!(c.scan.excludes, vec!["build/", "test/"]);
    assert_eq!(c.scan.file_types, vec![".cpp", ".cc", ".cxx", ".h", ".hpp"]);
    assert!(c.log_functions.qt.enabled);
    assert_eq!(
        c.log_functions.qt.functions,
        vec!["qDebug", "qInfo", "qWarning", "qCritical", "qFatal"]
    );
    assert_eq!(
        c.log_functions.qt.category_functions,
        vec!["qCDebug", "qCInfo", "qCWarning", "qCCritical"]
    );
    assert!(c.log_functions.custom.enabled);
    assert_eq!(c.log_functions.custom.functions.len(), 4);
    assert_eq!(c.log_functions.custom.functions[0].0, "debug");
    assert_eq!(c.log_functions.custom.functions[0].1, vec!["fmDebug"]);
    assert!(c.analysis.function_coverage);
    assert_eq!(c.report.format, "text");
    assert_eq!(c.report.timestamp_format, "YYYYMMDD_HHMMSS");
}

#[test]
fn default_configuration_validates() {
    assert!(ConfigManager::validate_config(&default_config()).is_ok());
}

#[test]
fn empty_directories_are_rejected() {
    let mut c = default_config();
    c.scan.directories = vec![];
    let errors = ConfigManager::validate_config(&c).unwrap_err();
    assert_eq!(errors, vec!["Scan directories list cannot be empty."]);
}

#[test]
fn whitespace_directory_is_rejected() {
    let mut c = default_config();
    c.scan.directories = vec!["  \t".to_string()];
    let errors = ConfigManager::validate_config(&c).unwrap_err();
    assert_eq!(errors, vec!["Scan directory path cannot be empty or just whitespace."]);
}

#[test]
fn empty_file_types_are_rejected() {
    let mut c = default_config();
    c.scan.file_types = vec![];
    let errors = ConfigManager::validate_config(&c).unwrap_err();
    assert_eq!(errors, vec!["Scan file_types list cannot be empty."]);
}

#[test]
fn malformed_file_type_is_rejected() {
    let mut c = default_config();
    c.scan.file_types = vec!["cpp".to_string(), ".".to_string(), ".ok".to_string()];
    let errors = ConfigManager::validate_config(&c).unwrap_err();
    assert_eq!(errors.len(), 2);
    assert_eq!(
        errors[0],
        "Invalid file type format: 'cpp'. Must start with '.' and have at least one character (e.g. '.cpp')."
    );
    assert_eq!(
        errors[1],
        "Invalid file type format: '.'. Must start with '.' and have at least one character (e.g. '.cpp')."
    );
}

#[test]
fn enabled_qt_logging_needs_function_names() {
    let mut c = default_config();
    c.log_functions.qt.functions = vec![];
    c.log_functions.qt.category_functions = vec![];
    let errors = ConfigManager::validate_config(&c).unwrap_err();
    assert_eq!(
        errors,
        vec!["Qt logging is enabled, but no Qt log functions or category functions are specified."]
    );
}

#[test]
fn enabled_custom_logging_needs_entries() {
    let mut c = default_config();
    c.log_functions.custom.functions = vec![];
    let errors = ConfigManager::validate_config(&c).unwrap_err();
    assert_eq!(
        errors,
        vec!["Custom logging is enabled, but no custom log functions are specified."]
    );
}

#[test]
fn empty_custom_level_list_is_rejected() {
    let mut c = default_config();
    c.log_functions.custom.functions = vec![
        ("debug".to_string(), vec!["d".to_string()]),
        ("fancy".to_string(), vec![]),
    ];
    let errors = ConfigManager::validate_config(&c).unwrap_err();
    assert_eq!(errors, vec!["Custom log functions for level 'fancy' is an empty list."]);
}

#[test]
fn disabled_conventions_are_not_checked() {
    let mut c = default_config();
    c.log_functions.qt.enabled = false;
    c.log_functions.qt.functions = vec![];
    c.log_functions.qt.category_functions = vec![];
    c.log_functions.custom.enabled = false;
    c.log_functions.custom.functions = vec![("x".to_string(), vec![])];
    assert!(ConfigManager::validate_config(&c).is_ok());
}

#[test]
fn report_format_is_checked_ignoring_case() {
    let mut c = default_config();
    c.report.format = "JSON".to_string();
    assert!(ConfigManager::validate_config(&c).is_ok());
    c.report.format = "xml".to_string();
    let errors = ConfigManager::validate_config(&c).unwrap_err();
    assert_eq!(
        errors,
        vec!["Invalid report format: 'xml'. Allowed formats are: [\"text\", \"html\", \"json\"]"]
    );
}

#[test]
fn whitespace_timestamp_format_is_rejected() {
    let mut c = default_config();
    c.report.timestamp_format = " ".to_string();
    let errors = ConfigManager::validate_config(&c).unwrap_err();
    assert_eq!(errors, vec!["Report timestamp_format cannot be empty."]);
}

#[test]
fn cli_options_override_configuration() {
    let mut c = default_config();
    let cli = CliOptions {
        directory: Some("/src".to_string()),
        output: Some("/out/report.txt".to_string()),
        config: None,
        exclude: vec!["third_party/".to_string()],
        log_level: Some("debug".to_string()),
        format: Some("json".to_string()),
    };
    ConfigManager::merge_cli_options(&mut c, &cli);
    assert_eq!(c.scan.directories, vec!["/src"]);
    assert_eq!(c.scan.excludes, vec!["third_party/"]);
    assert_eq!(c.report.format, "json");
    // Everything else is kept.
    assert_eq!(c.scan.file_types.len(), 5);
    assert_eq!(c.report.timestamp_format, "YYYYMMDD_HHMMSS");
}

#[test]
fn absent_cli_options_change_nothing() {
    let mut c = default_config();
    ConfigManager::merge_cli_options(&mut c, &no_cli());
    assert_eq!(c.scan.directories, vec!["./"]);
    assert_eq!(c.scan.excludes, vec!["build/", "test/"]);
    assert_eq!(c.report.format, "text");
}

#[test]
fn manager_merges_and_validates() {
    let cli = CliOptions { format: Some("nonsense".to_string()), ..no_cli() };
    let err = match ConfigManager::new(default_config(), &cli) {
        Err(e) => e,
        Ok(_) => panic!("expected a validation error"),
    };
    assert_eq!(err.len(), 1);
    assert!(err[0].starts_with("Invalid report format: 'nonsense'"));

    let manager = match ConfigManager::new(default_config(), &no_cli()) {
        Ok(m) => m,
        Err(e) => panic!("unexpected validation errors: {:?}", e),
    };
    assert_eq!(manager.config.report.format, "text");
}
