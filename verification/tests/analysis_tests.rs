use dlogcover::ast::{AstNode, DiagnosticSeverity, NodeKind, ParamInfo, SourceLocation};
use dlogcover::config::ConfigManager;
use dlogcover::coverage::CoverageCalculator;
use dlogcover::extractor::{extract_file, AstAnalyzer, ParseError};
use dlogcover::log_identifier::{LogIdentifier, LogLevel, LogType};

fn loc(line: u32, column: u32) -> SourceLocation {
    SourceLocation { file_path: "main.cpp".to_string(), line, column }
}

fn node(kind: NodeKind, l1: u32, c1: u32, l2: u32, c2: u32) -> AstNode {
    AstNode {
        kind,
        spelling: String::new(),
        usr: String::new(),
        is_definition: false,
        in_main_file: true,
        location: loc(l1, c1),
        start_location: loc(l1, c1),
        end_location: loc(l2, c2),
        result_type: String::new(),
        type_spelling: String::new(),
        parameters: vec![],
        callee_name: String::new(),
        arguments: vec![],
        children: vec![],
    }
}

fn function_node(name: &str, usr: &str, l1: u32, l2: u32) -> AstNode {
    let mut n = node(NodeKind::FunctionDecl, l1, 1, l2, 1);
    n.spelling = name.to_string();
    n.usr = usr.to_string();
    n.is_definition = true;
    n.result_type = "void".to_string();
    n
}

fn call_node(callee: &str, line: u32, column: u32) -> AstNode {
    let mut n = node(NodeKind::CallExpr, line, column, line, column + 10);
    n.location = loc(line, column);
    n.callee_name = callee.to_string();
    n
}

fn root(children: Vec<AstNode>) -> AstNode {
    let mut n = node(NodeKind::Other, 1, 1, 1, 1);
    n.in_main_file = false;
    n.children = children;
    n
}

#[test]
fn extracts_function_branch_and_exception() {
    let mut f = function_node("f", "c:@F@f#", 10, 20);
    let if_node = node(NodeKind::IfStmt, 12, 3, 14, 3);
    let mut try_node = node(NodeKind::TryStmt, 15, 3, 18, 3);
    let mut catch_node = node(NodeKind::CatchStmt, 16, 3, 18, 3);
    catch_node.type_spelling = "std::exception".to_string();
    try_node.children = vec![catch_node];
    f.children = vec![if_node, try_node];
    let tree = root(vec![f]);

    let info = extract_file(&"main.cpp".to_string(), &tree, &vec![]).unwrap();
    assert_eq!(info.file_path, "main.cpp");
    assert_eq!(info.functions.len(), 1);
    let func = &info.functions[0];
    assert_eq!(func.name, "f");
    assert_eq!(func.qualified_name, "c:@F@f#");
    assert!(func.has_body);
    assert!(!func.is_method);
    assert_eq!(func.start_location.line, 10);
    assert_eq!(func.end_location.line, 20);

    assert_eq!(info.branches.len(), 1);
    assert_eq!(info.branches[0].branch_type, "if");
    assert_eq!(info.branches[0].parent_function_qualified_name, "c:@F@f#");

    assert_eq!(info.exceptions.len(), 2);
    assert_eq!(info.exceptions[0].exception_type, "try");
    assert_eq!(info.exceptions[0].caught_type, None);
    assert_eq!(info.exceptions[1].exception_type, "catch");
    assert_eq!(info.exceptions[1].caught_type, Some("std::exception".to_string()));
}

#[test]
fn qualified_name_falls_back_to_plain_name() {
    let f = function_node("plain", "", 1, 3);
    let tree = root(vec![f]);
    let info = extract_file(&"main.cpp".to_string(), &tree, &vec![]).unwrap();
    assert_eq!(info.functions[0].qualified_name, "plain");
}

#[test]
fn method_records_enclosing_class() {
    let mut class_node = node(NodeKind::ClassDecl, 1, 1, 30, 1);
    class_node.spelling = "Widget".to_string();
    let mut m = function_node("draw", "c:@S@Widget@F@draw#", 5, 10);
    m.kind = NodeKind::Method;
    m.parameters = vec![
        ParamInfo { name: "x".to_string(), param_type: "int".to_string() },
        ParamInfo { name: String::new(), param_type: "bool".to_string() },
    ];
    class_node.children = vec![m];
    let tree = root(vec![class_node]);
    let info = extract_file(&"main.cpp".to_string(), &tree, &vec![]).unwrap();
    let func = &info.functions[0];
    assert!(func.is_method);
    assert_eq!(func.class_name, Some("Widget".to_string()));
    assert_eq!(func.parameters, vec!["x: int".to_string(), "bool".to_string()]);
}

#[test]
fn branch_kinds_are_labelled() {
    let mut f = function_node("f", "f", 1, 50);
    f.children = vec![
        node(NodeKind::SwitchStmt, 2, 1, 9, 1),
        node(NodeKind::CaseStmt, 3, 1, 4, 1),
        node(NodeKind::DefaultStmt, 5, 1, 6, 1),
        node(NodeKind::ForStmt, 10, 1, 12, 1),
        node(NodeKind::WhileStmt, 13, 1, 15, 1),
        node(NodeKind::DoStmt, 16, 1, 18, 1),
    ];
    let tree = root(vec![f]);
    let info = extract_file(&"main.cpp".to_string(), &tree, &vec![]).unwrap();
    let labels: Vec<&str> = info.branches.iter().map(|b| b.branch_type.as_str()).collect();
    assert_eq!(labels, vec!["switch", "case", "default", "for", "while", "do_while"]);
}

#[test]
fn branch_outside_any_function_is_dropped() {
    let tree = root(vec![node(NodeKind::IfStmt, 1, 1, 2, 1)]);
    let info = extract_file(&"main.cpp".to_string(), &tree, &vec![]).unwrap();
    assert!(info.branches.is_empty());
}

#[test]
fn declaration_without_body_is_ignored() {
    let mut decl = function_node("only_decl", "u", 1, 1);
    decl.is_definition = false;
    let tree = root(vec![decl]);
    let info = extract_file(&"main.cpp".to_string(), &tree, &vec![]).unwrap();
    assert!(info.functions.is_empty());
}

#[test]
fn header_node_is_skipped_but_children_visited() {
    // A node from an included header hides nothing: its main-file child is
    // still extracted, with the unchanged context.
    let mut header = node(NodeKind::ClassDecl, 1, 1, 9, 1);
    header.spelling = "FromHeader".to_string();
    header.in_main_file = false;
    let mut m = function_node("inner", "inner", 3, 5);
    m.kind = NodeKind::Method;
    header.children = vec![m];
    let tree = root(vec![header]);
    let info = extract_file(&"main.cpp".to_string(), &tree, &vec![]).unwrap();
    assert_eq!(info.functions.len(), 1);
    // The class context was not updated by the skipped header node.
    assert_eq!(info.functions[0].class_name, None);
}

#[test]
fn fatal_diagnostic_blocks_extraction() {
    let tree = root(vec![]);
    let diags = vec![DiagnosticSeverity::Warning, DiagnosticSeverity::Error];
    let r = extract_file(&"main.cpp".to_string(), &tree, &diags);
    assert_eq!(r.unwrap_err(), ParseError::FatalDiagnostics);
}

#[test]
fn analyzer_skips_failed_file_and_keeps_going() {
    let mut analyzer = AstAnalyzer::new();
    let tree = root(vec![function_node("f", "f", 1, 2)]);
    let bad = analyzer.analyze_file(
        &"bad.cpp".to_string(),
        &tree,
        &vec![DiagnosticSeverity::Fatal],
    );
    assert!(bad.is_err());
    let good = analyzer.analyze_file(&"good.cpp".to_string(), &tree, &vec![]);
    assert!(good.is_ok());
    let results = analyzer.get_analysis_results();
    assert_eq!(results.len(), 1);
    assert_eq!(results[0].file_path, "good.cpp");
}

#[test]
fn identifies_builtin_global_call() {
    let config = ConfigManager::get_default_config();
    let identifier = LogIdentifier::new(&config);
    let mut f = function_node("f", "f", 1, 9);
    let mut call = call_node("qWarning", 3, 5);
    call.arguments = vec!["\"msg\"".to_string(), String::new()];
    f.children = vec![call];
    let tree = root(vec![f]);
    let sites = identifier.identify_log_calls_in_file(&tree, &vec![]).unwrap();
    assert_eq!(sites.len(), 1);
    let site = &sites[0];
    assert_eq!(site.function_name, "qWarning");
    assert_eq!(site.log_type, LogType::BuiltinGlobal);
    assert_eq!(site.log_level, LogLevel::Warning);
    assert_eq!(site.parent_function_qualified_name, "f");
    assert_eq!(site.source_location.line, 3);
    // The empty argument spelling becomes the fixed placeholder.
    assert_eq!(
        site.message_arguments,
        vec!["\"msg\"".to_string(), "<complex_arg>".to_string()]
    );
}

#[test]
fn identifies_category_and_custom_calls() {
    let config = ConfigManager::get_default_config();
    let identifier = LogIdentifier::new(&config);
    let mut f = function_node("f", "f", 1, 20);
    f.children = vec![call_node("qCInfo", 2, 1), call_node("fmCritical", 3, 1)];
    let tree = root(vec![f]);
    let sites = identifier.identify_log_calls_in_file(&tree, &vec![]).unwrap();
    assert_eq!(sites.len(), 2);
    assert_eq!(sites[0].log_type, LogType::BuiltinCategory);
    assert_eq!(sites[0].log_level, LogLevel::Info);
    assert_eq!(sites[1].log_type, LogType::Custom);
    assert_eq!(sites[1].log_level, LogLevel::Critical);
}

#[test]
fn unrecognized_call_produces_no_site() {
    let config = ConfigManager::get_default_config();
    let identifier = LogIdentifier::new(&config);
    let mut f = function_node("f", "f", 1, 9);
    f.children = vec![call_node("printf", 2, 1)];
    let tree = root(vec![f]);
    let sites = identifier.identify_log_calls_in_file(&tree, &vec![]).unwrap();
    assert!(sites.is_empty());
}

#[test]
fn call_outside_any_function_is_not_recorded() {
    let config = ConfigManager::get_default_config();
    let identifier = LogIdentifier::new(&config);
    let tree = root(vec![call_node("qDebug", 1, 1)]);
    let sites = identifier.identify_log_calls_in_file(&tree, &vec![]).unwrap();
    assert!(sites.is_empty());
}

#[test]
fn builtin_global_wins_over_custom() {
    // The same name configured both as a built-in global function and in a
    // custom level list is classified as built-in global, never custom.
    let mut config = ConfigManager::get_default_config();
    config
        .log_functions
        .custom
        .functions
        .push(("error".to_string(), vec!["qDebug".to_string()]));
    let identifier = LogIdentifier::new(&config);
    let mut f = function_node("f", "f", 1, 9);
    f.children = vec![call_node("qDebug", 2, 1)];
    let tree = root(vec![f]);
    let sites = identifier.identify_log_calls_in_file(&tree, &vec![]).unwrap();
    assert_eq!(sites[0].log_type, LogType::BuiltinGlobal);
    assert_eq!(sites[0].log_level, LogLevel::Debug);
}

#[test]
fn custom_level_tags_are_case_insensitive_with_synonyms() {
    let mut config = ConfigManager::get_default_config();
    config.log_functions.custom.functions = vec![
        ("WARN".to_string(), vec!["my_warn".to_string()]),
        ("Error".to_string(), vec!["my_err_log".to_string()]),
        ("mystery".to_string(), vec!["my_other".to_string()]),
    ];
    let identifier = LogIdentifier::new(&config);
    let mut f = function_node("f", "f", 1, 20);
    f.children = vec![
        call_node("my_warn", 2, 1),
        call_node("my_err_log", 3, 1),
        call_node("my_other", 4, 1),
    ];
    let tree = root(vec![f]);
    let sites = identifier.identify_log_calls_in_file(&tree, &vec![]).unwrap();
    assert_eq!(sites[0].log_level, LogLevel::Warning);
    assert_eq!(sites[1].log_level, LogLevel::Critical);
    assert_eq!(sites[2].log_level, LogLevel::Unknown);
    assert_eq!(sites[2].log_type, LogType::Custom);
}

#[test]
fn disabled_conventions_match_nothing() {
    let mut config = ConfigManager::get_default_config();
    config.log_functions.qt.enabled = false;
    config.log_functions.custom.enabled = false;
    let identifier = LogIdentifier::new(&config);
    let mut f = function_node("f", "f", 1, 9);
    f.children = vec![call_node("qDebug", 2, 1), call_node("fmInfo", 3, 1)];
    let tree = root(vec![f]);
    let sites = identifier.identify_log_calls_in_file(&tree, &vec![]).unwrap();
    assert!(sites.is_empty());
}

#[test]
fn end_to_end_function_and_branch_covered() {
    // One function spanning lines 10-20, an `if` at lines 12-14, and a call
    // to a configured debug-named function at line 13 inside the function:
    // both the function (by name and by span) and the branch (by span) are
    // covered, each 1 of 1.
    let config = ConfigManager::get_default_config();
    let mut f = function_node("f", "f", 10, 20);
    let mut if_node = node(NodeKind::IfStmt, 12, 3, 14, 3);
    if_node.children = vec![call_node("qDebug", 13, 5)];
    f.children = vec![if_node];
    let tree = root(vec![f]);

    let info = extract_file(&"main.cpp".to_string(), &tree, &vec![]).unwrap();
    let identifier = LogIdentifier::new(&config);
    let sites = identifier.identify_log_calls_in_file(&tree, &vec![]).unwrap();
    assert_eq!(sites.len(), 1);

    let calc = CoverageCalculator::new(&config);
    let cov = calc.calculate_file_coverage(&info, &sites);
    assert_eq!((cov.functions.total, cov.functions.covered), (1, 1));
    assert_eq!((cov.branches.total, cov.branches.covered), (1, 1));
    let (fnum, fden) = cov.functions.percentage_parts();
    assert_eq!(fnum as f64 / fden as f64, 100.0f64);
    let (bnum, bden) = cov.branches.percentage_parts();
    assert_eq!(bnum as f64 / bden as f64, 100.0f64);
    assert!(cov.uncovered_functions.is_empty());
    assert!(cov.uncovered_branches.is_empty());
}

#[test]
fn end_to_end_function_without_logging_is_uncovered() {
    // One function spanning lines 1-5 and no recognized logging call
    // anywhere: functions 0 of 1, and the function appears in the
    // uncovered list.
    let config = ConfigManager::get_default_config();
    let mut f = function_node("g", "g", 1, 5);
    f.children = vec![call_node("helper", 2, 1)];
    let tree = root(vec![f]);

    let info = extract_file(&"main.cpp".to_string(), &tree, &vec![]).unwrap();
    let identifier = LogIdentifier::new(&config);
    let sites = identifier.identify_log_calls_in_file(&tree, &vec![]).unwrap();
    assert!(sites.is_empty());

    let calc = CoverageCalculator::new(&config);
    let cov = calc.calculate_file_coverage(&info, &sites);
    assert_eq!((cov.functions.total, cov.functions.covered), (1, 0));
    let (num, den) = cov.functions.percentage_parts();
    assert_eq!(num as f64 / den as f64, 0.0f64);
    assert_eq!(cov.uncovered_functions.len(), 1);
    assert_eq!(cov.uncovered_functions[0].name, "g");
}
