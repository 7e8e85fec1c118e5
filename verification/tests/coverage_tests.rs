use dlogcover::ast::{BranchInfo, ExceptionInfo, FileAstInfo, FunctionInfo, SourceLocation};
use dlogcover::config::ConfigManager;
use dlogcover::coverage::{CoverageCalculator, CoverageMetrics, PerFileCoverage};
use dlogcover::log_identifier::{LogCallSite, LogLevel, LogType};

fn loc(file: &str, line: u32, column: u32) -> SourceLocation {
    SourceLocation { file_path: file.to_string(), line, column }
}

fn site_at(file: &str, line: u32, column: u32, parent: &str) -> LogCallSite {
    LogCallSite {
        function_name: "qDebug".to_string(),
        source_location: loc(file, line, column),
        log_level: LogLevel::Debug,
        log_type: LogType::BuiltinGlobal,
        parent_function_qualified_name: parent.to_string(),
        containing_class_name: None,
        message_arguments: vec![],
    }
}

fn function(name: &str, file: &str, l1: u32, c1: u32, l2: u32, c2: u32) -> FunctionInfo {
    FunctionInfo {
        name: name.to_string(),
        qualified_name: name.to_string(),
        start_location: loc(file, l1, c1),
        end_location: loc(file, l2, c2),
        is_method: false,
        class_name: None,
        return_type: "void".to_string(),
        parameters: vec![],
        has_body: true,
    }
}

#[test]
fn percentage_from_counts() {
    let m = CoverageMetrics::new(4, 2);
    let (num, den) = m.percentage_parts();
    assert_eq!((num, den), (200, 4));
    assert_eq!(num as f64 / den as f64, 2.0f64 / 4.0f64 * 100.0f64);
    assert_eq!(num as f64 / den as f64, 50.0f64);
    assert!(m.covered <= m.total);
}

#[test]
fn percentage_of_empty_population_is_hundred() {
    let m = CoverageMetrics::new(0, 0);
    let (num, den) = m.percentage_parts();
    assert_eq!((num, den), (100, 1));
    assert_eq!(num as f64 / den as f64, 100.0f64);
}

#[test]
fn span_containment_is_inclusive_at_endpoints() {
    let start = loc("a.cpp", 10, 5);
    let end = loc("a.cpp", 20, 3);
    assert!(CoverageCalculator::is_location_within_range(&loc("a.cpp", 10, 5), &start, &end));
    assert!(CoverageCalculator::is_location_within_range(&loc("a.cpp", 20, 3), &start, &end));
    // One column before the start, same line: outside.
    assert!(!CoverageCalculator::is_location_within_range(&loc("a.cpp", 10, 4), &start, &end));
    // One column past the end, same line: outside.
    assert!(!CoverageCalculator::is_location_within_range(&loc("a.cpp", 20, 4), &start, &end));
    assert!(CoverageCalculator::is_location_within_range(&loc("a.cpp", 15, 1), &start, &end));
    assert!(!CoverageCalculator::is_location_within_range(&loc("a.cpp", 9, 9), &start, &end));
    assert!(!CoverageCalculator::is_location_within_range(&loc("a.cpp", 21, 1), &start, &end));
}

#[test]
fn function_without_call_sites_is_uncovered() {
    let config = ConfigManager::get_default_config();
    let calc = CoverageCalculator::new(&config);
    let file = FileAstInfo {
        file_path: "g.cpp".to_string(),
        functions: vec![function("g", "g.cpp", 1, 1, 5, 1)],
        branches: vec![],
        exceptions: vec![],
    };
    let cov = calc.calculate_file_coverage(&file, &vec![]);
    assert_eq!(cov.functions.total, 1);
    assert_eq!(cov.functions.covered, 0);
    let (num, den) = cov.functions.percentage_parts();
    assert_eq!(num as f64 / den as f64, 0.0f64);
    assert_eq!(cov.uncovered_functions.len(), 1);
    assert_eq!(cov.uncovered_functions[0].name, "g");
}

#[test]
fn call_site_at_first_character_covers_function() {
    let config = ConfigManager::get_default_config();
    let calc = CoverageCalculator::new(&config);
    let file = FileAstInfo {
        file_path: "h.cpp".to_string(),
        functions: vec![function("h", "h.cpp", 3, 1, 9, 2)],
        branches: vec![],
        exceptions: vec![],
    };
    // The call site sits exactly at the function's first character and names
    // another enclosing function, so only the span rule applies.
    let sites = vec![site_at("h.cpp", 3, 1, "elsewhere")];
    let cov = calc.calculate_file_coverage(&file, &sites);
    assert_eq!(cov.functions.covered, 1);
    assert!(cov.uncovered_functions.is_empty());
}

#[test]
fn function_covered_by_parent_name_alone() {
    let config = ConfigManager::get_default_config();
    let calc = CoverageCalculator::new(&config);
    let file = FileAstInfo {
        file_path: "m.cpp".to_string(),
        functions: vec![function("m", "m.cpp", 10, 1, 20, 1)],
        branches: vec![],
        exceptions: vec![],
    };
    // The location lies far outside the span; the qualified name matches.
    let sites = vec![site_at("m.cpp", 999, 1, "m")];
    let cov = calc.calculate_file_coverage(&file, &sites);
    assert_eq!(cov.functions.covered, 1);
}

#[test]
fn project_totals_sum_per_file_totals() {
    let config = ConfigManager::get_default_config();
    let calc = CoverageCalculator::new(&config);
    let file_a = FileAstInfo {
        file_path: "a.cpp".to_string(),
        functions: vec![function("fa", "a.cpp", 1, 1, 5, 1), function("fb", "a.cpp", 6, 1, 9, 1)],
        branches: vec![],
        exceptions: vec![],
    };
    let file_b = FileAstInfo {
        file_path: "b.cpp".to_string(),
        functions: vec![function("fc", "b.cpp", 1, 1, 5, 1)],
        branches: vec![],
        exceptions: vec![],
    };
    let sites = vec![
        ("a.cpp".to_string(), vec![site_at("a.cpp", 2, 1, "fa")]),
        ("b.cpp".to_string(), vec![site_at("b.cpp", 2, 1, "fc")]),
    ];
    let project = calc
        .calculate_project_coverage(&vec![file_a, file_b], &sites)
        .unwrap();
    assert_eq!(project.files.len(), 2);
    let sum_total: usize = project.files.iter().map(|f| f.functions.total).sum();
    let sum_covered: usize = project.files.iter().map(|f| f.functions.covered).sum();
    assert_eq!(project.total_functions.total, sum_total);
    assert_eq!(project.total_functions.covered, sum_covered);
    assert_eq!(project.total_functions.total, 3);
    assert_eq!(project.total_functions.covered, 2);
    // The overall pool equals the sum of the three category pools.
    assert_eq!(
        project.project_overall.total,
        project.total_functions.total + project.total_branches.total
            + project.total_exceptions.total
    );
    assert_eq!(
        project.project_overall.covered,
        project.total_functions.covered + project.total_branches.covered
            + project.total_exceptions.covered
    );
}

#[test]
fn empty_project_is_fully_covered() {
    let config = ConfigManager::get_default_config();
    let calc = CoverageCalculator::new(&config);
    let project = calc.calculate_project_coverage(&vec![], &vec![]).unwrap();
    assert!(project.files.is_empty());
    assert_eq!(project.total_functions.total, 0);
    assert_eq!(project.total_functions.covered, 0);
    assert_eq!(project.total_branches.total, 0);
    assert_eq!(project.total_exceptions.total, 0);
    assert_eq!(project.project_overall.total, 0);
    let (num, den) = project.project_overall.percentage_parts();
    assert_eq!(num as f64 / den as f64, 100.0f64);
}

#[test]
fn file_missing_from_site_map_has_no_sites() {
    let config = ConfigManager::get_default_config();
    let calc = CoverageCalculator::new(&config);
    let file = FileAstInfo {
        file_path: "lone.cpp".to_string(),
        functions: vec![function("f", "lone.cpp", 1, 1, 4, 1)],
        branches: vec![],
        exceptions: vec![],
    };
    let sites = vec![("other.cpp".to_string(), vec![site_at("other.cpp", 2, 1, "f")])];
    let project = calc.calculate_project_coverage(&vec![file], &sites).unwrap();
    assert_eq!(project.total_functions.covered, 0);
    assert_eq!(project.total_functions.total, 1);
}

#[test]
fn partially_covered_branches_are_listed() {
    let config = ConfigManager::get_default_config();
    let calc = CoverageCalculator::new(&config);
    let branch = |kind: &str, l1: u32, l2: u32| BranchInfo {
        parent_function_qualified_name: "f".to_string(),
        branch_type: kind.to_string(),
        start_location: loc("b.cpp", l1, 1),
        end_location: loc("b.cpp", l2, 1),
        condition_expression: None,
    };
    let file = FileAstInfo {
        file_path: "b.cpp".to_string(),
        functions: vec![],
        branches: vec![branch("if", 2, 4), branch("while", 6, 8)],
        exceptions: vec![],
    };
    // One site inside the first branch only; the name rule does not apply
    // to branches, so the second stays uncovered.
    let sites = vec![site_at("b.cpp", 3, 1, "f")];
    let cov = calc.calculate_file_coverage(&file, &sites);
    assert_eq!((cov.branches.total, cov.branches.covered), (2, 1));
    assert_eq!(cov.uncovered_branches.len(), 1);
    assert_eq!(cov.uncovered_branches[0].branch_type, "while");
    let (num, den) = cov.branches.percentage_parts();
    assert_eq!(num as f64 / den as f64, 50.0f64);
}

#[test]
fn exception_blocks_are_covered_by_span_only() {
    let config = ConfigManager::get_default_config();
    let calc = CoverageCalculator::new(&config);
    let exc = |kind: &str, caught: Option<&str>, l1: u32, l2: u32| ExceptionInfo {
        parent_function_qualified_name: "f".to_string(),
        exception_type: kind.to_string(),
        caught_type: caught.map(|c| c.to_string()),
        start_location: loc("e.cpp", l1, 1),
        end_location: loc("e.cpp", l2, 1),
    };
    let file = FileAstInfo {
        file_path: "e.cpp".to_string(),
        functions: vec![],
        branches: vec![],
        exceptions: vec![
            exc("try", None, 2, 10),
            exc("catch", Some("std::exception"), 7, 10),
        ],
    };
    // A site at line 3 lies in the try block but before the catch clause.
    let sites = vec![site_at("e.cpp", 3, 1, "f")];
    let cov = calc.calculate_file_coverage(&file, &sites);
    assert_eq!((cov.exceptions.total, cov.exceptions.covered), (2, 1));
    assert_eq!(cov.uncovered_exceptions.len(), 1);
    assert_eq!(cov.uncovered_exceptions[0].exception_type, "catch");
    assert_eq!(
        cov.uncovered_exceptions[0].caught_type,
        Some("std::exception".to_string())
    );
    // The file overall pools the three categories.
    assert_eq!(cov.overall.total, 2);
    assert_eq!(cov.overall.covered, 1);
}

#[test]
fn functions_without_bodies_are_not_counted() {
    let config = ConfigManager::get_default_config();
    let calc = CoverageCalculator::new(&config);
    let mut decl = function("only_decl", "d.cpp", 1, 1, 1, 20);
    decl.has_body = false;
    let file = FileAstInfo {
        file_path: "d.cpp".to_string(),
        functions: vec![decl, function("real", "d.cpp", 3, 1, 9, 1)],
        branches: vec![],
        exceptions: vec![],
    };
    let cov = calc.calculate_file_coverage(&file, &vec![]);
    assert_eq!(cov.functions.total, 1);
    assert_eq!(cov.uncovered_functions.len(), 1);
    assert_eq!(cov.uncovered_functions[0].name, "real");
}

#[test]
fn per_file_coverage_new_is_empty() {
    let cov = PerFileCoverage::new("x.cpp".to_string());
    assert_eq!(cov.file_path, "x.cpp");
    assert_eq!(cov.functions.total, 0);
    assert_eq!(cov.overall.covered, 0);
    assert!(cov.uncovered_functions.is_empty());
    assert!(cov.uncovered_branches.is_empty());
    assert!(cov.uncovered_exceptions.is_empty());
}
