use dlogcover::config::ConfigManager;
use dlogcover::source_scan::SourceManager;

#[test]
fn invalid_exclude_pattern_is_reported() {
    let mut config = ConfigManager::get_default_config();
    config.scan.excludes = vec!["ok.*".to_string(), "(unclosed".to_string()];
    let err = match SourceManager::new(&config) {
        Err(e) => e,
        Ok(_) => panic!("expected a compile failure"),
    };
    assert_eq!(err, "Failed to compile exclude regex pattern '(unclosed'");
}

#[test]
fn scanner_selects_by_extension_and_exclusion() {
    let mut config = ConfigManager::get_default_config();
    config.scan.excludes = vec!["/build/".to_string()];
    let mut manager = match SourceManager::new(&config) { Ok(m) => m, Err(e) => panic!("{}", e) };
    let candidates = vec![
        "/proj/src/a.cpp".to_string(),
        "/proj/src/b.txt".to_string(),
        "/proj/build/gen.cpp".to_string(),
        "/proj/src/C.HPP".to_string(),
        "/proj/src/README".to_string(),
    ];
    manager.collect_source_files(&"/proj".to_string(), &candidates);
    let files = manager.get_source_files();
    let abs: Vec<&str> = files.iter().map(|f| f.absolute_path.as_str()).collect();
    // The wrong extension, the excluded directory and the extensionless file
    // are dropped; the extension comparison ignores ASCII case.
    assert_eq!(abs, vec!["/proj/src/a.cpp", "/proj/src/C.HPP"]);
    let rel: Vec<&str> = files.iter().map(|f| f.relative_path.as_str()).collect();
    assert_eq!(rel, vec!["src/a.cpp", "src/C.HPP"]);
}

#[test]
fn exclusion_uses_the_real_pattern() {
    // Would fail if pattern matching answered a constant: the same path is
    // kept or dropped depending on the configured pattern.
    let mut config = ConfigManager::get_default_config();
    config.scan.excludes = vec!["third_party".to_string()];
    let mut manager = match SourceManager::new(&config) { Ok(m) => m, Err(e) => panic!("{}", e) };
    manager.collect_source_files(
        &"/p".to_string(),
        &vec!["/p/third_party/x.cpp".to_string(), "/p/own/x.cpp".to_string()],
    );
    assert_eq!(manager.get_source_files().len(), 1);
    assert_eq!(manager.get_source_files()[0].absolute_path, "/p/own/x.cpp");

    let mut config2 = ConfigManager::get_default_config();
    config2.scan.excludes = vec![];
    let mut manager2 = match SourceManager::new(&config2) { Ok(m) => m, Err(e) => panic!("{}", e) };
    manager2.collect_source_files(
        &"/p".to_string(),
        &vec!["/p/third_party/x.cpp".to_string(), "/p/own/x.cpp".to_string()],
    );
    assert_eq!(manager2.get_source_files().len(), 2);
}

#[test]
fn candidate_outside_the_root_keeps_its_file_name() {
    let config = ConfigManager::get_default_config();
    let mut manager = match SourceManager::new(&config) { Ok(m) => m, Err(e) => panic!("{}", e) };
    manager.collect_source_files(
        &"/root/project".to_string(),
        &vec!["/elsewhere/a.cpp".to_string()],
    );
    let files = manager.get_source_files();
    assert_eq!(files[0].relative_path, "a.cpp");
}

#[test]
fn collecting_accumulates_across_roots() {
    let config = ConfigManager::get_default_config();
    let mut manager = match SourceManager::new(&config) { Ok(m) => m, Err(e) => panic!("{}", e) };
    manager.collect_source_files(&"/a".to_string(), &vec!["/a/x.cpp".to_string()]);
    manager.collect_source_files(&"/b".to_string(), &vec!["/b/y.cc".to_string()]);
    let files = manager.get_source_files();
    assert_eq!(files.len(), 2);
    assert_eq!(files[0].absolute_path, "/a/x.cpp");
    assert_eq!(files[1].absolute_path, "/b/y.cc");
}
