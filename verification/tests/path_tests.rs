use dlogcover::path_utils::{
    get_directory_name, get_file_extension, get_file_name, get_relative_path, has_extension,
    join_paths, normalize_path, to_absolute_path,
};

#[test]
fn extension_of_final_component() {
    assert_eq!(get_file_extension("dir/file.cpp"), Some("cpp".to_string()));
    assert_eq!(get_file_extension("a.b.c"), Some("c".to_string()));
    assert_eq!(get_file_extension("noext"), None);
    assert_eq!(get_file_extension(".gitignore"), None);
    assert_eq!(get_file_extension("trailing."), None);
    assert_eq!(get_file_extension("dir.v/file"), None);
    // A trailing separator is ignored; relative markers have no extension.
    assert_eq!(get_file_extension("a.b/"), Some("b".to_string()));
    assert_eq!(get_file_extension(".."), None);
    assert_eq!(get_file_extension("/"), None);
}

#[test]
fn stem_of_final_component() {
    assert_eq!(get_file_name("dir/file.cpp"), Some("file".to_string()));
    assert_eq!(get_file_name("archive.tar.gz"), Some("archive.tar".to_string()));
    assert_eq!(get_file_name(".gitignore"), Some(".gitignore".to_string()));
    assert_eq!(get_file_name("plain"), Some("plain".to_string()));
    // A trailing separator is ignored; relative markers have no stem.
    assert_eq!(get_file_name("dir/"), Some("dir".to_string()));
    assert_eq!(get_file_name(".."), None);
    assert_eq!(get_file_name("."), None);
    assert_eq!(get_file_name("/"), None);
    assert_eq!(get_file_name(""), None);
}

#[test]
fn directory_of_path() {
    assert_eq!(get_directory_name("a/b/c.txt"), Some("a/b".to_string()));
    assert_eq!(get_directory_name("/top"), Some("/".to_string()));
    assert_eq!(get_directory_name("/"), Some("/".to_string()));
    assert_eq!(get_directory_name("file.txt"), Some(".".to_string()));
    // A trailing separator is ignored.
    assert_eq!(get_directory_name("a/b/"), Some("a".to_string()));
    assert_eq!(get_directory_name("a/"), Some(".".to_string()));
    assert_eq!(get_directory_name(""), None);
}

#[test]
fn joining_paths() {
    assert_eq!(join_paths("a", "b"), "a/b");
    assert_eq!(join_paths("a/", "b"), "a/b");
    assert_eq!(join_paths("a", "/abs"), "/abs");
    assert_eq!(join_paths("", "b"), "b");
    assert_eq!(join_paths("/root", "sub/file"), "/root/sub/file");
}

#[test]
fn extension_test_ignores_ascii_case() {
    // Would fail if the case comparison answered a constant.
    assert!(has_extension("x/y.CPP", ".cpp"));
    assert!(has_extension("x/y.cpp", ".CpP"));
    assert!(!has_extension("x/y.cc", ".cpp"));
    // A trailing separator is ignored here too.
    assert!(has_extension("a.b/", ".b"));
    // A malformed extension argument matches nothing.
    assert!(!has_extension("x/y.cpp", "cpp"));
    assert!(!has_extension("x/y.cpp", "."));
    assert!(!has_extension("noext", ".cpp"));
}

#[test]
fn normalization() {
    assert_eq!(normalize_path("a/./b/../c"), "a/c");
    assert_eq!(normalize_path("/a/b/../../.."), "/");
    assert_eq!(normalize_path("a/.."), ".");
    assert_eq!(normalize_path(".."), "..");
    assert_eq!(normalize_path("a/../../b"), "../b");
    assert_eq!(normalize_path("."), ".");
    assert_eq!(normalize_path(""), "");
    assert_eq!(normalize_path("/"), "/");
    assert_eq!(normalize_path("a//b/"), "a/b");
}

#[test]
fn absolute_resolution() {
    assert_eq!(to_absolute_path("x/y", "/home/me"), "/home/me/x/y");
    assert_eq!(to_absolute_path("/already/abs/../x", "/home/me"), "/already/x");
    assert_eq!(to_absolute_path("./z", "/base"), "/base/z");
}

#[test]
fn relative_paths() {
    assert_eq!(get_relative_path("/a/b/c", "/a/b", "/"), "c");
    assert_eq!(get_relative_path("/a/b", "/a/b", "/"), ".");
    assert_eq!(get_relative_path("/a/x/y", "/a/b/c", "/"), "../../x/y");
    assert_eq!(get_relative_path("sub/file", ".", "/cwd"), "sub/file");
    assert_eq!(get_relative_path("/p", "/p/q/r", "/"), "../..");
}
