use aipack::paths::{path_join_non_os_normalized, path_join_os_normalized, path_parent, path_split};
use std::path::MAIN_SEPARATOR;
use std::path::PathBuf;

fn join_non_normalized(parts: &[&str]) -> Option<String> {
    let v: Vec<String> = parts.iter().map(|s| s.to_string()).collect();
    path_join_non_os_normalized(&v)
}

fn join_normalized(parts: &[&str]) -> Option<String> {
    let v: Vec<String> = parts.iter().map(|s| s.to_string()).collect();
    path_join_os_normalized(&v)
}

fn common_test_lua_path_join_non_os_normalized(parts1: &[&str], parts2: &[&str]) {
    let mut expected1 = PathBuf::new();
    expected1.push("folder");
    expected1.push("subfolder");
    expected1.push("file.txt");

    let mut expected2 = PathBuf::new();
    expected2.push("folder\\");
    expected2.push("subfolder/");
    expected2.push("file.txt");

    assert_eq!(
        join_non_normalized(parts1).expect("should join"),
        expected1.to_string_lossy().to_string()
    );
    assert_eq!(
        join_non_normalized(parts2).expect("should join"),
        expected2.to_string_lossy().to_string()
    );
}

#[test]
fn test_lua_path_join_default() {
    common_test_lua_path_join_non_os_normalized(
        &["folder", "subfolder", "file.txt"],
        &["folder\\", "subfolder/", "file.txt"],
    );
}

#[test]
fn test_lua_path_join_os_non_normalized() {
    common_test_lua_path_join_non_os_normalized(
        &["folder", "subfolder", "file.txt"],
        &["folder\\", "subfolder/", "file.txt"],
    );
}

#[test]
fn test_lua_path_join_os_normalized_lua_engine() {
    let sep = MAIN_SEPARATOR;
    let cases: Vec<(Vec<&str>, String)> = vec![
        (
            vec!["folder", "subfolder", "file.txt"],
            format!("folder{sep}subfolder{sep}file.txt"),
        ),
        (vec!["leading", "", "trailing"], format!("leading{sep}trailing")),
        (
            vec!["folder\\", "subfolder/", "file.txt"],
            format!("folder{sep}subfolder{sep}file.txt"),
        ),
        (
            vec!["C:/Users", "Admin", "Documents/file.txt"],
            "C:\\Users\\Admin\\Documents\\file.txt".to_string(),
        ),
        (
            vec!["\\server", "share", "folder", "file.txt"],
            "\\server\\share\\folder\\file.txt".to_string(),
        ),
    ];

    for (input, expected) in cases {
        let got = join_normalized(&input).expect("should join");
        assert_eq!(got, expected, "normalized failed for input: {:?}", input);
    }
}

#[test]
fn test_lua_path_join_os_normalized_reflective() {
    let cases: Vec<(Vec<&str>, String)> = vec![
        (
            vec!["folder", "subfolder", "file.txt"],
            format!("folder{}subfolder{}file.txt", MAIN_SEPARATOR, MAIN_SEPARATOR),
        ),
        (vec!["single"], "single".to_string()),
        (
            vec!["leading", "", "trailing"],
            format!("leading{}trailing", MAIN_SEPARATOR),
        ),
        (
            vec!["C:\\Users", "Admin", "Documents\\file.txt"],
            "C:\\Users\\Admin\\Documents\\file.txt".to_string(),
        ),
        (
            vec!["C:/Users", "Admin", "Documents/file.txt"],
            "C:\\Users\\Admin\\Documents\\file.txt".to_string(),
        ),
        (
            vec!["C:/", "Windows", "System32"],
            "C:\\Windows\\System32".to_string(),
        ),
    ];

    for (input, expected) in cases {
        let got = join_normalized(&input).expect("should join");
        assert_eq!(got, expected, "path mismatch for input: {:?}", input);
    }
}

#[test]
fn test_lua_path_parent() {
    let paths = &[
        ("./agent-hello.devai", "."),
        ("./", ""),
        (".", ""),
        ("./sub-dir/file.txt", "./sub-dir"),
        ("./sub-dir/file", "./sub-dir"),
        ("./sub-dir/", "."),
        ("./sub-dir", "."),
    ];

    for (path, expected) in paths {
        let got = path_parent(path).unwrap_or_default();
        assert_eq!(&got, expected, "parent mismatch for path: {path}");
    }
}

#[test]
fn test_lua_path_split() {
    let paths = &[
        ("some/path/to_file.md", "some/path", "to_file.md"),
        ("folder/file.txt", "folder", "file.txt"),
        ("justafile.md", "", "justafile.md"),
        ("/absolute/path/file.log", "/absolute/path", "file.log"),
        ("/file_at_root", "/", "file_at_root"),
        ("trailing/slash/", "trailing", "slash"),
    ];

    for (path, expected_parent, expected_filename) in paths {
        let (parent, filename) = path_split(path);
        assert_eq!(&parent, expected_parent, "parent mismatch for path: {path}");
        assert_eq!(&filename, expected_filename, "filename mismatch for path: {path}");
    }
}

#[test]
fn test_path_join_empty_inputs() {
    // no fragments: a null result, not an error
    assert_eq!(join_non_normalized(&[]), None);
    assert_eq!(join_normalized(&[]), None);
    // all-empty fragments: the empty string
    assert_eq!(join_non_normalized(&["", "", ""]).expect("should join"), "");
    assert_eq!(join_normalized(&["", "", ""]).expect("should join"), "");
}

#[test]
fn test_path_join_split_round_trip() {
    let segments = &["some", "path", "to_file.md"];
    let joined = join_non_normalized(segments).expect("should join");
    let (parent, filename) = path_split(&joined);
    assert_eq!(parent, join_non_normalized(&segments[..2]).expect("should join"));
    assert_eq!(filename, segments[2]);

    let single = &["to_file.md"];
    let joined = join_non_normalized(single).expect("should join");
    let (parent, filename) = path_split(&joined);
    assert_eq!(parent, "");
    assert_eq!(filename, "to_file.md");
}

#[test]
fn test_glob_match_wildcards() {
    let glob_match = aipack::globs::glob_match;
    // `*` stays within one segment
    assert!(glob_match("*.*", "file-01.txt"));
    assert!(!glob_match("*.*", "sub/file-01.txt"));
    // `**` crosses segments, zero or more of them
    assert!(glob_match("**/*.aip", "agent-hello-2.aip"));
    assert!(glob_match("**/*.aip", "sub-sub-dir/main.aip"));
    assert!(!glob_match("**/*.aip", "sub-sub-dir/notes.txt"));
    // `?` matches exactly one character
    assert!(glob_match("file-0?.txt", "file-01.txt"));
    assert!(!glob_match("file-0?.txt", "file-012.txt"));
    // literal segments must agree
    assert!(glob_match("sub-dir-a/**/*-2.*", "sub-dir-a/agent-hello-2.aip"));
    assert!(!glob_match("sub-dir-b/**/*-2.*", "sub-dir-a/agent-hello-2.aip"));
}

#[test]
fn test_path_join_windows_classification() {
    let got = join_normalized(&["C:/Users", "Admin", "file.txt"]).expect("should join");
    assert_eq!(got, "C:\\Users\\Admin\\file.txt");
    let got = join_normalized(&["folder", "subfolder", "file.txt"]).expect("should join");
    assert_eq!(
        got,
        format!("folder{}subfolder{}file.txt", MAIN_SEPARATOR, MAIN_SEPARATOR)
    );
}
