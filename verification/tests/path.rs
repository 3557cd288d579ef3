use wind_portable::path::{components, file_name, file_stem, join, parent};

#[test]
fn joining() {
    assert_eq!(join(r"C:\a", "b"), r"C:\a\b");
    assert_eq!(join(r"C:\a\", "b"), r"C:\a\b");
    assert_eq!(join("C:/a/", "b"), "C:/a/b");
    assert_eq!(join("C:", "b"), "C:b");
    assert_eq!(join("", "b"), "b");
    assert_eq!(join("a:b", "c"), r"a:b\c");
}

#[test]
fn parents() {
    let p = |s: &str| parent(s);
    assert_eq!(p(r"C:\a\b.exe"), Some(r"C:\a".to_string()));
    assert_eq!(p(r"C:\a"), Some(r"C:\".to_string()));
    assert_eq!(p(r"C:\"), None);
    assert_eq!(p(r"C:\a\\b\"), Some(r"C:\a".to_string()));
    assert_eq!(p("a"), Some(String::new()));
    assert_eq!(p(""), None);
    assert_eq!(p(r"\\server\share\x"), Some(r"\\server\share\".to_string()));
    assert_eq!(p(r"\\server\share"), None);
    assert_eq!(p(r"\a"), Some(r"\".to_string()));
    assert_eq!(p(r"\\server"), Some(r"\".to_string()));
    assert_eq!(p(r"C:\a\."), Some(r"C:\".to_string()));
    assert_eq!(p(r"C:\a\.\b"), Some(r"C:\a".to_string()));
    assert_eq!(p(r"C:\."), None);
    assert_eq!(p(r".\a"), Some(".".to_string()));
    assert_eq!(p("."), Some(String::new()));
    assert_eq!(p(r"C:.\a"), Some("C:.".to_string()));
    assert_eq!(p(r"a\.b"), Some("a".to_string()));
    assert_eq!(p(r"\\?\C:\a\b.dll"), Some(r"\\?\C:\a".to_string()));
    assert_eq!(p(r"\\?\C:\a/b"), Some(r"\\?\C:\".to_string()));
    assert_eq!(p(r"\\?\C:\a\."), Some(r"\\?\C:\a".to_string()));
    assert_eq!(p(r"\\?\C:\"), None);
    assert_eq!(p(r"\\?\UNC\server\share\x"), Some(r"\\?\UNC\server\share\".to_string()));
    assert_eq!(p(r"\\?\UNC\server\share"), None);
    assert_eq!(p(r"\\?\UNC\server"), None);
    assert_eq!(p(r"\\?\x\y"), Some(r"\\?\x\".to_string()));
    assert_eq!(p(r"\\.\pipe\x"), Some(r"\\.\pipe\".to_string()));
    assert_eq!(p(r"\\.\COM1"), None);
}

#[test]
fn names() {
    assert_eq!(components(r"C:\a/b\\.\c\"), vec!["a", "b", "c"]);
    assert_eq!(components(r"..\a"), vec!["..", "a"]);
    assert!(components(r"C:\").is_empty());
    assert_eq!(file_name(r"C:\a\b.tar.gz"), Some("b.tar.gz".to_string()));
    assert_eq!(file_name(r"C:\a\.."), None);
    assert_eq!(file_name("a/b/"), Some("b".to_string()));
    assert_eq!(file_name(""), None);
    assert_eq!(file_name(r"\\?\C:\a/b"), Some("a/b".to_string()));
    assert_eq!(file_name(r"\\?\C:\a\."), None);
    assert_eq!(components(r"\\?\C:\a\\.\b\"), vec!["a", ".", "b"]);
    assert_eq!(components("//?/C:/a"), vec!["a"]);
}

#[test]
fn stems() {
    assert_eq!(file_stem(r"C:\a\b.tar.gz"), Some("b.tar".to_string()));
    assert_eq!(file_stem("wind_input.exe"), Some("wind_input".to_string()));
    assert_eq!(file_stem(".bashrc"), Some(".bashrc".to_string()));
    assert_eq!(file_stem("noext"), Some("noext".to_string()));
    assert_eq!(file_stem("end."), Some("end".to_string()));
    assert_eq!(file_stem(".."), None);
}
