use wind_portable::layout::{
    candidate_roots, detect, detect_from, detect_probes, find_deploy_source_dir, is_protected_dir,
    is_protected_under, PROTECTED_VARS,
};
use wind_portable::variant::Variant;

fn strings(list: &[&str]) -> Vec<String> {
    list.iter().map(|s| s.to_string()).collect()
}

#[test]
fn detect_finds_service_in_root() {
    let v = Variant::new(false);
    let root = r"D:\pkg";
    let files = strings(&[r"D:\pkg\wind_input.exe", r"D:\pkg\wind_tsf.dll"]);
    let cfg = detect_from(&v, &strings(&[root]), &files).unwrap();
    assert_eq!(cfg.service_exe, r"D:\pkg\wind_input.exe");
    assert_eq!(cfg.tsf_dll, Some(r"D:\pkg\wind_tsf.dll".to_string()));
    assert_eq!(cfg.tsf_dll_x86, None);
    assert_eq!(cfg.userdata_dir, r"D:\pkg\userdata");
    assert_eq!(cfg.portable_marker, r"D:\pkg\wind_portable_mode");
    assert_eq!(cfg.setting_exe, r"D:\pkg\wind_setting.exe");
}

#[test]
fn detect_finds_service_in_build_subdir() {
    let v = Variant::new(false);
    let root = r"D:\pkg";
    let files = strings(&[r"D:\pkg\build_dev\wind_input.exe"]);
    let cfg = detect_from(&v, &strings(&[root]), &files).unwrap();
    assert_eq!(cfg.service_exe, r"D:\pkg\build_dev\wind_input.exe");
    assert_eq!(cfg.root_dir, root);
}

#[test]
fn detect_succeeds_inside_protected_dir() {
    let v = Variant::new(false);
    let root = r"C:\Program Files\Wind";
    let files = strings(&[r"C:\Program Files\Wind\wind_input.exe"]);
    let prefixes = strings(&[root]);
    assert!(is_protected_under(r"C:\Program Files\Wind\sub", &prefixes));
    let cfg = detect_from(&v, &strings(&[root]), &files).unwrap();
    assert_eq!(cfg.root_dir, root);
}

#[test]
fn detect_errors_when_no_service() {
    let v = Variant::new(false);
    let err = detect_from(&v, &strings(&[r"D:\pkg"]), &strings(&[])).unwrap_err();
    assert!(err.message().contains("wind_input.exe"));
}

#[test]
fn dev_variant_finds_dev_service() {
    let v = Variant::new(true);
    let files = strings(&[r"D:\pkg\wind_input_dev.exe"]);
    let cfg = detect_from(&v, &strings(&[r"D:\pkg"]), &files).unwrap();
    assert_eq!(cfg.service_exe, r"D:\pkg\wind_input_dev.exe");
}

#[test]
fn protected_under_matches_prefix() {
    let prefixes = vec![r"C:\Program Files".to_string()];
    assert!(is_protected_under(r"C:\Program Files\Wind", &prefixes));
    assert!(!is_protected_under(r"D:\Apps\Wind", &prefixes));
    assert!(!is_protected_under(r"C:\Program FilesX\Wind", &prefixes));
}

#[test]
fn missing_service_message() {
    let v = Variant::new(true);
    let err = detect_from(&v, &strings(&[]), &strings(&[])).unwrap_err();
    assert_eq!(
        err.message(),
        "未找到 wind_input_dev.exe，请先构建主服务或将 launcher 放到打包目录中"
    );
}

#[test]
fn first_root_and_first_place_win() {
    let v = Variant::new(false);
    let files = strings(&[
        r"D:\b\wind_input.exe",
        r"D:\c\wind_input.exe",
        r"D:\b\build\wind_input.exe",
        r"D:\b\build\wind_setting.exe",
        r"D:\b\build_dev\wind_tsf_x86.dll",
        r"D:\b\wind_tsf\res\wind_input.ico",
        r"D:\b\system_deploy",
    ]);
    let roots = strings(&[r"D:\a", r"D:\b", r"D:\c"]);
    let cfg = detect_from(&v, &roots, &files).unwrap();
    assert_eq!(cfg.root_dir, r"D:\b");
    assert_eq!(cfg.service_exe, r"D:\b\wind_input.exe");
    assert_eq!(cfg.setting_exe, r"D:\b\build\wind_setting.exe");
    assert_eq!(cfg.tsf_dll, None);
    assert_eq!(cfg.tsf_dll_x86, Some(r"D:\b\build_dev\wind_tsf_x86.dll".to_string()));
    assert_eq!(cfg.icon_path, Some(r"D:\b\wind_tsf\res\wind_input.ico".to_string()));
    assert!(cfg.system_deploy);
    let again = cfg.clone();
    assert_eq!(again.service_exe, cfg.service_exe);
}

#[test]
fn roots_of_launcher_and_working_directory() {
    assert_eq!(
        candidate_roots(Some(r"D:\Pkg\bin"), Some(r"d:\pkg")),
        strings(&[r"D:\Pkg\bin", r"D:\Pkg", r"d:\"])
    );
    assert_eq!(candidate_roots(None, Some(r"D:\")), strings(&[r"D:\"]));
    assert_eq!(candidate_roots(None, None), strings(&[]));
}

#[test]
fn package_of_a_launcher() {
    let v = Variant::new(false);
    let files = strings(&[r"D:\pkg\wind_input.exe"]);
    let exe = Some(r"D:\pkg\bin\wind_portable.exe");
    let cfg = detect(&v, exe, Some(r"E:\work"), &files).unwrap();
    assert_eq!(cfg.root_dir, r"D:\pkg");
    assert_eq!(
        find_deploy_source_dir(&v, exe, Some(r"E:\work"), &files),
        Some(r"D:\pkg".to_string())
    );
    assert!(detect(&v, None, Some(r"E:\work"), &files).is_err());
    assert_eq!(find_deploy_source_dir(&v, None, Some(r"E:\work"), &files), None);
}

#[test]
fn probes_settle_detection() {
    let v = Variant::new(false);
    let roots = strings(&[r"D:\pkg"]);
    let probes = detect_probes(&v, &roots);
    assert_eq!(probes.len(), 16);
    let files = strings(&[
        r"D:\pkg\build\wind_input.exe",
        r"D:\pkg\system_deploy",
        r"D:\pkg\readme.txt",
    ]);
    let known: Vec<String> = files.iter().filter(|f| probes.contains(f)).cloned().collect();
    assert_eq!(known.len(), 2);
    let a = detect_from(&v, &roots, &files).unwrap();
    let b = detect_from(&v, &roots, &known).unwrap();
    assert_eq!(a.service_exe, b.service_exe);
    assert!(a.system_deploy && b.system_deploy);
}

#[test]
fn protected_directories_of_the_system() {
    assert_eq!(PROTECTED_VARS[3], "SystemRoot");
    let values = vec![
        Some(r"C:\Program Files\".to_string()),
        None,
        Some(String::new()),
        Some(r"C:\WINDOWS".to_string()),
    ];
    assert!(is_protected_dir(r"c:\program files\wind", &values));
    assert!(is_protected_dir(r"C:\Windows/System32", &values));
    assert!(!is_protected_dir(r"C:\Windows", &values));
    assert!(!is_protected_dir(r"D:\Windows\x", &values));
    assert!(!is_protected_dir(r"\\server\share", &values));
}
