use std::collections::BTreeMap;
use std::io::Write;

use wind_portable::archive::{Entry, Listing, Package};
use wind_portable::deploy::{
    check_names, clean_old_files, common_root_dir, deploy_from_directory, deploy_from_zip,
    is_backup_name, plan_deploy, same_dir, suffix_name, validate_zip, CopyFault, Fault, Top,
};
use wind_portable::unpack::{Unpack, UnpackAct};
use wind_portable::variant::Variant;

fn strings(list: &[&str]) -> Vec<String> {
    list.iter().map(|s| s.to_string()).collect()
}

/// An archive whose entries have the given names and all hold the same content.
fn write_zip(names: &[&str]) -> Vec<u8> {
    let mut w = zip::ZipWriter::new(std::io::Cursor::new(Vec::new()));
    let opts: zip::write::FileOptions<()> = zip::write::FileOptions::default();
    for name in names {
        if name.ends_with('/') {
            w.add_directory(*name, opts).unwrap();
        } else {
            w.start_file(*name, opts).unwrap();
            w.write_all(b"content").unwrap();
        }
    }
    w.finish().unwrap().into_inner()
}

/// Carries out a deployment on files that are kept in a map, and tells whether the launcher must
/// be restarted.
fn unpack(
    data: Vec<u8>,
    target: &str,
    self_exe: Option<&str>,
    files: &mut BTreeMap<String, Vec<u8>>,
) -> Result<bool, String> {
    let mut d = deploy_from_zip(data, target, self_exe).map_err(|e| e.message())?;
    let mut run = Unpack::new(&d.plan, 1);
    loop {
        let error = match run.action(&d.plan) {
            UnpackAct::MakeDir(_) => None,
            UnpackAct::Write { index, file } => match d.package.content(index) {
                Ok(content) => {
                    files.insert(file, content);
                    None
                }
                Err(e) => Some(e),
            },
            UnpackAct::Rename(a, b) => {
                let content = files.remove(&a).unwrap();
                files.insert(b, content);
                None
            }
            UnpackAct::Remove(p) => {
                files.remove(&p);
                None
            }
            UnpackAct::Finish(result) => return result,
        };
        run = run.step(&d.plan, error, 1);
    }
}

fn copied(src: &str, dst: &str, rels: &[&str]) -> Vec<String> {
    deploy_from_directory(src, None, dst, None, &strings(rels))
        .unwrap()
        .into_iter()
        .map(|i| i.to)
        .collect()
}

#[test]
fn deploy_from_directory_skips_userdata() {
    let to = copied(
        r"D:\src",
        r"E:\dst",
        &["wind_input.exe", r"data\config.toml", r"userdata\db.redb"],
    );
    assert!(to.contains(&r"E:\dst\wind_input.exe".to_string()));
    assert!(to.contains(&r"E:\dst\data\config.toml".to_string()));
    assert!(!to.iter().any(|p| p.contains("userdata")));
}

#[test]
fn deploy_from_directory_skips_uninstaller() {
    let to = copied(
        r"D:\src",
        r"E:\dst",
        &["wind_input.exe", "uninstall.exe", r"tools\uninstall.exe"],
    );
    assert!(to.contains(&r"E:\dst\wind_input.exe".to_string()));
    assert!(
        !to.contains(&r"E:\dst\uninstall.exe".to_string()),
        "根级卸载器应被跳过"
    );
    assert!(
        to.contains(&r"E:\dst\tools\uninstall.exe".to_string()),
        "子目录同名文件应照常复制"
    );
}

#[test]
fn deploy_from_directory_rejects_same() {
    let d = r"D:\src";
    assert!(deploy_from_directory(d, None, d, None, &strings(&["a"])).is_err());
}

#[test]
fn clean_old_files_removes_backups() {
    let removed = clean_old_files(
        r"D:\d",
        &strings(&[
            "wind_input.exe.old_123",
            "wind_tsf.dll.new_456",
            "config.bak",
            "keep.exe",
            "notes.old_draft.txt",
        ]),
    );
    assert!(removed.contains(&r"D:\d\wind_input.exe.old_123".to_string()));
    assert!(removed.contains(&r"D:\d\wind_tsf.dll.new_456".to_string()));
    assert!(removed.contains(&r"D:\d\config.bak".to_string()));
    assert!(!removed.contains(&r"D:\d\keep.exe".to_string()));
    assert!(!removed.contains(&r"D:\d\notes.old_draft.txt".to_string()));
}

#[test]
fn validate_zip_detects_missing() {
    let pkg = write_zip(&["readme.txt"]);
    let v = Variant::new(false);
    let err = validate_zip(pkg, &v).unwrap_err();
    assert!(err.message().contains("wind_input.exe"));
}

#[test]
fn validate_and_deploy_zip_roundtrip() {
    let pkg = write_zip(&["wind_input.exe", "wind_tsf.dll", "data/config.toml"]);
    let v = Variant::new(false);
    validate_zip(pkg.clone(), &v).unwrap();

    let target = r"D:\target";
    let mut files = BTreeMap::new();
    let needs_restart = unpack(pkg, target, Some(r"C:\test\runner.exe"), &mut files).unwrap();
    assert!(!needs_restart);
    assert_eq!(files.get(r"D:\target\wind_input.exe").unwrap(), b"content");
    assert_eq!(files.get(r"D:\target\data\config.toml").unwrap(), b"content");
}

#[test]
fn deploy_from_zip_strips_common_root_dir() {
    let wrapped = write_zip(&[
        "WindInput-Portable-0.120/wind_input.exe",
        "WindInput-Portable-0.120/wind_tsf.dll",
        "WindInput-Portable-0.120/data/config.toml",
    ]);
    validate_zip(wrapped.clone(), &Variant::new(false)).unwrap();

    let mut files = BTreeMap::new();
    unpack(wrapped, r"D:\target", None, &mut files).unwrap();
    assert!(
        files.contains_key(r"D:\target\wind_input.exe"),
        "顶层目录未被剥掉"
    );
    assert!(files.contains_key(r"D:\target\data\config.toml"));
    assert!(
        !files.keys().any(|p| p.contains("WindInput-Portable-0.120")),
        "不应再解出一层子目录"
    );
}

#[test]
fn deploy_from_zip_keeps_layout_when_root_has_files() {
    let mixed = write_zip(&["wind_input.exe", "data/config.toml"]);
    let mut files = BTreeMap::new();
    unpack(mixed, r"D:\target", None, &mut files).unwrap();
    assert!(files.contains_key(r"D:\target\wind_input.exe"));
    assert!(files.contains_key(r"D:\target\data\config.toml"));
}

#[test]
fn deploy_from_zip_keeps_layout_when_multiple_top_dirs() {
    let multi = write_zip(&["a/one.txt", "b/two.txt"]);
    let mut files = BTreeMap::new();
    unpack(multi, r"D:\target", None, &mut files).unwrap();
    assert!(files.contains_key(r"D:\target\a\one.txt"));
    assert!(files.contains_key(r"D:\target\b\two.txt"));
}

#[test]
fn entries_of_an_archive() {
    let data = write_zip(&["top/", "top/a.txt", "top/./b/../c.txt"]);
    let mut p = Package::open(data).unwrap();
    let listing = p.list();
    assert!(listing.fault.is_none());
    let names: Vec<&str> = listing.entries.iter().map(|e| e.name.as_str()).collect();
    assert_eq!(names, vec!["top/", "top/a.txt", "top/./b/../c.txt"]);
    assert_eq!(listing.entries[1].path, Some(strings(&["top", "a.txt"])));
    assert_eq!(listing.entries[2].path, Some(strings(&["top", "c.txt"])));
    assert_eq!(p.content(1).unwrap(), b"content");
    assert!(p.content(9).is_err());
    match common_root_dir(&listing.entries) {
        Top::Under(t) => assert_eq!(t, "top"),
        other => panic!("{other:?}"),
    }
}

#[test]
fn paths_of_unusual_names() {
    let data = write_zip(&[
        "/a/./b.txt",
        r"c\d.txt",
        r"\..\e.txt",
        "f\0g",
        "c:h/i.txt",
        r"C:\j.txt",
        "k/name:stream",
        "1:l",
    ]);
    let listing = Package::open(data).unwrap().list();
    let paths: Vec<Option<Vec<String>>> = listing.entries.into_iter().map(|e| e.path).collect();
    assert_eq!(
        paths,
        vec![
            Some(strings(&["a", "b.txt"])),
            Some(strings(&["c", "d.txt"])),
            None,
            None,
            Some(strings(&["h", "i.txt"])),
            Some(strings(&["j.txt"])),
            Some(strings(&["k", "name:stream"])),
            Some(strings(&["1:l"])),
        ]
    );
}

#[test]
fn drives_within_a_name_are_refused() {
    let data = write_zip(&["a.txt", "x/c:evil.txt", "b.txt"]);
    let mut files = BTreeMap::new();
    let err = unpack(data, r"D:\t", None, &mut files).unwrap_err();
    assert_eq!(err, "ZIP 含非法条目路径");
    assert_eq!(files.keys().cloned().collect::<Vec<_>>(), strings(&[r"D:\t\a.txt"]));
}

#[test]
fn only_inner_paths_are_planned() {
    let plan = |path: &[&str]| {
        let entry = Entry { name: "n".to_string(), path: Some(strings(path)) };
        let listing = Listing { entries: vec![entry], fault: None };
        plan_deploy(listing, r"D:\t", None).1.unwrap()
    };
    for path in [&["c:", "x"][..], &["/", "x"], &["a", "..", "x"], &["a/b"], &["a", ""]] {
        let p = plan(path);
        assert!(matches!(p.fault, Some(Fault::IllegalPath)), "{path:?}");
        assert!(p.items.is_empty());
    }
    let p = plan(&["a", "x:y.txt"]);
    assert!(matches!(p.fault, Some(Fault::IllegalPath)));
    let p = plan(&["a", "xx:y.txt"]);
    assert!(p.fault.is_none());
    assert_eq!(p.items[0].dst, r"D:\t\xx:y.txt");
}

#[test]
fn reasons_of_faults() {
    let reason = |d: &[u8]| match Package::open(d.to_vec()) {
        Err(e) => e,
        Ok(_) => panic!("opened"),
    };
    let junk = b"not a zip";
    let why = reason(junk);
    assert!(why.starts_with("invalid Zip archive: "));
    match validate_zip(junk.to_vec(), &Variant::new(false)) {
        Err(Fault::Unreadable(e)) => assert_eq!(e, why),
        other => panic!("{other:?}"),
    }
    let bad = break_entry(write_zip(&["top/wind_input.exe", "top/wind_tsf.dll"]), 1);
    let mut p = Package::open(bad.clone()).unwrap();
    let fault = p.list().fault.unwrap();
    assert_eq!(p.content(1).unwrap_err(), fault);
    assert_eq!(p.content(7).unwrap_err(), "specified file not found in archive");
    match validate_zip(bad.clone(), &Variant::new(false)) {
        Err(Fault::BadEntry(e)) => assert_eq!(e, fault),
        other => panic!("{other:?}"),
    }
    match deploy_from_zip(bad, r"D:\t", None) {
        Err(Fault::BadEntry(e)) => assert_eq!(e, fault),
        _ => panic!("expected a bad entry"),
    }
}

#[test]
fn unreadable_archives() {
    let v = Variant::new(false);
    let err = validate_zip(b"not a zip".to_vec(), &v).unwrap_err();
    assert!(matches!(err, Fault::Unreadable(_)));
    assert!(err.message().starts_with("读取 ZIP 失败: "));
    assert!(matches!(
        deploy_from_zip(b"not a zip".to_vec(), r"D:\t", None),
        Err(Fault::Unreadable(_))
    ));
}

/// Breaks the local header of the `n`-th entry.
fn break_entry(mut data: Vec<u8>, n: usize) -> Vec<u8> {
    let mut seen = 0;
    let mut i = 0;
    while i + 4 <= data.len() {
        if &data[i..i + 4] == b"PK\x03\x04" {
            if seen == n {
                data[i + 2] = 0xff;
                return data;
            }
            seen += 1;
        }
        i += 1;
    }
    panic!("no such entry");
}

#[test]
fn broken_entry_stops_before_a_wrapped_package() {
    let good = write_zip(&["top/wind_input.exe", "top/wind_tsf.dll"]);
    let bad = break_entry(good, 1);
    assert!(matches!(
        validate_zip(bad.clone(), &Variant::new(false)),
        Err(Fault::BadEntry(_))
    ));
    match deploy_from_zip(bad, r"D:\t", None) {
        Err(Fault::BadEntry(_)) => {}
        _ => panic!("expected a bad entry"),
    }
}

#[test]
fn broken_entry_stops_at_its_place_in_a_flat_package() {
    let good = write_zip(&["wind_input.exe", "wind_tsf.dll"]);
    let mut files = BTreeMap::new();
    let err = unpack(break_entry(good, 1), r"D:\t", None, &mut files).unwrap_err();
    assert!(err.starts_with("读取 ZIP 条目失败: "));
    assert!(files.contains_key(r"D:\t\wind_input.exe"));
    assert_eq!(files.len(), 1);
}

#[test]
fn names_that_lead_out_are_refused() {
    let data = write_zip(&["a.txt", "../evil.txt", "b.txt"]);
    let mut files = BTreeMap::new();
    let err = unpack(data, r"D:\t", None, &mut files).unwrap_err();
    assert_eq!(err, "ZIP 含非法条目路径");
    assert_eq!(files.keys().cloned().collect::<Vec<_>>(), strings(&[r"D:\t\a.txt"]));
}

#[test]
fn empty_paths_and_directories_are_passed_over() {
    let data = write_zip(&["dir/", "x/..", "dir/a.txt"]);
    let d = deploy_from_zip(data, r"D:\t", None).unwrap();
    assert_eq!(d.plan.items.len(), 1);
    assert_eq!(d.plan.items[0].dst, r"D:\t\a.txt");
    assert_eq!(d.plan.items[0].dir, Some(r"D:\t".to_string()));
    assert_eq!(d.plan.items[0].index, 2);
}

#[test]
fn replacing_the_launcher_needs_a_restart() {
    let data = write_zip(&["wind_portable.exe", "b.txt"]);
    let d = deploy_from_zip(data.clone(), r"D:\Pkg", Some(r"d:\pkg\WIND_portable.exe")).unwrap();
    assert!(d.plan.needs_restart);
    assert!(d.plan.items[0].is_self);
    assert!(!d.plan.items[1].is_self);
    let e = deploy_from_zip(data, r"D:\Other", Some(r"d:\pkg\wind_portable.exe")).unwrap();
    assert!(!e.plan.needs_restart);
}

#[test]
fn required_files_by_name() {
    let v = Variant::new(false);
    assert!(check_names(&strings(&["a/WIND_INPUT.EXE", r"b\wind_tsf.DLL"]), &v).is_ok());
    let err = check_names(&strings(&["wind_input.exe.txt"]), &v).unwrap_err();
    assert_eq!(err.message(), "ZIP 缺少必要文件: wind_input.exe, wind_tsf.dll");
    let err = check_names(&strings(&["wind_tsf.dll"]), &v).unwrap_err();
    assert_eq!(err.message(), "ZIP 缺少必要文件: wind_input.exe");
    let err = check_names(&strings(&["wind_input.exe"]), &v).unwrap_err();
    assert_eq!(err.message(), "ZIP 缺少必要文件: wind_tsf.dll");
}

#[test]
fn fault_messages() {
    assert_eq!(Fault::NotOpened("x".to_string()).message(), "打开 ZIP 失败: x");
    assert_eq!(Fault::BadEntry("x".to_string()).message(), "读取 ZIP 条目失败: x");
    assert_eq!(Fault::IllegalPath.message(), "ZIP 含非法条目路径");
}

#[test]
fn names_beside_a_file() {
    assert_eq!(suffix_name(r"D:\a.exe", "old", 0), r"D:\a.exe.old_0");
    assert_eq!(
        suffix_name("a", "new", u128::MAX),
        "a.new_340282366920938463463374607431768211455"
    );
    assert!(is_backup_name(&suffix_name("a", "old", 1234567890123456789)));
    assert!(is_backup_name(&suffix_name("a", "new", 7)));
    assert_ne!(suffix_name("a", "new", 7), suffix_name("a", "new", 8));
    assert_eq!(
        clean_old_files(r"D:\d", &strings(&[&suffix_name("a.exe", "old", 12)])),
        vec![suffix_name(r"D:\d\a.exe", "old", 12)]
    );
}

#[test]
fn leftover_names() {
    assert!(is_backup_name("x.bak"));
    assert!(is_backup_name(".old_1"));
    assert!(is_backup_name("a.old_b.new_12"));
    assert!(!is_backup_name("x.old_"));
    assert!(!is_backup_name("x.old_1a"));
    assert!(!is_backup_name("x.OLD_1"));
    assert!(!is_backup_name("xold_1"));
    assert!(!is_backup_name("x.bak2"));
    assert!(!is_backup_name("x.old_１"));
    assert!(!is_backup_name(""));
    assert!(!is_backup_name("123"));
}

#[test]
fn same_directories() {
    assert!(same_dir(r"D:\A", None, r"d:\a", None));
    assert!(!same_dir(r"D:\A", None, r"D:\A\", None));
    assert!(same_dir(r"D:\A", Some(r"\\?\D:\A"), r"D:\A\.", Some(r"\\?\d:\a")));
    assert!(!same_dir(r"D:\A", Some(r"\\?\D:\B"), r"D:\A", Some(r"\\?\D:\A")));
}

#[test]
fn copy_plan() {
    let items = deploy_from_directory(
        r"D:\src",
        Some(r"\\?\D:\src"),
        r"E:\dst",
        None,
        &strings(&["UserData", r"USERDATA\x", "Uninstall.EXE", r"a\b.txt", "userdata.txt"]),
    )
    .unwrap();
    assert_eq!(items.len(), 2);
    assert_eq!(items[0].from, r"D:\src\a\b.txt");
    assert_eq!(items[0].to, r"E:\dst\a\b.txt");
    assert_eq!(items[0].dir, Some(r"E:\dst\a".to_string()));
    assert_eq!(items[1].to, r"E:\dst\userdata.txt");
    let same = deploy_from_directory(r"D:\s", None, r"d:\S", None, &strings(&[])).unwrap_err();
    assert_eq!(same.message(), "源目录与目标目录相同");
}

#[test]
fn copy_fault_messages() {
    let e = || "x".to_string();
    assert_eq!(CopyFault::SameDirectory.message(), "源目录与目标目录相同");
    assert_eq!(CopyFault::NotListed(e()).message(), "枚举源文件失败: x");
    assert_eq!(CopyFault::NoDirectory(e()).message(), "创建目录失败: x");
    assert_eq!(
        CopyFault::NotCopied(r"D:\src\a".to_string(), e()).message(),
        r"复制 D:\src\a 失败: x"
    );
}

#[test]
fn a_deployment_goes_file_by_file() {
    let data = write_zip(&["a.txt", "d/b.txt"]);
    let d = deploy_from_zip(data, r"D:\t", None).unwrap();
    let mut run = Unpack::new(&d.plan, 5);
    let mut log = Vec::new();
    loop {
        let action = run.action(&d.plan);
        log.push(format!("{action:?}"));
        if let UnpackAct::Finish(result) = action {
            assert_eq!(result, Ok(false));
            break;
        }
        run = run.step(&d.plan, None, 6);
    }
    assert_eq!(
        log,
        vec![
            r#"MakeDir("D:\\t")"#,
            r#"Write { index: 0, file: "D:\\t\\a.txt.new_6" }"#,
            r#"Rename("D:\\t\\a.txt.new_6", "D:\\t\\a.txt")"#,
            r#"MakeDir("D:\\t\\d")"#,
            r#"Write { index: 1, file: "D:\\t\\d\\b.txt.new_6" }"#,
            r#"Rename("D:\\t\\d\\b.txt.new_6", "D:\\t\\d\\b.txt")"#,
            "Finish(Ok(false))",
        ]
    );
}

#[test]
fn a_deployment_stops_at_the_first_failure() {
    let data = write_zip(&["a.txt", "b.txt"]);
    let d = deploy_from_zip(data, r"D:\t", None).unwrap();
    let run = Unpack::new(&d.plan, 5).step(&d.plan, Some("no".to_string()), 6);
    match run.action(&d.plan) {
        UnpackAct::Finish(Err(e)) => assert_eq!(e, "创建目录失败: no"),
        other => panic!("{other:?}"),
    }
    let run = run.step(&d.plan, None, 7);
    assert!(matches!(run.action(&d.plan), UnpackAct::Finish(Err(_))));
}

#[test]
fn a_deployed_launcher_is_told() {
    let data = write_zip(&["wind_portable.exe"]);
    let mut files = BTreeMap::new();
    let restart = unpack(data, r"D:\p", Some(r"D:\p\wind_portable.exe"), &mut files).unwrap();
    assert!(restart);
    assert!(files.contains_key(r"D:\p\wind_portable.exe"));
}
