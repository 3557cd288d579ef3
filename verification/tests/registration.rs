use wind_portable::layout::{detect_from, PortableConfig};
use wind_portable::reg::Hive;
use wind_portable::registration::{
    after_step, app_reg_subkey, conflict_probes, dll_subkey, find_conflict, grant_command,
    installed_conflict, installed_conflict_path, is_registered, owns_system_deployment, register,
    register_direct, registered_dll_path, regsvr32, regsvr_command, run_elevated, same_path,
    system_dll_path, uninstall_subkey, unregister, unregister_direct, unregister_probes, Conflict,
    CopyAction, ElevatedRun, OnError, Planned, Progress, Readings, RegsvrRun, Step, SystemCopy, Way,
    INSTALL_DIR_ERROR, PROFILE_ERROR,
};
use wind_portable::reply::Reply;
use wind_portable::variant::Variant;

fn strings(list: &[&str]) -> Vec<String> {
    list.iter().map(|s| s.to_string()).collect()
}

fn some(s: &str) -> Option<String> {
    Some(s.to_string())
}

fn readings() -> Readings {
    Readings {
        dll_user: None,
        dll_machine: None,
        dll_classes: None,
        install_dir: None,
        install_location: None,
        protected: vec![some(r"C:\Program Files"), None, None, some(r"C:\Windows")],
        system_root: some(r"C:\Windows"),
        files: Vec::new(),
    }
}

/// The package at `root`, with the libraries and switches that are named.
fn package(root: &str, more: &[&str]) -> PortableConfig {
    let mut files = vec![format!(r"{root}\wind_input.exe")];
    for m in more {
        files.push(format!(r"{root}\{m}"));
    }
    detect_from(&Variant::new(false), &strings(&[root]), &files).unwrap()
}

const SYSTEM_COPY: &str = r"C:\Windows\System32\IME\WindInput\wind_tsf.dll";
const SYSTEM_COPY_X86: &str = r"C:\Windows\SysWOW64\IME\WindInput\wind_tsf_x86.dll";

#[test]
fn keys() {
    let v = Variant::new(false);
    let clsid = "{99C2EE30-5C57-45A2-9C63-FB54B34FD90A}";
    let below = format!(r"Software\Classes\CLSID\{clsid}\InprocServer32");
    assert_eq!(dll_subkey(Hive::CurrentUser, &v), below);
    assert_eq!(dll_subkey(Hive::LocalMachine, &v), below);
    assert_eq!(
        dll_subkey(Hive::ClassesRoot, &v),
        format!(r"CLSID\{clsid}\InprocServer32")
    );
    assert_eq!(app_reg_subkey(&v), r"Software\WindInput");
    assert_eq!(
        uninstall_subkey(&v),
        r"Software\Microsoft\Windows\CurrentVersion\Uninstall\清风输入法"
    );
}

#[test]
fn copies_in_the_system_directory() {
    let v = Variant::new(false);
    assert_eq!(system_dll_path(&some(r"C:\Windows"), &v, false), SYSTEM_COPY);
    assert_eq!(system_dll_path(&None, &v, true), SYSTEM_COPY_X86);
    assert_eq!(
        system_dll_path(&some(r"D:\Win\"), &Variant::new(true), true),
        r"D:\Win\SysWOW64\IME\WindInputDev\wind_tsf_x86_dev.dll"
    );
}

#[test]
fn comparing_paths() {
    assert!(same_path(r"C:\A\b", "c:/a/B/"));
    assert!(same_path(r"C:\A\\\", r"C:\a"));
    assert!(!same_path(r"C:\A", r"C:\A\b"));
    assert!(!same_path(r"C:\A\.", r"C:\A"));
    assert!(same_path("", "/"));
    assert!(same_path("C:/Wind/", r"c:\wind"));
    assert!(same_path(r"D:\清风\Wind", "d:/清风/wINd//"));
    assert!(!same_path(r"C:\a\..\b", r"C:\b"));
}

#[test]
fn registered_library() {
    let mut m = readings();
    assert_eq!(registered_dll_path(&m), None);
    m.dll_classes = some(" c ");
    assert_eq!(registered_dll_path(&m), some("c"));
    m.dll_machine = some("b\u{3000}");
    assert_eq!(registered_dll_path(&m), some("b"));
    m.dll_user = some(" \t ");
    assert_eq!(registered_dll_path(&m), some("b"));
    m.dll_user = some("a");
    assert_eq!(registered_dll_path(&m), some("a"));
}

#[test]
fn registration_in_place() {
    let v = Variant::new(false);
    let cfg = package(r"D:\pkg", &["wind_tsf.dll"]);
    let mut m = readings();
    assert!(!is_registered(&cfg, &v, &m));
    m.dll_machine = some("D:/PKG/wind_tsf.dll");
    assert!(is_registered(&cfg, &v, &m));
    assert!(!is_registered(&package(r"D:\other", &["wind_tsf.dll"]), &v, &m));
    assert!(!is_registered(&package(r"D:\pkg", &[]), &v, &m));
}

#[test]
fn registration_of_the_system_copy() {
    let v = Variant::new(false);
    let cfg = package(r"D:\pkg", &["wind_tsf.dll"]);
    let mut m = readings();
    m.dll_machine = some(SYSTEM_COPY);
    assert!(!is_registered(&cfg, &v, &m));
    m.install_dir = some(r" d:\PKG\ ");
    assert!(is_registered(&cfg, &v, &m));
    assert!(owns_system_deployment(&cfg, &m));
    assert!(!is_registered(&package(r"D:\other", &["wind_tsf.dll"]), &v, &m));
}

#[test]
fn conflict_by_place() {
    let v = Variant::new(false);
    let cfg = package(r"D:\pkg", &["wind_tsf.dll"]);
    let mut m = readings();
    assert_eq!(find_conflict(&cfg, &v, &m, true), None);
    m.install_location = some(r"D:\PKG\");
    assert_eq!(find_conflict(&cfg, &v, &m, false), Some(Conflict::InstalledHere));
    assert_eq!(installed_conflict_path(&cfg, &m), some(r"D:\PKG\"));

    let mut m = readings();
    m.files = strings(&[r"D:\pkg\uninstall.exe"]);
    assert_eq!(find_conflict(&cfg, &v, &m, false), Some(Conflict::InstalledHere));
    assert_eq!(installed_conflict_path(&cfg, &m), some(r"D:\pkg"));

    let inside = package(r"C:\Program Files\Wind", &["wind_tsf.dll"]);
    assert_eq!(
        find_conflict(&inside, &v, &readings(), false),
        Some(Conflict::Protected)
    );
    assert_eq!(
        installed_conflict_path(&inside, &readings()),
        some(r"C:\Program Files\Wind")
    );
}

#[test]
fn conflict_by_registration() {
    let v = Variant::new(false);
    let cfg = package(r"D:\pkg", &["wind_tsf.dll"]);
    let mut m = readings();
    m.dll_user = some(r"E:\else\wind_tsf.dll");
    assert_eq!(find_conflict(&cfg, &v, &m, true), None);
    m.files = strings(&[r"E:\else\wind_tsf.dll"]);
    assert_eq!(find_conflict(&cfg, &v, &m, false), Some(Conflict::OtherInstall));
    assert_eq!(installed_conflict_path(&cfg, &m), some(r"E:\else\wind_tsf.dll"));
    assert_eq!(find_conflict(&package(r"D:\pkg", &[]), &v, &m, true), None);
    m.files.push(r"E:\else\wind_portable_mode".to_string());
    assert_eq!(find_conflict(&cfg, &v, &m, false), None);
    assert_eq!(find_conflict(&cfg, &v, &m, true), Some(Conflict::OtherPortable));
    m.dll_user = some(r"D:\pkg\wind_tsf.dll");
    assert_eq!(find_conflict(&cfg, &v, &m, true), None);
}

#[test]
fn conflict_by_the_system_copy() {
    let v = Variant::new(false);
    let cfg = package(r"D:\pkg", &["wind_tsf.dll"]);
    let mut m = readings();
    m.dll_machine = some(SYSTEM_COPY);
    m.files = strings(&[SYSTEM_COPY]);
    assert_eq!(find_conflict(&cfg, &v, &m, false), Some(Conflict::OtherInstall));
    m.install_dir = some(r"E:\usb");
    assert_eq!(find_conflict(&cfg, &v, &m, false), Some(Conflict::OtherInstall));
    m.files.push(r"E:\usb\portable_mode".to_string());
    assert_eq!(find_conflict(&cfg, &v, &m, false), None);
    assert_eq!(find_conflict(&cfg, &v, &m, true), Some(Conflict::OtherPortable));
}

#[test]
fn conflict_texts() {
    let v = Variant::new(false);
    let cfg = package(r"D:\pkg", &["wind_tsf.dll"]);
    assert_eq!(installed_conflict(&cfg, &v, &readings(), true), None);
    let mut m = readings();
    m.files = strings(&[r"D:\pkg\uninstall.exe"]);
    assert_eq!(
        installed_conflict(&cfg, &v, &m, true),
        some("当前位于已安装目录，便携模式不可用。如需使用便携模式，请将文件复制到其他目录运行。")
    );
    assert_eq!(
        Conflict::Protected.message(),
        "当前位于系统保护目录，便携模式不可用。如需使用便携模式，请将文件复制到其他目录运行。"
    );
    assert_eq!(
        Conflict::OtherPortable.message(),
        "检测到另一个便携版实例正在运行，请先停止该实例后再启动。"
    );
    assert_eq!(
        Conflict::OtherInstall.message(),
        "系统已注册其他位置的清风输入法，为避免覆盖现有注册信息，便携模式已禁用。"
    );
}

#[test]
fn probes_settle_conflicts() {
    let v = Variant::new(false);
    let cfg = package(r"D:\pkg", &["wind_tsf.dll"]);
    let mut m = readings();
    assert_eq!(conflict_probes(&cfg, &v, &m), strings(&[r"D:\pkg\uninstall.exe"]));
    m.dll_user = some(r"E:\x\wind_tsf.dll");
    assert_eq!(
        conflict_probes(&cfg, &v, &m),
        strings(&[
            r"D:\pkg\uninstall.exe",
            r"E:\x\wind_tsf.dll",
            r"E:\x\portable_mode",
            r"E:\x\wind_portable_mode",
        ])
    );
    m.dll_user = some(SYSTEM_COPY);
    assert_eq!(conflict_probes(&cfg, &v, &m).len(), 2);
    m.install_dir = some(r"F:\y");
    assert_eq!(conflict_probes(&cfg, &v, &m)[2], r"F:\y\portable_mode");
}

/// A plan, one line a step.
fn lines(plan: &[Planned<String>]) -> Vec<String> {
    plan.iter()
        .map(|p| {
            let how = match p.on_error {
                OnError::Stop => "stop".to_string(),
                OnError::Skip(n) => format!("skip {n}"),
                OnError::Ignore => "ignore".to_string(),
            };
            let what = match &p.step {
                Step::WriteInstallDir { subkey, dir } => format!("write {subkey} {dir}"),
                Step::CopyToSystem { src, dst } => format!("copy {src} {dst}"),
                Step::GrantAccess { dll } => format!("grant {dll}"),
                Step::Regsvr { dll, x86, unregister } => format!("regsvr {dll} {x86} {unregister}"),
                Step::Profile { profile, flags } => format!("profile {} {flags}", profile.len()),
                Step::RemoveFile(p) => format!("remove {p}"),
                Step::RemoveDir(p) => format!("rmdir {p}"),
                Step::DeleteInstallDir { subkey } => format!("delete {subkey}"),
            };
            format!("{what} / {how}")
        })
        .collect()
}

#[test]
fn registering_in_place() {
    let v = Variant::new(false);
    let cfg = package(r"D:\pkg", &["wind_tsf.dll", "wind_tsf_x86.dll"]);
    let plan = register_direct(&cfg, &v, &None).unwrap();
    assert_eq!(
        lines(&plan),
        strings(&[
            r"grant D:\pkg\wind_tsf.dll / ignore",
            r"regsvr D:\pkg\wind_tsf.dll false false / stop",
            r"grant D:\pkg\wind_tsf_x86.dll / ignore",
            r"regsvr D:\pkg\wind_tsf_x86.dll true false / ignore",
            "profile 81 0 / stop",
        ])
    );
}

#[test]
fn registering_the_system_copy() {
    let v = Variant::new(false);
    let cfg = package(r"D:\pkg", &["wind_tsf.dll", "wind_tsf_x86.dll", "system_deploy"]);
    let plan = register_direct(&cfg, &v, &some(r"C:\Windows")).unwrap();
    assert_eq!(
        lines(&plan),
        vec![
            r"write Software\WindInput D:\pkg / stop".to_string(),
            format!(r"copy D:\pkg\wind_tsf.dll {SYSTEM_COPY} / stop"),
            format!("grant {SYSTEM_COPY} / ignore"),
            format!("regsvr {SYSTEM_COPY} false false / stop"),
            format!(r"copy D:\pkg\wind_tsf_x86.dll {SYSTEM_COPY_X86} / skip 2"),
            format!("grant {SYSTEM_COPY_X86} / ignore"),
            format!("regsvr {SYSTEM_COPY_X86} true false / ignore"),
            "profile 81 0 / stop".to_string(),
        ]
    );
}

#[test]
fn registering_without_a_library() {
    let v = Variant::new(true);
    let cfg = package(r"D:\pkg", &[]);
    assert_eq!(
        register_direct(&cfg, &v, &None).unwrap_err().message(),
        "未找到 TSF DLL，请先构建 wind_tsf_dev.dll"
    );
    assert!(register(&cfg, &v, &None, true).is_err());
    assert!(register(&cfg, &v, &None, false).is_err());
}

#[test]
fn ways_to_register() {
    let v = Variant::new(false);
    let cfg = package(r"D:\pkg", &["wind_tsf.dll"]);
    match register(&cfg, &v, &None, true).unwrap() {
        Way::Direct(plan) => assert_eq!(plan.len(), 3),
        Way::Elevated(_) => panic!("direct expected"),
    }
    match register(&cfg, &v, &None, false).unwrap() {
        Way::Elevated(arg) => assert_eq!(arg, "-elevate-register"),
        Way::Direct(_) => panic!("elevation expected"),
    }
    match unregister(&cfg, &v, &readings(), true) {
        Way::Direct(plan) => assert_eq!(plan.len(), 2),
        Way::Elevated(_) => panic!("direct expected"),
    }
    match unregister(&cfg, &v, &readings(), false) {
        Way::Elevated(arg) => assert_eq!(arg, "-elevate-unregister"),
        Way::Direct(_) => panic!("elevation expected"),
    }
}

#[test]
fn undoing_what_others_own() {
    let v = Variant::new(false);
    let cfg = package(r"D:\pkg", &["wind_tsf.dll", "wind_tsf_x86.dll", "system_deploy"]);
    let mut m = readings();
    m.files = strings(&[SYSTEM_COPY, SYSTEM_COPY_X86]);
    m.install_dir = some(r"C:\Program Files\WindInput");
    assert_eq!(
        lines(&unregister_direct(&cfg, &v, &m)),
        strings(&[
            "profile 81 1 / ignore",
            r"regsvr D:\pkg\wind_tsf_x86.dll true true / ignore",
            r"regsvr D:\pkg\wind_tsf.dll false true / ignore",
        ])
    );
}

#[test]
fn undoing_what_this_package_owns() {
    let v = Variant::new(false);
    let cfg = package(r"D:\pkg", &["wind_tsf.dll"]);
    let mut m = readings();
    m.install_dir = some(r"D:\pkg");
    assert_eq!(
        unregister_probes(&v, &m.system_root),
        strings(&[SYSTEM_COPY_X86, SYSTEM_COPY])
    );
    m.files = strings(&[SYSTEM_COPY]);
    assert_eq!(
        lines(&unregister_direct(&cfg, &v, &m)),
        vec![
            "profile 81 1 / ignore".to_string(),
            format!("regsvr {SYSTEM_COPY} false true / ignore"),
            format!("remove {SYSTEM_COPY} / ignore"),
            r"rmdir C:\Windows\SysWOW64\IME\WindInput / ignore".to_string(),
            r"rmdir C:\Windows\System32\IME\WindInput / ignore".to_string(),
            r"delete Software\WindInput / ignore".to_string(),
            r"regsvr D:\pkg\wind_tsf.dll false true / ignore".to_string(),
        ]
    );
}

fn next(p: Progress<String>) -> String {
    match p {
        Progress::Next(i) => format!("next {i}"),
        Progress::Done => "done".to_string(),
        Progress::Failed(e) => format!("failed {e}"),
    }
}

#[test]
fn progress_of_a_plan() {
    let v = Variant::new(false);
    let cfg = package(r"D:\pkg", &["wind_tsf.dll", "wind_tsf_x86.dll", "system_deploy"]);
    let plan = register_direct(&cfg, &v, &None).unwrap();
    assert_eq!(next(after_step(&plan, 0, None)), "next 1");
    assert_eq!(next(after_step(&plan, 0, some(INSTALL_DIR_ERROR))), format!("failed {INSTALL_DIR_ERROR}"));
    assert_eq!(next(after_step(&plan, 2, some("x"))), "next 3");
    assert_eq!(next(after_step(&plan, 4, some("x"))), "next 7");
    assert_eq!(next(after_step(&plan, 4, None)), "next 5");
    assert_eq!(next(after_step(&plan, 6, some("x"))), "next 7");
    assert_eq!(next(after_step(&plan, 7, None)), "done");
    assert_eq!(next(after_step(&plan, 7, some(PROFILE_ERROR))), "failed InstallLayoutOrTip 失败");
}

#[test]
fn elevated_runs() {
    assert_eq!(run_elevated(ElevatedRun::NoProcess), Ok(()));
    assert_eq!(run_elevated(ElevatedRun::Exited(None)), Ok(()));
    assert_eq!(run_elevated(ElevatedRun::Exited(Some(0))), Ok(()));
    assert_eq!(
        run_elevated(ElevatedRun::Exited(Some(4294967295))).unwrap_err(),
        "提权操作失败（退出码 4294967295）"
    );
    assert_eq!(run_elevated(ElevatedRun::TimedOut).unwrap_err(), "提权操作超时");
    assert_eq!(
        run_elevated(ElevatedRun::Refused).unwrap_err(),
        "请求管理员权限失败或被取消"
    );
    assert_eq!(run_elevated(ElevatedRun::NoExe("x".to_string())).unwrap_err(), "x");
}

#[test]
fn commands() {
    let c = regsvr_command(&None, r"D:\a.dll", false, false);
    assert_eq!(c.program, "regsvr32.exe");
    assert_eq!(c.args, strings(&["/s", r"D:\a.dll"]));
    let c = regsvr_command(&None, r"D:\a.dll", true, true);
    assert_eq!(c.program, r"C:\Windows\SysWOW64\regsvr32.exe");
    assert_eq!(c.args, strings(&["/u", "/s", r"D:\a.dll"]));
    let c = grant_command(r"D:\a.dll");
    assert_eq!(c.program, "icacls");
    assert_eq!(c.args, strings(&[r"D:\a.dll", "/grant", "*S-1-15-2-1:(RX)"]));
}

#[test]
fn regsvr_runs() {
    let dll = r"D:\x\a.dll";
    assert_eq!(regsvr32(dll, RegsvrRun::Exited(Some(0))), Ok(()));
    assert_eq!(regsvr32(dll, RegsvrRun::NoFile).unwrap_err(), r"未找到 DLL: D:\x\a.dll");
    assert_eq!(
        regsvr32(dll, RegsvrRun::NotStarted("e".to_string())).unwrap_err(),
        r"regsvr32 启动失败 (D:\x\a.dll): e"
    );
    assert_eq!(
        regsvr32(dll, RegsvrRun::Exited(Some(-2147467259))).unwrap_err(),
        "regsvr32 执行失败 (a.dll): 退出码 Some(-2147467259)"
    );
    assert_eq!(
        regsvr32(dll, RegsvrRun::Exited(Some(i32::MIN))).unwrap_err(),
        "regsvr32 执行失败 (a.dll): 退出码 Some(-2147483648)"
    );
    assert_eq!(
        regsvr32(r"D:\", RegsvrRun::Exited(None)).unwrap_err(),
        "regsvr32 执行失败 (): 退出码 None"
    );
}

/// Carries out a copy into the system directory with the given replies, and returns the actions.
fn copy(replies: Vec<Reply>) -> (Vec<String>, Result<(), String>) {
    let mut c = SystemCopy::new(r"D:\a.dll", r"C:\s\a.dll");
    let mut log = Vec::new();
    for r in replies {
        log.push(format!("{:?}", c.action()));
        c = c.step(r, 3);
    }
    match c.action() {
        CopyAction::Finish(r) => (log, r),
        other => panic!("{other:?}"),
    }
}

fn failed(e: &str) -> Reply {
    Reply::failed(e.to_string())
}

#[test]
fn copying_into_the_system_directory() {
    let (log, r) = copy(vec![Reply::done(), Reply::done(), Reply::done()]);
    assert_eq!(r, Ok(()));
    assert_eq!(log.len(), 3);
    let (log, r) = copy(vec![
        Reply::done(),
        Reply::done(),
        failed("locked"),
        Reply::answer(true),
        Reply::done(),
        Reply::done(),
    ]);
    assert_eq!(r, Ok(()));
    assert!(log[4].contains("a.dll.old_3"));
}

#[test]
fn failures_of_the_system_copy() {
    assert_eq!(copy(vec![failed("x")]).1.unwrap_err(), r"创建系统目录失败 C:\s: x");
    assert_eq!(
        copy(vec![Reply::done(), Reply::done(), failed("disk"), Reply::answer(false)])
            .1
            .unwrap_err(),
        r"复制到系统目录失败 C:\s\a.dll: disk"
    );
    assert_eq!(
        copy(vec![
            Reply::done(),
            Reply::done(),
            failed("locked"),
            Reply::answer(true),
            failed("y"),
        ])
        .1
        .unwrap_err(),
        r"旧副本被锁定且改名让路失败 C:\s\a.dll: y"
    );
    assert_eq!(
        copy(vec![
            Reply::done(),
            Reply::done(),
            failed("locked"),
            Reply::answer(true),
            Reply::done(),
            failed("z"),
        ])
        .1
        .unwrap_err(),
        r"让路后复制仍失败 C:\s\a.dll: z"
    );
}
