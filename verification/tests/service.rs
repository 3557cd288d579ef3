use wind_portable::layout::detect_from;
use wind_portable::registration::Readings;
use wind_portable::reply::Reply;
use wind_portable::rpc::Exchange;
use wind_portable::service::{
    layout_error, settings_error, Act, Autostart, LayoutStep, ServiceManager, UpdateAct, ZipTarget,
};
use wind_portable::variant::Variant;

fn strings(list: &[&str]) -> Vec<String> {
    list.iter().map(|s| s.to_string()).collect()
}

fn manager() -> ServiceManager {
    let v = Variant::new(false);
    let files = strings(&[r"D:\pkg\wind_input.exe", r"D:\pkg\wind_tsf.dll"]);
    let cfg = detect_from(&v, &strings(&[r"D:\pkg"]), &files).unwrap();
    ServiceManager::new(cfg, v)
}

fn readings() -> Readings {
    Readings {
        dll_user: None,
        dll_machine: None,
        dll_classes: None,
        install_dir: None,
        install_location: None,
        protected: Vec::new(),
        system_root: None,
        files: Vec::new(),
    }
}

fn yes() -> Reply {
    Reply::answer(true)
}

fn no() -> Reply {
    Reply::answer(false)
}

fn failed(e: &str) -> Reply {
    Reply::failed(e.to_string())
}

fn start(replies: Vec<Reply>) -> (Vec<String>, Result<bool, String>) {
    let mgr = manager();
    let mut run = mgr.start_service();
    let mut log = Vec::new();
    for r in replies {
        log.push(format!("{:?}", run.action(&mgr.cfg)));
        run = run.step(&mgr.cfg, r);
    }
    match run.action(&mgr.cfg) {
        Act::Finish(r) => (log, r),
        other => panic!("{other:?}"),
    }
}

fn stop(replies: Vec<Reply>) -> (Vec<String>, Result<bool, String>) {
    let mgr = manager();
    let mut run = mgr.stop_service();
    let mut log = Vec::new();
    for r in replies {
        log.push(format!("{:?}", run.action(&mgr.cfg)));
        run = run.step(&mgr.cfg, r);
    }
    match run.action(&mgr.cfg) {
        Act::Finish(r) => (log, r),
        other => panic!("{other:?}"),
    }
}

#[test]
fn plain_start() {
    let (log, r) = start(vec![
        no(),
        Reply::done(),
        no(),
        Reply::done(),
        Reply::done(),
        no(),
        Reply::done(),
        Reply::done(),
        yes(),
        Reply::done(),
    ]);
    assert!(r.is_ok());
    assert_eq!(
        log,
        vec![
            "ProbeService".to_string(),
            "CheckConflict { running: false }".to_string(),
            "ProbeService".to_string(),
            "PrepareLayout".to_string(),
            "WriteMarker { stopped: false }".to_string(),
            "CheckRegistered".to_string(),
            "Register".to_string(),
            "SetAutostart(true)".to_string(),
            format!("CheckFile({:?})", r"D:\pkg\wind_input.exe"),
            format!("Launch {{ exe: {:?}, dir: {:?} }}", r"D:\pkg\wind_input.exe", r"D:\pkg"),
        ]
    );
}

#[test]
fn start_with_a_conflict() {
    let (log, r) = start(vec![yes(), failed("占用")]);
    assert_eq!(r.unwrap_err(), "启动服务失败：占用");
    assert_eq!(log, strings(&["ProbeService", "CheckConflict { running: true }"]));
}

#[test]
fn start_of_what_runs_already() {
    let (log, r) = start(vec![yes(), Reply::done(), yes(), yes()]);
    assert!(r.is_ok());
    assert_eq!(log.len(), 4);
}

#[test]
fn start_over_a_stale_service() {
    let mut replies = vec![yes(), Reply::done(), yes(), no(), yes()];
    for _ in 0..6 {
        replies.push(Reply::done());
        replies.push(yes());
    }
    replies.push(Reply::done());
    replies.extend(vec![Reply::done(), Reply::done(), yes(), Reply::done(), yes(), Reply::done()]);
    let (log, r) = start(replies);
    assert!(r.is_ok());
    assert_eq!(log.iter().filter(|a| *a == "Sleep(500)").count(), 6);
    assert!(log.contains(&"TerminateName(\"wind_input\")".to_string()));
    assert!(!log.contains(&"Register".to_string()));

    let (log, _) = start(vec![
        yes(),
        Reply::done(),
        yes(),
        no(),
        yes(),
        Reply::done(),
        no(),
        failed("x"),
    ]);
    assert!(!log.contains(&"TerminateName(\"wind_input\")".to_string()));
}

#[test]
fn failures_of_a_start() {
    let to_layout = || vec![no(), Reply::done(), no()];
    let mut r = to_layout();
    r.push(failed("layout"));
    assert_eq!(start(r).1.unwrap_err(), "layout");
    let mut r = to_layout();
    r.extend(vec![Reply::done(), Reply::done(), no(), failed("register")]);
    assert_eq!(start(r).1.unwrap_err(), "register");
    let mut r = to_layout();
    r.extend(vec![Reply::done(), Reply::done(), yes(), Reply::done(), no()]);
    assert_eq!(start(r).1.unwrap_err(), r"未找到服务程序: D:\pkg\wind_input.exe");
    let mut r = to_layout();
    r.extend(vec![Reply::done(), Reply::done(), yes(), Reply::done(), yes(), failed("e")]);
    assert_eq!(start(r).1.unwrap_err(), "启动服务进程失败: e");
}

#[test]
fn stop_of_what_does_not_run() {
    let (log, r) = stop(vec![no(), Reply::done(), Reply::done(), no(), no(), no(), Reply::done()]);
    assert_eq!(r, Ok(false));
    assert_eq!(log.last().unwrap(), "SetAutostart(false)");
}

#[test]
fn graceful_stop() {
    let (log, r) = stop(vec![
        yes(),
        Reply::done(),
        Reply::done(),
        yes(),
        yes(),
        yes(),
        yes(),
        Reply::done(),
        no(),
        Reply::done(),
        Reply::done(),
    ]);
    assert_eq!(r, Ok(true));
    assert_eq!(log[2], "WriteMarker { stopped: true }");
    assert_eq!(log.last().unwrap(), "Unregister");
    assert!(!log.iter().any(|a| a.starts_with("Terminate")));
}

#[test]
fn forced_stop() {
    let mut replies = vec![no(), Reply::done(), Reply::done(), no(), no(), yes(), no(), no(), yes()];
    for _ in 0..6 {
        replies.push(yes());
        replies.push(Reply::done());
    }
    replies.push(Reply::done());
    let (log, r) = stop(replies);
    assert_eq!(r, Ok(false));
    assert!(log.contains(&format!("TerminatePath({:?})", r"D:\pkg\wind_input.exe")));
    assert!(log.contains(&"TerminateName(\"wind_input\")".to_string()));
    assert_eq!(log.iter().filter(|a| *a == "Sleep(300)").count(), 6);
    assert!(!log.contains(&"Unregister".to_string()));
}

#[test]
fn shutdown_that_does_not_come() {
    let mut replies = vec![yes(), Reply::done(), Reply::done(), yes(), no(), yes(), yes()];
    for _ in 0..6 {
        replies.push(Reply::done());
        replies.push(yes());
    }
    replies.extend(vec![yes(), no(), Reply::done()]);
    let (log, r) = stop(replies);
    assert_eq!(r, Ok(true));
    assert_eq!(log.iter().filter(|a| *a == "Sleep(500)").count(), 6);
    assert!(!log.contains(&"TerminateName(\"wind_input\")".to_string()));
}

#[test]
fn failures_of_a_stop() {
    assert_eq!(stop(vec![no(), failed("占用")]).1.unwrap_err(), "停止服务失败：占用");
    let r = stop(vec![
        no(),
        Reply::done(),
        Reply::done(),
        no(),
        yes(),
        no(),
        Reply::done(),
        failed("拒绝"),
    ]);
    assert_eq!(r.1.unwrap_err(), "拒绝");
}

fn update(replies: Vec<Reply>) -> (Vec<String>, Result<bool, String>) {
    let mgr = manager();
    let mut run = mgr.update_from_zip();
    let mut log = Vec::new();
    for r in replies {
        log.push(format!("{:?}", run.action()));
        run = run.step(r);
    }
    match run.action() {
        UpdateAct::Finish(r) => (log, r),
        other => panic!("{other:?}"),
    }
}

#[test]
fn updates() {
    let (log, r) = update(vec![
        Reply::done(),
        failed("not stopped"),
        yes(),
        Reply::done(),
        Reply::done(),
    ]);
    assert_eq!(r, Ok(true));
    assert_eq!(
        log,
        strings(&[
            "WriteMarker { stopped: true }",
            "StopService",
            "DeployZip",
            "WriteMarker { stopped: false }",
            "StartService",
        ])
    );
    let (_, r) = update(vec![Reply::done(), Reply::done(), no(), Reply::done(), Reply::done()]);
    assert_eq!(r, Ok(false));
}

#[test]
fn failures_of_an_update() {
    let (log, r) = update(vec![Reply::done(), Reply::done(), failed("zip"), Reply::done()]);
    assert_eq!(r.unwrap_err(), "文件替换失败: zip");
    assert_eq!(log.last().unwrap(), "WriteMarker { stopped: false }");
    let (log, r) = update(vec![
        Reply::done(),
        Reply::done(),
        no(),
        Reply::done(),
        failed("svc"),
        Reply::done(),
    ]);
    assert_eq!(
        r.unwrap_err(),
        "文件已更新，但服务启动失败：svc（请手动点击启动服务）"
    );
    assert_eq!(log.last().unwrap(), "WriteMarker { stopped: true }");
}

#[test]
fn markers() {
    let mgr = manager();
    let set = mgr.set_stopped_flag();
    assert_eq!(set.path, r"D:\pkg\portable_mode");
    assert_eq!(set.content, "wind_portable=1\nstopped=1\n");
    let clear = mgr.clear_stopped_flag();
    assert_eq!(clear.path, r"D:\pkg\portable_mode");
    assert_eq!(clear.content, "wind_portable=1\n");
}

#[test]
fn layout_of_a_package() {
    let mgr = manager();
    assert_eq!(mgr.layout_probes(), strings(&[r"D:\pkg\portable_mode"]));
    let steps = mgr.ensure_portable_layout(&strings(&[r"D:\pkg\wind_portable_mode"]));
    let shown: Vec<String> = steps
        .iter()
        .map(|s| match s {
            LayoutStep::MakeDir(d) => format!("dir {d}"),
            LayoutStep::WriteMarker(p) => format!("marker {p}"),
        })
        .collect();
    assert_eq!(
        shown,
        strings(&[
            r"dir D:\pkg\userdata",
            r"dir D:\pkg\userdata\logs",
            r"dir D:\pkg\userdata\cache",
            r"dir D:\pkg\userdata\themes",
            r"marker D:\pkg\portable_mode",
        ])
    );
    assert_eq!(layout_error(&steps[1], "e"), r"创建目录失败 D:\pkg\userdata\logs: e");
    assert_eq!(layout_error(&steps[4], "e"), "写便携标记失败: e");
    assert_eq!(mgr.ensure_portable_layout(&strings(&[])).len(), 5);
    assert_eq!(
        mgr.ensure_portable_layout(&strings(&[r"D:\pkg\portable_mode"])).len(),
        4
    );
}

#[test]
fn autostart() {
    let mgr = manager();
    match mgr.set_autostart(true) {
        Autostart::Write { value, data } => {
            assert_eq!(value, "WindInput");
            assert_eq!(data, "\"D:\\pkg\\wind_input.exe\"");
        }
        Autostart::Delete { .. } => panic!("a value expected"),
    }
    match mgr.set_autostart(false) {
        Autostart::Delete { value } => assert_eq!(value, "WindInput"),
        Autostart::Write { .. } => panic!("a removal expected"),
    }
}

#[test]
fn settings_and_data() {
    let mgr = manager();
    let l = mgr.open_settings(true).unwrap();
    assert_eq!(l.exe, r"D:\pkg\wind_setting.exe");
    assert_eq!(l.dir, r"D:\pkg");
    assert_eq!(
        mgr.open_settings(false).unwrap_err(),
        r"未找到设置程序: D:\pkg\wind_setting.exe"
    );
    assert_eq!(settings_error("e"), "打开设置失败: e");
    assert!(mgr.open_userdata_dir(33).is_ok());
    assert_eq!(
        mgr.open_userdata_dir(32).unwrap_err(),
        r"打开目录失败: D:\pkg\userdata"
    );
}

#[test]
fn state_through_the_manager() {
    let mgr = manager();
    assert!(mgr.service_running(Exchange::Answered { result: None, error: None }));
    assert!(!mgr.service_running(Exchange::NotConnected("x".to_string())));
    let mut m = readings();
    assert!(!mgr.is_registered(&m));
    assert_eq!(mgr.installed_conflict(&m, true), None);
    m.dll_user = Some(r"D:\pkg\wind_tsf.dll".to_string());
    assert!(mgr.is_registered(&m));
    m.files = strings(&[r"D:\pkg\uninstall.exe"]);
    assert!(mgr.installed_conflict(&m, false).unwrap().starts_with("当前位于已安装目录"));
    assert_eq!(mgr.installed_conflict_path(&m), Some(r"D:\pkg".to_string()));
}

#[test]
fn deployment_elsewhere() {
    let mgr = manager();
    let files = strings(&["a.txt"]);
    let items = mgr.deploy_to_directory(None, r"E:\x", None, &files).unwrap();
    assert_eq!(items[0].from, r"D:\pkg\a.txt");
    assert_eq!(items[0].to, r"E:\x\a.txt");
    assert!(mgr.deploy_to_directory(None, r"d:\PKG", None, &files).is_err());

    let here = mgr.deploy_zip_to_directory(Vec::new(), None, r"d:\PKG", None, None);
    match here {
        Err(ZipTarget::Current) => {}
        _ => panic!("the own directory is refused"),
    }
    let elsewhere = mgr.deploy_zip_to_directory(Vec::new(), None, r"E:\x", None, None);
    match elsewhere {
        Err(e) => assert!(e.message().starts_with("读取 ZIP 失败: ")),
        Ok(_) => panic!("no archive"),
    }
    assert_eq!(
        ZipTarget::Current.message(),
        "目标是当前目录；原地更新请改用『更新』按钮"
    );
}
