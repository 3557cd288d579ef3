use wind_portable::dialog::Answer;
use wind_portable::exit::{Close, ExitAct, ExitRun, ExitState};
use wind_portable::layout::detect_from;
use wind_portable::registration::Readings;
use wind_portable::reply::Reply;
use wind_portable::service::ServiceManager;
use wind_portable::ui::{
    apply_snapshot, blocked_reason, compute_snapshot, deploy_outcome, desired_enables, first_panel,
    launcher_title, same_snapshot, tray_clicked, update_outcome, ConfirmPhase, Desk, Enables, Job,
    Poller, SnapMsg, Snapshot, TrayItem, START_CONFIRM_TRIES,
};
use wind_portable::variant::Variant;
use wind_portable::wizard::{Goal, Wizard, WizardAct, WizardReply};

fn strings(list: &[&str]) -> Vec<String> {
    list.iter().map(|s| s.to_string()).collect()
}

fn some(s: &str) -> Option<String> {
    Some(s.to_string())
}

fn snap(running: bool, registered: bool, conflict: Option<&str>) -> Snapshot {
    Snapshot {
        running,
        registered,
        conflict: conflict.map(|s| s.to_string()),
        conflict_path: None,
    }
}

fn enables(e: Enables) -> (bool, bool, bool, bool, bool, bool) {
    (e.start, e.stop, e.settings, e.data, e.update, e.deploy)
}

#[test]
fn titles() {
    assert_eq!(launcher_title(&Variant::new(false)), "清风输入法便携启动器");
    assert_eq!(launcher_title(&Variant::new(true)), "清风输入法便携启动器 (Dev)");
}

#[test]
fn snapshots() {
    let v = Variant::new(false);
    let files = strings(&[r"D:\p\wind_input.exe", r"D:\p\wind_tsf.dll"]);
    let cfg = detect_from(&v, &strings(&[r"D:\p"]), &files).unwrap();
    let mgr = ServiceManager::new(cfg, v);
    let mut m = Readings {
        dll_user: some(r"D:\p\wind_tsf.dll"),
        dll_machine: None,
        dll_classes: None,
        install_dir: None,
        install_location: None,
        protected: Vec::new(),
        system_root: None,
        files: Vec::new(),
    };
    let s = compute_snapshot(&mgr, &m, true);
    assert!(s.running && s.registered && s.conflict.is_none() && s.conflict_path.is_none());
    m.files = strings(&[r"D:\p\uninstall.exe"]);
    let s = compute_snapshot(&mgr, &m, true);
    assert!(s.running && !s.registered && s.conflict.is_some());
    assert_eq!(s.conflict_path, some(r"D:\p"));
    assert!(same_snapshot(&s, &s.clone()));
    assert!(!same_snapshot(&s, &Snapshot::default()));
}

#[test]
fn available_actions() {
    let e = |de: bool, s: &Snapshot, w: bool| enables(desired_enables(de, s, w));
    let stopped = snap(false, false, None);
    assert_eq!(e(false, &stopped, false), (true, false, false, true, true, true));
    let left = snap(false, true, None);
    assert_eq!(e(false, &left, false), (true, true, false, true, true, true));
    let running = snap(true, false, None);
    assert_eq!(e(false, &running, false), (false, true, true, true, true, true));
    assert_eq!(e(false, &running, true), (false, false, false, false, false, false));
    let conflict = snap(true, false, Some("x"));
    assert_eq!(e(false, &conflict, false), (false, false, false, false, false, true));
    assert_eq!(e(false, &conflict, true), (false, false, false, false, false, true));
    assert_eq!(e(true, &conflict, false), (false, false, false, false, false, false));
}

#[test]
fn panels() {
    let p = apply_snapshot(&snap(true, true, None), &None, r"D:\p", "");
    assert_eq!(p.status, "服务状态: 运行中");
    assert_eq!(p.detail, "输入法服务正在运行");
    assert_eq!(p.dir, r"目录: D:\p");
    assert_eq!(p.enables, desired_enables(false, &snap(true, true, None), false));
    let p = apply_snapshot(&snap(false, false, None), &None, r"D:\p", "");
    assert_eq!(p.status, "服务状态: 已停止");
    assert_eq!(p.detail, "点击启动服务后会自动注册并启动");
    let p = apply_snapshot(&snap(false, false, None), &None, r"D:\p", "便携版更新完成。");
    assert_eq!(p.detail, "便携版更新完成。");
    let mut c = snap(false, false, Some("占用"));
    let p = apply_snapshot(&c, &None, r"D:\p", "notice");
    assert_eq!((p.status.as_str(), p.detail.as_str()), ("便携模式不可用", "占用"));
    assert_eq!(p.dir, r"目录: D:\p");
    c.conflict_path = some(r"E:\q");
    let p = apply_snapshot(&c, &None, r"D:\p", "notice");
    assert_eq!(p.dir, r"冲突位置: E:\q");
    let p = apply_snapshot(&c, &some("未找到"), r"D:\p", "notice");
    assert_eq!(
        (p.status.as_str(), p.detail.as_str(), p.dir.as_str()),
        ("便携模式不可用", "未找到", "")
    );
}

#[test]
fn panel_at_the_beginning() {
    let p = first_panel(&None);
    assert_eq!(p.status, "正在检查服务状态...");
    assert_eq!(enables(p.enables), (false, false, false, false, false, false));
    let p = first_panel(&some("未找到"));
    assert_eq!((p.status.as_str(), p.detail.as_str()), ("便携模式不可用", "未找到"));
}

#[test]
fn messages_to_the_window() {
    let mut d = Desk {
        busy: false,
        notice: String::new(),
        detect_error: None,
        root_dir: r"D:\p".to_string(),
    };
    assert!(d.on_message(SnapMsg::Poll(snap(true, true, None))).is_some());
    let (status, detail, e) = d.begin_busy(Job::Update);
    assert_eq!((status, detail), ("正在更新...", "正在停止服务并替换文件"));
    assert_eq!(d.notice, "正在更新：停止服务并替换文件…");
    assert_eq!(enables(e), (false, false, false, false, false, false));
    assert!(d.busy);
    assert!(d.on_message(SnapMsg::Poll(snap(true, true, None))).is_none());
    let p = d
        .on_message(SnapMsg::Done {
            snap: snap(true, true, None),
            outcome: some("便携版更新完成。"),
        })
        .unwrap();
    assert!(!d.busy);
    assert_eq!(p.detail, "便携版更新完成。");
    d.begin_busy(Job::Stop);
    assert_eq!(d.notice, "");
    let p = d
        .on_message(SnapMsg::Done {
            snap: snap(false, false, None),
            outcome: None,
        })
        .unwrap();
    assert_eq!(p.detail, "点击启动服务后会自动注册并启动");
    assert_eq!(d.begin_busy(Job::Start).0, "正在启动服务...");
    assert_eq!(d.begin_busy(Job::Copy).1, "正在复制文件到目标目录");
    assert_eq!(d.begin_busy(Job::Unzip).1, "正在解压文件到目标目录");
}

#[test]
fn tray_menu() {
    let running = snap(true, true, None);
    let stopped = snap(false, false, None);
    let conflict = snap(true, false, Some("占用"));
    assert_eq!(tray_clicked(TrayItem::Start, false, &stopped, false), None);
    assert_eq!(tray_clicked(TrayItem::Start, false, &running, false), some("服务已在运行"));
    assert_eq!(tray_clicked(TrayItem::Stop, false, &running, false), None);
    assert_eq!(tray_clicked(TrayItem::Stop, false, &stopped, false), some("服务未在运行"));
    assert_eq!(tray_clicked(TrayItem::Settings, false, &running, false), None);
    assert_eq!(
        tray_clicked(TrayItem::Settings, false, &stopped, false),
        some("请先启动服务再打开设置")
    );
    assert_eq!(tray_clicked(TrayItem::Data, true, &stopped, true), None);
    assert_eq!(tray_clicked(TrayItem::Stop, false, &conflict, false), some("占用"));
    assert_eq!(
        tray_clicked(TrayItem::Start, false, &stopped, true),
        some("正在执行上一个操作，请稍候")
    );
    assert_eq!(blocked_reason(false, &stopped, "d"), "d");
}

#[test]
fn outcome_texts() {
    assert_eq!(update_outcome(Ok(true)), "更新完成。启动器自身已更新，请关闭后重新打开。");
    assert_eq!(update_outcome(Ok(false)), "便携版更新完成。");
    assert_eq!(update_outcome(Err("e".to_string())), "e");
    assert_eq!(
        deploy_outcome(r"E:\x", None),
        "已部署到：E:\\x\n请到该目录运行 wind_portable.exe 启动。"
    );
    assert_eq!(deploy_outcome(r"E:\x", Some("e")), "部署失败：e");
}

#[test]
fn waiting_for_the_service() {
    let mut p = ConfirmPhase::Probe(0);
    let mut probes = 0;
    let mut sleeps = 0;
    while p != ConfirmPhase::Done {
        match p {
            ConfirmPhase::Probe(_) => probes += 1,
            ConfirmPhase::Sleep(_) => sleeps += 1,
            ConfirmPhase::Done => unreachable!(),
        }
        p = p.step(false);
    }
    assert_eq!(probes, START_CONFIRM_TRIES);
    assert_eq!(sleeps, START_CONFIRM_TRIES);
    assert_eq!(ConfirmPhase::Probe(3).step(true), ConfirmPhase::Done);
}

#[test]
fn looking_at_the_service() {
    let mut p = Poller::new();
    let a = || Some(snap(true, true, None));
    let b = || Some(snap(false, true, None));
    let t = p.tick(true, a());
    assert!(t.send && !t.trim);
    assert_eq!(t.sleep_ms, 600);
    assert!(!p.tick(true, a()).send);
    assert!(p.tick(true, b()).send);
    assert!(!p.tick(true, None).send);
    let t = p.tick(false, a());
    assert!(!t.send && t.trim);
    assert_eq!(t.sleep_ms, 800);
    let t = p.tick(false, a());
    assert!(!t.send && !t.trim);
    assert!(p.tick(true, a()).send);
}

#[test]
fn requests_to_close() {
    let mut s = ExitState::default();
    assert_eq!(s.close_clicked(false, true, true), Close::Hide);
    assert_eq!(s.close_clicked(true, true, true), Close::Exit);
    assert_eq!(s.close_clicked(false, false, true), Close::Ask);
    assert!(s.asking);
    assert_eq!(s.close_clicked(false, false, true), Close::Ignore);
    s.end_ask();
    s.request_exit();
    assert_eq!(s.close_clicked(false, true, true), Close::Ask);
    assert_eq!(s.confirm_exit(), Close::Ignore);
    s.end_ask();
    assert!(!s.intent);
    assert_eq!(s.close_clicked(false, true, true), Close::Hide);
    assert_eq!(s.close_clicked(false, true, false), Close::Ask);
    s.allow();
    s.end_ask();
    assert_eq!(s.close_clicked(false, true, true), Close::Exit);
    assert!(s.begin_ask());
    assert!(!s.begin_ask());
}

fn leave(busy: bool, conflict: bool, package: bool, replies: Vec<(Reply, Answer)>) -> Vec<String> {
    let mut run = ExitRun::new(busy, conflict, package);
    let mut log = Vec::new();
    let mut replies = replies.into_iter();
    loop {
        let act = run.action();
        log.push(match &act {
            ExitAct::ShowError(e) => format!("error {e}"),
            other => format!("{other:?}"),
        });
        if matches!(act, ExitAct::Finish) {
            return log;
        }
        let (r, a) = replies.next().unwrap_or((Reply::done(), Answer::Cancel));
        run = run.step(r, a);
    }
}

#[test]
fn leaving() {
    let yes = || (Reply::answer(true), Answer::Cancel);
    let no = || (Reply::answer(false), Answer::Cancel);
    let user = |a: Answer| (Reply::done(), a);
    assert_eq!(
        leave(true, true, true, vec![]),
        strings(&["error 正在部署/更新，请等待完成后再退出。", "Finish"])
    );
    assert_eq!(leave(false, true, true, vec![]), strings(&["Allow", "Finish"]));
    assert_eq!(leave(false, false, false, vec![]), strings(&["Allow", "Finish"]));
    assert_eq!(
        leave(false, false, true, vec![no(), no()]),
        strings(&["ProbeService", "CheckRegistered", "Allow", "Finish"])
    );
    assert_eq!(
        leave(false, false, true, vec![yes(), user(Answer::No)]),
        strings(&["ProbeService", "AskUser", "Allow", "Finish"])
    );
    assert_eq!(
        leave(false, false, true, vec![no(), yes(), user(Answer::Cancel)]),
        strings(&["ProbeService", "CheckRegistered", "AskUser", "Finish"])
    );
    assert_eq!(
        leave(false, false, true, vec![yes(), user(Answer::Yes), user(Answer::Cancel)]),
        strings(&["ProbeService", "AskUser", "StopService", "Allow", "Finish"])
    );
    let failed = (Reply::failed("拒绝".to_string()), Answer::Cancel);
    assert_eq!(
        leave(false, false, true, vec![yes(), user(Answer::Yes), failed]),
        strings(&["ProbeService", "AskUser", "StopService", "error 卸载失败：拒绝", "Finish"])
    );
}

fn picked(p: &str) -> WizardReply {
    WizardReply { path: some(p), yes: true, error: None }
}

fn answered(yes: bool) -> WizardReply {
    WizardReply { path: None, yes, error: None }
}

fn refused(e: &str) -> WizardReply {
    WizardReply { path: None, yes: false, error: some(e) }
}

fn walk(goal: Goal, replies: Vec<WizardReply>) -> Vec<String> {
    let values = vec![some(r"C:\Windows")];
    let mut w = Wizard::new(goal);
    let mut log = Vec::new();
    let mut replies = replies.into_iter();
    loop {
        let act = w.action();
        log.push(match &act {
            WizardAct::PickZip { title } => format!("zip {title}"),
            WizardAct::Validate(z) => format!("check {z}"),
            WizardAct::PickFolder { title } => format!("folder {title}"),
            WizardAct::Confirm { text, caption } => format!("{caption}: {text}"),
            WizardAct::ShowError(e) => format!("error {e}"),
            WizardAct::Run { zip, target } => format!("run {zip:?} {target:?}"),
            WizardAct::Finish => return log,
        });
        w = w.step(replies.next().unwrap_or(answered(false)), &values);
    }
}

#[test]
fn way_to_an_update() {
    assert_eq!(
        walk(Goal::Update, vec![picked("a.zip"), answered(true), answered(true)]),
        strings(&[
            "zip 选择便携版更新包",
            "check a.zip",
            "确认更新: 确认从以下文件更新便携版？\n\na.zip",
            "run Some(\"a.zip\") None",
        ])
    );
    assert_eq!(walk(Goal::Update, vec![answered(false)]).len(), 1);
    assert_eq!(
        walk(Goal::Update, vec![picked("a.zip"), refused("坏")])[2],
        "error 无效的更新包：坏"
    );
    assert_eq!(
        walk(Goal::Update, vec![picked("a.zip"), answered(true), answered(false)]).len(),
        3
    );
}

#[test]
fn way_to_a_copy() {
    assert_eq!(
        walk(Goal::Copy, vec![picked(r"E:\x"), answered(true)]),
        strings(&[
            "folder 选择部署目标目录",
            "确认部署: 确认将当前文件复制到：\n\nE:\\x",
            "run None Some(\"E:\\\\x\")",
        ])
    );
    assert_eq!(
        walk(Goal::Copy, vec![picked(r"C:\Windows\x")]),
        strings(&[
            "folder 选择部署目标目录",
            "error 不能部署到系统保护目录：\nC:\\Windows\\x",
        ])
    );
    assert_eq!(walk(Goal::Copy, vec![answered(true)]).len(), 1);
}

#[test]
fn way_to_a_deployment() {
    assert_eq!(
        walk(
            Goal::Unzip,
            vec![picked("a.zip"), answered(true), picked(r"E:\x"), answered(true)]
        ),
        strings(&[
            "zip 选择便携版压缩包",
            "check a.zip",
            "folder 选择部署目标目录",
            "确认部署: 确认将 ZIP 部署到：\n\nE:\\x",
            "run Some(\"a.zip\") Some(\"E:\\\\x\")",
        ])
    );
    assert_eq!(
        walk(Goal::Unzip, vec![picked("a.zip"), refused("坏")])[2],
        "error 无效的压缩包：坏"
    );
}
