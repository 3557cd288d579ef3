//! What the window and the tray show, and which of their actions are available.
use vstd::prelude::*;
use vstd::string::*;

use crate::layout::clone_option;
use crate::registration;
use crate::registration::Readings;
use crate::service::ServiceManager;
use crate::text;
use crate::variant;
use crate::variant::Variant;

verus! {

/// How long the window waits between two looks at the service, in milliseconds.
pub const POLL_INTERVAL_MS: u64 = 600;

/// The same while the window is hidden.
pub const IDLE_INTERVAL_MS: u64 = 800;

/// How often the tray menu is brought up to date, in milliseconds.
pub const TRAY_ENABLE_SYNC_MS: u64 = 400;

/// How often it is asked whether the service has come up.
pub const START_CONFIRM_TRIES: u32 = 40;

/// The pause between two such questions, in milliseconds.
pub const START_CONFIRM_MS: u64 = 500;

/// The title of the window, which also finds it.
pub fn launcher_title(v: &Variant) -> (r: String)
    ensures
        r@ == if v.is_dev {
            "清风输入法便携启动器 (Dev)"@
        } else {
            "清风输入法便携启动器"@
        },
{
    if v.is_dev {
        String::from_str("清风输入法便携启动器 (Dev)")
    } else {
        String::from_str("清风输入法便携启动器")
    }
}

/// The state of the service at one moment.
#[derive(Debug)]
pub struct Snapshot {
    pub running: bool,
    pub registered: bool,
    pub conflict: Option<String>,
    pub conflict_path: Option<String>,
}

pub struct SnapshotView {
    pub running: bool,
    pub registered: bool,
    pub conflict: Option<Seq<char>>,
    pub conflict_path: Option<Seq<char>>,
}

impl DeepView for Snapshot {
    type V = SnapshotView;

    open spec fn deep_view(&self) -> SnapshotView {
        SnapshotView {
            running: self.running,
            registered: self.registered,
            conflict: self.conflict.deep_view(),
            conflict_path: self.conflict_path.deep_view(),
        }
    }
}

impl Default for Snapshot {
    fn default() -> (r: Snapshot)
        ensures
            r.deep_view() == (SnapshotView {
                running: false,
                registered: false,
                conflict: None,
                conflict_path: None,
            }),
    {
        Snapshot { running: false, registered: false, conflict: None, conflict_path: None }
    }
}

impl Clone for Snapshot {
    fn clone(&self) -> (r: Snapshot)
        ensures
            r == *self,
    {
        Snapshot {
            running: self.running,
            registered: self.registered,
            conflict: clone_option(&self.conflict),
            conflict_path: clone_option(&self.conflict_path),
        }
    }
}

fn same_option(a: &Option<String>, b: &Option<String>) -> (r: bool)
    ensures
        r == (a.deep_view() == b.deep_view()),
{
    match (a, b) {
        (Some(x), Some(y)) => text::same_text(x.as_str(), y.as_str()),
        (None, None) => true,
        _ => false,
    }
}

/// Whether two moments show the same.
pub fn same_snapshot(a: &Snapshot, b: &Snapshot) -> (r: bool)
    ensures
        r == (a.deep_view() == b.deep_view()),
{
    a.running == b.running && a.registered == b.registered && same_option(&a.conflict, &b.conflict)
        && same_option(&a.conflict_path, &b.conflict_path)
}

/// The state of the service. With a conflict, registration is not asked for; without one, there is
/// no place of it.
pub open spec fn snapshot_of(mgr: ServiceManager, m: Readings, running: bool) -> SnapshotView {
    match registration::conflict_of(mgr.cfg, mgr.variant, m, running) {
        Some(c) => SnapshotView {
            running,
            registered: false,
            conflict: Some(c.text()),
            conflict_path: registration::conflict_place(mgr.cfg, m),
        },
        None => SnapshotView {
            running,
            registered: registration::holds_registration(mgr.cfg, mgr.variant, m),
            conflict: None,
            conflict_path: None,
        },
    }
}

/// The state of the service, given whether it runs and what the machine says.
pub fn compute_snapshot(mgr: &ServiceManager, m: &Readings, running: bool) -> (r: Snapshot)
    ensures
        r.deep_view() == snapshot_of(*mgr, *m, running),
{
    let conflict = mgr.installed_conflict(m, running);
    if conflict.is_some() {
        Snapshot {
            running,
            registered: false,
            conflict,
            conflict_path: mgr.installed_conflict_path(m),
        }
    } else {
        Snapshot {
            running,
            registered: mgr.is_registered(m),
            conflict: None,
            conflict_path: None,
        }
    }
}

/// Which actions are available.
#[derive(Debug, Clone, Copy, PartialEq, Eq, Structural)]
pub struct Enables {
    pub start: bool,
    pub stop: bool,
    pub settings: bool,
    pub data: bool,
    pub update: bool,
    pub deploy: bool,
}

pub open spec fn no_enables() -> Enables {
    Enables {
        start: false,
        stop: false,
        settings: false,
        data: false,
        update: false,
        deploy: false,
    }
}

/// Which actions are available: none without a package or while another is under way, and only
/// deployment elsewhere with a conflict.
pub open spec fn enables_for(detect_error: bool, snap: SnapshotView, working: bool) -> Enables {
    if detect_error {
        no_enables()
    } else if snap.conflict is Some {
        Enables { deploy: true, ..no_enables() }
    } else if working {
        no_enables()
    } else {
        Enables {
            start: !snap.running,
            stop: snap.running || snap.registered,
            settings: snap.running,
            data: true,
            update: true,
            deploy: true,
        }
    }
}

fn nothing() -> (r: Enables)
    ensures
        r == no_enables(),
{
    Enables {
        start: false,
        stop: false,
        settings: false,
        data: false,
        update: false,
        deploy: false,
    }
}

/// Which actions are available.
pub fn desired_enables(detect_error: bool, snap: &Snapshot, working: bool) -> (r: Enables)
    ensures
        r == enables_for(detect_error, snap.deep_view(), working),
{
    if detect_error {
        return nothing();
    }
    if snap.conflict.is_some() {
        let mut r = nothing();
        r.deploy = true;
        return r;
    }
    if working {
        return nothing();
    }
    Enables {
        start: !snap.running,
        stop: snap.running || snap.registered,
        settings: snap.running,
        data: true,
        update: true,
        deploy: true,
    }
}

/// What the window shows.
#[derive(Debug)]
pub struct Panel {
    pub status: String,
    pub detail: String,
    pub dir: String,
    pub enables: Enables,
}

pub struct PanelView {
    pub status: Seq<char>,
    pub detail: Seq<char>,
    pub dir: Seq<char>,
    pub enables: Enables,
}

impl DeepView for Panel {
    type V = PanelView;

    open spec fn deep_view(&self) -> PanelView {
        PanelView {
            status: self.status@,
            detail: self.detail@,
            dir: self.dir@,
            enables: self.enables,
        }
    }
}

/// What the window shows of a moment.
pub open spec fn panel_of(
    snap: SnapshotView,
    detect_error: Option<Seq<char>>,
    root_dir: Seq<char>,
    notice: Seq<char>,
) -> PanelView {
    let enables = enables_for(detect_error is Some, snap, false);
    match (detect_error, snap.conflict) {
        (Some(e), _) => PanelView {
            status: "便携模式不可用"@,
            detail: e,
            dir: seq![],
            enables,
        },
        (None, Some(reason)) => PanelView {
            status: "便携模式不可用"@,
            detail: reason,
            dir: match snap.conflict_path {
                Some(p) => "冲突位置: "@ + p,
                None => "目录: "@ + root_dir,
            },
            enables,
        },
        (None, None) => PanelView {
            status: if snap.running {
                "服务状态: 运行中"@
            } else {
                "服务状态: 已停止"@
            },
            detail: if notice.len() > 0 {
                notice
            } else if snap.running {
                "输入法服务正在运行"@
            } else {
                "点击启动服务后会自动注册并启动"@
            },
            dir: "目录: "@ + root_dir,
            enables,
        },
    }
}

/// What the window shows of a moment; `notice` is the last message to the user.
pub fn apply_snapshot(
    snap: &Snapshot,
    detect_error: &Option<String>,
    root_dir: &str,
    notice: &str,
) -> (r: Panel)
    ensures
        r.deep_view() == panel_of(
            snap.deep_view(),
            detect_error.deep_view(),
            root_dir@,
            notice@,
        ),
{
    let enables = desired_enables(detect_error.is_some(), snap, false);
    if let Some(e) = detect_error {
        let dir = String::new();
        assert(dir@ =~= seq![]);
        return Panel {
            status: String::from_str("便携模式不可用"),
            detail: e.clone(),
            dir,
            enables,
        };
    }
    if let Some(reason) = &snap.conflict {
        let dir = match &snap.conflict_path {
            Some(p) => text::cat2("冲突位置: ", p.as_str()),
            None => text::cat2("目录: ", root_dir),
        };
        return Panel {
            status: String::from_str("便携模式不可用"),
            detail: reason.clone(),
            dir,
            enables,
        };
    }
    let status = String::from_str(
        if snap.running {
            "服务状态: 运行中"
        } else {
            "服务状态: 已停止"
        },
    );
    let detail = if !notice.is_empty() {
        String::from_str(notice)
    } else if snap.running {
        String::from_str("输入法服务正在运行")
    } else {
        String::from_str("点击启动服务后会自动注册并启动")
    };
    Panel { status, detail, dir: text::cat2("目录: ", root_dir), enables }
}

/// What the window shows before it has looked for the first time.
pub fn first_panel(detect_error: &Option<String>) -> (r: Panel)
    ensures
        r.deep_view() == (PanelView {
            status: if detect_error is Some {
                "便携模式不可用"@
            } else {
                "正在检查服务状态..."@
            },
            detail: match detect_error.deep_view() {
                Some(e) => e,
                None => seq![],
            },
            dir: seq![],
            enables: no_enables(),
        }),
{
    let empty = String::new();
    assert(empty@ =~= seq![]);
    match detect_error {
        Some(e) => Panel {
            status: String::from_str("便携模式不可用"),
            detail: e.clone(),
            dir: empty,
            enables: nothing(),
        },
        None => Panel {
            status: String::from_str("正在检查服务状态..."),
            detail: empty.clone(),
            dir: empty,
            enables: nothing(),
        },
    }
}

/// A message to the window.
#[derive(Debug)]
pub enum SnapMsg {
    /// A look at the service.
    Poll(Snapshot),
    /// An action has ended: the state after it, and what to tell the user.
    Done { snap: Snapshot, outcome: Option<String> },
}

/// What the window remembers between messages.
#[derive(Debug)]
pub struct Desk {
    /// Whether an action is shown as under way.
    pub busy: bool,
    /// The last message to the user.
    pub notice: String,
    pub detect_error: Option<String>,
    pub root_dir: String,
}

pub open spec fn message_snap(msg: SnapMsg) -> SnapshotView {
    match msg {
        SnapMsg::Poll(snap) => snap.deep_view(),
        SnapMsg::Done { snap, .. } => snap.deep_view(),
    }
}

impl Desk {
    /// Takes a message: what the window shows from now on, or nothing new. While an action is under
    /// way, looks at the service are passed over.
    pub fn on_message(&mut self, msg: SnapMsg) -> (r: Option<Panel>)
        ensures
            final(self).detect_error == old(self).detect_error,
            final(self).root_dir == old(self).root_dir,
            match msg {
                SnapMsg::Poll(_) => final(self).busy == old(self).busy && final(self).notice == old(
                    self,
                ).notice,
                SnapMsg::Done { outcome, .. } => !final(self).busy && final(self).notice
                    == match outcome {
                    Some(o) => o,
                    None => old(self).notice,
                },
            },
            r.deep_view() == if msg is Poll && old(self).busy {
                None
            } else {
                Some(
                    panel_of(
                        message_snap(msg),
                        old(self).detect_error.deep_view(),
                        old(self).root_dir@,
                        final(self).notice@,
                    ),
                )
            },
    {
        let snap = match msg {
            SnapMsg::Poll(snap) => {
                if self.busy {
                    return None;
                }
                snap
            },
            SnapMsg::Done { snap, outcome } => {
                self.busy = false;
                if let Some(o) = outcome {
                    self.notice = o;
                }
                snap
            },
        };
        Some(
            apply_snapshot(
                &snap,
                &self.detect_error,
                self.root_dir.as_str(),
                self.notice.as_str(),
            ),
        )
    }

    /// Shows an action as under way: nothing else is available.
    pub fn begin_busy(&mut self, job: Job) -> (r: (&'static str, &'static str, Enables))
        ensures
            final(self).busy,
            final(self).notice@ == busy_texts(job).2,
            final(self).detect_error == old(self).detect_error,
            final(self).root_dir == old(self).root_dir,
            r.0@ == busy_texts(job).0,
            r.1@ == busy_texts(job).1,
            r.2 == no_enables(),
    {
        let (status, detail, notice) = match job {
            Job::Start => ("正在启动服务...", "等待服务就绪", ""),
            Job::Stop => ("正在停止服务...", "", ""),
            Job::Update => (
                "正在更新...",
                "正在停止服务并替换文件",
                "正在更新：停止服务并替换文件…",
            ),
            Job::Copy => ("正在部署...", "正在复制文件到目标目录", "正在复制文件到目标目录…"),
            Job::Unzip => ("正在部署...", "正在解压文件到目标目录", "正在解压文件到目标目录…"),
        };
        self.busy = true;
        self.notice = String::from_str(notice);
        (status, detail, nothing())
    }
}

/// An action that takes its time.
#[derive(Debug, Clone, Copy, PartialEq, Eq, Structural)]
pub enum Job {
    Start,
    Stop,
    Update,
    Copy,
    Unzip,
}

/// What the window shows while an action is under way: status, detail and notice.
pub open spec fn busy_texts(job: Job) -> (Seq<char>, Seq<char>, Seq<char>) {
    match job {
        Job::Start => ("正在启动服务..."@, "等待服务就绪"@, ""@),
        Job::Stop => ("正在停止服务..."@, ""@, ""@),
        Job::Update => (
            "正在更新..."@,
            "正在停止服务并替换文件"@,
            "正在更新：停止服务并替换文件…"@,
        ),
        Job::Copy => ("正在部署..."@, "正在复制文件到目标目录"@, "正在复制文件到目标目录…"@),
        Job::Unzip => ("正在部署..."@, "正在解压文件到目标目录"@, "正在解压文件到目标目录…"@),
    }
}

/// Why an action of the tray is not available, in words.
pub open spec fn reason_for(working: bool, conflict: Option<Seq<char>>, otherwise: Seq<char>) -> Seq<
    char,
> {
    if working {
        "正在执行上一个操作，请稍候"@
    } else {
        match conflict {
            Some(reason) => reason,
            None => otherwise,
        }
    }
}

/// Why an action of the tray is not available, in words.
pub fn blocked_reason(working: bool, snap: &Snapshot, default: &str) -> (r: String)
    ensures
        r@ == reason_for(working, snap.conflict.deep_view(), default@),
{
    if working {
        return String::from_str("正在执行上一个操作，请稍候");
    }
    match &snap.conflict {
        Some(reason) => reason.clone(),
        None => String::from_str(default),
    }
}

/// The items of the tray menu that depend on the state of the service.
#[derive(Debug, Clone, Copy, PartialEq, Eq, Structural)]
pub enum TrayItem {
    Start,
    Stop,
    Settings,
    Data,
}

/// What a click on an item of the tray menu leads to: the action, or a message to the user.
pub open spec fn click_of(item: TrayItem, detect_error: bool, snap: SnapshotView, working: bool) -> Option<
    Seq<char>,
> {
    let e = enables_for(detect_error, snap, working);
    match item {
        TrayItem::Start => if e.start {
            None
        } else {
            Some(reason_for(working, snap.conflict, "服务已在运行"@))
        },
        TrayItem::Stop => if e.stop {
            None
        } else {
            Some(reason_for(working, snap.conflict, "服务未在运行"@))
        },
        TrayItem::Settings => if e.settings {
            None
        } else {
            Some(reason_for(working, snap.conflict, "请先启动服务再打开设置"@))
        },
        TrayItem::Data => None,
    }
}

/// What a click on an item of the tray menu leads to: nothing to say, and the action is taken; or
/// what to tell the user instead.
pub fn tray_clicked(item: TrayItem, detect_error: bool, snap: &Snapshot, working: bool) -> (r: Option<
    String,
>)
    ensures
        r.deep_view() == click_of(item, detect_error, snap.deep_view(), working),
{
    let e = desired_enables(detect_error, snap, working);
    match item {
        TrayItem::Start => if e.start {
            None
        } else {
            Some(blocked_reason(working, snap, "服务已在运行"))
        },
        TrayItem::Stop => if e.stop {
            None
        } else {
            Some(blocked_reason(working, snap, "服务未在运行"))
        },
        TrayItem::Settings => if e.settings {
            None
        } else {
            Some(blocked_reason(working, snap, "请先启动服务再打开设置"))
        },
        TrayItem::Data => None,
    }
}

/// What to tell the user when an update has ended.
pub fn update_outcome(result: Result<bool, String>) -> (r: String)
    ensures
        r@ == match result {
            Ok(true) => "更新完成。启动器自身已更新，请关闭后重新打开。"@,
            Ok(false) => "便携版更新完成。"@,
            Err(e) => e@,
        },
{
    match result {
        Ok(restart) => if restart {
            String::from_str("更新完成。启动器自身已更新，请关闭后重新打开。")
        } else {
            String::from_str("便携版更新完成。")
        },
        Err(e) => e,
    }
}

/// What to tell the user when a deployment has ended.
pub fn deploy_outcome(target: &str, error: Option<&str>) -> (r: String)
    ensures
        r@ == match variant::opt_view(error) {
            None => "已部署到："@ + target@ + "\n请到该目录运行 wind_portable.exe 启动。"@,
            Some(e) => "部署失败："@ + e,
        },
{
    match error {
        None => text::cat3("已部署到：", target, "\n请到该目录运行 wind_portable.exe 启动。"),
        Some(e) => text::cat2("部署失败：", e),
    }
}

/// How far it is with making sure that the service has come up.
#[derive(Debug, Clone, Copy, PartialEq, Eq, Structural)]
pub enum ConfirmPhase {
    /// It is asked, for the time with this number.
    Probe(u32),
    /// It is waited.
    Sleep(u32),
    Done,
}

pub open spec fn next_confirm(phase: ConfirmPhase, running: bool) -> ConfirmPhase {
    match phase {
        ConfirmPhase::Probe(n) => if running {
            ConfirmPhase::Done
        } else {
            ConfirmPhase::Sleep(n)
        },
        ConfirmPhase::Sleep(n) => if n + 1 < START_CONFIRM_TRIES {
            ConfirmPhase::Probe((n + 1) as u32)
        } else {
            ConfirmPhase::Done
        },
        ConfirmPhase::Done => ConfirmPhase::Done,
    }
}

impl ConfirmPhase {
    /// What follows; `running` is the answer where it was asked.
    pub fn step(self, running: bool) -> (r: ConfirmPhase)
        ensures
            r == next_confirm(self, running),
    {
        match self {
            ConfirmPhase::Probe(n) => if running {
                ConfirmPhase::Done
            } else {
                ConfirmPhase::Sleep(n)
            },
            ConfirmPhase::Sleep(n) => if n < START_CONFIRM_TRIES - 1 {
                ConfirmPhase::Probe(n + 1)
            } else {
                ConfirmPhase::Done
            },
            ConfirmPhase::Done => ConfirmPhase::Done,
        }
    }
}

/// What the look at the service in the background remembers.
#[derive(Debug)]
pub struct Poller {
    /// What was seen last; nothing right after the window was hidden.
    pub prev: Option<Snapshot>,
    pub was_visible: bool,
}

/// What comes of one look.
#[derive(Debug, Clone, Copy, PartialEq, Eq, Structural)]
pub struct Tick {
    /// Whether the window is told.
    pub send: bool,
    /// Whether memory is given back: the window was just hidden.
    pub trim: bool,
    /// How long to wait for the next look, in milliseconds.
    pub sleep_ms: u64,
}

pub open spec fn prev_view(prev: Option<Snapshot>) -> Option<SnapshotView> {
    match prev {
        Some(s) => Some(s.deep_view()),
        None => None,
    }
}

/// Whether the window is told of a look: it is visible, and there is something new.
pub open spec fn tells(prev: Option<SnapshotView>, visible: bool, snap: Option<SnapshotView>) -> bool {
    visible && snap is Some && prev != snap
}

/// What is remembered of a look. While the window is hidden nothing is, so that it is told as soon
/// as it is shown again.
pub open spec fn remembered(
    prev: Option<SnapshotView>,
    visible: bool,
    snap: Option<SnapshotView>,
) -> Option<SnapshotView> {
    if !visible {
        None
    } else if snap is Some {
        snap
    } else {
        prev
    }
}

impl Poller {
    pub fn new() -> (r: Poller)
        ensures
            r.prev is None,
            r.was_visible,
    {
        Poller { prev: None, was_visible: true }
    }

    /// Takes one look: whether the window is visible, and what is seen; nothing while an action is
    /// under way.
    pub fn tick(&mut self, visible: bool, snap: Option<Snapshot>) -> (r: Tick)
        ensures
            r.send == tells(prev_view(old(self).prev), visible, prev_view(snap)),
            r.trim == (!visible && old(self).was_visible),
            r.sleep_ms == if visible {
                POLL_INTERVAL_MS
            } else {
                IDLE_INTERVAL_MS
            },
            final(self).was_visible == visible,
            prev_view(final(self).prev) == remembered(
                prev_view(old(self).prev),
                visible,
                prev_view(snap),
            ),
    {
        let mut send = false;
        if let Some(seen) = snap {
            let changed = match &self.prev {
                Some(p) => !same_snapshot(p, &seen),
                None => true,
            };
            send = changed && visible;
            self.prev = Some(seen);
        }
        let trim = !visible && self.was_visible;
        if !visible {
            self.prev = None;
        }
        self.was_visible = visible;
        Tick {
            send,
            trim,
            sleep_ms: if visible {
                POLL_INTERVAL_MS
            } else {
                IDLE_INTERVAL_MS
            },
        }
    }
}

/// However long the window was hidden, the first look after it is shown again is told to it.
pub proof fn shown_again_is_told(
    prev: Option<SnapshotView>,
    hidden: Option<SnapshotView>,
    shown: SnapshotView,
)
    ensures
        tells(remembered(prev, false, hidden), true, Some(shown)),
{
}

/// What the window shows as available is what is available when no action is under way.
pub proof fn window_and_tray_agree(
    snap: SnapshotView,
    detect_error: Option<Seq<char>>,
    root_dir: Seq<char>,
    notice: Seq<char>,
)
    ensures
        panel_of(snap, detect_error, root_dir, notice).enables == enables_for(
            detect_error is Some,
            snap,
            false,
        ),
{
}

/// A conflict leaves nothing but deployment elsewhere, and leaves that even while another action is
/// under way; without a package nothing is left.
pub proof fn conflict_leaves_deployment(snap: SnapshotView, working: bool)
    requires
        snap.conflict is Some,
    ensures
        enables_for(false, snap, working) == (Enables { deploy: true, ..no_enables() }),
        enables_for(true, snap, working) == no_enables(),
{
}

/// Starting is available only while the service does not run, settings only while it does; and
/// stopping is available for a registration that was left behind, too.
pub proof fn enables_fit_state(snap: SnapshotView)
    requires
        snap.conflict is None,
    ensures
        enables_for(false, snap, false).start == !snap.running,
        enables_for(false, snap, false).settings == snap.running,
        snap.registered ==> enables_for(false, snap, false).stop,
{
}

/// How many steps it takes at most to make sure that the service has come up.
pub open spec fn confirm_left(phase: ConfirmPhase) -> nat {
    match phase {
        ConfirmPhase::Probe(n) => if n < START_CONFIRM_TRIES {
            (2 * (START_CONFIRM_TRIES - n)) as nat
        } else {
            2
        },
        ConfirmPhase::Sleep(n) => if n < START_CONFIRM_TRIES {
            (2 * (START_CONFIRM_TRIES - n) - 1) as nat
        } else {
            1
        },
        ConfirmPhase::Done => 0,
    }
}

/// Waiting for the service to come up ends.
pub proof fn confirm_ends(phase: ConfirmPhase, running: bool)
    ensures
        confirm_left(phase) > 0 ==> confirm_left(next_confirm(phase, running)) < confirm_left(phase),
        confirm_left(phase) == 0 <==> phase is Done,
{
}

/// When each action is available. Without a package none is. With a conflict only deployment is,
/// always. Otherwise none is while another is under way; and then the service can be started while it
/// does not run, stopped while it runs or is registered, and its settings can be opened while it
/// runs.
pub proof fn actions_are_available(detect_error: bool, snap: SnapshotView, working: bool)
    ensures
        ({
            let e = enables_for(detect_error, snap, working);
            let free = !detect_error && snap.conflict is None && !working;
            &&& e.start == (free && !snap.running)
            &&& e.stop == (free && (snap.running || snap.registered))
            &&& e.settings == (free && snap.running)
            &&& e.data == free
            &&& e.update == free
            &&& e.deploy == (!detect_error && (snap.conflict is Some || !working))
        }),
{
}

/// What a click in the tray leads to: the action where it is available, and a word about it where it
/// is not; the data directory can always be opened. The word is about the action that is under way,
/// or else about the conflict, or else about the action itself.
pub proof fn clicks_are_answered(item: TrayItem, detect_error: bool, snap: SnapshotView, working: bool)
    ensures
        ({
            let said = click_of(item, detect_error, snap, working);
            let free = !detect_error && snap.conflict is None && !working;
            &&& (said is None) == match item {
                TrayItem::Start => free && !snap.running,
                TrayItem::Stop => free && (snap.running || snap.registered),
                TrayItem::Settings => free && snap.running,
                TrayItem::Data => true,
            }
            &&& said is Some && working ==> said == Some("正在执行上一个操作，请稍候"@)
            &&& said is Some && !working && snap.conflict is Some ==> said == snap.conflict
            &&& said is Some && !working && snap.conflict is None ==> said == match item {
                TrayItem::Start => Some("服务已在运行"@),
                TrayItem::Stop => Some("服务未在运行"@),
                TrayItem::Settings => Some("请先启动服务再打开设置"@),
                TrayItem::Data => None,
            }
        }),
{
}

/// What the window shows. Without a package it shows why there is none; with a conflict, what it is
/// and where; otherwise whether the service runs, and the last message to the user in place of the
/// usual remark, where there is one.
pub proof fn window_tells_the_state(
    snap: SnapshotView,
    detect_error: Option<Seq<char>>,
    root_dir: Seq<char>,
    notice: Seq<char>,
)
    ensures
        ({
            let p = panel_of(snap, detect_error, root_dir, notice);
            &&& detect_error matches Some(e) ==> p.status == "便携模式不可用"@ && p.detail == e
                && p.dir.len() == 0
            &&& detect_error is None && snap.conflict is Some ==> {
                &&& p.status == "便携模式不可用"@
                &&& Some(p.detail) == snap.conflict
                &&& snap.conflict_path matches Some(place) ==> p.dir == "冲突位置: "@ + place
                &&& snap.conflict_path is None ==> p.dir == "目录: "@ + root_dir
            }
            &&& detect_error is None && snap.conflict is None ==> {
                &&& p.status == if snap.running {
                    "服务状态: 运行中"@
                } else {
                    "服务状态: 已停止"@
                }
                &&& p.dir == "目录: "@ + root_dir
                &&& notice.len() > 0 ==> p.detail == notice
                &&& notice.len() == 0 && snap.running ==> p.detail == "输入法服务正在运行"@
                &&& notice.len() == 0 && !snap.running ==> p.detail == "点击启动服务后会自动注册并启动"@
            }
        }),
{
}

/// What a look at the service sees: the conflict in words, with its place; and whether the package is
/// registered where there is none.
pub proof fn look_sees_the_conflict(mgr: ServiceManager, m: Readings, running: bool)
    ensures
        ({
            let s = snapshot_of(mgr, m, running);
            let found = registration::conflict_of(mgr.cfg, mgr.variant, m, running);
            &&& s.running == running
            &&& s.conflict is Some == found is Some
            &&& found matches Some(c) ==> s.conflict == Some(c.text()) && !s.registered && s.conflict_path
                == registration::conflict_place(mgr.cfg, m)
            &&& found is None ==> s.conflict_path is None && s.registered
                == registration::holds_registration(mgr.cfg, mgr.variant, m)
        }),
{
}

/// Of two looks in a row the window is told of the second where it is visible and sees something
/// else; a look that saw nothing changes nothing.
pub proof fn only_changes_are_told(prev: Option<SnapshotView>, a: SnapshotView, b: SnapshotView)
    ensures
        tells(remembered(prev, true, Some(a)), true, Some(b)) == (a != b),
        tells(remembered(remembered(prev, true, Some(a)), true, None), true, Some(b)) == (a != b),
        !tells(prev, false, Some(b)),
        !tells(prev, true, None),
        tells(None, true, Some(b)),
{
}

/// Where waiting for the service to come up stands; the answers to the pauses do not matter.
pub open spec fn confirm_after(answers: Seq<bool>) -> ConfirmPhase
    decreases answers.len(),
{
    if answers.len() == 0 {
        ConfirmPhase::Probe(0)
    } else {
        next_confirm(confirm_after(answers.drop_last()), answers.last())
    }
}

/// Waiting for the service to come up ends at the first question that is answered with yes, or
/// behind forty questions and the pauses behind them; until then questions and pauses take turns.
pub proof fn forty_questions_are_asked(answers: Seq<bool>)
    ensures
        ({
            let n = answers.len() as int;
            let came_up = exists|i: int| 0 <= 2 * i < n && i < 40 && #[trigger] answers[2 * i];
            if came_up || n >= 80 {
                confirm_after(answers) == ConfirmPhase::Done
            } else if n % 2 == 0 {
                confirm_after(answers) == ConfirmPhase::Probe((n / 2) as u32)
            } else {
                confirm_after(answers) == ConfirmPhase::Sleep((n / 2) as u32)
            }
        }),
    decreases answers.len(),
{
    let n = answers.len() as int;
    if n > 0 {
        let rest = answers.drop_last();
        forty_questions_are_asked(rest);
        let before = exists|i: int| 0 <= 2 * i < n - 1 && i < 40 && #[trigger] rest[2 * i];
        let came_up = exists|i: int| 0 <= 2 * i < n && i < 40 && #[trigger] answers[2 * i];
        if before {
            let i = choose|i: int| 0 <= 2 * i < n - 1 && i < 40 && #[trigger] rest[2 * i];
            assert(answers[2 * i]);
            assert(came_up);
        }
        if came_up && !before {
            let i = choose|i: int| 0 <= 2 * i < n && i < 40 && #[trigger] answers[2 * i];
            if 2 * i < n - 1 {
                assert(rest[2 * i]);
            }
            assert(2 * i == n - 1);
        }
        if !came_up && n % 2 == 1 && n < 80 {
            let i = n / 2;
            assert(2 * i == n - 1);
            assert(!answers[2 * i]);
        }
    }
}

/// What the window shows while an action is under way says which one it is.
pub proof fn jobs_are_told_apart(job: Job)
    ensures
        busy_texts(job).0 == match job {
            Job::Start => "正在启动服务..."@,
            Job::Stop => "正在停止服务..."@,
            Job::Update => "正在更新..."@,
            Job::Copy => "正在部署..."@,
            Job::Unzip => "正在部署..."@,
        },
        (busy_texts(job).2 == ""@) == (job == Job::Start || job == Job::Stop),
        job == Job::Copy ==> busy_texts(job).1 == "正在复制文件到目标目录"@,
        job == Job::Unzip ==> busy_texts(job).1 == "正在解压文件到目标目录"@,
{
    reveal_strlit("");
    reveal_strlit("正在更新：停止服务并替换文件…");
    reveal_strlit("正在复制文件到目标目录…");
    reveal_strlit("正在解压文件到目标目录…");
    assert("正在更新：停止服务并替换文件…"@.len() > 0);
    assert("正在复制文件到目标目录…"@.len() > 0);
    assert("正在解压文件到目标目录…"@.len() > 0);
}

} // verus!
