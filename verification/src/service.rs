//! The life of the service: starting it, stopping it, updating the package around it.
//!
//! Each of these is a sequence of questions and deeds. The library says what comes next; the
//! program around it carries it out and reports back.
use vstd::prelude::*;
use vstd::string::*;

use crate::archive::Listing;
use crate::deploy;
use crate::deploy::{CopyFault, CopyItem, Deployment, Fault};
use crate::layout::PortableConfig;
use crate::path;
use crate::registration;
use crate::registration::Readings;
use crate::reply::{Reply, ReplyView};
use crate::rpc;
use crate::rpc::Exchange;
use crate::text;
use crate::variant;
use crate::variant::Variant;

verus! {

/// The key of the programs that start with the session.
pub const RUN_KEY: &'static str = "Software\\Microsoft\\Windows\\CurrentVersion\\Run";

/// What a portable marker holds.
pub const MARKER_TEXT: &'static str = "wind_portable=1\n";

/// What is added to a marker while the service is to stay stopped.
pub const STOPPED_TEXT: &'static str = "stopped=1\n";

/// How often the end of a process is waited for.
pub const TRIES: u32 = 6;

/// What is to be done next.
#[derive(Debug)]
pub enum Act<S> {
    /// Ask the service for its state. Answer: whether it runs.
    ProbeService,
    /// Find out what stands against portable mode. Error: the reason.
    CheckConflict { running: bool },
    /// Answer: whether a process runs the program.
    FindProcess(S),
    /// Ask the service to end. Answer: whether it agreed.
    RequestShutdown,
    /// Wait so many milliseconds.
    Sleep(u64),
    /// Terminate the processes that run the program. Answer: whether there was one.
    TerminatePath(S),
    /// Terminate the processes that run a program of the name.
    TerminateName(S),
    /// Make the directories and the marker of the package. Error: why not.
    PrepareLayout,
    WriteMarker { stopped: bool },
    /// Answer: whether this package holds the registration.
    CheckRegistered,
    /// Error: why not.
    Register,
    /// Error: why not.
    Unregister,
    SetAutostart(bool),
    /// Answer: whether the file is there.
    CheckFile(S),
    /// Start the program in the directory. Error: why not.
    Launch { exe: S, dir: S },
    Finish(Result<bool, S>),
}

pub open spec fn act_view(a: Act<String>) -> Act<Seq<char>> {
    match a {
        Act::ProbeService => Act::ProbeService,
        Act::CheckConflict { running } => Act::CheckConflict { running },
        Act::FindProcess(p) => Act::FindProcess(p@),
        Act::RequestShutdown => Act::RequestShutdown,
        Act::Sleep(ms) => Act::Sleep(ms),
        Act::TerminatePath(p) => Act::TerminatePath(p@),
        Act::TerminateName(s) => Act::TerminateName(s@),
        Act::PrepareLayout => Act::PrepareLayout,
        Act::WriteMarker { stopped } => Act::WriteMarker { stopped },
        Act::CheckRegistered => Act::CheckRegistered,
        Act::Register => Act::Register,
        Act::Unregister => Act::Unregister,
        Act::SetAutostart(on) => Act::SetAutostart(on),
        Act::CheckFile(p) => Act::CheckFile(p@),
        Act::Launch { exe, dir } => Act::Launch { exe: exe@, dir: dir@ },
        Act::Finish(Ok(b)) => Act::Finish(Ok(b)),
        Act::Finish(Err(e)) => Act::Finish(Err(e@)),
    }
}

/// The name of the service's program without its extension, where it is not empty.
pub open spec fn stem_of(cfg: PortableConfig) -> Option<Seq<char>> {
    match path::file_stem_of(cfg.service_exe@) {
        Some(s) => if s.len() > 0 {
            Some(s)
        } else {
            None
        },
        None => None,
    }
}

fn service_stem(cfg: &PortableConfig) -> (r: Option<String>)
    ensures
        r.deep_view() == stem_of(*cfg),
{
    match path::file_stem(cfg.service_exe.as_str()) {
        Some(s) => if s.as_str().is_empty() {
            None
        } else {
            Some(s)
        },
        None => None,
    }
}

/// How far the start of the service is.
#[derive(Debug)]
pub enum StartPhase<S> {
    /// Does a service run? Needed to know what stands against portable mode.
    Probe,
    Conflict { running: bool },
    /// Does a service run?
    ProbeAgain,
    /// Is it this package's?
    FindOwn,
    /// It is another one's: it is asked to end.
    Shutdown,
    /// It agreed; so many times it has been looked after.
    Wait(u32),
    Recheck(u32),
    /// It is ended by the name of its program.
    Terminate(S),
    Layout,
    ClearStopped,
    AskRegistered,
    Register,
    Autostart,
    CheckExe,
    /// The service is about to be started, in the directory.
    Launch(S),
    Started,
    Failed(S),
}

pub open spec fn start_view(p: StartPhase<String>) -> StartPhase<Seq<char>> {
    match p {
        StartPhase::Probe => StartPhase::Probe,
        StartPhase::Conflict { running } => StartPhase::Conflict { running },
        StartPhase::ProbeAgain => StartPhase::ProbeAgain,
        StartPhase::FindOwn => StartPhase::FindOwn,
        StartPhase::Shutdown => StartPhase::Shutdown,
        StartPhase::Wait(n) => StartPhase::Wait(n),
        StartPhase::Recheck(n) => StartPhase::Recheck(n),
        StartPhase::Terminate(s) => StartPhase::Terminate(s@),
        StartPhase::Layout => StartPhase::Layout,
        StartPhase::ClearStopped => StartPhase::ClearStopped,
        StartPhase::AskRegistered => StartPhase::AskRegistered,
        StartPhase::Register => StartPhase::Register,
        StartPhase::Autostart => StartPhase::Autostart,
        StartPhase::CheckExe => StartPhase::CheckExe,
        StartPhase::Launch(dir) => StartPhase::Launch(dir@),
        StartPhase::Started => StartPhase::Started,
        StartPhase::Failed(e) => StartPhase::Failed(e@),
    }
}

/// Ending a service of the same name, where there is a name.
pub open spec fn start_by_name(cfg: PortableConfig) -> StartPhase<Seq<char>> {
    match stem_of(cfg) {
        Some(s) => StartPhase::Terminate(s),
        None => StartPhase::Layout,
    }
}

/// What follows in the start of the service.
pub open spec fn next_start(
    cfg: PortableConfig,
    phase: StartPhase<Seq<char>>,
    reply: ReplyView,
) -> StartPhase<Seq<char>> {
    match phase {
        StartPhase::Probe => StartPhase::Conflict { running: reply.yes },
        StartPhase::Conflict { .. } => match reply.error {
            Some(reason) => StartPhase::Failed("启动服务"@ + "失败："@ + reason),
            None => StartPhase::ProbeAgain,
        },
        StartPhase::ProbeAgain => if reply.yes {
            StartPhase::FindOwn
        } else {
            StartPhase::Layout
        },
        StartPhase::FindOwn => if reply.yes {
            StartPhase::Started
        } else {
            StartPhase::Shutdown
        },
        StartPhase::Shutdown => if reply.yes {
            StartPhase::Wait(0)
        } else {
            start_by_name(cfg)
        },
        StartPhase::Wait(n) => StartPhase::Recheck(n),
        StartPhase::Recheck(n) => if !reply.yes {
            StartPhase::Layout
        } else if n + 1 < TRIES {
            StartPhase::Wait((n + 1) as u32)
        } else {
            start_by_name(cfg)
        },
        StartPhase::Terminate(_) => StartPhase::Layout,
        StartPhase::Layout => match reply.error {
            Some(e) => StartPhase::Failed(e),
            None => StartPhase::ClearStopped,
        },
        StartPhase::ClearStopped => StartPhase::AskRegistered,
        StartPhase::AskRegistered => if reply.yes {
            StartPhase::Autostart
        } else {
            StartPhase::Register
        },
        StartPhase::Register => match reply.error {
            Some(e) => StartPhase::Failed(e),
            None => StartPhase::Autostart,
        },
        StartPhase::Autostart => StartPhase::CheckExe,
        StartPhase::CheckExe => if !reply.yes {
            StartPhase::Failed("未找到服务程序: "@ + cfg.service_exe@)
        } else {
            match path::parent_of(cfg.service_exe@) {
                Some(dir) => StartPhase::Launch(dir),
                None => StartPhase::Failed("服务路径无父目录"@),
            }
        },
        StartPhase::Launch(_) => match reply.error {
            Some(e) => StartPhase::Failed("启动服务进程失败: "@ + e),
            None => StartPhase::Started,
        },
        StartPhase::Started => StartPhase::Started,
        StartPhase::Failed(e) => StartPhase::Failed(e),
    }
}

pub open spec fn start_act(cfg: PortableConfig, phase: StartPhase<Seq<char>>) -> Act<Seq<char>> {
    match phase {
        StartPhase::Probe => Act::ProbeService,
        StartPhase::Conflict { running } => Act::CheckConflict { running },
        StartPhase::ProbeAgain => Act::ProbeService,
        StartPhase::FindOwn => Act::FindProcess(cfg.service_exe@),
        StartPhase::Shutdown => Act::RequestShutdown,
        StartPhase::Wait(_) => Act::Sleep(500),
        StartPhase::Recheck(_) => Act::ProbeService,
        StartPhase::Terminate(s) => Act::TerminateName(s),
        StartPhase::Layout => Act::PrepareLayout,
        StartPhase::ClearStopped => Act::WriteMarker { stopped: false },
        StartPhase::AskRegistered => Act::CheckRegistered,
        StartPhase::Register => Act::Register,
        StartPhase::Autostart => Act::SetAutostart(true),
        StartPhase::CheckExe => Act::CheckFile(cfg.service_exe@),
        StartPhase::Launch(dir) => Act::Launch { exe: cfg.service_exe@, dir },
        StartPhase::Started => Act::Finish(Ok(true)),
        StartPhase::Failed(e) => Act::Finish(Err(e)),
    }
}

/// The start of the service.
#[derive(Debug)]
pub struct StartRun {
    pub phase: StartPhase<String>,
}

impl StartRun {
    /// What is to be done next.
    pub fn action(&self, cfg: &PortableConfig) -> (r: Act<String>)
        ensures
            act_view(r) == start_act(*cfg, start_view(self.phase)),
    {
        match &self.phase {
            StartPhase::Probe => Act::ProbeService,
            StartPhase::Conflict { running } => Act::CheckConflict { running: *running },
            StartPhase::ProbeAgain => Act::ProbeService,
            StartPhase::FindOwn => Act::FindProcess(cfg.service_exe.clone()),
            StartPhase::Shutdown => Act::RequestShutdown,
            StartPhase::Wait(_) => Act::Sleep(500),
            StartPhase::Recheck(_) => Act::ProbeService,
            StartPhase::Terminate(s) => Act::TerminateName(s.clone()),
            StartPhase::Layout => Act::PrepareLayout,
            StartPhase::ClearStopped => Act::WriteMarker { stopped: false },
            StartPhase::AskRegistered => Act::CheckRegistered,
            StartPhase::Register => Act::Register,
            StartPhase::Autostart => Act::SetAutostart(true),
            StartPhase::CheckExe => Act::CheckFile(cfg.service_exe.clone()),
            StartPhase::Launch(dir) => Act::Launch {
                exe: cfg.service_exe.clone(),
                dir: dir.clone(),
            },
            StartPhase::Started => Act::Finish(Ok(true)),
            StartPhase::Failed(e) => Act::Finish(Err(e.clone())),
        }
    }

    fn by_name(cfg: &PortableConfig) -> (r: StartPhase<String>)
        ensures
            start_view(r) == start_by_name(*cfg),
    {
        match service_stem(cfg) {
            Some(s) => StartPhase::Terminate(s),
            None => StartPhase::Layout,
        }
    }

    /// Takes note of the reply to the last action.
    pub fn step(self, cfg: &PortableConfig, reply: Reply) -> (r: StartRun)
        ensures
            start_view(r.phase) == next_start(*cfg, start_view(self.phase), reply.deep_view()),
    {
        let phase = match self.phase {
            StartPhase::Probe => StartPhase::Conflict { running: reply.yes },
            StartPhase::Conflict { .. } => match reply.error {
                Some(reason) => StartPhase::Failed(
                    text::cat3("启动服务", "失败：", reason.as_str()),
                ),
                None => StartPhase::ProbeAgain,
            },
            StartPhase::ProbeAgain => if reply.yes {
                StartPhase::FindOwn
            } else {
                StartPhase::Layout
            },
            StartPhase::FindOwn => if reply.yes {
                StartPhase::Started
            } else {
                StartPhase::Shutdown
            },
            StartPhase::Shutdown => if reply.yes {
                StartPhase::Wait(0)
            } else {
                StartRun::by_name(cfg)
            },
            StartPhase::Wait(n) => StartPhase::Recheck(n),
            StartPhase::Recheck(n) => if !reply.yes {
                StartPhase::Layout
            } else if n < TRIES - 1 {
                StartPhase::Wait(n + 1)
            } else {
                StartRun::by_name(cfg)
            },
            StartPhase::Terminate(_) => StartPhase::Layout,
            StartPhase::Layout => match reply.error {
                Some(e) => StartPhase::Failed(e),
                None => StartPhase::ClearStopped,
            },
            StartPhase::ClearStopped => StartPhase::AskRegistered,
            StartPhase::AskRegistered => if reply.yes {
                StartPhase::Autostart
            } else {
                StartPhase::Register
            },
            StartPhase::Register => match reply.error {
                Some(e) => StartPhase::Failed(e),
                None => StartPhase::Autostart,
            },
            StartPhase::Autostart => StartPhase::CheckExe,
            StartPhase::CheckExe => if !reply.yes {
                StartPhase::Failed(text::cat2("未找到服务程序: ", cfg.service_exe.as_str()))
            } else {
                match path::parent(cfg.service_exe.as_str()) {
                    Some(dir) => StartPhase::Launch(dir),
                    None => StartPhase::Failed(String::from_str("服务路径无父目录")),
                }
            },
            StartPhase::Launch(_) => match reply.error {
                Some(e) => StartPhase::Failed(text::cat2("启动服务进程失败: ", e.as_str())),
                None => StartPhase::Started,
            },
            StartPhase::Started => StartPhase::Started,
            StartPhase::Failed(e) => StartPhase::Failed(e),
        };
        StartRun { phase }
    }
}

/// How far the stop of the service is.
#[derive(Debug)]
pub enum StopPhase<S> {
    /// Does a service run? Needed to know what stands against portable mode.
    Probe,
    Conflict { running: bool },
    SetStopped,
    AskRunning,
    AskRegistered,
    /// Is there a process, though the service may not answer?
    FindProcess,
    /// The service is asked to end.
    Shutdown,
    /// It agreed; so many times it has been looked after.
    Wait(u32),
    Recheck(u32),
    TerminatePath,
    TerminateName(S),
    /// It was terminated; so many times it has been looked after.
    Verify(u32),
    Pause(u32),
    AutostartOff,
    Unregister,
    Stopped,
    Failed(S),
}

pub open spec fn stop_phase_view(p: StopPhase<String>) -> StopPhase<Seq<char>> {
    match p {
        StopPhase::Probe => StopPhase::Probe,
        StopPhase::Conflict { running } => StopPhase::Conflict { running },
        StopPhase::SetStopped => StopPhase::SetStopped,
        StopPhase::AskRunning => StopPhase::AskRunning,
        StopPhase::AskRegistered => StopPhase::AskRegistered,
        StopPhase::FindProcess => StopPhase::FindProcess,
        StopPhase::Shutdown => StopPhase::Shutdown,
        StopPhase::Wait(n) => StopPhase::Wait(n),
        StopPhase::Recheck(n) => StopPhase::Recheck(n),
        StopPhase::TerminatePath => StopPhase::TerminatePath,
        StopPhase::TerminateName(s) => StopPhase::TerminateName(s@),
        StopPhase::Verify(n) => StopPhase::Verify(n),
        StopPhase::Pause(n) => StopPhase::Pause(n),
        StopPhase::AutostartOff => StopPhase::AutostartOff,
        StopPhase::Unregister => StopPhase::Unregister,
        StopPhase::Stopped => StopPhase::Stopped,
        StopPhase::Failed(e) => StopPhase::Failed(e@),
    }
}

/// The stop of the service.
#[derive(Debug)]
pub struct StopRun {
    pub phase: StopPhase<String>,
    /// Whether the service ran when the stop began.
    pub was_running: bool,
    /// Whether this package held the registration when the stop began.
    pub was_registered: bool,
}

pub struct StopView {
    pub phase: StopPhase<Seq<char>>,
    pub was_running: bool,
    pub was_registered: bool,
}

impl StopRun {
    pub open spec fn spec_view(self) -> StopView {
        StopView {
            phase: stop_phase_view(self.phase),
            was_running: self.was_running,
            was_registered: self.was_registered,
        }
    }
}

/// What follows in the stop of the service, as far as the phase goes.
pub open spec fn next_stop_phase(cfg: PortableConfig, s: StopView, reply: ReplyView) -> StopPhase<
    Seq<char>,
> {
    match s.phase {
        StopPhase::Probe => StopPhase::Conflict { running: reply.yes },
        StopPhase::Conflict { .. } => match reply.error {
            Some(reason) => StopPhase::Failed("停止服务"@ + "失败："@ + reason),
            None => StopPhase::SetStopped,
        },
        StopPhase::SetStopped => StopPhase::AskRunning,
        StopPhase::AskRunning => StopPhase::AskRegistered,
        StopPhase::AskRegistered => StopPhase::FindProcess,
        StopPhase::FindProcess => if s.was_running || reply.yes {
            StopPhase::Shutdown
        } else {
            StopPhase::AutostartOff
        },
        StopPhase::Shutdown => if reply.yes {
            StopPhase::Wait(0)
        } else {
            StopPhase::TerminatePath
        },
        StopPhase::Wait(n) => StopPhase::Recheck(n),
        StopPhase::Recheck(n) => if !reply.yes {
            StopPhase::AutostartOff
        } else if n + 1 < TRIES {
            StopPhase::Wait((n + 1) as u32)
        } else {
            StopPhase::TerminatePath
        },
        StopPhase::TerminatePath => match stem_of(cfg) {
            Some(name) => if reply.yes {
                StopPhase::Verify(0)
            } else {
                StopPhase::TerminateName(name)
            },
            None => StopPhase::Verify(0),
        },
        StopPhase::TerminateName(_) => StopPhase::Verify(0),
        StopPhase::Verify(n) => if reply.yes {
            StopPhase::Pause(n)
        } else {
            StopPhase::AutostartOff
        },
        StopPhase::Pause(n) => if n + 1 < TRIES {
            StopPhase::Verify((n + 1) as u32)
        } else {
            StopPhase::AutostartOff
        },
        StopPhase::AutostartOff => if s.was_registered {
            StopPhase::Unregister
        } else {
            StopPhase::Stopped
        },
        StopPhase::Unregister => match reply.error {
            Some(e) => StopPhase::Failed(e),
            None => StopPhase::Stopped,
        },
        StopPhase::Stopped => StopPhase::Stopped,
        StopPhase::Failed(e) => StopPhase::Failed(e),
    }
}

/// What follows in the stop of the service.
pub open spec fn next_stop(cfg: PortableConfig, s: StopView, reply: ReplyView) -> StopView {
    StopView {
        phase: next_stop_phase(cfg, s, reply),
        was_running: if s.phase is AskRunning {
            reply.yes
        } else {
            s.was_running
        },
        was_registered: if s.phase is AskRegistered {
            reply.yes
        } else {
            s.was_registered
        },
    }
}

pub open spec fn stop_act(cfg: PortableConfig, s: StopView) -> Act<Seq<char>> {
    match s.phase {
        StopPhase::Probe => Act::ProbeService,
        StopPhase::Conflict { running } => Act::CheckConflict { running },
        StopPhase::SetStopped => Act::WriteMarker { stopped: true },
        StopPhase::AskRunning => Act::ProbeService,
        StopPhase::AskRegistered => Act::CheckRegistered,
        StopPhase::FindProcess => Act::FindProcess(cfg.service_exe@),
        StopPhase::Shutdown => Act::RequestShutdown,
        StopPhase::Wait(_) => Act::Sleep(500),
        StopPhase::Recheck(_) => Act::FindProcess(cfg.service_exe@),
        StopPhase::TerminatePath => Act::TerminatePath(cfg.service_exe@),
        StopPhase::TerminateName(name) => Act::TerminateName(name),
        StopPhase::Verify(_) => Act::FindProcess(cfg.service_exe@),
        StopPhase::Pause(_) => Act::Sleep(300),
        StopPhase::AutostartOff => Act::SetAutostart(false),
        StopPhase::Unregister => Act::Unregister,
        StopPhase::Stopped => Act::Finish(Ok(s.was_running || s.was_registered)),
        StopPhase::Failed(e) => Act::Finish(Err(e)),
    }
}

impl StopRun {
    /// What is to be done next.
    pub fn action(&self, cfg: &PortableConfig) -> (r: Act<String>)
        ensures
            act_view(r) == stop_act(*cfg, self.spec_view()),
    {
        match &self.phase {
            StopPhase::Probe => Act::ProbeService,
            StopPhase::Conflict { running } => Act::CheckConflict { running: *running },
            StopPhase::SetStopped => Act::WriteMarker { stopped: true },
            StopPhase::AskRunning => Act::ProbeService,
            StopPhase::AskRegistered => Act::CheckRegistered,
            StopPhase::FindProcess => Act::FindProcess(cfg.service_exe.clone()),
            StopPhase::Shutdown => Act::RequestShutdown,
            StopPhase::Wait(_) => Act::Sleep(500),
            StopPhase::Recheck(_) => Act::FindProcess(cfg.service_exe.clone()),
            StopPhase::TerminatePath => Act::TerminatePath(cfg.service_exe.clone()),
            StopPhase::TerminateName(name) => Act::TerminateName(name.clone()),
            StopPhase::Verify(_) => Act::FindProcess(cfg.service_exe.clone()),
            StopPhase::Pause(_) => Act::Sleep(300),
            StopPhase::AutostartOff => Act::SetAutostart(false),
            StopPhase::Unregister => Act::Unregister,
            StopPhase::Stopped => Act::Finish(Ok(self.was_running || self.was_registered)),
            StopPhase::Failed(e) => Act::Finish(Err(e.clone())),
        }
    }

    /// Takes note of the reply to the last action.
    pub fn step(self, cfg: &PortableConfig, reply: Reply) -> (r: StopRun)
        ensures
            r.spec_view() == next_stop(*cfg, self.spec_view(), reply.deep_view()),
    {
        let mut was_running = self.was_running;
        let mut was_registered = self.was_registered;
        let phase = match self.phase {
            StopPhase::Probe => StopPhase::Conflict { running: reply.yes },
            StopPhase::Conflict { .. } => match reply.error {
                Some(reason) => StopPhase::Failed(
                    text::cat3("停止服务", "失败：", reason.as_str()),
                ),
                None => StopPhase::SetStopped,
            },
            StopPhase::SetStopped => StopPhase::AskRunning,
            StopPhase::AskRunning => {
                was_running = reply.yes;
                StopPhase::AskRegistered
            },
            StopPhase::AskRegistered => {
                was_registered = reply.yes;
                StopPhase::FindProcess
            },
            StopPhase::FindProcess => if was_running || reply.yes {
                StopPhase::Shutdown
            } else {
                StopPhase::AutostartOff
            },
            StopPhase::Shutdown => if reply.yes {
                StopPhase::Wait(0)
            } else {
                StopPhase::TerminatePath
            },
            StopPhase::Wait(n) => StopPhase::Recheck(n),
            StopPhase::Recheck(n) => if !reply.yes {
                StopPhase::AutostartOff
            } else if n < TRIES - 1 {
                StopPhase::Wait(n + 1)
            } else {
                StopPhase::TerminatePath
            },
            StopPhase::TerminatePath => match service_stem(cfg) {
                Some(name) => if reply.yes {
                    StopPhase::Verify(0)
                } else {
                    StopPhase::TerminateName(name)
                },
                None => StopPhase::Verify(0),
            },
            StopPhase::TerminateName(_) => StopPhase::Verify(0),
            StopPhase::Verify(n) => if reply.yes {
                StopPhase::Pause(n)
            } else {
                StopPhase::AutostartOff
            },
            StopPhase::Pause(n) => if n < TRIES - 1 {
                StopPhase::Verify(n + 1)
            } else {
                StopPhase::AutostartOff
            },
            StopPhase::AutostartOff => if was_registered {
                StopPhase::Unregister
            } else {
                StopPhase::Stopped
            },
            StopPhase::Unregister => match reply.error {
                Some(e) => StopPhase::Failed(e),
                None => StopPhase::Stopped,
            },
            StopPhase::Stopped => StopPhase::Stopped,
            StopPhase::Failed(e) => StopPhase::Failed(e),
        };
        StopRun { phase, was_running, was_registered }
    }
}

/// How far an update of the package is.
#[derive(Debug)]
pub enum UpdatePhase<S> {
    SetStopped,
    /// The service is stopped; whether that succeeds does not matter.
    Stop,
    /// The archive is deployed over the package.
    Deploy,
    /// That failed for the reason; the service may start again.
    ClearAfter(S),
    Clear { needs_restart: bool },
    /// The service is started again.
    Start { needs_restart: bool },
    /// That failed for the reason; the service is to stay stopped.
    SetAfter(S),
    Updated { needs_restart: bool },
    Failed(S),
}

/// What is to be done next in an update.
#[derive(Debug)]
pub enum UpdateAct<S> {
    WriteMarker { stopped: bool },
    StopService,
    /// Deploy the archive over the package. Answer: whether the launcher itself was replaced.
    DeployZip,
    StartService,
    /// Whether the launcher must be restarted.
    Finish(Result<bool, S>),
}

pub open spec fn update_view(p: UpdatePhase<String>) -> UpdatePhase<Seq<char>> {
    match p {
        UpdatePhase::SetStopped => UpdatePhase::SetStopped,
        UpdatePhase::Stop => UpdatePhase::Stop,
        UpdatePhase::Deploy => UpdatePhase::Deploy,
        UpdatePhase::ClearAfter(e) => UpdatePhase::ClearAfter(e@),
        UpdatePhase::Clear { needs_restart } => UpdatePhase::Clear { needs_restart },
        UpdatePhase::Start { needs_restart } => UpdatePhase::Start { needs_restart },
        UpdatePhase::SetAfter(e) => UpdatePhase::SetAfter(e@),
        UpdatePhase::Updated { needs_restart } => UpdatePhase::Updated { needs_restart },
        UpdatePhase::Failed(e) => UpdatePhase::Failed(e@),
    }
}

pub open spec fn update_act_view(a: UpdateAct<String>) -> UpdateAct<Seq<char>> {
    match a {
        UpdateAct::WriteMarker { stopped } => UpdateAct::WriteMarker { stopped },
        UpdateAct::StopService => UpdateAct::StopService,
        UpdateAct::DeployZip => UpdateAct::DeployZip,
        UpdateAct::StartService => UpdateAct::StartService,
        UpdateAct::Finish(Ok(b)) => UpdateAct::Finish(Ok(b)),
        UpdateAct::Finish(Err(e)) => UpdateAct::Finish(Err(e@)),
    }
}

/// What follows in an update.
pub open spec fn next_update(phase: UpdatePhase<Seq<char>>, reply: ReplyView) -> UpdatePhase<
    Seq<char>,
> {
    match phase {
        UpdatePhase::SetStopped => UpdatePhase::Stop,
        UpdatePhase::Stop => UpdatePhase::Deploy,
        UpdatePhase::Deploy => match reply.error {
            Some(e) => UpdatePhase::ClearAfter("文件替换失败: "@ + e),
            None => UpdatePhase::Clear { needs_restart: reply.yes },
        },
        UpdatePhase::ClearAfter(e) => UpdatePhase::Failed(e),
        UpdatePhase::Clear { needs_restart } => UpdatePhase::Start { needs_restart },
        UpdatePhase::Start { needs_restart } => match reply.error {
            Some(e) => UpdatePhase::SetAfter(
                "文件已更新，但服务启动失败："@ + e + "（请手动点击启动服务）"@,
            ),
            None => UpdatePhase::Updated { needs_restart },
        },
        UpdatePhase::SetAfter(e) => UpdatePhase::Failed(e),
        UpdatePhase::Updated { needs_restart } => UpdatePhase::Updated { needs_restart },
        UpdatePhase::Failed(e) => UpdatePhase::Failed(e),
    }
}

pub open spec fn update_act(phase: UpdatePhase<Seq<char>>) -> UpdateAct<Seq<char>> {
    match phase {
        UpdatePhase::SetStopped => UpdateAct::WriteMarker { stopped: true },
        UpdatePhase::Stop => UpdateAct::StopService,
        UpdatePhase::Deploy => UpdateAct::DeployZip,
        UpdatePhase::ClearAfter(_) => UpdateAct::WriteMarker { stopped: false },
        UpdatePhase::Clear { .. } => UpdateAct::WriteMarker { stopped: false },
        UpdatePhase::Start { .. } => UpdateAct::StartService,
        UpdatePhase::SetAfter(_) => UpdateAct::WriteMarker { stopped: true },
        UpdatePhase::Updated { needs_restart } => UpdateAct::Finish(Ok(needs_restart)),
        UpdatePhase::Failed(e) => UpdateAct::Finish(Err(e)),
    }
}

/// An update of the package.
#[derive(Debug)]
pub struct UpdateRun {
    pub phase: UpdatePhase<String>,
}

impl UpdateRun {
    /// What is to be done next.
    pub fn action(&self) -> (r: UpdateAct<String>)
        ensures
            update_act_view(r) == update_act(update_view(self.phase)),
    {
        match &self.phase {
            UpdatePhase::SetStopped => UpdateAct::WriteMarker { stopped: true },
            UpdatePhase::Stop => UpdateAct::StopService,
            UpdatePhase::Deploy => UpdateAct::DeployZip,
            UpdatePhase::ClearAfter(_) => UpdateAct::WriteMarker { stopped: false },
            UpdatePhase::Clear { .. } => UpdateAct::WriteMarker { stopped: false },
            UpdatePhase::Start { .. } => UpdateAct::StartService,
            UpdatePhase::SetAfter(_) => UpdateAct::WriteMarker { stopped: true },
            UpdatePhase::Updated { needs_restart } => UpdateAct::Finish(Ok(*needs_restart)),
            UpdatePhase::Failed(e) => UpdateAct::Finish(Err(e.clone())),
        }
    }

    /// Takes note of the reply to the last action.
    pub fn step(self, reply: Reply) -> (r: UpdateRun)
        ensures
            update_view(r.phase) == next_update(update_view(self.phase), reply.deep_view()),
    {
        let phase = match self.phase {
            UpdatePhase::SetStopped => UpdatePhase::Stop,
            UpdatePhase::Stop => UpdatePhase::Deploy,
            UpdatePhase::Deploy => match reply.error {
                Some(e) => UpdatePhase::ClearAfter(text::cat2("文件替换失败: ", e.as_str())),
                None => UpdatePhase::Clear { needs_restart: reply.yes },
            },
            UpdatePhase::ClearAfter(e) => UpdatePhase::Failed(e),
            UpdatePhase::Clear { needs_restart } => UpdatePhase::Start { needs_restart },
            UpdatePhase::Start { needs_restart } => match reply.error {
                Some(e) => UpdatePhase::SetAfter(
                    text::cat3(
                        "文件已更新，但服务启动失败：",
                        e.as_str(),
                        "（请手动点击启动服务）",
                    ),
                ),
                None => UpdatePhase::Updated { needs_restart },
            },
            UpdatePhase::SetAfter(e) => UpdatePhase::Failed(e),
            UpdatePhase::Updated { needs_restart } => UpdatePhase::Updated { needs_restart },
            UpdatePhase::Failed(e) => UpdatePhase::Failed(e),
        };
        UpdateRun { phase }
    }
}

/// What a marker holds.
pub open spec fn marker_content(stopped: bool) -> Seq<char> {
    if stopped {
        MARKER_TEXT@ + STOPPED_TEXT@
    } else {
        MARKER_TEXT@
    }
}

/// The marker that is written: the one under the present name. One under the former name is only
/// ever read.
pub open spec fn marker(cfg: PortableConfig) -> Seq<char> {
    path::joined_path(cfg.root_dir@, variant::PORTABLE_MARKER_NAME@)
}

/// A file and what is written to it.
#[derive(Debug)]
pub struct FileText {
    pub path: String,
    pub content: String,
}

/// A step in making the directories and the marker of a package. One that fails ends the rest.
#[derive(Debug)]
pub enum LayoutStep<S> {
    MakeDir(S),
    /// Write the plain marker text to the file.
    WriteMarker(S),
}

pub open spec fn layout_view(steps: Seq<LayoutStep<String>>) -> Seq<LayoutStep<Seq<char>>> {
    Seq::new(
        steps.len(),
        |i: int|
            match steps[i] {
                LayoutStep::MakeDir(d) => LayoutStep::MakeDir(d@),
                LayoutStep::WriteMarker(p) => LayoutStep::WriteMarker(p@),
            },
    )
}

pub open spec fn marker_if_missing(p: Seq<char>, files: Seq<Seq<char>>) -> Seq<
    LayoutStep<Seq<char>>,
> {
    if files.contains(p) {
        seq![]
    } else {
        seq![LayoutStep::WriteMarker(p)]
    }
}

/// The directories and the marker of a package; a marker that is there is left alone.
pub open spec fn layout_steps(cfg: PortableConfig, files: Seq<Seq<char>>) -> Seq<
    LayoutStep<Seq<char>>,
> {
    seq![
        LayoutStep::MakeDir(cfg.userdata_dir@),
        LayoutStep::MakeDir(path::joined_path(cfg.userdata_dir@, "logs"@)),
        LayoutStep::MakeDir(path::joined_path(cfg.userdata_dir@, "cache"@)),
        LayoutStep::MakeDir(path::joined_path(cfg.userdata_dir@, "themes"@)),
    ] + marker_if_missing(marker(cfg), files)
}

/// The program that starts with the session: a value of the run key, or its removal.
#[derive(Debug)]
pub enum Autostart<S> {
    Write { value: S, data: S },
    Delete { value: S },
}

/// A program and the directory that it is started in.
#[derive(Debug)]
pub struct Launch {
    pub exe: String,
    pub dir: String,
}

/// A package, and the build that it is of.
pub struct ServiceManager {
    pub cfg: PortableConfig,
    pub variant: Variant,
}

impl ServiceManager {
    pub fn new(cfg: PortableConfig, variant: Variant) -> (r: ServiceManager)
        ensures
            r.cfg == cfg,
            r.variant == variant,
    {
        ServiceManager { cfg, variant }
    }

    /// Whether the service runs, given what came of asking for its state.
    pub fn service_running(&self, x: Exchange) -> (r: bool)
        ensures
            r == rpc::succeeded(x),
    {
        rpc::is_running(&self.variant, x)
    }

    /// Whether this package holds the registration.
    pub fn is_registered(&self, m: &Readings) -> (r: bool)
        ensures
            r == registration::holds_registration(self.cfg, self.variant, *m),
    {
        registration::is_registered(&self.cfg, &self.variant, m)
    }

    /// Why portable mode is not available, in words; nothing where it is.
    pub fn installed_conflict(&self, m: &Readings, service_running: bool) -> (r: Option<String>)
        ensures
            r.deep_view() == match registration::conflict_of(
                self.cfg,
                self.variant,
                *m,
                service_running,
            ) {
                Some(c) => Some(c.text()),
                None => None,
            },
    {
        registration::installed_conflict(&self.cfg, &self.variant, m, service_running)
    }

    /// The place of the conflict, to be shown.
    pub fn installed_conflict_path(&self, m: &Readings) -> (r: Option<String>)
        ensures
            r.deep_view() == registration::conflict_place(self.cfg, *m),
    {
        registration::installed_conflict_path(&self.cfg, m)
    }

    /// Begins to start the service.
    pub fn start_service(&self) -> (r: StartRun)
        ensures
            start_view(r.phase) == StartPhase::<Seq<char>>::Probe,
    {
        StartRun { phase: StartPhase::Probe }
    }

    /// Begins to stop the service.
    pub fn stop_service(&self) -> (r: StopRun)
        ensures
            r.spec_view() == (StopView {
                phase: StopPhase::Probe,
                was_running: false,
                was_registered: false,
            }),
    {
        StopRun { phase: StopPhase::Probe, was_running: false, was_registered: false }
    }

    /// Begins to update the package.
    pub fn update_from_zip(&self) -> (r: UpdateRun)
        ensures
            update_view(r.phase) == UpdatePhase::<Seq<char>>::SetStopped,
    {
        UpdateRun { phase: UpdatePhase::SetStopped }
    }

    /// Plans the copy of the package to another directory. `files` are the files of the package, as
    /// paths relative to its root; `real_root` and `real_target` are what the directories resolve
    /// to.
    pub fn deploy_to_directory(
        &self,
        real_root: Option<&str>,
        target: &str,
        real_target: Option<&str>,
        files: &Vec<String>,
    ) -> (r: Result<Vec<CopyItem>, CopyFault>)
        ensures
            ({
                let same = deploy::dir_key(self.cfg.root_dir@, variant::opt_view(real_root))
                    == deploy::dir_key(target@, variant::opt_view(real_target));
                match r {
                    Ok(items) => !same && items.deep_view() == deploy::copies(
                        self.cfg.root_dir@,
                        target@,
                        files.deep_view(),
                    ),
                    Err(CopyFault::SameDirectory) => same,
                    Err(_) => false,
                }
            }),
    {
        deploy::deploy_from_directory(
            self.cfg.root_dir.as_str(),
            real_root,
            target,
            real_target,
            files,
        )
    }

    /// Plans the deployment of an archive into another directory. The package's own directory is
    /// refused: there the service must be stopped first.
    pub fn deploy_zip_to_directory(
        &self,
        data: Vec<u8>,
        real_root: Option<&str>,
        target: &str,
        real_target: Option<&str>,
        self_exe: Option<&str>,
    ) -> (r: Result<Deployment, ZipTarget>)
        ensures
            ({
                let same = deploy::dir_key(self.cfg.root_dir@, variant::opt_view(real_root))
                    == deploy::dir_key(target@, variant::opt_view(real_target));
                match r {
                    Ok(d) => {
                        &&& !same
                        &&& crate::archive::zip_opens(data@)
                        &&& d.package.bytes() == data@
                        &&& d.listing.lists(data@)
                        &&& deploy::top_of(d.listing.entries.deep_view()) is Flat
                            || deploy::all_readable(data@)
                        &&& d.plan.is_for(d.listing, target@, variant::opt_view(self_exe))
                    },
                    Err(ZipTarget::Current) => same,
                    Err(ZipTarget::Unusable(Fault::Unreadable(e))) => !same
                        && crate::archive::zip_open_fault(data@) == Some(e@),
                    Err(ZipTarget::Unusable(Fault::BadEntry(e))) => !same
                        && crate::archive::zip_opens(data@) && deploy::fails_for(data@, e@)
                        && exists|l: Listing| #[trigger]
                        l.lists(data@) && !(deploy::top_of(l.entries.deep_view()) is Flat),
                    Err(_) => false,
                }
            }),
    {
        if deploy::same_dir(self.cfg.root_dir.as_str(), real_root, target, real_target) {
            return Err(ZipTarget::Current);
        }
        match deploy::deploy_from_zip(data, target, self_exe) {
            Ok(d) => Ok(d),
            Err(e) => Err(ZipTarget::Unusable(e)),
        }
    }

    /// The marker that keeps the service stopped.
    pub fn set_stopped_flag(&self) -> (r: FileText)
        ensures
            r.path@ == marker(self.cfg),
            r.content@ == marker_content(true),
    {
        self.write_marker(true)
    }

    /// The marker that lets the service start.
    pub fn clear_stopped_flag(&self) -> (r: FileText)
        ensures
            r.path@ == marker(self.cfg),
            r.content@ == marker_content(false),
    {
        self.write_marker(false)
    }

    fn marker_path(&self) -> (r: String)
        ensures
            r@ == marker(self.cfg),
    {
        path::join(self.cfg.root_dir.as_str(), variant::PORTABLE_MARKER_NAME)
    }

    fn write_marker(&self, stopped: bool) -> (r: FileText)
        ensures
            r.path@ == marker(self.cfg),
            r.content@ == marker_content(stopped),
    {
        let content = if stopped {
            text::cat2(MARKER_TEXT, STOPPED_TEXT)
        } else {
            String::from_str(MARKER_TEXT)
        };
        FileText { path: self.marker_path(), content }
    }

    /// The directories and the marker to make, given whether the marker exists.
    pub fn ensure_portable_layout(&self, files: &Vec<String>) -> (r: Vec<LayoutStep<String>>)
        ensures
            layout_view(r@) == layout_steps(self.cfg, files.deep_view()),
    {
        let data = self.cfg.userdata_dir.as_str();
        let present = self.marker_path();
        let mut r: Vec<LayoutStep<String>> = Vec::new();
        r.push(LayoutStep::MakeDir(self.cfg.userdata_dir.clone()));
        r.push(LayoutStep::MakeDir(path::join(data, "logs")));
        r.push(LayoutStep::MakeDir(path::join(data, "cache")));
        r.push(LayoutStep::MakeDir(path::join(data, "themes")));
        if !text::contains_text(files, present.as_str()) {
            r.push(LayoutStep::WriteMarker(present));
        }
        assert(layout_view(r@) =~= layout_steps(self.cfg, files.deep_view()));
        r
    }

    /// The files that [`ServiceManager::ensure_portable_layout`] depends on.
    pub fn layout_probes(&self) -> (r: Vec<String>)
        ensures
            r.deep_view() == seq![marker(self.cfg)],
    {
        let mut r: Vec<String> = Vec::new();
        r.push(self.marker_path());
        assert(r.deep_view() =~= seq![marker(self.cfg)]);
        r
    }

    /// How the service is made to start with the session, or no longer.
    pub fn set_autostart(&self, enable: bool) -> (r: Autostart<String>)
        ensures
            match r {
                Autostart::Write { value, data } => enable && value@ == self.variant.app_name@ && data@
                    == "\""@ + self.cfg.service_exe@ + "\""@,
                Autostart::Delete { value } => !enable && value@ == self.variant.app_name@,
            },
    {
        let value = String::from_str(self.variant.app_name);
        if enable {
            Autostart::Write {
                value,
                data: text::cat3("\"", self.cfg.service_exe.as_str(), "\""),
            }
        } else {
            Autostart::Delete { value }
        }
    }

    /// How the settings program is started; `exists` tells whether it is there.
    pub fn open_settings(&self, exists: bool) -> (r: Result<Launch, String>)
        ensures
            match r {
                Ok(l) => exists && l.exe@ == self.cfg.setting_exe@ && l.dir@
                    == match path::parent_of(self.cfg.setting_exe@) {
                    Some(dir) => dir,
                    None => "."@,
                },
                Err(e) => !exists && e@ == "未找到设置程序: "@ + self.cfg.setting_exe@,
            },
    {
        if !exists {
            return Err(text::cat2("未找到设置程序: ", self.cfg.setting_exe.as_str()));
        }
        let dir = match path::parent(self.cfg.setting_exe.as_str()) {
            Some(dir) => dir,
            None => String::from_str("."),
        };
        Ok(Launch { exe: self.cfg.setting_exe.clone(), dir })
    }

    /// Whether the data directory was opened, given the code that the shell returned.
    pub fn open_userdata_dir(&self, code: isize) -> (r: Result<(), String>)
        ensures
            match r {
                Ok(_) => code > 32,
                Err(e) => code <= 32 && e@ == "打开目录失败: "@ + self.cfg.userdata_dir@,
            },
    {
        if code > 32 {
            Ok(())
        } else {
            Err(text::cat2("打开目录失败: ", self.cfg.userdata_dir.as_str()))
        }
    }
}

/// Why an archive is not deployed into a directory.
#[derive(Debug)]
pub enum ZipTarget {
    /// The directory is the package's own.
    Current,
    Unusable(Fault),
}

impl ZipTarget {
    pub open spec fn text(self) -> Seq<char> {
        match self {
            ZipTarget::Current => "目标是当前目录；原地更新请改用『更新』按钮"@,
            ZipTarget::Unusable(f) => f.text(),
        }
    }

    pub fn message(&self) -> (r: String)
        ensures
            r@ == self.text(),
    {
        match self {
            ZipTarget::Current => String::from_str("目标是当前目录；原地更新请改用『更新』按钮"),
            ZipTarget::Unusable(f) => f.message(),
        }
    }
}

/// Why a step in making the package's directories and marker failed, in words.
pub fn layout_error(step: &LayoutStep<String>, error: &str) -> (r: String)
    ensures
        r@ == match *step {
            LayoutStep::MakeDir(d) => "创建目录失败 "@ + d@ + ": "@ + error@,
            LayoutStep::WriteMarker(_) => "写便携标记失败: "@ + error@,
        },
{
    match step {
        LayoutStep::MakeDir(d) => text::cat4("创建目录失败 ", d.as_str(), ": ", error),
        LayoutStep::WriteMarker(_) => text::cat2("写便携标记失败: ", error),
    }
}

/// Why the settings program did not start, in words.
pub fn settings_error(error: &str) -> (r: String)
    ensures
        r@ == "打开设置失败: "@ + error@,
{
    text::cat2("打开设置失败: ", error)
}

pub open spec fn tries_left(n: u32) -> nat {
    if n < TRIES {
        (TRIES - n) as nat
    } else {
        0
    }
}

/// How many actions a start takes at most from here.
pub open spec fn start_left(phase: StartPhase<Seq<char>>) -> nat {
    match phase {
        StartPhase::Probe => 27,
        StartPhase::Conflict { .. } => 26,
        StartPhase::ProbeAgain => 25,
        StartPhase::FindOwn => 24,
        StartPhase::Shutdown => 23,
        StartPhase::Wait(n) => 10 + 2 * tries_left(n),
        StartPhase::Recheck(n) => 9 + 2 * tries_left(n),
        StartPhase::Terminate(_) => 8,
        StartPhase::Layout => 7,
        StartPhase::ClearStopped => 6,
        StartPhase::AskRegistered => 5,
        StartPhase::Register => 4,
        StartPhase::Autostart => 3,
        StartPhase::CheckExe => 2,
        StartPhase::Launch(_) => 1,
        _ => 0,
    }
}

/// A start of the service ends, whatever the replies are.
pub proof fn start_ends(cfg: PortableConfig, phase: StartPhase<Seq<char>>, reply: ReplyView)
    ensures
        start_left(phase) > 0 ==> start_left(next_start(cfg, phase, reply)) < start_left(phase),
        start_left(phase) == 0 <==> start_act(cfg, phase) is Finish,
{
}

/// How many actions a stop takes at most from here.
pub open spec fn stop_left(phase: StopPhase<Seq<char>>) -> nat {
    match phase {
        StopPhase::Probe => 38,
        StopPhase::Conflict { .. } => 37,
        StopPhase::SetStopped => 36,
        StopPhase::AskRunning => 35,
        StopPhase::AskRegistered => 34,
        StopPhase::FindProcess => 33,
        StopPhase::Shutdown => 32,
        StopPhase::Wait(n) => 19 + 2 * tries_left(n),
        StopPhase::Recheck(n) => 18 + 2 * tries_left(n),
        StopPhase::TerminatePath => 17,
        StopPhase::TerminateName(_) => 16,
        StopPhase::Verify(n) => 3 + 2 * tries_left(n),
        StopPhase::Pause(n) => if n < TRIES {
            2 + 2 * tries_left(n)
        } else {
            3
        },
        StopPhase::AutostartOff => 2,
        StopPhase::Unregister => 1,
        _ => 0,
    }
}

/// Whether a count of tries is one that a stop reaches.
pub open spec fn stop_counts(phase: StopPhase<Seq<char>>) -> bool {
    match phase {
        StopPhase::Wait(n) | StopPhase::Recheck(n) | StopPhase::Verify(n) | StopPhase::Pause(n) => n
            < TRIES,
        _ => true,
    }
}

/// A stop of the service ends, whatever the replies are.
pub proof fn stop_ends(cfg: PortableConfig, s: StopView, reply: ReplyView)
    requires
        stop_counts(s.phase),
    ensures
        stop_counts(next_stop(cfg, s, reply).phase),
        stop_left(s.phase) > 0 ==> stop_left(next_stop(cfg, s, reply).phase) < stop_left(s.phase),
        stop_left(s.phase) == 0 <==> stop_act(cfg, s) is Finish,
{
}

/// Where a start stands after the replies.
pub open spec fn start_after(cfg: PortableConfig, replies: Seq<ReplyView>) -> StartPhase<Seq<char>>
    decreases replies.len(),
{
    if replies.len() == 0 {
        StartPhase::Probe
    } else {
        next_start(cfg, start_after(cfg, replies.drop_last()), replies.last())
    }
}

/// The `k`-th action of a start.
pub open spec fn start_did(cfg: PortableConfig, replies: Seq<ReplyView>, k: int) -> Act<Seq<char>> {
    start_act(cfg, start_after(cfg, replies.take(k)))
}

/// It was asked what stands against portable mode, and the answer was: nothing.
pub open spec fn found_no_conflict(cfg: PortableConfig, replies: Seq<ReplyView>) -> bool {
    exists|k: int|
        0 <= k < replies.len() && (#[trigger] start_did(cfg, replies, k)) is CheckConflict
            && replies[k].error is None
}

/// The directories and the marker were made.
pub open spec fn made_layout(cfg: PortableConfig, replies: Seq<ReplyView>) -> bool {
    exists|k: int|
        0 <= k < replies.len() && (#[trigger] start_did(cfg, replies, k)) is PrepareLayout
            && replies[k].error is None
}

/// The package holds the registration: it was found to, or it was registered.
pub open spec fn got_registered(cfg: PortableConfig, replies: Seq<ReplyView>) -> bool {
    exists|k: int|
        0 <= k < replies.len() && (((#[trigger] start_did(cfg, replies, k)) is CheckRegistered
            && replies[k].yes) || (start_did(cfg, replies, k) is Register && replies[k].error is None))
}

pub open spec fn set_autostart_on(cfg: PortableConfig, replies: Seq<ReplyView>) -> bool {
    exists|k: int|
        0 <= k < replies.len() && (#[trigger] start_did(cfg, replies, k)) == Act::<Seq<char>>::SetAutostart(
            true,
        )
}

/// The mark that keeps the service stopped was taken away.
pub open spec fn cleared_mark(cfg: PortableConfig, replies: Seq<ReplyView>) -> bool {
    exists|k: int|
        0 <= k < replies.len() && (#[trigger] start_did(cfg, replies, k)) == (Act::<
            Seq<char>,
        >::WriteMarker { stopped: false })
}

/// What has happened by the time a start has come to a phase.
pub open spec fn start_history(
    cfg: PortableConfig,
    replies: Seq<ReplyView>,
    phase: StartPhase<Seq<char>>,
) -> bool {
    match phase {
        StartPhase::Probe | StartPhase::Conflict { .. } | StartPhase::Failed(_) => true,
        StartPhase::ProbeAgain | StartPhase::FindOwn | StartPhase::Shutdown | StartPhase::Wait(_)
        | StartPhase::Recheck(_) | StartPhase::Terminate(_) | StartPhase::Layout
        | StartPhase::Started => found_no_conflict(cfg, replies),
        StartPhase::ClearStopped => found_no_conflict(cfg, replies) && made_layout(cfg, replies),
        StartPhase::AskRegistered | StartPhase::Register => found_no_conflict(cfg, replies)
            && made_layout(cfg, replies) && cleared_mark(cfg, replies),
        StartPhase::Autostart => found_no_conflict(cfg, replies) && made_layout(cfg, replies)
            && cleared_mark(cfg, replies) && got_registered(cfg, replies),
        StartPhase::CheckExe | StartPhase::Launch(_) => found_no_conflict(cfg, replies) && made_layout(
            cfg,
            replies,
        ) && cleared_mark(cfg, replies) && got_registered(cfg, replies) && set_autostart_on(
            cfg,
            replies,
        ),
    }
}

proof fn start_facts_stay(cfg: PortableConfig, replies: Seq<ReplyView>)
    requires
        replies.len() > 0,
    ensures
        found_no_conflict(cfg, replies.drop_last()) ==> found_no_conflict(cfg, replies),
        made_layout(cfg, replies.drop_last()) ==> made_layout(cfg, replies),
        cleared_mark(cfg, replies.drop_last()) ==> cleared_mark(cfg, replies),
        got_registered(cfg, replies.drop_last()) ==> got_registered(cfg, replies),
        set_autostart_on(cfg, replies.drop_last()) ==> set_autostart_on(cfg, replies),
{
    let rest = replies.drop_last();
    assert forall|k: int| 0 <= k < rest.len() implies #[trigger] start_did(cfg, rest, k) == start_did(
        cfg,
        replies,
        k,
    ) && rest[k] == replies[k] by {
        assert(rest.take(k) =~= replies.take(k));
    }
    if found_no_conflict(cfg, rest) {
        let k = choose|k: int|
            0 <= k < rest.len() && (#[trigger] start_did(cfg, rest, k)) is CheckConflict
                && rest[k].error is None;
        assert(start_did(cfg, replies, k) is CheckConflict);
    }
    if made_layout(cfg, rest) {
        let k = choose|k: int|
            0 <= k < rest.len() && (#[trigger] start_did(cfg, rest, k)) is PrepareLayout
                && rest[k].error is None;
        assert(start_did(cfg, replies, k) is PrepareLayout);
    }
    if cleared_mark(cfg, rest) {
        let k = choose|k: int|
            0 <= k < rest.len() && (#[trigger] start_did(cfg, rest, k)) == (Act::<
                Seq<char>,
            >::WriteMarker { stopped: false });
        assert(start_did(cfg, replies, k) == start_did(cfg, rest, k));
    }
    if got_registered(cfg, rest) {
        let k = choose|k: int|
            0 <= k < rest.len() && (((#[trigger] start_did(cfg, rest, k)) is CheckRegistered
                && rest[k].yes) || (start_did(cfg, rest, k) is Register && rest[k].error is None));
        assert(start_did(cfg, replies, k) == start_did(cfg, rest, k));
    }
    if set_autostart_on(cfg, rest) {
        let k = choose|k: int|
            0 <= k < rest.len() && (#[trigger] start_did(cfg, rest, k)) == Act::<
                Seq<char>,
            >::SetAutostart(true);
        assert(start_did(cfg, replies, k) == start_did(cfg, rest, k));
    }
}

proof fn start_history_holds(cfg: PortableConfig, replies: Seq<ReplyView>)
    ensures
        start_history(cfg, replies, start_after(cfg, replies)),
    decreases replies.len(),
{
    if replies.len() > 0 {
        let rest = replies.drop_last();
        start_history_holds(cfg, rest);
        start_facts_stay(cfg, replies);
        let k = rest.len() as int;
        assert(replies.take(k) =~= rest);
        assert(start_did(cfg, replies, k) == start_act(cfg, start_after(cfg, rest)));
        assert(replies[k] == replies.last());
    }
}

/// The service is started only when nothing stands against portable mode, its directories and its
/// marker are made, the mark that keeps it stopped was taken away, the package holds the
/// registration, and the service was set to start with the session.
pub proof fn launch_is_guarded(cfg: PortableConfig, replies: Seq<ReplyView>)
    requires
        start_act(cfg, start_after(cfg, replies)) is Launch,
    ensures
        found_no_conflict(cfg, replies),
        made_layout(cfg, replies),
        cleared_mark(cfg, replies),
        got_registered(cfg, replies),
        set_autostart_on(cfg, replies),
{
    start_history_holds(cfg, replies);
}

/// A package whose layout was made carries a portable marker; one that carries the marker gets none
/// anew.
pub proof fn layout_marks_package(cfg: PortableConfig, files: Seq<Seq<char>>)
    ensures
        layout_steps(cfg, files).contains(LayoutStep::WriteMarker(marker(cfg))) || files.contains(
            marker(cfg),
        ),
        variant::marked_portable(cfg.root_dir@, files.push(marker(cfg))),
        files.contains(marker(cfg)) ==> layout_steps(cfg, files).len() == 4,
{
    let steps = layout_steps(cfg, files);
    let all = files.push(marker(cfg));
    assert(all[files.len() as int] == marker(cfg));
    if !files.contains(marker(cfg)) {
        assert(steps[4] == LayoutStep::WriteMarker(marker(cfg)));
    }
}

/// A conflict changes nothing: the start ends with it, after questions alone.
pub proof fn conflict_stops_start(cfg: PortableConfig, running: bool, reason: Seq<char>, yes: bool)
    ensures
        start_after(cfg, seq![
            ReplyView { yes: running, error: None },
            ReplyView { yes, error: Some(reason) },
        ]) == StartPhase::Failed("启动服务"@ + "失败："@ + reason),
{
    let first = seq![ReplyView { yes: running, error: None }];
    let both = seq![
        ReplyView { yes: running, error: None },
        ReplyView { yes, error: Some(reason) },
    ];
    assert(both.drop_last() =~= first);
    assert(first.drop_last() =~= seq![]);
    assert(start_after(cfg, seq![]) == StartPhase::<Seq<char>>::Probe);
    assert(start_after(cfg, first) == StartPhase::<Seq<char>>::Conflict { running });
}

/// Where a stop stands after the replies.
pub open spec fn stop_after(cfg: PortableConfig, replies: Seq<ReplyView>) -> StopView
    decreases replies.len(),
{
    if replies.len() == 0 {
        StopView { phase: StopPhase::Probe, was_running: false, was_registered: false }
    } else {
        next_stop(cfg, stop_after(cfg, replies.drop_last()), replies.last())
    }
}

/// The `k`-th action of a stop.
pub open spec fn stop_did(cfg: PortableConfig, replies: Seq<ReplyView>, k: int) -> Act<Seq<char>> {
    stop_act(cfg, stop_after(cfg, replies.take(k)))
}

/// An action was taken in the course of a stop.
pub open spec fn stop_has_done(
    cfg: PortableConfig,
    replies: Seq<ReplyView>,
    act: Act<Seq<char>>,
) -> bool {
    exists|k: int| 0 <= k < replies.len() && (#[trigger] stop_did(cfg, replies, k)) == act
}

/// The registration was undone in the course of a stop.
pub open spec fn stop_unregistered(cfg: PortableConfig, replies: Seq<ReplyView>) -> bool {
    exists|k: int|
        0 <= k < replies.len() && (#[trigger] stop_did(cfg, replies, k)) is Unregister
            && replies[k].error is None
}

/// What has happened by the time a stop has come to a phase.
pub open spec fn stop_history(cfg: PortableConfig, replies: Seq<ReplyView>, s: StopView) -> bool {
    let marked = stop_has_done(cfg, replies, Act::WriteMarker { stopped: true });
    let off = stop_has_done(cfg, replies, Act::SetAutostart(false));
    match s.phase {
        StopPhase::Probe | StopPhase::Conflict { .. } | StopPhase::SetStopped => true,
        StopPhase::Failed(_) => true,
        StopPhase::Unregister => marked && off && s.was_registered,
        StopPhase::Stopped => marked && off && (s.was_registered ==> stop_unregistered(cfg, replies)),
        _ => marked,
    }
}

proof fn stop_facts_stay(cfg: PortableConfig, replies: Seq<ReplyView>, act: Act<Seq<char>>)
    requires
        replies.len() > 0,
    ensures
        stop_has_done(cfg, replies.drop_last(), act) ==> stop_has_done(cfg, replies, act),
        stop_unregistered(cfg, replies.drop_last()) ==> stop_unregistered(cfg, replies),
{
    let rest = replies.drop_last();
    assert forall|k: int| 0 <= k < rest.len() implies #[trigger] stop_did(cfg, rest, k) == stop_did(
        cfg,
        replies,
        k,
    ) && rest[k] == replies[k] by {
        assert(rest.take(k) =~= replies.take(k));
    }
    if stop_has_done(cfg, rest, act) {
        let k = choose|k: int| 0 <= k < rest.len() && (#[trigger] stop_did(cfg, rest, k)) == act;
        assert(stop_did(cfg, replies, k) == act);
    }
    if stop_unregistered(cfg, rest) {
        let k = choose|k: int|
            0 <= k < rest.len() && (#[trigger] stop_did(cfg, rest, k)) is Unregister
                && rest[k].error is None;
        assert(stop_did(cfg, replies, k) is Unregister);
    }
}

proof fn stop_history_holds(cfg: PortableConfig, replies: Seq<ReplyView>)
    ensures
        stop_history(cfg, replies, stop_after(cfg, replies)),
    decreases replies.len(),
{
    if replies.len() > 0 {
        let rest = replies.drop_last();
        stop_history_holds(cfg, rest);
        stop_facts_stay(cfg, replies, Act::WriteMarker { stopped: true });
        stop_facts_stay(cfg, replies, Act::SetAutostart(false));
        let k = rest.len() as int;
        assert(replies.take(k) =~= rest);
        assert(stop_did(cfg, replies, k) == stop_act(cfg, stop_after(cfg, rest)));
        assert(replies[k] == replies.last());
    }
}

/// A stop that succeeds has marked the package as stopped, has taken the service off the session's
/// start, and has undone the registration if the package held it; its answer is whether the
/// service ran or was registered.
pub proof fn stop_cleans_up(cfg: PortableConfig, replies: Seq<ReplyView>)
    requires
        stop_after(cfg, replies).phase is Stopped,
    ensures
        stop_has_done(cfg, replies, Act::WriteMarker { stopped: true }),
        stop_has_done(cfg, replies, Act::SetAutostart(false)),
        stop_after(cfg, replies).was_registered ==> stop_unregistered(cfg, replies),
        stop_act(cfg, stop_after(cfg, replies)) == Act::<Seq<char>>::Finish(
            Ok(stop_after(cfg, replies).was_running || stop_after(cfg, replies).was_registered),
        ),
{
    stop_history_holds(cfg, replies);
}

/// No process is asked to end or terminated before the package is marked as stopped.
pub proof fn marker_comes_before_end(cfg: PortableConfig, replies: Seq<ReplyView>)
    requires
        match stop_act(cfg, stop_after(cfg, replies)) {
            Act::RequestShutdown => true,
            Act::TerminatePath(_) => true,
            Act::TerminateName(_) => true,
            _ => false,
        },
    ensures
        stop_has_done(cfg, replies, Act::WriteMarker { stopped: true }),
{
    stop_history_holds(cfg, replies);
}

/// Where an update stands after the replies.
pub open spec fn update_after(replies: Seq<ReplyView>) -> UpdatePhase<Seq<char>>
    decreases replies.len(),
{
    if replies.len() == 0 {
        UpdatePhase::SetStopped
    } else {
        next_update(update_after(replies.drop_last()), replies.last())
    }
}

/// Whether the last marker that an update wrote keeps the service stopped.
pub open spec fn left_stopped(replies: Seq<ReplyView>) -> Option<bool>
    decreases replies.len(),
{
    if replies.len() == 0 {
        None
    } else {
        match update_act(update_after(replies.drop_last())) {
            UpdateAct::WriteMarker { stopped } => Some(stopped),
            _ => left_stopped(replies.drop_last()),
        }
    }
}

/// Whether the files of the package were replaced in the course of an update.
pub open spec fn files_replaced(replies: Seq<ReplyView>) -> bool
    decreases replies.len(),
{
    replies.len() > 0 && (files_replaced(replies.drop_last()) || (update_act(
        update_after(replies.drop_last()),
    ) is DeployZip && replies.last().error is None))
}

/// An update writes over the package only after it was marked as stopped and the service was asked
/// to stop. If the files could not be replaced, or the service started again, the mark is gone in
/// the end; if the files were replaced and the service did not start, the mark is there.
pub proof fn update_leaves_right_mark(replies: Seq<ReplyView>)
    ensures
        match update_after(replies) {
            UpdatePhase::SetStopped => !files_replaced(replies),
            UpdatePhase::Stop | UpdatePhase::Deploy => left_stopped(replies) == Some(true)
                && !files_replaced(replies),
            UpdatePhase::ClearAfter(_) => !files_replaced(replies),
            UpdatePhase::Clear { .. } => files_replaced(replies),
            UpdatePhase::Start { .. } | UpdatePhase::Updated { .. } => left_stopped(replies) == Some(
                false,
            ) && files_replaced(replies),
            UpdatePhase::SetAfter(_) => files_replaced(replies),
            UpdatePhase::Failed(_) => left_stopped(replies) == Some(files_replaced(replies)),
        },
    decreases replies.len(),
{
    if replies.len() > 0 {
        update_leaves_right_mark(replies.drop_last());
    }
}

/// How many actions an update takes at most from here.
pub open spec fn update_left(phase: UpdatePhase<Seq<char>>) -> nat {
    match phase {
        UpdatePhase::SetStopped => 6,
        UpdatePhase::Stop => 5,
        UpdatePhase::Deploy => 4,
        UpdatePhase::Clear { .. } => 3,
        UpdatePhase::Start { .. } => 2,
        UpdatePhase::ClearAfter(_) => 1,
        UpdatePhase::SetAfter(_) => 1,
        _ => 0,
    }
}

/// An update ends, whatever the replies are.
pub proof fn update_ends(phase: UpdatePhase<Seq<char>>, reply: ReplyView)
    ensures
        update_left(phase) > 0 ==> update_left(next_update(phase, reply)) < update_left(phase),
        update_left(phase) == 0 <==> update_act(phase) is Finish,
{
}

/// What is made for a package: its data directory, the three directories in it, and the marker under
/// its present name where that is not there; the data directory comes first.
pub proof fn layout_makes_directories(cfg: PortableConfig, files: Seq<Seq<char>>)
    ensures
        ({
            let steps = layout_steps(cfg, files);
            let data = cfg.userdata_dir@;
            let mark = path::joined_path(cfg.root_dir@, "portable_mode"@);
            &&& steps.len() == if files.contains(mark) {
                4int
            } else {
                5
            }
            &&& steps[0] == LayoutStep::MakeDir(data)
            &&& steps.contains(LayoutStep::MakeDir(path::joined_path(data, "logs"@)))
            &&& steps.contains(LayoutStep::MakeDir(path::joined_path(data, "cache"@)))
            &&& steps.contains(LayoutStep::MakeDir(path::joined_path(data, "themes"@)))
            &&& steps.contains(LayoutStep::WriteMarker(mark)) == !files.contains(mark)
        }),
{
    let steps = layout_steps(cfg, files);
    let data = cfg.userdata_dir@;
    assert(steps[1] == LayoutStep::MakeDir(path::joined_path(data, "logs"@)));
    assert(steps[2] == LayoutStep::MakeDir(path::joined_path(data, "cache"@)));
    assert(steps[3] == LayoutStep::MakeDir(path::joined_path(data, "themes"@)));
    if !files.contains(marker(cfg)) {
        assert(steps[4] == LayoutStep::WriteMarker(marker(cfg)));
    }
}

/// The mark that keeps the service stopped is a line behind the usual marker, and taking it away
/// leaves the usual marker.
pub proof fn stopped_mark_is_a_line_more(cfg: PortableConfig)
    ensures
        marker(cfg) == path::joined_path(cfg.root_dir@, "portable_mode"@),
        marker_content(false) == "wind_portable=1\n"@,
        marker_content(true) == marker_content(false) + "stopped=1\n"@,
{
}

/// Why an archive is not deployed, in words: into the package's own directory it is not, and
/// otherwise the archive's own fault is told.
pub proof fn refused_target_is_named(f: Fault)
    ensures
        ZipTarget::Current.text() == "目标是当前目录；原地更新请改用『更新』按钮"@,
        ZipTarget::Unusable(f).text() == f.text(),
{
}

} // verus!
