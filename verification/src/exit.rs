//! Closing the launcher: into the tray, or for good.
//!
//! The title bar's button and the tray's "exit" arrive as the same request. Only the second means
//! to end the launcher while the service runs; and ending it asks first whether the service is to
//! stay.
use vstd::prelude::*;
use vstd::string::*;

use crate::dialog::Answer;
use crate::reply::{Reply, ReplyView};
use crate::text;

verus! {

pub const BUSY_TEXT: &'static str = "正在部署/更新，请等待完成后再退出。";

pub const ASK_TEXT: &'static str = "清风输入法仍处于已启用状态";

/// The choices of the question, each with its explanation.
pub const ASK_YES: (&'static str, &'static str) = ("停止服务并卸载", "移除开机自启与 TSF 注册");

pub const ASK_NO: (&'static str, &'static str) = ("仅关闭启动器", "输入法继续可用，稍后可再启动");

/// What is remembered between requests to close.
#[derive(Debug, Clone, Copy, PartialEq, Eq, Structural)]
pub struct ExitState {
    /// The launcher may end.
    pub allowed: bool,
    /// A question is being asked.
    pub asking: bool,
    /// The request comes from the tray's "exit".
    pub intent: bool,
}

/// What a request to close leads to.
#[derive(Debug, Clone, Copy, PartialEq, Eq, Structural)]
pub enum Close {
    /// The launcher ends.
    Exit,
    /// The window is hidden, and the launcher stays.
    Hide,
    /// It is found out whether the launcher may end; the request itself comes to nothing.
    Ask,
    /// Nothing: that is being found out already.
    Ignore,
}

impl Default for ExitState {
    fn default() -> (r: ExitState)
        ensures
            r == (ExitState { allowed: false, asking: false, intent: false }),
    {
        ExitState { allowed: false, asking: false, intent: false }
    }
}

/// What a request leads to that means to end the launcher.
pub open spec fn confirm_of(s: ExitState) -> Close {
    if s.allowed {
        Close::Exit
    } else if s.asking {
        Close::Ignore
    } else {
        Close::Ask
    }
}

/// What a request to close leads to.
pub open spec fn close_of(s: ExitState, conflict: bool, running: bool, has_package: bool) -> Close {
    if s.allowed {
        Close::Exit
    } else if s.intent {
        confirm_of(s)
    } else if conflict {
        Close::Exit
    } else if has_package && running {
        Close::Hide
    } else {
        confirm_of(s)
    }
}

impl ExitState {
    /// Takes the right to ask; not while another holds it.
    pub fn begin_ask(&mut self) -> (r: bool)
        ensures
            r == !old(self).asking,
            *final(self) == (ExitState { asking: true, ..*old(self) }),
    {
        let free = !self.asking;
        self.asking = true;
        free
    }

    /// Gives the right to ask back. A request that was not granted is forgotten: the next one may
    /// be the title bar's.
    pub fn end_ask(&mut self)
        ensures
            *final(self) == (ExitState { asking: false, intent: false, ..*old(self) }),
    {
        self.intent = false;
        self.asking = false;
    }

    /// Lets the launcher end.
    pub fn allow(&mut self)
        ensures
            *final(self) == (ExitState { allowed: true, ..*old(self) }),
    {
        self.allowed = true;
    }

    /// Takes note that the tray's "exit" was chosen.
    pub fn request_exit(&mut self)
        ensures
            *final(self) == (ExitState { intent: true, ..*old(self) }),
    {
        self.intent = true;
    }

    /// What a request leads to that means to end the launcher.
    pub fn confirm_exit(&mut self) -> (r: Close)
        ensures
            r == confirm_of(*old(self)),
            *final(self) == if r == Close::Ask {
                ExitState { asking: true, ..*old(self) }
            } else {
                *old(self)
            },
    {
        if self.allowed {
            return Close::Exit;
        }
        if !self.begin_ask() {
            return Close::Ignore;
        }
        Close::Ask
    }

    /// What a request to close leads to: whether there is a conflict, whether the service ran when
    /// it was last looked at, and whether there is a package.
    pub fn close_clicked(&mut self, conflict: bool, running: bool, has_package: bool) -> (r: Close)
        ensures
            r == close_of(*old(self), conflict, running, has_package),
            *final(self) == if r == Close::Ask {
                ExitState { asking: true, ..*old(self) }
            } else {
                *old(self)
            },
    {
        if self.allowed {
            return Close::Exit;
        }
        if self.intent {
            return self.confirm_exit();
        }
        if conflict {
            return Close::Exit;
        }
        if has_package && running {
            return Close::Hide;
        }
        self.confirm_exit()
    }
}

/// How far it is with finding out whether the launcher may end.
#[derive(Debug)]
pub enum ExitPhase<S> {
    /// The user is told why not.
    Refuse(S),
    AskRunning,
    AskRegistered,
    /// The user is asked whether the service is to stay.
    AskUser,
    /// The service is stopped and its registration undone.
    Stop,
    Allow,
    Done,
}

/// What is to be done next.
#[derive(Debug)]
pub enum ExitAct<S> {
    ShowError(S),
    /// Ask the service for its state. Answer: whether it runs.
    ProbeService,
    /// Answer: whether the package holds the registration.
    CheckRegistered,
    AskUser,
    /// Error: why not.
    StopService,
    Allow,
    /// Give back the right to ask.
    Finish,
}

pub open spec fn exit_view(p: ExitPhase<String>) -> ExitPhase<Seq<char>> {
    match p {
        ExitPhase::Refuse(e) => ExitPhase::Refuse(e@),
        ExitPhase::AskRunning => ExitPhase::AskRunning,
        ExitPhase::AskRegistered => ExitPhase::AskRegistered,
        ExitPhase::AskUser => ExitPhase::AskUser,
        ExitPhase::Stop => ExitPhase::Stop,
        ExitPhase::Allow => ExitPhase::Allow,
        ExitPhase::Done => ExitPhase::Done,
    }
}

pub open spec fn exit_act_view(a: ExitAct<String>) -> ExitAct<Seq<char>> {
    match a {
        ExitAct::ShowError(e) => ExitAct::ShowError(e@),
        ExitAct::ProbeService => ExitAct::ProbeService,
        ExitAct::CheckRegistered => ExitAct::CheckRegistered,
        ExitAct::AskUser => ExitAct::AskUser,
        ExitAct::StopService => ExitAct::StopService,
        ExitAct::Allow => ExitAct::Allow,
        ExitAct::Finish => ExitAct::Finish,
    }
}

pub open spec fn first_exit(busy: bool, conflict: bool, has_package: bool) -> ExitPhase<Seq<char>> {
    if busy {
        ExitPhase::Refuse(BUSY_TEXT@)
    } else if conflict || !has_package {
        ExitPhase::Allow
    } else {
        ExitPhase::AskRunning
    }
}

/// What follows; `answer` is the user's, where the user was asked.
pub open spec fn next_exit(phase: ExitPhase<Seq<char>>, reply: ReplyView, answer: Answer) -> ExitPhase<
    Seq<char>,
> {
    match phase {
        ExitPhase::Refuse(_) => ExitPhase::Done,
        ExitPhase::AskRunning => if reply.yes {
            ExitPhase::AskUser
        } else {
            ExitPhase::AskRegistered
        },
        ExitPhase::AskRegistered => if reply.yes {
            ExitPhase::AskUser
        } else {
            ExitPhase::Allow
        },
        ExitPhase::AskUser => match answer {
            Answer::Yes => ExitPhase::Stop,
            Answer::No => ExitPhase::Allow,
            Answer::Cancel => ExitPhase::Done,
        },
        ExitPhase::Stop => match reply.error {
            Some(e) => ExitPhase::Refuse("卸载失败："@ + e),
            None => ExitPhase::Allow,
        },
        ExitPhase::Allow => ExitPhase::Done,
        ExitPhase::Done => ExitPhase::Done,
    }
}

pub open spec fn exit_act(phase: ExitPhase<Seq<char>>) -> ExitAct<Seq<char>> {
    match phase {
        ExitPhase::Refuse(e) => ExitAct::ShowError(e),
        ExitPhase::AskRunning => ExitAct::ProbeService,
        ExitPhase::AskRegistered => ExitAct::CheckRegistered,
        ExitPhase::AskUser => ExitAct::AskUser,
        ExitPhase::Stop => ExitAct::StopService,
        ExitPhase::Allow => ExitAct::Allow,
        ExitPhase::Done => ExitAct::Finish,
    }
}

/// Finding out whether the launcher may end.
#[derive(Debug)]
pub struct ExitRun {
    pub phase: ExitPhase<String>,
}

impl ExitRun {
    /// Begins: whether an action is under way, whether there is a conflict, and whether there is a
    /// package.
    pub fn new(busy: bool, conflict: bool, has_package: bool) -> (r: ExitRun)
        ensures
            exit_view(r.phase) == first_exit(busy, conflict, has_package),
    {
        let phase = if busy {
            ExitPhase::Refuse(String::from_str(BUSY_TEXT))
        } else if conflict || !has_package {
            ExitPhase::Allow
        } else {
            ExitPhase::AskRunning
        };
        ExitRun { phase }
    }

    /// What is to be done next.
    pub fn action(&self) -> (r: ExitAct<String>)
        ensures
            exit_act_view(r) == exit_act(exit_view(self.phase)),
    {
        match &self.phase {
            ExitPhase::Refuse(e) => ExitAct::ShowError(e.clone()),
            ExitPhase::AskRunning => ExitAct::ProbeService,
            ExitPhase::AskRegistered => ExitAct::CheckRegistered,
            ExitPhase::AskUser => ExitAct::AskUser,
            ExitPhase::Stop => ExitAct::StopService,
            ExitPhase::Allow => ExitAct::Allow,
            ExitPhase::Done => ExitAct::Finish,
        }
    }

    /// Takes note of the reply to the last action.
    pub fn step(self, reply: Reply, answer: Answer) -> (r: ExitRun)
        ensures
            exit_view(r.phase) == next_exit(exit_view(self.phase), reply.deep_view(), answer),
    {
        let phase = match self.phase {
            ExitPhase::Refuse(_) => ExitPhase::Done,
            ExitPhase::AskRunning => if reply.yes {
                ExitPhase::AskUser
            } else {
                ExitPhase::AskRegistered
            },
            ExitPhase::AskRegistered => if reply.yes {
                ExitPhase::AskUser
            } else {
                ExitPhase::Allow
            },
            ExitPhase::AskUser => match answer {
                Answer::Yes => ExitPhase::Stop,
                Answer::No => ExitPhase::Allow,
                Answer::Cancel => ExitPhase::Done,
            },
            ExitPhase::Stop => match reply.error {
                Some(e) => ExitPhase::Refuse(text::cat2("卸载失败：", e.as_str())),
                None => ExitPhase::Allow,
            },
            ExitPhase::Allow => ExitPhase::Done,
            ExitPhase::Done => ExitPhase::Done,
        };
        ExitRun { phase }
    }
}

/// While a question is being asked, no second one is begun.
pub proof fn one_question_at_a_time(s: ExitState, conflict: bool, running: bool, has_package: bool)
    requires
        s.asking,
    ensures
        close_of(s, conflict, running, has_package) != Close::Ask,
{
}

/// The title bar's button never ends the launcher while the service of the package runs, unless
/// that was granted before; it hides the window.
pub proof fn close_button_hides(s: ExitState)
    requires
        !s.allowed,
        !s.intent,
    ensures
        close_of(s, false, true, true) == Close::Hide,
{
}

/// After a question that was not answered with leave to end, the title bar's button hides the
/// window again.
pub proof fn cancelled_exit_is_forgotten(s: ExitState)
    requires
        !s.allowed,
    ensures
        close_of(
            (ExitState { asking: false, intent: false, ..s }),
            false,
            true,
            true,
        ) == Close::Hide,
{
}

/// Once leave to end was given, the next request ends the launcher, whether the service runs or
/// not.
pub proof fn leave_is_final(s: ExitState, conflict: bool, running: bool, has_package: bool)
    requires
        s.allowed,
    ensures
        close_of(s, conflict, running, has_package) == Close::Exit,
{
}

/// The replies and answers of one course of finding out.
pub open spec fn exit_after(
    first: ExitPhase<Seq<char>>,
    replies: Seq<(ReplyView, Answer)>,
) -> ExitPhase<Seq<char>>
    decreases replies.len(),
{
    if replies.len() == 0 {
        first
    } else {
        next_exit(exit_after(first, replies.drop_last()), replies.last().0, replies.last().1)
    }
}

/// While an action is under way, leave to end is never given.
pub proof fn busy_is_never_left(
    conflict: bool,
    has_package: bool,
    replies: Seq<(ReplyView, Answer)>,
)
    ensures
        exit_after(first_exit(true, conflict, has_package), replies) is Refuse || exit_after(
            first_exit(true, conflict, has_package),
            replies,
        ) is Done,
    decreases replies.len(),
{
    if replies.len() > 0 {
        busy_is_never_left(conflict, has_package, replies.drop_last());
    }
}

/// How leave to end comes about: nothing is left behind, the user lets the service stay, or the
/// service was stopped and its registration undone.
pub proof fn leave_has_a_reason(phase: ExitPhase<Seq<char>>, reply: ReplyView, answer: Answer)
    requires
        next_exit(phase, reply, answer) is Allow,
    ensures
        match phase {
            ExitPhase::AskRegistered => !reply.yes,
            ExitPhase::AskUser => answer == Answer::No,
            ExitPhase::Stop => reply.error is None,
            _ => false,
        },
{
}

/// How many actions it takes at most to find out.
pub open spec fn exit_left(phase: ExitPhase<Seq<char>>) -> nat {
    match phase {
        ExitPhase::AskRunning => 5,
        ExitPhase::AskRegistered => 4,
        ExitPhase::AskUser => 3,
        ExitPhase::Stop => 2,
        ExitPhase::Refuse(_) => 1,
        ExitPhase::Allow => 1,
        ExitPhase::Done => 0,
    }
}

/// Finding out ends.
pub proof fn exit_ends(phase: ExitPhase<Seq<char>>, reply: ReplyView, answer: Answer)
    ensures
        exit_left(phase) > 0 ==> exit_left(next_exit(phase, reply, answer)) < exit_left(phase),
        exit_left(phase) == 0 <==> exit_act(phase) is Finish,
{
}

/// What a request to close leads to. The launcher ends where leave was given, or where there is a
/// conflict and the request is the title bar's; the title bar's button hides the window while the
/// service of the package runs; everything else is asked about, unless that is being done already.
pub proof fn closing_is_decided(s: ExitState, conflict: bool, running: bool, has_package: bool)
    ensures
        (close_of(s, conflict, running, has_package) == Close::Exit) == (s.allowed || (!s.intent
            && conflict)),
        (close_of(s, conflict, running, has_package) == Close::Hide) == (!s.allowed && !s.intent
            && !conflict && has_package && running),
        (close_of(s, conflict, running, has_package) == Close::Ask) == (!s.allowed && !s.asking && (s.intent
            || (!conflict && !(has_package && running)))),
        (close_of(s, conflict, running, has_package) == Close::Ignore) == (!s.allowed && s.asking && (
        s.intent || (!conflict && !(has_package && running)))),
        confirm_of(s) == close_of(
            (ExitState { intent: true, ..s }),
            conflict,
            running,
            has_package,
        ),
{
}

/// The course of finding out whether the launcher may end. While an action is under way it may not;
/// with a conflict or without a package it may. Otherwise the user is asked if the service runs or
/// the package is registered, and then it depends on the answer: the service is stopped first, or it
/// stays, or nothing happens.
pub proof fn course_of_leaving(
    busy: bool,
    conflict: bool,
    has_package: bool,
    running: ReplyView,
    registered: ReplyView,
    stopped: ReplyView,
    any: ReplyView,
    answer: Answer,
)
    ensures
        ({
            let first = first_exit(busy, conflict, has_package);
            let second = next_exit(first, running, answer);
            let third = next_exit(second, registered, answer);
            &&& busy ==> exit_act(first) == ExitAct::ShowError(
                "正在部署/更新，请等待完成后再退出。"@,
            ) && exit_act(second) == ExitAct::<Seq<char>>::Finish
            &&& !busy && (conflict || !has_package) ==> exit_act(first) == ExitAct::<Seq<char>>::Allow
                && exit_act(second) == ExitAct::<Seq<char>>::Finish
            &&& !busy && !conflict && has_package ==> {
                &&& exit_act(first) == ExitAct::<Seq<char>>::ProbeService
                &&& running.yes ==> exit_act(second) == ExitAct::<Seq<char>>::AskUser
                &&& !running.yes ==> exit_act(second) == ExitAct::<Seq<char>>::CheckRegistered
                &&& !running.yes && registered.yes ==> exit_act(third) == ExitAct::<Seq<char>>::AskUser
                &&& !running.yes && !registered.yes ==> exit_act(third) == ExitAct::<Seq<char>>::Allow
                    && exit_act(next_exit(third, any, answer)) == ExitAct::<Seq<char>>::Finish
            }
        }),
        forall|asking: ExitPhase<Seq<char>>|
            exit_act(asking) == ExitAct::<Seq<char>>::AskUser ==> {
                let then = #[trigger] next_exit(asking, any, answer);
                &&& answer == Answer::Cancel ==> exit_act(then) == ExitAct::<Seq<char>>::Finish
                &&& answer == Answer::No ==> exit_act(then) == ExitAct::<Seq<char>>::Allow
                &&& answer == Answer::Yes ==> {
                    &&& exit_act(then) == ExitAct::<Seq<char>>::StopService
                    &&& stopped.error is None ==> exit_act(next_exit(then, stopped, answer)) == ExitAct::<
                        Seq<char>,
                    >::Allow
                    &&& stopped.error matches Some(e) ==> {
                        let told = next_exit(then, stopped, answer);
                        &&& exit_act(told) == ExitAct::ShowError("卸载失败："@ + e)
                        &&& exit_act(next_exit(told, any, answer)) == ExitAct::<Seq<char>>::Finish
                    }
                }
            },
{
}

/// Behind a message, and behind leave to end, nothing is left to find out, and it stays so.
pub proof fn finding_out_is_over(phase: ExitPhase<Seq<char>>, reply: ReplyView, answer: Answer)
    requires
        exit_act(phase) is ShowError || exit_act(phase) is Allow || exit_act(phase) is Finish,
    ensures
        exit_act(next_exit(phase, reply, answer)) == ExitAct::<Seq<char>>::Finish,
{
}

} // verus!
