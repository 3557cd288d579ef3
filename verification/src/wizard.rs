//! Updating and deploying from the window: which files and directories are asked for, what is
//! checked, and when the work begins.
use vstd::prelude::*;
use vstd::string::*;

use crate::layout;
use crate::layout::clone_option;
use crate::text;

verus! {

/// What the user set out to do.
#[derive(Debug, Clone, Copy, PartialEq, Eq, Structural)]
pub enum Goal {
    /// Update the package from an archive.
    Update,
    /// Copy the package to another directory.
    Copy,
    /// Deploy an archive into another directory.
    Unzip,
}

/// How far the way to it is.
#[derive(Debug)]
pub enum WizardPhase<S> {
    PickZip,
    /// The archive is checked.
    Validate(S),
    /// The target is asked for; the archive, where there is one.
    PickFolder(Option<S>),
    /// The user is asked for consent to the archive and the target.
    Confirm(Option<S>, Option<S>),
    ShowError(S),
    /// The work begins.
    Run(Option<S>, Option<S>),
    Ended,
}

/// What is to be done next.
#[derive(Debug)]
pub enum WizardAct<S> {
    /// Let the user pick an archive.
    PickZip { title: S },
    /// Check that the file is a package. Error: why not.
    Validate(S),
    /// Let the user pick a directory.
    PickFolder { title: S },
    /// Answer: whether the user consents.
    Confirm { text: S, caption: S },
    ShowError(S),
    /// Begin the work.
    Run { zip: Option<S>, target: Option<S> },
    Finish,
}

/// What came of it.
#[derive(Debug)]
pub struct WizardReply {
    /// What the user picked.
    pub path: Option<String>,
    pub yes: bool,
    pub error: Option<String>,
}

pub struct WizardReplyView {
    pub path: Option<Seq<char>>,
    pub yes: bool,
    pub error: Option<Seq<char>>,
}

impl DeepView for WizardReply {
    type V = WizardReplyView;

    open spec fn deep_view(&self) -> WizardReplyView {
        WizardReplyView {
            path: self.path.deep_view(),
            yes: self.yes,
            error: self.error.deep_view(),
        }
    }
}

pub open spec fn wizard_view(p: WizardPhase<String>) -> WizardPhase<Seq<char>> {
    match p {
        WizardPhase::PickZip => WizardPhase::PickZip,
        WizardPhase::Validate(z) => WizardPhase::Validate(z@),
        WizardPhase::PickFolder(z) => WizardPhase::PickFolder(z.deep_view()),
        WizardPhase::Confirm(z, t) => WizardPhase::Confirm(z.deep_view(), t.deep_view()),
        WizardPhase::ShowError(e) => WizardPhase::ShowError(e@),
        WizardPhase::Run(z, t) => WizardPhase::Run(z.deep_view(), t.deep_view()),
        WizardPhase::Ended => WizardPhase::Ended,
    }
}

pub open spec fn wizard_act_view(a: WizardAct<String>) -> WizardAct<Seq<char>> {
    match a {
        WizardAct::PickZip { title } => WizardAct::PickZip { title: title@ },
        WizardAct::Validate(z) => WizardAct::Validate(z@),
        WizardAct::PickFolder { title } => WizardAct::PickFolder { title: title@ },
        WizardAct::Confirm { text, caption } => WizardAct::Confirm {
            text: text@,
            caption: caption@,
        },
        WizardAct::ShowError(e) => WizardAct::ShowError(e@),
        WizardAct::Run { zip, target } => WizardAct::Run {
            zip: zip.deep_view(),
            target: target.deep_view(),
        },
        WizardAct::Finish => WizardAct::Finish,
    }
}

pub open spec fn first_wizard(goal: Goal) -> WizardPhase<Seq<char>> {
    match goal {
        Goal::Copy => WizardPhase::PickFolder(None),
        _ => WizardPhase::PickZip,
    }
}

/// What follows; `protected` are the directories of the system.
pub open spec fn next_wizard(
    goal: Goal,
    phase: WizardPhase<Seq<char>>,
    reply: WizardReplyView,
    protected: Seq<Seq<char>>,
) -> WizardPhase<Seq<char>> {
    match phase {
        WizardPhase::PickZip => match reply.path {
            Some(zip) => WizardPhase::Validate(zip),
            None => WizardPhase::Ended,
        },
        WizardPhase::Validate(zip) => match reply.error {
            Some(e) => WizardPhase::ShowError(
                if goal == Goal::Update {
                    "无效的更新包："@ + e
                } else {
                    "无效的压缩包："@ + e
                },
            ),
            None => if goal == Goal::Update {
                WizardPhase::Confirm(Some(zip), None)
            } else {
                WizardPhase::PickFolder(Some(zip))
            },
        },
        WizardPhase::PickFolder(zip) => match reply.path {
            None => WizardPhase::Ended,
            Some(target) => if layout::protected_under(target, protected) {
                WizardPhase::ShowError("不能部署到系统保护目录：\n"@ + target)
            } else {
                WizardPhase::Confirm(zip, Some(target))
            },
        },
        WizardPhase::Confirm(zip, target) => if reply.yes {
            WizardPhase::Run(zip, target)
        } else {
            WizardPhase::Ended
        },
        WizardPhase::ShowError(_) => WizardPhase::Ended,
        WizardPhase::Run(_, _) => WizardPhase::Ended,
        WizardPhase::Ended => WizardPhase::Ended,
    }
}

pub open spec fn or_empty(s: Option<Seq<char>>) -> Seq<char> {
    match s {
        Some(x) => x,
        None => ""@,
    }
}

/// The question for consent, and its caption.
pub open spec fn question(goal: Goal, zip: Option<Seq<char>>, target: Option<Seq<char>>) -> (
    Seq<char>,
    Seq<char>,
) {
    match goal {
        Goal::Update => ("确认从以下文件更新便携版？\n\n"@ + or_empty(zip), "确认更新"@),
        Goal::Copy => ("确认将当前文件复制到：\n\n"@ + or_empty(target), "确认部署"@),
        Goal::Unzip => ("确认将 ZIP 部署到：\n\n"@ + or_empty(target), "确认部署"@),
    }
}

pub open spec fn wizard_act(goal: Goal, phase: WizardPhase<Seq<char>>) -> WizardAct<Seq<char>> {
    match phase {
        WizardPhase::PickZip => WizardAct::PickZip {
            title: if goal == Goal::Update {
                "选择便携版更新包"@
            } else {
                "选择便携版压缩包"@
            },
        },
        WizardPhase::Validate(zip) => WizardAct::Validate(zip),
        WizardPhase::PickFolder(_) => WizardAct::PickFolder { title: "选择部署目标目录"@ },
        WizardPhase::Confirm(zip, target) => WizardAct::Confirm {
            text: question(goal, zip, target).0,
            caption: question(goal, zip, target).1,
        },
        WizardPhase::ShowError(e) => WizardAct::ShowError(e),
        WizardPhase::Run(zip, target) => WizardAct::Run { zip, target },
        WizardPhase::Ended => WizardAct::Finish,
    }
}

/// The way to an update or a deployment.
#[derive(Debug)]
pub struct Wizard {
    pub goal: Goal,
    pub phase: WizardPhase<String>,
}

fn text_or_empty(s: &Option<String>) -> (r: String)
    ensures
        r@ == or_empty(s.deep_view()),
{
    match s {
        Some(x) => x.clone(),
        None => String::from_str(""),
    }
}

impl Wizard {
    pub fn new(goal: Goal) -> (r: Wizard)
        ensures
            r.goal == goal,
            wizard_view(r.phase) == first_wizard(goal),
    {
        let phase = match goal {
            Goal::Copy => WizardPhase::PickFolder(None),
            _ => WizardPhase::PickZip,
        };
        Wizard { goal, phase }
    }

    /// What is to be done next.
    pub fn action(&self) -> (r: WizardAct<String>)
        ensures
            wizard_act_view(r) == wizard_act(self.goal, wizard_view(self.phase)),
    {
        match &self.phase {
            WizardPhase::PickZip => WizardAct::PickZip {
                title: String::from_str(
                    match self.goal {
                        Goal::Update => "选择便携版更新包",
                        _ => "选择便携版压缩包",
                    },
                ),
            },
            WizardPhase::Validate(zip) => WizardAct::Validate(zip.clone()),
            WizardPhase::PickFolder(_) => WizardAct::PickFolder {
                title: String::from_str("选择部署目标目录"),
            },
            WizardPhase::Confirm(zip, target) => {
                let z = text_or_empty(zip);
                let t = text_or_empty(target);
                match self.goal {
                    Goal::Update => WizardAct::Confirm {
                        text: text::cat2("确认从以下文件更新便携版？\n\n", z.as_str()),
                        caption: String::from_str("确认更新"),
                    },
                    Goal::Copy => WizardAct::Confirm {
                        text: text::cat2("确认将当前文件复制到：\n\n", t.as_str()),
                        caption: String::from_str("确认部署"),
                    },
                    Goal::Unzip => WizardAct::Confirm {
                        text: text::cat2("确认将 ZIP 部署到：\n\n", t.as_str()),
                        caption: String::from_str("确认部署"),
                    },
                }
            },
            WizardPhase::ShowError(e) => WizardAct::ShowError(e.clone()),
            WizardPhase::Run(zip, target) => WizardAct::Run {
                zip: clone_option(zip),
                target: clone_option(target),
            },
            WizardPhase::Ended => WizardAct::Finish,
        }
    }

    /// Takes note of what came of the last action; `values` are those of the variables that name
    /// the directories of the system.
    pub fn step(self, reply: WizardReply, values: &Vec<Option<String>>) -> (r: Wizard)
        ensures
            r.goal == self.goal,
            wizard_view(r.phase) == next_wizard(
                self.goal,
                wizard_view(self.phase),
                reply.deep_view(),
                layout::given(values.deep_view()),
            ),
    {
        let goal = self.goal;
        let phase = match self.phase {
            WizardPhase::PickZip => match reply.path {
                Some(zip) => WizardPhase::Validate(zip),
                None => WizardPhase::Ended,
            },
            WizardPhase::Validate(zip) => match reply.error {
                Some(e) => WizardPhase::ShowError(
                    if goal == Goal::Update {
                        text::cat2("无效的更新包：", e.as_str())
                    } else {
                        text::cat2("无效的压缩包：", e.as_str())
                    },
                ),
                None => if goal == Goal::Update {
                    WizardPhase::Confirm(Some(zip), None)
                } else {
                    WizardPhase::PickFolder(Some(zip))
                },
            },
            WizardPhase::PickFolder(zip) => match reply.path {
                None => WizardPhase::Ended,
                Some(target) => if layout::is_protected_dir(target.as_str(), values) {
                    WizardPhase::ShowError(
                        text::cat2("不能部署到系统保护目录：\n", target.as_str()),
                    )
                } else {
                    WizardPhase::Confirm(zip, Some(target))
                },
            },
            WizardPhase::Confirm(zip, target) => if reply.yes {
                WizardPhase::Run(zip, target)
            } else {
                WizardPhase::Ended
            },
            WizardPhase::ShowError(_) => WizardPhase::Ended,
            WizardPhase::Run(_, _) => WizardPhase::Ended,
            WizardPhase::Ended => WizardPhase::Ended,
        };
        Wizard { goal, phase }
    }
}

/// Where the way stands after the replies.
pub open spec fn wizard_after(
    goal: Goal,
    replies: Seq<WizardReplyView>,
    protected: Seq<Seq<char>>,
) -> WizardPhase<Seq<char>>
    decreases replies.len(),
{
    if replies.len() == 0 {
        first_wizard(goal)
    } else {
        next_wizard(
            goal,
            wizard_after(goal, replies.drop_last(), protected),
            replies.last(),
            protected,
        )
    }
}

/// The archive was checked, in the course of the replies, and found good.
pub open spec fn was_checked(
    goal: Goal,
    replies: Seq<WizardReplyView>,
    protected: Seq<Seq<char>>,
    zip: Seq<char>,
) -> bool {
    exists|k: int|
        0 <= k < replies.len() && #[trigger] wizard_after(goal, replies.take(k), protected)
            == WizardPhase::Validate(zip) && replies[k].error is None
}

/// What holds of the archive and the target on the way.
pub open spec fn choices_are_sound(
    goal: Goal,
    replies: Seq<WizardReplyView>,
    protected: Seq<Seq<char>>,
    zip: Option<Seq<char>>,
    target: Option<Seq<char>>,
) -> bool {
    &&& match (goal, zip) {
        (Goal::Copy, None) => true,
        (Goal::Copy, Some(_)) => false,
        (_, Some(z)) => was_checked(goal, replies, protected, z),
        (_, None) => false,
    }
    &&& match (goal, target) {
        (Goal::Update, None) => true,
        (Goal::Update, Some(_)) => false,
        (_, Some(t)) => !layout::protected_under(t, protected),
        (_, None) => false,
    }
}

pub open spec fn wizard_history(
    goal: Goal,
    replies: Seq<WizardReplyView>,
    protected: Seq<Seq<char>>,
    phase: WizardPhase<Seq<char>>,
) -> bool {
    match phase {
        WizardPhase::PickZip => goal != Goal::Copy,
        WizardPhase::Validate(_) => goal != Goal::Copy,
        WizardPhase::PickFolder(zip) => goal != Goal::Update && match (goal, zip) {
            (Goal::Copy, None) => true,
            (Goal::Copy, Some(_)) => false,
            (_, Some(z)) => was_checked(goal, replies, protected, z),
            (_, None) => false,
        },
        WizardPhase::Confirm(zip, target) => choices_are_sound(
            goal,
            replies,
            protected,
            zip,
            target,
        ),
        WizardPhase::Run(zip, target) => choices_are_sound(goal, replies, protected, zip, target)
            && replies.len() > 0 && replies.last().yes,
        _ => true,
    }
}

proof fn wizard_history_holds(
    goal: Goal,
    replies: Seq<WizardReplyView>,
    protected: Seq<Seq<char>>,
)
    ensures
        wizard_history(goal, replies, protected, wizard_after(goal, replies, protected)),
    decreases replies.len(),
{
    if replies.len() > 0 {
        let rest = replies.drop_last();
        wizard_history_holds(goal, rest, protected);
        let k = rest.len() as int;
        assert(replies.take(k) =~= rest);
        assert(replies[k] == replies.last());
        assert forall|z: Seq<char>| was_checked(goal, rest, protected, z) implies was_checked(
            goal,
            replies,
            protected,
            z,
        ) by {
            let j = choose|j: int|
                0 <= j < rest.len() && #[trigger] wizard_after(goal, rest.take(j), protected)
                    == WizardPhase::Validate(z) && rest[j].error is None;
            assert(rest.take(j) =~= replies.take(j));
            assert(wizard_after(goal, replies.take(j), protected) == WizardPhase::Validate(z));
        }
        if let WizardPhase::Validate(z) = wizard_after(goal, rest, protected) {
            assert(wizard_after(goal, replies.take(k), protected) == WizardPhase::Validate(z));
            if replies.last().error is None {
                assert(was_checked(goal, replies, protected, z));
            }
        }
    }
}

/// Work begins only with the user's consent, from an archive that was found good where there is
/// one, and never in a directory of the system.
pub proof fn work_begins_with_consent(
    goal: Goal,
    replies: Seq<WizardReplyView>,
    protected: Seq<Seq<char>>,
    zip: Option<Seq<char>>,
    target: Option<Seq<char>>,
)
    requires
        wizard_after(goal, replies, protected) == WizardPhase::Run(zip, target),
    ensures
        replies.len() > 0 && replies.last().yes,
        zip is Some == (goal != Goal::Copy),
        zip matches Some(z) ==> was_checked(goal, replies, protected, z),
        target is Some == (goal != Goal::Update),
        target matches Some(t) ==> !layout::protected_under(t, protected),
{
    wizard_history_holds(goal, replies, protected);
}

/// How many actions it takes at most.
pub open spec fn wizard_left(phase: WizardPhase<Seq<char>>) -> nat {
    match phase {
        WizardPhase::PickZip => 5,
        WizardPhase::Validate(_) => 4,
        WizardPhase::PickFolder(_) => 3,
        WizardPhase::Confirm(_, _) => 2,
        WizardPhase::ShowError(_) => 1,
        WizardPhase::Run(_, _) => 1,
        WizardPhase::Ended => 0,
    }
}

/// The way ends, whatever the user does.
pub proof fn wizard_ends(
    goal: Goal,
    phase: WizardPhase<Seq<char>>,
    reply: WizardReplyView,
    protected: Seq<Seq<char>>,
)
    ensures
        wizard_left(phase) > 0 ==> wizard_left(next_wizard(goal, phase, reply, protected))
            < wizard_left(phase),
        wizard_left(phase) == 0 <==> wizard_act(goal, phase) is Finish,
{
}

proof fn wizard_step(
    goal: Goal,
    replies: Seq<WizardReplyView>,
    protected: Seq<Seq<char>>,
    k: int,
)
    requires
        0 <= k < replies.len(),
    ensures
        wizard_after(goal, replies.take(k + 1), protected) == next_wizard(
            goal,
            wizard_after(goal, replies.take(k), protected),
            replies[k],
            protected,
        ),
{
    assert(replies.take(k + 1).drop_last() =~= replies.take(k));
    assert(replies.take(k + 1).last() == replies[k]);
}

/// The `k`-th action on the way.
pub open spec fn wizard_did(
    goal: Goal,
    replies: Seq<WizardReplyView>,
    protected: Seq<Seq<char>>,
    k: int,
) -> WizardAct<Seq<char>> {
    wizard_act(goal, wizard_after(goal, replies.take(k), protected))
}

/// The course of an update: the archive is picked and checked, the user is shown which one it is, and
/// with consent the update runs from it.
pub proof fn course_of_updating(r: Seq<WizardReplyView>, protected: Seq<Seq<char>>)
    requires
        r.len() == 3,
    ensures
        ({
            let g = Goal::Update;
            &&& wizard_did(g, r, protected, 0) == (WizardAct::PickZip { title: "选择便携版更新包"@ })
            &&& r[0].path is None ==> wizard_did(g, r, protected, 1) == WizardAct::<Seq<char>>::Finish
            &&& r[0].path matches Some(zip) ==> {
                &&& wizard_did(g, r, protected, 1) == WizardAct::Validate(zip)
                &&& r[1].error matches Some(e) ==> wizard_did(g, r, protected, 2) == WizardAct::ShowError(
                    "无效的更新包："@ + e,
                ) && wizard_did(g, r, protected, 3) == WizardAct::<Seq<char>>::Finish
                &&& r[1].error is None ==> {
                    &&& wizard_did(g, r, protected, 2) == (WizardAct::Confirm {
                        text: "确认从以下文件更新便携版？\n\n"@ + zip,
                        caption: "确认更新"@,
                    })
                    &&& wizard_did(g, r, protected, 3) == if r[2].yes {
                        WizardAct::Run { zip: Some(zip), target: None }
                    } else {
                        WizardAct::Finish
                    }
                }
            }
        }),
{
    assert(r.take(0) =~= seq![]);
    wizard_step(Goal::Update, r, protected, 0);
    wizard_step(Goal::Update, r, protected, 1);
    wizard_step(Goal::Update, r, protected, 2);
}

/// A directory of the system lies above the target.
pub open spec fn is_kept_from(target: Seq<char>, protected: Seq<Seq<char>>) -> bool {
    exists|i: int| 0 <= i < protected.len() && layout::lies_below(target, #[trigger] protected[i])
}

proof fn same_protection(target: Seq<char>, protected: Seq<Seq<char>>)
    ensures
        is_kept_from(target, protected) == layout::protected_under(target, protected),
{
    if is_kept_from(target, protected) {
        let i = choose|i: int|
            0 <= i < protected.len() && layout::lies_below(target, #[trigger] protected[i]);
        assert(layout::lies_below(target, protected[i]));
    }
    if layout::protected_under(target, protected) {
        let i = choose|i: int|
            0 <= i < protected.len() && #[trigger] layout::lies_below(target, protected[i]);
        assert(layout::lies_below(target, protected[i]));
    }
}

/// The course of copying the package: the target is picked, refused if it belongs to the system, and
/// shown to the user; with consent the package is copied there.
pub proof fn course_of_copying(r: Seq<WizardReplyView>, protected: Seq<Seq<char>>)
    requires
        r.len() == 2,
    ensures
        ({
            let g = Goal::Copy;
            &&& wizard_did(g, r, protected, 0) == (WizardAct::PickFolder { title: "选择部署目标目录"@ })
            &&& r[0].path is None ==> wizard_did(g, r, protected, 1) == WizardAct::<Seq<char>>::Finish
            &&& r[0].path matches Some(target) ==> if is_kept_from(target, protected) {
                &&& wizard_did(g, r, protected, 1) == WizardAct::ShowError(
                    "不能部署到系统保护目录：\n"@ + target,
                )
                &&& wizard_did(g, r, protected, 2) == WizardAct::<Seq<char>>::Finish
            } else {
                &&& wizard_did(g, r, protected, 1) == (WizardAct::Confirm {
                    text: "确认将当前文件复制到：\n\n"@ + target,
                    caption: "确认部署"@,
                })
                &&& wizard_did(g, r, protected, 2) == if r[1].yes {
                    WizardAct::Run { zip: None, target: Some(target) }
                } else {
                    WizardAct::Finish
                }
            }
        }),
{
    assert(r.take(0) =~= seq![]);
    wizard_step(Goal::Copy, r, protected, 0);
    wizard_step(Goal::Copy, r, protected, 1);
    if let Some(target) = r[0].path {
        same_protection(target, protected);
    }
}

/// The course of deploying an archive: it is picked and checked, then the target is picked, refused
/// if it belongs to the system, and shown to the user; with consent the archive is deployed there.
pub proof fn course_of_unzipping(r: Seq<WizardReplyView>, protected: Seq<Seq<char>>)
    requires
        r.len() == 4,
    ensures
        ({
            let g = Goal::Unzip;
            &&& wizard_did(g, r, protected, 0) == (WizardAct::PickZip { title: "选择便携版压缩包"@ })
            &&& r[0].path is None ==> wizard_did(g, r, protected, 1) == WizardAct::<Seq<char>>::Finish
            &&& r[0].path matches Some(zip) ==> {
                &&& wizard_did(g, r, protected, 1) == WizardAct::Validate(zip)
                &&& r[1].error matches Some(e) ==> wizard_did(g, r, protected, 2) == WizardAct::ShowError(
                    "无效的压缩包："@ + e,
                ) && wizard_did(g, r, protected, 3) == WizardAct::<Seq<char>>::Finish
                &&& r[1].error is None ==> {
                    &&& wizard_did(g, r, protected, 2) == (WizardAct::PickFolder {
                        title: "选择部署目标目录"@,
                    })
                    &&& r[2].path is None ==> wizard_did(g, r, protected, 3) == WizardAct::<
                        Seq<char>,
                    >::Finish
                    &&& r[2].path matches Some(target) ==> if is_kept_from(target, protected) {
                        &&& wizard_did(g, r, protected, 3) == WizardAct::ShowError(
                            "不能部署到系统保护目录：\n"@ + target,
                        )
                        &&& wizard_did(g, r, protected, 4) == WizardAct::<Seq<char>>::Finish
                    } else {
                        &&& wizard_did(g, r, protected, 3) == (WizardAct::Confirm {
                            text: "确认将 ZIP 部署到：\n\n"@ + target,
                            caption: "确认部署"@,
                        })
                        &&& wizard_did(g, r, protected, 4) == if r[3].yes {
                            WizardAct::Run { zip: Some(zip), target: Some(target) }
                        } else {
                            WizardAct::Finish
                        }
                    }
                }
            }
        }),
{
    assert(r.take(0) =~= seq![]);
    wizard_step(Goal::Unzip, r, protected, 0);
    wizard_step(Goal::Unzip, r, protected, 1);
    wizard_step(Goal::Unzip, r, protected, 2);
    wizard_step(Goal::Unzip, r, protected, 3);
    if let Some(target) = r[2].path {
        same_protection(target, protected);
    }
}

/// Behind a message, and behind the beginning of the work, the way is over, and it stays so.
pub proof fn way_is_over(
    goal: Goal,
    phase: WizardPhase<Seq<char>>,
    reply: WizardReplyView,
    protected: Seq<Seq<char>>,
)
    requires
        wizard_act(goal, phase) is ShowError || wizard_act(goal, phase) is Run || wizard_act(goal, phase)
            is Finish,
    ensures
        wizard_act(goal, next_wizard(goal, phase, reply, protected)) == WizardAct::<Seq<char>>::Finish,
{
}

} // verus!
