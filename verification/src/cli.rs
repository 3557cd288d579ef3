//! The command line: what was asked for, and in which order it is done.
use vstd::prelude::*;
use vstd::string::*;

use crate::text;

verus! {

/// What the command line asks for.
#[derive(Debug, Clone, Copy, PartialEq, Eq, Structural)]
pub struct CliOptions {
    pub start: bool,
    pub stop: bool,
    pub status: bool,
    pub settings: bool,
    pub userdata: bool,
    /// The window, even beside other requests.
    pub ui: bool,
    /// Register; asked for by the launcher itself, as administrator.
    pub elevate_register: bool,
    /// Undo the registration; asked for by the launcher itself, as administrator.
    pub elevate_unregister: bool,
}

impl Default for CliOptions {
    fn default() -> (r: CliOptions)
        ensures
            r == (CliOptions {
                start: false,
                stop: false,
                status: false,
                settings: false,
                userdata: false,
                ui: false,
                elevate_register: false,
                elevate_unregister: false,
            }),
    {
        CliOptions {
            start: false,
            stop: false,
            status: false,
            settings: false,
            userdata: false,
            ui: false,
            elevate_register: false,
            elevate_unregister: false,
        }
    }
}

/// Whether one of the arguments is the flag; the case of ASCII letters does not count.
pub open spec fn has_flag(args: Seq<Seq<char>>, flag: Seq<char>) -> bool {
    exists|i: int| 0 <= i < args.len() && text::ascii_lower(#[trigger] args[i]) == flag
}

/// Whether one of the arguments is the flag, with one dash or with two.
pub open spec fn has_dashed(args: Seq<Seq<char>>, one: Seq<char>, two: Seq<char>) -> bool {
    has_flag(args, one) || has_flag(args, two)
}

/// What the arguments ask for.
pub open spec fn parsed(args: Seq<Seq<char>>) -> CliOptions {
    CliOptions {
        start: has_dashed(args, "-start"@, "--start"@),
        stop: has_dashed(args, "-stop"@, "--stop"@),
        status: has_dashed(args, "-status"@, "--status"@),
        settings: has_dashed(args, "-settings"@, "--settings"@),
        userdata: has_dashed(args, "-userdata"@, "--userdata"@),
        ui: has_dashed(args, "-ui"@, "--ui"@),
        elevate_register: has_dashed(args, "-elevate-register"@, "--elevate-register"@),
        elevate_unregister: has_dashed(args, "-elevate-unregister"@, "--elevate-unregister"@),
    }
}

impl CliOptions {
    pub open spec fn acts(self) -> bool {
        ||| self.start
        ||| self.stop
        ||| self.status
        ||| self.settings
        ||| self.userdata
        ||| self.elevate_register
        ||| self.elevate_unregister
    }

    /// Whether something is asked for that needs no window.
    pub fn has_action(&self) -> (r: bool)
        ensures
            r == self.acts(),
    {
        self.start || self.stop || self.status || self.settings || self.userdata
            || self.elevate_register || self.elevate_unregister
    }

    /// Whether the launcher does what is asked for and ends, without a window.
    pub fn is_headless(&self) -> (r: bool)
        ensures
            r == (self.acts() && !self.ui),
    {
        self.has_action() && !self.ui
    }
}

fn any_flag(args: &Vec<String>, flag: &str) -> (r: bool)
    ensures
        r == has_flag(args.deep_view(), flag@),
{
    let mut i: usize = 0;
    while i < args.len()
        invariant
            i <= args@.len(),
            forall|k: int| 0 <= k < i ==> text::ascii_lower(#[trigger] args.deep_view()[k]) != flag@,
        decreases args@.len() - i,
    {
        let low = text::to_ascii_lowercase(args[i].as_str());
        assert(args.deep_view()[i as int] == args@[i as int]@);
        if text::same_text(low.as_str(), flag) {
            return true;
        }
        i = i + 1;
    }
    false
}

/// Reads the arguments. Flags take one dash or two, and case does not count; anything else is
/// passed over.
pub fn parse(args: &Vec<String>) -> (r: CliOptions)
    ensures
        r == parsed(args.deep_view()),
{
    CliOptions {
        start: any_flag(args, "-start") || any_flag(args, "--start"),
        stop: any_flag(args, "-stop") || any_flag(args, "--stop"),
        status: any_flag(args, "-status") || any_flag(args, "--status"),
        settings: any_flag(args, "-settings") || any_flag(args, "--settings"),
        userdata: any_flag(args, "-userdata") || any_flag(args, "--userdata"),
        ui: any_flag(args, "-ui") || any_flag(args, "--ui"),
        elevate_register: any_flag(args, "-elevate-register") || any_flag(
            args,
            "--elevate-register",
        ),
        elevate_unregister: any_flag(args, "-elevate-unregister") || any_flag(
            args,
            "--elevate-unregister",
        ),
    }
}

/// One thing that is done without a window. One that fails ends the rest.
#[derive(Debug, Clone, Copy, PartialEq, Eq, Structural)]
pub enum CliStep {
    RegisterDirect,
    UnregisterDirect,
    Start,
    Stop,
    Status,
    Settings,
    Userdata,
}

pub open spec fn step_if(wanted: bool, step: CliStep) -> Seq<CliStep> {
    if wanted {
        seq![step]
    } else {
        seq![]
    }
}

/// What is done, in order. A request that the launcher made of itself stands alone.
pub open spec fn steps_of(o: CliOptions) -> Seq<CliStep> {
    if o.elevate_register {
        seq![CliStep::RegisterDirect]
    } else if o.elevate_unregister {
        seq![CliStep::UnregisterDirect]
    } else {
        step_if(o.start, CliStep::Start) + step_if(o.stop, CliStep::Stop) + step_if(
            o.status,
            CliStep::Status,
        ) + step_if(o.settings, CliStep::Settings) + step_if(o.userdata, CliStep::Userdata)
    }
}

fn push_if(out: &mut Vec<CliStep>, wanted: bool, step: CliStep)
    ensures
        final(out)@ == old(out)@ + step_if(wanted, step),
{
    if wanted {
        out.push(step);
    }
    assert(out@ =~= old(out)@ + step_if(wanted, step));
}

/// What is done without a window, in order; nothing where no package was found, for the reason
/// given.
pub fn run_cli(o: &CliOptions, detect_error: Option<String>) -> (r: Result<Vec<CliStep>, String>)
    ensures
        match r {
            Ok(steps) => detect_error is None && steps@ == steps_of(*o),
            Err(e) => detect_error == Some(e),
        },
{
    if let Some(e) = detect_error {
        return Err(e);
    }
    let mut out: Vec<CliStep> = Vec::new();
    if o.elevate_register {
        out.push(CliStep::RegisterDirect);
    } else if o.elevate_unregister {
        out.push(CliStep::UnregisterDirect);
    } else {
        push_if(&mut out, o.start, CliStep::Start);
        push_if(&mut out, o.stop, CliStep::Stop);
        push_if(&mut out, o.status, CliStep::Status);
        push_if(&mut out, o.settings, CliStep::Settings);
        push_if(&mut out, o.userdata, CliStep::Userdata);
    }
    assert(out@ =~= steps_of(*o));
    Ok(out)
}

pub open spec fn word_for(running: bool) -> Seq<char> {
    if running {
        "running"@
    } else {
        "stopped"@
    }
}

fn status_word(running: bool) -> (r: &'static str)
    ensures
        r@ == word_for(running),
{
    if running {
        "running"
    } else {
        "stopped"
    }
}

/// The line that tells the state of the service, and what stands against portable mode.
pub fn status_line(running: bool, conflict: Option<&str>) -> (r: String)
    ensures
        r@ == match conflict {
            Some(reason) => "service="@ + word_for(running) + " mode=conflict reason=\""@ + reason@
                + "\""@,
            None => "service="@ + word_for(running),
        },
{
    match conflict {
        Some(reason) => text::cat5(
            "service=",
            status_word(running),
            " mode=conflict reason=\"",
            reason,
            "\"",
        ),
        None => text::cat2("service=", status_word(running)),
    }
}

pub open spec fn report_of(step: CliStep, yes: bool) -> Option<Seq<char>> {
    match step {
        CliStep::Start => Some("service started"@),
        CliStep::Stop => Some(
            if yes {
                "service stopped"@
            } else {
                "service not running"@
            },
        ),
        CliStep::Settings => Some("settings opened"@),
        CliStep::Userdata => Some("userdata opened"@),
        _ => None,
    }
}

/// The line that tells that a step was done; `yes` is what the step answered. The state of the
/// service has a line of its own.
pub fn step_report(step: CliStep, yes: bool) -> (r: Option<&'static str>)
    ensures
        crate::variant::opt_view(r) == report_of(step, yes),
{
    match step {
        CliStep::Start => Some("service started"),
        CliStep::Stop => Some(
            if yes {
                "service stopped"
            } else {
                "service not running"
            },
        ),
        CliStep::Settings => Some("settings opened"),
        CliStep::Userdata => Some("userdata opened"),
        _ => None,
    }
}

/// The order of the arguments, and how often a flag is given, make no difference.
pub proof fn order_does_not_count(a: Seq<Seq<char>>, b: Seq<Seq<char>>)
    requires
        forall|s: Seq<char>| #[trigger] a.contains(s) <==> b.contains(s),
    ensures
        parsed(a) == parsed(b),
{
    assert forall|flag: Seq<char>| #[trigger] has_flag(a, flag) == has_flag(b, flag) by {
        if has_flag(a, flag) {
            let i = choose|i: int| 0 <= i < a.len() && text::ascii_lower(#[trigger] a[i]) == flag;
            assert(a.contains(a[i]));
            let j = choose|j: int| 0 <= j < b.len() && b[j] == a[i];
            assert(text::ascii_lower(b[j]) == flag);
        }
        if has_flag(b, flag) {
            let i = choose|i: int| 0 <= i < b.len() && text::ascii_lower(#[trigger] b[i]) == flag;
            assert(b.contains(b[i]));
            assert(a.contains(b[i]));
            let j = choose|j: int| 0 <= j < a.len() && a[j] == b[i];
            assert(text::ascii_lower(a[j]) == flag);
        }
    }
}

/// Something is done without a window exactly when an action was asked for.
pub proof fn actions_have_steps(o: CliOptions)
    ensures
        o.acts() <==> steps_of(o).len() > 0,
{
}

proof fn flag_with(args: Seq<Seq<char>>, more: Seq<char>, flag: Seq<char>)
    ensures
        has_flag(args.push(more), flag) == (has_flag(args, flag) || text::ascii_lower(more) == flag),
{
    let all = args.push(more);
    if has_flag(args, flag) {
        let i = choose|i: int| 0 <= i < args.len() && text::ascii_lower(#[trigger] args[i]) == flag;
        assert(text::ascii_lower(all[i]) == flag);
    }
    if text::ascii_lower(more) == flag {
        assert(text::ascii_lower(all[args.len() as int]) == flag);
    }
    if has_flag(all, flag) {
        let i = choose|i: int| 0 <= i < all.len() && text::ascii_lower(#[trigger] all[i]) == flag;
        if i < args.len() {
            assert(text::ascii_lower(args[i]) == flag);
        }
    }
}

/// What one more argument makes of the options: each flag stands for its own option and for no
/// other, nothing that was asked for is taken back, and an argument that is no flag is passed over.
pub proof fn each_flag_asks_for_its_own(args: Seq<Seq<char>>, more: Seq<char>)
    ensures
        ({
            let low = text::ascii_lower(more);
            &&& parsed(args.push(more)).start == (parsed(args).start || low == "-start"@ || low == "--start"@)
            &&& parsed(args.push(more)).stop == (parsed(args).stop || low == "-stop"@ || low == "--stop"@)
            &&& parsed(args.push(more)).status == (parsed(args).status || low == "-status"@ || low == "--status"@)
            &&& parsed(args.push(more)).settings == (parsed(args).settings || low == "-settings"@ || low == "--settings"@)
            &&& parsed(args.push(more)).userdata == (parsed(args).userdata || low == "-userdata"@ || low == "--userdata"@)
            &&& parsed(args.push(more)).ui == (parsed(args).ui || low == "-ui"@ || low == "--ui"@)
            &&& parsed(args.push(more)).elevate_register == (parsed(args).elevate_register || low == "-elevate-register"@ || low
                == "--elevate-register"@)
            &&& parsed(args.push(more)).elevate_unregister == (parsed(args).elevate_unregister || low == "-elevate-unregister"@ || low
                == "--elevate-unregister"@)
        }),
{
    flag_with(args, more, "-start"@);
    flag_with(args, more, "--start"@);
    flag_with(args, more, "-stop"@);
    flag_with(args, more, "--stop"@);
    flag_with(args, more, "-status"@);
    flag_with(args, more, "--status"@);
    flag_with(args, more, "-settings"@);
    flag_with(args, more, "--settings"@);
    flag_with(args, more, "-userdata"@);
    flag_with(args, more, "--userdata"@);
    flag_with(args, more, "-ui"@);
    flag_with(args, more, "--ui"@);
    flag_with(args, more, "-elevate-register"@);
    flag_with(args, more, "--elevate-register"@);
    flag_with(args, more, "-elevate-unregister"@);
    flag_with(args, more, "--elevate-unregister"@);
}

/// Without arguments nothing is asked for.
pub proof fn nothing_is_asked_for_by_itself()
    ensures
        !parsed(Seq::empty()).start,
        !parsed(Seq::empty()).stop,
        !parsed(Seq::empty()).status,
        !parsed(Seq::empty()).settings,
        !parsed(Seq::empty()).userdata,
        !parsed(Seq::empty()).ui,
        !parsed(Seq::empty()).elevate_register,
        !parsed(Seq::empty()).elevate_unregister,
{
}

/// The place of a step among those that are done without a window.
pub open spec fn rank(step: CliStep) -> int {
    match step {
        CliStep::RegisterDirect => 0,
        CliStep::UnregisterDirect => 0,
        CliStep::Start => 1,
        CliStep::Stop => 2,
        CliStep::Status => 3,
        CliStep::Settings => 4,
        CliStep::Userdata => 5,
    }
}

/// Whether each step stands behind those of a lower place only.
pub open spec fn in_order(steps: Seq<CliStep>) -> bool {
    forall|i: int, j: int|
        0 <= i < j < steps.len() ==> rank(#[trigger] steps[i]) < rank(#[trigger] steps[j])
}

proof fn one_more_step(steps: Seq<CliStep>, wanted: bool, step: CliStep)
    requires
        in_order(steps),
        forall|i: int| 0 <= i < steps.len() ==> rank(#[trigger] steps[i]) < rank(step),
    ensures
        in_order(steps + step_if(wanted, step)),
        forall|i: int|
            0 <= i < (steps + step_if(wanted, step)).len() ==> rank(
                #[trigger] (steps + step_if(wanted, step))[i],
            ) <= rank(step),
        forall|x: CliStep| #[trigger]
            (steps + step_if(wanted, step)).contains(x) == (steps.contains(x) || (wanted && x == step)),
{
    let all = steps + step_if(wanted, step);
    assert forall|x: CliStep| #[trigger]
        all.contains(x) == (steps.contains(x) || (wanted && x == step)) by {
        if steps.contains(x) {
            let i = choose|i: int| 0 <= i < steps.len() && steps[i] == x;
            assert(all[i] == x);
        }
        if wanted && x == step {
            assert(all[steps.len() as int] == x);
        }
        if all.contains(x) {
            let i = choose|i: int| 0 <= i < all.len() && all[i] == x;
            if i < steps.len() {
                assert(steps[i] == x);
            }
        }
    }
}

/// What is done for the options. A request that the launcher made of itself stands alone, and the
/// registration comes before its undoing. Otherwise each option has its own step, done once, and the
/// service is started before it is stopped, stopped before its state is told, and that before
/// anything is opened.
#[verifier::spinoff_prover]
#[verifier::rlimit(40)]
pub proof fn each_option_has_its_step(o: CliOptions)
    ensures
        o.elevate_register ==> steps_of(o) == seq![CliStep::RegisterDirect],
        !o.elevate_register && o.elevate_unregister ==> steps_of(o) == seq![CliStep::UnregisterDirect],
        !o.elevate_register && !o.elevate_unregister ==> {
            &&& steps_of(o).contains(CliStep::Start) == o.start
            &&& steps_of(o).contains(CliStep::Stop) == o.stop
            &&& steps_of(o).contains(CliStep::Status) == o.status
            &&& steps_of(o).contains(CliStep::Settings) == o.settings
            &&& steps_of(o).contains(CliStep::Userdata) == o.userdata
            &&& !steps_of(o).contains(CliStep::RegisterDirect)
            &&& !steps_of(o).contains(CliStep::UnregisterDirect)
        },
        in_order(steps_of(o)),
{
    if !o.elevate_register && !o.elevate_unregister {
        let none = Seq::<CliStep>::empty();
        let a = step_if(o.start, CliStep::Start);
        assert(none + a =~= a);
        one_more_step(none, o.start, CliStep::Start);
        let b = a + step_if(o.stop, CliStep::Stop);
        one_more_step(a, o.stop, CliStep::Stop);
        let c = b + step_if(o.status, CliStep::Status);
        one_more_step(b, o.status, CliStep::Status);
        let d = c + step_if(o.settings, CliStep::Settings);
        one_more_step(c, o.settings, CliStep::Settings);
        one_more_step(d, o.userdata, CliStep::Userdata);
        assert(steps_of(o) == d + step_if(o.userdata, CliStep::Userdata));
    }
}

/// What is told of a step: a start and the two ways of opening something always get a line, a stop
/// gets one that depends on whether anything was stopped; nothing is told of the others.
#[verifier::spinoff_prover]
#[verifier::rlimit(40)]
pub proof fn steps_are_told_apart(step: CliStep, other: CliStep, yes: bool, as_well: bool)
    ensures
        report_of(step, yes) is Some == (rank(step) > 0 && step != CliStep::Status),
        report_of(step, yes) is Some && report_of(step, yes) == report_of(other, as_well) ==> step == other
            && (step == CliStep::Stop ==> yes == as_well),
        step != CliStep::Stop ==> report_of(step, yes) == report_of(step, as_well),
        report_of(CliStep::Start, yes) == Some("service started"@),
        report_of(CliStep::Stop, true) == Some("service stopped"@),
{
    reveal_strlit("service started");
    reveal_strlit("service stopped");
    reveal_strlit("service not running");
    reveal_strlit("settings opened");
    reveal_strlit("userdata opened");
    assert("service started"@[10] == 'a');
    assert("service stopped"@[10] == 'o');
    assert("service started"@.len() == 15);
    assert("service stopped"@.len() == 15);
    assert("service not running"@.len() == 19);
    assert("settings opened"@.len() == 15);
    assert("userdata opened"@.len() == 15);
    assert("service started"@[8] == 's');
    assert("settings opened"@[8] == ' ');
    assert("userdata opened"@[0] == 'u');
    assert("service stopped"@[8] == 's');
    assert("settings opened"@[0] == 's');
    assert("service started"@[0] == 's');
    assert("service stopped"@[0] == 's');
}

/// The state of the service is told by one of two words.
pub proof fn state_has_a_word(running: bool)
    ensures
        running ==> word_for(running) == "running"@,
        !running ==> word_for(running) == "stopped"@,
{
}

} // verus!
