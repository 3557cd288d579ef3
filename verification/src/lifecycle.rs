//! What the starts, stops and updates of the service are good for, told by their actions alone.
//!
//! A run is a sequence of actions, each with its reply. The laws here speak of which actions come,
//! in which order, and after which replies.
use vstd::prelude::*;

use crate::layout::PortableConfig;
use crate::path;
use crate::reply::ReplyView;
use crate::service;
use crate::service::{Act, StartPhase, StopPhase, UpdateAct};

verus! {

/// An action was among the first `n` of a stop.
pub open spec fn stop_took(cfg: PortableConfig, r: Seq<ReplyView>, n: int, act: Act<Seq<char>>) -> bool {
    exists|j: int| 0 <= j < n && #[trigger] service::stop_did(cfg, r, j) == act
}

/// How often an action was among the first `n` of a stop.
pub open spec fn stop_times(cfg: PortableConfig, r: Seq<ReplyView>, n: int, act: Act<Seq<char>>) -> nat
    decreases n,
{
    if n <= 0 {
        0
    } else if service::stop_did(cfg, r, n - 1) == act {
        stop_times(cfg, r, n - 1, act) + 1
    } else {
        stop_times(cfg, r, n - 1, act)
    }
}

/// The service agreed to end, and its process was not found afterwards.
pub open spec fn went_by_itself(cfg: PortableConfig, r: Seq<ReplyView>, n: int) -> bool {
    exists|a: int, b: int|
        0 <= a < b < n && #[trigger] service::stop_did(cfg, r, a) == Act::<Seq<char>>::RequestShutdown
            && r[a].yes && #[trigger] service::stop_did(cfg, r, b) == Act::FindProcess(cfg.service_exe@)
            && !r[b].yes
}

proof fn stop_step(cfg: PortableConfig, r: Seq<ReplyView>, k: int)
    requires
        0 <= k < r.len(),
    ensures
        service::stop_after(cfg, r.take(k + 1)) == service::next_stop(
            cfg,
            service::stop_after(cfg, r.take(k)),
            r[k],
        ),
{
    assert(r.take(k + 1).drop_last() =~= r.take(k));
    assert(r.take(k + 1).last() == r[k]);
}

/// The service ran, or its process was there, when the stop looked.
pub open spec fn had_to_end(r: Seq<ReplyView>) -> bool {
    r[3].yes || r[5].yes
}

/// The process was waited for: it was not found, or it was looked for as often as is done.
spec fn waited_for(cfg: PortableConfig, r: Seq<ReplyView>, n: int) -> bool {
    ||| exists|a: int, b: int|
        0 <= a < b < n && #[trigger] service::stop_did(cfg, r, a) == Act::TerminatePath(cfg.service_exe@)
            && #[trigger] service::stop_did(cfg, r, b) == Act::FindProcess(cfg.service_exe@)
            && !r[b].yes
    ||| stop_times(cfg, r, n, Act::Sleep(300)) == 6
}

/// What stands behind a stop that has come to its `k`-th action.
spec fn stop_story(cfg: PortableConfig, r: Seq<ReplyView>, k: int) -> bool {
    let s = service::stop_after(cfg, r.take(k));
    let exe = cfg.service_exe@;
    let pauses = stop_times(cfg, r, k, Act::Sleep(300));
    let waits = stop_times(cfg, r, k, Act::Sleep(500));
    let quiet = !stop_took(cfg, r, k, Act::RequestShutdown) && !stop_took(
        cfg,
        r,
        k,
        Act::TerminatePath(exe),
    );
    let asked = k > 6 && service::stop_did(cfg, r, 6) == Act::<Seq<char>>::RequestShutdown;
    let known = k > 5 && s.was_running == r[3].yes && s.was_registered == r[4].yes
        && service::stop_did(cfg, r, 3) == Act::<Seq<char>>::ProbeService && service::stop_did(
        cfg,
        r,
        4,
    ) == Act::<Seq<char>>::CheckRegistered && service::stop_did(cfg, r, 5) == Act::FindProcess(exe)
        && r[1].error is None && service::stop_did(cfg, r, 2) == (Act::<
        Seq<char>,
    >::WriteMarker { stopped: true });
    let ended = if had_to_end(r) {
        ||| went_by_itself(cfg, r, k)
        ||| stop_took(cfg, r, k, Act::TerminatePath(exe)) && waited_for(cfg, r, k) && (!r[6].yes
            || waits == 6)
    } else {
        quiet
    };
    match s.phase {
        StopPhase::Probe => k == 0 && quiet && pauses == 0 && waits == 0,
        StopPhase::Conflict { running } => k == 1 && running == r[0].yes && quiet && pauses == 0 && waits
            == 0,
        StopPhase::SetStopped => k == 2 && r[1].error is None && quiet && pauses == 0 && waits == 0,
        StopPhase::AskRunning => k == 3 && r[1].error is None && service::stop_did(cfg, r, 2) == (Act::<
            Seq<char>,
        >::WriteMarker { stopped: true }) && quiet && pauses == 0 && waits == 0,
        StopPhase::AskRegistered => k == 4 && r[1].error is None && s.was_running == r[3].yes
            && service::stop_did(cfg, r, 3) == Act::<Seq<char>>::ProbeService && service::stop_did(
            cfg,
            r,
            2,
        ) == (Act::<Seq<char>>::WriteMarker { stopped: true }) && quiet && pauses == 0 && waits == 0,
        StopPhase::FindProcess => k == 5 && r[1].error is None && s.was_running == r[3].yes
            && s.was_registered == r[4].yes && service::stop_did(cfg, r, 3) == Act::<
            Seq<char>,
        >::ProbeService && service::stop_did(cfg, r, 4) == Act::<Seq<char>>::CheckRegistered
            && service::stop_did(cfg, r, 2) == (Act::<Seq<char>>::WriteMarker { stopped: true }) && quiet
            && pauses == 0 && waits == 0,
        StopPhase::Shutdown => known && k == 6 && had_to_end(r) && quiet && pauses == 0 && waits == 0,
        StopPhase::Wait(n) => known && had_to_end(r) && asked && r[6].yes && waits == n && pauses == 0 && n
            < 6 && !stop_took(cfg, r, k, Act::TerminatePath(exe)),
        StopPhase::Recheck(n) => known && had_to_end(r) && asked && r[6].yes && waits == n + 1 && pauses
            == 0 && n < 6 && !stop_took(cfg, r, k, Act::TerminatePath(exe)),
        StopPhase::TerminatePath => known && had_to_end(r) && asked && pauses == 0 && (!r[6].yes || waits
            == 6),
        StopPhase::TerminateName(name) => known && had_to_end(r) && asked && pauses == 0 && (!r[6].yes
            || waits == 6) && service::stop_did(cfg, r, k - 1) == Act::TerminatePath(exe) && !r[k
            - 1].yes && path::file_stem_of(exe) == Some(name),
        StopPhase::Verify(n) | StopPhase::Pause(n) => known && had_to_end(r) && asked && pauses == n && n
            < 6 && (!r[6].yes || waits == 6) && stop_took(cfg, r, k, Act::TerminatePath(exe)),
        StopPhase::AutostartOff => known && ended,
        StopPhase::Unregister => known && ended && r[4].yes && stop_took(
            cfg,
            r,
            k,
            Act::SetAutostart(false),
        ),
        StopPhase::Stopped => known && ended && stop_took(cfg, r, k, Act::SetAutostart(false)) && (r[4].yes
            ==> exists|j: int|
            0 <= j < k && #[trigger] service::stop_did(cfg, r, j) == Act::<Seq<char>>::Unregister
                && r[j].error is None),
        StopPhase::Failed(_) => true,
    }
}

proof fn took_stays(cfg: PortableConfig, r: Seq<ReplyView>, k: int, act: Act<Seq<char>>)
    requires
        0 <= k,
    ensures
        stop_took(cfg, r, k + 1, act) == (stop_took(cfg, r, k, act) || service::stop_did(cfg, r, k) == act),
{
    if stop_took(cfg, r, k, act) {
        let j = choose|j: int| 0 <= j < k && #[trigger] service::stop_did(cfg, r, j) == act;
        assert(service::stop_did(cfg, r, j) == act);
    }
}

#[verifier::spinoff_prover]
#[verifier::rlimit(50)]
proof fn stop_story_holds(cfg: PortableConfig, r: Seq<ReplyView>, k: int)
    requires
        0 <= k <= r.len(),
    ensures
        stop_story(cfg, r, k),
    decreases k,
{
    if k == 0 {
        assert(r.take(0) =~= seq![]);
    } else {
        let p = k - 1;
        stop_story_holds(cfg, r, p);
        stop_step(cfg, r, p);
        took_stays(cfg, r, p, Act::RequestShutdown);
        took_stays(cfg, r, p, Act::TerminatePath(cfg.service_exe@));
        took_stays(cfg, r, p, Act::SetAutostart(false));
        let did = service::stop_did(cfg, r, p);
        let s = service::stop_after(cfg, r.take(p));
        match s.phase {
            StopPhase::Recheck(n) => {
                if !r[p].yes {
                    assert(service::stop_did(cfg, r, 6) == Act::<Seq<char>>::RequestShutdown);
                    assert(did == Act::FindProcess(cfg.service_exe@));
                    assert(went_by_itself(cfg, r, k));
                }
            },
            StopPhase::Verify(n) => {
                if !r[p].yes {
                    let a = choose|a: int|
                        0 <= a < p && #[trigger] service::stop_did(cfg, r, a) == Act::TerminatePath(
                            cfg.service_exe@,
                        );
                    assert(did == Act::FindProcess(cfg.service_exe@));
                    assert(waited_for(cfg, r, k));
                }
            },
            StopPhase::AutostartOff | StopPhase::Unregister | StopPhase::Stopped => {
                if went_by_itself(cfg, r, p) {
                    let (a, b) = choose|a: int, b: int|
                        0 <= a < b < p && #[trigger] service::stop_did(cfg, r, a) == Act::<
                            Seq<char>,
                        >::RequestShutdown && r[a].yes && #[trigger] service::stop_did(cfg, r, b)
                            == Act::FindProcess(cfg.service_exe@) && !r[b].yes;
                    assert(service::stop_did(cfg, r, a) == Act::<Seq<char>>::RequestShutdown);
                    assert(went_by_itself(cfg, r, k));
                }
                if waited_for(cfg, r, p) && stop_times(cfg, r, p, Act::Sleep(300)) != 6 {
                    let (a, b) = choose|a: int, b: int|
                        0 <= a < b < p && #[trigger] service::stop_did(cfg, r, a) == Act::TerminatePath(
                            cfg.service_exe@,
                        ) && #[trigger] service::stop_did(cfg, r, b) == Act::FindProcess(
                            cfg.service_exe@,
                        ) && !r[b].yes;
                    assert(service::stop_did(cfg, r, a) == Act::TerminatePath(cfg.service_exe@));
                    assert(waited_for(cfg, r, k));
                }
                if s.phase is Stopped && r[4].yes {
                    let j = choose|j: int|
                        0 <= j < p && #[trigger] service::stop_did(cfg, r, j) == Act::<
                            Seq<char>,
                        >::Unregister && r[j].error is None;
                    assert(service::stop_did(cfg, r, j) == Act::<Seq<char>>::Unregister);
                }
                if s.phase is Unregister && r[p].error is None {
                    assert(did == Act::<Seq<char>>::Unregister);
                }
            },
            _ => {},
        }
    }
}

/// A stop asks what stands against it, then marks the package, and only then asks whether the
/// service runs, whether the package is registered, and whether there is a process.
pub proof fn stop_begins(cfg: PortableConfig, r: Seq<ReplyView>)
    requires
        r.len() >= 2,
    ensures
        service::stop_did(cfg, r, 0) == Act::<Seq<char>>::ProbeService,
        service::stop_did(cfg, r, 1) == (Act::<Seq<char>>::CheckConflict { running: r[0].yes }),
        match r[1].error {
            Some(e) => service::stop_did(cfg, r, 2) == Act::<Seq<char>>::Finish(
                Err("停止服务"@ + "失败："@ + e),
            ),
            None => {
                &&& service::stop_did(cfg, r, 2) == (Act::<Seq<char>>::WriteMarker { stopped: true })
                &&& r.len() >= 3 ==> service::stop_did(cfg, r, 3) == Act::<Seq<char>>::ProbeService
                &&& r.len() >= 4 ==> service::stop_did(cfg, r, 4) == Act::<Seq<char>>::CheckRegistered
                &&& r.len() >= 5 ==> service::stop_did(cfg, r, 5) == Act::FindProcess(
                    cfg.service_exe@,
                )
            },
        },
{
    assert(r.take(0) =~= seq![]);
    stop_step(cfg, r, 0);
    stop_step(cfg, r, 1);
    if r.len() >= 3 {
        stop_step(cfg, r, 2);
    }
    if r.len() >= 4 {
        stop_step(cfg, r, 3);
    }
    if r.len() >= 5 {
        stop_step(cfg, r, 4);
    }
}

/// A stop that has come to its clearing up has ended the service: if the service ran, or its process
/// was there, then it went by itself, or it was terminated by its path after it had refused to end
/// or had been waited for; and a terminated process was waited for. If neither was so, nothing was
/// asked to end or terminated.
pub proof fn stop_ends_the_service(cfg: PortableConfig, r: Seq<ReplyView>, n: int)
    requires
        0 <= n <= r.len(),
        match service::stop_did(cfg, r, n) {
            Act::SetAutostart(_) => true,
            Act::Unregister => true,
            Act::Finish(Ok(_)) => true,
            _ => false,
        },
    ensures
        n > 5,
        if r[3].yes || r[5].yes {
            ||| went_by_itself(cfg, r, n)
            ||| {
                &&& stop_took(cfg, r, n, Act::TerminatePath(cfg.service_exe@))
                &&& !r[6].yes || stop_times(cfg, r, n, Act::Sleep(500)) == 6
                &&& {
                    ||| stop_times(cfg, r, n, Act::Sleep(300)) == 6
                    ||| exists|a: int, b: int|
                        0 <= a < b < n && #[trigger] service::stop_did(cfg, r, a)
                            == Act::TerminatePath(cfg.service_exe@) && #[trigger] service::stop_did(
                            cfg,
                            r,
                            b,
                        ) == Act::FindProcess(cfg.service_exe@) && !r[b].yes
                }
            }
        } else {
            !stop_took(cfg, r, n, Act::RequestShutdown) && !stop_took(
                cfg,
                r,
                n,
                Act::TerminatePath(cfg.service_exe@),
            )
        },
{
    stop_story_holds(cfg, r, n);
}

/// What a stop answers, and what it has done by then: it ran if the service answered, or the package
/// was registered; and what was registered is so no longer.
pub proof fn stop_tells_what_was(cfg: PortableConfig, r: Seq<ReplyView>, n: int, answer: bool)
    requires
        0 <= n <= r.len(),
        service::stop_did(cfg, r, n) == Act::<Seq<char>>::Finish(Ok(answer)),
    ensures
        n > 5,
        answer == (r[3].yes || r[4].yes),
        stop_took(cfg, r, n, Act::SetAutostart(false)),
        r[4].yes ==> exists|j: int|
            0 <= j < n && #[trigger] service::stop_did(cfg, r, j) == Act::<Seq<char>>::Unregister
                && r[j].error is None,
{
    stop_story_holds(cfg, r, n);
}

/// What follows what in a stop: a refusal to end is followed by termination by path, a path that hit
/// nothing by termination by name, and errors end the stop where they matter.
pub proof fn stop_follows(cfg: PortableConfig, r: Seq<ReplyView>, k: int)
    requires
        0 <= k < r.len(),
    ensures
        ({
            let next = service::stop_did(cfg, r, k + 1);
            match service::stop_did(cfg, r, k) {
                Act::RequestShutdown => next == if r[k].yes {
                    Act::<Seq<char>>::Sleep(500)
                } else {
                    Act::TerminatePath(cfg.service_exe@)
                },
                Act::TerminatePath(target) => {
                    &&& target == cfg.service_exe@
                    &&& r[k].yes ==> next == Act::FindProcess(cfg.service_exe@)
                    &&& match path::file_stem_of(cfg.service_exe@) {
                        Some(stem) => !r[k].yes && stem.len() > 0 ==> next == Act::TerminateName(stem),
                        None => next == Act::FindProcess(cfg.service_exe@),
                    }
                },
                Act::FindProcess(target) => {
                    &&& target == cfg.service_exe@
                    &&& k >= 5
                    &&& k == 5 ==> next == if r[3].yes || r[5].yes {
                        Act::<Seq<char>>::RequestShutdown
                    } else {
                        Act::SetAutostart(false)
                    }
                    &&& k > 5 && !r[k].yes ==> next == Act::<Seq<char>>::SetAutostart(false)
                    &&& k > 5 && r[k].yes ==> next == if stop_took(
                        cfg,
                        r,
                        k,
                        Act::TerminatePath(cfg.service_exe@),
                    ) {
                        Act::<Seq<char>>::Sleep(300)
                    } else if stop_times(cfg, r, k, Act::Sleep(500)) < 6 {
                        Act::Sleep(500)
                    } else {
                        Act::TerminatePath(cfg.service_exe@)
                    }
                },
                Act::TerminateName(_) => next == Act::FindProcess(cfg.service_exe@),
                Act::Sleep(_) => next == if stop_times(cfg, r, k + 1, Act::Sleep(300)) < 6 {
                    Act::FindProcess(cfg.service_exe@)
                } else {
                    Act::SetAutostart(false)
                },
                Act::SetAutostart(_) => next == if r[4].yes {
                    Act::<Seq<char>>::Unregister
                } else {
                    Act::Finish(Ok(r[3].yes))
                },
                Act::Unregister => next == match r[k].error {
                    Some(e) => Act::<Seq<char>>::Finish(Err(e)),
                    None => Act::Finish(Ok(true)),
                },
                Act::Finish(result) => next == Act::Finish(result),
                Act::CheckConflict { .. } => true,
                _ => !(next is Finish),
            }
        }),
{
    stop_story_holds(cfg, r, k);
    stop_step(cfg, r, k);
}

/// An action was among the first `n` of a start.
pub open spec fn start_took(
    cfg: PortableConfig,
    r: Seq<ReplyView>,
    n: int,
    act: Act<Seq<char>>,
) -> bool {
    exists|j: int| 0 <= j < n && #[trigger] service::start_did(cfg, r, j) == act
}

/// How often an action was among the first `n` of a start.
pub open spec fn start_times(
    cfg: PortableConfig,
    r: Seq<ReplyView>,
    n: int,
    act: Act<Seq<char>>,
) -> nat
    decreases n,
{
    if n <= 0 {
        0
    } else if service::start_did(cfg, r, n - 1) == act {
        start_times(cfg, r, n - 1, act) + 1
    } else {
        start_times(cfg, r, n - 1, act)
    }
}

/// A service that is not this package's agreed to end, and no service answered afterwards.
pub open spec fn stale_went(cfg: PortableConfig, r: Seq<ReplyView>, n: int) -> bool {
    exists|a: int, b: int|
        0 <= a < b < n && #[trigger] service::start_did(cfg, r, a) == Act::<Seq<char>>::RequestShutdown
            && r[a].yes && #[trigger] service::start_did(cfg, r, b) == Act::<Seq<char>>::ProbeService
            && !r[b].yes
}

/// A service that is not this package's was ended: it went, or it was terminated by its name, where
/// there is a name.
pub open spec fn stale_is_ended(cfg: PortableConfig, r: Seq<ReplyView>, n: int) -> bool {
    ||| stale_went(cfg, r, n)
    ||| match path::file_stem_of(cfg.service_exe@) {
        Some(stem) => stem.len() > 0 ==> start_took(cfg, r, n, Act::TerminateName(stem)) && (!r[4].yes
            || start_times(cfg, r, n, Act::Sleep(500)) == 6),
        None => true,
    }
}

/// No service was asked to end, and none was terminated.
pub open spec fn start_spared_all(cfg: PortableConfig, r: Seq<ReplyView>, n: int) -> bool {
    forall|j: int|
        0 <= j < n ==> match #[trigger] service::start_did(cfg, r, j) {
            Act::RequestShutdown => false,
            Act::TerminatePath(_) => false,
            Act::TerminateName(_) => false,
            _ => true,
        }
}

proof fn start_step(cfg: PortableConfig, r: Seq<ReplyView>, k: int)
    requires
        0 <= k < r.len(),
    ensures
        service::start_after(cfg, r.take(k + 1)) == service::next_start(
            cfg,
            service::start_after(cfg, r.take(k)),
            r[k],
        ),
{
    assert(r.take(k + 1).drop_last() =~= r.take(k));
    assert(r.take(k + 1).last() == r[k]);
}

/// The place is free for this package's service: none was found, or the one that was found is ended.
spec fn place_is_free(cfg: PortableConfig, r: Seq<ReplyView>, k: int) -> bool {
    &&& k > 2 && r[1].error is None
    &&& service::start_did(cfg, r, 2) == Act::<Seq<char>>::ProbeService
    &&& if r[2].yes {
        &&& k > 3 && !r[3].yes
        &&& service::start_did(cfg, r, 3) == Act::FindProcess(cfg.service_exe@)
        &&& stale_is_ended(cfg, r, k)
    } else {
        start_spared_all(cfg, r, k)
    }
}

/// What stands behind a start that has come to its `k`-th action.
spec fn start_story(cfg: PortableConfig, r: Seq<ReplyView>, k: int) -> bool {
    let exe = cfg.service_exe@;
    let waits = start_times(cfg, r, k, Act::Sleep(500));
    let spared = start_spared_all(cfg, r, k);
    let stale = k > 4 && r[1].error is None && r[2].yes && !r[3].yes && service::start_did(cfg, r, 2)
        == Act::<Seq<char>>::ProbeService && service::start_did(cfg, r, 3) == Act::FindProcess(exe)
        && service::start_did(cfg, r, 4) == Act::<Seq<char>>::RequestShutdown;
    let free = place_is_free(cfg, r, k);
    match service::start_after(cfg, r.take(k)) {
        StartPhase::Probe => k == 0 && waits == 0 && spared,
        StartPhase::Conflict { running } => k == 1 && running == r[0].yes && waits == 0 && spared,
        StartPhase::ProbeAgain => k == 2 && r[1].error is None && waits == 0 && spared,
        StartPhase::FindOwn => k == 3 && r[1].error is None && r[2].yes && service::start_did(cfg, r, 2)
            == Act::<Seq<char>>::ProbeService && waits == 0 && spared,
        StartPhase::Shutdown => k == 4 && r[1].error is None && r[2].yes && !r[3].yes
            && service::start_did(cfg, r, 2) == Act::<Seq<char>>::ProbeService && service::start_did(
            cfg,
            r,
            3,
        ) == Act::FindProcess(exe) && waits == 0,
        StartPhase::Wait(n) => stale && r[4].yes && waits == n && n < 6,
        StartPhase::Recheck(n) => stale && r[4].yes && waits == n + 1 && n < 6,
        StartPhase::Terminate(stem) => stale && path::file_stem_of(exe) == Some(stem) && (!r[4].yes
            || waits == 6),
        StartPhase::Layout => free,
        StartPhase::ClearStopped => free && start_took(cfg, r, k, Act::PrepareLayout),
        StartPhase::AskRegistered | StartPhase::Register | StartPhase::Autostart | StartPhase::CheckExe =>
            free && start_took(cfg, r, k, Act::PrepareLayout) && start_took(
                cfg,
                r,
                k,
                Act::WriteMarker { stopped: false },
            ),
        StartPhase::Launch(dir) => free && start_took(cfg, r, k, Act::PrepareLayout) && start_took(
            cfg,
            r,
            k,
            Act::WriteMarker { stopped: false },
        ) && path::parent_of(exe) == Some(dir),
        StartPhase::Started => {
            ||| k > 3 && r[1].error is None && r[2].yes && r[3].yes && service::start_did(cfg, r, 3)
                == Act::FindProcess(exe) && spared
            ||| free && exists|j: int|
                0 <= j < k && (#[trigger] service::start_did(cfg, r, j) matches Act::Launch {
                    exe: e,
                    dir,
                } && e == exe && path::parent_of(exe) == Some(dir)) && r[j].error is None
        },
        StartPhase::Failed(_) => true,
    }
}

proof fn start_took_stays(cfg: PortableConfig, r: Seq<ReplyView>, k: int, act: Act<Seq<char>>)
    requires
        0 <= k,
    ensures
        start_took(cfg, r, k + 1, act) == (start_took(cfg, r, k, act) || service::start_did(cfg, r, k)
            == act),
{
    if start_took(cfg, r, k, act) {
        let j = choose|j: int| 0 <= j < k && #[trigger] service::start_did(cfg, r, j) == act;
        assert(service::start_did(cfg, r, j) == act);
    }
}

#[verifier::spinoff_prover]
#[verifier::rlimit(50)]
proof fn start_story_holds(cfg: PortableConfig, r: Seq<ReplyView>, k: int)
    requires
        0 <= k <= r.len(),
    ensures
        start_story(cfg, r, k),
    decreases k,
{
    if k == 0 {
        assert(r.take(0) =~= seq![]);
    } else {
        let p = k - 1;
        start_story_holds(cfg, r, p);
        start_step(cfg, r, p);
        start_took_stays(cfg, r, p, Act::PrepareLayout);
        start_took_stays(cfg, r, p, Act::WriteMarker { stopped: false });
        let did = service::start_did(cfg, r, p);
        let phase = service::start_after(cfg, r.take(p));
        assert(did == service::start_act(cfg, phase));
        match path::file_stem_of(cfg.service_exe@) {
            Some(stem) => {
                start_took_stays(cfg, r, p, Act::TerminateName(stem));
            },
            None => {},
        }
        if stale_went(cfg, r, p) {
            let (a, b) = choose|a: int, b: int|
                0 <= a < b < p && #[trigger] service::start_did(cfg, r, a) == Act::<
                    Seq<char>,
                >::RequestShutdown && r[a].yes && #[trigger] service::start_did(cfg, r, b) == Act::<
                    Seq<char>,
                >::ProbeService && !r[b].yes;
            assert(service::start_did(cfg, r, a) == Act::<Seq<char>>::RequestShutdown);
            assert(stale_went(cfg, r, k));
        }
        match phase {
            StartPhase::Recheck(n) => {
                if !r[p].yes {
                    assert(service::start_did(cfg, r, 4) == Act::<Seq<char>>::RequestShutdown);
                    assert(did == Act::<Seq<char>>::ProbeService);
                    assert(stale_went(cfg, r, k));
                }
            },
            StartPhase::Launch(dir) => {
                assert(did == (Act::Launch { exe: cfg.service_exe@, dir }));
            },
            StartPhase::Started => {
                if exists|j: int|
                    0 <= j < p && (#[trigger] service::start_did(cfg, r, j) matches Act::Launch {
                        exe: e,
                        dir,
                    } && e == cfg.service_exe@ && path::parent_of(cfg.service_exe@) == Some(dir))
                        && r[j].error is None {
                    let j = choose|j: int|
                        0 <= j < p && (#[trigger] service::start_did(cfg, r, j) matches Act::Launch {
                            exe: e,
                            dir,
                        } && e == cfg.service_exe@ && path::parent_of(cfg.service_exe@) == Some(dir))
                            && r[j].error is None;
                    assert(service::start_did(cfg, r, j) is Launch);
                }
            },
            _ => {},
        }
    }
}

/// Before anything of the package is touched, and so before its service is started, the place is
/// free: a service that answered and is not this package's went when it was asked to, or it was
/// terminated by its name, once it had refused or had been waited for; and where no service answered,
/// none was asked to end or terminated.
pub proof fn start_clears_the_place(cfg: PortableConfig, r: Seq<ReplyView>, n: int)
    requires
        0 <= n <= r.len(),
        match service::start_did(cfg, r, n) {
            Act::PrepareLayout => true,
            Act::WriteMarker { .. } => true,
            Act::CheckRegistered => true,
            Act::Register => true,
            Act::SetAutostart(_) => true,
            Act::CheckFile(_) => true,
            Act::Launch { .. } => true,
            _ => false,
        },
    ensures
        n > 2,
        r[1].error is None,
        service::start_did(cfg, r, 2) == Act::<Seq<char>>::ProbeService,
        if r[2].yes {
            &&& n > 3
            &&& service::start_did(cfg, r, 3) == Act::FindProcess(cfg.service_exe@)
            &&& !r[3].yes
            &&& stale_is_ended(cfg, r, n)
        } else {
            start_spared_all(cfg, r, n)
        },
{
    start_story_holds(cfg, r, n);
}

/// A start that succeeds has found the package's own service running, and then ended nothing; or it
/// has started the package's service, in its directory.
pub proof fn start_means_running(cfg: PortableConfig, r: Seq<ReplyView>, n: int, answer: bool)
    requires
        0 <= n <= r.len(),
        service::start_did(cfg, r, n) == Act::<Seq<char>>::Finish(Ok(answer)),
    ensures
        ({
            ||| n > 3 && r[2].yes && r[3].yes && service::start_did(cfg, r, 3) == Act::FindProcess(
                cfg.service_exe@,
            ) && start_spared_all(cfg, r, n)
            ||| exists|j: int|
                0 <= j < n && (#[trigger] service::start_did(cfg, r, j) matches Act::Launch {
                    exe,
                    dir,
                } && exe == cfg.service_exe@ && path::parent_of(cfg.service_exe@) == Some(dir))
                    && r[j].error is None
        }),
{
    start_story_holds(cfg, r, n);
}

/// What follows what in a start.
pub proof fn start_follows(cfg: PortableConfig, r: Seq<ReplyView>, k: int)
    requires
        0 <= k < r.len(),
    ensures
        service::start_did(cfg, r, 0) == Act::<Seq<char>>::ProbeService,
        k == 0 ==> service::start_did(cfg, r, 1) == (Act::<Seq<char>>::CheckConflict {
            running: r[0].yes,
        }),
        ({
            let exe = cfg.service_exe@;
            let next = service::start_did(cfg, r, k + 1);
            match service::start_did(cfg, r, k) {
                Act::CheckConflict { .. } => next == match r[k].error {
                    Some(e) => Act::<Seq<char>>::Finish(Err("启动服务"@ + "失败："@ + e)),
                    None => Act::ProbeService,
                },
                Act::FindProcess(p) => p == exe && next == if r[k].yes {
                    Act::<Seq<char>>::Finish(Ok(true))
                } else {
                    Act::RequestShutdown
                },
                Act::RequestShutdown => if r[k].yes {
                    next == Act::<Seq<char>>::Sleep(500)
                } else {
                    match path::file_stem_of(exe) {
                        Some(stem) => next == if stem.len() > 0 {
                            Act::TerminateName(stem)
                        } else {
                            Act::PrepareLayout
                        },
                        None => next == Act::<Seq<char>>::PrepareLayout,
                    }
                },
                Act::Sleep(_) => next == Act::<Seq<char>>::ProbeService,
                Act::TerminateName(_) => next == Act::<Seq<char>>::PrepareLayout,
                Act::PrepareLayout => next == match r[k].error {
                    Some(e) => Act::<Seq<char>>::Finish(Err(e)),
                    None => Act::WriteMarker { stopped: false },
                },
                Act::WriteMarker { stopped } => !stopped && next == Act::<Seq<char>>::CheckRegistered,
                Act::CheckRegistered => next == if r[k].yes {
                    Act::<Seq<char>>::SetAutostart(true)
                } else {
                    Act::Register
                },
                Act::Register => next == match r[k].error {
                    Some(e) => Act::<Seq<char>>::Finish(Err(e)),
                    None => Act::SetAutostart(true),
                },
                Act::SetAutostart(on) => on && next == Act::CheckFile(exe),
                Act::CheckFile(p) => {
                    &&& p == exe
                    &&& !r[k].yes ==> next == Act::<Seq<char>>::Finish(
                        Err("未找到服务程序: "@ + exe),
                    )
                    &&& r[k].yes ==> match path::parent_of(exe) {
                        Some(dir) => next == (Act::Launch { exe, dir }),
                        None => next == Act::<Seq<char>>::Finish(Err("服务路径无父目录"@)),
                    }
                },
                Act::Launch { exe: e, .. } => e == exe && next == match r[k].error {
                    Some(e) => Act::<Seq<char>>::Finish(Err("启动服务进程失败: "@ + e)),
                    None => Act::Finish(Ok(true)),
                },
                Act::Finish(result) => next == Act::Finish(result),
                Act::ProbeService => {
                    &&& k == 0 || k >= 2
                    &&& k >= 2 && !r[k].yes ==> next == Act::<Seq<char>>::PrepareLayout
                    &&& k == 2 && r[k].yes ==> next == Act::FindProcess(exe)
                    &&& k > 2 && r[k].yes ==> if start_times(cfg, r, k, Act::Sleep(500)) < 6 {
                        next == Act::<Seq<char>>::Sleep(500)
                    } else {
                        match path::file_stem_of(exe) {
                            Some(stem) => next == if stem.len() > 0 {
                                Act::TerminateName(stem)
                            } else {
                                Act::PrepareLayout
                            },
                            None => next == Act::<Seq<char>>::PrepareLayout,
                        }
                    }
                },
                Act::TerminatePath(_) => false,
                Act::Unregister => false,
            }
        }),
{
    assert(r.take(0) =~= seq![]);
    start_story_holds(cfg, r, k);
    start_step(cfg, r, k);
}

proof fn update_step(r: Seq<ReplyView>, k: int)
    requires
        0 <= k < r.len(),
    ensures
        service::update_after(r.take(k + 1)) == service::next_update(
            service::update_after(r.take(k)),
            r[k],
        ),
{
    assert(r.take(k + 1).drop_last() =~= r.take(k));
    assert(r.take(k + 1).last() == r[k]);
}

/// The `k`-th action of an update.
pub open spec fn update_did(r: Seq<ReplyView>, k: int) -> UpdateAct<Seq<char>> {
    service::update_act(service::update_after(r.take(k)))
}

/// The course of an update: the package is marked as stopped, the service is stopped, whatever comes
/// of that, and the archive is deployed. If that fails, the mark goes and the update fails with the
/// reason. Otherwise the mark goes and the service is started; if that fails, the mark comes back and
/// the update fails, and if it succeeds, the update tells whether the launcher was replaced.
pub proof fn course_of_an_update(r: Seq<ReplyView>)
    requires
        r.len() >= 6,
    ensures
        update_did(r, 0) == (UpdateAct::<Seq<char>>::WriteMarker { stopped: true }),
        update_did(r, 1) == UpdateAct::<Seq<char>>::StopService,
        update_did(r, 2) == UpdateAct::<Seq<char>>::DeployZip,
        update_did(r, 3) == (UpdateAct::<Seq<char>>::WriteMarker { stopped: false }),
        match r[2].error {
            Some(e) => update_did(r, 4) == UpdateAct::<Seq<char>>::Finish(
                Err("文件替换失败: "@ + e),
            ),
            None => {
                &&& update_did(r, 4) == UpdateAct::<Seq<char>>::StartService
                &&& match r[4].error {
                    None => update_did(r, 5) == UpdateAct::<Seq<char>>::Finish(Ok(r[2].yes)),
                    Some(e) => {
                        &&& update_did(r, 5) == (UpdateAct::<Seq<char>>::WriteMarker { stopped: true })
                        &&& update_did(r, 6) == UpdateAct::<Seq<char>>::Finish(
                            Err(
                                "文件已更新，但服务启动失败："@ + e
                                    + "（请手动点击启动服务）"@,
                            ),
                        )
                    },
                }
            },
        },
{
    assert(r.take(0) =~= seq![]);
    update_step(r, 0);
    update_step(r, 1);
    update_step(r, 2);
    update_step(r, 3);
    update_step(r, 4);
    update_step(r, 5);
}

/// An update that has ended stays as it ended.
pub proof fn ended_update_stays(r: Seq<ReplyView>, k: int)
    requires
        0 <= k < r.len(),
        update_did(r, k) is Finish,
    ensures
        update_did(r, k + 1) == update_did(r, k),
{
    update_step(r, k);
}

} // verus!
