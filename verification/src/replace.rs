//! Putting a new file in the place of an old one.
//!
//! The new content is written beside the destination first and then renamed into place, so that a
//! write that fails midway leaves the old file alone. A destination that is in use cannot be
//! overwritten but can be renamed: it is moved aside, and the new file takes its place.
use vstd::prelude::*;
use vstd::string::*;

use crate::deploy;
use crate::text;

verus! {

/// How far the replacement is.
#[derive(Debug)]
pub enum Phase<S> {
    /// The directory is about to be made.
    MakeDir(S),
    /// The content is about to be written to the file.
    Write(S),
    /// The written file is about to be renamed into place.
    Place(S),
    /// The old file is about to be moved aside: first the written file, then the name aside.
    Stash(S, S),
    /// The written file is about to be renamed into place for the second time.
    Retry(S, S),
    /// The written file is about to be removed: the file, and why it could not be placed.
    Discard(S, S),
    Placed,
    Failed(S),
}

/// What is to be done next.
#[derive(Debug)]
pub enum FileAction<S> {
    MakeDir(S),
    /// Write the whole content to the file.
    Write(S),
    Rename(S, S),
    Remove(S),
    Finish(Result<(), S>),
}

/// The replacement of one file.
#[derive(Debug)]
pub struct Replace {
    pub dst: String,
    pub phase: Phase<String>,
}

pub open spec fn phase_view(p: Phase<String>) -> Phase<Seq<char>> {
    match p {
        Phase::MakeDir(a) => Phase::MakeDir(a@),
        Phase::Write(a) => Phase::Write(a@),
        Phase::Place(a) => Phase::Place(a@),
        Phase::Stash(a, b) => Phase::Stash(a@, b@),
        Phase::Retry(a, b) => Phase::Retry(a@, b@),
        Phase::Discard(a, b) => Phase::Discard(a@, b@),
        Phase::Placed => Phase::Placed,
        Phase::Failed(a) => Phase::Failed(a@),
    }
}

pub open spec fn action_view(a: FileAction<String>) -> FileAction<Seq<char>> {
    match a {
        FileAction::MakeDir(x) => FileAction::MakeDir(x@),
        FileAction::Write(x) => FileAction::Write(x@),
        FileAction::Rename(x, y) => FileAction::Rename(x@, y@),
        FileAction::Remove(x) => FileAction::Remove(x@),
        FileAction::Finish(Ok(_)) => FileAction::Finish(Ok(())),
        FileAction::Finish(Err(e)) => FileAction::Finish(Err(e@)),
    }
}

pub open spec fn first_phase(dst: Seq<char>, dir: Option<Seq<char>>, now: nat) -> Phase<Seq<char>> {
    match dir {
        Some(d) => Phase::MakeDir(d),
        None => Phase::Write(deploy::beside(dst, "new"@, now)),
    }
}

/// The phase that follows; `error` tells why the last action failed, where it did.
pub open spec fn next_phase(
    dst: Seq<char>,
    phase: Phase<Seq<char>>,
    error: Option<Seq<char>>,
    now: nat,
) -> Phase<Seq<char>> {
    match phase {
        Phase::MakeDir(_) => match error {
            None => Phase::Write(deploy::beside(dst, "new"@, now)),
            Some(e) => Phase::Failed("创建目录失败: "@ + e),
        },
        Phase::Write(tmp) => match error {
            None => Phase::Place(tmp),
            Some(e) => Phase::Failed("解压失败: "@ + e),
        },
        Phase::Place(tmp) => match error {
            None => Phase::Placed,
            Some(_) => Phase::Stash(tmp, deploy::beside(dst, "old"@, now)),
        },
        Phase::Stash(tmp, aside) => Phase::Retry(tmp, aside),
        Phase::Retry(tmp, _) => match error {
            None => Phase::Placed,
            Some(e) => Phase::Discard(tmp, e),
        },
        Phase::Discard(_, e) => Phase::Failed("替换文件失败 "@ + dst + ": "@ + e),
        Phase::Placed => Phase::Placed,
        Phase::Failed(e) => Phase::Failed(e),
    }
}

pub open spec fn action_in(dst: Seq<char>, phase: Phase<Seq<char>>) -> FileAction<Seq<char>> {
    match phase {
        Phase::MakeDir(d) => FileAction::MakeDir(d),
        Phase::Write(tmp) => FileAction::Write(tmp),
        Phase::Place(tmp) => FileAction::Rename(tmp, dst),
        Phase::Stash(_, aside) => FileAction::Rename(dst, aside),
        Phase::Retry(tmp, _) => FileAction::Rename(tmp, dst),
        Phase::Discard(tmp, _) => FileAction::Remove(tmp),
        Phase::Placed => FileAction::Finish(Ok(())),
        Phase::Failed(e) => FileAction::Finish(Err(e)),
    }
}

impl Replace {
    /// Starts the replacement of `dst`, in the directory `dir`, at the moment `now`.
    pub fn new(dst: &str, dir: Option<&str>, now: u128) -> (r: Replace)
        ensures
            r.dst@ == dst@,
            phase_view(r.phase) == first_phase(dst@, crate::variant::opt_view(dir), now as nat),
    {
        let phase = match dir {
            Some(d) => Phase::MakeDir(String::from_str(d)),
            None => Phase::Write(deploy::suffix_name(dst, "new", now)),
        };
        Replace { dst: String::from_str(dst), phase }
    }

    /// What is to be done next.
    pub fn action(&self) -> (r: FileAction<String>)
        ensures
            action_view(r) == action_in(self.dst@, phase_view(self.phase)),
    {
        match &self.phase {
            Phase::MakeDir(d) => FileAction::MakeDir(d.clone()),
            Phase::Write(tmp) => FileAction::Write(tmp.clone()),
            Phase::Place(tmp) => FileAction::Rename(tmp.clone(), self.dst.clone()),
            Phase::Stash(_, aside) => FileAction::Rename(self.dst.clone(), aside.clone()),
            Phase::Retry(tmp, _) => FileAction::Rename(tmp.clone(), self.dst.clone()),
            Phase::Discard(tmp, _) => FileAction::Remove(tmp.clone()),
            Phase::Placed => FileAction::Finish(Ok(())),
            Phase::Failed(e) => FileAction::Finish(Err(e.clone())),
        }
    }

    /// Takes note of how the last action went, at the moment `now`.
    pub fn step(self, error: Option<String>, now: u128) -> (r: Replace)
        ensures
            r.dst@ == self.dst@,
            phase_view(r.phase) == next_phase(
                self.dst@,
                phase_view(self.phase),
                error.deep_view(),
                now as nat,
            ),
    {
        let dst = self.dst;
        let phase = match self.phase {
            Phase::MakeDir(_) => match error {
                None => Phase::Write(deploy::suffix_name(dst.as_str(), "new", now)),
                Some(e) => Phase::Failed(text::cat2("创建目录失败: ", e.as_str())),
            },
            Phase::Write(tmp) => match error {
                None => Phase::Place(tmp),
                Some(e) => Phase::Failed(text::cat2("解压失败: ", e.as_str())),
            },
            Phase::Place(tmp) => match error {
                None => Phase::Placed,
                Some(_) => Phase::Stash(tmp, deploy::suffix_name(dst.as_str(), "old", now)),
            },
            Phase::Stash(tmp, aside) => Phase::Retry(tmp, aside),
            Phase::Retry(tmp, _) => match error {
                None => Phase::Placed,
                Some(e) => Phase::Discard(tmp, e),
            },
            Phase::Discard(_, e) => Phase::Failed(
                text::cat4("替换文件失败 ", dst.as_str(), ": ", e.as_str()),
            ),
            Phase::Placed => Phase::Placed,
            Phase::Failed(e) => Phase::Failed(e),
        };
        Replace { dst, phase }
    }
}

/// How many actions are left at most.
pub open spec fn actions_left(phase: Phase<Seq<char>>) -> nat {
    match phase {
        Phase::MakeDir(_) => 6,
        Phase::Write(_) => 5,
        Phase::Place(_) => 4,
        Phase::Stash(_, _) => 3,
        Phase::Retry(_, _) => 2,
        Phase::Discard(_, _) => 1,
        _ => 0,
    }
}

/// A replacement ends after a few actions, whatever comes of them.
pub proof fn replacement_ends(
    dst: Seq<char>,
    phase: Phase<Seq<char>>,
    error: Option<Seq<char>>,
    now: nat,
)
    ensures
        actions_left(phase) > 0 ==> actions_left(next_phase(dst, phase, error, now)) < actions_left(
            phase,
        ),
        actions_left(phase) == 0 <==> action_in(dst, phase) is Finish,
{
}

/// What an action may do to the files: one that succeeds does what it says, one that fails does
/// nothing, except that a write that fails may leave anything under the name that it wrote to.
pub open spec fn effect(
    before: Map<Seq<char>, Seq<u8>>,
    after: Map<Seq<char>, Seq<u8>>,
    action: FileAction<Seq<char>>,
    ok: bool,
    content: Seq<u8>,
) -> bool {
    match action {
        FileAction::MakeDir(_) => after == before,
        FileAction::Write(p) => if ok {
            after == before.insert(p, content)
        } else {
            after.remove(p) == before.remove(p)
        },
        FileAction::Rename(a, b) => if ok {
            before.contains_key(a) && after == before.remove(a).insert(b, before[a])
        } else {
            after == before
        },
        FileAction::Remove(p) => after == if ok {
            before.remove(p)
        } else {
            before
        },
        FileAction::Finish(_) => after == before,
    }
}

/// Whether a name is one that the replacement of `dst` uses beside it.
pub open spec fn is_beside(dst: Seq<char>, p: Seq<char>) -> bool {
    exists|n: nat|
        p == #[trigger] deploy::beside(dst, "new"@, n) || p == deploy::beside(dst, "old"@, n)
}

/// Two states of the files agree on a name.
pub open spec fn same_at(
    a: Map<Seq<char>, Seq<u8>>,
    b: Map<Seq<char>, Seq<u8>>,
    p: Seq<char>,
) -> bool {
    a.contains_key(p) == b.contains_key(p) && (a.contains_key(p) ==> a[p] == b[p])
}

/// The destination is as it was, or it was moved aside and its content stands under a name of its
/// own beside it.
pub open spec fn old_is_safe(
    start: Map<Seq<char>, Seq<u8>>,
    files: Map<Seq<char>, Seq<u8>>,
    dst: Seq<char>,
) -> bool {
    ||| same_at(start, files, dst)
    ||| exists|n: nat|
        start.contains_key(dst) && !files.contains_key(dst) && files.contains_key(
            #[trigger] deploy::beside(dst, "old"@, n),
        ) && files[deploy::beside(dst, "old"@, n)] == start[dst]
}

/// What holds of the files at each phase of a replacement that began with the files `start`.
pub open spec fn files_fit(
    start: Map<Seq<char>, Seq<u8>>,
    files: Map<Seq<char>, Seq<u8>>,
    dst: Seq<char>,
    phase: Phase<Seq<char>>,
    content: Seq<u8>,
) -> bool {
    let ready = |tmp: Seq<char>|
        (exists|n: nat| tmp == #[trigger] deploy::beside(dst, "new"@, n)) && files.contains_key(tmp)
            && files[tmp] == content;
    &&& forall|p: Seq<char>| p != dst && !is_beside(dst, p) ==> #[trigger] same_at(start, files, p)
    &&& match phase {
        Phase::MakeDir(_) => same_at(start, files, dst),
        Phase::Write(tmp) => same_at(start, files, dst) && exists|n: nat|
            tmp == #[trigger] deploy::beside(dst, "new"@, n),
        Phase::Place(tmp) => same_at(start, files, dst) && ready(tmp),
        Phase::Stash(tmp, aside) => same_at(start, files, dst) && ready(tmp) && exists|n: nat|
            aside == #[trigger] deploy::beside(dst, "old"@, n),
        Phase::Retry(tmp, _) => old_is_safe(start, files, dst) && ready(tmp),
        Phase::Discard(tmp, _) => old_is_safe(start, files, dst) && ready(tmp),
        Phase::Placed => files.contains_key(dst) && files[dst] == content,
        Phase::Failed(_) => old_is_safe(start, files, dst),
    }
}

proof fn names_beside_differ(dst: Seq<char>, n: nat, m: nat)
    ensures
        deploy::beside(dst, "new"@, n) != dst,
        deploy::beside(dst, "old"@, n) != dst,
        deploy::beside(dst, "new"@, n) != deploy::beside(dst, "old"@, m),
{
    reveal_strlit(".");
    reveal_strlit("_");
    reveal_strlit("old");
    reveal_strlit("new");
    assert(deploy::beside(dst, "new"@, n).len() > dst.len());
    assert(deploy::beside(dst, "old"@, n).len() > dst.len());
    assert(deploy::beside(dst, "new"@, n)[dst.len() as int + 1] == 'n');
    assert(deploy::beside(dst, "old"@, m)[dst.len() as int + 1] == 'o');
}

/// A replacement begins in a state that fits the files as they are.
pub proof fn replacement_begins(
    files: Map<Seq<char>, Seq<u8>>,
    dst: Seq<char>,
    dir: Option<Seq<char>>,
    now: nat,
    content: Seq<u8>,
)
    ensures
        files_fit(files, files, dst, first_phase(dst, dir, now), content),
{
    if dir is None {
        let tmp = deploy::beside(dst, "new"@, now);
        assert(exists|n: nat| tmp == #[trigger] deploy::beside(dst, "new"@, n));
    }
}

/// At every moment of a replacement the destination holds the old file or the whole new one, or
/// the old one stands beside it under a name of its own; and no other file changes.
pub proof fn replacement_keeps_files(
    start: Map<Seq<char>, Seq<u8>>,
    before: Map<Seq<char>, Seq<u8>>,
    after: Map<Seq<char>, Seq<u8>>,
    dst: Seq<char>,
    phase: Phase<Seq<char>>,
    error: Option<Seq<char>>,
    now: nat,
    content: Seq<u8>,
)
    requires
        files_fit(start, before, dst, phase, content),
        effect(before, after, action_in(dst, phase), error is None, content),
    ensures
        files_fit(start, after, dst, next_phase(dst, phase, error, now), content),
{
    let next = next_phase(dst, phase, error, now);
    let ok = error is None;
    names_beside_differ(dst, now, now);
    match phase {
        Phase::Write(tmp) => {
            let n = choose|n: nat| tmp == #[trigger] deploy::beside(dst, "new"@, n);
            names_beside_differ(dst, n, n);
            assert(is_beside(dst, tmp));
            assert(before.remove(tmp).contains_key(dst) == before.contains_key(dst));
            assert(after.remove(tmp).contains_key(dst) == after.contains_key(dst));
            assert(same_at(start, after, dst)) by {
                if !ok && after.contains_key(dst) {
                    assert(after.remove(tmp)[dst] == after[dst]);
                    assert(before.remove(tmp)[dst] == before[dst]);
                }
            }
            assert forall|p: Seq<char>| p != dst && !is_beside(dst, p) implies #[trigger] same_at(
                start,
                after,
                p,
            ) by {
                assert(same_at(start, before, p));
                assert(p != tmp);
                if !ok {
                    assert(after.remove(tmp).contains_key(p) == after.contains_key(p));
                    assert(before.remove(tmp).contains_key(p) == before.contains_key(p));
                    if after.contains_key(p) {
                        assert(after.remove(tmp)[p] == after[p]);
                        assert(before.remove(tmp)[p] == before[p]);
                    }
                }
            }
        },
        Phase::Place(tmp) | Phase::Retry(tmp, _) | Phase::Discard(tmp, _) => {
            let n = choose|n: nat| tmp == #[trigger] deploy::beside(dst, "new"@, n);
            names_beside_differ(dst, n, n);
            assert(is_beside(dst, tmp));
            assert forall|p: Seq<char>| p != dst && !is_beside(dst, p) implies #[trigger] same_at(
                start,
                after,
                p,
            ) by {
                assert(same_at(start, before, p));
                assert(p != tmp);
            }
            if phase is Discard && ok && !same_at(start, before, dst) {
                let m = choose|m: nat|
                    start.contains_key(dst) && !before.contains_key(dst) && before.contains_key(
                        #[trigger] deploy::beside(dst, "old"@, m),
                    ) && before[deploy::beside(dst, "old"@, m)] == start[dst];
                names_beside_differ(dst, n, m);
                assert(after.contains_key(deploy::beside(dst, "old"@, m)));
            }
        },
        Phase::Stash(tmp, aside) => {
            let n = choose|n: nat| tmp == #[trigger] deploy::beside(dst, "new"@, n);
            let m = choose|m: nat| aside == #[trigger] deploy::beside(dst, "old"@, m);
            names_beside_differ(dst, n, m);
            names_beside_differ(dst, m, m);
            assert(is_beside(dst, aside)) by {
                assert(deploy::beside(dst, "new"@, m) == deploy::beside(dst, "new"@, m));
            }
            assert forall|p: Seq<char>| p != dst && !is_beside(dst, p) implies #[trigger] same_at(
                start,
                after,
                p,
            ) by {
                assert(same_at(start, before, p));
                assert(p != aside);
            }
            if ok {
                assert(after.contains_key(deploy::beside(dst, "old"@, m)));
            }
        },
        _ => {
            assert forall|p: Seq<char>| p != dst && !is_beside(dst, p) implies #[trigger] same_at(
                start,
                after,
                p,
            ) by {
                assert(same_at(start, before, p));
            }
        },
    }
}

/// A write that fails leaves the destination as it was.
pub proof fn failed_write_changes_nothing(
    start: Map<Seq<char>, Seq<u8>>,
    before: Map<Seq<char>, Seq<u8>>,
    after: Map<Seq<char>, Seq<u8>>,
    dst: Seq<char>,
    tmp: Seq<char>,
    error: Seq<char>,
    now: nat,
    content: Seq<u8>,
)
    requires
        files_fit(start, before, dst, Phase::Write(tmp), content),
        effect(before, after, FileAction::Write(tmp), false, content),
    ensures
        same_at(start, after, dst),
        next_phase(dst, Phase::Write(tmp), Some(error), now) is Failed,
{
    let n = choose|n: nat| tmp == #[trigger] deploy::beside(dst, "new"@, n);
    names_beside_differ(dst, n, n);
    assert(before.remove(tmp).contains_key(dst) == before.contains_key(dst));
    assert(after.remove(tmp).contains_key(dst) == after.contains_key(dst));
    if after.contains_key(dst) {
        assert(after.remove(tmp)[dst] == after[dst]);
        assert(before.remove(tmp)[dst] == before[dst]);
    }
}

/// The course of a replacement, once there is a directory for the file: the content is written to a
/// new name beside the destination and renamed into place. Where that fails, the old file is moved
/// aside and it is tried again, whether it could be moved or not; where it fails for the second time,
/// what was written is removed, and the replacement fails for the reason of the second time. It
/// succeeds right behind the first rename into place that did.
pub proof fn course_of_a_replacement(
    dst: Seq<char>,
    errors: Seq<Option<Seq<char>>>,
    now: Seq<nat>,
)
    requires
        errors.len() == 5,
        now.len() == 6,
    ensures
        ({
            let fresh = dst + ".new_"@ + text::decimal(now[0]);
            let aside = dst + ".old_"@ + text::decimal(now[2]);
            let p0 = first_phase(dst, None, now[0]);
            let p1 = next_phase(dst, p0, errors[0], now[1]);
            let p2 = next_phase(dst, p1, errors[1], now[2]);
            let p3 = next_phase(dst, p2, errors[2], now[3]);
            let p4 = next_phase(dst, p3, errors[3], now[4]);
            let p5 = next_phase(dst, p4, errors[4], now[5]);
            &&& action_in(dst, p0) == FileAction::Write(fresh)
            &&& errors[0] matches Some(e) ==> action_in(dst, p1) == FileAction::<Seq<char>>::Finish(
                Err("解压失败: "@ + e),
            )
            &&& errors[0] is None ==> action_in(dst, p1) == FileAction::Rename(fresh, dst)
            &&& errors[0] is None && errors[1] is None ==> action_in(dst, p2) == FileAction::<
                Seq<char>,
            >::Finish(Ok(()))
            &&& errors[0] is None && errors[1] is Some ==> {
                &&& action_in(dst, p2) == FileAction::Rename(dst, aside)
                &&& action_in(dst, p3) == FileAction::Rename(fresh, dst)
                &&& errors[3] is None ==> action_in(dst, p4) == FileAction::<Seq<char>>::Finish(Ok(()))
                &&& errors[3] matches Some(e) ==> action_in(dst, p4) == FileAction::Remove(fresh)
                    && action_in(dst, p5) == FileAction::<Seq<char>>::Finish(
                    Err("替换文件失败 "@ + dst + ": "@ + e),
                )
            }
        }),
{
    beside_in_full(dst, now[0]);
    beside_in_full(dst, now[2]);
}

proof fn beside_in_full(dst: Seq<char>, n: nat)
    ensures
        deploy::beside(dst, "new"@, n) == dst + ".new_"@ + text::decimal(n),
        deploy::beside(dst, "old"@, n) == dst + ".old_"@ + text::decimal(n),
{
    reveal_strlit(".");
    reveal_strlit("_");
    reveal_strlit("old");
    reveal_strlit("new");
    reveal_strlit(".old_");
    reveal_strlit(".new_");
    assert(deploy::beside(dst, "new"@, n) =~= dst + ".new_"@ + text::decimal(n));
    assert(deploy::beside(dst, "old"@, n) =~= dst + ".old_"@ + text::decimal(n));
}

/// The directory comes first where one is given: it is made, and then the replacement goes on as
/// without it; where it cannot be made, nothing is written.
pub proof fn directory_comes_first(
    dst: Seq<char>,
    dir: Seq<char>,
    error: Option<Seq<char>>,
    now: nat,
    then: nat,
)
    ensures
        ({
            let p0 = first_phase(dst, Some(dir), now);
            let p1 = next_phase(dst, p0, error, then);
            &&& action_in(dst, p0) == FileAction::MakeDir(dir)
            &&& error is None ==> p1 == first_phase(dst, None, then)
            &&& error matches Some(e) ==> action_in(dst, p1) == FileAction::<Seq<char>>::Finish(
                Err("创建目录失败: "@ + e),
            )
        }),
{
}

/// A replacement that has ended stays as it ended.
pub proof fn ended_replacement_stays(
    dst: Seq<char>,
    phase: Phase<Seq<char>>,
    error: Option<Seq<char>>,
    now: nat,
)
    requires
        action_in(dst, phase) is Finish,
    ensures
        action_in(dst, next_phase(dst, phase, error, now)) == action_in(dst, phase),
{
}

} // verus!
