//! Carrying out the deployment of an archive, file after file.
use vstd::prelude::*;
use vstd::string::*;

use crate::deploy::{DeployPlan, ItemView};
use crate::replace;
use crate::replace::{FileAction, Phase, Replace};

verus! {

/// What is to be done next.
#[derive(Debug)]
pub enum UnpackAct<S> {
    MakeDir(S),
    /// Write the whole content of the entry to the file.
    Write { index: usize, file: S },
    Rename(S, S),
    Remove(S),
    /// Whether the launcher must be restarted, or why the deployment failed.
    Finish(Result<bool, S>),
}

pub open spec fn unpack_act_view(a: UnpackAct<String>) -> UnpackAct<Seq<char>> {
    match a {
        UnpackAct::MakeDir(p) => UnpackAct::MakeDir(p@),
        UnpackAct::Write { index, file } => UnpackAct::Write { index, file: file@ },
        UnpackAct::Rename(a, b) => UnpackAct::Rename(a@, b@),
        UnpackAct::Remove(p) => UnpackAct::Remove(p@),
        UnpackAct::Finish(Ok(b)) => UnpackAct::Finish(Ok(b)),
        UnpackAct::Finish(Err(e)) => UnpackAct::Finish(Err(e@)),
    }
}

/// The deployment of an archive: the file that it is at, and how far its replacement is; no
/// replacement behind the last file.
#[derive(Debug)]
pub struct Unpack {
    pub at: usize,
    pub current: Option<Replace>,
}

pub struct UnpackView {
    pub at: int,
    pub phase: Option<Phase<Seq<char>>>,
}

/// A deployment that comes to the file at `at`, at the moment `now`.
pub open spec fn come_to(items: Seq<ItemView>, at: int, now: nat) -> UnpackView {
    UnpackView {
        at,
        phase: if at < items.len() {
            Some(replace::first_phase(items[at].dst, items[at].dir, now))
        } else {
            None
        },
    }
}

/// What follows; a file that is in place gives way to the next.
pub open spec fn next_unpack(
    items: Seq<ItemView>,
    s: UnpackView,
    error: Option<Seq<char>>,
    now: nat,
) -> UnpackView {
    match s.phase {
        None => s,
        Some(phase) => {
            let next = replace::next_phase(items[s.at].dst, phase, error, now);
            if next is Placed {
                come_to(items, s.at + 1, now)
            } else {
                UnpackView { at: s.at, phase: Some(next) }
            }
        },
    }
}

/// What a deployment ends with when every file is in place.
pub open spec fn ending(plan: DeployPlan) -> Result<bool, Seq<char>> {
    match plan.fault {
        Some(f) => Err(f.text()),
        None => Ok(plan.needs_restart),
    }
}

pub open spec fn unpack_act(plan: DeployPlan, s: UnpackView) -> UnpackAct<Seq<char>> {
    match s.phase {
        None => UnpackAct::Finish(ending(plan)),
        Some(phase) => match replace::action_in(plan.items.deep_view()[s.at].dst, phase) {
            FileAction::MakeDir(p) => UnpackAct::MakeDir(p),
            FileAction::Write(p) => UnpackAct::Write {
                index: plan.items@[s.at].index,
                file: p,
            },
            FileAction::Rename(a, b) => UnpackAct::Rename(a, b),
            FileAction::Remove(p) => UnpackAct::Remove(p),
            FileAction::Finish(Ok(_)) => UnpackAct::Finish(Ok(false)),
            FileAction::Finish(Err(e)) => UnpackAct::Finish(Err(e)),
        },
    }
}

impl Unpack {
    pub open spec fn spec_view(self) -> UnpackView {
        UnpackView {
            at: self.at as int,
            phase: match self.current {
                Some(r) => Some(replace::phase_view(r.phase)),
                None => None,
            },
        }
    }

    /// Whether the deployment is one of the plan: a replacement is that of the file that it is at.
    pub open spec fn fits(self, plan: DeployPlan) -> bool {
        self.current matches Some(r) ==> self.at < plan.items@.len() && r.dst@
            == plan.items@[self.at as int].dst@
    }

    fn come(plan: &DeployPlan, at: usize, now: u128) -> (r: Unpack)
        ensures
            r.fits(*plan),
            r.spec_view() == come_to(plan.items.deep_view(), at as int, now as nat),
    {
        if at < plan.items.len() {
            let item = &plan.items[at];
            assert(plan.items.deep_view()[at as int] == item.deep_view());
            let current = match &item.dir {
                Some(d) => Replace::new(item.dst.as_str(), Some(d.as_str()), now),
                None => Replace::new(item.dst.as_str(), None, now),
            };
            Unpack { at, current: Some(current) }
        } else {
            Unpack { at, current: None }
        }
    }

    /// Begins the deployment of a plan, at the moment `now`.
    pub fn new(plan: &DeployPlan, now: u128) -> (r: Unpack)
        ensures
            r.fits(*plan),
            r.spec_view() == come_to(plan.items.deep_view(), 0, now as nat),
    {
        Unpack::come(plan, 0, now)
    }

    /// What is to be done next.
    pub fn action(&self, plan: &DeployPlan) -> (r: UnpackAct<String>)
        requires
            self.fits(*plan),
        ensures
            unpack_act_view(r) == unpack_act(*plan, self.spec_view()),
    {
        match &self.current {
            None => match &plan.fault {
                Some(f) => UnpackAct::Finish(Err(f.message())),
                None => UnpackAct::Finish(Ok(plan.needs_restart)),
            },
            Some(r) => {
                assert(plan.items.deep_view()[self.at as int].dst == r.dst@);
                match r.action() {
                    FileAction::MakeDir(p) => UnpackAct::MakeDir(p),
                    FileAction::Write(p) => UnpackAct::Write {
                        index: plan.items[self.at].index,
                        file: p,
                    },
                    FileAction::Rename(a, b) => UnpackAct::Rename(a, b),
                    FileAction::Remove(p) => UnpackAct::Remove(p),
                    FileAction::Finish(Ok(_)) => UnpackAct::Finish(Ok(false)),
                    FileAction::Finish(Err(e)) => UnpackAct::Finish(Err(e)),
                }
            },
        }
    }

    /// Takes note of how the last action went, at the moment `now`.
    pub fn step(self, plan: &DeployPlan, error: Option<String>, now: u128) -> (r: Unpack)
        requires
            self.fits(*plan),
        ensures
            r.fits(*plan),
            r.spec_view() == next_unpack(
                plan.items.deep_view(),
                self.spec_view(),
                error.deep_view(),
                now as nat,
            ),
    {
        let at: usize = self.at;
        let count: usize = plan.items.len();
        match self.current {
            None => Unpack { at, current: None },
            Some(r) => {
                assert(at < count);
                assert(plan.items.deep_view()[at as int].dst == r.dst@);
                let next = r.step(error, now);
                match next.phase {
                    Phase::Placed => Unpack::come(plan, at + 1, now),
                    _ => Unpack { at, current: Some(next) },
                }
            },
        }
    }
}

/// Whether a state is one that a deployment of the files comes to.
pub open spec fn is_reached(items: Seq<ItemView>, s: UnpackView) -> bool {
    &&& 0 <= s.at <= items.len()
    &&& s.phase is Some == (s.at < items.len())
    &&& !(s.phase matches Some(p) && p is Placed)
}

/// A deployment goes through the files one after the other, and leaves one only when it is in
/// place: it comes to its end without an error only when every file is.
pub proof fn files_are_placed_in_order(
    items: Seq<ItemView>,
    s: UnpackView,
    error: Option<Seq<char>>,
    now: nat,
)
    requires
        is_reached(items, s),
    ensures
        is_reached(items, next_unpack(items, s, error, now)),
        ({
            let next = next_unpack(items, s, error, now);
            &&& next.at == s.at || next.at == s.at + 1
            &&& next.at == s.at + 1 ==> (s.phase matches Some(p) && replace::next_phase(
                items[s.at].dst,
                p,
                error,
                now,
            ) is Placed)
        }),
{
}

/// Whether no two files share a destination, and none is written to where the replacement of
/// another keeps its own.
pub open spec fn apart(items: Seq<ItemView>) -> bool {
    forall|i: int, j: int|
        0 <= i < items.len() && 0 <= j < items.len() && i != j ==> (#[trigger] items[i]).dst != (
        #[trigger] items[j]).dst && !replace::is_beside(items[i].dst, items[j].dst)
}

/// Whether a name is a destination, or one that is used beside a destination.
pub open spec fn is_touched(items: Seq<ItemView>, p: Seq<char>) -> bool {
    exists|k: int|
        0 <= k < items.len() && (p == (#[trigger] items[k]).dst || replace::is_beside(
            items[k].dst,
            p,
        ))
}

/// Whether each of the first `n` files is in place, with its content.
pub open spec fn placed_upto(
    items: Seq<ItemView>,
    contents: Seq<Seq<u8>>,
    files: Map<Seq<char>, Seq<u8>>,
    n: int,
) -> bool {
    forall|k: int|
        0 <= k < n ==> files.contains_key((#[trigger] items[k]).dst) && files[items[k].dst]
            == contents[k]
}

/// Whether the destinations from `n` on are as they were.
pub open spec fn untouched_from(
    items: Seq<ItemView>,
    start: Map<Seq<char>, Seq<u8>>,
    files: Map<Seq<char>, Seq<u8>>,
    n: int,
) -> bool {
    forall|j: int|
        n <= j < items.len() ==> replace::same_at(start, files, (#[trigger] items[j]).dst)
}

/// Whether the files that the deployment does not touch are as they were.
pub open spec fn others_kept(
    items: Seq<ItemView>,
    start: Map<Seq<char>, Seq<u8>>,
    files: Map<Seq<char>, Seq<u8>>,
) -> bool {
    forall|p: Seq<char>| !is_touched(items, p) ==> #[trigger] replace::same_at(start, files, p)
}

/// What holds of the files at each state of a deployment that began with the files `start`, and
/// came to its present file with the files `mid`.
pub open spec fn deployment_fits(
    items: Seq<ItemView>,
    contents: Seq<Seq<u8>>,
    start: Map<Seq<char>, Seq<u8>>,
    mid: Map<Seq<char>, Seq<u8>>,
    files: Map<Seq<char>, Seq<u8>>,
    s: UnpackView,
) -> bool {
    &&& is_reached(items, s)
    &&& placed_upto(items, contents, files, s.at)
    &&& others_kept(items, start, files)
    &&& untouched_from(items, start, files, s.at + 1)
    &&& s.phase matches Some(p) ==> {
        &&& placed_upto(items, contents, mid, s.at)
        &&& others_kept(items, start, mid)
        &&& untouched_from(items, start, mid, s.at)
        &&& replace::files_fit(mid, files, items[s.at].dst, p, contents[s.at])
    }
}

/// A deployment begins in a state that fits the files as they are.
pub proof fn deployment_begins(
    items: Seq<ItemView>,
    contents: Seq<Seq<u8>>,
    files: Map<Seq<char>, Seq<u8>>,
    now: nat,
)
    ensures
        deployment_fits(items, contents, files, files, files, come_to(items, 0, now)),
{
    if items.len() > 0 {
        replace::replacement_begins(files, items[0].dst, items[0].dir, now, contents[0]);
    }
}

/// At every moment of a deployment, the files that it has left behind are in place, the destinations
/// that it has not come to are as they were, and so are the files that have nothing to do with it.
pub proof fn deployment_keeps_files(
    items: Seq<ItemView>,
    contents: Seq<Seq<u8>>,
    start: Map<Seq<char>, Seq<u8>>,
    mid: Map<Seq<char>, Seq<u8>>,
    before: Map<Seq<char>, Seq<u8>>,
    after: Map<Seq<char>, Seq<u8>>,
    s: UnpackView,
    phase: Phase<Seq<char>>,
    error: Option<Seq<char>>,
    now: nat,
)
    requires
        apart(items),
        deployment_fits(items, contents, start, mid, before, s),
        s.phase == Some(phase),
        replace::effect(
            before,
            after,
            replace::action_in(items[s.at].dst, phase),
            error is None,
            contents[s.at],
        ),
    ensures
        ({
            let next = next_unpack(items, s, error, now);
            let since = if next.at == s.at {
                mid
            } else {
                after
            };
            deployment_fits(items, contents, start, since, after, next)
        }),
{
    let dst = items[s.at].dst;
    let next = next_unpack(items, s, error, now);
    replace::replacement_keeps_files(mid, before, after, dst, phase, error, now, contents[s.at]);
    assert forall|k: int| 0 <= k < s.at implies after.contains_key((#[trigger] items[k]).dst)
        && after[items[k].dst] == contents[k] by {
        assert(items[k].dst != dst && !replace::is_beside(dst, items[k].dst));
        assert(replace::same_at(mid, after, items[k].dst));
    }
    assert forall|p: Seq<char>| !is_touched(items, p) implies #[trigger] replace::same_at(
        start,
        after,
        p,
    ) by {
        assert(p != items[s.at].dst && !replace::is_beside(items[s.at].dst, p));
        assert(replace::same_at(mid, after, p));
        assert(replace::same_at(start, mid, p));
    }
    assert forall|j: int| s.at + 1 <= j < items.len() implies replace::same_at(
        start,
        after,
        (#[trigger] items[j]).dst,
    ) by {
        assert(items[j].dst != dst && !replace::is_beside(dst, items[j].dst));
        assert(replace::same_at(mid, after, items[j].dst));
        assert(replace::same_at(start, mid, items[j].dst));
    }
    if next.at != s.at && next.at < items.len() {
        replace::replacement_begins(
            after,
            items[next.at].dst,
            items[next.at].dir,
            now,
            contents[next.at],
        );
    }
}

/// When a deployment has succeeded, every file of the archive is in place, with its content.
pub proof fn success_means_all_placed(
    plan: DeployPlan,
    contents: Seq<Seq<u8>>,
    start: Map<Seq<char>, Seq<u8>>,
    mid: Map<Seq<char>, Seq<u8>>,
    files: Map<Seq<char>, Seq<u8>>,
    s: UnpackView,
    restart: bool,
)
    requires
        deployment_fits(plan.items.deep_view(), contents, start, mid, files, s),
        unpack_act(plan, s) == UnpackAct::<Seq<char>>::Finish(Ok(restart)),
    ensures
        placed_upto(plan.items.deep_view(), contents, files, plan.items@.len() as int),
        others_kept(plan.items.deep_view(), start, files),
        plan.fault is None,
        restart == plan.needs_restart,
{
}

/// How many actions are left at most.
pub open spec fn unpack_left(items: Seq<ItemView>, s: UnpackView) -> nat {
    match s.phase {
        None => 0,
        Some(p) => (7 * (items.len() - s.at - 1) + replace::actions_left(p)) as nat,
    }
}

/// A deployment ends, whatever comes of its actions.
pub proof fn deployment_ends(
    items: Seq<ItemView>,
    s: UnpackView,
    error: Option<Seq<char>>,
    now: nat,
)
    requires
        is_reached(items, s),
        !(s.phase matches Some(p) && p is Failed),
        s.phase is Some,
    ensures
        unpack_left(items, next_unpack(items, s, error, now)) < unpack_left(items, s),
{
    let p = s.phase->0;
    replace::replacement_ends(items[s.at].dst, p, error, now);
}

/// What a deployment does at the file that it is at: it writes the content of that file's own entry,
/// to a name beside the file's destination; it renames nothing but to and from that destination; and
/// the directory that it makes is the one that the plan asks for.
pub proof fn each_entry_goes_to_its_place(plan: DeployPlan, s: UnpackView)
    requires
        is_reached(plan.items.deep_view(), s),
        s.phase matches Some(p) ==> (p matches Phase::Write(tmp) ==> replace::is_beside(
            plan.items.deep_view()[s.at].dst,
            tmp,
        )) && (p matches Phase::MakeDir(d) ==> plan.items.deep_view()[s.at].dir == Some(d)),
    ensures
        match unpack_act(plan, s) {
            UnpackAct::MakeDir(d) => s.at < plan.items@.len() && plan.items.deep_view()[s.at].dir == Some(d),
            UnpackAct::Write { index, file } => s.at < plan.items@.len() && index
                == plan.items.deep_view()[s.at].index && replace::is_beside(
                plan.items.deep_view()[s.at].dst,
                file,
            ),
            UnpackAct::Rename(a, b) => s.at < plan.items@.len() && (a == plan.items.deep_view()[s.at].dst
                || b == plan.items.deep_view()[s.at].dst),
            UnpackAct::Remove(p) => s.at < plan.items@.len() && s.phase is Some,
            UnpackAct::Finish(Ok(restart)) => s.at == plan.items@.len() && plan.fault is None && restart
                == plan.needs_restart,
            UnpackAct::Finish(Err(e)) => {
                ||| s.at == plan.items@.len() && plan.fault is Some && e == plan.fault->0.text()
                ||| s.at < plan.items@.len() && s.phase == Some(Phase::Failed(e))
            },
        },
{
}

/// The files are gone through one by one: a deployment begins with the first file, in its directory,
/// and each file that is in place is followed by the next one of the plan.
pub proof fn next_file_follows(
    items: Seq<ItemView>,
    at: int,
    phase: Phase<Seq<char>>,
    error: Option<Seq<char>>,
    now: nat,
)
    requires
        0 <= at < items.len(),
    ensures
        ({
            let next = next_unpack(items, UnpackView { at, phase: Some(phase) }, error, now);
            let then = replace::next_phase(items[at].dst, phase, error, now);
            if replace::action_in(items[at].dst, then) == FileAction::<Seq<char>>::Finish(Ok(())) {
                &&& next.at == at + 1
                &&& at + 1 < items.len() ==> next.phase == Some(
                    replace::first_phase(items[at + 1].dst, items[at + 1].dir, now),
                )
                &&& at + 1 == items.len() ==> next.phase is None
            } else {
                next == (UnpackView { at, phase: Some(then) })
            }
        }),
{
}

/// A deployment that has ended stays as it ended.
pub proof fn ended_deployment_stays(
    plan: DeployPlan,
    s: UnpackView,
    error: Option<Seq<char>>,
    now: nat,
)
    requires
        is_reached(plan.items.deep_view(), s),
        unpack_act(plan, s) is Finish,
    ensures
        unpack_act(plan, next_unpack(plan.items.deep_view(), s, error, now)) == unpack_act(plan, s),
{
}

} // verus!
