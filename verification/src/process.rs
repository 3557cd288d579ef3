//! Which processes run a program, by the path of its file.
use vstd::prelude::*;
use vstd::string::*;

use crate::path;
use crate::text;

verus! {

/// A running process, with the path of its program where that can be had.
#[derive(Debug)]
pub struct Process {
    pub pid: u32,
    pub path: Option<String>,
}

impl Process {
    /// The path of the program; the idle process has none.
    pub open spec fn image(self) -> Option<Seq<char>> {
        if self.pid == 0 {
            None
        } else {
            self.path.deep_view()
        }
    }

    /// Whether the process runs the program at the path; case does not count.
    pub open spec fn runs(self, target: Seq<char>) -> bool {
        self.image() matches Some(p) && text::lowercase(p) == text::lowercase(target)
    }

    /// Whether the process runs a program with the name, its extension left out.
    pub open spec fn is_named(self, stem: Seq<char>) -> bool {
        self.image() matches Some(p) && path::file_stem_of(p) matches Some(s) && text::lowercase(s)
            == text::lowercase(stem)
    }

    fn has_path(&self, low: &str, Ghost(target): Ghost<Seq<char>>) -> (r: bool)
        requires
            low@ == text::lowercase(target),
        ensures
            r == self.runs(target),
    {
        if self.pid == 0 {
            return false;
        }
        match &self.path {
            Some(p) => {
                let own = text::to_lowercase(p.as_str());
                text::same_text(own.as_str(), low)
            },
            None => false,
        }
    }

    fn has_stem(&self, low: &str, Ghost(stem): Ghost<Seq<char>>) -> (r: bool)
        requires
            low@ == text::lowercase(stem),
        ensures
            r == self.is_named(stem),
    {
        if self.pid == 0 {
            return false;
        }
        match &self.path {
            Some(p) => match path::file_stem(p.as_str()) {
                Some(s) => {
                    let own = text::to_lowercase(s.as_str());
                    text::same_text(own.as_str(), low)
                },
                None => false,
            },
            None => false,
        }
    }
}

/// The processes that run the program, in order.
pub open spec fn pids_running(list: Seq<Process>, target: Seq<char>) -> Seq<u32>
    decreases list.len(),
{
    if list.len() == 0 {
        seq![]
    } else if list.last().runs(target) {
        pids_running(list.drop_last(), target).push(list.last().pid)
    } else {
        pids_running(list.drop_last(), target)
    }
}

/// The processes that run a program with the name, in order.
pub open spec fn pids_named(list: Seq<Process>, stem: Seq<char>) -> Seq<u32>
    decreases list.len(),
{
    if list.len() == 0 {
        seq![]
    } else if list.last().is_named(stem) {
        pids_named(list.drop_last(), stem).push(list.last().pid)
    } else {
        pids_named(list.drop_last(), stem)
    }
}

/// Whether some process runs the program at the path.
pub fn exists_by_path(list: &Vec<Process>, target: &str) -> (r: bool)
    ensures
        r == exists|i: int| 0 <= i < list@.len() && (#[trigger] list@[i]).runs(target@),
{
    let low = text::to_lowercase(target);
    let mut i: usize = 0;
    while i < list.len()
        invariant
            i <= list@.len(),
            low@ == text::lowercase(target@),
            forall|k: int| 0 <= k < i ==> !(#[trigger] list@[k]).runs(target@),
        decreases list@.len() - i,
    {
        if list[i].has_path(low.as_str(), Ghost(target@)) {
            assert(list@[i as int].runs(target@));
            return true;
        }
        i = i + 1;
    }
    false
}

/// The processes to terminate so that none runs the program at the path.
pub fn terminate_by_path(list: &Vec<Process>, target: &str) -> (r: Vec<u32>)
    ensures
        r@ == pids_running(list@, target@),
{
    let low = text::to_lowercase(target);
    let mut r: Vec<u32> = Vec::new();
    let mut i: usize = 0;
    assert(list@.take(0) =~= seq![]);
    while i < list.len()
        invariant
            i <= list@.len(),
            low@ == text::lowercase(target@),
            r@ == pids_running(list@.take(i as int), target@),
        decreases list@.len() - i,
    {
        assert(list@.take(i + 1).drop_last() =~= list@.take(i as int));
        assert(list@.take(i + 1).last() == list@[i as int]);
        if list[i].has_path(low.as_str(), Ghost(target@)) {
            r.push(list[i].pid);
        }
        i = i + 1;
    }
    assert(list@.take(i as int) =~= list@);
    r
}

/// The processes to terminate so that none runs a program with the name.
pub fn terminate_by_name(list: &Vec<Process>, stem: &str) -> (r: Vec<u32>)
    ensures
        r@ == pids_named(list@, stem@),
{
    let low = text::to_lowercase(stem);
    let mut r: Vec<u32> = Vec::new();
    let mut i: usize = 0;
    assert(list@.take(0) =~= seq![]);
    while i < list.len()
        invariant
            i <= list@.len(),
            low@ == text::lowercase(stem@),
            r@ == pids_named(list@.take(i as int), stem@),
        decreases list@.len() - i,
    {
        assert(list@.take(i + 1).drop_last() =~= list@.take(i as int));
        assert(list@.take(i + 1).last() == list@[i as int]);
        if list[i].has_stem(low.as_str(), Ghost(stem@)) {
            r.push(list[i].pid);
        }
        i = i + 1;
    }
    assert(list@.take(i as int) =~= list@);
    r
}

/// Whether at least one process was terminated.
pub fn any_terminated(outcomes: &Vec<bool>) -> (r: bool)
    ensures
        r == outcomes@.contains(true),
{
    let mut i: usize = 0;
    while i < outcomes.len()
        invariant
            i <= outcomes@.len(),
            forall|k: int| 0 <= k < i ==> !outcomes@[k],
        decreases outcomes@.len() - i,
    {
        if outcomes[i] {
            assert(outcomes@[i as int]);
            return true;
        }
        i = i + 1;
    }
    false
}

/// Only processes that run the very program are terminated by its path, never one of the same name
/// from another directory; and there are some to terminate exactly when the program runs.
pub proof fn terminates_no_other(list: Seq<Process>, target: Seq<char>)
    ensures
        forall|i: int|
            0 <= i < pids_running(list, target).len() ==> exists|k: int|
                0 <= k < list.len() && (#[trigger] list[k]).runs(target) && list[k].pid
                    == #[trigger] pids_running(list, target)[i],
        forall|k: int|
            0 <= k < list.len() && (#[trigger] list[k]).runs(target) ==> pids_running(
                list,
                target,
            ).contains(list[k].pid),
    decreases list.len(),
{
    if list.len() > 0 {
        let rest = list.drop_last();
        terminates_no_other(rest, target);
        let before = pids_running(rest, target);
        let all = pids_running(list, target);
        assert forall|i: int| 0 <= i < all.len() implies exists|k: int|
            0 <= k < list.len() && (#[trigger] list[k]).runs(target) && list[k].pid
                == #[trigger] all[i] by {
            if i < before.len() {
                let k = choose|k: int|
                    0 <= k < rest.len() && (#[trigger] rest[k]).runs(target) && rest[k].pid
                        == before[i];
                assert(list[k].runs(target) && list[k].pid == all[i]);
            } else {
                assert(list[list.len() - 1].runs(target));
            }
        }
        assert forall|k: int| 0 <= k < list.len() && (#[trigger] list[k]).runs(target) implies all.contains(
            list[k].pid,
        ) by {
            if k < rest.len() {
                assert(rest[k].runs(target));
                let j = choose|j: int| 0 <= j < before.len() && before[j] == rest[k].pid;
                assert(all[j] == list[k].pid);
            } else {
                assert(all[all.len() - 1] == list[k].pid);
            }
        }
    }
}

/// A process has the given path, up to case, and is not the idle process.
pub open spec fn has_image(p: Process, target: Seq<char>) -> bool {
    p.pid != 0 && p.path is Some && text::lowercase(p.path->0@) == text::lowercase(target)
}

/// A process has a path whose last name, up to case and without its extension, is the given one, and
/// is not the idle process.
pub open spec fn has_image_named(p: Process, stem: Seq<char>) -> bool {
    p.pid != 0 && p.path is Some && path::file_stem_of(p.path->0@) is Some && text::lowercase(
        path::file_stem_of(p.path->0@)->0,
    ) == text::lowercase(stem)
}

/// Which processes are terminated, by path and by name: of each list, those that match, each as often
/// as it is listed and in order, and no other.
pub proof fn terminates_what_matches(list: Seq<Process>, last: Process, target: Seq<char>, stem: Seq<char>)
    ensures
        pids_running(Seq::empty(), target).len() == 0,
        pids_named(Seq::empty(), stem).len() == 0,
        pids_running(list.push(last), target) == if has_image(last, target) {
            pids_running(list, target).push(last.pid)
        } else {
            pids_running(list, target)
        },
        pids_named(list.push(last), stem) == if has_image_named(last, stem) {
            pids_named(list, stem).push(last.pid)
        } else {
            pids_named(list, stem)
        },
{
    assert(list.push(last).drop_last() =~= list);
}

/// A process that runs the program at the very path is terminated both by that path and by the
/// program's name.
pub proof fn path_is_narrower_than_name(list: Seq<Process>, target: Seq<char>, stem: Seq<char>, k: int)
    requires
        0 <= k < list.len(),
        list[k].pid != 0,
        list[k].path matches Some(p) && p@ == target,
        path::file_stem_of(target) == Some(stem),
    ensures
        pids_running(list, target).contains(list[k].pid),
        pids_named(list, stem).contains(list[k].pid),
    decreases list.len(),
{
    let rest = list.drop_last();
    let by_path = pids_running(list, target);
    let by_name = pids_named(list, stem);
    if k < rest.len() {
        path_is_narrower_than_name(rest, target, stem, k);
        let a = choose|a: int|
            0 <= a < pids_running(rest, target).len() && pids_running(rest, target)[a] == list[k].pid;
        let b = choose|b: int|
            0 <= b < pids_named(rest, stem).len() && pids_named(rest, stem)[b] == list[k].pid;
        assert(by_path[a] == list[k].pid);
        assert(by_name[b] == list[k].pid);
    } else {
        assert(by_path[by_path.len() - 1] == list[k].pid);
        assert(by_name[by_name.len() - 1] == list[k].pid);
    }
}

/// Every process that runs a program of the name is terminated by the name, whatever directory it
/// runs from, and no process of another name is.
pub proof fn terminates_all_of_a_name(list: Seq<Process>, stem: Seq<char>)
    ensures
        forall|k: int|
            0 <= k < list.len() && has_image_named(#[trigger] list[k], stem) ==> pids_named(
                list,
                stem,
            ).contains(list[k].pid),
        forall|i: int|
            0 <= i < pids_named(list, stem).len() ==> exists|k: int|
                0 <= k < list.len() && has_image_named(#[trigger] list[k], stem) && list[k].pid
                    == #[trigger] pids_named(list, stem)[i],
    decreases list.len(),
{
    if list.len() > 0 {
        let rest = list.drop_last();
        terminates_all_of_a_name(rest, stem);
        let before = pids_named(rest, stem);
        let all = pids_named(list, stem);
        assert forall|k: int| 0 <= k < list.len() && has_image_named(#[trigger] list[k], stem) implies all.contains(
            list[k].pid,
        ) by {
            if k < rest.len() {
                assert(has_image_named(rest[k], stem));
                let j = choose|j: int| 0 <= j < before.len() && before[j] == rest[k].pid;
                assert(all[j] == list[k].pid);
            } else {
                assert(all[all.len() - 1] == list[k].pid);
            }
        }
        assert forall|i: int| 0 <= i < all.len() implies exists|k: int|
            0 <= k < list.len() && has_image_named(#[trigger] list[k], stem) && list[k].pid
                == #[trigger] all[i] by {
            if i < before.len() {
                let k = choose|k: int|
                    0 <= k < rest.len() && has_image_named(#[trigger] rest[k], stem) && rest[k].pid
                        == before[i];
                assert(has_image_named(list[k], stem) && list[k].pid == all[i]);
            } else {
                assert(has_image_named(list[list.len() - 1], stem));
            }
        }
    }
}

} // verus!
