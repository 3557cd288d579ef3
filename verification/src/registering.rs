//! What a registration does as a whole: what is registered, what undoing it takes back, and who may
//! register at all.
use vstd::prelude::*;
use vstd::string::*;

use crate::deploy;
use crate::layout;
use crate::layout::PortableConfig;
use crate::path;
use crate::reg::Hive;
use crate::registration;
use crate::registration::{
    Conflict, CopyAction, CopyPhase, ElevatedRun, OnError, Planned, Progress, Readings, RegsvrRun, Step,
};
use crate::reply::ReplyView;
use crate::text;
use crate::variant::Variant;

verus! {

/// Registering ends with the profile of the variant, installed; and nothing else is done with
/// profiles. Undoing the registration begins with removing the same profile, and does nothing else
/// with profiles.
pub proof fn profile_is_installed_and_removed(
    cfg: PortableConfig,
    v: Variant,
    root: Option<Seq<char>>,
    dll: Seq<char>,
    m: Readings,
)
    ensures
        ({
            let made = registration::register_steps(cfg, v, root, dll);
            let undone = registration::unregister_steps(cfg, v, m);
            &&& made.len() > 0
            &&& made.last() == (Planned {
                step: Step::Profile { profile: v.profile_str@, flags: 0 },
                on_error: OnError::Stop,
            })
            &&& undone.len() > 0
            &&& undone[0] == (Planned {
                step: Step::Profile { profile: v.profile_str@, flags: 1 },
                on_error: OnError::Ignore,
            })
            &&& forall|i: int|
                0 <= i < made.len() && (#[trigger] made[i]).step is Profile ==> i == made.len() - 1
            &&& forall|j: int| 0 <= j < undone.len() && (#[trigger] undone[j]).step is Profile ==> j == 0
        }),
{
}

/// The library of one kind that a package has.
pub open spec fn library_of(cfg: PortableConfig, x86: bool) -> Option<Seq<char>> {
    if x86 {
        cfg.tsf_dll_x86.deep_view()
    } else {
        cfg.tsf_dll.deep_view()
    }
}

/// Where the copy of a library of one kind lies in the system directory.
pub open spec fn system_place(root: Option<Seq<char>>, v: Variant, x86: bool) -> Seq<char> {
    path::joined_path(
        path::joined_path(
            path::joined_path(
                path::joined_path(
                    root.unwrap_or("C:\\Windows"@),
                    if x86 {
                        "SysWOW64"@
                    } else {
                        "System32"@
                    },
                ),
                "IME"@,
            ),
            v.app_name@,
        ),
        if x86 {
            v.dll_name_x86@
        } else {
            v.dll_name@
        },
    )
}

/// Where the library of one kind is registered: where it lies, or as its copy in the system
/// directory if the package asks for that.
pub open spec fn registered_as(
    cfg: PortableConfig,
    v: Variant,
    root: Option<Seq<char>>,
    x86: bool,
) -> Option<Seq<char>> {
    match library_of(cfg, x86) {
        Some(own) => Some(
            if cfg.system_deploy {
                system_place(root, v, x86)
            } else {
                own
            },
        ),
        None => None,
    }
}

/// Each library that the package has is registered, once: by a step that comes right behind the one
/// that grants access to it, which comes right behind the copy where there is one. The failure of a
/// step on the main library ends the registration, that of a step on the other does not.
pub proof fn each_library_is_registered(
    cfg: PortableConfig,
    v: Variant,
    root: Option<Seq<char>>,
    dll: Seq<char>,
    x86: bool,
)
    requires
        cfg.tsf_dll.deep_view() == Some(dll),
    ensures
        ({
            let made = registration::register_steps(cfg, v, root, dll);
            match registered_as(cfg, v, root, x86) {
                Some(place) => exists|i: int| #[trigger] registers_at(cfg, made, i, place, x86),
                None => true,
            }
        }),
        ({
            let made = registration::register_steps(cfg, v, root, dll);
            forall|i: int, j: int|
                0 <= i < made.len() && 0 <= j < made.len() && (#[trigger] made[i]).step is Regsvr && (
                #[trigger] made[j]).step is Regsvr && made[i].step->x86 == made[j].step->x86 ==> i == j
        }),
{
    let made = registration::register_steps(cfg, v, root, dll);
    let at: int = if cfg.system_deploy {
        if x86 {
            6
        } else {
            3
        }
    } else if x86 {
        3
    } else {
        1
    };
    if let Some(place) = registered_as(cfg, v, root, x86) {
        assert(registers_at(cfg, made, at, place, x86));
    }
}

/// The step at `at` registers the library that lies at `place`, and what goes before it is done
/// right before it.
pub open spec fn registers_at(
    cfg: PortableConfig,
    made: Seq<Planned<Seq<char>>>,
    at: int,
    place: Seq<char>,
    x86: bool,
) -> bool {
    &&& 1 <= at < made.len()
    &&& made[at] == (Planned {
        step: Step::Regsvr { dll: place, x86, unregister: false },
        on_error: if x86 {
            OnError::Ignore
        } else {
            OnError::Stop
        },
    })
    &&& made[at - 1] == (Planned { step: Step::GrantAccess { dll: place }, on_error: OnError::Ignore })
    &&& cfg.system_deploy ==> {
        &&& 3 <= at
        &&& made[0].step is WriteInstallDir
        &&& made[0].on_error == OnError::Stop
        &&& made[at - 2].step == (Step::CopyToSystem { src: library_of(cfg, x86)->0, dst: place })
        &&& made[at - 2].on_error == if x86 {
            OnError::Skip(2)
        } else {
            OnError::Stop
        }
    }
}

/// Nothing is done for a registration but to note the package, and to copy, to grant access to and
/// to register its libraries.
pub proof fn only_libraries_are_registered(
    cfg: PortableConfig,
    v: Variant,
    root: Option<Seq<char>>,
    dll: Seq<char>,
    i: int,
)
    requires
        cfg.tsf_dll.deep_view() == Some(dll),
        0 <= i < registration::register_steps(cfg, v, root, dll).len(),
    ensures
        match registration::register_steps(cfg, v, root, dll)[i].step {
            Step::WriteInstallDir { subkey, dir } => i == 0 && cfg.system_deploy && dir == cfg.root_dir@
                && subkey == "Software\\"@ + v.app_name@,
            Step::CopyToSystem { src, dst } => cfg.system_deploy && exists|x86: bool| #[trigger]
                registered_as(cfg, v, root, x86) == Some(dst) && library_of(cfg, x86) == Some(src),
            Step::GrantAccess { dll: d } => exists|x86: bool| #[trigger]
                registered_as(cfg, v, root, x86) == Some(d),
            Step::Regsvr { dll: d, x86, unregister } => !unregister && registered_as(cfg, v, root, x86)
                == Some(d),
            Step::Profile { profile, flags } => profile == v.profile_str@ && flags == 0,
            _ => false,
        },
{
    assert(registered_as(cfg, v, root, false) is Some);
    let with_x86 = registered_as(cfg, v, root, true);
    let made = registration::register_steps(cfg, v, root, dll);
    if let Some(own) = cfg.tsf_dll_x86.deep_view() {
        assert(with_x86 is Some);
    }
    match made[i].step {
        Step::CopyToSystem { src, dst } => {
            if i == 1 {
                assert(registered_as(cfg, v, root, false) == Some(dst));
                assert(library_of(cfg, false) == Some(src));
            } else {
                assert(registered_as(cfg, v, root, true) == Some(dst));
                assert(library_of(cfg, true) == Some(src));
            }
        },
        Step::GrantAccess { dll: d } => {
            if i <= 2 && !(i == 2 && !cfg.system_deploy) {
                assert(registered_as(cfg, v, root, false) == Some(d));
            } else {
                assert(registered_as(cfg, v, root, true) == Some(d));
            }
        },
        _ => {},
    }
}

/// Whatever goes wrong with the second library, the profile is still installed; whatever goes wrong
/// with the main one, it is not.
pub proof fn second_library_is_optional(
    cfg: PortableConfig,
    v: Variant,
    root: Option<Seq<char>>,
    dll: Seq<char>,
    i: int,
    error: Seq<char>,
)
    requires
        cfg.tsf_dll.deep_view() == Some(dll),
        0 <= i < registration::register_steps(cfg, v, root, dll).len(),
    ensures
        ({
            let made = registration::register_steps(cfg, v, root, dll);
            let then = registration::progress_after(made, i, Some(error));
            match made[i].step {
                Step::Regsvr { x86, .. } => if x86 {
                    then == Progress::<Seq<char>>::Next((made.len() - 1) as usize)
                } else {
                    then == Progress::Failed(error)
                },
                Step::CopyToSystem { dst, .. } => if cfg.system_deploy && i > 3 {
                    then == Progress::<Seq<char>>::Next((made.len() - 1) as usize)
                } else {
                    then == Progress::Failed(error)
                },
                Step::GrantAccess { .. } => then == Progress::<Seq<char>>::Next((i + 1) as usize),
                _ => then == Progress::Failed(error),
            }
        }),
{
    let made = registration::register_steps(cfg, v, root, dll);
    assert(made.len() <= 8);
}

/// A plan goes on step by step. It fails where a step fails that must not, with that step's reason,
/// and it is done behind its last step; a failure may leave out so many of the next steps, and no
/// more.
pub proof fn plans_go_on(plan: Seq<Planned<Seq<char>>>, at: int, error: Option<Seq<char>>)
    requires
        0 <= at < plan.len(),
        plan.len() <= usize::MAX,
    ensures
        match registration::progress_after(plan, at, error) {
            Progress::Failed(e) => error == Some(e) && plan[at].on_error == OnError::Stop,
            Progress::Next(next) => {
                &&& at < next < plan.len()
                &&& error is None ==> next == at + 1
                &&& error is Some ==> match plan[at].on_error {
                    OnError::Stop => false,
                    OnError::Skip(n) => next == at + 1 + n,
                    OnError::Ignore => next == at + 1,
                }
            },
            Progress::Done => {
                &&& error is None ==> at + 1 == plan.len()
                &&& error is Some ==> match plan[at].on_error {
                    OnError::Stop => false,
                    OnError::Skip(n) => at + 1 + n >= plan.len(),
                    OnError::Ignore => at + 1 == plan.len(),
                }
            },
        },
{
}

/// The machine names the package as the one that the copies in the system directory come from.
pub open spec fn copies_are_from(cfg: PortableConfig, m: Readings) -> bool {
    match m.install_dir.deep_view() {
        Some(dir) => text::trimmed(dir).len() > 0 && registration::is_same_path(
            text::trimmed(dir),
            cfg.root_dir@,
        ),
        None => false,
    }
}

/// The step at `j` is the given one.
pub open spec fn is_step(plan: Seq<Planned<Seq<char>>>, j: int, step: Step<Seq<char>>) -> bool {
    0 <= j < plan.len() && plan[j].step == step
}

/// What registering did, undoing takes back, once the machine names the package as the owner of the
/// copies: it unregisters each library that was registered, as far as it is still there, and then
/// removes its copy; and it removes the note and the profile.
#[verifier::spinoff_prover]
#[verifier::rlimit(40)]
pub proof fn undoing_takes_everything_back(
    cfg: PortableConfig,
    v: Variant,
    root: Option<Seq<char>>,
    dll: Seq<char>,
    m: Readings,
    i: int,
)
    requires
        cfg.tsf_dll.deep_view() == Some(dll),
        m.system_root.deep_view() == root,
        cfg.system_deploy ==> copies_are_from(cfg, m),
        0 <= i < registration::register_steps(cfg, v, root, dll).len(),
    ensures
        ({
            let undone = registration::unregister_steps(cfg, v, m);
            match registration::register_steps(cfg, v, root, dll)[i].step {
                Step::WriteInstallDir { subkey, .. } => exists|j: int| #[trigger]
                    is_step(undone, j, Step::DeleteInstallDir { subkey }),
                Step::CopyToSystem { dst, .. } => m.files.deep_view().contains(dst) ==> exists|j: int|
                    #[trigger] is_step(undone, j, Step::RemoveFile(dst)),
                Step::Regsvr { dll: d, x86, .. } => cfg.system_deploy ==> m.files.deep_view().contains(d)
                    ==> exists|j: int| #[trigger]
                    is_step(undone, j, Step::Regsvr { dll: d, x86, unregister: true }) && is_step(
                        undone,
                        j + 1,
                        Step::RemoveFile(d),
                    ),
                Step::Profile { profile, .. } => exists|j: int| #[trigger]
                    is_step(undone, j, Step::Profile { profile, flags: 1 }),
                _ => true,
            }
        }),
        ({
            let undone = registration::unregister_steps(cfg, v, m);
            match registration::register_steps(cfg, v, root, dll)[i].step {
                Step::Regsvr { dll: d, x86, .. } => !cfg.system_deploy ==> exists|j: int| #[trigger]
                    is_step(undone, j, Step::Regsvr { dll: d, x86, unregister: true }),
                _ => true,
            }
        }),
{
    let undone = registration::unregister_steps(cfg, v, m);
    let made = registration::register_steps(cfg, v, root, dll);
    let second = registration::undo_copy(v, m, true);
    let main = registration::undo_copy(v, m, false);
    let dirs = registration::undo_dir(v, m, true) + registration::undo_dir(v, m, false);
    let n: int = undone.len() as int;
    match made[i].step {
        Step::WriteInstallDir { subkey, .. } => {
            let j: int = 1int + second.len() + main.len() + dirs.len();
            assert(is_step(undone, j, Step::DeleteInstallDir { subkey }));
        },
        Step::CopyToSystem { dst, .. } => {
            if m.files.deep_view().contains(dst) {
                if i == 1 {
                    assert(is_step(undone, 2int + second.len(), Step::RemoveFile(dst)));
                } else {
                    assert(is_step(undone, 2, Step::RemoveFile(dst)));
                }
            }
        },
        Step::Regsvr { dll: d, x86, .. } => {
            if cfg.system_deploy {
                if m.files.deep_view().contains(d) {
                    let j: int = if x86 {
                        1
                    } else {
                        1int + second.len()
                    };
                    assert(is_step(undone, j + 1, Step::RemoveFile(d)));
                    assert(is_step(undone, j, Step::Regsvr { dll: d, x86, unregister: true }));
                }
            } else if x86 {
                assert(is_step(undone, n - 2, Step::Regsvr { dll: d, x86, unregister: true }));
            } else {
                assert(is_step(undone, n - 1, Step::Regsvr { dll: d, x86, unregister: true }));
            }
        },
        Step::Profile { profile, .. } => {
            assert(is_step(undone, 0, Step::Profile { profile, flags: 1 }));
        },
        _ => {},
    }
}

/// The libraries where they lie are always unregistered, whatever the machine says.
pub proof fn own_libraries_are_unregistered(cfg: PortableConfig, v: Variant, m: Readings, x86: bool)
    requires
        library_of(cfg, x86) is Some,
    ensures
        exists|j: int| #[trigger]
            is_step(
                registration::unregister_steps(cfg, v, m),
                j,
                Step::Regsvr { dll: library_of(cfg, x86)->0, x86, unregister: true },
            ),
{
    let undone = registration::unregister_steps(cfg, v, m);
    let n: int = undone.len() as int;
    let j: int = if x86 && cfg.tsf_dll is Some {
        n - 2
    } else {
        n - 1
    };
    assert(is_step(
        undone,
        j,
        Step::Regsvr { dll: library_of(cfg, x86)->0, x86, unregister: true },
    ));
}

/// Undoing touches nothing but the profile, the package's own libraries, and what the package has put
/// into the system directory: a copy is unregistered right before it is removed, and directories go
/// only behind the files in them.
pub proof fn undoing_touches_own_only(cfg: PortableConfig, v: Variant, m: Readings, j: int)
    requires
        0 <= j < registration::unregister_steps(cfg, v, m).len(),
    ensures
        ({
            let undone = registration::unregister_steps(cfg, v, m);
            let root = m.system_root.deep_view();
            match undone[j].step {
                Step::Profile { profile, flags } => j == 0 && profile == v.profile_str@ && flags == 1,
                Step::Regsvr { dll, x86, unregister } => unregister && (library_of(cfg, x86) == Some(dll)
                    || (copies_are_from(cfg, m) && dll == system_place(root, v, x86)
                    && m.files.deep_view().contains(dll) && is_step(undone, j + 1, Step::RemoveFile(dll)))),
                Step::RemoveFile(p) => copies_are_from(cfg, m) && m.files.deep_view().contains(p) && exists|
                    x86: bool,
                |
                    p == #[trigger] system_place(root, v, x86) && is_step(
                        undone,
                        j - 1,
                        Step::Regsvr { dll: p, x86, unregister: true },
                    ),
                Step::RemoveDir(d) => copies_are_from(cfg, m) && (exists|x86: bool|
                    path::parent_of(#[trigger] system_place(root, v, x86)) == Some(d)) && forall|k: int|
                    0 <= k < undone.len() && (#[trigger] undone[k]).step is RemoveFile ==> k < j,
                Step::DeleteInstallDir { subkey } => copies_are_from(cfg, m) && subkey == "Software\\"@
                    + v.app_name@,
                _ => false,
            }
        }),
{
    let undone = registration::unregister_steps(cfg, v, m);
    let root = m.system_root.deep_view();
    let part = if registration::owns(cfg, m) {
        registration::undo_system(v, m)
    } else {
        seq![]
    };
    assert(registration::owns(cfg, m) == copies_are_from(cfg, m));
    let last = registration::undo_in_place(cfg.tsf_dll_x86.deep_view(), true)
        + registration::undo_in_place(cfg.tsf_dll.deep_view(), false);
    let n = part.len() as int;
    assert forall|k: int| 1 <= k < 1 + n implies #[trigger] undone[k] == part[k - 1] by {}
    assert forall|k: int| 1 + n <= k < undone.len() implies #[trigger] undone[k] == last[k - 1 - n] by {}
    assert forall|k: int| 0 <= k < last.len() implies (#[trigger] last[k]).step is Regsvr by {}
    if 1 <= j < 1 + n {
        system_part(v, m, j - 1);
        assert(is_step(part, j, Step::RemoveFile(undone[j].step->Regsvr_dll)) ==> undone[j + 1] == part[j]);
        assert(j >= 2 ==> undone[j - 1] == part[j - 2]);
    }
}

proof fn system_part(v: Variant, m: Readings, j: int)
    requires
        0 <= j < registration::undo_system(v, m).len(),
    ensures
        ({
            let part = registration::undo_system(v, m);
            let root = m.system_root.deep_view();
            match part[j].step {
                Step::Regsvr { dll, x86, unregister } => unregister && dll == system_place(root, v, x86)
                    && m.files.deep_view().contains(dll) && is_step(part, j + 1, Step::RemoveFile(dll)),
                Step::RemoveFile(p) => m.files.deep_view().contains(p) && exists|x86: bool|
                    p == #[trigger] system_place(root, v, x86) && is_step(
                        part,
                        j - 1,
                        Step::Regsvr { dll: p, x86, unregister: true },
                    ),
                Step::RemoveDir(d) => (exists|x86: bool|
                    path::parent_of(#[trigger] system_place(root, v, x86)) == Some(d)) && forall|k: int|
                    0 <= k < part.len() && (#[trigger] part[k]).step is RemoveFile ==> k < j,
                Step::DeleteInstallDir { subkey } => subkey == "Software\\"@ + v.app_name@,
                _ => false,
            }
        }),
{
    let part = registration::undo_system(v, m);
    let root = m.system_root.deep_view();
    let second = registration::undo_copy(v, m, true);
    let main = registration::undo_copy(v, m, false);
    let second_dir = registration::undo_dir(v, m, true);
    assert(system_place(root, v, true) == registration::system_copy(root, v, true));
    assert(system_place(root, v, false) == registration::system_copy(root, v, false));
    let a = second.len() as int;
    let b = a + main.len();
    assert forall|k: int| 0 <= k < a implies #[trigger] part[k] == second[k] by {}
    assert forall|k: int| a <= k < b implies #[trigger] part[k] == main[k - a] by {}
    if j < a {
        if j == 1 {
            assert(part[0] == second[0]);
        } else {
            assert(part[1] == second[1]);
        }
    } else if j < b {
        if j == a + 1 {
            assert(part[a] == main[0]);
        } else {
            assert(part[a + 1] == main[1]);
        }
    } else {
        assert forall|k: int| b <= k < part.len() implies !((#[trigger] part[k]).step is RemoveFile) by {}
        if j < b + second_dir.len() {
            assert(part[j] == second_dir[0]);
            assert(part[j].step is RemoveDir ==> path::parent_of(system_place(root, v, true)) == Some(
                part[j].step->RemoveDir_0,
            ));
        } else {
            assert(part[j].step is RemoveDir ==> path::parent_of(system_place(root, v, false)) == Some(
                part[j].step->RemoveDir_0,
            ));
        }
    }
}

/// A value that a place of the registry names: without the white space around it, and only where
/// something is left.
pub open spec fn named_in(value: Option<String>) -> Option<Seq<char>> {
    match value.deep_view() {
        Some(s) => if text::trimmed(s) == Seq::<char>::empty() {
            None
        } else {
            Some(text::trimmed(s))
        },
        None => None,
    }
}

/// Which library is registered: the user's own registration comes before the machine's, and that
/// before what the merged view says.
pub proof fn own_registration_comes_first(m: Readings)
    ensures
        m.registered_dll() == match (
            named_in(m.dll_user),
            named_in(m.dll_machine),
            named_in(m.dll_classes),
        ) {
            (Some(p), _, _) => Some(p),
            (None, Some(p), _) => Some(p),
            (None, None, last) => last,
        },
{
    for_empty(m.dll_user);
    for_empty(m.dll_machine);
    for_empty(m.dll_classes);
}

proof fn for_empty(value: Option<String>)
    ensures
        registration::cleaned(value.deep_view()) == named_in(value),
{
    if let Some(s) = value.deep_view() {
        assert(text::trimmed(s).len() == 0 ==> text::trimmed(s) =~= Seq::<char>::empty());
    }
}

/// One of the values names a directory that `dir` lies below.
pub open spec fn lies_below_one(dir: Seq<char>, values: Seq<Option<Seq<char>>>) -> bool {
    exists|k: int|
        0 <= k < values.len() && (#[trigger] values[k]) is Some && values[k]->0.len() > 0
            && layout::lies_below(dir, values[k]->0)
}

proof fn given_values(dir: Seq<char>, values: Seq<Option<Seq<char>>>)
    ensures
        layout::protected_under(dir, layout::given(values)) == lies_below_one(dir, values),
    decreases values.len(),
{
    let list = layout::given(values);
    if values.len() > 0 {
        let rest = values.drop_last();
        let before = layout::given(rest);
        given_values(dir, rest);
        if layout::protected_under(dir, list) {
            let i = choose|i: int| 0 <= i < list.len() && #[trigger] layout::lies_below(dir, list[i]);
            if i < before.len() {
                assert(list[i] == before[i]);
                assert(layout::lies_below(dir, before[i]));
                let k = choose|k: int|
                    0 <= k < rest.len() && (#[trigger] rest[k]) is Some && rest[k]->0.len() > 0
                        && layout::lies_below(dir, rest[k]->0);
                assert(values[k] is Some);
            } else {
                assert(values[values.len() - 1] is Some);
            }
        }
        if lies_below_one(dir, values) {
            let k = choose|k: int|
                0 <= k < values.len() && (#[trigger] values[k]) is Some && values[k]->0.len() > 0
                    && layout::lies_below(dir, values[k]->0);
            if k < rest.len() {
                assert(rest[k] is Some);
                let i = choose|i: int|
                    0 <= i < before.len() && #[trigger] layout::lies_below(dir, before[i]);
                assert(layout::lies_below(dir, list[i]));
            } else {
                assert(layout::lies_below(dir, list[list.len() - 1]));
            }
        }
    }
}

/// The package lies where an installer put it: the installer noted its directory, or an uninstaller
/// lies in it.
pub open spec fn is_installed_here(cfg: PortableConfig, m: Readings) -> bool {
    ||| named_in(m.install_location) is Some && registration::is_same_path(
        named_in(m.install_location)->0,
        cfg.root_dir@,
    )
    ||| m.files.deep_view().contains(path::joined_path(cfg.root_dir@, "uninstall.exe"@))
}

/// The registered library is this package's: its own, where it lies; or the copy in the system
/// directory, where that comes from this package.
pub open spec fn is_own_registration(
    cfg: PortableConfig,
    v: Variant,
    m: Readings,
    reg: Seq<char>,
) -> bool {
    let shared = registration::is_same_path(reg, system_place(m.system_root.deep_view(), v, false));
    cfg.tsf_dll matches Some(dll) && ((shared && copies_are_from(cfg, m)) || (!shared
        && registration::is_same_path(reg, dll@)))
}

/// The package that the registered library belongs to is a portable one: it carries a marker.
pub open spec fn belongs_to_portable(v: Variant, m: Readings, reg: Seq<char>) -> bool {
    let shared = registration::is_same_path(reg, system_place(m.system_root.deep_view(), v, false));
    let owner = if shared {
        named_in(m.install_dir)
    } else {
        path::parent_of(reg)
    };
    owner matches Some(dir) && (m.files.deep_view().contains(path::joined_path(dir, "portable_mode"@))
        || m.files.deep_view().contains(path::joined_path(dir, "wind_portable_mode"@)))
}

/// When portable mode is not available, and why: in the directory of an installation; below a
/// directory of the system; and where another library is registered and there, if it belongs to an
/// installation, or to a portable package while the service runs.
pub proof fn portable_mode_is_available(cfg: PortableConfig, v: Variant, m: Readings, running: bool)
    ensures
        ({
            let here = is_installed_here(cfg, m);
            let protected = lies_below_one(cfg.root_dir@, m.protected.deep_view());
            let other = m.registered_dll() matches Some(reg) && (cfg.tsf_dll is Some
                && !is_own_registration(cfg, v, m, reg) && m.files.deep_view().contains(reg));
            let portable = belongs_to_portable(v, m, m.registered_dll()->0);
            let found = registration::conflict_of(cfg, v, m, running);
            &&& (found == Some(Conflict::InstalledHere)) == here
            &&& (found == Some(Conflict::Protected)) == (!here && protected)
            &&& (found == Some(Conflict::OtherPortable)) == (!here && !protected && other && portable
                && running)
            &&& (found == Some(Conflict::OtherInstall)) == (!here && !protected && other && !portable)
        }),
        m.registered_dll() matches Some(reg) ==> registration::holds_registration(cfg, v, m)
            == is_own_registration(cfg, v, m, reg),
        m.registered_dll() is None ==> !registration::holds_registration(cfg, v, m),
{
    given_values(cfg.root_dir@, m.protected.deep_view());
    for_empty(m.install_dir);
    for_empty(m.install_location);
    if let Some(dir) = m.install_dir {
        assert(text::trimmed(dir@).len() == 0 ==> text::trimmed(dir@) =~= Seq::<char>::empty());
    }
}

/// What is shown as the place of a conflict: the installation, the package itself where it lies below
/// a directory of the system, and otherwise the registered library.
pub proof fn conflict_shows_its_place(cfg: PortableConfig, m: Readings)
    ensures
        registration::conflict_place(cfg, m) == if is_installed_here(cfg, m) {
            Some(named_in(m.install_location).unwrap_or(cfg.root_dir@))
        } else if lies_below_one(cfg.root_dir@, m.protected.deep_view()) {
            Some(cfg.root_dir@)
        } else {
            m.registered_dll()
        },
{
    given_values(cfg.root_dir@, m.protected.deep_view());
    for_empty(m.install_location);
}

/// Starting anew as administrator succeeded where the process was started and did not end with a
/// code other than zero.
pub proof fn elevation_succeeds(run: ElevatedRun)
    ensures
        (registration::elevated_error(run) is None) == match run {
            ElevatedRun::NoExe(_) => false,
            ElevatedRun::Refused => false,
            ElevatedRun::TimedOut => false,
            ElevatedRun::NoProcess => true,
            ElevatedRun::Exited(None) => true,
            ElevatedRun::Exited(Some(code)) => code == 0,
        },
{
}

/// `regsvr32` did its work only where it ran to its end with the code zero.
pub proof fn regsvr_succeeds(dll: Seq<char>, run: RegsvrRun)
    ensures
        (registration::regsvr_error(dll, run) is None) == (run matches RegsvrRun::Exited(Some(code))
            && code == 0),
{
}

/// The course of a copy into the system directory. The directory is made and cleaned of leftovers, and
/// the library is copied. Where that fails though there is an old copy, the old one is moved aside and
/// it is tried once more; the first reason counts where there is no old copy, and otherwise that of
/// what failed last.
pub proof fn course_of_a_system_copy(
    src: Seq<char>,
    dst: Seq<char>,
    dir: Seq<char>,
    r: Seq<ReplyView>,
    now: Seq<nat>,
)
    requires
        path::parent_of(dst) == Some(dir),
        r.len() == 6,
        now.len() == 6,
    ensures
        ({
            let p0 = registration::first_copy_phase(dst);
            let p1 = registration::next_copy_phase(dst, p0, r[0], now[0]);
            let p2 = registration::next_copy_phase(dst, p1, r[1], now[1]);
            let p3 = registration::next_copy_phase(dst, p2, r[2], now[2]);
            let p4 = registration::next_copy_phase(dst, p3, r[3], now[3]);
            let p5 = registration::next_copy_phase(dst, p4, r[4], now[4]);
            let p6 = registration::next_copy_phase(dst, p5, r[5], now[5]);
            let aside = dst + ".old_"@ + text::decimal(now[3]);
            &&& registration::copy_action_in(src, dst, p0) == CopyAction::MakeDir(dir)
            &&& r[0].error matches Some(e) ==> registration::copy_action_in(src, dst, p1) == CopyAction::<
                Seq<char>,
            >::Finish(Err("创建系统目录失败 "@ + dir + ": "@ + e))
            &&& r[0].error is None ==> {
                &&& registration::copy_action_in(src, dst, p1) == CopyAction::Clean(dir)
                &&& registration::copy_action_in(src, dst, p2) == CopyAction::Copy(src, dst)
                &&& r[2].error is None ==> registration::copy_action_in(src, dst, p3) == CopyAction::<
                    Seq<char>,
                >::Finish(Ok(()))
                &&& r[2].error matches Some(first) ==> {
                    &&& registration::copy_action_in(src, dst, p3) == CopyAction::Exists(dst)
                    &&& !r[3].yes ==> registration::copy_action_in(src, dst, p4) == CopyAction::<
                        Seq<char>,
                    >::Finish(Err("复制到系统目录失败 "@ + dst + ": "@ + first))
                    &&& r[3].yes ==> {
                        &&& registration::copy_action_in(src, dst, p4) == CopyAction::Rename(dst, aside)
                        &&& r[4].error matches Some(e) ==> registration::copy_action_in(src, dst, p5)
                            == CopyAction::<Seq<char>>::Finish(
                            Err("旧副本被锁定且改名让路失败 "@ + dst + ": "@ + e),
                        )
                        &&& r[4].error is None ==> {
                            &&& registration::copy_action_in(src, dst, p5) == CopyAction::Copy(src, dst)
                            &&& registration::copy_action_in(src, dst, p6) == match r[5].error {
                                None => CopyAction::<Seq<char>>::Finish(Ok(())),
                                Some(e) => CopyAction::Finish(
                                    Err("让路后复制仍失败 "@ + dst + ": "@ + e),
                                ),
                            }
                        }
                    }
                }
            }
        }),
{
    reveal_strlit(".");
    reveal_strlit("_");
    reveal_strlit("old");
    reveal_strlit(".old_");
    assert(deploy::beside(dst, "old"@, now[3]) =~= dst + ".old_"@ + text::decimal(now[3]));
}

/// What is known of two paths that count as the same, where both are ASCII: they agree, up to case
/// and the kind of slash, as far as the shorter one goes, and the rest of the longer one is slashes;
/// and all such paths count as the same.
pub proof fn same_paths_agree(a: Seq<char>, b: Seq<char>)
    requires
        text::is_ascii(a),
        text::is_ascii(b),
        a.len() <= b.len(),
    ensures
        registration::is_same_path(a, b) == ({
            &&& forall|k: int| 0 <= k < a.len() ==> folded(#[trigger] a[k]) == folded(b[k])
            &&& forall|k: int| a.len() <= k < b.len() ==> path::is_sep(#[trigger] b[k])
        }),
        registration::is_same_path(a, b) == registration::is_same_path(b, a),
{
    let x = text::replace_char(a, '/', '\\');
    let y = text::replace_char(b, '/', '\\');
    let set = seq!['\\'];
    assert(set[0] == '\\');
    text::end_is_cut_off(x, set);
    text::end_is_cut_off(y, set);
    let s = text::trim_end_of(x, set);
    let t = text::trim_end_of(y, set);
    assert forall|k: int| 0 <= k < x.len() implies (#[trigger] x[k]) as u32 <= 0x7f by {
        assert(a[k] as u32 <= 0x7f);
    }
    assert forall|k: int| 0 <= k < y.len() implies (#[trigger] y[k]) as u32 <= 0x7f by {
        assert(b[k] as u32 <= 0x7f);
    }
    assert(text::is_ascii(s)) by {
        assert forall|k: int| 0 <= k < s.len() implies (#[trigger] s[k]) as u32 <= 0x7f by {
            assert(s[k] == x[k]);
        }
    }
    assert(text::is_ascii(t)) by {
        assert forall|k: int| 0 <= k < t.len() implies (#[trigger] t[k]) as u32 <= 0x7f by {
            assert(t[k] == y[k]);
        }
    }
    let low_s = text::ascii_lower(s);
    let low_t = text::ascii_lower(t);
    assert forall|k: int| s.len() <= k < x.len() implies #[trigger] x[k] == '\\' by {
        assert(set.contains(x[k]));
    }
    assert forall|k: int| t.len() <= k < y.len() implies #[trigger] y[k] == '\\' by {
        assert(set.contains(y[k]));
    }
    let agree = {
        &&& forall|k: int| 0 <= k < a.len() ==> folded(#[trigger] a[k]) == folded(b[k])
        &&& forall|k: int| a.len() <= k < b.len() ==> path::is_sep(#[trigger] b[k])
    };
    if low_s == low_t {
        let n = s.len() as int;
        assert(low_s.len() == n && low_t.len() == n);
        assert(t.len() == n);
        assert forall|k: int| 0 <= k < a.len() implies folded(#[trigger] a[k]) == folded(b[k]) by {
            if k < n {
                assert(low_s[k] == low_t[k]);
                assert(s[k] == x[k] && t[k] == y[k]);
            } else {
                assert(x[k] == '\\' && y[k] == '\\');
            }
        }
        assert forall|k: int| a.len() <= k < b.len() implies path::is_sep(#[trigger] b[k]) by {
            assert(y[k] == '\\');
        }
        assert(agree);
    }
    if agree {
        let n = s.len() as int;
        let m = t.len() as int;
        assert(n == m) by {
            if n < m {
                assert(t.last() == y[m - 1]);
                if m - 1 < a.len() {
                    assert(x[m - 1] == '\\');
                    assert(folded(a[m - 1]) == folded(b[m - 1]));
                    assert(y[m - 1] == '\\');
                } else {
                    assert(path::is_sep(b[m - 1]));
                    assert(y[m - 1] == '\\');
                }
                assert(set.contains(y[m - 1]));
            }
            if m < n {
                assert(s.last() == x[n - 1]);
                assert(y[n - 1] == '\\');
                assert(folded(a[n - 1]) == folded(b[n - 1]));
                assert(x[n - 1] == '\\');
                assert(set.contains(x[n - 1]));
            }
        }
        assert forall|k: int| 0 <= k < n implies low_s[k] == low_t[k] by {
            assert(folded(a[k]) == folded(b[k]));
            assert(s[k] == x[k] && t[k] == y[k]);
        }
        assert(low_s =~= low_t);
    }
}

/// A character by which paths are compared: slashes are alike, and so are capital and small letters.
pub open spec fn folded(c: char) -> int {
    if c == '/' {
        '\\' as int
    } else if 'A' <= c <= 'Z' {
        c as int + 32
    } else {
        c as int
    }
}

/// Where the registered library is named: in the merged view below the class, and in the hives of the
/// user and the machine at the same place below their classes.
pub proof fn class_is_named_alike(clsid: Seq<char>)
    ensures
        registration::dll_subkey_of(Hive::ClassesRoot, clsid) == "CLSID\\"@ + clsid + "\\InprocServer32"@,
        registration::dll_subkey_of(Hive::CurrentUser, clsid) == "Software\\Classes\\"@
            + registration::dll_subkey_of(Hive::ClassesRoot, clsid),
        registration::dll_subkey_of(Hive::LocalMachine, clsid) == registration::dll_subkey_of(
            Hive::CurrentUser,
            clsid,
        ),
{
    reveal_strlit("CLSID\\");
    reveal_strlit("Software\\Classes\\");
    reveal_strlit("Software\\Classes\\CLSID\\");
    assert("Software\\Classes\\CLSID\\"@ =~= "Software\\Classes\\"@ + "CLSID\\"@);
    assert(registration::dll_subkey_of(Hive::CurrentUser, clsid) =~= "Software\\Classes\\"@
        + registration::dll_subkey_of(Hive::ClassesRoot, clsid));
}

/// What a failure is called: each kind has its own words, and the reason stands in them.
pub proof fn failures_are_named(dll: Seq<char>, e: String, code: u32, exit: i32)
    ensures
        registration::elevated_error(ElevatedRun::NoExe(e)) == Some(e@),
        registration::elevated_error(ElevatedRun::Refused) == Some("请求管理员权限失败或被取消"@),
        registration::elevated_error(ElevatedRun::TimedOut) == Some("提权操作超时"@),
        code != 0 ==> registration::elevated_error(ElevatedRun::Exited(Some(code))) == Some(
            "提权操作失败（退出码 "@ + text::decimal(code as nat) + "）"@,
        ),
        registration::regsvr_error(dll, RegsvrRun::NoFile) == Some("未找到 DLL: "@ + dll),
        registration::regsvr_error(dll, RegsvrRun::NotStarted(e)) == Some(
            "regsvr32 启动失败 ("@ + dll + "): "@ + e@,
        ),
        exit > 0 && path::file_name_of(dll) is Some ==> registration::regsvr_error(
            dll,
            RegsvrRun::Exited(Some(exit)),
        ) == Some(
            "regsvr32 执行失败 ("@ + path::file_name_of(dll)->0 + "): 退出码 "@ + ("Some("@
                + text::decimal(exit as nat) + ")"@),
        ),
        exit < 0 && path::file_name_of(dll) is Some ==> registration::regsvr_error(
            dll,
            RegsvrRun::Exited(Some(exit)),
        ) == Some(
            "regsvr32 执行失败 ("@ + path::file_name_of(dll)->0 + "): 退出码 "@ + ("Some("@ + ("-"@
                + text::decimal((-exit) as nat)) + ")"@),
        ),
{
}

/// What a conflict is called: the user is told of an installation, of a directory of the system, of
/// another package that runs, or of another registration; each in its own words.
pub proof fn conflicts_are_named(a: Conflict, b: Conflict)
    ensures
        a.text() == b.text() ==> a == b,
        Conflict::InstalledHere.text()
            == "当前位于已安装目录，便携模式不可用。如需使用便携模式，请将文件复制到其他目录运行。"@,
        Conflict::Protected.text()
            == "当前位于系统保护目录，便携模式不可用。如需使用便携模式，请将文件复制到其他目录运行。"@,
        Conflict::OtherPortable.text() == "检测到另一个便携版实例正在运行，请先停止该实例后再启动。"@,
        Conflict::OtherInstall.text()
            == "系统已注册其他位置的清风输入法，为避免覆盖现有注册信息，便携模式已禁用。"@,
{
    reveal_strlit("当前位于已安装目录，便携模式不可用。如需使用便携模式，请将文件复制到其他目录运行。");
    reveal_strlit("当前位于系统保护目录，便携模式不可用。如需使用便携模式，请将文件复制到其他目录运行。");
    reveal_strlit("检测到另一个便携版实例正在运行，请先停止该实例后再启动。");
    reveal_strlit("系统已注册其他位置的清风输入法，为避免覆盖现有注册信息，便携模式已禁用。");
    assert(Conflict::InstalledHere.text()[0] == '当');
    assert(Conflict::InstalledHere.text()[4] == '已');
    assert(Conflict::Protected.text()[0] == '当');
    assert(Conflict::Protected.text()[4] == '系');
    assert(Conflict::OtherPortable.text()[0] == '检');
    assert(Conflict::OtherInstall.text()[0] == '系');
}

/// Undoing what was put into the system directory clears the directories of both copies, and the note
/// of the package, as well.
pub proof fn undoing_clears_directories(cfg: PortableConfig, v: Variant, m: Readings, x86: bool, dir: Seq<char>)
    requires
        copies_are_from(cfg, m),
        path::parent_of(system_place(m.system_root.deep_view(), v, x86)) == Some(dir),
    ensures
        exists|j: int| #[trigger]
            is_step(registration::unregister_steps(cfg, v, m), j, Step::RemoveDir(dir)),
        exists|j: int| #[trigger]
            is_step(
                registration::unregister_steps(cfg, v, m),
                j,
                Step::DeleteInstallDir { subkey: "Software\\"@ + v.app_name@ },
            ),
{
    let undone = registration::unregister_steps(cfg, v, m);
    let root = m.system_root.deep_view();
    assert(registration::owns(cfg, m));
    assert(system_place(root, v, x86) == registration::system_copy(root, v, x86));
    let copies = registration::undo_copy(v, m, true) + registration::undo_copy(v, m, false);
    let second = registration::undo_dir(v, m, true);
    let main = registration::undo_dir(v, m, false);
    let at: int = 1int + copies.len();
    let j: int = if x86 {
        at
    } else {
        at + second.len()
    };
    assert(is_step(undone, j, Step::RemoveDir(dir)));
    assert(is_step(
        undone,
        at + second.len() + main.len(),
        Step::DeleteInstallDir { subkey: "Software\\"@ + v.app_name@ },
    ));
}

/// A library whose place has no directory is copied at once; and a copy that has ended stays as it
/// ended.
pub proof fn system_copy_begins_and_stays(
    src: Seq<char>,
    dst: Seq<char>,
    phase: CopyPhase<Seq<char>>,
    reply: ReplyView,
    now: nat,
)
    ensures
        path::parent_of(dst) is None ==> registration::copy_action_in(
            src,
            dst,
            registration::first_copy_phase(dst),
        ) == CopyAction::Copy(src, dst),
        registration::copy_action_in(src, dst, phase) is Finish ==> registration::copy_action_in(
            src,
            dst,
            registration::next_copy_phase(dst, phase, reply, now),
        ) == registration::copy_action_in(src, dst, phase),
{
}

} // verus!
