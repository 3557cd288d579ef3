//! What a deployment does as a whole: which files of an archive or a directory it takes, and where
//! it puts them.
use vstd::prelude::*;
use vstd::string::*;

use crate::archive::{EntryView, Listing};
use crate::deploy;
use crate::deploy::{CopyFault, CopyView, DeployPlan, Fault, Top};
use crate::path;
use crate::text;
use crate::variant::Variant;

verus! {

/// An entry that is a file: its name does not end in a separator.
pub open spec fn names_a_file(e: EntryView) -> bool {
    e.name.len() == 0 || (e.name.last() != '\\' && e.name.last() != '/')
}

/// An entry with a path of which no component is empty, `..`, or begins with a drive, and none holds
/// a separator.
pub open spec fn may_be_unpacked(e: EntryView) -> bool {
    e.path matches Some(p) && forall|k: int|
        0 <= k < p.len() ==> {
            let c = #[trigger] p[k];
            &&& c.len() > 0
            &&& !(c.len() == 2 && c[0] == '.' && c[1] == '.')
            &&& !(c.len() >= 2 && c[1] == ':' && ('A' <= c[0] <= 'Z' || 'a' <= c[0] <= 'z'))
            &&& !c.contains('\\')
            &&& !c.contains('/')
        }
}

/// An entry that is a file with a place in the archive.
pub open spec fn has_a_place(e: EntryView) -> bool {
    names_a_file(e) && may_be_unpacked(e) && e.path->0.len() > 0
}

/// All files of the archive lie below the directory `top`, and there is one.
pub open spec fn lie_below(entries: Seq<EntryView>, top: Seq<char>) -> bool {
    &&& exists|i: int| 0 <= i < entries.len() && has_a_place(#[trigger] entries[i])
    &&& forall|i: int|
        0 <= i < entries.len() && has_a_place(#[trigger] entries[i]) ==> entries[i].path->0.len() >= 2
            && entries[i].path->0[0] == top
}

/// Where the file at `i` lies in its package: the one directory around everything does not count.
pub open spec fn place_in_package(entries: Seq<EntryView>, i: int) -> Seq<Seq<char>> {
    if exists|top: Seq<char>| #[trigger] lie_below(entries, top) {
        entries[i].path->0.skip(1)
    } else {
        entries[i].path->0
    }
}

/// Up to and with the entry at `i`, every file may be unpacked.
pub open spec fn legal_upto(entries: Seq<EntryView>, i: int) -> bool {
    forall|j: int|
        0 <= j <= i && j < entries.len() && names_a_file(#[trigger] entries[j]) ==> may_be_unpacked(
            entries[j],
        )
}

/// The entry at `i` is a file that is to be unpacked.
pub open spec fn is_due(entries: Seq<EntryView>, i: int) -> bool {
    &&& 0 <= i < entries.len()
    &&& legal_upto(entries, i)
    &&& has_a_place(entries[i])
}

proof fn same_view_of_entry(e: EntryView)
    ensures
        names_a_file(e) == !deploy::is_dir_name(e.name),
        may_be_unpacked(e) == (deploy::inside(e) is Some),
        may_be_unpacked(e) ==> deploy::inside(e) == e.path,
        has_a_place(e) == deploy::is_placed(e),
{
    if let Some(p) = e.path {
        assert forall|k: int| 0 <= k < p.len() implies ({
            let c = #[trigger] p[k];
            &&& c.len() > 0
            &&& !(c.len() == 2 && c[0] == '.' && c[1] == '.')
            &&& !(c.len() >= 2 && c[1] == ':' && ('A' <= c[0] <= 'Z' || 'a' <= c[0] <= 'z'))
            &&& !c.contains('\\')
            &&& !c.contains('/')
        }) == deploy::is_inner(p[k]) by {
            let c = p[k];
            assert((c.len() == 2 && c[0] == '.' && c[1] == '.') ==> c =~= seq!['.', '.']);
            if c.contains('\\') {
                let j = choose|j: int| 0 <= j < c.len() && c[j] == '\\';
                assert(path::is_sep(c[j]));
            }
            if c.contains('/') {
                let j = choose|j: int| 0 <= j < c.len() && c[j] == '/';
                assert(path::is_sep(c[j]));
            }
            assert(forall|j: int| 0 <= j < c.len() && path::is_sep(#[trigger] c[j]) ==> c.contains('\\')
                || c.contains('/'));
        }
        if may_be_unpacked(e) {
            assert forall|k: int| 0 <= k < p.len() implies deploy::is_inner(#[trigger] p[k]) by {
                let c = p[k];
                assert(c.len() > 0);
            }
        }
    }
}

proof fn same_place(entries: Seq<EntryView>, i: int)
    requires
        0 <= i < entries.len(),
        has_a_place(entries[i]),
    ensures
        place_in_package(entries, i) == deploy::stripped(
            entries[i].path->0,
            deploy::strip_of(deploy::top_of(entries)),
        ),
        place_in_package(entries, i).len() > 0,
{
    deploy::top_describes_files(entries);
    assert forall|j: int| 0 <= j < entries.len() implies has_a_place(#[trigger] entries[j])
        == deploy::is_placed(entries[j]) by {
        same_view_of_entry(entries[j]);
    }
    match deploy::top_of(entries) {
        Top::Under(t) => {
            assert(lie_below(entries, t));
            assert(entries[i].path->0.len() >= 2);
        },
        _ => {
            assert forall|t: Seq<char>| !#[trigger] lie_below(entries, t) by {
                if lie_below(entries, t) {
                    let (a, b) = choose|a: int, b: int|
                        0 <= a < entries.len() && 0 <= b < entries.len() && deploy::is_placed(
                            #[trigger] entries[a],
                        ) && deploy::is_placed(#[trigger] entries[b]) && (entries[a].path->0.len() == 1
                            || entries[a].path->0[0] != entries[b].path->0[0]);
                    assert(has_a_place(entries[a]) && has_a_place(entries[b]));
                    assert(entries[a].path->0[0] == t);
                    assert(entries[b].path->0[0] == t);
                }
            }
        },
    }
}

proof fn first_illegal_is_first(entries: Seq<EntryView>, from: int)
    requires
        0 <= from <= entries.len(),
    ensures
        from <= deploy::first_illegal(entries, from) <= entries.len(),
        forall|j: int|
            from <= j < deploy::first_illegal(entries, from) && names_a_file(#[trigger] entries[j])
                ==> may_be_unpacked(entries[j]),
        deploy::first_illegal(entries, from) < entries.len() ==> names_a_file(
            entries[deploy::first_illegal(entries, from)],
        ) && !may_be_unpacked(entries[deploy::first_illegal(entries, from)]),
    decreases entries.len() - from,
{
    if from < entries.len() {
        same_view_of_entry(entries[from]);
        if !(!deploy::is_dir_name(entries[from].name) && deploy::inside(entries[from]) is None) {
            first_illegal_is_first(entries, from + 1);
        }
    }
}

#[verifier::spinoff_prover]
proof fn items_of_entries(
    entries: Seq<EntryView>,
    n: int,
    strip: Option<Seq<char>>,
    target: Seq<char>,
    self_exe: Option<Seq<char>>,
)
    requires
        0 <= n <= entries.len(),
    ensures
        ({
            let items = deploy::items_upto(entries, n, strip, target, self_exe);
            &&& forall|k: int|
                0 <= k < items.len() ==> 0 <= (#[trigger] items[k]).index < n && deploy::item_for(
                    items[k].index,
                    entries[items[k].index],
                    strip,
                    target,
                    self_exe,
                ) == Some(items[k])
            &&& forall|a: int, b: int|
                0 <= a < b < items.len() ==> (#[trigger] items[a]).index < (#[trigger] items[b]).index
            &&& forall|i: int|
                0 <= i < n && deploy::item_for(i, #[trigger] entries[i], strip, target, self_exe) is Some
                    ==> exists|k: int| 0 <= k < items.len() && (#[trigger] items[k]).index == i
        }),
    decreases n,
{
    if n > 0 {
        items_of_entries(entries, n - 1, strip, target, self_exe);
        let before = deploy::items_upto(entries, n - 1, strip, target, self_exe);
        let items = deploy::items_upto(entries, n, strip, target, self_exe);
        assert forall|i: int|
            0 <= i < n && deploy::item_for(i, #[trigger] entries[i], strip, target, self_exe) is Some implies exists|
            k: int,
        | 0 <= k < items.len() && (#[trigger] items[k]).index == i by {
            if i < n - 1 {
                let k = choose|k: int| 0 <= k < before.len() && (#[trigger] before[k]).index == i;
                assert(items[k].index == i);
            } else {
                assert(items[items.len() - 1].index == i);
            }
        }
    }
}

/// What is planned of an archive: every file before the first illegal one, each once, in their order
/// in the archive, and nothing else; each to its place in the package below the target. The plan ends
/// in a fault where a file is illegal or an entry cannot be read, and nowhere else, and the launcher
/// is restarted where its own file is among those planned.
#[verifier::spinoff_prover]
pub proof fn plan_unpacks_every_file(
    plan: DeployPlan,
    listing: Listing,
    target: Seq<char>,
    self_exe: Option<Seq<char>>,
)
    requires
        plan.is_for(listing, target, self_exe),
    ensures
        ({
            let entries = listing.entries.deep_view();
            let items = plan.items.deep_view();
            &&& forall|i: int| #[trigger]
                is_due(entries, i) ==> exists|k: int|
                    0 <= k < items.len() && (#[trigger] items[k]).index == i && items[k].dst
                        == path::joined_path(target, text::joined(place_in_package(entries, i), "\\"@))
            &&& forall|k: int|
                0 <= k < items.len() ==> {
                    let item = #[trigger] items[k];
                    &&& is_due(entries, item.index)
                    &&& item.dst == path::joined_path(
                        target,
                        text::joined(place_in_package(entries, item.index), "\\"@),
                    )
                    &&& item.dir == path::parent_of(item.dst)
                    &&& item.is_self == (self_exe is Some && text::lowercase(self_exe->0)
                        == text::lowercase(item.dst))
                }
            &&& forall|a: int, b: int|
                0 <= a < b < items.len() ==> (#[trigger] items[a]).index < (#[trigger] items[b]).index
            &&& plan.needs_restart == exists|k: int|
                0 <= k < items.len() && self_exe is Some && text::lowercase(self_exe->0)
                    == text::lowercase((#[trigger] items[k]).dst)
            &&& (plan.fault is None) == (legal_upto(entries, entries.len() as int) && listing.fault is None)
            &&& (plan.fault matches Some(Fault::IllegalPath)) == !legal_upto(entries, entries.len() as int)
            &&& plan.fault matches Some(Fault::BadEntry(e)) ==> listing.fault == Some(e)
        }),
{
    let entries = listing.entries.deep_view();
    let items = plan.items.deep_view();
    let stop = deploy::first_illegal(entries, 0);
    let strip = deploy::strip_of(deploy::top_of(entries));
    first_illegal_is_first(entries, 0);
    items_of_entries(entries, stop, strip, target, self_exe);
    assert forall|i: int| #[trigger] is_due(entries, i) implies exists|k: int|
        0 <= k < items.len() && (#[trigger] items[k]).index == i && items[k].dst == path::joined_path(
            target,
            text::joined(place_in_package(entries, i), "\\"@),
        ) by {
        same_view_of_entry(entries[i]);
        same_place(entries, i);
        assert(i < stop) by {
            if stop <= i {
                assert(names_a_file(entries[stop]));
            }
        }
        assert(deploy::item_for(i, entries[i], strip, target, self_exe) is Some);
        let k = choose|k: int| 0 <= k < items.len() && (#[trigger] items[k]).index == i;
        assert(items[k].index == i);
    }
    assert forall|k: int| 0 <= k < items.len() implies ({
        let item = #[trigger] items[k];
        &&& is_due(entries, item.index)
        &&& item.dst == path::joined_path(
            target,
            text::joined(place_in_package(entries, item.index), "\\"@),
        )
        &&& item.dir == path::parent_of(item.dst)
        &&& item.is_self == (self_exe is Some && text::lowercase(self_exe->0) == text::lowercase(item.dst))
    }) by {
        let i = items[k].index;
        same_view_of_entry(entries[i]);
        assert(has_a_place(entries[i])) by {
            let p = entries[i].path->0;
            if p.len() == 0 {
                assert(deploy::stripped(p, strip).len() == 0);
            }
        }
        same_place(entries, i);
    }
    if stop < entries.len() {
        assert(names_a_file(entries[stop]) && !may_be_unpacked(entries[stop]));
    }
    if plan.needs_restart {
        let k = choose|k: int| 0 <= k < items.len() && (#[trigger] items[k]).is_self;
        assert(text::lowercase(self_exe->0) == text::lowercase(items[k].dst));
    }
    if exists|k: int|
        0 <= k < items.len() && self_exe is Some && text::lowercase(self_exe->0) == text::lowercase(
            (#[trigger] items[k]).dst,
        ) {
        let k = choose|k: int|
            0 <= k < items.len() && self_exe is Some && text::lowercase(self_exe->0) == text::lowercase(
                (#[trigger] items[k]).dst,
            );
        assert(items[k].is_self);
    }
}

proof fn plain_names_are_all_names(list: Seq<Seq<char>>)
    requires
        forall|k: int| 0 <= k < list.len() ==> (#[trigger] list[k]).len() > 0 && list[k] != seq!['.'],
    ensures
        path::names_among(list) == list,
    decreases list.len(),
{
    if list.len() > 0 {
        let rest = list.drop_last();
        assert forall|k: int| 0 <= k < rest.len() implies (#[trigger] rest[k]).len() > 0 && rest[k]
            != seq!['.'] by {
            assert(rest[k] == list[k]);
        }
        plain_names_are_all_names(rest);
        assert(list[list.len() - 1] == list.last());
        assert(rest.push(list.last()) =~= list);
    } else {
        assert(list =~= seq![]);
    }
}

/// Below a target on a drive, the path of each planned file is that of the target, followed by the
/// file's place in the package, name for name.
#[verifier::spinoff_prover]
pub proof fn files_land_at_their_place(
    plan: DeployPlan,
    listing: Listing,
    target: Seq<char>,
    self_exe: Option<Seq<char>>,
    k: int,
)
    requires
        plan.is_for(listing, target, self_exe),
        0 <= k < plan.items.deep_view().len(),
        path::is_drive(target),
        target.len() >= 3,
        path::is_sep(target[2]),
        forall|i: int|
            0 <= i < place_in_package(
                listing.entries.deep_view(),
                plan.items.deep_view()[k].index,
            ).len() ==> #[trigger] place_in_package(
                listing.entries.deep_view(),
                plan.items.deep_view()[k].index,
            )[i] != seq!['.'],
    ensures
        path::names(plan.items.deep_view()[k].dst) == path::names(target) + place_in_package(
            listing.entries.deep_view(),
            plan.items.deep_view()[k].index,
        ),
{
    plan_unpacks_every_file(plan, listing, target, self_exe);
    let entries = listing.entries.deep_view();
    let item = plan.items.deep_view()[k];
    let rel = place_in_package(entries, item.index);
    let p = entries[item.index].path->0;
    assert(is_due(entries, item.index));
    same_place(entries, item.index);
    assert forall|i: int| 0 <= i < rel.len() implies (#[trigger] rel[i]).len() > 0 && !rel[i].contains(
        '\\',
    ) && !rel[i].contains('/') by {
        if rel == p {
            assert(p[i].len() > 0);
        } else {
            assert(rel[i] == p[i + 1]);
        }
    }
    assert forall|i: int, j: int| 0 <= i < rel.len() && 0 <= j < rel[i].len() implies !path::is_sep(
        #[trigger] rel[i][j],
    ) by {
        assert(!rel[i].contains('\\') && !rel[i].contains('/'));
        assert(rel[i].contains(rel[i][j]));
    }
    let below = text::joined(rel, "\\"@);
    path::pieces_undo_joining(rel);
    plain_names_are_all_names(rel);
    let dst = item.dst;
    assert(dst == path::joined_path(target, below));
    assert(dst[0] == target[0] && dst[1] == target[1] && dst[2] == target[2]);
    path::root_of_drive(target);
    path::root_of_drive(dst);
    let front = target.skip(3);
    if path::is_sep(target.last()) {
        if target.len() == 3 {
            assert(dst.skip(3) =~= below);
            assert(front =~= seq![]);
            assert(path::pieces(front) =~= seq![seq![]]);
            path::names_are_picked(seq![], seq![], seq![]);
            assert(path::names(target) =~= seq![]);
            assert(path::names(dst) =~= path::names(target) + rel);
        } else {
            let head = front.drop_last();
            assert(front.last() == target.last());
            assert(head.push(front.last()) =~= front);
            assert(dst.skip(3) =~= head.push(front.last()) + below);
            path::separator_parts(head, front.last(), below);
            path::names_are_picked(path::pieces(head), rel, seq![]);
            path::separator_parts(head, front.last(), seq![]);
            assert(head.push(front.last()) + seq![] =~= front);
            assert(path::pieces(Seq::<char>::empty()) =~= seq![seq![]]);
            path::names_are_picked(path::pieces(head), seq![seq![]], seq![]);
            assert(path::names(target) =~= path::names_among(path::pieces(head)));
        }
    } else {
        assert(dst.skip(3) =~= front.push('\\') + below);
        path::separator_parts(front, '\\', below);
        path::names_are_picked(path::pieces(front), rel, seq![]);
    }
}

/// As many files are planned as there are files to unpack.
pub proof fn plan_counts_every_file(
    plan: DeployPlan,
    listing: Listing,
    target: Seq<char>,
    self_exe: Option<Seq<char>>,
)
    requires
        plan.is_for(listing, target, self_exe),
    ensures
        Set::new(|i: int| is_due(listing.entries.deep_view(), i)).finite(),
        plan.items.deep_view().len() == Set::new(|i: int| is_due(listing.entries.deep_view(), i)).len(),
        plan.fault is None ==> plan.items.deep_view().len() == Set::new(
            |i: int|
                0 <= i < listing.entries.deep_view().len() && has_a_place(
                    listing.entries.deep_view()[i],
                ),
        ).len(),
{
    let entries = listing.entries.deep_view();
    let items = plan.items.deep_view();
    plan_unpacks_every_file(plan, listing, target, self_exe);
    let indices = Seq::new(items.len(), |k: int| items[k].index);
    assert(indices.no_duplicates()) by {
        assert forall|a: int, b: int| 0 <= a < indices.len() && 0 <= b < indices.len() && a != b implies indices[a]
            != indices[b] by {
            if a < b {
                assert(items[a].index < items[b].index);
            } else {
                assert(items[b].index < items[a].index);
            }
        }
    }
    let due = Set::new(|i: int| is_due(entries, i));
    assert(indices.to_set() =~= due) by {
        assert forall|i: int| due.contains(i) implies indices.to_set().contains(i) by {
            assert(is_due(entries, i));
            let k = choose|k: int| 0 <= k < items.len() && (#[trigger] items[k]).index == i;
            assert(indices[k] == i);
        }
        assert forall|i: int| indices.to_set().contains(i) implies due.contains(i) by {
            let k = choose|k: int| 0 <= k < indices.len() && indices[k] == i;
            assert(items[k].index == i);
        }
    }
    indices.unique_seq_to_set();
    if plan.fault is None {
        assert(due =~= Set::new(|i: int| 0 <= i < entries.len() && has_a_place(entries[i])));
    }
}

/// A file below the source that belongs in a copy: it does not lie below a directory `userdata` at
/// the top, however deep, and it is not the `uninstall.exe` at the top; case does not count.
pub open spec fn belongs_in_copy(rel: Seq<char>) -> bool {
    path::names(rel).len() > 0 ==> {
        &&& text::ascii_lower(path::names(rel)[0]) != "userdata"@
        &&& text::ascii_lower(path::names(rel)[0]) == "uninstall.exe"@ ==> path::names(rel).len() > 1
    }
}

proof fn same_view_of_copy(rel: Seq<char>)
    ensures
        belongs_in_copy(rel) == !deploy::is_left_out(rel),
{
    reveal_strlit("userdata");
    reveal_strlit("uninstall.exe");
    assert(text::ascii_lower("userdata"@) =~= "userdata"@);
    assert(text::ascii_lower("uninstall.exe"@) =~= "uninstall.exe"@);
}

/// Behind one directory, two paths are the same only where what follows it is.
proof fn joined_path_is_injective(dir: Seq<char>, a: Seq<char>, b: Seq<char>)
    requires
        path::joined_path(dir, a) == path::joined_path(dir, b),
    ensures
        a == b,
{
    let x = path::joined_path(dir, a);
    let y = path::joined_path(dir, b);
    let none = Seq::<char>::empty();
    let off = path::joined_path(dir, none).len() as int;
    assert(x.len() == off + a.len());
    assert(y.len() == off + b.len());
    assert forall|k: int| 0 <= k < a.len() implies a[k] == b[k] by {
        assert(x[off + k] == a[k]);
        assert(y[off + k] == b[k]);
    }
    assert(a =~= b);
}

/// How many of the first `n` files belong in a copy.
pub open spec fn copied_before(files: Seq<Seq<char>>, n: int) -> nat
    decreases n,
{
    if n <= 0 {
        0
    } else if belongs_in_copy(files[n - 1]) {
        copied_before(files, n - 1) + 1
    } else {
        copied_before(files, n - 1)
    }
}

#[verifier::spinoff_prover]
proof fn copy_so_far(src: Seq<char>, target: Seq<char>, files: Seq<Seq<char>>)
    ensures
        deploy::copies(src, target, files).len() == copied_before(files, files.len() as int),
        forall|k: int|
            0 <= k < files.len() && belongs_in_copy(#[trigger] files[k]) ==> {
                let at = copied_before(files, k);
                &&& at < deploy::copies(src, target, files).len()
                &&& deploy::copies(src, target, files)[at as int] == (CopyView {
                    from: path::joined_path(src, files[k]),
                    to: path::joined_path(target, files[k]),
                    dir: path::parent_of(path::joined_path(target, files[k])),
                })
            },
        forall|i: int|
            0 <= i < deploy::copies(src, target, files).len() ==> exists|k: int|
                0 <= k < files.len() && belongs_in_copy(#[trigger] files[k]) && copied_before(files, k) == i
                    && (#[trigger] deploy::copies(src, target, files)[i]).from == path::joined_path(
                    src,
                    files[k],
                ),
    decreases files.len(),
{
    if files.len() > 0 {
        let rest = files.drop_last();
        let n = rest.len() as int;
        copy_so_far(src, target, rest);
        same_view_of_copy(files.last());
        assert forall|k: int| 0 <= k <= n implies #[trigger] copied_before(files, k) == copied_before(
            rest,
            k,
        ) by {
            counted_alike(files, rest, k);
        }
        let all = deploy::copies(src, target, files);
        let before = deploy::copies(src, target, rest);
        assert forall|k: int| 0 <= k < files.len() && belongs_in_copy(#[trigger] files[k]) implies ({
            let at = copied_before(files, k);
            &&& at < all.len()
            &&& all[at as int] == (CopyView {
                from: path::joined_path(src, files[k]),
                to: path::joined_path(target, files[k]),
                dir: path::parent_of(path::joined_path(target, files[k])),
            })
        }) by {
            if k < n {
                assert(rest[k] == files[k]);
                assert(all[copied_before(files, k) as int] == before[copied_before(rest, k) as int]);
            }
        }
        assert forall|i: int| 0 <= i < all.len() implies exists|k: int|
            0 <= k < files.len() && belongs_in_copy(#[trigger] files[k]) && copied_before(files, k) == i
                && (#[trigger] all[i]).from == path::joined_path(src, files[k]) by {
            if i < before.len() {
                let k = choose|k: int|
                    0 <= k < rest.len() && belongs_in_copy(#[trigger] rest[k]) && copied_before(rest, k)
                        == i && (#[trigger] before[i]).from == path::joined_path(src, rest[k]);
                assert(files[k] == rest[k]);
                assert(copied_before(files, k) == i);
                assert(all[i] == before[i]);
            } else {
                assert(files[n] == files.last());
                assert(copied_before(files, n) == i);
            }
        }
    }
}

proof fn counted_alike(a: Seq<Seq<char>>, b: Seq<Seq<char>>, k: int)
    requires
        k <= a.len(),
        k <= b.len(),
        forall|j: int| 0 <= j < k ==> #[trigger] a[j] == b[j],
    ensures
        copied_before(a, k) == copied_before(b, k),
    decreases k,
{
    if k > 0 {
        counted_alike(a, b, k - 1);
        assert(a[k - 1] == b[k - 1]);
    }
}

/// What is copied of a directory: each file that belongs in a copy, once and in the order of the
/// files, from its place below the source to the same place below the target.
pub proof fn copy_takes_what_belongs(src: Seq<char>, target: Seq<char>, files: Seq<Seq<char>>)
    ensures
        deploy::copies(src, target, files).len() == copied_before(files, files.len() as int),
        forall|k: int|
            0 <= k < files.len() && belongs_in_copy(#[trigger] files[k]) ==> {
                let at = copied_before(files, k);
                &&& at < deploy::copies(src, target, files).len()
                &&& deploy::copies(src, target, files)[at as int] == (CopyView {
                    from: path::joined_path(src, files[k]),
                    to: path::joined_path(target, files[k]),
                    dir: path::parent_of(path::joined_path(target, files[k])),
                })
            },
{
    copy_so_far(src, target, files);
}

/// Whatever is copied, from wherever in the source to wherever in the target: its path does not begin
/// with `userdata`, whatever the case and however many names follow, and it is not `uninstall.exe`.
pub proof fn copy_leaves_user_data_alone(
    src: Seq<char>,
    target: Seq<char>,
    files: Seq<Seq<char>>,
    i: int,
    rel: Seq<char>,
)
    requires
        0 <= i < deploy::copies(src, target, files).len(),
        deploy::copies(src, target, files)[i].from == path::joined_path(src, rel)
            || deploy::copies(src, target, files)[i].to == path::joined_path(target, rel),
    ensures
        files.contains(rel),
        path::names(rel).len() > 0 ==> text::ascii_lower(path::names(rel)[0]) != "userdata"@,
        path::names(rel).len() == 1 ==> text::ascii_lower(path::names(rel)[0]) != "uninstall.exe"@,
        deploy::copies(src, target, files)[i].from == path::joined_path(src, rel),
        deploy::copies(src, target, files)[i].to == path::joined_path(target, rel),
{
    copy_so_far(src, target, files);
    let k = choose|k: int|
        0 <= k < files.len() && belongs_in_copy(#[trigger] files[k]) && copied_before(files, k) == i
            && (#[trigger] deploy::copies(src, target, files)[i]).from == path::joined_path(
            src,
            files[k],
        );
    assert(files[k] == files[k]);
    if deploy::copies(src, target, files)[i].from == path::joined_path(src, rel) {
        joined_path_is_injective(src, rel, files[k]);
    } else {
        joined_path_is_injective(target, rel, files[k]);
    }
}

/// A file name that is something, the mark, and at least one digit.
pub open spec fn ends_in_number(name: Seq<char>, mark: Seq<char>) -> bool {
    exists|front: Seq<char>, digits: Seq<char>|
        name == #[trigger] (front + mark + digits) && digits.len() > 0 && forall|i: int|
            0 <= i < digits.len() ==> '0' <= #[trigger] digits[i] <= '9'
}

/// A file name that is something, `.old_` or `.new_`, and at least one digit; or something and
/// `.bak`.
pub open spec fn is_a_remnant(name: Seq<char>) -> bool {
    ||| exists|front: Seq<char>| name == #[trigger] (front + ".bak"@)
    ||| ends_in_number(name, ".old_"@)
    ||| ends_in_number(name, ".new_"@)
}

proof fn same_view_of_number(name: Seq<char>, mark: Seq<char>)
    ensures
        ends_in_number(name, mark) == deploy::is_numbered(name, mark),
{
    let n = mark.len() as int;
    if ends_in_number(name, mark) {
        let (front, digits) = choose|front: Seq<char>, digits: Seq<char>|
            name == #[trigger] (front + mark + digits) && digits.len() > 0 && forall|i: int|
                0 <= i < digits.len() ==> '0' <= #[trigger] digits[i] <= '9';
        let at = front.len() as int;
        assert(name.len() == at + n + digits.len());
        assert(name.skip(at + n) =~= digits);
        assert(name.subrange(at, at + n) =~= mark);
        assert(text::all_digits(digits));
        assert(deploy::is_numbered(name, mark));
    }
    if deploy::is_numbered(name, mark) {
        let at = choose|i: int|
            0 <= i && i + mark.len() < name.len() && #[trigger] name.subrange(i, i + mark.len()) == mark
                && text::all_digits(name.skip(i + mark.len()));
        let front = name.take(at);
        let digits = name.skip(at + n);
        assert(name =~= front + name.subrange(at, at + n) + digits);
        assert forall|i: int| 0 <= i < digits.len() implies '0' <= #[trigger] digits[i] <= '9' by {
            assert(text::is_digit(digits[i]));
        }
        assert(name == front + mark + digits);
    }
}

proof fn same_view_of_remnant(name: Seq<char>)
    ensures
        is_a_remnant(name) == deploy::is_leftover(name),
{
    same_view_of_number(name, ".old_"@);
    same_view_of_number(name, ".new_"@);
    let mark = ".bak"@;
    if exists|front: Seq<char>| name == #[trigger] (front + mark) {
        let front = choose|front: Seq<char>| name == #[trigger] (front + mark);
        assert(name.subrange(name.len() - mark.len(), name.len() as int) =~= mark);
    }
    if mark.is_suffix_of(name) {
        let front = name.take(name.len() - mark.len());
        assert(name =~= front + mark);
    }
}

/// Cleaning a directory removes the remnants of replaced files that are in it, and nothing else.
#[verifier::spinoff_prover]
pub proof fn cleaning_removes_remnants_only(dir: Seq<char>, names: Seq<Seq<char>>, name: Seq<char>)
    ensures
        deploy::leftovers(dir, names).contains(path::joined_path(dir, name)) == (names.contains(name)
            && is_a_remnant(name)),
        forall|i: int|
            0 <= i < deploy::leftovers(dir, names).len() ==> exists|k: int|
                0 <= k < names.len() && (#[trigger] deploy::leftovers(dir, names)[i])
                    == path::joined_path(dir, #[trigger] names[k]) && is_a_remnant(names[k]),
    decreases names.len(),
{
    let all = deploy::leftovers(dir, names);
    if names.len() > 0 {
        let rest = names.drop_last();
        let before = deploy::leftovers(dir, rest);
        let last = names.last();
        cleaning_removes_remnants_only(dir, rest, name);
        same_view_of_remnant(last);
        assert(names[names.len() - 1] == last);
        assert forall|i: int| 0 <= i < all.len() implies exists|k: int|
            0 <= k < names.len() && (#[trigger] all[i]) == path::joined_path(dir, #[trigger] names[k])
                && is_a_remnant(names[k]) by {
            if i < before.len() {
                let k = choose|k: int|
                    0 <= k < rest.len() && (#[trigger] before[i]) == path::joined_path(
                        dir,
                        #[trigger] rest[k],
                    ) && is_a_remnant(rest[k]);
                assert(names[k] == rest[k]);
                assert(all[i] == before[i]);
            }
        }
        if all.contains(path::joined_path(dir, name)) {
            let i = choose|i: int| 0 <= i < all.len() && all[i] == path::joined_path(dir, name);
            let k = choose|k: int|
                0 <= k < names.len() && (#[trigger] all[i]) == path::joined_path(dir, #[trigger] names[k])
                    && is_a_remnant(names[k]);
            joined_path_is_injective(dir, name, names[k]);
        }
        if names.contains(name) && is_a_remnant(name) {
            if last == name {
                assert(all[all.len() - 1] == path::joined_path(dir, name));
            } else {
                let k = choose|k: int| 0 <= k < names.len() && names[k] == name;
                assert(rest[k] == name);
                let i = choose|i: int| 0 <= i < before.len() && before[i] == path::joined_path(dir, name);
                assert(all[i] == before[i]);
            }
        }
    }
}

/// Among the names there is a file with the wanted name, in whatever directory; case does not count.
pub open spec fn holds_file(names: Seq<Seq<char>>, wanted: Seq<char>) -> bool {
    exists|i: int|
        0 <= i < names.len() && path::file_name_of(#[trigger] names[i]) is Some && text::lowercase(
            path::file_name_of(names[i])->0,
        ) == text::lowercase(wanted)
}

/// A package is whole where it holds the service and its library; what is reported as missing is
/// what it does not hold of the two, the service first.
pub proof fn package_needs_service_and_library(names: Seq<Seq<char>>, v: Variant)
    ensures
        (deploy::missing_files(names, v).len() == 0) == (holds_file(names, v.service_name@)
            && holds_file(names, v.dll_name@)),
        !holds_file(names, v.service_name@) ==> deploy::missing_files(names, v).len() > 0
            && deploy::missing_files(names, v)[0] == v.service_name@,
        !holds_file(names, v.dll_name@) ==> deploy::missing_files(names, v).len() > 0
            && deploy::missing_files(names, v).last() == v.dll_name@,
        deploy::missing_files(names, v).len() == (if holds_file(names, v.service_name@) {
            0int
        } else {
            1
        }) + (if holds_file(names, v.dll_name@) {
            0int
        } else {
            1
        }),
{
    same_view_of_file(names, v.service_name@);
    same_view_of_file(names, v.dll_name@);
}

proof fn same_view_of_file(names: Seq<Seq<char>>, wanted: Seq<char>)
    ensures
        holds_file(names, wanted) == deploy::has_file(names, wanted),
{
    if holds_file(names, wanted) {
        let i = choose|i: int|
            0 <= i < names.len() && path::file_name_of(#[trigger] names[i]) is Some && text::lowercase(
                path::file_name_of(names[i])->0,
            ) == text::lowercase(wanted);
        assert(deploy::names_file(names[i], wanted));
    }
}

/// Two directories count as one where what their paths resolve to is the same text, or the path as
/// given where it does not resolve; case does not count.
pub proof fn directories_are_told_apart(
    a: Seq<char>,
    real_a: Option<Seq<char>>,
    b: Seq<char>,
    real_b: Option<Seq<char>>,
)
    ensures
        (deploy::dir_key(a, real_a) == deploy::dir_key(b, real_b)) == (text::lowercase(
            real_a.unwrap_or(a),
        ) == text::lowercase(real_b.unwrap_or(b))),
        real_a is Some && real_a == real_b ==> deploy::dir_key(a, real_a) == deploy::dir_key(b, real_b),
{
}

/// What a failure is called: each kind has its own words, and the reason stands in them.
pub proof fn deployment_faults_are_named(e: String, from: String, names: Vec<String>)
    ensures
        Fault::NotOpened(e).text() == "打开 ZIP 失败: "@ + e@,
        Fault::Unreadable(e).text() == "读取 ZIP 失败: "@ + e@,
        Fault::BadEntry(e).text() == "读取 ZIP 条目失败: "@ + e@,
        Fault::IllegalPath.text() == "ZIP 含非法条目路径"@,
        names@.len() == 1 ==> Fault::Missing(names).text() == "ZIP 缺少必要文件: "@ + names@[0]@,
        names@.len() == 2 ==> Fault::Missing(names).text() == "ZIP 缺少必要文件: "@ + (names@[0]@ + ", "@
            + names@[1]@),
        CopyFault::SameDirectory.text() == "源目录与目标目录相同"@,
        CopyFault::NotListed(e).text() == "枚举源文件失败: "@ + e@,
        CopyFault::NoDirectory(e).text() == "创建目录失败: "@ + e@,
        CopyFault::NotCopied(from, e).text() == "复制 "@ + from@ + " 失败: "@ + e@,
{
    let list = names.deep_view();
    if names@.len() == 2 {
        assert(list.drop_last() =~= seq![names@[0]@]);
        assert(text::joined(list.drop_last(), ", "@) == names@[0]@);
        assert(list.last() == names@[1]@);
    }
}

} // verus!
