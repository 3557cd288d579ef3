//! Deploying a portable package: from a ZIP archive, or by copying a directory.
use vstd::prelude::*;
use vstd::string::*;

use crate::archive;
use crate::archive::{Entry, EntryView, Listing, Package};
use crate::path;
use crate::text;
use crate::variant::Variant;

verus! {

/// Why an archive cannot be deployed.
#[derive(Debug)]
pub enum Fault {
    /// The file could not be opened.
    NotOpened(String),
    /// The file is not a readable archive.
    Unreadable(String),
    /// An entry of the archive cannot be read.
    BadEntry(String),
    /// The name of an entry leads out of the directory that the archive is unpacked into.
    IllegalPath,
    /// Files that a package must have are missing.
    Missing(Vec<String>),
}

impl Fault {
    pub open spec fn text(self) -> Seq<char> {
        match self {
            Fault::NotOpened(e) => "打开 ZIP 失败: "@ + e@,
            Fault::Unreadable(e) => "读取 ZIP 失败: "@ + e@,
            Fault::BadEntry(e) => "读取 ZIP 条目失败: "@ + e@,
            Fault::IllegalPath => "ZIP 含非法条目路径"@,
            Fault::Missing(names) => "ZIP 缺少必要文件: "@ + text::joined(names.deep_view(), ", "@),
        }
    }

    pub fn message(&self) -> (r: String)
        ensures
            r@ == self.text(),
    {
        match self {
            Fault::NotOpened(e) => text::cat2("打开 ZIP 失败: ", e.as_str()),
            Fault::Unreadable(e) => text::cat2("读取 ZIP 失败: ", e.as_str()),
            Fault::BadEntry(e) => text::cat2("读取 ZIP 条目失败: ", e.as_str()),
            Fault::IllegalPath => String::from_str("ZIP 含非法条目路径"),
            Fault::Missing(names) => {
                let list = text::join_texts(names, ", ");
                text::cat2("ZIP 缺少必要文件: ", list.as_str())
            },
        }
    }
}

/// Whether an entry's name ends in the given file name; case does not count.
pub open spec fn names_file(name: Seq<char>, wanted: Seq<char>) -> bool {
    match path::file_name_of(name) {
        Some(f) => text::lowercase(f) == text::lowercase(wanted),
        None => false,
    }
}

pub open spec fn has_file(names: Seq<Seq<char>>, wanted: Seq<char>) -> bool {
    exists|i: int| 0 <= i < names.len() && #[trigger] names_file(names[i], wanted)
}

/// The files that a package must have and that are not among the names.
pub open spec fn missing_files(names: Seq<Seq<char>>, v: Variant) -> Seq<Seq<char>> {
    let first = if has_file(names, v.service_name@) {
        seq![]
    } else {
        seq![v.service_name@]
    };
    if has_file(names, v.dll_name@) {
        first
    } else {
        first.push(v.dll_name@)
    }
}

fn contains_file(names: &Vec<String>, wanted: &str) -> (r: bool)
    ensures
        r == has_file(names.deep_view(), wanted@),
{
    let low = text::to_lowercase(wanted);
    let mut i: usize = 0;
    while i < names.len()
        invariant
            i <= names@.len(),
            low@ == text::lowercase(wanted@),
            forall|k: int| 0 <= k < i ==> !#[trigger] names_file(names.deep_view()[k], wanted@),
        decreases names@.len() - i,
    {
        let hit = match path::file_name(names[i].as_str()) {
            Some(f) => {
                let f_low = text::to_lowercase(f.as_str());
                text::same_text(f_low.as_str(), low.as_str())
            },
            None => false,
        };
        assert(hit == names_file(names.deep_view()[i as int], wanted@));
        if hit {
            return true;
        }
        i = i + 1;
    }
    false
}

/// Whether a package with these entry names has the files that it must have.
pub fn check_names(names: &Vec<String>, v: &Variant) -> (r: Result<(), Fault>)
    ensures
        match r {
            Ok(_) => missing_files(names.deep_view(), *v).len() == 0,
            Err(Fault::Missing(list)) => missing_files(names.deep_view(), *v).len() > 0
                && list.deep_view() == missing_files(names.deep_view(), *v),
            Err(_) => false,
        },
{
    let mut missing: Vec<String> = Vec::new();
    if !contains_file(names, v.service_name.as_str()) {
        missing.push(v.service_name.clone());
    }
    if !contains_file(names, v.dll_name.as_str()) {
        missing.push(v.dll_name.clone());
    }
    assert(missing.deep_view() =~= missing_files(names.deep_view(), *v));
    if missing.len() == 0 {
        Ok(())
    } else {
        Err(Fault::Missing(missing))
    }
}

/// The names of an archive's entries.
pub open spec fn entry_names(data: Seq<u8>) -> Seq<Seq<char>> {
    Seq::new(archive::zip_count(data), |i: int| archive::zip_name(data, i)->0)
}

/// Whether every entry of an archive can be read.
pub open spec fn all_readable(data: Seq<u8>) -> bool {
    forall|i: int| 0 <= i < archive::zip_count(data) ==> #[trigger] archive::zip_name(data, i) is Some
}

/// Whether the entry at `i` is the first that cannot be read, for the given reason.
pub open spec fn first_unreadable(data: Seq<u8>, i: int, reason: Seq<char>) -> bool {
    &&& 0 <= i < archive::zip_count(data)
    &&& archive::zip_entry(data, i) == Err::<Seq<char>, Seq<char>>(reason)
    &&& forall|k: int| 0 <= k < i ==> #[trigger] archive::zip_name(data, k) is Some
}

/// Whether an archive has an entry that cannot be read, and the first such for the given reason.
pub open spec fn fails_for(data: Seq<u8>, reason: Seq<char>) -> bool {
    exists|i: int| #[trigger] first_unreadable(data, i, reason)
}

proof fn complete_listing(listing: Listing, data: Seq<u8>)
    requires
        listing.lists(data),
    ensures
        all_readable(data) == (listing.fault is None),
        listing.fault matches Some(e) ==> fails_for(data, e@),
{
    if let Some(e) = listing.fault {
        let n = listing.entries@.len() as int;
        assert forall|k: int| 0 <= k < n implies #[trigger] archive::zip_name(data, k) is Some by {
            assert(listing.entries@[k].name@ == listing.entries@[k].name@);
        }
        assert(first_unreadable(data, n, e@));
    }
    if listing.fault is None {
        assert forall|i: int| 0 <= i < archive::zip_count(data) implies #[trigger] archive::zip_name(
            data,
            i,
        ) is Some by {
            assert(listing.entries@[i].name@ == listing.entries@[i].name@);
        }
    } else {
        assert(archive::zip_name(data, listing.entries@.len() as int) is None);
    }
}

fn names_of(entries: &Vec<Entry>) -> (r: Vec<String>)
    ensures
        r.deep_view() == Seq::new(entries@.len(), |i: int| entries@[i].name@),
{
    let mut r: Vec<String> = Vec::new();
    let mut i: usize = 0;
    while i < entries.len()
        invariant
            i <= entries@.len(),
            r@.len() == i,
            forall|k: int| 0 <= k < i ==> #[trigger] r@[k]@ == entries@[k].name@,
        decreases entries@.len() - i,
    {
        r.push(entries[i].name.clone());
        i = i + 1;
    }
    assert(r.deep_view() =~= Seq::new(entries@.len(), |i: int| entries@[i].name@));
    r
}

/// Checks that an archive is a package: every entry can be read, and the service and its library
/// are there, in whatever directory.
pub fn validate_zip(data: Vec<u8>, v: &Variant) -> (r: Result<(), Fault>)
    ensures
        ({
            let missing = missing_files(entry_names(data@), *v);
            match r {
                Ok(_) => archive::zip_opens(data@) && all_readable(data@) && missing.len() == 0,
                Err(Fault::Unreadable(e)) => archive::zip_open_fault(data@) == Some(e@),
                Err(Fault::BadEntry(e)) => archive::zip_opens(data@) && fails_for(data@, e@),
                Err(Fault::Missing(list)) => archive::zip_opens(data@) && all_readable(data@)
                    && missing.len() > 0 && list.deep_view() == missing,
                Err(_) => false,
            }
        }),
{
    let ghost bytes = data@;
    let mut package = match Package::open(data) {
        Ok(p) => p,
        Err(e) => {
            return Err(Fault::Unreadable(e));
        },
    };
    let listing = package.list();
    proof {
        complete_listing(listing, bytes);
    }
    if let Some(e) = listing.fault {
        return Err(Fault::BadEntry(e));
    }
    let names = names_of(&listing.entries);
    assert(names.deep_view() =~= entry_names(bytes));
    check_names(&names, v)
}

/// Whether an entry's name is that of a directory.
pub open spec fn is_dir_name(name: Seq<char>) -> bool {
    name.len() > 0 && path::is_sep(name.last())
}

fn dir_name(name: &str) -> (r: bool)
    ensures
        r == is_dir_name(name@),
{
    let v = text::chars_of(name);
    let n: usize = v.len();
    n > 0 && (v[n - 1] == '\\' || v[n - 1] == '/')
}

/// Whether a component names something below the directory before it: not the directory above, no
/// drive, and no path of its own.
pub open spec fn is_inner(component: Seq<char>) -> bool {
    &&& component.len() > 0
    &&& component != seq!['.', '.']
    &&& !path::is_drive(component)
    &&& forall|k: int| 0 <= k < component.len() ==> !path::is_sep(#[trigger] component[k])
}

/// Whether a path stays below the directory that it is unpacked into.
pub open spec fn stays_inside(p: Seq<Seq<char>>) -> bool {
    forall|k: int| 0 <= k < p.len() ==> is_inner(#[trigger] p[k])
}

/// The path of an entry, if it has one that stays inside.
pub open spec fn inside(e: EntryView) -> Option<Seq<Seq<char>>> {
    match e.path {
        Some(p) => if stays_inside(p) {
            Some(p)
        } else {
            None
        },
        None => None,
    }
}

fn inner(component: &str) -> (r: bool)
    ensures
        r == is_inner(component@),
{
    let v = text::chars_of(component);
    let n: usize = v.len();
    if n == 0 || (n == 2 && v[0] == '.' && v[1] == '.') {
        assert(n == 2 ==> v@ =~= seq!['.', '.']);
        return false;
    }
    assert(v@ =~= seq!['.', '.'] ==> n == 2 && v@[0] == '.' && v@[1] == '.');
    if n >= 2 && v[1] == ':' && ('A' <= v[0] && v[0] <= 'Z' || 'a' <= v[0] && v[0] <= 'z') {
        return false;
    }
    let mut i: usize = 0;
    while i < n
        invariant
            n == v@.len(),
            v@ == component@,
            i <= n,
            forall|k: int| 0 <= k < i ==> !path::is_sep(#[trigger] component@[k]),
        decreases n - i,
    {
        if v[i] == '\\' || v[i] == '/' {
            assert(path::is_sep(component@[i as int]));
            return false;
        }
        i = i + 1;
    }
    true
}

/// The path of an entry, if it has one that stays inside.
fn inside_path(e: &Entry) -> (r: Option<&Vec<String>>)
    ensures
        match r {
            Some(p) => inside(e.deep_view()) == Some(p.deep_view()),
            None => inside(e.deep_view()) is None,
        },
{
    match &e.path {
        None => None,
        Some(p) => {
            let ghost all = p.deep_view();
            assert(e.deep_view().path == Some(all));
            let mut i: usize = 0;
            while i < p.len()
                invariant
                    i <= p@.len(),
                    all == p.deep_view(),
                    e.deep_view().path == Some(all),
                    forall|k: int| 0 <= k < i ==> is_inner(#[trigger] all[k]),
                decreases p@.len() - i,
            {
                if !inner(p[i].as_str()) {
                    assert(!is_inner(all[i as int]));
                    return None;
                }
                i = i + 1;
            }
            Some(p)
        },
    }
}

/// What the files of an archive have in common at the top.
#[derive(Debug)]
pub enum Top<S> {
    /// No file was seen yet.
    Unseen,
    /// Every file lies below the directory.
    Under(S),
    /// Some file lies at the top, or there are several directories at the top.
    Flat,
}

impl Top<String> {
    pub open spec fn spec_view(self) -> Top<Seq<char>> {
        match self {
            Top::Unseen => Top::Unseen,
            Top::Under(s) => Top::Under(s@),
            Top::Flat => Top::Flat,
        }
    }
}

/// What one more entry makes of it.
pub open spec fn top_with(before: Top<Seq<char>>, e: EntryView) -> Top<Seq<char>> {
    if is_dir_name(e.name) {
        before
    } else {
        match inside(e) {
            None => before,
            Some(p) => if p.len() == 0 {
                before
            } else if p.len() == 1 {
                Top::Flat
            } else {
                match before {
                    Top::Unseen => Top::Under(p[0]),
                    Top::Under(t) => if t == p[0] {
                        before
                    } else {
                        Top::Flat
                    },
                    Top::Flat => Top::Flat,
                }
            },
        }
    }
}

pub open spec fn top_of(entries: Seq<EntryView>) -> Top<Seq<char>>
    decreases entries.len(),
{
    if entries.len() == 0 {
        Top::Unseen
    } else {
        top_with(top_of(entries.drop_last()), entries.last())
    }
}

proof fn flat_stays(entries: Seq<EntryView>, n: int)
    requires
        0 <= n <= entries.len(),
        top_of(entries.take(n)) is Flat,
    ensures
        top_of(entries) is Flat,
    decreases entries.len() - n,
{
    if n < entries.len() {
        assert(entries.take(n + 1).drop_last() =~= entries.take(n));
        flat_stays(entries, n + 1);
    } else {
        assert(entries.take(n) =~= entries);
    }
}

/// The directory that every file of the archive lies below.
pub fn common_root_dir(entries: &Vec<Entry>) -> (r: Top<String>)
    ensures
        r.spec_view() == top_of(entries.deep_view()),
{
    let ghost all = entries.deep_view();
    let mut root: Option<String> = None;
    let mut i: usize = 0;
    assert(all.take(0) =~= seq![]);
    while i < entries.len()
        invariant
            i <= entries@.len(),
            all == entries.deep_view(),
            top_of(all.take(i as int)) == match root {
                None => Top::Unseen,
                Some(t) => Top::Under(t@),
            },
        decreases entries@.len() - i,
    {
        proof {
            assert(all.take(i + 1).drop_last() =~= all.take(i as int));
            assert(all.take(i + 1).last() == entries@[i as int].deep_view());
        }
        if !dir_name(entries[i].name.as_str()) {
            if let Some(p) = inside_path(&entries[i]) {
                if p.len() == 1 {
                    proof {
                        flat_stays(all, i + 1);
                    }
                    return Top::Flat;
                }
                if p.len() > 1 {
                    match &root {
                        None => {
                            root = Some(p[0].clone());
                        },
                        Some(t) => {
                            if !text::same_text(t.as_str(), p[0].as_str()) {
                                proof {
                                    flat_stays(all, i + 1);
                                }
                                return Top::Flat;
                            }
                        },
                    }
                }
            }
        }
        i = i + 1;
    }
    assert(all.take(i as int) =~= all);
    match root {
        None => Top::Unseen,
        Some(t) => Top::Under(t),
    }
}

/// A file that is to be unpacked.
#[derive(Debug)]
pub struct Item {
    /// The entry that holds it.
    pub index: usize,
    /// Where it goes.
    pub dst: String,
    /// The directory that must be there first.
    pub dir: Option<String>,
    /// Whether it replaces the running launcher.
    pub is_self: bool,
}

pub struct ItemView {
    pub index: int,
    pub dst: Seq<char>,
    pub dir: Option<Seq<char>>,
    pub is_self: bool,
}

impl DeepView for Item {
    type V = ItemView;

    open spec fn deep_view(&self) -> ItemView {
        ItemView {
            index: self.index as int,
            dst: self.dst@,
            dir: self.dir.deep_view(),
            is_self: self.is_self,
        }
    }
}

/// A path without the directory `strip` in front.
pub open spec fn stripped(p: Seq<Seq<char>>, strip: Option<Seq<char>>) -> Seq<Seq<char>> {
    match strip {
        Some(t) => if p.len() > 0 && p[0] == t {
            p.skip(1)
        } else {
            p
        },
        None => p,
    }
}

/// Whether `dst` is the running launcher; case does not count.
pub open spec fn is_launcher(dst: Seq<char>, self_exe: Option<Seq<char>>) -> bool {
    match self_exe {
        Some(s) => text::lowercase(s) == text::lowercase(dst),
        None => false,
    }
}

/// What is unpacked of one entry: nothing for a directory or an empty path.
pub open spec fn item_for(
    index: int,
    e: EntryView,
    strip: Option<Seq<char>>,
    target: Seq<char>,
    self_exe: Option<Seq<char>>,
) -> Option<ItemView> {
    let rel = stripped(inside(e)->0, strip);
    if is_dir_name(e.name) || inside(e) is None || rel.len() == 0 {
        None
    } else {
        let dst = path::joined_path(target, text::joined(rel, "\\"@));
        Some(
            ItemView { index, dst, dir: path::parent_of(dst), is_self: is_launcher(dst, self_exe) },
        )
    }
}

/// What is unpacked of the first `n` entries.
pub open spec fn items_upto(
    entries: Seq<EntryView>,
    n: int,
    strip: Option<Seq<char>>,
    target: Seq<char>,
    self_exe: Option<Seq<char>>,
) -> Seq<ItemView>
    decreases n,
{
    if n <= 0 {
        seq![]
    } else {
        let before = items_upto(entries, n - 1, strip, target, self_exe);
        match item_for(n - 1, entries[n - 1], strip, target, self_exe) {
            Some(item) => before.push(item),
            None => before,
        }
    }
}

/// The first entry at `from` or later that is a file without a path that stays inside, or the number
/// of entries.
pub open spec fn first_illegal(entries: Seq<EntryView>, from: int) -> int
    decreases entries.len() - from,
{
    if from >= entries.len() || (!is_dir_name(entries[from].name) && inside(entries[from]) is None) {
        from
    } else {
        first_illegal(entries, from + 1)
    }
}

/// The files to unpack, in order.
#[derive(Debug)]
pub struct DeployPlan {
    pub items: Vec<Item>,
    /// What ends the deployment behind the last file.
    pub fault: Option<Fault>,
    /// Whether the launcher must be restarted once all is unpacked.
    pub needs_restart: bool,
}

/// The directory that is taken off in front.
pub open spec fn strip_of(top: Top<Seq<char>>) -> Option<Seq<char>> {
    match top {
        Top::Under(t) => Some(t),
        _ => None,
    }
}

impl DeployPlan {
    /// Whether this is the plan for the listed archive.
    pub open spec fn is_for(
        self,
        listing: Listing,
        target: Seq<char>,
        self_exe: Option<Seq<char>>,
    ) -> bool {
        let entries = listing.entries.deep_view();
        let stop = first_illegal(entries, 0);
        let items = items_upto(entries, stop, strip_of(top_of(entries)), target, self_exe);
        &&& self.items.deep_view() == items
        &&& match self.fault {
            Some(Fault::IllegalPath) => stop < entries.len(),
            Some(Fault::BadEntry(e)) => stop == entries.len() && listing.fault == Some(e),
            Some(_) => false,
            None => stop == entries.len() && listing.fault is None,
        }
        &&& self.needs_restart == exists|i: int| 0 <= i < items.len() && (#[trigger] items[i]).is_self
    }
}

/// The plan for an archive with the given entries; the launcher that runs is at `self_exe`.
///
/// An entry that cannot be read stops the deployment before its first file if the top of the
/// archive was not settled until there, and at its place otherwise.
pub fn plan_deploy(listing: Listing, target: &str, self_exe: Option<&str>) -> (r: (
    Listing,
    Result<DeployPlan, Fault>,
))
    ensures
        r.0 == listing,
        match r.1 {
            Ok(plan) => (top_of(listing.entries.deep_view()) is Flat || listing.fault is None)
                && plan.is_for(listing, target@, crate::variant::opt_view(self_exe)),
            Err(Fault::BadEntry(e)) => !(top_of(listing.entries.deep_view()) is Flat)
                && listing.fault == Some(e),
            Err(_) => false,
        },
{
    let ghost all = listing.entries.deep_view();
    let ghost own = crate::variant::opt_view(self_exe);
    let top = common_root_dir(&listing.entries);
    let strip: Option<String> = match top {
        Top::Flat => None,
        Top::Unseen => {
            if let Some(e) = &listing.fault {
                let reason = e.clone();
                return (listing, Err(Fault::BadEntry(reason)));
            }
            None
        },
        Top::Under(t) => {
            if let Some(e) = &listing.fault {
                let reason = e.clone();
                return (listing, Err(Fault::BadEntry(reason)));
            }
            Some(t)
        },
    };
    let ghost cut = strip.deep_view();
    assert(cut == strip_of(top_of(all)));
    let mut items: Vec<Item> = Vec::new();
    let mut needs_restart = false;
    let mut i: usize = 0;
    while i < listing.entries.len() && (dir_name(listing.entries[i].name.as_str())
        || inside_path(&listing.entries[i]).is_some())
        invariant
            i <= listing.entries@.len(),
            all == listing.entries.deep_view(),
            own == crate::variant::opt_view(self_exe),
            cut == strip.deep_view(),
            first_illegal(all, 0) == first_illegal(all, i as int),
            items.deep_view() == items_upto(all, i as int, cut, target@, own),
            needs_restart == exists|k: int|
                0 <= k < items.deep_view().len() && (#[trigger] items.deep_view()[k]).is_self,
        decreases listing.entries@.len() - i,
    {
        let ghost before = items.deep_view();
        assert(all[i as int] == listing.entries@[i as int].deep_view());
        match plan_item(i, &listing.entries[i], &strip, target, self_exe) {
            Some(item) => {
                let own_file = item.is_self;
                items.push(item);
                proof {
                    let after = items.deep_view();
                    assert(after =~= before.push(item.deep_view()));
                    assert(own_file ==> after[before.len() as int].is_self);
                    assert forall|k: int| 0 <= k < before.len() implies #[trigger] after[k] == before[k] by {}
                    if needs_restart {
                        let k = choose|k: int| 0 <= k < before.len() && (#[trigger] before[k]).is_self;
                        assert(after[k].is_self);
                    }
                }
                needs_restart = needs_restart || own_file;
            },
            None => {},
        }
        i = i + 1;
    }
    let fault = if i < listing.entries.len() {
        Some(Fault::IllegalPath)
    } else {
        match &listing.fault {
            Some(e) => Some(Fault::BadEntry(e.clone())),
            None => None,
        }
    };
    (listing, Ok(DeployPlan { items, fault, needs_restart }))
}

fn plan_item(
    index: usize,
    e: &Entry,
    strip: &Option<String>,
    target: &str,
    self_exe: Option<&str>,
) -> (r: Option<Item>)
    ensures
        r.deep_view() == item_for(
            index as int,
            e.deep_view(),
            strip.deep_view(),
            target@,
            crate::variant::opt_view(self_exe),
        ),
{
    if dir_name(e.name.as_str()) {
        return None;
    }
    let p = match inside_path(e) {
        Some(p) => p,
        None => {
            return None;
        },
    };
    let rel = strip_path(p, strip);
    if rel.len() == 0 {
        return None;
    }
    let below = text::join_texts(&rel, "\\");
    let dst = path::join(target, below.as_str());
    let dir = path::parent(dst.as_str());
    let is_self = match self_exe {
        Some(s) => {
            let own = text::to_lowercase(s);
            let here = text::to_lowercase(dst.as_str());
            text::same_text(own.as_str(), here.as_str())
        },
        None => false,
    };
    Some(Item { index, dst, dir, is_self })
}

fn strip_path(p: &Vec<String>, strip: &Option<String>) -> (r: Vec<String>)
    ensures
        r.deep_view() == stripped(p.deep_view(), strip.deep_view()),
{
    let ghost all = p.deep_view();
    let from: usize = match strip {
        Some(t) => if p.len() > 0 && text::same_text(p[0].as_str(), t.as_str()) {
            1
        } else {
            0
        },
        None => 0,
    };
    let mut r: Vec<String> = Vec::new();
    let mut i: usize = from;
    while i < p.len()
        invariant
            from <= i <= p@.len(),
            all == p.deep_view(),
            r.deep_view() == all.subrange(from as int, i as int),
        decreases p@.len() - i,
    {
        let ghost before = r.deep_view();
        r.push(p[i].clone());
        assert(r.deep_view() =~= before.push(all[i as int]));
        assert(all.subrange(from as int, i + 1) =~= before.push(all[i as int]));
        i = i + 1;
    }
    assert(all.subrange(1, all.len() as int) =~= all.skip(1));
    assert(all.subrange(0, all.len() as int) =~= all);
    r
}

/// An archive that is being deployed.
pub struct Deployment {
    pub package: Package,
    pub listing: Listing,
    pub plan: DeployPlan,
}

/// Plans the deployment of an archive into the directory `target`.
pub fn deploy_from_zip(data: Vec<u8>, target: &str, self_exe: Option<&str>) -> (r: Result<
    Deployment,
    Fault,
>)
    ensures
        match r {
            Ok(d) => {
                &&& archive::zip_opens(data@)
                &&& d.package.bytes() == data@
                &&& d.listing.lists(data@)
                &&& top_of(d.listing.entries.deep_view()) is Flat || all_readable(data@)
                &&& d.plan.is_for(d.listing, target@, crate::variant::opt_view(self_exe))
            },
            Err(Fault::Unreadable(e)) => archive::zip_open_fault(data@) == Some(e@),
            Err(Fault::BadEntry(e)) => archive::zip_opens(data@) && fails_for(data@, e@) && exists|l: Listing| #[trigger]
                l.lists(data@) && !(top_of(l.entries.deep_view()) is Flat),
            Err(_) => false,
        },
{
    let mut package = match Package::open(data) {
        Ok(p) => p,
        Err(e) => {
            return Err(Fault::Unreadable(e));
        },
    };
    let (listing, plan) = plan_deploy(package.list(), target, self_exe);
    proof {
        complete_listing(listing, package.bytes());
    }
    match plan {
        Ok(plan) => Ok(Deployment { package, listing, plan }),
        Err(e) => Err(e),
    }
}

/// The name beside `p` with the given number: `<p>.<kind>_<number>`.
pub open spec fn beside(p: Seq<char>, kind: Seq<char>, number: nat) -> Seq<char> {
    p + "."@ + kind + "_"@ + text::decimal(number)
}

/// The name beside `p` for the moment `nanos`.
pub fn suffix_name(p: &str, kind: &str, nanos: u128) -> (r: String)
    ensures
        r@ == beside(p@, kind@, nanos as nat),
{
    let number = text::decimal_text(nanos);
    text::cat5(p, ".", kind, "_", number.as_str())
}

/// Whether a name is something, the marker, and a number.
pub open spec fn is_numbered(name: Seq<char>, marker: Seq<char>) -> bool {
    exists|i: int|
        0 <= i && i + marker.len() < name.len() && #[trigger] name.subrange(i, i + marker.len())
            == marker && text::all_digits(name.skip(i + marker.len()))
}

/// Whether a file name is one that replacing files leaves behind.
pub open spec fn is_leftover(name: Seq<char>) -> bool {
    ||| ".bak"@.is_suffix_of(name)
    ||| is_numbered(name, ".old_"@)
    ||| is_numbered(name, ".new_"@)
}

fn digit(c: char) -> (r: bool)
    ensures
        r == text::is_digit(c),
{
    '0' <= c && c <= '9'
}

/// Whether `part` stands in `v` right before `end`.
fn ends_at(v: &Vec<char>, end: usize, part: &str) -> (r: bool)
    requires
        end <= v@.len(),
    ensures
        r == (part@.len() <= end && v@.subrange(end - part@.len(), end as int) == part@),
{
    let p = text::chars_of(part);
    let n: usize = p.len();
    if n > end {
        return false;
    }
    let start: usize = end - n;
    let mut i: usize = 0;
    while i < n
        invariant
            p@ == part@,
            n == p@.len(),
            start + n == end,
            end <= v@.len(),
            i <= n,
            forall|k: int| 0 <= k < i ==> v@[start + k] == p@[k],
        decreases n - i,
    {
        if v[start + i] != p[i] {
            assert(v@.subrange(start as int, end as int)[i as int] != p@[i as int]);
            return false;
        }
        i = i + 1;
    }
    assert(v@.subrange(start as int, end as int) =~= p@);
    true
}

/// The end of a name that is numbered behind `marker` is where its last digits begin.
proof fn number_is_last_digits(name: Seq<char>, marker: Seq<char>, from: int)
    requires
        marker.len() > 0,
        !text::is_digit(marker.last()),
        0 <= from <= name.len(),
        text::all_digits(name.skip(from)),
        from > 0 ==> !text::is_digit(name[from - 1]),
    ensures
        is_numbered(name, marker) == (from < name.len() && marker.len() <= from && name.subrange(
            from - marker.len(),
            from,
        ) == marker),
{
    if is_numbered(name, marker) {
        let i = choose|i: int|
            0 <= i && i + marker.len() < name.len() && #[trigger] name.subrange(i, i + marker.len())
                == marker && text::all_digits(name.skip(i + marker.len()));
        let end = i + marker.len();
        assert(name[end - 1] == marker.last()) by {
            assert(name.subrange(i, end)[marker.len() - 1] == marker.last());
        }
        if end < from {
            assert(name.skip(end)[from - 1 - end] == name[from - 1]);
        } else if from < end {
            assert(name.skip(from)[end - 1 - from] == name[end - 1]);
        }
        assert(end == from);
    }
    if from < name.len() && marker.len() <= from && name.subrange(from - marker.len(), from) == marker {
        assert(name.subrange(from - marker.len(), from - marker.len() + marker.len()) == marker);
    }
}

/// Whether a file name is one that replacing files leaves behind: `*.old_<number>`,
/// `*.new_<number>` or `*.bak`.
pub fn is_backup_name(name: &str) -> (r: bool)
    ensures
        r == is_leftover(name@),
{
    let v = text::chars_of(name);
    let n: usize = v.len();
    let mut from: usize = n;
    while from > 0 && digit(v[from - 1])
        invariant
            n == v@.len(),
            from <= n,
            text::all_digits(v@.skip(from as int)),
        decreases from,
    {
        from = from - 1;
        assert(v@.skip(from as int) =~= seq![v@[from as int]] + v@.skip(from + 1));
    }
    proof {
        reveal_strlit(".bak");
        reveal_strlit(".old_");
        reveal_strlit(".new_");
        number_is_last_digits(v@, ".old_"@, from as int);
        number_is_last_digits(v@, ".new_"@, from as int);
        assert(".bak"@.is_suffix_of(v@) == (4 <= n && v@.subrange(n - 4, n as int) == ".bak"@));
    }
    if ends_at(&v, n, ".bak") {
        return true;
    }
    from < n && (ends_at(&v, from, ".old_") || ends_at(&v, from, ".new_"))
}

/// The leftovers among the files of a directory.
pub open spec fn leftovers(dir: Seq<char>, names: Seq<Seq<char>>) -> Seq<Seq<char>>
    decreases names.len(),
{
    if names.len() == 0 {
        seq![]
    } else {
        let before = leftovers(dir, names.drop_last());
        if is_leftover(names.last()) {
            before.push(path::joined_path(dir, names.last()))
        } else {
            before
        }
    }
}

/// The files to remove from a directory that holds files with the given names.
pub fn clean_old_files(dir: &str, names: &Vec<String>) -> (r: Vec<String>)
    ensures
        r.deep_view() == leftovers(dir@, names.deep_view()),
{
    let ghost all = names.deep_view();
    let mut r: Vec<String> = Vec::new();
    let mut i: usize = 0;
    assert(r.deep_view() =~= leftovers(dir@, all.take(0)));
    while i < names.len()
        invariant
            i <= names@.len(),
            all == names.deep_view(),
            r.deep_view() == leftovers(dir@, all.take(i as int)),
        decreases names@.len() - i,
    {
        proof {
            assert(all.take(i + 1).drop_last() =~= all.take(i as int));
            assert(all.take(i + 1).last() == names@[i as int]@);
        }
        if is_backup_name(names[i].as_str()) {
            let ghost before = r.deep_view();
            r.push(path::join(dir, names[i].as_str()));
            assert(r.deep_view() =~= before.push(path::joined_path(dir@, names@[i as int]@)));
        }
        i = i + 1;
    }
    assert(all.take(i as int) =~= all);
    r
}

/// The text by which a directory is compared: its resolved path, or the path as given.
pub open spec fn dir_key(dir: Seq<char>, canonical: Option<Seq<char>>) -> Seq<char> {
    text::lowercase(
        match canonical {
            Some(p) => p,
            None => dir,
        },
    )
}

/// Whether two directories are the same, given what their paths resolve to.
pub fn same_dir(a: &str, real_a: Option<&str>, b: &str, real_b: Option<&str>) -> (r: bool)
    ensures
        r == (dir_key(a@, crate::variant::opt_view(real_a)) == dir_key(
            b@,
            crate::variant::opt_view(real_b),
        )),
{
    let key_a = text::to_lowercase(
        match real_a {
            Some(p) => p,
            None => a,
        },
    );
    let key_b = text::to_lowercase(
        match real_b {
            Some(p) => p,
            None => b,
        },
    );
    text::same_text(key_a.as_str(), key_b.as_str())
}

/// Whether a file is left out when a package is copied: user data, and the uninstaller at the top.
pub open spec fn is_left_out(rel: Seq<char>) -> bool {
    let list = path::names(rel);
    &&& list.len() > 0
    &&& {
        ||| text::ascii_lower(list[0]) == text::ascii_lower("userdata"@)
        ||| list.len() == 1 && text::ascii_lower(list[0]) == text::ascii_lower("uninstall.exe"@)
    }
}

fn same_ascii(a: &str, b: &str) -> (r: bool)
    ensures
        r == (text::ascii_lower(a@) == text::ascii_lower(b@)),
{
    let x = text::to_ascii_lowercase(a);
    let y = text::to_ascii_lowercase(b);
    text::same_text(x.as_str(), y.as_str())
}

fn skip_in_copy(rel: &str) -> (r: bool)
    ensures
        r == is_left_out(rel@),
{
    let list = path::components(rel);
    if list.len() == 0 {
        return false;
    }
    same_ascii(list[0].as_str(), "userdata") || (list.len() == 1 && same_ascii(
        list[0].as_str(),
        "uninstall.exe",
    ))
}

/// A file that is to be copied.
#[derive(Debug)]
pub struct CopyItem {
    pub from: String,
    pub to: String,
    /// The directory that must be there first.
    pub dir: Option<String>,
}

pub struct CopyView {
    pub from: Seq<char>,
    pub to: Seq<char>,
    pub dir: Option<Seq<char>>,
}

impl DeepView for CopyItem {
    type V = CopyView;

    open spec fn deep_view(&self) -> CopyView {
        CopyView { from: self.from@, to: self.to@, dir: self.dir.deep_view() }
    }
}

/// How one file is copied.
pub open spec fn copy_of(src: Seq<char>, target: Seq<char>, rel: Seq<char>) -> CopyView {
    let to = path::joined_path(target, rel);
    CopyView { from: path::joined_path(src, rel), to, dir: path::parent_of(to) }
}

/// How the files of a directory are copied, those left out apart.
pub open spec fn copies(src: Seq<char>, target: Seq<char>, files: Seq<Seq<char>>) -> Seq<CopyView>
    decreases files.len(),
{
    if files.len() == 0 {
        seq![]
    } else {
        let before = copies(src, target, files.drop_last());
        if is_left_out(files.last()) {
            before
        } else {
            before.push(copy_of(src, target, files.last()))
        }
    }
}

/// Why a package could not be copied.
#[derive(Debug)]
pub enum CopyFault {
    /// The source and the target are the same directory.
    SameDirectory,
    /// The files of the source could not be listed.
    NotListed(String),
    /// A directory could not be made.
    NoDirectory(String),
    /// A file could not be copied: the file, and why.
    NotCopied(String, String),
}

impl CopyFault {
    pub open spec fn text(self) -> Seq<char> {
        match self {
            CopyFault::SameDirectory => "源目录与目标目录相同"@,
            CopyFault::NotListed(e) => "枚举源文件失败: "@ + e@,
            CopyFault::NoDirectory(e) => "创建目录失败: "@ + e@,
            CopyFault::NotCopied(from, e) => "复制 "@ + from@ + " 失败: "@ + e@,
        }
    }

    pub fn message(&self) -> (r: String)
        ensures
            r@ == self.text(),
    {
        match self {
            CopyFault::SameDirectory => String::from_str("源目录与目标目录相同"),
            CopyFault::NotListed(e) => text::cat2("枚举源文件失败: ", e.as_str()),
            CopyFault::NoDirectory(e) => text::cat2("创建目录失败: ", e.as_str()),
            CopyFault::NotCopied(from, e) => text::cat4(
                "复制 ",
                from.as_str(),
                " 失败: ",
                e.as_str(),
            ),
        }
    }
}

/// Plans the copy of a package from `src` to `target`. `files` are the files below `src`, as paths
/// relative to it; `real_src` and `real_target` are what the directories resolve to.
pub fn deploy_from_directory(
    src: &str,
    real_src: Option<&str>,
    target: &str,
    real_target: Option<&str>,
    files: &Vec<String>,
) -> (r: Result<Vec<CopyItem>, CopyFault>)
    ensures
        ({
            let same = dir_key(src@, crate::variant::opt_view(real_src)) == dir_key(
                target@,
                crate::variant::opt_view(real_target),
            );
            match r {
                Ok(items) => !same && items.deep_view() == copies(src@, target@, files.deep_view()),
                Err(CopyFault::SameDirectory) => same,
                Err(_) => false,
            }
        }),
{
    if same_dir(src, real_src, target, real_target) {
        return Err(CopyFault::SameDirectory);
    }
    let ghost all = files.deep_view();
    let mut items: Vec<CopyItem> = Vec::new();
    let mut i: usize = 0;
    assert(items.deep_view() =~= copies(src@, target@, all.take(0)));
    while i < files.len()
        invariant
            i <= files@.len(),
            all == files.deep_view(),
            items.deep_view() == copies(src@, target@, all.take(i as int)),
        decreases files@.len() - i,
    {
        proof {
            assert(all.take(i + 1).drop_last() =~= all.take(i as int));
            assert(all.take(i + 1).last() == files@[i as int]@);
        }
        let rel = files[i].as_str();
        if !skip_in_copy(rel) {
            let ghost before = items.deep_view();
            let to = path::join(target, rel);
            let dir = path::parent(to.as_str());
            items.push(CopyItem { from: path::join(src, rel), to, dir });
            assert(items.deep_view() =~= before.push(copy_of(src@, target@, rel@)));
        }
        i = i + 1;
    }
    assert(all.take(i as int) =~= all);
    Ok(items)
}

/// Two moments give two names beside a file.
pub proof fn moments_give_different_names(p: Seq<char>, kind: Seq<char>, n: nat, m: nat)
    requires
        n != m,
    ensures
        beside(p, kind, n) != beside(p, kind, m),
{
    let front = p + "."@ + kind + "_"@;
    let at = front.len() as int;
    if beside(p, kind, n) == beside(p, kind, m) {
        assert(beside(p, kind, n).skip(at) =~= text::decimal(n));
        assert(beside(p, kind, m).skip(at) =~= text::decimal(m));
        text::decimal_is_injective(n, m);
    }
}

proof fn numbered_names_are_leftovers(p: Seq<char>, number: nat)
    ensures
        is_leftover(beside(p, "old"@, number)),
        is_leftover(beside(p, "new"@, number)),
{
    reveal_strlit(".");
    reveal_strlit("_");
    reveal_strlit("old");
    reveal_strlit("new");
    reveal_strlit(".old_");
    reveal_strlit(".new_");
    text::decimal_is_digits(number);
    let n = p.len() as int;
    let old_name = beside(p, "old"@, number);
    let new_name = beside(p, "new"@, number);
    assert(old_name.subrange(n, n + 5) =~= ".old_"@);
    assert(new_name.subrange(n, n + 5) =~= ".new_"@);
    assert(old_name.skip(n + 5) =~= text::decimal(number));
    assert(new_name.skip(n + 5) =~= text::decimal(number));
    assert(is_numbered(old_name, ".old_"@));
    assert(is_numbered(new_name, ".new_"@));
}

/// What replacing a file leaves behind is recognised by its file name.
pub proof fn leftovers_are_recognised(p: Seq<char>, number: nat)
    requires
        path::file_name_of(p) is Some,
        !path::is_bare_server(p),
    ensures
        path::file_name_of(beside(p, "old"@, number)) matches Some(f) && is_leftover(f),
        path::file_name_of(beside(p, "new"@, number)) matches Some(f) && is_leftover(f),
{
    let name = path::last_piece(p);
    reveal_strlit(".");
    reveal_strlit("_");
    reveal_strlit("old");
    reveal_strlit("new");
    text::decimal_is_digits(number);
    let digits = text::decimal(number);
    let old_tail = "."@ + "old"@ + "_"@ + digits;
    let new_tail = "."@ + "new"@ + "_"@ + digits;
    assert forall|i: int| 0 <= i < old_tail.len() implies !path::is_sep(#[trigger] old_tail[i])
        && old_tail[i] != ':' by {
        if i >= 5 {
            assert(text::is_digit(digits[i - 5]));
        }
    }
    assert forall|i: int| 0 <= i < new_tail.len() implies !path::is_sep(#[trigger] new_tail[i])
        && new_tail[i] != ':' by {
        if i >= 5 {
            assert(text::is_digit(digits[i - 5]));
        }
    }
    assert(beside(p, "old"@, number) =~= p + old_tail);
    assert(beside(p, "new"@, number) =~= p + new_tail);
    assert(beside(name, "old"@, number) =~= name + old_tail);
    assert(beside(name, "new"@, number) =~= name + new_tail);
    path::file_name_grows(p, old_tail);
    path::file_name_grows(p, new_tail);
    numbered_names_are_leftovers(name, number);
}

/// Cleaning a directory removes what replacing a file in it left there.
pub proof fn cleaning_removes_leftovers(
    dir: Seq<char>,
    names: Seq<Seq<char>>,
    name: Seq<char>,
    number: nat,
)
    ensures
        names.contains(beside(name, "old"@, number)) ==> leftovers(dir, names).contains(
            beside(path::joined_path(dir, name), "old"@, number),
        ),
        names.contains(beside(name, "new"@, number)) ==> leftovers(dir, names).contains(
            beside(path::joined_path(dir, name), "new"@, number),
        ),
{
    numbered_names_are_leftovers(name, number);
    let old_name = beside(name, "old"@, number);
    let new_name = beside(name, "new"@, number);
    assert(path::joined_path(dir, old_name) =~= beside(path::joined_path(dir, name), "old"@, number));
    assert(path::joined_path(dir, new_name) =~= beside(path::joined_path(dir, name), "new"@, number));
    if names.contains(old_name) {
        leftover_is_listed(dir, names, old_name);
    }
    if names.contains(new_name) {
        leftover_is_listed(dir, names, new_name);
    }
}

proof fn leftover_is_listed(dir: Seq<char>, names: Seq<Seq<char>>, name: Seq<char>)
    requires
        names.contains(name),
        is_leftover(name),
    ensures
        leftovers(dir, names).contains(path::joined_path(dir, name)),
    decreases names.len(),
{
    let rest = names.drop_last();
    let all = leftovers(dir, names);
    let wanted = path::joined_path(dir, name);
    if names.last() == name {
        assert(all[all.len() - 1] == wanted);
    } else {
        let k = choose|k: int| 0 <= k < names.len() && names[k] == name;
        assert(rest[k] == name);
        leftover_is_listed(dir, rest, name);
        let j = choose|j: int|
            0 <= j < leftovers(dir, rest).len() && leftovers(dir, rest)[j] == wanted;
        assert(all[j] == wanted);
    }
}

/// A name that does not end in a digit, nor in `.bak`, is never taken for a leftover.
pub proof fn other_names_are_kept(name: Seq<char>)
    requires
        name.len() == 0 || !text::is_digit(name.last()),
        !".bak"@.is_suffix_of(name),
    ensures
        !is_leftover(name),
{
    reveal_strlit(".old_");
    reveal_strlit(".new_");
    assert(name.skip(name.len() as int) =~= seq![]);
    number_is_last_digits(name, ".old_"@, name.len() as int);
    number_is_last_digits(name, ".new_"@, name.len() as int);
}

proof fn lower_keeps_separators(c: char)
    ensures
        path::is_sep(text::ascii_lower_char(c)) == path::is_sep(c),
        (text::ascii_lower_char(c) == ':') == (c == ':'),
        (text::ascii_lower_char(c) == '.') == (c == '.'),
{
}

proof fn pieces_of_one_name(s: Seq<char>)
    requires
        forall|i: int| 0 <= i < s.len() ==> !path::is_sep(#[trigger] s[i]),
    ensures
        path::pieces(s) == seq![s],
    decreases s.len(),
{
    if s.len() > 0 {
        let rest = s.drop_last();
        assert forall|i: int| 0 <= i < rest.len() implies !path::is_sep(#[trigger] rest[i]) by {
            assert(rest[i] == s[i]);
        }
        pieces_of_one_name(rest);
        assert(rest.push(s.last()) =~= s);
        assert(path::pieces(s) =~= seq![s]);
    } else {
        assert(s =~= seq![]);
    }
}

/// A copied package has no uninstaller at its top, whatever the case of the name: the copy does not
/// pass for an installation.
pub proof fn copy_has_no_uninstaller(
    src: Seq<char>,
    target: Seq<char>,
    files: Seq<Seq<char>>,
    name: Seq<char>,
    i: int,
)
    requires
        text::ascii_lower(name) == text::ascii_lower("uninstall.exe"@),
        0 <= i < copies(src, target, files).len(),
    ensures
        copies(src, target, files)[i].to != path::joined_path(target, name),
    decreases files.len(),
{
    if files.len() > 0 {
        let rest = files.drop_last();
        if i < copies(src, target, rest).len() {
            copy_has_no_uninstaller(src, target, rest, name, i);
        } else {
            let rel = files.last();
            assert(!is_left_out(rel));
            if path::joined_path(target, rel) == path::joined_path(target, name) {
                assert(path::joined_path(target, rel).len() == path::joined_path(target, name).len());
                assert(rel.len() == name.len());
                assert(rel =~= name) by {
                    assert forall|k: int| 0 <= k < rel.len() implies rel[k] == name[k] by {
                        let off = path::joined_path(target, rel).len() - rel.len();
                        assert(path::joined_path(target, rel)[off + k] == rel[k]);
                        assert(path::joined_path(target, name)[off + k] == name[k]);
                    }
                }
                uninstaller_is_left_out(name);
                assert(false);
            }
        }
    }
}

proof fn uninstaller_is_left_out(name: Seq<char>)
    requires
        text::ascii_lower(name) == text::ascii_lower("uninstall.exe"@),
    ensures
        is_left_out(name),
{
    reveal_strlit("uninstall.exe");
    let wanted = "uninstall.exe"@;
    assert(name.len() == text::ascii_lower(name).len());
    assert(wanted.len() == text::ascii_lower(wanted).len());
    assert forall|i: int| 0 <= i < name.len() implies !path::is_sep(#[trigger] name[i]) && name[i]
        != ':' by {
        assert(text::ascii_lower(name)[i] == text::ascii_lower_char(name[i]));
        assert(text::ascii_lower(wanted)[i] == text::ascii_lower_char(wanted[i]));
        lower_keeps_separators(name[i]);
        lower_keeps_separators(wanted[i]);
    }
    assert(path::root_len(name) == 0);
    assert(name.skip(0) =~= name);
    pieces_of_one_name(name);
    assert(name.len() == 13);
    assert(path::is_name(name));
    assert(seq![name].drop_last() =~= seq![]);
    assert(path::names_among(seq![name].drop_last()) =~= seq![]);
    assert(path::names(name) =~= seq![name]);
}

/// No file of the user data is copied.
pub proof fn copy_has_no_user_data(src: Seq<char>, target: Seq<char>, files: Seq<Seq<char>>, i: int)
    requires
        0 <= i < copies(src, target, files).len(),
    ensures
        exists|rel: Seq<char>|
            files.contains(rel) && copies(src, target, files)[i] == #[trigger] copy_of(src, target, rel)
                && !is_left_out(rel),
    decreases files.len(),
{
    if files.len() > 0 {
        let rest = files.drop_last();
        if i < copies(src, target, rest).len() {
            copy_has_no_user_data(src, target, rest, i);
            let rel = choose|rel: Seq<char>|
                rest.contains(rel) && copies(src, target, rest)[i] == #[trigger] copy_of(src, target, rel)
                    && !is_left_out(rel);
            let k = choose|k: int| 0 <= k < rest.len() && rest[k] == rel;
            assert(files[k] == rel);
            assert(copies(src, target, files)[i] == copy_of(src, target, rel));
        } else {
            assert(files[files.len() - 1] == files.last());
            assert(copies(src, target, files)[i] == copy_of(src, target, files.last()));
        }
    }
}

/// Every file that is not left out is copied.
pub proof fn copy_is_complete(src: Seq<char>, target: Seq<char>, files: Seq<Seq<char>>, k: int)
    requires
        0 <= k < files.len(),
        !is_left_out(files[k]),
    ensures
        copies(src, target, files).contains(copy_of(src, target, files[k])),
    decreases files.len(),
{
    let rest = files.drop_last();
    let all = copies(src, target, files);
    if k < rest.len() {
        copy_is_complete(src, target, rest, k);
        let j = choose|j: int|
            0 <= j < copies(src, target, rest).len() && copies(src, target, rest)[j] == copy_of(
                src,
                target,
                files[k],
            );
        assert(all[j] == copy_of(src, target, files[k]));
    } else {
        assert(all.last() == copy_of(src, target, files[k]));
        assert(all[all.len() - 1] == copy_of(src, target, files[k]));
    }
}

/// Whether an entry is a file with a path of its own.
pub open spec fn is_placed(e: EntryView) -> bool {
    !is_dir_name(e.name) && inside(e) is Some && e.path->0.len() > 0
}

/// What the top of an archive says of its files: all lie below one directory; or there are none;
/// or some lies at the top, or two lie below different directories.
pub proof fn top_describes_files(entries: Seq<EntryView>)
    ensures
        match top_of(entries) {
            Top::Unseen => forall|i: int| 0 <= i < entries.len() ==> !is_placed(#[trigger] entries[i]),
            Top::Under(t) => {
                &&& exists|i: int| 0 <= i < entries.len() && is_placed(#[trigger] entries[i])
                &&& forall|i: int|
                    0 <= i < entries.len() && is_placed(#[trigger] entries[i]) ==> entries[i].path->0.len()
                        >= 2 && entries[i].path->0[0] == t
            },
            Top::Flat => exists|i: int, j: int|
                0 <= i < entries.len() && 0 <= j < entries.len() && is_placed(#[trigger] entries[i])
                    && is_placed(#[trigger] entries[j]) && (entries[i].path->0.len() == 1
                    || entries[i].path->0[0] != entries[j].path->0[0]),
        },
    decreases entries.len(),
{
    if entries.len() > 0 {
        let rest = entries.drop_last();
        let n = rest.len() as int;
        top_describes_files(rest);
        assert forall|i: int| 0 <= i < n implies #[trigger] entries[i] == rest[i] by {}
        assert(entries[n] == entries.last());
        match top_of(rest) {
            Top::Unseen => {
                assert forall|i: int| 0 <= i < n implies !is_placed(#[trigger] entries[i]) by {
                    assert(!is_placed(rest[i]));
                }
            },
            Top::Under(t) => {
                let k = choose|k: int| 0 <= k < rest.len() && is_placed(#[trigger] rest[k]);
                assert(is_placed(entries[k]));
                assert forall|i: int| 0 <= i < n && is_placed(#[trigger] entries[i]) implies entries[i].path->0.len()
                    >= 2 && entries[i].path->0[0] == t by {
                    assert(is_placed(rest[i]));
                }
                if top_of(entries) is Flat {
                    assert(is_placed(entries[n]));
                    assert(entries[n].path->0.len() == 1 || entries[n].path->0[0]
                        != entries[k].path->0[0]);
                }
            },
            Top::Flat => {
                let (i, j) = choose|i: int, j: int|
                    0 <= i < rest.len() && 0 <= j < rest.len() && is_placed(#[trigger] rest[i])
                        && is_placed(#[trigger] rest[j]) && (rest[i].path->0.len() == 1
                        || rest[i].path->0[0] != rest[j].path->0[0]);
                assert(is_placed(entries[i]) && is_placed(entries[j]));
            },
        }
        if top_of(rest) is Unseen && top_of(entries) is Flat {
            assert(is_placed(entries[n]) && entries[n].path->0.len() == 1);
        }
    }
}

/// Where everything lies below one directory, that directory is taken off: the same entries
/// without it would be unpacked to the same places.
pub proof fn wrapped_package_unpacks_flat(
    entries: Seq<EntryView>,
    top: Seq<char>,
    i: int,
    target: Seq<char>,
    self_exe: Option<Seq<char>>,
)
    requires
        top_of(entries) == Top::Under(top),
        0 <= i < entries.len(),
        is_placed(entries[i]),
    ensures
        item_for(i, entries[i], strip_of(top_of(entries)), target, self_exe) == item_for(
            i,
            EntryView { name: entries[i].name, path: Some(entries[i].path->0.skip(1)) },
            None,
            target,
            self_exe,
        ),
        item_for(i, entries[i], strip_of(top_of(entries)), target, self_exe) is Some,
{
    top_describes_files(entries);
}

/// Where nothing is taken off, every file keeps its whole path.
pub proof fn flat_package_keeps_paths(
    entries: Seq<EntryView>,
    i: int,
    target: Seq<char>,
    self_exe: Option<Seq<char>>,
)
    requires
        top_of(entries) is Flat,
        0 <= i < entries.len(),
        is_placed(entries[i]),
    ensures
        item_for(i, entries[i], strip_of(top_of(entries)), target, self_exe) matches Some(item)
            && item.dst == path::joined_path(target, text::joined(entries[i].path->0, "\\"@)),
{
}

/// Every file is unpacked below the target: behind the target stand only names of things below the
/// directory before them.
pub proof fn files_land_below_target(
    index: int,
    e: EntryView,
    strip: Option<Seq<char>>,
    target: Seq<char>,
    self_exe: Option<Seq<char>>,
)
    ensures
        item_for(index, e, strip, target, self_exe) matches Some(item) ==> {
            let rel = stripped(e.path->0, strip);
            &&& rel.len() > 0
            &&& item.dst == path::joined_path(target, text::joined(rel, "\\"@))
            &&& stays_inside(rel)
        },
{
    if let Some(p) = inside(e) {
        let rel = stripped(p, strip);
        assert forall|k: int| 0 <= k < rel.len() implies is_inner(#[trigger] rel[k]) by {
            if rel == p {
                assert(is_inner(p[k]));
            } else {
                assert(rel[k] == p[k + 1]);
            }
        }
    }
}

/// No file is refused whose name is plain and does not lead above the archive.
pub proof fn plain_names_are_unpacked(e: EntryView)
    requires
        archive::is_plain(e.name),
        archive::path_fits(e.name, e.path),
    ensures
        inside(e) == e.path,
        e.path == archive::inner_path(e.name),
{
    archive::inner_path_is_clean(e.name);
    if let Some(p) = e.path {
        assert forall|k: int| 0 <= k < p.len() implies is_inner(#[trigger] p[k]) by {
            assert(archive::is_clean(p[k]));
        }
    }
}

proof fn pieces_behind_separator(a: Seq<char>, b: Seq<char>)
    requires
        a.len() > 0,
        path::is_sep(a.last()),
    ensures
        path::pieces(a + b) == path::pieces(a).drop_last() + path::pieces(b),
        path::pieces(b).len() > 0,
    decreases b.len(),
{
    if b.len() == 0 {
        assert(a + b =~= a);
        assert(path::pieces(a).last() =~= seq![]);
        assert(b =~= seq![]);
        assert(path::pieces(a) =~= path::pieces(a).drop_last() + path::pieces(b));
    } else {
        let c = b.drop_last();
        pieces_behind_separator(a, c);
        assert((a + b).drop_last() =~= a + c);
        assert((a + b).last() == b.last());
        let head = path::pieces(a).drop_last();
        assert(path::pieces(a + b) =~= head + path::pieces(b));
    }
}

proof fn names_of_both(a: Seq<Seq<char>>, b: Seq<Seq<char>>)
    ensures
        path::names_among(a + b) == path::names_among(a) + path::names_among(b),
    decreases b.len(),
{
    if b.len() == 0 {
        assert(a + b =~= a);
        assert(path::names_among(a) + path::names_among(b) =~= path::names_among(a));
    } else {
        names_of_both(a, b.drop_last());
        assert((a + b).drop_last() =~= a + b.drop_last());
        assert((a + b).last() == b.last());
        assert(path::names_among(a + b) =~= path::names_among(a) + path::names_among(b));
    }
}

/// A directory around a whole package makes no difference to whether the package has the files that
/// it must have.
pub proof fn wrapping_keeps_file_names(top: Seq<char>, name: Seq<char>, wanted: Seq<char>)
    requires
        archive::is_clean(top),
        !path::is_drive(top),
        path::root_len(name) == 0,
        path::names(name).len() > 0,
    ensures
        names_file(top + seq!['/'] + name, wanted) == names_file(name, wanted),
{
    let whole = top + seq!['/'] + name;
    let front = top + seq!['/'];
    assert(whole =~= front + name);
    assert(!path::is_sep(top[0]));
    assert(whole[0] == top[0]);
    if whole.len() >= 2 && whole[1] == ':' {
        if top.len() >= 2 {
            assert(top[1] == ':');
        } else {
            assert(whole[1] == '/');
        }
    }
    assert(path::root_len(whole) == 0);
    path::verbatim_has_root(name);
    assert(whole.skip(0) =~= whole);
    assert(name.skip(0) =~= name);
    pieces_behind_separator(front, name);
    names_of_both(path::pieces(front).drop_last(), path::pieces(name));
    let own = path::names(name);
    let all = path::names(whole);
    assert(all == path::names_among(path::pieces(front).drop_last()) + own);
    assert(all.last() == own.last());
}

} // verus!
