//! ZIP archives held in memory: what the `zip` crate reads out of them.
//!
//! The names declared here stand for what that crate computes from the bytes of an archive. All
//! that is claimed of them stands in the contracts of the functions that make the calls.
use vstd::prelude::*;
use vstd::string::*;

use crate::path;

verus! {

/// `std::io::Cursor`, the reader that the archive is opened on.
#[verifier::external_type_specification]
#[verifier::external_body]
#[verifier::reject_recursive_types(T)]
pub struct ExCursor<T>(std::io::Cursor<T>);

/// `zip::ZipArchive`, an opened archive.
#[verifier::external_type_specification]
#[verifier::external_body]
#[verifier::reject_recursive_types(R)]
pub struct ExZipArchive<R>(zip::ZipArchive<R>);

/// The bytes that an archive was opened on.
pub uninterp spec fn archive_bytes(a: zip::ZipArchive<std::io::Cursor<Vec<u8>>>) -> Seq<u8>;

/// The text of the error of `ZipArchive::new` on the bytes; none where it accepts them.
pub uninterp spec fn zip_open_fault(data: Seq<u8>) -> Option<Seq<char>>;

/// What `ZipArchive::len` counts in the bytes.
pub uninterp spec fn zip_count(data: Seq<u8>) -> nat;

/// What `ZipFile::name` gives for an entry, or the text of the error of `ZipArchive::by_index`.
pub uninterp spec fn zip_entry(data: Seq<u8>, index: int) -> Result<Seq<char>, Seq<char>>;

/// What reading an entry to its end gives, or the text of the error.
pub uninterp spec fn zip_read(data: Seq<u8>, index: int) -> Result<Seq<u8>, Seq<char>>;

/// Whether the bytes are those of an archive.
pub open spec fn zip_opens(data: Seq<u8>) -> bool {
    zip_open_fault(data) is None
}

/// The name of an entry; none where the entry cannot be had.
pub open spec fn zip_name(data: Seq<u8>, index: int) -> Option<Seq<char>> {
    match zip_entry(data, index) {
        Ok(name) => Some(name),
        Err(_) => None,
    }
}

/// A name without the drive in front of it.
pub open spec fn without_drive(name: Seq<char>) -> Seq<char> {
    if path::is_drive(name) {
        name.skip(2)
    } else {
        name
    }
}

/// A name that means the same on every system: no NUL in it, at most one separator in front, and no
/// drive but in front.
pub open spec fn is_plain(name: Seq<char>) -> bool {
    &&& !name.contains('\0')
    &&& (name.len() > 1 ==> !path::is_sep(name[0]) || !path::is_sep(name[1]))
    &&& forall|i: int|
        0 <= i < path::pieces(without_drive(name)).len() ==> !path::is_drive(
            #[trigger] path::pieces(without_drive(name))[i],
        )
}

/// Names with each `..` taken back against the name before it; none where that leads above the
/// start.
pub open spec fn resolved(list: Seq<Seq<char>>) -> Option<Seq<Seq<char>>>
    decreases list.len(),
{
    if list.len() == 0 {
        Some(seq![])
    } else {
        match resolved(list.drop_last()) {
            None => None,
            Some(before) => if list.last() != seq!['.', '.'] {
                Some(before.push(list.last()))
            } else if before.len() > 0 {
                Some(before.drop_last())
            } else {
                None
            },
        }
    }
}

/// The path within a plain name.
pub open spec fn inner_path(name: Seq<char>) -> Option<Seq<Seq<char>>> {
    resolved(path::names_among(path::pieces(without_drive(name))))
}

/// What is known of the path that an entry's name stands for. Of a name with a drive in the middle,
/// or with two separators in front, nothing is: there the result differs between systems.
pub open spec fn path_fits(name: Seq<char>, components: Option<Seq<Seq<char>>>) -> bool {
    &&& name.contains('\0') ==> components is None
    &&& is_plain(name) ==> components == inner_path(name)
}

/// Calls `zip::ZipArchive::new` on a cursor over the bytes. Claimed: whether it succeeds, and the
/// text of its error, are functions of the bytes, and the archive is one of these bytes.
#[verifier::external_body]
fn zip_open(data: Vec<u8>) -> (r: Result<zip::ZipArchive<std::io::Cursor<Vec<u8>>>, String>)
    ensures
        match r {
            Ok(a) => zip_open_fault(data@) is None && archive_bytes(a) == data@,
            Err(e) => zip_open_fault(data@) == Some(e@),
        },
{
    zip::ZipArchive::new(std::io::Cursor::new(data)).map_err(|e| e.to_string())
}

/// Calls `zip::ZipArchive::len`. Claimed: the number is a function of the bytes.
#[verifier::external_body]
fn zip_len(a: &zip::ZipArchive<std::io::Cursor<Vec<u8>>>) -> (r: usize)
    ensures
        r == zip_count(archive_bytes(*a)),
{
    a.len()
}

/// Calls `zip::ZipArchive::by_index` and `ZipFile::name` on the entry. Claimed: whether the entry
/// can be had, its name, and the text of the error are functions of the bytes and the index; the
/// archive stays the same.
#[verifier::external_body]
fn zip_entry_name(a: &mut zip::ZipArchive<std::io::Cursor<Vec<u8>>>, index: usize) -> (r: Result<
    String,
    String,
>)
    ensures
        archive_bytes(*final(a)) == archive_bytes(*old(a)),
        match r {
            Ok(name) => zip_entry(archive_bytes(*old(a)), index as int) == Ok::<
                Seq<char>,
                Seq<char>,
            >(name@),
            Err(e) => zip_entry(archive_bytes(*old(a)), index as int) == Err::<
                Seq<char>,
                Seq<char>,
            >(e@),
        },
{
    a.by_index(index).map(|f| f.name().to_string()).map_err(|e| e.to_string())
}

/// Calls `zip::ZipArchive::by_index` and `ZipFile::enclosed_name` on the entry, and takes the path
/// apart. Claimed: it fails where the entry cannot be had, with the text of that error; a name with
/// a NUL has no path; and the path of a plain name has the names between the separators, without a
/// drive in front and with each `..` taken back. The archive stays the same. Of the path of another
/// name nothing is claimed: it goes through the path rules of the system.
#[verifier::external_body]
fn zip_entry_path(a: &mut zip::ZipArchive<std::io::Cursor<Vec<u8>>>, index: usize) -> (r: Result<
    Option<Vec<String>>,
    String,
>)
    ensures
        archive_bytes(*final(a)) == archive_bytes(*old(a)),
        match (r, zip_entry(archive_bytes(*old(a)), index as int)) {
            (Ok(p), Ok(name)) => {
                &&& name.contains('\0') ==> p is None
                &&& is_plain(name) ==> p.deep_view() == inner_path(name)
            },
            (Err(e), Err(f)) => e@ == f,
            _ => false,
        },
{
    a.by_index(index).map(
        |f|
            f.enclosed_name().map(
                |p| p.components().map(|c| c.as_os_str().to_string_lossy().to_string()).collect(),
            ),
    ).map_err(|e| e.to_string())
}

/// Calls `zip::ZipArchive::by_index` and reads the entry to its end with `read_to_end`. Claimed:
/// whether that succeeds, what is read, and the text of the error are functions of the bytes and the
/// index; the archive stays the same.
#[verifier::external_body]
fn zip_entry_content(a: &mut zip::ZipArchive<std::io::Cursor<Vec<u8>>>, index: usize) -> (r: Result<
    Vec<u8>,
    String,
>)
    ensures
        archive_bytes(*final(a)) == archive_bytes(*old(a)),
        match r {
            Ok(content) => zip_read(archive_bytes(*old(a)), index as int) == Ok::<
                Seq<u8>,
                Seq<char>,
            >(content@),
            Err(e) => zip_read(archive_bytes(*old(a)), index as int) == Err::<Seq<u8>, Seq<char>>(
                e@,
            ),
        },
{
    let mut out: Vec<u8> = Vec::new();
    let mut entry = a.by_index(index).map_err(|e| e.to_string())?;
    std::io::Read::read_to_end(&mut entry, &mut out).map_err(|e| e.to_string())?;
    Ok(out)
}

/// One entry of an archive: its name, and the path that the name stands for.
#[derive(Debug)]
pub struct Entry {
    pub name: String,
    pub path: Option<Vec<String>>,
}

/// An entry in contracts.
pub struct EntryView {
    pub name: Seq<char>,
    pub path: Option<Seq<Seq<char>>>,
}

impl DeepView for Entry {
    type V = EntryView;

    open spec fn deep_view(&self) -> EntryView {
        EntryView { name: self.name@, path: self.path.deep_view() }
    }
}

/// The entries of an archive, up to the first that cannot be read.
#[derive(Debug)]
pub struct Listing {
    pub entries: Vec<Entry>,
    /// Why the entry behind the last one could not be read, where there is one more.
    pub fault: Option<String>,
}

impl Listing {
    /// Whether this lists the archive with the given bytes.
    pub open spec fn lists(self, data: Seq<u8>) -> bool {
        let n = self.entries@.len();
        &&& n <= zip_count(data)
        &&& match self.fault {
            Some(e) => n < zip_count(data) && zip_entry(data, n as int) == Err::<
                Seq<char>,
                Seq<char>,
            >(e@),
            None => n == zip_count(data),
        }
        &&& forall|i: int|
            #![trigger self.entries@[i]]
            0 <= i < n ==> zip_name(data, i) == Some(self.entries@[i].name@) && path_fits(
                self.entries@[i].name@,
                self.entries@[i].path.deep_view(),
            )
    }
}

/// An opened archive.
pub struct Package {
    archive: zip::ZipArchive<std::io::Cursor<Vec<u8>>>,
}

impl Package {
    /// The bytes of the archive.
    pub closed spec fn bytes(self) -> Seq<u8> {
        archive_bytes(self.archive)
    }

    /// Opens the archive with the given bytes; the error is the reason.
    pub fn open(data: Vec<u8>) -> (r: Result<Package, String>)
        ensures
            match r {
                Ok(p) => zip_opens(data@) && p.bytes() == data@,
                Err(e) => zip_open_fault(data@) == Some(e@),
            },
    {
        match zip_open(data) {
            Ok(archive) => Ok(Package { archive }),
            Err(e) => Err(e),
        }
    }

    /// Lists the entries.
    pub fn list(&mut self) -> (r: Listing)
        ensures
            final(self).bytes() == old(self).bytes(),
            r.lists(old(self).bytes()),
    {
        let ghost data = self.bytes();
        let n: usize = zip_len(&self.archive);
        let mut entries: Vec<Entry> = Vec::new();
        let mut i: usize = 0;
        while i < n
            invariant
                i <= n,
                n == zip_count(data),
                data == old(self).bytes(),
                archive_bytes(self.archive) == data,
                entries@.len() == i,
                forall|k: int|
                    #![trigger entries@[k]]
                    0 <= k < i ==> zip_name(data, k) == Some(entries@[k].name@) && path_fits(
                        entries@[k].name@,
                        entries@[k].path.deep_view(),
                    ),
            decreases n - i,
        {
            let name = match zip_entry_name(&mut self.archive, i) {
                Ok(name) => name,
                Err(e) => {
                    return Listing { entries, fault: Some(e) };
                },
            };
            let path = match zip_entry_path(&mut self.archive, i) {
                Ok(p) => p,
                Err(e) => {
                    return Listing { entries, fault: Some(e) };
                },
            };
            entries.push(Entry { name, path });
            i = i + 1;
        }
        Listing { entries, fault: None }
    }

    /// The content of an entry; the error is the reason.
    pub fn content(&mut self, index: usize) -> (r: Result<Vec<u8>, String>)
        ensures
            final(self).bytes() == old(self).bytes(),
            match r {
                Ok(content) => zip_read(old(self).bytes(), index as int) == Ok::<
                    Seq<u8>,
                    Seq<char>,
                >(content@),
                Err(e) => zip_read(old(self).bytes(), index as int) == Err::<Seq<u8>, Seq<char>>(e@),
            },
    {
        zip_entry_content(&mut self.archive, index)
    }
}

/// A component that names something directly below a directory.
pub open spec fn is_clean(component: Seq<char>) -> bool {
    &&& component.len() > 0
    &&& component != seq!['.']
    &&& component != seq!['.', '.']
    &&& forall|k: int| 0 <= k < component.len() ==> !path::is_sep(#[trigger] component[k])
}

proof fn pieces_have_no_separators(s: Seq<char>)
    ensures
        path::pieces(s).len() > 0,
        forall|i: int, k: int|
            0 <= i < path::pieces(s).len() && 0 <= k < path::pieces(s)[i].len() ==> !path::is_sep(
                #[trigger] path::pieces(s)[i][k],
            ),
    decreases s.len(),
{
    if s.len() > 0 {
        pieces_have_no_separators(s.drop_last());
        let before = path::pieces(s.drop_last());
        let after = path::pieces(s);
        assert forall|i: int, k: int| 0 <= i < after.len() && 0 <= k < after[i].len() implies !path::is_sep(
            #[trigger] after[i][k],
        ) by {
            if path::is_sep(s.last()) {
                if i < before.len() {
                    assert(after[i] == before[i]);
                    assert(!path::is_sep(before[i][k]));
                }
            } else if i < before.len() - 1 {
                assert(after[i] == before[i]);
                assert(!path::is_sep(before[i][k]));
            } else if k < before[i].len() {
                assert(after[i][k] == before[i][k]);
                assert(!path::is_sep(before[i][k]));
            }
        }
    }
}

proof fn names_come_from_pieces(list: Seq<Seq<char>>)
    ensures
        forall|i: int|
            0 <= i < path::names_among(list).len() ==> path::is_name(
                #[trigger] path::names_among(list)[i],
            ) && list.contains(path::names_among(list)[i]),
    decreases list.len(),
{
    if list.len() > 0 {
        let rest = list.drop_last();
        names_come_from_pieces(rest);
        assert forall|i: int| 0 <= i < path::names_among(list).len() implies path::is_name(
            #[trigger] path::names_among(list)[i],
        ) && list.contains(path::names_among(list)[i]) by {
            let u = path::names_among(rest);
            if i < u.len() {
                let k = choose|k: int| 0 <= k < rest.len() && rest[k] == u[i];
                assert(list[k] == u[i]);
            } else {
                assert(list[list.len() - 1] == list.last());
            }
        }
    }
}

proof fn resolved_comes_from_names(list: Seq<Seq<char>>)
    ensures
        resolved(list) matches Some(p) ==> forall|i: int|
            0 <= i < p.len() ==> #[trigger] p[i] != seq!['.', '.'] && list.contains(p[i]),
    decreases list.len(),
{
    if list.len() > 0 {
        let rest = list.drop_last();
        resolved_comes_from_names(rest);
        if let Some(p) = resolved(list) {
            let before = resolved(rest)->0;
            assert forall|i: int| 0 <= i < p.len() implies #[trigger] p[i] != seq!['.', '.']
                && list.contains(p[i]) by {
                if i < before.len() {
                    assert(p[i] == before[i]);
                    let k = choose|k: int| 0 <= k < rest.len() && rest[k] == before[i];
                    assert(list[k] == p[i]);
                } else {
                    assert(list[list.len() - 1] == p[i]);
                }
            }
        }
    }
}

/// Every component of a plain name's path names something directly below a directory, and none is a
/// drive: such a path never leads away from where it is unpacked.
pub proof fn inner_path_is_clean(name: Seq<char>)
    ensures
        inner_path(name) matches Some(p) ==> forall|i: int|
            0 <= i < p.len() ==> is_clean(#[trigger] p[i]) && (is_plain(name) ==> !path::is_drive(
                p[i],
            )),
{
    let cut = path::pieces(without_drive(name));
    let list = path::names_among(cut);
    pieces_have_no_separators(without_drive(name));
    names_come_from_pieces(cut);
    resolved_comes_from_names(list);
    if let Some(p) = inner_path(name) {
        assert forall|i: int| 0 <= i < p.len() implies is_clean(#[trigger] p[i]) && (is_plain(name)
            ==> !path::is_drive(p[i])) by {
            assert(list.contains(p[i]));
            let k = choose|k: int| 0 <= k < list.len() && list[k] == p[i];
            assert(path::is_name(list[k]) && cut.contains(list[k]));
            let j = choose|j: int| 0 <= j < cut.len() && cut[j] == list[k];
            assert forall|m: int| 0 <= m < p[i].len() implies !path::is_sep(#[trigger] p[i][m]) by {
                assert(!path::is_sep(cut[j][m]));
            }
        }
    }
}

/// How deep a path leads: each name one further down, and each `..` one back up.
pub open spec fn depth(list: Seq<Seq<char>>) -> int
    decreases list.len(),
{
    if list.len() == 0 {
        0
    } else if list.last().len() == 2 && list.last()[0] == '.' && list.last()[1] == '.' {
        depth(list.drop_last()) - 1
    } else {
        depth(list.drop_last()) + 1
    }
}

/// A path can be resolved exactly where no beginning of it leads above the start, and what comes out
/// has as many names as are left.
pub proof fn resolving_stays_inside(list: Seq<Seq<char>>)
    ensures
        (resolved(list) is Some) == (forall|k: int| 0 <= k <= list.len() ==> #[trigger] depth(list.take(k)) >= 0),
        resolved(list) matches Some(p) ==> p.len() == depth(list),
    decreases list.len(),
{
    if list.len() > 0 {
        let rest = list.drop_last();
        let n = list.len() as int;
        resolving_stays_inside(rest);
        assert(list.take(n) =~= list);
        assert forall|k: int| 0 <= k < n implies #[trigger] list.take(k) == rest.take(k) by {
            assert(list.take(k) =~= rest.take(k));
        }
        let last = list.last();
        assert((last.len() == 2 && last[0] == '.' && last[1] == '.') == (last == seq!['.', '.'])) by {
            if last.len() == 2 && last[0] == '.' && last[1] == '.' {
                assert(last =~= seq!['.', '.']);
            }
        }
        if resolved(list) is Some {
            assert forall|k: int| 0 <= k <= list.len() implies #[trigger] depth(list.take(k)) >= 0 by {
                if k < n {
                    assert(depth(rest.take(k)) >= 0);
                }
            }
        }
        if forall|k: int| 0 <= k <= list.len() ==> #[trigger] depth(list.take(k)) >= 0 {
            assert forall|k: int| 0 <= k <= rest.len() implies #[trigger] depth(rest.take(k)) >= 0 by {
                assert(depth(list.take(k)) >= 0);
            }
            assert(depth(list.take(n)) >= 0);
        }
    } else {
        assert(list.take(0) =~= list);
    }
}

/// A name and the `..` behind it take each other back, wherever they stand.
pub proof fn name_and_parent_cancel(a: Seq<Seq<char>>, name: Seq<char>, b: Seq<Seq<char>>)
    requires
        name != seq!['.', '.'],
    ensures
        resolved(a.push(name).push(seq!['.', '.']) + b) == resolved(a + b),
    decreases b.len(),
{
    let up = seq!['.', '.'];
    let with = a.push(name).push(up);
    if b.len() == 0 {
        assert(with + b =~= with);
        assert(a + b =~= a);
        assert(with.drop_last() =~= a.push(name));
        assert(a.push(name).drop_last() =~= a);
        assert(with.last() == up);
        assert(a.push(name).last() == name);
        if let Some(p) = resolved(a) {
            assert(resolved(a.push(name)) == Some(p.push(name)));
            assert(p.push(name).drop_last() =~= p);
        } else {
            assert(resolved(a.push(name)) is None);
        }
    } else {
        let c = b.drop_last();
        name_and_parent_cancel(a, name, c);
        assert((with + b).drop_last() =~= with + c);
        assert((a + b).drop_last() =~= a + c);
        assert((with + b).last() == b.last());
        assert((a + b).last() == b.last());
    }
}

/// Names among which there is no `..` are their own path.
pub proof fn names_without_parent_stay(list: Seq<Seq<char>>)
    requires
        forall|i: int| 0 <= i < list.len() ==> #[trigger] list[i] != seq!['.', '.'],
    ensures
        resolved(list) == Some(list),
    decreases list.len(),
{
    if list.len() > 0 {
        let rest = list.drop_last();
        assert forall|i: int| 0 <= i < rest.len() implies #[trigger] rest[i] != seq!['.', '.'] by {
            assert(rest[i] == list[i]);
        }
        names_without_parent_stay(rest);
        assert(list[list.len() - 1] == list.last());
        assert(rest.push(list.last()) =~= list);
    } else {
        assert(list =~= seq![]);
    }
}

} // verus!
