//! Windows paths as text: both slashes separate, and new separators are backslashes.
//!
//! A path is read as it is written. Nothing is resolved against a file system: `.` stands for
//! nothing, except at the beginning, and `..` is an ordinary name except where a function says
//! otherwise.
use vstd::prelude::*;
use vstd::string::*;

use crate::text;

verus! {

pub open spec fn is_sep(c: char) -> bool {
    c == '\\' || c == '/'
}

pub open spec fn is_drive(s: Seq<char>) -> bool {
    &&& s.len() >= 2
    &&& s[1] == ':'
    &&& ('A' <= s[0] && s[0] <= 'Z' || 'a' <= s[0] && s[0] <= 'z')
}

/// `base` followed by the relative path `name`, with one separator between them.
pub open spec fn joined_path(base: Seq<char>, name: Seq<char>) -> Seq<char> {
    if base.len() == 0 || is_sep(base.last()) || (base.len() == 2 && is_drive(base)) {
        base + name
    } else {
        base + seq!['\\'] + name
    }
}

/// The first separator at `from` or later, or the length of the path.
pub open spec fn next_sep(s: Seq<char>, from: int) -> int
    decreases s.len() - from,
{
    if from >= s.len() || is_sep(s[from]) {
        from
    } else {
        next_sep(s, from + 1)
    }
}

/// The first backslash at `from` or later, or the length of the path.
pub open spec fn next_back(s: Seq<char>, from: int) -> int
    decreases s.len() - from,
{
    if from >= s.len() || s[from] == '\\' {
        from
    } else {
        next_back(s, from + 1)
    }
}

/// Whether a path is taken as it stands, behind `\\?\`: there only backslashes separate, and `.`
/// is a name.
pub open spec fn is_verbatim(s: Seq<char>) -> bool {
    s.len() >= 4 && s[0] == '\\' && s[1] == '\\' && s[2] == '?' && s[3] == '\\'
}

/// Whether a verbatim path names a server: `\\?\UNC\server\share`.
pub open spec fn is_verbatim_share(s: Seq<char>) -> bool {
    is_verbatim(s) && s.len() >= 8 && s[4] == 'U' && s[5] == 'N' && s[6] == 'C' && is_sep(s[7])
}

/// Whether a verbatim path names a drive: `\\?\C:`.
pub open spec fn is_verbatim_drive(s: Seq<char>) -> bool {
    is_verbatim(s) && is_drive(s.skip(4)) && (s.len() == 6 || is_sep(s[6]))
}

/// Whether a path names a device: `\\.\device`.
pub open spec fn is_device(s: Seq<char>) -> bool {
    s.len() >= 4 && is_sep(s[0]) && is_sep(s[1]) && s[2] == '.' && is_sep(s[3])
}

/// Whether a path begins with a server and a share, as in `\\server\share`.
pub open spec fn names_share(s: Seq<char>) -> bool {
    &&& s.len() >= 2 && is_sep(s[0]) && is_sep(s[1])
    &&& 2 < next_sep(s, 2)
    &&& next_sep(s, 2) + 1 < next_sep(s, next_sep(s, 2) + 1)
}

/// How many characters say on what the path lies: a drive, a share, a device, or nothing.
pub open spec fn prefix_len(s: Seq<char>) -> int {
    if is_verbatim_share(s) {
        let server = next_back(s, 8);
        let share = next_back(s, server + 1);
        if share > server + 1 {
            share
        } else {
            server
        }
    } else if is_verbatim_drive(s) {
        6
    } else if is_verbatim(s) {
        next_back(s, 4)
    } else if is_device(s) {
        next_sep(s, 4)
    } else if names_share(s) {
        next_sep(s, next_sep(s, 2) + 1)
    } else if is_drive(s) {
        2
    } else {
        0
    }
}

/// How many characters belong to the root: the prefix and the separator behind it.
pub open spec fn root_len(s: Seq<char>) -> int {
    if prefix_len(s) < s.len() && is_sep(s[prefix_len(s)]) {
        prefix_len(s) + 1
    } else {
        prefix_len(s)
    }
}

/// Whether a character separates the names of a path.
pub open spec fn separates(s: Seq<char>, c: char) -> bool {
    c == '\\' || (c == '/' && !is_verbatim(s))
}

/// Whether a path says where it starts; one that begins with a bare drive does not.
pub open spec fn is_rooted(s: Seq<char>) -> bool {
    root_len(s) > 0 && !(is_drive(s) && root_len(s) == 2)
}

/// Whether the character at `at` is a `.` that stands for nothing: a whole piece, and not the first
/// of a path without a root.
pub open spec fn is_idle_dot(s: Seq<char>, root: int, at: int) -> bool {
    &&& !is_verbatim(s)
    &&& s[at] == '.'
    &&& if at == root {
        is_rooted(s)
    } else {
        is_sep(s[at - 1])
    }
}

/// Where the last name of `s.take(end)` ends, with trailing separators and idle dots left out.
pub open spec fn name_end(s: Seq<char>, root: int, end: int) -> int
    decreases end,
{
    if 0 <= root < end <= s.len() && (separates(s, s[end - 1]) || is_idle_dot(s, root, end - 1)) {
        name_end(s, root, end - 1)
    } else {
        end
    }
}

/// Where the last name of `s.take(end)` starts.
pub open spec fn name_start(s: Seq<char>, root: int, end: int) -> int
    decreases end,
{
    if end > root && 0 < end <= s.len() && !separates(s, s[end - 1]) {
        name_start(s, root, end - 1)
    } else {
        end
    }
}

/// The path without its last name; none for a bare root or an empty path.
pub open spec fn parent_of(s: Seq<char>) -> Option<Seq<char>> {
    let root = root_len(s);
    let end = name_end(s, root, s.len() as int);
    if end <= root {
        None
    } else {
        Some(s.take(name_end(s, root, name_start(s, root, end))))
    }
}

/// The pieces of a text between its separators.
pub open spec fn pieces(s: Seq<char>) -> Seq<Seq<char>>
    decreases s.len(),
{
    if s.len() == 0 {
        seq![seq![]]
    } else {
        let before = pieces(s.drop_last());
        if is_sep(s.last()) {
            before.push(seq![])
        } else {
            before.update(before.len() - 1, before.last().push(s.last()))
        }
    }
}

/// The pieces of a text between its backslashes.
pub open spec fn back_pieces(s: Seq<char>) -> Seq<Seq<char>>
    decreases s.len(),
{
    if s.len() == 0 {
        seq![seq![]]
    } else {
        let before = back_pieces(s.drop_last());
        if s.last() == '\\' {
            before.push(seq![])
        } else {
            before.update(before.len() - 1, before.last().push(s.last()))
        }
    }
}

/// Whether a piece is a name: empty pieces and `.` are not.
pub open spec fn is_name(piece: Seq<char>) -> bool {
    piece.len() > 0 && piece != seq!['.']
}

pub open spec fn names_among(list: Seq<Seq<char>>) -> Seq<Seq<char>>
    decreases list.len(),
{
    if list.len() == 0 {
        seq![]
    } else if is_name(list.last()) {
        names_among(list.drop_last()).push(list.last())
    } else {
        names_among(list.drop_last())
    }
}

pub open spec fn nonempty_among(list: Seq<Seq<char>>) -> Seq<Seq<char>>
    decreases list.len(),
{
    if list.len() == 0 {
        seq![]
    } else if list.last().len() > 0 {
        nonempty_among(list.drop_last()).push(list.last())
    } else {
        nonempty_among(list.drop_last())
    }
}

/// The names of a path after its root.
pub open spec fn names(s: Seq<char>) -> Seq<Seq<char>> {
    if is_verbatim(s) {
        nonempty_among(back_pieces(s.skip(root_len(s))))
    } else {
        names_among(pieces(s.skip(root_len(s))))
    }
}

/// The last name of a path; none for a bare root, or where it is `.` or `..`.
pub open spec fn file_name_of(s: Seq<char>) -> Option<Seq<char>> {
    let list = names(s);
    if list.len() == 0 || list.last() == seq!['.'] || list.last() == seq!['.', '.'] {
        None
    } else {
        Some(list.last())
    }
}

/// Whether a path is a server and a separator, as in `\\server\`: what is put behind it is a share.
pub open spec fn is_bare_server(s: Seq<char>) -> bool {
    &&& !is_verbatim(s) && !is_device(s)
    &&& s.len() > 2 && is_sep(s[0]) && is_sep(s[1])
    &&& 2 < next_sep(s, 2) && next_sep(s, 2) + 1 == s.len()
}

/// What stands behind the last separator of a path.
pub open spec fn last_piece(s: Seq<char>) -> Seq<char> {
    let body = s.skip(root_len(s));
    if is_verbatim(s) {
        back_pieces(body).last()
    } else {
        pieces(body).last()
    }
}

pub open spec fn last_dot(s: Seq<char>) -> int
    decreases s.len(),
{
    if s.len() == 0 {
        -1
    } else if s.last() == '.' {
        s.len() - 1
    } else {
        last_dot(s.drop_last())
    }
}

/// A file name without its extension: what stands before the last dot, unless that dot comes first.
pub open spec fn stem(name: Seq<char>) -> Seq<char> {
    if last_dot(name) <= 0 {
        name
    } else {
        name.take(last_dot(name))
    }
}

pub open spec fn file_stem_of(s: Seq<char>) -> Option<Seq<char>> {
    match file_name_of(s) {
        Some(name) => Some(stem(name)),
        None => None,
    }
}

fn sep(c: char) -> (r: bool)
    ensures
        r == is_sep(c),
{
    c == '\\' || c == '/'
}

fn drive(v: &Vec<char>) -> (r: bool)
    ensures
        r == is_drive(v@),
{
    v.len() >= 2 && v[1] == ':' && ('A' <= v[0] && v[0] <= 'Z' || 'a' <= v[0] && v[0] <= 'z')
}

/// Joins a relative path onto a base path.
pub fn join(base: &str, name: &str) -> (r: String)
    ensures
        r@ == joined_path(base@, name@),
{
    let v = text::chars_of(base);
    let n: usize = v.len();
    if n == 0 || sep(v[n - 1]) || (n == 2 && drive(&v)) {
        text::cat2(base, name)
    } else {
        proof {
            reveal_strlit("\\");
            assert("\\"@ =~= seq!['\\']);
        }
        text::cat3(base, "\\", name)
    }
}

fn find_sep(v: &Vec<char>, from: usize) -> (r: usize)
    requires
        from <= v@.len(),
    ensures
        r == next_sep(v@, from as int),
        from <= r <= v@.len(),
{
    let mut i: usize = from;
    while i < v.len() && !sep(v[i])
        invariant
            from <= i <= v@.len(),
            next_sep(v@, from as int) == next_sep(v@, i as int),
        decreases v@.len() - i,
    {
        i = i + 1;
    }
    i
}

fn find_back(v: &Vec<char>, from: usize) -> (r: usize)
    requires
        from <= v@.len(),
    ensures
        r == next_back(v@, from as int),
        from <= r <= v@.len(),
{
    let mut i: usize = from;
    while i < v.len() && v[i] != '\\'
        invariant
            from <= i <= v@.len(),
            next_back(v@, from as int) == next_back(v@, i as int),
        decreases v@.len() - i,
    {
        i = i + 1;
    }
    i
}

fn verbatim(v: &Vec<char>) -> (r: bool)
    ensures
        r == is_verbatim(v@),
{
    v.len() >= 4 && v[0] == '\\' && v[1] == '\\' && v[2] == '?' && v[3] == '\\'
}

/// Where the share ends, of a path that begins with one.
fn share_end(v: &Vec<char>) -> (r: Option<usize>)
    ensures
        match r {
            Some(end) => names_share(v@) && end == next_sep(v@, next_sep(v@, 2) + 1) && end
                <= v@.len(),
            None => !names_share(v@),
        },
{
    let n: usize = v.len();
    if n < 2 || !sep(v[0]) || !sep(v[1]) {
        return None;
    }
    let server = find_sep(v, 2);
    if server == 2 || server >= n {
        return None;
    }
    let end = find_sep(v, server + 1);
    if end == server + 1 {
        None
    } else {
        Some(end)
    }
}

fn verbatim_prefix(v: &Vec<char>) -> (r: usize)
    requires
        is_verbatim(v@),
    ensures
        r == prefix_len(v@),
        r <= v@.len(),
{
    let n: usize = v.len();
    if n >= 8 && v[4] == 'U' && v[5] == 'N' && v[6] == 'C' && sep(v[7]) {
        let server = find_back(v, 8);
        if server >= n {
            return server;
        }
        let share = find_back(v, server + 1);
        return if share > server + 1 {
            share
        } else {
            server
        };
    }
    if n >= 6 && v[5] == ':' && ('A' <= v[4] && v[4] <= 'Z' || 'a' <= v[4] && v[4] <= 'z') && (n == 6
        || sep(v[6])) {
        6
    } else {
        find_back(v, 4)
    }
}

fn prefix_length(v: &Vec<char>) -> (r: usize)
    ensures
        r == prefix_len(v@),
        r <= v@.len(),
{
    let n: usize = v.len();
    if verbatim(v) {
        return verbatim_prefix(v);
    }
    if n >= 4 && sep(v[0]) && sep(v[1]) && v[2] == '.' && sep(v[3]) {
        return find_sep(v, 4);
    }
    match share_end(v) {
        Some(end) => end,
        None => if drive(v) {
            2
        } else {
            0
        },
    }
}

fn root_length(v: &Vec<char>) -> (r: usize)
    ensures
        r == root_len(v@),
        r <= v@.len(),
{
    let p = prefix_length(v);
    if p < v.len() && sep(v[p]) {
        p + 1
    } else {
        p
    }
}

fn parts(v: &Vec<char>, c: char) -> (r: bool)
    ensures
        r == separates(v@, c),
{
    c == '\\' || (c == '/' && !verbatim(v))
}

fn idle_dot(v: &Vec<char>, root: usize, at: usize) -> (r: bool)
    requires
        root <= at < v@.len(),
        root == root_len(v@),
    ensures
        r == is_idle_dot(v@, root as int, at as int),
{
    !verbatim(v) && v[at] == '.' && if at == root {
        root > 0 && !(drive(v) && root == 2)
    } else {
        sep(v[at - 1])
    }
}

fn end_of_name(v: &Vec<char>, root: usize, end: usize) -> (r: usize)
    requires
        root <= end <= v@.len(),
        root == root_len(v@),
    ensures
        r == name_end(v@, root as int, end as int),
        root <= r <= end,
{
    let mut e: usize = end;
    while e > root && (parts(v, v[e - 1]) || idle_dot(v, root, e - 1))
        invariant
            root <= e <= end <= v@.len(),
            root == root_len(v@),
            name_end(v@, root as int, end as int) == name_end(v@, root as int, e as int),
        decreases e,
    {
        e = e - 1;
    }
    e
}

fn start_of_name(v: &Vec<char>, root: usize, end: usize) -> (r: usize)
    requires
        root <= end <= v@.len(),
    ensures
        r == name_start(v@, root as int, end as int),
        root <= r <= end,
{
    let mut e: usize = end;
    while e > root && !parts(v, v[e - 1])
        invariant
            root <= e <= end <= v@.len(),
            name_start(v@, root as int, end as int) == name_start(v@, root as int, e as int),
        decreases e,
    {
        e = e - 1;
    }
    e
}

/// The directory that holds a path.
pub fn parent(path: &str) -> (r: Option<String>)
    ensures
        r.deep_view() == parent_of(path@),
{
    let v = text::chars_of(path);
    let root = root_length(&v);
    let end = end_of_name(&v, root, v.len());
    if end <= root {
        None
    } else {
        let start = start_of_name(&v, root, end);
        let cut = end_of_name(&v, root, start);
        assert(v@.subrange(0, cut as int) =~= path@.take(cut as int));
        Some(text::text_of(&v, 0, cut))
    }
}

/// The pieces of a text, of a verbatim path or of another.
spec fn cut(whole: bool, s: Seq<char>) -> Seq<Seq<char>> {
    if whole {
        back_pieces(s)
    } else {
        pieces(s)
    }
}

/// The names among the pieces, of a verbatim path or of another.
spec fn kept(whole: bool, list: Seq<Seq<char>>) -> Seq<Seq<char>> {
    if whole {
        nonempty_among(list)
    } else {
        names_among(list)
    }
}

proof fn cut_nonempty(whole: bool, s: Seq<char>)
    ensures
        cut(whole, s).len() > 0,
    decreases s.len(),
{
    if s.len() > 0 {
        cut_nonempty(whole, s.drop_last());
    }
}

/// The names of a path after its root. Empty names are left out, and so is `.`, unless the path is
/// verbatim.
pub fn components(path: &str) -> (r: Vec<String>)
    ensures
        r.deep_view() == names(path@),
{
    let v = text::chars_of(path);
    let root = root_length(&v);
    let whole = verbatim(&v);
    let ghost tail = v@.skip(root as int);
    let mut out: Vec<String> = Vec::new();
    let mut cur = String::new();
    let mut i: usize = root;
    assert(tail.take(0) =~= seq![]);
    assert(cut(whole, tail.take(0)).drop_last() =~= seq![]);
    while i < v.len()
        invariant
            root <= i <= v@.len(),
            whole == is_verbatim(v@),
            tail == v@.skip(root as int),
            cut(whole, tail.take(i - root)).len() > 0,
            cur@ == cut(whole, tail.take(i - root)).last(),
            out.deep_view() == kept(whole, cut(whole, tail.take(i - root)).drop_last()),
        decreases v@.len() - i,
    {
        let ghost before = tail.take(i - root);
        let ghost after = tail.take(i + 1 - root);
        proof {
            assert(after.drop_last() =~= before);
            assert(after.last() == v@[i as int]);
            cut_nonempty(whole, before);
        }
        if parts(&v, v[i]) {
            proof {
                assert(cut(whole, after).drop_last() =~= cut(whole, before));
            }
            push_name(&mut out, cur, whole, Ghost(cut(whole, before)));
            cur = String::new();
        } else {
            cur.push(v[i]);
            proof {
                assert(cut(whole, after).drop_last() =~= cut(whole, before).drop_last());
            }
        }
        i = i + 1;
    }
    proof {
        assert(tail.take(v@.len() - root) =~= tail);
    }
    push_name(&mut out, cur, whole, Ghost(cut(whole, tail)));
    out
}

fn push_name(out: &mut Vec<String>, piece: String, whole: bool, Ghost(list): Ghost<Seq<Seq<char>>>)
    requires
        list.len() > 0,
        piece@ == list.last(),
        old(out).deep_view() == kept(whole, list.drop_last()),
    ensures
        final(out).deep_view() == kept(whole, list),
{
    proof {
        reveal_strlit(".");
        assert("."@ =~= seq!['.']);
    }
    if !piece.as_str().is_empty() && (whole || !text::same_text(piece.as_str(), ".")) {
        out.push(piece);
        assert(out.deep_view() =~= old(out).deep_view().push(list.last()));
    }
}

/// The last name of a path.
pub fn file_name(path: &str) -> (r: Option<String>)
    ensures
        r.deep_view() == file_name_of(path@),
{
    let mut list = components(path);
    let ghost all = list.deep_view();
    proof {
        reveal_strlit(".");
        reveal_strlit("..");
        assert("."@ =~= seq!['.']);
        assert(".."@ =~= seq!['.', '.']);
    }
    match list.pop() {
        None => None,
        Some(last) => {
            assert(last@ == all.last());
            if text::same_text(last.as_str(), ".") || text::same_text(last.as_str(), "..") {
                None
            } else {
                Some(last)
            }
        },
    }
}

fn find_last_dot(v: &Vec<char>) -> (r: Option<usize>)
    ensures
        match r {
            Some(i) => i == last_dot(v@) && i < v@.len(),
            None => last_dot(v@) == -1,
        },
{
    let mut n: usize = v.len();
    assert(v@.take(n as int) =~= v@);
    while n > 0
        invariant
            n <= v@.len(),
            last_dot(v@) == last_dot(v@.take(n as int)),
        decreases n,
    {
        assert(v@.take(n as int).last() == v@[n - 1]);
        assert(v@.take(n as int).drop_last() =~= v@.take(n - 1));
        if v[n - 1] == '.' {
            return Some(n - 1);
        }
        n = n - 1;
    }
    None
}

/// The last name of a path without its extension.
pub fn file_stem(path: &str) -> (r: Option<String>)
    ensures
        r.deep_view() == file_stem_of(path@),
{
    match file_name(path) {
        None => None,
        Some(name) => {
            let v = text::chars_of(name.as_str());
            match find_last_dot(&v) {
                Some(i) => {
                    if i == 0 {
                        Some(name)
                    } else {
                        assert(v@.subrange(0, i as int) =~= name@.take(i as int));
                        Some(text::text_of(&v, 0, i))
                    }
                },
                None => Some(name),
            }
        },
    }
}

proof fn separators_stay(p: Seq<char>, tail: Seq<char>, from: int)
    requires
        0 <= from <= p.len(),
        forall|i: int| 0 <= i < tail.len() ==> !is_sep(#[trigger] tail[i]),
    ensures
        next_sep(p, from) <= p.len(),
        from <= next_sep(p, from),
        next_sep(p + tail, from) == if next_sep(p, from) < p.len() {
            next_sep(p, from)
        } else {
            (p + tail).len() as int
        },
        next_back(p, from) <= p.len(),
        from <= next_back(p, from),
        next_back(p + tail, from) == if next_back(p, from) < p.len() {
            next_back(p, from)
        } else {
            (p + tail).len() as int
        },
    decreases p.len() - from,
{
    let q = p + tail;
    if from < p.len() {
        assert(q[from] == p[from]);
        separators_stay(p, tail, from + 1);
    } else {
        none_in_tail(p, tail, from);
    }
}

proof fn none_in_tail(p: Seq<char>, tail: Seq<char>, from: int)
    requires
        p.len() <= from <= p.len() + tail.len(),
        forall|i: int| 0 <= i < tail.len() ==> !is_sep(#[trigger] tail[i]),
    ensures
        next_sep(p + tail, from) == p.len() + tail.len(),
        next_back(p + tail, from) == p.len() + tail.len(),
    decreases p.len() + tail.len() - from,
{
    if from < p.len() + tail.len() {
        assert((p + tail)[from] == tail[from - p.len()]);
        assert(!is_sep(tail[from - p.len()]));
        none_in_tail(p, tail, from + 1);
    }
}

proof fn root_stays(p: Seq<char>, tail: Seq<char>)
    requires
        root_len(p) < p.len(),
        !is_bare_server(p),
        forall|i: int| 0 <= i < tail.len() ==> !is_sep(#[trigger] tail[i]) && tail[i] != ':',
    ensures
        is_verbatim(p + tail) == is_verbatim(p),
        root_len(p + tail) == root_len(p),
        0 <= root_len(p),
{
    let q = p + tail;
    let n = p.len() as int;
    assert forall|i: int| 0 <= i < n implies #[trigger] q[i] == p[i] by {}
    assert forall|i: int| n <= i < q.len() implies !is_sep(#[trigger] q[i]) && q[i] != ':' by {
        assert(q[i] == tail[i - n]);
    }
    assert(is_verbatim(q) == is_verbatim(p));
    if is_verbatim(p) {
        assert(is_verbatim_share(q) == is_verbatim_share(p));
        separators_stay(p, tail, 4);
        if is_verbatim_share(p) {
            separators_stay(p, tail, 8);
            let server = next_back(p, 8);
            if server < n {
                separators_stay(p, tail, server + 1);
                assert(server + 1 < n) by {
                    if server + 1 == n {
                        next_back_is_back(p, 8);
                    }
                }
            }
            assert(prefix_len(q) == prefix_len(p));
        } else {
            assert(is_verbatim_drive(p) ==> n > 6);
            if n > 6 {
                assert(p.skip(4)[0] == q.skip(4)[0] && p.skip(4)[1] == q.skip(4)[1]);
            } else if is_drive(q.skip(4)) {
                assert(q.skip(4)[1] == q[5]);
                assert(n == 6);
                assert(p.skip(4)[0] == q[4] && p.skip(4)[1] == q[5]);
                assert(is_verbatim_drive(p));
            }
            assert(is_verbatim_drive(q) == is_verbatim_drive(p));
        }
    } else {
        assert(is_device(q) == is_device(p));
        assert(is_drive(q) == is_drive(p));
        if is_device(p) {
            separators_stay(p, tail, 4);
        } else if n >= 2 && is_sep(p[0]) && is_sep(p[1]) {
            separators_stay(p, tail, 2);
            let server = next_sep(p, 2);
            if server < n {
                separators_stay(p, tail, server + 1);
            }
            assert(names_share(q) == names_share(p));
        } else {
            assert(!names_share(p) && !names_share(q));
        }
    }
    assert(prefix_len(q) == prefix_len(p));
}

proof fn next_back_is_back(s: Seq<char>, from: int)
    requires
        0 <= from,
        next_back(s, from) < s.len(),
    ensures
        from <= next_back(s, from),
        s[next_back(s, from)] == '\\',
    decreases s.len() - from,
{
    if s[from] != '\\' {
        next_back_is_back(s, from + 1);
    }
}

proof fn last_piece_grows(whole: bool, s: Seq<char>, tail: Seq<char>)
    requires
        forall|i: int| 0 <= i < tail.len() ==> !is_sep(#[trigger] tail[i]),
    ensures
        cut(whole, s).len() > 0,
        cut(whole, s + tail) == cut(whole, s).drop_last().push(cut(whole, s).last() + tail),
    decreases tail.len(),
{
    cut_nonempty(whole, s);
    let list = cut(whole, s);
    if tail.len() == 0 {
        assert(s + tail =~= s);
        assert(list.last() + tail =~= list.last());
        assert(list.drop_last().push(list.last()) =~= list);
    } else {
        let rest = tail.drop_last();
        assert forall|i: int| 0 <= i < rest.len() implies !is_sep(#[trigger] rest[i]) by {
            assert(rest[i] == tail[i]);
        }
        last_piece_grows(whole, s, rest);
        assert((s + tail).drop_last() =~= s + rest);
        assert((s + tail).last() == tail.last());
        assert(!is_sep(tail[tail.len() - 1]));
        assert((list.last() + rest).push(tail.last()) =~= list.last() + tail);
        assert(cut(whole, s + tail) =~= list.drop_last().push(list.last() + tail));
    }
}

/// What is put behind a path that has a file name belongs to the name at its end.
pub proof fn file_name_grows(p: Seq<char>, tail: Seq<char>)
    requires
        file_name_of(p) is Some,
        !is_bare_server(p),
        tail.len() > 2,
        forall|i: int| 0 <= i < tail.len() ==> !is_sep(#[trigger] tail[i]) && tail[i] != ':',
    ensures
        file_name_of(p + tail) == Some(last_piece(p) + tail),
{
    let whole = is_verbatim(p);
    let r = root_len(p);
    let body = p.skip(r);
    root_in_path(p);
    if body.len() == 0 {
        assert(body =~= seq![]);
        assert(cut(whole, body) =~= seq![seq![]]);
        let list = cut(whole, body);
        assert(list.drop_last() =~= seq![]);
        assert(list.last().len() == 0);
        assert(kept(whole, list.drop_last()) =~= seq![]);
        assert(kept(whole, list) =~= seq![]);
        assert(names(p) =~= seq![]);
    }
    root_stays(p, tail);
    let q = p + tail;
    assert(q.skip(r) =~= body + tail);
    last_piece_grows(whole, body, tail);
    let list = cut(whole, q.skip(r));
    assert(list.last() == last_piece(p) + tail);
    assert(kept(whole, list).last() == last_piece(p) + tail);
    assert(names(q) == kept(whole, list));
}

/// A verbatim path has a root.
pub proof fn verbatim_has_root(s: Seq<char>)
    ensures
        is_verbatim(s) ==> root_len(s) >= 4,
{
    let none: Seq<char> = seq![];
    if is_verbatim(s) {
        separators_stay(s, none, 4);
        if s.len() >= 8 {
            separators_stay(s, none, 8);
        }
    }
}

proof fn root_in_path(s: Seq<char>)
    ensures
        0 <= root_len(s) <= s.len(),
{
    let none: Seq<char> = seq![];
    if s.len() >= 2 {
        separators_stay(s, none, 2);
        if next_sep(s, 2) < s.len() {
            separators_stay(s, none, next_sep(s, 2) + 1);
        }
    }
    if s.len() >= 4 {
        separators_stay(s, none, 4);
    }
    if s.len() >= 8 {
        separators_stay(s, none, 8);
        if next_back(s, 8) < s.len() {
            separators_stay(s, none, next_back(s, 8) + 1);
        }
    }
}

/// A joined path begins with the base and ends with the name. Between them stands one backslash, or
/// nothing where the base is empty, ends in a separator, or is a bare drive.
pub proof fn join_keeps_both(base: Seq<char>, name: Seq<char>)
    ensures
        ({
            let r = joined_path(base, name);
            let gap = r.len() - base.len() - name.len();
            &&& base.is_prefix_of(r)
            &&& name.is_suffix_of(r)
            &&& gap == 0 || gap == 1 && r[base.len() as int] == '\\'
            &&& (gap == 0) == (base.len() == 0 || base.last() == '\\' || base.last() == '/' || (base.len()
                == 2 && base[1] == ':' && ('A' <= base[0] <= 'Z' || 'a' <= base[0] <= 'z')))
        }),
{
    let r = joined_path(base, name);
    assert(base =~= r.subrange(0, base.len() as int));
    assert(name =~= r.subrange(r.len() - name.len(), r.len() as int));
}

/// The first separator behind a place: there is none before it.
pub proof fn next_separator_is_next(s: Seq<char>, from: int)
    requires
        0 <= from <= s.len(),
    ensures
        from <= next_sep(s, from) <= s.len(),
        next_sep(s, from) < s.len() ==> s[next_sep(s, from)] == '\\' || s[next_sep(s, from)] == '/',
        forall|k: int| from <= k < next_sep(s, from) ==> #[trigger] s[k] != '\\' && s[k] != '/',
        from <= next_back(s, from) <= s.len(),
        next_back(s, from) < s.len() ==> s[next_back(s, from)] == '\\',
        forall|k: int| from <= k < next_back(s, from) ==> #[trigger] s[k] != '\\',
    decreases s.len() - from,
{
    if from < s.len() {
        next_separator_is_next(s, from + 1);
    }
}

proof fn next_separator_is_at(s: Seq<char>, from: int, at: int)
    requires
        0 <= from <= at <= s.len(),
        at < s.len() ==> is_sep(s[at]),
        forall|k: int| from <= k < at ==> !is_sep(#[trigger] s[k]),
    ensures
        next_sep(s, from) == at,
{
    next_separator_is_next(s, from);
    let r = next_sep(s, from);
    if r < at {
        assert(!is_sep(s[r]));
    }
    if at < r {
        assert(is_sep(s[at]));
    }
}

/// The root of a path on a drive is the drive and the separator behind it; without that separator the
/// drive alone.
pub proof fn root_of_drive(s: Seq<char>)
    requires
        s.len() >= 2,
        s[1] == ':',
        'A' <= s[0] <= 'Z' || 'a' <= s[0] <= 'z',
    ensures
        root_len(s) == if s.len() > 2 && (s[2] == '\\' || s[2] == '/') {
            3int
        } else {
            2
        },
        !is_verbatim(s),
{
}

/// A path that begins with neither a drive nor a separator has no root; one that begins with a single
/// separator has that one.
pub proof fn root_of_relative(s: Seq<char>)
    requires
        !is_drive(s),
        s.len() >= 2 && (s[0] == '\\' || s[0] == '/') ==> s[1] != '\\' && s[1] != '/',
    ensures
        root_len(s) == if s.len() > 0 && (s[0] == '\\' || s[0] == '/') {
            1int
        } else {
            0
        },
        !is_verbatim(s),
{
}

/// The root of a path on a share is the server, the share and the separator behind them.
pub proof fn root_of_share(server: Seq<char>, share: Seq<char>, rest: Seq<char>)
    requires
        server.len() > 0,
        share.len() > 0,
        server != seq!['?'],
        server != seq!['.'],
        forall|k: int| 0 <= k < server.len() ==> !is_sep(#[trigger] server[k]),
        forall|k: int| 0 <= k < share.len() ==> !is_sep(#[trigger] share[k]),
    ensures
        root_len(seq!['\\', '\\'] + server + seq!['\\'] + share + seq!['\\'] + rest) == 4
            + server.len() + share.len(),
        !is_verbatim(seq!['\\', '\\'] + server + seq!['\\'] + share + seq!['\\'] + rest),
{
    let s = seq!['\\', '\\'] + server + seq!['\\'] + share + seq!['\\'] + rest;
    let a = 2 + server.len() as int;
    let b = a + 1 + share.len();
    assert forall|k: int| 2 <= k < a implies !is_sep(#[trigger] s[k]) by {
        assert(s[k] == server[k - 2]);
    }
    assert forall|k: int| a + 1 <= k < b implies !is_sep(#[trigger] s[k]) by {
        assert(s[k] == share[k - a - 1]);
    }
    assert(s[0] == '\\' && s[1] == '\\' && s[a] == '\\' && s[b] == '\\');
    next_separator_is_at(s, 2, a);
    next_separator_is_at(s, a + 1, b);
    if s[2] == '?' && s[3] == '\\' {
        assert(server.len() == 1);
        assert(server =~= seq!['?']);
    }
    if s[2] == '.' && is_sep(s[3]) {
        assert(server.len() == 1);
        assert(server =~= seq!['.']);
    }
    assert(names_share(s));
}

/// The root of a path that is taken as it stands, on a drive.
pub proof fn root_of_verbatim_drive(s: Seq<char>)
    requires
        s.len() >= 7,
        s[0] == '\\' && s[1] == '\\' && s[2] == '?' && s[3] == '\\',
        'A' <= s[4] <= 'Z' || 'a' <= s[4] <= 'z',
        s[5] == ':',
        s[6] == '\\',
    ensures
        root_len(s) == 7,
        is_verbatim(s),
{
    assert(s.skip(4)[0] == s[4] && s.skip(4)[1] == s[5]);
    assert(is_verbatim_drive(s));
}

proof fn pieces_of_plain(s: Seq<char>)
    requires
        forall|k: int| 0 <= k < s.len() ==> !is_sep(#[trigger] s[k]),
    ensures
        pieces(s) == seq![s],
    decreases s.len(),
{
    if s.len() > 0 {
        let rest = s.drop_last();
        assert forall|k: int| 0 <= k < rest.len() implies !is_sep(#[trigger] rest[k]) by {
            assert(rest[k] == s[k]);
        }
        pieces_of_plain(rest);
        assert(rest.push(s.last()) =~= s);
        assert(!is_sep(s[s.len() - 1]));
        assert(pieces(s) =~= seq![s]);
    } else {
        assert(s =~= seq![]);
    }
}

/// The pieces of two texts with a separator between them are those of the one and those of the other.
pub proof fn separator_parts(a: Seq<char>, sep: char, b: Seq<char>)
    requires
        sep == '\\' || sep == '/',
    ensures
        pieces(a.push(sep) + b) == pieces(a) + pieces(b),
        pieces(b).len() > 0,
    decreases b.len(),
{
    let front = a.push(sep);
    if b.len() == 0 {
        assert(front + b =~= front);
        assert(front.drop_last() =~= a);
        assert(b =~= seq![]);
        assert(pieces(front) =~= pieces(a) + pieces(b));
    } else {
        let c = b.drop_last();
        separator_parts(a, sep, c);
        assert((front + b).drop_last() =~= front + c);
        assert((front + b).last() == b.last());
        assert(pieces(front + b) =~= pieces(a) + pieces(b));
    }
}

/// Taking a text apart at its separators undoes putting names together with separators between them.
pub proof fn pieces_undo_joining(list: Seq<Seq<char>>)
    requires
        list.len() > 0,
        forall|i: int, k: int|
            0 <= i < list.len() && 0 <= k < list[i].len() ==> !is_sep(#[trigger] list[i][k]),
    ensures
        pieces(text::joined(list, "\\"@)) == list,
    decreases list.len(),
{
    reveal_strlit("\\");
    assert("\\"@ =~= seq!['\\']);
    let last = list.last();
    assert forall|k: int| 0 <= k < last.len() implies !is_sep(#[trigger] last[k]) by {
        assert(!is_sep(list[list.len() - 1][k]));
    }
    pieces_of_plain(last);
    if list.len() == 1 {
        assert(list =~= seq![list[0]]);
    } else {
        let rest = list.drop_last();
        assert forall|i: int, k: int| 0 <= i < rest.len() && 0 <= k < rest[i].len() implies !is_sep(
            #[trigger] rest[i][k],
        ) by {
            assert(!is_sep(list[i][k]));
        }
        pieces_undo_joining(rest);
        let before = text::joined(rest, "\\"@);
        separator_parts(before, '\\', last);
        assert(text::joined(list, "\\"@) =~= before.push('\\') + last);
        assert(rest + seq![last] =~= list);
    }
}

/// Putting the pieces of a text together again gives the text, with backslashes for all separators.
pub proof fn joining_undoes_pieces(s: Seq<char>)
    ensures
        text::joined(pieces(s), "\\"@) == text::replace_char(s, '/', '\\'),
        pieces(s).len() > 0,
    decreases s.len(),
{
    reveal_strlit("\\");
    assert("\\"@ =~= seq!['\\']);
    let all = pieces(s);
    if s.len() == 0 {
        assert(all =~= seq![seq![]]);
        assert(text::joined(all, "\\"@) =~= text::replace_char(s, '/', '\\'));
    } else {
        let rest = s.drop_last();
        joining_undoes_pieces(rest);
        let before = pieces(rest);
        let whole = text::replace_char(s, '/', '\\');
        let front = text::replace_char(rest, '/', '\\');
        if is_sep(s.last()) {
            assert(all.drop_last() =~= before);
            assert(all.last() =~= seq![]);
            assert(text::joined(all, "\\"@) =~= front + seq!['\\']);
            assert(whole =~= front + seq!['\\']);
        } else {
            let grown = before.last().push(s.last());
            assert(all.drop_last() =~= before.drop_last());
            assert(all.last() == grown);
            if before.len() == 1 {
                assert(all =~= seq![grown]);
                assert(text::joined(all, "\\"@) =~= front.push(s.last()));
            } else {
                let head = text::joined(before.drop_last(), "\\"@);
                assert(front == head + "\\"@ + before.last());
                assert(text::joined(all, "\\"@) =~= front.push(s.last()));
            }
            assert(whole =~= front.push(s.last()));
        }
    }
}

/// Which pieces are names: all but empty ones and single dots, in their order.
pub proof fn names_are_picked(a: Seq<Seq<char>>, b: Seq<Seq<char>>, piece: Seq<char>)
    ensures
        names_among(a + b) == names_among(a) + names_among(b),
        names_among(seq![piece]) == if piece.len() == 0 || (piece.len() == 1 && piece[0] == '.') {
            seq![]
        } else {
            seq![piece]
        },
        nonempty_among(a + b) == nonempty_among(a) + nonempty_among(b),
        nonempty_among(seq![piece]) == if piece.len() == 0 {
            seq![]
        } else {
            seq![piece]
        },
    decreases b.len(),
{
    let none = Seq::<Seq<char>>::empty();
    assert(seq![piece].drop_last() =~= none);
    assert(names_among(none) =~= none);
    assert(nonempty_among(none) =~= none);
    if piece.len() == 1 && piece[0] == '.' {
        assert(piece =~= seq!['.']);
    }
    assert(names_among(seq![piece]) =~= if piece.len() == 0 || (piece.len() == 1 && piece[0] == '.') {
        seq![]
    } else {
        seq![piece]
    });
    assert(nonempty_among(seq![piece]) =~= if piece.len() == 0 {
        seq![]
    } else {
        seq![piece]
    });
    if b.len() == 0 {
        assert(a + b =~= a);
        assert(names_among(a) + names_among(b) =~= names_among(a));
        assert(nonempty_among(a) + nonempty_among(b) =~= nonempty_among(a));
    } else {
        names_are_picked(a, b.drop_last(), piece);
        assert((a + b).drop_last() =~= a + b.drop_last());
        assert((a + b).last() == b.last());
        assert(names_among(a + b) =~= names_among(a) + names_among(b));
        assert(nonempty_among(a + b) =~= nonempty_among(a) + nonempty_among(b));
    }
}

proof fn start_behind(s: Seq<char>, root: int, start: int, end: int)
    requires
        0 <= root <= start <= end <= s.len(),
        start > root ==> separates(s, s[start - 1]),
        forall|k: int| start <= k < end ==> !separates(s, #[trigger] s[k]),
    ensures
        name_start(s, root, end) == start,
    decreases end,
{
    if end > start {
        assert(!separates(s, s[end - 1]));
        start_behind(s, root, start, end - 1);
    }
}

/// The directory that holds a file in a directory is that directory, and the file's name is its name:
/// for a directory on a drive, and a plain name.
pub proof fn parent_and_name_undo_join(dir: Seq<char>, name: Seq<char>)
    requires
        is_drive(dir),
        dir.len() >= 3,
        is_sep(dir[2]),
        dir.len() == 3 || (!is_sep(dir.last()) && !(dir.last() == '.' && is_sep(dir[dir.len() - 2]))),
        name.len() > 0,
        name != seq!['.'],
        name != seq!['.', '.'],
        forall|k: int| 0 <= k < name.len() ==> !is_sep(#[trigger] name[k]),
    ensures
        parent_of(joined_path(dir, name)) == Some(dir),
        file_name_of(joined_path(dir, name)) == Some(name),
        names(joined_path(dir, name)) == names(dir).push(name),
{
    let s = joined_path(dir, name);
    let n = s.len() as int;
    let d = dir.len() as int;
    let start = n - name.len();
    assert(s[0] == dir[0] && s[1] == dir[1] && s[2] == dir[2]);
    assert(is_drive(s));
    root_of_drive(s);
    root_of_drive(dir);
    assert forall|k: int| 0 <= k < d implies #[trigger] s[k] == dir[k] by {}
    assert forall|k: int| start <= k < n implies !is_sep(#[trigger] s[k]) by {
        assert(s[k] == name[k - start]);
    }
    assert(is_sep(s[start - 1]));
    assert(name_end(s, 3, n) == n) by {
        assert(!is_sep(s[n - 1]));
        if is_idle_dot(s, 3, n - 1) {
            assert(s[n - 1] == '.');
            if n - 1 == 3 {
                assert(name.len() == 1);
            } else {
                assert(is_sep(s[n - 2]));
                assert(start == n - 1);
            }
            assert(name.len() == 1);
            assert(name[0] == s[n - 1]);
            assert(name =~= seq!['.']);
        }
    }
    start_behind(s, 3, start, n);
    if d == 3 {
        assert(start == 3);
        assert(name_end(s, 3, 3) == 3);
        assert(s.take(3) =~= dir);
    } else {
        assert(start == d + 1);
        assert(!is_sep(s[d - 1]));
        if is_idle_dot(s, 3, d - 1) {
            assert(s[d - 1] == '.');
            assert(is_sep(s[d - 2]));
            assert(dir.last() == '.');
        }
        assert(name_end(s, 3, d) == d);
        assert(name_end(s, 3, d + 1) == d);
        assert(s.take(d) =~= dir);
    }
    assert(parent_of(s) == Some(dir));
    pieces_of_plain(name);
    let body = s.skip(3);
    if d == 3 {
        assert(body =~= name);
        assert(dir.skip(3) =~= seq![]);
        assert(pieces(dir.skip(3)) =~= seq![seq![]]);
        names_are_picked(seq![], seq![], seq![]);
        assert(names(dir) =~= seq![]);
        names_are_picked(seq![], seq![], name);
        assert(names(s) =~= seq![name]);
    } else {
        let front = dir.skip(3);
        assert(body =~= front.push('\\') + name);
        separator_parts(front, '\\', name);
        names_are_picked(pieces(front), seq![name], name);
        assert(names(s) =~= names(dir).push(name));
    }
}

/// The directory that holds something is a beginning of its path, and shorter.
pub proof fn parent_is_shorter(s: Seq<char>)
    ensures
        parent_of(s) matches Some(d) ==> d.len() < s.len() && d == s.take(d.len() as int) && d.len()
            >= root_len(s),
{
    root_in_path(s);
    let root = root_len(s);
    let end = name_end(s, root, s.len() as int);
    name_end_is_before(s, root, s.len() as int);
    if end > root {
        let start = name_start(s, root, end);
        name_start_is_before(s, root, end);
        name_end_is_before(s, root, start);
        assert(start < end) by {
            assert(!separates(s, s[end - 1]));
            name_start_is_before(s, root, end - 1);
        }
    }
}

proof fn name_end_is_before(s: Seq<char>, root: int, end: int)
    requires
        0 <= root <= end <= s.len(),
    ensures
        root <= name_end(s, root, end) <= end,
        name_end(s, root, end) > root ==> !separates(s, s[name_end(s, root, end) - 1]),
    decreases end,
{
    if root < end && (separates(s, s[end - 1]) || is_idle_dot(s, root, end - 1)) {
        name_end_is_before(s, root, end - 1);
    }
}

proof fn name_start_is_before(s: Seq<char>, root: int, end: int)
    requires
        0 <= root <= end <= s.len(),
    ensures
        root <= name_start(s, root, end) <= end,
    decreases end,
{
    if end > root && !separates(s, s[end - 1]) {
        name_start_is_before(s, root, end - 1);
    }
}

proof fn last_dot_is_last(s: Seq<char>)
    ensures
        -1 <= last_dot(s) < s.len(),
        last_dot(s) >= 0 ==> s[last_dot(s)] == '.',
        forall|k: int| last_dot(s) < k < s.len() ==> #[trigger] s[k] != '.',
    decreases s.len(),
{
    if s.len() > 0 && s.last() != '.' {
        let rest = s.drop_last();
        last_dot_is_last(rest);
        assert forall|k: int| last_dot(s) < k < s.len() implies #[trigger] s[k] != '.' by {
            if k < rest.len() {
                assert(rest[k] == s[k]);
            }
        }
    }
}

/// What an extension is: a dot and what stands behind it, with no further dot; taking it off leaves
/// the stem. A name without a dot, or with none but in front, is its own stem.
pub proof fn stem_leaves_off_extension(front: Seq<char>, extension: Seq<char>)
    requires
        forall|k: int| 0 <= k < extension.len() ==> #[trigger] extension[k] != '.',
    ensures
        front.len() > 0 ==> stem(front.push('.') + extension) == front,
        stem(seq!['.'] + extension) == seq!['.'] + extension,
        stem(extension) == extension,
{
    let name = front.push('.') + extension;
    last_dot_is_last(name);
    let at = front.len() as int;
    assert(name[at] == '.');
    assert(last_dot(name) == at) by {
        if last_dot(name) > at {
            assert(name[last_dot(name)] == extension[last_dot(name) - at - 1]);
        }
    }
    assert(name.take(at) =~= front);
    let hidden = seq!['.'] + extension;
    last_dot_is_last(hidden);
    if last_dot(hidden) > 0 {
        assert(hidden[last_dot(hidden)] == extension[last_dot(hidden) - 1]);
    }
    last_dot_is_last(extension);
}

/// The root of a path that is taken as it stands, on a share.
pub proof fn root_of_verbatim_share(server: Seq<char>, share: Seq<char>, rest: Seq<char>)
    requires
        share.len() > 0,
        forall|k: int| 0 <= k < server.len() ==> #[trigger] server[k] != '\\',
        forall|k: int| 0 <= k < share.len() ==> #[trigger] share[k] != '\\',
    ensures
        root_len(
            seq!['\\', '\\', '?', '\\', 'U', 'N', 'C', '\\'] + server + seq!['\\'] + share + seq!['\\']
                + rest,
        ) == 10 + server.len() + share.len(),
        is_verbatim(
            seq!['\\', '\\', '?', '\\', 'U', 'N', 'C', '\\'] + server + seq!['\\'] + share + seq!['\\']
                + rest,
        ),
{
    let s = seq!['\\', '\\', '?', '\\', 'U', 'N', 'C', '\\'] + server + seq!['\\'] + share + seq![
        '\\',
    ] + rest;
    let a = 8 + server.len() as int;
    let b = a + 1 + share.len();
    assert forall|k: int| 8 <= k < a implies #[trigger] s[k] != '\\' by {
        assert(s[k] == server[k - 8]);
    }
    assert forall|k: int| a + 1 <= k < b implies #[trigger] s[k] != '\\' by {
        assert(s[k] == share[k - a - 1]);
    }
    assert(s[0] == '\\' && s[1] == '\\' && s[2] == '?' && s[3] == '\\');
    assert(s[4] == 'U' && s[5] == 'N' && s[6] == 'C' && s[7] == '\\');
    assert(s[a] == '\\' && s[b] == '\\');
    next_backslash_is_at(s, 8, a);
    next_backslash_is_at(s, a + 1, b);
    assert(is_verbatim_share(s));
}

proof fn next_backslash_is_at(s: Seq<char>, from: int, at: int)
    requires
        0 <= from <= at <= s.len(),
        at < s.len() ==> s[at] == '\\',
        forall|k: int| from <= k < at ==> #[trigger] s[k] != '\\',
    ensures
        next_back(s, from) == at,
{
    next_separator_is_next(s, from);
    let r = next_back(s, from);
    if r < at {
        assert(s[r] != '\\');
    }
    if at < r {
        assert(s[at] == '\\');
    }
}

/// The root of a path on a device is the device and the separator behind it.
pub proof fn root_of_device(device: Seq<char>, rest: Seq<char>)
    requires
        forall|k: int| 0 <= k < device.len() ==> !is_sep(#[trigger] device[k]),
    ensures
        root_len(seq!['\\', '\\', '.', '\\'] + device + seq!['\\'] + rest) == 5 + device.len(),
        !is_verbatim(seq!['\\', '\\', '.', '\\'] + device + seq!['\\'] + rest),
{
    let s = seq!['\\', '\\', '.', '\\'] + device + seq!['\\'] + rest;
    let a = 4 + device.len() as int;
    assert forall|k: int| 4 <= k < a implies !is_sep(#[trigger] s[k]) by {
        assert(s[k] == device[k - 4]);
    }
    assert(s[0] == '\\' && s[1] == '\\' && s[2] == '.' && s[3] == '\\' && s[a] == '\\');
    next_separator_is_at(s, 4, a);
}

/// In a path that is taken as it stands, a slash is part of a name and a dot is a name: what stands
/// behind the root is parted at backslashes alone, and only empty pieces are left out.
pub proof fn verbatim_parts_at_backslashes(a: Seq<char>, b: Seq<char>)
    requires
        forall|k: int| 0 <= k < b.len() ==> #[trigger] b[k] != '\\',
    ensures
        back_pieces(a.push('\\') + b) == back_pieces(a).push(b),
        back_pieces(b) == seq![b],
        b.len() > 0 ==> nonempty_among(seq![b]) == seq![b],
    decreases b.len(),
{
    let front = a.push('\\');
    names_are_picked(seq![], seq![], b);
    if b.len() == 0 {
        assert(front + b =~= front);
        assert(front.drop_last() =~= a);
        assert(b =~= seq![]);
        assert(back_pieces(front) =~= back_pieces(a).push(b));
    } else {
        let c = b.drop_last();
        assert forall|k: int| 0 <= k < c.len() implies #[trigger] c[k] != '\\' by {
            assert(c[k] == b[k]);
        }
        verbatim_parts_at_backslashes(a, c);
        assert(b[b.len() - 1] == b.last());
        assert((front + b).drop_last() =~= front + c);
        assert((front + b).last() == b.last());
        assert(c.push(b.last()) =~= b);
        assert(back_pieces(front + b) =~= back_pieces(a).push(b));
        assert(back_pieces(b) =~= seq![b]);
    }
}

/// What stands behind the last name of a path makes no difference to its directory: a separator, or
/// a separator and a dot.
pub proof fn idle_ends_do_not_count(dir: Seq<char>, name: Seq<char>)
    requires
        is_drive(dir),
        dir.len() >= 3,
        is_sep(dir[2]),
        dir.len() == 3 || (!is_sep(dir.last()) && !(dir.last() == '.' && is_sep(dir[dir.len() - 2]))),
        name.len() > 0,
        name != seq!['.'],
        name != seq!['.', '.'],
        forall|k: int| 0 <= k < name.len() ==> !is_sep(#[trigger] name[k]),
    ensures
        parent_of(joined_path(dir, name) + seq!['\\']) == Some(dir),
        parent_of(joined_path(dir, name) + seq!['\\', '.']) == Some(dir),
        parent_of(dir.take(3)) is None,
{
    let s = joined_path(dir, name);
    parent_and_name_undo_join(dir, name);
    let n = s.len() as int;
    assert(s[0] == dir[0] && s[1] == dir[1] && s[2] == dir[2]);
    root_of_drive(s);
    end_is_idle(s, seq!['\\']);
    end_is_idle(s, seq!['\\', '.']);
    let top = dir.take(3);
    root_of_drive(top);
    assert(name_end(top, 3, 3) == 3);
}

proof fn end_is_idle(s: Seq<char>, end: Seq<char>)
    requires
        is_drive(s),
        s.len() > 3,
        is_sep(s[2]),
        end == seq!['\\'] || end == seq!['\\', '.'],
        parent_of(s) is Some,
    ensures
        parent_of(s + end) == parent_of(s),
{
    let t = s + end;
    let n = s.len() as int;
    assert(t[0] == s[0] && t[1] == s[1] && t[2] == s[2]);
    root_of_drive(s);
    root_of_drive(t);
    assert(t[n] == '\\');
    assert(name_end(t, 3, n + 1) == name_end(t, 3, n));
    if end.len() == 2 {
        assert(t[n + 1] == '.');
        assert(is_idle_dot(t, 3, n + 1));
        assert(name_end(t, 3, n + 2) == name_end(t, 3, n + 1));
    }
    same_beginning(s, t, n);
    let end_at = name_end(s, 3, n);
    let start = name_start(s, 3, end_at);
    name_end_is_before(s, 3, n);
    name_start_is_before(s, 3, end_at);
    same_beginning(s, t, end_at);
    same_beginning(s, t, start);
    name_end_is_before(s, 3, start);
    assert(t.take(name_end(s, 3, start)) =~= s.take(name_end(s, 3, start)));
}

proof fn same_beginning(s: Seq<char>, t: Seq<char>, end: int)
    requires
        is_drive(s),
        is_drive(t),
        s.len() >= 3,
        t.len() >= 3,
        is_sep(s[2]),
        is_sep(t[2]),
        0 <= end <= s.len() <= t.len(),
        forall|k: int| 0 <= k < s.len() ==> #[trigger] s[k] == t[k],
    ensures
        name_end(t, 3, end) == name_end(s, 3, end),
        name_start(t, 3, end) == name_start(s, 3, end),
    decreases end,
{
    root_of_drive(s);
    root_of_drive(t);
    if end > 3 {
        assert(s[end - 1] == t[end - 1]);
        assert(s[end - 2] == t[end - 2]);
        same_beginning(s, t, end - 1);
    }
}

/// Without a root, too, the directory of what lies in a directory is that directory; what lies
/// nowhere has an empty path as its directory.
pub proof fn parent_of_relative(dir: Seq<char>, name: Seq<char>)
    requires
        dir.len() > 0 ==> !is_drive(dir) && !is_sep(dir[0]) && !is_sep(dir.last()) && !(dir.len() > 1
            && dir.last() == '.' && is_sep(dir[dir.len() - 2])),
        dir.len() == 1 ==> name[0] != ':',
        dir.len() == 0 ==> !is_drive(name),
        name.len() > 0,
        name != seq!['.'],
        name != seq!['.', '.'],
        forall|k: int| 0 <= k < name.len() ==> !is_sep(#[trigger] name[k]),
    ensures
        parent_of(joined_path(dir, name)) == Some(dir),
        file_name_of(joined_path(dir, name)) == Some(name),
{
    let s = joined_path(dir, name);
    let n = s.len() as int;
    let d = dir.len() as int;
    let start = n - name.len();
    assert forall|k: int| 0 <= k < d implies #[trigger] s[k] == dir[k] by {}
    assert forall|k: int| start <= k < n implies !is_sep(#[trigger] s[k]) && s[k] == name[k - start] by {
        assert(s[k] == name[k - start]);
    }
    if d > 0 {
        assert(s[d] == '\\');
        assert(s[0] == dir[0]);
    } else {
        assert(s =~= name);
        assert(!is_sep(name[0]));
    }
    assert(!is_drive(s));
    assert(!is_sep(s[0]));
    root_of_relative(s);
    assert(root_len(s) == 0);
    assert(name_end(s, 0, n) == n) by {
        assert(!is_sep(s[n - 1]));
        if is_idle_dot(s, 0, n - 1) {
            assert(n - 1 > 0);
            assert(is_sep(s[n - 2]));
            assert(start == n - 1);
            assert(name[0] == s[n - 1]);
            assert(name =~= seq!['.']);
        }
    }
    start_behind(s, 0, start, n);
    if d == 0 {
        assert(name_end(s, 0, 0) == 0);
        assert(s.take(0) =~= dir);
    } else {
        assert(!is_sep(s[d - 1]));
        if is_idle_dot(s, 0, d - 1) {
            assert(d - 1 > 0);
            assert(is_sep(s[d - 2]));
        }
        assert(name_end(s, 0, d) == d);
        assert(name_end(s, 0, d + 1) == d);
        assert(s.take(d) =~= dir);
    }
    pieces_of_plain(name);
    assert(s.skip(0) =~= s);
    if d == 0 {
        names_are_picked(seq![], seq![], name);
        if name.len() == 1 && name[0] == '.' {
            assert(name =~= seq!['.']);
        }
        assert(names(s) =~= seq![name]);
    } else {
        assert(s =~= dir.push('\\') + name);
        separator_parts(dir, '\\', name);
        names_are_picked(pieces(dir), seq![name], name);
        if name.len() == 1 && name[0] == '.' {
            assert(name =~= seq!['.']);
        }
        assert(names(s).last() == name);
    }
}

/// A dot behind the root stands for nothing: the root with it has no directory, and what lies behind
/// it lies at the root.
pub proof fn dot_behind_root_is_idle(root: Seq<char>, name: Seq<char>)
    requires
        is_drive(root),
        root.len() == 3,
        is_sep(root[2]),
        name.len() > 0,
        name != seq!['.'],
        forall|k: int| 0 <= k < name.len() ==> !is_sep(#[trigger] name[k]),
    ensures
        parent_of(root) is None,
        parent_of(root.push('.')) is None,
        parent_of(root + seq!['.', '\\'] + name) == Some(root),
        names(root.push('.')).len() == 0,
{
    root_of_drive(root);
    assert(name_end(root, 3, 3) == 3);
    let dot = root.push('.');
    assert(dot[0] == root[0] && dot[1] == root[1] && dot[2] == root[2]);
    root_of_drive(dot);
    assert(is_idle_dot(dot, 3, 3));
    assert(name_end(dot, 3, 3) == 3);
    assert(name_end(dot, 3, 4) == 3);
    assert(dot.skip(3) =~= seq!['.']);
    pieces_of_plain(seq!['.']);
    names_are_picked(seq![], seq![], seq!['.']);
    let s = root + seq!['.', '\\'] + name;
    let n = s.len() as int;
    assert(s[0] == root[0] && s[1] == root[1] && s[2] == root[2]);
    assert(s[3] == '.' && s[4] == '\\');
    root_of_drive(s);
    assert forall|k: int| 5 <= k < n implies !is_sep(#[trigger] s[k]) && s[k] == name[k - 5] by {
        assert(s[k] == name[k - 5]);
    }
    assert(name_end(s, 3, n) == n) by {
        assert(!is_sep(s[n - 1]));
        if is_idle_dot(s, 3, n - 1) {
            assert(is_sep(s[n - 2]));
            assert(n == 6);
            assert(name[0] == s[n - 1]);
            assert(name =~= seq!['.']);
        }
    }
    start_behind(s, 3, 5, n);
    assert(is_idle_dot(s, 3, 3));
    assert(name_end(s, 3, 3) == 3);
    assert(name_end(s, 3, 4) == 3);
    assert(name_end(s, 3, 5) == 3);
    assert(s.take(3) =~= root);
}

/// A second separator, or a dot between separators, makes no difference to the directory that
/// something lies in.
pub proof fn idle_middle_does_not_count(dir: Seq<char>, middle: Seq<char>, name: Seq<char>)
    requires
        is_drive(dir),
        dir.len() > 3,
        is_sep(dir[2]),
        !is_sep(dir.last()),
        !(dir.last() == '.' && is_sep(dir[dir.len() - 2])),
        middle == seq!['\\', '\\'] || middle == seq!['\\', '/'] || middle == seq!['\\', '.', '\\'],
        name.len() > 0,
        name != seq!['.'],
        name != seq!['.', '.'],
        forall|k: int| 0 <= k < name.len() ==> !is_sep(#[trigger] name[k]),
    ensures
        parent_of(dir + middle + name) == Some(dir),
        file_name_of(dir + middle + name) == Some(name),
{
    let s = dir + middle + name;
    let n = s.len() as int;
    let d = dir.len() as int;
    let start = n - name.len();
    assert forall|k: int| 0 <= k < d implies #[trigger] s[k] == dir[k] by {}
    assert(s[0] == dir[0] && s[1] == dir[1] && s[2] == dir[2]);
    root_of_drive(s);
    assert forall|k: int| d <= k < start implies #[trigger] s[k] == middle[k - d] by {}
    assert forall|k: int| start <= k < n implies !is_sep(#[trigger] s[k]) && s[k] == name[k - start] by {
        assert(s[k] == name[k - start]);
    }
    assert(is_sep(s[start - 1]));
    assert(name_end(s, 3, n) == n) by {
        assert(!is_sep(s[n - 1]));
        if is_idle_dot(s, 3, n - 1) {
            assert(is_sep(s[n - 2]));
            assert(start == n - 1);
            assert(name[0] == s[n - 1]);
            assert(name =~= seq!['.']);
        }
    }
    start_behind(s, 3, start, n);
    assert(!is_sep(s[d - 1]));
    if is_idle_dot(s, 3, d - 1) {
        assert(s[d - 1] == '.');
        assert(is_sep(s[d - 2]));
    }
    assert(name_end(s, 3, d) == d);
    assert(s[d] == '\\');
    assert(name_end(s, 3, d + 1) == d);
    if middle.len() == 2 {
        assert(is_sep(s[d + 1]));
        assert(name_end(s, 3, d + 2) == d);
    } else {
        assert(s[d + 1] == '.' && s[d + 2] == '\\');
        assert(is_idle_dot(s, 3, d + 1));
        assert(name_end(s, 3, d + 2) == d);
        assert(name_end(s, 3, d + 3) == d);
    }
    assert(s.take(d) =~= dir);
    let last = s[start - 1];
    let front = s.subrange(3, start - 1);
    assert(s.skip(3) =~= front.push(last) + name);
    separator_parts(front, last, name);
    pieces_of_plain(name);
    names_are_picked(pieces(front), seq![name], name);
    if name.len() == 1 && name[0] == '.' {
        assert(name =~= seq!['.']);
    }
    assert(names(s).last() == name);
}

/// A path that ends in `..` has no file name; one that ends in a name with an extension has that name
/// without it as its stem.
pub proof fn stem_of_file(dir: Seq<char>, front: Seq<char>, extension: Seq<char>)
    requires
        is_drive(dir),
        dir.len() >= 3,
        is_sep(dir[2]),
        dir.len() == 3 || (!is_sep(dir.last()) && !(dir.last() == '.' && is_sep(dir[dir.len() - 2]))),
        front.len() > 0,
        extension.len() > 0,
        forall|k: int| 0 <= k < front.len() ==> !is_sep(#[trigger] front[k]),
        forall|k: int| 0 <= k < extension.len() ==> !is_sep(#[trigger] extension[k]) && extension[k] != '.',
    ensures
        file_stem_of(joined_path(dir, front.push('.') + extension)) == Some(front),
        file_stem_of(joined_path(dir, extension)) == Some(extension),
        file_name_of(joined_path(dir, seq!['.', '.'])) is None,
        file_stem_of(joined_path(dir, seq!['.', '.'])) is None,
{
    let name = front.push('.') + extension;
    assert forall|k: int| 0 <= k < name.len() implies !is_sep(#[trigger] name[k]) by {
        if k < front.len() {
            assert(name[k] == front[k]);
        } else if k > front.len() {
            assert(name[k] == extension[k - front.len() - 1]);
        }
    }
    assert(name.len() >= 3);
    parent_and_name_undo_join(dir, name);
    stem_leaves_off_extension(front, extension);
    assert(extension[0] != '.');
    parent_and_name_undo_join(dir, extension);
    let up = seq!['.', '.'];
    let s = joined_path(dir, up);
    assert(s[0] == dir[0] && s[1] == dir[1] && s[2] == dir[2]);
    root_of_drive(s);
    pieces_of_plain(up);
    names_are_picked(seq![], seq![], up);
    if dir.len() == 3 {
        assert(s.skip(3) =~= up);
        assert(names(s) =~= seq![up]);
    } else {
        let body = dir.skip(3);
        assert(s.skip(3) =~= body.push('\\') + up);
        separator_parts(body, '\\', up);
        names_are_picked(pieces(body), seq![up], up);
        assert(names(s).last() == up);
    }
}

/// A server without a share is no root: only the separator in front is.
pub proof fn root_of_server_alone(server: Seq<char>)
    requires
        server.len() > 0,
        server != seq!['?'],
        server != seq!['.'],
        forall|k: int| 0 <= k < server.len() ==> !is_sep(#[trigger] server[k]),
    ensures
        root_len(seq!['\\', '\\'] + server) == 1,
        root_len(seq!['\\', '\\'] + server + seq!['\\']) == 1,
{
    let s = seq!['\\', '\\'] + server;
    let t = s + seq!['\\'];
    let a = 2 + server.len() as int;
    assert forall|k: int| 2 <= k < a implies !is_sep(#[trigger] s[k]) by {
        assert(s[k] == server[k - 2]);
    }
    assert forall|k: int| 2 <= k < a implies !is_sep(#[trigger] t[k]) by {
        assert(t[k] == server[k - 2]);
    }
    assert(s[0] == '\\' && s[1] == '\\');
    assert(t[0] == '\\' && t[1] == '\\' && t[a] == '\\');
    next_separator_is_at(s, 2, a);
    next_separator_is_at(t, 2, a);
    next_separator_is_at(t, a + 1, a + 1);
    if server.len() == 1 {
        if server[0] == '?' {
            assert(server =~= seq!['?']);
        }
        if server[0] == '.' {
            assert(server =~= seq!['.']);
        }
        assert(t[2] == server[0]);
    } else {
        assert(!is_sep(s[3]) && !is_sep(t[3]));
    }
    assert(!names_share(s) && !names_share(t));
    assert(!is_device(s) && !is_device(t));
    assert(!is_verbatim(s) && !is_verbatim(t));
}

/// The file name of a path is its last name, unless that is one dot or two.
pub proof fn dots_are_no_file_names(s: Seq<char>)
    ensures
        names(s).len() == 0 ==> file_name_of(s) is None,
        names(s).len() > 0 ==> ({
            let last = names(s).last();
            let dots = last.len() > 0 && last.len() <= 2 && forall|k: int|
                0 <= k < last.len() ==> #[trigger] last[k] == '.';
            file_name_of(s) == if dots {
                None
            } else {
                Some(last)
            }
        }),
{
    if names(s).len() > 0 {
        let last = names(s).last();
        let dots = last.len() > 0 && last.len() <= 2 && forall|k: int|
            0 <= k < last.len() ==> #[trigger] last[k] == '.';
        if dots {
            if last.len() == 1 {
                assert(last =~= seq!['.']);
            } else {
                assert(last =~= seq!['.', '.']);
            }
        }
    }
}

/// A dot at the beginning of a path without a root is a name like others: behind a bare drive, and in
/// front of everything.
pub proof fn first_dot_is_a_name(drive: Seq<char>)
    requires
        is_drive(drive),
        drive.len() == 2,
    ensures
        parent_of(drive) is None,
        parent_of(drive.push('.')) == Some(drive),
        parent_of(seq!['.']) == Some(Seq::<char>::empty()),
{
    root_of_drive(drive);
    assert(name_end(drive, 2, 2) == 2);
    let s = drive.push('.');
    assert(s[0] == drive[0] && s[1] == drive[1] && s[2] == '.');
    root_of_drive(s);
    assert(!is_idle_dot(s, 2, 2));
    assert(name_end(s, 2, 3) == 3);
    start_behind(s, 2, 2, 3);
    assert(name_end(s, 2, 2) == 2);
    assert(s.take(2) =~= drive);
    let dot = seq!['.'];
    root_of_relative(dot);
    assert(!is_idle_dot(dot, 0, 0));
    assert(name_end(dot, 0, 1) == 1);
    start_behind(dot, 0, 0, 1);
    assert(name_end(dot, 0, 0) == 0);
    assert(dot.take(0) =~= Seq::<char>::empty());
}

/// The root of a path that is taken as it stands and names neither a share nor a drive goes up to the
/// first backslash behind `\\?\`; one that names a server alone ends with it.
pub proof fn root_of_verbatim_other(first: Seq<char>, rest: Seq<char>)
    requires
        first.len() > 0,
        forall|k: int| 0 <= k < first.len() ==> #[trigger] first[k] != '\\',
    ensures
        first[0] != 'U' && (first.len() < 2 || first[1] != ':') ==> root_len(
            seq!['\\', '\\', '?', '\\'] + first + seq!['\\'] + rest,
        ) == 5 + first.len(),
        root_len(seq!['\\', '\\', '?', '\\', 'U', 'N', 'C', '\\'] + first) == 8 + first.len(),
{
    let s = seq!['\\', '\\', '?', '\\'] + first + seq!['\\'] + rest;
    let a = 4 + first.len() as int;
    assert forall|k: int| 4 <= k < a implies #[trigger] s[k] != '\\' by {
        assert(s[k] == first[k - 4]);
    }
    assert(s[0] == '\\' && s[1] == '\\' && s[2] == '?' && s[3] == '\\' && s[a] == '\\');
    if first[0] != 'U' && (first.len() < 2 || first[1] != ':') {
        assert(s[4] == first[0]);
        next_backslash_is_at(s, 4, a);
        if is_drive(s.skip(4)) {
            assert(s.skip(4)[1] == s[5]);
            if first.len() >= 2 {
                assert(s[5] == first[1]);
            } else {
                assert(s[5] == '\\');
            }
        }
    }
    let t = seq!['\\', '\\', '?', '\\', 'U', 'N', 'C', '\\'] + first;
    let b = 8 + first.len() as int;
    assert forall|k: int| 8 <= k < b implies #[trigger] t[k] != '\\' by {
        assert(t[k] == first[k - 8]);
    }
    assert(t[0] == '\\' && t[1] == '\\' && t[2] == '?' && t[3] == '\\');
    assert(t[4] == 'U' && t[5] == 'N' && t[6] == 'C' && t[7] == '\\');
    next_backslash_is_at(t, 8, b);
    assert(t.len() == b);
    assert(next_back(t, b + 1) == b + 1);
}

/// Either slash serves in front of a device and of a share, and behind them.
pub proof fn either_slash_makes_a_root(s: Seq<char>, a: int, b: int)
    requires
        s.len() >= 4,
        s[0] == '\\' || s[0] == '/',
        s[1] == '\\' || s[1] == '/',
        !(s[0] == '\\' && s[1] == '\\' && s[2] == '?' && s[3] == '\\'),
    ensures
        s[2] == '.' && (s[3] == '\\' || s[3] == '/') && 4 <= a < s.len() && (s[a] == '\\' || s[a] == '/')
            && (forall|k: int| 4 <= k < a ==> !is_sep(#[trigger] s[k])) ==> root_len(s) == a + 1,
        !(s[2] == '.' && (s[3] == '\\' || s[3] == '/')) && 2 < a && a + 1 < b < s.len() && (s[a] == '\\'
            || s[a] == '/') && (s[b] == '\\' || s[b] == '/') && (forall|k: int|
            2 <= k < b && k != a ==> !is_sep(#[trigger] s[k])) ==> root_len(s) == b + 1,
{
    if s[2] == '.' && (s[3] == '\\' || s[3] == '/') {
        if 4 <= a < s.len() && is_sep(s[a]) && (forall|k: int| 4 <= k < a ==> !is_sep(#[trigger] s[k])) {
            next_separator_is_at(s, 4, a);
        }
    } else if 2 < a && a + 1 < b < s.len() && is_sep(s[a]) && is_sep(s[b]) && (forall|k: int|
        2 <= k < b && k != a ==> !is_sep(#[trigger] s[k])) {
        next_separator_is_at(s, 2, a);
        next_separator_is_at(s, a + 1, b);
        assert(names_share(s));
    }
}

/// Behind a drive in a path that is taken as it stands either slash ends the root, and so does the end
/// of the path; any other character makes the drive part of a longer name.
pub proof fn end_of_verbatim_drive(s: Seq<char>, at: int)
    requires
        s.len() >= 6,
        s[0] == '\\' && s[1] == '\\' && s[2] == '?' && s[3] == '\\',
        'A' <= s[4] <= 'Z' || 'a' <= s[4] <= 'z',
        s[5] == ':',
    ensures
        s.len() == 6 ==> root_len(s) == 6,
        s.len() > 6 && (s[6] == '\\' || s[6] == '/') ==> root_len(s) == 7,
        s.len() > 6 && s[6] != '\\' && s[6] != '/' && 6 < at < s.len() && s[at] == '\\' && (forall|k: int|
            6 <= k < at ==> #[trigger] s[k] != '\\') ==> root_len(s) == at + 1,
{
    assert(s.skip(4)[0] == s[4] && s.skip(4)[1] == s[5]);
    assert(!is_verbatim_share(s));
    if s.len() > 6 && !is_sep(s[6]) && 6 < at < s.len() && s[at] == '\\' && (forall|k: int|
        6 <= k < at ==> #[trigger] s[k] != '\\') {
        assert forall|k: int| 4 <= k < at implies #[trigger] s[k] != '\\' by {
            if k >= 6 {
                assert(s[k] != '\\');
            }
        }
        next_backslash_is_at(s, 4, at);
    }
}

} // verus!
