//! Registry values as text: UTF-16 in both directions, and what a query of a value amounts to.
use vstd::prelude::*;
use vstd::string::*;

use crate::text;

verus! {

/// Type tag of a plain text value.
pub const REG_SZ: u32 = 1;

/// Type tag of a text value that may hold environment references.
pub const REG_EXPAND_SZ: u32 = 2;

/// The registry hives that the launcher looks into.
#[derive(Debug, Clone, Copy, PartialEq, Eq, Structural)]
pub enum Hive {
    CurrentUser,
    LocalMachine,
    ClassesRoot,
}

/// A character by its number, as `char::from_u32` documents: every number up to `0x10ffff` but
/// the surrogates stands for one.
pub assume_specification[ char::from_u32 ](i: u32) -> (r: Option<char>)
    ensures
        r == (if i <= 0x10ffff && !(0xd800 <= i <= 0xdfff) {
            Some(i as char)
        } else {
            None
        }),
;

pub open spec fn is_surrogate(u: u16) -> bool {
    0xd800 <= u <= 0xdfff
}

pub open spec fn is_high(u: u16) -> bool {
    0xd800 <= u <= 0xdbff
}

pub open spec fn is_low(u: u16) -> bool {
    0xdc00 <= u <= 0xdfff
}

/// The code units of one character.
pub open spec fn encode_char(c: char) -> Seq<u16> {
    let u = c as u32;
    if u < 0x10000 {
        seq![u as u16]
    } else {
        seq![(0xd800 + (u - 0x10000) / 0x400) as u16, (0xdc00 + (u - 0x10000) % 0x400) as u16]
    }
}

pub open spec fn encode_utf16(s: Seq<char>) -> Seq<u16>
    decreases s.len(),
{
    if s.len() == 0 {
        seq![]
    } else {
        encode_utf16(s.drop_last()) + encode_char(s.last())
    }
}

/// The character that a high and a low surrogate stand for.
pub open spec fn paired(high: u16, low: u16) -> char {
    (0x10000 + (high - 0xd800) * 0x400 + (low - 0xdc00)) as u32 as char
}

pub const REPLACEMENT: char = '\u{FFFD}';

/// The text of a sequence of code units; a surrogate without its partner becomes the replacement
/// character.
pub open spec fn decode_utf16(u: Seq<u16>) -> Seq<char>
    decreases u.len(),
{
    if u.len() == 0 {
        seq![]
    } else if !is_surrogate(u[0]) {
        seq![u[0] as char] + decode_utf16(u.skip(1))
    } else if is_high(u[0]) && u.len() >= 2 && is_low(u[1]) {
        seq![paired(u[0], u[1])] + decode_utf16(u.skip(2))
    } else {
        seq![REPLACEMENT] + decode_utf16(u.skip(1))
    }
}

/// The code units of a byte sequence, low byte first; an odd byte at the end is left out.
pub open spec fn units_of(bytes: Seq<u8>) -> Seq<u16> {
    Seq::new(bytes.len() / 2, |i: int| (bytes[2 * i] + 256 * bytes[2 * i + 1]) as u16)
}

/// The bytes of a sequence of code units, low byte first.
pub open spec fn bytes_of(units: Seq<u16>) -> Seq<u8> {
    Seq::new(
        2 * units.len(),
        |i: int|
            if i % 2 == 0 {
                (units[i / 2] % 256) as u8
            } else {
                (units[i / 2] / 256) as u8
            },
    )
}

/// The text that a value of the given type holds; none where the type is not text.
pub open spec fn value_text(kind: u32, data: Seq<u8>) -> Option<Seq<char>> {
    if kind == REG_SZ || kind == REG_EXPAND_SZ {
        Some(text::trim_end_of(decode_utf16(units_of(data)), seq!['\0']))
    } else {
        None
    }
}

/// What the system answered to a query of one value.
pub struct Query {
    /// Whether the key could be opened for reading.
    pub opened: bool,
    /// The size of the value in bytes, where the value exists.
    pub size: Option<u32>,
    /// Type and data of the value, where reading it succeeded.
    pub filled: Option<(u32, Vec<u8>)>,
}

impl Query {
    /// The text that the query found.
    pub open spec fn found(self) -> Option<Seq<char>> {
        if !self.opened || self.size is None || self.size == Some(0u32) {
            None
        } else {
            match self.filled {
                Some((kind, data)) => value_text(kind, data@),
                None => None,
            }
        }
    }
}

/// A text as NUL-terminated UTF-16.
pub fn wide(s: &str) -> (r: Vec<u16>)
    ensures
        r@ == encode_utf16(s@).push(0),
{
    let mut r: Vec<u16> = Vec::new();
    for c in it: s.chars()
        invariant
            it.seq() == s@,
            r@ == encode_utf16(s@.take(it.index() as int)),
    {
        let u: u32 = c as u32;
        proof {
            assert(s@.take(it.index() + 1).drop_last() =~= s@.take(it.index() as int));
            assert(s@.take(it.index() + 1).last() == c);
        }
        let ghost before = r@;
        if u < 0x10000 {
            r.push(u as u16);
            assert(r@ =~= before + encode_char(c));
        } else {
            r.push((0xd800 + (u - 0x10000) / 0x400) as u16);
            r.push((0xdc00 + (u - 0x10000) % 0x400) as u16);
            assert(r@ =~= before + encode_char(c));
        }
    }
    assert(s@.take(s@.len() as int) =~= s@);
    r.push(0);
    r
}

/// The text of UTF-16 code units, with replacement characters where they are malformed.
pub fn from_wide(units: &Vec<u16>) -> (r: String)
    ensures
        r@ == decode_utf16(units@),
{
    let mut r = String::new();
    let mut i: usize = 0;
    assert(units@.skip(0) =~= units@);
    while i < units.len()
        invariant
            i <= units@.len(),
            r@ + decode_utf16(units@.skip(i as int)) =~= decode_utf16(units@),
        decreases units@.len() - i,
    {
        let a: u16 = units[i];
        let ghost rest = units@.skip(i as int);
        let ghost before = r@;
        proof {
            assert(rest.skip(1) =~= units@.skip(i + 1));
            assert(rest[0] == a);
        }
        if a < 0xd800 || a > 0xdfff {
            match char::from_u32(a as u32) {
                Some(c) => {
                    r.push(c);
                },
                None => {},
            }
            assert(r@ =~= before + seq![a as char]);
            i = i + 1;
        } else if a <= 0xdbff && i + 1 < units.len() && 0xdc00 <= units[i + 1] && units[i + 1] <= 0xdfff {
            let b: u16 = units[i + 1];
            proof {
                assert(rest[1] == b);
                assert(rest.skip(2) =~= units@.skip(i + 2));
            }
            match char::from_u32(0x10000 + (a as u32 - 0xd800) * 0x400 + (b as u32 - 0xdc00)) {
                Some(c) => {
                    r.push(c);
                },
                None => {},
            }
            assert(r@ =~= before + seq![paired(a, b)]);
            i = i + 2;
        } else {
            r.push(REPLACEMENT);
            assert(i + 1 < units@.len() ==> rest[1] == units@[i + 1]);
            assert(r@ =~= before + seq![REPLACEMENT]);
            i = i + 1;
        }
    }
    assert(decode_utf16(units@.skip(i as int)) =~= seq![]);
    r
}

fn units(bytes: &Vec<u8>) -> (r: Vec<u16>)
    ensures
        r@ == units_of(bytes@),
{
    let mut r: Vec<u16> = Vec::new();
    let len: usize = bytes.len();
    let n: usize = len / 2;
    let mut i: usize = 0;
    while i < n
        invariant
            len == bytes@.len(),
            n == len / 2,
            i <= n,
            r@ =~= units_of(bytes@).take(i as int),
        decreases n - i,
    {
        assert(2 * i + 1 < len);
        r.push(bytes[2 * i] as u16 + 256 * (bytes[2 * i + 1] as u16));
        i = i + 1;
    }
    assert(units_of(bytes@).take(n as int) =~= units_of(bytes@));
    r
}

/// Reads a text value: what a query of it amounts to.
pub fn read_string(query: &Query) -> (r: Option<String>)
    ensures
        r.deep_view() == query.found(),
{
    if !query.opened {
        return None;
    }
    match query.size {
        None => None,
        Some(size) => {
            if size == 0 {
                return None;
            }
            match &query.filled {
                None => None,
                Some((kind, data)) => {
                    if *kind != REG_SZ && *kind != REG_EXPAND_SZ {
                        return None;
                    }
                    let nul: Vec<char> = vec!['\0'];
                    assert(nul@ =~= seq!['\0']);
                    let full = from_wide(&units(data));
                    Some(text::trim_end_chars(full.as_str(), &nul))
                },
            }
        },
    }
}

/// The data of a plain text value that holds `data`.
pub fn set_string(data: &str) -> (r: Vec<u8>)
    ensures
        r@ == bytes_of(encode_utf16(data@).push(0)),
{
    let w = wide(data);
    let mut r: Vec<u8> = Vec::new();
    let mut i: usize = 0;
    while i < w.len()
        invariant
            i <= w@.len(),
            r@ =~= bytes_of(w@.take(i as int)),
        decreases w@.len() - i,
    {
        r.push((w[i] % 256) as u8);
        r.push((w[i] / 256) as u8);
        i = i + 1;
    }
    assert(w@.take(w@.len() as int) =~= w@);
    r
}

/// The system's code for success.
pub const ERROR_SUCCESS: u32 = 0;

/// The system's code for a value that is not there.
pub const ERROR_FILE_NOT_FOUND: u32 = 2;

/// Whether a value was written: whether its key could be opened, and the code of the write.
pub fn value_written(opened: bool, code: u32) -> (r: bool)
    ensures
        r == (opened && code == ERROR_SUCCESS),
{
    opened && code == ERROR_SUCCESS
}

/// Whether a value is gone: whether its key could be opened, and the code of the removal. A value
/// that was not there is gone, too.
pub fn delete_value(opened: bool, code: u32) -> (r: bool)
    ensures
        r == (opened && (code == ERROR_SUCCESS || code == ERROR_FILE_NOT_FOUND)),
{
    opened && (code == ERROR_SUCCESS || code == ERROR_FILE_NOT_FOUND)
}

proof fn encode_concat(a: Seq<char>, b: Seq<char>)
    ensures
        encode_utf16(a + b) == encode_utf16(a) + encode_utf16(b),
    decreases b.len(),
{
    if b.len() == 0 {
        assert(a + b =~= a);
        assert(encode_utf16(a) + encode_utf16(b) =~= encode_utf16(a));
    } else {
        encode_concat(a, b.drop_last());
        assert((a + b).drop_last() =~= a + b.drop_last());
        assert((a + b).last() == b.last());
        assert(encode_utf16(a) + encode_utf16(b) =~= (encode_utf16(a) + encode_utf16(b.drop_last()))
            + encode_char(b.last()));
    }
}

proof fn encode_one(c: char)
    ensures
        encode_utf16(seq![c]) == encode_char(c),
{
    let none: Seq<char> = seq![];
    assert(encode_utf16(none) =~= seq![]);
    assert(seq![c].drop_last() =~= none);
    assert(encode_utf16(seq![c]) =~= encode_char(c));
}

proof fn decode_char(c: char, rest: Seq<u16>)
    ensures
        decode_utf16(encode_char(c) + rest) == seq![c] + decode_utf16(rest),
{
    let all = encode_char(c) + rest;
    if (c as u32) < 0x10000 {
        assert(all.skip(1) =~= rest);
        assert(all[0] as char == c);
    } else {
        assert(all.skip(2) =~= rest);
        assert(all[0] == encode_char(c)[0]);
        assert(all[1] == encode_char(c)[1]);
        assert(paired(all[0], all[1]) == c);
    }
}

/// Every text survives the way to UTF-16 and back.
pub proof fn utf16_roundtrip(s: Seq<char>)
    ensures
        decode_utf16(encode_utf16(s)) == s,
    decreases s.len(),
{
    if s.len() > 0 {
        let head = seq![s[0]];
        let tail = s.skip(1);
        assert(s =~= head + tail);
        encode_concat(head, tail);
        encode_one(s[0]);
        utf16_roundtrip(tail);
        decode_char(s[0], encode_utf16(tail));
        assert(seq![s[0]] + tail =~= s);
    }
}

/// The bytes of code units give the same code units back.
pub proof fn bytes_roundtrip(units: Seq<u16>)
    ensures
        units_of(bytes_of(units)) == units,
{
    let b = bytes_of(units);
    assert forall|i: int| 0 <= i < units.len() implies #[trigger] units_of(b)[i] == units[i] by {
        assert(b[2 * i] == (units[i] % 256) as u8);
        assert(b[2 * i + 1] == (units[i] / 256) as u8);
    }
    assert(units_of(b) =~= units);
}

proof fn trim_nul_push(s: Seq<char>)
    ensures
        text::trim_end_of(s.push('\0'), seq!['\0']) == text::trim_end_of(s, seq!['\0']),
{
    assert(seq!['\0'][0] == '\0');
    assert(s.push('\0').drop_last() =~= s);
}

/// Reading a value gives back the text that was written, trailing NULs apart.
pub proof fn written_value_reads_back(data: Seq<char>)
    ensures
        value_text(REG_SZ, bytes_of(encode_utf16(data).push(0))) == Some(
            text::trim_end_of(data, seq!['\0']),
        ),
{
    bytes_roundtrip(encode_utf16(data).push(0));
    let nul = seq!['\0'];
    encode_concat(data, nul);
    encode_one('\0');
    assert(encode_utf16(nul) =~= seq![0u16]);
    assert(encode_utf16(data).push(0) =~= encode_utf16(data + nul));
    utf16_roundtrip(data + nul);
    assert(data + nul =~= data.push('\0'));
    trim_nul_push(data);
}

proof fn text_never_begins_low(t: Seq<char>)
    ensures
        encode_utf16(t).len() > 0 ==> !is_low(encode_utf16(t)[0]),
    decreases t.len(),
{
    if t.len() > 0 {
        let head = seq![t[0]];
        let tail = t.skip(1);
        assert(t =~= head + tail);
        encode_concat(head, tail);
        encode_one(t[0]);
        assert(encode_utf16(t)[0] == encode_char(t[0])[0]);
        decode_char(t[0], seq![]);
        let u = t[0] as u32;
        if u >= 0x10000 {
            assert((u - 0x10000) / 0x400 < 0x400);
        } else {
            assert(encode_char(t[0])[0] as char == t[0]);
            assert(!(0xd800 <= u <= 0xdfff));
        }
    }
}

proof fn decode_behind_text(s: Seq<char>, rest: Seq<u16>)
    ensures
        decode_utf16(encode_utf16(s) + rest) == s + decode_utf16(rest),
    decreases s.len(),
{
    if s.len() > 0 {
        let head = seq![s[0]];
        let tail = s.skip(1);
        assert(s =~= head + tail);
        encode_concat(head, tail);
        encode_one(s[0]);
        decode_behind_text(tail, rest);
        decode_char(s[0], encode_utf16(tail) + rest);
        assert(encode_utf16(s) + rest =~= encode_char(s[0]) + (encode_utf16(tail) + rest));
        assert(s + decode_utf16(rest) =~= seq![s[0]] + (tail + decode_utf16(rest)));
    } else {
        assert(encode_utf16(s) + rest =~= rest);
        assert(s + decode_utf16(rest) =~= decode_utf16(rest));
    }
}

/// Half of a pair that stands alone becomes one replacement character, and spoils nothing before or
/// behind it.
pub proof fn lone_surrogate_is_replaced(before: Seq<char>, lone: u16, after: Seq<char>)
    requires
        0xd800 <= lone <= 0xdfff,
    ensures
        decode_utf16(encode_utf16(before) + seq![lone] + encode_utf16(after)) == before + seq!['\u{FFFD}']
            + after,
{
    let rest = seq![lone] + encode_utf16(after);
    text_never_begins_low(after);
    decode_behind_text(before, rest);
    assert(encode_utf16(before) + seq![lone] + encode_utf16(after) =~= encode_utf16(before) + rest);
    assert(rest[0] == lone);
    assert(rest.skip(1) =~= encode_utf16(after));
    if rest.len() > 1 {
        assert(rest[1] == encode_utf16(after)[0]);
    }
    utf16_roundtrip(after);
    assert(decode_utf16(rest) == seq!['\u{FFFD}'] + after);
    assert(before + (seq!['\u{FFFD}'] + after) =~= before + seq!['\u{FFFD}'] + after);
}

/// An odd byte at the end of a value is passed over.
pub proof fn odd_byte_does_not_count(bytes: Seq<u8>, odd: u8)
    requires
        bytes.len() % 2 == 0,
    ensures
        units_of(bytes.push(odd)) == units_of(bytes),
{
    let all = bytes.push(odd);
    assert forall|i: int| 0 <= i < units_of(bytes).len() implies #[trigger] units_of(all)[i] == units_of(
        bytes,
    )[i] by {
        assert(all[2 * i] == bytes[2 * i]);
        assert(all[2 * i + 1] == bytes[2 * i + 1]);
    }
    assert(units_of(all) =~= units_of(bytes));
}

/// What a query finds: a text where there is one of the two kinds of text values, and what either
/// kind holds is read alike; nothing where the key cannot be opened, or the value is missing or
/// empty, or cannot be read, or is of another kind. NULs at the end are no part of the text, and
/// nothing else is left out.
pub proof fn query_finds_text(query: Query, kind: u32, data: Vec<u8>)
    ensures
        !query.opened || query.size is None || query.size == Some(0u32) || query.filled is None
            ==> query.found() is None,
        query.opened && query.size is Some && query.size->0 > 0 && query.filled == Some((kind, data)) ==> {
            &&& query.found() is Some == (kind == 1 || kind == 2)
            &&& query.found() matches Some(t) ==> {
                &&& t.is_prefix_of(decode_utf16(units_of(data@)))
                &&& t.len() > 0 ==> t.last() != '\0'
                &&& forall|k: int|
                    t.len() <= k < decode_utf16(units_of(data@)).len() ==> #[trigger] decode_utf16(
                        units_of(data@),
                    )[k] == '\0'
            }
        },
{
    let full = decode_utf16(units_of(data@));
    let set = seq!['\0'];
    text::end_is_cut_off(full, set);
    assert(set[0] == '\0');
    let t = text::trim_end_of(full, set);
    assert(t =~= full.subrange(0, t.len() as int));
    assert forall|k: int| t.len() <= k < full.len() implies #[trigger] full[k] == '\0' by {
        assert(set.contains(full[k]));
    }
    if t.len() > 0 && t.last() == '\0' {
        assert(set.contains(t.last()));
    }
}

/// How text is laid out in a value: a character below 2^16 is its own number; any other is two halves
/// of ten bits each, the higher half first; and of each number the lower byte comes first.
pub proof fn text_is_laid_out(c: char, units: Seq<u16>, i: int)
    requires
        0 <= i < units.len(),
    ensures
        (c as u32) < 0x10000 ==> encode_utf16(seq![c]) == seq![c as u16],
        (c as u32) >= 0x10000 ==> {
            let e = encode_utf16(seq![c]);
            &&& e.len() == 2
            &&& 0xd800 <= e[0] <= 0xdbff
            &&& 0xdc00 <= e[1] <= 0xdfff
            &&& 0x10000 + (e[0] - 0xd800) * 0x400 + (e[1] - 0xdc00) == c as u32
        },
        bytes_of(units).len() == 2 * units.len(),
        bytes_of(units)[2 * i] + 256 * bytes_of(units)[2 * i + 1] == units[i],
{
    encode_one(c);
    let u = c as u32;
    if u >= 0x10000 {
        assert((u - 0x10000) / 0x400 < 0x400);
        assert((u - 0x10000) % 0x400 < 0x400);
    } else {
        assert(encode_utf16(seq![c]) =~= seq![c as u16]);
    }
    let b = bytes_of(units);
    assert(b[2 * i] == (units[i] % 256) as u8);
    assert(b[2 * i + 1] == (units[i] / 256) as u8);
}

/// Code units are read one after the other: one that is no surrogate is a character of its own, a high
/// and a low one together are one character, and every other surrogate is replaced by itself alone.
pub proof fn units_are_read_in_turn(first: u16, rest: Seq<u16>)
    ensures
        !(0xd800 <= first <= 0xdfff) ==> decode_utf16(seq![first] + rest) == seq![first as char]
            + decode_utf16(rest),
        0xd800 <= first <= 0xdfff && !(first <= 0xdbff && rest.len() > 0 && 0xdc00 <= rest[0] <= 0xdfff)
            ==> decode_utf16(seq![first] + rest) == seq!['\u{FFFD}'] + decode_utf16(rest),
        0xd800 <= first <= 0xdbff && rest.len() > 0 && 0xdc00 <= rest[0] <= 0xdfff ==> decode_utf16(
            seq![first] + rest,
        ).len() == 1 + decode_utf16(rest.skip(1)).len(),
{
    let all = seq![first] + rest;
    assert(all[0] == first);
    assert(all.skip(1) =~= rest);
    if rest.len() > 0 {
        assert(all[1] == rest[0]);
        assert(all.skip(2) =~= rest.skip(1));
    }
}

} // verus!
