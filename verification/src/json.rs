//! JSON documents (the decoded ASN.1 of RRC messages) and the dotted paths that pick a
//! field out of them, such as `message.c1.plmn-IdentityList[0].mcc`.

use vstd::prelude::*;
use crate::text::{
    chars_of, find_char_from, first_char_or_len, join, lemma_find_is_first, occurs_at, owned,
    parse_usize, spec_parse_usize, str_eq,
};

verus! {

/// A JSON value, with the two texts that a JSON writer gives of it.
#[derive(Debug)]
pub struct Json {
    /// The value
    pub value: JsonValue,
    /// The value written as compact JSON
    pub compact: String,
    /// The value written as indented JSON
    pub pretty: String,
}

/// The kinds of JSON values.
#[derive(Debug)]
pub enum JsonValue {
    /// `null`
    Null,
    /// A boolean
    Bool(bool),
    /// A number (its text is the compact text of the value)
    Number,
    /// A string
    Str(String),
    /// An array
    Array(Vec<Json>),
    /// An object: its fields, each name once
    Object(Vec<(String, Json)>),
}

/// The value of the first field named `key`, if any.
pub open spec fn lookup(entries: Seq<(String, Json)>, key: Seq<char>, i: int) -> Option<Json>
    decreases entries.len() - i,
{
    if i < 0 || i >= entries.len() {
        None
    } else if entries[i].0@ == key {
        Some(entries[i].1)
    } else {
        lookup(entries, key, i + 1)
    }
}

/// The field `key` of an object (`Value::get`); nothing for other values.
pub open spec fn get_key(j: Json, key: Seq<char>) -> Option<Json> {
    match j.value {
        JsonValue::Object(entries) => lookup(entries@, key, 0),
        _ => None,
    }
}

/// The field `key` of an object, if any.
pub fn get_field<'a>(j: &'a Json, key: &str) -> (r: Option<&'a Json>)
    ensures
        match r {
            Some(v) => get_key(*j, key@) == Some(*v),
            None => get_key(*j, key@) is None,
        },
{
    match &j.value {
        JsonValue::Object(entries) => {
            let n = entries.len();
            let mut i: usize = 0;
            while i < n
                invariant
                    n == entries@.len(),
                    j.value == JsonValue::Object(*entries),
                    i <= n,
                    lookup(entries@, key@, 0) == lookup(entries@, key@, i as int),
                decreases n - i,
            {
                if str_eq(entries[i].0.as_str(), key) {
                    return Some(&entries[i].1);
                }
                i = i + 1;
            }
            None
        },
        _ => None,
    }
}

/// The pieces of `s` between the occurrences of `c` (`s.split(c)`).
pub open spec fn spec_split(s: Seq<char>, c: char) -> Seq<Seq<char>>
    decreases s.len(),
{
    let j = first_char_or_len(s, c);
    if 0 <= j < s.len() {
        seq![s.subrange(0, j)] + spec_split(s.subrange(j + 1, s.len() as int), c)
    } else {
        seq![s]
    }
}

/// A piece of a path that can be stepped through: where it has a `[`, the first `[` is
/// not its last character and its last character is ASCII.
pub open spec fn part_ok(part: Seq<char>) -> bool {
    first_char_or_len(part, '[') < part.len() ==> {
        &&& first_char_or_len(part, '[') + 1 <= part.len() - 1
        &&& (part.last() as u32) < 128
    }
}

/// Every piece of the path can be stepped through.
pub open spec fn path_ok(path: Seq<char>) -> bool {
    forall|k: int| 0 <= k < spec_split(path, '.').len() ==> part_ok(#[trigger] spec_split(path, '.')[k])
}

/// One step of a path: `name` picks a field; `name[i]` picks a field, which must be an
/// array, then its item `i`.
pub open spec fn path_step(j: Json, part: Seq<char>) -> Option<Json> {
    let b = first_char_or_len(part, '[');
    if b < part.len() {
        let name = part.subrange(0, b);
        let index_str = part.subrange(b + 1, part.len() - 1);
        match get_key(j, name) {
            Some(f) => match f.value {
                JsonValue::Array(items) => match spec_parse_usize(index_str) {
                    Some(i) => if i < items@.len() {
                        Some(items@[i as int])
                    } else {
                        None
                    },
                    None => None,
                },
                _ => None,
            },
            None => None,
        }
    } else {
        get_key(j, part)
    }
}

/// Where a path leads, if anywhere.
pub open spec fn walk(j: Json, parts: Seq<Seq<char>>) -> Option<Json>
    decreases parts.len(),
{
    if parts.len() == 0 {
        Some(j)
    } else {
        match walk(j, parts.drop_last()) {
            Some(c) => path_step(c, parts.last()),
            None => None,
        }
    }
}

/// The pieces of `s` between the occurrences of `c`.
pub fn split_char<'a>(s: &'a str, c: char) -> (r: Vec<&'a str>)
    ensures
        r@.len() == spec_split(s@, c).len(),
        forall|k: int| 0 <= k < r@.len() ==> (#[trigger] r@[k])@ == spec_split(s@, c)[k],
{
    let v = chars_of(s);
    let n = v.len();
    let mut out: Vec<&'a str> = Vec::new();
    let ghost mut got: Seq<Seq<char>> = Seq::empty();
    let mut start: usize = 0;
    assert(v@.subrange(0, n as int) =~= v@);
    loop
        invariant
            n == v@.len(),
            v@ == s@,
            start <= n,
            out@.len() == got.len(),
            forall|k: int| 0 <= k < out@.len() ==> (#[trigger] out@[k])@ == got[k],
            got + spec_split(v@.subrange(start as int, n as int), c) == spec_split(s@, c),
        decreases n - start,
    {
        let j = find_char_from(&v, c, start);
        let ghost rest = v@.subrange(start as int, n as int);
        if j < n {
            proof {
                assert(rest.subrange(0, j - start) =~= s@.subrange(start as int, j as int));
                assert(rest.subrange(j - start + 1, rest.len() as int) =~= v@.subrange(j + 1, n as int));
                assert(got.push(s@.subrange(start as int, j as int)) + spec_split(v@.subrange(j + 1, n as int), c)
                    =~= got + spec_split(rest, c));
            }
            out.push(s.substring_char(start, j));
            proof {
                got = got.push(s@.subrange(start as int, j as int));
            }
            start = j + 1;
        } else {
            proof {
                assert(rest =~= s@.subrange(start as int, n as int));
                assert(got.push(rest) =~= got + spec_split(rest, c));
            }
            out.push(s.substring_char(start, n));
            proof {
                got = got.push(rest);
            }
            assert(got =~= spec_split(s@, c));
            return out;
        }
    }
}

/// Whether every piece of the path can be stepped through.
pub fn path_is_ok(path: &str) -> (r: bool)
    ensures
        r == path_ok(path@),
{
    let parts = split_char(path, '.');
    let ghost ps = spec_split(path@, '.');
    let n = parts.len();
    let mut k: usize = 0;
    while k < n
        invariant
            n == ps.len(),
            n == parts@.len(),
            ps == spec_split(path@, '.'),
            forall|m: int| 0 <= m < n ==> (#[trigger] parts@[m])@ == ps[m],
            k <= n,
            forall|m: int| 0 <= m < k ==> part_ok(#[trigger] ps[m]),
        decreases n - k,
    {
        let pv = chars_of(parts[k]);
        let plen = pv.len();
        let b = find_char_from(&pv, '[', 0);
        assert(pv@.subrange(0, plen as int) =~= pv@);
        assert(pv@ == ps[k as int]);
        if b < plen {
            if b + 1 > plen - 1 || (pv[plen - 1] as u32) >= 128 {
                assert(!part_ok(ps[k as int]));
                return false;
            }
        }
        k = k + 1;
    }
    true
}

/// A walk that stops on a prefix of the path stops on the whole path.
pub proof fn lemma_walk_stops(j: Json, parts: Seq<Seq<char>>, m: int)
    requires
        0 <= m <= parts.len(),
        walk(j, parts.take(m)) is None,
    ensures
        walk(j, parts) is None,
    decreases parts.len(),
{
    if m == parts.len() {
        assert(parts.take(m) =~= parts);
    } else {
        assert(parts.drop_last().take(m) =~= parts.take(m));
        lemma_walk_stops(j, parts.drop_last(), m);
    }
}

/// Where `path` leads in `json`, if anywhere (see `path_step`).
pub fn walk_path<'a>(json: &'a Json, path: &str) -> (r: Option<&'a Json>)
    requires
        path_ok(path@),
    ensures
        match r {
            Some(v) => walk(*json, spec_split(path@, '.')) == Some(*v),
            None => walk(*json, spec_split(path@, '.')) is None,
        },
{
    let parts = split_char(path, '.');
    let ghost ps = spec_split(path@, '.');
    let n = parts.len();
    let mut current: &Json = json;
    let mut k: usize = 0;
    while k < n
        invariant
            n == ps.len(),
            n == parts@.len(),
            ps == spec_split(path@, '.'),
            path_ok(path@),
            forall|m: int| 0 <= m < n ==> (#[trigger] parts@[m])@ == ps[m],
            k <= n,
            walk(*json, ps.take(k as int)) == Some(*current),
        decreases n - k,
    {
        proof {
            assert(ps.take(k + 1).drop_last() =~= ps.take(k as int));
            assert(ps.take(k + 1).last() == ps[k as int]);
        }
        let part = parts[k];
        let pv = chars_of(part);
        let plen = pv.len();
        let b = find_char_from(&pv, '[', 0);
        assert(pv@.subrange(0, plen as int) =~= pv@);
        let ghost pk = ps[k as int];
        assert(pv@ == pk);
        assert(b == first_char_or_len(pk, '['));
        let next: Option<&Json> = if b < plen {
            proof {
                assert(first_char_or_len(pk, '[') < pk.len());
                assert(b + 1 <= plen - 1);
            }
            let name = part.substring_char(0, b);
            let index_str = part.substring_char(b + 1, plen - 1);
            assert(name@ == pk.subrange(0, b as int));
            assert(index_str@ == pk.subrange(b + 1, plen - 1));
            match get_field(current, name) {
                Some(field) => match &field.value {
                    JsonValue::Array(items) => match parse_usize(index_str) {
                        Some(index) => if index < items.len() {
                            Some(&items[index])
                        } else {
                            None
                        },
                        None => None,
                    },
                    _ => None,
                },
                None => None,
            }
        } else {
            get_field(current, part)
        };
        match next {
            Some(f) => {
                current = f;
            },
            None => {
                proof {
                    lemma_walk_stops(*json, ps, k + 1);
                }
                return None;
            },
        }
        k = k + 1;
    }
    assert(ps.take(n as int) =~= ps);
    Some(current)
}

/// `true` or `false`, as JSON writes a boolean.
pub open spec fn bool_text(b: bool) -> Seq<char> {
    if b {
        "true"@
    } else {
        "false"@
    }
}

/// What an object shows: its `decimal` field, else `0x` and its `hex` string (`?` when
/// that is no string), else the object written as compact JSON.
pub open spec fn object_text(j: Json) -> Seq<char> {
    match get_key(j, "decimal"@) {
        Some(d) => d.compact@,
        None => match get_key(j, "hex"@) {
            Some(h) => "0x"@ + match h.value {
                JsonValue::Str(s) => s@,
                _ => "?"@,
            },
            None => j.compact@,
        },
    }
}

/// What an item of a shown array shows: a number's text, a string, a boolean, else `?`.
pub open spec fn item_text(j: Json) -> Seq<char> {
    match j.value {
        JsonValue::Number => j.compact@,
        JsonValue::Str(s) => s@,
        JsonValue::Bool(b) => bool_text(b),
        _ => "?"@,
    }
}

/// A number or a string.
pub open spec fn is_simple(j: Json) -> bool {
    j.value is Number || j.value is Str
}

/// The items' texts, between `[` and `]` and separated by `, `.
pub open spec fn list_text(items: Seq<Json>) -> Seq<char> {
    "["@ + join(items.map_values(|x: Json| item_text(x)), ", "@) + "]"@
}

/// The text of a boolean.
pub fn bool_string(b: bool) -> (r: String)
    ensures
        r@ == bool_text(b),
{
    if b {
        owned("true")
    } else {
        owned("false")
    }
}

/// What an object shows (see `object_text`).
pub fn object_string(j: &Json) -> (r: String)
    ensures
        r@ == object_text(*j),
{
    match get_field(j, "decimal") {
        Some(d) => d.compact.clone(),
        None => match get_field(j, "hex") {
            Some(h) => {
                let mut out = owned("0x");
                match &h.value {
                    JsonValue::Str(s) => out.append(s.as_str()),
                    _ => out.append("?"),
                }
                out
            },
            None => j.compact.clone(),
        },
    }
}

/// Appends what an array item shows (see `item_text`).
fn push_item_text(out: &mut String, j: &Json)
    ensures
        final(out)@ == old(out)@ + item_text(*j),
{
    match &j.value {
        JsonValue::Number => out.append(j.compact.as_str()),
        JsonValue::Str(s) => out.append(s.as_str()),
        JsonValue::Bool(b) => {
            let t = bool_string(*b);
            out.append(t.as_str());
        },
        _ => out.append("?"),
    }
}

/// The items' texts, between brackets and separated by `, ` (see `list_text`).
pub fn list_string(items: &Vec<Json>) -> (r: String)
    ensures
        r@ == list_text(items@),
{
    let ghost texts = items@.map_values(|x: Json| item_text(x));
    let n = items.len();
    let mut out = owned("[");
    let mut k: usize = 0;
    while k < n
        invariant
            n == items@.len(),
            texts == items@.map_values(|x: Json| item_text(x)),
            k <= n,
            out@ == "["@ + join(texts.take(k as int), ", "@),
        decreases n - k,
    {
        proof {
            assert(texts.take(k + 1).drop_last() =~= texts.take(k as int));
            assert(texts.take(k + 1).last() == item_text(items@[k as int]));
        }
        if k > 0 {
            out.append(", ");
        } else {
            assert(texts.take(1) =~= seq![texts[0]]);
        }
        push_item_text(&mut out, &items[k]);
        assert(out@ =~= "["@ + join(texts.take(k + 1), ", "@));
        k = k + 1;
    }
    assert(texts.take(n as int) =~= texts);
    out.append("]");
    out
}

/// Every item is a number or a string.
pub fn all_simple(items: &Vec<Json>) -> (r: bool)
    ensures
        r == forall|i: int| 0 <= i < items@.len() ==> is_simple(#[trigger] items@[i]),
{
    let n = items.len();
    let mut k: usize = 0;
    while k < n
        invariant
            n == items@.len(),
            k <= n,
            forall|i: int| 0 <= i < k ==> is_simple(#[trigger] items@[i]),
        decreases n - k,
    {
        match &items[k].value {
            JsonValue::Number => {},
            JsonValue::Str(_) => {},
            _ => {
                assert(!is_simple(items@[k as int]));
                return false;
            },
        }
        k = k + 1;
    }
    true
}

/// An ASCII path in which every `[` is followed by a character other than `.`.
pub open spec fn path_ascii_ok(p: Seq<char>) -> bool {
    &&& forall|i: int| 0 <= i < p.len() ==> (#[trigger] p[i] as u32) < 128
    &&& forall|i: int| 0 <= i < p.len() && #[trigger] p[i] == '[' ==> i + 1 < p.len() && p[i + 1] != '.'
}

/// `first_char_or_len` is where the first `c` is, or the length when there is none.
pub proof fn lemma_first_char(s: Seq<char>, c: char, j: int)
    requires
        0 <= j <= s.len(),
        forall|k: int| 0 <= k < j ==> s[k] != c,
    ensures
        j <= first_char_or_len(s, c) <= s.len(),
        forall|k: int| 0 <= k < first_char_or_len(s, c) ==> s[k] != c,
        first_char_or_len(s, c) < s.len() ==> s[first_char_or_len(s, c)] == c,
    decreases s.len() - j,
{
    if j == s.len() {
        assert forall|i: int| !occurs_at(s, seq![c], i) by {
            if occurs_at(s, seq![c], i) {
                assert(s.subrange(i, i + 1)[0] == s[i]);
            }
        }
    } else if s[j] == c {
        assert(s.subrange(j, j + 1) =~= seq![c]);
        assert forall|i: int| 0 <= i < j implies !occurs_at(s, seq![c], i) by {
            assert(s.subrange(i, i + 1)[0] == s[i]);
        }
        lemma_find_is_first(s, seq![c], j);
    } else {
        lemma_first_char(s, c, j + 1);
    }
}

/// A piece of such a path, ending at a `.` or at the end, can be stepped through.
proof fn lemma_piece_ok(s: Seq<char>, a: int, b: int)
    requires
        path_ascii_ok(s),
        0 <= a <= b <= s.len(),
        b == s.len() || s[b] == '.',
    ensures
        part_ok(s.subrange(a, b)),
{
    let piece = s.subrange(a, b);
    lemma_first_char(piece, '[', 0);
    let t = first_char_or_len(piece, '[');
    if t < piece.len() {
        assert(piece[t] == s[a + t]);
        assert(s[a + t] == '[');
        assert(piece.last() == s[b - 1]);
        assert((s[b - 1] as u32) < 128);
    }
}

/// Every piece of such a path can be stepped through.
pub proof fn lemma_path_ok(p: Seq<char>)
    requires
        path_ascii_ok(p),
    ensures
        path_ok(p),
    decreases p.len(),
{
    lemma_first_char(p, '.', 0);
    let j = first_char_or_len(p, '.');
    if j < p.len() {
        lemma_piece_ok(p, 0, j);
        let rest = p.subrange(j + 1, p.len() as int);
        assert forall|i: int| 0 <= i < rest.len() implies (#[trigger] rest[i] as u32) < 128 by {
            assert(rest[i] == p[j + 1 + i]);
        }
        assert forall|i: int| 0 <= i < rest.len() && #[trigger] rest[i] == '[' implies i + 1 < rest.len()
            && rest[i + 1] != '.' by {
            assert(rest[i] == p[j + 1 + i]);
            assert(p[j + 1 + i] == '[');
            assert(rest[i + 1] == p[j + 2 + i]);
        }
        lemma_path_ok(rest);
        let parts = spec_split(p, '.');
        assert(parts == seq![p.subrange(0, j)] + spec_split(rest, '.'));
        assert forall|k: int| 0 <= k < parts.len() implies part_ok(#[trigger] parts[k]) by {
            if k > 0 {
                assert(parts[k] == spec_split(rest, '.')[k - 1]);
            }
        }
    } else {
        lemma_piece_ok(p, 0, p.len() as int);
        assert(p.subrange(0, p.len() as int) =~= p);
    }
}

} // verus!
