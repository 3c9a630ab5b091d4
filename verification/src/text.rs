//! Character-level helpers on log text, each specified over `Seq<char>`.

use vstd::prelude::*;

verus! {

/// Unicode `White_Space` property, as used by `str::split_whitespace` and `str::trim`.
pub open spec fn is_ws(c: char) -> bool {
    let u = c as u32;
    ||| (9 <= u && u <= 13)
    ||| u == 32
    ||| u == 0x85
    ||| u == 0xA0
    ||| u == 0x1680
    ||| (0x2000 <= u && u <= 0x200A)
    ||| u == 0x2028
    ||| u == 0x2029
    ||| u == 0x202F
    ||| u == 0x205F
    ||| u == 0x3000
}

/// Code of a character after ASCII lower-casing (other characters are unchanged).
pub open spec fn lower_code(c: char) -> u32 {
    let u = c as u32;
    if 65 <= u && u <= 90 { (u + 32) as u32 } else { u }
}

/// ASCII decimal digit.
pub open spec fn is_digit(c: char) -> bool {
    let u = c as u32;
    48 <= u && u <= 57
}

/// Equality of two texts ignoring ASCII case (`str::eq_ignore_ascii_case`).
pub open spec fn eq_ignore_case(a: Seq<char>, b: Seq<char>) -> bool {
    &&& a.len() == b.len()
    &&& forall|i: int| 0 <= i < a.len() ==> lower_code(#[trigger] a[i]) == lower_code(b[i])
}

/// `pat` occurs in `s` at position `i`.
pub open spec fn occurs_at(s: Seq<char>, pat: Seq<char>, i: int) -> bool {
    0 <= i && i + pat.len() <= s.len() && s.subrange(i, i + pat.len()) == pat
}

/// `pat` occurs in `s` at position `i`, ignoring ASCII case.
pub open spec fn occurs_at_ignore_case(s: Seq<char>, pat: Seq<char>, i: int) -> bool {
    0 <= i && i + pat.len() <= s.len() && eq_ignore_case(s.subrange(i, i + pat.len()), pat)
}

/// `s` contains `pat` (`str::contains`).
pub open spec fn contains(s: Seq<char>, pat: Seq<char>) -> bool {
    exists|i: int| occurs_at(s, pat, i)
}

/// `s` contains `pat` ignoring ASCII case.
pub open spec fn contains_ignore_case(s: Seq<char>, pat: Seq<char>) -> bool {
    exists|i: int| occurs_at_ignore_case(s, pat, i)
}

/// `s` starts with `pat`.
pub open spec fn starts_with(s: Seq<char>, pat: Seq<char>) -> bool {
    pat.len() <= s.len() && s.subrange(0, pat.len() as int) == pat
}

/// `i` is the position of the first occurrence of `pat` in `s` (what `str::find` reports).
pub open spec fn is_first_occurrence(s: Seq<char>, pat: Seq<char>, i: int) -> bool {
    occurs_at(s, pat, i) && forall|j: int| 0 <= j < i ==> !occurs_at(s, pat, j)
}

/// Position of the first occurrence of `pat` in `s`, if any (`str::find`).
pub open spec fn spec_find(s: Seq<char>, pat: Seq<char>) -> Option<int> {
    if contains(s, pat) {
        Some(choose|i: int| is_first_occurrence(s, pat, i))
    } else {
        None
    }
}

/// The first occurrence is unique, so it is the one `spec_find` reports.
pub proof fn lemma_find_is_first(s: Seq<char>, pat: Seq<char>, i: int)
    requires
        is_first_occurrence(s, pat, i),
    ensures
        spec_find(s, pat) == Some(i),
{
    assert(contains(s, pat));
    let c = choose|j: int| is_first_occurrence(s, pat, j);
    assert(is_first_occurrence(s, pat, c));
    if c < i {
        assert(!occurs_at(s, pat, c));
    } else if c > i {
        assert(!occurs_at(s, pat, i));
    }
}

/// Value of a string of decimal digits.
pub open spec fn digits_value(s: Seq<char>) -> nat
    decreases s.len(),
{
    if s.len() == 0 {
        0
    } else {
        digits_value(s.drop_last()) * 10 + ((s.last() as u32) - 48) as nat
    }
}

/// All characters are decimal digits.
pub open spec fn all_digits(s: Seq<char>) -> bool {
    forall|i: int| 0 <= i < s.len() ==> is_digit(#[trigger] s[i])
}

/// What `str::parse::<usize>` gives: an optional `+` followed by at least one decimal
/// digit, whose value fits in a `usize`.
pub open spec fn spec_parse_usize(s: Seq<char>) -> Option<usize> {
    let d = if s.len() > 0 && s[0] == '+' { s.subrange(1, s.len() as int) } else { s };
    if d.len() > 0 && all_digits(d) && digits_value(d) <= usize::MAX {
        Some(digits_value(d) as usize)
    } else {
        None
    }
}

/// A longer string of digits has a value at least as large.
pub proof fn lemma_digits_value_grows(s: Seq<char>, k: int)
    requires
        0 <= k <= s.len(),
        all_digits(s),
    ensures
        digits_value(s.subrange(0, k)) <= digits_value(s),
    decreases s.len() - k,
{
    if k < s.len() {
        lemma_digits_value_grows(s, k + 1);
        assert(s.subrange(0, k + 1).drop_last() =~= s.subrange(0, k));
        assert(is_digit(s[k]));
    } else {
        assert(s.subrange(0, k) =~= s);
    }
}

/// Value of the decimal digits of `d`, or `None` when one is not a digit, when there is
/// none, or when the value does not fit in a `usize`.
pub fn parse_digits(d: &Vec<char>, from: usize) -> (r: Option<usize>)
    requires
        from <= d@.len(),
    ensures
        ({
            let t = d@.subrange(from as int, d@.len() as int);
            r == if t.len() > 0 && all_digits(t) && digits_value(t) <= usize::MAX {
                Some(digits_value(t) as usize)
            } else {
                None
            }
        }),
{
    let ghost t = d@.subrange(from as int, d@.len() as int);
    let n = d.len();
    if from == n {
        return None;
    }
    let mut k = from;
    while k < n
        invariant
            n == d@.len(),
            from <= k <= n,
            t == d@.subrange(from as int, n as int),
            forall|i: int| from <= i < k ==> is_digit(#[trigger] d@[i]),
        decreases n - k,
    {
        if !char_is_digit(d[k]) {
            assert(!is_digit(t[k - from]));
            return None;
        }
        k = k + 1;
    }
    assert(all_digits(t)) by {
        assert forall|i: int| 0 <= i < t.len() implies is_digit(#[trigger] t[i]) by {
            assert(t[i] == d@[from + i]);
        }
    }
    let mut v: usize = 0;
    let mut k = from;
    while k < n
        invariant
            n == d@.len(),
            from <= k <= n,
            t == d@.subrange(from as int, n as int),
            all_digits(t),
            v == digits_value(d@.subrange(from as int, k as int)),
        decreases n - k,
    {
        let c = d[k];
        proof {
            assert(t[k - from] == d@[k as int]);
            assert(is_digit(t[k - from]));
            assert(d@.subrange(from as int, k + 1).drop_last() =~= d@.subrange(from as int, k as int));
            assert(d@.subrange(from as int, k + 1).last() == c);
        }
        let digit = (c as u32 - 48) as usize;
        if v > (usize::MAX - digit) / 10 {
            proof {
                assert(v * 10 + digit > usize::MAX) by (nonlinear_arith)
                    requires
                        v > (usize::MAX - digit) / 10,
                        digit <= 9,
                ;
                assert(d@.subrange(from as int, k + 1) =~= t.subrange(0, k + 1 - from));
                lemma_digits_value_grows(t, k + 1 - from);
            }
            return None;
        }
        proof {
            assert(v * 10 + digit <= usize::MAX) by (nonlinear_arith)
                requires
                    v <= (usize::MAX - digit) / 10,
                    digit <= 9,
            ;
        }
        v = v * 10 + digit;
        k = k + 1;
    }
    assert(d@.subrange(from as int, n as int) =~= t);
    Some(v)
}

/// `str::parse::<usize>`.
pub fn parse_usize(s: &str) -> (r: Option<usize>)
    ensures
        r == spec_parse_usize(s@),
{
    let v = chars_of(s);
    if v.len() > 0 && v[0] == '+' {
        let r = parse_digits(&v, 1);
        r
    } else {
        let r = parse_digits(&v, 0);
        assert(v@.subrange(0, v@.len() as int) =~= v@);
        r
    }
}

/// Whether a character is Unicode white space.
pub fn char_is_ws(c: char) -> (r: bool)
    ensures
        r == is_ws(c),
{
    let u = c as u32;
    (9 <= u && u <= 13) || u == 32 || u == 0x85 || u == 0xA0 || u == 0x1680 || (0x2000 <= u
        && u <= 0x200A) || u == 0x2028 || u == 0x2029 || u == 0x202F || u == 0x205F || u == 0x3000
}

/// Whether a character is an ASCII decimal digit.
pub fn char_is_digit(c: char) -> (r: bool)
    ensures
        r == is_digit(c),
{
    let u = c as u32;
    48 <= u && u <= 57
}

/// Lower-cased code of a character (ASCII letters only).
pub fn char_lower_code(c: char) -> (r: u32)
    ensures
        r == lower_code(c),
{
    let u = c as u32;
    if 65 <= u && u <= 90 {
        u + 32
    } else {
        u
    }
}

/// The characters of a string.
pub fn chars_of(s: &str) -> (v: Vec<char>)
    ensures
        v@ == s@,
{
    let n = s.unicode_len();
    let mut v: Vec<char> = Vec::new();
    let mut i: usize = 0;
    while i < n
        invariant
            n == s@.len(),
            i <= n,
            v@ == s@.subrange(0, i as int),
        decreases n - i,
    {
        let c = s.get_char(i);
        v.push(c);
        i = i + 1;
    }
    v
}

/// Whether `pat` occurs in `s` at position `i`.
pub fn occurs_at_exec(s: &Vec<char>, pat: &Vec<char>, i: usize) -> (r: bool)
    ensures
        r == occurs_at(s@, pat@, i as int),
{
    if i > s.len() || pat.len() > s.len() - i {
        return false;
    }
    let n = s.len();
    let mut k: usize = 0;
    while k < pat.len()
        invariant
            n == s@.len(),
            i + pat@.len() <= s@.len(),
            k <= pat@.len(),
            forall|m: int| 0 <= m < k ==> s@[i + m] == pat@[m],
        decreases pat@.len() - k,
    {
        if s[i + k] != pat[k] {
            assert(s@.subrange(i as int, i + pat@.len())[k as int] != pat@[k as int]);
            return false;
        }
        k = k + 1;
    }
    assert(s@.subrange(i as int, i + pat@.len()) =~= pat@);
    true
}

/// Whether `pat` occurs in `s` at position `i`, ignoring ASCII case.
pub fn occurs_at_ignore_case_exec(s: &Vec<char>, pat: &Vec<char>, i: usize) -> (r: bool)
    ensures
        r == occurs_at_ignore_case(s@, pat@, i as int),
{
    if i > s.len() || pat.len() > s.len() - i {
        return false;
    }
    let n = s.len();
    let mut k: usize = 0;
    while k < pat.len()
        invariant
            n == s@.len(),
            i + pat@.len() <= s@.len(),
            k <= pat@.len(),
            forall|m: int| 0 <= m < k ==> lower_code(s@[i + m]) == lower_code(pat@[m]),
        decreases pat@.len() - k,
    {
        if char_lower_code(s[i + k]) != char_lower_code(pat[k]) {
            assert(s@.subrange(i as int, i + pat@.len())[k as int] == s@[i + k]);
            return false;
        }
        k = k + 1;
    }
    assert forall|m: int| 0 <= m < pat@.len() implies lower_code(
        #[trigger] s@.subrange(i as int, i + pat@.len())[m],
    ) == lower_code(pat@[m]) by {
        assert(s@.subrange(i as int, i + pat@.len())[m] == s@[i + m]);
    }
    true
}

/// Equality ignoring ASCII case.
pub fn eq_ignore_case_exec(a: &Vec<char>, b: &Vec<char>) -> (r: bool)
    ensures
        r == eq_ignore_case(a@, b@),
{
    if a.len() != b.len() {
        return false;
    }
    let r = occurs_at_ignore_case_exec(a, b, 0);
    assert(a@.subrange(0, b@.len() as int) =~= a@);
    r
}

/// Position of the first occurrence of `pat` in `s`.
pub fn find_chars(s: &Vec<char>, pat: &Vec<char>) -> (r: Option<usize>)
    ensures
        match r {
            Some(i) => is_first_occurrence(s@, pat@, i as int),
            None => !contains(s@, pat@),
        },
        r matches Some(i) ==> spec_find(s@, pat@) == Some(i as int),
        r is None ==> spec_find(s@, pat@) is None,
{
    if pat.len() > s.len() {
        return None;
    }
    let last = s.len() - pat.len();
    let mut i: usize = 0;
    while i <= last
        invariant
            last == s@.len() - pat@.len(),
            i <= last + 1,
            forall|j: int| 0 <= j < i ==> !occurs_at(s@, pat@, j),
        decreases last + 1 - i,
    {
        if occurs_at_exec(s, pat, i) {
            proof {
                lemma_find_is_first(s@, pat@, i as int);
            }
            return Some(i);
        }
        if i == last {
            return None;
        }
        i = i + 1;
    }
    None
}

/// Whether `pat` occurs in `s`.
pub fn contains_chars(s: &Vec<char>, pat: &Vec<char>) -> (r: bool)
    ensures
        r == contains(s@, pat@),
{
    match find_chars(s, pat) {
        Some(_) => true,
        None => false,
    }
}

/// Whether `pat` occurs in `s`, ignoring ASCII case.
pub fn contains_ignore_case_chars(s: &Vec<char>, pat: &Vec<char>) -> (r: bool)
    ensures
        r == contains_ignore_case(s@, pat@),
{
    if pat.len() > s.len() {
        return false;
    }
    let last = s.len() - pat.len();
    let mut i: usize = 0;
    while i <= last
        invariant
            last == s@.len() - pat@.len(),
            i <= last + 1,
            forall|j: int| 0 <= j < i ==> !occurs_at_ignore_case(s@, pat@, j),
        decreases last + 1 - i,
    {
        if occurs_at_ignore_case_exec(s, pat, i) {
            return true;
        }
        if i == last {
            return false;
        }
        i = i + 1;
    }
    false
}

/// Whether `s` starts with `pat`.
pub fn starts_with_chars(s: &Vec<char>, pat: &Vec<char>) -> (r: bool)
    ensures
        r == starts_with(s@, pat@),
{
    occurs_at_exec(s, pat, 0)
}

/// Whether the text `s` contains the text `pat`.
pub fn str_contains(s: &str, pat: &str) -> (r: bool)
    ensures
        r == contains(s@, pat@),
{
    let sv = chars_of(s);
    let pv = chars_of(pat);
    contains_chars(&sv, &pv)
}

/// Position of the first `c` in `s`, or the length of `s` when there is none
/// (`s.find(c).unwrap_or(s.len())`).
pub open spec fn first_char_or_len(s: Seq<char>, c: char) -> int {
    match spec_find(s, seq![c]) {
        Some(j) => j,
        None => s.len() as int,
    }
}

/// What `s.split_once(c)` gives: the text before and after the first `c`.
pub open spec fn spec_split_once(s: Seq<char>, c: char) -> Option<(Seq<char>, Seq<char>)> {
    match spec_find(s, seq![c]) {
        Some(j) => Some((s.subrange(0, j), s.subrange(j + 1, s.len() as int))),
        None => None,
    }
}

/// Position of the first `c` in `v` at or after `from`, or the length of `v`.
pub fn find_char_from(v: &Vec<char>, c: char, from: usize) -> (r: usize)
    requires
        from <= v@.len(),
    ensures
        from <= r <= v@.len(),
        r - from == first_char_or_len(v@.subrange(from as int, v@.len() as int), c),
        r < v@.len() ==> spec_find(v@.subrange(from as int, v@.len() as int), seq![c]) == Some(
            r - from,
        ),
        r == v@.len() ==> !contains(v@.subrange(from as int, v@.len() as int), seq![c]),
{
    let ghost rest = v@.subrange(from as int, v@.len() as int);
    let n = v.len();
    let mut j = from;
    while j < n
        invariant
            n == v@.len(),
            from <= j <= n,
            rest == v@.subrange(from as int, n as int),
            forall|k: int| from <= k < j ==> v@[k] != c,
        decreases n - j,
    {
        if v[j] == c {
            proof {
                let m = j - from;
                assert(rest.subrange(m, m + 1) =~= seq![c]);
                assert forall|i: int| 0 <= i < m implies !occurs_at(rest, seq![c], i) by {
                    assert(rest.subrange(i, i + 1)[0] == v@[from + i]);
                }
                lemma_find_is_first(rest, seq![c], m);
            }
            return j;
        }
        j = j + 1;
    }
    proof {
        assert forall|i: int| !occurs_at(rest, seq![c], i) by {
            if occurs_at(rest, seq![c], i) {
                assert(rest.subrange(i, i + 1)[0] == v@[from + i]);
            }
        }
    }
    j
}

/// `s.split_once(c)`.
pub fn split_once_char<'a>(s: &'a str, c: char) -> (r: Option<(&'a str, &'a str)>)
    ensures
        match r {
            Some((a, b)) => spec_split_once(s@, c) == Some((a@, b@)),
            None => spec_split_once(s@, c) is None,
        },
{
    let v = chars_of(s);
    let n = v.len();
    let j = find_char_from(&v, c, 0);
    assert(v@.subrange(0, n as int) =~= v@);
    if j == n {
        None
    } else {
        Some((s.substring_char(0, j), s.substring_char(j + 1, n)))
    }
}

/// Equality of two texts.
pub fn str_eq(a: &str, b: &str) -> (r: bool)
    ensures
        r == (a@ == b@),
{
    String::from_str(a) == String::from_str(b)
}

/// `s` with every occurrence of `pat` removed, scanning from the left
/// (`s.replace(pat, "")`).
pub open spec fn spec_remove_all(s: Seq<char>, pat: Seq<char>) -> Seq<char>
    decreases s.len(),
{
    if pat.len() == 0 {
        s
    } else {
        match spec_find(s, pat) {
            Some(i) => if 0 <= i && i + pat.len() <= s.len() {
                s.subrange(0, i) + spec_remove_all(s.subrange(i + pat.len(), s.len() as int), pat)
            } else {
                s
            },
            None => s,
        }
    }
}

/// The characters of `v` from position `from` on.
pub fn chars_from(v: &Vec<char>, from: usize) -> (r: Vec<char>)
    requires
        from <= v@.len(),
    ensures
        r@ == v@.subrange(from as int, v@.len() as int),
{
    let n = v.len();
    let mut out: Vec<char> = Vec::new();
    let mut i = from;
    while i < n
        invariant
            n == v@.len(),
            from <= i <= n,
            out@ == v@.subrange(from as int, i as int),
        decreases n - i,
    {
        out.push(v[i]);
        i = i + 1;
    }
    out
}

/// `s.replace(pat, "")`.
pub fn remove_all(s: &str, pat: &str) -> (r: String)
    ensures
        r@ == spec_remove_all(s@, pat@),
{
    let v = chars_of(s);
    let p = chars_of(pat);
    let n = v.len();
    if p.len() == 0 {
        return String::from_str(s);
    }
    let mut out = String::new();
    let mut start: usize = 0;
    assert(v@.subrange(0, n as int) =~= v@);
    assert(out@ + spec_remove_all(v@, p@) =~= spec_remove_all(v@, p@));
    while start < n
        invariant
            n == v@.len(),
            v@ == s@,
            p@ == pat@,
            p@.len() > 0,
            start <= n,
            out@ + spec_remove_all(v@.subrange(start as int, n as int), p@) == spec_remove_all(v@, p@),
        decreases n - start,
    {
        let rest = chars_from(&v, start);
        match find_chars(&rest, &p) {
            Some(i) => {
                proof {
                    assert(occurs_at(rest@, p@, i as int));
                    assert(rest@.subrange(i + p@.len(), rest@.len() as int) =~= v@.subrange(
                        start + i + p@.len(),
                        n as int,
                    ));
                    assert(rest@.subrange(0, i as int) =~= s@.subrange(start as int, start + i));
                }
                let ghost before = out@;
                out.append(s.substring_char(start, start + i));
                proof {
                    assert(out@ + spec_remove_all(v@.subrange(start + i + p@.len(), n as int), p@)
                        =~= before + spec_remove_all(v@.subrange(start as int, n as int), p@));
                }
                start = start + i + p.len();
            },
            None => {
                out.append(s.substring_char(start, n));
                proof {
                    assert(rest@ =~= s@.subrange(start as int, n as int));
                    assert(v@.subrange(n as int, n as int) =~= Seq::<char>::empty());
                    assert(spec_remove_all(Seq::<char>::empty(), p@) == Seq::<char>::empty());
                }
                start = n;
            },
        }
    }
    proof {
        assert(v@.subrange(n as int, n as int) =~= Seq::<char>::empty());
        assert(spec_remove_all(Seq::<char>::empty(), p@) == Seq::<char>::empty());
        assert(out@ + Seq::<char>::empty() =~= out@);
    }
    out
}

/// A character that `trim` (white space) or `trim_matches('"')` (quotes) removes.
pub open spec fn is_strip(c: char, quotes: bool) -> bool {
    if quotes {
        c == '"'
    } else {
        is_ws(c)
    }
}

/// `s` without its leading stripped characters.
pub open spec fn trim_start_by(s: Seq<char>, quotes: bool) -> Seq<char>
    decreases s.len(),
{
    if s.len() > 0 && is_strip(s[0], quotes) {
        trim_start_by(s.drop_first(), quotes)
    } else {
        s
    }
}

/// `s` without its trailing stripped characters.
pub open spec fn trim_end_by(s: Seq<char>, quotes: bool) -> Seq<char>
    decreases s.len(),
{
    if s.len() > 0 && is_strip(s.last(), quotes) {
        trim_end_by(s.drop_last(), quotes)
    } else {
        s
    }
}

/// `s.trim()`.
pub open spec fn spec_trim(s: Seq<char>) -> Seq<char> {
    trim_end_by(trim_start_by(s, false), false)
}

/// `s.trim_matches('"')`.
pub open spec fn spec_trim_quotes(s: Seq<char>) -> Seq<char> {
    trim_end_by(trim_start_by(s, true), true)
}

/// Trimming the stripped prefix of a sequence that starts at `i`.
proof fn lemma_trim_start_from(s: Seq<char>, quotes: bool, i: int)
    requires
        0 <= i <= s.len(),
        forall|k: int| 0 <= k < i ==> is_strip(#[trigger] s[k], quotes),
    ensures
        trim_start_by(s, quotes) == trim_start_by(s.subrange(i, s.len() as int), quotes),
    decreases i,
{
    if i > 0 {
        assert(s.drop_first().subrange(i - 1, s.drop_first().len() as int) =~= s.subrange(
            i,
            s.len() as int,
        ));
        assert forall|k: int| 0 <= k < i - 1 implies is_strip(#[trigger] s.drop_first()[k], quotes) by {
            assert(s.drop_first()[k] == s[k + 1]);
        }
        lemma_trim_start_from(s.drop_first(), quotes, i - 1);
    } else {
        assert(s.subrange(0, s.len() as int) =~= s);
    }
}

/// Trimming the stripped suffix of a sequence that ends at `j`.
proof fn lemma_trim_end_to(s: Seq<char>, quotes: bool, j: int)
    requires
        0 <= j <= s.len(),
        forall|k: int| j <= k < s.len() ==> is_strip(#[trigger] s[k], quotes),
    ensures
        trim_end_by(s, quotes) == trim_end_by(s.subrange(0, j), quotes),
    decreases s.len() - j,
{
    if j < s.len() {
        assert(s.drop_last().subrange(0, j) =~= s.subrange(0, j));
        assert forall|k: int| j <= k < s.drop_last().len() implies is_strip(#[trigger] s.drop_last()[k], quotes) by {
            assert(s.drop_last()[k] == s[k]);
        }
        lemma_trim_end_to(s.drop_last(), quotes, j);
    } else {
        assert(s.subrange(0, j) =~= s);
    }
}

/// Whether `c` is stripped.
fn char_is_strip(c: char, quotes: bool) -> (r: bool)
    ensures
        r == is_strip(c, quotes),
{
    if quotes {
        c == '"'
    } else {
        char_is_ws(c)
    }
}

/// `s` without its leading and trailing stripped characters.
fn trim_by<'a>(s: &'a str, quotes: bool) -> (r: &'a str)
    ensures
        r@ == trim_end_by(trim_start_by(s@, quotes), quotes),
{
    let v = chars_of(s);
    let n = v.len();
    let mut i: usize = 0;
    while i < n && char_is_strip(v[i], quotes)
        invariant
            n == v@.len(),
            v@ == s@,
            i <= n,
            forall|k: int| 0 <= k < i ==> is_strip(#[trigger] v@[k], quotes),
        decreases n - i,
    {
        i = i + 1;
    }
    proof {
        lemma_trim_start_from(v@, quotes, i as int);
    }
    let ghost t = v@.subrange(i as int, n as int);
    proof {
        if i < n {
            assert(t[0] == v@[i as int]);
        }
    }
    assert(trim_start_by(t, quotes) == t);
    let mut j: usize = n;
    while j > i && char_is_strip(v[j - 1], quotes)
        invariant
            n == v@.len(),
            i <= j <= n,
            t == v@.subrange(i as int, n as int),
            forall|k: int| j <= k < n ==> is_strip(#[trigger] v@[k], quotes),
        decreases j,
    {
        j = j - 1;
    }
    proof {
        assert forall|k: int| j - i <= k < t.len() implies is_strip(#[trigger] t[k], quotes) by {
            assert(t[k] == v@[i + k]);
        }
        lemma_trim_end_to(t, quotes, j - i);
        let u = t.subrange(0, j - i);
        assert(u =~= v@.subrange(i as int, j as int));
        if j > i {
            assert(u.last() == v@[j - 1]);
        }
        assert(trim_end_by(u, quotes) == u);
    }
    s.substring_char(i, j)
}

/// `s.trim()`.
pub fn trim(s: &str) -> (r: &str)
    ensures
        r@ == spec_trim(s@),
{
    trim_by(s, false)
}

/// `s.trim_matches('"')`.
pub fn trim_quotes(s: &str) -> (r: &str)
    ensures
        r@ == spec_trim_quotes(s@),
{
    trim_by(s, true)
}

/// `s.starts_with(pat)`.
pub fn str_starts_with(s: &str, pat: &str) -> (r: bool)
    ensures
        r == starts_with(s@, pat@),
{
    let sv = chars_of(s);
    let pv = chars_of(pat);
    starts_with_chars(&sv, &pv)
}

/// `s.find(pat)`.
pub fn str_find(s: &str, pat: &str) -> (r: Option<usize>)
    ensures
        match r {
            Some(i) => spec_find(s@, pat@) == Some(i as int) && i + pat@.len() <= s@.len(),
            None => spec_find(s@, pat@) is None,
        },
{
    let sv = chars_of(s);
    let pv = chars_of(pat);
    let r = find_chars(&sv, &pv);
    match r {
        Some(i) => {
            assert(occurs_at(sv@, pv@, i as int));
        },
        None => {},
    }
    r
}

/// What `u8::from_str_radix(s, 16)` accepts: an optional `+`, then hexadecimal digits
/// whose value fits in a byte.
pub open spec fn hex_value(c: char) -> int {
    let u = c as u32;
    if 48 <= u && u <= 57 {
        u - 48
    } else if 65 <= u && u <= 70 {
        u - 55
    } else if 97 <= u && u <= 102 {
        u - 87
    } else {
        -1
    }
}

/// Value of hexadecimal digits.
pub open spec fn hex_digits_value(s: Seq<char>) -> int
    decreases s.len(),
{
    if s.len() == 0 {
        0
    } else {
        hex_digits_value(s.drop_last()) * 16 + hex_value(s.last())
    }
}

/// All characters are hexadecimal digits.
pub open spec fn all_hex(s: Seq<char>) -> bool {
    forall|i: int| 0 <= i < s.len() ==> hex_value(#[trigger] s[i]) >= 0
}

/// `u8::from_str_radix(s, 16).ok()`.
pub open spec fn spec_parse_hex_u8(s: Seq<char>) -> Option<u8> {
    let d = if s.len() > 0 && s[0] == '+' { s.subrange(1, s.len() as int) } else { s };
    if d.len() > 0 && all_hex(d) && hex_digits_value(d) <= 255 {
        Some(hex_digits_value(d) as u8)
    } else {
        None
    }
}

/// A longer string of hexadecimal digits has a value at least as large.
proof fn lemma_hex_value_grows(s: Seq<char>, k: int)
    requires
        0 <= k <= s.len(),
        all_hex(s),
    ensures
        0 <= hex_digits_value(s.subrange(0, k)) <= hex_digits_value(s),
    decreases s.len() - k,
{
    if k < s.len() {
        lemma_hex_value_grows(s, k + 1);
        assert(s.subrange(0, k + 1).drop_last() =~= s.subrange(0, k));
        assert(hex_value(s[k]) >= 0);
        lemma_hex_nonneg(s.subrange(0, k));
    } else {
        assert(s.subrange(0, k) =~= s);
        lemma_hex_nonneg(s);
    }
}

/// Hexadecimal digits have a non-negative value.
proof fn lemma_hex_nonneg(s: Seq<char>)
    requires
        all_hex(s),
    ensures
        hex_digits_value(s) >= 0,
    decreases s.len(),
{
    if s.len() > 0 {
        assert forall|i: int| 0 <= i < s.drop_last().len() implies hex_value(#[trigger] s.drop_last()[i]) >= 0 by {
            assert(s.drop_last()[i] == s[i]);
        }
        lemma_hex_nonneg(s.drop_last());
        assert(hex_value(s[s.len() - 1]) >= 0);
    }
}

/// Value of a hexadecimal digit, or `None`.
fn char_hex_value(c: char) -> (r: Option<u8>)
    ensures
        match r {
            Some(v) => hex_value(c) == v as int && v < 16,
            None => hex_value(c) < 0,
        },
{
    let u = c as u32;
    if 48 <= u && u <= 57 {
        Some((u - 48) as u8)
    } else if 65 <= u && u <= 70 {
        Some((u - 55) as u8)
    } else if 97 <= u && u <= 102 {
        Some((u - 87) as u8)
    } else {
        None
    }
}

/// `u8::from_str_radix(s, 16).ok()`.
pub fn parse_hex_u8(s: &str) -> (r: Option<u8>)
    ensures
        r == spec_parse_hex_u8(s@),
{
    let v = chars_of(s);
    let n = v.len();
    let from: usize = if n > 0 && v[0] == '+' { 1 } else { 0 };
    let ghost d = if s@.len() > 0 && s@[0] == '+' { s@.subrange(1, s@.len() as int) } else { s@ };
    proof {
        if from == 0 {
            assert(d =~= v@.subrange(0, n as int));
        }
    }
    if from == n {
        return None;
    }
    let mut value: u32 = 0;
    let mut k = from;
    while k < n
        invariant
            n == v@.len(),
            v@ == s@,
            from <= k <= n,
            d == v@.subrange(from as int, n as int),
            d == (if s@.len() > 0 && s@[0] == '+' { s@.subrange(1, s@.len() as int) } else { s@ }),
            forall|i: int| from <= i < k ==> hex_value(#[trigger] v@[i]) >= 0,
            value as int == hex_digits_value(v@.subrange(from as int, k as int)),
            value <= 255,
        decreases n - k,
    {
        proof {
            assert(v@.subrange(from as int, k + 1).drop_last() =~= v@.subrange(from as int, k as int));
        }
        match char_hex_value(v[k]) {
            None => {
                assert(d[k - from] == v@[k as int]);
                assert(hex_value(d[k - from]) < 0);
                assert(!all_hex(d));
                return None;
            },
            Some(h) => {
                let next = value * 16 + h as u32;
                if next > 255 {
                    proof {
                        let w = v@.subrange(from as int, k + 1);
                        assert(w.last() == v@[k as int]);
                        assert(hex_digits_value(w) == value * 16 + h);
                        if all_hex(d) {
                            assert(d.subrange(0, k + 1 - from) =~= w);
                            lemma_hex_value_grows(d, k + 1 - from);
                        }
                    }
                    return None;
                }
                value = next;
            },
        }
        k = k + 1;
    }
    proof {
        assert forall|i: int| 0 <= i < d.len() implies hex_value(#[trigger] d[i]) >= 0 by {
            assert(d[i] == v@[from + i]);
        }
        assert(v@.subrange(from as int, n as int) =~= d);
    }
    Some(value as u8)
}

/// Length of the first word of `s` (up to the first white space).
pub open spec fn word_len(s: Seq<char>) -> nat
    decreases s.len(),
{
    if s.len() == 0 || is_ws(s[0]) {
        0
    } else {
        1 + word_len(s.drop_first())
    }
}

/// The words of `s`, separated by white space (`s.split_whitespace()`).
pub open spec fn spec_words(s: Seq<char>) -> Seq<Seq<char>>
    decreases s.len(),
{
    if s.len() == 0 {
        Seq::empty()
    } else if is_ws(s[0]) {
        spec_words(s.drop_first())
    } else {
        let k = word_len(s);
        if 0 < k <= s.len() {
            seq![s.subrange(0, k as int)] + spec_words(s.subrange(k as int, s.len() as int))
        } else {
            Seq::empty()
        }
    }
}

/// The first word of `s` ends where its first white space is.
proof fn lemma_word_len(s: Seq<char>, j: int)
    requires
        0 <= j <= s.len(),
        forall|k: int| 0 <= k < j ==> !is_ws(#[trigger] s[k]),
        j == s.len() || is_ws(s[j]),
    ensures
        word_len(s) == j,
    decreases j,
{
    if j > 0 {
        assert forall|k: int| 0 <= k < j - 1 implies !is_ws(#[trigger] s.drop_first()[k]) by {
            assert(s.drop_first()[k] == s[k + 1]);
        }
        if j < s.len() {
            assert(s.drop_first()[j - 1] == s[j]);
        }
        lemma_word_len(s.drop_first(), j - 1);
    }
}

/// The words of `s` (`s.split_whitespace()`).
pub fn words<'a>(s: &'a str) -> (r: Vec<&'a str>)
    ensures
        r@.len() == spec_words(s@).len(),
        forall|i: int| 0 <= i < r@.len() ==> (#[trigger] r@[i])@ == spec_words(s@)[i],
{
    let v = chars_of(s);
    let n = v.len();
    let mut out: Vec<&'a str> = Vec::new();
    let ghost mut got: Seq<Seq<char>> = Seq::empty();
    let mut i: usize = 0;
    assert(v@.subrange(0, n as int) =~= v@);
    while i < n
        invariant
            n == v@.len(),
            v@ == s@,
            i <= n,
            out@.len() == got.len(),
            forall|k: int| 0 <= k < out@.len() ==> (#[trigger] out@[k])@ == got[k],
            got + spec_words(v@.subrange(i as int, n as int)) == spec_words(s@),
        decreases n - i,
    {
        let ghost rest = v@.subrange(i as int, n as int);
        if char_is_ws(v[i]) {
            proof {
                assert(rest[0] == v@[i as int]);
                assert(rest.drop_first() =~= v@.subrange(i + 1, n as int));
            }
            i = i + 1;
        } else {
            let mut j = i + 1;
            while j < n && !char_is_ws(v[j])
                invariant
                    n == v@.len(),
                    i < j <= n,
                    forall|k: int| i <= k < j ==> !is_ws(#[trigger] v@[k]),
                decreases n - j,
            {
                j = j + 1;
            }
            proof {
                assert forall|k: int| 0 <= k < j - i implies !is_ws(#[trigger] rest[k]) by {
                    assert(rest[k] == v@[i + k]);
                }
                if j < n {
                    assert(rest[j - i] == v@[j as int]);
                }
                lemma_word_len(rest, j - i);
                assert(rest[0] == v@[i as int]);
                assert(rest.subrange(0, j - i) =~= s@.subrange(i as int, j as int));
                assert(rest.subrange(j - i, rest.len() as int) =~= v@.subrange(j as int, n as int));
                assert(got.push(s@.subrange(i as int, j as int)) + spec_words(v@.subrange(j as int, n as int))
                    =~= got + spec_words(rest));
            }
            out.push(s.substring_char(i, j));
            proof {
                got = got.push(s@.subrange(i as int, j as int));
            }
            i = j;
        }
    }
    proof {
        assert(v@.subrange(n as int, n as int) =~= Seq::<char>::empty());
        assert(got + Seq::<Seq<char>>::empty() =~= got);
    }
    out
}

/// The bytes that the hexadecimal words of a list give, in order (the others are
/// skipped).
pub open spec fn parsed_hex(ws: Seq<Seq<char>>) -> Seq<u8>
    decreases ws.len(),
{
    if ws.len() == 0 {
        Seq::empty()
    } else {
        let rest = parsed_hex(ws.drop_last());
        match spec_parse_hex_u8(ws.last()) {
            Some(b) => rest.push(b),
            None => rest,
        }
    }
}

/// The bytes of the hexadecimal words of `data`
/// (`data.split_whitespace().filter_map(|s| u8::from_str_radix(s, 16).ok())`).
pub fn hex_bytes(data: &str) -> (r: Vec<u8>)
    ensures
        r@ == parsed_hex(spec_words(data@)),
{
    let ws = words(data);
    let ghost wv = spec_words(data@);
    let mut out: Vec<u8> = Vec::new();
    let n = ws.len();
    let mut k: usize = 0;
    while k < n
        invariant
            n == ws@.len(),
            n == wv.len(),
            wv == spec_words(data@),
            forall|i: int| 0 <= i < n ==> (#[trigger] ws@[i])@ == wv[i],
            k <= n,
            out@ == parsed_hex(wv.take(k as int)),
        decreases n - k,
    {
        proof {
            assert(wv.take(k + 1).drop_last() =~= wv.take(k as int));
            assert(wv.take(k + 1).last() == ws@[k as int]@);
        }
        match parse_hex_u8(ws[k]) {
            Some(b) => out.push(b),
            None => {},
        }
        k = k + 1;
    }
    assert(wv.take(n as int) =~= wv);
    out
}

/// Value of a digit in base `radix` (10 or 16), or -1 for a character that is not one.
pub open spec fn radix_value(c: char, radix: int) -> int {
    if radix == 16 {
        hex_value(c)
    } else if is_digit(c) {
        (c as u32) - 48
    } else {
        -1
    }
}

/// Value of digits in base `radix`.
pub open spec fn radix_digits_value(s: Seq<char>, radix: int) -> int
    decreases s.len(),
{
    if s.len() == 0 {
        0
    } else {
        radix_digits_value(s.drop_last(), radix) * radix + radix_value(s.last(), radix)
    }
}

/// All characters are digits in base `radix`.
pub open spec fn all_radix(s: Seq<char>, radix: int) -> bool {
    forall|i: int| 0 <= i < s.len() ==> radix_value(#[trigger] s[i], radix) >= 0
}

/// `u32::from_str_radix(s, radix).ok()`: an optional `+`, then at least one digit,
/// with a value that fits in 32 bits.
pub open spec fn spec_parse_u32(s: Seq<char>, radix: int) -> Option<u32> {
    let d = if s.len() > 0 && s[0] == '+' { s.subrange(1, s.len() as int) } else { s };
    if d.len() > 0 && all_radix(d, radix) && radix_digits_value(d, radix) <= u32::MAX {
        Some(radix_digits_value(d, radix) as u32)
    } else {
        None
    }
}

/// Digits have a non-negative value.
proof fn lemma_radix_nonneg(s: Seq<char>, radix: int)
    requires
        radix == 10 || radix == 16,
        all_radix(s, radix),
    ensures
        radix_digits_value(s, radix) >= 0,
    decreases s.len(),
{
    if s.len() > 0 {
        assert forall|i: int| 0 <= i < s.drop_last().len() implies radix_value(
            #[trigger] s.drop_last()[i],
            radix,
        ) >= 0 by {
            assert(s.drop_last()[i] == s[i]);
        }
        lemma_radix_nonneg(s.drop_last(), radix);
        assert(radix_value(s[s.len() - 1], radix) >= 0);
        assert(radix_digits_value(s.drop_last(), radix) * radix >= 0) by (nonlinear_arith)
            requires
                radix_digits_value(s.drop_last(), radix) >= 0,
                radix >= 0,
        ;
    }
}

/// A longer string of digits has a value at least as large.
proof fn lemma_radix_value_grows(s: Seq<char>, k: int, radix: int)
    requires
        radix == 10 || radix == 16,
        0 <= k <= s.len(),
        all_radix(s, radix),
    ensures
        0 <= radix_digits_value(s.subrange(0, k), radix) <= radix_digits_value(s, radix),
    decreases s.len() - k,
{
    if k < s.len() {
        lemma_radix_value_grows(s, k + 1, radix);
        let p = s.subrange(0, k);
        assert(s.subrange(0, k + 1).drop_last() =~= p);
        assert(radix_value(s[k], radix) >= 0);
        assert forall|i: int| 0 <= i < p.len() implies radix_value(#[trigger] p[i], radix) >= 0 by {
            assert(p[i] == s[i]);
        }
        lemma_radix_nonneg(p, radix);
        let a = radix_digits_value(p, radix);
        assert(a <= a * radix) by (nonlinear_arith)
            requires
                a >= 0,
                radix >= 1,
        ;
    } else {
        assert(s.subrange(0, k) =~= s);
        lemma_radix_nonneg(s, radix);
    }
}

/// Value of a digit in base `radix`, or `None`.
fn char_radix_value(c: char, radix: u32) -> (r: Option<u32>)
    requires
        radix == 10 || radix == 16,
    ensures
        match r {
            Some(v) => radix_value(c, radix as int) == v as int && v < radix,
            None => radix_value(c, radix as int) < 0,
        },
{
    let u = c as u32;
    if 48 <= u && u <= 57 {
        Some(u - 48)
    } else if radix == 16 && 65 <= u && u <= 70 {
        Some(u - 55)
    } else if radix == 16 && 97 <= u && u <= 102 {
        Some(u - 87)
    } else {
        None
    }
}

/// `u32::from_str_radix(s, radix).ok()`, for base 10 or 16.
pub fn parse_u32(s: &str, radix: u32) -> (r: Option<u32>)
    requires
        radix == 10 || radix == 16,
    ensures
        r == spec_parse_u32(s@, radix as int),
{
    let v = chars_of(s);
    let n = v.len();
    let from: usize = if n > 0 && v[0] == '+' { 1 } else { 0 };
    let ghost d = if s@.len() > 0 && s@[0] == '+' { s@.subrange(1, s@.len() as int) } else { s@ };
    let ghost rd = radix as int;
    proof {
        if from == 0 {
            assert(d =~= v@.subrange(0, n as int));
        }
    }
    if from == n {
        return None;
    }
    let mut value: u64 = 0;
    let mut k = from;
    while k < n
        invariant
            radix == 10 || radix == 16,
            rd == radix as int,
            n == v@.len(),
            v@ == s@,
            from <= k <= n,
            d == v@.subrange(from as int, n as int),
            d == (if s@.len() > 0 && s@[0] == '+' { s@.subrange(1, s@.len() as int) } else { s@ }),
            forall|i: int| from <= i < k ==> radix_value(#[trigger] v@[i], rd) >= 0,
            value as int == radix_digits_value(v@.subrange(from as int, k as int), rd),
            value <= u32::MAX,
        decreases n - k,
    {
        proof {
            assert(v@.subrange(from as int, k + 1).drop_last() =~= v@.subrange(from as int, k as int));
        }
        match char_radix_value(v[k], radix) {
            None => {
                assert(d[k - from] == v@[k as int]);
                assert(!all_radix(d, rd));
                return None;
            },
            Some(h) => {
                let next: u64 = value * (radix as u64) + h as u64;
                if next > 0xffff_ffff {
                    proof {
                        let w = v@.subrange(from as int, k + 1);
                        assert(w.last() == v@[k as int]);
                        assert(radix_digits_value(w, rd) == value * radix + h);
                        if all_radix(d, rd) {
                            assert(d.subrange(0, k + 1 - from) =~= w);
                            lemma_radix_value_grows(d, k + 1 - from, rd);
                        }
                    }
                    return None;
                }
                value = next;
            },
        }
        k = k + 1;
    }
    proof {
        assert forall|i: int| 0 <= i < d.len() implies radix_value(#[trigger] d[i], rd) >= 0 by {
            assert(d[i] == v@[from + i]);
        }
        assert(v@.subrange(from as int, n as int) =~= d);
    }
    Some(value as u32)
}

/// Pieces joined with `sep` between them (`parts.join(sep)`).
pub open spec fn join(parts: Seq<Seq<char>>, sep: Seq<char>) -> Seq<char>
    decreases parts.len(),
{
    if parts.len() == 0 {
        Seq::empty()
    } else if parts.len() == 1 {
        parts[0]
    } else {
        join(parts.drop_last(), sep) + sep + parts.last()
    }
}

/// An owned copy of a text.
pub fn owned(s: &str) -> (r: String)
    ensures
        r@ == s@,
{
    String::from_str(s)
}

} // verus!
