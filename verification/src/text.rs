//! Character-level helpers shared by the parsers and formatters of this crate.

use vstd::prelude::*;

verus! {

/// Appends one character to a string.
///
/// Trusted wrapper of `String::push`, whose documentation states that it
/// appends the given `char` to the end of the string.
#[verifier::external_body]
pub fn push_char(s: &mut String, c: char)
    ensures
        final(s)@ == old(s)@.push(c),
{
    s.push(c)
}

/// The characters of a string slice, in order.
pub fn chars_of(s: &str) -> (r: Vec<char>)
    ensures
        r@ == s@,
{
    let mut r: Vec<char> = Vec::new();
    for c in it: s.chars()
        invariant
            r@ == it.seq().take(it.index() as int),
    {
        r.push(c);
    }
    r
}

/// A string holding exactly the given characters.
pub fn string_from_chars(cs: &[char]) -> (r: String)
    ensures
        r@ == cs@,
{
    let mut r = String::new();
    let mut i: usize = 0;
    while i < cs.len()
        invariant
            i <= cs.len(),
            r@ == cs@.take(i as int),
        decreases cs.len() - i,
    {
        push_char(&mut r, cs[i]);
        assert(cs@.take(i as int + 1) =~= cs@.take(i as int).push(cs@[i as int]));
        i = i + 1;
    }
    assert(cs@.take(cs.len() as int) =~= cs@);
    r
}

/// Unicode `White_Space`, the set that `char::is_whitespace` and `str::trim` use.
pub open spec fn spec_is_whitespace(c: char) -> bool {
    ||| ('\t' <= c && c <= '\r')
    ||| c == ' '
    ||| c == '\u{85}'
    ||| c == '\u{A0}'
    ||| c == '\u{1680}'
    ||| ('\u{2000}' <= c && c <= '\u{200A}')
    ||| c == '\u{2028}'
    ||| c == '\u{2029}'
    ||| c == '\u{202F}'
    ||| c == '\u{205F}'
    ||| c == '\u{3000}'
}

pub fn is_whitespace(c: char) -> (r: bool)
    ensures
        r == spec_is_whitespace(c),
{
    ('\t' <= c && c <= '\r') || c == ' ' || c == '\u{85}' || c == '\u{A0}' || c == '\u{1680}' || ('\u{2000}'
        <= c && c <= '\u{200A}') || c == '\u{2028}' || c == '\u{2029}' || c == '\u{202F}' || c == '\u{205F}'
        || c == '\u{3000}'
}

/// ASCII lower-casing of one character; other characters are unchanged.
pub open spec fn spec_ascii_lower(c: char) -> char {
    if 'A' <= c && c <= 'Z' {
        ((c as u8) + 32) as char
    } else {
        c
    }
}

pub fn ascii_lower(c: char) -> (r: char)
    ensures
        r == spec_ascii_lower(c),
{
    if 'A' <= c && c <= 'Z' {
        ((c as u8) + 32) as char
    } else {
        c
    }
}

/// The sets of characters that the trimming functions strip.
#[derive(Clone, Copy, Debug, PartialEq, Eq, Structural)]
pub enum CharSet {
    /// Unicode `White_Space` (what `str::trim` strips).
    Whitespace,
    /// Carriage return and line feed.
    LineBreak,
}

pub open spec fn in_set(set: CharSet, c: char) -> bool {
    match set {
        CharSet::Whitespace => spec_is_whitespace(c),
        CharSet::LineBreak => c == '\r' || c == '\n',
    }
}

pub fn is_in_set(set: CharSet, c: char) -> (r: bool)
    ensures
        r == in_set(set, c),
{
    match set {
        CharSet::Whitespace => is_whitespace(c),
        CharSet::LineBreak => c == '\r' || c == '\n',
    }
}

/// The number of leading characters of `s` in `set`.
pub open spec fn leading_count(s: Seq<char>, set: CharSet) -> int
    decreases s.len(),
{
    if s.len() > 0 && in_set(set, s[0]) {
        1 + leading_count(s.drop_first(), set)
    } else {
        0
    }
}

/// The number of trailing characters of `s` in `set`.
pub open spec fn trailing_count(s: Seq<char>, set: CharSet) -> int
    decreases s.len(),
{
    if s.len() > 0 && in_set(set, s.last()) {
        1 + trailing_count(s.drop_last(), set)
    } else {
        0
    }
}

/// The number of leading whitespace characters.
pub open spec fn leading_whitespace(s: Seq<char>) -> int {
    leading_count(s, CharSet::Whitespace)
}

/// `s` without its leading and trailing characters in `set` (`str::trim_matches`).
pub open spec fn spec_trim_set(s: Seq<char>, set: CharSet) -> Seq<char> {
    let t = s.skip(leading_count(s, set));
    t.take(t.len() - trailing_count(t, set))
}

/// `s` without leading and trailing whitespace (`str::trim`).
pub open spec fn spec_trim(s: Seq<char>) -> Seq<char> {
    spec_trim_set(s, CharSet::Whitespace)
}

/// A run of `k` characters of the set, followed by one outside it or the end, is the leading run.
pub proof fn lemma_leading_count(s: Seq<char>, set: CharSet, k: int)
    requires
        0 <= k <= s.len(),
        forall|j: int| 0 <= j < k ==> in_set(set, s[j]),
        k < s.len() ==> !in_set(set, s[k]),
    ensures
        leading_count(s, set) == k,
    decreases k,
{
    if k > 0 {
        lemma_leading_count(s.drop_first(), set, k - 1);
    }
}

/// A run of `k` trailing characters of the set, preceded by one outside it or the start, is the trailing run.
pub proof fn lemma_trailing_count(s: Seq<char>, set: CharSet, k: int)
    requires
        0 <= k <= s.len(),
        forall|j: int| s.len() - k <= j < s.len() ==> in_set(set, s[j]),
        k < s.len() ==> !in_set(set, s[s.len() - 1 - k]),
    ensures
        trailing_count(s, set) == k,
    decreases k,
{
    if k > 0 {
        lemma_trailing_count(s.drop_last(), set, k - 1);
    }
}

/// The leading and trailing runs never exceed the text.
pub proof fn lemma_counts_bounded(s: Seq<char>, set: CharSet)
    ensures
        0 <= leading_count(s, set) <= s.len(),
        0 <= trailing_count(s, set) <= s.len(),
    decreases s.len(),
{
    if s.len() > 0 {
        lemma_counts_bounded(s.drop_first(), set);
        lemma_counts_bounded(s.drop_last(), set);
    }
}

/// `s` without its leading and trailing characters in `set`.
pub fn trim_set(s: &[char], set: CharSet) -> (r: Vec<char>)
    ensures
        r@ == spec_trim_set(s@, set),
{
    let mut a: usize = 0;
    while a < s.len() && is_in_set(set, s[a])
        invariant
            a <= s@.len(),
            forall|j: int| 0 <= j < a ==> in_set(set, s@[j]),
        decreases s.len() - a,
    {
        a = a + 1;
    }
    proof {
        lemma_leading_count(s@, set, a as int);
    }
    let ghost t = s@.skip(a as int);
    let mut b: usize = s.len();
    while b > a && is_in_set(set, s[b - 1])
        invariant
            a <= b <= s@.len(),
            t == s@.skip(a as int),
            forall|j: int| b <= j < s@.len() ==> in_set(set, s@[j]),
        decreases b - a,
    {
        b = b - 1;
    }
    proof {
        lemma_trailing_count(t, set, (s@.len() - b) as int);
    }
    let r = copy_chars(s, a, b);
    assert(r@ =~= spec_trim_set(s@, set));
    r
}

/// `s` without leading and trailing whitespace.
pub fn trim(s: &[char]) -> (r: Vec<char>)
    ensures
        r@ == spec_trim(s@),
{
    trim_set(s, CharSet::Whitespace)
}

/// A copy of `s[start..end]`.
pub fn copy_chars(s: &[char], start: usize, end: usize) -> (r: Vec<char>)
    requires
        start <= end <= s@.len(),
    ensures
        r@ == s@.subrange(start as int, end as int),
{
    let mut r: Vec<char> = Vec::new();
    let mut i: usize = start;
    while i < end
        invariant
            start <= i <= end <= s@.len(),
            r@ == s@.subrange(start as int, i as int),
        decreases end - i,
    {
        r.push(s[i]);
        i = i + 1;
        assert(r@ =~= s@.subrange(start as int, i as int));
    }
    r
}

/// The first position of `c` in `s`.
pub open spec fn first_index(s: Seq<char>, c: char) -> Option<int>
    decreases s.len(),
{
    if s.len() == 0 {
        None
    } else if s[0] == c {
        Some(0int)
    } else {
        match first_index(s.drop_first(), c) {
            Some(i) => Some(i + 1),
            None => None,
        }
    }
}

/// A first occurrence found by scanning is the one `first_index` names.
pub proof fn lemma_first_index(s: Seq<char>, c: char, k: int)
    requires
        0 <= k <= s.len(),
        forall|j: int| 0 <= j < k ==> s[j] != c,
    ensures
        k < s.len() && s[k] == c ==> first_index(s, c) == Some(k),
        k == s.len() ==> first_index(s, c) is None,
    decreases k,
{
    if k > 0 {
        lemma_first_index(s.drop_first(), c, k - 1);
    }
}

/// `first_index` names the earliest occurrence, or none when the character is absent.
pub proof fn lemma_first_index_bounds(s: Seq<char>, c: char)
    ensures
        first_index(s, c) matches Some(i) ==> 0 <= i < s.len() && s[i] == c && forall|j: int| 0 <= j < i ==> s[j] != c,
        first_index(s, c) is None ==> forall|j: int| 0 <= j < s.len() ==> s[j] != c,
    decreases s.len(),
{
    if s.len() > 0 {
        lemma_first_index_bounds(s.drop_first(), c);
        if s[0] != c {
            if let Some(i) = first_index(s.drop_first(), c) {
                assert forall|j: int| 0 <= j < i + 1 implies s[j] != c by {
                    if j > 0 {
                        assert(s[j] == s.drop_first()[j - 1]);
                    }
                }
            } else {
                assert forall|j: int| 0 <= j < s.len() implies s[j] != c by {
                    if j > 0 {
                        assert(s[j] == s.drop_first()[j - 1]);
                    }
                }
            }
        }
    }
}

/// `s` split around the first `c` (`str::split_once`).
pub open spec fn spec_split_once(s: Seq<char>, c: char) -> Option<(Seq<char>, Seq<char>)> {
    match first_index(s, c) {
        Some(i) => Some((s.take(i), s.skip(i + 1))),
        None => None,
    }
}

pub fn find_char(s: &[char], c: char) -> (r: Option<usize>)
    ensures
        r matches Some(i) ==> first_index(s@, c) == Some(i as int) && i < s@.len(),
        r is None ==> first_index(s@, c) is None,
{
    let mut i: usize = 0;
    while i < s.len()
        invariant
            i <= s@.len(),
            forall|j: int| 0 <= j < i ==> s@[j] != c,
        decreases s.len() - i,
    {
        if s[i] == c {
            proof {
                lemma_first_index(s@, c, i as int);
            }
            return Some(i);
        }
        i = i + 1;
    }
    proof {
        lemma_first_index(s@, c, i as int);
    }
    None
}

pub fn split_once(s: &[char], c: char) -> (r: Option<(Vec<char>, Vec<char>)>)
    ensures
        r matches Some((a, b)) ==> spec_split_once(s@, c) == Some((a@, b@)),
        r is None ==> spec_split_once(s@, c) is None,
{
    match find_char(s, c) {
        Some(i) => {
            let n = s.len();
            let a = copy_chars(s, 0, i);
            let b = copy_chars(s, i + 1, n);
            assert(a@ =~= s@.take(i as int));
            assert(b@ =~= s@.skip(i as int + 1));
            Some((a, b))
        },
        None => None,
    }
}

/// A line without the carriage return of a CRLF ending.
pub open spec fn strip_cr(l: Seq<char>) -> Seq<char> {
    if l.len() > 0 && l.last() == '\r' {
        l.drop_last()
    } else {
        l
    }
}

/// The lines of `s` (`str::lines`): split at '\n', a '\r' before it dropped, and
/// no empty last line after a final line ending.
pub open spec fn spec_lines(s: Seq<char>) -> Seq<Seq<char>>
    decreases s.len(),
{
    if s.len() == 0 {
        Seq::empty()
    } else {
        match first_index(s, '\n') {
            Some(i) => {
                proof {
                    lemma_first_index_bounds(s, '\n');
                }
                seq![strip_cr(s.take(i))] + spec_lines(s.skip(i + 1))
            },
            None => seq![s],
        }
    }
}

/// The lines of `s`, as `str::lines` gives them.
pub fn lines(s: &[char]) -> (r: Vec<Vec<char>>)
    ensures
        r@.map_values(|l: Vec<char>| l@) == spec_lines(s@),
{
    let mut r: Vec<Vec<char>> = Vec::new();
    let mut start: usize = 0;
    let mut i: usize = 0;
    assert(s@.skip(0) =~= s@);
    assert(r@.map_values(|l: Vec<char>| l@) + spec_lines(s@.skip(0)) =~= spec_lines(s@));
    while i < s.len()
        invariant
            start <= i <= s@.len(),
            forall|j: int| start <= j < i ==> s@[j] != '\n',
            r@.map_values(|l: Vec<char>| l@) + spec_lines(s@.skip(start as int)) == spec_lines(s@),
        decreases s.len() - i,
    {
        if s[i] == '\n' {
            let ghost rest = s@.skip(start as int);
            proof {
                lemma_first_index(rest, '\n', (i - start) as int);
                assert(rest.take((i - start) as int) =~= s@.subrange(start as int, i as int));
                assert(rest.skip((i - start) as int + 1) =~= s@.skip(i as int + 1));
            }
            let mut line = copy_chars(s, start, i);
            if line.len() > 0 && line[line.len() - 1] == '\r' {
                line.pop();
            }
            assert(line@ == strip_cr(s@.subrange(start as int, i as int)));
            let ghost before = r@.map_values(|l: Vec<char>| l@);
            r.push(line);
            assert(r@.map_values(|l: Vec<char>| l@) =~= before.push(line@));
            assert(before.push(line@) + spec_lines(s@.skip(i as int + 1)) =~= before + (seq![line@] + spec_lines(
                s@.skip(i as int + 1),
            )));
            start = i + 1;
        }
        i = i + 1;
    }
    let ghost rest = s@.skip(start as int);
    proof {
        lemma_first_index(rest, '\n', rest.len() as int);
    }
    if start < s.len() {
        let line = copy_chars(s, start, s.len());
        assert(line@ =~= rest);
        let ghost before = r@.map_values(|l: Vec<char>| l@);
        r.push(line);
        assert(r@.map_values(|l: Vec<char>| l@) =~= before.push(line@));
        assert(before + seq![rest] =~= before.push(line@));
    } else {
        assert(rest.len() == 0);
        assert(r@.map_values(|l: Vec<char>| l@) + spec_lines(rest) =~= r@.map_values(|l: Vec<char>| l@));
    }
    r
}

/// ASCII case-insensitive equality (`str::eq_ignore_ascii_case`).
pub open spec fn spec_eq_ignore_ascii_case(a: Seq<char>, b: Seq<char>) -> bool {
    a.len() == b.len() && forall|i: int| 0 <= i < a.len() ==> spec_ascii_lower(a[i]) == spec_ascii_lower(b[i])
}

pub fn eq_ignore_ascii_case(a: &[char], b: &[char]) -> (r: bool)
    ensures
        r == spec_eq_ignore_ascii_case(a@, b@),
{
    if a.len() != b.len() {
        return false;
    }
    let mut i: usize = 0;
    while i < a.len()
        invariant
            i <= a@.len(),
            a@.len() == b@.len(),
            forall|j: int| 0 <= j < i ==> spec_ascii_lower(a@[j]) == spec_ascii_lower(b@[j]),
        decreases a.len() - i,
    {
        if ascii_lower(a[i]) != ascii_lower(b[i]) {
            return false;
        }
        i = i + 1;
    }
    true
}

/// Whether two character sequences are equal.
pub fn chars_eq(a: &[char], b: &[char]) -> (r: bool)
    ensures
        r == (a@ == b@),
{
    if a.len() != b.len() {
        return false;
    }
    let mut i: usize = 0;
    while i < a.len()
        invariant
            i <= a@.len(),
            a@.len() == b@.len(),
            forall|j: int| 0 <= j < i ==> a@[j] == b@[j],
        decreases a.len() - i,
    {
        if a[i] != b[i] {
            return false;
        }
        i = i + 1;
    }
    assert(a@ =~= b@);
    true
}

/// Whether `s` has exactly the characters of the string `lit`.
pub fn is_text(s: &[char], lit: &str) -> (r: bool)
    ensures
        r == (s@ == lit@),
{
    let l = chars_of(lit);
    chars_eq(s, &l)
}

} // verus!
