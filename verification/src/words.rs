//! Searching text, and splitting it into words and lines.

use vstd::prelude::*;
use vstd::string::*;

verus! {

/// White space: the characters with the Unicode property `White_Space`.
pub open spec fn is_space(c: char) -> bool {
    let n = c as u32;
    ||| 0x09 <= n <= 0x0D
    ||| n == 0x20
    ||| n == 0x85
    ||| n == 0xA0
    ||| n == 0x1680
    ||| 0x2000 <= n <= 0x200A
    ||| n == 0x2028
    ||| n == 0x2029
    ||| n == 0x202F
    ||| n == 0x205F
    ||| n == 0x3000
}

/// Whether `c` is white space.
pub fn is_whitespace(c: char) -> (r: bool)
    ensures
        r == is_space(c),
{
    let n: u32 = c as u32;
    (0x09 <= n && n <= 0x0D) || n == 0x20 || n == 0x85 || n == 0xA0 || n == 0x1680 || (0x2000 <= n
        && n <= 0x200A) || n == 0x2028 || n == 0x2029 || n == 0x202F || n == 0x205F || n == 0x3000
}

/// The characters of a text.
pub fn chars_of(s: &str) -> (r: Vec<char>)
    ensures
        r@ == s@,
{
    broadcast use vstd::string::group_string_axioms;

    let mut out: Vec<char> = Vec::new();
    for c in it: s.chars()
        invariant
            it.seq() == s@,
            out@ == it.history(),
    {
        out.push(c);
    }
    assert(out@ =~= s@);
    out
}

/// `pat` stands in `s` at index `i`.
pub open spec fn occurs_at(s: Seq<char>, pat: Seq<char>, i: int) -> bool {
    0 <= i && i + pat.len() <= s.len() && s.subrange(i, i + pat.len()) == pat
}

/// The first index at or after `from` at which `pat` stands in `s`.
pub open spec fn find_from(s: Seq<char>, pat: Seq<char>, from: int) -> Option<int>
    decreases s.len() + 1 - from,
{
    if from < 0 || from + pat.len() > s.len() {
        None
    } else if occurs_at(s, pat, from) {
        Some(from)
    } else {
        find_from(s, pat, from + 1)
    }
}

/// `pat` stands somewhere in `s`.
pub open spec fn occurs(s: Seq<char>, pat: Seq<char>) -> bool {
    find_from(s, pat, 0) is Some
}

/// What `find_from` finds is the first place at or after `from` where the
/// pattern stands; it finds nothing only where the pattern stands nowhere
/// from there on.
pub proof fn lemma_find_is_first(s: Seq<char>, pat: Seq<char>, from: int)
    requires
        0 <= from,
    ensures
        match find_from(s, pat, from) {
            Some(i) => from <= i && occurs_at(s, pat, i) && forall|j: int|
                from <= j < i ==> !occurs_at(s, pat, j),
            None => forall|j: int| from <= j ==> !occurs_at(s, pat, j),
        },
    decreases s.len() + 1 - from,
{
    if from + pat.len() <= s.len() && !occurs_at(s, pat, from) {
        lemma_find_is_first(s, pat, from + 1);
    }
}

/// Whether `pat` stands in `s` at index `i`.
pub fn matches_at(s: &[char], pat: &[char], i: usize) -> (r: bool)
    ensures
        r == occurs_at(s@, pat@, i as int),
{
    if pat.len() > s.len() || i > s.len() - pat.len() {
        return false;
    }
    let mut k: usize = 0;
    while k < pat.len()
        invariant
            i + pat.len() <= s.len(),
            k <= pat.len(),
            s@.subrange(i as int, i + k) == pat@.take(k as int),
        decreases pat.len() - k,
    {
        if s[i + k] != pat[k] {
            assert(s@.subrange(i as int, i + pat.len())[k as int] != pat@[k as int]);
            return false;
        }
        k = k + 1;
        assert(s@.subrange(i as int, i + k) =~= pat@.take(k as int)) by {
            assert(s@.subrange(i as int, i + k - 1) == pat@.take(k - 1));
            assert forall|j: int| 0 <= j < k implies s@.subrange(i as int, i + k)[j]
                == pat@.take(k as int)[j] by {
                if j < k - 1 {
                    assert(s@.subrange(i as int, i + k - 1)[j] == pat@.take(k - 1)[j]);
                }
            }
        }
    }
    assert(pat@.take(pat.len() as int) =~= pat@);
    true
}

/// The first index at or after `from` at which `pat` stands in `s`.
pub fn find_in(s: &[char], pat: &[char], from: usize) -> (r: Option<usize>)
    ensures
        match r {
            Some(i) => find_from(s@, pat@, from as int) == Some(i as int) && from <= i && i
                + pat.len() <= s.len(),
            None => find_from(s@, pat@, from as int) is None,
        },
{
    if pat.len() > s.len() {
        return None;
    }
    let last: usize = s.len() - pat.len();
    let mut i: usize = from;
    while i <= last
        invariant
            last == s.len() - pat.len(),
            from <= i,
            find_from(s@, pat@, from as int) == find_from(s@, pat@, i as int),
        decreases last - i,
    {
        if matches_at(s, pat, i) {
            return Some(i);
        }
        if i == last {
            assert(find_from(s@, pat@, i + 1) is None);
            return None;
        }
        i = i + 1;
    }
    None
}

/// The index of the first character at or after `i` that is no white space;
/// the length of `s` where there is none.
pub open spec fn skip_spaces(s: Seq<char>, i: int) -> int
    decreases s.len() - i,
{
    if 0 <= i < s.len() && is_space(s[i]) {
        skip_spaces(s, i + 1)
    } else {
        i
    }
}

/// The index of the first white space at or after `i`; the length of `s`
/// where there is none.
pub open spec fn skip_word(s: Seq<char>, i: int) -> int
    decreases s.len() - i,
{
    if 0 <= i < s.len() && !is_space(s[i]) {
        skip_word(s, i + 1)
    } else {
        i
    }
}

/// The index behind the last character in front of `n` that is no white
/// space; 0 where there is none.
pub open spec fn trim_end(s: Seq<char>, n: int) -> int
    decreases n,
{
    if 0 < n <= s.len() && is_space(s[n - 1]) {
        trim_end(s, n - 1)
    } else {
        n
    }
}

/// The text without the white space at its start and at its end.
pub open spec fn trimmed(s: Seq<char>) -> Seq<char> {
    let a = skip_spaces(s, 0);
    let b = trim_end(s, s.len() as int);
    if a < b {
        s.subrange(a, b)
    } else {
        Seq::empty()
    }
}

/// Where the scans end.
pub proof fn lemma_skips(s: Seq<char>, i: int)
    requires
        0 <= i <= s.len(),
    ensures
        i <= skip_spaces(s, i) <= s.len(),
        i <= skip_word(s, i) <= s.len(),
        0 <= trim_end(s, i) <= i,
        i < s.len() && !is_space(s[i]) ==> skip_word(s, i) > i,
    decreases s.len() - i, i,
{
    if i < s.len() {
        lemma_skips(s, i + 1);
    }
    if i > 0 {
        lemma_trim_end(s, i);
    }
}

/// Where the scan from the end stops.
pub proof fn lemma_trim_end(s: Seq<char>, n: int)
    requires
        0 <= n <= s.len(),
    ensures
        0 <= trim_end(s, n) <= n,
    decreases n,
{
    if n > 0 && is_space(s[n - 1]) {
        lemma_trim_end(s, n - 1);
    }
}

/// The words of `s` from index `from` on: the longest runs of characters
/// that are no white space.
pub open spec fn words_from(s: Seq<char>, from: int) -> Seq<Seq<char>>
    decreases s.len() - from,
    via words_from_decreases
{
    let a = skip_spaces(s, from);
    if 0 <= from && a < s.len() {
        seq![s.subrange(a, skip_word(s, a))] + words_from(s, skip_word(s, a))
    } else {
        Seq::empty()
    }
}

#[via_fn]
proof fn words_from_decreases(s: Seq<char>, from: int) {
    let a = skip_spaces(s, from);
    if 0 <= from && a < s.len() {
        lemma_skips(s, from);
        lemma_skips(s, a);
        assert(!is_space(s[a])) by {
            lemma_skip_spaces_stops(s, from);
        }
    }
}

/// The scan over white space stops at a character that is none.
pub proof fn lemma_skip_spaces_stops(s: Seq<char>, i: int)
    requires
        0 <= i <= s.len(),
    ensures
        skip_spaces(s, i) < s.len() ==> !is_space(s[skip_spaces(s, i)]),
        forall|j: int| i <= j < skip_spaces(s, i) ==> is_space(s[j]),
    decreases s.len() - i,
{
    if i < s.len() && is_space(s[i]) {
        lemma_skip_spaces_stops(s, i + 1);
    }
}

/// The words of `s`.
pub open spec fn words(s: Seq<char>) -> Seq<Seq<char>> {
    words_from(s, 0)
}

/// The first word of `s` at or after `from`, if there is one.
pub open spec fn first_word(s: Seq<char>, from: int) -> Option<Seq<char>> {
    let a = skip_spaces(s, from);
    if 0 <= from && a < s.len() {
        Some(s.subrange(a, skip_word(s, a)))
    } else {
        None
    }
}

/// The index of the first character at or after `from` that is no white
/// space.
pub fn after_spaces(s: &[char], from: usize) -> (r: usize)
    requires
        from <= s.len(),
    ensures
        r == skip_spaces(s@, from as int),
        from <= r <= s.len(),
{
    let mut i: usize = from;
    while i < s.len() && is_whitespace(s[i])
        invariant
            from <= i <= s.len(),
            skip_spaces(s@, from as int) == skip_spaces(s@, i as int),
        decreases s.len() - i,
    {
        i = i + 1;
    }
    i
}

/// The index of the first white space at or after `from`.
pub fn after_word(s: &[char], from: usize) -> (r: usize)
    requires
        from <= s.len(),
    ensures
        r == skip_word(s@, from as int),
        from <= r <= s.len(),
{
    let mut i: usize = from;
    while i < s.len() && !is_whitespace(s[i])
        invariant
            from <= i <= s.len(),
            skip_word(s@, from as int) == skip_word(s@, i as int),
        decreases s.len() - i,
    {
        i = i + 1;
    }
    i
}

/// The index behind the last character that is no white space.
pub fn before_spaces(s: &[char]) -> (r: usize)
    ensures
        r == trim_end(s@, s@.len() as int),
        r <= s.len(),
{
    let mut n: usize = s.len();
    while n > 0 && is_whitespace(s[n - 1])
        invariant
            n <= s.len(),
            trim_end(s@, s@.len() as int) == trim_end(s@, n as int),
        decreases n,
    {
        n = n - 1;
    }
    n
}

/// The index of the first line feed at or after `i`; the length of `s` where
/// there is none.
pub open spec fn line_end(s: Seq<char>, i: int) -> int
    decreases s.len() - i,
{
    if 0 <= i < s.len() && s[i] != '\n' {
        line_end(s, i + 1)
    } else {
        i
    }
}

/// The line that starts at `i`, without its ending: a line feed, or a
/// carriage return and a line feed.
pub open spec fn line_at(s: Seq<char>, i: int) -> Seq<char> {
    let e = line_end(s, i);
    if i < e < s.len() && s[e - 1] == '\r' {
        s.subrange(i, e - 1)
    } else {
        s.subrange(i, e)
    }
}

/// The lines of `s` from index `i` on. A line ending at the end of the text
/// begins no further line.
pub open spec fn lines_from(s: Seq<char>, i: int) -> Seq<Seq<char>>
    decreases s.len() + 1 - i,
    via lines_from_decreases
{
    if 0 <= i < s.len() {
        seq![line_at(s, i)] + lines_from(s, line_end(s, i) + 1)
    } else {
        Seq::empty()
    }
}

#[via_fn]
proof fn lines_from_decreases(s: Seq<char>, i: int) {
    if 0 <= i < s.len() {
        lemma_line_end(s, i);
    }
}

/// Where a line ends.
pub proof fn lemma_line_end(s: Seq<char>, i: int)
    requires
        0 <= i <= s.len(),
    ensures
        i <= line_end(s, i) <= s.len(),
    decreases s.len() - i,
{
    if i < s.len() && s[i] != '\n' {
        lemma_line_end(s, i + 1);
    }
}

/// The lines of `s`.
pub open spec fn lines(s: Seq<char>) -> Seq<Seq<char>> {
    lines_from(s, 0)
}

/// A text has at most as many lines as characters.
pub proof fn lemma_line_count(s: Seq<char>, i: int)
    requires
        0 <= i,
    ensures
        i <= s.len() ==> lines_from(s, i).len() <= s.len() - i,
        i > s.len() ==> lines_from(s, i).len() == 0,
    decreases s.len() + 1 - i,
{
    if i < s.len() {
        lemma_line_end(s, i);
        lemma_line_count(s, line_end(s, i) + 1);
    }
}

/// The index of the first line feed at or after `from`.
pub fn line_stop(s: &[char], from: usize) -> (r: usize)
    requires
        from <= s.len(),
    ensures
        r == line_end(s@, from as int),
        from <= r <= s.len(),
{
    let mut i: usize = from;
    while i < s.len() && s[i] != '\n'
        invariant
            from <= i <= s.len(),
            line_end(s@, from as int) == line_end(s@, i as int),
        decreases s.len() - i,
    {
        i = i + 1;
    }
    i
}

/// Where the line that starts at `from` and stops at `stop` ends, its ending
/// left out.
pub fn line_close(s: &[char], from: usize, stop: usize) -> (r: usize)
    requires
        from < s.len(),
        stop == line_end(s@, from as int),
        from <= stop <= s.len(),
    ensures
        from <= r <= stop,
        line_at(s@, from as int) == s@.subrange(from as int, r as int),
{
    if from < stop && stop < s.len() && s[stop - 1] == '\r' {
        stop - 1
    } else {
        stop
    }
}

/// The number of lines.
pub fn count_lines(s: &[char]) -> (r: usize)
    ensures
        r == lines(s@).len(),
{
    let mut i: usize = 0;
    let mut n: usize = 0;
    while i < s.len()
        invariant
            i <= s.len(),
            n <= i,
            lines(s@).len() == n + lines_from(s@, i as int).len(),
        decreases s.len() - i,
    {
        let e = line_stop(s, i);
        n = n + 1;
        if e < s.len() {
            i = e + 1;
        } else {
            assert(lines_from(s@, e + 1).len() == 0);
            assert(lines_from(s@, e as int).len() == 0);
            i = e;
        }
    }
    n
}

/// The bounds of the text in `s` without the white space at its start and at
/// its end.
pub fn trim_bounds(s: &[char]) -> (r: (usize, usize))
    ensures
        r.0 <= r.1 <= s.len(),
        trimmed(s@) == s@.subrange(r.0 as int, r.1 as int),
{
    let a = after_spaces(s, 0);
    let b = before_spaces(s);
    if a < b {
        (a, b)
    } else {
        assert(s@.subrange(0, 0) =~= Seq::<char>::empty());
        (0, 0)
    }
}

/// The texts between the bounds.
pub open spec fn cut(s: Seq<char>, bounds: Seq<(usize, usize)>) -> Seq<Seq<char>> {
    Seq::new(bounds.len(), |j: int| s.subrange(bounds[j].0 as int, bounds[j].1 as int))
}

/// The bounds of the words of `s`.
pub fn word_bounds(s: &[char]) -> (r: Vec<(usize, usize)>)
    ensures
        cut(s@, r@) == words(s@),
        forall|j: int| 0 <= j < r@.len() ==> (#[trigger] r@[j]).0 <= r@[j].1 <= s.len(),
{
    let mut out: Vec<(usize, usize)> = Vec::new();
    let mut i: usize = 0;
    loop
        invariant
            i <= s.len(),
            words(s@) == cut(s@, out@) + words_from(s@, i as int),
            forall|j: int| 0 <= j < out@.len() ==> (#[trigger] out@[j]).0 <= out@[j].1 <= s.len(),
        decreases s.len() - i,
    {
        let a = after_spaces(s, i);
        if a >= s.len() {
            assert(cut(s@, out@) + Seq::<Seq<char>>::empty() =~= cut(s@, out@));
            return out;
        }
        let b = after_word(s, a);
        proof {
            lemma_skip_spaces_stops(s@, i as int);
            lemma_skips(s@, a as int);
            assert(cut(s@, out@.push((a, b))) =~= cut(s@, out@) + seq![
                s@.subrange(a as int, b as int),
            ]);
            assert(words_from(s@, i as int) == seq![s@.subrange(a as int, b as int)] + words_from(
                s@,
                b as int,
            ));
            assert(cut(s@, out@) + (seq![s@.subrange(a as int, b as int)] + words_from(
                s@,
                b as int,
            )) =~= cut(s@, out@) + seq![s@.subrange(a as int, b as int)] + words_from(s@, b as int));
        }
        out.push((a, b));
        i = b;
    }
}

/// Whether the text of `s` between `a` and `b` is `pat`.
pub fn same_text(s: &[char], a: usize, b: usize, pat: &[char]) -> (r: bool)
    requires
        a <= b <= s.len(),
    ensures
        r == (s@.subrange(a as int, b as int) == pat@),
{
    if b - a != pat.len() {
        return false;
    }
    matches_at(s, pat, a)
}

} // verus!
