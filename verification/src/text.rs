//! Character-level text utilities shared by the parsers of the library:
//! whitespace, trimming, substring search, line splitting, decimal and
//! hexadecimal digits.
use vstd::prelude::*;
use vstd::string::*;

verus! {

// ---------------------------------------------------------------------
// Whitespace
// ---------------------------------------------------------------------

/// The Unicode `White_Space` property, which `char::is_whitespace` tests.
pub open spec fn is_white_space(c: char) -> bool {
    let u = c as u32;
    ||| u == 0x20
    ||| (0x09 <= u && u <= 0x0d)
    ||| u == 0x85
    ||| u == 0xa0
    ||| u == 0x1680
    ||| (0x2000 <= u && u <= 0x200a)
    ||| u == 0x2028
    ||| u == 0x2029
    ||| u == 0x202f
    ||| u == 0x205f
    ||| u == 0x3000
}

pub fn is_whitespace_char(c: char) -> (b: bool)
    ensures
        b == is_white_space(c),
{
    let u = c as u32;
    u == 0x20 || (0x09 <= u && u <= 0x0d) || u == 0x85 || u == 0xa0 || u == 0x1680 || (0x2000
        <= u && u <= 0x200a) || u == 0x2028 || u == 0x2029 || u == 0x202f || u == 0x205f || u
        == 0x3000
}

// ---------------------------------------------------------------------
// Conversions between strings and character vectors
// ---------------------------------------------------------------------

/// The characters of a string slice, in order.
pub fn chars_of(s: &str) -> (r: Vec<char>)
    ensures
        r@ == s@,
{
    let mut r: Vec<char> = Vec::new();
    for c in it: s.chars()
        invariant
            r@ == it.seq().take(it.index() as int),
    {
        r.push(c);
    }
    r
}

/// `String::push`: the string grows by the one character given.
#[verifier::external_body]
pub(crate) fn push_char(s: &mut String, c: char)
    ensures
        final(s)@ == old(s)@.push(c),
{
    s.push(c);
}

/// The string made of `v[lo..hi]`.
pub fn string_of_range(v: &Vec<char>, lo: usize, hi: usize) -> (r: String)
    requires
        lo <= hi <= v.len(),
    ensures
        r@ == v@.subrange(lo as int, hi as int),
{
    let mut r = String::new();
    let mut i = lo;
    while i < hi
        invariant
            lo <= i <= hi <= v.len(),
            r@ == v@.subrange(lo as int, i as int),
        decreases hi - i,
    {
        push_char(&mut r, v[i]);
        assert(v@.subrange(lo as int, i + 1) =~= v@.subrange(lo as int, i as int).push(v@[i as int]));
        i = i + 1;
    }
    r
}

/// The string made of all of `v`.
pub fn string_of_chars(v: &Vec<char>) -> (r: String)
    ensures
        r@ == v@,
{
    let r = string_of_range(v, 0, v.len());
    assert(v@.subrange(0, v@.len() as int) =~= v@);
    r
}

/// `s` followed by `t`.
pub fn concat(s: &str, t: &str) -> (r: String)
    ensures
        r@ == s@ + t@,
{
    let mut r = String::from_str(s);
    r.append(t);
    r
}

/// The lowercase form that `str::to_lowercase` gives of a string; its
/// Unicode tables are not restated here.
pub uninterp spec fn lowercase_of(s: Seq<char>) -> Seq<char>;

/// `char::to_ascii_lowercase`: `'A'..='Z'` become `'a'..='z'`, every other
/// character stays.
pub open spec fn ascii_lower_char(c: char) -> char {
    if 'A' <= c && c <= 'Z' {
        ((c as u32) + 32) as char
    } else {
        c
    }
}

/// `char::to_ascii_uppercase`: `'a'..='z'` become `'A'..='Z'`, every other
/// character stays.
pub open spec fn ascii_upper_char(c: char) -> char {
    if 'a' <= c && c <= 'z' {
        ((c as u32) - 32) as char
    } else {
        c
    }
}

/// `str::to_ascii_lowercase`.
pub open spec fn ascii_lowercase(s: Seq<char>) -> Seq<char> {
    s.map_values(|c: char| ascii_lower_char(c))
}

/// `str::to_ascii_uppercase`.
pub open spec fn ascii_uppercase(s: Seq<char>) -> Seq<char> {
    s.map_values(|c: char| ascii_upper_char(c))
}

/// The pieces of `s` between its newlines, as `str::split('\n')` yields
/// them: one more piece than there are newlines, none holding a newline.
pub open spec fn newline_pieces(s: Seq<char>) -> Seq<Seq<char>>
    decreases s.len(),
{
    let e = line_end(s, 0);
    proof {
        lemma_line_end(s, 0);
    }
    if e >= s.len() {
        seq![s]
    } else {
        seq![s.subrange(0, e)] + newline_pieces(s.subrange(e + 1, s.len() as int))
    }
}

/// Each piece of `s` between newlines, lowercased on its own.
pub open spec fn lowercase_pieces(s: Seq<char>) -> Seq<Seq<char>> {
    newline_pieces(s).map_values(|p: Seq<char>| lowercase_of(p))
}

/// `str::to_lowercase`. The result is named; beyond the name the contract
/// states two facts of Unicode lowercasing: ASCII text lowercases as
/// `str::to_ascii_lowercase` does, and lowercasing keeps each newline where
/// it is and lowercases the text between newlines piece by piece (a newline
/// is neither cased nor case-ignorable, so even the word-final sigma rule
/// does not look across it). Which non-ASCII character maps to which is not
/// stated.
#[verifier::external_body]
pub(crate) fn to_lowercase(s: &str) -> (r: String)
    ensures
        r@ == lowercase_of(s@),
        vstd::utf8::is_ascii_chars(s@) ==> r@ == ascii_lowercase(s@),
        newline_pieces(r@) == lowercase_pieces(s@),
{
    s.to_lowercase()
}

/// ASCII-uppercasing first does not change what ASCII-lowercasing gives,
/// and the ASCII case maps keep text ASCII.
pub proof fn lemma_ascii_case_maps(s: Seq<char>)
    requires
        vstd::utf8::is_ascii_chars(s),
    ensures
        vstd::utf8::is_ascii_chars(ascii_uppercase(s)),
        vstd::utf8::is_ascii_chars(ascii_lowercase(s)),
        ascii_lowercase(ascii_uppercase(s)) == ascii_lowercase(s),
        ascii_lowercase(ascii_lowercase(s)) == ascii_lowercase(s),
{
    assert forall|i: int| 0 <= i < s.len() implies ascii_lower_char(ascii_upper_char(s[i]))
        == ascii_lower_char(s[i]) && ascii_lower_char(ascii_lower_char(s[i])) == ascii_lower_char(
        s[i],
    ) && '\0' <= #[trigger] ascii_upper_char(s[i]) <= '\u{7f}' && '\0' <= ascii_lower_char(s[i])
        <= '\u{7f}' by {
        let c = s[i];
        assert('\0' <= c <= '\u{7f}');
    }
    assert(ascii_lowercase(ascii_uppercase(s)) =~= ascii_lowercase(s));
    assert(ascii_lowercase(ascii_lowercase(s)) =~= ascii_lowercase(s));
}

// ---------------------------------------------------------------------
// Substring search
// ---------------------------------------------------------------------

/// `n` occurs in `h` at position `k`.
pub open spec fn occurs_at(h: Seq<char>, n: Seq<char>, k: int) -> bool {
    0 <= k && k + n.len() <= h.len() && h.subrange(k, k + n.len()) == n
}

/// `n` occurs somewhere in `h` (as `str::contains` tests).
pub open spec fn contains_seq(h: Seq<char>, n: Seq<char>) -> bool {
    exists|k: int| #[trigger] occurs_at(h, n, k)
}

/// `s` occurs in itself.
pub proof fn lemma_contains_self(s: Seq<char>)
    ensures
        contains_seq(s, s),
{
    assert(s.subrange(0, s.len() as int) =~= s);
    assert(occurs_at(s, s, 0));
}

/// What occurs in `x` or in `y` occurs in `x + y`.
pub broadcast proof fn lemma_contains_in_concat(x: Seq<char>, y: Seq<char>, n: Seq<char>)
    ensures
        contains_seq(x, n) ==> #[trigger] contains_seq(x + y, n),
        contains_seq(y, n) ==> contains_seq(x + y, n),
{
    if contains_seq(x, n) {
        let k = choose|k: int| occurs_at(x, n, k);
        assert((x + y).subrange(k, k + n.len()) =~= x.subrange(k, k + n.len()));
        assert(occurs_at(x + y, n, k));
    }
    if contains_seq(y, n) {
        let k = choose|k: int| occurs_at(y, n, k);
        assert((x + y).subrange(x.len() + k, x.len() + k + n.len()) =~= y.subrange(
            k,
            k + n.len(),
        ));
        assert(occurs_at(x + y, n, x.len() + k));
    }
}

/// `s` begins with `p`.
pub open spec fn starts_with_seq(s: Seq<char>, p: Seq<char>) -> bool {
    p.len() <= s.len() && s.subrange(0, p.len() as int) == p
}

fn matches_at(h: &Vec<char>, k: usize, n: &Vec<char>) -> (b: bool)
    requires
        k + n.len() <= h.len(),
    ensures
        b == (h@.subrange(k as int, k + n.len()) == n@),
{
    let mut j: usize = 0;
    while j < n.len()
        invariant
            j <= n.len(),
            k + n.len() <= h.len(),
            forall|t: int| 0 <= t < j ==> h@[k + t] == n@[t],
        decreases n.len() - j,
    {
        if h[k + j] != n[j] {
            assert(h@.subrange(k as int, k + n.len())[j as int] != n@[j as int]);
            return false;
        }
        j = j + 1;
    }
    assert(h@.subrange(k as int, k + n.len()) =~= n@);
    true
}

/// Whether `n` occurs in `h[lo..hi]`.
pub fn contains_in(h: &Vec<char>, lo: usize, hi: usize, n: &Vec<char>) -> (b: bool)
    requires
        lo <= hi <= h.len(),
    ensures
        b == contains_seq(h@.subrange(lo as int, hi as int), n@),
{
    let ghost sub = h@.subrange(lo as int, hi as int);
    if n.len() > hi - lo {
        assert forall|k: int| !occurs_at(sub, n@, k) by {}
        return false;
    }
    let last = hi - n.len();
    let mut k = lo;
    loop
        invariant
            lo <= k <= last,
            last + n.len() == hi,
            hi <= h.len(),
            sub == h@.subrange(lo as int, hi as int),
            forall|t: int| 0 <= t < k - lo ==> !occurs_at(sub, n@, t),
        decreases last - k,
    {
        assert(sub.subrange(k - lo, k - lo + n.len()) =~= h@.subrange(k as int, k + n.len()));
        if matches_at(h, k, n) {
            assert(occurs_at(sub, n@, k - lo));
            return true;
        }
        if k == last {
            assert forall|t: int| !occurs_at(sub, n@, t) by {
                if 0 <= t <= k - lo {
                }
            }
            return false;
        }
        k = k + 1;
    }
}

/// An ASCII letter or digit: the characters that words are made of.
pub open spec fn is_word_char(c: char) -> bool {
    let u = c as u32;
    (0x30 <= u && u <= 0x39) || (0x41 <= u && u <= 0x5a) || (0x61 <= u && u <= 0x7a)
}

pub fn is_word_char_exec(c: char) -> (b: bool)
    ensures
        b == is_word_char(c),
{
    let u = c as u32;
    (0x30 <= u && u <= 0x39) || (0x41 <= u && u <= 0x5a) || (0x61 <= u && u <= 0x7a)
}

/// `n` occurs in `h` at `k` as a whole word: no letter or digit touches it
/// on either side.
pub open spec fn word_occurs_at(h: Seq<char>, n: Seq<char>, k: int) -> bool {
    &&& occurs_at(h, n, k)
    &&& (k == 0 || !is_word_char(h[k - 1]))
    &&& (k + n.len() == h.len() || !is_word_char(h[k + n.len()]))
}

/// `n` occurs somewhere in `h` as a whole word.
pub open spec fn contains_word(h: Seq<char>, n: Seq<char>) -> bool {
    exists|k: int| #[trigger] word_occurs_at(h, n, k)
}

/// Whether `n` occurs in `h[lo..hi]` as a whole word.
pub fn contains_word_in(h: &Vec<char>, lo: usize, hi: usize, n: &Vec<char>) -> (b: bool)
    requires
        lo <= hi <= h.len(),
    ensures
        b == contains_word(h@.subrange(lo as int, hi as int), n@),
{
    let ghost sub = h@.subrange(lo as int, hi as int);
    if n.len() > hi - lo {
        assert forall|k: int| !word_occurs_at(sub, n@, k) by {}
        return false;
    }
    let last = hi - n.len();
    let mut k = lo;
    loop
        invariant
            lo <= k <= last,
            last + n.len() == hi,
            hi <= h.len(),
            sub == h@.subrange(lo as int, hi as int),
            forall|t: int| 0 <= t < k - lo ==> !word_occurs_at(sub, n@, t),
        decreases last - k,
    {
        assert(sub.subrange(k - lo, k - lo + n.len()) =~= h@.subrange(k as int, k + n.len()));
        let left = k == lo || !is_word_char_exec(h[k - 1]);
        let right = k == last || !is_word_char_exec(h[k + n.len()]);
        if left && right && matches_at(h, k, n) {
            assert(word_occurs_at(sub, n@, k - lo));
            return true;
        }
        assert(!word_occurs_at(sub, n@, k - lo));
        if k == last {
            assert forall|t: int| !word_occurs_at(sub, n@, t) by {
                if 0 <= t <= k - lo {
                }
            }
            return false;
        }
        k = k + 1;
    }
}

/// Dropping a trailing `'\r'` changes neither where a needle without
/// `'\r'` occurs nor whether it stands as a word.
pub proof fn lemma_contains_strip_cr(l: Seq<char>, n: Seq<char>)
    requires
        l.len() > 0,
        l.last() == '\r',
        n.len() > 0,
        forall|i: int| 0 <= i < n.len() ==> n[i] != '\r',
    ensures
        contains_seq(l, n) == contains_seq(l.drop_last(), n),
        contains_word(l, n) == contains_word(l.drop_last(), n),
{
    let l0 = l.drop_last();
    assert(!is_word_char(l.last()));
    if contains_seq(l, n) {
        let k = choose|k: int| #[trigger] occurs_at(l, n, k);
        if k + n.len() == l.len() {
            assert(l.subrange(k, k + n.len())[n.len() - 1] == n[n.len() - 1]);
        }
        assert(l0.subrange(k, k + n.len()) =~= l.subrange(k, k + n.len()));
        assert(occurs_at(l0, n, k));
    }
    if contains_seq(l0, n) {
        let k = choose|k: int| #[trigger] occurs_at(l0, n, k);
        assert(l0.subrange(k, k + n.len()) =~= l.subrange(k, k + n.len()));
        assert(occurs_at(l, n, k));
    }
    if contains_word(l, n) {
        let k = choose|k: int| #[trigger] word_occurs_at(l, n, k);
        if k + n.len() == l.len() {
            assert(l.subrange(k, k + n.len())[n.len() - 1] == n[n.len() - 1]);
        }
        assert(l0.subrange(k, k + n.len()) =~= l.subrange(k, k + n.len()));
        if k > 0 {
            assert(l0[k - 1] == l[k - 1]);
        }
        if k + n.len() < l0.len() {
            assert(l0[k + n.len()] == l[k + n.len()]);
        }
        assert(word_occurs_at(l0, n, k));
    }
    if contains_word(l0, n) {
        let k = choose|k: int| #[trigger] word_occurs_at(l0, n, k);
        assert(l0.subrange(k, k + n.len()) =~= l.subrange(k, k + n.len()));
        if k > 0 {
            assert(l0[k - 1] == l[k - 1]);
        }
        if k + n.len() < l0.len() {
            assert(l0[k + n.len()] == l[k + n.len()]);
        }
        assert(word_occurs_at(l, n, k));
    }
}

/// Whether `h[lo..hi]` begins with `p`.
pub fn starts_with_in(h: &Vec<char>, lo: usize, hi: usize, p: &Vec<char>) -> (b: bool)
    requires
        lo <= hi <= h.len(),
    ensures
        b == starts_with_seq(h@.subrange(lo as int, hi as int), p@),
{
    if p.len() > hi - lo {
        return false;
    }
    let r = matches_at(h, lo, p);
    assert(h@.subrange(lo as int, hi as int).subrange(0, p.len() as int) =~= h@.subrange(
        lo as int,
        lo + p.len(),
    ));
    r
}

/// Whether `h[lo..hi]` is exactly `p`.
pub fn equals_in(h: &Vec<char>, lo: usize, hi: usize, p: &Vec<char>) -> (b: bool)
    requires
        lo <= hi <= h.len(),
    ensures
        b == (h@.subrange(lo as int, hi as int) == p@),
{
    if p.len() != hi - lo {
        return false;
    }
    matches_at(h, lo, p)
}

/// Whether two strings are equal.
pub fn str_eq(a: &str, b: &str) -> (r: bool)
    ensures
        r == (a@ == b@),
{
    let x = chars_of(a);
    let y = chars_of(b);
    let r = equals_in(&x, 0, x.len(), &y);
    assert(x@.subrange(0, x@.len() as int) =~= x@);
    r
}

// ---------------------------------------------------------------------
// Trimming
// ---------------------------------------------------------------------

/// `s` without its leading whitespace.
pub open spec fn trim_start_seq(s: Seq<char>) -> Seq<char>
    decreases s.len(),
{
    if s.len() > 0 && is_white_space(s[0]) {
        trim_start_seq(s.drop_first())
    } else {
        s
    }
}

/// `s` without its trailing whitespace.
pub open spec fn trim_end_seq(s: Seq<char>) -> Seq<char>
    decreases s.len(),
{
    if s.len() > 0 && is_white_space(s.last()) {
        trim_end_seq(s.drop_last())
    } else {
        s
    }
}

/// `s` without leading and trailing whitespace (as `str::trim` gives it).
pub open spec fn trim_seq(s: Seq<char>) -> Seq<char> {
    trim_end_seq(trim_start_seq(s))
}

/// The bounds `(a, b)` of `trim_seq(h[lo..hi])` within `h`.
pub fn trim_bounds(h: &Vec<char>, lo: usize, hi: usize) -> (r: (usize, usize))
    requires
        lo <= hi <= h.len(),
    ensures
        lo <= r.0 <= r.1 <= hi,
        h@.subrange(r.0 as int, r.1 as int) == trim_seq(h@.subrange(lo as int, hi as int)),
        trim_start_seq(h@.subrange(lo as int, hi as int)) == h@.subrange(r.0 as int, hi as int),
{
    let ghost s = h@.subrange(lo as int, hi as int);
    let mut a = lo;
    while a < hi && is_whitespace_char(h[a])
        invariant
            lo <= a <= hi <= h.len(),
            s == h@.subrange(lo as int, hi as int),
            trim_start_seq(s) == trim_start_seq(h@.subrange(a as int, hi as int)),
        decreases hi - a,
    {
        assert(h@.subrange(a as int, hi as int).drop_first() =~= h@.subrange(a + 1, hi as int));
        a = a + 1;
    }
    let ghost t = h@.subrange(a as int, hi as int);
    assert(trim_start_seq(t) == t);
    let mut b = hi;
    while b > a && is_whitespace_char(h[b - 1])
        invariant
            lo <= a <= b <= hi <= h.len(),
            t == h@.subrange(a as int, hi as int),
            trim_end_seq(t) == trim_end_seq(h@.subrange(a as int, b as int)),
        decreases b - a,
    {
        assert(h@.subrange(a as int, b as int).drop_last() =~= h@.subrange(a as int, b - 1));
        b = b - 1;
    }
    (a, b)
}

// ---------------------------------------------------------------------
// Lines
// ---------------------------------------------------------------------

/// The index of the first `'\n'` at or after `i`, or the length of `s`.
pub open spec fn line_end(s: Seq<char>, i: int) -> int
    decreases s.len() - i,
{
    if i >= s.len() {
        s.len() as int
    } else if s[i] == '\n' {
        i
    } else {
        line_end(s, i + 1)
    }
}

pub proof fn lemma_line_end(s: Seq<char>, i: int)
    ensures
        i <= s.len() ==> i <= line_end(s, i) <= s.len(),
        i > s.len() ==> line_end(s, i) == s.len(),
        0 <= i ==> forall|k: int| i <= k < line_end(s, i) ==> s[k] != '\n',
        0 <= i && line_end(s, i) < s.len() ==> s[line_end(s, i)] == '\n',
        line_end(s, i) >= i || line_end(s, i) == s.len(),
    decreases s.len() - i,
{
    if i < s.len() && s[i] != '\n' {
        lemma_line_end(s, i + 1);
    }
}

/// The text of the line that spans `s[i..e]`: a `'\r'` right before the
/// terminating `'\n'` is not part of it.
pub open spec fn line_text(s: Seq<char>, i: int, e: int) -> Seq<char> {
    if e < s.len() && e > i && s[e - 1] == '\r' {
        s.subrange(i, e - 1)
    } else {
        s.subrange(i, e)
    }
}

/// The lines of `s` that start at or after `i`.
pub open spec fn lines_from(s: Seq<char>, i: int) -> Seq<Seq<char>>
    decreases s.len() + 1 - i,
{
    if i < 0 || i >= s.len() {
        Seq::empty()
    } else {
        let e = line_end(s, i);
        proof {
            lemma_line_end(s, i);
        }
        seq![line_text(s, i, e)] + lines_from(s, e + 1)
    }
}

/// The lines of `s`, as `str::lines` yields them: split at `'\n'`, a final
/// `'\n'` ends the last line without starting another, and a `'\r'` before
/// a `'\n'` is dropped.
pub open spec fn lines_of(s: Seq<char>) -> Seq<Seq<char>> {
    lines_from(s, 0)
}

/// For the line that starts at `i`: its end `e` (the index of its `'\n'`, or
/// the length) and the bounds `[i, stop)` of its text.
pub fn next_line(h: &Vec<char>, i: usize) -> (r: (usize, usize))
    requires
        i < h.len(),
    ensures
        r.0 == line_end(h@, i as int),
        i <= r.1 <= r.0 <= h.len(),
        h@.subrange(i as int, r.1 as int) == line_text(h@, i as int, r.0 as int),
        lines_from(h@, i as int) == seq![line_text(h@, i as int, r.0 as int)] + lines_from(
            h@,
            r.0 + 1,
        ),
{
    proof {
        lemma_line_end(h@, i as int);
    }
    let mut e = i;
    while e < h.len() && h[e] != '\n'
        invariant
            i <= e <= h.len(),
            line_end(h@, i as int) == line_end(h@, e as int),
        decreases h.len() - e,
    {
        e = e + 1;
    }
    let stop = if e < h.len() && e > i && h[e - 1] == '\r' {
        e - 1
    } else {
        e
    };
    (e, stop)
}

pub proof fn lemma_lines_past_end(s: Seq<char>, i: int)
    requires
        i >= s.len(),
    ensures
        lines_from(s, i) == Seq::<Seq<char>>::empty(),
{
}

/// `l` without one trailing `'\r'`.
pub open spec fn strip_cr(l: Seq<char>) -> Seq<char> {
    if l.len() > 0 && l.last() == '\r' {
        l.drop_last()
    } else {
        l
    }
}

/// The lines of `x` from `i` on when a `'\n'` follows `x`: that newline ends
/// the last line (dropping a `'\r'` before it), or, when `x` is empty or
/// already ends with a newline, makes an empty line of its own.
pub open spec fn closed_lines(x: Seq<char>, i: int) -> Seq<Seq<char>>
    decreases x.len() + 1 - i,
{
    if i < 0 || i > x.len() {
        Seq::empty()
    } else if i == x.len() {
        seq![Seq::<char>::empty()]
    } else {
        let e = line_end(x, i);
        proof {
            lemma_line_end(x, i);
        }
        if e < x.len() {
            seq![line_text(x, i, e)] + closed_lines(x, e + 1)
        } else {
            seq![strip_cr(x.subrange(i, x.len() as int))]
        }
    }
}

proof fn lemma_line_end_shift(p: Seq<char>, y: Seq<char>, j: int)
    requires
        0 <= j,
    ensures
        line_end(p + y, p.len() + j) == p.len() + line_end(y, j),
    decreases y.len() - j,
{
    if j < y.len() {
        assert((p + y)[p.len() + j] == y[j]);
        if y[j] != '\n' {
            lemma_line_end_shift(p, y, j + 1);
        }
    }
}

/// The lines of `p + y` that start within `y` are the lines of `y`.
pub proof fn lemma_lines_shift(p: Seq<char>, y: Seq<char>, j: int)
    requires
        0 <= j,
    ensures
        lines_from(p + y, p.len() + j) == lines_from(y, j),
    decreases y.len() + 1 - j,
{
    let s = p + y;
    if j < y.len() {
        let e = line_end(y, j);
        lemma_line_end(y, j);
        lemma_line_end_shift(p, y, j);
        if e > j {
            assert(s[p.len() + e - 1] == y[e - 1]);
        }
        assert(s.subrange(p.len() + j, p.len() + e) =~= y.subrange(j, e));
        if e > j {
            assert(s.subrange(p.len() + j, p.len() + e - 1) =~= y.subrange(j, e - 1));
        }
        assert(line_text(s, p.len() + j, p.len() + e) == line_text(y, j, e));
        lemma_lines_shift(p, y, e + 1);
        assert(p.len() + e + 1 == p.len() + (e + 1));
    }
}

proof fn lemma_line_end_before_newline(x: Seq<char>, y: Seq<char>, i: int)
    requires
        0 <= i <= x.len(),
    ensures
        line_end(x + seq!['\n'] + y, i) == (if line_end(x, i) < x.len() {
            line_end(x, i)
        } else {
            x.len() as int
        }),
    decreases x.len() - i,
{
    let s = x + seq!['\n'] + y;
    assert(s[x.len() as int] == '\n');
    if i < x.len() {
        assert(s[i] == x[i]);
        if x[i] != '\n' {
            lemma_line_end_before_newline(x, y, i + 1);
        }
    }
}

/// The lines of `x`, a newline and `y`: the lines that `x` closes, then
/// the lines of `y`.
pub proof fn lemma_lines_concat(x: Seq<char>, y: Seq<char>, i: int)
    requires
        0 <= i <= x.len(),
    ensures
        lines_from(x + seq!['\n'] + y, i) == closed_lines(x, i) + lines_of(y),
    decreases x.len() + 1 - i,
{
    let p = x + seq!['\n'];
    let s = p + y;
    let n = x.len() as int;
    assert(x + seq!['\n'] + y == s);
    lemma_lines_shift(p, y, 0);
    assert(p.len() + 0 == n + 1);
    assert(s[n] == '\n');
    lemma_line_end_before_newline(x, y, i);
    if i == n {
        assert(line_end(s, n) == n);
        assert(line_text(s, n, n) =~= Seq::<char>::empty());
    } else {
        let e = line_end(x, i);
        lemma_line_end(x, i);
        if e < n {
            assert(s.subrange(i, e) =~= x.subrange(i, e));
            if e > i {
                assert(s[e - 1] == x[e - 1]);
                assert(s.subrange(i, e - 1) =~= x.subrange(i, e - 1));
            }
            assert(line_text(s, i, e) == line_text(x, i, e));
            lemma_lines_concat(x, y, e + 1);
            assert(seq![line_text(x, i, e)] + (closed_lines(x, e + 1) + lines_of(y)) =~= (seq![
                line_text(x, i, e),
            ] + closed_lines(x, e + 1)) + lines_of(y));
        } else {
            assert(s.subrange(i, n) =~= x.subrange(i, n));
            if n > i {
                assert(s[n - 1] == x[n - 1]);
                assert(s.subrange(i, n - 1) =~= x.subrange(i, n).drop_last());
            }
            assert(line_text(s, i, n) == strip_cr(x.subrange(i, n)));
        }
    }
}

/// The pieces of `x`, a newline and `y`: those of `x`, then those of `y`.
pub proof fn lemma_newline_pieces_concat(x: Seq<char>, y: Seq<char>)
    ensures
        newline_pieces(x + seq!['\n'] + y) == newline_pieces(x) + newline_pieces(y),
    decreases x.len(),
{
    let s = x + seq!['\n'] + y;
    let n = x.len() as int;
    lemma_line_end_before_newline(x, y, 0);
    lemma_line_end(x, 0);
    lemma_line_end(s, 0);
    let e = line_end(x, 0);
    if e >= n {
        assert(s.subrange(0, n) =~= x);
        assert(s.subrange(n + 1, s.len() as int) =~= y);
    } else {
        let rest = x.subrange(e + 1, n);
        assert(s.subrange(0, e) =~= x.subrange(0, e));
        assert(s.subrange(e + 1, s.len() as int) =~= rest + seq!['\n'] + y);
        lemma_newline_pieces_concat(rest, y);
        assert(seq![x.subrange(0, e)] + (newline_pieces(rest) + newline_pieces(y)) =~= (seq![
            x.subrange(0, e),
        ] + newline_pieces(rest)) + newline_pieces(y));
    }
}

/// The pieces of `s[i..]`, by where the line that starts at `i` ends.
pub proof fn lemma_newline_pieces_from(s: Seq<char>, i: int)
    requires
        0 <= i <= s.len(),
    ensures
        i == s.len() ==> newline_pieces(s.subrange(i, s.len() as int)) == seq![
            Seq::<char>::empty(),
        ],
        i < s.len() && line_end(s, i) < s.len() ==> newline_pieces(
            s.subrange(i, s.len() as int),
        ) == seq![s.subrange(i, line_end(s, i))] + newline_pieces(
            s.subrange(line_end(s, i) + 1, s.len() as int),
        ),
        i < s.len() && line_end(s, i) >= s.len() ==> newline_pieces(
            s.subrange(i, s.len() as int),
        ) == seq![s.subrange(i, s.len() as int)],
{
    let n = s.len() as int;
    let t = s.subrange(i, n);
    let p = s.subrange(0, i);
    assert(p + t =~= s);
    lemma_line_end_shift(p, t, 0);
    lemma_line_end(t, 0);
    lemma_line_end(s, i);
    if i == n {
        assert(t =~= Seq::<char>::empty());
    } else {
        let e = line_end(s, i);
        assert(line_end(t, 0) == e - i);
        if e < n {
            assert(t.subrange(0, e - i) =~= s.subrange(i, e));
            assert(t.subrange(e - i + 1, t.len() as int) =~= s.subrange(e + 1, n));
        }
    }
}

/// What `closed_lines` adds to the lines of `x`: its last line may lose a
/// trailing `'\r'`, and an empty line may follow.
pub proof fn lemma_closed_lines_shape(x: Seq<char>, i: int)
    requires
        0 <= i <= x.len(),
    ensures
        i == x.len() ==> closed_lines(x, i) == seq![Seq::<char>::empty()] && lines_from(x, i)
            == Seq::<Seq<char>>::empty(),
        i < x.len() && line_end(x, i) < x.len() ==> closed_lines(x, i) == seq![
            line_text(x, i, line_end(x, i)),
        ] + closed_lines(x, line_end(x, i) + 1) && lines_from(x, i) == seq![
            line_text(x, i, line_end(x, i)),
        ] + lines_from(x, line_end(x, i) + 1),
        i < x.len() && line_end(x, i) >= x.len() ==> closed_lines(x, i) == seq![
            strip_cr(x.subrange(i, x.len() as int)),
        ] && lines_from(x, i) == seq![x.subrange(i, x.len() as int)],
{
    if i < x.len() {
        lemma_line_end(x, i);
        let e = line_end(x, i);
        if e >= x.len() {
            lemma_lines_past_end(x, e + 1);
            assert(seq![x.subrange(i, x.len() as int)] + Seq::<Seq<char>>::empty() =~= seq![
                x.subrange(i, x.len() as int),
            ]);
        }
    }
}

// ---------------------------------------------------------------------
// Words
// ---------------------------------------------------------------------

/// The index of the first whitespace character at or after `i`, or the length.
pub open spec fn word_end(s: Seq<char>, i: int) -> int
    decreases s.len() - i,
{
    if i >= s.len() {
        s.len() as int
    } else if is_white_space(s[i]) {
        i
    } else {
        word_end(s, i + 1)
    }
}

pub proof fn lemma_word_end(s: Seq<char>, i: int)
    requires
        0 <= i <= s.len(),
    ensures
        i <= word_end(s, i) <= s.len(),
    decreases s.len() - i,
{
    if i < s.len() && !is_white_space(s[i]) {
        lemma_word_end(s, i + 1);
    }
}

/// The whitespace-separated words of `s` from `i` on.
pub open spec fn words_from(s: Seq<char>, i: int) -> Seq<Seq<char>>
    decreases s.len() - i,
{
    if i < 0 || i >= s.len() {
        Seq::empty()
    } else if is_white_space(s[i]) {
        words_from(s, i + 1)
    } else {
        let e = word_end(s, i);
        proof {
            lemma_word_end(s, i + 1);
        }
        seq![s.subrange(i, e)] + words_from(s, e)
    }
}

/// The words of `s`, as `str::split_whitespace` yields them.
pub open spec fn words_of(s: Seq<char>) -> Seq<Seq<char>> {
    words_from(s, 0)
}

/// The characters `h[lo..hi]`.
pub fn chars_in(h: &Vec<char>, lo: usize, hi: usize) -> (r: Vec<char>)
    requires
        lo <= hi <= h.len(),
    ensures
        r@ == h@.subrange(lo as int, hi as int),
{
    let mut r: Vec<char> = Vec::new();
    let mut i = lo;
    while i < hi
        invariant
            lo <= i <= hi <= h.len(),
            r@ == h@.subrange(lo as int, i as int),
        decreases hi - i,
    {
        r.push(h[i]);
        assert(r@ =~= h@.subrange(lo as int, i + 1));
        i = i + 1;
    }
    r
}

/// From position `i` of `s` (not whitespace): the end of the word there.
pub fn word_end_at(s: &Vec<char>, i: usize) -> (e: usize)
    requires
        i < s.len(),
        !is_white_space(s@[i as int]),
    ensures
        e == word_end(s@, i as int),
        i < e <= s.len(),
        words_from(s@, i as int) == seq![s@.subrange(i as int, e as int)] + words_from(s@, e as int),
{
    proof {
        lemma_word_end(s@, i + 1);
    }
    let mut e = i + 1;
    while e < s.len() && !is_whitespace_char(s[e])
        invariant
            i < e <= s.len(),
            word_end(s@, i as int) == word_end(s@, e as int),
        decreases s.len() - e,
    {
        e = e + 1;
    }
    e
}

// ---------------------------------------------------------------------
// Decimal and hexadecimal digits
// ---------------------------------------------------------------------

/// The character of a decimal digit.
pub open spec fn decimal_char(d: nat) -> char {
    if d == 0 {
        '0'
    } else if d == 1 {
        '1'
    } else if d == 2 {
        '2'
    } else if d == 3 {
        '3'
    } else if d == 4 {
        '4'
    } else if d == 5 {
        '5'
    } else if d == 6 {
        '6'
    } else if d == 7 {
        '7'
    } else if d == 8 {
        '8'
    } else {
        '9'
    }
}

/// The decimal digits of `n`, most significant first, without leading zeros.
pub open spec fn decimal_digits(n: nat) -> Seq<char>
    decreases n,
{
    if n < 10 {
        seq![decimal_char(n)]
    } else {
        decimal_digits(n / 10).push(decimal_char(n % 10))
    }
}

fn digit_char(d: u32) -> (c: char)
    requires
        d < 16,
    ensures
        d < 10 ==> c == decimal_char(d as nat),
        d >= 10 ==> c == hex_char(d as nat),
{
    let c = if d == 0 {
        '0'
    } else if d == 1 {
        '1'
    } else if d == 2 {
        '2'
    } else if d == 3 {
        '3'
    } else if d == 4 {
        '4'
    } else if d == 5 {
        '5'
    } else if d == 6 {
        '6'
    } else if d == 7 {
        '7'
    } else if d == 8 {
        '8'
    } else if d == 9 {
        '9'
    } else if d == 10 {
        'a'
    } else if d == 11 {
        'b'
    } else if d == 12 {
        'c'
    } else if d == 13 {
        'd'
    } else if d == 14 {
        'e'
    } else {
        'f'
    };
    c
}

/// The decimal form of `n`, as `u32`'s `Display` writes it.
pub fn decimal_u32(n: u32) -> (r: Vec<char>)
    ensures
        r@ == decimal_digits(n as nat),
    decreases n,
{
    if n < 10 {
        let mut r = Vec::new();
        r.push(digit_char(n));
        r
    } else {
        let mut r = decimal_u32(n / 10);
        r.push(digit_char(n % 10));
        r
    }
}

pub open spec fn is_ascii_digit(c: char) -> bool {
    0x30 <= (c as u32) && (c as u32) <= 0x39
}

/// The value of a string of decimal digits.
pub open spec fn digits_value(s: Seq<char>) -> nat
    decreases s.len(),
{
    if s.len() == 0 {
        0
    } else {
        digits_value(s.drop_last()) * 10 + ((s.last() as u32) - 0x30) as nat
    }
}

pub open spec fn all_ascii_digits(d: Seq<char>) -> bool {
    forall|i: int| 0 <= i < d.len() ==> #[trigger] is_ascii_digit(d[i])
}

/// `s` without one leading `'+'`, if it has one.
pub open spec fn unsigned_digits(s: Seq<char>) -> Seq<char> {
    if s.len() > 0 && s[0] == '+' {
        s.drop_first()
    } else {
        s
    }
}

/// What `str::parse::<u32>` gives: an optional `'+'` and then at least one
/// ASCII digit, with a value that fits in a `u32`.
pub open spec fn parse_u32_spec(s: Seq<char>) -> Option<u32> {
    let d = unsigned_digits(s);
    if d.len() > 0 && all_ascii_digits(d) && digits_value(d) <= u32::MAX {
        Some(digits_value(d) as u32)
    } else {
        None
    }
}

proof fn lemma_digits_value_grows(s: Seq<char>, j: int)
    requires
        0 <= j <= s.len(),
        forall|i: int| 0 <= i < s.len() ==> #[trigger] is_ascii_digit(s[i]),
    ensures
        digits_value(s.take(j)) <= digits_value(s),
    decreases s.len(),
{
    if j < s.len() {
        assert(s.drop_last().take(j) =~= s.take(j));
        lemma_digits_value_grows(s.drop_last(), j);
    } else {
        assert(s.take(j) =~= s);
    }
}

/// Parses `h[lo..hi]` as `str::parse::<u32>` does.
pub fn parse_u32_in(h: &Vec<char>, lo: usize, hi: usize) -> (r: Option<u32>)
    requires
        lo <= hi <= h.len(),
    ensures
        r == parse_u32_spec(h@.subrange(lo as int, hi as int)),
{
    let ghost s = h@.subrange(lo as int, hi as int);
    let start = if lo < hi && h[lo] == '+' {
        lo + 1
    } else {
        lo
    };
    let ghost d = h@.subrange(start as int, hi as int);
    assert(d =~= unsigned_digits(s));
    if start == hi {
        return None;
    }
    let mut acc: u64 = 0;
    let mut i = start;
    while i < hi
        invariant
            start <= i <= hi <= h.len(),
            d == h@.subrange(start as int, hi as int),
            s == h@.subrange(lo as int, hi as int),
            d == unsigned_digits(s),
            lo <= start,
            acc == digits_value(d.take(i - start)),
            acc <= u32::MAX,
            forall|t: int| 0 <= t < i - start ==> #[trigger] is_ascii_digit(d[t]),
        decreases hi - i,
    {
        let c = h[i];
        let u = c as u32;
        if u < 0x30 || u > 0x39 {
            assert(!is_ascii_digit(d[i - start]));
            assert(parse_u32_spec(s) is None);
            return None;
        }
        assert(d.take(i + 1 - start).drop_last() =~= d.take(i - start));
        acc = acc * 10 + (u - 0x30) as u64;
        if acc > 0xffff_ffff {
            assert(parse_u32_spec(s) is None) by {
                if all_ascii_digits(d) {
                    lemma_digits_value_grows(d, i + 1 - start);
                }
            }
            return None;
        }
        i = i + 1;
    }
    assert(d.take(hi - start) =~= d);
    Some(acc as u32)
}

proof fn lemma_decimal_char(k: nat)
    requires
        k < 10,
    ensures
        decimal_char(k) as u32 == 0x30 + k,
{
}

proof fn lemma_decimal_digits(n: nat)
    ensures
        decimal_digits(n).len() > 0,
        all_ascii_digits(decimal_digits(n)),
        digits_value(decimal_digits(n)) == n,
    decreases n,
{
    let d = decimal_digits(n);
    if n < 10 {
        lemma_decimal_char(n);
        assert(d.drop_last() =~= Seq::<char>::empty());
        assert(digits_value(d.drop_last()) == 0);
        assert(d.last() == decimal_char(n));
        assert(digits_value(d) == n);
    } else {
        lemma_decimal_digits(n / 10);
        assert(d.drop_last() =~= decimal_digits(n / 10));
        lemma_decimal_char(n % 10);
        let k = ((d.last() as u32) - 0x30) as nat;
        assert(d.last() == decimal_char(n % 10));
        assert(k == n % 10);
        assert(digits_value(d) == digits_value(d.drop_last()) * 10 + k);
        assert(digits_value(d.drop_last()) == n / 10);
        assert((n / 10) * 10 + n % 10 == n);
        assert(digits_value(d) == n);
        assert forall|i: int| 0 <= i < d.len() implies #[trigger] is_ascii_digit(d[i]) by {
            if i < d.len() - 1 {
                assert(d[i] == decimal_digits(n / 10)[i]);
            }
        }
    }
}

/// Writing a `u32` in decimal and reading it back gives the same number.
pub proof fn decimal_roundtrip(n: u32)
    ensures
        parse_u32_spec(decimal_digits(n as nat)) == Some(n),
{
    let d = decimal_digits(n as nat);
    lemma_decimal_digits(n as nat);
    assert(is_ascii_digit(d[0]));
    assert(unsigned_digits(d) == d);
}

/// The character of a hexadecimal digit (lowercase).
pub open spec fn hex_char(d: nat) -> char {
    if d < 10 {
        decimal_char(d)
    } else if d == 10 {
        'a'
    } else if d == 11 {
        'b'
    } else if d == 12 {
        'c'
    } else if d == 13 {
        'd'
    } else if d == 14 {
        'e'
    } else {
        'f'
    }
}

pub open spec fn pow16(c: nat) -> nat
    decreases c,
{
    if c == 0 {
        1
    } else {
        16 * pow16((c - 1) as nat)
    }
}

/// Below `16^count`, different numbers have different digits.
pub proof fn lemma_hex_digits_injective(a: nat, b: nat, count: nat)
    requires
        a < pow16(count),
        b < pow16(count),
        hex_digits(a, count) == hex_digits(b, count),
    ensures
        a == b,
    decreases count,
{
    if count > 0 {
        let da = hex_digits(a, count);
        let db = hex_digits(b, count);
        assert(da.last() == hex_char(a % 16));
        assert(db.last() == hex_char(b % 16));
        assert(a % 16 == b % 16);
        assert(da.drop_last() =~= hex_digits(a / 16, (count - 1) as nat));
        assert(db.drop_last() =~= hex_digits(b / 16, (count - 1) as nat));
        lemma_hex_digits_injective(a / 16, b / 16, (count - 1) as nat);
    }
}

pub proof fn lemma_hex_digits_len(n: nat, count: nat)
    ensures
        hex_digits(n, count).len() == count,
        forall|i: int| 0 <= i < count ==> (#[trigger] hex_digits(n, count)[i]) != '/',
    decreases count,
{
    if count > 0 {
        lemma_hex_digits_len(n / 16, (count - 1) as nat);
    }
}

pub proof fn lemma_pow16_16()
    ensures
        pow16(16) == 0x1_0000_0000_0000_0000,
{
    reveal_with_fuel(pow16, 17);
}

/// The last `count` hexadecimal digits of `n`, most significant first,
/// padded with zeros.
pub open spec fn hex_digits(n: nat, count: nat) -> Seq<char>
    decreases count,
{
    if count == 0 {
        Seq::empty()
    } else {
        hex_digits(n / 16, (count - 1) as nat).push(hex_char(n % 16))
    }
}

/// The `count` lowest hexadecimal digits of `n`, zero padded (as the
/// `{:0count$x}` format writes a value below `16^count`).
pub fn hex_u64(n: u64, count: u32) -> (r: Vec<char>)
    ensures
        r@ == hex_digits(n as nat, count as nat),
    decreases count,
{
    if count == 0 {
        Vec::new()
    } else {
        let mut r = hex_u64(n / 16, count - 1);
        r.push(digit_char((n % 16) as u32));
        r
    }
}

} // verus!
