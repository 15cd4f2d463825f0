//! Text primitives over sequences of characters.
//!
//! Every rule of this crate that reads a string (a clone URL, a reflog line, a
//! shell profile) is stated over `Seq<char>` with the functions of this module.
//! The executable versions work on a `Vec<char>` and a window `lo..hi` into it,
//! so that a caller can cut the pieces it needs out of the string itself.

use vstd::prelude::*;
use vstd::string::*;

verus! {

/// Index of the first occurrence of `c` in `s`; `s.len()` when `c` does not occur.
pub open spec fn find_char(s: Seq<char>, c: char) -> int
    decreases s.len(),
{
    if s.len() == 0 {
        0
    } else if s[0] == c {
        0
    } else {
        1 + find_char(s.drop_first(), c)
    }
}

/// The pieces of `s` between occurrences of `sep`. A text with `n` separators
/// has `n + 1` pieces; pieces may be empty.
pub open spec fn split(s: Seq<char>, sep: char) -> Seq<Seq<char>>
    decreases s.len(),
{
    let i = find_char(s, sep);
    if 0 <= i < s.len() {
        seq![s.take(i)] + split(s.skip(i + 1), sep)
    } else {
        seq![s]
    }
}

/// `s` starts with `pat`.
pub open spec fn starts_with(s: Seq<char>, pat: Seq<char>) -> bool {
    pat.len() <= s.len() && s.take(pat.len() as int) == pat
}

/// `s` ends with `pat`.
pub open spec fn ends_with(s: Seq<char>, pat: Seq<char>) -> bool {
    pat.len() <= s.len() && s.skip(s.len() - pat.len()) == pat
}

/// `s` without every leading repetition of `pat`. An empty `pat` removes nothing.
pub open spec fn trim_start_matches(s: Seq<char>, pat: Seq<char>) -> Seq<char>
    decreases s.len(),
{
    if pat.len() > 0 && starts_with(s, pat) {
        trim_start_matches(s.skip(pat.len() as int), pat)
    } else {
        s
    }
}

/// `s` without every trailing repetition of `pat`. An empty `pat` removes nothing.
pub open spec fn trim_end_matches(s: Seq<char>, pat: Seq<char>) -> Seq<char>
    decreases s.len(),
{
    if pat.len() > 0 && ends_with(s, pat) {
        trim_end_matches(s.take(s.len() - pat.len()), pat)
    } else {
        s
    }
}

/// `pat` occurs in `s` at index `i`.
pub open spec fn occurs_at(s: Seq<char>, pat: Seq<char>, i: int) -> bool {
    0 <= i && i + pat.len() <= s.len() && s.subrange(i, i + pat.len()) == pat
}

/// `pat` occurs somewhere in `s`.
pub open spec fn contains_text(s: Seq<char>, pat: Seq<char>) -> bool {
    exists|i: int| occurs_at(s, pat, i)
}

/// `find_char` stays within the text, points at `c` when it points inside, and
/// passes over no earlier `c`.
pub proof fn lemma_find_char(s: Seq<char>, c: char)
    ensures
        0 <= find_char(s, c) <= s.len(),
        find_char(s, c) < s.len() ==> s[find_char(s, c)] == c,
        forall|j: int| 0 <= j < find_char(s, c) ==> s[j] != c,
    decreases s.len(),
{
    if s.len() > 0 && s[0] != c {
        let t = s.drop_first();
        lemma_find_char(t, c);
        assert forall|j: int| 0 <= j < find_char(s, c) implies s[j] != c by {
            if j > 0 {
                assert(s[j] == t[j - 1]);
            }
        }
        if find_char(s, c) < s.len() {
            assert(s[find_char(s, c)] == t[find_char(t, c)]);
        }
    }
}

/// The first index of `c` is the only index that holds `c` with none before it.
pub proof fn lemma_find_char_unique(s: Seq<char>, c: char, i: int)
    requires
        0 <= i <= s.len(),
        i < s.len() ==> s[i] == c,
        forall|j: int| 0 <= j < i ==> s[j] != c,
    ensures
        find_char(s, c) == i,
{
    lemma_find_char(s, c);
    let k = find_char(s, c);
    if k < i {
        assert(s[k] != c);
    } else if i < k {
        assert(s[i] != c);
    }
}

/// Index of the last occurrence of `c` in `s`; `-1` when `c` does not occur.
pub open spec fn rfind_char(s: Seq<char>, c: char) -> int
    decreases s.len(),
{
    if s.len() == 0 {
        -1
    } else if s.last() == c {
        s.len() - 1
    } else {
        rfind_char(s.drop_last(), c)
    }
}

/// What follows the last occurrence of `c` in `s`; all of `s` when `c` does
/// not occur.
pub open spec fn after_last(s: Seq<char>, c: char) -> Seq<char> {
    s.skip(rfind_char(s, c) + 1)
}

/// `rfind_char` stays within the text, points at `c` unless it is `-1`, and
/// passes over no later `c`; it is `-1` exactly when `c` does not occur.
pub proof fn lemma_rfind_char(s: Seq<char>, c: char)
    ensures
        -1 <= rfind_char(s, c) < s.len(),
        rfind_char(s, c) >= 0 ==> s[rfind_char(s, c)] == c,
        forall|j: int| rfind_char(s, c) < j < s.len() ==> s[j] != c,
        rfind_char(s, c) >= 0 <==> s.contains(c),
    decreases s.len(),
{
    if s.len() > 0 && s.last() != c {
        let t = s.drop_last();
        lemma_rfind_char(t, c);
        assert forall|j: int| rfind_char(s, c) < j < s.len() implies s[j] != c by {
            if j < t.len() {
                assert(s[j] == t[j]);
            }
        }
        if rfind_char(s, c) >= 0 {
            assert(s[rfind_char(s, c)] == t[rfind_char(t, c)]);
        }
        if s.contains(c) {
            let k = choose|k: int| 0 <= k < s.len() && s[k] == c;
            assert(t[k] == c);
            assert(t.contains(c));
        }
    }
}

/// The last index of `c` is the only index that holds `c` with none behind it.
pub proof fn lemma_rfind_char_unique(s: Seq<char>, c: char, i: int)
    requires
        -1 <= i < s.len(),
        i >= 0 ==> s[i] == c,
        forall|j: int| i < j < s.len() ==> s[j] != c,
    ensures
        rfind_char(s, c) == i,
{
    lemma_rfind_char(s, c);
    let k = rfind_char(s, c);
    if k > i {
        assert(s[k] != c);
    } else if k < i {
        assert(s[i] != c);
    }
}

/// The first piece of a split ends at the first separator, and a text with a
/// separator has a second piece: the first piece of what follows the separator.
pub proof fn lemma_split_head(s: Seq<char>, sep: char)
    ensures
        split(s, sep).len() >= 1,
        split(s, sep)[0] == s.take(find_char(s, sep)),
        find_char(s, sep) >= s.len() ==> split(s, sep).len() == 1,
        find_char(s, sep) < s.len() ==> split(s, sep).len() >= 2 && split(s, sep)[1] == split(
            s.skip(find_char(s, sep) + 1),
            sep,
        )[0],
    decreases s.len(),
{
    lemma_find_char(s, sep);
    let i = find_char(s, sep);
    if i < s.len() {
        lemma_split_head(s.skip(i + 1), sep);
    } else {
        assert(s.take(i) =~= s);
    }
}

/// No piece of a split holds the separator.
pub proof fn lemma_split_pieces(s: Seq<char>, sep: char)
    ensures
        forall|k: int| 0 <= k < split(s, sep).len() ==> !(#[trigger] split(s, sep)[k]).contains(sep),
    decreases s.len(),
{
    lemma_find_char(s, sep);
    let i = find_char(s, sep);
    if i < s.len() {
        lemma_split_pieces(s.skip(i + 1), sep);
        let rest = split(s.skip(i + 1), sep);
        assert forall|k: int| 0 <= k < split(s, sep).len() implies !(#[trigger] split(s, sep)[k]).contains(
            sep,
        ) by {
            if k == 0 {
                assert(split(s, sep)[0] == s.take(i));
            } else {
                assert(split(s, sep)[k] == rest[k - 1]);
            }
        }
    }
}

/// A text without the separator is its own single piece.
pub proof fn lemma_split_whole(s: Seq<char>, sep: char)
    requires
        !s.contains(sep),
    ensures
        split(s, sep) == seq![s],
{
    lemma_find_char(s, sep);
}

/// The characters of a string, in order.
pub fn to_chars(s: &str) -> (v: Vec<char>)
    ensures
        v@ == s@,
{
    let mut v: Vec<char> = Vec::new();
    for c in it: s.chars()
        invariant
            it.seq() == s@,
            v@ == it.seq().take(it.index() as int),
    {
        v.push(c);
    }
    v
}

/// The characters `lo..hi` of a string, as a string of their own.
pub(crate) fn substring(s: &str, lo: usize, hi: usize) -> (r: String)
    requires
        lo <= hi <= s@.len(),
    ensures
        r@ == s@.subrange(lo as int, hi as int),
{
    s.substring_char(lo, hi).to_owned()
}

/// First index of `c` within the window `lo..hi`; `hi` when there is none.
pub(crate) fn find_in(v: &Vec<char>, lo: usize, hi: usize, c: char) -> (r: usize)
    requires
        lo <= hi <= v.len(),
    ensures
        lo <= r <= hi,
        r - lo == find_char(v@.subrange(lo as int, hi as int), c),
{
    let ghost w = v@.subrange(lo as int, hi as int);
    let mut i: usize = lo;
    while i < hi && v[i] != c
        invariant
            lo <= i <= hi <= v.len(),
            w == v@.subrange(lo as int, hi as int),
            forall|j: int| 0 <= j < i - lo ==> w[j] != c,
        decreases hi - i,
    {
        i += 1;
    }
    proof {
        lemma_find_char_unique(w, c, i - lo);
    }
    i
}

/// Index behind the last occurrence of `c` within the window `lo..hi`; `lo`
/// when there is none.
pub(crate) fn rfind_in(v: &Vec<char>, lo: usize, hi: usize, c: char) -> (r: usize)
    requires
        lo <= hi <= v.len(),
    ensures
        lo <= r <= hi,
        r - lo == rfind_char(v@.subrange(lo as int, hi as int), c) + 1,
{
    let ghost w = v@.subrange(lo as int, hi as int);
    let mut i: usize = hi;
    while i > lo && v[i - 1] != c
        invariant
            lo <= i <= hi <= v.len(),
            w == v@.subrange(lo as int, hi as int),
            forall|j: int| i - lo <= j < hi - lo ==> w[j] != c,
        decreases i - lo,
    {
        i -= 1;
    }
    proof {
        lemma_rfind_char_unique(w, c, i - lo - 1);
    }
    i
}

/// Whether the window `lo..hi` starts with `pat`.
pub(crate) fn starts_with_in(v: &Vec<char>, lo: usize, hi: usize, pat: &Vec<char>) -> (r: bool)
    requires
        lo <= hi <= v.len(),
    ensures
        r == starts_with(v@.subrange(lo as int, hi as int), pat@),
{
    let ghost w = v@.subrange(lo as int, hi as int);
    if pat.len() > hi - lo {
        return false;
    }
    let mut k: usize = 0;
    while k < pat.len()
        invariant
            lo <= hi <= v.len(),
            pat.len() <= hi - lo,
            k <= pat.len(),
            w == v@.subrange(lo as int, hi as int),
            forall|j: int| 0 <= j < k ==> w[j] == pat@[j],
        decreases pat.len() - k,
    {
        if v[lo + k] != pat[k] {
            assert(w.take(pat.len() as int)[k as int] != pat@[k as int]);
            return false;
        }
        k += 1;
    }
    assert(w.take(pat.len() as int) =~= pat@);
    true
}

/// Whether the window `lo..hi` ends with `pat`.
pub(crate) fn ends_with_in(v: &Vec<char>, lo: usize, hi: usize, pat: &Vec<char>) -> (r: bool)
    requires
        lo <= hi <= v.len(),
    ensures
        r == ends_with(v@.subrange(lo as int, hi as int), pat@),
{
    let ghost w = v@.subrange(lo as int, hi as int);
    if pat.len() > hi - lo {
        return false;
    }
    let base: usize = hi - pat.len();
    let mut k: usize = 0;
    while k < pat.len()
        invariant
            lo <= base <= hi <= v.len(),
            base == hi - pat.len(),
            k <= pat.len(),
            w == v@.subrange(lo as int, hi as int),
            forall|j: int| 0 <= j < k ==> w[base - lo + j] == pat@[j],
        decreases pat.len() - k,
    {
        if v[base + k] != pat[k] {
            assert(w.skip(w.len() - pat.len())[k as int] != pat@[k as int]);
            return false;
        }
        k += 1;
    }
    assert(w.skip(w.len() - pat.len()) =~= pat@);
    true
}

/// Start of what is left of the window `lo..hi` once every leading `pat` is gone.
pub(crate) fn trim_start_in(v: &Vec<char>, lo: usize, hi: usize, pat: &Vec<char>) -> (r: usize)
    requires
        lo <= hi <= v.len(),
    ensures
        lo <= r <= hi,
        v@.subrange(r as int, hi as int) == trim_start_matches(
            v@.subrange(lo as int, hi as int),
            pat@,
        ),
{
    let mut i: usize = lo;
    if pat.len() == 0 {
        return i;
    }
    while starts_with_in(v, i, hi, pat)
        invariant
            lo <= i <= hi <= v.len(),
            pat.len() > 0,
            trim_start_matches(v@.subrange(i as int, hi as int), pat@) == trim_start_matches(
                v@.subrange(lo as int, hi as int),
                pat@,
            ),
        decreases hi - i,
    {
        assert(v@.subrange(i as int, hi as int).skip(pat.len() as int) =~= v@.subrange(
            i + pat.len(),
            hi as int,
        ));
        i += pat.len();
    }
    i
}

/// End of what is left of the window `lo..hi` once every trailing `pat` is gone.
pub(crate) fn trim_end_in(v: &Vec<char>, lo: usize, hi: usize, pat: &Vec<char>) -> (r: usize)
    requires
        lo <= hi <= v.len(),
    ensures
        lo <= r <= hi,
        v@.subrange(lo as int, r as int) == trim_end_matches(
            v@.subrange(lo as int, hi as int),
            pat@,
        ),
{
    let mut i: usize = hi;
    if pat.len() == 0 {
        return i;
    }
    while ends_with_in(v, lo, i, pat)
        invariant
            lo <= i <= hi <= v.len(),
            pat.len() > 0,
            trim_end_matches(v@.subrange(lo as int, i as int), pat@) == trim_end_matches(
                v@.subrange(lo as int, hi as int),
                pat@,
            ),
        decreases i - lo,
    {
        assert(v@.subrange(lo as int, i as int).take(i - lo - pat.len()) =~= v@.subrange(
            lo as int,
            i - pat.len(),
        ));
        i -= pat.len();
    }
    i
}

/// Whether two strings hold the same characters.
pub fn same_text(a: &str, b: &str) -> (r: bool)
    ensures
        r == (a@ == b@),
{
    let x = to_chars(a);
    let y = to_chars(b);
    if x.len() != y.len() {
        return false;
    }
    let mut i: usize = 0;
    while i < x.len()
        invariant
            x@ == a@,
            y@ == b@,
            x.len() == y.len(),
            i <= x.len(),
            forall|j: int| 0 <= j < i ==> x@[j] == y@[j],
        decreases x.len() - i,
    {
        if x[i] != y[i] {
            assert(a@[i as int] != b@[i as int]);
            return false;
        }
        i += 1;
    }
    assert(x@ =~= y@);
    true
}

/// Whether a list of names holds a name.
pub fn contains_name(names: &Vec<String>, name: &str) -> (r: bool)
    ensures
        r == names.deep_view().contains(name@),
{
    let mut i: usize = 0;
    while i < names.len()
        invariant
            i <= names.len(),
            forall|j: int| 0 <= j < i ==> names.deep_view()[j] != name@,
        decreases names.len() - i,
    {
        if same_text(names[i].as_str(), name) {
            assert(names.deep_view()[i as int] == name@);
            return true;
        }
        i += 1;
    }
    false
}

/// Two texts, one after the other.
pub fn concat2(a: &str, b: &str) -> (r: String)
    ensures
        r@ == a@ + b@,
{
    let mut out = a.to_owned();
    out.append(b);
    out
}

/// Three texts, one after the other.
pub fn concat3(a: &str, b: &str, c: &str) -> (r: String)
    ensures
        r@ == a@ + b@ + c@,
{
    let mut out = a.to_owned();
    out.append(b);
    out.append(c);
    out
}

/// Whether a character is white space: the characters with the Unicode property
/// `White_Space`.
pub open spec fn is_whitespace(c: char) -> bool {
    let n = c as u32;
    ||| 0x09 <= n <= 0x0d
    ||| n == 0x20
    ||| n == 0x85
    ||| n == 0xa0
    ||| n == 0x1680
    ||| 0x2000 <= n <= 0x200a
    ||| n == 0x2028
    ||| n == 0x2029
    ||| n == 0x202f
    ||| n == 0x205f
    ||| n == 0x3000
}

/// How many characters at the start of `s` are white space (`space` is true) or
/// are not (`space` is false).
pub open spec fn leading(s: Seq<char>, space: bool) -> int
    decreases s.len(),
{
    if s.len() == 0 || is_whitespace(s[0]) != space {
        0
    } else {
        1 + leading(s.drop_first(), space)
    }
}

/// How many characters at the end of `s` are white space (`space` is true) or
/// are not (`space` is false).
pub open spec fn trailing(s: Seq<char>, space: bool) -> int
    decreases s.len(),
{
    if s.len() == 0 || is_whitespace(s.last()) != space {
        0
    } else {
        1 + trailing(s.drop_last(), space)
    }
}

/// The first run of characters of `s` that are not white space; `None` where
/// `s` holds nothing else.
pub open spec fn first_word(s: Seq<char>) -> Option<Seq<char>> {
    let start = leading(s, true);
    if start >= s.len() {
        None
    } else {
        Some(s.subrange(start, start + leading(s.skip(start), false)))
    }
}

/// The last run of characters of `s` that are not white space; `None` where
/// `s` holds nothing else.
pub open spec fn last_word(s: Seq<char>) -> Option<Seq<char>> {
    let end = s.len() - trailing(s, true);
    if end <= 0 {
        None
    } else {
        Some(s.subrange(end - trailing(s.take(end), false), end))
    }
}

/// `s` without the white space at its two ends.
pub open spec fn trimmed(s: Seq<char>) -> Seq<char> {
    let start = leading(s, true);
    if start >= s.len() {
        Seq::empty()
    } else {
        s.subrange(start, s.len() - trailing(s, true))
    }
}

/// `leading` is the one length up to which every character is of the kind and
/// at which the text ends or a character of the other kind stands.
pub proof fn lemma_leading(s: Seq<char>, space: bool, i: int)
    requires
        0 <= i <= s.len(),
        forall|j: int| 0 <= j < i ==> is_whitespace(#[trigger] s[j]) == space,
        i < s.len() ==> is_whitespace(s[i]) != space,
    ensures
        leading(s, space) == i,
    decreases s.len(),
{
    if i > 0 {
        let t = s.drop_first();
        assert forall|j: int| 0 <= j < i - 1 implies is_whitespace(#[trigger] t[j]) == space by {
            assert(t[j] == s[j + 1]);
        }
        if i < s.len() {
            assert(t[i - 1] == s[i]);
        }
        lemma_leading(t, space, i - 1);
    }
}

/// `trailing` is the one length over which every character at the end is of the
/// kind and before which the text starts or a character of the other kind stands.
pub proof fn lemma_trailing(s: Seq<char>, space: bool, i: int)
    requires
        0 <= i <= s.len(),
        forall|j: int| s.len() - i <= j < s.len() ==> is_whitespace(#[trigger] s[j]) == space,
        i < s.len() ==> is_whitespace(s[s.len() - i - 1]) != space,
    ensures
        trailing(s, space) == i,
    decreases s.len(),
{
    if i > 0 {
        let t = s.drop_last();
        assert forall|j: int| t.len() - (i - 1) <= j < t.len() implies is_whitespace(
            #[trigger] t[j],
        ) == space by {
            assert(t[j] == s[j]);
        }
        if i < s.len() {
            assert(t[t.len() - (i - 1) - 1] == s[s.len() - i - 1]);
        }
        lemma_trailing(t, space, i - 1);
    }
}

/// `leading` stays within the text and stops at a character of the other kind.
pub proof fn lemma_leading_stops(s: Seq<char>, space: bool)
    ensures
        0 <= leading(s, space) <= s.len(),
        leading(s, space) < s.len() ==> is_whitespace(s[leading(s, space)]) != space,
    decreases s.len(),
{
    if s.len() > 0 && is_whitespace(s[0]) == space {
        lemma_leading_stops(s.drop_first(), space);
    }
}

/// Whether a character is white space.
pub fn is_space(c: char) -> (r: bool)
    ensures
        r == is_whitespace(c),
{
    let n = c as u32;
    (0x09 <= n && n <= 0x0d) || n == 0x20 || n == 0x85 || n == 0xa0 || n == 0x1680 || (0x2000 <= n
        && n <= 0x200a) || n == 0x2028 || n == 0x2029 || n == 0x202f || n == 0x205f || n == 0x3000
}

/// End of the run of characters of one kind that starts the window `lo..hi`.
pub(crate) fn leading_in(v: &Vec<char>, lo: usize, hi: usize, space: bool) -> (r: usize)
    requires
        lo <= hi <= v.len(),
    ensures
        lo <= r <= hi,
        r - lo == leading(v@.subrange(lo as int, hi as int), space),
{
    let ghost w = v@.subrange(lo as int, hi as int);
    let mut i: usize = lo;
    while i < hi && is_space(v[i]) == space
        invariant
            lo <= i <= hi <= v.len(),
            w == v@.subrange(lo as int, hi as int),
            forall|j: int| 0 <= j < i - lo ==> is_whitespace(#[trigger] w[j]) == space,
        decreases hi - i,
    {
        i += 1;
    }
    proof {
        lemma_leading(w, space, i - lo);
    }
    i
}

/// Start of the run of characters of one kind that ends the window `lo..hi`.
pub(crate) fn trailing_in(v: &Vec<char>, lo: usize, hi: usize, space: bool) -> (r: usize)
    requires
        lo <= hi <= v.len(),
    ensures
        lo <= r <= hi,
        hi - r == trailing(v@.subrange(lo as int, hi as int), space),
{
    let ghost w = v@.subrange(lo as int, hi as int);
    let mut i: usize = hi;
    while i > lo && is_space(v[i - 1]) == space
        invariant
            lo <= i <= hi <= v.len(),
            w == v@.subrange(lo as int, hi as int),
            forall|j: int| i - lo <= j < hi - lo ==> is_whitespace(#[trigger] w[j]) == space,
        decreases i - lo,
    {
        i -= 1;
    }
    proof {
        lemma_trailing(w, space, hi - i);
    }
    i
}

/// The first word of a string.
pub fn first_word_of(s: &str) -> (r: Option<String>)
    ensures
        r.deep_view() == first_word(s@),
{
    let v = to_chars(s);
    let n = v.len();
    assert(v@.subrange(0, n as int) =~= v@);
    let start = leading_in(&v, 0, n, true);
    if start >= n {
        return None;
    }
    assert(v@.subrange(start as int, n as int) =~= v@.skip(start as int));
    let end = leading_in(&v, start, n, false);
    Some(substring(s, start, end))
}

/// The last word of a string.
pub fn last_word_of(s: &str) -> (r: Option<String>)
    ensures
        r.deep_view() == last_word(s@),
{
    let v = to_chars(s);
    let n = v.len();
    assert(v@.subrange(0, n as int) =~= v@);
    let end = trailing_in(&v, 0, n, true);
    if end == 0 {
        return None;
    }
    assert(v@.subrange(0, end as int) =~= v@.take(end as int));
    let start = trailing_in(&v, 0, end, false);
    Some(substring(s, start, end))
}

/// A string without the white space at its two ends.
pub fn trim(s: &str) -> (r: String)
    ensures
        r@ == trimmed(s@),
{
    let v = to_chars(s);
    let n = v.len();
    assert(v@.subrange(0, n as int) =~= v@);
    let start = leading_in(&v, 0, n, true);
    if start >= n {
        return String::new();
    }
    let end = trailing_in(&v, 0, n, true);
    proof {
        // a character that is no white space stands at `start`, so the white
        // space at the end begins behind it
        lemma_leading_stops(v@, true);
        lemma_trailing_bound(v@, start as int);
    }
    substring(s, start, end)
}

/// White space at the end of a text begins behind every character that is none.
pub proof fn lemma_trailing_bound(s: Seq<char>, i: int)
    requires
        0 <= i < s.len(),
        !is_whitespace(s[i]),
    ensures
        trailing(s, true) < s.len() - i,
    decreases s.len(),
{
    if i < s.len() - 1 && is_whitespace(s.last()) {
        lemma_trailing_bound(s.drop_last(), i);
    }
}

/// Whether a string holds another one.
pub fn contains(s: &str, pat: &str) -> (r: bool)
    ensures
        r == contains_text(s@, pat@),
{
    let v = to_chars(s);
    let p = to_chars(pat);
    let n = v.len();
    if p.len() > n {
        assert(forall|i: int| !occurs_at(v@, p@, i));
        return false;
    }
    if p.len() == 0 {
        assert(v@.subrange(0, 0) =~= p@);
        assert(occurs_at(v@, p@, 0));
        return true;
    }
    let last: usize = n - p.len();
    let mut i: usize = 0;
    while i <= last
        invariant
            v@ == s@,
            p@ == pat@,
            n == v.len(),
            0 < p.len() <= n,
            last == n - p.len(),
            i <= last + 1,
            forall|j: int| 0 <= j < i ==> !occurs_at(v@, p@, j),
        decreases last + 1 - i,
    {
        if starts_with_in(&v, i, n, &p) {
            assert(v@.subrange(i as int, n as int).take(p.len() as int) =~= v@.subrange(
                i as int,
                i + p.len(),
            ));
            assert(occurs_at(v@, p@, i as int));
            return true;
        }
        assert(!occurs_at(v@, p@, i as int)) by {
            if occurs_at(v@, p@, i as int) {
                assert(v@.subrange(i as int, n as int).take(p.len() as int) =~= v@.subrange(
                    i as int,
                    i + p.len(),
                ));
            }
        }
        i += 1;
    }
    assert(forall|j: int| !occurs_at(v@, p@, j));
    false
}

/// A line without the carriage return that ended it.
pub open spec fn without_cr(line: Seq<char>) -> Seq<char> {
    if line.len() > 0 && line.last() == '\r' {
        line.drop_last()
    } else {
        line
    }
}

/// The lines of a text. A line ends at a line feed, or at a carriage return
/// and a line feed; the last line may lack its end, and a text that ends with
/// the end of a line has no empty line behind it.
pub open spec fn lines(s: Seq<char>) -> Seq<Seq<char>>
    decreases s.len(),
{
    if s.len() == 0 {
        Seq::empty()
    } else {
        let i = find_char(s, '\n');
        if 0 <= i < s.len() {
            seq![without_cr(s.take(i))] + lines(s.skip(i + 1))
        } else {
            seq![s]
        }
    }
}

/// The texts one after the other, each with `end` behind it.
pub open spec fn each_ended(texts: Seq<Seq<char>>, end: Seq<char>) -> Seq<char>
    decreases texts.len(),
{
    if texts.len() == 0 {
        Seq::empty()
    } else {
        each_ended(texts.drop_last(), end) + texts.last() + end
    }
}

/// The lines of a string.
pub fn lines_of(s: &str) -> (r: Vec<String>)
    ensures
        r.deep_view() == lines(s@),
{
    let v = to_chars(s);
    let n = v.len();
    let mut out: Vec<String> = Vec::new();
    let mut pos: usize = 0;
    assert(v@.skip(0) =~= v@);
    while pos < n
        invariant
            v@ == s@,
            n == v.len(),
            pos <= n,
            out.deep_view() + lines(v@.skip(pos as int)) == lines(v@),
        decreases n - pos,
    {
        let ghost rest = v@.skip(pos as int);
        assert(v@.subrange(pos as int, n as int) =~= rest);
        let end = find_in(&v, pos, n, '\n');
        let ghost before = out.deep_view();
        if end >= n {
            out.push(substring(s, pos, n));
            assert(out.deep_view() =~= before.push(rest));
            assert(v@.skip(n as int) =~= Seq::<char>::empty());
            assert(before + seq![rest] =~= out.deep_view() + lines(v@.skip(n as int)));
            pos = n;
        } else {
            let stop = if end > pos && v[end - 1] == '\r' {
                (end - 1) as usize
            } else {
                end
            };
            out.push(substring(s, pos, stop));
            assert(rest.take(end - pos) =~= v@.subrange(pos as int, end as int));
            assert(without_cr(rest.take(end - pos)) =~= v@.subrange(pos as int, stop as int));
            assert(rest.skip(end - pos + 1) =~= v@.skip(end + 1));
            assert(out.deep_view() =~= before.push(without_cr(rest.take(end - pos))));
            assert(before + (seq![without_cr(rest.take(end - pos))] + lines(v@.skip(end + 1)))
                =~= out.deep_view() + lines(v@.skip(end + 1)));
            pos = end + 1;
        }
    }
    assert(v@.skip(n as int) =~= Seq::<char>::empty());
    assert(out.deep_view() + Seq::<Seq<char>>::empty() =~= out.deep_view());
    out
}

/// The texts one after the other, each with `end` behind it.
pub fn join_ended(texts: &Vec<String>, end: &str) -> (r: String)
    ensures
        r@ == each_ended(texts.deep_view(), end@),
{
    let mut out = String::new();
    let mut i: usize = 0;
    while i < texts.len()
        invariant
            i <= texts.len(),
            out@ == each_ended(texts.deep_view().take(i as int), end@),
        decreases texts.len() - i,
    {
        assert(texts.deep_view().take(i + 1).drop_last() =~= texts.deep_view().take(i as int));
        assert(texts.deep_view().take(i + 1).last() == texts[i as int]@);
        out.append(texts[i].as_str());
        out.append(end);
        i += 1;
    }
    assert(texts.deep_view().take(texts.len() as int) =~= texts.deep_view());
    out
}

/// The last piece of a split: what follows the last separator, or the whole
/// text where there is none.
pub fn last_piece(s: &str, sep: char) -> (r: String)
    ensures
        r@ == split(s@, sep).last(),
{
    let v = to_chars(s);
    let n = v.len();
    let mut pos: usize = 0;
    assert(v@.skip(0) =~= v@);
    loop
        invariant
            v@ == s@,
            n == v.len(),
            pos <= n,
            split(v@.skip(pos as int), sep).last() == split(v@, sep).last(),
        decreases n - pos,
    {
        let ghost rest = v@.skip(pos as int);
        assert(v@.subrange(pos as int, n as int) =~= rest);
        let end = find_in(&v, pos, n, sep);
        proof {
            lemma_split_head(rest, sep);
        }
        if end >= n {
            return substring(s, pos, n);
        }
        proof {
            assert(rest.skip(end - pos + 1) =~= v@.skip(end + 1));
            lemma_split_head(v@.skip(end + 1), sep);
        }
        pos = end + 1;
    }
}

/// Index of the first occurrence of `pat` in `s`; `s.len()` when there is none.
pub open spec fn find_text(s: Seq<char>, pat: Seq<char>) -> int
    decreases s.len(),
{
    if starts_with(s, pat) || s.len() == 0 {
        0
    } else {
        1 + find_text(s.drop_first(), pat)
    }
}

/// `find_text` stays within the text, and points at an occurrence of the
/// pattern when it points inside.
pub proof fn lemma_find_text(s: Seq<char>, pat: Seq<char>)
    ensures
        0 <= find_text(s, pat) <= s.len(),
        find_text(s, pat) < s.len() ==> occurs_at(s, pat, find_text(s, pat)),
    decreases s.len(),
{
    if starts_with(s, pat) {
        assert(s.subrange(0, pat.len() as int) =~= s.take(pat.len() as int));
    } else if s.len() > 0 {
        let t = s.drop_first();
        lemma_find_text(t, pat);
        let k = find_text(t, pat);
        if k < t.len() {
            assert(s.subrange(k + 1, k + 1 + pat.len()) =~= t.subrange(k, k + pat.len()));
        }
    }
}

/// First index of `pat` within the window `lo..hi`; `hi` when there is none.
pub(crate) fn find_text_in(v: &Vec<char>, lo: usize, hi: usize, pat: &Vec<char>) -> (r: usize)
    requires
        lo <= hi <= v.len(),
    ensures
        lo <= r <= hi,
        r - lo == find_text(v@.subrange(lo as int, hi as int), pat@),
{
    let ghost w = v@.subrange(lo as int, hi as int);
    let mut i: usize = lo;
    assert(w.skip(0) =~= w);
    while i < hi
        invariant
            lo <= i <= hi <= v.len(),
            w == v@.subrange(lo as int, hi as int),
            find_text(w, pat@) == (i - lo) + find_text(w.skip(i - lo), pat@),
        decreases hi - i,
    {
        assert(w.skip(i - lo) =~= v@.subrange(i as int, hi as int));
        if starts_with_in(v, i, hi, pat) {
            return i;
        }
        assert(w.skip(i - lo).drop_first() =~= w.skip(i - lo + 1));
        i += 1;
    }
    assert(w.skip(hi - lo) =~= Seq::<char>::empty());
    i
}

} // verus!
