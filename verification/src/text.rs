//! Character-level text operations: the model of each as a function on
//! `Seq<char>`, and an executable counterpart on a window of a `Vec<char>`.

use vstd::prelude::*;

verus! {

/// Whether a character counts as whitespace: the answer of
/// `char::is_whitespace`, which follows the Unicode `White_Space` property.
pub uninterp spec fn is_space(c: char) -> bool;

/// The lower-case form of a text: the result of `str::to_lowercase`, which
/// follows the Unicode lower-case mapping of each character.
pub uninterp spec fn lowercase_of(s: Seq<char>) -> Seq<char>;

/// Calls `char::is_whitespace`. Trusted: the answer is the one that
/// `is_space` names.
#[verifier::external_body]
pub(crate) fn char_is_space(c: char) -> (b: bool)
    ensures
        b == is_space(c),
{
    c.is_whitespace()
}

/// Calls `str::to_lowercase`. Trusted: the characters of the result are the
/// ones that `lowercase_of` names for the characters of the argument.
#[verifier::external_body]
pub(crate) fn str_to_lowercase(s: &str) -> (r: String)
    ensures
        r@ == lowercase_of(s@),
{
    s.to_lowercase()
}

/// `String::push` appends one character to the end of the string.
pub assume_specification[ String::push ](s: &mut String, ch: char)
    ensures
        final(s)@ == old(s)@.push(ch),
;

/// `s` without its leading whitespace.
pub open spec fn trim_start(s: Seq<char>) -> Seq<char>
    decreases s.len(),
{
    if s.len() > 0 && is_space(s[0]) {
        trim_start(s.drop_first())
    } else {
        s
    }
}

/// `s` without its trailing whitespace.
pub open spec fn trim_end(s: Seq<char>) -> Seq<char>
    decreases s.len(),
{
    if s.len() > 0 && is_space(s.last()) {
        trim_end(s.drop_last())
    } else {
        s
    }
}

/// `s` without its leading and trailing whitespace.
pub open spec fn trim(s: Seq<char>) -> Seq<char> {
    trim_end(trim_start(s))
}

/// The position of the first `c` in `s`, or `s.len()` where there is none.
pub open spec fn index_of(s: Seq<char>, c: char) -> int
    decreases s.len(),
{
    if s.len() == 0 {
        0
    } else if s[0] == c {
        0
    } else {
        1 + index_of(s.drop_first(), c)
    }
}

/// Whether `p` stands in `s` at position `i`.
pub open spec fn occurs_at(s: Seq<char>, p: Seq<char>, i: int) -> bool {
    0 <= i && i + p.len() <= s.len() && s.subrange(i, i + p.len()) == p
}

/// Whether `p` stands somewhere in `s`.
pub open spec fn has_sub(s: Seq<char>, p: Seq<char>) -> bool {
    exists|i: int| occurs_at(s, p, i)
}

/// The pieces of `s` between occurrences of `sep`: one more than there are
/// separators, empty pieces included.
pub open spec fn split_on(s: Seq<char>, sep: char) -> Seq<Seq<char>>
    decreases s.len(),
{
    let i = index_of(s, sep);
    if 0 <= i < s.len() {
        seq![s.take(i)] + split_on(s.skip(i + 1), sep)
    } else {
        seq![s]
    }
}

/// The pieces of `parts` with `sep` between each two of them.
pub open spec fn joined(parts: Seq<Seq<char>>, sep: char) -> Seq<char>
    decreases parts.len(),
{
    if parts.len() == 0 {
        Seq::<char>::empty()
    } else if parts.len() == 1 {
        parts[0]
    } else {
        parts[0].push(sep) + joined(parts.drop_first(), sep)
    }
}

/// The position of the first `c` lies inside the text or at its end,
/// nothing before it is `c`, and inside the text it is a `c`.
pub proof fn lemma_index_of(s: Seq<char>, c: char)
    ensures
        0 <= index_of(s, c) <= s.len(),
        forall|j: int| 0 <= j < index_of(s, c) ==> s[j] != c,
        index_of(s, c) < s.len() ==> s[index_of(s, c)] == c,
    decreases s.len(),
{
    if s.len() > 0 && s[0] != c {
        let t = s.drop_first();
        lemma_index_of(t, c);
        assert forall|j: int| 0 <= j < index_of(s, c) implies s[j] != c by {
            if j > 0 {
                assert(s[j] == t[j - 1]);
            }
        }
    }
}

/// In a text without `c` the position of the first `c` is the end.
pub proof fn lemma_index_of_absent(s: Seq<char>, c: char)
    requires
        forall|j: int| 0 <= j < s.len() ==> s[j] != c,
    ensures
        index_of(s, c) == s.len(),
    decreases s.len(),
{
    if s.len() > 0 {
        let t = s.drop_first();
        assert forall|j: int| 0 <= j < t.len() implies t[j] != c by {
            assert(t[j] == s[j + 1]);
        }
        lemma_index_of_absent(t, c);
    }
}

/// Splitting loses nothing and cuts at every separator: there is a piece
/// at least, no piece holds the separator, and the pieces joined by the
/// separator are the text.
pub proof fn lemma_split_on(s: Seq<char>, sep: char)
    ensures
        split_on(s, sep).len() >= 1,
        forall|k: int|
            0 <= k < split_on(s, sep).len() ==> index_of(#[trigger] split_on(s, sep)[k], sep)
                == split_on(s, sep)[k].len(),
        joined(split_on(s, sep), sep) == s,
    decreases s.len(),
{
    let i = index_of(s, sep);
    lemma_index_of(s, sep);
    if i < s.len() {
        let head = s.take(i);
        let tail = s.skip(i + 1);
        let rest = split_on(tail, sep);
        let pieces = seq![head] + rest;
        lemma_split_on(tail, sep);
        lemma_index_of_absent(head, sep);
        assert(pieces.drop_first() =~= rest);
        assert forall|k: int| 0 <= k < pieces.len() implies index_of(#[trigger] pieces[k], sep)
            == pieces[k].len() by {
            if k > 0 {
                assert(pieces[k] == rest[k - 1]);
            }
        }
        assert(head.push(sep) + tail =~= s);
    } else {
        lemma_index_of_absent(s, sep);
    }
}

/// A text with no whitespace at either end is its own trimmed form, and
/// trimming leaves no whitespace at either end.
pub proof fn lemma_trim_ends(s: Seq<char>)
    ensures
        s.len() == 0 || (!is_space(s[0]) && !is_space(s.last())) ==> trim(s) == s,
        trim(s).len() > 0 ==> !is_space(trim(s)[0]) && !is_space(trim(s).last()),
{
    lemma_trim_start(s);
    lemma_trim_end(trim_start(s));
}

/// What is left after the leading whitespace does not begin with any.
proof fn lemma_trim_start(s: Seq<char>)
    ensures
        trim_start(s).len() > 0 ==> !is_space(trim_start(s)[0]),
    decreases s.len(),
{
    if s.len() > 0 && is_space(s[0]) {
        lemma_trim_start(s.drop_first());
    }
}

/// Leaving out trailing whitespace keeps the beginning as it was, and what
/// is left does not end in whitespace.
proof fn lemma_trim_end(s: Seq<char>)
    ensures
        trim_end(s).len() > 0 ==> trim_end(s)[0] == s[0] && !is_space(trim_end(s).last()),
    decreases s.len(),
{
    if s.len() > 0 && is_space(s.last()) {
        lemma_trim_end(s.drop_last());
    }
}

/// The window of `v` from `start` to `end` with its surrounding whitespace
/// left out, as the bounds of a narrower window.
pub fn trim_window(v: &Vec<char>, start: usize, end: usize) -> (r: (usize, usize))
    requires
        start <= end <= v.len(),
    ensures
        start <= r.0 <= r.1 <= end,
        v@.subrange(r.0 as int, r.1 as int) == trim(v@.subrange(start as int, end as int)),
{
    let mut a: usize = start;
    while a < end && char_is_space(v[a])
        invariant
            start <= a <= end <= v.len(),
            trim_start(v@.subrange(a as int, end as int)) == trim_start(
                v@.subrange(start as int, end as int),
            ),
        decreases end - a,
    {
        assert(v@.subrange(a as int, end as int).drop_first() =~= v@.subrange(
            a + 1,
            end as int,
        ));
        a = a + 1;
    }
    let mut b: usize = end;
    while b > a && char_is_space(v[b - 1])
        invariant
            a <= b <= end <= v.len(),
            trim_end(v@.subrange(a as int, b as int)) == trim_end(
                v@.subrange(a as int, end as int),
            ),
        decreases b - a,
    {
        assert(v@.subrange(a as int, b as int).drop_last() =~= v@.subrange(a as int, b - 1));
        b = b - 1;
    }
    (a, b)
}

/// The position of the first `c` in the window of `v` from `start` to `end`,
/// or `end` where the window holds none.
pub fn find_char(v: &Vec<char>, start: usize, end: usize, c: char) -> (i: usize)
    requires
        start <= end <= v.len(),
    ensures
        start <= i <= end,
        i - start == index_of(v@.subrange(start as int, end as int), c),
{
    let mut i: usize = start;
    while i < end && v[i] != c
        invariant
            start <= i <= end <= v.len(),
            index_of(v@.subrange(start as int, end as int), c) == (i - start) + index_of(
                v@.subrange(i as int, end as int),
                c,
            ),
        decreases end - i,
    {
        assert(v@.subrange(i as int, end as int).drop_first() =~= v@.subrange(
            i + 1,
            end as int,
        ));
        i = i + 1;
    }
    i
}

/// Whether the window of `v` from `start` to `end` begins with `p`.
pub fn window_starts_with(v: &Vec<char>, start: usize, end: usize, p: &Vec<char>) -> (b: bool)
    requires
        start <= end <= v.len(),
    ensures
        b == p@.is_prefix_of(v@.subrange(start as int, end as int)),
{
    let n: usize = p.len();
    if end - start < n {
        return false;
    }
    let ghost w = v@.subrange(start as int, end as int);
    let mut k: usize = 0;
    while k < n
        invariant
            start <= end <= v.len(),
            n == p.len(),
            n <= end - start,
            k <= n,
            w == v@.subrange(start as int, end as int),
            forall|j: int| 0 <= j < k ==> p@[j] == w[j],
        decreases n - k,
    {
        if v[start + k] != p[k] {
            assert(w.subrange(0, n as int)[k as int] != p@[k as int]);
            return false;
        }
        k = k + 1;
    }
    assert(p@ =~= w.subrange(0, n as int));
    true
}

/// Whether the window of `v` from `start` to `end` is exactly `p`.
pub fn window_equals(v: &Vec<char>, start: usize, end: usize, p: &Vec<char>) -> (b: bool)
    requires
        start <= end <= v.len(),
    ensures
        b == (v@.subrange(start as int, end as int) == p@),
{
    let ghost w = v@.subrange(start as int, end as int);
    if end - start != p.len() {
        return false;
    }
    let b = window_starts_with(v, start, end, p);
    assert(w.subrange(0, w.len() as int) =~= w);
    b
}

/// Whether `p` stands somewhere in `v`.
pub fn contains_sub(v: &Vec<char>, p: &Vec<char>) -> (b: bool)
    ensures
        b == has_sub(v@, p@),
{
    let n: usize = p.len();
    let m: usize = v.len();
    if m < n {
        assert(forall|i: int| !occurs_at(v@, p@, i));
        return false;
    }
    let mut i: usize = 0;
    while i <= m - n
        invariant
            n == p.len(),
            m == v.len(),
            n <= m,
            i <= m - n + 1,
            forall|j: int| 0 <= j < i ==> !occurs_at(v@, p@, j),
        decreases m - n + 1 - i,
    {
        if window_starts_with(v, i, m, p) {
            assert(v@.subrange(i as int, m as int).subrange(0, n as int) =~= v@.subrange(
                i as int,
                i + n,
            ));
            assert(occurs_at(v@, p@, i as int));
            return true;
        }
        assert(!occurs_at(v@, p@, i as int)) by {
            assert(v@.subrange(i as int, m as int).subrange(0, n as int) =~= v@.subrange(
                i as int,
                i + n,
            ));
        }
        i = i + 1;
    }
    assert(forall|j: int| !occurs_at(v@, p@, j));
    false
}

/// The characters of a string slice, in order.
pub fn to_chars(s: &str) -> (v: Vec<char>)
    ensures
        v@ == s@,
{
    let mut v: Vec<char> = Vec::new();
    for c in it: s.chars()
        invariant
            it.seq() == s@,
            v@ == it.seq().take(it.index() as int),
    {
        v.push(c);
        assert(it.seq().take(it.index() + 1) =~= it.seq().take(it.index() as int).push(c));
    }
    assert(v@ =~= s@);
    v
}

/// The string made of the characters of `v` from `start` up to `end`.
pub fn from_chars(v: &Vec<char>, start: usize, end: usize) -> (s: String)
    requires
        start <= end <= v.len(),
    ensures
        s@ == v@.subrange(start as int, end as int),
{
    let mut s = String::new();
    let mut i: usize = start;
    while i < end
        invariant
            start <= i <= end <= v.len(),
            s@ == v@.subrange(start as int, i as int),
        decreases end - i,
    {
        s.push(v[i]);
        i = i + 1;
        assert(v@.subrange(start as int, i as int) =~= v@.subrange(start as int, i - 1).push(
            v@[i - 1],
        ));
    }
    s
}

/// Whether two string slices hold the same characters.
pub fn str_equals(a: &str, b: &str) -> (same: bool)
    ensures
        same == (a@ == b@),
{
    let v = to_chars(a);
    let n: usize = v.len();
    assert(v@.subrange(0, n as int) =~= a@);
    window_equals(&v, 0, n, &to_chars(b))
}

} // verus!
