//! Scanning of text by characters.
//!
//! Every operation is stated over `Seq<char>`, the view of `str`, and follows
//! the behaviour of the `str` method of the same name. The executable
//! functions work on the characters of a string collected once into a vector,
//! and speak of sub-ranges of it by their bounds.

use vstd::prelude::*;

verus! {

/// Whether `c` has the Unicode property `White_Space`.
pub open spec fn is_whitespace(c: char) -> bool {
    ||| '\u{9}' <= c <= '\u{d}'
    ||| c == ' '
    ||| c == '\u{85}'
    ||| c == '\u{a0}'
    ||| c == '\u{1680}'
    ||| '\u{2000}' <= c <= '\u{200a}'
    ||| c == '\u{2028}'
    ||| c == '\u{2029}'
    ||| c == '\u{202f}'
    ||| c == '\u{205f}'
    ||| c == '\u{3000}'
}

/// Whether `c` is one of the digits `0` to `9`.
pub open spec fn is_ascii_digit(c: char) -> bool {
    '0' <= c <= '9'
}

/// Executable form of [`is_whitespace`].
pub fn whitespace(c: char) -> (b: bool)
    ensures
        b == is_whitespace(c),
{
    ('\u{9}' <= c && c <= '\u{d}') || c == ' ' || c == '\u{85}' || c == '\u{a0}' || c == '\u{1680}'
        || ('\u{2000}' <= c && c <= '\u{200a}') || c == '\u{2028}' || c == '\u{2029}' || c
        == '\u{202f}' || c == '\u{205f}' || c == '\u{3000}'
}

/// Executable form of [`is_ascii_digit`].
pub fn ascii_digit(c: char) -> (b: bool)
    ensures
        b == is_ascii_digit(c),
{
    '0' <= c && c <= '9'
}

/// A set of characters that a scan runs over.
#[derive(Clone, Copy, Debug)]
pub enum CharClass {
    /// The characters with the property `White_Space`.
    Whitespace,
    /// All the other characters.
    NonWhitespace,
    /// One character.
    Only(char),
    /// Every character but one.
    Except(char),
}

impl CharClass {
    /// Whether `c` belongs to the class.
    pub open spec fn holds(self, c: char) -> bool {
        match self {
            CharClass::Whitespace => is_whitespace(c),
            CharClass::NonWhitespace => !is_whitespace(c),
            CharClass::Only(x) => c == x,
            CharClass::Except(x) => c != x,
        }
    }

    /// Executable form of [`CharClass::holds`].
    pub fn test(&self, c: char) -> (b: bool)
        ensures
            b == self.holds(c),
    {
        match self {
            CharClass::Whitespace => whitespace(c),
            CharClass::NonWhitespace => !whitespace(c),
            CharClass::Only(x) => c == *x,
            CharClass::Except(x) => c != *x,
        }
    }
}

/// The length of the longest prefix of `s` made of characters of `class`.
pub open spec fn leading(s: Seq<char>, class: CharClass) -> nat
    decreases s.len(),
{
    if s.len() > 0 && class.holds(s[0]) {
        1 + leading(s.drop_first(), class)
    } else {
        0
    }
}

/// The length of the longest suffix of `s` made of characters of `class`.
pub open spec fn trailing(s: Seq<char>, class: CharClass) -> nat
    decreases s.len(),
{
    if s.len() > 0 && class.holds(s.last()) {
        1 + trailing(s.drop_last(), class)
    } else {
        0
    }
}

/// `s` without its leading characters of `class`.
pub open spec fn trim_start_matches(s: Seq<char>, class: CharClass) -> Seq<char> {
    s.skip(leading(s, class) as int)
}

/// `s` without its trailing characters of `class`.
pub open spec fn trim_end_matches(s: Seq<char>, class: CharClass) -> Seq<char> {
    s.take(s.len() - trailing(s, class))
}

/// `s` without its leading and trailing characters of `class`.
pub open spec fn trim_matches(s: Seq<char>, class: CharClass) -> Seq<char> {
    trim_end_matches(trim_start_matches(s, class), class)
}

/// `s` without leading and trailing whitespace.
pub open spec fn trim(s: Seq<char>) -> Seq<char> {
    trim_matches(s, CharClass::Whitespace)
}

/// The index of the first `c` in `s`, or the length of `s` where it has none.
pub open spec fn find(s: Seq<char>, c: char) -> int {
    leading(s, CharClass::Except(c)) as int
}

/// What stands before the first `sep` in `s`: all of `s` where it has none.
pub open spec fn first_field(s: Seq<char>, sep: char) -> Seq<char> {
    s.take(find(s, sep))
}

/// The fields of `s` between occurrences of `sep`. There is always at least
/// one field, and fields may be empty.
pub open spec fn split(s: Seq<char>, sep: char) -> Seq<Seq<char>>
    decreases s.len(),
{
    let i = find(s, sep);
    if 0 <= i < s.len() {
        seq![s.take(i)] + split(s.skip(i + 1), sep)
    } else {
        seq![s]
    }
}

/// The maximal runs of characters of `s` that are not whitespace, in order.
pub open spec fn words(s: Seq<char>) -> Seq<Seq<char>>
    decreases s.len(),
{
    let start = leading(s, CharClass::Whitespace) as int;
    let rest = s.skip(start);
    let end = leading(rest, CharClass::NonWhitespace) as int;
    if 0 <= start <= s.len() && 0 < end <= rest.len() {
        seq![rest.take(end)] + words(rest.skip(end))
    } else {
        Seq::empty()
    }
}

/// Whether `s` begins with `prefix`.
pub open spec fn starts_with(s: Seq<char>, prefix: Seq<char>) -> bool {
    prefix.len() <= s.len() && s.take(prefix.len() as int) =~= prefix
}

/// Whether `s` ends with `suffix`.
pub open spec fn ends_with(s: Seq<char>, suffix: Seq<char>) -> bool {
    suffix.len() <= s.len() && s.skip(s.len() - suffix.len()) =~= suffix
}

/// What follows `prefix` in `s`, where `s` begins with it.
pub open spec fn strip_prefix(s: Seq<char>, prefix: Seq<char>) -> Option<Seq<char>> {
    if starts_with(s, prefix) {
        Some(s.skip(prefix.len() as int))
    } else {
        None
    }
}

/// The count that [`leading`] gives is the one index that ends a run of
/// `class` which starts at the front of `s`.
pub proof fn lemma_leading_is(s: Seq<char>, class: CharClass, n: int)
    requires
        0 <= n <= s.len(),
        forall|i: int| 0 <= i < n ==> class.holds(s[i]),
        n == s.len() || !class.holds(s[n]),
    ensures
        leading(s, class) == n,
    decreases n,
{
    if n > 0 {
        let t = s.drop_first();
        assert forall|i: int| 0 <= i < n - 1 implies class.holds(t[i]) by {
            assert(t[i] == s[i + 1]);
        }
        if n - 1 < t.len() {
            assert(t[n - 1] == s[n]);
        }
        lemma_leading_is(t, class, n - 1);
    }
}

/// [`leading`] stays within `s`, counts only characters of `class`, and stops
/// at the first character outside it.
pub proof fn lemma_leading_run(s: Seq<char>, class: CharClass)
    ensures
        leading(s, class) <= s.len(),
        forall|i: int| 0 <= i < leading(s, class) ==> class.holds(#[trigger] s[i]),
        leading(s, class) < s.len() ==> !class.holds(s[leading(s, class) as int]),
    decreases s.len(),
{
    if s.len() > 0 && class.holds(s[0]) {
        let t = s.drop_first();
        lemma_leading_run(t, class);
        assert forall|i: int| 0 <= i < leading(s, class) implies class.holds(#[trigger] s[i]) by {
            if i > 0 {
                assert(s[i] == t[i - 1]);
            }
        }
        if leading(s, class) < s.len() {
            assert(s[leading(s, class) as int] == t[leading(t, class) as int]);
        }
    }
}

/// The count that [`trailing`] gives is the one length of a run of `class`
/// which ends at the back of `s`.
pub proof fn lemma_trailing_is(s: Seq<char>, class: CharClass, n: int)
    requires
        0 <= n <= s.len(),
        forall|i: int| s.len() - n <= i < s.len() ==> class.holds(s[i]),
        n == s.len() || !class.holds(s[s.len() - n - 1]),
    ensures
        trailing(s, class) == n,
    decreases n,
{
    if n > 0 {
        let t = s.drop_last();
        assert forall|i: int| t.len() - (n - 1) <= i < t.len() implies class.holds(t[i]) by {
            assert(t[i] == s[i]);
        }
        if n - 1 < t.len() {
            assert(t[t.len() - (n - 1) - 1] == s[s.len() - n - 1]);
        }
        lemma_trailing_is(t, class, n - 1);
    }
}

/// The characters of `s`, in order.
pub fn chars_of(s: &str) -> (v: Vec<char>)
    ensures
        v@ == s@,
{
    let mut v: Vec<char> = Vec::new();
    for c in it: s.chars()
        invariant
            v@ == it.seq().take(it.index() as int),
            it.seq() == s@,
    {
        v.push(c);
    }
    v
}

/// Scans `v[from..to]` from the front over characters of `class`, and returns
/// the index at which the scan stops.
pub fn scan_forward(v: &Vec<char>, from: usize, to: usize, class: CharClass) -> (n: usize)
    requires
        from <= to <= v.len(),
    ensures
        from <= n <= to,
        n - from == leading(v@.subrange(from as int, to as int), class),
{
    let mut n = from;
    while n < to && class.test(v[n])
        invariant
            from <= n <= to <= v.len(),
            forall|i: int| from <= i < n ==> class.holds(v@[i]),
        decreases to - n,
    {
        n = n + 1;
    }
    proof {
        let s = v@.subrange(from as int, to as int);
        assert forall|i: int| 0 <= i < n - from implies class.holds(s[i]) by {
            assert(s[i] == v@[from + i]);
        }
        if n < to {
            assert(s[n - from] == v@[n as int]);
        }
        lemma_leading_is(s, class, n - from);
    }
    n
}

/// Scans `v[from..to]` from the back over characters of `class`, and returns
/// the index at which the scan stops.
pub fn scan_backward(v: &Vec<char>, from: usize, to: usize, class: CharClass) -> (n: usize)
    requires
        from <= to <= v.len(),
    ensures
        from <= n <= to,
        to - n == trailing(v@.subrange(from as int, to as int), class),
{
    let mut n = to;
    while n > from && class.test(v[n - 1])
        invariant
            from <= n <= to <= v.len(),
            forall|i: int| n <= i < to ==> class.holds(v@[i]),
        decreases n - from,
    {
        n = n - 1;
    }
    proof {
        let s = v@.subrange(from as int, to as int);
        assert forall|i: int| s.len() - (to - n) <= i < s.len() implies class.holds(s[i]) by {
            assert(s[i] == v@[from + i]);
        }
        if n > from {
            assert(s[s.len() - (to - n) - 1] == v@[n - 1]);
        }
        lemma_trailing_is(s, class, to - n);
    }
    n
}

/// The bounds of `v[from..to]` without its leading and trailing characters
/// of `class`.
pub fn trim_range(v: &Vec<char>, from: usize, to: usize, class: CharClass) -> (r: (usize, usize))
    requires
        from <= to <= v.len(),
    ensures
        from <= r.0 <= r.1 <= to,
        v@.subrange(r.0 as int, r.1 as int) == trim_matches(
            v@.subrange(from as int, to as int),
            class,
        ),
{
    let start = scan_forward(v, from, to, class);
    let end = scan_backward(v, start, to, class);
    proof {
        let s = v@.subrange(from as int, to as int);
        let t = trim_start_matches(s, class);
        assert(t =~= v@.subrange(start as int, to as int));
        assert(trim_end_matches(t, class) =~= v@.subrange(start as int, end as int));
    }
    (start, end)
}

/// Whether `v[from..to]` begins with `prefix`.
pub fn range_starts_with(v: &Vec<char>, from: usize, to: usize, prefix: &Vec<char>) -> (b: bool)
    requires
        from <= to <= v.len(),
    ensures
        b == starts_with(v@.subrange(from as int, to as int), prefix@),
{
    if prefix.len() > to - from {
        return false;
    }
    let ghost s = v@.subrange(from as int, to as int);
    let mut i: usize = 0;
    while i < prefix.len()
        invariant
            from <= to <= v.len(),
            prefix.len() <= to - from,
            i <= prefix.len(),
            s == v@.subrange(from as int, to as int),
            forall|j: int| 0 <= j < i ==> s[j] == prefix@[j],
        decreases prefix.len() - i,
    {
        if v[from + i] != prefix[i] {
            proof {
                assert(s[i as int] == v@[from + i]);
                assert(s.take(prefix.len() as int)[i as int] != prefix@[i as int]);
            }
            return false;
        }
        assert(s[i as int] == v@[from + i]);
        i = i + 1;
    }
    assert(s.take(prefix.len() as int) =~= prefix@);
    true
}

/// Whether `v[from..to]` ends with `suffix`.
pub fn range_ends_with(v: &Vec<char>, from: usize, to: usize, suffix: &Vec<char>) -> (b: bool)
    requires
        from <= to <= v.len(),
    ensures
        b == ends_with(v@.subrange(from as int, to as int), suffix@),
{
    if suffix.len() > to - from {
        return false;
    }
    let start = to - suffix.len();
    let b = range_starts_with(v, start, to, suffix);
    proof {
        let s = v@.subrange(from as int, to as int);
        let t = v@.subrange(start as int, to as int);
        assert(s.skip(s.len() - suffix.len()) =~= t);
        assert(t.take(suffix.len() as int) =~= t);
    }
    b
}

/// Whether `v[from..to]` is the text `other`.
pub fn range_equals(v: &Vec<char>, from: usize, to: usize, other: &Vec<char>) -> (b: bool)
    requires
        from <= to <= v.len(),
    ensures
        b == (v@.subrange(from as int, to as int) == other@),
{
    if other.len() != to - from {
        return false;
    }
    let b = range_starts_with(v, from, to, other);
    proof {
        let s = v@.subrange(from as int, to as int);
        assert(s.take(other.len() as int) =~= s);
    }
    b
}

/// Whether `v[from..to]` and `w[start..end]` are the same text.
pub fn ranges_equal(
    v: &Vec<char>,
    from: usize,
    to: usize,
    w: &Vec<char>,
    start: usize,
    end: usize,
) -> (b: bool)
    requires
        from <= to <= v.len(),
        start <= end <= w.len(),
    ensures
        b == (v@.subrange(from as int, to as int) == w@.subrange(start as int, end as int)),
{
    let ghost s = v@.subrange(from as int, to as int);
    let ghost t = w@.subrange(start as int, end as int);
    if to - from != end - start {
        assert(s.len() != t.len());
        return false;
    }
    let mut i: usize = 0;
    while i < to - from
        invariant
            from <= to <= v.len(),
            start <= end <= w.len(),
            to - from == end - start,
            i <= to - from,
            s == v@.subrange(from as int, to as int),
            t == w@.subrange(start as int, end as int),
            forall|j: int| 0 <= j < i ==> s[j] == t[j],
        decreases to - from - i,
    {
        if v[from + i] != w[start + i] {
            proof {
                assert(s[i as int] == v@[from + i]);
                assert(t[i as int] == w@[start + i]);
            }
            return false;
        }
        proof {
            assert(s[i as int] == v@[from + i]);
            assert(t[i as int] == w@[start + i]);
        }
        i = i + 1;
    }
    assert(s =~= t);
    true
}

/// Whether `v[from..to]` holds the character `c`.
pub fn range_contains(v: &Vec<char>, from: usize, to: usize, c: char) -> (b: bool)
    requires
        from <= to <= v.len(),
    ensures
        b == v@.subrange(from as int, to as int).contains(c),
{
    let n = scan_forward(v, from, to, CharClass::Except(c));
    proof {
        let s = v@.subrange(from as int, to as int);
        lemma_leading_run(s, CharClass::Except(c));
        if n < to {
            assert(s[n - from] == c);
        } else {
            assert forall|i: int| 0 <= i < s.len() implies s[i] != c by {
                assert(CharClass::Except(c).holds(s[i]));
            }
        }
    }
    n < to
}

/// `s` without its trailing occurrences of `c`, as `str::trim_end_matches`
/// gives it for a character.
pub fn without_trailing(s: &str, c: char) -> (r: &str)
    ensures
        r@ == trim_end_matches(s@, CharClass::Only(c)),
{
    let v = chars_of(s);
    let to = scan_backward(&v, 0, v.len(), CharClass::Only(c));
    assert(v@.subrange(0, v.len() as int) =~= v@);
    s.substring_char(0, to)
}

/// `a` followed by `b`.
pub fn joined(a: &str, b: &str) -> (r: String)
    ensures
        r@ == a@ + b@,
{
    let mut r = String::from_str(a);
    r.append(b);
    r
}

} // verus!
