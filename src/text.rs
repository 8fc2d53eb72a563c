//! Character-level text primitives: splitting on a separator, whitespace
//! tokens, trimming and decimal rendering, each with its mathematical model.
use vstd::prelude::*;
use vstd::std_specs::iter::IteratorSpec;

verus! {

/// The characters that carry the Unicode `White_Space` property.
pub open spec fn is_white_space(c: char) -> bool {
    ('\u{9}' <= c && c <= '\u{d}') || c == ' ' || c == '\u{85}' || c == '\u{a0}' || c == '\u{1680}'
        || ('\u{2000}' <= c && c <= '\u{200a}') || c == '\u{2028}' || c == '\u{2029}' || c
        == '\u{202f}' || c == '\u{205f}' || c == '\u{3000}'
}

/// Executable test for the `White_Space` property.
pub fn white_space(c: char) -> (r: bool)
    ensures
        r == is_white_space(c),
{
    ('\u{9}' <= c && c <= '\u{d}') || c == ' ' || c == '\u{85}' || c == '\u{a0}' || c == '\u{1680}'
        || ('\u{2000}' <= c && c <= '\u{200a}') || c == '\u{2028}' || c == '\u{2029}' || c
        == '\u{202f}' || c == '\u{205f}' || c == '\u{3000}'
}

/// Whether `pat` occurs in `s` starting at index `i`.
pub open spec fn occurs_at(s: Seq<char>, pat: Seq<char>, i: int) -> bool {
    0 <= i && i + pat.len() <= s.len() && s.subrange(i, i + pat.len()) == pat
}

/// Pieces of `s` between non-overlapping occurrences of `pat`, found from
/// left to right; the current piece began at `start` and the scan is at `i`.
pub open spec fn split_scan(s: Seq<char>, pat: Seq<char>, start: int, i: int) -> Seq<Seq<char>>
    decreases s.len() - i,
{
    if pat.len() == 0 || i < 0 || i + pat.len() > s.len() {
        seq![s.subrange(start, s.len() as int)]
    } else if occurs_at(s, pat, i) {
        seq![s.subrange(start, i)] + split_scan(s, pat, i + pat.len(), i + pat.len())
    } else {
        split_scan(s, pat, start, i + 1)
    }
}

/// `s` split on every occurrence of the non-empty separator `pat`, leftmost
/// first, as `str::split` does: `k` occurrences give `k + 1` pieces.
pub open spec fn split_on(s: Seq<char>, pat: Seq<char>) -> Seq<Seq<char>> {
    split_scan(s, pat, 0, 0)
}

/// The maximal runs of non-white-space characters of `s` from index `i` on,
/// where the run in progress began at `start`.
pub open spec fn word_scan(s: Seq<char>, start: int, i: int) -> Seq<Seq<char>>
    decreases s.len() - i,
{
    if i < 0 || i >= s.len() {
        if start < s.len() {
            seq![s.subrange(start, s.len() as int)]
        } else {
            seq![]
        }
    } else if is_white_space(s[i]) {
        (if start < i {
            seq![s.subrange(start, i)]
        } else {
            seq![]
        }) + word_scan(s, i + 1, i + 1)
    } else {
        word_scan(s, start, i + 1)
    }
}

/// The white-space separated words of `s`, as `str::split_whitespace` gives them.
pub open spec fn words(s: Seq<char>) -> Seq<Seq<char>> {
    word_scan(s, 0, 0)
}

/// `s` without its leading white space.
pub open spec fn trim_start(s: Seq<char>) -> Seq<char>
    decreases s.len(),
{
    if s.len() > 0 && is_white_space(s[0]) {
        trim_start(s.drop_first())
    } else {
        s
    }
}

/// `s` without its trailing white space.
pub open spec fn trim_end(s: Seq<char>) -> Seq<char>
    decreases s.len(),
{
    if s.len() > 0 && is_white_space(s.last()) {
        trim_end(s.drop_last())
    } else {
        s
    }
}

/// `s` without leading and trailing white space, as `str::trim` gives it.
pub open spec fn trim(s: Seq<char>) -> Seq<char> {
    trim_end(trim_start(s))
}

/// The decimal digit for `d < 10`.
pub open spec fn digit(d: nat) -> char {
    seq!['0', '1', '2', '3', '4', '5', '6', '7', '8', '9'][d as int]
}

/// The decimal rendering of `n`, without sign or leading zeros.
pub open spec fn decimal(n: nat) -> Seq<char>
    decreases n,
{
    if n < 10 {
        seq![digit(n)]
    } else {
        decimal(n / 10).push(digit(n % 10))
    }
}

/// Relies on `String::push`: appends one character to the string.
#[verifier::external_body]
pub(crate) fn push_char(s: &mut String, c: char)
    ensures
        final(s)@ == old(s)@.push(c),
{
    s.push(c)
}

/// The characters of `s`, in order.
pub fn chars_of(s: &str) -> (r: Vec<char>)
    ensures
        r@ == s@,
{
    let mut v: Vec<char> = Vec::new();
    let mut it = s.chars();
    loop
        invariant
            v@ + it.remaining() == s@,
            it.decrease() is Some,
        ensures
            v@ == s@,
        decreases it.decrease()->0,
    {
        match it.next() {
            Some(c) => {
                v.push(c);
            },
            None => {
                assert(v@ + it.remaining() =~= v@);
                assert(v@ =~= s@);
                break;
            },
        }
    }
    v
}

/// A string holding the characters `v[lo..hi]`.
pub fn string_of(v: &Vec<char>, lo: usize, hi: usize) -> (r: String)
    requires
        lo <= hi <= v@.len(),
    ensures
        r@ == v@.subrange(lo as int, hi as int),
{
    let mut r = String::new();
    let mut k: usize = lo;
    while k < hi
        invariant
            lo <= k <= hi <= v@.len(),
            r@ == v@.subrange(lo as int, k as int),
        decreases hi - k,
    {
        push_char(&mut r, v[k]);
        k = k + 1;
        assert(r@ =~= v@.subrange(lo as int, k as int));
    }
    r
}

/// Whether `v[i..]` starts with `pat`.
pub fn occurs_at_exec(v: &Vec<char>, pat: &Vec<char>, i: usize) -> (r: bool)
    requires
        i <= v@.len(),
    ensures
        r == occurs_at(v@, pat@, i as int),
{
    if pat.len() > v.len() - i {
        return false;
    }
    let mut k: usize = 0;
    while k < pat.len()
        invariant
            k <= pat@.len(),
            i + pat@.len() <= v@.len(),
            v@.len() <= usize::MAX,
            forall|j: int| 0 <= j < k ==> v@[i + j] == pat@[j],
        decreases pat@.len() - k,
    {
        if v[i + k] != pat[k] {
            assert(v@.subrange(i as int, i + pat@.len())[k as int] != pat@[k as int]);
            return false;
        }
        k = k + 1;
    }
    assert(v@.subrange(i as int, i + pat@.len()) =~= pat@);
    true
}

/// Bounds `(lo, hi)` of each piece of `v` split on the non-empty `pat`.
pub fn split_bounds(v: &Vec<char>, pat: &Vec<char>) -> (r: Vec<(usize, usize)>)
    requires
        pat@.len() > 0,
    ensures
        r@.len() == split_on(v@, pat@).len(),
        forall|j: int| 0 <= j < r@.len() ==> (#[trigger] r@[j]).0 <= r@[j].1 <= v@.len(),
        forall|j: int|
            0 <= j < r@.len() ==> #[trigger] split_on(v@, pat@)[j] == v@.subrange(
                r@[j].0 as int,
                r@[j].1 as int,
            ),
{
    let mut r: Vec<(usize, usize)> = Vec::new();
    let mut start: usize = 0;
    let mut i: usize = 0;
    while pat.len() <= v.len() - i
        invariant
            pat@.len() > 0,
            start <= i <= v@.len(),
            forall|j: int|
                0 <= j < r@.len() ==> r@[j].0 <= r@[j].1 <= v@.len() && (#[trigger] r@[j]).1
                    <= start,
            r@.map_values(|b: (usize, usize)| v@.subrange(b.0 as int, b.1 as int)) + split_scan(
                v@,
                pat@,
                start as int,
                i as int,
            ) == split_on(v@, pat@),
        decreases v@.len() - i,
    {
        let ghost old_r = r@;
        if occurs_at_exec(v, pat, i) {
            r.push((start, i));
            i = i + pat.len();
            start = i;
            assert(r@.map_values(|b: (usize, usize)| v@.subrange(b.0 as int, b.1 as int))
                =~= old_r.map_values(|b: (usize, usize)| v@.subrange(b.0 as int, b.1 as int))
                + seq![v@.subrange(r@.last().0 as int, r@.last().1 as int)]);
        } else {
            i = i + 1;
        }
    }
    let ghost old_r = r@;
    r.push((start, v.len()));
    assert(r@.map_values(|b: (usize, usize)| v@.subrange(b.0 as int, b.1 as int)) =~= old_r.map_values(
        |b: (usize, usize)| v@.subrange(b.0 as int, b.1 as int),
    ) + seq![v@.subrange(start as int, v@.len() as int)]);
    assert forall|j: int| 0 <= j < r@.len() implies #[trigger] split_on(v@, pat@)[j]
        == v@.subrange(r@[j].0 as int, r@[j].1 as int) by {
        assert(r@.map_values(|b: (usize, usize)| v@.subrange(b.0 as int, b.1 as int))[j]
            == v@.subrange(r@[j].0 as int, r@[j].1 as int));
    }
    r
}

/// Bounds `(lo, hi)` of each white-space separated word of `v`.
pub fn word_bounds(v: &Vec<char>) -> (r: Vec<(usize, usize)>)
    ensures
        r@.len() == words(v@).len(),
        forall|j: int| 0 <= j < r@.len() ==> (#[trigger] r@[j]).0 <= r@[j].1 <= v@.len(),
        forall|j: int|
            0 <= j < r@.len() ==> #[trigger] words(v@)[j] == v@.subrange(
                r@[j].0 as int,
                r@[j].1 as int,
            ),
{
    let mut r: Vec<(usize, usize)> = Vec::new();
    let mut start: usize = 0;
    let mut i: usize = 0;
    while i < v.len()
        invariant
            start <= i <= v@.len(),
            forall|j: int|
                0 <= j < r@.len() ==> r@[j].0 <= r@[j].1 <= v@.len() && (#[trigger] r@[j]).1
                    <= start,
            r@.map_values(|b: (usize, usize)| v@.subrange(b.0 as int, b.1 as int)) + word_scan(
                v@,
                start as int,
                i as int,
            ) == words(v@),
        decreases v@.len() - i,
    {
        let ghost old_r = r@;
        if white_space(v[i]) {
            if start < i {
                r.push((start, i));
                assert(r@.map_values(|b: (usize, usize)| v@.subrange(b.0 as int, b.1 as int))
                    =~= old_r.map_values(|b: (usize, usize)| v@.subrange(b.0 as int, b.1 as int))
                    + seq![v@.subrange(start as int, i as int)]);
            } else {
                assert(r@.map_values(|b: (usize, usize)| v@.subrange(b.0 as int, b.1 as int))
                    + Seq::<Seq<char>>::empty() =~= r@.map_values(
                    |b: (usize, usize)| v@.subrange(b.0 as int, b.1 as int),
                ));
            }
            i = i + 1;
            start = i;
        } else {
            i = i + 1;
        }
    }
    let ghost old_r = r@;
    if start < v.len() {
        r.push((start, v.len()));
        assert(r@.map_values(|b: (usize, usize)| v@.subrange(b.0 as int, b.1 as int))
            =~= old_r.map_values(|b: (usize, usize)| v@.subrange(b.0 as int, b.1 as int))
            + seq![v@.subrange(start as int, v@.len() as int)]);
    } else {
        assert(r@.map_values(|b: (usize, usize)| v@.subrange(b.0 as int, b.1 as int))
            + Seq::<Seq<char>>::empty() =~= r@.map_values(
            |b: (usize, usize)| v@.subrange(b.0 as int, b.1 as int),
        ));
    }
    assert forall|j: int| 0 <= j < r@.len() implies #[trigger] words(v@)[j] == v@.subrange(
        r@[j].0 as int,
        r@[j].1 as int,
    ) by {
        assert(r@.map_values(|b: (usize, usize)| v@.subrange(b.0 as int, b.1 as int))[j]
            == v@.subrange(r@[j].0 as int, r@[j].1 as int));
    }
    r
}

/// Bounds `(lo, hi)` of `v` with its leading and trailing white space removed.
pub fn trim_bounds(v: &Vec<char>, lo: usize, hi: usize) -> (r: (usize, usize))
    requires
        lo <= hi <= v@.len(),
    ensures
        lo <= r.0 <= r.1 <= hi,
        v@.subrange(r.0 as int, r.1 as int) == trim(v@.subrange(lo as int, hi as int)),
{
    let ghost s = v@.subrange(lo as int, hi as int);
    let mut a: usize = lo;
    while a < hi && white_space(v[a])
        invariant
            lo <= a <= hi <= v@.len(),
            trim_start(v@.subrange(a as int, hi as int)) == trim_start(s),
        decreases hi - a,
    {
        assert(v@.subrange(a as int, hi as int).drop_first() =~= v@.subrange(a + 1, hi as int));
        a = a + 1;
    }
    let mut b: usize = hi;
    while b > a && white_space(v[b - 1])
        invariant
            lo <= a <= b <= hi <= v@.len(),
            trim_end(v@.subrange(a as int, b as int)) == trim(s),
        decreases b - a,
    {
        assert(v@.subrange(a as int, b as int).drop_last() =~= v@.subrange(a as int, b - 1));
        b = b - 1;
    }
    (a, b)
}

/// The decimal digit character for `d < 10`.
pub fn digit_char(d: u64) -> (r: char)
    requires
        d < 10,
    ensures
        r == digit(d as nat),
{
    if d == 0 {
        '0'
    } else if d == 1 {
        '1'
    } else if d == 2 {
        '2'
    } else if d == 3 {
        '3'
    } else if d == 4 {
        '4'
    } else if d == 5 {
        '5'
    } else if d == 6 {
        '6'
    } else if d == 7 {
        '7'
    } else if d == 8 {
        '8'
    } else {
        '9'
    }
}

/// The decimal rendering of `n`.
pub fn decimal_string(n: u64) -> (r: String)
    ensures
        r@ == decimal(n as nat),
    decreases n,
{
    if n < 10 {
        let mut s = String::new();
        push_char(&mut s, digit_char(n));
        assert(s@ =~= decimal(n as nat));
        s
    } else {
        let mut s = decimal_string(n / 10);
        push_char(&mut s, digit_char(n % 10));
        s
    }
}

} // verus!
