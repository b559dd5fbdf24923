//! Character-level primitives on lines of text.
//!
//! A line is modelled as a `Seq<char>`. The specification functions here say
//! what it means for a pattern to occur in a line, for a line to carry a
//! prefix, and what trimming removes; the executable functions compute the
//! same answers on slices of characters.

use vstd::prelude::*;
use vstd::string::*;

verus! {

/// The characters with the Unicode `White_Space` property.
pub open spec fn is_whitespace(c: char) -> bool {
    let n = c as u32;
    ||| 0x09 <= n <= 0x0D
    ||| n == 0x20
    ||| n == 0x85
    ||| n == 0xA0
    ||| n == 0x1680
    ||| 0x2000 <= n <= 0x200A
    ||| n == 0x2028
    ||| n == 0x2029
    ||| n == 0x202F
    ||| n == 0x205F
    ||| n == 0x3000
}

/// `pat` occurs in `s` starting at index `i`.
pub open spec fn occurs_at(s: Seq<char>, pat: Seq<char>, i: int) -> bool {
    &&& 0 <= i
    &&& i + pat.len() <= s.len()
    &&& s.subrange(i, i + pat.len()) == pat
}

/// `pat` occurs somewhere in `s` as a contiguous run of characters.
pub open spec fn contains(s: Seq<char>, pat: Seq<char>) -> bool {
    exists|i: int| occurs_at(s, pat, i)
}

/// `s` begins with `pat`.
pub open spec fn has_prefix(s: Seq<char>, pat: Seq<char>) -> bool {
    occurs_at(s, pat, 0)
}

/// `s` without its leading whitespace.
pub open spec fn trim_start(s: Seq<char>) -> Seq<char>
    decreases s.len(),
{
    if s.len() > 0 && is_whitespace(s.first()) {
        trim_start(s.drop_first())
    } else {
        s
    }
}

/// `s` without its trailing whitespace.
pub open spec fn trim_end(s: Seq<char>) -> Seq<char>
    decreases s.len(),
{
    if s.len() > 0 && is_whitespace(s.last()) {
        trim_end(s.drop_last())
    } else {
        s
    }
}

/// `s` without its leading and trailing whitespace.
pub open spec fn trim(s: Seq<char>) -> Seq<char> {
    trim_end(trim_start(s))
}

/// Every character of `s` is whitespace.
pub open spec fn all_whitespace(s: Seq<char>) -> bool {
    forall|i: int| 0 <= i < s.len() ==> is_whitespace(#[trigger] s[i])
}

/// Trimming the start of `s` removes exactly its first `a` characters when
/// those are whitespace and the one after them is not.
pub proof fn lemma_trim_start_skips(s: Seq<char>, a: int)
    requires
        0 <= a <= s.len(),
        all_whitespace(s.take(a)),
        a < s.len() ==> !is_whitespace(s[a]),
    ensures
        trim_start(s) == s.skip(a),
    decreases a,
{
    if a == 0 {
        assert(s.skip(0) =~= s);
    } else {
        assert(s.take(a)[0] == s[0]);
        let rest = s.drop_first();
        assert forall|i: int| 0 <= i < a - 1 implies is_whitespace(
            #[trigger] rest.take(a - 1)[i],
        ) by {
            assert(rest.take(a - 1)[i] == s.take(a)[i + 1]);
        }
        lemma_trim_start_skips(rest, a - 1);
        assert(rest.skip(a - 1) =~= s.skip(a));
    }
}

/// Trimming the end of `s` keeps exactly its first `b` characters when the
/// ones after them are whitespace and the one before them is not.
pub proof fn lemma_trim_end_takes(s: Seq<char>, b: int)
    requires
        0 <= b <= s.len(),
        all_whitespace(s.skip(b)),
        b > 0 ==> !is_whitespace(s[b - 1]),
    ensures
        trim_end(s) == s.take(b),
    decreases s.len() - b,
{
    if b == s.len() {
        assert(s.take(b) =~= s);
    } else {
        assert(s.skip(b)[s.len() - 1 - b] == s.last());
        let rest = s.drop_last();
        assert forall|i: int| 0 <= i < rest.len() - b implies is_whitespace(
            #[trigger] rest.skip(b)[i],
        ) by {
            assert(rest.skip(b)[i] == s.skip(b)[i]);
        }
        lemma_trim_end_takes(rest, b);
        assert(rest.take(b) =~= s.take(b));
    }
}

/// A line made of whitespace alone trims to the empty line.
pub proof fn lemma_trim_of_whitespace(s: Seq<char>)
    requires
        all_whitespace(s),
    ensures
        trim(s) == Seq::<char>::empty(),
{
    assert(s.take(s.len() as int) =~= s);
    lemma_trim_start_skips(s, s.len() as int);
    assert(s.skip(s.len() as int) =~= Seq::<char>::empty());
}

/// A line whose first non-whitespace character is at `a` and whose last is
/// at `b` trims to the characters from `a` to `b`.
pub proof fn lemma_trim_is_subrange(s: Seq<char>, a: int, b: int)
    requires
        0 <= a <= b < s.len(),
        all_whitespace(s.take(a)),
        !is_whitespace(s[a]),
        !is_whitespace(s[b]),
        all_whitespace(s.skip(b + 1)),
    ensures
        trim(s) == s.subrange(a, b + 1),
{
    lemma_trim_start_skips(s, a);
    let t = s.skip(a);
    assert(t.skip(b + 1 - a) =~= s.skip(b + 1));
    assert(t[b - a] == s[b]);
    lemma_trim_end_takes(t, b + 1 - a);
    assert(t.take(b + 1 - a) =~= s.subrange(a, b + 1));
}

/// Text in front of a line adds no occurrence of a pattern whose first
/// character the text does not hold.
pub proof fn lemma_contains_past_prefix(line: Seq<char>, prefix: Seq<char>, pat: Seq<char>)
    requires
        pat.len() > 0,
        !prefix.contains(pat[0]),
    ensures
        contains(prefix + line, pat) == contains(line, pat),
{
    let s = prefix + line;
    let k = prefix.len() as int;
    let m = pat.len() as int;
    if contains(line, pat) {
        let i = choose|i: int| occurs_at(line, pat, i);
        assert(s.subrange(i + k, i + k + m) =~= line.subrange(i, i + m));
        assert(occurs_at(s, pat, i + k));
    }
    if contains(s, pat) {
        let q = choose|q: int| occurs_at(s, pat, q);
        if q < k {
            assert(s.subrange(q, q + m)[0] == pat[0]);
            assert(prefix[q] == pat[0]);
        } else {
            assert(line.subrange(q - k, q - k + m) =~= s.subrange(q, q + m));
            assert(occurs_at(line, pat, q - k));
        }
    }
}

/// Tells whether `c` is a whitespace character.
pub fn is_whitespace_char(c: char) -> (r: bool)
    ensures
        r == is_whitespace(c),
{
    let n: u32 = c as u32;
    (0x09 <= n && n <= 0x0D) || n == 0x20 || n == 0x85 || n == 0xA0 || n == 0x1680 || (0x2000 <= n
        && n <= 0x200A) || n == 0x2028 || n == 0x2029 || n == 0x202F || n == 0x205F || n == 0x3000
}

/// Collects the characters of `s` in order.
pub fn chars_of(s: &str) -> (chars: Vec<char>)
    ensures
        chars@ == s@,
{
    broadcast use vstd::string::group_string_axioms;

    let mut chars: Vec<char> = Vec::new();
    for c in it: s.chars()
        invariant
            it.seq() == s@,
            chars@ == s@.take(it.index()),
    {
        chars.push(c);
    }
    chars
}

/// Tells whether `pat` occurs in `s` starting at index `i`.
pub fn matches_at(s: &[char], pat: &[char], i: usize) -> (r: bool)
    ensures
        r == occurs_at(s@, pat@, i as int),
{
    if pat.len() > s.len() || i > s.len() - pat.len() {
        return false;
    }
    let mut k: usize = 0;
    while k < pat.len()
        invariant
            k <= pat.len(),
            i + pat.len() <= s.len(),
            forall|j: int| 0 <= j < k ==> s[i + j] == pat[j],
        decreases pat.len() - k,
    {
        if s[i + k] != pat[k] {
            proof {
                let window = s@.subrange(i as int, i + pat.len());
                assert(window[k as int] == s[i + k]);
            }
            return false;
        }
        k += 1;
    }
    assert(s@.subrange(i as int, i + pat.len()) =~= pat@);
    true
}

/// Tells whether `s` begins with `pat`.
pub fn starts_with(s: &[char], pat: &[char]) -> (r: bool)
    ensures
        r == has_prefix(s@, pat@),
{
    matches_at(s, pat, 0)
}

/// Tells whether `pat` occurs anywhere in `s`.
pub fn contains_chars(s: &[char], pat: &[char]) -> (r: bool)
    ensures
        r == contains(s@, pat@),
{
    if pat.len() > s.len() {
        return false;
    }
    let last: usize = s.len() - pat.len();
    let mut i: usize = 0;
    while i < last
        invariant
            last == s.len() - pat.len(),
            i <= last,
            forall|j: int| 0 <= j < i ==> !occurs_at(s@, pat@, j),
        decreases last - i,
    {
        if matches_at(s, pat, i) {
            return true;
        }
        i += 1;
    }
    matches_at(s, pat, last)
}

/// Tells whether the strings `a` and `b` hold the same characters.
pub fn same_text(a: &str, b: &str) -> (r: bool)
    ensures
        r == (a@ == b@),
{
    let x = chars_of(a);
    let y = chars_of(b);
    if x.len() != y.len() {
        return false;
    }
    let mut i: usize = 0;
    while i < x.len()
        invariant
            x@ == a@,
            y@ == b@,
            x.len() == y.len(),
            i <= x.len(),
            forall|j: int| 0 <= j < i ==> x[j] == y[j],
        decreases x.len() - i,
    {
        if x[i] != y[i] {
            return false;
        }
        i += 1;
    }
    assert(x@ =~= y@);
    true
}

} // verus!
