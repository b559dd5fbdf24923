//! Detection of whether a run of lines is currently commented.
//!
//! The answer is read off a single line: the first one that has content and is
//! not a section marker. Lines before it are passed over, lines after it are
//! not looked at.

use vstd::prelude::*;
use vstd::string::*;
use crate::style::CommentStyle;
use crate::text::{
    all_whitespace, chars_of, contains, contains_chars, has_prefix, is_whitespace,
    is_whitespace_char, lemma_trim_is_subrange, lemma_trim_of_whitespace, matches_at, trim,
};

verus! {

/// The line is a section marker, opening or closing, whatever its identifier.
pub open spec fn is_marker_line(line: Seq<char>) -> bool {
    contains(line, "toggle:start"@) || contains(line, "toggle:end"@)
}

/// Nothing is left of the line once it is trimmed.
pub open spec fn is_blank(line: Seq<char>) -> bool {
    trim(line).len() == 0
}

/// The line has content of its own: it is neither blank nor a section marker.
pub open spec fn has_content(line: Seq<char>) -> bool {
    !is_blank(line) && !is_marker_line(line)
}

/// The line, once trimmed, begins with the comment prefix.
pub open spec fn is_commented_line(line: Seq<char>, prefix: Seq<char>) -> bool {
    has_prefix(trim(line), prefix)
}

/// `i` is the index of the first line with content.
pub open spec fn is_first_content(lines: Seq<Seq<char>>, i: int) -> bool {
    &&& 0 <= i < lines.len()
    &&& has_content(lines[i])
    &&& forall|j: int| 0 <= j < i ==> !has_content(#[trigger] lines[j])
}

/// The lines count as commented: there is a first line with content, and it
/// is commented. Lines without any content do not count as commented.
pub open spec fn is_commented(lines: Seq<Seq<char>>, prefix: Seq<char>) -> bool {
    exists|i: int| #[trigger] is_first_content(lines, i) && is_commented_line(lines[i], prefix)
}

/// A line is blank exactly when all its characters are whitespace.
pub proof fn lemma_blank_iff_all_whitespace(line: Seq<char>)
    ensures
        is_blank(line) <==> all_whitespace(line),
{
    if all_whitespace(line) {
        lemma_trim_of_whitespace(line);
    } else {
        let a = choose|a: int| 0 <= a < line.len() && !is_whitespace(line[a]);
        lemma_content_bounds(line, a);
    }
}

/// A line with a character that is not whitespace has a first and a last
/// such character, and trims to what lies between them.
pub proof fn lemma_content_bounds(line: Seq<char>, at: int) -> (bounds: (int, int))
    requires
        0 <= at < line.len(),
        !is_whitespace(line[at]),
    ensures
        0 <= bounds.0 <= at <= bounds.1 < line.len(),
        all_whitespace(line.take(bounds.0)),
        !is_whitespace(line[bounds.0]),
        !is_whitespace(line[bounds.1]),
        all_whitespace(line.skip(bounds.1 + 1)),
        trim(line) == line.subrange(bounds.0, bounds.1 + 1),
{
    let a = first_content_char(line, at);
    let b = last_content_char(line, at);
    lemma_trim_is_subrange(line, a, b);
    (a, b)
}

/// The index of the first character of the line that is not whitespace.
proof fn first_content_char(line: Seq<char>, at: int) -> (a: int)
    requires
        0 <= at < line.len(),
        !is_whitespace(line[at]),
    ensures
        0 <= a <= at,
        all_whitespace(line.take(a)),
        !is_whitespace(line[a]),
    decreases at,
{
    if exists|k: int| 0 <= k < at && !is_whitespace(line[k]) {
        let k = choose|k: int| 0 <= k < at && !is_whitespace(line[k]);
        first_content_char(line, k)
    } else {
        assert forall|i: int| 0 <= i < line.take(at).len() implies is_whitespace(
            #[trigger] line.take(at)[i],
        ) by {
            assert(line.take(at)[i] == line[i]);
        }
        at
    }
}

/// The index of the last character of the line that is not whitespace.
proof fn last_content_char(line: Seq<char>, at: int) -> (b: int)
    requires
        0 <= at < line.len(),
        !is_whitespace(line[at]),
    ensures
        at <= b < line.len(),
        !is_whitespace(line[b]),
        all_whitespace(line.skip(b + 1)),
    decreases line.len() - at,
{
    if exists|k: int| at < k < line.len() && !is_whitespace(line[k]) {
        let k = choose|k: int| at < k < line.len() && !is_whitespace(line[k]);
        last_content_char(line, k)
    } else {
        assert forall|i: int| 0 <= i < line.skip(at + 1).len() implies is_whitespace(
            #[trigger] line.skip(at + 1)[i],
        ) by {
            assert(line.skip(at + 1)[i] == line[at + 1 + i]);
        }
        at
    }
}

/// What one line says about the state of a run of lines.
#[derive(Debug, Clone, Copy, PartialEq, Eq)]
pub enum LineState {
    /// The line is blank or a section marker, and says nothing.
    Skipped,
    /// The line has content and is commented.
    Commented,
    /// The line has content and is not commented.
    Uncommented,
}

/// The state of a line, as a specification.
pub open spec fn line_state(line: Seq<char>, prefix: Seq<char>) -> LineState {
    if !has_content(line) {
        LineState::Skipped
    } else if is_commented_line(line, prefix) {
        LineState::Commented
    } else {
        LineState::Uncommented
    }
}

/// Classifies one line against a comment prefix.
pub fn classify_line(line: &str, prefix: &str) -> (state: LineState)
    ensures
        state == line_state(line@, prefix@),
{
    let chars = chars_of(line);
    let n = chars.len();
    let mut a: usize = 0;
    while a < n && is_whitespace_char(chars[a])
        invariant
            n == chars.len(),
            a <= n,
            forall|i: int| 0 <= i < a ==> is_whitespace(#[trigger] chars[i]),
        decreases n - a,
    {
        a += 1;
    }
    if a == n {
        proof {
            lemma_blank_iff_all_whitespace(line@);
        }
        return LineState::Skipped;
    }
    let mut b: usize = n - 1;
    while b > a && is_whitespace_char(chars[b])
        invariant
            n == chars.len(),
            a <= b < n,
            forall|i: int| b < i < n ==> is_whitespace(#[trigger] chars[i]),
        decreases b,
    {
        b -= 1;
    }
    proof {
        assert(all_whitespace(line@.take(a as int)));
        assert(all_whitespace(line@.skip(b + 1)));
        lemma_trim_is_subrange(line@, a as int, b as int);
    }
    let start_tag = chars_of("toggle:start");
    let end_tag = chars_of("toggle:end");
    if contains_chars(chars.as_slice(), start_tag.as_slice()) || contains_chars(
        chars.as_slice(),
        end_tag.as_slice(),
    ) {
        return LineState::Skipped;
    }
    let pat = chars_of(prefix);
    let trimmed = vstd::slice::slice_subrange(chars.as_slice(), a, b + 1);
    if matches_at(trimmed, pat.as_slice(), 0) {
        LineState::Commented
    } else {
        LineState::Uncommented
    }
}

/// Tells whether a run of lines is commented, judging by its first line with
/// content.
pub fn check_if_commented(lines: &[String], comment_style: &CommentStyle) -> (commented: bool)
    ensures
        commented == is_commented(lines.deep_view(), comment_style.single_line@),
{
    let ghost text = lines.deep_view();
    let ghost prefix = comment_style.single_line@;
    let mut i: usize = 0;
    while i < lines.len()
        invariant
            i <= lines.len(),
            text == lines.deep_view(),
            prefix == comment_style.single_line@,
            forall|j: int| 0 <= j < i ==> !has_content(#[trigger] text[j]),
        decreases lines.len() - i,
    {
        let state = classify_line(lines[i].as_str(), comment_style.single_line.as_str());
        assert(text[i as int] == lines[i as int]@);
        match state {
            LineState::Skipped => {},
            LineState::Commented => {
                assert(is_first_content(text, i as int));
                return true;
            },
            LineState::Uncommented => {
                assert(is_first_content(text, i as int));
                assert forall|k: int| is_first_content(text, k) implies k == i by {
                    if k < i {
                        assert(!has_content(text[k]));
                    } else if k > i {
                        assert(!has_content(text[i as int]));
                    }
                }
                return false;
            },
        }
        i += 1;
    }
    assert forall|k: int| !is_first_content(text, k) by {
        if 0 <= k < text.len() {
            assert(!has_content(text[k]));
        }
    }
    false
}

/// Before a line with content there is a first line with content.
pub proof fn lemma_first_content_exists(lines: Seq<Seq<char>>, at: int) -> (first: int)
    requires
        0 <= at < lines.len(),
        has_content(lines[at]),
    ensures
        first <= at,
        is_first_content(lines, first),
    decreases at,
{
    if exists|k: int| 0 <= k < at && has_content(lines[k]) {
        let k = choose|k: int| 0 <= k < at && has_content(lines[k]);
        lemma_first_content_exists(lines, k)
    } else {
        at
    }
}

/// The first line with content decides whether the lines are commented.
pub proof fn lemma_first_content_decides(lines: Seq<Seq<char>>, prefix: Seq<char>, first: int)
    requires
        is_first_content(lines, first),
    ensures
        is_commented(lines, prefix) == is_commented_line(lines[first], prefix),
{
    assert forall|k: int| is_first_content(lines, k) implies k == first by {
        if k < first {
            assert(!has_content(lines[k]));
        } else if first < k {
            assert(!has_content(lines[first]));
        }
    }
}

/// Lines of which none has content are not commented.
pub proof fn lemma_no_content_not_commented(lines: Seq<Seq<char>>, prefix: Seq<char>)
    requires
        forall|i: int| 0 <= i < lines.len() ==> !has_content(#[trigger] lines[i]),
    ensures
        !is_commented(lines, prefix),
{
    assert forall|k: int| !is_first_content(lines, k) by {
        if 0 <= k < lines.len() {
            assert(!has_content(lines[k]));
        }
    }
}

} // verus!
