//! The toggle itself: commenting and uncommenting a run of lines.
//!
//! Commenting puts the prefix in front of every line of the run, with no
//! space after it. Uncommenting takes the prefix away from every line of the
//! run that begins with it, together with one space if one follows.

use vstd::prelude::*;
use vstd::string::*;
use crate::range::LineRange;
use crate::state::{check_if_commented, is_commented};
use crate::style::CommentStyle;
use crate::text::{chars_of, has_prefix, same_text, starts_with};

verus! {

/// Which way a toggle is to go.
#[derive(Debug, Clone, Copy, PartialEq, Eq)]
pub enum ForceState {
    /// Comment the lines, whatever their state.
    Comment,
    /// Uncomment the lines, whatever their state.
    Uncomment,
    /// Comment the lines if they are not commented, uncomment them if they
    /// are.
    Toggle,
}

/// The direction that a force flag asks for: `on` comments, `off`
/// uncomments, and anything else, or no flag, toggles.
pub open spec fn force_of_flag(flag: Option<&str>) -> ForceState {
    match flag {
        Some(word) => if word@ == "on"@ {
            ForceState::Comment
        } else if word@ == "off"@ {
            ForceState::Uncomment
        } else {
            ForceState::Toggle
        },
        None => ForceState::Toggle,
    }
}

impl ForceState {
    /// Reads the direction off a force flag.
    pub fn from_flag(flag: Option<&str>) -> (force: ForceState)
        ensures
            force == force_of_flag(flag),
    {
        match flag {
            Some(word) => {
                if same_text(word, "on") {
                    ForceState::Comment
                } else if same_text(word, "off") {
                    ForceState::Uncomment
                } else {
                    ForceState::Toggle
                }
            },
            None => ForceState::Toggle,
        }
    }
}

/// Whether lines in the given state are to end up commented.
pub open spec fn should_comment(force: ForceState, commented: bool) -> bool {
    match force {
        ForceState::Comment => true,
        ForceState::Uncomment => false,
        ForceState::Toggle => !commented,
    }
}

/// The line with the prefix in front of it.
pub open spec fn comment_line(line: Seq<char>, prefix: Seq<char>) -> Seq<char> {
    prefix + line
}

/// The line without the prefix it begins with, and without the one space
/// after the prefix if there is one. A line that does not begin with the
/// prefix is left as it is.
pub open spec fn uncomment_line(line: Seq<char>, prefix: Seq<char>) -> Seq<char> {
    if has_prefix(line, prefix.push(' ')) {
        line.skip(prefix.len() as int + 1)
    } else if has_prefix(line, prefix) {
        line.skip(prefix.len() as int)
    } else {
        line
    }
}

/// The lines with every line from `start` up to `end` commented.
pub open spec fn comment_span(
    lines: Seq<Seq<char>>,
    start: int,
    end: int,
    prefix: Seq<char>,
) -> Seq<Seq<char>> {
    Seq::new(
        lines.len(),
        |i: int|
            if start <= i < end {
                comment_line(lines[i], prefix)
            } else {
                lines[i]
            },
    )
}

/// The lines with every line from `start` up to `end` uncommented.
pub open spec fn uncomment_span(
    lines: Seq<Seq<char>>,
    start: int,
    end: int,
    prefix: Seq<char>,
) -> Seq<Seq<char>> {
    Seq::new(
        lines.len(),
        |i: int|
            if start <= i < end {
                uncomment_line(lines[i], prefix)
            } else {
                lines[i]
            },
    )
}

/// Whether the lines from `start` up to `end` count as commented.
pub open spec fn span_commented(
    lines: Seq<Seq<char>>,
    start: int,
    end: int,
    prefix: Seq<char>,
) -> bool {
    is_commented(lines.subrange(start, end), prefix)
}

/// Whether a toggle in the given direction changes the lines from `start` up
/// to `end`: it does when they are not yet in the state asked for.
pub open spec fn toggle_modifies(
    lines: Seq<Seq<char>>,
    start: int,
    end: int,
    prefix: Seq<char>,
    force: ForceState,
) -> bool {
    should_comment(force, span_commented(lines, start, end, prefix)) != span_commented(
        lines,
        start,
        end,
        prefix,
    )
}

/// The lines after a toggle of those from `start` up to `end`.
pub open spec fn toggled(
    lines: Seq<Seq<char>>,
    start: int,
    end: int,
    prefix: Seq<char>,
    force: ForceState,
) -> Seq<Seq<char>> {
    let commented = span_commented(lines, start, end, prefix);
    if should_comment(force, commented) == commented {
        lines
    } else if commented {
        uncomment_span(lines, start, end, prefix)
    } else {
        comment_span(lines, start, end, prefix)
    }
}

/// Puts the prefix in front of a line.
pub fn commented_line(line: &str, prefix: &str) -> (out: String)
    ensures
        out@ == comment_line(line@, prefix@),
{
    let mut out = prefix.to_owned();
    out.append(line);
    out
}

/// Takes the prefix, and one space after it, away from the front of a line.
pub fn uncommented_line(line: &str, prefix: &str) -> (out: String)
    ensures
        out@ == uncomment_line(line@, prefix@),
{
    let chars = chars_of(line);
    let pat = chars_of(prefix);
    let n = chars.len();
    let k = pat.len();
    if starts_with(chars.as_slice(), pat.as_slice()) {
        assert(line@.subrange(0, k as int) == prefix@);
        if k < n && chars[k] == ' ' {
            assert(line@.subrange(0, k + 1) =~= prefix@.push(' '));
            line.substring_char(k + 1, n).to_owned()
        } else {
            if k < n {
                assert(line@.subrange(0, k + 1)[k as int] != prefix@.push(' ')[k as int]);
            }
            line.substring_char(k, n).to_owned()
        }
    } else {
        proof {
            if has_prefix(line@, prefix@.push(' ')) {
                assert(line@.subrange(0, k as int) =~= line@.subrange(0, k + 1).subrange(
                    0,
                    k as int,
                ));
                assert(prefix@.push(' ').subrange(0, k as int) =~= prefix@);
            }
        }
        line.to_owned()
    }
}

/// Toggles the lines of `span` in the direction that `force` gives.
///
/// A span that is already in the state asked for is left as it is, so that
/// no line is commented twice, and the result is `false`. Otherwise every
/// line of the span is rewritten and the result is `true`: commenting puts
/// the prefix in front of each line, blank ones too, and uncommenting takes
/// it away from each line that begins with it. The state of the span is
/// read off its first line with content; a span without such a line counts
/// as not commented.
pub fn toggle_lines(
    lines: &mut [String],
    span: LineRange,
    style: &CommentStyle,
    force: ForceState,
) -> (did_modify: bool)
    requires
        span.wf(old(lines).len() as nat),
    ensures
        final(lines).deep_view() == toggled(
            old(lines).deep_view(),
            span.start as int,
            span.end as int,
            style.single_line@,
            force,
        ),
        did_modify == toggle_modifies(
            old(lines).deep_view(),
            span.start as int,
            span.end as int,
            style.single_line@,
            force,
        ),
{
    let ghost before = lines.deep_view();
    let ghost prefix = style.single_line@;
    let ghost start = span.start as int;
    let ghost end = span.end as int;
    let within = vstd::slice::slice_subrange(lines, span.start, span.end);
    assert(within.deep_view() =~= before.subrange(start, end));
    let commented = check_if_commented(within, style);
    let comment = match force {
        ForceState::Comment => true,
        ForceState::Uncomment => false,
        ForceState::Toggle => !commented,
    };
    if comment == commented {
        return false;
    }
    let mut i: usize = span.start;
    while i < span.end
        invariant
            span.start <= i <= span.end <= lines.len(),
            lines.len() == before.len(),
            prefix == style.single_line@,
            start == span.start,
            commented ==> lines.deep_view() == uncomment_span(before, start, i as int, prefix),
            !commented ==> lines.deep_view() == comment_span(before, start, i as int, prefix),
        decreases span.end - i,
    {
        let ghost current = lines.deep_view();
        assert(current[i as int] == lines[i as int]@);
        assert(current[i as int] == before[i as int]);
        let changed = if commented {
            uncommented_line(lines[i].as_str(), style.single_line.as_str())
        } else {
            commented_line(lines[i].as_str(), style.single_line.as_str())
        };
        lines[i] = changed;
        proof {
            let after = lines.deep_view();
            assert forall|j: int| 0 <= j < after.len() && j != i implies after[j] == current[j] by {
                assert(after[j] == lines[j]@);
                assert(current[j] == lines[j]@);
            }
            assert(after[i as int] == changed@);
            if commented {
                assert(after =~= uncomment_span(before, start, i + 1, prefix));
            } else {
                assert(after =~= comment_span(before, start, i + 1, prefix));
            }
        }
        i += 1;
    }
    true
}

} // verus!
