//! What holds of a toggle applied more than once.
//!
//! Commenting puts nothing but the prefix in front of a line; uncommenting
//! takes a space along with the prefix. And the state of a span is read off
//! one line, with marker lines passed over. So the laws below hold of most
//! spans, and not of all: each says which spans it leaves out, and a second
//! lemma shows that it fails on those.

use vstd::prelude::*;
use vstd::string::*;
use crate::range::LineRange;
use crate::state::{
    has_content, is_blank, is_commented_line, is_marker_line, lemma_content_bounds,
    lemma_first_content_decides, lemma_first_content_exists, lemma_no_content_not_commented,
};
use crate::style::{
    lemma_registered_prefix_valid, marker_free, registered_prefix, valid_prefix, CommentStyle,
};
use crate::text::{has_prefix, lemma_contains_past_prefix, trim};
use crate::transform::{
    comment_line, comment_span, span_commented, toggle_modifies, toggled, uncomment_line,
    ForceState,
};

verus! {

/// The span has lines, and every one of them is a section marker.
pub open spec fn only_markers(lines: Seq<Seq<char>>, span: LineRange) -> bool {
    &&& span.start < span.end
    &&& forall|i: int| span.start <= i < span.end ==> is_marker_line(#[trigger] lines[i])
}

/// The line begins with a space.
pub open spec fn starts_with_space(line: Seq<char>) -> bool {
    line.len() > 0 && line[0] == ' '
}

/// No line of the span begins with a space.
pub open spec fn no_leading_space(lines: Seq<Seq<char>>, span: LineRange) -> bool {
    forall|i: int| span.start <= i < span.end ==> !starts_with_space(#[trigger] lines[i])
}

/// The lines after a toggle of the span in the direction `force`.
pub open spec fn apply(
    lines: Seq<Seq<char>>,
    span: LineRange,
    style: CommentStyle,
    force: ForceState,
) -> Seq<Seq<char>> {
    toggled(lines, span.start as int, span.end as int, style.single_line@, force)
}

/// Whether the span counts as commented.
pub open spec fn commented(lines: Seq<Seq<char>>, span: LineRange, style: CommentStyle) -> bool {
    span_commented(lines, span.start as int, span.end as int, style.single_line@)
}

/// A line that was given a usable prefix is not blank, and is commented.
pub proof fn lemma_commented_line_detected(line: Seq<char>, prefix: Seq<char>)
    requires
        valid_prefix(prefix),
    ensures
        !is_blank(comment_line(line, prefix)),
        is_commented_line(comment_line(line, prefix), prefix),
{
    let s = prefix + line;
    let k = prefix.len() as int;
    assert(s[0] == prefix[0]);
    assert(s[k - 1] == prefix[k - 1]);
    let (a, b) = lemma_content_bounds(s, k - 1);
    if a > 0 {
        assert(s.take(a)[0] == s[0]);
    }
    assert(trim(s) == s.subrange(0, b + 1));
    assert(trim(s).subrange(0, k) =~= prefix);
}

/// Uncommenting a line that was commented gives the line back, less the
/// space it began with if it began with one.
pub proof fn lemma_uncomment_commented_line(line: Seq<char>, prefix: Seq<char>)
    ensures
        uncomment_line(comment_line(line, prefix), prefix) == if starts_with_space(line) {
            line.skip(1)
        } else {
            line
        },
{
    let s = prefix + line;
    let k = prefix.len() as int;
    assert(s.subrange(0, k) =~= prefix);
    if starts_with_space(line) {
        assert(s.subrange(0, k + 1) =~= prefix.push(' '));
        assert(s.skip(k + 1) =~= line.skip(1));
    } else {
        if has_prefix(s, prefix.push(' ')) {
            assert(s.subrange(0, k + 1)[k] == prefix.push(' ')[k]);
            assert(s[k] == line[0]);
        }
        assert(s.skip(k) =~= line);
    }
}

/// A line with a marker-free prefix in front of it is a marker line exactly
/// when it was one before.
pub proof fn lemma_comment_keeps_markers(line: Seq<char>, prefix: Seq<char>)
    requires
        marker_free(prefix),
    ensures
        is_marker_line(comment_line(line, prefix)) == is_marker_line(line),
{
    reveal_strlit("toggle:start");
    reveal_strlit("toggle:end");
    lemma_contains_past_prefix(line, prefix, "toggle:start"@);
    lemma_contains_past_prefix(line, prefix, "toggle:end"@);
}

/// Under a marker-free prefix, and so under every registered one, a span
/// is made of marker lines alone once it is commented exactly when it was
/// so before.
pub proof fn lemma_comment_keeps_only_markers(
    lines: Seq<Seq<char>>,
    span: LineRange,
    style: CommentStyle,
)
    requires
        marker_free(style.single_line@),
        span.wf(lines.len()),
    ensures
        only_markers(
            comment_span(lines, span.start as int, span.end as int, style.single_line@),
            span,
        ) == only_markers(lines, span),
{
    let prefix = style.single_line@;
    let after = comment_span(lines, span.start as int, span.end as int, prefix);
    assert forall|i: int| span.start <= i < span.end implies is_marker_line(#[trigger] after[i])
        == is_marker_line(lines[i]) by {
        lemma_comment_keeps_markers(lines[i], prefix);
    }
    if only_markers(lines, span) {
        assert forall|i: int| span.start <= i < span.end implies is_marker_line(
            #[trigger] after[i],
        ) by {
            assert(is_marker_line(lines[i]));
        }
    }
    if only_markers(after, span) {
        assert forall|i: int| span.start <= i < span.end implies is_marker_line(
            #[trigger] lines[i],
        ) by {
            assert(is_marker_line(after[i]));
        }
    }
}

/// A span that was commented counts as commented, unless it is made of
/// marker lines alone or has no lines.
pub proof fn lemma_commented_span_detected(
    lines: Seq<Seq<char>>,
    span: LineRange,
    style: CommentStyle,
)
    requires
        style.wf(),
        span.wf(lines.len()),
    ensures
        ({
            let after = comment_span(
                lines,
                span.start as int,
                span.end as int,
                style.single_line@,
            );
            commented(after, span, style) == (span.start < span.end && !only_markers(after, span))
        }),
{
    let prefix = style.single_line@;
    let start = span.start as int;
    let end = span.end as int;
    let after = comment_span(lines, start, end, prefix);
    let within = after.subrange(start, end);
    assert forall|j: int| 0 <= j < within.len() implies has_content(#[trigger] within[j])
        == !is_marker_line(after[start + j]) by {
        assert(within[j] == comment_line(lines[start + j], prefix));
        lemma_commented_line_detected(lines[start + j], prefix);
    }
    if start < end && !only_markers(after, span) {
        let i = choose|i: int| start <= i < end && !is_marker_line(#[trigger] after[i]);
        assert(has_content(within[i - start]));
        let first = lemma_first_content_exists(within, i - start);
        lemma_first_content_decides(within, prefix, first);
        assert(within[first] == comment_line(lines[start + first], prefix));
        lemma_commented_line_detected(lines[start + first], prefix);
    } else {
        assert forall|j: int| 0 <= j < within.len() implies !has_content(#[trigger] within[j]) by {
            assert(is_marker_line(after[start + j]));
        }
        lemma_no_content_not_commented(within, prefix);
    }
}

/// A span of marker lines alone does not count as commented.
pub proof fn lemma_markers_not_commented(
    lines: Seq<Seq<char>>,
    span: LineRange,
    style: CommentStyle,
)
    requires
        span.wf(lines.len()),
        only_markers(lines, span),
    ensures
        !commented(lines, span, style),
{
    let within = lines.subrange(span.start as int, span.end as int);
    assert forall|j: int| 0 <= j < within.len() implies !has_content(#[trigger] within[j]) by {
        assert(is_marker_line(lines[span.start + j]));
    }
    lemma_no_content_not_commented(within, style.single_line@);
}

/// Idempotence of commenting: to comment a span twice in a row is to
/// comment it once.
///
/// Left out are the spans that, once commented, are made of marker lines
/// alone. Such a span never counts as commented, so each pass puts another
/// prefix in front of its lines.
pub proof fn lemma_comment_twice(lines: Seq<Seq<char>>, span: LineRange, style: CommentStyle)
    requires
        style.wf(),
        span.wf(lines.len()),
        !only_markers(apply(lines, span, style, ForceState::Comment), span),
    ensures
        apply(apply(lines, span, style, ForceState::Comment), span, style, ForceState::Comment)
            == apply(lines, span, style, ForceState::Comment),
{
    let once = apply(lines, span, style, ForceState::Comment);
    if !commented(lines, span, style) {
        lemma_commented_span_detected(lines, span, style);
        if span.start == span.end {
            assert(once =~= lines);
        }
    }
}

/// Idempotence in the registry: under the style of every registered
/// extension, to comment a span twice in a row is to comment it once, and
/// the second pass finds a span with lines in the state asked for.
///
/// Left out are the spans made of marker lines alone.
pub proof fn lemma_comment_twice_in_registry(
    lines: Seq<Seq<char>>,
    span: LineRange,
    style: CommentStyle,
    extension: Seq<char>,
)
    requires
        registered_prefix(extension) == Some(style.single_line@),
        span.wf(lines.len()),
        !only_markers(lines, span),
    ensures
        apply(apply(lines, span, style, ForceState::Comment), span, style, ForceState::Comment)
            == apply(lines, span, style, ForceState::Comment),
        span.start < span.end ==> !toggle_modifies(
            apply(lines, span, style, ForceState::Comment),
            span.start as int,
            span.end as int,
            style.single_line@,
            ForceState::Comment,
        ),
{
    lemma_registered_prefix_valid(extension);
    lemma_comment_keeps_only_markers(lines, span, style);
    lemma_commented_span_detected(lines, span, style);
    lemma_comment_twice(lines, span, style);
}

/// On a span that, once commented, is made of marker lines alone,
/// commenting twice is not commenting once.
pub proof fn lemma_comment_twice_on_markers(
    lines: Seq<Seq<char>>,
    span: LineRange,
    style: CommentStyle,
)
    requires
        style.wf(),
        span.wf(lines.len()),
        only_markers(apply(lines, span, style, ForceState::Comment), span),
    ensures
        apply(apply(lines, span, style, ForceState::Comment), span, style, ForceState::Comment)
            != apply(lines, span, style, ForceState::Comment),
{
    let prefix = style.single_line@;
    let start = span.start as int;
    let end = span.end as int;
    let once = apply(lines, span, style, ForceState::Comment);
    lemma_markers_not_commented(once, span, style);
    let twice = apply(once, span, style, ForceState::Comment);
    assert(twice[start] == prefix + once[start]);
    assert(twice[start].len() != once[start].len());
}

/// Round trip: to comment a span that is not commented, and then to
/// uncomment it, gives back the lines as they were.
///
/// Left out are the spans with a line that begins with a space, which
/// uncommenting takes along with the prefix, and the spans that, once
/// commented, are made of marker lines alone, which are then not
/// uncommented.
pub proof fn lemma_comment_then_uncomment(
    lines: Seq<Seq<char>>,
    span: LineRange,
    style: CommentStyle,
)
    requires
        style.wf(),
        span.wf(lines.len()),
        !commented(lines, span, style),
        no_leading_space(lines, span),
        !only_markers(apply(lines, span, style, ForceState::Comment), span),
    ensures
        apply(apply(lines, span, style, ForceState::Comment), span, style, ForceState::Uncomment)
            == lines,
{
    let prefix = style.single_line@;
    let start = span.start as int;
    let end = span.end as int;
    let once = apply(lines, span, style, ForceState::Comment);
    let back = apply(once, span, style, ForceState::Uncomment);
    lemma_commented_span_detected(lines, span, style);
    if span.start == span.end {
        assert(once =~= lines);
        assert(back =~= lines);
    } else {
        assert forall|i: int| 0 <= i < lines.len() implies back[i] == lines[i] by {
            if start <= i < end {
                assert(once[i] == comment_line(lines[i], prefix));
                lemma_uncomment_commented_line(lines[i], prefix);
            }
        }
        assert(back =~= lines);
    }
}

/// Round trip in the registry: under the style of every registered
/// extension, to comment a span that is not commented, and then to uncomment
/// it, gives back the lines as they were.
///
/// Left out are the spans with a line that begins with a space, and the
/// spans made of marker lines alone.
pub proof fn lemma_comment_then_uncomment_in_registry(
    lines: Seq<Seq<char>>,
    span: LineRange,
    style: CommentStyle,
    extension: Seq<char>,
)
    requires
        registered_prefix(extension) == Some(style.single_line@),
        span.wf(lines.len()),
        !commented(lines, span, style),
        no_leading_space(lines, span),
        !only_markers(lines, span),
    ensures
        apply(apply(lines, span, style, ForceState::Comment), span, style, ForceState::Uncomment)
            == lines,
{
    lemma_registered_prefix_valid(extension);
    lemma_comment_keeps_only_markers(lines, span, style);
    lemma_comment_then_uncomment(lines, span, style);
}

/// On a span that is left out of the round trip, the lines do not come
/// back as they were.
pub proof fn lemma_comment_then_uncomment_fails(
    lines: Seq<Seq<char>>,
    span: LineRange,
    style: CommentStyle,
)
    requires
        style.wf(),
        span.wf(lines.len()),
        !commented(lines, span, style),
        !no_leading_space(lines, span) || only_markers(
            apply(lines, span, style, ForceState::Comment),
            span,
        ),
    ensures
        apply(apply(lines, span, style, ForceState::Comment), span, style, ForceState::Uncomment)
            != lines,
{
    let prefix = style.single_line@;
    let start = span.start as int;
    let end = span.end as int;
    let once = apply(lines, span, style, ForceState::Comment);
    let back = apply(once, span, style, ForceState::Uncomment);
    lemma_commented_span_detected(lines, span, style);
    if only_markers(once, span) {
        assert(back == once);
        assert(once[start] == prefix + lines[start]);
        assert(once[start].len() != lines[start].len());
    } else {
        let i = choose|i: int| start <= i < end && starts_with_space(#[trigger] lines[i]);
        assert(once[i] == comment_line(lines[i], prefix));
        lemma_uncomment_commented_line(lines[i], prefix);
        assert(back[i] == lines[i].skip(1));
        assert(back[i].len() != lines[i].len());
    }
}

/// No line of the span begins with the prefix.
pub open spec fn no_prefixed_line(
    lines: Seq<Seq<char>>,
    span: LineRange,
    prefix: Seq<char>,
) -> bool {
    forall|i: int| span.start <= i < span.end ==> !has_prefix(#[trigger] lines[i], prefix)
}

/// Every line of the span begins with the prefix, and none has a space
/// right after it.
pub open spec fn bare_prefixed_lines(
    lines: Seq<Seq<char>>,
    span: LineRange,
    prefix: Seq<char>,
) -> bool {
    forall|i: int|
        span.start <= i < span.end ==> has_prefix(#[trigger] lines[i], prefix) && !has_prefix(
            lines[i],
            prefix.push(' '),
        )
}

/// The spans that two toggles in a row give back as they were.
///
/// A span that is not commented is commented and then uncommented: it comes
/// back if the round trip holds of it. A span that is commented comes back
/// if uncommenting has nothing to take away, so that both toggles leave it
/// alone, or if uncommenting takes the bare prefix from every line and the
/// span then no longer counts as commented, so that the second toggle puts
/// the prefix back.
pub open spec fn toggles_back(lines: Seq<Seq<char>>, span: LineRange, style: CommentStyle) -> bool {
    let once = apply(lines, span, style, ForceState::Toggle);
    if commented(lines, span, style) {
        ||| no_prefixed_line(lines, span, style.single_line@)
        ||| bare_prefixed_lines(lines, span, style.single_line@) && !commented(once, span, style)
    } else {
        no_leading_space(lines, span) && !only_markers(once, span)
    }
}

/// A line that begins with the prefix and a space begins with the prefix.
pub proof fn lemma_spaced_prefix(line: Seq<char>, prefix: Seq<char>)
    requires
        has_prefix(line, prefix.push(' ')),
    ensures
        has_prefix(line, prefix),
        line.len() > prefix.len(),
{
    let k = prefix.len() as int;
    assert(line.subrange(0, k) =~= line.subrange(0, k + 1).subrange(0, k));
    assert(prefix.push(' ').subrange(0, k) =~= prefix);
}

/// Uncommenting never lengthens a line, and shortens one that begins with
/// the prefix.
pub proof fn lemma_uncomment_shortens(line: Seq<char>, prefix: Seq<char>)
    requires
        prefix.len() > 0,
    ensures
        uncomment_line(line, prefix).len() <= line.len(),
        has_prefix(line, prefix) ==> uncomment_line(line, prefix).len() < line.len(),
        !has_prefix(line, prefix) ==> uncomment_line(line, prefix) == line,
{
    if has_prefix(line, prefix.push(' ')) {
        lemma_spaced_prefix(line, prefix);
    }
}

/// Toggle symmetry: two toggles in a row give back the lines as they were.
///
/// This holds of the spans that `toggles_back` describes, and of no others.
/// It fails where the first toggle takes away a space that the second does
/// not put back, or leaves the span in the state it was in.
pub proof fn lemma_toggle_twice(lines: Seq<Seq<char>>, span: LineRange, style: CommentStyle)
    requires
        style.wf(),
        span.wf(lines.len()),
        toggles_back(lines, span, style),
    ensures
        apply(apply(lines, span, style, ForceState::Toggle), span, style, ForceState::Toggle)
            == lines,
{
    let prefix = style.single_line@;
    let start = span.start as int;
    let end = span.end as int;
    let once = apply(lines, span, style, ForceState::Toggle);
    let twice = apply(once, span, style, ForceState::Toggle);
    if !commented(lines, span, style) {
        assert(once == apply(lines, span, style, ForceState::Comment));
        lemma_commented_span_detected(lines, span, style);
        if span.start == span.end {
            assert(once =~= lines);
            assert(twice =~= lines);
        } else {
            lemma_comment_then_uncomment(lines, span, style);
        }
    } else if no_prefixed_line(lines, span, prefix) {
        assert forall|i: int| 0 <= i < lines.len() implies once[i] == lines[i] by {
            if start <= i < end {
                lemma_uncomment_shortens(lines[i], prefix);
            }
        }
        assert(once =~= lines);
    } else {
        assert forall|i: int| 0 <= i < lines.len() implies twice[i] == lines[i] by {
            if start <= i < end {
                assert(once[i] == lines[i].skip(prefix.len() as int));
                assert(prefix + lines[i].skip(prefix.len() as int) =~= lines[i]);
            }
        }
        assert(twice =~= lines);
    }
}

/// Toggle symmetry in the registry: under the style of every registered
/// extension, two toggles in a row of a span that is not commented give
/// back the lines as they were.
///
/// Left out are the spans with a line that begins with a space, and the
/// spans made of marker lines alone.
pub proof fn lemma_toggle_twice_in_registry(
    lines: Seq<Seq<char>>,
    span: LineRange,
    style: CommentStyle,
    extension: Seq<char>,
)
    requires
        registered_prefix(extension) == Some(style.single_line@),
        span.wf(lines.len()),
        !commented(lines, span, style),
        no_leading_space(lines, span),
        !only_markers(lines, span),
    ensures
        apply(apply(lines, span, style, ForceState::Toggle), span, style, ForceState::Toggle)
            == lines,
{
    lemma_registered_prefix_valid(extension);
    lemma_comment_keeps_only_markers(lines, span, style);
    lemma_toggle_twice(lines, span, style);
}

/// On a span that `toggles_back` leaves out, two toggles in a row do not
/// give back the lines as they were.
pub proof fn lemma_toggle_twice_fails(lines: Seq<Seq<char>>, span: LineRange, style: CommentStyle)
    requires
        style.wf(),
        span.wf(lines.len()),
        !toggles_back(lines, span, style),
    ensures
        apply(apply(lines, span, style, ForceState::Toggle), span, style, ForceState::Toggle)
            != lines,
{
    let prefix = style.single_line@;
    let start = span.start as int;
    let end = span.end as int;
    let once = apply(lines, span, style, ForceState::Toggle);
    let twice = apply(once, span, style, ForceState::Toggle);
    if !commented(lines, span, style) {
        assert(once == apply(lines, span, style, ForceState::Comment));
        lemma_commented_span_detected(lines, span, style);
        if commented(once, span, style) {
            lemma_comment_then_uncomment_fails(lines, span, style);
        } else {
            assert(only_markers(once, span));
            assert(once[start] == prefix + lines[start]);
            assert(twice[start] == prefix + once[start]);
            assert(twice[start].len() != lines[start].len());
        }
    } else if commented(once, span, style) {
        let i = choose|i: int| start <= i < end && has_prefix(#[trigger] lines[i], prefix);
        lemma_uncomment_shortens(lines[i], prefix);
        lemma_uncomment_shortens(once[i], prefix);
        assert(twice[i].len() < lines[i].len());
    } else {
        let i = choose|i: int|
            start <= i < end && !(has_prefix(#[trigger] lines[i], prefix) && !has_prefix(
                lines[i],
                prefix.push(' '),
            ));
        assert(twice[i] == prefix + uncomment_line(lines[i], prefix));
        if has_prefix(lines[i], prefix.push(' ')) {
            lemma_spaced_prefix(lines[i], prefix);
        }
        assert(twice[i].len() != lines[i].len());
    }
}

} // verus!
