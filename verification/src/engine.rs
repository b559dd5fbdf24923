//! Toggling by name: the lines of a written range, or of the sections with
//! an identifier.

use vstd::prelude::*;
use vstd::string::*;
use crate::error::ToggleError;
use crate::range::{clamp_range, fitted_end, one_based, parse_line_range, written_range, LineRange};
use crate::section::{
    empty_openings_of, indices, lemma_sections_of, scan_sections, sections_of, Section,
    SectionView,
};
use crate::style::CommentStyle;
use crate::transform::{toggle_lines, toggle_modifies, toggled, ForceState};

verus! {

/// What comes of a toggle of the range written as `range_spec`: the error
/// that turns the range down, or else whether the toggle found its lines in
/// another state than the one asked for.
pub open spec fn range_outcome(
    lines: Seq<Seq<char>>,
    range_spec: Seq<char>,
    prefix: Seq<char>,
    force: ForceState,
) -> Result<bool, ToggleError> {
    match written_range(range_spec) {
        None => Err(ToggleError::InvalidRangeSyntax),
        Some(range) => if range.start >= lines.len() {
            Err(ToggleError::StartOutOfBounds(one_based(range.start), lines.len() as usize))
        } else {
            Ok(
                toggle_modifies(
                    lines,
                    range.start as int,
                    fitted_end(range, lines.len() as usize) as int,
                    prefix,
                    force,
                ),
            )
        },
    }
}

/// The lines after a toggle of the range written as `range_spec`. A range
/// that is turned down leaves them as they were.
pub open spec fn range_toggled(
    lines: Seq<Seq<char>>,
    range_spec: Seq<char>,
    prefix: Seq<char>,
    force: ForceState,
) -> Seq<Seq<char>> {
    match written_range(range_spec) {
        None => lines,
        Some(range) => if range.start >= lines.len() {
            lines
        } else {
            toggled(
                lines,
                range.start as int,
                fitted_end(range, lines.len() as usize) as int,
                prefix,
                force,
            )
        },
    }
}

/// Toggles the lines that a written range names.
///
/// The range is read, fitted to the lines, and toggled. It is turned down
/// with `InvalidRangeSyntax` when the text writes no range, and with
/// `StartOutOfBounds` when its first line is zero or past the last line; the
/// lines are then left as they were. Otherwise the result tells whether the
/// lines were in another state than the one asked for, and so were
/// rewritten.
pub fn toggle_line_range(
    lines: &mut [String],
    line_range: &str,
    style: &CommentStyle,
    force: ForceState,
) -> (result: Result<bool, ToggleError>)
    ensures
        result == range_outcome(old(lines).deep_view(), line_range@, style.single_line@, force),
        final(lines).deep_view() == range_toggled(
            old(lines).deep_view(),
            line_range@,
            style.single_line@,
            force,
        ),
        result is Err ==> final(lines)@ == old(lines)@,
{
    let range = match parse_line_range(line_range) {
        Ok(range) => range,
        Err(error) => {
            return Err(error);
        },
    };
    let span = match clamp_range(range, lines.len()) {
        Ok(span) => span,
        Err(error) => {
            return Err(error);
        },
    };
    Ok(toggle_lines(lines, span, style, force))
}

/// Line `i` belongs to one of the sections.
pub open spec fn in_a_section(sections: Seq<SectionView>, i: int) -> bool {
    exists|k: int|
        0 <= k < sections.len() && (#[trigger] sections[k]).content_start <= i
            < sections[k].content_end
}

/// `after` is what `before` becomes when each section is toggled by itself:
/// every line of a section is as a toggle of that section alone leaves it,
/// and every line outside the sections is as it was.
pub open spec fn toggled_apart(
    before: Seq<Seq<char>>,
    after: Seq<Seq<char>>,
    sections: Seq<SectionView>,
    prefix: Seq<char>,
    force: ForceState,
) -> bool {
    &&& after.len() == before.len()
    &&& forall|k: int, i: int|
        0 <= k < sections.len() && (#[trigger] sections[k]).content_start <= i
            < sections[k].content_end ==> #[trigger] after[i] == toggled(
            before,
            sections[k].content_start,
            sections[k].content_end,
            prefix,
            force,
        )[i]
    &&& forall|i: int|
        0 <= i < before.len() && !in_a_section(sections, i) ==> #[trigger] after[i] == before[i]
}

/// The toggle of one of the sections, taken by itself, changes its lines.
pub open spec fn any_section_modified(
    lines: Seq<Seq<char>>,
    sections: Seq<SectionView>,
    prefix: Seq<char>,
    force: ForceState,
) -> bool {
    exists|k: int|
        0 <= k < sections.len() && toggle_modifies(
            lines,
            (#[trigger] sections[k]).content_start,
            sections[k].content_end,
            prefix,
            force,
        )
}

/// The sections lie within the lines, stand in order, and do not overlap.
pub open spec fn sections_apart(lines: Seq<Seq<char>>, sections: Seq<SectionView>) -> bool {
    &&& forall|k: int|
        0 <= k < sections.len() ==> 0 <= (#[trigger] sections[k]).content_start
            <= sections[k].content_end <= lines.len()
    &&& forall|k: int, m: int|
        0 <= k < m < sections.len() ==> (#[trigger] sections[k]).content_end <= (
        #[trigger] sections[m]).content_start
}

/// The lines after each of the sections is toggled, from the first to the
/// last.
spec fn toggled_in_turn(
    lines: Seq<Seq<char>>,
    sections: Seq<SectionView>,
    prefix: Seq<char>,
    force: ForceState,
) -> Seq<Seq<char>>
    decreases sections.len(),
{
    if sections.len() == 0 {
        lines
    } else {
        toggled(
            toggled_in_turn(lines, sections.drop_last(), prefix, force),
            sections.last().content_start,
            sections.last().content_end,
            prefix,
            force,
        )
    }
}

/// Whether toggling the sections, from the first to the last, finds one of
/// them in another state than the one asked for.
spec fn modified_in_turn(
    lines: Seq<Seq<char>>,
    sections: Seq<SectionView>,
    prefix: Seq<char>,
    force: ForceState,
) -> bool
    decreases sections.len(),
{
    if sections.len() == 0 {
        false
    } else {
        modified_in_turn(lines, sections.drop_last(), prefix, force) || toggle_modifies(
            toggled_in_turn(lines, sections.drop_last(), prefix, force),
            sections.last().content_start,
            sections.last().content_end,
            prefix,
            force,
        )
    }
}

/// Sections that do not overlap can be toggled one after another: each
/// comes out as a toggle of it alone would leave it, judged by the lines as
/// they were at first.
proof fn lemma_toggled_in_turn(
    lines: Seq<Seq<char>>,
    sections: Seq<SectionView>,
    prefix: Seq<char>,
    force: ForceState,
)
    requires
        sections_apart(lines, sections),
    ensures
        toggled_apart(
            lines,
            toggled_in_turn(lines, sections, prefix, force),
            sections,
            prefix,
            force,
        ),
        modified_in_turn(lines, sections, prefix, force) == any_section_modified(
            lines,
            sections,
            prefix,
            force,
        ),
    decreases sections.len(),
{
    if sections.len() > 0 {
        let earlier = sections.drop_last();
        let last = sections.last();
        let n = sections.len() - 1;
        let before = toggled_in_turn(lines, earlier, prefix, force);
        let after = toggled_in_turn(lines, sections, prefix, force);
        assert(sections_apart(lines, earlier)) by {
            assert forall|k: int| 0 <= k < earlier.len() implies sections[k]
                == #[trigger] earlier[k] by {}
        }
        lemma_toggled_in_turn(lines, earlier, prefix, force);
        assert(last == sections[n]);
        // The last section is as it was at first, since it lies past the earlier ones.
        assert forall|i: int| last.content_start <= i < last.content_end implies before[i]
            == lines[i] by {
            if in_a_section(earlier, i) {
                let k = choose|k: int|
                    0 <= k < earlier.len() && (#[trigger] earlier[k]).content_start <= i
                        < earlier[k].content_end;
                assert(earlier[k] == sections[k]);
            }
        }
        assert(before.subrange(last.content_start, last.content_end) =~= lines.subrange(
            last.content_start,
            last.content_end,
        ));
        assert forall|k: int, i: int|
            0 <= k < sections.len() && (#[trigger] sections[k]).content_start <= i
                < sections[k].content_end implies #[trigger] after[i] == toggled(
            lines,
            sections[k].content_start,
            sections[k].content_end,
            prefix,
            force,
        )[i] by {
            if k < n {
                assert(sections[k] == earlier[k]);
                assert(sections[k].content_end <= sections[n].content_start);
                assert(after[i] == before[i]);
            }
        }
        assert forall|i: int| 0 <= i < lines.len() && !in_a_section(sections, i) implies after[i]
            == lines[i] by {
            assert(!(sections[n].content_start <= i < sections[n].content_end));
            if in_a_section(earlier, i) {
                let k = choose|k: int|
                    0 <= k < earlier.len() && (#[trigger] earlier[k]).content_start <= i
                        < earlier[k].content_end;
                assert(earlier[k] == sections[k]);
            }
            assert(after[i] == before[i]);
        }
        if any_section_modified(lines, earlier, prefix, force) {
            let k = choose|k: int|
                0 <= k < earlier.len() && toggle_modifies(
                    lines,
                    (#[trigger] earlier[k]).content_start,
                    earlier[k].content_end,
                    prefix,
                    force,
                );
            assert(earlier[k] == sections[k]);
        }
        if any_section_modified(lines, sections, prefix, force) {
            let k = choose|k: int|
                0 <= k < sections.len() && toggle_modifies(
                    lines,
                    (#[trigger] sections[k]).content_start,
                    sections[k].content_end,
                    prefix,
                    force,
                );
            if k < n {
                assert(sections[k] == earlier[k]);
            }
        }
    }
}

/// The sections that a scan finds do not overlap.
pub proof fn lemma_located_sections_apart(lines: Seq<Seq<char>>, id: Seq<char>)
    ensures
        sections_apart(lines, sections_of(lines, id)),
{
    lemma_sections_of(lines, id);
}

/// What a toggle by section found and did.
#[derive(Debug, Clone, PartialEq, Eq)]
pub struct SectionReport {
    /// The identifier that the sections were looked up by.
    pub id: String,
    /// The sections that were toggled, in the order in which they stand.
    pub sections: Vec<Section>,
    /// The indices of the lines that open a section without content. Such a
    /// section is passed over, which is worth a warning.
    pub empty_openings: Vec<usize>,
    /// Whether one of the sections was in another state than the one asked
    /// for, so that its lines were rewritten.
    pub modified: bool,
}

impl SectionReport {
    /// The warning that the report calls for: `SectionNotFound`, with the
    /// identifier, exactly when no section with content was found. It is no
    /// failure: the lines are as they were, and work goes on.
    pub fn warning(&self) -> (warning: Option<ToggleError>)
        ensures
            self.sections@.len() == 0 ==> (warning matches Some(
                ToggleError::SectionNotFound(name),
            ) && name@ == self.id@),
            self.sections@.len() > 0 ==> warning is None,
    {
        if self.sections.len() == 0 {
            Some(ToggleError::SectionNotFound(self.id.clone()))
        } else {
            None
        }
    }
}

/// Toggles every section with the given identifier.
///
/// The sections are located in the lines as they stand, and each is then
/// toggled by itself, judged by its own content. A section without content
/// is passed over and listed in the report. The result is `Ok` whatever the
/// lines hold: when there is no section with content, the lines are left as
/// they were, and the report holds no section and calls for a warning.
pub fn toggle_section(
    lines: &mut [String],
    section_id: &str,
    style: &CommentStyle,
    force: ForceState,
) -> (result: Result<SectionReport, ToggleError>)
    ensures
        result matches Ok(report) && {
            &&& report.id@ == section_id@
            &&& report.sections.deep_view() == sections_of(old(lines).deep_view(), section_id@)
            &&& indices(report.empty_openings@) == empty_openings_of(
                old(lines).deep_view(),
                section_id@,
            )
            &&& report.modified == any_section_modified(
                old(lines).deep_view(),
                sections_of(old(lines).deep_view(), section_id@),
                style.single_line@,
                force,
            )
        },
        toggled_apart(
            old(lines).deep_view(),
            final(lines).deep_view(),
            sections_of(old(lines).deep_view(), section_id@),
            style.single_line@,
            force,
        ),
        sections_of(old(lines).deep_view(), section_id@).len() == 0 ==> final(lines)@ == old(
            lines,
        )@,
{
    let ghost before = lines.deep_view();
    let ghost untouched = lines@;
    let ghost prefix = style.single_line@;
    let scan = scan_sections(lines, section_id);
    let sections = scan.sections;
    let ghost found = sections.deep_view();
    proof {
        lemma_located_sections_apart(before, section_id@);
    }
    let mut modified = false;
    let mut k: usize = 0;
    while k < sections.len()
        invariant
            k <= sections.len(),
            found == sections.deep_view(),
            sections_apart(before, found),
            prefix == style.single_line@,
            lines.len() == before.len(),
            k == 0 ==> lines@ == untouched,
            lines.deep_view() == toggled_in_turn(before, found.take(k as int), prefix, force),
            modified == modified_in_turn(before, found.take(k as int), prefix, force),
        decreases sections.len() - k,
    {
        assert(found[k as int] == sections[k as int]@);
        let ghost current = lines.deep_view();
        let span = LineRange::new(sections[k].content_start, sections[k].content_end);
        let changed = toggle_lines(lines, span, style, force);
        proof {
            assert(found.take(k + 1).drop_last() =~= found.take(k as int));
            assert(found.take(k + 1).last() == found[k as int]);
            assert(lines.deep_view().len() == current.len());
        }
        modified = modified || changed;
        k += 1;
    }
    proof {
        assert(found.take(k as int) =~= found);
        lemma_toggled_in_turn(before, found, prefix, force);
    }
    Ok(
        SectionReport {
            id: section_id.to_owned(),
            sections,
            empty_openings: scan.empty_openings,
            modified,
        },
    )
}

} // verus!
