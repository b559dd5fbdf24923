//! Sections: runs of lines that a file marks out by name.
//!
//! A section opens on the line after one that holds `toggle:start ID=` and
//! the section's identifier, and closes before the next line that holds
//! `toggle:end ID=` and the identifier. The two marker lines are not part
//! of it. A section that is never closed runs to the end of the file.

use vstd::prelude::*;
use vstd::string::*;
use crate::text::{chars_of, contains, contains_chars};

verus! {

/// A section as found in a list of lines.
#[derive(Debug, Clone, PartialEq, Eq)]
pub struct Section {
    /// The identifier that the section was looked up by.
    pub id: String,
    /// The index of the first line of the section's content.
    pub content_start: usize,
    /// The index just past the last line of the section's content.
    pub content_end: usize,
    /// Whether a closing marker ends the section. If not, the section runs
    /// to the end of the file.
    pub closed: bool,
}

/// What a `Section` stands for in specifications.
pub struct SectionView {
    pub id: Seq<char>,
    pub content_start: int,
    pub content_end: int,
    pub closed: bool,
}

impl View for Section {
    type V = SectionView;

    open spec fn view(&self) -> SectionView {
        SectionView {
            id: self.id@,
            content_start: self.content_start as int,
            content_end: self.content_end as int,
            closed: self.closed,
        }
    }
}

impl DeepView for Section {
    type V = SectionView;

    open spec fn deep_view(&self) -> SectionView {
        self@
    }
}

/// The text that opens section `id`.
pub open spec fn start_marker(id: Seq<char>) -> Seq<char> {
    "toggle:start ID="@ + id
}

/// The text that closes section `id`.
pub open spec fn end_marker(id: Seq<char>) -> Seq<char> {
    "toggle:end ID="@ + id
}

/// The line opens section `id`.
pub open spec fn opens_section(line: Seq<char>, id: Seq<char>) -> bool {
    contains(line, start_marker(id))
}

/// The line closes section `id`.
pub open spec fn closes_section(line: Seq<char>, id: Seq<char>) -> bool {
    contains(line, end_marker(id))
}

/// The index of the first line at or after `from` that closes section `id`,
/// or the number of lines if there is none.
pub open spec fn closing_line(lines: Seq<Seq<char>>, id: Seq<char>, from: int) -> int
    decreases lines.len() - from,
{
    if from < 0 || from >= lines.len() {
        lines.len() as int
    } else if closes_section(lines[from], id) {
        from
    } else {
        closing_line(lines, id, from + 1)
    }
}

/// The sections `id` that a scan of the lines finds from index `from` on.
///
/// A line that opens the section starts one on the line after it, which runs
/// up to the closing line. The scan goes on after that closing line, so a
/// marker inside a section opens nothing. A section without content is left
/// out, and the scan goes on with the line after the one that opened it.
pub open spec fn sections_from(lines: Seq<Seq<char>>, id: Seq<char>, from: int) -> Seq<
    SectionView,
>
    decreases
            (if from <= lines.len() {
                lines.len() - from
            } else {
                0
            }),
{
    if from < 0 || from >= lines.len() {
        Seq::empty()
    } else if opens_section(lines[from], id) {
        let content_end = closing_line(lines, id, from + 1);
        if content_end > from + 1 {
            seq![
                SectionView {
                    id,
                    content_start: from + 1,
                    content_end,
                    closed: content_end < lines.len(),
                },
            ] + sections_from(lines, id, content_end + 1)
        } else {
            sections_from(lines, id, from + 1)
        }
    } else {
        sections_from(lines, id, from + 1)
    }
}

/// The sections `id` of a list of lines, in the order in which they stand.
pub open spec fn sections_of(lines: Seq<Seq<char>>, id: Seq<char>) -> Seq<SectionView> {
    sections_from(lines, id, 0)
}

/// The indices, from `from` on, of the lines that open a section `id`
/// without content: the scan passes over these.
pub open spec fn empty_openings_from(lines: Seq<Seq<char>>, id: Seq<char>, from: int) -> Seq<int>
    decreases
            (if from <= lines.len() {
                lines.len() - from
            } else {
                0
            }),
{
    if from < 0 || from >= lines.len() {
        Seq::empty()
    } else if opens_section(lines[from], id) {
        let content_end = closing_line(lines, id, from + 1);
        if content_end > from + 1 {
            empty_openings_from(lines, id, content_end + 1)
        } else {
            seq![from] + empty_openings_from(lines, id, from + 1)
        }
    } else {
        empty_openings_from(lines, id, from + 1)
    }
}

/// The indices of the lines that open a section `id` without content, in
/// order.
pub open spec fn empty_openings_of(lines: Seq<Seq<char>>, id: Seq<char>) -> Seq<int> {
    empty_openings_from(lines, id, 0)
}

/// The indices as they stand in specifications.
pub open spec fn indices(found: Seq<usize>) -> Seq<int> {
    found.map_values(|i: usize| i as int)
}

/// Where the closing line lies: at or after `from`, with no closing line
/// between `from` and it, and on a closing line unless it is the end of the
/// file.
pub proof fn lemma_closing_line(lines: Seq<Seq<char>>, id: Seq<char>, from: int)
    requires
        0 <= from <= lines.len(),
    ensures
        from <= closing_line(lines, id, from) <= lines.len(),
        forall|j: int|
            from <= j < closing_line(lines, id, from) ==> !closes_section(
                #[trigger] lines[j],
                id,
            ),
        closing_line(lines, id, from) < lines.len() ==> closes_section(
            lines[closing_line(lines, id, from)],
            id,
        ),
    decreases lines.len() - from,
{
    if from < lines.len() && !closes_section(lines[from], id) {
        lemma_closing_line(lines, id, from + 1);
    }
}

/// The section has content and lies within the lines. The line before it
/// opens section `id`, and no line of it closes that section. If it is
/// closed, the line after it closes the section; if not, it ends with the
/// last line.
pub open spec fn well_placed(lines: Seq<Seq<char>>, id: Seq<char>, section: SectionView) -> bool {
    &&& section.id == id
    &&& 0 < section.content_start < section.content_end <= lines.len()
    &&& opens_section(lines[section.content_start - 1], id)
    &&& forall|j: int|
        section.content_start <= j < section.content_end ==> !closes_section(
            #[trigger] lines[j],
            id,
        )
    &&& section.closed ==> section.content_end < lines.len() && closes_section(
        lines[section.content_end],
        id,
    )
    &&& !section.closed ==> section.content_end == lines.len()
}

/// Every section that a scan from `from` on finds is well placed and begins
/// after `from`, and each begins past the closing line of the one before.
pub proof fn lemma_sections_from(lines: Seq<Seq<char>>, id: Seq<char>, from: int)
    requires
        0 <= from,
    ensures
        forall|k: int|
            0 <= k < sections_from(lines, id, from).len() ==> {
                &&& well_placed(lines, id, #[trigger] sections_from(lines, id, from)[k])
                &&& from < sections_from(lines, id, from)[k].content_start
            },
        forall|k: int, m: int|
            0 <= k < m < sections_from(lines, id, from).len() ==> (
            #[trigger] sections_from(lines, id, from)[k]).content_end + 1 < (
            #[trigger] sections_from(lines, id, from)[m]).content_start,
    decreases lines.len() + 1 - from,
{
    let found = sections_from(lines, id, from);
    if from >= lines.len() {
    } else if opens_section(lines[from], id) {
        let content_end = closing_line(lines, id, from + 1);
        lemma_closing_line(lines, id, from + 1);
        if content_end > from + 1 {
            let rest = sections_from(lines, id, content_end + 1);
            lemma_sections_from(lines, id, content_end + 1);
            assert forall|k: int| 0 <= k < found.len() implies well_placed(
                lines,
                id,
                #[trigger] found[k],
            ) && from < found[k].content_start by {
                if k > 0 {
                    assert(found[k] == rest[k - 1]);
                }
            }
            assert forall|k: int, m: int| 0 <= k < m < found.len() implies (
            #[trigger] found[k]).content_end + 1 < (#[trigger] found[m]).content_start by {
                assert(found[m] == rest[m - 1]);
                if k > 0 {
                    assert(found[k] == rest[k - 1]);
                }
            }
        } else {
            lemma_sections_from(lines, id, from + 1);
            assert(found == sections_from(lines, id, from + 1));
        }
    } else {
        lemma_sections_from(lines, id, from + 1);
        assert(found == sections_from(lines, id, from + 1));
    }
}

/// Every section of a list of lines is well placed, and each begins past
/// the closing line of the one before it.
pub proof fn lemma_sections_of(lines: Seq<Seq<char>>, id: Seq<char>)
    ensures
        forall|k: int|
            0 <= k < sections_of(lines, id).len() ==> well_placed(
                lines,
                id,
                #[trigger] sections_of(lines, id)[k],
            ),
        forall|k: int, m: int|
            0 <= k < m < sections_of(lines, id).len() ==> (#[trigger] sections_of(
                lines,
                id,
            )[k]).content_end + 1 < (#[trigger] sections_of(lines, id)[m]).content_start,
{
    lemma_sections_from(lines, id, 0);
}

/// What a scan for a section finds.
#[derive(Debug, Clone, PartialEq, Eq)]
pub struct SectionScan {
    /// The sections with content, in the order in which they stand.
    pub sections: Vec<Section>,
    /// The indices of the lines that open a section without content.
    pub empty_openings: Vec<usize>,
}

/// Scans the lines for the sections with the given identifier.
///
/// The result holds every section with content that a scan from the first
/// line finds, and the index of every line at which the scan finds a section
/// without content.
pub fn scan_sections(lines: &[String], section_id: &str) -> (scan: SectionScan)
    ensures
        scan.sections.deep_view() == sections_of(lines.deep_view(), section_id@),
        indices(scan.empty_openings@) == empty_openings_of(lines.deep_view(), section_id@),
{
    let ghost text = lines.deep_view();
    let ghost id = section_id@;
    let mut opening = chars_of("toggle:start ID=");
    let mut closing = chars_of("toggle:end ID=");
    let mut name = chars_of(section_id);
    let mut name_again = name.clone();
    opening.append(&mut name);
    closing.append(&mut name_again);
    assert(opening@ == start_marker(id));
    assert(closing@ == end_marker(id));

    let n = lines.len();
    let mut sections: Vec<Section> = Vec::new();
    let mut empty_openings: Vec<usize> = Vec::new();
    let mut i: usize = 0;
    assert(indices(empty_openings@) =~= Seq::<int>::empty());
    while i < n
        invariant
            i <= n == lines.len(),
            text == lines.deep_view(),
            id == section_id@,
            opening@ == start_marker(id),
            closing@ == end_marker(id),
            sections.deep_view() + sections_from(text, id, i as int) == sections_of(text, id),
            indices(empty_openings@) + empty_openings_from(text, id, i as int)
                == empty_openings_of(text, id),
        decreases n - i,
    {
        let line = chars_of(lines[i].as_str());
        assert(text[i as int] == lines[i as int]@);
        if contains_chars(line.as_slice(), opening.as_slice()) {
            let mut j: usize = i + 1;
            while j < n && !contains_chars(
                chars_of(lines[j].as_str()).as_slice(),
                closing.as_slice(),
            )
                invariant
                    i < j <= n == lines.len(),
                    text == lines.deep_view(),
                    closing@ == end_marker(id),
                    closing_line(text, id, j as int) == closing_line(text, id, i + 1),
                decreases n - j,
            {
                assert(text[j as int] == lines[j as int]@);
                j += 1;
            }
            proof {
                if j < n {
                    assert(text[j as int] == lines[j as int]@);
                }
                assert(closing_line(text, id, i + 1) == j);
            }
            if j > i + 1 {
                let ghost before = sections.deep_view();
                let section = Section {
                    id: section_id.to_owned(),
                    content_start: i + 1,
                    content_end: j,
                    closed: j < n,
                };
                sections.push(section);
                proof {
                    assert(sections.deep_view() =~= before.push(section@));
                    assert(sections_from(text, id, i as int) =~= seq![section@] + sections_from(
                        text,
                        id,
                        j + 1,
                    ));
                    assert(before.push(section@) + sections_from(text, id, j + 1) =~= before + (
                    seq![section@] + sections_from(text, id, j + 1)));
                    assert(empty_openings_from(text, id, i as int) == empty_openings_from(
                        text,
                        id,
                        j + 1,
                    ));
                }
                if j == n {
                    i = n;
                } else {
                    i = j + 1;
                }
            } else {
                let ghost before = indices(empty_openings@);
                empty_openings.push(i);
                proof {
                    assert(indices(empty_openings@) =~= before.push(i as int));
                    assert(empty_openings_from(text, id, i as int) =~= seq![i as int]
                        + empty_openings_from(text, id, i + 1));
                    assert(before.push(i as int) + empty_openings_from(text, id, i + 1) =~= before
                        + (seq![i as int] + empty_openings_from(text, id, i + 1)));
                }
                i += 1;
            }
        } else {
            i += 1;
        }
    }
    assert(sections.deep_view() + Seq::<SectionView>::empty() =~= sections.deep_view());
    assert(indices(empty_openings@) + Seq::<int>::empty() =~= indices(empty_openings@));
    SectionScan { sections, empty_openings }
}

/// Finds the sections with the given identifier.
///
/// The result holds every section with content that a scan from the first
/// line finds, in order. It is empty when there is none.
pub fn locate_sections(lines: &[String], section_id: &str) -> (sections: Vec<Section>)
    ensures
        sections.deep_view() == sections_of(lines.deep_view(), section_id@),
{
    scan_sections(lines, section_id).sections
}

} // verus!
