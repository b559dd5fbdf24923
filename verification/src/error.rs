//! The ways in which a toggle request can fail.

use vstd::prelude::*;

verus! {

/// Why a request was turned down, or why a section was passed over.
#[derive(Debug, Clone, PartialEq, Eq)]
pub enum ToggleError {
    /// No comment style is known for this file extension.
    UnsupportedExtension(String),
    /// The text is not a line range: a component is not a number, or is
    /// missing.
    InvalidRangeSyntax,
    /// The first line of the range, counted from one, is zero or lies past
    /// the end of the file. Holds that line number and the number of lines.
    StartOutOfBounds(usize, usize),
    /// No section with this identifier encloses any line. This is a warning:
    /// the lines are left as they were and work goes on.
    SectionNotFound(String),
}

} // verus!
