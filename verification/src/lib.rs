//! Comment toggling for line-oriented source text.
//!
//! A run of lines is commented or uncommented with the single-line comment
//! prefix of its file type. The lines are named by a range of line numbers
//! or by a section, which the file marks out with a pair of marker lines.
//!
//! - [`style`] knows the comment prefix of each file type.
//! - [`range`] reads a line range and fits it to a file.
//! - [`section`] finds the sections of a file.
//! - [`state`] tells whether a run of lines is commented.
//! - [`transform`] comments and uncomments a run of lines.
//! - [`engine`] puts these together: it toggles the lines of a written range,
//!   or of the sections with an identifier.
//! - [`laws`] proves what holds when a run of lines is toggled twice.
//! - [`text`] holds the character-level primitives that the rest is built on.
//! - [`cli`], [`io`] and [`error`] hold the options of a run, checks on file
//!   content, and the errors.

use vstd::prelude::*;

pub mod cli;
pub mod engine;
pub mod error;
pub mod io;
pub mod laws;
pub mod range;
pub mod section;
pub mod state;
pub mod style;
pub mod text;
pub mod transform;

verus! {

/// The version of the library.
pub const VERSION: &'static str = "0.1.0";

} // verus!
