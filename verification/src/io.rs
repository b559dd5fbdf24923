//! Byte-level inspection of file content.

use vstd::prelude::*;

verus! {

/// Whether `bytes` begins with the three-byte UTF-8 byte order mark.
pub open spec fn starts_with_bom(bytes: Seq<u8>) -> bool {
    bytes.len() >= 3 && bytes[0] == 0xEF && bytes[1] == 0xBB && bytes[2] == 0xBF
}

/// Reports whether the content opens with a UTF-8 byte order mark.
pub fn has_utf8_bom(content: &[u8]) -> (found: bool)
    ensures
        found == starts_with_bom(content@),
{
    content.len() >= 3 && content[0] == 0xEF && content[1] == 0xBB && content[2] == 0xBF
}

/// The indices of the lines that a toggle is to leave alone.
///
/// No line is set apart: the result is empty, whatever the content.
pub fn detect_protected_lines(content: &str) -> (protected: Vec<usize>)
    ensures
        protected@ == Seq::<usize>::empty(),
{
    Vec::new()
}

} // verus!
