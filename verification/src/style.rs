//! The comment style of each known file type.

use vstd::prelude::*;
use vstd::string::*;
use crate::error::ToggleError;
use crate::text::{is_whitespace, same_text};

verus! {

/// How a file type writes a comment that runs to the end of the line.
#[derive(Debug, Clone, PartialEq, Eq)]
pub struct CommentStyle {
    /// The characters that open a single-line comment.
    pub single_line: String,
}

/// A usable comment prefix is not empty and has no whitespace at either end,
/// so that trimming a line never cuts into a prefix that the line carries.
pub open spec fn valid_prefix(prefix: Seq<char>) -> bool {
    &&& prefix.len() > 0
    &&& !is_whitespace(prefix.first())
    &&& !is_whitespace(prefix.last())
}

/// The prefix lacks the letter with which the section markers begin, so
/// that it cannot be the start of a marker.
pub open spec fn marker_free(prefix: Seq<char>) -> bool {
    !prefix.contains('t')
}

impl CommentStyle {
    /// The style's prefix is usable.
    pub open spec fn wf(&self) -> bool {
        valid_prefix(self.single_line@)
    }
}

/// The prefix registered for a file extension, if there is one. Extensions
/// are matched exactly: case matters, and there is no leading dot.
pub open spec fn registered_prefix(extension: Seq<char>) -> Option<Seq<char>> {
    if extension == "py"@ || extension == "sh"@ || extension == "rb"@ {
        Some("#"@)
    } else if extension == "js"@ || extension == "rs"@ || extension == "java"@ || extension
        == "c"@ || extension == "cpp"@ {
        Some("//"@)
    } else {
        None
    }
}

/// Every registered prefix is usable, and none can be the start of a
/// section marker.
pub proof fn lemma_registered_prefix_valid(extension: Seq<char>)
    ensures
        registered_prefix(extension) matches Some(prefix) ==> valid_prefix(prefix) && marker_free(
            prefix,
        ),
{
    reveal_strlit("#");
    reveal_strlit("//");
}

/// Looks up the comment style of a file type by its extension.
///
/// Fails with `UnsupportedExtension`, which carries the extension, exactly
/// when the extension is not registered.
pub fn get_comment_style(extension: &str) -> (result: Result<CommentStyle, ToggleError>)
    ensures
        match registered_prefix(extension@) {
            Some(prefix) => result matches Ok(style) && style.single_line@ == prefix
                && style.wf() && marker_free(style.single_line@),
            None => result matches Err(ToggleError::UnsupportedExtension(name)) && name@
                == extension@,
        },
{
    proof {
        lemma_registered_prefix_valid(extension@);
    }
    if same_text(extension, "py") || same_text(extension, "sh") || same_text(extension, "rb") {
        Ok(CommentStyle { single_line: "#".to_owned() })
    } else if same_text(extension, "js") || same_text(extension, "rs") || same_text(
        extension,
        "java",
    ) || same_text(extension, "c") || same_text(extension, "cpp") {
        Ok(CommentStyle { single_line: "//".to_owned() })
    } else {
        Err(ToggleError::UnsupportedExtension(extension.to_owned()))
    }
}

} // verus!
