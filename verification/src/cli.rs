//! The options of the command line.

use vstd::prelude::*;
use vstd::string::*;

verus! {

/// The options that a run is given.
#[derive(Debug)]
pub struct Args {
    pub line_ranges: Vec<String>,
    pub force: Option<String>,
    pub temp_suffix: Option<String>,
    pub encoding: Option<String>,
    pub verbose: bool,
    pub json: bool,
    pub strict_ext: bool,
    pub no_dereference: bool,
    pub eol: String,
    pub posix_exit: bool,
    pub files: Vec<String>,
}

impl Args {
    /// Every option has its default: no ranges and no files, no force flag,
    /// suffix or encoding, every switch off, and line endings preserved.
    pub open spec fn is_default(&self) -> bool {
        &&& self.line_ranges@.len() == 0
        &&& self.force is None
        &&& self.temp_suffix is None
        &&& self.encoding is None
        &&& !self.verbose
        &&& !self.json
        &&& !self.strict_ext
        &&& !self.no_dereference
        &&& self.eol@ == "preserve"@
        &&& !self.posix_exit
        &&& self.files@.len() == 0
    }
}

impl Default for Args {
    fn default() -> (args: Self)
        ensures
            args.is_default(),
    {
        Self {
            line_ranges: Vec::new(),
            force: None,
            temp_suffix: None,
            encoding: None,
            verbose: false,
            json: false,
            strict_ext: false,
            no_dereference: false,
            eol: "preserve".to_owned(),
            posix_exit: false,
            files: Vec::new(),
        }
    }
}

/// Reads the options off the arguments of a run.
///
/// No argument changes an option: the result is always `Ok`, and holds the
/// default of every option.
pub fn parse_args(args: &[String]) -> (result: Result<Args, String>)
    ensures
        result matches Ok(parsed) && parsed.is_default(),
{
    Ok(Args::default())
}

} // verus!
