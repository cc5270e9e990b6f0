//! The two inputs the command line supplies: the page to scan and the
//! extension filter. Parsing the command line itself is outside the library;
//! callers hand the parsed values over as plain strings.
use vstd::prelude::*;

verus! {

/// The page URL and extension filter a run works on.
pub struct Args {
    pub link: String,
    pub extension: String,
}

impl Args {
    /// True when either input is missing, that is, the empty string; such a
    /// run has nothing to do.
    pub fn are_empty(&self) -> (r: bool)
        ensures
            r == (self.link@.len() == 0 || self.extension@.len() == 0),
    {
        self.link.as_str().is_empty() || self.extension.as_str().is_empty()
    }
}

} // verus!
