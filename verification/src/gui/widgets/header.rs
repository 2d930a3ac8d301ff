//! The banner above the board.

use vstd::prelude::*;

verus! {

/// The banner with the name of the program.
#[derive(Debug)]
pub struct Header;

impl Default for Header {
    fn default() -> Self {
        Header
    }
}

impl Header {
    /// The text of the banner.
    pub fn title(&self) -> (s: &'static str)
        ensures
            s@ == "Terminal Chess :)"@,
    {
        "Terminal Chess :)"
    }
}

} // verus!
