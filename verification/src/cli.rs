//! The arguments of one run.

use vstd::prelude::*;

verus! {

/// What the command line gave: the URL, and optionally a method, form data
/// and JSON data.
#[derive(Debug)]
pub struct Cli {
    pub url: String,
    pub method: Option<String>,
    pub data: Option<String>,
    pub json_data: Option<String>,
}

impl Cli {
    /// Form data and JSON data are not given together.
    pub open spec fn exclusive(&self) -> bool {
        !(self.data is Some && self.json_data is Some)
    }

    /// Decides `exclusive`.
    pub fn is_exclusive(&self) -> (r: bool)
        ensures
            r == self.exclusive(),
    {
        !(self.data.is_some() && self.json_data.is_some())
    }
}

} // verus!
