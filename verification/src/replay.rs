//! A recorded interaction, for replay.

use vstd::prelude::*;

verus! {

/// One recorded interaction: a request and the response to it, each as
/// text. A value holder only.
#[derive(Debug, PartialEq, Eq)]
pub struct ReplayEntry {
    pub request: String,
    pub response: String,
}

impl Clone for ReplayEntry {
    fn clone(&self) -> (r: Self)
        ensures
            r.request@ == self.request@,
            r.response@ == self.response@,
    {
        ReplayEntry { request: self.request.clone(), response: self.response.clone() }
    }
}

} // verus!
