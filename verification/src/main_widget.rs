//! The dashboard frame around the panels.
use vstd::prelude::*;

verus! {

/// The dashboard frame.
pub struct MainWidget {
    pub id: usize,
    pub title: &'static str,
}

impl MainWidget {
    /// A frame without a title.
    pub fn new() -> (r: Self)
        ensures
            r.id == 0,
            r.title@ == ""@,
    {
        MainWidget { id: 0, title: "" }
    }
}

} // verus!
