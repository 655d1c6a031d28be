use vstd::prelude::*;

verus! {

/// What is shown beside an entry of a room: when, and from whom.
#[derive(Debug)]
pub struct Meta {
    pub date: usize,
    pub sender: Option<String>,
}

} // verus!
