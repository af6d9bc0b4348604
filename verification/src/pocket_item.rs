use vstd::prelude::*;

verus! {

/// An article saved in Pocket, as its list endpoint describes it.
#[derive(Clone, Debug)]
pub struct PocketItem {
    pub given_url: String,
    pub given_title: String,
}

} // verus!
