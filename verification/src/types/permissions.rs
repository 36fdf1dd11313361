use vstd::prelude::*;

verus! {

/// Access rights of a file or folder as the MediaFire API reports them.
#[derive(Debug, PartialEq, Eq)]
pub struct Permissions {
    pub value: String,
    pub explicit: String,
    pub read: String,
    pub write: String,
}

} // verus!
