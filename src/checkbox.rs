//! The check mark shown beside each group name.

use vstd::prelude::*;

verus! {

pub struct Checkbox {
    pub checked: bool,
}

impl Checkbox {
    pub fn from(checked: bool) -> (r: Checkbox)
        ensures
            r.checked == checked,
    {
        Checkbox { checked }
    }
}

} // verus!
