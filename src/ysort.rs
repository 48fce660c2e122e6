use std::collections::HashMap;
use vstd::prelude::*;

verus! {

broadcast use vstd::std_specs::hash::group_hash_axioms;

/// Which z-indices have y-sorting switched on; an index never set is off.
pub struct YSortFlags {
    pub flags: HashMap<i32, bool>,
}

impl YSortFlags {
    pub open spec fn enabled(&self, z_index: i32) -> bool {
        self.flags@.contains_key(z_index) && self.flags@[z_index]
    }

    pub fn new() -> (r: YSortFlags)
        ensures
            forall|z: i32| !r.enabled(z),
    {
        YSortFlags { flags: HashMap::new() }
    }
}

/// Switches y-sorting of `z_index` on or off.
pub fn set_y_sort(flags: &mut YSortFlags, z_index: i32, value: bool)
    ensures
        final(flags).enabled(z_index) == value,
        forall|z: i32| z != z_index ==> #[trigger] final(flags).enabled(z) == old(flags).enabled(z),
{
    flags.flags.insert(z_index, value);
}

/// Whether y-sorting is on for `z_index`.
pub fn get_y_sort(flags: &YSortFlags, z_index: i32) -> (r: bool)
    ensures
        r == flags.enabled(z_index),
{
    match flags.flags.get(&z_index) {
        Some(v) => *v,
        None => false,
    }
}

} // verus!
