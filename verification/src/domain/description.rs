use vstd::prelude::*;

verus! {

/// The description of a day's riddle.
pub trait Description {
    fn year(&self) -> u16;

    fn day(&self) -> u8;
}

} // verus!
