//! Helpers shared by the builders.

use vstd::prelude::*;

verus! {

/// Holds a length against its limit and says by how much it is over.
pub fn check_overflow(len: usize, max: usize) -> (checked: Result<(), usize>)
    ensures
        len <= max ==> checked == Ok::<(), usize>(()),
        len > max ==> checked == Err::<(), usize>((len - max) as usize),
{
    if len > max {
        Err(len - max)
    } else {
        Ok(())
    }
}

} // verus!
