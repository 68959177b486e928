use vstd::prelude::*;

use crate::board::switch::claim;

verus! {

/// The serial port to the tube chain.
pub struct UART {}

impl UART {
    /// The serial port, the first time it is asked for.
    pub fn initialize(taken: &mut bool) -> (r: Option<UART>)
        ensures
            r is Some <==> !*old(taken),
            *final(taken),
    {
        if claim(taken) {
            Some(UART {  })
        } else {
            None
        }
    }
}

} // verus!
