use vstd::prelude::*;

verus! {

/// The window that tells what the program is; it has no state of its own.
#[derive(Debug, Clone, Copy, PartialEq, Eq, Structural)]
pub struct AboutViewport {}

impl Default for AboutViewport {
    fn default() -> (viewport: Self)
        ensures
            viewport == (AboutViewport {  }),
    {
        AboutViewport {  }
    }
}

} // verus!
