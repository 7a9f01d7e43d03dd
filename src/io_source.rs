use vstd::prelude::*;

verus! {

/// Per-handle bookkeeping of an I/O source. This backend keeps none: a
/// would-block condition already comes back from the handle as an error
/// value that the caller reads as "wait for the next event".
#[derive(Clone, Copy, Debug)]
pub struct IoSourceState;

impl IoSourceState {
    pub fn new() -> (r: IoSourceState) {
        IoSourceState
    }

    /// Performs one I/O operation `f` on `io` and hands its result back
    /// unchanged.
    pub fn do_io<T, F, R>(&self, f: F, io: &T) -> (r: R) where F: FnOnce(&T) -> R
        requires
            f.requires((io,)),
        ensures
            f.ensures((io,), r),
    {
        f(io)
    }
}

} // verus!
