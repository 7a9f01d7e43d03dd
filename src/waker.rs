use crate::error::Error;
use crate::selector::Selector;
use crate::token::Token;
use vstd::prelude::*;

verus! {

/// Forces a wait in progress on another thread to return.
///
/// A wait of this backend is one `poll_oneoff` call, which nothing can
/// interrupt from outside; so a waker cannot be made, and says so at once
/// instead of leaving its users blocked.
pub struct Waker {
    #[allow(dead_code)]
    token: Token,
}

impl Waker {
    /// Fails with `Unsupported`.
    pub fn new(selector: &Selector, token: Token) -> (r: Result<Waker, Error>)
        ensures
            r == Err::<Waker, Error>(Error::Unsupported),
    {
        Err(Error::Unsupported)
    }

    /// Fails with `Unsupported`.
    pub fn wake(&self) -> (r: Result<(), Error>)
        ensures
            r == Err::<(), Error>(Error::Unsupported),
    {
        Err(Error::Unsupported)
    }
}

} // verus!
