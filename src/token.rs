use vstd::prelude::*;

verus! {

/// Caller-chosen identifier that a registration carries into every event it
/// produces. The library never interprets or deduplicates it.
#[derive(Clone, Copy, Debug, PartialEq, Eq, Hash, PartialOrd, Ord, Structural)]
pub struct Token(pub usize);

} // verus!
