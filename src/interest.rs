use vstd::prelude::*;

verus! {

/// Bit of an interest that asks for read readiness.
pub const READABLE_BIT: u8 = 1;

/// Bit of an interest that asks for write readiness.
pub const WRITABLE_BIT: u8 = 2;

/// Both bits together.
pub const ALL_BITS: u8 = 3;

/// The readiness conditions a registration cares about: a non-empty set drawn
/// from readable and writable (the only two this backend can watch).
#[derive(Clone, Copy, Debug, PartialEq, Eq, Hash, PartialOrd, Ord, Structural)]
pub struct Interest {
    bits: u8,
}

impl Interest {
    /// The raw bit set.
    pub closed spec fn spec_bits(self) -> u8 {
        self.bits
    }

    /// Every interest that can be obtained holds at least one condition and
    /// no bit outside the two known ones.
    pub open spec fn wf(self) -> bool {
        self.spec_bits() != 0 && self.spec_bits() <= ALL_BITS
    }

    pub open spec fn spec_readable(self) -> bool {
        self.spec_bits() & READABLE_BIT != 0
    }

    pub open spec fn spec_writable(self) -> bool {
        self.spec_bits() & WRITABLE_BIT != 0
    }

    /// Interest in read readiness only.
    pub fn readable() -> (r: Interest)
        ensures
            r.wf(),
            r.spec_readable(),
            !r.spec_writable(),
    {
        let b: u8 = READABLE_BIT;
        assert(b != 0 && b <= 3u8 && b & 1 != 0 && b & 2 == 0) by (bit_vector)
            requires b == 1u8;
        Interest { bits: b }
    }

    /// Interest in write readiness only.
    pub fn writable() -> (r: Interest)
        ensures
            r.wf(),
            !r.spec_readable(),
            r.spec_writable(),
    {
        let b: u8 = WRITABLE_BIT;
        assert(b != 0 && b <= 3u8 && b & 1 == 0 && b & 2 != 0) by (bit_vector)
            requires b == 2u8;
        Interest { bits: b }
    }

    /// The union of two interests.
    pub fn add(self, other: Interest) -> (r: Interest)
        requires
            self.wf(),
            other.wf(),
        ensures
            r.wf(),
            r.spec_readable() == (self.spec_readable() || other.spec_readable()),
            r.spec_writable() == (self.spec_writable() || other.spec_writable()),
    {
        let a = self.bits;
        let b = other.bits;
        let c = a | b;
        assert(c != 0 && c <= 3u8 && (c & 1 != 0) == (a & 1 != 0 || b & 1 != 0)
            && (c & 2 != 0) == (a & 2 != 0 || b & 2 != 0)) by (bit_vector)
            requires
                c == a | b,
                a != 0 && a <= 3u8,
                b != 0 && b <= 3u8;
        Interest { bits: c }
    }

    /// `self` without the conditions of `other`; `None` when nothing would be
    /// left, since an empty interest cannot exist.
    pub fn remove(self, other: Interest) -> (r: Option<Interest>)
        requires
            self.wf(),
            other.wf(),
        ensures
            r.is_none() <==> ((self.spec_readable() ==> other.spec_readable())
                && (self.spec_writable() ==> other.spec_writable())),
            r matches Some(i) ==> {
                &&& i.wf()
                &&& i.spec_readable() == (self.spec_readable() && !other.spec_readable())
                &&& i.spec_writable() == (self.spec_writable() && !other.spec_writable())
            },
    {
        let a = self.bits;
        let b = other.bits;
        let c = a & !b;
        assert((c == 0) == ((a & 1 != 0 ==> b & 1 != 0) && (a & 2 != 0 ==> b & 2 != 0))
            && (c != 0 ==> c <= 3u8)
            && (c & 1 != 0) == (a & 1 != 0 && b & 1 == 0)
            && (c & 2 != 0) == (a & 2 != 0 && b & 2 == 0)) by (bit_vector)
            requires
                c == a & !b,
                a != 0 && a <= 3u8,
                b != 0 && b <= 3u8;
        if c == 0 {
            None
        } else {
            Some(Interest { bits: c })
        }
    }

    /// Whether read readiness is asked for.
    pub fn is_readable(&self) -> (r: bool)
        ensures
            r == self.spec_readable(),
    {
        self.bits & READABLE_BIT != 0
    }

    /// Whether write readiness is asked for.
    pub fn is_writable(&self) -> (r: bool)
        ensures
            r == self.spec_writable(),
    {
        self.bits & WRITABLE_BIT != 0
    }

    /// Asynchronous I/O interest; this backend has none.
    pub fn is_aio(&self) -> (r: bool)
        ensures
            !r,
    {
        false
    }

    /// List I/O interest; this backend has none.
    pub fn is_lio(&self) -> (r: bool)
        ensures
            !r,
    {
        false
    }

    /// Priority interest; this backend has none.
    pub fn is_priority(&self) -> (r: bool)
        ensures
            !r,
    {
        false
    }
}

/// Every interest that can be constructed asks for at least one condition.
pub proof fn lemma_interest_non_empty(i: Interest)
    requires
        i.wf(),
    ensures
        i.spec_readable() || i.spec_writable(),
{
    let b = i.spec_bits();
    assert(b & 1 != 0 || b & 2 != 0) by (bit_vector)
        requires b != 0 && b <= 3u8;
}

} // verus!
