//! Readiness records as the host delivers them, and the portable predicates
//! that callers read from each one.

use crate::token::Token;
use vstd::prelude::*;

verus! {

/// Flag of a read or write record: the peer hung up.
pub const FD_READWRITE_HANGUP: u16 = 1;

/// What a delivered record reports on.
#[derive(Clone, Copy, Debug, PartialEq, Eq, Structural)]
pub enum EventKind {
    /// A clock subscription expired.
    Clock,
    /// A descriptor can be read.
    FdRead,
    /// A descriptor can be written.
    FdWrite,
    /// A record type this backend does not know.
    Other(u8),
}

/// One delivered readiness record.
#[derive(Clone, Copy, Debug, PartialEq, Eq, Structural)]
pub struct Event {
    /// The value of the subscription that produced the record.
    pub userdata: u64,
    /// Non-zero when the host failed to process the subscription.
    pub error: u16,
    pub kind: EventKind,
    /// Bytes available, for read and write records.
    pub nbytes: u64,
    /// Read and write record flags, such as `FD_READWRITE_HANGUP`.
    pub flags: u16,
}

/// The reusable buffer that a wait fills.
pub type Events = Vec<Event>;

pub open spec fn spec_token(event: Event) -> Token {
    Token(event.userdata as usize)
}

pub open spec fn spec_is_readable(event: Event) -> bool {
    event.kind == EventKind::FdRead
}

pub open spec fn spec_is_writable(event: Event) -> bool {
    event.kind == EventKind::FdWrite
}

pub open spec fn spec_hung_up(event: Event) -> bool {
    event.flags & FD_READWRITE_HANGUP != 0
}

/// The token of the registration that produced `event`.
pub fn token(event: &Event) -> (r: Token)
    ensures
        r == spec_token(*event),
{
    Token(event.userdata as usize)
}

pub fn is_readable(event: &Event) -> (r: bool)
    ensures
        r == spec_is_readable(*event),
{
    event.kind == EventKind::FdRead
}

pub fn is_writable(event: &Event) -> (r: bool)
    ensures
        r == spec_is_writable(*event),
{
    event.kind == EventKind::FdWrite
}

/// The host reports per-subscription failures in `error`, which a wait turns
/// into its own result; no record is ever an error record.
pub fn is_error(event: &Event) -> (r: bool)
    ensures
        !r,
{
    false
}

/// A read record whose peer hung up.
pub fn is_read_closed(event: &Event) -> (r: bool)
    ensures
        r == (spec_is_readable(*event) && spec_hung_up(*event)),
{
    event.kind == EventKind::FdRead && (event.flags & FD_READWRITE_HANGUP) != 0
}

/// A write record whose peer hung up.
pub fn is_write_closed(event: &Event) -> (r: bool)
    ensures
        r == (spec_is_writable(*event) && spec_hung_up(*event)),
{
    event.kind == EventKind::FdWrite && (event.flags & FD_READWRITE_HANGUP) != 0
}

/// Priority readiness is not reported by this backend.
pub fn is_priority(event: &Event) -> (r: bool)
    ensures
        !r,
{
    false
}

/// Asynchronous I/O completion is not reported by this backend.
pub fn is_aio(event: &Event) -> (r: bool)
    ensures
        !r,
{
    false
}

/// List I/O completion is not reported by this backend.
pub fn is_lio(event: &Event) -> (r: bool)
    ensures
        !r,
{
    false
}

} // verus!
