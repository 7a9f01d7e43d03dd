//! The sandboxed multiplexer: one list of pending subscriptions, edited by
//! registration and handed whole to the host's `poll_oneoff` on each wait.
//!
//! The host call itself is made by the caller: `poll_list` gives the list to
//! hand over (with the clock subscription that emulates a timeout), and
//! `finish_select` turns what the host delivered into the wait's result. The
//! list has a single owner; registering from another thread while a wait is
//! in progress is not supported by this backend.

use crate::error::Error;
use crate::event::{Event, EventKind};
use crate::interest::Interest;
use crate::token::Token;
use vstd::prelude::*;

verus! {

broadcast use vstd::seq_lib::group_filter_ensures;

/// Clock that timeout subscriptions are measured on.
pub const CLOCKID_MONOTONIC: u32 = 1;

/// Userdata of the clock subscription that emulates a timeout.
pub const TIMEOUT_TOKEN: u64 = 0xffff_ffff_ffff_ffff;

/// Largest timestamp the host accepts, in nanoseconds.
pub const MAX_TIMESTAMP: u64 = 0xffff_ffff_ffff_ffff;

/// Slack given to the host to coalesce events: one millisecond.
pub const TIMEOUT_PRECISION_NANOS: u64 = 1_000_000;

/// What a subscription waits for.
#[derive(Clone, Copy, Debug, PartialEq, Eq, Structural)]
pub enum SubscriptionKind {
    /// Expiry of `timeout` nanoseconds on clock `id` (relative when `flags`
    /// is zero).
    Clock { id: u32, timeout: u64, precision: u64, flags: u16 },
    /// Read readiness of a descriptor.
    FdRead { fd: u32 },
    /// Write readiness of a descriptor.
    FdWrite { fd: u32 },
}

/// One entry of the list handed to the host.
#[derive(Clone, Copy, Debug, PartialEq, Eq, Structural)]
pub struct Subscription {
    /// Copied by the host into every record the subscription produces.
    pub userdata: u64,
    pub kind: SubscriptionKind,
}

/// `s` can stem from a registration.
pub open spec fn is_registration_entry(s: Subscription) -> bool {
    !(s.kind is Clock) && s.userdata <= usize::MAX as u64
}

pub open spec fn registrations_only(subs: Seq<Subscription>) -> bool {
    forall|i: int| 0 <= i < subs.len() ==> is_registration_entry(#[trigger] subs[i])
}

/// `s` waits on descriptor `fd`.
pub open spec fn watches(s: Subscription, fd: u32) -> bool {
    match s.kind {
        SubscriptionKind::FdRead { fd: f } => f == fd,
        SubscriptionKind::FdWrite { fd: f } => f == fd,
        SubscriptionKind::Clock { .. } => false,
    }
}

/// Some subscription of `subs` waits on `fd`.
pub open spec fn is_registered(subs: Seq<Subscription>, fd: u32) -> bool {
    exists|i: int| 0 <= i < subs.len() && watches(#[trigger] subs[i], fd)
}

/// `subs` without any subscription on `fd`, order kept.
pub open spec fn without_fd(subs: Seq<Subscription>, fd: u32) -> Seq<Subscription> {
    subs.filter(|s: Subscription| !watches(s, fd))
}

pub open spec fn write_subscription(fd: u32, token: Token) -> Subscription {
    Subscription { userdata: token.0 as u64, kind: SubscriptionKind::FdWrite { fd } }
}

pub open spec fn read_subscription(fd: u32, token: Token) -> Subscription {
    Subscription { userdata: token.0 as u64, kind: SubscriptionKind::FdRead { fd } }
}

/// The subscriptions that one registration adds: write first, then read.
pub open spec fn registration(fd: u32, token: Token, interests: Interest) -> Seq<Subscription> {
    (if interests.spec_writable() {
        seq![write_subscription(fd, token)]
    } else {
        Seq::empty()
    }) + (if interests.spec_readable() {
        seq![read_subscription(fd, token)]
    } else {
        Seq::empty()
    })
}

pub open spec fn clamp_timestamp(nanos: u128) -> u64 {
    if nanos > MAX_TIMESTAMP as u128 {
        MAX_TIMESTAMP
    } else {
        nanos as u64
    }
}

pub open spec fn spec_timeout_subscription(nanos: u128) -> Subscription {
    Subscription {
        userdata: TIMEOUT_TOKEN,
        kind: SubscriptionKind::Clock {
            id: CLOCKID_MONOTONIC,
            timeout: clamp_timestamp(nanos),
            precision: TIMEOUT_PRECISION_NANOS,
            flags: 0,
        },
    }
}

/// The list handed to the host: the registrations, then the timeout's clock
/// subscription if there is a timeout.
pub open spec fn spec_poll_list(subs: Seq<Subscription>, timeout: Option<u128>) -> Seq<
    Subscription,
> {
    match timeout {
        Some(t) => subs.push(spec_timeout_subscription(t)),
        None => subs,
    }
}

/// `e` is the record of the timeout's own clock subscription.
pub open spec fn spec_is_timeout_event(e: Event) -> bool {
    e.kind == EventKind::Clock && e.userdata == TIMEOUT_TOKEN
}

/// `e` is a record that subscription `s` can produce.
pub open spec fn answers(e: Event, s: Subscription) -> bool {
    &&& e.userdata == s.userdata
    &&& match s.kind {
        SubscriptionKind::Clock { .. } => e.kind == EventKind::Clock,
        SubscriptionKind::FdRead { .. } => e.kind == EventKind::FdRead,
        SubscriptionKind::FdWrite { .. } => e.kind == EventKind::FdWrite,
    }
}

pub open spec fn is_first_timeout(events: Seq<Event>, i: int) -> bool {
    &&& 0 <= i < events.len()
    &&& spec_is_timeout_event(events[i])
    &&& forall|j: int| 0 <= j < i ==> !spec_is_timeout_event(#[trigger] events[j])
}

/// `events` with its first timeout record swapped out for the last record.
pub open spec fn without_timeout_event(events: Seq<Event>) -> Seq<Event> {
    if exists|i: int| is_first_timeout(events, i) {
        let i = choose|i: int| is_first_timeout(events, i);
        events.update(i, events.last()).drop_last()
    } else {
        events
    }
}

pub open spec fn is_first_error(events: Seq<Event>, i: int) -> bool {
    &&& 0 <= i < events.len()
    &&& events[i].error != 0
    &&& forall|j: int| 0 <= j < i ==> #[trigger] events[j].error == 0
}

/// The error of the first record that carries one, or success.
pub open spec fn first_error(events: Seq<Event>) -> Result<(), Error> {
    if exists|i: int| is_first_error(events, i) {
        let i = choose|i: int| is_first_error(events, i);
        Err(Error::Os(events[i].error))
    } else {
        Ok(())
    }
}

/// What a wait leaves in the buffer, from what the host delivered.
pub open spec fn spec_delivered(events: Seq<Event>, timeout_given: bool) -> Seq<Event> {
    if timeout_given {
        without_timeout_event(events)
    } else {
        events
    }
}

/// The multiplexer state: an identity, for telling selectors apart, and the
/// subscriptions of every registration in the order they were made.
pub struct Selector {
    id: usize,
    subscriptions: Vec<Subscription>,
}

impl View for Selector {
    type V = Seq<Subscription>;

    closed spec fn view(&self) -> Seq<Subscription> {
        self.subscriptions@
    }
}

/// The subscription for `timeout` nanoseconds on the monotonic clock,
/// clamped to the largest timestamp.
fn timeout_subscription(timeout: u128) -> (r: Subscription)
    ensures
        r == spec_timeout_subscription(timeout),
{
    let nanos: u64 = if timeout > MAX_TIMESTAMP as u128 {
        MAX_TIMESTAMP
    } else {
        timeout as u64
    };
    Subscription {
        userdata: TIMEOUT_TOKEN,
        kind: SubscriptionKind::Clock {
            id: CLOCKID_MONOTONIC,
            timeout: nanos,
            precision: TIMEOUT_PRECISION_NANOS,
            flags: 0,
        },
    }
}

fn is_timeout_event(event: &Event) -> (r: bool)
    ensures
        r == spec_is_timeout_event(*event),
{
    event.kind == EventKind::Clock && event.userdata == TIMEOUT_TOKEN
}

fn watches_fd(s: &Subscription, fd: u32) -> (r: bool)
    ensures
        r == watches(*s, fd),
{
    match s.kind {
        SubscriptionKind::FdRead { fd: f } => f == fd,
        SubscriptionKind::FdWrite { fd: f } => f == fd,
        SubscriptionKind::Clock { .. } => false,
    }
}

/// The error of the first record that carries one, or success when none
/// does.
pub fn check_errors(events: &Vec<Event>) -> (r: Result<(), Error>)
    ensures
        r == first_error(events@),
{
    let mut i: usize = 0;
    while i < events.len()
        invariant
            i <= events@.len(),
            forall|j: int| 0 <= j < i ==> #[trigger] events@[j].error == 0,
        decreases events@.len() - i,
    {
        if events[i].error != 0 {
            assert(is_first_error(events@, i as int));
            let ghost k = choose|k: int| is_first_error(events@, k);
            assert(k == i);
            return Err(Error::Os(events[i].error));
        }
        i = i + 1;
    }
    Ok(())
}

/// Turns the records that the host delivered for one wait into the wait's
/// result. When the wait had a timeout, the record of its clock
/// subscription is taken out (swapped with the last record), so that it never
/// reaches the caller. The result is then the first error that a record
/// carries; the other records stay in `events` even then.
pub fn finish_select(events: &mut Vec<Event>, timeout_given: bool) -> (r: Result<(), Error>)
    ensures
        final(events)@ == spec_delivered(old(events)@, timeout_given),
        r == first_error(final(events)@),
{
    if timeout_given {
        let mut i: usize = 0;
        let mut at: Option<usize> = None;
        while i < events.len() && at.is_none()
            invariant
                i <= events@.len(),
                events@ == old(events)@,
                forall|j: int| 0 <= j < i ==> !spec_is_timeout_event(#[trigger] events@[j]),
                at matches Some(k) ==> is_first_timeout(events@, k as int),
            decreases events@.len() - i + (if at.is_none() { 1int } else { 0 }),
        {
            if is_timeout_event(&events[i]) {
                assert(is_first_timeout(events@, i as int));
                at = Some(i);
            } else {
                i = i + 1;
            }
        }
        if let Some(k) = at {
            let ghost c = choose|c: int| is_first_timeout(events@, c);
            assert(c == k);
            events.swap_remove(k);
        }
    }
    check_errors(events)
}

impl Selector {
    pub closed spec fn spec_id(&self) -> usize {
        self.id
    }

    /// The list holds registrations only: no clock subscription, and
    /// userdata that came from a token.
    pub open spec fn wf(&self) -> bool {
        registrations_only(self@)
    }

    /// A selector with no registration, identified by `id`.
    pub fn new(id: usize) -> (r: Selector)
        ensures
            r.wf(),
            r@ == Seq::<Subscription>::empty(),
            r.spec_id() == id,
    {
        Selector { id, subscriptions: Vec::new() }
    }

    pub fn id(&self) -> (r: usize)
        ensures
            r == self.spec_id(),
    {
        self.id
    }

    /// Whether some subscription waits on `fd`.
    pub fn is_registered(&self, fd: u32) -> (r: bool)
        ensures
            r == is_registered(self@, fd),
    {
        let mut i: usize = 0;
        while i < self.subscriptions.len()
            invariant
                i <= self@.len(),
                forall|j: int| 0 <= j < i ==> !watches(#[trigger] self@[j], fd),
            decreases self@.len() - i,
        {
            if watches_fd(&self.subscriptions[i], fd) {
                return true;
            }
            i = i + 1;
        }
        false
    }

    /// Adds the subscriptions of a registration of `fd` with `token`: one
    /// for write readiness if `interests` asks for it, then one for read
    /// readiness if it asks for that. A descriptor already registered here
    /// is refused; `reregister` replaces a registration.
    pub fn register(&mut self, fd: u32, token: Token, interests: Interest) -> (r: Result<
        (),
        Error,
    >)
        requires
            old(self).wf(),
            interests.wf(),
        ensures
            final(self).wf(),
            final(self).spec_id() == old(self).spec_id(),
            is_registered(old(self)@, fd) ==> r == Err::<(), Error>(Error::AlreadyRegistered)
                && final(self)@ == old(self)@,
            !is_registered(old(self)@, fd) ==> r == Ok::<(), Error>(())
                && final(self)@ == old(self)@ + registration(fd, token, interests),
    {
        if self.is_registered(fd) {
            return Err(Error::AlreadyRegistered);
        }
        let userdata = token.0 as u64;
        if interests.is_writable() {
            self.subscriptions.push(
                Subscription { userdata, kind: SubscriptionKind::FdWrite { fd } },
            );
        }
        if interests.is_readable() {
            self.subscriptions.push(
                Subscription { userdata, kind: SubscriptionKind::FdRead { fd } },
            );
        }
        assert(self@ =~= old(self)@ + registration(fd, token, interests));
        Ok(())
    }

    /// Removes every subscription on `fd`, keeping the order of the rest.
    /// Fails with `NotFound`, changing nothing, when there was none.
    pub fn deregister(&mut self, fd: u32) -> (r: Result<(), Error>)
        requires
            old(self).wf(),
        ensures
            final(self).wf(),
            final(self).spec_id() == old(self).spec_id(),
            final(self)@ == without_fd(old(self)@, fd),
            r == (if is_registered(old(self)@, fd) {
                Ok::<(), Error>(())
            } else {
                Err::<(), Error>(Error::NotFound)
            }),
    {
        let ghost pred = |s: Subscription| !watches(s, fd);
        let ghost subs = self@;
        let mut kept: Vec<Subscription> = Vec::new();
        let mut found = false;
        let mut i: usize = 0;
        while i < self.subscriptions.len()
            invariant
                subs == self@,
                pred == (|s: Subscription| !watches(s, fd)),
                i <= subs.len(),
                kept@ == subs.subrange(0, i as int).filter(pred),
                registrations_only(subs),
                registrations_only(kept@),
                found == (exists|j: int| 0 <= j < i && watches(#[trigger] subs[j], fd)),
            decreases subs.len() - i,
        {
            let s = self.subscriptions[i];
            assert(subs.subrange(0, i + 1).drop_last() =~= subs.subrange(0, i as int));
            assert(subs.subrange(0, i + 1).last() == s);
            let w = watches_fd(&s, fd);
            proof {
                reveal(Seq::filter);
                let next = subs.subrange(0, i + 1);
                assert(pred(s) == !w);
                assert(next.filter(pred) == (if pred(s) {
                    next.drop_last().filter(pred).push(s)
                } else {
                    next.drop_last().filter(pred)
                }));
            }
            if w {
                found = true;
            } else {
                kept.push(s);
            }
            i = i + 1;
        }
        assert(subs.subrange(0, subs.len() as int) =~= subs);
        if !found {
            assert(!is_registered(subs, fd));
            proof {
                lemma_filter_all(subs, pred);
            }
            return Err(Error::NotFound);
        }
        self.subscriptions = kept;
        Ok(())
    }

    /// Replaces the registration of `fd` by one with `token` and
    /// `interests`: the old subscriptions are removed, then the new ones are
    /// added at the end. Fails with `NotFound`, changing nothing, when `fd`
    /// was not registered.
    pub fn reregister(&mut self, fd: u32, token: Token, interests: Interest) -> (r: Result<
        (),
        Error,
    >)
        requires
            old(self).wf(),
            interests.wf(),
        ensures
            final(self).wf(),
            final(self).spec_id() == old(self).spec_id(),
            is_registered(old(self)@, fd) ==> r == Ok::<(), Error>(()) && final(self)@
                == without_fd(old(self)@, fd) + registration(fd, token, interests),
            !is_registered(old(self)@, fd) ==> r == Err::<(), Error>(Error::NotFound)
                && final(self)@ == old(self)@,
    {
        match self.deregister(fd) {
            Ok(()) => {
                proof {
                    lemma_deregistered_not_found(old(self)@, fd);
                }
                self.register(fd, token, interests)
            },
            Err(e) => {
                proof {
                    lemma_filter_all(old(self)@, |s: Subscription| !watches(s, fd));
                }
                Err(e)
            },
        }
    }

    /// The list to hand to the host for one wait: every registration's
    /// subscriptions, then, when `timeout` (in nanoseconds) is given, the
    /// clock subscription that ends the wait.
    pub fn poll_list(&self, timeout: Option<u128>) -> (r: Vec<Subscription>)
        ensures
            r@ == spec_poll_list(self@, timeout),
    {
        let mut list: Vec<Subscription> = Vec::new();
        let mut i: usize = 0;
        while i < self.subscriptions.len()
            invariant
                i <= self@.len(),
                list@ == self@.subrange(0, i as int),
            decreases self@.len() - i,
        {
            list.push(self.subscriptions[i]);
            i = i + 1;
        }
        assert(list@ =~= self@);
        if let Some(t) = timeout {
            list.push(timeout_subscription(t));
        }
        list
    }
}

/// A filter that keeps every element returns the sequence unchanged.
proof fn lemma_filter_all(subs: Seq<Subscription>, pred: spec_fn(Subscription) -> bool)
    requires
        forall|j: int| 0 <= j < subs.len() ==> pred(#[trigger] subs[j]),
    ensures
        subs.filter(pred) == subs,
    decreases subs.len(),
{
    reveal(Seq::filter);
    if subs.len() > 0 {
        lemma_filter_all(subs.drop_last(), pred);
    }
}

/// Once `fd` is deregistered it is no longer registered, so deregistering
/// it again fails with `NotFound` rather than succeeding.
pub proof fn lemma_deregistered_not_found(subs: Seq<Subscription>, fd: u32)
    ensures
        !is_registered(without_fd(subs, fd), fd),
{
    let pred = |s: Subscription| !watches(s, fd);
    assert forall|i: int| 0 <= i < without_fd(subs, fd).len() implies !watches(
        #[trigger] without_fd(subs, fd)[i],
        fd,
    ) by {
        assert(pred(subs.filter(pred)[i]));
    }
}

} // verus!
