//! What reaches the caller of a wait, given what the host may deliver.
//!
//! The host answers the list handed to it with at most one record per ready
//! subscription. These proofs follow a registration through the list, the
//! host's records and `finish_select` to the tokens that the caller reads.

use crate::error::Error;
use crate::event::{spec_is_readable, spec_token, Event};
use crate::interest::Interest;
use crate::selector::{
    answers, first_error, is_first_error, is_registration_entry, read_subscription, registration, registrations_only, spec_delivered,
    spec_is_timeout_event, spec_poll_list, spec_timeout_subscription, watches, without_fd,
    without_timeout_event, is_first_timeout, Subscription,
};
use crate::token::Token;
use vstd::prelude::*;

verus! {

broadcast use vstd::seq_lib::group_filter_ensures;

/// `events` is a reply the host can give to `list`: every record answers a
/// subscription of the list, and the timeout's clock subscription is answered
/// at most once.
pub open spec fn is_host_reply(list: Seq<Subscription>, events: Seq<Event>) -> bool {
    &&& all_answer(events, list)
    &&& forall|i: int, j: int|
        0 <= i < events.len() && 0 <= j < events.len() && spec_is_timeout_event(
            #[trigger] events[i],
        ) && spec_is_timeout_event(#[trigger] events[j]) ==> i == j
}

/// `e` answers a subscription of `subs`.
pub open spec fn answers_some(e: Event, subs: Seq<Subscription>) -> bool {
    exists|k: int| 0 <= k < subs.len() && answers(e, #[trigger] subs[k])
}

/// Every record of `events` answers a subscription of `subs`.
pub open spec fn all_answer(events: Seq<Event>, subs: Seq<Subscription>) -> bool {
    forall|i: int| 0 <= i < events.len() ==> answers_some(#[trigger] events[i], subs)
}

/// Every record that a wait leaves for the caller answers one of the
/// selector's own subscriptions: the timeout never shows, and nothing else
/// does either.
pub proof fn lemma_delivered_answer_registrations(
    subs: Seq<Subscription>,
    timeout: Option<u128>,
    events: Seq<Event>,
)
    requires
        registrations_only(subs),
        is_host_reply(spec_poll_list(subs, timeout), events),
    ensures
        all_answer(spec_delivered(events, timeout is Some), subs),
{
    let list = spec_poll_list(subs, timeout);
    let out = spec_delivered(events, timeout is Some);
    // A record that is not the timeout's answers a subscription of `subs`.
    assert forall|i: int|
        0 <= i < events.len() && !spec_is_timeout_event(events[i]) implies answers_some(
        events[i],
        subs,
    ) by {
        assert(answers_some(events[i], list));
        let k = choose|k: int| 0 <= k < list.len() && answers(events[i], list[k]);
        if k == subs.len() {
            assert(list[k] == spec_timeout_subscription(timeout->0));
        }
        assert(answers(events[i], subs[k]));
    }
    if timeout is Some {
        if exists|c: int| is_first_timeout(events, c) {
            let c = choose|c: int| is_first_timeout(events, c);
            assert(out == events.update(c, events.last()).drop_last());
            assert forall|i: int| 0 <= i < out.len() implies answers_some(
                #[trigger] out[i],
                subs,
            ) by {
                let src = if i == c {
                    events.len() - 1
                } else {
                    i
                };
                assert(out[i] == events[src]);
                assert(src != c);
                assert(!spec_is_timeout_event(events[src]));
            }
            assert(all_answer(out, subs));
        } else {
            assert forall|i: int| 0 <= i < events.len() implies !spec_is_timeout_event(
                events[i],
            ) by {
                if spec_is_timeout_event(events[i]) {
                    assert(is_first_timeout(events, i));
                }
            }
            assert(out == events);
            assert forall|i: int| 0 <= i < out.len() implies answers_some(
                #[trigger] out[i],
                subs,
            ) by {
                assert(!spec_is_timeout_event(events[i]));
            }
            assert(all_answer(out, subs));
        }
    } else {
        assert(out == events);
        assert forall|i: int| 0 <= i < out.len() implies answers_some(
            #[trigger] out[i],
            subs,
        ) by {
            assert(answers_some(events[i], list));
            let k = choose|k: int| 0 <= k < list.len() && answers(events[i], list[k]);
            assert(answers(events[i], subs[k]));
        }
        assert(all_answer(out, subs));
    }
}

/// Each subscription left after removing `fd` is one of `subs` that does
/// not wait on `fd`.
pub proof fn lemma_without_fd_entries(subs: Seq<Subscription>, fd: u32)
    ensures
        forall|i: int|
            0 <= i < without_fd(subs, fd).len() ==> subs.contains(
                #[trigger] without_fd(subs, fd)[i],
            ) && !watches(without_fd(subs, fd)[i], fd),
    decreases subs.len(),
{
    reveal(Seq::filter);
    let pred = |s: Subscription| !watches(s, fd);
    let w = without_fd(subs, fd);
    if subs.len() > 0 {
        let rest = subs.drop_last();
        lemma_without_fd_entries(rest, fd);
        assert forall|i: int| 0 <= i < w.len() implies subs.contains(#[trigger] w[i]) && !watches(
            w[i],
            fd,
        ) by {
            assert(pred(w[i]));
            if i < without_fd(rest, fd).len() {
                assert(w[i] == without_fd(rest, fd)[i]);
                let k = choose|k: int| 0 <= k < rest.len() && rest[k] == w[i];
                assert(subs[k] == w[i]);
            } else {
                assert(w[i] == subs.last());
                assert(subs[subs.len() - 1] == w[i]);
            }
        }
    }
}

/// A token read back from a subscription's record is the token it was
/// registered with.
proof fn lemma_token_of_answer(e: Event, s: Subscription)
    requires
        answers(e, s),
        s.userdata <= usize::MAX as u64,
    ensures
        spec_token(e) == Token(s.userdata as usize),
        spec_token(e).0 as u64 == s.userdata,
{
}

/// Round trip: on a selector that holds only the registration of `fd` with
/// `token`, every record that a wait reports carries `token`.
pub proof fn lemma_round_trip(
    fd: u32,
    token: Token,
    interests: Interest,
    timeout: Option<u128>,
    events: Seq<Event>,
)
    requires
        interests.wf(),
        is_host_reply(spec_poll_list(registration(fd, token, interests), timeout), events),
    ensures
        forall|i: int|
            0 <= i < spec_delivered(events, timeout is Some).len() ==> spec_token(
                #[trigger] spec_delivered(events, timeout is Some)[i],
            ) == token,
{
    let subs = registration(fd, token, interests);
    let out = spec_delivered(events, timeout is Some);
    lemma_delivered_answer_registrations(subs, timeout, events);
    assert forall|i: int| 0 <= i < out.len() implies spec_token(#[trigger] out[i]) == token by {
        assert(answers_some(out[i], subs));
        let k = choose|k: int| 0 <= k < subs.len() && answers(out[i], subs[k]);
        assert(subs[k].userdata == token.0 as u64);
        lemma_token_of_answer(out[i], subs[k]);
    }
}

/// Once `fd` is registered with an interest that asks for reading, the host
/// is asked for its read readiness, and a read record that the host gives
/// for it reaches the caller as a readable event with the registration's
/// token.
pub proof fn lemma_readable_reported(
    before: Seq<Subscription>,
    fd: u32,
    token: Token,
    interests: Interest,
    timeout: Option<u128>,
    events: Seq<Event>,
    e: Event,
)
    requires
        interests.wf(),
        interests.spec_readable(),
        events.contains(e),
        answers(e, read_subscription(fd, token)),
    ensures
        spec_poll_list(before + registration(fd, token, interests), timeout).contains(
            read_subscription(fd, token),
        ),
        exists|j: int|
            0 <= j < spec_delivered(events, timeout is Some).len() && spec_token(
                #[trigger] spec_delivered(events, timeout is Some)[j],
            ) == token && spec_is_readable(spec_delivered(events, timeout is Some)[j]),
{
    let subs = before + registration(fd, token, interests);
    let list = spec_poll_list(subs, timeout);
    let reg = registration(fd, token, interests);
    let r = read_subscription(fd, token);
    assert(reg[reg.len() - 1] == r);
    assert(subs[subs.len() - 1] == r);
    assert(list[subs.len() - 1] == r);
    let out = spec_delivered(events, timeout is Some);
    let i = choose|i: int| 0 <= i < events.len() && events[i] == e;
    lemma_token_of_answer(e, r);
    assert(!spec_is_timeout_event(e));
    if timeout is Some && exists|c: int| is_first_timeout(events, c) {
        let c = choose|c: int| is_first_timeout(events, c);
        assert(out == events.update(c, events.last()).drop_last());
        assert(i != c);
        if i == events.len() - 1 {
            assert(out[c] == e);
        } else {
            assert(out[i] == e);
        }
    } else {
        assert(out == events);
        assert(out[i] == e);
    }
}

/// After `fd` is deregistered, a wait reports no record with a token that
/// only `fd` was registered with.
pub proof fn lemma_deregistered_silent(
    before: Seq<Subscription>,
    fd: u32,
    token: Token,
    timeout: Option<u128>,
    events: Seq<Event>,
)
    requires
        registrations_only(before),
        forall|k: int|
            0 <= k < before.len() && (#[trigger] before[k]).userdata == token.0 as u64 ==> watches(
                before[k],
                fd,
            ),
        is_host_reply(spec_poll_list(without_fd(before, fd), timeout), events),
    ensures
        forall|i: int|
            0 <= i < spec_delivered(events, timeout is Some).len() ==> spec_token(
                #[trigger] spec_delivered(events, timeout is Some)[i],
            ) != token,
{
    let subs = without_fd(before, fd);
    let out = spec_delivered(events, timeout is Some);
    lemma_without_fd_entries(before, fd);
    assert(registrations_only(subs)) by {
        assert forall|i: int| 0 <= i < subs.len() implies is_registration_entry(
            #[trigger] subs[i],
        ) by {
            assert(before.contains(subs[i]));
        }
    }
    lemma_delivered_answer_registrations(subs, timeout, events);
    assert forall|i: int| 0 <= i < out.len() implies spec_token(#[trigger] out[i]) != token by {
        assert(answers_some(out[i], subs));
        let k = choose|k: int| 0 <= k < subs.len() && answers(out[i], subs[k]);
        assert(before.contains(subs[k]) && !watches(subs[k], fd));
        lemma_token_of_answer(out[i], subs[k]);
    }
}

/// After `fd` is reregistered with `token`, every subscription on `fd`
/// carries `token`, and a wait reports no record with the token that only
/// `fd` was registered with before.
pub proof fn lemma_reregistered_token(
    before: Seq<Subscription>,
    fd: u32,
    old_token: Token,
    token: Token,
    interests: Interest,
    timeout: Option<u128>,
    events: Seq<Event>,
)
    requires
        registrations_only(before),
        interests.wf(),
        old_token != token,
        forall|k: int|
            0 <= k < before.len() && (#[trigger] before[k]).userdata == old_token.0 as u64
                ==> watches(before[k], fd),
        is_host_reply(
            spec_poll_list(without_fd(before, fd) + registration(fd, token, interests), timeout),
            events,
        ),
    ensures
        forall|k: int|
            0 <= k < (without_fd(before, fd) + registration(fd, token, interests)).len()
                && watches(
                #[trigger] (without_fd(before, fd) + registration(fd, token, interests))[k],
                fd,
            ) ==> (without_fd(before, fd) + registration(fd, token, interests))[k].userdata
                == token.0 as u64,
        forall|i: int|
            0 <= i < spec_delivered(events, timeout is Some).len() ==> spec_token(
                #[trigger] spec_delivered(events, timeout is Some)[i],
            ) != old_token,
{
    let kept = without_fd(before, fd);
    let reg = registration(fd, token, interests);
    let subs = kept + reg;
    let out = spec_delivered(events, timeout is Some);
    lemma_without_fd_entries(before, fd);
    assert forall|k: int| 0 <= k < subs.len() implies is_registration_entry(#[trigger] subs[k])
        && (watches(subs[k], fd) ==> subs[k].userdata == token.0 as u64)
        && subs[k].userdata != old_token.0 as u64 by {
        if k < kept.len() {
            assert(subs[k] == kept[k]);
            assert(before.contains(kept[k]));
        } else {
            assert(subs[k] == reg[k - kept.len()]);
        }
    }
    lemma_delivered_answer_registrations(subs, timeout, events);
    assert forall|i: int| 0 <= i < out.len() implies spec_token(#[trigger] out[i]) != old_token by {
        assert(answers_some(out[i], subs));
        let k = choose|k: int| 0 <= k < subs.len() && answers(out[i], subs[k]);
        lemma_token_of_answer(out[i], subs[k]);
    }
}

/// A wait with a zero timeout while no registration is ready leaves the
/// buffer empty and succeeds.
pub proof fn lemma_idle_zero_timeout(subs: Seq<Subscription>, events: Seq<Event>)
    requires
        registrations_only(subs),
        is_host_reply(spec_poll_list(subs, Some(0u128)), events),
        forall|i: int| 0 <= i < events.len() ==> !answers_some(#[trigger] events[i], subs),
    ensures
        spec_delivered(events, true).len() == 0,
        first_error(spec_delivered(events, true)) == Ok::<(), Error>(()),
{
    let list = spec_poll_list(subs, Some(0u128));
    assert forall|i: int| 0 <= i < events.len() implies spec_is_timeout_event(
        #[trigger] events[i],
    ) by {
        assert(answers_some(events[i], list));
        let k = choose|k: int| 0 <= k < list.len() && answers(events[i], list[k]);
        if k < subs.len() {
            assert(list[k] == subs[k]);
            assert(answers_some(events[i], subs));
        }
    }
    if events.len() > 0 {
        if events.len() > 1 {
            assert(spec_is_timeout_event(events[0]) && spec_is_timeout_event(events[1]));
        }
        assert(is_first_timeout(events, 0));
    }
    let out = spec_delivered(events, true);
    assert(out.len() == 0);
    assert(!exists|i: int| is_first_error(out, i));
}

} // verus!
