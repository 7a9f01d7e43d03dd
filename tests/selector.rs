use mio_wasi::event::{is_readable, token};
use mio_wasi::selector::{TIMEOUT_PRECISION_NANOS, TIMEOUT_TOKEN};
use mio_wasi::{
    check_errors, finish_select, Error, Event, EventKind, Interest, IoSourceState, Selector,
    Subscription, SubscriptionKind, Token, Waker,
};

fn read_sub(fd: u32, token: u64) -> Subscription {
    Subscription { userdata: token, kind: SubscriptionKind::FdRead { fd } }
}

fn write_sub(fd: u32, token: u64) -> Subscription {
    Subscription { userdata: token, kind: SubscriptionKind::FdWrite { fd } }
}

fn record(userdata: u64, kind: EventKind, error: u16) -> Event {
    Event { userdata, error, kind, nbytes: 0, flags: 0 }
}

fn timeout_record() -> Event {
    record(TIMEOUT_TOKEN, EventKind::Clock, 0)
}

fn clock_sub(timeout: u64) -> Subscription {
    Subscription {
        userdata: TIMEOUT_TOKEN,
        kind: SubscriptionKind::Clock {
            id: 1,
            timeout,
            precision: TIMEOUT_PRECISION_NANOS,
            flags: 0,
        },
    }
}

#[test]
fn new_selector_is_empty() {
    let s = Selector::new(3);
    assert_eq!(s.id(), 3);
    assert!(s.poll_list(None).is_empty());
    assert!(!s.is_registered(0));
}

#[test]
fn register_adds_write_then_read() {
    let mut s = Selector::new(1);
    let both = Interest::readable().add(Interest::writable());
    assert_eq!(s.register(4, Token(10), both), Ok(()));
    assert_eq!(s.poll_list(None), vec![write_sub(4, 10), read_sub(4, 10)]);
    assert_eq!(s.register(6, Token(11), Interest::readable()), Ok(()));
    assert_eq!(s.poll_list(None), vec![write_sub(4, 10), read_sub(4, 10), read_sub(6, 11)]);
    assert!(s.is_registered(6));
}

#[test]
fn register_twice_is_refused() {
    let mut s = Selector::new(1);
    assert_eq!(s.register(4, Token(10), Interest::readable()), Ok(()));
    assert_eq!(s.register(4, Token(12), Interest::writable()), Err(Error::AlreadyRegistered));
    assert_eq!(s.poll_list(None), vec![read_sub(4, 10)]);
}

#[test]
fn readable_registration_reaches_the_caller() {
    let mut s = Selector::new(1);
    s.register(4, Token(7), Interest::readable()).unwrap();
    let list = s.poll_list(Some(1_000_000_000));
    assert!(list.contains(&read_sub(4, 7)));
    // The host reports the descriptor readable before the timeout.
    let mut events = vec![record(7, EventKind::FdRead, 0)];
    assert_eq!(finish_select(&mut events, true), Ok(()));
    assert_eq!(events.len(), 1);
    assert_eq!(token(&events[0]), Token(7));
    assert!(is_readable(&events[0]));
}

#[test]
fn deregister_removes_every_subscription_of_the_descriptor() {
    let mut s = Selector::new(1);
    let both = Interest::readable().add(Interest::writable());
    s.register(4, Token(7), both).unwrap();
    s.register(5, Token(8), Interest::readable()).unwrap();
    assert_eq!(s.deregister(4), Ok(()));
    assert_eq!(s.poll_list(None), vec![read_sub(5, 8)]);
    assert!(!s.is_registered(4));
}

#[test]
fn deregister_twice_is_not_found() {
    let mut s = Selector::new(1);
    s.register(4, Token(7), Interest::readable()).unwrap();
    assert_eq!(s.deregister(4), Ok(()));
    assert_eq!(s.deregister(4), Err(Error::NotFound));
    assert_eq!(s.deregister(9), Err(Error::NotFound));
    assert!(s.poll_list(None).is_empty());
}

#[test]
fn reregister_changes_the_token() {
    let mut s = Selector::new(1);
    s.register(4, Token(7), Interest::readable()).unwrap();
    s.register(5, Token(8), Interest::writable()).unwrap();
    assert_eq!(s.reregister(4, Token(9), Interest::writable()), Ok(()));
    assert_eq!(s.poll_list(None), vec![write_sub(5, 8), write_sub(4, 9)]);
    assert!(s.poll_list(None).iter().all(|x| x.userdata != 7));
}

#[test]
fn reregister_unknown_is_not_found() {
    let mut s = Selector::new(1);
    s.register(5, Token(8), Interest::writable()).unwrap();
    assert_eq!(s.reregister(4, Token(9), Interest::readable()), Err(Error::NotFound));
    assert_eq!(s.poll_list(None), vec![write_sub(5, 8)]);
}

#[test]
fn waker_is_unsupported() {
    let s = Selector::new(1);
    assert!(matches!(Waker::new(&s, Token(0)), Err(Error::Unsupported)));
}

#[test]
fn zero_timeout_adds_a_clock_subscription() {
    let mut s = Selector::new(1);
    s.register(4, Token(7), Interest::readable()).unwrap();
    assert_eq!(s.poll_list(Some(0)), vec![read_sub(4, 7), clock_sub(0)]);
    assert_eq!(s.poll_list(Some(2_500)), vec![read_sub(4, 7), clock_sub(2_500)]);
}

#[test]
fn timeout_is_clamped_to_the_largest_timestamp() {
    let s = Selector::new(1);
    assert_eq!(s.poll_list(Some(u128::MAX)), vec![clock_sub(u64::MAX)]);
    assert_eq!(s.poll_list(Some(u64::MAX as u128 + 1)), vec![clock_sub(u64::MAX)]);
    assert_eq!(s.poll_list(Some(u64::MAX as u128)), vec![clock_sub(u64::MAX)]);
}

#[test]
fn idle_zero_timeout_wait_is_empty_and_succeeds() {
    let mut events = vec![timeout_record()];
    assert_eq!(finish_select(&mut events, true), Ok(()));
    assert!(events.is_empty());
    let mut none: Vec<Event> = Vec::new();
    assert_eq!(finish_select(&mut none, true), Ok(()));
    assert!(none.is_empty());
}

#[test]
fn timeout_record_is_swapped_out() {
    let a = record(1, EventKind::FdRead, 0);
    let b = record(2, EventKind::FdWrite, 0);
    let mut events = vec![timeout_record(), a, b];
    assert_eq!(finish_select(&mut events, true), Ok(()));
    assert_eq!(events, vec![b, a]);
}

#[test]
fn timeout_record_stays_without_a_timeout() {
    let a = record(1, EventKind::FdRead, 0);
    let mut events = vec![timeout_record(), a];
    assert_eq!(finish_select(&mut events, false), Ok(()));
    assert_eq!(events, vec![timeout_record(), a]);
}

#[test]
fn round_trip_reports_only_the_registered_token() {
    let mut s = Selector::new(1);
    s.register(4, Token(7), Interest::readable()).unwrap();
    s.register(5, Token(8), Interest::readable()).unwrap();
    // Only descriptor 4 became ready.
    let mut events = vec![record(7, EventKind::FdRead, 0), timeout_record()];
    assert_eq!(finish_select(&mut events, true), Ok(()));
    let tokens: Vec<Token> = events.iter().map(token).collect();
    assert_eq!(tokens, vec![Token(7)]);
}

#[test]
fn first_error_is_reported_and_records_stay() {
    let a = record(1, EventKind::FdRead, 0);
    let b = record(2, EventKind::FdWrite, 28);
    let c = record(3, EventKind::FdRead, 9);
    let mut events = vec![a, b, timeout_record(), c];
    assert_eq!(finish_select(&mut events, true), Err(Error::Os(28)));
    assert_eq!(events, vec![a, b, c]);
}

#[test]
fn check_errors_finds_the_first() {
    assert_eq!(check_errors(&vec![]), Ok(()));
    assert_eq!(check_errors(&vec![record(1, EventKind::FdRead, 0)]), Ok(()));
    let events = vec![record(1, EventKind::FdRead, 0), record(2, EventKind::Clock, 5), record(3, EventKind::FdRead, 6)];
    assert_eq!(check_errors(&events), Err(Error::Os(5)));
}

#[test]
fn do_io_hands_the_result_back() {
    let state = IoSourceState::new();
    let r: Result<usize, Error> = state.do_io(|v: &Vec<u8>| Ok(v.len()), &vec![1u8, 2, 3]);
    assert_eq!(r, Ok(3));
    let e: Result<usize, Error> = state.do_io(|_: &u8| Err(Error::NotFound), &0u8);
    assert_eq!(e, Err(Error::NotFound));
}
