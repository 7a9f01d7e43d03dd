use mio_wasi::event::{
    is_aio, is_error, is_lio, is_priority, is_read_closed, is_readable, is_writable,
    is_write_closed, token, FD_READWRITE_HANGUP,
};
use mio_wasi::{Event, EventKind, Token};

fn record(userdata: u64, kind: EventKind, flags: u16) -> Event {
    Event { userdata, error: 0, kind, nbytes: 0, flags }
}

#[test]
fn token_is_the_userdata() {
    assert_eq!(token(&record(42, EventKind::FdRead, 0)), Token(42));
    assert_eq!(token(&record(0, EventKind::FdWrite, 0)), Token(0));
}

#[test]
fn read_record_is_readable_only() {
    let e = record(1, EventKind::FdRead, 0);
    assert!(is_readable(&e));
    assert!(!is_writable(&e));
    assert!(!is_read_closed(&e));
    assert!(!is_write_closed(&e));
}

#[test]
fn write_record_is_writable_only() {
    let e = record(1, EventKind::FdWrite, 0);
    assert!(!is_readable(&e));
    assert!(is_writable(&e));
}

#[test]
fn hangup_closes_the_record_direction() {
    let r = record(1, EventKind::FdRead, FD_READWRITE_HANGUP);
    assert!(is_read_closed(&r));
    assert!(!is_write_closed(&r));
    let w = record(1, EventKind::FdWrite, FD_READWRITE_HANGUP);
    assert!(is_write_closed(&w));
    assert!(!is_read_closed(&w));
    let c = record(1, EventKind::Clock, FD_READWRITE_HANGUP);
    assert!(!is_read_closed(&c));
    assert!(!is_write_closed(&c));
}

#[test]
fn unsupported_predicates_are_false() {
    let mut e = record(1, EventKind::FdRead, FD_READWRITE_HANGUP);
    e.error = 5;
    assert!(!is_error(&e));
    assert!(!is_priority(&e));
    assert!(!is_aio(&e));
    assert!(!is_lio(&e));
}

#[test]
fn clock_and_unknown_records_are_neither_readable_nor_writable() {
    for kind in [EventKind::Clock, EventKind::Other(9)] {
        let e = record(1, kind, 0);
        assert!(!is_readable(&e));
        assert!(!is_writable(&e));
    }
}
