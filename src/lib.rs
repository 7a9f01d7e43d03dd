//! Readiness-based I/O event notification for the sandboxed `poll_oneoff`
//! backend: tokens, interests, the subscription list kept by a selector, and
//! the translation of delivered events back to portable readiness facts.

pub mod delivery;
mod error;
pub mod event;
mod interest;
mod io_source;
pub mod selector;
mod token;
mod waker;

pub use error::Error;
pub use event::{Event, EventKind, Events};
pub use interest::{lemma_interest_non_empty, Interest};
pub use io_source::IoSourceState;
pub use selector::{check_errors, finish_select, Selector, Subscription, SubscriptionKind};
pub use token::Token;
pub use waker::Waker;
