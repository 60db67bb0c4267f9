//! Short-lived notices shown in the status bar, and the clock that tells
//! when they expire.
use std::fmt::Display;
use std::time::{Duration, Instant};

use vstd::prelude::*;

verus! {

#[verifier::external_type_specification]
#[verifier::external_body]
pub struct ExInstant(Instant);

/// Calls `std::time::Instant::now`.  Nothing is claimed of the result: it is
/// the clock.
#[verifier::external_body]
fn instant_now() -> (r: Instant) {
    Instant::now()
}

/// Calls `Instant::elapsed`.  Nothing is claimed of the result: it depends
/// on the clock.
#[verifier::external_body]
fn elapsed_since(start: &Instant) -> (r: Duration) {
    start.elapsed()
}

/// Calls `Duration::as_nanos`.  Nothing is claimed of the result: a
/// `Duration` is opaque here.
#[verifier::external_body]
fn duration_nanos(d: &Duration) -> (r: u128) {
    d.as_nanos()
}

/// `seconds` seconds, in nanoseconds.
pub fn seconds(s: u64) -> (r: u128)
    ensures
        r == s * 1_000_000_000,
{
    (s as u128) * 1_000_000_000
}

/// A monotonic clock that reads the time as nanoseconds since it was started.
#[derive(Debug, Clone, Copy)]
pub struct Clock {
    start: Instant,
}

impl Clock {
    /// A clock started now.
    pub fn new() -> (r: Self) {
        Self { start: instant_now() }
    }

    /// The nanoseconds since the clock was started.  Nothing is claimed of
    /// the reading: it is the time.
    pub fn now(&self) -> (r: u128) {
        let d = elapsed_since(&self.start);
        duration_nanos(&d)
    }
}

#[derive(Debug, Clone, PartialEq, Eq, PartialOrd, Ord)]
pub enum NotificationKind {
    Info,
    Warning,
    Error,
}

/// A notice, shown until the clock reads `expiry` (in nanoseconds).
#[derive(Debug, Clone)]
pub struct Notification {
    pub kind: NotificationKind,
    pub message: String,
    pub expiry: u128,
}

impl Notification {
    /// A notice of `kind` showing `message`, expiring at `expiry`.
    pub fn expiring_at<T: Display>(kind: NotificationKind, message: T, expiry: u128) -> (r: Self)
        ensures
            r.kind == kind,
            vstd::string::to_string_from_display_ensures::<T>(&message, r.message),
            r.expiry == expiry,
    {
        let message = message.to_string();
        Self { kind, message, expiry }
    }

    /// A notice of `kind` showing `message` that expires `duration`
    /// nanoseconds after the clock reading `now`; `None` when that moment
    /// does not fit a `u128`.
    pub fn after<T: Display>(kind: NotificationKind, message: T, duration: u128, now: u128) -> (r: Option<Self>)
        ensures
            r is Some <==> now + duration <= u128::MAX,
            r matches Some(n) ==> {
                &&& n.kind == kind
                &&& vstd::string::to_string_from_display_ensures::<T>(&message, n.message)
                &&& n.expiry == now + duration
            },
    {
        match now.checked_add(duration) {
            Some(expiry) => Some(Self::expiring_at(kind, message, expiry)),
            None => None,
        }
    }

    /// A notice of `kind` showing `message` that expires `duration`
    /// nanoseconds after the clock's reading now; `None` when that moment
    /// does not fit a `u128`, which a zero duration never does.
    pub fn new<T: Display>(kind: NotificationKind, message: T, duration: u128, clock: &Clock) -> (r: Option<Self>)
        ensures
            duration == 0 ==> r is Some,
            r matches Some(n) ==> n.kind == kind && vstd::string::to_string_from_display_ensures::<T>(
                &message,
                n.message,
            ),
            exists|now: u128| #[trigger] expires_after(r, duration, now),
    {
        let now = clock.now();
        let r = Self::after(kind, message, duration, now);
        assert(expires_after(r, duration, now));
        r
    }
}

/// `r` is what a notice lasting `duration` gives at the clock reading `now`:
/// a notice expiring `duration` after `now`, or none when that moment does
/// not fit a `u128`.
pub open spec fn expires_after(r: Option<Notification>, duration: u128, now: u128) -> bool {
    &&& (r is Some <==> now + duration <= u128::MAX)
    &&& r matches Some(n) ==> n.expiry == now + duration
}

} // verus!
