use vstd::prelude::*;
use crate::catalog::Timestamp;

verus! {

/// The earliest instant a timestamp can name, in nanoseconds since the epoch:
/// `-009999-01-02T01:59:59Z`.
pub open spec fn earliest_instant() -> int {
    -377705023201int * 1_000_000_000
}

/// The latest instant a timestamp can name, in nanoseconds since the epoch:
/// `9999-12-30T22:00:00.999999999Z`.
pub open spec fn latest_instant() -> int {
    253402207200int * 1_000_000_000 + 999_999_999
}

/// Whether `n` nanoseconds since the epoch is an instant a timestamp can name.
pub open spec fn instant_in_range(n: int) -> bool {
    earliest_instant() <= n <= latest_instant()
}

/// Whether `n` nanoseconds is a span a signed duration can hold: its whole seconds
/// fit in an `i64`.
pub open spec fn span_in_range(n: int) -> bool {
    -9_223_372_036_854_775_808int * 1_000_000_000 < n < 9_223_372_036_854_775_808int * 1_000_000_000
}

/// Calls `jiff::Timestamp::checked_add` with a `SignedDuration`. Claimed: the sum is
/// returned when it is an instant a timestamp can name, and nothing otherwise, which
/// is the error the crate documents for an overflowing sum.
#[verifier::external_body]
fn add_span(at: Timestamp, span_ns: i128) -> (r: Option<Timestamp>)
    requires
        instant_in_range(at.nanosecond as int),
        span_in_range(span_ns as int),
    ensures
        r == (if instant_in_range(at.nanosecond + span_ns) {
            Some(Timestamp { nanosecond: (at.nanosecond + span_ns) as i128 })
        } else {
            None
        }),
{
    let base = match jiff::Timestamp::from_nanosecond(at.nanosecond) {
        Ok(t) => t,
        Err(_) => return None,
    };
    match base.checked_add(jiff::SignedDuration::from_nanos_i128(span_ns)) {
        Ok(t) => Some(Timestamp { nanosecond: t.as_nanosecond() }),
        Err(_) => None,
    }
}

/// A debouncer's state: whether a change is pending, and when it falls due.
pub type DebounceState = (bool, Option<Timestamp>);

/// The state after a change at `now`: pending, due a window later (never, when that
/// instant cannot be named). What was pending before does not matter.
pub open spec fn offered(window: int, now: Timestamp) -> DebounceState {
    (true, if instant_in_range(now.nanosecond + window) {
        Some(Timestamp { nanosecond: (now.nanosecond + window) as i128 })
    } else {
        None
    })
}

/// Whether a pending change is due at `now`.
pub open spec fn due(s: DebounceState, now: Timestamp) -> bool {
    s.0 && match s.1 {
        Some(d) => now.nanosecond >= d.nanosecond,
        None => false,
    }
}

/// The state after asking at `now`: a due change is taken, else nothing changes.
pub open spec fn taken(s: DebounceState, now: Timestamp) -> DebounceState {
    if due(s, now) {
        (false, None)
    } else {
        s
    }
}

/// Coalesces bursts of changes: fires once a quiet window has passed since the last
/// change.
pub struct Debouncer {
    window: i128,
    pending: bool,
    deadline: Option<Timestamp>,
}

impl Debouncer {
    pub closed spec fn window_spec(&self) -> int {
        self.window as int
    }

    pub closed spec fn state(&self) -> DebounceState {
        (self.pending, self.deadline)
    }

    /// Whether the window is a span a signed duration can hold.
    pub open spec fn wf(&self) -> bool {
        span_in_range(self.window_spec())
    }

    /// A debouncer with a quiet window of `window` nanoseconds and nothing pending.
    pub fn new(window: i128) -> (r: Self)
        requires
            span_in_range(window as int),
        ensures
            r.wf(),
            r.window_spec() == window,
            r.state() == (false, None::<Timestamp>),
    {
        Debouncer { window, pending: false, deadline: None }
    }

    /// Records a change at `now`.
    pub fn offer(&mut self, now: Timestamp)
        requires
            old(self).wf(),
            instant_in_range(now.nanosecond as int),
        ensures
            final(self).wf(),
            final(self).window_spec() == old(self).window_spec(),
            final(self).state() == offered(old(self).window_spec(), now),
    {
        self.pending = true;
        self.deadline = add_span(now, self.window);
    }

    /// Whether the pending change is due at `now`; a due change is taken.
    pub fn take_ready(&mut self, now: Timestamp) -> (r: bool)
        ensures
            r == due(old(self).state(), now),
            final(self).window_spec() == old(self).window_spec(),
            final(self).state() == taken(old(self).state(), now),
    {
        match self.deadline {
            Some(deadline) => {
                if self.pending && now.nanosecond >= deadline.nanosecond {
                    self.pending = false;
                    self.deadline = None;
                    true
                } else {
                    false
                }
            },
            None => false,
        }
    }
}

/// A change fires once: after it is taken, asking again at any moment gives nothing
/// until the next change.
pub proof fn law_a_taken_change_fires_once(s: DebounceState, now: Timestamp, later: Timestamp)
    requires
        due(s, now),
    ensures
        !due(taken(s, now), later),
{
}

/// A change falls due exactly when a quiet window has passed since the last change was
/// offered (what was offered before it no longer counts), and never at the moment it is
/// offered.
pub proof fn law_a_change_waits_out_the_window(window: int, first: Timestamp, last: Timestamp, at: Timestamp)
    requires
        instant_in_range(last.nanosecond + window),
    ensures
        due(offered(window, last), at) == (at.nanosecond >= last.nanosecond + window),
        window > 0 ==> !due(offered(window, first), first),
{
}
} // verus!
