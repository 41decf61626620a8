//! Coalescing bursts of file-change events.

use vstd::prelude::*;

verus! {

/// The usual quiet time before a change is reported.
pub const DEFAULT_DEBOUNCE_MS: u64 = 200;

/// Coalesces change events: a change is reported once no further event came
/// for the debounce time. Times are milliseconds on a monotonic clock.
#[derive(Debug)]
pub struct DebouncedNotifier {
    debounce_ms: u64,
    last_event: Option<u64>,
    pending: bool,
}

/// Milliseconds from `last` to `now`, zero if `now` is earlier.
pub open spec fn elapsed(now: u64, last: u64) -> int {
    if now >= last {
        now - last
    } else {
        0
    }
}

impl DebouncedNotifier {
    pub closed spec fn spec_debounce(self) -> u64 {
        self.debounce_ms
    }

    pub closed spec fn spec_last(self) -> Option<u64> {
        self.last_event
    }

    pub closed spec fn spec_pending(self) -> bool {
        self.pending
    }

    pub fn new(debounce_ms: u64) -> (d: Self)
        ensures
            d.spec_debounce() == debounce_ms,
            d.spec_last() is None,
            !d.spec_pending(),
    {
        DebouncedNotifier { debounce_ms, last_event: None, pending: false }
    }

    /// Records a change event; true when it ends a quiet period with a
    /// change still pending, which is then reported.
    pub fn on_event(&mut self, now: u64) -> (fire: bool)
        ensures
            final(self).spec_debounce() == old(self).spec_debounce(),
            final(self).spec_last() == Some(now),
            match old(self).spec_last() {
                None => !fire && final(self).spec_pending(),
                Some(last) => {
                    let quiet = elapsed(now, last) >= old(self).spec_debounce() && old(self).spec_pending();
                    fire == quiet && final(self).spec_pending() == !quiet
                },
            },
    {
        match self.last_event {
            None => {
                self.last_event = Some(now);
                self.pending = true;
                false
            },
            Some(last) => {
                let elapsed = if now >= last { now - last } else { 0 };
                self.last_event = Some(now);
                if elapsed >= self.debounce_ms && self.pending {
                    self.pending = false;
                    true
                } else {
                    self.pending = true;
                    false
                }
            },
        }
    }

    /// Reports a pending change once the debounce time has passed since the
    /// last event.
    pub fn poll(&mut self, now: u64) -> (fire: bool)
        ensures
            final(self).spec_debounce() == old(self).spec_debounce(),
            final(self).spec_last() == old(self).spec_last(),
            fire == (old(self).spec_pending() && match old(self).spec_last() {
                Some(last) => elapsed(now, last) >= old(self).spec_debounce(),
                None => false,
            }),
            final(self).spec_pending() == (old(self).spec_pending() && !fire),
    {
        if !self.pending {
            return false;
        }
        match self.last_event {
            Some(last) => {
                let elapsed = if now >= last { now - last } else { 0 };
                if elapsed >= self.debounce_ms {
                    self.pending = false;
                    return true;
                }
                false
            },
            None => false,
        }
    }

    pub fn is_pending(&self) -> (p: bool)
        ensures
            p == self.spec_pending(),
    {
        self.pending
    }

    /// Forgets the last event and any pending change.
    pub fn reset(&mut self)
        ensures
            final(self).spec_debounce() == old(self).spec_debounce(),
            final(self).spec_last() is None,
            !final(self).spec_pending(),
    {
        self.last_event = None;
        self.pending = false;
    }
}

/// A change is reported at most once: after a report nothing is pending, so
/// polling again reports nothing until a new event comes.
pub proof fn lemma_report_once(pending_before: bool, fired: bool, pending_after: bool)
    requires
        pending_after == (pending_before && !fired),
        fired ==> pending_before,
    ensures
        fired ==> !pending_after,
{
}

} // verus!
