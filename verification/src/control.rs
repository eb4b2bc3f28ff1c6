//! Control state of the monitor loop: the refresh scheduler that gates how
//! often the raw-reading provider is queried, and the two-tab selector of
//! the display.

use vstd::prelude::*;

verus! {

/// Minimum number of milliseconds between two raw re-queries.
pub const REFRESH_INTERVAL_MS: u64 = 1000;

/// Gates raw re-sampling: at most one refresh per rolling interval,
/// measured on a monotonic millisecond clock.
pub struct RefreshScheduler {
    /// Instant (monotonic milliseconds) of the last completed refresh.
    pub last_refresh_ms: u64,
}

impl RefreshScheduler {
    /// A scheduler whose last refresh is taken to be `now_ms`, so the first
    /// eligible refresh comes one full interval later.
    pub fn new(now_ms: u64) -> (s: Self)
        ensures
            s.last_refresh_ms == now_ms,
    {
        RefreshScheduler { last_refresh_ms: now_ms }
    }

    /// True exactly when a full interval has elapsed since the last
    /// refresh. A clock reading earlier than the last refresh (possible
    /// only with a non-monotonic clock) suppresses the refresh rather than
    /// triggering one.
    pub fn should_refresh(&self, now_ms: u64) -> (r: bool)
        ensures
            r == (self.last_refresh_ms + REFRESH_INTERVAL_MS <= now_ms),
    {
        now_ms >= self.last_refresh_ms && now_ms - self.last_refresh_ms >= REFRESH_INTERVAL_MS
    }

    /// Records that a refresh completed at `now_ms`.
    pub fn mark_refreshed(&mut self, now_ms: u64)
        ensures
            final(self).last_refresh_ms == now_ms,
    {
        self.last_refresh_ms = now_ms;
    }
}

/// Number of display tabs.
pub const TAB_COUNT: u64 = 2;

/// Which of the two display tabs is selected.
pub struct TabSelector {
    pub index: u64,
}

impl TabSelector {
    /// Starts on the first tab.
    pub fn new() -> (t: Self)
        ensures
            t.index == 0,
    {
        TabSelector { index: 0 }
    }

    pub open spec fn wf(self) -> bool {
        self.index < TAB_COUNT
    }

    /// Advances to the next tab, wrapping around to the first.
    pub fn next(&mut self)
        requires
            old(self).wf(),
        ensures
            final(self).wf(),
            final(self).index == (old(self).index + 1) % (TAB_COUNT as int),
    {
        self.index = (self.index + 1) % TAB_COUNT;
    }

    /// Steps back to the previous tab, wrapping around to the last.
    pub fn previous(&mut self)
        requires
            old(self).wf(),
        ensures
            final(self).wf(),
            final(self).index == (old(self).index + TAB_COUNT - 1) % (TAB_COUNT as int),
    {
        if self.index > 0 {
            self.index = self.index - 1;
        } else {
            self.index = TAB_COUNT - 1;
        }
    }
}

} // verus!
