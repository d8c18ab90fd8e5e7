//! The contest window: whether submissions are accepted at a given time.
use vstd::prelude::*;

verus! {

/// Length of the window that is synthesised when none is configured: one day.
pub const DEFAULT_WINDOW_SECONDS: i64 = 86400;

/// The half-open activity window `[start, end)`, in seconds.
#[derive(Clone, Copy, Debug, PartialEq, Eq, Structural)]
pub struct ActivityWindow {
    pub start: i64,
    pub end: i64,
}

/// Whether submissions are accepted at a moment.
#[derive(Clone, Copy, Debug, PartialEq, Eq, Structural)]
pub enum WindowStatus {
    NotStarted,
    Active,
    Ended,
}

/// The verdict at `now`: before `start` the contest has not started; from `end`
/// on (the end is exclusive) it has ended; in between it is active.
pub open spec fn status_at(w: ActivityWindow, now: i64) -> WindowStatus {
    if now < w.start {
        WindowStatus::NotStarted
    } else if now >= w.end {
        WindowStatus::Ended
    } else {
        WindowStatus::Active
    }
}

/// The window synthesised at `now` when none exists: one day from `now`,
/// with the end held at the largest time.
pub open spec fn default_window_at(now: i64) -> ActivityWindow {
    ActivityWindow {
        start: now,
        end: if now + DEFAULT_WINDOW_SECONDS > i64::MAX {
            i64::MAX
        } else {
            (now + DEFAULT_WINDOW_SECONDS) as i64
        },
    }
}

/// The window in force at `now`: the configured one, else the default.
pub open spec fn effective_window(w: Option<ActivityWindow>, now: i64) -> ActivityWindow {
    match w {
        Some(w) => w,
        None => default_window_at(now),
    }
}

impl ActivityWindow {
    pub fn new(start: i64, end: i64) -> (r: ActivityWindow)
        ensures
            r.start == start,
            r.end == end,
    {
        ActivityWindow { start, end }
    }

    /// The window synthesised when none is configured.
    pub fn default_at(now: i64) -> (r: ActivityWindow)
        ensures
            r == default_window_at(now),
    {
        let end = if now > i64::MAX - DEFAULT_WINDOW_SECONDS {
            i64::MAX
        } else {
            now + DEFAULT_WINDOW_SECONDS
        };
        ActivityWindow { start: now, end }
    }

    pub fn status(&self, now: i64) -> (r: WindowStatus)
        ensures
            r == status_at(*self, now),
    {
        if now < self.start {
            WindowStatus::NotStarted
        } else if now >= self.end {
            WindowStatus::Ended
        } else {
            WindowStatus::Active
        }
    }

    /// Whether `now` lies in `[start, end)`.
    pub fn contains(&self, now: i64) -> (r: bool)
        ensures
            r == (self.start <= now < self.end),
            r == (status_at(*self, now) == WindowStatus::Active),
    {
        self.start <= now && now < self.end
    }
}

/// The window check: the window in force at `now` (the configured one, or the default
/// that must then be persisted) and its verdict.
pub fn window_verdict(configured: Option<ActivityWindow>, now: i64) -> (r: (ActivityWindow, WindowStatus))
    ensures
        r.0 == effective_window(configured, now),
        r.1 == status_at(r.0, now),
{
    let w = match configured {
        Some(w) => w,
        None => ActivityWindow::default_at(now),
    };
    (w, w.status(now))
}

} // verus!
