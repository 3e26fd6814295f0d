//! The configuration surface the daemon consumes: do-not-disturb, anchoring,
//! display limits, and the per-urgency ceilings that clamp a notification's
//! requested expiry timeout.

use vstd::prelude::*;

verus! {

/// Screen edge or corner that the notification overlay is anchored to.
#[derive(Debug, Clone, PartialEq, Eq, Hash)]
pub enum Anchor {
    Top,
    Bottom,
    Right,
    Left,
    TopLeft,
    TopRight,
    BottomLeft,
    BottomRight,
}

impl Default for Anchor {
    fn default() -> (r: Self)
        ensures
            r is Top,
    {
        Anchor::Top
    }
}

/// Snapshot of the daemon's configuration.
#[derive(Debug, Clone, PartialEq, Eq)]
pub struct NotificationsConfig {
    pub do_not_disturb: bool,
    pub anchor: Anchor,
    /// The maximum number of notifications that can be displayed at once.
    pub max_notifications: u32,
    /// The maximum number of notifications displayed per app when not urgent
    /// and constrained by `max_notifications`.
    pub max_per_app: u32,
    /// Max time in milliseconds a critical notification can be displayed.
    pub max_timeout_urgent: Option<u32>,
    /// Max time in milliseconds a normal notification can be displayed.
    pub max_timeout_normal: Option<u32>,
    /// Max time in milliseconds a low priority notification can be displayed.
    pub max_timeout_low: Option<u32>,
}

impl Default for NotificationsConfig {
    fn default() -> (r: Self)
        ensures
            !r.do_not_disturb,
            r.anchor is Top,
            r.max_notifications == 3,
            r.max_per_app == 2,
            r.max_timeout_urgent is None,
            r.max_timeout_normal == Some(5000u32),
            r.max_timeout_low == Some(3000u32),
    {
        NotificationsConfig {
            do_not_disturb: false,
            anchor: Anchor::Top,
            max_notifications: 3,
            max_per_app: 2,
            max_timeout_urgent: None,
            max_timeout_normal: Some(5000),
            max_timeout_low: Some(3000),
        }
    }
}

/// The requested timeout in milliseconds, before any ceiling is applied:
/// a negative request (policy default) becomes 3000.
pub open spec fn spec_requested_timeout(expire_timeout: i32) -> u32 {
    if expire_timeout >= 0 {
        expire_timeout as u32
    } else {
        3000u32
    }
}

/// The ceiling applicable to a notification of the given urgency; where the
/// configuration sets none, the request itself is the ceiling.
pub open spec fn spec_timeout_ceiling(c: NotificationsConfig, expire_timeout: i32, urgency: u8) -> u32 {
    let ceiling = if urgency == 2 {
        c.max_timeout_urgent
    } else if urgency == 1 {
        c.max_timeout_normal
    } else {
        c.max_timeout_low
    };
    match ceiling {
        Some(ms) => ms,
        None => spec_requested_timeout(expire_timeout),
    }
}

/// The display time of a notification: the request, or the 3000 ms default
/// for a negative request, clamped to the applicable ceiling.
pub open spec fn spec_clamped_timeout(c: NotificationsConfig, expire_timeout: i32, urgency: u8) -> u32 {
    if spec_requested_timeout(expire_timeout) <= spec_timeout_ceiling(c, expire_timeout, urgency) {
        spec_requested_timeout(expire_timeout)
    } else {
        spec_timeout_ceiling(c, expire_timeout, urgency)
    }
}

impl NotificationsConfig {
    /// How long a notification with the given requested expiry and urgency is
    /// displayed: the request (or the 3000 ms default for a negative request),
    /// clamped to the configured per-urgency ceiling. A result of 0 means the
    /// notification never expires on its own.
    pub fn applicable_timeout(&self, expire_timeout: i32, urgency: u8) -> (r: u32)
        ensures
            r == spec_clamped_timeout(*self, expire_timeout, urgency),
    {
        let requested: u32 = if expire_timeout >= 0 {
            expire_timeout as u32
        } else {
            3000
        };
        let ceiling_opt = if urgency == 2 {
            self.max_timeout_urgent
        } else if urgency == 1 {
            self.max_timeout_normal
        } else {
            self.max_timeout_low
        };
        let ceiling: u32 = match ceiling_opt {
            Some(ms) => ms,
            None => requested,
        };
        if requested <= ceiling {
            requested
        } else {
            ceiling
        }
    }
}

} // verus!
