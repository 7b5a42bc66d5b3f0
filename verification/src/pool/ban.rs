//! Bans: servers that are not to be used for a while.

use crate::pool::error::Error;
use crate::time::{Duration, Instant};
use vstd::prelude::*;

verus! {

/// Why, since when and for how long a server is not to be used.
#[derive(Clone, Copy, Debug, PartialEq, Eq, Structural)]
pub struct BanEntry {
    /// Why.
    pub error: Error,
    /// Since when.
    pub created_at: Instant,
    /// For how long.
    pub ban_timeout: Duration,
}

/// A server may be used, or not for a while.
#[derive(Clone, Copy, Debug, PartialEq, Eq, Structural)]
pub struct Ban {
    /// Why not.
    pub entry: Option<BanEntry>,
}

impl Ban {
    /// The server may not be used.
    pub open spec fn active(&self) -> bool {
        self.entry is Some
    }

    /// An administrator decided that the server may not be used.
    pub open spec fn manual(&self) -> bool {
        self.entry matches Some(e) && e.error == Error::ManualBan
    }

    /// The time is up.
    pub open spec fn expired(&self, now: Instant) -> bool {
        self.entry matches Some(e) && now.since(e.created_at) >= e.ban_timeout.nanos
    }

    /// The server may be used.
    pub fn new() -> (r: Self)
        ensures
            !r.active(),
    {
        Ban { entry: None }
    }

    /// The server may not be used.
    pub fn banned(&self) -> (r: bool)
        ensures
            r == self.active(),
    {
        self.entry.is_some()
    }

    /// Why the server may not be used.
    pub fn error(&self) -> (r: Option<Error>)
        ensures
            r == match self.entry {
                Some(e) => Some(e.error),
                None => None,
            },
    {
        match self.entry {
            Some(e) => Some(e.error),
            None => None,
        }
    }

    /// Ban the server. A ban that is in force stays as it is: `false` then.
    pub fn ban(&mut self, error: Error, ban_timeout: Duration, now: Instant) -> (r: bool)
        ensures
            r == !old(self).active(),
            final(self).active(),
            *final(self) == if old(self).active() {
                *old(self)
            } else {
                Ban { entry: Some(BanEntry { error, created_at: now, ban_timeout }) }
            },
    {
        if self.entry.is_none() {
            self.entry = Some(BanEntry { error, created_at: now, ban_timeout });
            true
        } else {
            false
        }
    }

    /// Lift the ban; with `manual_check`, not if an administrator put it there.
    pub fn unban(&mut self, manual_check: bool)
        ensures
            *final(self) == if manual_check && old(self).manual() {
                *old(self)
            } else {
                Ban { entry: None }
            },
    {
        match self.entry {
            Some(e) => {
                if manual_check && e.error == Error::ManualBan {
                    return ;
                }
            },
            None => {},
        }
        self.entry = None;
    }

    /// Lift the ban if its time is up and the server answers again. A ban that an administrator
    /// put there does not run out.
    pub fn unban_if_expired(&mut self, now: Instant, healthy: bool) -> (r: bool)
        ensures
            r == (healthy && old(self).expired(now) && !old(self).manual()),
            *final(self) == if r {
                Ban { entry: None }
            } else {
                *old(self)
            },
    {
        match self.entry {
            Some(e) => {
                if healthy && e.error != Error::ManualBan && now.duration_since(
                    e.created_at,
                ).nanos >= e.ban_timeout.nanos {
                    self.entry = None;
                    return true;
                }
                false
            },
            None => false,
        }
    }
}

impl Default for Ban {
    fn default() -> (r: Self)
        ensures
            !r.active(),
    {
        Ban::new()
    }
}

} // verus!
