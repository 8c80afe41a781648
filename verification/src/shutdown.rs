//! Idle-shutdown coordination.
//!
//! The coordinator counts active connections. Each accepted connection
//! increments the count before its loops run; each fully terminated
//! connection decrements it once. When a duration is configured and the
//! count has been zero continuously for that long, the accept loop is told
//! to stop. Time enters as a plain monotone tick; the timer task that
//! samples the clock lives outside the library.

use vstd::prelude::*;

verus! {

/// Counts active connections and remembers since when there have been none.
pub struct ShutdownCoordinator {
    /// Connections accepted and not yet fully terminated.
    pub active: u64,
    /// The instant the count last became zero; present exactly while it is
    /// zero.
    pub zero_since: Option<u64>,
    /// The configured idle duration; absent means the server never
    /// self-terminates from idleness.
    pub timeout: Option<u64>,
}

/// The signal condition: a duration is configured, no connection is active,
/// and the count has been zero for at least that duration.
pub open spec fn spec_should_shutdown(c: ShutdownCoordinator, now: u64) -> bool {
    &&& c.timeout is Some
    &&& c.zero_since is Some
    &&& c.zero_since->0 <= now
    &&& now - c.zero_since->0 >= c.timeout->0
}

impl ShutdownCoordinator {
    pub open spec fn wf(&self) -> bool {
        (self.active == 0) <==> (self.zero_since is Some)
    }

    /// A fresh coordinator: no connections yet, idle since `now`.
    pub fn new(timeout: Option<u64>, now: u64) -> (r: ShutdownCoordinator)
        ensures
            r.wf(),
            r.active == 0,
            r.zero_since == Some(now),
            r.timeout == timeout,
    {
        ShutdownCoordinator { active: 0, zero_since: Some(now), timeout }
    }

    /// Called exactly once per accepted connection, before its loops run.
    /// Any pending idle timer is cancelled.
    pub fn increment(&mut self)
        requires
            old(self).wf(),
            old(self).active < u64::MAX,
        ensures
            final (self).wf(),
            final (self).active == old(self).active + 1,
            final (self).zero_since is None,
            final (self).timeout == old(self).timeout,
            !spec_should_shutdown(*final (self), 0) && forall|t: u64|
                !spec_should_shutdown(*final (self), t),
    {
        self.active = self.active + 1;
        self.zero_since = None;
    }

    /// Called exactly once when both of a connection's loops have fully
    /// terminated. When the last connection goes, the idle clock starts at
    /// `now`.
    pub fn decrement(&mut self, now: u64)
        requires
            old(self).wf(),
            old(self).active > 0,
        ensures
            final (self).wf(),
            final (self).active == old(self).active - 1,
            final (self).timeout == old(self).timeout,
            final (self).active == 0 ==> final (self).zero_since == Some(now),
            final (self).active > 0 ==> final (self).zero_since is None,
    {
        self.active = self.active - 1;
        if self.active == 0 {
            self.zero_since = Some(now);
        } else {
            self.zero_since = None;
        }
    }

    /// Whether the accept loop should stop now: exactly the signal
    /// condition, nothing earlier.
    pub fn should_shutdown(&self, now: u64) -> (r: bool)
        ensures
            r == spec_should_shutdown(*self, now),
    {
        match (self.timeout, self.zero_since) {
            (Some(d), Some(since)) => since <= now && now - since >= d,
            _ => false,
        }
    }
}

/// Timing of the idle signal: once the last connection has gone at
/// `t_disconnect`, the signal never fires before the configured duration has
/// fully elapsed, and fires at any instant from then on.
pub proof fn lemma_shutdown_timing(c: ShutdownCoordinator, d: u64, t_disconnect: u64, t: u64)
    requires
        c.timeout == Some(d),
        c.zero_since == Some(t_disconnect),
    ensures
        t < t_disconnect + d ==> !spec_should_shutdown(c, t),
        t_disconnect + d <= t <= u64::MAX ==> spec_should_shutdown(c, t),
{
}

/// A connection arriving before the duration elapses cancels the pending
/// signal: afterwards it can fire at no instant at all.
pub proof fn lemma_reconnect_cancels(c: ShutdownCoordinator, t: u64)
    requires
        c.zero_since is None,
    ensures
        !spec_should_shutdown(c, t),
{
}

/// With no duration configured the server never self-terminates.
pub proof fn lemma_no_timeout_never_fires(c: ShutdownCoordinator, t: u64)
    requires
        c.timeout is None,
    ensures
        !spec_should_shutdown(c, t),
{
}

} // verus!
