//! The inactivity timer: every vault command records activity, and a
//! polling task locks the vault once no activity has been seen for the
//! configured number of seconds. A timeout of 0 disables the lock.
//!
//! The timer holds plain state; the task that polls it every 10 seconds
//! (and sleeps between polls) runs outside the library and asks `poll`
//! what to do.
use vstd::prelude::*;
use crate::time::system_unix_secs;

verus! {

/// How often the polling task looks at the timer, in seconds.
pub const POLL_INTERVAL_SECS: u64 = 10;

pub struct AutoLockTimer {
    last_activity_unix_secs: u64,
    timeout_secs: u64,
    running: bool,
}

/// What the polling task does after one poll.
#[derive(Debug, Clone, Copy, PartialEq, Eq, Structural)]
pub enum AutoLockStep {
    /// The timer was stopped: end the task.
    Stop,
    /// Nothing to do until the next poll.
    Wait,
    /// The timeout has passed: lock the session if it is unlocked.
    LockIfUnlocked,
}

/// Seconds since the Unix epoch by the system clock.
pub fn now_secs() -> u64 {
    system_unix_secs()
}

/// What a poll at Unix second `now` decides.
pub open spec fn poll_step(last_activity: u64, timeout: u64, running: bool, now: u64) -> AutoLockStep {
    if !running {
        AutoLockStep::Stop
    } else if timeout == 0 {
        AutoLockStep::Wait
    } else if now >= last_activity && now - last_activity >= timeout {
        AutoLockStep::LockIfUnlocked
    } else {
        AutoLockStep::Wait
    }
}

impl AutoLockTimer {
    pub closed spec fn last_activity(&self) -> u64 {
        self.last_activity_unix_secs
    }

    pub closed spec fn timeout(&self) -> u64 {
        self.timeout_secs
    }

    pub closed spec fn is_running(&self) -> bool {
        self.running
    }

    /// A timer with the given timeout whose last activity is now; its
    /// polling task is not running yet.
    pub fn new(timeout_secs: u64) -> (t: Self)
        ensures
            t.timeout() == timeout_secs,
            !t.is_running(),
    {
        Self::new_at(timeout_secs, now_secs())
    }

    /// A timer with the given timeout whose last activity is at `now`.
    pub fn new_at(timeout_secs: u64, now: u64) -> (t: Self)
        ensures
            t.timeout() == timeout_secs,
            t.last_activity() == now,
            !t.is_running(),
    {
        AutoLockTimer { last_activity_unix_secs: now, timeout_secs, running: false }
    }

    /// Records activity now; called by every vault command.
    pub fn bump_activity(&mut self)
        ensures
            final(self).timeout() == old(self).timeout(),
            final(self).is_running() == old(self).is_running(),
    {
        let now = now_secs();
        self.bump_activity_at(now);
    }

    /// Records activity at Unix second `now`.
    pub fn bump_activity_at(&mut self, now: u64)
        ensures
            final(self).last_activity() == now,
            final(self).timeout() == old(self).timeout(),
            final(self).is_running() == old(self).is_running(),
    {
        self.last_activity_unix_secs = now;
    }

    /// Sets the timeout (from the saved settings).
    pub fn set_timeout(&mut self, secs: u64)
        ensures
            final(self).timeout() == secs,
            final(self).last_activity() == old(self).last_activity(),
            final(self).is_running() == old(self).is_running(),
    {
        self.timeout_secs = secs;
    }

    pub fn get_timeout(&self) -> (r: u64)
        ensures
            r == self.timeout(),
    {
        self.timeout_secs
    }

    /// Stops the polling task at its next poll. Stopping twice is harmless.
    pub fn stop(&mut self)
        ensures
            !final(self).is_running(),
            final(self).timeout() == old(self).timeout(),
            final(self).last_activity() == old(self).last_activity(),
    {
        self.running = false;
    }

    /// Marks the polling task as running. Returns whether it already was,
    /// in which case no second task is to be started.
    pub fn try_start(&mut self) -> (was_running: bool)
        ensures
            was_running == old(self).is_running(),
            final(self).is_running(),
            final(self).timeout() == old(self).timeout(),
            final(self).last_activity() == old(self).last_activity(),
    {
        let was = self.running;
        self.running = true;
        was
    }

    /// One poll at Unix second `now`: stop when the timer was stopped; lock
    /// when the timeout is on and at least that many seconds have passed
    /// since the last activity; otherwise wait.
    pub fn poll(&self, now: u64) -> (step: AutoLockStep)
        ensures
            step == poll_step(self.last_activity(), self.timeout(), self.is_running(), now),
    {
        if !self.running {
            return AutoLockStep::Stop;
        }
        if self.timeout_secs == 0 {
            return AutoLockStep::Wait;
        }
        if now.saturating_sub(self.last_activity_unix_secs) >= self.timeout_secs {
            AutoLockStep::LockIfUnlocked
        } else {
            AutoLockStep::Wait
        }
    }
}

/// Activity holds the lock off: after activity at `bumped`, no poll before
/// `bumped + timeout` locks, whatever the timer's state was before.
pub proof fn lemma_activity_defers_lock(timeout: u64, running: bool, bumped: u64, now: u64)
    requires
        now < bumped + timeout,
    ensures
        poll_step(bumped, timeout, running, now) != AutoLockStep::LockIfUnlocked,
{
}

/// The lock comes once the timeout has passed: a running timer with a
/// timeout, polled at least `timeout` seconds after its last activity,
/// asks for the lock.
pub proof fn lemma_idle_locks(timeout: u64, last: u64, now: u64)
    requires
        timeout > 0,
        now >= last + timeout,
    ensures
        poll_step(last, timeout, true, now) == AutoLockStep::LockIfUnlocked,
{
}

} // verus!
