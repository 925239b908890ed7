//! The session state machine.
//!
//! Time comes from the caller: `now` is a monotonic clock in nanoseconds,
//! `unix_now` the wall clock in seconds since the Unix epoch.
use vstd::prelude::*;
use crate::crypto::keys::ActiveKeyStore;
use crate::error::CypheriaError;
use crate::text::clone_string;
use crate::time::system_unix_secs;
use crate::vault::format::VaultDataView;
use crate::vault::store::VaultStore;

verus! {

pub const MAX_UNLOCK_ATTEMPTS: u32 = 5;
pub const LOCKOUT_DURATION_SECS: u64 = 30;
pub const MAX_REVEALS_PER_WINDOW: u32 = 10;
pub const REVEAL_WINDOW_SECS: u64 = 60;
pub const NANOS_PER_SEC: u128 = 1_000_000_000;

pub enum SessionState {
    Locked,
    Unlocked {
        key_store: ActiveKeyStore,
        vault_store: Box<VaultStore>,
        vault_path: String,
        unlocked_at: u64,
    },
    RateLimited {
        locked_until: u128,
        attempts: u32,
    },
}

/// What to do with the on-disk record of failed unlock attempts.
#[derive(Debug, Clone, Copy, PartialEq, Eq, Structural)]
pub enum AttemptsRecord {
    /// Remove the record.
    Clear,
    /// Write the record with this count and lockout end (Unix seconds).
    Write { count: u32, lockout_until: u64 },
}

pub struct SessionManager {
    pub state: SessionState,
    /// Consecutive failed unlock attempts.
    pub attempts: u32,
    /// Password reveals in the current window.
    pub reveal_count: u32,
    /// Unix second at which the current reveal window started.
    pub reveal_window_start: u64,
}

/// Whole seconds from `now` to `until` (nanoseconds), as `Duration::as_secs`
/// reports them.
pub open spec fn secs_until(until: u128, now: u64) -> u64 {
    let s = (until - now) / (NANOS_PER_SEC as int);
    if s > u64::MAX {
        u64::MAX
    } else {
        s as u64
    }
}

/// `now` plus a number of seconds, in nanoseconds.
pub open spec fn after_secs(now: u64, secs: u64) -> u128 {
    (now + secs * NANOS_PER_SEC) as u128
}

/// What the access check answers at `now` to a session in `state` that is not
/// unlocked, and the state it leaves: a running lockout is refused with the
/// seconds left and stays; an expired lockout, or a locked session, is
/// refused as locked and is locked afterwards.
pub open spec fn refusal(state: SessionState, now: u64) -> (CypheriaError, SessionState) {
    match state {
        SessionState::RateLimited { locked_until, .. } => if (now as int) < locked_until {
            (CypheriaError::RateLimited(secs_until(locked_until, now)), state)
        } else {
            (CypheriaError::VaultLocked, SessionState::Locked)
        },
        _ => (CypheriaError::VaultLocked, SessionState::Locked),
    }
}

/// The call at `now` was refused by the access check: `r` is the refusal's error,
/// the state is the one the refusal leaves, and nothing else changed.
pub open spec fn refused<T>(before: &SessionManager, after: &SessionManager, now: u64, r: Result<T, CypheriaError>) -> bool {
    &&& r matches Err(e) && e == refusal(before.state, now).0
    &&& after.state == refusal(before.state, now).1
    &&& after.attempts == before.attempts
    &&& after.reveal_count == before.reveal_count
    &&& after.reveal_window_start == before.reveal_window_start
}

/// The vault data of an unlocked session.
pub open spec fn session_data(s: &SessionManager) -> VaultDataView {
    match s.state {
        SessionState::Unlocked { vault_store, .. } => vault_store.data@,
        _ => arbitrary(),
    }
}

/// The vault key of an unlocked session.
pub open spec fn session_vk(s: &SessionManager) -> Seq<u8> {
    match s.state {
        SessionState::Unlocked { key_store, .. } => key_store.vk(),
        _ => arbitrary(),
    }
}

/// Both sessions are unlocked and the same but for their vault data.
pub open spec fn only_data_changed(before: &SessionManager, after: &SessionManager) -> bool {
    &&& before.state matches SessionState::Unlocked { key_store, vault_store, vault_path, unlocked_at }
    &&& after.state matches SessionState::Unlocked { key_store: k2, vault_store: v2, vault_path: p2, unlocked_at: u2 }
    &&& k2 == key_store
    &&& v2.header == vault_store.header
    &&& p2 == vault_path
    &&& u2 == unlocked_at
    &&& after.attempts == before.attempts
    &&& after.reveal_count == before.reveal_count
    &&& after.reveal_window_start == before.reveal_window_start
}

/// The reveal rate limit at Unix second `now` for a window that opened at
/// `window` and has seen `count` reveals: the answer, and the new count and
/// window. A new window opens once 60 seconds have passed; within a window
/// the eleventh and later reveals are refused with the seconds left.
pub open spec fn reveal_limit(count: u32, window: u64, now: u64) -> (Result<(), CypheriaError>, u32, u64) {
    let elapsed: int = if now >= window { now - window } else { 0 };
    if elapsed >= REVEAL_WINDOW_SECS {
        (Ok(()), 1, now)
    } else {
        let c = ((count + 1) % 0x1_0000_0000) as u32;
        if c > MAX_REVEALS_PER_WINDOW {
            (Err(CypheriaError::RateLimited((REVEAL_WINDOW_SECS - elapsed) as u64)), c, window)
        } else {
            (Ok(()), c, window)
        }
    }
}

/// One more failed unlock attempt after `attempts` consecutive ones: the
/// new count, and whether this failure starts a lockout (the fifth in a row
/// does, and the count starts again from 0).
pub open spec fn after_failure(attempts: u32) -> (u32, bool) {
    let n = ((attempts + 1) % 0x1_0000_0000) as u32;
    if n >= MAX_UNLOCK_ATTEMPTS {
        (0, true)
    } else {
        (n, false)
    }
}

/// `k` failed attempts in a row from a count of `attempts`: the count
/// after them, and whether the last one started a lockout.
pub open spec fn after_failures(attempts: u32, k: nat) -> (u32, bool)
    decreases k,
{
    if k == 0 {
        (attempts, false)
    } else {
        after_failure(after_failures(attempts, (k - 1) as nat).0)
    }
}

/// The count of failed attempts an unlock continues from: the higher of the
/// count in memory and the count recorded on disk.
pub open spec fn continued_count(in_memory: u32, recorded: u32) -> u32 {
    if in_memory >= recorded {
        in_memory
    } else {
        recorded
    }
}

fn secs_between(until: u128, now: u64) -> (r: u64)
    requires
        now < until,
    ensures
        r == secs_until(until, now),
{
    let s = (until - now as u128) / NANOS_PER_SEC;
    if s > u64::MAX as u128 {
        u64::MAX
    } else {
        s as u64
    }
}

fn nanos_after(now: u64, secs: u64) -> (r: u128)
    ensures
        r == after_secs(now, secs),
{
    assert(secs * NANOS_PER_SEC <= 18446744073709551615u128 * 1_000_000_000u128) by (nonlinear_arith)
        requires
            secs <= 18446744073709551615u64,
    ;
    now as u128 + (secs as u128) * NANOS_PER_SEC
}

/// Seconds since the Unix epoch by the system clock.
pub fn now_unix_secs() -> u64 {
    system_unix_secs()
}

impl SessionManager {
    pub open spec fn failed_attempts(&self) -> u32 {
        self.attempts
    }

    pub open spec fn reveals(&self) -> u32 {
        self.reveal_count
    }

    pub open spec fn reveal_window(&self) -> u64 {
        self.reveal_window_start
    }

    /// The decrypted vault of an unlocked session has valid timestamps.
    pub open spec fn wf(&self) -> bool {
        self.state matches SessionState::Unlocked { vault_store, .. } ==> vault_store.data@.wf()
    }

    /// A new session: locked, with no failed attempts and no reveals.
    pub fn new() -> (s: Self)
        ensures
            s.state is Locked,
            s.failed_attempts() == 0,
            s.reveals() == 0,
            s.reveal_window() == 0,
    {
        SessionManager { state: SessionState::Locked, attempts: 0, reveal_count: 0, reveal_window_start: 0 }
    }

    /// Rate limit on password reveals: at most 10 in a 60-second window.
    /// Reads the system clock.
    pub fn check_reveal_rate_limit(&mut self) -> (r: Result<(), CypheriaError>)
        ensures
            final(self).state == old(self).state,
            final(self).failed_attempts() == old(self).failed_attempts(),
            exists|now: u64| (r, final(self).reveals(), final(self).reveal_window()) == #[trigger] reveal_limit(old(self).reveals(), old(self).reveal_window(), now),
    {
        let now = now_unix_secs();
        self.check_reveal_rate_limit_at(now)
    }

    /// Rate limit on password reveals at Unix second `now`. A window opens at
    /// the first reveal after 60 seconds have passed since the last window
    /// opened; within a window the eleventh and later reveals are refused
    /// with the seconds left in the window.
    pub fn check_reveal_rate_limit_at(&mut self, now: u64) -> (r: Result<(), CypheriaError>)
        ensures
            final(self).state == old(self).state,
            final(self).failed_attempts() == old(self).failed_attempts(),
            (r, final(self).reveals(), final(self).reveal_window()) == reveal_limit(old(self).reveals(), old(self).reveal_window(), now),
    {
        let window_start = self.reveal_window_start;
        if now.saturating_sub(window_start) >= REVEAL_WINDOW_SECS {
            self.reveal_count = 1;
            self.reveal_window_start = now;
            return Ok(());
        }
        let count = self.reveal_count.wrapping_add(1);
        self.reveal_count = count;
        if count > MAX_REVEALS_PER_WINDOW {
            let remaining = REVEAL_WINDOW_SECS.saturating_sub(now.saturating_sub(window_start));
            return Err(CypheriaError::RateLimited(remaining));
        }
        Ok(())
    }

    /// Resets the reveal rate limit (on lock).
    pub fn reset_reveal_rate_limit(&mut self)
        ensures
            final(self).state == old(self).state,
            final(self).failed_attempts() == old(self).failed_attempts(),
            final(self).reveals() == 0,
            final(self).reveal_window() == 0,
    {
        self.reveal_count = 0;
        self.reveal_window_start = 0;
    }

    /// The checks made before an unlock attempt. While a lockout is running
    /// (in memory, or recorded on disk as ending at `persisted_lockout_until`)
    /// the attempt is refused with the seconds left; a lockout found on disk
    /// is applied in memory too. When the attempt may go ahead, the count of
    /// failed attempts continues from the higher of the count in memory and
    /// `persisted_count`, the count recorded on disk, so that a restart does
    /// not reset it.
    pub fn unlock_precheck(
        &mut self,
        now: u64,
        persisted_count: u32,
        persisted_lockout_until: u64,
        unix_now: u64,
    ) -> (r: Result<(), CypheriaError>)
        ensures
            r is Ok ==> final(self).failed_attempts() == continued_count(old(self).failed_attempts(), persisted_count),
            r is Err ==> final(self).failed_attempts() == old(self).failed_attempts(),
            final(self).reveals() == old(self).reveals(),
            final(self).reveal_window() == old(self).reveal_window(),
            match old(self).state {
                SessionState::RateLimited { locked_until, .. } if (now as int) < locked_until => {
                    &&& r matches Err(CypheriaError::RateLimited(left)) && left == secs_until(locked_until, now)
                    &&& final(self).state == old(self).state
                },
                _ => if persisted_lockout_until > unix_now {
                    &&& r matches Err(CypheriaError::RateLimited(left)) && left == persisted_lockout_until - unix_now
                    &&& final(self).state == (SessionState::RateLimited {
                        locked_until: after_secs(now, (persisted_lockout_until - unix_now) as u64),
                        attempts: MAX_UNLOCK_ATTEMPTS,
                    })
                } else {
                    &&& r is Ok
                    &&& final(self).state == old(self).state
                },
            },
    {
        if let SessionState::RateLimited { locked_until, .. } = &self.state {
            if (now as u128) < *locked_until {
                return Err(CypheriaError::RateLimited(secs_between(*locked_until, now)));
            }
        }
        if persisted_lockout_until > unix_now {
            let remaining = persisted_lockout_until - unix_now;
            self.state = SessionState::RateLimited {
                locked_until: nanos_after(now, remaining),
                attempts: MAX_UNLOCK_ATTEMPTS,
            };
            return Err(CypheriaError::RateLimited(remaining));
        }
        if persisted_count > self.attempts {
            self.attempts = persisted_count;
        }
        Ok(())
    }

    /// Records the outcome of an unlock attempt. Success unlocks the session
    /// and clears the failed attempts; a failure counts one more attempt, and
    /// the fifth consecutive one starts a 30-second lockout. The second
    /// result says how to update the on-disk record of attempts.
    pub fn finish_unlock(
        &mut self,
        outcome: Result<(ActiveKeyStore, VaultStore), CypheriaError>,
        vault_path: String,
        now: u64,
        unix_now: u64,
    ) -> (r: (Result<(), CypheriaError>, AttemptsRecord))
        requires
            old(self).wf(),
            outcome matches Ok(parts) ==> parts.1.data@.wf(),
        ensures
            final(self).wf(),
            final(self).reveals() == old(self).reveals(),
            final(self).reveal_window() == old(self).reveal_window(),
            outcome is Err ==> final(self).failed_attempts() == after_failure(old(self).failed_attempts()).0,
            outcome is Err && after_failure(old(self).failed_attempts()).1 ==> ((r.0 matches Err(CypheriaError::RateLimited(left)) && left == LOCKOUT_DURATION_SECS && final(self).state is RateLimited)),
            outcome is Err && !after_failure(old(self).failed_attempts()).1 ==> final(self).state == old(self).state,
            match outcome {
                Ok(parts) => {
                    &&& r.0 is Ok
                    &&& r.1 == AttemptsRecord::Clear
                    &&& final(self).failed_attempts() == 0
                    &&& final(self).state matches SessionState::Unlocked { key_store, vault_store, vault_path: p, unlocked_at }
                        && key_store == parts.0 && *vault_store == parts.1 && p@ == vault_path@ && unlocked_at == now
                },
                Err(e) => {
                    let n = (old(self).failed_attempts() + 1) % 0x1_0000_0000;
                    if n >= MAX_UNLOCK_ATTEMPTS {
                        &&& r.0 matches Err(CypheriaError::RateLimited(left)) && left == LOCKOUT_DURATION_SECS
                        &&& r.1 == (AttemptsRecord::Write { count: 0, lockout_until: ((unix_now + LOCKOUT_DURATION_SECS) % 0x1_0000_0000_0000_0000) as u64 })
                        &&& final(self).failed_attempts() == 0
                        &&& final(self).state == (SessionState::RateLimited { locked_until: after_secs(now, LOCKOUT_DURATION_SECS), attempts: n as u32 })
                    } else {
                        &&& r.0 matches Err(e2) && e2 == e
                        &&& r.1 == (AttemptsRecord::Write { count: n as u32, lockout_until: 0 })
                        &&& final(self).failed_attempts() == n
                        &&& final(self).state == old(self).state
                    }
                },
            },
    {
        match outcome {
            Ok((key_store, vault_store)) => {
                self.attempts = 0;
                self.state = SessionState::Unlocked {
                    key_store,
                    vault_store: Box::new(vault_store),
                    vault_path,
                    unlocked_at: now,
                };
                (Ok(()), AttemptsRecord::Clear)
            },
            Err(e) => {
                let attempts = self.attempts.wrapping_add(1);
                self.attempts = attempts;
                if attempts >= MAX_UNLOCK_ATTEMPTS {
                    self.attempts = 0;
                    let lockout_until = unix_now.wrapping_add(LOCKOUT_DURATION_SECS);
                    self.state = SessionState::RateLimited {
                        locked_until: nanos_after(now, LOCKOUT_DURATION_SECS),
                        attempts,
                    };
                    return (
                        Err(CypheriaError::RateLimited(LOCKOUT_DURATION_SECS)),
                        AttemptsRecord::Write { count: 0, lockout_until },
                    );
                }
                (Err(e), AttemptsRecord::Write { count: attempts, lockout_until: 0 })
            },
        }
    }

    /// Locks the session: the keys and the decrypted vault are dropped (and
    /// wiped), and the reveal rate limit is reset.
    pub fn lock(&mut self)
        ensures
            final(self).state is Locked,
            final(self).failed_attempts() == old(self).failed_attempts(),
            final(self).reveals() == 0,
            final(self).reveal_window() == 0,
    {
        self.state = SessionState::Locked;
        self.reset_reveal_rate_limit();
    }

    /// Whether the session is well-formed (see `wf`).
    pub fn check_wf(&self) -> (r: bool)
        ensures
            r == self.wf(),
    {
        match &self.state {
            SessionState::Unlocked { vault_store, .. } => vault_store.data.timestamps_valid(),
            _ => true,
        }
    }

    pub fn is_unlocked(&self) -> (r: bool)
        ensures
            r == (self.state is Unlocked),
    {
        match &self.state {
            SessionState::Unlocked { .. } => true,
            _ => false,
        }
    }

    /// The check in front of every access to vault data. Succeeds only while
    /// unlocked. An expired lockout turns back into `Locked`.
    pub fn access(&mut self, now: u64) -> (r: Result<(), CypheriaError>)
        ensures
            r is Ok <==> old(self).state is Unlocked,
            r is Ok ==> *final(self) == *old(self),
            r is Err ==> refused(old(self), final(self), now, r),
    {
        let expired = match &self.state {
            SessionState::Unlocked { .. } => return Ok(()),
            SessionState::RateLimited { locked_until, .. } => {
                if (now as u128) < *locked_until {
                    return Err(CypheriaError::RateLimited(secs_between(*locked_until, now)));
                }
                true
            },
            SessionState::Locked => return Err(CypheriaError::VaultLocked),
        };
        if expired {
            self.state = SessionState::Locked;
        }
        Err(CypheriaError::VaultLocked)
    }

    /// Runs `f` on the keys and the decrypted vault, if the session is
    /// unlocked (see `access`).
    pub fn with_session<T, F: FnOnce(&ActiveKeyStore, &VaultStore) -> Result<T, CypheriaError>>(&mut self, now: u64, f: F) -> (r: Result<
        T,
        CypheriaError,
    >)
        requires
            old(self).state matches SessionState::Unlocked { key_store, vault_store, .. } ==> f.requires((&key_store, &*vault_store)),
        ensures
            match old(self).state {
                SessionState::Unlocked { key_store, vault_store, .. } => *final(self) == *old(self) && f.ensures((&key_store, &*vault_store), r),
                _ => refused(old(self), final(self), now, r),
            },
    {
        match self.access(now) {
            Ok(()) => {},
            Err(e) => return Err(e),
        }
        match &self.state {
            SessionState::Unlocked { key_store, vault_store, .. } => f(key_store, vault_store),
            _ => Err(CypheriaError::VaultLocked),
        }
    }

    /// The path of the open vault file, while unlocked.
    pub fn vault_path(&self) -> (r: Option<String>)
        ensures
            match self.state {
                SessionState::Unlocked { vault_path, .. } => r matches Some(p) && p@ == vault_path@,
                _ => r is None,
            },
    {
        match &self.state {
            SessionState::Unlocked { vault_path, .. } => Some(clone_string(vault_path)),
            _ => None,
        }
    }
}

impl Default for SessionManager {
    fn default() -> (s: Self)
        ensures
            s.state is Locked,
    {
        Self::new()
    }
}

// ── Laws ───────────────────────────────────────────────────────────────────

/// Five failures lock: from a clean count, the first four failed unlock
/// attempts in a row start no lockout and leave the count at 1 to 4; the
/// fifth starts the lockout and clears the count.
pub proof fn lemma_fifth_failure_locks()
    ensures
        forall|k: nat| 1 <= k <= 4 ==> #[trigger] after_failures(0, k) == (k as u32, false),
        after_failures(0, 5) == (0u32, true),
{
    reveal_with_fuel(after_failures, 6);
}

/// A restart does not reset the count of failed unlock attempts: a fresh
/// session (count 0) that finds `recorded` failures (1 to 4) on disk starts
/// the lockout at the failure that makes five in all, not five failures
/// later.
pub proof fn lemma_recorded_failures_continue(recorded: u32)
    requires
        1 <= recorded < MAX_UNLOCK_ATTEMPTS,
    ensures
        after_failures(continued_count(0, recorded), (MAX_UNLOCK_ATTEMPTS - recorded) as nat) == (0u32, true),
        forall|k: nat| 1 <= k < MAX_UNLOCK_ATTEMPTS - recorded ==> #[trigger] after_failures(continued_count(0, recorded), k).1 == false,
{
    assert(continued_count(0, recorded) == recorded);
    assert forall|k: nat| 1 <= k < MAX_UNLOCK_ATTEMPTS - recorded implies #[trigger] after_failures(recorded, k).1 == false by {
        lemma_failures_short_of_lockout(recorded, k);
    }
    let k = (MAX_UNLOCK_ATTEMPTS - recorded) as nat;
    lemma_failures_short_of_lockout(recorded, (k - 1) as nat);
    assert(after_failures(recorded, k) == after_failure(after_failures(recorded, (k - 1) as nat).0));
}

/// Fewer than five failures in all start no lockout and add up.
proof fn lemma_failures_short_of_lockout(recorded: u32, k: nat)
    requires
        recorded + k < MAX_UNLOCK_ATTEMPTS,
    ensures
        after_failures(recorded, k) == ((recorded + k) as u32, false),
    decreases k,
{
    if k > 0 {
        lemma_failures_short_of_lockout(recorded, (k - 1) as nat);
    }
}

/// The count an unlock continues from is the larger of the count in
/// memory and the recorded count: it is one of the two and at least each.
/// So when the record mirrors memory (the ordinary flow, where every
/// failure is written out) the count is unchanged, and each failure is
/// counted once.
pub proof fn lemma_continued_count_is_max(in_memory: u32, recorded: u32)
    ensures
        continued_count(in_memory, recorded) == in_memory || continued_count(in_memory, recorded) == recorded,
        continued_count(in_memory, recorded) >= in_memory,
        continued_count(in_memory, recorded) >= recorded,
        continued_count(in_memory, in_memory) == in_memory,
{
}

/// In the ordinary flow, where the record on disk holds the same count as
/// memory before each attempt, `k` failed attempts in a row from a clean
/// count start no lockout for k = 1 to 4 and the lockout at k = 5: each
/// attempt continues from the count the previous failure left.
pub proof fn lemma_ordinary_flow_locks_at_fifth(k: nat)
    requires
        1 <= k <= 5,
    ensures
        after_failure(continued_count(after_failures(0, (k - 1) as nat).0, after_failures(0, (k - 1) as nat).0)).1
            == (k == 5),
{
    reveal_with_fuel(after_failures, 6);
    let prev = after_failures(0, (k - 1) as nat).0;
    assert(continued_count(prev, prev) == prev);
}

/// The reveal window keeps its start while it is open: a request less than
/// 60 seconds after the window opened leaves the window's start where it
/// was, whether it is let through or refused; a request 60 or more seconds
/// after it is always let through, opens a new window at that second and
/// counts one reveal.
pub proof fn lemma_reveal_window_start_kept(count: u32, window: u64, now: u64)
    ensures
        (now >= window && now - window < 60) ==> reveal_limit(count, window, now).2 == window,
        (now < window) ==> reveal_limit(count, window, now).2 == window,
        (now >= window && now - window >= 60) ==> reveal_limit(count, window, now) == (Ok::<(), CypheriaError>(()), 1u32, now),
{
}

/// The reveal state after a reveal at second `t` when reveals come every
/// 30 seconds: either the reveal opened a window at `t` (one reveal
/// counted), or it was the second in a window opened 30 seconds earlier.
pub open spec fn spaced_reveal_state(count: u32, window: u64, t: u64) -> bool {
    ||| count == 1 && window == t
    ||| count == 2 && window + 30 == t
}

/// Reveals spaced 30 seconds apart are never refused: the first reveal of
/// a new or reset session (at second 60 or later) opens a window, and from
/// the state after any reveal in such a run, the next reveal 30 seconds
/// later is let through and leaves the same kind of state (a window never
/// holds more than two of these reveals).
pub proof fn lemma_spaced_reveals_allowed(count: u32, window: u64, t: u64)
    ensures
        t >= 60 ==> reveal_limit(0, 0, t).0 is Ok && spaced_reveal_state(reveal_limit(0, 0, t).1, reveal_limit(0, 0, t).2, t),
        (spaced_reveal_state(count, window, t) && t + 30 <= u64::MAX) ==> {
            let next = reveal_limit(count, window, (t + 30) as u64);
            &&& next.0 is Ok
            &&& spaced_reveal_state(next.1, next.2, (t + 30) as u64)
        },
{
}

/// At most ten reveals in a window: a reveal that is let through leaves a
/// count of at most ten, and while a window is open, one that comes after
/// ten others is refused. (A count that has reached the largest `u32`
/// wraps around to 0.)
pub proof fn lemma_reveal_window_bound(count: u32, window: u64, now: u64)
    ensures
        reveal_limit(count, window, now).0 is Ok ==> reveal_limit(count, window, now).1 <= MAX_REVEALS_PER_WINDOW,
        (MAX_REVEALS_PER_WINDOW <= count < u32::MAX && now >= window && now - window < REVEAL_WINDOW_SECS) ==> reveal_limit(count, window, now).0 is Err,
{
}

/// The reveal count and window after `k` reveal requests at Unix second
/// `now`, from a count of `count` in a window opened at `window`.
pub open spec fn reveal_run(count: u32, window: u64, now: u64, k: nat) -> (u32, u64)
    decreases k,
{
    if k == 0 {
        (count, window)
    } else {
        let p = reveal_run(count, window, now, (k - 1) as nat);
        let l = reveal_limit(p.0, p.1, now);
        (l.1, l.2)
    }
}

/// Ten reveals, then a refusal: from a new or reset session (count 0,
/// window 0), at a Unix second `now` of 60 or later, the first ten reveal
/// requests in a row are let through and the eleventh is refused with the
/// full 60 seconds left.
pub proof fn lemma_eleventh_reveal_refused(now: u64)
    requires
        now >= REVEAL_WINDOW_SECS,
    ensures
        forall|k: nat| k < 10 ==> reveal_limit(#[trigger] reveal_run(0, 0, now, k).0, reveal_run(0, 0, now, k).1, now).0 is Ok,
        reveal_limit(reveal_run(0, 0, now, 10).0, reveal_run(0, 0, now, 10).1, now).0 == Err::<(), CypheriaError>(CypheriaError::RateLimited(60)),
{
    assert forall|k: nat| k < 10 implies reveal_limit(#[trigger] reveal_run(0, 0, now, k).0, reveal_run(0, 0, now, k).1, now).0 is Ok by {
        lemma_reveal_run(now, k);
    }
    lemma_reveal_run(now, 10);
}

/// After `k` (1 to 10) reveals from a new session at `now` (60 or later),
/// the count is `k` in a window opened at `now`.
proof fn lemma_reveal_run(now: u64, k: nat)
    requires
        now >= REVEAL_WINDOW_SECS,
        k <= 10,
    ensures
        k == 0 ==> reveal_run(0, 0, now, k) == (0u32, 0u64),
        k > 0 ==> reveal_run(0, 0, now, k) == (k as u32, now),
    decreases k,
{
    if k > 0 {
        lemma_reveal_run(now, (k - 1) as nat);
    }
}

/// After a lock, every access to vault data is refused as locked, and the
/// session stays locked.
pub proof fn lemma_locked_refuses(now: u64)
    ensures
        refusal(SessionState::Locked, now) == (CypheriaError::VaultLocked, SessionState::Locked),
{
}

} // verus!
