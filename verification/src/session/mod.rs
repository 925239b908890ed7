//! The session: the lock / unlock / rate-limited state machine, the record
//! of failed unlock attempts kept on disk, and the inactivity timer.
//!
//!   manager   — SessionManager: no vault data is reachable unless the
//!               session is unlocked
//!   attempts  — the signed on-disk record of failed unlock attempts
//!   autolock  — AutoLockTimer: locks the vault after inactivity
pub mod manager;
pub mod attempts;
pub mod autolock;
