# Cypheria

An offline password vault. Entries and notes are sealed with AES-256-GCM
under per-record keys, wrapped under a vault key, which is wrapped under a
master key derived from the master password with Argon2id; a Kyber-1024
encapsulation gives a second path to the vault key, which is checked when
the header is made (the Kyber secret key's decapsulation must give the
vault key back).

The library under `src/` is verified with Verus. Each public function
states what it returns and changes as far as its inputs decide it; where
the outcome rests on chance or on the machine (random bytes, the clock, a
Kyber decapsulation), the contract states what holds of every outcome and
which errors only such a failure can cause. The laws that tie operations
together (a read gives back what was written, a vault file reopens with its
password, a lockout follows five failed unlocks, a reveal token works once,
the inactivity timer locks only after its timeout) are proved as proof
functions.

- `src/crypto` — randomness, Argon2id and subkeys, AES-GCM, Kyber, HMAC, key types
- `src/vault` — the file format, entry and note payloads, the sealed records
- `src/session` — the lock / unlock / lockout state machine, the record of
  failed attempts, the inactivity timer
- `src/commands` — the logic of every command the frontend calls
- `app/` — the unverified shell: file I/O, serde copies of the library's
  types, the async command functions, the clipboard and the timer task
- `tests/` — tests of the library against the real cryptographic crates
