//! The key hierarchy held in memory while the vault is unlocked:
//!   MasterKey — derived from the master password by Argon2id, never stored
//!   VaultKey  — random, stored wrapped under the master key in the header
//!   EntryKey  — random per entry, stored wrapped under the vault key
//! Every type that holds key material wipes it when dropped: the master key
//! through `secrecy::Secret`, the others through `zeroize::Zeroizing`.
use vstd::prelude::*;
use secrecy::{ExposeSecret, Secret};
use zeroize::{Zeroize, Zeroizing};

verus! {

/// A `secrecy::Secret<[u8; 32]>`: the bytes are wiped when it is dropped and
/// it has no `Debug` output. Verus cannot take a declaration of `Secret`
/// itself (its bound names an outside trait), so it is held privately here.
#[verifier::external_body]
pub struct SecretBytes {
    inner: Secret<[u8; 32]>,
}

/// A `zeroize::Zeroizing<[u8; 32]>`: the bytes are wiped when it is dropped.
/// Held privately for the same reason as `SecretBytes`.
#[verifier::external_body]
pub struct WipedBytes {
    inner: Zeroizing<[u8; 32]>,
}

/// The 32 bytes held by a `SecretBytes`.
pub uninterp spec fn secret_bytes(s: SecretBytes) -> Seq<u8>;

/// The 32 bytes held by a `WipedBytes`.
pub uninterp spec fn wiped_bytes(z: WipedBytes) -> Seq<u8>;

/// Calls `Secret::new`, which takes ownership of the bytes; the secret then
/// holds them.
#[verifier::external_body]
fn secret_new(bytes: [u8; 32]) -> (s: SecretBytes)
    ensures
        secret_bytes(s) == bytes@,
{
    SecretBytes { inner: Secret::new(bytes) }
}

/// Calls `ExposeSecret::expose_secret`, which borrows the held bytes.
#[verifier::external_body]
fn secret_expose(s: &SecretBytes) -> (r: &[u8; 32])
    ensures
        r@ == secret_bytes(*s),
{
    s.inner.expose_secret()
}

/// Calls `Zeroizing::new`, which takes ownership of the bytes.
#[verifier::external_body]
fn zeroizing_new(bytes: [u8; 32]) -> (z: WipedBytes)
    ensures
        wiped_bytes(z) == bytes@,
{
    WipedBytes { inner: Zeroizing::new(bytes) }
}

/// Calls `Deref::deref` of `Zeroizing`, which borrows the held bytes.
#[verifier::external_body]
fn zeroizing_bytes_ref(z: &WipedBytes) -> (r: &[u8; 32])
    ensures
        r@ == wiped_bytes(*z),
{
    &*z.inner
}

/// Calls `Zeroize::zeroize` on a byte array: every byte is set to zero.
#[verifier::external_body]
pub(crate) fn wipe_array<const N: usize>(a: &mut [u8; N])
    ensures
        forall|i: int| 0 <= i < N ==> #[trigger] final(a)@[i] == 0,
{
    a.zeroize();
}

/// Calls `Zeroize::zeroize` on a byte vector: the bytes are overwritten
/// with zeros and the vector is left empty.
#[verifier::external_body]
pub(crate) fn wipe_vec(v: &mut Vec<u8>)
    ensures
        final(v)@.len() == 0,
{
    v.zeroize();
}

/// Master key, derived from the master password; lives only in memory.
pub struct MasterKey(pub(crate) SecretBytes);

impl MasterKey {
    pub closed spec fn bytes(&self) -> Seq<u8> {
        secret_bytes(self.0)
    }

    pub fn new(bytes: [u8; 32]) -> (k: Self)
        ensures
            k.bytes() == bytes@,
    {
        MasterKey(secret_new(bytes))
    }

    pub fn expose(&self) -> (r: &[u8; 32])
        ensures
            r@ == self.bytes(),
    {
        secret_expose(&self.0)
    }
}

/// Vault key: encrypts all entry keys.
pub struct VaultKey(pub(crate) WipedBytes);

impl VaultKey {
    pub closed spec fn bytes(&self) -> Seq<u8> {
        wiped_bytes(self.0)
    }

    pub fn new(bytes: [u8; 32]) -> (k: Self)
        ensures
            k.bytes() == bytes@,
    {
        VaultKey(zeroizing_new(bytes))
    }
}

/// Entry key: unique per entry; encrypts the entry's payload.
pub struct EntryKey(pub(crate) WipedBytes);

impl EntryKey {
    pub closed spec fn bytes(&self) -> Seq<u8> {
        wiped_bytes(self.0)
    }

    pub fn new(bytes: [u8; 32]) -> (k: Self)
        ensures
            k.bytes() == bytes@,
    {
        EntryKey(zeroizing_new(bytes))
    }
}

/// The keys held while the vault is unlocked; dropping it (on lock) wipes both.
pub struct ActiveKeyStore {
    pub master_key: MasterKey,
    pub vault_key: VaultKey,
}

impl ActiveKeyStore {
    /// The master key's bytes.
    pub open spec fn mk(&self) -> Seq<u8> {
        self.master_key.bytes()
    }

    /// The vault key's bytes.
    pub open spec fn vk(&self) -> Seq<u8> {
        self.vault_key.bytes()
    }

    pub fn new(mk: [u8; 32], vk: [u8; 32]) -> (s: Self)
        ensures
            s.mk() == mk@,
            s.vk() == vk@,
    {
        ActiveKeyStore { master_key: MasterKey::new(mk), vault_key: VaultKey::new(vk) }
    }

    pub fn vault_key_bytes(&self) -> (r: &[u8; 32])
        ensures
            r@ == self.vk(),
    {
        zeroizing_bytes_ref(&self.vault_key.0)
    }

    pub fn master_key_bytes(&self) -> (r: &[u8; 32])
        ensures
            r@ == self.mk(),
    {
        self.master_key.expose()
    }
}

} // verus!
