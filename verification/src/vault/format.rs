//! The `.qvault` file format.
//!
//! File layout, version 2 (the one that is written):
//!   MAGIC       "CYPHERIA\x01"          (9 bytes)
//!   VERSION     u16 little-endian       (2 bytes)
//!   HEADER_LEN  u32 little-endian       (4 bytes)
//!   HEADER      bincode(VaultHeader)    (HEADER_LEN bytes)
//!   DATA_LEN    u32 little-endian       (4 bytes)
//!   DATA        AES-256-GCM sealed bincode(VaultData)
//!   HMAC        HMAC-SHA256 of all bytes above (32 bytes)
//!
//! Version 1 files (still read, then rewritten as version 2) place the HMAC,
//! which covers MAGIC through HEADER only, right after HEADER.
use vstd::prelude::*;
use crate::time::Timestamp;

verus! {

/// The bytes `CYPHERIA\x01`.
pub const MAGIC: [u8; 9] = [0x43, 0x59, 0x50, 0x48, 0x45, 0x52, 0x49, 0x41, 0x01];

/// The format version recorded in a new vault's header.
pub const FORMAT_VERSION: u16 = 1;

/// The layout version written in front of the header: the HMAC at the end,
/// covering the whole file before it.
pub const FILE_LAYOUT_VERSION: u16 = 2;

/// Stored in plaintext in the header section: everything needed to re-derive
/// the keys and check integrity.
#[derive(Debug, Clone)]
pub struct VaultHeader {
    /// Random salt for Argon2id.
    pub argon2_salt: [u8; 32],
    /// Argon2id parameters that the master key was derived with.
    pub kdf_memory_kb: u32,
    pub kdf_iterations: u32,
    pub kdf_parallelism: u32,
    /// Vault key wrapped under the master key: nonce(12) || sealed(48).
    pub vk_wrapped_classical: Vec<u8>,
    /// Kyber-1024 public key (public).
    pub kyber_public_key: Vec<u8>,
    /// Kyber-1024 secret key sealed under the master key.
    pub kyber_sk_encrypted: Vec<u8>,
    /// Kyber ciphertext of the vault key's encapsulation.
    pub kyber_ciphertext: Vec<u8>,
    /// Vault key wrapped under the Kyber shared secret.
    pub vk_wrapped_pq: Vec<u8>,
    pub created_at: Timestamp,
    /// Human-readable vault name (plaintext metadata).
    pub vault_name: String,
    /// Format version that wrote this vault.
    pub format_version: u16,
}

/// An entry as stored. Its metadata is plaintext for fast listing; the
/// credentials are one JSON payload sealed under the entry's own key, which
/// is stored wrapped under the vault key.
#[derive(Debug, Clone)]
pub struct EncryptedEntry {
    /// UUID v4, used for lookups.
    pub id: String,
    pub created_at: Timestamp,
    pub updated_at: Timestamp,
    pub is_favorite: bool,
    pub category: String,
    pub color: String,
    pub emoji: String,
    /// Entry key wrapped under the vault key (60 bytes).
    pub ek_wrapped: Vec<u8>,
    /// `{name, username, password, website, notes}` sealed under the entry key.
    pub payload_encrypted: Vec<u8>,
}

/// A note as stored; sealed like an entry.
#[derive(Debug, Clone)]
pub struct EncryptedNote {
    pub id: String,
    pub created_at: Timestamp,
    pub updated_at: Timestamp,
    /// Note key wrapped under the vault key.
    pub ek_wrapped: Vec<u8>,
    /// `{title, content}` sealed under the note key.
    pub payload_encrypted: Vec<u8>,
}

/// Settings sealed as a JSON payload under a subkey of the vault key.
#[derive(Debug, Clone)]
pub struct EncryptedSettings {
    pub payload_encrypted: Vec<u8>,
}

/// The data section: serialized, then sealed under the vault key. It is never
/// written to disk in plaintext.
#[derive(Debug, Clone)]
pub struct VaultData {
    pub entries: Vec<EncryptedEntry>,
    pub notes: Vec<EncryptedNote>,
    pub settings: EncryptedSettings,
    pub updated_at: Timestamp,
}

/// Plaintext credential payload; never written to disk.
#[derive(Debug)]
pub struct EntryPayload {
    pub name: String,
    pub username: String,
    pub password: String,
    pub website: String,
    pub notes: String,
}

/// Plaintext note payload; never written to disk.
#[derive(Debug)]
pub struct NotePayload {
    pub title: String,
    pub content: String,
}

/// What a stored entry holds.
#[verifier::ext_equal]
pub struct EntryRecord {
    pub id: Seq<char>,
    pub created_at: Timestamp,
    pub updated_at: Timestamp,
    pub is_favorite: bool,
    pub category: Seq<char>,
    pub color: Seq<char>,
    pub emoji: Seq<char>,
    pub ek_wrapped: Seq<u8>,
    pub payload_encrypted: Seq<u8>,
}

/// What a stored note holds.
#[verifier::ext_equal]
pub struct NoteRecord {
    pub id: Seq<char>,
    pub created_at: Timestamp,
    pub updated_at: Timestamp,
    pub ek_wrapped: Seq<u8>,
    pub payload_encrypted: Seq<u8>,
}

/// What the data section holds.
#[verifier::ext_equal]
pub struct VaultDataView {
    pub entries: Seq<EntryRecord>,
    pub notes: Seq<NoteRecord>,
    pub settings: Seq<u8>,
    pub updated_at: Timestamp,
}

impl View for EncryptedEntry {
    type V = EntryRecord;

    open spec fn view(&self) -> EntryRecord {
        EntryRecord {
            id: self.id@,
            created_at: self.created_at,
            updated_at: self.updated_at,
            is_favorite: self.is_favorite,
            category: self.category@,
            color: self.color@,
            emoji: self.emoji@,
            ek_wrapped: self.ek_wrapped@,
            payload_encrypted: self.payload_encrypted@,
        }
    }
}

impl View for EncryptedNote {
    type V = NoteRecord;

    open spec fn view(&self) -> NoteRecord {
        NoteRecord {
            id: self.id@,
            created_at: self.created_at,
            updated_at: self.updated_at,
            ek_wrapped: self.ek_wrapped@,
            payload_encrypted: self.payload_encrypted@,
        }
    }
}

impl View for VaultData {
    type V = VaultDataView;

    open spec fn view(&self) -> VaultDataView {
        VaultDataView {
            entries: self.entries@.map_values(|e: EncryptedEntry| e@),
            notes: self.notes@.map_values(|n: EncryptedNote| n@),
            settings: self.settings.payload_encrypted@,
            updated_at: self.updated_at,
        }
    }
}

impl EntryRecord {
    pub open spec fn wf(self) -> bool {
        self.created_at.valid() && self.updated_at.valid()
    }
}

impl NoteRecord {
    pub open spec fn wf(self) -> bool {
        self.created_at.valid() && self.updated_at.valid()
    }
}

impl VaultDataView {
    /// Every timestamp in the data is a valid date-time.
    pub open spec fn wf(self) -> bool {
        &&& self.updated_at.valid()
        &&& forall|i: int| 0 <= i < self.entries.len() ==> (#[trigger] self.entries[i]).wf()
        &&& forall|i: int| 0 <= i < self.notes.len() ==> (#[trigger] self.notes[i]).wf()
    }
}

impl VaultData {
    /// Whether every timestamp in the data is a valid date-time.
    pub fn timestamps_valid(&self) -> (r: bool)
        ensures
            r == self@.wf(),
    {
        if !self.updated_at.is_valid() {
            return false;
        }
        let n = self.entries.len();
        for i in 0..n
            invariant
                n == self.entries@.len(),
                forall|j: int| 0 <= j < i ==> (#[trigger] self@.entries[j]).wf(),
        {
            if !(self.entries[i].created_at.is_valid() && self.entries[i].updated_at.is_valid()) {
                assert(!self@.entries[i as int].wf());
                return false;
            }
        }
        let m = self.notes.len();
        for i in 0..m
            invariant
                m == self.notes@.len(),
                forall|j: int| 0 <= j < i ==> (#[trigger] self@.notes[j]).wf(),
        {
            if !(self.notes[i].created_at.is_valid() && self.notes[i].updated_at.is_valid()) {
                assert(!self@.notes[i as int].wf());
                return false;
            }
        }
        true
    }
}

} // verus!
