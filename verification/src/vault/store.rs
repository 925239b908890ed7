//! Reading and writing the vault file, and the sealed settings.
//!
//! The header and the data section are serialized outside the library; here
//! the file is framed, authenticated with HMAC-SHA256 under a subkey of the
//! master key, and the data section is sealed under the vault key.
use vstd::prelude::*;
use vstd::slice::slice_subrange;
use vstd::utf8::encode_utf8;
use crate::bytes::{append_bytes, from_le_u16, from_le_u32, le_u16, le_u32, read_le_u16, read_le_u32, starts_with, u16_to_le, u32_to_le};
use crate::crypto::aes::{self, open_blob, open_error, sealed, unwrap_error, unwrapped, MAX_PLAINTEXT_LEN};
use crate::crypto::kdf::{self, argon2_ok, argon2id, subkey};
use crate::crypto::keys::{wipe_array, ActiveKeyStore};
use crate::crypto::mac::{ct_eq, hmac_sha256, hmac_sha256_tag};
use crate::error::{is_rng_error, ok_unless_machine, CypheriaError};
use crate::text::{push_decimal, push_str, decimal};
use crate::vault::format::{VaultData, VaultHeader, FILE_LAYOUT_VERSION, MAGIC};

verus! {

broadcast use vstd::string::group_string_axioms;

/// The decrypted vault while it is unlocked.
pub struct VaultStore {
    pub data: VaultData,
    pub header: VaultHeader,
}

/// Where a vault file's header lies, and the layout version in front of it.
#[derive(Debug, Clone, Copy)]
pub struct VaultLayout {
    pub version: u16,
    pub header_start: usize,
    pub header_end: usize,
}

/// A vault file opened with the right password.
pub struct OpenedVault {
    pub key_store: ActiveKeyStore,
    /// The serialized data section.
    pub data_plaintext: Vec<u8>,
    /// Whether the file used layout version 1 and should be written again
    /// with layout version 2.
    pub needs_rewrite: bool,
}

// ── Specifications ─────────────────────────────────────────────────────────

/// The bytes `HMAC_VAULT_INTEGRITY`.
pub open spec fn hmac_domain() -> Seq<u8> {
    encode_utf8("HMAC_VAULT_INTEGRITY"@)
}

/// The bytes `SETTINGS_ENCRYPTION_VK`.
pub open spec fn settings_domain() -> Seq<u8> {
    encode_utf8("SETTINGS_ENCRYPTION_VK"@)
}

/// The key that authenticates the vault file.
pub open spec fn vault_hmac_key(mk: Seq<u8>) -> Seq<u8> {
    subkey(mk, hmac_domain())
}

/// Where the header of a vault file ends, with its layout version: the file
/// starts with the magic bytes and is long enough for the version, the
/// header length and the header.
pub open spec fn layout_of(file: Seq<u8>) -> Option<(u16, int)> {
    if !(file.len() >= 9 && file.take(9) == MAGIC@) {
        None
    } else if file.len() < 11 {
        None
    } else if file.len() < 15 {
        None
    } else {
        let version = from_le_u16(file.subrange(9, 11)) as u16;
        let header_end: int = 15 + from_le_u32(file.subrange(11, 15)) as int;
        if file.len() < header_end {
            None
        } else {
            Some((version, header_end))
        }
    }
}

/// The sections of a vault file after its header: where the authenticated
/// region ends (the 32-byte tag starts there) and where the sealed data
/// lies. Layout 1 puts the tag right after the header, then the data length
/// and the data; layout 2 puts the data length and the data after the
/// header and the tag at the very end.
pub open spec fn sections_of(file: Seq<u8>, version: u16, header_end: int) -> Option<(int, int, int)> {
    if version == 1 {
        if file.len() < header_end + 36 {
            None
        } else {
            let data_start = header_end + 36;
            let data_end = data_start + from_le_u32(file.subrange(header_end + 32, header_end + 36));
            if file.len() < data_end {
                None
            } else {
                Some((header_end, data_start, data_end))
            }
        }
    } else {
        if file.len() < 32 || file.len() < header_end + 4 {
            None
        } else {
            Some((file.len() - 32, header_end + 4, file.len() - 32))
        }
    }
}

/// The 32-byte tag at `tag_start` is the HMAC of everything before it.
pub open spec fn authentic(file: Seq<u8>, tag_start: int, hmac_key: Seq<u8>) -> bool {
    hmac_sha256(hmac_key, file.take(tag_start)) == file.subrange(tag_start, tag_start + 32)
}

/// The master key that `password` derives with the header's parameters.
pub open spec fn header_master_key(password: Seq<u8>, h: &VaultHeader) -> Seq<u8> {
    argon2id(password, h.argon2_salt@, h.kdf_memory_kb, h.kdf_iterations, h.kdf_parallelism)
}

/// What opening a layout-1 or layout-2 vault file with `password` gives:
/// the master key, the vault key and the data section's plaintext, or the
/// error. Any framing or integrity failure is `VaultCorrupted`.
pub open spec fn open_outcome(password: Seq<u8>, file: Seq<u8>, version: u16, header_end: int, h: &VaultHeader) -> Result<(Seq<u8>, Seq<u8>, Seq<u8>), CypheriaError> {
    if !argon2_ok(password, h.kdf_memory_kb, h.kdf_iterations, h.kdf_parallelism) {
        Err(CypheriaError::KdfError)
    } else {
        let mk = header_master_key(password, h);
        match sections_of(file, version, header_end) {
            None => Err(CypheriaError::VaultCorrupted),
            Some((tag_start, data_start, data_end)) => if !authentic(file, tag_start, vault_hmac_key(mk)) {
                Err(CypheriaError::VaultCorrupted)
            } else {
                match unwrapped(mk, h.vk_wrapped_classical@) {
                    None => Err(unwrap_error(mk, h.vk_wrapped_classical@)),
                    Some(vk) => if data_start > data_end {
                        Err(CypheriaError::VaultCorrupted)
                    } else {
                        match open_blob(vk, file.subrange(data_start, data_end)) {
                            None => Err(open_error(file.subrange(data_start, data_end))),
                            Some(p) => Ok((mk, vk, p)),
                        }
                    },
                }
            },
        }
    }
}

/// The text of the error for a layout version that is not read.
pub open spec fn unsupported_version_text(version: u16) -> Seq<char> {
    "Unsupported vault format version "@ + decimal(version as nat) + " (this build supports version 1 and 2)."@
}

/// The part of a vault file that its HMAC covers (layout 2).
pub open spec fn file_body(header_bytes: Seq<u8>, data_blob: Seq<u8>) -> Seq<u8> {
    MAGIC@ + le_u16(FILE_LAYOUT_VERSION) + le_u32(header_bytes.len() as u32) + header_bytes
        + le_u32(data_blob.len() as u32) + data_blob
}

/// `file` is what `encode_vault_file` writes: the body around a blob that
/// seals `data_plaintext` under `vk`, then its HMAC under the master key's
/// integrity subkey.
pub open spec fn persisted(mk: Seq<u8>, vk: Seq<u8>, data_plaintext: Seq<u8>, header_bytes: Seq<u8>, file: Seq<u8>) -> bool {
    exists|blob: Seq<u8>|
        sealed(vk, data_plaintext, blob) && hmac_sha256(vault_hmac_key(mk), file_body(header_bytes, blob)).len() == 32
            && file == file_body(header_bytes, blob) + hmac_sha256(vault_hmac_key(mk), file_body(header_bytes, blob))
}

// ── Parsing ────────────────────────────────────────────────────────────────

/// Reads the magic bytes, the layout version and the header's extent.
/// A file that is not long enough for any of them is `VaultCorrupted`.
pub fn read_vault_layout(file: &[u8]) -> (r: Result<VaultLayout, CypheriaError>)
    ensures
        match layout_of(file@) {
            Some((version, header_end)) => r matches Ok(l) && l.version == version && l.header_start == 15 && l.header_end == header_end,
            None => r matches Err(e) && e == CypheriaError::VaultCorrupted,
        },
{
    if !starts_with(file, &MAGIC) {
        return Err(CypheriaError::VaultCorrupted);
    }
    if file.len() < 11 {
        return Err(CypheriaError::VaultCorrupted);
    }
    let version = read_le_u16(file, 9);
    if file.len() < 15 {
        return Err(CypheriaError::VaultCorrupted);
    }
    let header_len = read_le_u32(file, 11);
    let header_end: u64 = 15 + header_len as u64;
    if (file.len() as u64) < header_end {
        return Err(CypheriaError::VaultCorrupted);
    }
    Ok(VaultLayout { version, header_start: 15, header_end: header_end as usize })
}

/// Checks the file's HMAC in constant time.
pub fn verify_vault_hmac(covered_data: &[u8], expected_hmac: &[u8], key: &[u8; 32]) -> (r: Result<
    (),
    CypheriaError,
>)
    ensures
        r is Ok <==> hmac_sha256(key@, covered_data@) == expected_hmac@,
        r matches Err(e) ==> e == CypheriaError::VaultCorrupted,
{
    let computed = hmac_sha256_tag(key, covered_data);
    if ct_eq(computed.as_slice(), expected_hmac) {
        Ok(())
    } else {
        Err(CypheriaError::VaultCorrupted)
    }
}

fn unsupported_version(version: u16) -> (e: CypheriaError)
    ensures
        e matches CypheriaError::InvalidInput(s) && s@ == unsupported_version_text(version),
{
    let mut s = String::new();
    push_str(&mut s, "Unsupported vault format version ");
    push_decimal(&mut s, version as u64);
    push_str(&mut s, " (this build supports version 1 and 2).");
    CypheriaError::InvalidInput(s)
}

/// Opens a vault file with a password, given its layout and its header.
///
/// The master key is derived with the header's Argon2id parameters; the
/// file's HMAC is checked under the master key's integrity subkey before
/// anything is decrypted; then the vault key is unwrapped and the data
/// section opened. A layout-1 file is opened too and marked for rewriting.
pub fn open_vault_file(password: &[u8], file: &[u8], layout: &VaultLayout, header: &VaultHeader) -> (r: Result<
    OpenedVault,
    CypheriaError,
>)
    requires
        layout_of(file@) == Some((layout.version, layout.header_end as int)),
    ensures
        (layout.version == 1 || layout.version == 2) ==> match open_outcome(password@, file@, layout.version, layout.header_end as int, header) {
            Ok((mk, vk, p)) => r matches Ok(o) && o.key_store.mk() == mk && o.key_store.vk() == vk && o.data_plaintext@ == p && o.needs_rewrite == (layout.version == 1),
            Err(e) => r matches Err(e2) && e2 == e,
        },
        r matches Ok(o) ==> o.key_store.mk().len() == 32,
        layout.version == 1 ==> (r matches Ok(o) ==> o.data_plaintext@.len() + 28 <= u32::MAX),
        (layout.version != 1 && layout.version != 2) ==> (argon2_ok(password@, header.kdf_memory_kb, header.kdf_iterations, header.kdf_parallelism) ==> (r matches Err(CypheriaError::InvalidInput(s)) && s@ == unsupported_version_text(layout.version))),
        (layout.version != 1 && layout.version != 2) ==> (!argon2_ok(password@, header.kdf_memory_kb, header.kdf_iterations, header.kdf_parallelism) ==> (r matches Err(e) && e == CypheriaError::KdfError)),
{
    let mut mk_bytes = kdf::derive_master_key_with_params(
        password,
        &header.argon2_salt,
        header.kdf_memory_kb,
        header.kdf_iterations,
        header.kdf_parallelism,
    )?;
    let mut hmac_key = [0u8; 32];
    kdf::derive_subkey(&mk_bytes, "HMAC_VAULT_INTEGRITY".as_bytes(), &mut hmac_key);
    let ghost hk = hmac_key@;
    let header_end = layout.header_end;
    let len = file.len();
    if layout.version == 1 {
        if len - header_end < 36 {
            wipe_array(&mut hmac_key);
            return Err(CypheriaError::VaultCorrupted);
        }
        let covered = slice_subrange(file, 0, header_end);
        let expected = slice_subrange(file, header_end, header_end + 32);
        assert(covered@ =~= file@.take(header_end as int));
        if let Err(e) = verify_vault_hmac(covered, expected, &hmac_key) {
            wipe_array(&mut hmac_key);
            return Err(e);
        }
        wipe_array(&mut hmac_key);
        let data_len = read_le_u32(file, header_end + 32);
        let data_start = header_end + 36;
        let data_end: u64 = data_start as u64 + data_len as u64;
        if (len as u64) < data_end {
            return Err(CypheriaError::VaultCorrupted);
        }
        let data_end = data_end as usize;
        let vk_bytes = match aes::unwrap_key(&mk_bytes, header.vk_wrapped_classical.as_slice()) {
            Ok(vk) => vk,
            Err(e) => {
                wipe_array(&mut mk_bytes);
                return Err(e);
            },
        };
        let data_plaintext = match aes::decrypt(&vk_bytes, slice_subrange(file, data_start, data_end)) {
            Ok(d) => d,
            Err(e) => {
                let mut vk_mut = vk_bytes;
                wipe_array(&mut vk_mut);
                wipe_array(&mut mk_bytes);
                return Err(e);
            },
        };
        let key_store = ActiveKeyStore::new(mk_bytes, vk_bytes);
        Ok(OpenedVault { key_store, data_plaintext, needs_rewrite: true })
    } else if layout.version == 2 {
        if len < 32 {
            wipe_array(&mut hmac_key);
            return Err(CypheriaError::VaultCorrupted);
        }
        let hmac_start = len - 32;
        let covered = slice_subrange(file, 0, hmac_start);
        let expected = slice_subrange(file, hmac_start, len);
        assert(covered@ =~= file@.take(hmac_start as int));
        verify_vault_hmac(covered, expected, &hmac_key)?;
        if len - header_end < 4 {
            wipe_array(&mut hmac_key);
            return Err(CypheriaError::VaultCorrupted);
        }
        let data_start = header_end + 4;
        let vk_bytes = aes::unwrap_key(&mk_bytes, header.vk_wrapped_classical.as_slice())?;
        if data_start > hmac_start {
            return Err(CypheriaError::VaultCorrupted);
        }
        let data_plaintext = aes::decrypt(&vk_bytes, slice_subrange(file, data_start, hmac_start))?;
        wipe_array(&mut hmac_key);
        let key_store = ActiveKeyStore::new(mk_bytes, vk_bytes);
        Ok(OpenedVault { key_store, data_plaintext, needs_rewrite: false })
    } else {
        wipe_array(&mut hmac_key);
        Err(unsupported_version(layout.version))
    }
}

// ── Writing ────────────────────────────────────────────────────────────────

/// Builds the bytes of the vault file (layout 2) from the serialized header
/// and data: the data is sealed under the vault key, the whole file is
/// authenticated with HMAC-SHA256 under the master key's integrity subkey,
/// and the tag is appended at the end.
pub fn encode_vault_file(key_store: &ActiveKeyStore, data_plaintext: &[u8], header_bytes: &[u8]) -> (r: Result<
    Vec<u8>,
    CypheriaError,
>)
    ensures
        r is Ok ==> data_plaintext@.len() <= MAX_PLAINTEXT_LEN,
        data_plaintext@.len() <= MAX_PLAINTEXT_LEN ==> ok_unless_machine(r),
        r matches Ok(f) ==> persisted(key_store.mk(), key_store.vk(), data_plaintext@, header_bytes@, f@),
        r matches Err(e) ==> e == CypheriaError::CryptoError || is_rng_error(e),
{
    let encrypted_data = aes::encrypt(key_store.vault_key_bytes(), data_plaintext)?;
    let header_len = u32_to_le(header_bytes.len() as u32);
    let data_len = u32_to_le(encrypted_data.len() as u32);
    let mut file: Vec<u8> = Vec::new();
    append_bytes(&mut file, &MAGIC);
    append_bytes(&mut file, &u16_to_le(FILE_LAYOUT_VERSION));
    append_bytes(&mut file, &header_len);
    append_bytes(&mut file, header_bytes);
    append_bytes(&mut file, &data_len);
    append_bytes(&mut file, encrypted_data.as_slice());
    assert(file@ =~= file_body(header_bytes@, encrypted_data@));
    let mut hmac_key = [0u8; 32];
    kdf::derive_subkey(key_store.master_key_bytes(), "HMAC_VAULT_INTEGRITY".as_bytes(), &mut hmac_key);
    let tag = hmac_sha256_tag(&hmac_key, file.as_slice());
    wipe_array(&mut hmac_key);
    let ghost body = file@;
    append_bytes(&mut file, tag.as_slice());
    assert(file@ == body + tag@);
    Ok(file)
}

// ── Settings ───────────────────────────────────────────────────────────────

/// The key that seals the settings: a subkey of the vault key, so that the
/// settings survive a change of master password.
pub open spec fn settings_key(vk: Seq<u8>) -> Seq<u8> {
    subkey(vk, settings_domain())
}

/// Opens the sealed settings; the result is their JSON text.
pub fn decrypt_settings(vault_key: &[u8; 32], vault_data: &VaultData) -> (r: Result<
    Vec<u8>,
    CypheriaError,
>)
    ensures
        r matches Ok(p) ==> open_blob(settings_key(vault_key@), vault_data@.settings) == Some(p@),
        r matches Err(e) ==> open_blob(settings_key(vault_key@), vault_data@.settings) is None && e == open_error(vault_data@.settings),
{
    let mut key = [0u8; 32];
    kdf::derive_subkey(vault_key, "SETTINGS_ENCRYPTION_VK".as_bytes(), &mut key);
    let result = aes::decrypt(&key, vault_data.settings.payload_encrypted.as_slice());
    wipe_array(&mut key);
    result
}

/// Seals the settings' JSON text under the settings key.
pub fn encrypt_settings(vault_key: &[u8; 32], json: &[u8]) -> (r: Result<Vec<u8>, CypheriaError>)
    ensures
        r is Ok ==> json@.len() <= MAX_PLAINTEXT_LEN,
        json@.len() <= MAX_PLAINTEXT_LEN ==> ok_unless_machine(r),
        r matches Ok(b) ==> sealed(settings_key(vault_key@), json@, b@),
        r matches Err(e) ==> e == CypheriaError::CryptoError || is_rng_error(e),
{
    let mut key = [0u8; 32];
    kdf::derive_subkey(vault_key, "SETTINGS_ENCRYPTION_VK".as_bytes(), &mut key);
    let result = aes::encrypt(&key, json);
    wipe_array(&mut key);
    result
}

/// Replaces the sealed settings with `json` sealed under the settings key.
pub fn store_settings(vault_key: &[u8; 32], vault_data: &mut VaultData, json: &[u8]) -> (r: Result<
    (),
    CypheriaError,
>)
    ensures
        r is Ok ==> json@.len() <= MAX_PLAINTEXT_LEN,
        json@.len() <= MAX_PLAINTEXT_LEN ==> ok_unless_machine(r),
        r is Ok ==> sealed(settings_key(vault_key@), json@, final(vault_data)@.settings),
        r is Err ==> final(vault_data)@ == old(vault_data)@,
        r matches Err(e) ==> e == CypheriaError::CryptoError || is_rng_error(e),
        final(vault_data)@.entries == old(vault_data)@.entries,
        final(vault_data)@.notes == old(vault_data)@.notes,
        final(vault_data)@.updated_at == old(vault_data)@.updated_at,
{
    let blob = encrypt_settings(vault_key, json)?;
    vault_data.settings.payload_encrypted = blob;
    Ok(())
}

// ── Laws ───────────────────────────────────────────────────────────────────

/// Settings read back what was stored: after `store_settings` put `json`,
/// `decrypt_settings` under the same vault key gives `json`.
pub proof fn lemma_settings_roundtrip(vk: Seq<u8>, json: Seq<u8>, blob: Seq<u8>)
    requires
        sealed(settings_key(vk), json, blob),
    ensures
        open_blob(settings_key(vk), blob) == Some(json),
{
    aes::lemma_open_sealed(settings_key(vk), json, blob);
}

/// A persisted vault file reopens: when the header that was serialized
/// into the file derives, from `password`, the master key the file was
/// written with, and wraps the vault key under it, then reading the layout
/// of what `encode_vault_file` wrote and opening it gives back the same keys
/// and the same data.
pub proof fn lemma_reopen_persisted(
    password: Seq<u8>,
    mk: Seq<u8>,
    vk: Seq<u8>,
    data_plaintext: Seq<u8>,
    header_bytes: Seq<u8>,
    header: &VaultHeader,
    file: Seq<u8>,
)
    requires
        mk.len() == 32,
        persisted(mk, vk, data_plaintext, header_bytes, file),
        header_bytes.len() <= u32::MAX,
        data_plaintext.len() + 28 <= u32::MAX,
        argon2_ok(password, header.kdf_memory_kb, header.kdf_iterations, header.kdf_parallelism),
        header_master_key(password, header) == mk,
        unwrapped(mk, header.vk_wrapped_classical@) == Some(vk),
    ensures
        layout_of(file) == Some((FILE_LAYOUT_VERSION, 15 + header_bytes.len() as int)),
        open_outcome(password, file, FILE_LAYOUT_VERSION, 15 + header_bytes.len() as int, header) == Ok::<(Seq<u8>, Seq<u8>, Seq<u8>), CypheriaError>((mk, vk, data_plaintext)),
{
    let blob = choose|blob: Seq<u8>|
        sealed(vk, data_plaintext, blob) && hmac_sha256(vault_hmac_key(mk), file_body(header_bytes, blob)).len() == 32
            && file == file_body(header_bytes, blob) + hmac_sha256(vault_hmac_key(mk), file_body(header_bytes, blob));
    let body = file_body(header_bytes, blob);
    let tag = hmac_sha256(vault_hmac_key(mk), body);
    let he: int = 15 + header_bytes.len() as int;
    crate::bytes::lemma_le_u16_roundtrip(FILE_LAYOUT_VERSION);
    crate::bytes::lemma_le_u32_roundtrip(header_bytes.len() as u32);
    assert(file.take(9) =~= MAGIC@);
    assert(file.subrange(9, 11) =~= le_u16(FILE_LAYOUT_VERSION));
    assert(file.subrange(11, 15) =~= le_u32(header_bytes.len() as u32));
    assert(file.take(file.len() - 32) =~= body);
    assert(file.subrange(file.len() - 32, file.len() as int) =~= tag);
    assert(file.subrange(he + 4, file.len() - 32) =~= blob);
    aes::lemma_open_sealed(vk, data_plaintext, blob);
}


/// Upgrading a file keeps the vault: when a layout-1 file opens with
/// `password` to a master key, a vault key and the data's plaintext, the
/// layout-2 file that `encode_vault_file` writes from them (with the same
/// header) opens with the same password to the same keys and data.
/// `open_vault_file` ensures the key length and the data bound that this
/// asks for.
pub proof fn lemma_upgrade_reopens(
    password: Seq<u8>,
    old_file: Seq<u8>,
    old_header_end: int,
    header: &VaultHeader,
    mk: Seq<u8>,
    vk: Seq<u8>,
    data_plaintext: Seq<u8>,
    header_bytes: Seq<u8>,
    new_file: Seq<u8>,
)
    requires
        open_outcome(password, old_file, 1, old_header_end, header) == Ok::<(Seq<u8>, Seq<u8>, Seq<u8>), CypheriaError>((mk, vk, data_plaintext)),
        mk.len() == 32,
        persisted(mk, vk, data_plaintext, header_bytes, new_file),
        header_bytes.len() <= u32::MAX,
        data_plaintext.len() + 28 <= u32::MAX,
    ensures
        layout_of(new_file) == Some((FILE_LAYOUT_VERSION, 15 + header_bytes.len() as int)),
        open_outcome(password, new_file, FILE_LAYOUT_VERSION, 15 + header_bytes.len() as int, header) == Ok::<(Seq<u8>, Seq<u8>, Seq<u8>), CypheriaError>((mk, vk, data_plaintext)),
{
    lemma_reopen_persisted(password, mk, vk, data_plaintext, header_bytes, header, new_file);
}

/// The authenticated head of a layout-1 file: magic, version 1, header
/// length and header.
pub open spec fn layout1_head(header_bytes: Seq<u8>) -> Seq<u8> {
    MAGIC@ + le_u16(1) + le_u32(header_bytes.len() as u32) + header_bytes
}

/// A layout-1 file as the earlier writer laid it out: the head, its
/// HMAC-SHA256 under the master key's integrity subkey right after the
/// header, then the data length and the sealed data.
pub open spec fn layout1_file(header_bytes: Seq<u8>, mk: Seq<u8>, blob: Seq<u8>) -> Seq<u8> {
    layout1_head(header_bytes) + hmac_sha256(vault_hmac_key(mk), layout1_head(header_bytes)) + le_u32(blob.len() as u32) + blob
}

/// A layout-1 file opens: when the header protects vault key `vk` under
/// `password` (the password derives `mk`, which unwraps `vk`) and the data
/// `p` is sealed under `vk`, the file that the earlier writer produced
/// opens with that password to the master key, the vault key and `p`.
pub proof fn lemma_layout1_opens(
    password: Seq<u8>,
    mk: Seq<u8>,
    vk: Seq<u8>,
    p: Seq<u8>,
    blob: Seq<u8>,
    header_bytes: Seq<u8>,
    header: &VaultHeader,
)
    requires
        argon2_ok(password, header.kdf_memory_kb, header.kdf_iterations, header.kdf_parallelism),
        header_master_key(password, header) == mk,
        unwrapped(mk, header.vk_wrapped_classical@) == Some(vk),
        sealed(vk, p, blob),
        hmac_sha256(vault_hmac_key(mk), layout1_head(header_bytes)).len() == 32,
        header_bytes.len() <= u32::MAX,
        blob.len() <= u32::MAX,
    ensures
        layout_of(layout1_file(header_bytes, mk, blob)) == Some((1u16, 15 + header_bytes.len() as int)),
        open_outcome(password, layout1_file(header_bytes, mk, blob), 1, 15 + header_bytes.len() as int, header)
            == Ok::<(Seq<u8>, Seq<u8>, Seq<u8>), CypheriaError>((mk, vk, p)),
{
    let head = layout1_head(header_bytes);
    let tag = hmac_sha256(vault_hmac_key(mk), head);
    let file = layout1_file(header_bytes, mk, blob);
    let he: int = 15 + header_bytes.len() as int;
    crate::bytes::lemma_le_u16_roundtrip(1u16);
    crate::bytes::lemma_le_u32_roundtrip(header_bytes.len() as u32);
    crate::bytes::lemma_le_u32_roundtrip(blob.len() as u32);
    assert(head.len() == he);
    assert(file.take(9) =~= MAGIC@);
    assert(file.subrange(9, 11) =~= le_u16(1));
    assert(file.subrange(11, 15) =~= le_u32(header_bytes.len() as u32));
    assert(file.take(he) =~= head);
    assert(file.subrange(he, he + 32) =~= tag);
    assert(file.subrange(he + 32, he + 36) =~= le_u32(blob.len() as u32));
    assert(file.subrange(he + 36, he + 36 + blob.len()) =~= blob);
    aes::lemma_open_sealed(vk, p, blob);
}

} // verus!
