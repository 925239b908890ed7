//! Vault management: checking that a file looks like a vault before it is
//! opened, the header metadata shown on the lock screen, and the checks
//! before a vault file is exported. Files are read and copied outside the
//! library.
use vstd::prelude::*;
use crate::bytes::starts_with;
use crate::error::{invalid_input, CypheriaError};
use crate::text::{clone_string, str_eq};
use crate::time::{rfc3339, to_rfc3339};
use crate::vault::format::{VaultHeader, MAGIC};

verus! {

/// The smallest file that can hold a vault.
pub const MIN_VAULT_FILE_LEN: u64 = 200;

/// The header metadata shown before the vault is unlocked. It holds no
/// secret: the name and the creation time are stored in plaintext.
#[derive(Debug)]
pub struct VaultMetaView {
    pub vault_name: String,
    pub created_at: String,
    pub format_version: u16,
}

pub open spec fn export_to_self_text() -> Seq<char> {
    "Cannot export vault to its own location. Choose a different path."@
}

/// Checks a file before it is opened as a vault: `head` is what the first
/// 9 bytes of the file read as (shorter when the file is), and `file_len`
/// its length. The file must start with the magic bytes and hold at least
/// 200 bytes; otherwise it is `VaultCorrupted`.
pub fn check_vault_file(head: &[u8], file_len: u64) -> (r: Result<(), CypheriaError>)
    ensures
        r is Ok <==> (head@.len() >= 9 && head@.take(9) == MAGIC@ && file_len >= MIN_VAULT_FILE_LEN),
        r matches Err(e) ==> e == CypheriaError::VaultCorrupted,
{
    if !starts_with(head, &MAGIC) {
        return Err(CypheriaError::VaultCorrupted);
    }
    if file_len < MIN_VAULT_FILE_LEN {
        return Err(CypheriaError::VaultCorrupted);
    }
    Ok(())
}

/// The metadata of a vault header: its name, its creation time in RFC 3339
/// form and its format version.
pub fn vault_meta(header: &VaultHeader) -> (m: VaultMetaView)
    requires
        header.created_at.valid(),
    ensures
        m.vault_name@ == header.vault_name@,
        m.created_at@ == rfc3339(header.created_at.secs, header.created_at.nanos),
        m.format_version == header.format_version,
{
    VaultMetaView {
        vault_name: clone_string(&header.vault_name),
        created_at: to_rfc3339(header.created_at),
        format_version: header.format_version,
    }
}

/// The characters of an optional path.
pub open spec fn opt_text(o: Option<String>) -> Option<Seq<char>> {
    match o {
        Some(s) => Some(s@),
        None => None,
    }
}

/// Refuses to export the vault onto itself. `destination` and `vault` are
/// the canonical forms of the two paths, nothing where a path cannot be
/// made canonical; two that are equal (both absent included) are refused.
pub fn check_export_destination(destination: &Option<String>, vault: &Option<String>) -> (r: Result<(), CypheriaError>)
    ensures
        r is Ok <==> opt_text(*destination) != opt_text(*vault),
        r matches Err(e) ==> (e matches CypheriaError::InvalidInput(m) && m@ == export_to_self_text()),
{
    let same = match (destination, vault) {
        (Some(d), Some(v)) => str_eq(d.as_str(), v.as_str()),
        (None, None) => true,
        _ => false,
    };
    if same {
        Err(invalid_input("Cannot export vault to its own location. Choose a different path."))
    } else {
        Ok(())
    }
}

} // verus!
