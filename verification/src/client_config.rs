//! The decisions of the client-config commands: which scanned executable
//! to report for the BattleEye gate and the RSA modulus, and the `[URLS]`
//! entries of `config.ini`.
use crate::battleye::{self, BeStatus};
use crate::config_ini::{entry_view, read_section_text, rewrite_section, spec_read_section, spec_rewrite, IniEntry};
use crate::rsa::{self, RsaStatus};
use vstd::prelude::*;

verus! {

/// The section of `config.ini` that holds the client's URLs.
pub const URLS_SECTION: &'static str = "URLS";

/// What a scan of the client executables found for the BattleEye gate.
pub struct BattleEyeInfo {
    /// The executable that holds the BattleEye check, if one was found.
    pub exe_path: Option<String>,
    pub status: BeStatus,
    /// The executables that were scanned.
    pub scanned: Vec<String>,
}

/// What a scan of the client executables found for the RSA modulus.
pub struct RsaInfo {
    /// The executable that holds the modulus, if one was found.
    pub exe_path: Option<String>,
    pub status: RsaStatus,
    pub scanned: Vec<String>,
}

/// The `[URLS]` entries of a client's `config.ini`.
pub struct ClientUrls {
    /// Path of the `config.ini` that was read.
    pub config_path: String,
    pub entries: Vec<IniEntry>,
}

/// What one scanned executable means for a scan: the item was found there
/// (stop and report it), it failed (stop with the error), or the scan goes
/// on to the next executable.
pub enum ScanStep<T> {
    Found(T),
    Failed(String),
    Next,
}

/// Scan one executable for the BattleEye gate: a unique match is found, an
/// ambiguous one fails the scan, none moves on.
pub fn battleye_scan_step(bytes: &[u8]) -> (r: ScanStep<BeStatus>)
    ensures
        match battleye::spec_detect(bytes@) {
            Ok(Some(off)) => r matches ScanStep::Found(s) && s.found && s.offset == Some(off as usize) && s.enabled == Some(
                bytes@[off] == battleye::JNZ,
            ) && (s.signature matches Some(n) && n@ == "cmp[reg+disp32],0;jcc0F;call"@),
            Ok(None) => r is Next,
            Err(_) => r matches ScanStep::Failed(e) && e@ == battleye::ambiguous_text("cmp[reg+disp32],0;jcc0F;call"@),
        },
{
    match battleye::detect(bytes) {
        Ok(status) => if status.found {
            ScanStep::Found(status)
        } else {
            ScanStep::Next
        },
        Err(e) => ScanStep::Failed(e),
    }
}

/// The report of a scan in which no executable holds the BattleEye check.
pub fn battleye_not_found(scanned: Vec<String>) -> (r: BattleEyeInfo)
    ensures
        r.exe_path is None,
        !r.status.found && r.status.enabled is None && r.status.offset is None && r.status.signature is None,
        r.scanned@ == scanned@,
{
    BattleEyeInfo { exe_path: None, status: BeStatus::not_found(), scanned }
}

/// Scan one executable for the RSA modulus: a unique modulus is found, an
/// ambiguous one fails the scan, none moves on.
pub fn rsa_scan_step(bytes: &[u8]) -> (r: ScanStep<RsaStatus>)
    ensures
        match rsa::spec_detect(bytes@) {
            Ok(Some(off)) => r matches ScanStep::Found(s) && s.found && s.offset == Some(off as usize) && (
            s.modulus matches Some(m) && m@ == rsa::modulus_at(bytes@, off) && s.is_ot_default == (m@
                == rsa::OT_DEFAULT_MODULUS@)),
            Ok(None) => r is Next,
            Err(_) => r matches ScanStep::Failed(e) && e@ == rsa::candidates_text(rsa::modulus_cands(bytes@).len()),
        },
{
    match rsa::detect(bytes) {
        Ok(status) => if status.found {
            ScanStep::Found(status)
        } else {
            ScanStep::Next
        },
        Err(e) => ScanStep::Failed(e),
    }
}

/// The report of a scan in which no executable holds the modulus.
pub fn rsa_not_found(scanned: Vec<String>) -> (r: RsaInfo)
    ensures
        r.exe_path is None,
        !r.status.found && r.status.modulus is None && r.status.offset is None && !r.status.is_ot_default,
        r.scanned@ == scanned@,
{
    RsaInfo { exe_path: None, status: RsaStatus::not_found(), scanned }
}

/// The `[URLS]` entries of the `config.ini` text read from `config_path`, in
/// file order.
pub fn client_urls(config_path: String, text: &str) -> (r: ClientUrls)
    ensures
        r.config_path@ == config_path@,
        r.entries@.map_values(|e: IniEntry| entry_view(e)) == spec_read_section(text@, URLS_SECTION@),
{
    ClientUrls { config_path, entries: read_section_text(text, URLS_SECTION) }
}

/// The `config.ini` text with the values of the given `[URLS]` keys
/// replaced; keys not already present are ignored and the rest of the text
/// is kept.
pub fn save_client_urls_text(original: &str, entries: &[IniEntry]) -> (r: String)
    ensures
        r@ == spec_rewrite(original@, URLS_SECTION@, entries@.map_values(|e: IniEntry| entry_view(e))),
{
    rewrite_section(original, URLS_SECTION, entries)
}

} // verus!
