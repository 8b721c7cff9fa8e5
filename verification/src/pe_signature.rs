//! Authenticode presence detection from the PE security data directory.
use vstd::prelude::*;
use crate::model::DigitalSignatureInfo;
use crate::text::{opt_view, owned};

verus! {

/// Little-endian 16-bit value at `i`.
pub open spec fn le16(d: Seq<u8>, i: int) -> int {
    d[i] as int + d[i + 1] as int * 256
}

/// Little-endian 32-bit value at `i`.
pub open spec fn le32(d: Seq<u8>, i: int) -> int {
    d[i] as int + d[i + 1] as int * 256 + d[i + 2] as int * 65536 + d[i + 3] as int * 16777216
}

/// Offset of the security data directory entry for a PE at `pe` with
/// optional-header magic `magic`, or `None` for an unknown magic.
pub open spec fn security_entry(pe: int, magic: int) -> Option<int> {
    if magic == 0x10b {
        Some(pe + 24 + 128)
    } else if magic == 0x20b {
        Some(pe + 24 + 144)
    } else {
        None
    }
}

/// The file has an `MZ` header pointing at a `PE\0\0` header whose optional
/// header (PE32 or PE32+) has a non-empty security data directory.
pub open spec fn spec_has_security_dir(d: Seq<u8>) -> bool {
    if d.len() < 0x40 || d[0] != 0x4d || d[1] != 0x5a {
        false
    } else {
        let pe = le32(d, 0x3c);
        if pe + 24 > d.len() || !(d[pe] == 0x50 && d[pe + 1] == 0x45 && d[pe + 2] == 0 && d[pe + 3]
            == 0) {
            false
        } else if pe + 26 > d.len() {
            false
        } else {
            match security_entry(pe, le16(d, pe + 24)) {
                None => false,
                Some(dd) => dd + 8 <= d.len() && le32(d, dd) != 0 && le32(d, dd + 4) != 0,
            }
        }
    }
}

fn read_le16(d: &[u8], i: u64) -> (r: u64)
    requires
        i + 2 <= d@.len(),
    ensures
        r == le16(d@, i as int),
{
    let k = i as usize;
    d[k] as u64 + d[k + 1] as u64 * 256
}

fn read_le32(d: &[u8], i: u64) -> (r: u64)
    requires
        i + 4 <= d@.len(),
    ensures
        r == le32(d@, i as int),
{
    let k = i as usize;
    d[k] as u64 + d[k + 1] as u64 * 256 + d[k + 2] as u64 * 65536 + d[k + 3] as u64 * 16777216
}

/// Whether the PE file declares an Authenticode security directory.
pub fn pe_has_security_directory(data: &[u8]) -> (r: bool)
    ensures
        r == spec_has_security_dir(data@),
{
    let len = data.len() as u64;
    if len < 0x40 || data[0] != 0x4d || data[1] != 0x5a {
        return false;
    }
    let pe = read_le32(data, 0x3c);
    if pe + 24 > len {
        return false;
    }
    let p = pe as usize;
    if !(data[p] == 0x50 && data[p + 1] == 0x45 && data[p + 2] == 0 && data[p + 3] == 0) {
        return false;
    }
    if pe + 26 > len {
        return false;
    }
    let magic = read_le16(data, pe + 24);
    let dd = if magic == 0x10b {
        pe + 24 + 128
    } else if magic == 0x20b {
        pe + 24 + 144
    } else {
        return false;
    };
    if dd + 8 > len {
        return false;
    }
    let rva = read_le32(data, dd);
    let size = read_le32(data, dd + 4);
    rva != 0 && size != 0
}

/// Detects whether a PE file carries an Authenticode directory; certificate
/// details are not read, so only `present` and `algorithm` are ever set.
pub fn detect_pe_signature(data: &[u8]) -> (r: DigitalSignatureInfo)
    ensures
        r.present == spec_has_security_dir(data@),
        r.present ==> opt_view(r.algorithm) == Some("Authenticode"@),
        !r.present ==> r.algorithm is None,
        r.valid is None && r.subject is None && r.issuer is None && r.serial is None
            && r.not_before is None && r.not_after is None,
{
    let present = pe_has_security_directory(data);
    DigitalSignatureInfo {
        present,
        valid: None,
        subject: None,
        issuer: None,
        serial: None,
        not_before: None,
        not_after: None,
        algorithm: if present {
            Some(owned("Authenticode"))
        } else {
            None
        },
    }
}

/// A directory is only ever found behind both headers: the file starts with
/// `MZ` and is at least 64 bytes long.
pub proof fn law_security_dir_needs_headers(d: Seq<u8>)
    ensures
        spec_has_security_dir(d) ==> d.len() >= 0x40 && d[0] == 0x4d && d[1] == 0x5a,
{
}

} // verus!
