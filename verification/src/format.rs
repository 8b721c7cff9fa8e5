//! File format identification from magic numbers and container contents.
use vstd::prelude::*;
use crate::model::{
    Architecture, BinaryFormat, BinaryIdentity, IdentityView, OperatingSystem,
};
use crate::text::{
    ascii_seq, bytes_have, bytes_start_with, contains_seq, copy_opt_string, find_seq, has, hex_byte,
    opt_view, owned, push_hex_fixed, starts_with_seq, str_chars, strings_view,
};

verus! {

// ---------------------------------------------------------------------------
// Outside calls
// ---------------------------------------------------------------------------

/// The MIME type `infer::get` reports for a buffer, if it knows one.
pub uninterp spec fn infer_mime(data: Seq<u8>) -> Option<Seq<char>>;

/// The names of the entries of a ZIP archive that can be opened, or `None`
/// when `zip::ZipArchive::new` cannot read the buffer as an archive.
pub uninterp spec fn zip_names(data: Seq<u8>) -> Option<Seq<Seq<char>>>;

/// Calls `infer::get` and returns the MIME type of the match. The result is
/// named, not stated: it is whatever `infer`'s matcher table decides for these
/// bytes.
#[verifier::external_body]
fn sniff_mime(data: &[u8]) -> (r: Option<String>)
    ensures
        opt_view(r) == infer_mime(data@),
{
    infer::get(data).map(|t| t.mime_type().to_string())
}

/// The view of optional entry names.
pub open spec fn names_view(r: Option<Vec<String>>) -> Option<Seq<Seq<char>>> {
    match r {
        Some(v) => Some(strings_view(v@)),
        None => None,
    }
}

/// Opens the buffer with `zip::ZipArchive::new` and lists, in order, the
/// names of the entries that `ZipArchive::by_index` can open (encrypted or
/// unsupported entries, and names that do not decode, are skipped). The result is named, not stated: it is
/// what the `zip` crate reads from the archive.
#[verifier::external_body]
fn read_zip_names(data: &[u8]) -> (r: Option<Vec<String>>)
    ensures
        names_view(r) == zip_names(data@),
{
    let mut reader = zip::ZipArchive::new(std::io::Cursor::new(data)).ok()?;
    Some((0..reader.len()).filter_map(|i| reader.by_index(i).ok().and_then(|f| f.name().ok().map(|n| n.to_string()))).collect())
}

// ---------------------------------------------------------------------------
// Specs
// ---------------------------------------------------------------------------

/// Some entry name contains some needle.
pub open spec fn names_contain_any(names: Seq<Seq<char>>, needles: Seq<Seq<char>>) -> bool {
    exists|i: int, j: int|
        0 <= i < needles.len() && 0 <= j < names.len() && contains_seq(names[j], needles[i])
}

/// An archive that holds an Android manifest or DEX code.
pub open spec fn apk_names(names: Option<Seq<Seq<char>>>) -> bool {
    match names {
        Some(n) => names_contain_any(n, seq!["AndroidManifest.xml"@, "classes.dex"@]),
        None => false,
    }
}

/// An archive that holds a Java manifest.
pub open spec fn jar_names(names: Option<Seq<Seq<char>>>) -> bool {
    match names {
        Some(n) => names_contain_any(n, seq!["META-INF/MANIFEST.MF"@]),
        None => false,
    }
}

pub open spec fn magic_at(data: Seq<u8>, m: Seq<u8>) -> bool {
    data.len() >= m.len() && data.subrange(0, m.len() as int) == m
}

pub open spec fn is_zip(data: Seq<u8>) -> bool {
    magic_at(data, seq![0x50u8, 0x4b, 0x03, 0x04])
}

pub open spec fn is_mz(data: Seq<u8>) -> bool {
    data.len() >= 2 && data[0] == 0x4d && data[1] == 0x5a
}

pub open spec fn is_elf(data: Seq<u8>) -> bool {
    magic_at(data, seq![0x7fu8, 0x45, 0x4c, 0x46])
}

pub open spec fn is_macho(data: Seq<u8>) -> bool {
    magic_at(data, seq![0xfeu8, 0xed, 0xfa, 0xce]) || magic_at(data, seq![0xceu8, 0xfa, 0xed, 0xfe])
        || magic_at(data, seq![0xfeu8, 0xed, 0xfa, 0xcf]) || magic_at(
        data,
        seq![0xcfu8, 0xfa, 0xed, 0xfe],
    ) || magic_at(data, seq![0xcau8, 0xfe, 0xba, 0xbe]) || magic_at(
        data,
        seq![0xbeu8, 0xba, 0xfe, 0xca],
    )
}

/// An OLE compound file, the container of MSI installers.
pub open spec fn is_msi(data: Seq<u8>) -> bool {
    magic_at(data, seq![0xd0u8, 0xcf, 0x11, 0xe0, 0xa1, 0xb1, 0x1a, 0xe1])
}

/// A firmware image: UBI or SquashFS markers, or an Android boot image.
pub open spec fn is_firmware(data: Seq<u8>) -> bool {
    data.len() >= 16 && (contains_seq(data, ascii_seq("UBI#"@)) || contains_seq(
        data,
        ascii_seq("hsqs"@),
    ) || starts_with_seq(data, ascii_seq("ANDROID!"@)))
}

/// The first four bytes in hexadecimal, or `unknown` for shorter input.
pub open spec fn spec_magic(data: Seq<u8>) -> Seq<char> {
    if data.len() < 4 {
        "unknown"@
    } else {
        hex_byte(data[0]) + hex_byte(data[1]) + hex_byte(data[2]) + hex_byte(data[3])
    }
}

/// An identity with nothing known beyond what is given.
pub open spec fn plain_identity(
    format: BinaryFormat,
    endianness: Seq<char>,
    os: OperatingSystem,
    mime: Option<Seq<char>>,
) -> IdentityView {
    IdentityView {
        format,
        architecture: Architecture::Unknown,
        endianness,
        bits: 0,
        os,
        is_dll: false,
        is_driver: false,
        is_shared_object: false,
        entry_point: None,
        image_base: None,
        compiler: None,
        compiler_version: None,
        language: None,
        build_system: None,
        framework: None,
        linker: None,
        packed: false,
        packer: None,
        obfuscated: false,
        obfuscation: seq![],
        encrypted_sections: seq![],
        compressed: false,
        has_debug_symbols: false,
        has_signature: false,
        mime,
    }
}

/// The identity and magic label of a file, given what `infer` and `zip` report for it.
pub open spec fn spec_identify(
    data: Seq<u8>,
    mime: Option<Seq<char>>,
    names: Option<Seq<Seq<char>>>,
) -> (IdentityView, Seq<char>) {
    if is_zip(data) && apk_names(names) {
        (
            IdentityView {
                os: OperatingSystem::Android,
                language: Some("Java/Kotlin"@),
                build_system: Some("Gradle/Android"@),
                framework: Some("Android"@),
                compressed: true,
                ..plain_identity(BinaryFormat::Apk, "unknown"@, OperatingSystem::Android, mime)
            },
            "zip/apk"@,
        )
    } else if is_zip(data) && jar_names(names) {
        (
            IdentityView {
                compiler: Some("javac"@),
                language: Some("Java"@),
                compressed: true,
                ..plain_identity(BinaryFormat::Jar, "unknown"@, OperatingSystem::Unknown, mime)
            },
            "zip/jar"@,
        )
    } else if is_mz(data) {
        (plain_identity(BinaryFormat::Pe, "little"@, OperatingSystem::Windows, mime), "mz/pe"@)
    } else if is_elf(data) {
        (plain_identity(BinaryFormat::Elf, "unknown"@, OperatingSystem::Linux, mime), "elf"@)
    } else if is_macho(data) {
        (plain_identity(BinaryFormat::MachO, "unknown"@, OperatingSystem::MacOs, mime), "macho"@)
    } else if is_msi(data) {
        (
            IdentityView {
                build_system: Some("MSI"@),
                compressed: true,
                ..plain_identity(BinaryFormat::Msi, "little"@, OperatingSystem::Windows, mime)
            },
            "msi/cfb"@,
        )
    } else if is_firmware(data) {
        (
            plain_identity(BinaryFormat::Firmware, "unknown"@, OperatingSystem::Firmware, mime),
            spec_magic(data),
        )
    } else {
        (
            plain_identity(BinaryFormat::Raw, "unknown"@, OperatingSystem::Unknown, mime),
            spec_magic(data),
        )
    }
}

// ---------------------------------------------------------------------------
// Executable code
// ---------------------------------------------------------------------------

/// A file's identity and a short label of its magic number.
#[derive(Debug, Clone)]
pub struct IdentifiedFile {
    pub identity: BinaryIdentity,
    pub magic: String,
}

fn plain_identity_exec(
    format: BinaryFormat,
    endianness: &str,
    os: OperatingSystem,
    mime: Option<String>,
) -> (r: BinaryIdentity)
    ensures
        r@ == plain_identity(format, endianness@, os, opt_view(mime)),
{
    let r = BinaryIdentity {
        format,
        architecture: Architecture::Unknown,
        endianness: owned(endianness),
        bits: 0,
        os,
        is_dll: false,
        is_driver: false,
        is_shared_object: false,
        entry_point: None,
        image_base: None,
        compiler: None,
        compiler_version: None,
        language: None,
        build_system: None,
        framework: None,
        linker: None,
        packed: false,
        packer: None,
        obfuscated: false,
        obfuscation: Vec::new(),
        encrypted_sections: Vec::new(),
        compressed: false,
        has_debug_symbols: false,
        has_signature: false,
        mime,
    };
    proof {
        assert(strings_view(r.obfuscation@) =~= seq![]);
        assert(strings_view(r.encrypted_sections@) =~= seq![]);
        assert(r@ =~= plain_identity(format, endianness@, os, opt_view(mime)));
    }
    r
}

/// Whether some entry name contains some needle.
fn zip_contains(names: &Option<Vec<String>>, needles: &Vec<&str>) -> (r: bool)
    ensures
        r == match names_view(*names) {
            Some(n) => names_contain_any(n, needles@.map_values(|s: &str| s@)),
            None => false,
        },
{
    let ghost nd = needles@.map_values(|s: &str| s@);
    match names {
        None => false,
        Some(v) => {
            let ghost nm = strings_view(v@);
            let mut i: usize = 0;
            while i < needles.len()
                invariant
                    i <= needles@.len(),
                    nd == needles@.map_values(|s: &str| s@),
                    nm == strings_view(v@),
                    names_view(*names) == Some(nm),
                    forall|a: int, b: int|
                        0 <= a < i && 0 <= b < nm.len() ==> !contains_seq(nm[b], nd[a]),
                decreases needles@.len() - i,
            {
                let mut j: usize = 0;
                while j < v.len()
                    invariant
                        i < needles@.len(),
                        j <= v@.len(),
                        nd == needles@.map_values(|s: &str| s@),
                        nm == strings_view(v@),
                        names_view(*names) == Some(nm),
                        forall|a: int, b: int|
                            0 <= a < i && 0 <= b < nm.len() ==> !contains_seq(nm[b], nd[a]),
                        forall|b: int| 0 <= b < j ==> !contains_seq(nm[b], nd[i as int]),
                    decreases v@.len() - j,
                {
                    let name = str_chars(v[j].as_str());
                    proof {
                        assert(nm[j as int] == v@[j as int]@);
                        assert(nd[i as int] == needles@[i as int]@);
                    }
                    if has(name.as_slice(), needles[i]) {
                        proof {
                            assert(contains_seq(nm[j as int], nd[i as int]));
                            assert(names_contain_any(nm, nd));
                            assert(names_view(*names) == Some(nm));
                        }
                        return true;
                    }
                    j += 1;
                }
                i += 1;
            }
            proof {
                assert(!names_contain_any(nm, nd));
                assert(names_view(*names) == Some(nm));
            }
            false
        },
    }
}

fn is_msi_exec(data: &[u8]) -> (r: bool)
    ensures
        r == is_msi(data@),
{
    let r = data.len() >= 8 && data[0] == 0xd0 && data[1] == 0xcf && data[2] == 0x11 && data[3]
        == 0xe0 && data[4] == 0xa1 && data[5] == 0xb1 && data[6] == 0x1a && data[7] == 0xe1;
    proof {
        if data@.len() >= 8 {
            assert(r == (data@.subrange(0, 8) =~= seq![
                0xd0u8,
                0xcf,
                0x11,
                0xe0,
                0xa1,
                0xb1,
                0x1a,
                0xe1,
            ]));
        }
    }
    r
}

fn magic4(data: &[u8], a: u8, b: u8, c: u8, d: u8) -> (r: bool)
    ensures
        r == magic_at(data@, seq![a, b, c, d]),
{
    let r = data.len() >= 4 && data[0] == a && data[1] == b && data[2] == c && data[3] == d;
    proof {
        if data@.len() >= 4 {
            assert(r == (data@.subrange(0, 4) =~= seq![a, b, c, d]));
        }
    }
    r
}

/// Whether the buffer looks like a firmware image.
pub fn looks_like_firmware(data: &[u8]) -> (r: bool)
    ensures
        r == is_firmware(data@),
{
    data.len() >= 16 && (bytes_have(data, "UBI#") || bytes_have(data, "hsqs") || bytes_start_with(
        data,
        "ANDROID!",
    ))
}

/// Whether the buffer is an OLE compound file (an MSI installer).
pub fn looks_like_msi(data: &[u8]) -> (r: bool)
    ensures
        r == is_msi(data@),
{
    is_msi_exec(data)
}

/// The first four bytes in lowercase hexadecimal, or `unknown`.
pub fn detect_magic(data: &[u8]) -> (r: String)
    ensures
        r@ == spec_magic(data@),
{
    if data.len() < 4 {
        return owned("unknown");
    }
    let mut s = String::new();
    push_hex_fixed(&mut s, data[0] as u64, 2);
    push_hex_fixed(&mut s, data[1] as u64, 2);
    push_hex_fixed(&mut s, data[2] as u64, 2);
    push_hex_fixed(&mut s, data[3] as u64, 2);
    proof {
        assert(s@ =~= spec_magic(data@));
    }
    s
}

/// Identifies a file from its bytes and from what `infer` and `zip` report
/// for them: the identity and magic label that `spec_identify` gives.
pub fn identify_with(data: &[u8], mime: Option<String>, names: Option<Vec<String>>) -> (r:
    IdentifiedFile)
    ensures
        (r.identity@, r.magic@) == spec_identify(data@, opt_view(mime), names_view(names)),
{
    let zip = magic4(data, 0x50, 0x4b, 0x03, 0x04);
    if zip {
        let apk_needles: Vec<&str> = vec!["AndroidManifest.xml", "classes.dex"];
        proof {
            assert(apk_needles@.map_values(|s: &str| s@) =~= seq![
                "AndroidManifest.xml"@,
                "classes.dex"@,
            ]);
        }
        if zip_contains(&names, &apk_needles) {
            let mut id = plain_identity_exec(
                BinaryFormat::Apk,
                "unknown",
                OperatingSystem::Android,
                mime,
            );
            id.language = Some(owned("Java/Kotlin"));
            id.build_system = Some(owned("Gradle/Android"));
            id.framework = Some(owned("Android"));
            id.compressed = true;
            let r = IdentifiedFile { identity: id, magic: owned("zip/apk") };
            proof {
                assert(r.identity@ =~= spec_identify(data@, opt_view(mime), names_view(names)).0);
            }
            return r;
        }
        let jar_needles: Vec<&str> = vec!["META-INF/MANIFEST.MF"];
        proof {
            assert(jar_needles@.map_values(|s: &str| s@) =~= seq!["META-INF/MANIFEST.MF"@]);
        }
        if zip_contains(&names, &jar_needles) {
            let mut id = plain_identity_exec(
                BinaryFormat::Jar,
                "unknown",
                OperatingSystem::Unknown,
                mime,
            );
            id.compiler = Some(owned("javac"));
            id.language = Some(owned("Java"));
            id.compressed = true;
            let r = IdentifiedFile { identity: id, magic: owned("zip/jar") };
            proof {
                assert(r.identity@ =~= spec_identify(data@, opt_view(mime), names_view(names)).0);
            }
            return r;
        }
    }
    if data.len() >= 2 && data[0] == 0x4d && data[1] == 0x5a {
        return IdentifiedFile {
            identity: plain_identity_exec(BinaryFormat::Pe, "little", OperatingSystem::Windows, mime),
            magic: owned("mz/pe"),
        };
    }
    if magic4(data, 0x7f, 0x45, 0x4c, 0x46) {
        return IdentifiedFile {
            identity: plain_identity_exec(BinaryFormat::Elf, "unknown", OperatingSystem::Linux, mime),
            magic: owned("elf"),
        };
    }
    if magic4(data, 0xfe, 0xed, 0xfa, 0xce) || magic4(data, 0xce, 0xfa, 0xed, 0xfe) || magic4(
        data,
        0xfe,
        0xed,
        0xfa,
        0xcf,
    ) || magic4(data, 0xcf, 0xfa, 0xed, 0xfe) || magic4(data, 0xca, 0xfe, 0xba, 0xbe) || magic4(
        data,
        0xbe,
        0xba,
        0xfe,
        0xca,
    ) {
        return IdentifiedFile {
            identity: plain_identity_exec(
                BinaryFormat::MachO,
                "unknown",
                OperatingSystem::MacOs,
                mime,
            ),
            magic: owned("macho"),
        };
    }
    if is_msi_exec(data) {
        let mut id = plain_identity_exec(BinaryFormat::Msi, "little", OperatingSystem::Windows, mime);
        id.build_system = Some(owned("MSI"));
        id.compressed = true;
        let r = IdentifiedFile { identity: id, magic: owned("msi/cfb") };
        proof {
            assert(r.identity@ =~= spec_identify(data@, opt_view(mime), names_view(names)).0);
        }
        return r;
    }
    let magic = detect_magic(data);
    if looks_like_firmware(data) {
        IdentifiedFile {
            identity: plain_identity_exec(
                BinaryFormat::Firmware,
                "unknown",
                OperatingSystem::Firmware,
                mime,
            ),
            magic,
        }
    } else {
        IdentifiedFile {
            identity: plain_identity_exec(BinaryFormat::Raw, "unknown", OperatingSystem::Unknown, mime),
            magic,
        }
    }
}

/// Identifies a file from its bytes: format, operating system and traits
/// known from magic numbers, ZIP contents and the MIME type `infer` reports.
pub fn identify(data: &[u8]) -> (r: IdentifiedFile)
    ensures
        (r.identity@, r.magic@) == spec_identify(
            data@,
            infer_mime(data@),
            if is_zip(data@) { zip_names(data@) } else { None },
        ),
{
    let mime = sniff_mime(data);
    let names = if magic4(data, 0x50, 0x4b, 0x03, 0x04) {
        read_zip_names(data)
    } else {
        None
    };
    identify_with(data, mime, names)
}

/// The executable format is decided by the magic number alone whenever the
/// file is not a ZIP archive: `MZ` gives PE on Windows, `\x7fELF` gives ELF on
/// Linux, a Mach-O magic gives Mach-O on macOS.
pub proof fn law_magic_decides(
    data: Seq<u8>,
    mime: Option<Seq<char>>,
    names: Option<Seq<Seq<char>>>,
)
    requires
        !is_zip(data),
    ensures
        is_mz(data) ==> spec_identify(data, mime, names).0.format == BinaryFormat::Pe
            && spec_identify(data, mime, names).0.os == OperatingSystem::Windows,
        !is_mz(data) && is_elf(data) ==> spec_identify(data, mime, names).0.format
            == BinaryFormat::Elf && spec_identify(data, mime, names).0.os == OperatingSystem::Linux,
        !is_mz(data) && !is_elf(data) && is_macho(data) ==> spec_identify(data, mime, names).0.format
            == BinaryFormat::MachO,
        spec_identify(data, mime, names).0.mime == mime,
{
}

/// The CPU architecture and word size for a machine number, read as a PE
/// (COFF) machine when `is_pe` and as an ELF `e_machine` otherwise.
pub open spec fn spec_map_machine(machine: u16, is_pe: bool) -> (Architecture, u8) {
    if is_pe {
        if machine == 0x014c {
            (Architecture::X86, 32)
        } else if machine == 0x8664 {
            (Architecture::X64, 64)
        } else if machine == 0x01c0 || machine == 0x01c4 {
            (Architecture::Arm, 32)
        } else if machine == 0xAA64 {
            (Architecture::Arm64, 64)
        } else if machine == 0x0166 || machine == 0x0266 {
            (Architecture::Mips, 32)
        } else if machine == 0x01F0 {
            (Architecture::PowerPc, 32)
        } else if machine == 0x5064 {
            (Architecture::RiscV, 64)
        } else {
            (Architecture::Unknown, 0)
        }
    } else {
        if machine == 3 {
            (Architecture::X86, 32)
        } else if machine == 62 {
            (Architecture::X64, 64)
        } else if machine == 40 {
            (Architecture::Arm, 32)
        } else if machine == 183 {
            (Architecture::Arm64, 64)
        } else if machine == 8 || machine == 10 {
            (Architecture::Mips, 32)
        } else if machine == 20 || machine == 21 {
            (Architecture::PowerPc, 32)
        } else if machine == 243 {
            (Architecture::RiscV, 64)
        } else {
            (Architecture::Unknown, 0)
        }
    }
}

/// The CPU architecture and word size for a PE or ELF machine number.
pub fn map_machine(machine: u16, is_pe: bool) -> (r: (Architecture, u8))
    ensures
        r == spec_map_machine(machine, is_pe),
{
    if is_pe {
        match machine {
            0x014c => (Architecture::X86, 32),
            0x8664 => (Architecture::X64, 64),
            0x01c0 | 0x01c4 => (Architecture::Arm, 32),
            0xAA64 => (Architecture::Arm64, 64),
            0x0166 | 0x0266 => (Architecture::Mips, 32),
            0x01F0 => (Architecture::PowerPc, 32),
            0x5064 => (Architecture::RiscV, 64),
            _ => (Architecture::Unknown, 0),
        }
    } else {
        match machine {
            3 => (Architecture::X86, 32),
            62 => (Architecture::X64, 64),
            40 => (Architecture::Arm, 32),
            183 => (Architecture::Arm64, 64),
            8 | 10 => (Architecture::Mips, 32),
            20 | 21 => (Architecture::PowerPc, 32),
            243 => (Architecture::RiscV, 64),
            _ => (Architecture::Unknown, 0),
        }
    }
}

/// A known architecture always comes with a 32- or 64-bit word size, and an
/// unknown machine with size 0.
pub proof fn law_machine_bits(machine: u16, is_pe: bool)
    ensures
        spec_map_machine(machine, is_pe).0 == Architecture::Unknown <==> spec_map_machine(
            machine,
            is_pe,
        ).1 == 0,
        spec_map_machine(machine, is_pe).1 == 0 || spec_map_machine(machine, is_pe).1 == 32
            || spec_map_machine(machine, is_pe).1 == 64,
{
}

} // verus!
