//! The domain model shared by the analysis engines: formats, architectures,
//! risk levels, findings and their evidence.
//!
//! Confidences and scores are held in hundredths (`85` stands for 0.85) and
//! entropies in thousandths of a bit per byte (`7250` stands for 7.25), so that
//! every rule that compares or prints them is exact integer logic.
use vstd::prelude::*;
use crate::text::{copy_opt_string, opt_view, strings_view};

verus! {

#[derive(Debug, Clone, Copy, PartialEq, Eq, Structural)]
pub enum BinaryFormat {
    Pe,
    Elf,
    MachO,
    Apk,
    Aab,
    Jar,
    Msi,
    Firmware,
    Bootloader,
    KernelModule,
    Raw,
    Unknown,
}

#[derive(Debug, Clone, Copy, PartialEq, Eq, Structural)]
pub enum Architecture {
    X86,
    X64,
    Arm,
    Arm64,
    Mips,
    PowerPc,
    RiscV,
    Unknown,
}

#[derive(Debug, Clone, Copy, PartialEq, Eq, Structural)]
pub enum OperatingSystem {
    Windows,
    Linux,
    MacOs,
    Android,
    Ios,
    FreeBsd,
    Firmware,
    Unknown,
}

#[derive(Debug, Clone, Copy, PartialEq, Eq, Structural)]
pub enum RiskLevel {
    Info,
    Low,
    Medium,
    High,
    Critical,
}

#[derive(Debug, Clone, Copy, PartialEq, Eq, Structural)]
pub enum StringCategory {
    Generic,
    Url,
    Domain,
    Ip,
    Email,
    Path,
    Registry,
    Mutex,
    Service,
    ApiKey,
    Credential,
    Jwt,
    Certificate,
    UserAgent,
    Command,
    Crypto,
    Other,
}

#[derive(Debug, Clone, Copy, PartialEq, Eq, Structural)]
pub enum NetworkKind {
    Url,
    Domain,
    Ip,
    Port,
    NamedPipe,
    Email,
}

#[derive(Debug, Clone, Copy, PartialEq, Eq, Structural)]
pub enum MalwareFamily {
    Ransomware,
    Loader,
    Crypter,
    Trojan,
    Stealer,
    Miner,
    Rat,
    Botnet,
    Dropper,
    Rootkit,
    Worm,
    Keylogger,
    Banker,
    Spyware,
    Adware,
    Packer,
    Benign,
    Unknown,
}

#[derive(Debug, Clone, Copy, PartialEq, Eq, Structural)]
pub enum Role {
    Owner,
    Admin,
    Analyst,
    Viewer,
}

#[derive(Debug, Clone, Copy, PartialEq, Eq, Structural)]
pub enum ReportKind {
    Executive,
    Technical,
    ReverseEngineering,
    Malware,
    Dfir,
    ThreatIntelligence,
    Sbom,
    Ioc,
    Yara,
    Sigma,
}

#[derive(Debug, Clone, Copy, PartialEq, Eq, Structural)]
pub enum ReportFormat {
    Markdown,
    Html,
    Pdf,
    Json,
    Sarif,
}

// ---------------------------------------------------------------------------
// Debug names (what `{:?}` prints for each variant)
// ---------------------------------------------------------------------------

pub open spec fn risk_name(r: RiskLevel) -> Seq<char> {
    match r {
        RiskLevel::Info => "Info"@,
        RiskLevel::Low => "Low"@,
        RiskLevel::Medium => "Medium"@,
        RiskLevel::High => "High"@,
        RiskLevel::Critical => "Critical"@,
    }
}

impl RiskLevel {
    /// The variant's name as `{:?}` prints it.
    pub fn name(self) -> (r: &'static str)
        ensures
            r@ == risk_name(self),
    {
        match self {
            RiskLevel::Info => "Info",
            RiskLevel::Low => "Low",
            RiskLevel::Medium => "Medium",
            RiskLevel::High => "High",
            RiskLevel::Critical => "Critical",
        }
    }
}

pub open spec fn category_name(c: StringCategory) -> Seq<char> {
    match c {
        StringCategory::Generic => "Generic"@,
        StringCategory::Url => "Url"@,
        StringCategory::Domain => "Domain"@,
        StringCategory::Ip => "Ip"@,
        StringCategory::Email => "Email"@,
        StringCategory::Path => "Path"@,
        StringCategory::Registry => "Registry"@,
        StringCategory::Mutex => "Mutex"@,
        StringCategory::Service => "Service"@,
        StringCategory::ApiKey => "ApiKey"@,
        StringCategory::Credential => "Credential"@,
        StringCategory::Jwt => "Jwt"@,
        StringCategory::Certificate => "Certificate"@,
        StringCategory::UserAgent => "UserAgent"@,
        StringCategory::Command => "Command"@,
        StringCategory::Crypto => "Crypto"@,
        StringCategory::Other => "Other"@,
    }
}

impl StringCategory {
    /// The variant's name as `{:?}` prints it.
    pub fn name(self) -> (r: &'static str)
        ensures
            r@ == category_name(self),
    {
        match self {
            StringCategory::Generic => "Generic",
            StringCategory::Url => "Url",
            StringCategory::Domain => "Domain",
            StringCategory::Ip => "Ip",
            StringCategory::Email => "Email",
            StringCategory::Path => "Path",
            StringCategory::Registry => "Registry",
            StringCategory::Mutex => "Mutex",
            StringCategory::Service => "Service",
            StringCategory::ApiKey => "ApiKey",
            StringCategory::Credential => "Credential",
            StringCategory::Jwt => "Jwt",
            StringCategory::Certificate => "Certificate",
            StringCategory::UserAgent => "UserAgent",
            StringCategory::Command => "Command",
            StringCategory::Crypto => "Crypto",
            StringCategory::Other => "Other",
        }
    }
}

pub open spec fn format_name(f: BinaryFormat) -> Seq<char> {
    match f {
        BinaryFormat::Pe => "Pe"@,
        BinaryFormat::Elf => "Elf"@,
        BinaryFormat::MachO => "MachO"@,
        BinaryFormat::Apk => "Apk"@,
        BinaryFormat::Aab => "Aab"@,
        BinaryFormat::Jar => "Jar"@,
        BinaryFormat::Msi => "Msi"@,
        BinaryFormat::Firmware => "Firmware"@,
        BinaryFormat::Bootloader => "Bootloader"@,
        BinaryFormat::KernelModule => "KernelModule"@,
        BinaryFormat::Raw => "Raw"@,
        BinaryFormat::Unknown => "Unknown"@,
    }
}

impl BinaryFormat {
    /// The variant's name as `{:?}` prints it.
    pub fn name(self) -> (r: &'static str)
        ensures
            r@ == format_name(self),
    {
        match self {
            BinaryFormat::Pe => "Pe",
            BinaryFormat::Elf => "Elf",
            BinaryFormat::MachO => "MachO",
            BinaryFormat::Apk => "Apk",
            BinaryFormat::Aab => "Aab",
            BinaryFormat::Jar => "Jar",
            BinaryFormat::Msi => "Msi",
            BinaryFormat::Firmware => "Firmware",
            BinaryFormat::Bootloader => "Bootloader",
            BinaryFormat::KernelModule => "KernelModule",
            BinaryFormat::Raw => "Raw",
            BinaryFormat::Unknown => "Unknown",
        }
    }
}

pub open spec fn arch_name(a: Architecture) -> Seq<char> {
    match a {
        Architecture::X86 => "X86"@,
        Architecture::X64 => "X64"@,
        Architecture::Arm => "Arm"@,
        Architecture::Arm64 => "Arm64"@,
        Architecture::Mips => "Mips"@,
        Architecture::PowerPc => "PowerPc"@,
        Architecture::RiscV => "RiscV"@,
        Architecture::Unknown => "Unknown"@,
    }
}

impl Architecture {
    /// The variant's name as `{:?}` prints it.
    pub fn name(self) -> (r: &'static str)
        ensures
            r@ == arch_name(self),
    {
        match self {
            Architecture::X86 => "X86",
            Architecture::X64 => "X64",
            Architecture::Arm => "Arm",
            Architecture::Arm64 => "Arm64",
            Architecture::Mips => "Mips",
            Architecture::PowerPc => "PowerPc",
            Architecture::RiscV => "RiscV",
            Architecture::Unknown => "Unknown",
        }
    }
}

pub open spec fn os_name(o: OperatingSystem) -> Seq<char> {
    match o {
        OperatingSystem::Windows => "Windows"@,
        OperatingSystem::Linux => "Linux"@,
        OperatingSystem::MacOs => "MacOs"@,
        OperatingSystem::Android => "Android"@,
        OperatingSystem::Ios => "Ios"@,
        OperatingSystem::FreeBsd => "FreeBsd"@,
        OperatingSystem::Firmware => "Firmware"@,
        OperatingSystem::Unknown => "Unknown"@,
    }
}

impl OperatingSystem {
    /// The variant's name as `{:?}` prints it.
    pub fn name(self) -> (r: &'static str)
        ensures
            r@ == os_name(self),
    {
        match self {
            OperatingSystem::Windows => "Windows",
            OperatingSystem::Linux => "Linux",
            OperatingSystem::MacOs => "MacOs",
            OperatingSystem::Android => "Android",
            OperatingSystem::Ios => "Ios",
            OperatingSystem::FreeBsd => "FreeBsd",
            OperatingSystem::Firmware => "Firmware",
            OperatingSystem::Unknown => "Unknown",
        }
    }
}

pub open spec fn family_name(f: MalwareFamily) -> Seq<char> {
    match f {
        MalwareFamily::Ransomware => "Ransomware"@,
        MalwareFamily::Loader => "Loader"@,
        MalwareFamily::Crypter => "Crypter"@,
        MalwareFamily::Trojan => "Trojan"@,
        MalwareFamily::Stealer => "Stealer"@,
        MalwareFamily::Miner => "Miner"@,
        MalwareFamily::Rat => "Rat"@,
        MalwareFamily::Botnet => "Botnet"@,
        MalwareFamily::Dropper => "Dropper"@,
        MalwareFamily::Rootkit => "Rootkit"@,
        MalwareFamily::Worm => "Worm"@,
        MalwareFamily::Keylogger => "Keylogger"@,
        MalwareFamily::Banker => "Banker"@,
        MalwareFamily::Spyware => "Spyware"@,
        MalwareFamily::Adware => "Adware"@,
        MalwareFamily::Packer => "Packer"@,
        MalwareFamily::Benign => "Benign"@,
        MalwareFamily::Unknown => "Unknown"@,
    }
}

impl MalwareFamily {
    /// The variant's name as `{:?}` prints it.
    pub fn name(self) -> (r: &'static str)
        ensures
            r@ == family_name(self),
    {
        match self {
            MalwareFamily::Ransomware => "Ransomware",
            MalwareFamily::Loader => "Loader",
            MalwareFamily::Crypter => "Crypter",
            MalwareFamily::Trojan => "Trojan",
            MalwareFamily::Stealer => "Stealer",
            MalwareFamily::Miner => "Miner",
            MalwareFamily::Rat => "Rat",
            MalwareFamily::Botnet => "Botnet",
            MalwareFamily::Dropper => "Dropper",
            MalwareFamily::Rootkit => "Rootkit",
            MalwareFamily::Worm => "Worm",
            MalwareFamily::Keylogger => "Keylogger",
            MalwareFamily::Banker => "Banker",
            MalwareFamily::Spyware => "Spyware",
            MalwareFamily::Adware => "Adware",
            MalwareFamily::Packer => "Packer",
            MalwareFamily::Benign => "Benign",
            MalwareFamily::Unknown => "Unknown",
        }
    }
}

pub open spec fn kind_name(k: NetworkKind) -> Seq<char> {
    match k {
        NetworkKind::Url => "Url"@,
        NetworkKind::Domain => "Domain"@,
        NetworkKind::Ip => "Ip"@,
        NetworkKind::Port => "Port"@,
        NetworkKind::NamedPipe => "NamedPipe"@,
        NetworkKind::Email => "Email"@,
    }
}

impl NetworkKind {
    /// The variant's name as `{:?}` prints it.
    pub fn name(self) -> (r: &'static str)
        ensures
            r@ == kind_name(self),
    {
        match self {
            NetworkKind::Url => "Url",
            NetworkKind::Domain => "Domain",
            NetworkKind::Ip => "Ip",
            NetworkKind::Port => "Port",
            NetworkKind::NamedPipe => "NamedPipe",
            NetworkKind::Email => "Email",
        }
    }
}

// ---------------------------------------------------------------------------
// Evidence
// ---------------------------------------------------------------------------

/// Evidence citation that engines attach to their claims.
#[derive(Debug, Clone)]
pub enum Evidence {
    Function { address: String, name: Option<String>, note: String },
    Import { module: String, symbol: String, note: String },
    Export { symbol: String, note: String },
    String { value: String, offset: Option<u64>, note: String },
    Section { name: String, note: String },
    Hash { algorithm: String, value: String, note: String },
    Signature { subject: String, note: String },
    /// `value` in thousandths of a bit per byte.
    Entropy { region: String, value: u32, note: String },
    Constant { value: String, address: Option<String>, note: String },
    Resource { name: String, note: String },
    NetworkIndicator { indicator: String, note: String },
    Heuristic { rule: String, note: String },
}

pub enum EvidenceView {
    Function { address: Seq<char>, name: Option<Seq<char>>, note: Seq<char> },
    Import { module: Seq<char>, symbol: Seq<char>, note: Seq<char> },
    Export { symbol: Seq<char>, note: Seq<char> },
    String { value: Seq<char>, offset: Option<u64>, note: Seq<char> },
    Section { name: Seq<char>, note: Seq<char> },
    Hash { algorithm: Seq<char>, value: Seq<char>, note: Seq<char> },
    Signature { subject: Seq<char>, note: Seq<char> },
    Entropy { region: Seq<char>, value: u32, note: Seq<char> },
    Constant { value: Seq<char>, address: Option<Seq<char>>, note: Seq<char> },
    Resource { name: Seq<char>, note: Seq<char> },
    NetworkIndicator { indicator: Seq<char>, note: Seq<char> },
    Heuristic { rule: Seq<char>, note: Seq<char> },
}

impl View for Evidence {
    type V = EvidenceView;

    open spec fn view(&self) -> EvidenceView {
        match self {
            Evidence::Function { address, name, note } => EvidenceView::Function {
                address: address@,
                name: opt_view(*name),
                note: note@,
            },
            Evidence::Import { module, symbol, note } => EvidenceView::Import {
                module: module@,
                symbol: symbol@,
                note: note@,
            },
            Evidence::Export { symbol, note } => EvidenceView::Export {
                symbol: symbol@,
                note: note@,
            },
            Evidence::String { value, offset, note } => EvidenceView::String {
                value: value@,
                offset: *offset,
                note: note@,
            },
            Evidence::Section { name, note } => EvidenceView::Section { name: name@, note: note@ },
            Evidence::Hash { algorithm, value, note } => EvidenceView::Hash {
                algorithm: algorithm@,
                value: value@,
                note: note@,
            },
            Evidence::Signature { subject, note } => EvidenceView::Signature {
                subject: subject@,
                note: note@,
            },
            Evidence::Entropy { region, value, note } => EvidenceView::Entropy {
                region: region@,
                value: *value,
                note: note@,
            },
            Evidence::Constant { value, address, note } => EvidenceView::Constant {
                value: value@,
                address: opt_view(*address),
                note: note@,
            },
            Evidence::Resource { name, note } => EvidenceView::Resource { name: name@, note: note@ },
            Evidence::NetworkIndicator { indicator, note } => EvidenceView::NetworkIndicator {
                indicator: indicator@,
                note: note@,
            },
            Evidence::Heuristic { rule, note } => EvidenceView::Heuristic {
                rule: rule@,
                note: note@,
            },
        }
    }
}

pub open spec fn evidence_note(e: EvidenceView) -> Seq<char> {
    match e {
        EvidenceView::Function { note, .. } => note,
        EvidenceView::Import { note, .. } => note,
        EvidenceView::Export { note, .. } => note,
        EvidenceView::String { note, .. } => note,
        EvidenceView::Section { note, .. } => note,
        EvidenceView::Hash { note, .. } => note,
        EvidenceView::Signature { note, .. } => note,
        EvidenceView::Entropy { note, .. } => note,
        EvidenceView::Constant { note, .. } => note,
        EvidenceView::Resource { note, .. } => note,
        EvidenceView::NetworkIndicator { note, .. } => note,
        EvidenceView::Heuristic { note, .. } => note,
    }
}

impl Evidence {
    /// The note attached to the evidence, whatever its kind.
    pub fn note(&self) -> (r: &String)
        ensures
            r@ == evidence_note(self@),
    {
        match self {
            Evidence::Function { note, .. } => note,
            Evidence::Import { note, .. } => note,
            Evidence::Export { note, .. } => note,
            Evidence::String { note, .. } => note,
            Evidence::Section { note, .. } => note,
            Evidence::Hash { note, .. } => note,
            Evidence::Signature { note, .. } => note,
            Evidence::Entropy { note, .. } => note,
            Evidence::Constant { note, .. } => note,
            Evidence::Resource { note, .. } => note,
            Evidence::NetworkIndicator { note, .. } => note,
            Evidence::Heuristic { note, .. } => note,
        }
    }

    /// A copy of this evidence.
    pub fn duplicate(&self) -> (r: Evidence)
        ensures
            r@ == self@,
    {
        match self {
            Evidence::Function { address, name, note } => Evidence::Function {
                address: address.clone(),
                name: copy_opt_string(name),
                note: note.clone(),
            },
            Evidence::Import { module, symbol, note } => Evidence::Import {
                module: module.clone(),
                symbol: symbol.clone(),
                note: note.clone(),
            },
            Evidence::Export { symbol, note } => Evidence::Export {
                symbol: symbol.clone(),
                note: note.clone(),
            },
            Evidence::String { value, offset, note } => Evidence::String {
                value: value.clone(),
                offset: *offset,
                note: note.clone(),
            },
            Evidence::Section { name, note } => Evidence::Section {
                name: name.clone(),
                note: note.clone(),
            },
            Evidence::Hash { algorithm, value, note } => Evidence::Hash {
                algorithm: algorithm.clone(),
                value: value.clone(),
                note: note.clone(),
            },
            Evidence::Signature { subject, note } => Evidence::Signature {
                subject: subject.clone(),
                note: note.clone(),
            },
            Evidence::Entropy { region, value, note } => Evidence::Entropy {
                region: region.clone(),
                value: *value,
                note: note.clone(),
            },
            Evidence::Constant { value, address, note } => Evidence::Constant {
                value: value.clone(),
                address: copy_opt_string(address),
                note: note.clone(),
            },
            Evidence::Resource { name, note } => Evidence::Resource {
                name: name.clone(),
                note: note.clone(),
            },
            Evidence::NetworkIndicator { indicator, note } => Evidence::NetworkIndicator {
                indicator: indicator.clone(),
                note: note.clone(),
            },
            Evidence::Heuristic { rule, note } => Evidence::Heuristic {
                rule: rule.clone(),
                note: note.clone(),
            },
        }
    }
}

pub open spec fn evidence_views(v: Seq<Evidence>) -> Seq<EvidenceView> {
    v.map_values(|e: Evidence| e@)
}

/// A copy of a list of evidence.
pub fn copy_evidence(v: &Vec<Evidence>) -> (r: Vec<Evidence>)
    ensures
        evidence_views(r@) == evidence_views(v@),
{
    let mut out: Vec<Evidence> = Vec::new();
    let mut i: usize = 0;
    while i < v.len()
        invariant
            i <= v@.len(),
            evidence_views(out@) == evidence_views(v@.subrange(0, i as int)),
        decreases v@.len() - i,
    {
        let e = v[i].duplicate();
        let ghost before = out@;
        out.push(e);
        proof {
            assert(v@.subrange(0, i + 1) == v@.subrange(0, i as int).push(v@[i as int]));
            assert(evidence_views(out@) =~= evidence_views(before).push(e@));
            assert(evidence_views(v@.subrange(0, i + 1)) =~= evidence_views(
                v@.subrange(0, i as int),
            ).push(v@[i as int]@));
        }
        i += 1;
    }
    proof {
        assert(v@.subrange(0, v@.len() as int) == v@);
    }
    out
}

/// Appends copies of `more` to `v`.
pub fn extend_evidence(v: &mut Vec<Evidence>, more: &Vec<Evidence>)
    ensures
        evidence_views(final(v)@) == evidence_views(old(v)@) + evidence_views(more@),
{
    let ghost start = v@;
    let mut i: usize = 0;
    while i < more.len()
        invariant
            i <= more@.len(),
            evidence_views(v@) == evidence_views(start) + evidence_views(more@.subrange(0, i as int)),
        decreases more@.len() - i,
    {
        let e = more[i].duplicate();
        let ghost before = v@;
        v.push(e);
        proof {
            assert(more@.subrange(0, i + 1) == more@.subrange(0, i as int).push(more@[i as int]));
            assert(evidence_views(v@) =~= evidence_views(before).push(e@));
            assert(evidence_views(more@.subrange(0, i + 1)) =~= evidence_views(
                more@.subrange(0, i as int),
            ).push(more@[i as int]@));
        }
        i += 1;
    }
    proof {
        assert(more@.subrange(0, more@.len() as int) == more@);
    }
}

// ---------------------------------------------------------------------------
// Records
// ---------------------------------------------------------------------------

/// Digests of a file, as lowercase hexadecimal text.
#[derive(Debug, Clone)]
pub struct FileHashes {
    pub md5: String,
    pub sha1: String,
    pub sha256: String,
    pub sha3_256: String,
    pub blake3: String,
    pub imphash: Option<String>,
    pub ssdeep: Option<String>,
    pub tlsh: Option<String>,
}

/// What a binary is: format, architecture, toolchain and protection traits.
#[derive(Debug, Clone)]
pub struct BinaryIdentity {
    pub format: BinaryFormat,
    pub architecture: Architecture,
    pub endianness: String,
    pub bits: u8,
    pub os: OperatingSystem,
    pub is_dll: bool,
    pub is_driver: bool,
    pub is_shared_object: bool,
    pub entry_point: Option<u64>,
    pub image_base: Option<u64>,
    pub compiler: Option<String>,
    pub compiler_version: Option<String>,
    pub language: Option<String>,
    pub build_system: Option<String>,
    pub framework: Option<String>,
    pub linker: Option<String>,
    pub packed: bool,
    pub packer: Option<String>,
    pub obfuscated: bool,
    pub obfuscation: Vec<String>,
    pub encrypted_sections: Vec<String>,
    pub compressed: bool,
    pub has_debug_symbols: bool,
    pub has_signature: bool,
    pub mime: Option<String>,
}

/// One section of an executable image.
#[derive(Debug, Clone)]
pub struct SectionInfo {
    pub name: String,
    pub virtual_address: u64,
    pub virtual_size: u64,
    pub raw_size: u64,
    /// Thousandths of a bit per byte.
    pub entropy: u32,
    pub characteristics: Vec<String>,
    pub permissions: String,
}

/// One imported symbol.
#[derive(Debug, Clone)]
pub struct ImportEntry {
    pub module: String,
    pub symbol: String,
    pub ordinal: Option<u16>,
    pub address: Option<u64>,
    pub risk: RiskLevel,
    pub tags: Vec<String>,
}

/// One exported symbol.
#[derive(Debug, Clone)]
pub struct ExportEntry {
    pub symbol: String,
    pub ordinal: Option<u16>,
    pub address: u64,
    pub forwarded: Option<String>,
}

/// A string found in a binary, with its classification.
#[derive(Debug, Clone)]
pub struct ExtractedString {
    pub value: String,
    pub offset: u64,
    pub encoding: String,
    pub category: StringCategory,
    /// Hundredths.
    pub score: u32,
}

/// A network indicator derived from extracted strings.
#[derive(Debug, Clone)]
pub struct NetworkIndicator {
    pub kind: NetworkKind,
    pub value: String,
    pub port: Option<u16>,
    pub protocol: Option<String>,
    pub evidence: Vec<Evidence>,
    pub suspicious: bool,
}

/// A cryptographic primitive detected in a binary.
#[derive(Debug, Clone)]
pub struct CryptoFinding {
    pub algorithm: String,
    pub category: String,
    pub mode: Option<String>,
    pub strength: String,
    pub weakness: Option<String>,
    /// Hundredths.
    pub confidence: u32,
    pub evidence: Vec<Evidence>,
}

/// A packer or protector detected in a binary.
#[derive(Debug, Clone)]
pub struct PackerFinding {
    pub name: String,
    /// Hundredths.
    pub confidence: u32,
    pub evidence: Vec<Evidence>,
}

/// A security issue found in a binary.
#[derive(Debug, Clone)]
pub struct SecurityFinding {
    pub id: String,
    pub title: String,
    pub category: String,
    pub severity: RiskLevel,
    /// Hundredths.
    pub confidence: u32,
    pub description: String,
    pub cwe: Option<String>,
    pub location: Option<String>,
    pub evidence: Vec<Evidence>,
    pub remediation: Option<String>,
}

/// Authenticode signature information; times are seconds since the epoch.
#[derive(Debug, Clone)]
pub struct DigitalSignatureInfo {
    pub present: bool,
    pub valid: Option<bool>,
    pub subject: Option<String>,
    pub issuer: Option<String>,
    pub serial: Option<String>,
    pub not_before: Option<i64>,
    pub not_after: Option<i64>,
    pub algorithm: Option<String>,
}

/// An embedded resource.
#[derive(Debug, Clone)]
pub struct ResourceEntry {
    pub name: String,
    pub kind: String,
    pub size: u64,
    pub language: Option<String>,
    /// Thousandths of a bit per byte.
    pub entropy: Option<u32>,
}

/// A library the binary depends on.
#[derive(Debug, Clone)]
pub struct DependencyInfo {
    pub name: String,
    pub version: Option<String>,
    pub kind: String,
}

/// What a caller may ask of an analysis run.
#[derive(Debug, Clone)]
pub struct AnalysisOptions {
    pub enable_ai: bool,
    pub enable_disassembly: bool,
    pub deep_unpack: bool,
    pub max_strings: usize,
    pub model_provider: Option<String>,
    pub model_name: Option<String>,
}

impl AnalysisOptions {
    /// The options used when a caller gives none.
    pub fn defaults() -> (r: AnalysisOptions)
        ensures
            r.enable_ai && r.enable_disassembly && r.deep_unpack,
            r.max_strings == 50_000,
            r.model_provider is None && r.model_name is None,
    {
        AnalysisOptions {
            enable_ai: true,
            enable_disassembly: true,
            deep_unpack: true,
            max_strings: 50_000,
            model_provider: None,
            model_name: None,
        }
    }
}

/// What an upload names before its bytes arrive.
#[derive(Debug, Clone)]
pub struct UploadRequestMeta {
    pub project_id: String,
    pub filename: String,
    pub content_type: Option<String>,
}

// ---------------------------------------------------------------------------
// Views of records
// ---------------------------------------------------------------------------

pub struct CryptoFindingView {
    pub algorithm: Seq<char>,
    pub category: Seq<char>,
    pub mode: Option<Seq<char>>,
    pub strength: Seq<char>,
    pub weakness: Option<Seq<char>>,
    pub confidence: u32,
    pub evidence: Seq<EvidenceView>,
}

impl View for CryptoFinding {
    type V = CryptoFindingView;

    open spec fn view(&self) -> CryptoFindingView {
        CryptoFindingView {
            algorithm: self.algorithm@,
            category: self.category@,
            mode: opt_view(self.mode),
            strength: self.strength@,
            weakness: opt_view(self.weakness),
            confidence: self.confidence,
            evidence: evidence_views(self.evidence@),
        }
    }
}

pub open spec fn crypto_views(v: Seq<CryptoFinding>) -> Seq<CryptoFindingView> {
    v.map_values(|f: CryptoFinding| f@)
}

pub struct PackerFindingView {
    pub name: Seq<char>,
    pub confidence: u32,
    pub evidence: Seq<EvidenceView>,
}

impl View for PackerFinding {
    type V = PackerFindingView;

    open spec fn view(&self) -> PackerFindingView {
        PackerFindingView {
            name: self.name@,
            confidence: self.confidence,
            evidence: evidence_views(self.evidence@),
        }
    }
}

pub open spec fn packer_views(v: Seq<PackerFinding>) -> Seq<PackerFindingView> {
    v.map_values(|f: PackerFinding| f@)
}

pub struct SectionView {
    pub name: Seq<char>,
    pub virtual_address: u64,
    pub virtual_size: u64,
    pub raw_size: u64,
    pub entropy: u32,
    pub characteristics: Seq<Seq<char>>,
    pub permissions: Seq<char>,
}

impl View for SectionInfo {
    type V = SectionView;

    open spec fn view(&self) -> SectionView {
        SectionView {
            name: self.name@,
            virtual_address: self.virtual_address,
            virtual_size: self.virtual_size,
            raw_size: self.raw_size,
            entropy: self.entropy,
            characteristics: strings_view(self.characteristics@),
            permissions: self.permissions@,
        }
    }
}

pub open spec fn section_views(v: Seq<SectionInfo>) -> Seq<SectionView> {
    v.map_values(|s: SectionInfo| s@)
}

pub struct ImportView {
    pub module: Seq<char>,
    pub symbol: Seq<char>,
    pub ordinal: Option<u16>,
    pub address: Option<u64>,
    pub risk: RiskLevel,
    pub tags: Seq<Seq<char>>,
}

impl View for ImportEntry {
    type V = ImportView;

    open spec fn view(&self) -> ImportView {
        ImportView {
            module: self.module@,
            symbol: self.symbol@,
            ordinal: self.ordinal,
            address: self.address,
            risk: self.risk,
            tags: strings_view(self.tags@),
        }
    }
}

pub open spec fn import_views(v: Seq<ImportEntry>) -> Seq<ImportView> {
    v.map_values(|s: ImportEntry| s@)
}

pub struct ExtractedStringView {
    pub value: Seq<char>,
    pub offset: u64,
    pub encoding: Seq<char>,
    pub category: StringCategory,
    pub score: u32,
}

impl View for ExtractedString {
    type V = ExtractedStringView;

    open spec fn view(&self) -> ExtractedStringView {
        ExtractedStringView {
            value: self.value@,
            offset: self.offset,
            encoding: self.encoding@,
            category: self.category,
            score: self.score,
        }
    }
}

pub open spec fn string_views(v: Seq<ExtractedString>) -> Seq<ExtractedStringView> {
    v.map_values(|s: ExtractedString| s@)
}

pub struct NetworkIndicatorView {
    pub kind: NetworkKind,
    pub value: Seq<char>,
    pub port: Option<u16>,
    pub protocol: Option<Seq<char>>,
    pub evidence: Seq<EvidenceView>,
    pub suspicious: bool,
}

impl View for NetworkIndicator {
    type V = NetworkIndicatorView;

    open spec fn view(&self) -> NetworkIndicatorView {
        NetworkIndicatorView {
            kind: self.kind,
            value: self.value@,
            port: self.port,
            protocol: opt_view(self.protocol),
            evidence: evidence_views(self.evidence@),
            suspicious: self.suspicious,
        }
    }
}

pub open spec fn network_views(v: Seq<NetworkIndicator>) -> Seq<NetworkIndicatorView> {
    v.map_values(|s: NetworkIndicator| s@)
}

/// A security finding with its random identifier left out.
pub struct SecurityFindingView {
    pub title: Seq<char>,
    pub category: Seq<char>,
    pub severity: RiskLevel,
    pub confidence: u32,
    pub description: Seq<char>,
    pub cwe: Option<Seq<char>>,
    pub location: Option<Seq<char>>,
    pub evidence: Seq<EvidenceView>,
    pub remediation: Option<Seq<char>>,
}

impl View for SecurityFinding {
    type V = SecurityFindingView;

    open spec fn view(&self) -> SecurityFindingView {
        SecurityFindingView {
            title: self.title@,
            category: self.category@,
            severity: self.severity,
            confidence: self.confidence,
            description: self.description@,
            cwe: opt_view(self.cwe),
            location: opt_view(self.location),
            evidence: evidence_views(self.evidence@),
            remediation: opt_view(self.remediation),
        }
    }
}

pub open spec fn security_views(v: Seq<SecurityFinding>) -> Seq<SecurityFindingView> {
    v.map_values(|s: SecurityFinding| s@)
}

pub struct IdentityView {
    pub format: BinaryFormat,
    pub architecture: Architecture,
    pub endianness: Seq<char>,
    pub bits: u8,
    pub os: OperatingSystem,
    pub is_dll: bool,
    pub is_driver: bool,
    pub is_shared_object: bool,
    pub entry_point: Option<u64>,
    pub image_base: Option<u64>,
    pub compiler: Option<Seq<char>>,
    pub compiler_version: Option<Seq<char>>,
    pub language: Option<Seq<char>>,
    pub build_system: Option<Seq<char>>,
    pub framework: Option<Seq<char>>,
    pub linker: Option<Seq<char>>,
    pub packed: bool,
    pub packer: Option<Seq<char>>,
    pub obfuscated: bool,
    pub obfuscation: Seq<Seq<char>>,
    pub encrypted_sections: Seq<Seq<char>>,
    pub compressed: bool,
    pub has_debug_symbols: bool,
    pub has_signature: bool,
    pub mime: Option<Seq<char>>,
}

impl View for BinaryIdentity {
    type V = IdentityView;

    open spec fn view(&self) -> IdentityView {
        IdentityView {
            format: self.format,
            architecture: self.architecture,
            endianness: self.endianness@,
            bits: self.bits,
            os: self.os,
            is_dll: self.is_dll,
            is_driver: self.is_driver,
            is_shared_object: self.is_shared_object,
            entry_point: self.entry_point,
            image_base: self.image_base,
            compiler: opt_view(self.compiler),
            compiler_version: opt_view(self.compiler_version),
            language: opt_view(self.language),
            build_system: opt_view(self.build_system),
            framework: opt_view(self.framework),
            linker: opt_view(self.linker),
            packed: self.packed,
            packer: opt_view(self.packer),
            obfuscated: self.obfuscated,
            obfuscation: strings_view(self.obfuscation@),
            encrypted_sections: strings_view(self.encrypted_sections@),
            compressed: self.compressed,
            has_debug_symbols: self.has_debug_symbols,
            has_signature: self.has_signature,
            mime: opt_view(self.mime),
        }
    }
}

// ---------------------------------------------------------------------------
// Functions
// ---------------------------------------------------------------------------

/// What the analysis knows of one function of the binary.
///
/// `complexity` is held in eightieths (`80` stands for 1.0), which holds
/// `size / 16` and `size / 20` exactly; `confidence` in hundredths.
#[derive(Debug, Clone)]
pub struct FunctionAnalysis {
    pub id: String,
    pub address: u64,
    pub size: u64,
    pub name: String,
    pub suggested_name: Option<String>,
    pub description: Option<String>,
    pub purpose: Option<String>,
    pub inputs: Vec<String>,
    pub outputs: Vec<String>,
    pub complexity: u32,
    pub interesting_constants: Vec<String>,
    pub possible_vulnerabilities: Vec<String>,
    pub possible_crypto: bool,
    pub possible_networking: bool,
    pub possible_anti_debug: bool,
    pub possible_persistence: bool,
    pub possible_injection: bool,
    pub xrefs_from: Vec<u64>,
    pub xrefs_to: Vec<u64>,
    pub pseudocode_summary: Option<String>,
    pub assembly_preview: Option<String>,
    pub confidence: u32,
    pub evidence: Vec<Evidence>,
    pub tags: Vec<String>,
}

pub struct FunctionView {
    pub id: Seq<char>,
    pub address: u64,
    pub size: u64,
    pub name: Seq<char>,
    pub suggested_name: Option<Seq<char>>,
    pub description: Option<Seq<char>>,
    pub purpose: Option<Seq<char>>,
    pub inputs: Seq<Seq<char>>,
    pub outputs: Seq<Seq<char>>,
    pub complexity: u32,
    pub interesting_constants: Seq<Seq<char>>,
    pub possible_vulnerabilities: Seq<Seq<char>>,
    pub possible_crypto: bool,
    pub possible_networking: bool,
    pub possible_anti_debug: bool,
    pub possible_persistence: bool,
    pub possible_injection: bool,
    pub xrefs_from: Seq<u64>,
    pub xrefs_to: Seq<u64>,
    pub pseudocode_summary: Option<Seq<char>>,
    pub assembly_preview: Option<Seq<char>>,
    pub confidence: u32,
    pub evidence: Seq<EvidenceView>,
    pub tags: Seq<Seq<char>>,
}

impl View for FunctionAnalysis {
    type V = FunctionView;

    open spec fn view(&self) -> FunctionView {
        FunctionView {
            id: self.id@,
            address: self.address,
            size: self.size,
            name: self.name@,
            suggested_name: opt_view(self.suggested_name),
            description: opt_view(self.description),
            purpose: opt_view(self.purpose),
            inputs: strings_view(self.inputs@),
            outputs: strings_view(self.outputs@),
            complexity: self.complexity,
            interesting_constants: strings_view(self.interesting_constants@),
            possible_vulnerabilities: strings_view(self.possible_vulnerabilities@),
            possible_crypto: self.possible_crypto,
            possible_networking: self.possible_networking,
            possible_anti_debug: self.possible_anti_debug,
            possible_persistence: self.possible_persistence,
            possible_injection: self.possible_injection,
            xrefs_from: self.xrefs_from@,
            xrefs_to: self.xrefs_to@,
            pseudocode_summary: opt_view(self.pseudocode_summary),
            assembly_preview: opt_view(self.assembly_preview),
            confidence: self.confidence,
            evidence: evidence_views(self.evidence@),
            tags: strings_view(self.tags@),
        }
    }
}

pub open spec fn function_views(v: Seq<FunctionAnalysis>) -> Seq<FunctionView> {
    v.map_values(|f: FunctionAnalysis| f@)
}

} // verus!
