use binaris::entropy::byte_counts;
use binaris::engine::{finish_analysis, object_layout, AnalysisContext};
use binaris::hasher::{hash_bytes, hex_decode_chars, hex_encode_bytes};
use binaris::interchange::{generate_sarif, generate_sbom};
use binaris::model::{DependencyInfo, ImportEntry, RiskLevel, SecurityFinding, StringCategory};
use binaris::security::analyze;
use binaris::strings::extract_strings;

fn millibits(bytes: &[u8]) -> u32 {
    if bytes.is_empty() {
        return 0;
    }
    let mut counts = [0usize; 256];
    for b in bytes {
        counts[*b as usize] += 1;
    }
    let len = bytes.len() as f64;
    let mut h = 0.0f64;
    for c in counts.iter().filter(|c| **c > 0) {
        let p = *c as f64 / len;
        h -= p * p.log2();
    }
    (h * 1000.0).round() as u32
}

#[test]
fn analyzes_raw_bytes() {
    let data = b"MZ\0\0raw test https://example.com/a 10.1.2.3 AES-ECB password=secret";
    let layout = object_layout(data).expect("layout");
    let entropies: Vec<u32> = layout.sections.iter().map(|s| millibits(&s.sample)).collect();
    let result = finish_analysis(data, &AnalysisContext::default(), layout, &entropies);
    assert!(!result.hashes.sha256.is_empty());
    assert!(!result.strings.is_empty());
}

#[test]
fn hashes_are_stable() {
    let h = hash_bytes(b"binaris");
    assert_eq!(h.md5.len(), 32);
    assert_eq!(h.sha1.len(), 40);
    assert_eq!(h.sha256.len(), 64);
    assert_eq!(h.blake3.len(), 64);
    assert!(h.ssdeep.is_some());
}

#[test]
fn sha256_of_empty_input() {
    let h = hash_bytes(b"");
    assert_eq!(h.sha256, "e3b0c44298fc1c149afbf4c8996fb92427ae41e4649b934ca495991b7852b855");
    assert_eq!(h.md5, "d41d8cd98f00b204e9800998ecf8427e");
}

#[test]
fn finds_url_and_ip() {
    let data = b"hello https://evil.example/c2 pad 10.0.0.5 trailer";
    let strings = extract_strings(data, 100);
    assert!(strings.iter().any(|s| s.category == StringCategory::Url));
    assert!(strings.iter().any(|s| s.category == StringCategory::Ip));
}

#[test]
fn finds_strcpy() {
    let imports = vec![ImportEntry {
        module: "msvcrt.dll".into(),
        symbol: "strcpy".into(),
        ordinal: None,
        address: None,
        risk: RiskLevel::Info,
        tags: vec![],
    }];
    let findings = analyze(&imports, &[], &[]);
    assert!(findings.iter().any(|f| f.category == "buffer_overflow"));
}

#[test]
fn hex_roundtrip_and_odd_length() {
    let bytes = [0u8, 1, 0xab, 0xff, 0x10];
    let text = hex_encode_bytes(&bytes);
    assert_eq!(text, "0001abff10");
    let chars: Vec<char> = text.chars().collect();
    assert_eq!(hex_decode_chars(&chars), Some(bytes.to_vec()));
    let upper: Vec<char> = "ABff".chars().collect();
    assert_eq!(hex_decode_chars(&upper), Some(vec![0xab, 0xff]));
    let odd: Vec<char> = "abc".chars().collect();
    assert_eq!(hex_decode_chars(&odd), None);
    let bad: Vec<char> = "zz".chars().collect();
    assert_eq!(hex_decode_chars(&bad), None);
}

#[test]
fn elf_header_is_read() {
    // A minimal 64-bit little-endian ELF header with no sections.
    let mut elf = vec![0u8; 64];
    elf[0..4].copy_from_slice(b"\x7fELF");
    elf[4] = 2; // 64-bit
    elf[5] = 1; // little endian
    elf[6] = 1; // version
    elf[16] = 3; // ET_DYN
    elf[18] = 0x3e; // x86-64
    elf[20] = 1;
    elf[24] = 0x10; // entry
    elf[52] = 64; // header size
    let layout = object_layout(&elf).expect("layout");
    assert_eq!(layout.identity.format, binaris::model::BinaryFormat::Elf);
    assert_eq!(layout.identity.os, binaris::model::OperatingSystem::Linux);
    assert_eq!(layout.identity.architecture, binaris::model::Architecture::X64);
    assert!(layout.identity.is_shared_object);
    assert!(layout.identity.is_dll);
    assert_eq!(layout.identity.entry_point, Some(0x10));
    assert_eq!(layout.identity.endianness, "little");
    assert_eq!(layout.identity.bits, 64);
    assert!(layout.sections.is_empty());
}

#[test]
fn byte_histogram_counts_each_value() {
    let counts = byte_counts(&[1, 1, 2, 255]);
    assert_eq!(counts.len(), 256);
    assert_eq!(counts[0], 0);
    assert_eq!(counts[1], 2);
    assert_eq!(counts[2], 1);
    assert_eq!(counts[255], 1);
    assert_eq!(counts.iter().sum::<u64>(), 4);
}

fn shannon_from_counts(data: &[u8]) -> f64 {
    if data.is_empty() {
        return 0.0;
    }
    let len = data.len() as f64;
    let mut entropy = 0.0;
    for count in byte_counts(data) {
        if count == 0 {
            continue;
        }
        let p = count as f64 / len;
        entropy -= p * p.log2();
    }
    entropy
}

#[test]
fn zero_entropy_for_constant() {
    let data = vec![0u8; 1024];
    assert!(shannon_from_counts(&data) < 0.01);
}

#[test]
fn high_entropy_for_randomish() {
    let data: Vec<u8> = (0..255).cycle().take(4096).collect();
    assert!(shannon_from_counts(&data) > 7.5);
}

fn pretty(text: &str) -> String {
    let v: serde_json::Value = serde_json::from_str(text).expect("valid JSON");
    serde_json::to_string_pretty(&v).expect("prints")
}

#[test]
fn sarif_and_sbom_are_pretty_json() {
    let mut r = binaris::api::pending_report("a1", "f1", "p1", "we\"ird\n.exe", 3, hash_bytes(b"abc"));
    let empty = generate_sarif(&r);
    assert_eq!(pretty(&empty), empty);
    r.security.push(SecurityFinding {
        id: "s1".to_string(),
        title: "Unsafe API".to_string(),
        category: "memory".to_string(),
        severity: RiskLevel::High,
        confidence: 80,
        description: "strcpy \\ used\t".to_string(),
        cwe: None,
        location: Some("0x401000".to_string()),
        evidence: Vec::new(),
        remediation: None,
    });
    r.security.push(SecurityFinding {
        id: "s2".to_string(),
        title: "Weak".to_string(),
        category: "crypto".to_string(),
        severity: RiskLevel::Low,
        confidence: 50,
        description: "md5\u{1}".to_string(),
        cwe: None,
        location: None,
        evidence: Vec::new(),
        remediation: None,
    });
    let sarif = generate_sarif(&r);
    assert_eq!(pretty(&sarif), sarif);
    let v: serde_json::Value = serde_json::from_str(&sarif).unwrap();
    assert_eq!(v["runs"][0]["results"][0]["level"], "error");
    assert_eq!(v["runs"][0]["results"][1]["level"], "note");
    assert_eq!(v["runs"][0]["results"][0]["message"]["text"], "Unsafe API: strcpy \\ used\t");
    assert_eq!(v["runs"][0]["results"][0]["locations"][0]["physicalLocation"]["artifactLocation"]["uri"], "we\"ird\n.exe");

    let deps = vec![
        DependencyInfo { name: "KERNEL32.dll".to_string(), version: None, kind: "import".to_string() },
        DependencyInfo { name: "libc".to_string(), version: Some("6".to_string()), kind: "needed".to_string() },
    ];
    let sbom = generate_sbom("a.exe", &r.hashes, &deps);
    assert_eq!(pretty(&sbom), sbom);
    let b: serde_json::Value = serde_json::from_str(&sbom).unwrap();
    assert_eq!(b["components"][0]["purl"], "pkg:generic/KERNEL32.dll@");
    assert!(b["components"][0]["version"].is_null());
    assert_eq!(b["components"][1]["version"], "6");
    assert_eq!(b["metadata"]["component"]["hashes"][0]["content"].as_str(), Some(r.hashes.sha256.as_str()));
    let none = generate_sbom("a.exe", &r.hashes, &Vec::new());
    assert_eq!(pretty(&none), none);
}
