use binaris::api::{empty_identity, pending_report};
use binaris::chat::grounded_answer;
use binaris::compiler::enrich_toolchain;
use binaris::crypto_detect::detect_crypto;
use binaris::decomp::scan_binary_strings;
use binaris::diff::diff_reports;
use binaris::indicators::enrich_imports;
use binaris::model::{
    BinaryFormat, Evidence, ExtractedString, FileHashes, FunctionAnalysis, ImportEntry, RiskLevel,
    SectionInfo, StringCategory,
};
use binaris::providers::{build_provider, ProviderChoice, ProviderConfig};
use binaris::rename::suggest_names;
use binaris::reports::generate_pdf_bytes;
use binaris::hasher::fuzzy_hash;
use binaris::pseudocode::from_assembly_preview;

fn hashes(sha: &str) -> FileHashes {
    FileHashes {
        md5: "m".into(),
        sha1: "s".into(),
        sha256: sha.into(),
        sha3_256: "t".into(),
        blake3: "b".into(),
        imphash: None,
        ssdeep: None,
        tlsh: None,
    }
}

fn import(module: &str, symbol: &str) -> ImportEntry {
    ImportEntry { module: module.into(), symbol: symbol.into(), ordinal: Some(3), address: Some(0x40), risk: RiskLevel::Info, tags: vec![] }
}

fn string(value: &str, offset: u64, category: StringCategory) -> ExtractedString {
    ExtractedString { value: value.into(), offset, encoding: "ascii".into(), category, score: 80 }
}

fn function(name: &str, address: u64) -> FunctionAnalysis {
    FunctionAnalysis {
        id: format!("fn_{address:x}"),
        address,
        size: 16,
        name: name.into(),
        suggested_name: None,
        description: None,
        purpose: None,
        inputs: vec![],
        outputs: vec![],
        complexity: 3,
        interesting_constants: vec![],
        possible_vulnerabilities: vec![],
        possible_crypto: false,
        possible_networking: true,
        possible_anti_debug: false,
        possible_persistence: false,
        possible_injection: false,
        xrefs_from: vec![0x10],
        xrefs_to: vec![0x20],
        pseudocode_summary: None,
        assembly_preview: Some("xor eax, eax".into()),
        confidence: 35,
        evidence: vec![Evidence::Heuristic { rule: "r".into(), note: "kept".into() }],
        tags: vec!["entry".into()],
    }
}

#[test]
fn enriching_imports_twice_changes_nothing() {
    let mut imports = vec![import("ws2_32.dll", "send"), import("kernel32.dll", "WriteProcessMemory"), import("advapi32.dll", "CryptEncrypt")];
    enrich_imports(&mut imports);
    let once: Vec<(RiskLevel, Vec<String>)> = imports.iter().map(|i| (i.risk, i.tags.clone())).collect();
    enrich_imports(&mut imports);
    let twice: Vec<(RiskLevel, Vec<String>)> = imports.iter().map(|i| (i.risk, i.tags.clone())).collect();
    assert_eq!(once, twice);
    assert_eq!(imports[1].risk, RiskLevel::High);
    assert_eq!(imports[0].ordinal, Some(3));
    assert_eq!(imports[0].address, Some(0x40));
}

#[test]
fn diffing_the_other_way_swaps_added_and_removed() {
    let mut a = pending_report("a1", "f1", "p1", "a.bin", 100, hashes("0123456789abcdef"));
    let mut b = pending_report("a2", "f2", "p1", "b.bin", 40, hashes("fedcba9876543210"));
    a.imports.push(import("k32", "A"));
    b.imports.push(import("k32", "B"));
    a.sections.push(SectionInfo {
        name: ".text".into(),
        virtual_address: 0,
        virtual_size: 1,
        raw_size: 1,
        entropy: 0,
        characteristics: vec![],
        permissions: "r-x".into(),
    });
    let d1 = diff_reports(&a, &b);
    let d2 = diff_reports(&b, &a);
    assert_eq!(d1.import_added, d2.import_removed);
    assert_eq!(d1.import_removed, d2.import_added);
    assert_eq!(d1.section_changes, d2.section_changes);
    assert_eq!(d1.section_changes, vec![".text".to_string()]);
    assert_eq!(d1.size_delta, -d2.size_delta);
    assert_eq!(d1.identical, d2.identical);
    let same = diff_reports(&a, &a);
    assert!(same.identical);
    assert_eq!(same.size_delta, 0);
    assert!(same.section_changes.is_empty() && same.function_added.is_empty() && same.string_removed.is_empty());
}

#[test]
fn toolchain_inference_keeps_the_rest_of_the_identity() {
    let mut id = empty_identity();
    id.format = BinaryFormat::Pe;
    id.bits = 64;
    id.has_debug_symbols = true;
    id.obfuscation = vec!["stale".into()];
    id.obfuscated = true;
    enrich_toolchain(b"MSVC 19.3 Themida and Themida again", &mut id, &[]);
    assert_eq!(id.format, BinaryFormat::Pe);
    assert_eq!(id.bits, 64);
    assert!(id.has_debug_symbols);
    assert_eq!(id.compiler.as_deref(), Some("MSVC"));
    assert_eq!(id.obfuscation, vec!["mutator/packer obfuscation".to_string()]);
    assert!(id.obfuscated);
    let mut plain = empty_identity();
    plain.obfuscation = vec!["stale".into()];
    plain.obfuscated = true;
    enrich_toolchain(b"nothing", &mut plain, &[]);
    assert!(plain.obfuscation.is_empty());
    assert!(!plain.obfuscated);
}

#[test]
fn toolchain_inference_on_a_long_msvc_token() {
    let mut data = b"MSVC".to_vec();
    data.extend_from_slice(&[b'a'; 27]);
    data.push(0xff);
    let mut id = empty_identity();
    enrich_toolchain(&data, &mut id, &[]);
    assert_eq!(id.compiler.as_deref(), Some("MSVC"));
    assert_eq!(id.compiler_version.as_deref(), Some("MSVCaaaaaaaaaaaaaaaaaaaaaaaaaaa"));
}

#[test]
fn language_hits_are_sorted_and_distinct() {
    let hits = scan_binary_strings(b"package main\nfunc main() {}\nstd::vector #include <iostream> def x import y");
    let langs: Vec<&str> = hits.iter().map(|h| h.language.as_str()).collect();
    assert_eq!(langs, vec!["go", "cpp", "python", "c"]);
    for w in hits.windows(2) {
        assert!(w[0].confidence >= w[1].confidence);
    }
    let go = scan_binary_strings(b"package main");
    assert_eq!(go.len(), 1);
    assert_eq!(go[0].language, "go");
    assert_eq!(go[0].confidence, 80);
    assert_eq!(go[0].evidence, "Go markers");
}

#[test]
fn rename_suggestions_keep_identity_and_cite_the_binary() {
    let mut functions = vec![function("entry", 0x401000)];
    let imports = vec![import("advapi32.dll", "CryptEncrypt")];
    let mut tagged = imports.clone();
    enrich_imports(&mut tagged);
    let strings = vec![string("https://c2.example/gate", 0x2000, StringCategory::Url)];
    suggest_names(&mut functions, &tagged, &strings);
    let f = &functions[0];
    assert_eq!(f.id, "fn_401000");
    assert_eq!(f.address, 0x401000);
    assert_eq!(f.size, 16);
    assert_eq!(f.name, "entry");
    assert_eq!(f.xrefs_from, vec![0x10]);
    assert_eq!(f.xrefs_to, vec![0x20]);
    assert_eq!(f.assembly_preview.as_deref(), Some("xor eax, eax"));
    assert!(f.possible_networking);
    assert!(f.confidence >= 35 && f.confidence <= 80);
    assert!(matches!(&f.evidence[0], Evidence::Heuristic { note, .. } if note == "kept"));
    assert!(f.evidence.len() > 1);
    for e in &f.evidence[1..] {
        match e {
            Evidence::Import { module, symbol, .. } => {
                assert!(tagged.iter().any(|i| &i.module == module && &i.symbol == symbol))
            }
            Evidence::String { value, offset, .. } => {
                assert!(strings.iter().any(|s| &s.value == value && Some(s.offset) == *offset))
            }
            other => panic!("unexpected evidence {other:?}"),
        }
    }
}

#[test]
fn grounded_answers_cite_only_the_report() {
    let mut r = pending_report("a1", "f1", "p1", "x.bin", 10, hashes("abc123"));
    r.imports.push(ImportEntry { module: "ws2_32.dll".into(), symbol: "send".into(), ordinal: None, address: None, risk: RiskLevel::Low, tags: vec!["networking".into()] });
    r.strings.push(string("my license key", 0x30, StringCategory::Generic));
    r.functions.push(function("main_loop", 0x1234));
    for q in ["summarize", "where is networking", "license?", "show entry", "loop"] {
        let (_, cites) = grounded_answer(&r, q);
        for e in &cites {
            let ok = match e {
                Evidence::Hash { value, .. } => value == "abc123",
                Evidence::Import { module, symbol, .. } => r.imports.iter().any(|i| &i.module == module && &i.symbol == symbol),
                Evidence::String { value, offset, .. } => r.strings.iter().any(|s| &s.value == value && Some(s.offset) == *offset),
                Evidence::Function { address, .. } => address == "0x1234",
                _ => false,
            };
            assert!(ok, "{q}: {e:?}");
        }
    }
    assert_eq!(grounded_answer(&r, "where is networking").1.len(), 1);
}

#[test]
fn crypto_findings_are_well_formed() {
    let found = detect_crypto(b"uses DES and RC4 and ChaCha20");
    let algs: Vec<&str> = found.iter().map(|f| f.algorithm.as_str()).collect();
    assert_eq!(algs, vec!["ChaCha20", "RC4", "DES"]);
    for f in &found {
        assert_eq!(f.evidence.len(), 1);
        assert!(matches!(&f.evidence[0], Evidence::Constant { value, address: None, .. } if value == &f.algorithm));
        assert_eq!(f.weakness.is_some(), f.strength == "weak");
        assert!(f.confidence > 0 && f.confidence <= 100);
    }
    let des_note = |fs: &Vec<binaris::model::CryptoFinding>| {
        fs.iter().any(|f| matches!(&f.evidence[0], Evidence::Constant { note, .. } if note == "DES reference"))
    };
    assert!(des_note(&found));
    assert!(!des_note(&detect_crypto(b"DES and AES")));
    assert!(detect_crypto(b"").is_empty());
}

#[test]
fn providers_with_a_key_are_remote() {
    let cfg = |p: &str, key: Option<&str>| ProviderConfig {
        provider: p.into(),
        model: "m".into(),
        api_key: key.map(|k| k.to_string()),
        base_url: None,
    };
    match build_provider(&cfg("gemini", Some("k"))) {
        ProviderChoice::OpenAiCompatible { base_url, model, api_key } => {
            assert_eq!(base_url, "https://generativelanguage.googleapis.com/v1beta/openai");
            assert_eq!(model, "m");
            assert_eq!(api_key, "k");
        }
        ProviderChoice::Local => panic!("expected a remote provider"),
    }
    assert!(matches!(build_provider(&cfg("gemini", None)), ProviderChoice::Local));
    assert!(matches!(build_provider(&cfg("other", Some("k"))), ProviderChoice::Local));
}

fn b64_decode(s: &str) -> Vec<u8> {
    let val = |c: u8| -> u32 {
        match c {
            b'A'..=b'Z' => (c - b'A') as u32,
            b'a'..=b'z' => (c - b'a' + 26) as u32,
            b'0'..=b'9' => (c - b'0' + 52) as u32,
            b'+' => 62,
            _ => 63,
        }
    };
    let bytes = s.as_bytes();
    let mut out = Vec::new();
    for chunk in bytes.chunks(4) {
        let pad = chunk.iter().filter(|&&c| c == b'=').count();
        let mut n: u32 = 0;
        for &c in chunk {
            n = (n << 6) | if c == b'=' { 0 } else { val(c) };
        }
        let b = [(n >> 16) as u8, (n >> 8) as u8, n as u8];
        out.extend_from_slice(&b[..3 - pad]);
    }
    out
}

fn pdf_text(url: &str) -> String {
    let pdf = String::from_utf8(b64_decode(url.strip_prefix("data:application/pdf;base64,").unwrap())).unwrap();
    assert!(pdf.starts_with("%PDF-1.4\n"));
    assert!(pdf.ends_with("%%EOF\n"));
    let start = pdf.find("Td (").unwrap() + 4;
    let end = pdf.find(") Tj ET").unwrap();
    let stream_start = pdf.find(">>stream\n").unwrap() + ">>stream\n".len();
    let stream_end = pdf.find("\nendstream").unwrap();
    let len_at = pdf.find("/Length ").unwrap() + "/Length ".len();
    let len: usize = pdf[len_at..].split(' ').next().unwrap().parse().unwrap();
    assert_eq!(len, stream_end - stream_start);
    pdf[start..end].to_string()
}

fn unescape(e: &str) -> String {
    let mut out = String::new();
    let mut it = e.chars();
    while let Some(c) = it.next() {
        if c == '\\' {
            let n = it.next().expect("a backslash must start an escape");
            assert!(n == '\\' || n == '(' || n == ')');
            out.push(n);
        } else {
            assert!(c != '(' && c != ')');
            out.push(c);
        }
    }
    out
}

#[test]
fn pdf_text_never_ends_inside_an_escape() {
    let title = format!("{}(", "a".repeat(5999));
    let text = pdf_text(&generate_pdf_bytes("body", &title));
    assert_eq!(text.chars().count(), 5999);
    assert_eq!(unescape(&text), "a".repeat(5999));
    let short = pdf_text(&generate_pdf_bytes("x (y) \\ z", "T"));
    assert_eq!(short, "T\n\nx \\(y\\) \\\\ z");
    assert_eq!(unescape(&short), "T\n\nx (y) \\ z");
    let long = pdf_text(&generate_pdf_bytes(&"b".repeat(7000), "t"));
    assert_eq!(long.chars().count(), 6000);
}

#[test]
fn fuzzy_hash_shape() {
    assert_eq!(fuzzy_hash(b""), "3::");
    assert_eq!(fuzzy_hash(b"a"), "3:h:h");
    let data: Vec<u8> = (0..5000u32).map(|i| (i * 7 % 251) as u8).collect();
    let h = fuzzy_hash(&data);
    let parts: Vec<&str> = h.split(':').collect();
    assert_eq!(parts.len(), 3);
    assert_eq!(parts[0], "12");
    assert_eq!(parts[1].len(), parts[2].len());
    assert!(parts[1].len() >= 1 && parts[1].len() <= 32);
    assert!(parts[1].chars().chain(parts[2].chars()).all(|c| c.is_ascii_alphanumeric() || c == '+' || c == '/'));
}

#[test]
fn pseudocode_has_one_line_per_kept_line() {
    let listing = "push rbp\n\n; comment\nmov rbp, rsp\n   \nret";
    let p = from_assembly_preview(listing, "f");
    assert_eq!(p.lines().count(), 3 + 2);
    assert!(p.ends_with('}'));
    let many: String = (0..100).map(|_| "nop\n").collect();
    assert_eq!(from_assembly_preview(&many, "g").lines().count(), 82);
}
