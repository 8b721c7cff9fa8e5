use binaris::api::{empty_identity, empty_malware, pending_report};
use binaris::decomp::{
    apply_backend_pseudocode, apply_builtin_pseudocode, decode_kstool_output, decomp_enrichment,
    ghidra_result, kstool_target, scan_binary_strings, tool_command, tool_result, DecompBackendResult,
};
use binaris::model::{
    ExtractedString, FileHashes, FunctionAnalysis, NetworkIndicator, NetworkKind, ReportFormat,
    ReportKind, RiskLevel, SecurityFinding, StringCategory,
};
use binaris::report::ReportDocument;
use binaris::runner::{
    collect_iocs, complete_report, identity_line, malware_line, pipeline_plan, top_findings,
    yara_rules_of, PipelineEvent,
};
use binaris::pipeline::PipelineStage;

fn function(name: &str, preview: Option<&str>) -> FunctionAnalysis {
    FunctionAnalysis {
        id: "id".into(),
        address: 0x1000,
        size: 4,
        name: name.into(),
        suggested_name: None,
        description: None,
        purpose: None,
        inputs: vec![],
        outputs: vec![],
        complexity: 80,
        interesting_constants: vec![],
        possible_vulnerabilities: vec![],
        possible_crypto: false,
        possible_networking: false,
        possible_anti_debug: false,
        possible_persistence: false,
        possible_injection: false,
        xrefs_from: vec![],
        xrefs_to: vec![],
        pseudocode_summary: None,
        assembly_preview: preview.map(|s| s.to_string()),
        confidence: 35,
        evidence: vec![],
        tags: vec![],
    }
}

#[test]
fn languages_most_confident_first() {
    let hits = scan_binary_strings(b"#include <stdio.h>\nfn main() {}\n; ModuleID = 'x'");
    let langs: Vec<&str> = hits.iter().map(|h| h.language.as_str()).collect();
    assert_eq!(langs, vec!["llvm_ir", "rust", "c"]);
    assert_eq!(hits[0].confidence, 85);
    assert_eq!(hits[2].evidence, "C markers");
    assert!(scan_binary_strings(b"nothing here").is_empty());
}

#[test]
fn backend_reports() {
    assert_eq!(tool_command("rizin"), "aaa; s entry0; pdg 2>/dev/null || pdc 2>/dev/null || pdf");
    assert_eq!(tool_command("radare2"), "aaa; s entry0; pdc 2>/dev/null || pdf");
    let failed = tool_result("rizin", b"  \n", b"boom", false);
    assert_eq!(failed.pseudocode, None);
    assert_eq!(failed.notes, vec!["tool failed: boom".to_string()]);
    let ok = tool_result("radare2", b"int main() {}", b"", true);
    assert_eq!(ok.pseudocode.as_deref(), Some("int main() {}"));
    assert_eq!(ok.notes, vec!["Invoked radare2 quiet analysis".to_string()]);
    let g = ghidra_result("/opt/ghidra/support/analyzeHeadless", b"out", b"err");
    assert_eq!(
        g.pseudocode.as_deref(),
        Some("// Ghidra headless invocation completed\n// path: /opt/ghidra/support/analyzeHeadless\n/*\nout\nerr\n*/")
    );
    assert_eq!(kstool_target("x86", "64"), "x86-64");
    assert_eq!(decode_kstool_output(b"90 c3").unwrap(), vec![0x90, 0xc3]);
    assert_eq!(decode_kstool_output(b"9").unwrap_err(), "Odd number of digits");
}

#[test]
fn pseudocode_on_functions() {
    let mut fs = vec![function("entry", Some("mov eax, 1\nret")), function("f2", None)];
    apply_builtin_pseudocode(&mut fs);
    assert!(fs[0].pseudocode_summary.as_deref().unwrap().starts_with("void entry() {"));
    assert_eq!(fs[0].description, fs[0].pseudocode_summary);
    assert!(fs[1].pseudocode_summary.is_some());
    let r = DecompBackendResult { backend: "rizin".into(), available: true, pseudocode: Some("X".into()), notes: vec![] };
    let before = fs[0].pseudocode_summary.clone().unwrap();
    apply_backend_pseudocode(&mut fs, &r);
    assert_eq!(fs[0].pseudocode_summary.as_deref().unwrap(), format!("// via rizin\nX\n\n{before}"));
    assert_eq!(fs[0].tags, vec!["decomp:rizin".to_string()]);
    assert_eq!(fs[0].confidence, 45);
    let mut high = vec![function("g", None)];
    high[0].confidence = 90;
    apply_backend_pseudocode(&mut high, &r);
    assert_eq!(high[0].confidence, 95);
}

#[test]
fn enrichment_records_every_backend() {
    let mut fs = vec![function("entry", Some("ret"))];
    let e = decomp_enrichment(b"package main", &mut fs, None, None, None, false);
    let names: Vec<&str> = e.backends.iter().map(|b| b.backend.as_str()).collect();
    assert_eq!(names, vec!["binaris-pseudocode", "ghidra", "rizin", "radare2", "keystone"]);
    assert!(e.backends[0].available);
    assert_eq!(e.backends[0].pseudocode, fs[0].pseudocode_summary);
    assert_eq!(e.backends[1].notes, vec!["GHIDRA_HOME / analyzeHeadless not found".to_string()]);
    assert_eq!(e.backends[4].notes, vec!["kstool not on PATH".to_string()]);
    assert_eq!(e.language_structures[0].language, "go");
}

#[test]
fn run_events() {
    let plan = pipeline_plan(false);
    assert_eq!(plan.len(), 16);
    assert_eq!(plan[0], (PipelineStage::Hashing, "Computing cryptographic hashes".to_string()));
    assert_eq!(plan[10].1, "AI disabled — skipping semantic enrichment");
    assert_eq!(pipeline_plan(true)[10].1, "Running AI semantic rename / enrichment");
    assert_eq!(plan[15].0, PipelineStage::Completed);
    for k in 0..15 {
        assert_eq!(plan[k].0.next(), Some(plan[k + 1].0));
    }
    let e = PipelineEvent::new("a1", PipelineStage::Disassembly, "x");
    assert_eq!(e.progress, 35);
    assert!(e.error.is_none());
    let f = PipelineEvent::failed("a1", "boom");
    assert_eq!((f.stage, f.progress, f.error.as_deref()), (PipelineStage::Failed, 100, Some("pipeline_failed")));
}

#[test]
fn summary_lines() {
    assert_eq!(identity_line(&empty_identity()), "Identified as Unknown Unknown (Unknown). Compiler=unknown.");
    let mut m = empty_malware();
    m.malware_probability = 87;
    assert_eq!(malware_line(&m), "Malware probability 87% (Unknown).");
    let finding = |t: &str, s: RiskLevel| SecurityFinding {
        id: "i".into(),
        title: t.into(),
        category: "c".into(),
        severity: s,
        confidence: 50,
        description: "d".into(),
        cwe: None,
        location: None,
        evidence: vec![],
        remediation: None,
    };
    let fs: Vec<SecurityFinding> = (0..10).map(|i| finding(&format!("t{i}"), RiskLevel::High)).collect();
    let top = top_findings(&fs);
    assert_eq!(top.len(), 8);
    assert_eq!(top[0], "High: t0");
}

#[test]
fn indicators_sorted_once() {
    let hashes = FileHashes {
        md5: "bb".into(),
        sha1: "s".into(),
        sha256: "aa".into(),
        sha3_256: "t".into(),
        blake3: "b".into(),
        imphash: None,
        ssdeep: None,
        tlsh: None,
    };
    let net = vec![NetworkIndicator { kind: NetworkKind::Domain, value: "zz.example".into(), port: None, protocol: None, evidence: vec![], suspicious: false }];
    let s = |v: &str, c: StringCategory| ExtractedString { value: v.into(), offset: 0, encoding: "ascii".into(), category: c, score: 50 };
    let strings = vec![s("Global\\Mtx", StringCategory::Mutex), s("hello", StringCategory::Generic), s("aa", StringCategory::Path)];
    assert_eq!(collect_iocs(&hashes, &net, &strings), vec!["Global\\Mtx", "aa", "bb", "zz.example"]);
}

#[test]
fn completing_a_report() {
    let hashes = FileHashes {
        md5: "m".into(),
        sha1: "s".into(),
        sha256: "h".into(),
        sha3_256: "t".into(),
        blake3: "b".into(),
        imphash: None,
        ssdeep: None,
        tlsh: None,
    };
    let mut r = pending_report("a", "f", "p", "x", 1, hashes);
    let doc = |k: ReportKind, c: &str| ReportDocument {
        id: "d".into(),
        analysis_id: "a".into(),
        kind: k,
        format: ReportFormat::Markdown,
        title: "t".into(),
        content: c.into(),
        created_at: "now".into(),
    };
    let docs = vec![doc(ReportKind::Executive, "e"), doc(ReportKind::Yara, "rule a {}"), doc(ReportKind::Yara, "rule b {}")];
    assert_eq!(yara_rules_of(&docs), vec!["rule a {}", "rule b {}"]);
    complete_report(&mut r, &docs);
    assert_eq!(r.stage, PipelineStage::Completed);
    assert_eq!(r.progress, 100);
    assert!(r.completed_at.is_some());
    assert_eq!(r.yara_rules.len(), 2);
}
