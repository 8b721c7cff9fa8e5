//! One analysis run: the events it reports, the lines of its summaries, the
//! indicators of compromise it collects, and the report it assembles.
//!
//! The run itself (awaiting decompilers and network lookups, classifying
//! malware) is driven from outside this library, which supplies each step.
use vstd::prelude::*;
use crate::chat::sel;
use crate::crypto_detect::one_if;
use crate::lexical::{lex_sorted_set, sorted_set_of, texts_view};
use crate::model::{
    arch_name, family_name, format_name, network_views, os_name, risk_name, security_views,
    string_views, BinaryIdentity, ExtractedString, ExtractedStringView, FileHashes, IdentityView,
    NetworkIndicator, NetworkIndicatorView, ReportKind, SecurityFinding, SecurityFindingView,
    StringCategory,
};
use crate::pipeline::{spec_next, spec_progress, PipelineStage};
use crate::report::{document_views, AnalysisReport, DocumentView, MalwareView, ReportDocument};
use crate::strings::take_upto;
use crate::text::{
    copy_string, dec_of, owned, push_dec, push_str, push_string, str_chars, string_of,
    strings_view,
};

verus! {

// ---------------------------------------------------------------------------
// Events
// ---------------------------------------------------------------------------

/// A progress event of an analysis run.
#[derive(Debug, Clone)]
pub struct PipelineEvent {
    pub analysis_id: String,
    pub stage: PipelineStage,
    pub message: String,
    pub progress: u8,
    /// RFC 3339 time of the event.
    pub at: String,
    pub error: Option<String>,
}

impl PipelineEvent {
    /// An event of the stage, at its progress, stamped with the current time.
    pub fn new(analysis_id: &str, stage: PipelineStage, message: &str) -> (e: PipelineEvent)
        ensures
            e.analysis_id@ == analysis_id@,
            e.stage == stage,
            e.message@ == message@,
            e.progress == spec_progress(stage),
            e.error is None,
    {
        PipelineEvent {
            analysis_id: owned(analysis_id),
            stage,
            message: owned(message),
            progress: stage.progress_percent(),
            at: crate::reports::now_rfc3339(),
            error: None,
        }
    }

    /// The event of a failed run: the `Failed` stage at full progress.
    pub fn failed(analysis_id: &str, message: &str) -> (e: PipelineEvent)
        ensures
            e.analysis_id@ == analysis_id@,
            e.stage == PipelineStage::Failed,
            e.message@ == message@,
            e.progress == 100,
            crate::text::opt_view(e.error) == Some("pipeline_failed"@),
    {
        PipelineEvent {
            analysis_id: owned(analysis_id),
            stage: PipelineStage::Failed,
            message: owned(message),
            progress: 100,
            at: crate::reports::now_rfc3339(),
            error: Some(owned("pipeline_failed")),
        }
    }
}

/// The number of events a run reports.
pub open spec fn plan_len() -> int {
    16
}

/// Event `k` of a run: its stage and message.
pub open spec fn plan_entry(k: int, enable_ai: bool) -> (PipelineStage, Seq<char>) {
    if k == 0 { (PipelineStage::Hashing, "Computing cryptographic hashes"@) }
    else if k == 1 { (PipelineStage::Identification, "Identifying file format and architecture"@) }
    else if k == 2 { (PipelineStage::Unpacking, "Checking packers / containers"@) }
    else if k == 3 { (PipelineStage::StaticAnalysis, "Running static analysis engine"@) }
    else if k == 4 { (PipelineStage::Disassembly, "Disassembling + decomp backends"@) }
    else if k == 5 { (PipelineStage::GraphConstruction, "Building program graphs (call/CFG/DFG/memory)"@) }
    else if k == 6 { (PipelineStage::FunctionExtraction, "Extracting and classifying functions"@) }
    else if k == 7 { (PipelineStage::StringExtraction, "Classifying strings"@) }
    else if k == 8 { (PipelineStage::ImportExportAnalysis, "Analyzing imports and exports"@) }
    else if k == 9 { (PipelineStage::ResourceExtraction, "Extracting resources and dependencies"@) }
    else if k == 10 {
        (PipelineStage::AiSemantic, if enable_ai {
            "Running AI semantic rename / enrichment"@
        } else {
            "AI disabled — skipping semantic enrichment"@
        })
    }
    else if k == 11 { (PipelineStage::SecurityAnalysis, "Running security engine"@) }
    else if k == 12 { (PipelineStage::MalwareAnalysis, "Running malware classification"@) }
    else if k == 13 { (PipelineStage::ReportGeneration, "Generating reports (MD/HTML/PDF/SARIF/YARA)"@) }
    else if k == 14 { (PipelineStage::ChatIndexing, "Indexing analysis for chat retrieval"@) }
    else { (PipelineStage::Completed, "Analysis complete"@) }
}

fn plan_entry_exec(k: usize, enable_ai: bool) -> (r: (PipelineStage, &'static str))
    requires
        k < 16,
    ensures
        (r.0, r.1@) == plan_entry(k as int, enable_ai),
{
    match k {
        0 => (PipelineStage::Hashing, "Computing cryptographic hashes"),
        1 => (PipelineStage::Identification, "Identifying file format and architecture"),
        2 => (PipelineStage::Unpacking, "Checking packers / containers"),
        3 => (PipelineStage::StaticAnalysis, "Running static analysis engine"),
        4 => (PipelineStage::Disassembly, "Disassembling + decomp backends"),
        5 => (PipelineStage::GraphConstruction, "Building program graphs (call/CFG/DFG/memory)"),
        6 => (PipelineStage::FunctionExtraction, "Extracting and classifying functions"),
        7 => (PipelineStage::StringExtraction, "Classifying strings"),
        8 => (PipelineStage::ImportExportAnalysis, "Analyzing imports and exports"),
        9 => (PipelineStage::ResourceExtraction, "Extracting resources and dependencies"),
        10 => (PipelineStage::AiSemantic, if enable_ai {
            "Running AI semantic rename / enrichment"
        } else {
            "AI disabled — skipping semantic enrichment"
        }),
        11 => (PipelineStage::SecurityAnalysis, "Running security engine"),
        12 => (PipelineStage::MalwareAnalysis, "Running malware classification"),
        13 => (PipelineStage::ReportGeneration, "Generating reports (MD/HTML/PDF/SARIF/YARA)"),
        14 => (PipelineStage::ChatIndexing, "Indexing analysis for chat retrieval"),
        _ => (PipelineStage::Completed, "Analysis complete"),
    }
}

/// The stages and messages a run reports, in order.
pub fn pipeline_plan(enable_ai: bool) -> (r: Vec<(PipelineStage, String)>)
    ensures
        r@.len() == plan_len(),
        forall|k: int| 0 <= k < plan_len() ==> (#[trigger] r@[k].0, r@[k].1@) == plan_entry(k, enable_ai),
{
    let mut out: Vec<(PipelineStage, String)> = Vec::new();
    let mut k: usize = 0;
    while k < 16
        invariant
            k <= 16,
            out@.len() == k,
            forall|j: int| 0 <= j < k ==> (#[trigger] out@[j].0, out@[j].1@) == plan_entry(j, enable_ai),
        decreases 16 - k,
    {
        let (s, m) = plan_entry_exec(k, enable_ai);
        out.push((s, owned(m)));
        k += 1;
    }
    out
}

/// A run reports every stage of the normal path once, in order: it starts
/// at the stage after `Queued`, each event's stage follows the one before,
/// and it ends at `Completed`.
pub proof fn law_plan_follows_stages(enable_ai: bool)
    ensures
        spec_next(PipelineStage::Queued) == Some(plan_entry(0, enable_ai).0),
        forall|k: int| 0 <= k < plan_len() - 1 ==> spec_next(#[trigger] plan_entry(k, enable_ai).0) == Some(
            plan_entry(k + 1, enable_ai).0,
        ),
        plan_entry(plan_len() - 1, enable_ai).0 == PipelineStage::Completed,
{
}

// ---------------------------------------------------------------------------
// Summary lines
// ---------------------------------------------------------------------------

/// `{severity:?}: {title}` of the first eight findings.
pub open spec fn spec_top_findings(fs: Seq<SecurityFindingView>) -> Seq<Seq<char>> {
    take_upto(fs, 8).map_values(|f: SecurityFindingView| risk_name(f.severity) + ": "@ + f.title)
}

/// The headline of each of the first eight findings.
pub fn top_findings(security: &Vec<SecurityFinding>) -> (r: Vec<String>)
    ensures
        strings_view(r@) == spec_top_findings(security_views(security@)),
{
    let ghost sv = security_views(security@);
    let n: usize = if security.len() < 8 { security.len() } else { 8 };
    let mut out: Vec<String> = Vec::new();
    let mut i: usize = 0;
    while i < n
        invariant
            i <= n,
            n == (if security@.len() < 8 { security@.len() as int } else { 8int }),
            sv == security_views(security@),
            strings_view(out@) == sv.subrange(0, i as int).map_values(
                |f: SecurityFindingView| risk_name(f.severity) + ": "@ + f.title,
            ),
        decreases n - i,
    {
        let mut s = owned(security[i].severity.name());
        push_str(&mut s, ": ");
        push_string(&mut s, &security[i].title);
        let ghost ob = out@;
        out.push(s);
        proof {
            assert(strings_view(out@) =~= strings_view(ob).push(s@));
            assert(sv.subrange(0, i + 1).map_values(|f: SecurityFindingView| risk_name(f.severity) + ": "@ + f.title)
                =~= sv.subrange(0, i as int).map_values(
                |f: SecurityFindingView| risk_name(f.severity) + ": "@ + f.title,
            ).push(s@));
        }
        i += 1;
    }
    proof {
        assert(take_upto(sv, 8) =~= sv.subrange(0, n as int));
    }
    out
}

/// `Identified as {format:?} {arch:?} ({os:?}). Compiler={compiler or unknown}.`
pub open spec fn spec_identity_line(id: IdentityView) -> Seq<char> {
    "Identified as "@ + format_name(id.format) + " "@ + arch_name(id.architecture) + " ("@ + os_name(id.os)
        + "). Compiler="@ + crate::chat::text_or(id.compiler, "unknown"@) + "."@
}

/// The identity line of the summaries.
pub fn identity_line(identity: &BinaryIdentity) -> (r: String)
    ensures
        r@ == spec_identity_line(identity@),
{
    let mut s = owned("Identified as ");
    push_str(&mut s, identity.format.name());
    push_str(&mut s, " ");
    push_str(&mut s, identity.architecture.name());
    push_str(&mut s, " (");
    push_str(&mut s, identity.os.name());
    push_str(&mut s, "). Compiler=");
    match &identity.compiler {
        Some(c) => push_string(&mut s, c),
        None => push_str(&mut s, "unknown"),
    }
    push_str(&mut s, ".");
    s
}

/// `Malware probability {percent}% ({family:?}).`
pub open spec fn spec_malware_line(m: MalwareView) -> Seq<char> {
    "Malware probability "@ + dec_of(m.malware_probability as nat) + "% ("@ + family_name(m.family) + ")."@
}

/// The malware line of the summaries.
pub fn malware_line(malware: &crate::report::MalwareClassification) -> (r: String)
    ensures
        r@ == spec_malware_line(malware@),
{
    let mut s = owned("Malware probability ");
    push_dec(&mut s, malware.malware_probability as u64);
    push_str(&mut s, "% (");
    push_str(&mut s, malware.family.name());
    push_str(&mut s, ").");
    s
}

// ---------------------------------------------------------------------------
// Indicators of compromise
// ---------------------------------------------------------------------------

/// Strings that name a mutex, a registry key or a path.
pub open spec fn is_host_artifact(c: StringCategory) -> bool {
    c == StringCategory::Mutex || c == StringCategory::Registry || c == StringCategory::Path
}

/// The indicators: the SHA-256 and MD5 hashes, every network indicator and
/// every mutex, registry and path string; sorted, each once.
pub open spec fn spec_iocs(sha256: Seq<char>, md5: Seq<char>, net: Seq<NetworkIndicatorView>, ss: Seq<ExtractedStringView>) -> Seq<Seq<char>> {
    lex_sorted_set(
        seq![sha256, md5] + net.map_values(|n: NetworkIndicatorView| n.value) + sel(
            ss,
            |s: ExtractedStringView| is_host_artifact(s.category),
        ).map_values(|s: ExtractedStringView| s.value),
    )
}

/// The indicators come sorted, each once, and always hold the SHA-256 and
/// MD5 hashes, every network indicator and every host-artifact string.
pub proof fn law_iocs_sorted_with_hashes(
    sha256: Seq<char>,
    md5: Seq<char>,
    net: Seq<NetworkIndicatorView>,
    ss: Seq<ExtractedStringView>,
)
    ensures
        crate::lexical::lex_increasing(spec_iocs(sha256, md5, net, ss)),
        spec_iocs(sha256, md5, net, ss).contains(sha256),
        spec_iocs(sha256, md5, net, ss).contains(md5),
        forall|i: int| 0 <= i < net.len() ==> spec_iocs(sha256, md5, net, ss).contains(#[trigger] net[i].value),
{
    broadcast use vstd::seq_lib::group_seq_properties;

    let all = seq![sha256, md5] + net.map_values(|n: NetworkIndicatorView| n.value) + sel(
        ss,
        |s: ExtractedStringView| is_host_artifact(s.category),
    ).map_values(|s: ExtractedStringView| s.value);
    crate::lexical::law_lex_sorted_set(all);
    let r = spec_iocs(sha256, md5, net, ss);
    assert(all[0] == sha256 && all[1] == md5);
    assert(r.to_set().contains(sha256) == all.to_set().contains(sha256));
    assert(r.to_set().contains(md5) == all.to_set().contains(md5));
    assert forall|i: int| 0 <= i < net.len() implies r.contains(#[trigger] net[i].value) by {
        assert(all[2 + i] == net[i].value);
        assert(all.contains(net[i].value));
        assert(r.to_set().contains(net[i].value) == all.to_set().contains(net[i].value));
    }
}

/// Collects the indicators of compromise of an analysis.
pub fn collect_iocs(hashes: &FileHashes, network: &Vec<NetworkIndicator>, strings: &Vec<ExtractedString>) -> (r: Vec<String>)
    ensures
        strings_view(r@) == spec_iocs(hashes.sha256@, hashes.md5@, network_views(network@), string_views(strings@)),
{
    let ghost nv = network_views(network@);
    let ghost sv = string_views(strings@);
    let mut all: Vec<Vec<char>> = Vec::new();
    all.push(str_chars(hashes.sha256.as_str()));
    all.push(str_chars(hashes.md5.as_str()));
    proof {
        assert(texts_view(all@) =~= seq![hashes.sha256@, hashes.md5@]);
    }
    let mut i: usize = 0;
    while i < network.len()
        invariant
            i <= network@.len(),
            nv == network_views(network@),
            texts_view(all@) == seq![hashes.sha256@, hashes.md5@] + nv.subrange(0, i as int).map_values(
                |n: NetworkIndicatorView| n.value,
            ),
        decreases network@.len() - i,
    {
        let v = str_chars(network[i].value.as_str());
        let ghost ab = all@;
        all.push(v);
        proof {
            assert(texts_view(all@) =~= texts_view(ab).push(v@));
            assert(nv.subrange(0, i + 1).map_values(|n: NetworkIndicatorView| n.value) =~= nv.subrange(
                0,
                i as int,
            ).map_values(|n: NetworkIndicatorView| n.value).push(v@));
        }
        i += 1;
    }
    proof {
        assert(nv.subrange(0, nv.len() as int) =~= nv);
    }
    let ghost head = texts_view(all@);
    let mut j: usize = 0;
    while j < strings.len()
        invariant
            j <= strings@.len(),
            sv == string_views(strings@),
            head == seq![hashes.sha256@, hashes.md5@] + nv.map_values(|n: NetworkIndicatorView| n.value),
            texts_view(all@) == head + sel(sv.subrange(0, j as int), |s: ExtractedStringView| is_host_artifact(s.category)).map_values(
                |s: ExtractedStringView| s.value,
            ),
        decreases strings@.len() - j,
    {
        let ghost ab = all@;
        let c = strings[j].category;
        let keep = c == StringCategory::Mutex || c == StringCategory::Registry || c == StringCategory::Path;
        if keep {
            let v = str_chars(strings[j].value.as_str());
            all.push(v);
            proof {
                assert(texts_view(all@) =~= texts_view(ab).push(v@));
            }
        }
        proof {
            let p = |s: ExtractedStringView| is_host_artifact(s.category);
            let f = |s: ExtractedStringView| s.value;
            let pre = sv.subrange(0, j as int);
            let post = sv.subrange(0, j + 1);
            assert(post.drop_last() =~= pre);
            assert(post.last() == sv[j as int]);
            assert(sv[j as int].category == strings@[j as int].category);
            assert(keep == p(sv[j as int]));
            assert(sel(post, p) == sel(pre, p) + one_if(p(sv[j as int]), sv[j as int]));
            assert(sel(post, p).map_values(f) =~= sel(pre, p).map_values(f) + one_if(p(sv[j as int]), sv[j as int]).map_values(f));
            if keep {
                assert(one_if(p(sv[j as int]), sv[j as int]).map_values(f) =~= seq![sv[j as int].value]);
            } else {
                assert(one_if(p(sv[j as int]), sv[j as int]).map_values(f) =~= Seq::<Seq<char>>::empty());
            }
            assert(texts_view(all@) =~= head + sel(post, p).map_values(f));
        }
        j += 1;
    }
    proof {
        assert(sv.subrange(0, sv.len() as int) =~= sv);
    }
    let sorted = sorted_set_of(all);
    let mut out: Vec<String> = Vec::new();
    let mut k: usize = 0;
    while k < sorted.len()
        invariant
            k <= sorted@.len(),
            strings_view(out@) == texts_view(sorted@).subrange(0, k as int),
        decreases sorted@.len() - k,
    {
        let s = string_of(sorted[k].as_slice());
        let ghost ob = out@;
        out.push(s);
        proof {
            assert(strings_view(out@) =~= strings_view(ob).push(s@));
            assert(texts_view(sorted@).subrange(0, k + 1) =~= texts_view(sorted@).subrange(0, k as int).push(s@));
        }
        k += 1;
    }
    proof {
        assert(texts_view(sorted@).subrange(0, sorted@.len() as int) =~= texts_view(sorted@));
    }
    out
}

// ---------------------------------------------------------------------------
// Completing the report
// ---------------------------------------------------------------------------

/// The contents of the YARA documents, in order.
pub open spec fn spec_yara_rules(docs: Seq<DocumentView>) -> Seq<Seq<char>> {
    sel(docs, |d: DocumentView| d.kind == ReportKind::Yara).map_values(|d: DocumentView| d.content)
}

/// The YARA rules among the generated documents.
pub fn yara_rules_of(documents: &Vec<ReportDocument>) -> (r: Vec<String>)
    ensures
        strings_view(r@) == spec_yara_rules(document_views(documents@)),
{
    let ghost dv = document_views(documents@);
    let mut out: Vec<String> = Vec::new();
    let mut i: usize = 0;
    while i < documents.len()
        invariant
            i <= documents@.len(),
            dv == document_views(documents@),
            strings_view(out@) == sel(dv.subrange(0, i as int), |d: DocumentView| d.kind == ReportKind::Yara).map_values(
                |d: DocumentView| d.content,
            ),
        decreases documents@.len() - i,
    {
        let ghost ob = out@;
        let is_yara = match documents[i].kind {
            ReportKind::Yara => true,
            _ => false,
        };
        if is_yara {
            let c = copy_string(&documents[i].content);
            out.push(c);
            proof {
                assert(strings_view(out@) =~= strings_view(ob).push(c@));
            }
        }
        proof {
            let p = |d: DocumentView| d.kind == ReportKind::Yara;
            let f = |d: DocumentView| d.content;
            let pre = dv.subrange(0, i as int);
            let post = dv.subrange(0, i + 1);
            assert(post.drop_last() =~= pre);
            assert(post.last() == dv[i as int]);
            assert(dv[i as int].kind == documents@[i as int].kind);
            assert(is_yara == p(dv[i as int]));
            assert(sel(post, p) == sel(pre, p) + one_if(p(dv[i as int]), dv[i as int]));
            assert(sel(post, p).map_values(f) =~= sel(pre, p).map_values(f) + one_if(p(dv[i as int]), dv[i as int]).map_values(f));
            if is_yara {
                assert(one_if(p(dv[i as int]), dv[i as int]).map_values(f) =~= seq![dv[i as int].content]);
            } else {
                assert(one_if(p(dv[i as int]), dv[i as int]).map_values(f) =~= Seq::<Seq<char>>::empty());
            }
            assert(strings_view(out@) =~= sel(post, p).map_values(f));
        }
        i += 1;
    }
    proof {
        assert(dv.subrange(0, dv.len() as int) =~= dv);
    }
    out
}

/// Marks the report complete: the YARA rules of its documents recorded,
/// stage `Completed` at full progress, completed and updated now; every
/// other field as it was.
pub fn complete_report(report: &mut AnalysisReport, documents: &Vec<ReportDocument>)
    ensures
        strings_view(final(report).yara_rules@) == spec_yara_rules(document_views(documents@)),
        final(report).stage == PipelineStage::Completed,
        final(report).progress == 100,
        final(report).completed_at is Some,
        *final(report) == (AnalysisReport {
            yara_rules: final(report).yara_rules,
            stage: PipelineStage::Completed,
            progress: 100,
            completed_at: final(report).completed_at,
            updated_at: final(report).updated_at,
            ..*old(report)
        }),
{
    report.yara_rules = yara_rules_of(documents);
    report.stage = PipelineStage::Completed;
    report.progress = 100;
    report.completed_at = Some(crate::reports::now_rfc3339());
    report.updated_at = crate::reports::now_rfc3339();
}

/// The addresses the graphs compute fit in 64 bits: the ends of the first
/// thirty-two functions and one past the end of every section.
pub open spec fn graphs_fit(fs: Seq<crate::model::FunctionAnalysis>, ss: Seq<crate::model::SectionInfo>) -> bool {
    &&& forall|i: int| 0 <= i < fs.len() && i < 32 ==> #[trigger] fs[i].address + fs[i].size <= u64::MAX
    &&& forall|i: int| 0 <= i < ss.len() ==> #[trigger] ss[i].virtual_address + ss[i].virtual_size + 1 <= u64::MAX
}

fn graphs_fit_exec(fs: &Vec<crate::model::FunctionAnalysis>, ss: &Vec<crate::model::SectionInfo>) -> (r: bool)
    ensures
        r == graphs_fit(fs@, ss@),
{
    let n: usize = if fs.len() < 32 { fs.len() } else { 32 };
    let mut i: usize = 0;
    while i < n
        invariant
            i <= n,
            n == (if fs@.len() < 32 { fs@.len() as int } else { 32int }),
            forall|k: int| 0 <= k < i ==> #[trigger] fs@[k].address + fs@[k].size <= u64::MAX,
        decreases n - i,
    {
        if fs[i].address > u64::MAX - fs[i].size {
            return false;
        }
        i += 1;
    }
    let mut j: usize = 0;
    while j < ss.len()
        invariant
            j <= ss@.len(),
            forall|k: int| 0 <= k < fs@.len() && k < 32 ==> #[trigger] fs@[k].address + fs@[k].size <= u64::MAX,
            forall|k: int| 0 <= k < j ==> #[trigger] ss@[k].virtual_address + ss@[k].virtual_size + 1 <= u64::MAX,
        decreases ss@.len() - j,
    {
        if ss[j].virtual_address >= u64::MAX - ss[j].virtual_size {
            return false;
        }
        j += 1;
    }
    true
}

/// The parts of a report that come from outside the static analysis.
pub struct ReportParts {
    pub analysis_id: String,
    pub file_id: String,
    pub project_id: String,
    pub filename: String,
    pub size_bytes: u64,
    pub security: Vec<SecurityFinding>,
    pub malware: crate::report::MalwareClassification,
    pub network_graph: crate::report::GraphPayload,
    /// The network intelligence, the decompiler reports and the language
    /// structures, as JSON text.
    pub network_intel: String,
    pub decomp_backends: String,
    pub language_structures: String,
    /// The software bill of materials, as JSON text.
    pub sbom: String,
}

/// Assembles the report of a run at the report-generation stage: the static
/// analysis, the program graphs built from it, the summaries (from the
/// identity and malware lines and the top eight findings) and the sorted
/// indicators; no YARA rules yet. `None` where the graphs' addresses
/// overflow 64 bits.
pub fn assemble_report(result: crate::engine::StaticAnalysisResult, parts: ReportParts) -> (r: Option<AnalysisReport>)
    ensures
        r is Some <==> graphs_fit(result.functions@, result.sections@),
        r matches Some(rep) ==> {
            let fv = crate::model::function_views(result.functions@);
            let top = spec_top_findings(security_views(parts.security@));
            &&& rep.id@ == parts.analysis_id@
            &&& rep.file_id@ == parts.file_id@
            &&& rep.project_id@ == parts.project_id@
            &&& rep.stage == PipelineStage::ReportGeneration
            &&& rep.progress == spec_progress(PipelineStage::ReportGeneration)
            &&& rep.completed_at is None
            &&& rep.error is None
            &&& rep@.filename == parts.filename@
            &&& rep@.size_bytes == parts.size_bytes
            &&& rep@.sha256 == result.hashes.sha256@
            &&& rep@.identity == result.identity@
            &&& rep@.sections == crate::model::section_views(result.sections@)
            &&& rep@.imports == crate::model::import_views(result.imports@)
            &&& rep@.strings == string_views(result.strings@)
            &&& rep@.network == network_views(result.network@)
            &&& rep@.crypto == crate::model::crypto_views(result.crypto@)
            &&& rep@.packers == crate::model::packer_views(result.packers@)
            &&& rep@.functions == fv
            &&& rep@.security == security_views(parts.security@)
            &&& rep@.malware == parts.malware@
            &&& (rep.call_graph@.nodes, rep.call_graph@.edges) == crate::graphs::spec_call_graph(fv)
            &&& (rep.cfg_summary@.nodes, rep.cfg_summary@.edges) == crate::graphs::spec_cfg_summary(fv)
            &&& (rep.import_graph@.nodes, rep.import_graph@.edges) == crate::graphs::spec_import_graph(
                crate::model::import_views(result.imports@),
                result.exports@.map_values(|e: crate::model::ExportEntry| crate::graphs::export_view(e)),
            )
            &&& (rep.dfg@.nodes, rep.dfg@.edges) == crate::graphs::spec_dfg(fv)
            &&& (rep.memory_graph@.nodes, rep.memory_graph@.edges) == crate::graphs::spec_memory_graph(
                fv,
                crate::model::section_views(result.sections@),
            )
            &&& rep.network_graph@ == parts.network_graph@
            &&& rep.network_intel@ == parts.network_intel@
            &&& rep.decomp_backends@ == parts.decomp_backends@
            &&& rep.language_structures@ == parts.language_structures@
            &&& rep@.executive_summary == crate::semantic::executive_text(
                parts.filename@,
                spec_identity_line(result.identity@),
                spec_malware_line(parts.malware@),
                top,
            )
            &&& rep@.technical_summary == crate::semantic::technical_text(
                parts.filename@,
                spec_identity_line(result.identity@),
                top,
            )
            &&& rep@.iocs == spec_iocs(
                result.hashes.sha256@,
                result.hashes.md5@,
                network_views(result.network@),
                string_views(result.strings@),
            )
            &&& rep.yara_rules@.len() == 0
            &&& rep@.sbom == parts.sbom@
            &&& rep.filename == parts.filename
            &&& rep.size_bytes == parts.size_bytes
            &&& rep.hashes == result.hashes
            &&& rep.identity == result.identity
            &&& rep.sections == result.sections
            &&& rep.imports == result.imports
            &&& rep.exports == result.exports
            &&& rep.strings == result.strings
            &&& rep.network == result.network
            &&& rep.crypto == result.crypto
            &&& rep.packers == result.packers
            &&& rep.functions == result.functions
            &&& rep.security == parts.security
            &&& rep.malware == parts.malware
            &&& rep.signature == result.signature
            &&& rep.resources == result.resources
            &&& rep.dependencies == result.dependencies
            &&& rep.network_graph == parts.network_graph
            &&& rep.network_intel == parts.network_intel
            &&& rep.decomp_backends == parts.decomp_backends
            &&& rep.language_structures == parts.language_structures
            &&& rep.sbom == parts.sbom
            &&& rep.created_at@ == rep.updated_at@
        },
{
    if !graphs_fit_exec(&result.functions, &result.sections) {
        return None;
    }
    let call_graph = crate::graphs::build_call_graph(result.functions.as_slice());
    let cfg_summary = crate::graphs::build_cfg_summary(result.functions.as_slice());
    let import_graph = crate::graphs::build_import_graph(result.imports.as_slice(), result.exports.as_slice());
    let dfg = crate::graphs::build_dfg(result.functions.as_slice());
    let memory_graph = crate::graphs::build_memory_graph(result.functions.as_slice(), result.sections.as_slice());
    let top = top_findings(&parts.security);
    let id_line = identity_line(&result.identity);
    let mw_line = malware_line(&parts.malware);
    let (executive_summary, technical_summary) = crate::semantic::build_summaries(
        parts.filename.as_str(),
        id_line.as_str(),
        mw_line.as_str(),
        top.as_slice(),
    );
    let iocs = collect_iocs(&result.hashes, &result.network, &result.strings);
    let now = crate::reports::now_rfc3339();
    let created = copy_string(&now);
    let ReportParts {
        analysis_id,
        file_id,
        project_id,
        filename,
        size_bytes,
        security,
        malware,
        network_graph,
        network_intel,
        decomp_backends,
        language_structures,
        sbom,
    } = parts;
    let crate::engine::StaticAnalysisResult {
        hashes,
        identity,
        sections,
        imports,
        exports,
        strings,
        network,
        crypto,
        packers,
        functions,
        signature,
        resources,
        dependencies,
        code_slice_base: _,
        code_slice: _,
    } = result;
    Some(AnalysisReport {
        id: analysis_id,
        file_id,
        project_id,
        stage: PipelineStage::ReportGeneration,
        progress: PipelineStage::ReportGeneration.progress_percent(),
        created_at: created,
        updated_at: now,
        completed_at: None,
        error: None,
        filename,
        size_bytes,
        hashes,
        identity,
        sections,
        imports,
        exports,
        strings,
        network,
        crypto,
        packers,
        functions,
        security,
        malware,
        signature,
        resources,
        dependencies,
        call_graph,
        cfg_summary,
        import_graph,
        dfg,
        memory_graph,
        network_graph,
        network_intel,
        decomp_backends,
        language_structures,
        executive_summary,
        technical_summary,
        iocs,
        yara_rules: Vec::new(),
        sbom,
    })
}

} // verus!
