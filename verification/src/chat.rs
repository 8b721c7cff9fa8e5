//! Evidence-grounded answers to questions about an analysis report.
use vstd::prelude::*;
use crate::crypto_detect::one_if;
use crate::model::{
    arch_name, category_name, evidence_views, family_name, format_name, kind_name, risk_name,
    CryptoFindingView, Evidence, EvidenceView, ExtractedStringView, FunctionView, ImportView,
    NetworkIndicatorView, RiskLevel, SecurityFindingView, StringCategory,
};
use crate::providers::{
    build_provider, local_complete, message_views, spec_build_provider, spec_local_complete, AiMessage,
    ProviderChoice, ProviderChoiceView, ProviderConfig,
};
use crate::rename::join_with;
use crate::report::{AnalysisReport, ReportView};
use crate::strings::take_upto;
use crate::model::{CryptoFinding, ExtractedString, FunctionAnalysis, ImportEntry, NetworkIndicator};
use crate::semantic::join_first;
use crate::text::{
    contains_chars, contains_seq, copy_string, dec_of, eq_str, has, hex_digit, hex_prefixed, lower_chars, lower_seq,
    opt_view, owned, push_dec, push_hex_prefixed, push_str, push_string, str_chars, strings_view,
};

verus! {

// ---------------------------------------------------------------------------
// Formatting
// ---------------------------------------------------------------------------

/// How `{:?}` writes a string: quoted, with escapes.
pub uninterp spec fn debug_str(s: Seq<char>) -> Seq<char>;

/// `format!("{:?}", s)` for a string slice (std `Debug for str`). Trusted:
/// the result is the named `debug_str` of the text.
#[verifier::external_body]
fn debug_text(s: &str) -> (r: String)
    ensures
        r@ == debug_str(s@),
{
    format!("{:?}", s)
}

/// `{:?}` of an optional string.
pub open spec fn debug_opt(o: Option<Seq<char>>) -> Seq<char> {
    match o {
        Some(s) => "Some("@ + debug_str(s) + ")"@,
        None => "None"@,
    }
}

/// `{:?}` of a list of strings.
pub open spec fn debug_list(v: Seq<Seq<char>>) -> Seq<char> {
    "["@ + join_with(", "@, v.map_values(|s: Seq<char>| debug_str(s))) + "]"@
}

/// `{}` of a boolean.
pub open spec fn bool_text(b: bool) -> Seq<char> {
    if b { "true"@ } else { "false"@ }
}

/// The text in `o`, or `d` without one.
pub open spec fn text_or(o: Option<Seq<char>>, d: Seq<char>) -> Seq<char> {
    match o {
        Some(s) => s,
        None => d,
    }
}

/// The name a function is shown under: its suggested name, else its name.
pub open spec fn shown_name(f: FunctionView) -> Seq<char> {
    text_or(f.suggested_name, f.name)
}

/// The elements of `s` that satisfy `p`, in order.
pub open spec fn sel<T>(s: Seq<T>, p: spec_fn(T) -> bool) -> Seq<T>
    decreases s.len(),
{
    if s.len() == 0 {
        seq![]
    } else {
        sel(s.drop_last(), p) + one_if(p(s.last()), s.last())
    }
}

/// The selected elements are exactly the elements that satisfy `p`.
pub proof fn lemma_sel_members<T>(s: Seq<T>, p: spec_fn(T) -> bool)
    ensures
        forall|x: T| sel(s, p).contains(x) <==> (s.contains(x) && p(x)),
    decreases s.len(),
{
    if s.len() > 0 {
        let d = s.drop_last();
        lemma_sel_members(d, p);
        let a = sel(d, p);
        let b = one_if(p(s.last()), s.last());
        assert(sel(s, p) == a + b);
        assert forall|x: T| sel(s, p).contains(x) implies (s.contains(x) && p(x)) by {
            let k = choose|k: int| 0 <= k < (a + b).len() && (a + b)[k] == x;
            if k < a.len() {
                assert(a[k] == x);
                assert(a.contains(x));
                assert(d.contains(x));
                let m = choose|m: int| 0 <= m < d.len() && d[m] == x;
                assert(s[m] == x);
            } else {
                assert(b[k - a.len()] == x);
                assert(s[s.len() - 1] == x);
            }
        }
        assert forall|x: T| (s.contains(x) && p(x)) implies sel(s, p).contains(x) by {
            let k = choose|k: int| 0 <= k < s.len() && s[k] == x;
            if k < s.len() - 1 {
                assert(d[k] == x);
                assert(d.contains(x));
                assert(a.contains(x));
                let j = choose|j: int| 0 <= j < a.len() && a[j] == x;
                assert((a + b)[j] == x);
            } else {
                assert((a + b)[a.len() as int] == x);
            }
        }
    }
}

/// The evidence of the indicators, one after another.
pub open spec fn network_evidence(ns: Seq<NetworkIndicatorView>) -> Seq<EvidenceView>
    decreases ns.len(),
{
    if ns.len() == 0 {
        seq![]
    } else {
        network_evidence(ns.drop_last()) + ns.last().evidence
    }
}

/// The evidence of the cryptography findings, one after another.
pub open spec fn crypto_evidence(cs: Seq<CryptoFindingView>) -> Seq<EvidenceView>
    decreases cs.len(),
{
    if cs.len() == 0 {
        seq![]
    } else {
        crypto_evidence(cs.drop_last()) + cs.last().evidence
    }
}

/// The evidence of the security findings, one after another.
pub open spec fn security_evidence(fs: Seq<SecurityFindingView>) -> Seq<EvidenceView>
    decreases fs.len(),
{
    if fs.len() == 0 {
        seq![]
    } else {
        security_evidence(fs.drop_last()) + fs.last().evidence
    }
}

/// The number of distinct texts.
pub open spec fn distinct_count(s: Seq<Seq<char>>) -> nat
    decreases s.len(),
{
    if s.len() == 0 {
        0
    } else {
        distinct_count(s.drop_last()) + if s.drop_last().contains(s.last()) { 0nat } else { 1nat }
    }
}

/// A citation of a function.
pub open spec fn function_cite(f: FunctionView, name: Seq<char>, note: Seq<char>) -> EvidenceView {
    EvidenceView::Function { address: hex_prefixed(f.address as nat), name: Some(name), note }
}

// ---------------------------------------------------------------------------
// The answers, by topic
// ---------------------------------------------------------------------------

pub open spec fn summary_answer(r: ReportView) -> (Seq<char>, Seq<EvidenceView>) {
    (
        r.executive_summary + "\n\nMalware: "@ + family_name(r.malware.family) + " ("@ + dec_of(
            r.malware.malware_probability as nat,
        ) + "%).\n"@ + r.malware.reasoning,
        seq![EvidenceView::Hash { algorithm: "sha256"@, value: r.sha256, note: "File identity"@ }],
    )
}

pub open spec fn net_line(n: NetworkIndicatorView) -> Seq<char> {
    "- "@ + kind_name(n.kind) + " `"@ + n.value + "` suspicious="@ + bool_text(n.suspicious)
}

pub open spec fn networking_import(i: ImportView) -> bool {
    i.tags.contains("networking"@)
}

pub open spec fn network_answer(r: ReportView) -> (Seq<char>, Seq<EvidenceView>) {
    let ns = take_upto(r.network, 30);
    let imps = take_upto(sel(r.imports, |i: ImportView| networking_import(i)), 20);
    let lines = seq!["Network-related evidence:"@] + ns.map_values(|n: NetworkIndicatorView| net_line(n))
        + imps.map_values(|i: ImportView| "- import "@ + i.module + "!"@ + i.symbol);
    let lines2 = if lines.len() == 1 { lines.push("No network indicators extracted."@) } else { lines };
    (
        join_with("\n"@, lines2),
        network_evidence(ns) + imps.map_values(
            |i: ImportView| EvidenceView::Import { module: i.module, symbol: i.symbol, note: "Networking API"@ },
        ),
    )
}

pub open spec fn crypto_line(c: CryptoFindingView) -> Seq<char> {
    "- "@ + c.algorithm + " ("@ + c.category + ") strength="@ + c.strength + " mode="@ + debug_opt(c.mode)
}

pub open spec fn crypto_fn_line(f: FunctionView) -> Seq<char> {
    "- function "@ + shown_name(f) + " @ "@ + hex_prefixed(f.address as nat) + " — "@ + text_or(
        f.description,
        "crypto-related"@,
    )
}

pub open spec fn crypto_answer(r: ReportView) -> (Seq<char>, Seq<EvidenceView>) {
    let fs = take_upto(sel(r.functions, |f: FunctionView| f.possible_crypto), 15);
    (
        join_with(
            "\n"@,
            seq!["Cryptography evidence:"@] + r.crypto.map_values(|c: CryptoFindingView| crypto_line(c))
                + fs.map_values(|f: FunctionView| crypto_fn_line(f)),
        ),
        crypto_evidence(r.crypto) + fs.map_values(
            |f: FunctionView| function_cite(f, shown_name(f), "Marked possible_crypto"@),
        ),
    )
}

pub open spec fn license_string(s: ExtractedStringView) -> bool {
    contains_seq(lower_seq(s.value), "license"@)
}

pub open spec fn license_function(f: FunctionView) -> bool {
    contains_seq(text_or(f.suggested_name, seq![]), "license"@) || contains_seq(f.name, "license"@)
}

pub open spec fn string_at_line(s: ExtractedStringView) -> Seq<char> {
    "- string @ "@ + hex_prefixed(s.offset as nat) + ": "@ + s.value
}

pub open spec fn string_cite(s: ExtractedStringView, note: Seq<char>) -> EvidenceView {
    EvidenceView::String { value: s.value, offset: Some(s.offset), note }
}

pub open spec fn license_answer(r: ReportView) -> (Seq<char>, Seq<EvidenceView>) {
    let ss = sel(r.strings, |s: ExtractedStringView| license_string(s));
    let fs = sel(r.functions, |f: FunctionView| license_function(f));
    let lines = seq!["License-related evidence:"@] + ss.map_values(|s: ExtractedStringView| string_at_line(s))
        + fs.map_values(
        |f: FunctionView|
            "- "@ + shown_name(f) + " @ "@ + hex_prefixed(f.address as nat) + ": "@ + text_or(
                f.description,
                "candidate"@,
            ),
    );
    let lines2 = if lines.len() == 1 {
        lines.push("No explicit license checks found in extracted evidence."@)
    } else {
        lines
    };
    (
        join_with("\n"@, lines2),
        ss.map_values(|s: ExtractedStringView| string_cite(s, "License string"@)),
    )
}

pub open spec fn persistence_string(s: ExtractedStringView) -> bool {
    s.category == StringCategory::Registry || s.category == StringCategory::Service || contains_seq(
        lower_seq(s.value),
        "currentversion\\run"@,
    )
}

pub open spec fn persistence_answer(r: ReportView) -> (Seq<char>, Seq<EvidenceView>) {
    let ss = sel(r.strings, |s: ExtractedStringView| persistence_string(s));
    let fs = sel(r.functions, |f: FunctionView| f.possible_persistence);
    (
        join_with(
            "\n"@,
            seq!["Persistence evidence:"@] + r.malware.persistence.map_values(
                |p: Seq<char>| "- API/behavior: "@ + p,
            ) + ss.map_values(|s: ExtractedStringView| "- "@ + s.value) + fs.map_values(
                |f: FunctionView| "- "@ + shown_name(f) + " @ "@ + hex_prefixed(f.address as nat),
            ),
        ),
        ss.map_values(|s: ExtractedStringView| string_cite(s, "Persistence indicator"@)),
    )
}

pub open spec fn risky_import(i: ImportView) -> bool {
    i.risk == RiskLevel::Medium || i.risk == RiskLevel::High || i.risk == RiskLevel::Critical
}

pub open spec fn api_answer(r: ReportView) -> (Seq<char>, Seq<EvidenceView>) {
    let imps = take_upto(sel(r.imports, |i: ImportView| risky_import(i)), 40);
    (
        join_with(
            "\n"@,
            seq!["Higher-risk APIs:"@] + imps.map_values(
                |i: ImportView|
                    "- ["@ + risk_name(i.risk) + "] "@ + i.module + "!"@ + i.symbol + " "@ + debug_list(
                        i.tags,
                    ),
            ),
        ),
        imps.map_values(
            |i: ImportView|
                EvidenceView::Import { module: i.module, symbol: i.symbol, note: "risk="@ + risk_name(i.risk) },
        ),
    )
}

pub open spec fn malware_answer(r: ReportView) -> (Seq<char>, Seq<EvidenceView>) {
    (
        "Malware probability is "@ + dec_of(r.malware.malware_probability as nat) + "% (confidence "@
            + dec_of(r.malware.confidence as nat) + "%). Family: "@ + family_name(r.malware.family)
            + ".\nReasoning: "@ + r.malware.reasoning + "\nBehaviors: "@ + join_with(
            ", "@,
            r.malware.behaviors,
        ) + "\n"@,
        r.malware.evidence,
    )
}

pub open spec fn entry_candidate(f: FunctionView) -> bool {
    f.tags.contains("entry"@) || f.name == "entry"@ || contains_seq(f.name, "main"@)
}

pub open spec fn entry_answer(f: FunctionView) -> (Seq<char>, Seq<EvidenceView>) {
    (
        "Entry candidate `"@ + shown_name(f) + "` @ "@ + hex_prefixed(f.address as nat) + "\n"@
            + text_or(f.description, "n/a"@) + "\nPurpose: "@ + text_or(f.purpose, "n/a"@)
            + "\nAssembly preview:\n"@ + text_or(f.assembly_preview, "n/a"@),
        seq![function_cite(f, shown_name(f), "Entry/main candidate"@)],
    )
}

pub open spec fn secret_string(s: ExtractedStringView) -> bool {
    s.category == StringCategory::Credential || s.category == StringCategory::ApiKey || s.category
        == StringCategory::Jwt
}

pub open spec fn secrets_answer(r: ReportView) -> (Seq<char>, Seq<EvidenceView>) {
    let fs = sel(r.security, |f: SecurityFindingView| f.category == "secrets"@);
    let ss = sel(r.strings, |s: ExtractedStringView| secret_string(s));
    (
        join_with(
            "\n"@,
            seq!["Credential/secret evidence:"@] + fs.map_values(
                |f: SecurityFindingView| "- ["@ + risk_name(f.severity) + "] "@ + f.title,
            ) + ss.map_values(
                |s: ExtractedStringView| "- "@ + category_name(s.category) + " @ "@ + hex_prefixed(s.offset as nat),
            ),
        ),
        security_evidence(fs),
    )
}

pub open spec fn dead_code_text() -> Seq<char> {
    "Dead-code identification requires full CFG reachability from entry. Current static pass marks unreachable candidates only when call-graph coverage is complete; review functions with zero xrefs_to as candidates."@
}

pub open spec fn architecture_answer(r: ReportView) -> Seq<char> {
    "Architecture snapshot:\n- Format "@ + format_name(r.identity.format) + "/"@ + arch_name(
        r.identity.architecture,
    ) + "\n- Dependencies: "@ + dec_of(r.dependencies_len) + "\n- Call-graph nodes: "@ + dec_of(
        r.call_graph.nodes.len(),
    ) + "\n- Import modules: "@ + dec_of(
        distinct_count(r.imports.map_values(|i: ImportView| i.module)),
    ) + "\n\nUse the Graphs panel for interactive diagrams. Generated reports are available via the Reports API."@
}

/// A function matches the lowercased query in its name, suggested name or
/// description (ASCII case-insensitive).
pub open spec fn function_matches(f: FunctionView, q: Seq<char>) -> bool {
    contains_seq(lower_seq(f.name), q) || contains_seq(lower_seq(text_or(f.suggested_name, seq![])), q)
        || contains_seq(lower_seq(text_or(f.description, seq![])), q)
}

pub open spec fn search_answer(r: ReportView, question: Seq<char>, q: Seq<char>) -> (Seq<char>, Seq<EvidenceView>) {
    let fs = take_upto(sel(r.functions, |f: FunctionView| function_matches(f, q)), 10);
    let ss = take_upto(sel(r.strings, |s: ExtractedStringView| contains_seq(lower_seq(s.value), q)), 10);
    let hits = fs.map_values(
        |f: FunctionView|
            "- fn "@ + shown_name(f) + " @ "@ + hex_prefixed(f.address as nat) + ": "@ + text_or(
                f.description,
                seq![],
            ),
    ) + ss.map_values(|s: ExtractedStringView| string_at_line(s));
    (
        if hits.len() == 0 {
            "No direct evidence matched `"@ + question
                + "`. Try: summarize binary, where is networking, show encryption, dangerous APIs, malware probability."@
        } else {
            "Evidence matches:\n"@ + join_with("\n"@, hits)
        },
        fs.map_values(|f: FunctionView| function_cite(f, f.name, "Matched query"@)),
    )
}

/// The first entry or main candidate.
pub open spec fn first_entry(fs: Seq<FunctionView>) -> Option<FunctionView>
    decreases fs.len(),
{
    if fs.len() == 0 {
        None
    } else if entry_candidate(fs[0]) {
        Some(fs[0])
    } else {
        first_entry(fs.drop_first())
    }
}

/// The answers after the entry-point topic (also reached when that topic
/// finds no candidate).
pub open spec fn later_answer(r: ReportView, question: Seq<char>, q: Seq<char>) -> (Seq<char>, Seq<EvidenceView>) {
    if contains_seq(q, "credential"@) || contains_seq(q, "secret"@) || contains_seq(q, "password"@) {
        secrets_answer(r)
    } else if contains_seq(q, "dead code"@) {
        (dead_code_text(), seq![])
    } else if contains_seq(q, "document"@) || contains_seq(q, "architecture diagram"@) {
        (architecture_answer(r), seq![])
    } else {
        search_answer(r, question, q)
    }
}

/// The grounded answer to a question and the evidence it cites: the first
/// topic that the lowercased question mentions decides (summary, network,
/// cryptography, license, persistence, APIs, malware, entry point,
/// secrets, dead code, architecture); otherwise a search of function names
/// and descriptions and of strings.
pub open spec fn spec_grounded_answer(r: ReportView, question: Seq<char>) -> (Seq<char>, Seq<EvidenceView>) {
    let q = lower_seq(question);
    if contains_seq(q, "summar"@) || contains_seq(q, "overview"@) {
        summary_answer(r)
    } else if contains_seq(q, "network"@) || contains_seq(q, "c2"@) || contains_seq(q, "url"@)
        || contains_seq(q, "domain"@) {
        network_answer(r)
    } else if contains_seq(q, "encrypt"@) || contains_seq(q, "crypto"@) || contains_seq(q, "decrypt"@) {
        crypto_answer(r)
    } else if contains_seq(q, "license"@) {
        license_answer(r)
    } else if contains_seq(q, "persist"@) {
        persistence_answer(r)
    } else if contains_seq(q, "dangerous"@) || contains_seq(q, "api"@) {
        api_answer(r)
    } else if contains_seq(q, "malware"@) || contains_seq(q, "probability"@) {
        malware_answer(r)
    } else if (contains_seq(q, "main"@) || contains_seq(q, "entry"@)) && first_entry(r.functions) is Some {
        entry_answer(first_entry(r.functions).unwrap())
    } else {
        later_answer(r, question, q)
    }
}

// ---------------------------------------------------------------------------
// Every citation comes from the report
// ---------------------------------------------------------------------------

/// The evidence item is taken from the report: evidence of one of its
/// network indicators, cryptography or security findings or of its malware
/// verdict; its SHA-256; or a citation of one of its imports, functions or
/// strings.
pub open spec fn from_report(e: EvidenceView, r: ReportView) -> bool {
    ||| exists|i: int, k: int|
        0 <= i < r.network.len() && 0 <= k < r.network[i].evidence.len() && #[trigger] r.network[i].evidence[k] == e
    ||| exists|i: int, k: int|
        0 <= i < r.crypto.len() && 0 <= k < r.crypto[i].evidence.len() && #[trigger] r.crypto[i].evidence[k] == e
    ||| exists|i: int, k: int|
        0 <= i < r.security.len() && 0 <= k < r.security[i].evidence.len() && #[trigger] r.security[i].evidence[k]
            == e
    ||| r.malware.evidence.contains(e)
    ||| e matches EvidenceView::Hash { value, .. } && value == r.sha256
    ||| e matches EvidenceView::Import { module, symbol, .. } && exists|k: int|
        0 <= k < r.imports.len() && #[trigger] r.imports[k].module == module && r.imports[k].symbol == symbol
    ||| e matches EvidenceView::Function { address, .. } && exists|k: int|
        0 <= k < r.functions.len() && address == hex_prefixed(#[trigger] r.functions[k].address as nat)
    ||| e matches EvidenceView::String { value, offset, .. } && exists|k: int|
        0 <= k < r.strings.len() && #[trigger] r.strings[k].value == value && offset == Some(r.strings[k].offset)
}

/// Every item of the list is taken from the report.
pub open spec fn all_from_report(es: Seq<EvidenceView>, r: ReportView) -> bool {
    forall|i: int| 0 <= i < es.len() ==> from_report(#[trigger] es[i], r)
}

proof fn lemma_take_upto_members<T>(s: Seq<T>, n: int)
    ensures
        forall|x: T| take_upto(s, n).contains(x) ==> s.contains(x),
{
    assert forall|x: T| take_upto(s, n).contains(x) implies s.contains(x) by {
        let t = take_upto(s, n);
        let k = choose|k: int| 0 <= k < t.len() && t[k] == x;
        assert(s[k] == x);
    }
}

proof fn lemma_all_from_concat(a: Seq<EvidenceView>, b: Seq<EvidenceView>, r: ReportView)
    requires
        all_from_report(a, r),
        all_from_report(b, r),
    ensures
        all_from_report(a + b, r),
{
    assert forall|i: int| 0 <= i < (a + b).len() implies from_report(#[trigger] (a + b)[i], r) by {
        if i < a.len() {
            assert((a + b)[i] == a[i]);
        } else {
            assert((a + b)[i] == b[i - a.len()]);
        }
    }
}

proof fn lemma_network_evidence_from(ns: Seq<NetworkIndicatorView>, r: ReportView)
    requires
        forall|x: NetworkIndicatorView| ns.contains(x) ==> r.network.contains(x),
    ensures
        all_from_report(network_evidence(ns), r),
    decreases ns.len(),
{
    if ns.len() > 0 {
        let d = ns.drop_last();
        assert forall|x: NetworkIndicatorView| d.contains(x) implies r.network.contains(x) by {
            let k = choose|k: int| 0 <= k < d.len() && d[k] == x;
            assert(ns[k] == x);
            assert(ns.contains(x));
        }
        lemma_network_evidence_from(d, r);
        assert(ns.contains(ns.last()));
        let i = choose|i: int| 0 <= i < r.network.len() && r.network[i] == ns.last();
        assert forall|k: int| 0 <= k < ns.last().evidence.len() implies from_report(
            #[trigger] ns.last().evidence[k],
            r,
        ) by {
            assert(r.network[i].evidence[k] == ns.last().evidence[k]);
        }
        lemma_all_from_concat(network_evidence(d), ns.last().evidence, r);
    }
}

proof fn lemma_crypto_evidence_from(cs: Seq<CryptoFindingView>, r: ReportView)
    requires
        forall|x: CryptoFindingView| cs.contains(x) ==> r.crypto.contains(x),
    ensures
        all_from_report(crypto_evidence(cs), r),
    decreases cs.len(),
{
    if cs.len() > 0 {
        let d = cs.drop_last();
        assert forall|x: CryptoFindingView| d.contains(x) implies r.crypto.contains(x) by {
            let k = choose|k: int| 0 <= k < d.len() && d[k] == x;
            assert(cs[k] == x);
            assert(cs.contains(x));
        }
        lemma_crypto_evidence_from(d, r);
        assert(cs.contains(cs.last()));
        let i = choose|i: int| 0 <= i < r.crypto.len() && r.crypto[i] == cs.last();
        assert forall|k: int| 0 <= k < cs.last().evidence.len() implies from_report(
            #[trigger] cs.last().evidence[k],
            r,
        ) by {
            assert(r.crypto[i].evidence[k] == cs.last().evidence[k]);
        }
        lemma_all_from_concat(crypto_evidence(d), cs.last().evidence, r);
    }
}

proof fn lemma_security_evidence_from(fs: Seq<SecurityFindingView>, r: ReportView)
    requires
        forall|x: SecurityFindingView| fs.contains(x) ==> r.security.contains(x),
    ensures
        all_from_report(security_evidence(fs), r),
    decreases fs.len(),
{
    if fs.len() > 0 {
        let d = fs.drop_last();
        assert forall|x: SecurityFindingView| d.contains(x) implies r.security.contains(x) by {
            let k = choose|k: int| 0 <= k < d.len() && d[k] == x;
            assert(fs[k] == x);
            assert(fs.contains(x));
        }
        lemma_security_evidence_from(d, r);
        assert(fs.contains(fs.last()));
        let i = choose|i: int| 0 <= i < r.security.len() && r.security[i] == fs.last();
        assert forall|k: int| 0 <= k < fs.last().evidence.len() implies from_report(
            #[trigger] fs.last().evidence[k],
            r,
        ) by {
            assert(r.security[i].evidence[k] == fs.last().evidence[k]);
        }
        lemma_all_from_concat(security_evidence(d), fs.last().evidence, r);
    }
}

proof fn lemma_import_cites_from(imps: Seq<ImportView>, es: Seq<EvidenceView>, r: ReportView)
    requires
        forall|x: ImportView| imps.contains(x) ==> r.imports.contains(x),
        es.len() == imps.len(),
        forall|j: int|
            0 <= j < es.len() ==> (#[trigger] es[j] matches EvidenceView::Import { module, symbol, .. } && module
                == imps[j].module && symbol == imps[j].symbol),
    ensures
        all_from_report(es, r),
{
    assert forall|j: int| 0 <= j < es.len() implies from_report(#[trigger] es[j], r) by {
        assert(imps.contains(imps[j]));
        let k = choose|k: int| 0 <= k < r.imports.len() && r.imports[k] == imps[j];
        assert(r.imports[k].module == imps[j].module);
    }
}

proof fn lemma_function_cites_from(fs: Seq<FunctionView>, es: Seq<EvidenceView>, r: ReportView)
    requires
        forall|x: FunctionView| fs.contains(x) ==> r.functions.contains(x),
        es.len() == fs.len(),
        forall|j: int|
            0 <= j < es.len() ==> (#[trigger] es[j] matches EvidenceView::Function { address, .. } && address
                == hex_prefixed(fs[j].address as nat)),
    ensures
        all_from_report(es, r),
{
    assert forall|j: int| 0 <= j < es.len() implies from_report(#[trigger] es[j], r) by {
        assert(fs.contains(fs[j]));
        let k = choose|k: int| 0 <= k < r.functions.len() && r.functions[k] == fs[j];
        assert(hex_prefixed(r.functions[k].address as nat) == hex_prefixed(fs[j].address as nat));
    }
}

proof fn lemma_string_cites_from(ss: Seq<ExtractedStringView>, es: Seq<EvidenceView>, r: ReportView)
    requires
        forall|x: ExtractedStringView| ss.contains(x) ==> r.strings.contains(x),
        es.len() == ss.len(),
        forall|j: int|
            0 <= j < es.len() ==> (#[trigger] es[j] matches EvidenceView::String { value, offset, .. } && value
                == ss[j].value && offset == Some(ss[j].offset)),
    ensures
        all_from_report(es, r),
{
    assert forall|j: int| 0 <= j < es.len() implies from_report(#[trigger] es[j], r) by {
        assert(ss.contains(ss[j]));
        let k = choose|k: int| 0 <= k < r.strings.len() && r.strings[k] == ss[j];
        assert(r.strings[k].value == ss[j].value);
    }
}

proof fn lemma_first_entry_in(fs: Seq<FunctionView>)
    ensures
        first_entry(fs) matches Some(f) ==> fs.contains(f),
    decreases fs.len(),
{
    if fs.len() > 0 {
        if entry_candidate(fs[0]) {
            assert(fs[0] == fs[0]);
        } else {
            lemma_first_entry_in(fs.drop_first());
            if let Some(f) = first_entry(fs) {
                let k = choose|k: int| 0 <= k < fs.drop_first().len() && fs.drop_first()[k] == f;
                assert(fs[k + 1] == f);
            }
        }
    }
}

proof fn lemma_later_from(r: ReportView, question: Seq<char>, q: Seq<char>)
    ensures
        all_from_report(later_answer(r, question, q).1, r),
{
    if contains_seq(q, "credential"@) || contains_seq(q, "secret"@) || contains_seq(q, "password"@) {
        let fs = sel(r.security, |f: SecurityFindingView| f.category == "secrets"@);
        lemma_sel_members(r.security, |f: SecurityFindingView| f.category == "secrets"@);
        lemma_security_evidence_from(fs, r);
    } else if contains_seq(q, "dead code"@) || contains_seq(q, "document"@) || contains_seq(
        q,
        "architecture diagram"@,
    ) {
        assert(all_from_report(Seq::<EvidenceView>::empty(), r));
    } else {
        let sf = sel(r.functions, |f: FunctionView| function_matches(f, q));
        lemma_sel_members(r.functions, |f: FunctionView| function_matches(f, q));
        lemma_take_upto_members(sf, 10);
        lemma_function_cites_from(take_upto(sf, 10), search_answer(r, question, q).1, r);
    }
}

/// Every item of evidence that a grounded answer cites is taken from the
/// report: evidence the report's findings already carry, its SHA-256, or a
/// citation of one of its imports, functions or strings.
pub proof fn law_grounded_answer_cites_report(r: ReportView, question: Seq<char>)
    ensures
        all_from_report(spec_grounded_answer(r, question).1, r),
{
    let q = lower_seq(question);
    // summary
    assert(all_from_report(summary_answer(r).1, r)) by {
        let e = summary_answer(r).1[0];
        assert(e matches EvidenceView::Hash { value, .. } && value == r.sha256);
    }
    // network
    lemma_take_upto_members(r.network, 30);
    lemma_network_evidence_from(take_upto(r.network, 30), r);
    let ni = sel(r.imports, |i: ImportView| networking_import(i));
    lemma_sel_members(r.imports, |i: ImportView| networking_import(i));
    lemma_take_upto_members(ni, 20);
    let ne = network_evidence(take_upto(r.network, 30));
    let nc = network_answer(r).1.subrange(ne.len() as int, network_answer(r).1.len() as int);
    lemma_import_cites_from(take_upto(ni, 20), nc, r);
    lemma_all_from_concat(ne, nc, r);
    assert(network_answer(r).1 =~= ne + nc);
    // cryptography
    lemma_crypto_evidence_from(r.crypto, r);
    let cf = sel(r.functions, |f: FunctionView| f.possible_crypto);
    lemma_sel_members(r.functions, |f: FunctionView| f.possible_crypto);
    lemma_take_upto_members(cf, 15);
    let ce = crypto_evidence(r.crypto);
    let cc = crypto_answer(r).1.subrange(ce.len() as int, crypto_answer(r).1.len() as int);
    lemma_function_cites_from(take_upto(cf, 15), cc, r);
    lemma_all_from_concat(ce, cc, r);
    assert(crypto_answer(r).1 =~= ce + cc);
    // license and persistence
    lemma_sel_members(r.strings, |s: ExtractedStringView| license_string(s));
    lemma_string_cites_from(sel(r.strings, |s: ExtractedStringView| license_string(s)), license_answer(r).1, r);
    lemma_sel_members(r.strings, |s: ExtractedStringView| persistence_string(s));
    lemma_string_cites_from(
        sel(r.strings, |s: ExtractedStringView| persistence_string(s)),
        persistence_answer(r).1,
        r,
    );
    // APIs
    let ri = sel(r.imports, |i: ImportView| risky_import(i));
    lemma_sel_members(r.imports, |i: ImportView| risky_import(i));
    lemma_take_upto_members(ri, 40);
    lemma_import_cites_from(take_upto(ri, 40), api_answer(r).1, r);
    // malware
    assert(all_from_report(malware_answer(r).1, r)) by {
        assert forall|i: int| 0 <= i < r.malware.evidence.len() implies from_report(
            #[trigger] r.malware.evidence[i],
            r,
        ) by {
            assert(r.malware.evidence.contains(r.malware.evidence[i]));
        }
    }
    // entry point
    lemma_first_entry_in(r.functions);
    if let Some(f) = first_entry(r.functions) {
        let k = choose|k: int| 0 <= k < r.functions.len() && r.functions[k] == f;
        assert(from_report(entry_answer(f).1[0], r)) by {
            assert(hex_prefixed(r.functions[k].address as nat) == hex_prefixed(f.address as nat));
        }
        assert(all_from_report(entry_answer(f).1, r));
    }
    lemma_later_from(r, question, q);
}

// ---------------------------------------------------------------------------
// Execution helpers
// ---------------------------------------------------------------------------

proof fn lemma_sel_step<T>(s: Seq<T>, i: int, p: spec_fn(T) -> bool)
    requires
        0 <= i < s.len(),
    ensures
        sel(s.subrange(0, i + 1), p) == sel(s.subrange(0, i), p) + one_if(p(s[i]), s[i]),
{
    assert(s.subrange(0, i + 1).drop_last() =~= s.subrange(0, i));
}

fn push_line(lines: &mut Vec<String>, l: String)
    ensures
        strings_view(final(lines)@) == strings_view(old(lines)@).push(l@),
{
    let ghost before = lines@;
    lines.push(l);
    proof {
        assert(strings_view(lines@) =~= strings_view(before).push(l@));
    }
}

fn push_cite(cites: &mut Vec<Evidence>, e: Evidence)
    ensures
        evidence_views(final(cites)@) == evidence_views(old(cites)@).push(e@),
{
    let ghost before = cites@;
    cites.push(e);
    proof {
        assert(evidence_views(cites@) =~= evidence_views(before).push(e@));
    }
}

fn join_lines(lines: &Vec<String>) -> (r: String)
    ensures
        r@ == join_with("\n"@, strings_view(lines@)),
{
    let r = join_first(lines.as_slice(), "\n", lines.len());
    proof {
        assert(take_upto(strings_view(lines@), lines@.len() as int) =~= strings_view(lines@));
    }
    r
}

fn shown_name_exec(f: &FunctionAnalysis) -> (r: String)
    ensures
        r@ == shown_name(f@),
{
    match &f.suggested_name {
        Some(s) => copy_string(s),
        None => copy_string(&f.name),
    }
}

fn push_text_or(out: &mut String, o: &Option<String>, d: &str)
    ensures
        final(out)@ == old(out)@ + text_or(opt_view(*o), d@),
{
    match o {
        Some(s) => push_string(out, s),
        None => push_str(out, d),
    }
}

fn push_bool(out: &mut String, b: bool)
    ensures
        final(out)@ == old(out)@ + bool_text(b),
{
    if b {
        push_str(out, "true");
    } else {
        push_str(out, "false");
    }
}

fn function_cite_exec(f: &FunctionAnalysis, name: String, note: &str) -> (e: Evidence)
    ensures
        e@ == function_cite(f@, name@, note@),
{
    Evidence::Function { address: hex_prefixed_string(f.address), name: Some(name), note: owned(note) }
}

fn hex_prefixed_string(n: u64) -> (r: String)
    ensures
        r@ == hex_prefixed(n as nat),
{
    let mut s = String::new();
    push_hex_prefixed(&mut s, n);
    s
}

fn debug_opt_exec(out: &mut String, o: &Option<String>)
    ensures
        final(out)@ == old(out)@ + debug_opt(opt_view(*o)),
{
    match o {
        Some(s) => {
            push_str(out, "Some(");
            let d = debug_text(s.as_str());
            push_string(out, &d);
            push_str(out, ")");
        },
        None => push_str(out, "None"),
    }
}

fn debug_list_exec(out: &mut String, v: &Vec<String>)
    ensures
        final(out)@ == old(out)@ + debug_list(strings_view(v@)),
{
    let ghost items = strings_view(v@).map_values(|s: Seq<char>| debug_str(s));
    let mut inner = String::new();
    let mut i: usize = 0;
    while i < v.len()
        invariant
            i <= v@.len(),
            items == strings_view(v@).map_values(|s: Seq<char>| debug_str(s)),
            inner@ == join_with(", "@, items.subrange(0, i as int)),
        decreases v@.len() - i,
    {
        if i > 0 {
            push_str(&mut inner, ", ");
        }
        let d = debug_text(v[i].as_str());
        push_string(&mut inner, &d);
        proof {
            let pre = items.subrange(0, i + 1);
            assert(pre.drop_last() =~= items.subrange(0, i as int));
            assert(items[i as int] == debug_str(v@[i as int]@));
            assert(inner@ =~= join_with(", "@, pre));
        }
        i += 1;
    }
    proof {
        assert(items.subrange(0, v@.len() as int) =~= items);
    }
    push_str(out, "[");
    push_string(out, &inner);
    push_str(out, "]");
}

fn lower_of(s: &String) -> (r: Vec<char>)
    ensures
        r@ == lower_seq(s@),
{
    let c = str_chars(s.as_str());
    lower_chars(c.as_slice())
}

fn lower_opt_has(o: &Option<String>, q: &[char]) -> (r: bool)
    ensures
        r == contains_seq(lower_seq(text_or(opt_view(*o), seq![])), q@),
{
    match o {
        Some(s) => {
            let l = lower_of(s);
            contains_chars(l.as_slice(), q)
        },
        None => {
            proof {
                assert(lower_seq(seq![]) =~= Seq::<char>::empty());
            }
            let e: Vec<char> = Vec::new();
            contains_chars(e.as_slice(), q)
        },
    }
}

fn opt_has(o: &Option<String>, t: &str) -> (r: bool)
    ensures
        r == contains_seq(text_or(opt_view(*o), seq![]), t@),
{
    match o {
        Some(s) => {
            let c = str_chars(s.as_str());
            has(c.as_slice(), t)
        },
        None => {
            let e: Vec<char> = Vec::new();
            has(e.as_slice(), t)
        },
    }
}

// ---------------------------------------------------------------------------
// The answers, executed
// ---------------------------------------------------------------------------

fn summary_exec(r: &AnalysisReport) -> (a: (String, Vec<Evidence>))
    ensures
        (a.0@, evidence_views(a.1@)) == summary_answer(r@),
{
    let mut t = copy_string(&r.executive_summary);
    push_str(&mut t, "\n\nMalware: ");
    push_str(&mut t, r.malware.family.name());
    push_str(&mut t, " (");
    push_dec(&mut t, r.malware.malware_probability as u64);
    push_str(&mut t, "%).\n");
    push_string(&mut t, &r.malware.reasoning);
    let e = Evidence::Hash {
        algorithm: owned("sha256"),
        value: copy_string(&r.hashes.sha256),
        note: owned("File identity"),
    };
    let cites = vec![e];
    proof {
        assert(evidence_views(cites@) =~= seq![e@]);
        assert(t@ =~= summary_answer(r@).0);
    }
    (t, cites)
}

fn net_line_exec(n: &NetworkIndicator) -> (s: String)
    ensures
        s@ == net_line(n@),
{
    let mut s = owned("- ");
    push_str(&mut s, n.kind.name());
    push_str(&mut s, " `");
    push_string(&mut s, &n.value);
    push_str(&mut s, "` suspicious=");
    push_bool(&mut s, n.suspicious);
    s
}

fn network_exec(r: &AnalysisReport) -> (a: (String, Vec<Evidence>))
    ensures
        (a.0@, evidence_views(a.1@)) == network_answer(r@),
{
    let ghost rv = r@;
    let ghost ns = take_upto(rv.network, 30);
    let mut lines: Vec<String> = vec![owned("Network-related evidence:")];
    let mut cites: Vec<Evidence> = Vec::new();
    proof {
        assert(strings_view(lines@) =~= seq!["Network-related evidence:"@]);
        assert(evidence_views(cites@) =~= seq![]);
    }
    let n: usize = if r.network.len() < 30 { r.network.len() } else { 30 };
    let mut i: usize = 0;
    while i < n
        invariant
            rv == r@,
            ns == take_upto(rv.network, 30),
            n == ns.len(),
            n <= r.network@.len(),
            i <= n,
            strings_view(lines@) == seq!["Network-related evidence:"@] + ns.subrange(0, i as int).map_values(
                |m: NetworkIndicatorView| net_line(m),
            ),
            evidence_views(cites@) == network_evidence(ns.subrange(0, i as int)),
        decreases n - i,
    {
        let l = net_line_exec(&r.network[i]);
        push_line(&mut lines, l);
        let ghost before = evidence_views(cites@);
        crate::model::extend_evidence(&mut cites, &r.network[i].evidence);
        proof {
            let pre = ns.subrange(0, i + 1);
            assert(pre.drop_last() =~= ns.subrange(0, i as int));
            assert(ns[i as int] == r.network@[i as int]@);
            assert(strings_view(lines@) =~= seq!["Network-related evidence:"@] + pre.map_values(
                |m: NetworkIndicatorView| net_line(m),
            ));
        }
        i += 1;
    }
    proof {
        assert(ns.subrange(0, n as int) =~= ns);
    }
    let ghost after = strings_view(lines@);
    let ghost cites1 = evidence_views(cites@);
    let ghost p = |i: ImportView| networking_import(i);
    let mut count: usize = 0;
    let mut j: usize = 0;
    while j < r.imports.len()
        invariant
            rv == r@,
            p == (|i: ImportView| networking_import(i)),
            j <= r.imports@.len(),
            count == take_upto(sel(rv.imports.subrange(0, j as int), p), 20).len(),
            strings_view(lines@) == after + take_upto(sel(rv.imports.subrange(0, j as int), p), 20).map_values(
                |i: ImportView| "- import "@ + i.module + "!"@ + i.symbol,
            ),
            evidence_views(cites@) == cites1 + take_upto(sel(rv.imports.subrange(0, j as int), p), 20).map_values(
                |i: ImportView| EvidenceView::Import { module: i.module, symbol: i.symbol, note: "Networking API"@ },
            ),
        decreases r.imports@.len() - j,
    {
        let imp = &r.imports[j];
        let tagged = strings_contain_exec(&imp.tags, "networking");
        let ghost prev = sel(rv.imports.subrange(0, j as int), p);
        proof {
            lemma_sel_step(rv.imports, j as int, p);
            assert(rv.imports[j as int] == imp@);
            crate::strings::lemma_take_upto_extend(prev, one_if(p(imp@), imp@), 20);
        }
        if tagged && count < 20 {
            let mut l = owned("- import ");
            push_string(&mut l, &imp.module);
            push_str(&mut l, "!");
            push_string(&mut l, &imp.symbol);
            push_line(&mut lines, l);
            let e = Evidence::Import {
                module: copy_string(&imp.module),
                symbol: copy_string(&imp.symbol),
                note: owned("Networking API"),
            };
            push_cite(&mut cites, e);
            count += 1;
            proof {
                let next = prev + seq![imp@];
                assert(take_upto(prev, 20) =~= prev);
                assert(strings_view(lines@) =~= after + next.map_values(
                    |i: ImportView| "- import "@ + i.module + "!"@ + i.symbol,
                ));
                assert(evidence_views(cites@) =~= cites1 + next.map_values(
                    |i: ImportView| EvidenceView::Import { module: i.module, symbol: i.symbol, note: "Networking API"@ },
                ));
            }
        }
        j += 1;
    }
    proof {
        assert(rv.imports.subrange(0, r.imports@.len() as int) =~= rv.imports);
    }
    let ghost body = strings_view(lines@);
    if lines.len() == 1 {
        push_line(&mut lines, owned("No network indicators extracted."));
    }
    let t = join_lines(&lines);
    proof {
        let imps = take_upto(sel(rv.imports, p), 20);
        assert(body =~= seq!["Network-related evidence:"@] + ns.map_values(|n: NetworkIndicatorView| net_line(n))
            + imps.map_values(|i: ImportView| "- import "@ + i.module + "!"@ + i.symbol));
    }
    (t, cites)
}

fn strings_contain_exec(v: &Vec<String>, t: &str) -> (r: bool)
    ensures
        r == strings_view(v@).contains(t@),
{
    let mut i: usize = 0;
    while i < v.len()
        invariant
            i <= v@.len(),
            forall|k: int| 0 <= k < i ==> strings_view(v@)[k] != t@,
        decreases v@.len() - i,
    {
        let c = str_chars(v[i].as_str());
        if crate::text::eq_str(c.as_slice(), t) {
            proof {
                assert(strings_view(v@)[i as int] == t@);
            }
            return true;
        }
        i += 1;
    }
    false
}

fn crypto_line_exec(c: &CryptoFinding) -> (s: String)
    ensures
        s@ == crypto_line(c@),
{
    let mut s = owned("- ");
    push_string(&mut s, &c.algorithm);
    push_str(&mut s, " (");
    push_string(&mut s, &c.category);
    push_str(&mut s, ") strength=");
    push_string(&mut s, &c.strength);
    push_str(&mut s, " mode=");
    debug_opt_exec(&mut s, &c.mode);
    s
}

fn crypto_exec(r: &AnalysisReport) -> (a: (String, Vec<Evidence>))
    ensures
        (a.0@, evidence_views(a.1@)) == crypto_answer(r@),
{
    let ghost rv = r@;
    let mut lines: Vec<String> = vec![owned("Cryptography evidence:")];
    let mut cites: Vec<Evidence> = Vec::new();
    proof {
        assert(strings_view(lines@) =~= seq!["Cryptography evidence:"@]);
        assert(evidence_views(cites@) =~= seq![]);
    }
    let mut i: usize = 0;
    while i < r.crypto.len()
        invariant
            rv == r@,
            i <= r.crypto@.len(),
            strings_view(lines@) == seq!["Cryptography evidence:"@] + rv.crypto.subrange(0, i as int).map_values(
                |c: CryptoFindingView| crypto_line(c),
            ),
            evidence_views(cites@) == crypto_evidence(rv.crypto.subrange(0, i as int)),
        decreases r.crypto@.len() - i,
    {
        let l = crypto_line_exec(&r.crypto[i]);
        push_line(&mut lines, l);
        crate::model::extend_evidence(&mut cites, &r.crypto[i].evidence);
        proof {
            let pre = rv.crypto.subrange(0, i + 1);
            assert(pre.drop_last() =~= rv.crypto.subrange(0, i as int));
            assert(rv.crypto[i as int] == r.crypto@[i as int]@);
            assert(strings_view(lines@) =~= seq!["Cryptography evidence:"@] + pre.map_values(
                |c: CryptoFindingView| crypto_line(c),
            ));
        }
        i += 1;
    }
    proof {
        assert(rv.crypto.subrange(0, r.crypto@.len() as int) =~= rv.crypto);
    }
    let ghost after = strings_view(lines@);
    let ghost cites1 = evidence_views(cites@);
    let ghost p = |f: FunctionView| f.possible_crypto;
    let mut count: usize = 0;
    let mut j: usize = 0;
    while j < r.functions.len()
        invariant
            rv == r@,
            p == (|f: FunctionView| f.possible_crypto),
            j <= r.functions@.len(),
            count == take_upto(sel(rv.functions.subrange(0, j as int), p), 15).len(),
            strings_view(lines@) == after + take_upto(sel(rv.functions.subrange(0, j as int), p), 15).map_values(
                |f: FunctionView| crypto_fn_line(f),
            ),
            evidence_views(cites@) == cites1 + take_upto(sel(rv.functions.subrange(0, j as int), p), 15).map_values(
                |f: FunctionView| function_cite(f, shown_name(f), "Marked possible_crypto"@),
            ),
        decreases r.functions@.len() - j,
    {
        let f = &r.functions[j];
        let ghost prev = sel(rv.functions.subrange(0, j as int), p);
        proof {
            lemma_sel_step(rv.functions, j as int, p);
            assert(rv.functions[j as int] == f@);
            crate::strings::lemma_take_upto_extend(prev, one_if(p(f@), f@), 15);
        }
        if f.possible_crypto && count < 15 {
            let mut l = owned("- function ");
            let nm = shown_name_exec(f);
            push_string(&mut l, &nm);
            push_str(&mut l, " @ ");
            push_hex_prefixed(&mut l, f.address);
            push_str(&mut l, " — ");
            push_text_or(&mut l, &f.description, "crypto-related");
            push_line(&mut lines, l);
            push_cite(&mut cites, function_cite_exec(f, nm, "Marked possible_crypto"));
            count += 1;
            proof {
                let next = prev + seq![f@];
                assert(take_upto(prev, 15) =~= prev);
                assert(strings_view(lines@) =~= after + next.map_values(|f: FunctionView| crypto_fn_line(f)));
                assert(evidence_views(cites@) =~= cites1 + next.map_values(
                    |f: FunctionView| function_cite(f, shown_name(f), "Marked possible_crypto"@),
                ));
            }
        }
        j += 1;
    }
    proof {
        assert(rv.functions.subrange(0, r.functions@.len() as int) =~= rv.functions);
    }
    let t = join_lines(&lines);
    (t, cites)
}

fn string_at_line_exec(s: &ExtractedString) -> (l: String)
    ensures
        l@ == string_at_line(s@),
{
    let mut l = owned("- string @ ");
    push_hex_prefixed(&mut l, s.offset);
    push_str(&mut l, ": ");
    push_string(&mut l, &s.value);
    l
}

fn string_cite_exec(s: &ExtractedString, note: &str) -> (e: Evidence)
    ensures
        e@ == string_cite(s@, note@),
{
    Evidence::String { value: copy_string(&s.value), offset: Some(s.offset), note: owned(note) }
}

fn license_exec(r: &AnalysisReport) -> (a: (String, Vec<Evidence>))
    ensures
        (a.0@, evidence_views(a.1@)) == license_answer(r@),
{
    let ghost rv = r@;
    let mut lines: Vec<String> = vec![owned("License-related evidence:")];
    let mut cites: Vec<Evidence> = Vec::new();
    proof {
        assert(strings_view(lines@) =~= seq!["License-related evidence:"@]);
        assert(evidence_views(cites@) =~= seq![]);
    }
    let ghost p = |s: ExtractedStringView| license_string(s);
    let mut i: usize = 0;
    while i < r.strings.len()
        invariant
            rv == r@,
            p == (|s: ExtractedStringView| license_string(s)),
            i <= r.strings@.len(),
            strings_view(lines@) == seq!["License-related evidence:"@] + sel(rv.strings.subrange(0, i as int), p).map_values(
                |s: ExtractedStringView| string_at_line(s),
            ),
            evidence_views(cites@) == sel(rv.strings.subrange(0, i as int), p).map_values(
                |s: ExtractedStringView| string_cite(s, "License string"@),
            ),
        decreases r.strings@.len() - i,
    {
        let s = &r.strings[i];
        proof {
            lemma_sel_step(rv.strings, i as int, p);
            assert(rv.strings[i as int] == s@);
        }
        let l = lower_of(&s.value);
        if has(l.as_slice(), "license") {
            push_line(&mut lines, string_at_line_exec(s));
            push_cite(&mut cites, string_cite_exec(s, "License string"));
        }
        proof {
            let prev = sel(rv.strings.subrange(0, i as int), p);
            let next = sel(rv.strings.subrange(0, i + 1), p);
            assert(strings_view(lines@) =~= seq!["License-related evidence:"@] + next.map_values(
                |s: ExtractedStringView| string_at_line(s),
            ));
            assert(evidence_views(cites@) =~= next.map_values(
                |s: ExtractedStringView| string_cite(s, "License string"@),
            ));
        }
        i += 1;
    }
    proof {
        assert(rv.strings.subrange(0, r.strings@.len() as int) =~= rv.strings);
    }
    let ghost after = strings_view(lines@);
    let ghost q = |f: FunctionView| license_function(f);
    let ghost lf = |f: FunctionView|
        "- "@ + shown_name(f) + " @ "@ + hex_prefixed(f.address as nat) + ": "@ + text_or(
            f.description,
            "candidate"@,
        );
    let mut j: usize = 0;
    while j < r.functions.len()
        invariant
            rv == r@,
            q == (|f: FunctionView| license_function(f)),
            lf == (|f: FunctionView|
                "- "@ + shown_name(f) + " @ "@ + hex_prefixed(f.address as nat) + ": "@ + text_or(
                    f.description,
                    "candidate"@,
                )),
            j <= r.functions@.len(),
            strings_view(lines@) == after + sel(rv.functions.subrange(0, j as int), q).map_values(lf),
        decreases r.functions@.len() - j,
    {
        let f = &r.functions[j];
        proof {
            lemma_sel_step(rv.functions, j as int, q);
            assert(rv.functions[j as int] == f@);
        }
        let n = str_chars(f.name.as_str());
        if opt_has(&f.suggested_name, "license") || has(n.as_slice(), "license") {
            let mut l = owned("- ");
            let nm = shown_name_exec(f);
            push_string(&mut l, &nm);
            push_str(&mut l, " @ ");
            push_hex_prefixed(&mut l, f.address);
            push_str(&mut l, ": ");
            push_text_or(&mut l, &f.description, "candidate");
            push_line(&mut lines, l);
        }
        proof {
            let next = sel(rv.functions.subrange(0, j + 1), q);
            assert(strings_view(lines@) =~= after + next.map_values(lf));
        }
        j += 1;
    }
    proof {
        assert(rv.functions.subrange(0, r.functions@.len() as int) =~= rv.functions);
    }
    let ghost body = strings_view(lines@);
    if lines.len() == 1 {
        push_line(&mut lines, owned("No explicit license checks found in extracted evidence."));
    }
    let t = join_lines(&lines);
    proof {
        assert(body =~= seq!["License-related evidence:"@] + sel(rv.strings, p).map_values(
            |s: ExtractedStringView| string_at_line(s),
        ) + sel(rv.functions, q).map_values(lf));
    }
    (t, cites)
}

fn persistence_exec(r: &AnalysisReport) -> (a: (String, Vec<Evidence>))
    ensures
        (a.0@, evidence_views(a.1@)) == persistence_answer(r@),
{
    let ghost rv = r@;
    let mut lines: Vec<String> = vec![owned("Persistence evidence:")];
    let mut cites: Vec<Evidence> = Vec::new();
    proof {
        assert(strings_view(lines@) =~= seq!["Persistence evidence:"@]);
        assert(evidence_views(cites@) =~= seq![]);
    }
    let ghost pers = rv.malware.persistence;
    let mut i: usize = 0;
    while i < r.malware.persistence.len()
        invariant
            rv == r@,
            pers == rv.malware.persistence,
            i <= r.malware.persistence@.len(),
            strings_view(lines@) == seq!["Persistence evidence:"@] + pers.subrange(0, i as int).map_values(
                |p: Seq<char>| "- API/behavior: "@ + p,
            ),
        decreases r.malware.persistence@.len() - i,
    {
        let mut l = owned("- API/behavior: ");
        push_string(&mut l, &r.malware.persistence[i]);
        push_line(&mut lines, l);
        proof {
            let pre = pers.subrange(0, i + 1);
            assert(pre.drop_last() =~= pers.subrange(0, i as int));
            assert(pers[i as int] == r.malware.persistence@[i as int]@);
            assert(strings_view(lines@) =~= seq!["Persistence evidence:"@] + pre.map_values(
                |p: Seq<char>| "- API/behavior: "@ + p,
            ));
        }
        i += 1;
    }
    proof {
        assert(pers.subrange(0, r.malware.persistence@.len() as int) =~= pers);
    }
    let ghost after = strings_view(lines@);
    let ghost p = |s: ExtractedStringView| persistence_string(s);
    let mut j: usize = 0;
    while j < r.strings.len()
        invariant
            rv == r@,
            p == (|s: ExtractedStringView| persistence_string(s)),
            j <= r.strings@.len(),
            strings_view(lines@) == after + sel(rv.strings.subrange(0, j as int), p).map_values(
                |s: ExtractedStringView| "- "@ + s.value,
            ),
            evidence_views(cites@) == sel(rv.strings.subrange(0, j as int), p).map_values(
                |s: ExtractedStringView| string_cite(s, "Persistence indicator"@),
            ),
        decreases r.strings@.len() - j,
    {
        let s = &r.strings[j];
        proof {
            lemma_sel_step(rv.strings, j as int, p);
            assert(rv.strings[j as int] == s@);
        }
        let l = lower_of(&s.value);
        let hit = match s.category {
            StringCategory::Registry | StringCategory::Service => true,
            _ => has(l.as_slice(), "currentversion\\run"),
        };
        if hit {
            let mut line = owned("- ");
            push_string(&mut line, &s.value);
            push_line(&mut lines, line);
            push_cite(&mut cites, string_cite_exec(s, "Persistence indicator"));
        }
        proof {
            let next = sel(rv.strings.subrange(0, j + 1), p);
            assert(strings_view(lines@) =~= after + next.map_values(|s: ExtractedStringView| "- "@ + s.value));
            assert(evidence_views(cites@) =~= next.map_values(
                |s: ExtractedStringView| string_cite(s, "Persistence indicator"@),
            ));
        }
        j += 1;
    }
    proof {
        assert(rv.strings.subrange(0, r.strings@.len() as int) =~= rv.strings);
    }
    let ghost after2 = strings_view(lines@);
    let ghost q = |f: FunctionView| f.possible_persistence;
    let ghost lf = |f: FunctionView| "- "@ + shown_name(f) + " @ "@ + hex_prefixed(f.address as nat);
    let mut k: usize = 0;
    while k < r.functions.len()
        invariant
            rv == r@,
            q == (|f: FunctionView| f.possible_persistence),
            lf == (|f: FunctionView| "- "@ + shown_name(f) + " @ "@ + hex_prefixed(f.address as nat)),
            k <= r.functions@.len(),
            strings_view(lines@) == after2 + sel(rv.functions.subrange(0, k as int), q).map_values(lf),
        decreases r.functions@.len() - k,
    {
        let f = &r.functions[k];
        proof {
            lemma_sel_step(rv.functions, k as int, q);
            assert(rv.functions[k as int] == f@);
        }
        if f.possible_persistence {
            let mut l = owned("- ");
            let nm = shown_name_exec(f);
            push_string(&mut l, &nm);
            push_str(&mut l, " @ ");
            push_hex_prefixed(&mut l, f.address);
            push_line(&mut lines, l);
        }
        proof {
            let next = sel(rv.functions.subrange(0, k + 1), q);
            assert(strings_view(lines@) =~= after2 + next.map_values(lf));
        }
        k += 1;
    }
    proof {
        assert(rv.functions.subrange(0, r.functions@.len() as int) =~= rv.functions);
    }
    let t = join_lines(&lines);
    (t, cites)
}

fn api_exec(r: &AnalysisReport) -> (a: (String, Vec<Evidence>))
    ensures
        (a.0@, evidence_views(a.1@)) == api_answer(r@),
{
    let ghost rv = r@;
    let mut lines: Vec<String> = vec![owned("Higher-risk APIs:")];
    let mut cites: Vec<Evidence> = Vec::new();
    proof {
        assert(strings_view(lines@) =~= seq!["Higher-risk APIs:"@]);
        assert(evidence_views(cites@) =~= seq![]);
    }
    let ghost p = |i: ImportView| risky_import(i);
    let ghost lf = |i: ImportView|
        "- ["@ + risk_name(i.risk) + "] "@ + i.module + "!"@ + i.symbol + " "@ + debug_list(i.tags);
    let ghost cf = |i: ImportView|
        EvidenceView::Import { module: i.module, symbol: i.symbol, note: "risk="@ + risk_name(i.risk) };
    let mut count: usize = 0;
    let mut j: usize = 0;
    while j < r.imports.len()
        invariant
            rv == r@,
            p == (|i: ImportView| risky_import(i)),
            lf == (|i: ImportView|
                "- ["@ + risk_name(i.risk) + "] "@ + i.module + "!"@ + i.symbol + " "@ + debug_list(i.tags)),
            cf == (|i: ImportView|
                EvidenceView::Import { module: i.module, symbol: i.symbol, note: "risk="@ + risk_name(i.risk) }),
            j <= r.imports@.len(),
            count == take_upto(sel(rv.imports.subrange(0, j as int), p), 40).len(),
            strings_view(lines@) == seq!["Higher-risk APIs:"@] + take_upto(sel(rv.imports.subrange(0, j as int), p), 40).map_values(lf),
            evidence_views(cites@) == take_upto(sel(rv.imports.subrange(0, j as int), p), 40).map_values(cf),
        decreases r.imports@.len() - j,
    {
        let imp = &r.imports[j];
        let ghost prev = sel(rv.imports.subrange(0, j as int), p);
        proof {
            lemma_sel_step(rv.imports, j as int, p);
            assert(rv.imports[j as int] == imp@);
            crate::strings::lemma_take_upto_extend(prev, one_if(p(imp@), imp@), 40);
        }
        let risky = match imp.risk {
            RiskLevel::Medium | RiskLevel::High | RiskLevel::Critical => true,
            _ => false,
        };
        if risky && count < 40 {
            let mut l = owned("- [");
            push_str(&mut l, imp.risk.name());
            push_str(&mut l, "] ");
            push_string(&mut l, &imp.module);
            push_str(&mut l, "!");
            push_string(&mut l, &imp.symbol);
            push_str(&mut l, " ");
            debug_list_exec(&mut l, &imp.tags);
            push_line(&mut lines, l);
            let mut note = owned("risk=");
            push_str(&mut note, imp.risk.name());
            let e = Evidence::Import { module: copy_string(&imp.module), symbol: copy_string(&imp.symbol), note };
            push_cite(&mut cites, e);
            count += 1;
            proof {
                let next = prev + seq![imp@];
                assert(take_upto(prev, 40) =~= prev);
                assert(strings_view(lines@) =~= seq!["Higher-risk APIs:"@] + next.map_values(lf));
                assert(evidence_views(cites@) =~= next.map_values(cf));
            }
        }
        j += 1;
    }
    proof {
        assert(rv.imports.subrange(0, r.imports@.len() as int) =~= rv.imports);
    }
    let t = join_lines(&lines);
    (t, cites)
}

fn malware_exec(r: &AnalysisReport) -> (a: (String, Vec<Evidence>))
    ensures
        (a.0@, evidence_views(a.1@)) == malware_answer(r@),
{
    let mut t = owned("Malware probability is ");
    push_dec(&mut t, r.malware.malware_probability as u64);
    push_str(&mut t, "% (confidence ");
    push_dec(&mut t, r.malware.confidence as u64);
    push_str(&mut t, "%). Family: ");
    push_str(&mut t, r.malware.family.name());
    push_str(&mut t, ".\nReasoning: ");
    push_string(&mut t, &r.malware.reasoning);
    push_str(&mut t, "\nBehaviors: ");
    let b = join_first(r.malware.behaviors.as_slice(), ", ", r.malware.behaviors.len());
    push_string(&mut t, &b);
    push_str(&mut t, "\n");
    let cites = crate::model::copy_evidence(&r.malware.evidence);
    proof {
        assert(take_upto(strings_view(r.malware.behaviors@), r.malware.behaviors@.len() as int)
            =~= strings_view(r.malware.behaviors@));
        assert(t@ =~= malware_answer(r@).0);
    }
    (t, cites)
}

fn first_entry_exec(fs: &Vec<FunctionAnalysis>) -> (r: Option<usize>)
    ensures
        match first_entry(crate::model::function_views(fs@)) {
            Some(f) => r matches Some(k) && k < fs@.len() && fs@[k as int]@ == f,
            None => r is None,
        },
{
    let ghost v = crate::model::function_views(fs@);
    let mut i: usize = 0;
    proof {
        assert(v.subrange(0, fs@.len() as int) =~= v);
    }
    while i < fs.len()
        invariant
            v == crate::model::function_views(fs@),
            i <= fs@.len(),
            first_entry(v) == first_entry(v.subrange(i as int, fs@.len() as int)),
        decreases fs@.len() - i,
    {
        let ghost rest = v.subrange(i as int, fs@.len() as int);
        proof {
            assert(rest[0] == fs@[i as int]@);
            assert(rest.drop_first() =~= v.subrange(i + 1, fs@.len() as int));
        }
        let f = &fs[i];
        let n = str_chars(f.name.as_str());
        if strings_contain_exec(&f.tags, "entry") || crate::text::eq_str(n.as_slice(), "entry") || has(
            n.as_slice(),
            "main",
        ) {
            return Some(i);
        }
        i += 1;
    }
    proof {
        assert(v.subrange(i as int, fs@.len() as int) =~= seq![]);
    }
    None
}

fn entry_exec(f: &FunctionAnalysis) -> (a: (String, Vec<Evidence>))
    ensures
        (a.0@, evidence_views(a.1@)) == entry_answer(f@),
{
    let nm = shown_name_exec(f);
    let mut t = owned("Entry candidate `");
    push_string(&mut t, &nm);
    push_str(&mut t, "` @ ");
    push_hex_prefixed(&mut t, f.address);
    push_str(&mut t, "\n");
    push_text_or(&mut t, &f.description, "n/a");
    push_str(&mut t, "\nPurpose: ");
    push_text_or(&mut t, &f.purpose, "n/a");
    push_str(&mut t, "\nAssembly preview:\n");
    push_text_or(&mut t, &f.assembly_preview, "n/a");
    let e = function_cite_exec(f, nm, "Entry/main candidate");
    let cites = vec![e];
    proof {
        assert(evidence_views(cites@) =~= seq![e@]);
        assert(t@ =~= entry_answer(f@).0);
    }
    (t, cites)
}

fn secrets_exec(r: &AnalysisReport) -> (a: (String, Vec<Evidence>))
    ensures
        (a.0@, evidence_views(a.1@)) == secrets_answer(r@),
{
    let ghost rv = r@;
    let mut lines: Vec<String> = vec![owned("Credential/secret evidence:")];
    let mut cites: Vec<Evidence> = Vec::new();
    proof {
        assert(strings_view(lines@) =~= seq!["Credential/secret evidence:"@]);
        assert(evidence_views(cites@) =~= seq![]);
    }
    let ghost p = |f: SecurityFindingView| f.category == "secrets"@;
    let ghost lf = |f: SecurityFindingView| "- ["@ + risk_name(f.severity) + "] "@ + f.title;
    let mut i: usize = 0;
    while i < r.security.len()
        invariant
            rv == r@,
            p == (|f: SecurityFindingView| f.category == "secrets"@),
            lf == (|f: SecurityFindingView| "- ["@ + risk_name(f.severity) + "] "@ + f.title),
            i <= r.security@.len(),
            strings_view(lines@) == seq!["Credential/secret evidence:"@] + sel(rv.security.subrange(0, i as int), p).map_values(lf),
            evidence_views(cites@) == security_evidence(sel(rv.security.subrange(0, i as int), p)),
        decreases r.security@.len() - i,
    {
        let f = &r.security[i];
        proof {
            lemma_sel_step(rv.security, i as int, p);
            assert(rv.security[i as int] == f@);
        }
        let c = str_chars(f.category.as_str());
        if crate::text::eq_str(c.as_slice(), "secrets") {
            let mut l = owned("- [");
            push_str(&mut l, f.severity.name());
            push_str(&mut l, "] ");
            push_string(&mut l, &f.title);
            push_line(&mut lines, l);
            crate::model::extend_evidence(&mut cites, &f.evidence);
        }
        proof {
            let prev = sel(rv.security.subrange(0, i as int), p);
            let next = sel(rv.security.subrange(0, i + 1), p);
            assert(strings_view(lines@) =~= seq!["Credential/secret evidence:"@] + next.map_values(lf));
            if p(f@) {
                assert(next.drop_last() =~= prev);
            } else {
                assert(next =~= prev);
            }
        }
        i += 1;
    }
    proof {
        assert(rv.security.subrange(0, r.security@.len() as int) =~= rv.security);
    }
    let ghost after = strings_view(lines@);
    let ghost q = |s: ExtractedStringView| secret_string(s);
    let ghost sf = |s: ExtractedStringView| "- "@ + category_name(s.category) + " @ "@ + hex_prefixed(s.offset as nat);
    let mut j: usize = 0;
    while j < r.strings.len()
        invariant
            rv == r@,
            q == (|s: ExtractedStringView| secret_string(s)),
            sf == (|s: ExtractedStringView| "- "@ + category_name(s.category) + " @ "@ + hex_prefixed(s.offset as nat)),
            j <= r.strings@.len(),
            strings_view(lines@) == after + sel(rv.strings.subrange(0, j as int), q).map_values(sf),
        decreases r.strings@.len() - j,
    {
        let s = &r.strings[j];
        proof {
            lemma_sel_step(rv.strings, j as int, q);
            assert(rv.strings[j as int] == s@);
        }
        let hit = match s.category {
            StringCategory::Credential | StringCategory::ApiKey | StringCategory::Jwt => true,
            _ => false,
        };
        if hit {
            let mut l = owned("- ");
            push_str(&mut l, s.category.name());
            push_str(&mut l, " @ ");
            push_hex_prefixed(&mut l, s.offset);
            push_line(&mut lines, l);
        }
        proof {
            let next = sel(rv.strings.subrange(0, j + 1), q);
            assert(strings_view(lines@) =~= after + next.map_values(sf));
        }
        j += 1;
    }
    proof {
        assert(rv.strings.subrange(0, r.strings@.len() as int) =~= rv.strings);
    }
    let t = join_lines(&lines);
    (t, cites)
}

fn distinct_modules(imports: &Vec<ImportEntry>) -> (n: u64)
    ensures
        n as nat == distinct_count(crate::model::import_views(imports@).map_values(|i: ImportView| i.module)),
{
    let ghost ms = crate::model::import_views(imports@).map_values(|i: ImportView| i.module);
    let mut n: u64 = 0;
    let mut i: usize = 0;
    while i < imports.len()
        invariant
            ms == crate::model::import_views(imports@).map_values(|i: ImportView| i.module),
            i <= imports@.len(),
            n as nat == distinct_count(ms.subrange(0, i as int)),
            n <= i,
        decreases imports@.len() - i,
    {
        let mi = str_chars(imports[i].module.as_str());
        let mut seen = false;
        let mut j: usize = 0;
        while j < i
            invariant
                ms == crate::model::import_views(imports@).map_values(|i: ImportView| i.module),
                i < imports@.len(),
                j <= i,
                mi@ == ms[i as int],
                seen == (exists|k: int| 0 <= k < j && ms[k] == ms[i as int]),
            decreases i - j,
        {
            let mj = str_chars(imports[j].module.as_str());
            if crate::text::chars_eq(mj.as_slice(), mi.as_slice()) {
                seen = true;
            }
            proof {
                assert(mj@ == ms[j as int]);
            }
            j += 1;
        }
        proof {
            let pre = ms.subrange(0, i + 1);
            assert(pre.drop_last() =~= ms.subrange(0, i as int));
            assert(pre.last() == ms[i as int]);
            if seen {
                let k = choose|k: int| 0 <= k < i && ms[k] == ms[i as int];
                assert(ms.subrange(0, i as int)[k] == ms[i as int]);
            } else {
                assert forall|k: int| 0 <= k < i implies ms.subrange(0, i as int)[k] != ms[i as int] by {
                    assert(ms.subrange(0, i as int)[k] == ms[k]);
                }
            }
        }
        if !seen {
            n += 1;
        }
        i += 1;
    }
    proof {
        assert(ms.subrange(0, imports@.len() as int) =~= ms);
    }
    n
}

fn architecture_exec(r: &AnalysisReport) -> (t: String)
    ensures
        t@ == architecture_answer(r@),
{
    let mut t = owned("Architecture snapshot:\n- Format ");
    push_str(&mut t, r.identity.format.name());
    push_str(&mut t, "/");
    push_str(&mut t, r.identity.architecture.name());
    push_str(&mut t, "\n- Dependencies: ");
    push_dec(&mut t, r.dependencies.len() as u64);
    push_str(&mut t, "\n- Call-graph nodes: ");
    push_dec(&mut t, r.call_graph.nodes.len() as u64);
    push_str(&mut t, "\n- Import modules: ");
    let m = distinct_modules(&r.imports);
    push_dec(&mut t, m);
    push_str(
        &mut t,
        "\n\nUse the Graphs panel for interactive diagrams. Generated reports are available via the Reports API.",
    );
    proof {
        assert(r@.call_graph.nodes.len() == r.call_graph.nodes@.len());
        assert(t@ =~= architecture_answer(r@));
    }
    t
}

fn search_exec(r: &AnalysisReport, question: &str, q: &[char]) -> (a: (String, Vec<Evidence>))
    ensures
        (a.0@, evidence_views(a.1@)) == search_answer(r@, question@, q@),
{
    let ghost rv = r@;
    let ghost p = |f: FunctionView| function_matches(f, q@);
    let ghost lf = |f: FunctionView|
        "- fn "@ + shown_name(f) + " @ "@ + hex_prefixed(f.address as nat) + ": "@ + text_or(
            f.description,
            seq![],
        );
    let ghost cf = |f: FunctionView| function_cite(f, f.name, "Matched query"@);
    let mut hits: Vec<String> = Vec::new();
    let mut cites: Vec<Evidence> = Vec::new();
    proof {
        assert(strings_view(hits@) =~= seq![]);
        assert(evidence_views(cites@) =~= seq![]);
    }
    let mut count: usize = 0;
    let mut j: usize = 0;
    while j < r.functions.len()
        invariant
            rv == r@,
            p == (|f: FunctionView| function_matches(f, q@)),
            lf == (|f: FunctionView|
                "- fn "@ + shown_name(f) + " @ "@ + hex_prefixed(f.address as nat) + ": "@ + text_or(
                    f.description,
                    seq![],
                )),
            cf == (|f: FunctionView| function_cite(f, f.name, "Matched query"@)),
            j <= r.functions@.len(),
            count == take_upto(sel(rv.functions.subrange(0, j as int), p), 10).len(),
            strings_view(hits@) == take_upto(sel(rv.functions.subrange(0, j as int), p), 10).map_values(lf),
            evidence_views(cites@) == take_upto(sel(rv.functions.subrange(0, j as int), p), 10).map_values(cf),
        decreases r.functions@.len() - j,
    {
        let f = &r.functions[j];
        let ghost prev = sel(rv.functions.subrange(0, j as int), p);
        proof {
            lemma_sel_step(rv.functions, j as int, p);
            assert(rv.functions[j as int] == f@);
            crate::strings::lemma_take_upto_extend(prev, one_if(p(f@), f@), 10);
        }
        let ln = lower_of(&f.name);
        let m = contains_chars(ln.as_slice(), q) || lower_opt_has(&f.suggested_name, q)
            || lower_opt_has(&f.description, q);
        if m && count < 10 {
            let mut l = owned("- fn ");
            let nm = shown_name_exec(f);
            push_string(&mut l, &nm);
            push_str(&mut l, " @ ");
            push_hex_prefixed(&mut l, f.address);
            push_str(&mut l, ": ");
            push_text_or(&mut l, &f.description, "");
            push_line(&mut hits, l);
            push_cite(&mut cites, function_cite_exec(f, copy_string(&f.name), "Matched query"));
            count += 1;
            proof {
                reveal_strlit("");
                assert(""@ =~= Seq::<char>::empty());
                let next = prev + seq![f@];
                assert(take_upto(prev, 10) =~= prev);
                assert(strings_view(hits@) =~= next.map_values(lf));
                assert(evidence_views(cites@) =~= next.map_values(cf));
            }
        }
        j += 1;
    }
    proof {
        assert(rv.functions.subrange(0, r.functions@.len() as int) =~= rv.functions);
    }
    let ghost after = strings_view(hits@);
    let ghost ps = |s: ExtractedStringView| contains_seq(lower_seq(s.value), q@);
    let mut count2: usize = 0;
    let mut k: usize = 0;
    while k < r.strings.len()
        invariant
            rv == r@,
            ps == (|s: ExtractedStringView| contains_seq(lower_seq(s.value), q@)),
            k <= r.strings@.len(),
            count2 == take_upto(sel(rv.strings.subrange(0, k as int), ps), 10).len(),
            strings_view(hits@) == after + take_upto(sel(rv.strings.subrange(0, k as int), ps), 10).map_values(
                |s: ExtractedStringView| string_at_line(s),
            ),
        decreases r.strings@.len() - k,
    {
        let s = &r.strings[k];
        let ghost prev = sel(rv.strings.subrange(0, k as int), ps);
        proof {
            lemma_sel_step(rv.strings, k as int, ps);
            assert(rv.strings[k as int] == s@);
            crate::strings::lemma_take_upto_extend(prev, one_if(ps(s@), s@), 10);
        }
        let l = lower_of(&s.value);
        if contains_chars(l.as_slice(), q) && count2 < 10 {
            push_line(&mut hits, string_at_line_exec(s));
            count2 += 1;
            proof {
                let next = prev + seq![s@];
                assert(take_upto(prev, 10) =~= prev);
                assert(strings_view(hits@) =~= after + next.map_values(|s: ExtractedStringView| string_at_line(s)));
            }
        }
        k += 1;
    }
    proof {
        assert(rv.strings.subrange(0, r.strings@.len() as int) =~= rv.strings);
    }
    if hits.len() == 0 {
        let mut t = owned("No direct evidence matched `");
        push_str(&mut t, question);
        push_str(
            &mut t,
            "`. Try: summarize binary, where is networking, show encryption, dangerous APIs, malware probability.",
        );
        (t, cites)
    } else {
        let mut t = owned("Evidence matches:\n");
        let j = join_lines(&hits);
        push_string(&mut t, &j);
        (t, cites)
    }
}

fn later_exec(r: &AnalysisReport, question: &str, q: &[char]) -> (a: (String, Vec<Evidence>))
    ensures
        (a.0@, evidence_views(a.1@)) == later_answer(r@, question@, q@),
{
    if has(q, "credential") || has(q, "secret") || has(q, "password") {
        secrets_exec(r)
    } else if has(q, "dead code") {
        let c: Vec<Evidence> = Vec::new();
        proof {
            assert(evidence_views(c@) =~= seq![]);
        }
        (owned("Dead-code identification requires full CFG reachability from entry. Current static pass marks unreachable candidates only when call-graph coverage is complete; review functions with zero xrefs_to as candidates."), c)
    } else if has(q, "document") || has(q, "architecture diagram") {
        let c: Vec<Evidence> = Vec::new();
        proof {
            assert(evidence_views(c@) =~= seq![]);
        }
        (architecture_exec(r), c)
    } else {
        search_exec(r, question, q)
    }
}

/// The grounded answer to a question about a report and the evidence it
/// cites: the first topic the question mentions (ASCII case-insensitive)
/// decides — summary or overview; network, C2, URL or domain; encryption or
/// cryptography; license; persistence; dangerous APIs; malware or
/// probability; main or entry point; credentials, secrets or passwords;
/// dead code; documentation or architecture diagrams — and otherwise the
/// functions and strings that mention the question are listed.
pub fn grounded_answer(report: &AnalysisReport, question: &str) -> (a: (String, Vec<Evidence>))
    ensures
        (a.0@, evidence_views(a.1@)) == spec_grounded_answer(report@, question@),
{
    let qc = str_chars(question);
    let ql = lower_chars(qc.as_slice());
    let q = ql.as_slice();
    if has(q, "summar") || has(q, "overview") {
        summary_exec(report)
    } else if has(q, "network") || has(q, "c2") || has(q, "url") || has(q, "domain") {
        network_exec(report)
    } else if has(q, "encrypt") || has(q, "crypto") || has(q, "decrypt") {
        crypto_exec(report)
    } else if has(q, "license") {
        license_exec(report)
    } else if has(q, "persist") {
        persistence_exec(report)
    } else if has(q, "dangerous") || has(q, "api") {
        api_exec(report)
    } else if has(q, "malware") || has(q, "probability") {
        malware_exec(report)
    } else {
        if has(q, "main") || has(q, "entry") {
            match first_entry_exec(&report.functions) {
                Some(k) => {
                    return entry_exec(&report.functions[k]);
                },
                None => {},
            }
        }
        later_exec(report, question, q)
    }
}

// ---------------------------------------------------------------------------
// Answering with a model
// ---------------------------------------------------------------------------

/// An answer to a question, the evidence it cites and who wrote it.
#[derive(Debug, Clone)]
pub struct ChatAnswer {
    pub content: String,
    pub citations: Vec<Evidence>,
    pub provider: String,
}

/// A number in hundredths written with two decimals.
pub open spec fn hundredths_text(h: nat) -> Seq<char> {
    dec_of(h / 100) + seq!['.', hex_digit(((h % 100) / 10) as int), hex_digit((h % 10) as int)]
}

/// A one-line summary of the report for a model's context.
pub open spec fn spec_evidence_pack(r: ReportView) -> Seq<char> {
    "file="@ + r.filename + " sha256="@ + r.sha256 + " format="@ + format_name(r.identity.format)
        + " arch="@ + arch_name(r.identity.architecture) + " malware="@ + family_name(r.malware.family)
        + "/"@ + hundredths_text(r.malware.malware_probability as nat) + " imports="@ + dec_of(
        r.imports.len(),
    ) + " strings="@ + dec_of(r.strings.len()) + " findings="@ + dec_of(r.security.len())
}

/// A one-line summary of the report (file, hash, format, verdict, counts)
/// given to a model as context.
pub fn evidence_pack(r: &AnalysisReport) -> (t: String)
    ensures
        t@ == spec_evidence_pack(r@),
{
    let mut t = owned("file=");
    push_string(&mut t, &r.filename);
    push_str(&mut t, " sha256=");
    push_string(&mut t, &r.hashes.sha256);
    push_str(&mut t, " format=");
    push_str(&mut t, r.identity.format.name());
    push_str(&mut t, " arch=");
    push_str(&mut t, r.identity.architecture.name());
    push_str(&mut t, " malware=");
    push_str(&mut t, r.malware.family.name());
    push_str(&mut t, "/");
    let h = r.malware.malware_probability as u64;
    push_dec(&mut t, h / 100);
    push_str(&mut t, ".");
    crate::text::push_char(&mut t, crate::text::hex_digit_char((h % 100) / 10));
    crate::text::push_char(&mut t, crate::text::hex_digit_char(h % 10));
    push_str(&mut t, " imports=");
    push_dec(&mut t, r.imports.len() as u64);
    push_str(&mut t, " strings=");
    push_dec(&mut t, r.strings.len() as u64);
    push_str(&mut t, " findings=");
    push_dec(&mut t, r.security.len() as u64);
    proof {
        reveal_strlit(".");
        assert(t@ =~= spec_evidence_pack(r@));
    }
    t
}

/// The instructions given to a model.
pub open spec fn system_prompt() -> Seq<char> {
    "You are Binaris, an expert reverse engineer. Only make claims supported by the provided evidence. Cite function addresses, imports, and strings. If evidence is insufficient, say so."@
}

/// The question put to a model, with the evidence pack and the local draft.
pub open spec fn model_question(r: ReportView, question: Seq<char>, local: Seq<char>) -> Seq<char> {
    "Binary evidence pack:\n"@ + spec_evidence_pack(r) + "\n\nQuestion: "@ + question
        + "\n\nDraft answer to refine (keep citations):\n"@ + local
}

/// Whether the configuration answers locally without asking any provider.
pub open spec fn answers_locally(cfg_provider: Seq<char>, api_key: Option<Seq<char>>) -> bool {
    cfg_provider == "local"@ || api_key is None
}

/// What answering a question takes: nothing more, or one call to a remote
/// model whose reply `finish_answer` turns into the answer.
#[derive(Debug, Clone)]
pub enum ChatStep {
    Answered(ChatAnswer),
    AskModel {
        provider: ProviderChoice,
        messages: Vec<AiMessage>,
        local: String,
        citations: Vec<Evidence>,
    },
}

/// The answer of a remote model, or the local answer with the model's error.
pub open spec fn spec_finish(local: Seq<char>, provider: Seq<char>, outcome: Result<Seq<char>, Seq<char>>) -> (Seq<char>, Seq<char>) {
    match outcome {
        Ok(c) => (c, provider),
        Err(e) => (local + "\n\n_(External model unavailable: "@ + e + ")_"@, "local-fallback"@),
    }
}

/// Turns a model's reply (or its error text) into the answer; the
/// citations are those of the local answer either way.
pub fn finish_answer(local: String, citations: Vec<Evidence>, provider: &str, outcome: Result<String, String>) -> (a: ChatAnswer)
    ensures
        (a.content@, a.provider@) == spec_finish(
            local@,
            provider@,
            match outcome {
                Ok(c) => Ok(c@),
                Err(e) => Err(e@),
            },
        ),
        evidence_views(a.citations@) == evidence_views(citations@),
{
    match outcome {
        Ok(content) => ChatAnswer { content, citations, provider: owned(provider) },
        Err(e) => {
            let mut content = local;
            push_str(&mut content, "\n\n_(External model unavailable: ");
            push_string(&mut content, &e);
            push_str(&mut content, ")_");
            ChatAnswer { content, citations, provider: owned("local-fallback") }
        },
    }
}

/// Plans the answer to a question: the grounded local answer when the
/// configuration is local or has no API key; otherwise the messages for
/// the selected provider (the system instructions, then the evidence pack,
/// the question and the local draft), answered at once when the selected
/// provider is the local engine.
pub fn plan_answer(report: &AnalysisReport, question: &str, cfg: &ProviderConfig) -> (r: ChatStep)
    ensures
        ({
            let g = spec_grounded_answer(report@, question@);
            match r {
                ChatStep::Answered(a) => {
                    &&& evidence_views(a.citations@) == g.1
                    &&& if answers_locally(cfg.provider@, opt_view(cfg.api_key)) {
                        a.content@ == g.0 && a.provider@ == "local"@
                    } else {
                        &&& spec_build_provider(cfg.provider@, cfg.model@, opt_view(cfg.api_key), opt_view(cfg.base_url)) is Local
                        &&& a.content@ == spec_local_complete(
                            seq![(
                                "system"@,
                                system_prompt(),
                            ), ("user"@, model_question(report@, question@, g.0))],
                        )
                        &&& a.provider@ == cfg.provider@
                    }
                },
                ChatStep::AskModel { provider, messages, local, citations } => {
                    &&& !answers_locally(cfg.provider@, opt_view(cfg.api_key))
                    &&& provider@ == spec_build_provider(cfg.provider@, cfg.model@, opt_view(cfg.api_key), opt_view(cfg.base_url))
                    &&& !(provider@ is Local)
                    &&& message_views(messages@) == seq![
                        ("system"@, system_prompt()),
                        ("user"@, model_question(report@, question@, g.0)),
                    ]
                    &&& local@ == g.0
                    &&& evidence_views(citations@) == g.1
                },
            }
        }),
{
    let (local, citations) = grounded_answer(report, question);
    let choice = build_provider(cfg);
    let pc = str_chars(cfg.provider.as_str());
    if eq_str(pc.as_slice(), "local") || cfg.api_key.is_none() {
        return ChatStep::Answered(ChatAnswer { content: local, citations, provider: owned("local") });
    }
    let system = AiMessage {
        role: owned("system"),
        content: owned("You are Binaris, an expert reverse engineer. Only make claims supported by the provided evidence. Cite function addresses, imports, and strings. If evidence is insufficient, say so."),
    };
    let mut ctx = owned("Binary evidence pack:\n");
    let pack = evidence_pack(report);
    push_string(&mut ctx, &pack);
    push_str(&mut ctx, "\n\nQuestion: ");
    push_str(&mut ctx, question);
    push_str(&mut ctx, "\n\nDraft answer to refine (keep citations):\n");
    push_string(&mut ctx, &local);
    let user = AiMessage { role: owned("user"), content: ctx };
    let messages = vec![system, user];
    proof {
        assert(message_views(messages@) =~= seq![
            ("system"@, system_prompt()),
            ("user"@, model_question(report@, question@, local@)),
        ]);
    }
    match choice {
        ProviderChoice::Local => {
            let content = local_complete(messages.as_slice());
            ChatStep::Answered(ChatAnswer { content, citations, provider: copy_string(&cfg.provider) })
        },
        ProviderChoice::OpenAiCompatible { api_key, base_url, model } => ChatStep::AskModel {
            provider: ProviderChoice::OpenAiCompatible { api_key, base_url, model },
            messages,
            local,
            citations,
        },
    }
}

} // verus!
