//! Security findings: unsafe C APIs, hardcoded secrets and weak cryptography.
use vstd::prelude::*;
use vstd::string::StringSliceAdditionalSpecFns;
use vstd::utf8::{decode_utf8, is_char_boundary};
use crate::crypto_detect::one_if;
use crate::matcher::{is_match, regex_is_match};
use crate::model::{
    category_name, crypto_views, evidence_views, import_views, security_views, string_views,
    copy_evidence, CryptoFinding, CryptoFindingView, Evidence, EvidenceView, ExtractedString,
    ExtractedStringView, ImportEntry, ImportView, RiskLevel, SecurityFinding, SecurityFindingView,
    StringCategory,
};
use crate::order::{is_sorted_desc, law_sort_desc_sorted_permutation, lemma_sort_by_keys_view, sort_desc, sort_desc_by_keys};
use crate::text::{
    copy_opt_string, copy_string, eq_str, hex_prefixed, owned, push_hex_prefixed, push_str,
    push_string, str_chars, utf8,
};

verus! {

// ---------------------------------------------------------------------------
// Severity and redaction
// ---------------------------------------------------------------------------

/// The order of severities: Info lowest, Critical highest.
pub open spec fn spec_severity_rank(r: RiskLevel) -> int {
    match r {
        RiskLevel::Info => 0,
        RiskLevel::Low => 1,
        RiskLevel::Medium => 2,
        RiskLevel::High => 3,
        RiskLevel::Critical => 4,
    }
}

/// The rank of a severity: Info 0, Low 1, Medium 2, High 3, Critical 4.
pub fn severity_rank(r: RiskLevel) -> (k: u8)
    ensures
        k as int == spec_severity_rank(r),
{
    match r {
        RiskLevel::Info => 0,
        RiskLevel::Low => 1,
        RiskLevel::Medium => 2,
        RiskLevel::High => 3,
        RiskLevel::Critical => 4,
    }
}

/// Redaction is defined on `v`: it is short, or its UTF-8 bytes can be cut
/// after the fourth byte and before the last two.
pub open spec fn redact_ok(v: Seq<char>) -> bool {
    let b = utf8(v);
    b.len() <= 8 || (is_char_boundary(b, 4) && is_char_boundary(b, b.len() - 2))
}

/// A secret with all but its first four and last two bytes hidden; texts of
/// at most eight bytes are hidden entirely.
pub open spec fn spec_redact(v: Seq<char>) -> Seq<char> {
    let b = utf8(v);
    if b.len() <= 8 {
        "***"@
    } else {
        decode_utf8(b.subrange(0, 4)) + "…"@ + decode_utf8(b.subrange(b.len() - 2, b.len() as int))
    }
}

/// Hides a secret: `***` for at most eight bytes, else its first four bytes,
/// an ellipsis and its last two bytes.
pub fn redact(s: &str) -> (r: String)
    requires
        redact_ok(s@),
    ensures
        r@ == spec_redact(s@),
{
    broadcast use vstd::utf8::encode_utf8_decode_utf8;

    let n = s.as_bytes().len();
    if n <= 8 {
        return owned("***");
    }
    let (head, _) = s.split_at(4);
    let (_, tail) = s.split_at(n - 2);
    let mut out = owned(head);
    push_str(&mut out, "…");
    push_str(&mut out, tail);
    proof {
        assert(head.spec_bytes() == utf8(s@).subrange(0, 4));
        assert(decode_utf8(head.spec_bytes()) == head@);
        assert(tail.spec_bytes() == utf8(s@).subrange(n - 2, n as int));
        assert(decode_utf8(tail.spec_bytes()) == tail@);
    }
    out
}

// ---------------------------------------------------------------------------
// Unsafe APIs
// ---------------------------------------------------------------------------

/// What an unsafe API import means: title, category, severity, CWE and remediation.
pub open spec fn unsafe_api_rule(sym: Seq<char>) -> Option<(Seq<char>, Seq<char>, RiskLevel, Seq<char>, Seq<char>)> {
    if sym == "strcpy"@ || sym == "wcscpy"@ || sym == "lstrcpyA"@ || sym == "lstrcpyW"@ {
        Some(("Unsafe strcpy family"@, "buffer_overflow"@, RiskLevel::High, "CWE-120"@, "Use bounded string APIs"@))
    } else if sym == "gets"@ {
        Some(("Unsafe gets()"@, "buffer_overflow"@, RiskLevel::Critical, "CWE-242"@, "Never use gets; use fgets"@))
    } else if sym == "sprintf"@ || sym == "vsprintf"@ {
        Some(("Unsafe sprintf"@, "format_string"@, RiskLevel::High, "CWE-134"@, "Use snprintf with bounds"@))
    } else if sym == "memcpy"@ {
        Some(("memcpy usage"@, "unsafe_memcpy"@, RiskLevel::Medium, "CWE-120"@, "Validate lengths; prefer safer wrappers"@))
    } else if sym == "scanf"@ || sym == "sscanf"@ {
        Some(("Unbounded scanf"@, "buffer_overflow"@, RiskLevel::Medium, "CWE-120"@, "Use width specifiers"@))
    } else if sym == "system"@ || sym == "WinExec"@ || sym == "ShellExecuteA"@ || sym == "ShellExecuteW"@ {
        Some(("Command execution API"@, "command_injection"@, RiskLevel::High, "CWE-78"@, "Avoid shelling out with untrusted input"@))
    } else if sym == "sqlite3_exec"@ {
        Some(("SQL exec API"@, "sql_injection"@, RiskLevel::Medium, "CWE-89"@, "Use parameterized queries"@))
    } else {
        None
    }
}

/// The finding for an import of an unsafe API, if it is one.
pub open spec fn spec_unsafe_api_finding(imp: ImportView) -> Option<SecurityFindingView> {
    match unsafe_api_rule(imp.symbol) {
        Some((title, category, severity, cwe, remediation)) => Some(
            SecurityFindingView {
                title,
                category,
                severity,
                confidence: 70,
                description: imp.module + "!"@ + imp.symbol + " can enable "@ + category,
                cwe: Some(cwe),
                location: Some(imp.module + "!"@ + imp.symbol),
                evidence: seq![EvidenceView::Import { module: imp.module, symbol: imp.symbol, note: title }],
                remediation: Some(remediation),
            },
        ),
        None => None,
    }
}

fn unsafe_api_rule_exec(sym: &str) -> (r: Option<(&'static str, &'static str, RiskLevel, &'static str, &'static str)>)
    ensures
        match unsafe_api_rule(sym@) {
            Some(t) => r matches Some(x) && x.0@ == t.0 && x.1@ == t.1 && x.2 == t.2 && x.3@ == t.3 && x.4@ == t.4,
            None => r is None,
        },
{
    let c = str_chars(sym);
    let v = c.as_slice();
    if eq_str(v, "strcpy") || eq_str(v, "wcscpy") || eq_str(v, "lstrcpyA") || eq_str(v, "lstrcpyW") {
        Some(("Unsafe strcpy family", "buffer_overflow", RiskLevel::High, "CWE-120", "Use bounded string APIs"))
    } else if eq_str(v, "gets") {
        Some(("Unsafe gets()", "buffer_overflow", RiskLevel::Critical, "CWE-242", "Never use gets; use fgets"))
    } else if eq_str(v, "sprintf") || eq_str(v, "vsprintf") {
        Some(("Unsafe sprintf", "format_string", RiskLevel::High, "CWE-134", "Use snprintf with bounds"))
    } else if eq_str(v, "memcpy") {
        Some(("memcpy usage", "unsafe_memcpy", RiskLevel::Medium, "CWE-120", "Validate lengths; prefer safer wrappers"))
    } else if eq_str(v, "scanf") || eq_str(v, "sscanf") {
        Some(("Unbounded scanf", "buffer_overflow", RiskLevel::Medium, "CWE-120", "Use width specifiers"))
    } else if eq_str(v, "system") || eq_str(v, "WinExec") || eq_str(v, "ShellExecuteA") || eq_str(v, "ShellExecuteW") {
        Some(("Command execution API", "command_injection", RiskLevel::High, "CWE-78", "Avoid shelling out with untrusted input"))
    } else if eq_str(v, "sqlite3_exec") {
        Some(("SQL exec API", "sql_injection", RiskLevel::Medium, "CWE-89", "Use parameterized queries"))
    } else {
        None
    }
}

/// The finding for an import of an unsafe C API (strcpy family, gets,
/// sprintf, memcpy, scanf, command execution, sqlite3_exec), if it is one.
pub fn unsafe_api_finding(imp: &ImportEntry) -> (r: Option<SecurityFinding>)
    ensures
        match spec_unsafe_api_finding(imp@) {
            Some(f) => r matches Some(x) && x@ == f,
            None => r is None,
        },
{
    match unsafe_api_rule_exec(imp.symbol.as_str()) {
        None => None,
        Some((title, category, severity, cwe, remediation)) => {
            let mut loc = copy_string(&imp.module);
            push_str(&mut loc, "!");
            push_string(&mut loc, &imp.symbol);
            let mut desc = copy_string(&loc);
            push_str(&mut desc, " can enable ");
            push_str(&mut desc, category);
            let ev = Evidence::Import {
                module: copy_string(&imp.module),
                symbol: copy_string(&imp.symbol),
                note: owned(title),
            };
            let f = SecurityFinding {
                id: crate::ids::new_id(),
                title: owned(title),
                category: owned(category),
                severity,
                confidence: 70,
                description: desc,
                cwe: Some(owned(cwe)),
                location: Some(loc),
                evidence: vec![ev],
                remediation: Some(owned(remediation)),
            };
            proof {
                assert(evidence_views(f.evidence@) =~= seq![ev@]);
            }
            Some(f)
        },
    }
}

// ---------------------------------------------------------------------------
// Secrets
// ---------------------------------------------------------------------------

pub open spec fn google_key_pattern() -> Seq<char> {
    r#"AIza[0-9A-Za-z\-_]{35}"#@
}

pub open spec fn azure_key_pattern() -> Seq<char> {
    r#"(?i)(?:AccountKey|SharedAccessSignature)=[A-Za-z0-9+/=%]{16,}"#@
}

pub open spec fn generic_secret_pattern() -> Seq<char> {
    r#"(?i)(api[_-]?key|secret|token|password)\s*[=:]\s*['\"][^'\"]{8,}['\"]"#@
}

/// A string category that holds secret material.
pub open spec fn is_secret_category(c: StringCategory) -> bool {
    c == StringCategory::ApiKey || c == StringCategory::Credential || c == StringCategory::Jwt
}

/// The finding for a string whose category holds secret material.
pub open spec fn category_finding(s: ExtractedStringView) -> SecurityFindingView {
    SecurityFindingView {
        title: "Potential "@ + category_name(s.category) + " exposure"@,
        category: "secrets"@,
        severity: RiskLevel::Critical,
        confidence: s.score,
        description: "Sensitive string category detected at offset "@ + hex_prefixed(s.offset as nat),
        cwe: Some("CWE-798"@),
        location: Some("string@"@ + hex_prefixed(s.offset as nat)),
        evidence: seq![
            EvidenceView::String {
                value: spec_redact(s.value),
                offset: Some(s.offset),
                note: "Hardcoded secret indicator"@,
            },
        ],
        remediation: Some("Remove secrets from binaries; use a secrets manager."@),
    }
}

/// The finding for secret material that a pattern matched.
pub open spec fn spec_secret_finding(title: Seq<char>, value: Seq<char>, offset: u64, confidence: u32) -> SecurityFindingView {
    SecurityFindingView {
        title,
        category: "secrets"@,
        severity: RiskLevel::Critical,
        confidence,
        description: "Possible secret material at offset "@ + hex_prefixed(offset as nat),
        cwe: Some("CWE-798"@),
        location: Some("string@"@ + hex_prefixed(offset as nat)),
        evidence: seq![EvidenceView::String { value: spec_redact(value), offset: Some(offset), note: title }],
        remediation: Some("Rotate exposed credentials immediately."@),
    }
}

/// The findings that one extracted string gives, in rule order.
pub open spec fn string_findings(s: ExtractedStringView) -> Seq<SecurityFindingView> {
    one_if(is_secret_category(s.category), category_finding(s)) + one_if(
        regex_is_match(google_key_pattern(), s.value),
        spec_secret_finding("Google API key"@, s.value, s.offset, 95),
    ) + one_if(
        regex_is_match(azure_key_pattern(), s.value),
        spec_secret_finding("Azure key material"@, s.value, s.offset, 90),
    ) + one_if(
        regex_is_match(generic_secret_pattern(), s.value),
        spec_secret_finding("Hardcoded credential assignment"@, s.value, s.offset, 80),
    )
}

/// The string's text gets redacted by some rule.
pub open spec fn redacted(s: ExtractedStringView) -> bool {
    is_secret_category(s.category) || regex_is_match(google_key_pattern(), s.value)
        || regex_is_match(azure_key_pattern(), s.value) || regex_is_match(
        generic_secret_pattern(),
        s.value,
    )
}

/// Every string that some rule redacts can be redacted.
pub open spec fn strings_redactable(ss: Seq<ExtractedStringView>) -> bool {
    forall|i: int| 0 <= i < ss.len() && redacted(#[trigger] ss[i]) ==> redact_ok(ss[i].value)
}

fn push_offset_text(out: &mut String, prefix: &str, offset: u64)
    ensures
        final(out)@ == old(out)@ + prefix@ + hex_prefixed(offset as nat),
{
    push_str(out, prefix);
    push_hex_prefixed(out, offset);
}

/// The finding for secret material `value` at `offset` that a pattern matched.
pub fn secret_finding(title: &str, value: &str, offset: u64, confidence: u32) -> (f: SecurityFinding)
    requires
        redact_ok(value@),
    ensures
        f@ == spec_secret_finding(title@, value@, offset, confidence),
{
    let mut desc = String::new();
    push_offset_text(&mut desc, "Possible secret material at offset ", offset);
    let mut loc = String::new();
    push_offset_text(&mut loc, "string@", offset);
    let ev = Evidence::String { value: redact(value), offset: Some(offset), note: owned(title) };
    let f = SecurityFinding {
        id: crate::ids::new_id(),
        title: owned(title),
        category: owned("secrets"),
        severity: RiskLevel::Critical,
        confidence,
        description: desc,
        cwe: Some(owned("CWE-798")),
        location: Some(loc),
        evidence: vec![ev],
        remediation: Some(owned("Rotate exposed credentials immediately.")),
    };
    proof {
        assert(evidence_views(f.evidence@) =~= seq![ev@]);
    }
    f
}

fn category_finding_exec(s: &ExtractedString) -> (f: SecurityFinding)
    requires
        redact_ok(s@.value),
    ensures
        f@ == category_finding(s@),
{
    let mut title = owned("Potential ");
    push_str(&mut title, s.category.name());
    push_str(&mut title, " exposure");
    let mut desc = String::new();
    push_offset_text(&mut desc, "Sensitive string category detected at offset ", s.offset);
    let mut loc = String::new();
    push_offset_text(&mut loc, "string@", s.offset);
    let ev = Evidence::String {
        value: redact(s.value.as_str()),
        offset: Some(s.offset),
        note: owned("Hardcoded secret indicator"),
    };
    let f = SecurityFinding {
        id: crate::ids::new_id(),
        title,
        category: owned("secrets"),
        severity: RiskLevel::Critical,
        confidence: s.score,
        description: desc,
        cwe: Some(owned("CWE-798")),
        location: Some(loc),
        evidence: vec![ev],
        remediation: Some(owned("Remove secrets from binaries; use a secrets manager.")),
    };
    proof {
        assert(evidence_views(f.evidence@) =~= seq![ev@]);
    }
    f
}

fn push_security(out: &mut Vec<SecurityFinding>, f: SecurityFinding)
    ensures
        security_views(final(out)@) == security_views(old(out)@).push(f@),
{
    let ghost before = out@;
    out.push(f);
    proof {
        assert(security_views(out@) =~= security_views(before).push(f@));
    }
}

fn push_string_findings(out: &mut Vec<SecurityFinding>, s: &ExtractedString)
    requires
        redacted(s@) ==> redact_ok(s@.value),
    ensures
        security_views(final(out)@) == security_views(old(out)@) + string_findings(s@),
{
    let ghost start = security_views(out@);
    let secret = match s.category {
        StringCategory::ApiKey | StringCategory::Credential | StringCategory::Jwt => true,
        _ => false,
    };
    if secret {
        let f = category_finding_exec(s);
        push_security(out, f);
    }
    let ghost a = security_views(out@);
    if is_match(r#"AIza[0-9A-Za-z\-_]{35}"#, s.value.as_str()) {
        push_security(out, secret_finding("Google API key", s.value.as_str(), s.offset, 95));
    }
    if is_match(
        r#"(?i)(?:AccountKey|SharedAccessSignature)=[A-Za-z0-9+/=%]{16,}"#,
        s.value.as_str(),
    ) {
        push_security(out, secret_finding("Azure key material", s.value.as_str(), s.offset, 90));
    }
    if is_match(
        r#"(?i)(api[_-]?key|secret|token|password)\s*[=:]\s*['\"][^'\"]{8,}['\"]"#,
        s.value.as_str(),
    ) {
        push_security(
            out,
            secret_finding("Hardcoded credential assignment", s.value.as_str(), s.offset, 80),
        );
    }
    proof {
        let v = s@;
        assert(a =~= start + one_if(is_secret_category(v.category), category_finding(v)));
        assert(security_views(out@) =~= start + string_findings(v));
    }
}

// ---------------------------------------------------------------------------
// Weak cryptography
// ---------------------------------------------------------------------------

/// The finding for a cryptographic primitive rated weak.
pub open spec fn weak_crypto_finding(c: CryptoFindingView) -> SecurityFindingView {
    SecurityFindingView {
        title: "Weak cryptography: "@ + c.algorithm,
        category: "weak_crypto"@,
        severity: RiskLevel::High,
        confidence: c.confidence,
        description: match c.weakness {
            Some(w) => w,
            None => c.algorithm + " is considered weak"@,
        },
        cwe: Some("CWE-327"@),
        location: c.mode,
        evidence: c.evidence,
        remediation: Some("Migrate to modern algorithms (AES-GCM, ChaCha20-Poly1305, SHA-256+)."@),
    }
}

/// The finding for a block cipher used in ECB mode.
pub open spec fn ecb_finding(c: CryptoFindingView) -> SecurityFindingView {
    SecurityFindingView {
        title: "AES ECB mode detected"@,
        category: "weak_crypto"@,
        severity: RiskLevel::High,
        confidence: c.confidence,
        description: "ECB mode does not provide semantic security for repeated blocks."@,
        cwe: Some("CWE-327"@),
        location: Some("crypto"@),
        evidence: c.evidence,
        remediation: Some("Use AES-GCM or ChaCha20-Poly1305."@),
    }
}

/// The findings that one cryptography finding gives.
pub open spec fn crypto_findings_of(c: CryptoFindingView) -> Seq<SecurityFindingView> {
    one_if(c.strength == "weak"@, weak_crypto_finding(c)) + one_if(
        c.mode == Some("ECB"@),
        ecb_finding(c),
    )
}

fn opt_is(o: &Option<String>, t: &str) -> (r: bool)
    ensures
        r == (crate::text::opt_view(*o) == Some(t@)),
{
    match o {
        Some(x) => {
            let c = str_chars(x.as_str());
            eq_str(c.as_slice(), t)
        },
        None => false,
    }
}

fn push_crypto_findings(out: &mut Vec<SecurityFinding>, c: &CryptoFinding)
    ensures
        security_views(final(out)@) == security_views(old(out)@) + crypto_findings_of(c@),
{
    let ghost start = security_views(out@);
    let sc = str_chars(c.strength.as_str());
    if eq_str(sc.as_slice(), "weak") {
        let mut title = owned("Weak cryptography: ");
        push_string(&mut title, &c.algorithm);
        let description = match &c.weakness {
            Some(w) => copy_string(w),
            None => {
                let mut d = copy_string(&c.algorithm);
                push_str(&mut d, " is considered weak");
                d
            },
        };
        let f = SecurityFinding {
            id: crate::ids::new_id(),
            title,
            category: owned("weak_crypto"),
            severity: RiskLevel::High,
            confidence: c.confidence,
            description,
            cwe: Some(owned("CWE-327")),
            location: copy_opt_string(&c.mode),
            evidence: copy_evidence(&c.evidence),
            remediation: Some(
                owned("Migrate to modern algorithms (AES-GCM, ChaCha20-Poly1305, SHA-256+)."),
            ),
        };
        push_security(out, f);
    }
    let ghost a = security_views(out@);
    if opt_is(&c.mode, "ECB") {
        let f = SecurityFinding {
            id: crate::ids::new_id(),
            title: owned("AES ECB mode detected"),
            category: owned("weak_crypto"),
            severity: RiskLevel::High,
            confidence: c.confidence,
            description: owned("ECB mode does not provide semantic security for repeated blocks."),
            cwe: Some(owned("CWE-327")),
            location: Some(owned("crypto")),
            evidence: copy_evidence(&c.evidence),
            remediation: Some(owned("Use AES-GCM or ChaCha20-Poly1305.")),
        };
        push_security(out, f);
    }
    proof {
        assert(a =~= start + one_if(c@.strength == "weak"@, weak_crypto_finding(c@)));
        assert(security_views(out@) =~= start + crypto_findings_of(c@));
    }
}

// ---------------------------------------------------------------------------
// All findings
// ---------------------------------------------------------------------------

pub open spec fn import_findings(imps: Seq<ImportView>) -> Seq<SecurityFindingView>
    decreases imps.len(),
{
    if imps.len() == 0 {
        seq![]
    } else {
        import_findings(imps.drop_last()) + match spec_unsafe_api_finding(imps.last()) {
            Some(f) => seq![f],
            None => seq![],
        }
    }
}

pub open spec fn all_string_findings(ss: Seq<ExtractedStringView>) -> Seq<SecurityFindingView>
    decreases ss.len(),
{
    if ss.len() == 0 {
        seq![]
    } else {
        all_string_findings(ss.drop_last()) + string_findings(ss.last())
    }
}

pub open spec fn all_crypto_findings(cs: Seq<CryptoFindingView>) -> Seq<SecurityFindingView>
    decreases cs.len(),
{
    if cs.len() == 0 {
        seq![]
    } else {
        all_crypto_findings(cs.drop_last()) + crypto_findings_of(cs.last())
    }
}

/// The severity rank of a finding, as a sort key.
pub open spec fn severity_key(f: SecurityFindingView) -> int {
    spec_severity_rank(f.severity)
}

/// The findings before ordering: imports, then strings, then cryptography.
pub open spec fn security_candidates(
    imps: Seq<ImportView>,
    ss: Seq<ExtractedStringView>,
    cs: Seq<CryptoFindingView>,
) -> Seq<SecurityFindingView> {
    import_findings(imps) + all_string_findings(ss) + all_crypto_findings(cs)
}

/// The security findings, most severe first; findings of equal severity
/// keep their order.
pub open spec fn spec_analyze(
    imps: Seq<ImportView>,
    ss: Seq<ExtractedStringView>,
    cs: Seq<CryptoFindingView>,
) -> Seq<SecurityFindingView> {
    sort_desc(security_candidates(imps, ss, cs), |f: SecurityFindingView| severity_key(f))
}

/// Security findings from the imports (unsafe C APIs), the extracted strings
/// (secret categories, Google and Azure keys, credential assignments, each
/// redacted) and the cryptography findings (weak algorithms, ECB mode),
/// most severe first.
pub fn analyze(imports: &[ImportEntry], strings: &[ExtractedString], crypto: &[CryptoFinding]) -> (r: Vec<SecurityFinding>)
    requires
        strings_redactable(string_views(strings@)),
    ensures
        security_views(r@) == spec_analyze(import_views(imports@), string_views(strings@), crypto_views(crypto@)),
{
    let mut findings: Vec<SecurityFinding> = Vec::new();
    let mut i: usize = 0;
    while i < imports.len()
        invariant
            i <= imports@.len(),
            security_views(findings@) == import_findings(import_views(imports@.subrange(0, i as int))),
        decreases imports@.len() - i,
    {
        let ghost before = security_views(findings@);
        match unsafe_api_finding(&imports[i]) {
            Some(f) => push_security(&mut findings, f),
            None => {},
        }
        proof {
            let v = import_views(imports@.subrange(0, i + 1));
            assert(v.drop_last() =~= import_views(imports@.subrange(0, i as int)));
            assert(v.last() == imports@[i as int]@);
            assert(security_views(findings@) =~= import_findings(v));
        }
        i += 1;
    }
    proof {
        assert(imports@.subrange(0, imports@.len() as int) =~= imports@);
    }
    let ghost after_imports = security_views(findings@);
    let mut j: usize = 0;
    while j < strings.len()
        invariant
            j <= strings@.len(),
            strings_redactable(string_views(strings@)),
            security_views(findings@) == after_imports + all_string_findings(
                string_views(strings@.subrange(0, j as int)),
            ),
        decreases strings@.len() - j,
    {
        proof {
            assert(string_views(strings@)[j as int] == strings@[j as int]@);
        }
        push_string_findings(&mut findings, &strings[j]);
        proof {
            let v = string_views(strings@.subrange(0, j + 1));
            assert(v.drop_last() =~= string_views(strings@.subrange(0, j as int)));
            assert(v.last() == strings@[j as int]@);
            assert(security_views(findings@) =~= after_imports + all_string_findings(v));
        }
        j += 1;
    }
    proof {
        assert(strings@.subrange(0, strings@.len() as int) =~= strings@);
    }
    let ghost after_strings = security_views(findings@);
    let mut k: usize = 0;
    while k < crypto.len()
        invariant
            k <= crypto@.len(),
            security_views(findings@) == after_strings + all_crypto_findings(
                crypto_views(crypto@.subrange(0, k as int)),
            ),
        decreases crypto@.len() - k,
    {
        push_crypto_findings(&mut findings, &crypto[k]);
        proof {
            let v = crypto_views(crypto@.subrange(0, k + 1));
            assert(v.drop_last() =~= crypto_views(crypto@.subrange(0, k as int)));
            assert(v.last() == crypto@[k as int]@);
            assert(security_views(findings@) =~= after_strings + all_crypto_findings(v));
        }
        k += 1;
    }
    proof {
        assert(crypto@.subrange(0, crypto@.len() as int) =~= crypto@);
        assert(security_views(findings@) =~= security_candidates(
            import_views(imports@),
            string_views(strings@),
            crypto_views(crypto@),
        ));
    }
    let mut keys: Vec<u64> = Vec::new();
    let mut t: usize = 0;
    while t < findings.len()
        invariant
            t <= findings@.len(),
            keys@.len() == t,
            forall|q: int| 0 <= q < t ==> keys@[q] as int == severity_key(#[trigger] findings@[q]@),
        decreases findings@.len() - t,
    {
        keys.push(severity_rank(findings[t].severity) as u64);
        t += 1;
    }
    let ghost items = findings@;
    let ghost ks = keys@;
    let r = sort_desc_by_keys(findings, keys);
    proof {
        lemma_sort_by_keys_view(items, ks, |f: SecurityFinding| f@, |v: SecurityFindingView| severity_key(v));
        assert(security_views(r@) =~= r@.map_values(|f: SecurityFinding| f@));
        assert(items.map_values(|f: SecurityFinding| f@) =~= security_views(items));
    }
    r
}

/// Whether every string that a rule would redact can be redacted; `analyze`
/// needs this of its strings.
pub fn strings_can_be_redacted(strings: &[ExtractedString]) -> (r: bool)
    ensures
        r == strings_redactable(string_views(strings@)),
{
    let mut i: usize = 0;
    while i < strings.len()
        invariant
            i <= strings@.len(),
            forall|k: int|
                0 <= k < i && redacted(#[trigger] string_views(strings@)[k]) ==> redact_ok(
                    string_views(strings@)[k].value,
                ),
        decreases strings@.len() - i,
    {
        let s = &strings[i];
        let secret = match s.category {
            StringCategory::ApiKey | StringCategory::Credential | StringCategory::Jwt => true,
            _ => false,
        };
        let red = secret || is_match(r#"AIza[0-9A-Za-z\-_]{35}"#, s.value.as_str()) || is_match(
            r#"(?i)(?:AccountKey|SharedAccessSignature)=[A-Za-z0-9+/=%]{16,}"#,
            s.value.as_str(),
        ) || is_match(
            r#"(?i)(api[_-]?key|secret|token|password)\s*[=:]\s*['\"][^'\"]{8,}['\"]"#,
            s.value.as_str(),
        );
        proof {
            assert(string_views(strings@)[i as int] == s@);
        }
        if red {
            let n = s.value.as_str().as_bytes().len();
            if n > 8 {
                if !s.value.as_str().is_char_boundary(4) || !s.value.as_str().is_char_boundary(n - 2) {
                    return false;
                }
            }
        }
        i += 1;
    }
    true
}

/// `analyze` where every string that a rule redacts can be redacted, and
/// `None` otherwise (where redaction would cut a character in two).
pub fn analyze_checked(imports: &[ImportEntry], strings: &[ExtractedString], crypto: &[CryptoFinding]) -> (r: Option<Vec<SecurityFinding>>)
    ensures
        strings_redactable(string_views(strings@)) <==> r is Some,
        r matches Some(v) ==> security_views(v@) == spec_analyze(
            import_views(imports@),
            string_views(strings@),
            crypto_views(crypto@),
        ),
{
    if strings_can_be_redacted(strings) {
        Some(analyze(imports, strings, crypto))
    } else {
        None
    }
}

/// Findings come out most severe first, and are exactly the findings that
/// the rules make.
pub proof fn law_findings_by_severity(
    imps: Seq<ImportView>,
    ss: Seq<ExtractedStringView>,
    cs: Seq<CryptoFindingView>,
)
    ensures
        is_sorted_desc(spec_analyze(imps, ss, cs), |f: SecurityFindingView| severity_key(f)),
        spec_analyze(imps, ss, cs).to_multiset() == security_candidates(imps, ss, cs).to_multiset(),
{
    law_sort_desc_sorted_permutation(
        security_candidates(imps, ss, cs),
        |f: SecurityFindingView| severity_key(f),
    );
}

} // verus!
