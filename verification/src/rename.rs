//! Deterministic rename suggestions for functions, grounded in the binary's
//! imports, strings and disassembly.
use vstd::prelude::*;
use crate::model::{
    evidence_views, function_views, import_views, string_views, Evidence, EvidenceView,
    ExtractedString, ExtractedStringView, FunctionAnalysis, FunctionView, ImportEntry, ImportView,
    StringCategory,
};
use crate::strings::take_upto;
use crate::text::{
    contains_seq, copy_string, has, lower_chars, lower_seq, opt_view, owned, str_chars, strings_view,
};

verus! {

// ---------------------------------------------------------------------------
// Context
// ---------------------------------------------------------------------------

/// The texts joined with `sep` between them.
pub open spec fn join_with(sep: Seq<char>, items: Seq<Seq<char>>) -> Seq<char>
    decreases items.len(),
{
    if items.len() == 0 {
        seq![]
    } else if items.len() == 1 {
        items[0]
    } else {
        join_with(sep, items.drop_last()) + sep + items.last()
    }
}

/// The lowercased imported symbols, separated by spaces.
pub open spec fn import_blob(imps: Seq<ImportView>) -> Seq<char> {
    join_with(" "@, imps.map_values(|i: ImportView| lower_seq(i.symbol)))
}

/// The first 500 strings, lowercased, one per line.
pub open spec fn string_blob(ss: Seq<ExtractedStringView>) -> Seq<char> {
    join_with("\n"@, take_upto(ss, 500).map_values(|s: ExtractedStringView| lower_seq(s.value)))
}

/// The first import tagged `crypto`.
pub open spec fn first_crypto_import(imps: Seq<ImportView>) -> Option<ImportView>
    decreases imps.len(),
{
    if imps.len() == 0 {
        None
    } else if imps[0].tags.contains("crypto"@) {
        Some(imps[0])
    } else {
        first_crypto_import(imps.drop_first())
    }
}

/// The first URL or domain string.
pub open spec fn first_network_string(ss: Seq<ExtractedStringView>) -> Option<ExtractedStringView>
    decreases ss.len(),
{
    if ss.len() == 0 {
        None
    } else if ss[0].category == StringCategory::Url || ss[0].category == StringCategory::Domain {
        Some(ss[0])
    } else {
        first_network_string(ss.drop_first())
    }
}

/// The first string that mentions `license` (ASCII case-insensitive).
pub open spec fn first_license_string(ss: Seq<ExtractedStringView>) -> Option<ExtractedStringView>
    decreases ss.len(),
{
    if ss.len() == 0 {
        None
    } else if contains_seq(lower_seq(ss[0].value), "license"@) {
        Some(ss[0])
    } else {
        first_license_string(ss.drop_first())
    }
}

// ---------------------------------------------------------------------------
// The decision steps
// ---------------------------------------------------------------------------

/// What the rules have decided of a function so far.
pub struct RenameState {
    pub name: Option<Seq<char>>,
    pub description: Option<Seq<char>>,
    pub purpose: Option<Seq<char>>,
    pub score: u32,
    pub evidence: Seq<EvidenceView>,
    pub crypto: bool,
    pub networking: bool,
    pub anti_debug: bool,
    pub persistence: bool,
    pub injection: bool,
}

pub open spec fn max_score(a: u32, b: u32) -> u32 {
    if a >= b { a } else { b }
}

pub open spec fn initial_state(f: FunctionView) -> RenameState {
    RenameState {
        name: None,
        description: None,
        purpose: None,
        score: 35,
        evidence: seq![],
        crypto: f.possible_crypto,
        networking: f.possible_networking,
        anti_debug: f.possible_anti_debug,
        persistence: f.possible_persistence,
        injection: f.possible_injection,
    }
}

pub open spec fn step_entry(st: RenameState, f: FunctionView) -> RenameState {
    if f.tags.contains("entry"@) || f.name == "entry"@ {
        RenameState {
            name: Some("program_entry"@),
            description: Some("Binary entry point / startup stub."@),
            purpose: Some("Initialize runtime and transfer control to main logic."@),
            score: 70,
            ..st
        }
    } else {
        st
    }
}

pub open spec fn step_crypto(st: RenameState, ib: Seq<char>, preview: Seq<char>, imps: Seq<ImportView>) -> RenameState {
    if contains_seq(ib, "crypt"@) || contains_seq(preview, "xor"@) || st.crypto {
        RenameState {
            name: Some(
                match st.name {
                    Some(n) => n,
                    None => "crypto_routine"@,
                },
            ),
            description: Some(
                "Likely cryptographic or obfuscation routine based on crypto APIs/constants."@,
            ),
            purpose: Some("Encrypt, decrypt, or transform buffers."@),
            crypto: true,
            score: max_score(st.score, 65),
            evidence: st.evidence + match first_crypto_import(imps) {
                Some(imp) => seq![
                    EvidenceView::Import {
                        module: imp.module,
                        symbol: imp.symbol,
                        note: "Crypto-related import"@,
                    },
                ],
                None => seq![],
            },
            ..st
        }
    } else {
        st
    }
}

pub open spec fn step_network(st: RenameState, ib: Seq<char>, sb: Seq<char>, ss: Seq<ExtractedStringView>) -> RenameState {
    if contains_seq(ib, "wsastartup"@) || contains_seq(ib, "winhttp"@) || contains_seq(
        ib,
        "internetopen"@,
    ) || st.networking || contains_seq(sb, "http://"@) || contains_seq(sb, "https://"@) {
        let st1 = if st.name is None || st.networking {
            RenameState {
                name: Some("network_communication"@),
                description: Some("Interacts with network APIs or contains network indicators."@),
                purpose: Some("Establish outbound communication or fetch remote resources."@),
                networking: true,
                score: max_score(st.score, 68),
                ..st
            }
        } else {
            st
        };
        RenameState {
            evidence: st1.evidence + match first_network_string(ss) {
                Some(s) => seq![
                    EvidenceView::String {
                        value: s.value,
                        offset: Some(s.offset),
                        note: "Network indicator string"@,
                    },
                ],
                None => seq![],
            },
            ..st1
        }
    } else {
        st
    }
}

pub open spec fn step_anti_debug(st: RenameState, ib: Seq<char>) -> RenameState {
    if contains_seq(ib, "isdebuggerpresent"@) || st.anti_debug {
        RenameState {
            name: Some("anti_debug_check"@),
            description: Some("Checks for debugger / analysis environment."@),
            purpose: Some("Evade dynamic analysis."@),
            anti_debug: true,
            score: max_score(st.score, 75),
            ..st
        }
    } else {
        st
    }
}

pub open spec fn step_injection(st: RenameState, ib: Seq<char>) -> RenameState {
    if contains_seq(ib, "writprocessmemory"@) || contains_seq(ib, "createremotethread"@)
        || contains_seq(ib, "virtualallocex"@) || st.injection {
        RenameState {
            name: Some("inject_into_process"@),
            description: Some("Uses classic process injection APIs."@),
            purpose: Some("Inject code into a remote process."@),
            injection: true,
            score: max_score(st.score, 80),
            ..st
        }
    } else {
        st
    }
}

pub open spec fn step_persistence(st: RenameState, ib: Seq<char>, sb: Seq<char>) -> RenameState {
    if contains_seq(ib, "regsetvalue"@) || contains_seq(ib, "createservice"@) || contains_seq(
        sb,
        "currentversion\\run"@,
    ) {
        RenameState {
            name: Some(
                match st.name {
                    Some(n) => n,
                    None => "establish_persistence"@,
                },
            ),
            description: Some(
                match st.description {
                    Some(d) => d,
                    None => "Touches persistence mechanisms (registry/services)."@,
                },
            ),
            purpose: Some("Survive reboot / maintain foothold."@),
            persistence: true,
            score: max_score(st.score, 72),
            ..st
        }
    } else {
        st
    }
}

pub open spec fn step_license(st: RenameState, ib: Seq<char>, sb: Seq<char>, preview: Seq<char>, ss: Seq<ExtractedStringView>) -> RenameState {
    if contains_seq(sb, "license"@) && (contains_seq(preview, "cmp"@) || contains_seq(ib, "crypt"@)) {
        RenameState {
            name: Some("validate_license"@),
            description: Some("Likely license or entitlement validation routine."@),
            purpose: Some("Validate license material / signature."@),
            score: max_score(st.score, 60),
            evidence: st.evidence + match first_license_string(ss) {
                Some(s) => seq![
                    EvidenceView::String {
                        value: s.value,
                        offset: Some(s.offset),
                        note: "License-related string"@,
                    },
                ],
                None => seq![],
            },
            ..st
        }
    } else {
        st
    }
}

/// The lowercased assembly preview (empty without one).
pub open spec fn preview_of(f: FunctionView) -> Seq<char> {
    match f.assembly_preview {
        Some(p) => lower_seq(p),
        None => seq![],
    }
}

/// All the rules, in order, for one function.
pub open spec fn decide(f: FunctionView, imps: Seq<ImportView>, ss: Seq<ExtractedStringView>) -> RenameState {
    let ib = import_blob(imps);
    let sb = string_blob(ss);
    let pv = preview_of(f);
    let s1 = step_entry(initial_state(f), f);
    let s2 = step_crypto(s1, ib, pv, imps);
    let s3 = step_network(s2, ib, sb, ss);
    let s4 = step_anti_debug(s3, ib);
    let s5 = step_injection(s4, ib);
    let s6 = step_persistence(s5, ib, sb);
    step_license(s6, ib, sb, pv, ss)
}

/// `o` when it holds a value, else `dflt`.
pub open spec fn or_else<T>(o: Option<T>, dflt: Option<T>) -> Option<T> {
    match o {
        Some(v) => Some(v),
        None => dflt,
    }
}

/// The function with the decision applied: the suggested name, description
/// and purpose when the rules set them, the pseudocode summary filled from
/// the description when it had none, the flags, the confidence and the
/// added evidence.
pub open spec fn apply_decision(f: FunctionView, st: RenameState) -> FunctionView {
    let description = or_else(st.description, f.description);
    FunctionView {
        suggested_name: or_else(st.name, f.suggested_name),
        description,
        purpose: or_else(st.purpose, f.purpose),
        pseudocode_summary: if f.pseudocode_summary is None { description } else { f.pseudocode_summary },
        possible_crypto: st.crypto,
        possible_networking: st.networking,
        possible_anti_debug: st.anti_debug,
        possible_persistence: st.persistence,
        possible_injection: st.injection,
        confidence: st.score,
        evidence: f.evidence + st.evidence,
        ..f
    }
}

/// One function after rename suggestion.
pub open spec fn spec_suggest_one(f: FunctionView, imps: Seq<ImportView>, ss: Seq<ExtractedStringView>) -> FunctionView {
    apply_decision(f, decide(f, imps, ss))
}

// ---------------------------------------------------------------------------
// What every suggestion keeps
// ---------------------------------------------------------------------------

/// The evidence item cites an import or a string of the binary.
pub open spec fn cites_binary(e: EvidenceView, imps: Seq<ImportView>, ss: Seq<ExtractedStringView>) -> bool {
    match e {
        EvidenceView::Import { module, symbol, .. } => exists|k: int|
            0 <= k < imps.len() && #[trigger] imps[k].module == module && imps[k].symbol == symbol,
        EvidenceView::String { value, offset, .. } => exists|k: int|
            0 <= k < ss.len() && #[trigger] ss[k].value == value && offset == Some(ss[k].offset),
        _ => false,
    }
}

/// A state the rules can reach from `f`: a confidence between 0.35 and 0.8,
/// no flag of `f` cleared, and only evidence that cites the binary.
pub open spec fn sound_state(st: RenameState, f: FunctionView, imps: Seq<ImportView>, ss: Seq<ExtractedStringView>) -> bool {
    &&& 35 <= st.score <= 80
    &&& (f.possible_crypto ==> st.crypto)
    &&& (f.possible_networking ==> st.networking)
    &&& (f.possible_anti_debug ==> st.anti_debug)
    &&& (f.possible_persistence ==> st.persistence)
    &&& (f.possible_injection ==> st.injection)
    &&& forall|i: int| 0 <= i < st.evidence.len() ==> cites_binary(#[trigger] st.evidence[i], imps, ss)
}

proof fn lemma_first_crypto_import_in(imps: Seq<ImportView>)
    ensures
        first_crypto_import(imps) matches Some(imp) ==> exists|k: int| 0 <= k < imps.len() && imps[k] == imp,
    decreases imps.len(),
{
    if imps.len() > 0 && !imps[0].tags.contains("crypto"@) {
        lemma_first_crypto_import_in(imps.drop_first());
        if let Some(imp) = first_crypto_import(imps) {
            let k = choose|k: int| 0 <= k < imps.drop_first().len() && imps.drop_first()[k] == imp;
            assert(imps[k + 1] == imp);
        }
    } else if imps.len() > 0 {
        assert(imps[0] == imps[0]);
    }
}

proof fn lemma_first_network_string_in(ss: Seq<ExtractedStringView>)
    ensures
        first_network_string(ss) matches Some(s) ==> exists|k: int| 0 <= k < ss.len() && ss[k] == s,
    decreases ss.len(),
{
    if ss.len() > 0 && !(ss[0].category == StringCategory::Url || ss[0].category == StringCategory::Domain) {
        lemma_first_network_string_in(ss.drop_first());
        if let Some(x) = first_network_string(ss) {
            let k = choose|k: int| 0 <= k < ss.drop_first().len() && ss.drop_first()[k] == x;
            assert(ss[k + 1] == x);
        }
    } else if ss.len() > 0 {
        assert(ss[0] == ss[0]);
    }
}

proof fn lemma_first_license_string_in(ss: Seq<ExtractedStringView>)
    ensures
        first_license_string(ss) matches Some(s) ==> exists|k: int| 0 <= k < ss.len() && ss[k] == s,
    decreases ss.len(),
{
    if ss.len() > 0 && !contains_seq(lower_seq(ss[0].value), "license"@) {
        lemma_first_license_string_in(ss.drop_first());
        if let Some(x) = first_license_string(ss) {
            let k = choose|k: int| 0 <= k < ss.drop_first().len() && ss.drop_first()[k] == x;
            assert(ss[k + 1] == x);
        }
    } else if ss.len() > 0 {
        assert(ss[0] == ss[0]);
    }
}

proof fn lemma_append_cites(a: Seq<EvidenceView>, b: Seq<EvidenceView>, imps: Seq<ImportView>, ss: Seq<ExtractedStringView>)
    requires
        forall|i: int| 0 <= i < a.len() ==> cites_binary(#[trigger] a[i], imps, ss),
        forall|i: int| 0 <= i < b.len() ==> cites_binary(#[trigger] b[i], imps, ss),
    ensures
        forall|i: int| 0 <= i < (a + b).len() ==> cites_binary(#[trigger] (a + b)[i], imps, ss),
{
    assert forall|i: int| 0 <= i < (a + b).len() implies cites_binary(#[trigger] (a + b)[i], imps, ss) by {
        if i < a.len() {
            assert((a + b)[i] == a[i]);
        } else {
            assert((a + b)[i] == b[i - a.len()]);
        }
    }
}

proof fn lemma_decide_sound(f: FunctionView, imps: Seq<ImportView>, ss: Seq<ExtractedStringView>)
    ensures
        sound_state(decide(f, imps, ss), f, imps, ss),
{
    let ib = import_blob(imps);
    let sb = string_blob(ss);
    let pv = preview_of(f);
    let s0 = initial_state(f);
    let s1 = step_entry(s0, f);
    let s2 = step_crypto(s1, ib, pv, imps);
    let s3 = step_network(s2, ib, sb, ss);
    let s4 = step_anti_debug(s3, ib);
    let s5 = step_injection(s4, ib);
    let s6 = step_persistence(s5, ib, sb);
    let s7 = step_license(s6, ib, sb, pv, ss);
    assert(sound_state(s1, f, imps, ss));
    lemma_first_crypto_import_in(imps);
    let e2 = match first_crypto_import(imps) {
        Some(imp) => seq![EvidenceView::Import { module: imp.module, symbol: imp.symbol, note: "Crypto-related import"@ }],
        None => Seq::<EvidenceView>::empty(),
    };
    if let Some(imp) = first_crypto_import(imps) {
        let k = choose|k: int| 0 <= k < imps.len() && imps[k] == imp;
        assert(cites_binary(e2[0], imps, ss));
    }
    lemma_append_cites(s1.evidence, e2, imps, ss);
    assert(sound_state(s2, f, imps, ss));
    lemma_first_network_string_in(ss);
    let st1 = if s2.name is None || s2.networking {
        RenameState {
            name: Some("network_communication"@),
            description: Some("Interacts with network APIs or contains network indicators."@),
            purpose: Some("Establish outbound communication or fetch remote resources."@),
            networking: true,
            score: max_score(s2.score, 68),
            ..s2
        }
    } else {
        s2
    };
    let e3 = match first_network_string(ss) {
        Some(x) => seq![EvidenceView::String { value: x.value, offset: Some(x.offset), note: "Network indicator string"@ }],
        None => Seq::<EvidenceView>::empty(),
    };
    if let Some(x) = first_network_string(ss) {
        let k = choose|k: int| 0 <= k < ss.len() && ss[k] == x;
        assert(cites_binary(e3[0], imps, ss));
    }
    lemma_append_cites(st1.evidence, e3, imps, ss);
    assert(sound_state(s3, f, imps, ss));
    assert(sound_state(s4, f, imps, ss));
    assert(sound_state(s5, f, imps, ss));
    assert(sound_state(s6, f, imps, ss));
    lemma_first_license_string_in(ss);
    let e7 = match first_license_string(ss) {
        Some(x) => seq![EvidenceView::String { value: x.value, offset: Some(x.offset), note: "License-related string"@ }],
        None => Seq::<EvidenceView>::empty(),
    };
    if let Some(x) = first_license_string(ss) {
        let k = choose|k: int| 0 <= k < ss.len() && ss[k] == x;
        assert(cites_binary(e7[0], imps, ss));
    }
    lemma_append_cites(s6.evidence, e7, imps, ss);
    assert(sound_state(s7, f, imps, ss));
}

/// A rename suggestion keeps the function's identity, address, size, name,
/// cross references, tags and disassembly; only appends to its evidence,
/// citing imports and strings of the binary; clears none of its flags; and
/// puts its confidence between 0.35 and 0.8.
pub proof fn law_suggest_one_frame(f: FunctionView, imps: Seq<ImportView>, ss: Seq<ExtractedStringView>)
    ensures
        ({
            let r = spec_suggest_one(f, imps, ss);
            &&& r.id == f.id
            &&& r.address == f.address
            &&& r.size == f.size
            &&& r.name == f.name
            &&& r.xrefs_from == f.xrefs_from
            &&& r.xrefs_to == f.xrefs_to
            &&& r.assembly_preview == f.assembly_preview
            &&& r.tags == f.tags
            &&& r.evidence.len() >= f.evidence.len()
            &&& r.evidence.subrange(0, f.evidence.len() as int) == f.evidence
            &&& forall|i: int|
                f.evidence.len() <= i < r.evidence.len() ==> cites_binary(#[trigger] r.evidence[i], imps, ss)
            &&& (f.possible_crypto ==> r.possible_crypto)
            &&& (f.possible_networking ==> r.possible_networking)
            &&& (f.possible_anti_debug ==> r.possible_anti_debug)
            &&& (f.possible_persistence ==> r.possible_persistence)
            &&& (f.possible_injection ==> r.possible_injection)
            &&& 35 <= r.confidence <= 80
        }),
{
    lemma_decide_sound(f, imps, ss);
    let st = decide(f, imps, ss);
    let r = spec_suggest_one(f, imps, ss);
    assert(r.evidence == f.evidence + st.evidence);
    assert(r.evidence.subrange(0, f.evidence.len() as int) =~= f.evidence);
    assert forall|i: int| f.evidence.len() <= i < r.evidence.len() implies cites_binary(#[trigger] r.evidence[i], imps, ss) by {
        assert(r.evidence[i] == st.evidence[i - f.evidence.len()]);
    }
}

// ---------------------------------------------------------------------------
// Execution
// ---------------------------------------------------------------------------

struct Renaming {
    name: Option<String>,
    description: Option<String>,
    purpose: Option<String>,
    score: u32,
    evidence: Vec<Evidence>,
    crypto: bool,
    networking: bool,
    anti_debug: bool,
    persistence: bool,
    injection: bool,
}

impl View for Renaming {
    type V = RenameState;

    closed spec fn view(&self) -> RenameState {
        RenameState {
            name: opt_view(self.name),
            description: opt_view(self.description),
            purpose: opt_view(self.purpose),
            score: self.score,
            evidence: evidence_views(self.evidence@),
            crypto: self.crypto,
            networking: self.networking,
            anti_debug: self.anti_debug,
            persistence: self.persistence,
            injection: self.injection,
        }
    }
}

fn max_u32(a: u32, b: u32) -> (r: u32)
    ensures
        r == max_score(a, b),
{
    if a >= b { a } else { b }
}

fn push_evidence(v: &mut Vec<Evidence>, e: Evidence)
    ensures
        evidence_views(final(v)@) == evidence_views(old(v)@) + seq![e@],
{
    let ghost before = v@;
    v.push(e);
    proof {
        assert(evidence_views(v@) =~= evidence_views(before) + seq![e@]);
    }
}

fn join_lower_symbols(imports: &[ImportEntry]) -> (r: Vec<char>)
    ensures
        r@ == import_blob(import_views(imports@)),
{
    let ghost items = import_views(imports@).map_values(|i: ImportView| lower_seq(i.symbol));
    let mut out: Vec<char> = Vec::new();
    let mut i: usize = 0;
    while i < imports.len()
        invariant
            i <= imports@.len(),
            items == import_views(imports@).map_values(|i: ImportView| lower_seq(i.symbol)),
            out@ == join_with(" "@, items.subrange(0, i as int)),
        decreases imports@.len() - i,
    {
        let c = str_chars(imports[i].symbol.as_str());
        let l = lower_chars(c.as_slice());
        let ghost before = out@;
        if i > 0 {
            let sp = str_chars(" ");
            out.extend_from_slice(sp.as_slice());
        }
        out.extend_from_slice(l.as_slice());
        proof {
            let pre = items.subrange(0, i + 1);
            assert(pre.drop_last() =~= items.subrange(0, i as int));
            assert(pre.last() == l@);
            if i == 0 {
                assert(out@ =~= join_with(" "@, pre));
            } else {
                assert(out@ =~= join_with(" "@, pre));
            }
        }
        i += 1;
    }
    proof {
        assert(items.subrange(0, imports@.len() as int) =~= items);
    }
    out
}

fn join_lower_strings(strings: &[ExtractedString]) -> (r: Vec<char>)
    ensures
        r@ == string_blob(string_views(strings@)),
{
    let n: usize = if strings.len() < 500 { strings.len() } else { 500 };
    let ghost items = take_upto(string_views(strings@), 500).map_values(
        |s: ExtractedStringView| lower_seq(s.value),
    );
    proof {
        assert(items.len() == n);
    }
    let mut out: Vec<char> = Vec::new();
    let mut i: usize = 0;
    while i < n
        invariant
            i <= n,
            n <= strings@.len(),
            n == items.len(),
            items == take_upto(string_views(strings@), 500).map_values(
                |s: ExtractedStringView| lower_seq(s.value),
            ),
            out@ == join_with("\n"@, items.subrange(0, i as int)),
        decreases n - i,
    {
        let c = str_chars(strings[i].value.as_str());
        let l = lower_chars(c.as_slice());
        if i > 0 {
            let nl = str_chars("\n");
            out.extend_from_slice(nl.as_slice());
        }
        out.extend_from_slice(l.as_slice());
        proof {
            let pre = items.subrange(0, i + 1);
            assert(pre.drop_last() =~= items.subrange(0, i as int));
            assert(items[i as int] == lower_seq(strings@[i as int]@.value));
            assert(out@ =~= join_with("\n"@, pre));
        }
        i += 1;
    }
    proof {
        assert(items.subrange(0, n as int) =~= items);
    }
    out
}

fn strings_contain(v: &Vec<String>, t: &str) -> (r: bool)
    ensures
        r == strings_view(v@).contains(t@),
{
    let mut i: usize = 0;
    while i < v.len()
        invariant
            i <= v@.len(),
            forall|k: int| 0 <= k < i ==> strings_view(v@)[k] != t@,
        decreases v@.len() - i,
    {
        let c = str_chars(v[i].as_str());
        if crate::text::eq_str(c.as_slice(), t) {
            proof {
                assert(strings_view(v@)[i as int] == t@);
            }
            return true;
        }
        i += 1;
    }
    false
}

fn first_crypto_import_exec(imports: &[ImportEntry]) -> (r: Option<usize>)
    ensures
        match first_crypto_import(import_views(imports@)) {
            Some(imp) => r matches Some(k) && k < imports@.len() && imports@[k as int]@ == imp,
            None => r is None,
        },
{
    let mut i: usize = 0;
    proof {
        assert(import_views(imports@).subrange(0, imports@.len() as int) =~= import_views(imports@));
    }
    while i < imports.len()
        invariant
            i <= imports@.len(),
            first_crypto_import(import_views(imports@)) == first_crypto_import(
                import_views(imports@).subrange(i as int, imports@.len() as int),
            ),
        decreases imports@.len() - i,
    {
        let ghost rest = import_views(imports@).subrange(i as int, imports@.len() as int);
        proof {
            assert(rest[0] == imports@[i as int]@);
            assert(rest.drop_first() =~= import_views(imports@).subrange(i + 1, imports@.len() as int));
        }
        if strings_contain(&imports[i].tags, "crypto") {
            return Some(i);
        }
        i += 1;
    }
    proof {
        assert(import_views(imports@).subrange(i as int, imports@.len() as int) =~= seq![]);
    }
    None
}

fn first_network_string_exec(strings: &[ExtractedString]) -> (r: Option<usize>)
    ensures
        match first_network_string(string_views(strings@)) {
            Some(s) => r matches Some(k) && k < strings@.len() && strings@[k as int]@ == s,
            None => r is None,
        },
{
    let mut i: usize = 0;
    proof {
        assert(string_views(strings@).subrange(0, strings@.len() as int) =~= string_views(strings@));
    }
    while i < strings.len()
        invariant
            i <= strings@.len(),
            first_network_string(string_views(strings@)) == first_network_string(
                string_views(strings@).subrange(i as int, strings@.len() as int),
            ),
        decreases strings@.len() - i,
    {
        let ghost rest = string_views(strings@).subrange(i as int, strings@.len() as int);
        proof {
            assert(rest[0] == strings@[i as int]@);
            assert(rest.drop_first() =~= string_views(strings@).subrange(i + 1, strings@.len() as int));
        }
        match strings[i].category {
            StringCategory::Url | StringCategory::Domain => return Some(i),
            _ => {},
        }
        i += 1;
    }
    proof {
        assert(string_views(strings@).subrange(i as int, strings@.len() as int) =~= seq![]);
    }
    None
}

fn first_license_string_exec(strings: &[ExtractedString]) -> (r: Option<usize>)
    ensures
        match first_license_string(string_views(strings@)) {
            Some(s) => r matches Some(k) && k < strings@.len() && strings@[k as int]@ == s,
            None => r is None,
        },
{
    let mut i: usize = 0;
    proof {
        assert(string_views(strings@).subrange(0, strings@.len() as int) =~= string_views(strings@));
    }
    while i < strings.len()
        invariant
            i <= strings@.len(),
            first_license_string(string_views(strings@)) == first_license_string(
                string_views(strings@).subrange(i as int, strings@.len() as int),
            ),
        decreases strings@.len() - i,
    {
        let ghost rest = string_views(strings@).subrange(i as int, strings@.len() as int);
        proof {
            assert(rest[0] == strings@[i as int]@);
            assert(rest.drop_first() =~= string_views(strings@).subrange(i + 1, strings@.len() as int));
        }
        let c = str_chars(strings[i].value.as_str());
        let l = lower_chars(c.as_slice());
        if has(l.as_slice(), "license") {
            return Some(i);
        }
        i += 1;
    }
    proof {
        assert(string_views(strings@).subrange(i as int, strings@.len() as int) =~= seq![]);
    }
    None
}

fn set_text(slot: &mut Option<String>, t: &str)
    ensures
        opt_view(*final(slot)) == Some(t@),
{
    *slot = Some(owned(t));
}

fn exec_step_entry(st: &mut Renaming, f: &FunctionAnalysis)
    ensures
        final(st)@ == step_entry(old(st)@, f@),
{
    let name = str_chars(f.name.as_str());
    if strings_contain(&f.tags, "entry") || crate::text::eq_str(name.as_slice(), "entry") {
        set_text(&mut st.name, "program_entry");
        set_text(&mut st.description, "Binary entry point / startup stub.");
        set_text(&mut st.purpose, "Initialize runtime and transfer control to main logic.");
        st.score = 70;
    }
}

fn exec_step_crypto(st: &mut Renaming, ib: &[char], preview: &[char], imports: &[ImportEntry])
    ensures
        final(st)@ == step_crypto(old(st)@, ib@, preview@, import_views(imports@)),
{
    if has(ib, "crypt") || has(preview, "xor") || st.crypto {
        if st.name.is_none() {
            set_text(&mut st.name, "crypto_routine");
        }
        set_text(
            &mut st.description,
            "Likely cryptographic or obfuscation routine based on crypto APIs/constants.",
        );
        set_text(&mut st.purpose, "Encrypt, decrypt, or transform buffers.");
        st.crypto = true;
        st.score = max_u32(st.score, 65);
        match first_crypto_import_exec(imports) {
            Some(k) => {
                let e = Evidence::Import {
                    module: copy_string(&imports[k].module),
                    symbol: copy_string(&imports[k].symbol),
                    note: owned("Crypto-related import"),
                };
                push_evidence(&mut st.evidence, e);
            },
            None => {
                proof {
                    assert(evidence_views(st.evidence@) =~= evidence_views(st.evidence@) + seq![]);
                }
            },
        }
    }
}

fn exec_step_network(st: &mut Renaming, ib: &[char], sb: &[char], strings: &[ExtractedString])
    ensures
        final(st)@ == step_network(old(st)@, ib@, sb@, string_views(strings@)),
{
    if has(ib, "wsastartup") || has(ib, "winhttp") || has(ib, "internetopen") || st.networking
        || has(sb, "http://") || has(sb, "https://") {
        if st.name.is_none() || st.networking {
            set_text(&mut st.name, "network_communication");
            set_text(&mut st.description, "Interacts with network APIs or contains network indicators.");
            set_text(&mut st.purpose, "Establish outbound communication or fetch remote resources.");
            st.networking = true;
            st.score = max_u32(st.score, 68);
        }
        match first_network_string_exec(strings) {
            Some(k) => {
                let e = Evidence::String {
                    value: copy_string(&strings[k].value),
                    offset: Some(strings[k].offset),
                    note: owned("Network indicator string"),
                };
                push_evidence(&mut st.evidence, e);
            },
            None => {
                proof {
                    assert(evidence_views(st.evidence@) =~= evidence_views(st.evidence@) + seq![]);
                }
            },
        }
    }
}

fn exec_step_anti_debug(st: &mut Renaming, ib: &[char])
    ensures
        final(st)@ == step_anti_debug(old(st)@, ib@),
{
    if has(ib, "isdebuggerpresent") || st.anti_debug {
        set_text(&mut st.name, "anti_debug_check");
        set_text(&mut st.description, "Checks for debugger / analysis environment.");
        set_text(&mut st.purpose, "Evade dynamic analysis.");
        st.anti_debug = true;
        st.score = max_u32(st.score, 75);
    }
}

fn exec_step_injection(st: &mut Renaming, ib: &[char])
    ensures
        final(st)@ == step_injection(old(st)@, ib@),
{
    if has(ib, "writprocessmemory") || has(ib, "createremotethread") || has(ib, "virtualallocex")
        || st.injection {
        set_text(&mut st.name, "inject_into_process");
        set_text(&mut st.description, "Uses classic process injection APIs.");
        set_text(&mut st.purpose, "Inject code into a remote process.");
        st.injection = true;
        st.score = max_u32(st.score, 80);
    }
}

fn exec_step_persistence(st: &mut Renaming, ib: &[char], sb: &[char])
    ensures
        final(st)@ == step_persistence(old(st)@, ib@, sb@),
{
    if has(ib, "regsetvalue") || has(ib, "createservice") || has(sb, "currentversion\\run") {
        if st.name.is_none() {
            set_text(&mut st.name, "establish_persistence");
        }
        if st.description.is_none() {
            set_text(&mut st.description, "Touches persistence mechanisms (registry/services).");
        }
        set_text(&mut st.purpose, "Survive reboot / maintain foothold.");
        st.persistence = true;
        st.score = max_u32(st.score, 72);
    }
}

fn exec_step_license(st: &mut Renaming, ib: &[char], sb: &[char], preview: &[char], strings: &[ExtractedString])
    ensures
        final(st)@ == step_license(old(st)@, ib@, sb@, preview@, string_views(strings@)),
{
    if has(sb, "license") && (has(preview, "cmp") || has(ib, "crypt")) {
        set_text(&mut st.name, "validate_license");
        set_text(&mut st.description, "Likely license or entitlement validation routine.");
        set_text(&mut st.purpose, "Validate license material / signature.");
        st.score = max_u32(st.score, 60);
        match first_license_string_exec(strings) {
            Some(k) => {
                let e = Evidence::String {
                    value: copy_string(&strings[k].value),
                    offset: Some(strings[k].offset),
                    note: owned("License-related string"),
                };
                push_evidence(&mut st.evidence, e);
            },
            None => {
                proof {
                    assert(evidence_views(st.evidence@) =~= evidence_views(st.evidence@) + seq![]);
                }
            },
        }
    }
}

fn preview_exec(f: &FunctionAnalysis) -> (r: Vec<char>)
    ensures
        r@ == preview_of(f@),
{
    match &f.assembly_preview {
        Some(p) => {
            let c = str_chars(p.as_str());
            lower_chars(c.as_slice())
        },
        None => Vec::new(),
    }
}

fn decide_exec(f: &FunctionAnalysis, imports: &[ImportEntry], strings: &[ExtractedString], ib: &[char], sb: &[char]) -> (st: Renaming)
    requires
        ib@ == import_blob(import_views(imports@)),
        sb@ == string_blob(string_views(strings@)),
    ensures
        st@ == decide(f@, import_views(imports@), string_views(strings@)),
{
    let pv = preview_exec(f);
    let mut st = Renaming {
        name: None,
        description: None,
        purpose: None,
        score: 35,
        evidence: Vec::new(),
        crypto: f.possible_crypto,
        networking: f.possible_networking,
        anti_debug: f.possible_anti_debug,
        persistence: f.possible_persistence,
        injection: f.possible_injection,
    };
    proof {
        assert(st@ == initial_state(f@)) by {
            assert(evidence_views(st.evidence@) =~= seq![]);
        }
    }
    exec_step_entry(&mut st, f);
    exec_step_crypto(&mut st, ib, pv.as_slice(), imports);
    exec_step_network(&mut st, ib, sb, strings);
    exec_step_anti_debug(&mut st, ib);
    exec_step_injection(&mut st, ib);
    exec_step_persistence(&mut st, ib, sb);
    exec_step_license(&mut st, ib, sb, pv.as_slice(), strings);
    st
}

fn apply_exec(f: &mut FunctionAnalysis, st: Renaming)
    ensures
        final(f)@ == apply_decision(old(f)@, st@),
{
    let Renaming { name, description, purpose, score, evidence, crypto, networking, anti_debug, persistence, injection } = st;
    if name.is_some() {
        f.suggested_name = name;
    }
    if description.is_some() {
        f.description = description;
    }
    if purpose.is_some() {
        f.purpose = purpose;
    }
    if f.pseudocode_summary.is_none() {
        f.pseudocode_summary = crate::text::copy_opt_string(&f.description);
    }
    f.possible_crypto = crypto;
    f.possible_networking = networking;
    f.possible_anti_debug = anti_debug;
    f.possible_persistence = persistence;
    f.possible_injection = injection;
    f.confidence = score;
    crate::model::extend_evidence(&mut f.evidence, &evidence);
}

/// Suggests names, descriptions and purposes for the functions, from the
/// imports (crypto, networking, anti-debugging, injection and persistence
/// APIs), the first 500 strings (URLs, run keys, license texts) and each
/// function's own tags, flags and disassembly; sets the flags it infers, the
/// confidence, and cites its evidence. Every other field stays as it was.
pub fn suggest_names(functions: &mut Vec<FunctionAnalysis>, imports: &[ImportEntry], strings: &[ExtractedString])
    ensures
        final(functions)@.len() == old(functions)@.len(),
        forall|i: int|
            0 <= i < old(functions)@.len() ==> #[trigger] final(functions)@[i]@ == spec_suggest_one(
                old(functions)@[i]@,
                import_views(imports@),
                string_views(strings@),
            ),
{
    let ib = join_lower_symbols(imports);
    let sb = join_lower_strings(strings);
    let ghost orig = functions@;
    let mut i: usize = 0;
    while i < functions.len()
        invariant
            i <= functions@.len(),
            functions@.len() == orig.len(),
            ib@ == import_blob(import_views(imports@)),
            sb@ == string_blob(string_views(strings@)),
            forall|k: int|
                0 <= k < orig.len() ==> #[trigger] functions@[k]@ == (if k < i {
                    spec_suggest_one(orig[k]@, import_views(imports@), string_views(strings@))
                } else {
                    orig[k]@
                }),
        decreases functions@.len() - i,
    {
        let st = decide_exec(&functions[i], imports, strings, ib.as_slice(), sb.as_slice());
        let mut f = functions.remove(i);
        apply_exec(&mut f, st);
        functions.insert(i, f);
        proof {
            assert forall|k: int| 0 <= k < orig.len() implies #[trigger] functions@[k]@ == (if k < i + 1 {
                spec_suggest_one(orig[k]@, import_views(imports@), string_views(strings@))
            } else {
                orig[k]@
            }) by {}
        }
        i += 1;
    }
}

} // verus!
