//! Import risk classification and network indicators from extracted strings.
use vstd::prelude::*;
use crate::model::{
    evidence_views, import_views, network_views, string_views, Evidence, EvidenceView,
    ExtractedString, ExtractedStringView, ImportEntry, ImportView, NetworkIndicator,
    NetworkIndicatorView, NetworkKind, RiskLevel, StringCategory,
};
use crate::text::{
    chars_eq, contains_seq, copy_string, eq_str, find_chars, find_seq, has, lower_chars, lower_seq,
    opt_index, opt_view, owned, slice_chars, starts_with, starts_with_seq, str_chars, string_of,
    strings_view,
};

verus! {

// ---------------------------------------------------------------------------
// Dangerous API table
// ---------------------------------------------------------------------------

/// The number of entries in the dangerous-API table.
pub open spec fn api_count() -> int {
    53
}

/// Entry `k` of the dangerous-API table: symbol, behaviour tag and risk.
pub open spec fn api_entry(k: int) -> (Seq<char>, Seq<char>, RiskLevel) {
    if k == 0 { ("VirtualAllocEx"@, "process_injection"@, RiskLevel::High) }
    else if k == 1 { ("WriteProcessMemory"@, "process_injection"@, RiskLevel::High) }
    else if k == 2 { ("CreateRemoteThread"@, "process_injection"@, RiskLevel::High) }
    else if k == 3 { ("NtCreateThreadEx"@, "process_injection"@, RiskLevel::High) }
    else if k == 4 { ("QueueUserAPC"@, "process_injection"@, RiskLevel::High) }
    else if k == 5 { ("SetWindowsHookEx"@, "keylogger/hooks"@, RiskLevel::High) }
    else if k == 6 { ("SetWindowsHookExA"@, "keylogger/hooks"@, RiskLevel::High) }
    else if k == 7 { ("SetWindowsHookExW"@, "keylogger/hooks"@, RiskLevel::High) }
    else if k == 8 { ("ReflectiveLoader"@, "reflective_loading"@, RiskLevel::High) }
    else if k == 9 { ("AdjustTokenPrivileges"@, "token_manipulation"@, RiskLevel::High) }
    else if k == 10 { ("DuplicateTokenEx"@, "token_manipulation"@, RiskLevel::High) }
    else if k == 11 { ("RtlCreateUserThread"@, "process_injection"@, RiskLevel::High) }
    else if k == 12 { ("CryptEncrypt"@, "crypto"@, RiskLevel::Critical) }
    else if k == 13 { ("DeviceIoControl"@, "driver"@, RiskLevel::Critical) }
    else if k == 14 { ("ZwMapViewOfSection"@, "injection"@, RiskLevel::Critical) }
    else if k == 15 { ("NtMapViewOfSection"@, "injection"@, RiskLevel::Critical) }
    else if k == 16 { ("MiniDumpWriteDump"@, "credential_access"@, RiskLevel::Critical) }
    else if k == 17 { ("InternetOpenUrlA"@, "networking"@, RiskLevel::Medium) }
    else if k == 18 { ("InternetOpenUrlW"@, "networking"@, RiskLevel::Medium) }
    else if k == 19 { ("URLDownloadToFileA"@, "dropper"@, RiskLevel::Medium) }
    else if k == 20 { ("URLDownloadToFileW"@, "dropper"@, RiskLevel::Medium) }
    else if k == 21 { ("WinHttpOpen"@, "networking"@, RiskLevel::Medium) }
    else if k == 22 { ("HttpSendRequestA"@, "networking"@, RiskLevel::Medium) }
    else if k == 23 { ("HttpSendRequestW"@, "networking"@, RiskLevel::Medium) }
    else if k == 24 { ("socket"@, "networking"@, RiskLevel::Medium) }
    else if k == 25 { ("connect"@, "networking"@, RiskLevel::Medium) }
    else if k == 26 { ("send"@, "networking"@, RiskLevel::Medium) }
    else if k == 27 { ("recv"@, "networking"@, RiskLevel::Medium) }
    else if k == 28 { ("WSAStartup"@, "networking"@, RiskLevel::Medium) }
    else if k == 29 { ("CreateServiceA"@, "persistence"@, RiskLevel::Medium) }
    else if k == 30 { ("CreateServiceW"@, "persistence"@, RiskLevel::Medium) }
    else if k == 31 { ("RegSetValueExA"@, "persistence"@, RiskLevel::Medium) }
    else if k == 32 { ("RegSetValueExW"@, "persistence"@, RiskLevel::Medium) }
    else if k == 33 { ("ShellExecuteA"@, "execution"@, RiskLevel::Medium) }
    else if k == 34 { ("ShellExecuteW"@, "execution"@, RiskLevel::Medium) }
    else if k == 35 { ("WinExec"@, "execution"@, RiskLevel::Medium) }
    else if k == 36 { ("system"@, "execution"@, RiskLevel::Medium) }
    else if k == 37 { ("IsDebuggerPresent"@, "anti_debug"@, RiskLevel::Medium) }
    else if k == 38 { ("CheckRemoteDebuggerPresent"@, "anti_debug"@, RiskLevel::Medium) }
    else if k == 39 { ("NtQueryInformationProcess"@, "anti_debug"@, RiskLevel::Medium) }
    else if k == 40 { ("OutputDebugStringA"@, "anti_debug"@, RiskLevel::Medium) }
    else if k == 41 { ("GetTickCount"@, "anti_sandbox"@, RiskLevel::Medium) }
    else if k == 42 { ("GetCursorPos"@, "anti_sandbox"@, RiskLevel::Medium) }
    else if k == 43 { ("Sleep"@, "anti_sandbox"@, RiskLevel::Medium) }
    else if k == 44 { ("CreateToolhelp32Snapshot"@, "enumeration"@, RiskLevel::Medium) }
    else if k == 45 { ("Process32FirstW"@, "enumeration"@, RiskLevel::Medium) }
    else if k == 46 { ("OpenProcess"@, "process_access"@, RiskLevel::Medium) }
    else if k == 47 { ("TerminateProcess"@, "process_kill"@, RiskLevel::Medium) }
    else if k == 48 { ("LoadLibraryA"@, "dynamic_loading"@, RiskLevel::Medium) }
    else if k == 49 { ("LoadLibraryW"@, "dynamic_loading"@, RiskLevel::Medium) }
    else if k == 50 { ("GetProcAddress"@, "dynamic_loading"@, RiskLevel::Medium) }
    else if k == 51 { ("VirtualProtect"@, "memory_protect"@, RiskLevel::Medium) }
    else { ("VirtualAlloc"@, "memory_alloc"@, RiskLevel::Medium) }
}

/// The first table entry at index `k` or later naming `sym`.
pub open spec fn api_lookup_from(sym: Seq<char>, k: int) -> Option<(Seq<char>, RiskLevel)>
    decreases api_count() - k,
{
    if k < 0 || k >= api_count() {
        None
    } else if api_entry(k).0 == sym {
        Some((api_entry(k).1, api_entry(k).2))
    } else {
        api_lookup_from(sym, k + 1)
    }
}

/// The behaviour tag and risk the table gives `sym`, if it lists it.
pub open spec fn api_lookup(sym: Seq<char>) -> Option<(Seq<char>, RiskLevel)> {
    api_lookup_from(sym, 0)
}

/// ASCII case-insensitive equality.
pub open spec fn eq_ignore_case(a: Seq<char>, b: Seq<char>) -> bool {
    lower_seq(a) == lower_seq(b)
}

/// The risk and tags of an import that the table does not list.
pub open spec fn heuristic_class(module: Seq<char>, symbol: Seq<char>) -> (RiskLevel, Seq<Seq<char>>) {
    let lower = lower_seq(symbol);
    let crypt = contains_seq(lower, "crypt"@);
    let reg = contains_seq(lower, "reg"@);
    let net = eq_ignore_case(module, "ws2_32.dll"@) || eq_ignore_case(module, "winhttp.dll"@);
    let tags = crate::crypto_detect::one_if(crypt, "crypto"@) + crate::crypto_detect::one_if(
        reg,
        "registry"@,
    ) + crate::crypto_detect::one_if(net, "networking"@);
    (if crypt || net { RiskLevel::Low } else { RiskLevel::Info }, tags)
}

/// The risk level and behaviour tags of an imported symbol.
pub open spec fn spec_classify_import(module: Seq<char>, symbol: Seq<char>) -> (
    RiskLevel,
    Seq<Seq<char>>,
) {
    match api_lookup(symbol) {
        Some((tag, risk)) => (risk, seq![tag]),
        None => heuristic_class(module, symbol),
    }
}

proof fn lemma_not_listed(sym: Seq<char>, k: int)
    requires
        0 <= k <= api_count(),
        forall|j: int| 0 <= j < api_count() ==> #[trigger] api_entry(j).0 != sym,
    ensures
        api_lookup_from(sym, k) is None,
    decreases api_count() - k,
{
    if k < api_count() {
        assert(api_entry(k).0 != sym);
        lemma_not_listed(sym, k + 1);
    }
}

proof fn lemma_tag_from(
    a: Seq<Seq<char>>,
    b: Seq<Seq<char>>,
    c: Seq<Seq<char>>,
    x: Seq<char>,
    cond: bool,
    own: Seq<char>,
)
    requires
        a.len() <= 1 && b.len() <= 1 && c.len() <= 1,
        forall|i: int| 0 <= i < a.len() ==> #[trigger] a[i] == "crypto"@,
        forall|i: int| 0 <= i < b.len() ==> #[trigger] b[i] == "registry"@,
        forall|i: int| 0 <= i < c.len() ==> #[trigger] c[i] == "networking"@,
        x == own,
        own == "crypto"@ ==> (cond <==> a.len() == 1),
        own == "registry"@ ==> (cond <==> b.len() == 1),
        own == "networking"@ ==> (cond <==> c.len() == 1),
        own == "crypto"@ || own == "registry"@ || own == "networking"@,
        "registry"@ != "crypto"@,
        "networking"@ != "crypto"@,
        "networking"@ != "registry"@,
    ensures
        (a + b + c).contains(x) <==> cond,
{
    let t = a + b + c;
    if t.contains(x) {
        let i = choose|i: int| 0 <= i < t.len() && t[i] == x;
        if i < a.len() {
            assert(t[i] == a[i]);
        } else if i < a.len() + b.len() {
            assert(t[i] == b[i - a.len()]);
        } else {
            assert(t[i] == c[i - a.len() - b.len()]);
        }
    }
    if cond {
        if own == "crypto"@ {
            assert(t[0] == x);
        } else if own == "registry"@ {
            assert(t[a.len() as int] == x);
        } else {
            assert(t[(a.len() + b.len()) as int] == x);
        }
    }
}

/// For a symbol that the dangerous-API table does not list, the import is
/// tagged `crypto` exactly when the ASCII-lowercased symbol contains
/// `crypt` (so `CryptAcquireContextA` counts); `registry` exactly when it
/// contains `reg`; `networking` exactly when the module is `ws2_32.dll` or
/// `winhttp.dll` in any case; the import is rated Low when it is tagged
/// `crypto` or `networking`, and Info otherwise.
pub proof fn law_crypto_tag_case_insensitive(module: Seq<char>, symbol: Seq<char>)
    requires
        forall|j: int| 0 <= j < api_count() ==> #[trigger] api_entry(j).0 != symbol,
    ensures
        spec_classify_import(module, symbol).1.contains("crypto"@) <==> contains_seq(
            lower_seq(symbol),
            "crypt"@,
        ),
        contains_seq(lower_seq(symbol), "crypt"@) ==> spec_classify_import(module, symbol).0
            == RiskLevel::Low,
        spec_classify_import(module, symbol).1.contains("registry"@) <==> contains_seq(
            lower_seq(symbol),
            "reg"@,
        ),
        spec_classify_import(module, symbol).1.contains("networking"@) <==> (lower_seq(module)
            == "ws2_32.dll"@ || lower_seq(module) == "winhttp.dll"@),
        spec_classify_import(module, symbol).0 == (if spec_classify_import(module, symbol).1.contains(
            "crypto"@,
        ) || spec_classify_import(module, symbol).1.contains("networking"@) {
            RiskLevel::Low
        } else {
            RiskLevel::Info
        }),
{
    lemma_not_listed(symbol, 0);
    reveal_strlit("ws2_32.dll");
    reveal_strlit("winhttp.dll");
    assert(lower_seq("ws2_32.dll"@) =~= "ws2_32.dll"@);
    assert(lower_seq("winhttp.dll"@) =~= "winhttp.dll"@);
    reveal_strlit("crypto");
    reveal_strlit("registry");
    reveal_strlit("networking");
    let lower = lower_seq(symbol);
    let mentions = contains_seq(lower, "crypt"@);
    let reg = contains_seq(lower, "reg"@);
    let net = eq_ignore_case(module, "ws2_32.dll"@) || eq_ignore_case(module, "winhttp.dll"@);
    let a = crate::crypto_detect::one_if(mentions, "crypto"@);
    let b = crate::crypto_detect::one_if(reg, "registry"@);
    let c = crate::crypto_detect::one_if(net, "networking"@);
    let tags = a + b + c;
    assert(spec_classify_import(module, symbol).1 == tags);
    assert("registry"@.len() != "crypto"@.len());
    assert("networking"@.len() != "crypto"@.len());
    assert("networking"@.len() != "registry"@.len());
    if mentions {
        assert(tags[0] == "crypto"@);
    }
    if reg {
        assert(tags[a.len() as int] == "registry"@);
    }
    if net {
        assert(tags[(a.len() + b.len()) as int] == "networking"@);
    }
    lemma_tag_from(a, b, c, "crypto"@, mentions, "crypto"@);
    lemma_tag_from(a, b, c, "registry"@, reg, "registry"@);
    lemma_tag_from(a, b, c, "networking"@, net, "networking"@);
}

fn api_entry_exec(k: usize) -> (r: (&'static str, &'static str, RiskLevel))
    requires
        k < 53,
    ensures
        (r.0@, r.1@, r.2) == api_entry(k as int),
{
    match k {
        0 => ("VirtualAllocEx", "process_injection", RiskLevel::High),
        1 => ("WriteProcessMemory", "process_injection", RiskLevel::High),
        2 => ("CreateRemoteThread", "process_injection", RiskLevel::High),
        3 => ("NtCreateThreadEx", "process_injection", RiskLevel::High),
        4 => ("QueueUserAPC", "process_injection", RiskLevel::High),
        5 => ("SetWindowsHookEx", "keylogger/hooks", RiskLevel::High),
        6 => ("SetWindowsHookExA", "keylogger/hooks", RiskLevel::High),
        7 => ("SetWindowsHookExW", "keylogger/hooks", RiskLevel::High),
        8 => ("ReflectiveLoader", "reflective_loading", RiskLevel::High),
        9 => ("AdjustTokenPrivileges", "token_manipulation", RiskLevel::High),
        10 => ("DuplicateTokenEx", "token_manipulation", RiskLevel::High),
        11 => ("RtlCreateUserThread", "process_injection", RiskLevel::High),
        12 => ("CryptEncrypt", "crypto", RiskLevel::Critical),
        13 => ("DeviceIoControl", "driver", RiskLevel::Critical),
        14 => ("ZwMapViewOfSection", "injection", RiskLevel::Critical),
        15 => ("NtMapViewOfSection", "injection", RiskLevel::Critical),
        16 => ("MiniDumpWriteDump", "credential_access", RiskLevel::Critical),
        17 => ("InternetOpenUrlA", "networking", RiskLevel::Medium),
        18 => ("InternetOpenUrlW", "networking", RiskLevel::Medium),
        19 => ("URLDownloadToFileA", "dropper", RiskLevel::Medium),
        20 => ("URLDownloadToFileW", "dropper", RiskLevel::Medium),
        21 => ("WinHttpOpen", "networking", RiskLevel::Medium),
        22 => ("HttpSendRequestA", "networking", RiskLevel::Medium),
        23 => ("HttpSendRequestW", "networking", RiskLevel::Medium),
        24 => ("socket", "networking", RiskLevel::Medium),
        25 => ("connect", "networking", RiskLevel::Medium),
        26 => ("send", "networking", RiskLevel::Medium),
        27 => ("recv", "networking", RiskLevel::Medium),
        28 => ("WSAStartup", "networking", RiskLevel::Medium),
        29 => ("CreateServiceA", "persistence", RiskLevel::Medium),
        30 => ("CreateServiceW", "persistence", RiskLevel::Medium),
        31 => ("RegSetValueExA", "persistence", RiskLevel::Medium),
        32 => ("RegSetValueExW", "persistence", RiskLevel::Medium),
        33 => ("ShellExecuteA", "execution", RiskLevel::Medium),
        34 => ("ShellExecuteW", "execution", RiskLevel::Medium),
        35 => ("WinExec", "execution", RiskLevel::Medium),
        36 => ("system", "execution", RiskLevel::Medium),
        37 => ("IsDebuggerPresent", "anti_debug", RiskLevel::Medium),
        38 => ("CheckRemoteDebuggerPresent", "anti_debug", RiskLevel::Medium),
        39 => ("NtQueryInformationProcess", "anti_debug", RiskLevel::Medium),
        40 => ("OutputDebugStringA", "anti_debug", RiskLevel::Medium),
        41 => ("GetTickCount", "anti_sandbox", RiskLevel::Medium),
        42 => ("GetCursorPos", "anti_sandbox", RiskLevel::Medium),
        43 => ("Sleep", "anti_sandbox", RiskLevel::Medium),
        44 => ("CreateToolhelp32Snapshot", "enumeration", RiskLevel::Medium),
        45 => ("Process32FirstW", "enumeration", RiskLevel::Medium),
        46 => ("OpenProcess", "process_access", RiskLevel::Medium),
        47 => ("TerminateProcess", "process_kill", RiskLevel::Medium),
        48 => ("LoadLibraryA", "dynamic_loading", RiskLevel::Medium),
        49 => ("LoadLibraryW", "dynamic_loading", RiskLevel::Medium),
        50 => ("GetProcAddress", "dynamic_loading", RiskLevel::Medium),
        51 => ("VirtualProtect", "memory_protect", RiskLevel::Medium),
        _ => ("VirtualAlloc", "memory_alloc", RiskLevel::Medium),
    }
}

fn api_lookup_exec(sym: &[char]) -> (r: Option<(&'static str, RiskLevel)>)
    ensures
        match api_lookup(sym@) {
            Some((tag, risk)) => r matches Some((t, k)) && t@ == tag && k == risk,
            None => r is None,
        },
{
    let mut k: usize = 0;
    while k < 53
        invariant
            k <= 53,
            api_lookup(sym@) == api_lookup_from(sym@, k as int),
        decreases 53 - k,
    {
        let (name, tag, risk) = api_entry_exec(k);
        if eq_str(sym, name) {
            return Some((tag, risk));
        }
        k += 1;
    }
    None
}

pub fn eq_ignore_case_exec(a: &[char], b: &str) -> (r: bool)
    ensures
        r == eq_ignore_case(a@, b@),
{
    let la = lower_chars(a);
    let bb = str_chars(b);
    let lb = lower_chars(bb.as_slice());
    chars_eq(la.as_slice(), lb.as_slice())
}

fn push_tag(tags: &mut Vec<String>, c: bool, t: &str)
    ensures
        strings_view(final(tags)@) == strings_view(old(tags)@) + crate::crypto_detect::one_if(c, t@),
{
    let ghost before = tags@;
    if c {
        tags.push(owned(t));
        proof {
            assert(strings_view(tags@) =~= strings_view(before) + seq![t@]);
        }
    } else {
        proof {
            assert(strings_view(tags@) =~= strings_view(before) + seq![]);
        }
    }
}

/// The risk level and behaviour tags of an imported symbol: the dangerous-API
/// table decides when it lists the symbol; otherwise `crypt` in the name means
/// crypto (low risk), `reg` means registry, and a Winsock or WinHTTP module
/// means networking (low risk).
pub fn classify_import(module: &str, symbol: &str) -> (r: (RiskLevel, Vec<String>))
    ensures
        (r.0, strings_view(r.1@)) == spec_classify_import(module@, symbol@),
{
    let sym = str_chars(symbol);
    match api_lookup_exec(sym.as_slice()) {
        Some((tag, risk)) => {
            let tags = vec![owned(tag)];
            proof {
                assert(strings_view(tags@) =~= seq![tag@]);
            }
            (risk, tags)
        },
        None => {
            let lower = lower_chars(sym.as_slice());
            let m = str_chars(module);
            let crypt = has(lower.as_slice(), "crypt");
            let reg = has(lower.as_slice(), "reg");
            let net = eq_ignore_case_exec(m.as_slice(), "ws2_32.dll") || eq_ignore_case_exec(
                m.as_slice(),
                "winhttp.dll",
            );
            let mut tags: Vec<String> = Vec::new();
            proof {
                assert(strings_view(tags@) =~= seq![]);
            }
            push_tag(&mut tags, crypt, "crypto");
            push_tag(&mut tags, reg, "registry");
            push_tag(&mut tags, net, "networking");
            let risk = if crypt || net {
                RiskLevel::Low
            } else {
                RiskLevel::Info
            };
            proof {
                assert(strings_view(tags@) =~= heuristic_class(module@, symbol@).1);
            }
            (risk, tags)
        },
    }
}

/// The import with its risk and tags set from its module and symbol.
pub open spec fn enriched(o: ImportView) -> ImportView {
    let c = spec_classify_import(o.module, o.symbol);
    ImportView { risk: c.0, tags: c.1, ..o }
}

/// Each import of the list enriched.
pub open spec fn enriched_imports(s: Seq<ImportView>) -> Seq<ImportView> {
    s.map_values(|o: ImportView| enriched(o))
}

/// Enriching the imports a second time changes nothing.
pub proof fn law_enrich_imports_idempotent(s: Seq<ImportView>)
    ensures
        enriched_imports(enriched_imports(s)) == enriched_imports(s),
{
    assert(enriched_imports(enriched_imports(s)) =~= enriched_imports(s));
}

/// Sets each import's risk and tags to what `classify_import` gives it.
pub fn enrich_imports(imports: &mut Vec<ImportEntry>)
    ensures
        final(imports)@.len() == old(imports)@.len(),
        forall|i: int|
            0 <= i < old(imports)@.len() ==> {
                let o = #[trigger] old(imports)@[i]@;
                let n = final(imports)@[i]@;
                &&& n.module == o.module
                &&& n.symbol == o.symbol
                &&& n.ordinal == o.ordinal
                &&& n.address == o.address
                &&& (n.risk, n.tags) == spec_classify_import(o.module, o.symbol)
            },
        import_views(final(imports)@) == enriched_imports(import_views(old(imports)@)),
{
    let ghost orig = imports@;
    let mut i: usize = 0;
    while i < imports.len()
        invariant
            i <= imports@.len(),
            imports@.len() == orig.len(),
            forall|k: int|
                0 <= k < orig.len() ==> {
                    let o = #[trigger] orig[k]@;
                    let n = imports@[k]@;
                    &&& n.module == o.module
                    &&& n.symbol == o.symbol
                    &&& n.ordinal == o.ordinal
                    &&& n.address == o.address
                    &&& k < i ==> (n.risk, n.tags) == spec_classify_import(o.module, o.symbol)
                    &&& k >= i ==> n == o
                },
        decreases imports@.len() - i,
    {
        let (risk, tags) = classify_import(imports[i].module.as_str(), imports[i].symbol.as_str());
        let mut e = imports.remove(i);
        e.risk = risk;
        e.tags = tags;
        imports.insert(i, e);
        proof {
            assert forall|k: int| 0 <= k < orig.len() implies {
                let o = #[trigger] orig[k]@;
                let n = imports@[k]@;
                &&& n.module == o.module
                &&& n.symbol == o.symbol
                &&& n.ordinal == o.ordinal
                &&& n.address == o.address
                &&& k < i + 1 ==> (n.risk, n.tags) == spec_classify_import(o.module, o.symbol)
                &&& k >= i + 1 ==> n == o
            } by {}
        }
        i += 1;
    }
    proof {
        assert(import_views(imports@) =~= enriched_imports(import_views(orig)));
    }
}

// ---------------------------------------------------------------------------
// Network indicators
// ---------------------------------------------------------------------------

/// The part of `s` after `n` separators and before the next one
/// (`s.split(sep).nth(n)`), if `s` has that many parts.
pub open spec fn split_nth(s: Seq<char>, sep: Seq<char>, n: nat) -> Option<Seq<char>>
    decreases n,
{
    match find_seq(s, sep) {
        Some(i) => if n == 0 {
            Some(s.subrange(0, i))
        } else if i + sep.len() <= s.len() && sep.len() > 0 {
            split_nth(s.subrange(i + sep.len(), s.len() as int), sep, (n - 1) as nat)
        } else {
            None
        },
        None => if n == 0 {
            Some(s)
        } else {
            None
        },
    }
}

pub open spec fn is_digit(c: char) -> bool {
    '0' <= c && c <= '9'
}

/// The value of a run of decimal digits.
pub open spec fn digits_value(s: Seq<char>) -> nat
    decreases s.len(),
{
    if s.len() == 0 {
        0
    } else {
        digits_value(s.drop_last()) * 10 + ((s.last() as u32) - 48) as nat
    }
}

/// A run of decimal digits read as a 16-bit number, if it is one.
pub open spec fn parse_digits(d: Seq<char>) -> Option<u16> {
    if d.len() > 0 && (forall|i: int| 0 <= i < d.len() ==> is_digit(#[trigger] d[i]))
        && digits_value(d) <= 65535 {
        Some(digits_value(d) as u16)
    } else {
        None
    }
}

/// The text without one leading `+`.
pub open spec fn strip_plus(s: Seq<char>) -> Seq<char> {
    if s.len() > 0 && s[0] == '+' { s.drop_first() } else { s }
}

/// What `str::parse::<u16>` accepts: an optional `+` and then at least one
/// decimal digit, with a value that fits in 16 bits.
pub open spec fn parse_u16(s: Seq<char>) -> Option<u16> {
    parse_digits(strip_plus(s))
}

/// The explicit port of a URL: the text after the first `:` of the
/// host-and-port part that follows `://`, when it parses as a port number.
pub open spec fn spec_port_from_url(url: Seq<char>) -> Option<u16> {
    match split_nth(url, "://"@, 1) {
        Some(after) => match split_nth(after, "/"@, 0) {
            Some(hostport) => match split_nth(hostport, ":"@, 1) {
                Some(port) => parse_u16(port),
                None => None,
            },
            None => None,
        },
        None => None,
    }
}

/// The lowercased scheme: the text before the first `://` (the whole text when there is none).
pub open spec fn spec_protocol_from_url(url: Seq<char>) -> Seq<char> {
    match find_seq(url, "://"@) {
        Some(i) => lower_seq(url.subrange(0, i)),
        None => lower_seq(url),
    }
}

/// The host names paste sites, tunnels, dynamic DNS or chat webhooks.
pub open spec fn spec_suspicious_host(v: Seq<char>) -> bool {
    let l = lower_seq(v);
    contains_seq(l, "pastebin"@) || contains_seq(l, "ngrok"@) || contains_seq(l, "duckdns"@)
        || contains_seq(l, "raw.githubusercontent"@) || contains_seq(l, "tor2web"@)
        || contains_seq(l, ".onion"@) || contains_seq(l, "discord.com/api/webhooks"@)
}

fn split_nth_exec(s: &[char], sep: &str, n: usize) -> (r: Option<Vec<char>>)
    ensures
        match split_nth(s@, sep@, n as nat) {
            Some(p) => r matches Some(v) && v@ == p,
            None => r is None,
        },
    decreases n,
{
    let sp = str_chars(sep);
    match find_chars(s, sp.as_slice()) {
        Some(i) => {
            proof {
                crate::text::lemma_find_from_bounds(s@, sp@, 0);
            }
            if n == 0 {
                Some(slice_chars(s, 0, i))
            } else if sp.len() > 0 {
                let len = s.len();
                let rest = slice_chars(s, i + sp.len(), len);
                split_nth_exec(rest.as_slice(), sep, n - 1)
            } else {
                None
            }
        },
        None => {
            if n == 0 {
                Some(slice_chars(s, 0, s.len()))
            } else {
                None
            }
        },
    }
}

/// Parses a 16-bit unsigned decimal number as `str::parse::<u16>` does.
pub fn parse_u16_exec(s: &[char]) -> (r: Option<u16>)
    ensures
        r == parse_u16(s@),
{
    let start: usize = if s.len() > 0 && s[0] == '+' {
        1
    } else {
        0
    };
    let ghost d = strip_plus(s@);
    proof {
        assert(d =~= s@.subrange(start as int, s@.len() as int));
    }
    if start >= s.len() {
        return None;
    }
    let mut v: u32 = 0;
    let mut k = start;
    while k < s.len()
        invariant
            start <= k <= s@.len(),
            start < s@.len(),
            d == s@.subrange(start as int, s@.len() as int),
            d == strip_plus(s@),
            forall|i: int| start <= i < k ==> is_digit(#[trigger] s@[i]),
            v == digits_value(s@.subrange(start as int, k as int)),
            v <= 65535,
        decreases s@.len() - k,
    {
        let c = s[k];
        if !('0' <= c && c <= '9') {
            proof {
                assert(d[k - start] == c);
                assert(!is_digit(d[k - start]));
            }
            return None;
        }
        let nv = v * 10 + (c as u32 - 48);
        proof {
            let pre = s@.subrange(start as int, k + 1);
            assert(pre.drop_last() =~= s@.subrange(start as int, k as int));
            assert(pre.last() == c);
            assert(digits_value(pre) == nv);
        }
        if nv > 65535 {
            proof {
                let m = (k + 1 - start) as int;
                assert(d.subrange(0, m) =~= s@.subrange(start as int, k + 1));
                if forall|i: int| 0 <= i < d.len() ==> is_digit(#[trigger] d[i]) {
                    lemma_digits_prefix_le(d, m);
                }
            }
            return None;
        }
        v = nv;
        k += 1;
    }
    proof {
        assert(s@.subrange(start as int, s@.len() as int) == d);
        assert forall|i: int| 0 <= i < d.len() implies is_digit(#[trigger] d[i]) by {
            assert(d[i] == s@[start + i]);
        }
    }
    Some(v as u16)
}

/// The value of a digit run is at least that of each of its prefixes.
pub proof fn lemma_digits_prefix_le(d: Seq<char>, k: int)
    requires
        0 <= k <= d.len(),
        forall|i: int| 0 <= i < d.len() ==> is_digit(#[trigger] d[i]),
    ensures
        digits_value(d.subrange(0, k)) <= digits_value(d),
    decreases d.len() - k,
{
    if k < d.len() {
        let p = d.drop_last();
        assert forall|i: int| 0 <= i < p.len() implies is_digit(#[trigger] p[i]) by {
            assert(p[i] == d[i]);
        }
        lemma_digits_prefix_le(p, k);
        assert(p.subrange(0, k) =~= d.subrange(0, k));
        assert(is_digit(d[d.len() - 1]));
    } else {
        assert(d.subrange(0, k) =~= d);
    }
}

/// The lowercased scheme of a URL (what precedes the first `://`).
pub fn protocol_from_url(url: &str) -> (r: Option<String>)
    ensures
        r matches Some(p) && p@ == spec_protocol_from_url(url@),
{
    let u = str_chars(url);
    let sep = str_chars("://");
    match find_chars(u.as_slice(), sep.as_slice()) {
        Some(i) => {
            proof {
                crate::text::lemma_find_from_bounds(u@, sep@, 0);
            }
            let head = slice_chars(u.as_slice(), 0, i);
            let l = lower_chars(head.as_slice());
            Some(string_of(l.as_slice()))
        },
        None => {
            let l = lower_chars(u.as_slice());
            Some(string_of(l.as_slice()))
        },
    }
}

/// The explicit port of a URL, when the host part carries one that parses.
pub fn parse_port_from_url(url: &str) -> (r: Option<u16>)
    ensures
        r == spec_port_from_url(url@),
{
    let u = str_chars(url);
    let after = match split_nth_exec(u.as_slice(), "://", 1) {
        Some(a) => a,
        None => return None,
    };
    let hostport = match split_nth_exec(after.as_slice(), "/", 0) {
        Some(h) => h,
        None => return None,
    };
    let port = match split_nth_exec(hostport.as_slice(), ":", 1) {
        Some(p) => p,
        None => return None,
    };
    parse_u16_exec(port.as_slice())
}

/// Whether the value names a paste site, a tunnel, dynamic DNS, an onion
/// service or a chat webhook (ASCII case-insensitive).
pub fn is_suspicious_host(value: &str) -> (r: bool)
    ensures
        r == spec_suspicious_host(value@),
{
    let v = str_chars(value);
    let l = lower_chars(v.as_slice());
    let s = l.as_slice();
    has(s, "pastebin") || has(s, "ngrok") || has(s, "duckdns") || has(s, "raw.githubusercontent")
        || has(s, "tor2web") || has(s, ".onion") || has(s, "discord.com/api/webhooks")
}

/// The network indicator that one extracted string gives, if its category is
/// a URL, a domain, an IP address or an e-mail address.
pub open spec fn indicator_of(s: ExtractedStringView) -> Option<NetworkIndicatorView> {
    let ev = |note: Seq<char>|
        seq![EvidenceView::String { value: s.value, offset: Some(s.offset), note: note }];
    match s.category {
        StringCategory::Url => Some(
            NetworkIndicatorView {
                kind: NetworkKind::Url,
                value: s.value,
                port: spec_port_from_url(s.value),
                protocol: Some(spec_protocol_from_url(s.value)),
                evidence: ev("URL extracted from binary strings"@),
                suspicious: spec_suspicious_host(s.value),
            },
        ),
        StringCategory::Domain => Some(
            NetworkIndicatorView {
                kind: NetworkKind::Domain,
                value: s.value,
                port: None,
                protocol: None,
                evidence: ev("Domain extracted from binary strings"@),
                suspicious: spec_suspicious_host(s.value),
            },
        ),
        StringCategory::Ip => Some(
            NetworkIndicatorView {
                kind: NetworkKind::Ip,
                value: s.value,
                port: None,
                protocol: None,
                evidence: ev("IP extracted from binary strings"@),
                suspicious: !starts_with_seq(s.value, "127."@) && !starts_with_seq(s.value, "0."@),
            },
        ),
        StringCategory::Email => Some(
            NetworkIndicatorView {
                kind: NetworkKind::Email,
                value: s.value,
                port: None,
                protocol: Some("smtp"@),
                evidence: ev("Email indicator"@),
                suspicious: false,
            },
        ),
        _ => None,
    }
}

/// The indicators of a list of extracted strings, in order.
pub open spec fn spec_network_from_strings(ss: Seq<ExtractedStringView>) -> Seq<
    NetworkIndicatorView,
>
    decreases ss.len(),
{
    if ss.len() == 0 {
        seq![]
    } else {
        let prev = spec_network_from_strings(ss.drop_last());
        match indicator_of(ss.last()) {
            Some(n) => prev.push(n),
            None => prev,
        }
    }
}

fn string_evidence(s: &ExtractedString, note: &str) -> (r: Vec<Evidence>)
    ensures
        evidence_views(r@) == seq![
            EvidenceView::String { value: s@.value, offset: Some(s@.offset), note: note@ },
        ],
{
    let e = Evidence::String { value: copy_string(&s.value), offset: Some(s.offset), note: owned(note) };
    let r = vec![e];
    proof {
        assert(evidence_views(r@) =~= seq![e@]);
    }
    r
}

fn indicator_exec(s: &ExtractedString) -> (r: Option<NetworkIndicator>)
    ensures
        match indicator_of(s@) {
            Some(n) => r matches Some(x) && x@ == n,
            None => r is None,
        },
{
    match s.category {
        StringCategory::Url => {
            let proto = protocol_from_url(s.value.as_str());
            Some(
                NetworkIndicator {
                    kind: NetworkKind::Url,
                    value: copy_string(&s.value),
                    port: parse_port_from_url(s.value.as_str()),
                    protocol: proto,
                    evidence: string_evidence(s, "URL extracted from binary strings"),
                    suspicious: is_suspicious_host(s.value.as_str()),
                },
            )
        },
        StringCategory::Domain => Some(
            NetworkIndicator {
                kind: NetworkKind::Domain,
                value: copy_string(&s.value),
                port: None,
                protocol: None,
                evidence: string_evidence(s, "Domain extracted from binary strings"),
                suspicious: is_suspicious_host(s.value.as_str()),
            },
        ),
        StringCategory::Ip => {
            let v = str_chars(s.value.as_str());
            let sus = !starts_with(v.as_slice(), "127.") && !starts_with(v.as_slice(), "0.");
            Some(
                NetworkIndicator {
                    kind: NetworkKind::Ip,
                    value: copy_string(&s.value),
                    port: None,
                    protocol: None,
                    evidence: string_evidence(s, "IP extracted from binary strings"),
                    suspicious: sus,
                },
            )
        },
        StringCategory::Email => Some(
            NetworkIndicator {
                kind: NetworkKind::Email,
                value: copy_string(&s.value),
                port: None,
                protocol: Some(owned("smtp")),
                evidence: string_evidence(s, "Email indicator"),
                suspicious: false,
            },
        ),
        _ => None,
    }
}

/// Network indicators (URLs, domains, IP addresses, e-mail addresses) from
/// the categorised strings of a binary, in the strings' order, each citing
/// the string and its offset as evidence.
pub fn network_from_strings(strings: &[ExtractedString]) -> (r: Vec<NetworkIndicator>)
    ensures
        network_views(r@) == spec_network_from_strings(string_views(strings@)),
{
    let mut out: Vec<NetworkIndicator> = Vec::new();
    let mut i: usize = 0;
    while i < strings.len()
        invariant
            i <= strings@.len(),
            network_views(out@) == spec_network_from_strings(
                string_views(strings@.subrange(0, i as int)),
            ),
        decreases strings@.len() - i,
    {
        let ghost before = out@;
        let ind = indicator_exec(&strings[i]);
        proof {
            let sv = string_views(strings@.subrange(0, i + 1));
            assert(sv.drop_last() =~= string_views(strings@.subrange(0, i as int)));
            assert(sv.last() == strings@[i as int]@);
        }
        match ind {
            Some(n) => {
                out.push(n);
                proof {
                    assert(network_views(out@) =~= network_views(before).push(n@));
                }
            },
            None => {},
        }
        i += 1;
    }
    proof {
        assert(strings@.subrange(0, strings@.len() as int) =~= strings@);
    }
    out
}

} // verus!
