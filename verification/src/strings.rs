//! Printable string extraction (ASCII and UTF-16LE) and classification of
//! each string into indicators: URLs, e-mail and IP addresses, registry
//! keys, paths, mutexes, keys and credentials.
use vstd::prelude::*;
use crate::crypto_detect::one_if;
use vstd::string::StringSliceAdditionalSpecFns;
use crate::matcher::{is_match, regex_is_match};
use crate::model::{string_views, ExtractedString, ExtractedStringView, StringCategory};
use crate::order::{is_sorted_desc, law_sort_desc_sorted_permutation, lemma_sort_by_keys_view, sort_desc, sort_desc_by_keys};
use crate::text::{
    byte_chars, contains_seq, has, lower_chars, lower_seq, owned, starts_with, starts_with_seq,
    str_chars, string_of_bytes, utf8,
};

verus! {

// ---------------------------------------------------------------------------
// Classification
// ---------------------------------------------------------------------------

/// The number of pattern rules.
pub open spec fn rule_count() -> int {
    11
}

/// Pattern rule `k`: its regular expression, the category it gives and the
/// score in hundredths. Earlier rules win.
pub open spec fn pattern_rule(k: int) -> (Seq<char>, StringCategory, u32) {
    if k == 0 {
        (r#"-----BEGIN (?:RSA |EC |OPENSSH )?PRIVATE KEY-----"#@, StringCategory::Credential, 100)
    } else if k == 1 {
        (r#"\b(?:AKIA|ASIA)[0-9A-Z]{16}\b"#@, StringCategory::ApiKey, 98)
    } else if k == 2 {
        (
            r#"\beyJ[A-Za-z0-9_-]{10,}\.[A-Za-z0-9_-]{10,}\.[A-Za-z0-9_-]{10,}\b"#@,
            StringCategory::Jwt,
            95,
        )
    } else if k == 3 {
        (r#"(?i)\bhttps?://[^\s"'<>]{4,}"#@, StringCategory::Url, 95)
    } else if k == 4 {
        (r#"(?i)\b[a-z0-9._%+-]+@[a-z0-9.-]+\.[a-z]{2,}\b"#@, StringCategory::Email, 90)
    } else if k == 5 {
        (
            r#"\b(?:(?:25[0-5]|2[0-4]\d|[01]?\d\d?)\.){3}(?:25[0-5]|2[0-4]\d|[01]?\d\d?)\b"#@,
            StringCategory::Ip,
            90,
        )
    } else if k == 6 {
        (
            r#"(?i)\b(?:HKEY_(?:LOCAL_MACHINE|CURRENT_USER|CLASSES_ROOT|USERS|CURRENT_CONFIG)|HKLM|HKCU)\\[\\A-Za-z0-9 _.-]+"#@,
            StringCategory::Registry,
            92,
        )
    } else if k == 7 {
        (r#"(?i)\b(?:Global|Local)\\[A-Za-z0-9_.-]{4,}"#@, StringCategory::Mutex, 85)
    } else if k == 8 {
        (r#"(?i)\b[a-z]:\\(?:[^\\/:*?"<>|\r\n]+\\)*[^\\/:*?"<>|\r\n]*"#@, StringCategory::Path, 80)
    } else if k == 9 {
        (r#"(?i)(?:^|[\s"'=])(/[\w./-]{3,})"#@, StringCategory::Path, 75)
    } else {
        (
            r#"(?i)\b(?:[a-z0-9](?:[a-z0-9-]{0,61}[a-z0-9])?\.)+(?:com|net|org|io|dev|ru|cn|xyz|info|biz|co|us|uk|de|fr|jp|kr|in|ai|app|cloud|local)\b"#@,
            StringCategory::Domain,
            70,
        )
    }
}

/// The category and score of a string that no pattern rule matches:
/// credential, crypto and user-agent keywords, else a generic score that
/// grows with the length (0.20 plus one hundredth per byte, up to 40 bytes).
pub open spec fn keyword_class(v: Seq<char>) -> (StringCategory, u32) {
    let l = lower_seq(v);
    if contains_seq(l, "password"@) || contains_seq(l, "apikey"@) || contains_seq(l, "secret"@) {
        (StringCategory::Credential, 70)
    } else if contains_seq(l, "aes"@) || contains_seq(l, "rsa"@) || contains_seq(l, "sha256"@) {
        (StringCategory::Crypto, 60)
    } else if starts_with_seq(l, "mozilla/"@) || contains_seq(l, "user-agent"@) {
        (StringCategory::UserAgent, 70)
    } else {
        let n = utf8(v).len();
        (StringCategory::Generic, (20 + if n < 40 { n } else { 40 }) as u32)
    }
}

/// The classification by the first pattern rule at index `k` or later that
/// matches, falling back to the keyword rules.
pub open spec fn classify_from(v: Seq<char>, k: int) -> (StringCategory, u32)
    decreases rule_count() - k,
{
    if k < 0 || k >= rule_count() {
        keyword_class(v)
    } else if regex_is_match(pattern_rule(k).0, v) {
        (pattern_rule(k).1, pattern_rule(k).2)
    } else {
        classify_from(v, k + 1)
    }
}

/// The category of a string and its score in hundredths.
pub open spec fn spec_classify(v: Seq<char>) -> (StringCategory, u32) {
    classify_from(v, 0)
}

/// No pattern rule matches the string.
pub open spec fn no_pattern_matches(v: Seq<char>) -> bool {
    forall|k: int| 0 <= k < rule_count() ==> !regex_is_match(#[trigger] pattern_rule(k).0, v)
}

proof fn lemma_classify_falls_through(v: Seq<char>, k: int)
    requires
        0 <= k <= rule_count(),
        no_pattern_matches(v),
    ensures
        classify_from(v, k) == keyword_class(v),
    decreases rule_count() - k,
{
    if k < rule_count() {
        assert(!regex_is_match(pattern_rule(k).0, v));
        lemma_classify_falls_through(v, k + 1);
    }
}

/// A string that no pattern rule matches is a credential, scored 0.7,
/// exactly when its ASCII-lowercased text mentions `password`, `apikey` or
/// `secret`; mentioning `password` alone is enough.
pub proof fn law_credential_keywords(v: Seq<char>)
    requires
        no_pattern_matches(v),
    ensures
        contains_seq(lower_seq(v), "password"@) ==> spec_classify(v) == (StringCategory::Credential, 70u32),
        (spec_classify(v).0 == StringCategory::Credential) <==> (contains_seq(lower_seq(v), "password"@)
            || contains_seq(lower_seq(v), "apikey"@) || contains_seq(lower_seq(v), "secret"@)),
{
    lemma_classify_falls_through(v, 0);
}

fn pattern_rule_exec(k: usize) -> (r: (&'static str, StringCategory, u32))
    requires
        k < 11,
    ensures
        (r.0@, r.1, r.2) == pattern_rule(k as int),
{
    match k {
        0 => (r#"-----BEGIN (?:RSA |EC |OPENSSH )?PRIVATE KEY-----"#, StringCategory::Credential, 100),
        1 => (r#"\b(?:AKIA|ASIA)[0-9A-Z]{16}\b"#, StringCategory::ApiKey, 98),
        2 => (
            r#"\beyJ[A-Za-z0-9_-]{10,}\.[A-Za-z0-9_-]{10,}\.[A-Za-z0-9_-]{10,}\b"#,
            StringCategory::Jwt,
            95,
        ),
        3 => (r#"(?i)\bhttps?://[^\s"'<>]{4,}"#, StringCategory::Url, 95),
        4 => (r#"(?i)\b[a-z0-9._%+-]+@[a-z0-9.-]+\.[a-z]{2,}\b"#, StringCategory::Email, 90),
        5 => (
            r#"\b(?:(?:25[0-5]|2[0-4]\d|[01]?\d\d?)\.){3}(?:25[0-5]|2[0-4]\d|[01]?\d\d?)\b"#,
            StringCategory::Ip,
            90,
        ),
        6 => (
            r#"(?i)\b(?:HKEY_(?:LOCAL_MACHINE|CURRENT_USER|CLASSES_ROOT|USERS|CURRENT_CONFIG)|HKLM|HKCU)\\[\\A-Za-z0-9 _.-]+"#,
            StringCategory::Registry,
            92,
        ),
        7 => (r#"(?i)\b(?:Global|Local)\\[A-Za-z0-9_.-]{4,}"#, StringCategory::Mutex, 85),
        8 => (r#"(?i)\b[a-z]:\\(?:[^\\/:*?"<>|\r\n]+\\)*[^\\/:*?"<>|\r\n]*"#, StringCategory::Path, 80),
        9 => (r#"(?i)(?:^|[\s"'=])(/[\w./-]{3,})"#, StringCategory::Path, 75),
        _ => (
            r#"(?i)\b(?:[a-z0-9](?:[a-z0-9-]{0,61}[a-z0-9])?\.)+(?:com|net|org|io|dev|ru|cn|xyz|info|biz|co|us|uk|de|fr|jp|kr|in|ai|app|cloud|local)\b"#,
            StringCategory::Domain,
            70,
        ),
    }
}

fn keyword_class_exec(s: &str) -> (r: (StringCategory, u32))
    ensures
        r == keyword_class(s@),
{
    let v = str_chars(s);
    let lv = lower_chars(v.as_slice());
    let l = lv.as_slice();
    if has(l, "password") || has(l, "apikey") || has(l, "secret") {
        (StringCategory::Credential, 70)
    } else if has(l, "aes") || has(l, "rsa") || has(l, "sha256") {
        (StringCategory::Crypto, 60)
    } else if starts_with(l, "mozilla/") || has(l, "user-agent") {
        (StringCategory::UserAgent, 70)
    } else {
        let n = s.as_bytes().len();
        let m: u32 = if n < 40 { n as u32 } else { 40 };
        proof {
            assert(utf8(s@) == s.spec_bytes());
        }
        (StringCategory::Generic, 20 + m)
    }
}

/// The category of a string and its score in hundredths: the first pattern
/// that matches (private key, AWS key, JWT, URL, e-mail, IPv4, registry key,
/// mutex, Windows path, Unix path, domain), else keywords, else generic.
pub fn classify(s: &str) -> (r: (StringCategory, u32))
    ensures
        r == spec_classify(s@),
{
    let mut k: usize = 0;
    while k < 11
        invariant
            k <= 11,
            spec_classify(s@) == classify_from(s@, k as int),
        decreases 11 - k,
    {
        let (pat, cat, score) = pattern_rule_exec(k);
        if is_match(pat, s) {
            return (cat, score);
        }
        k += 1;
    }
    keyword_class_exec(s)
}

// ---------------------------------------------------------------------------
// Extraction
// ---------------------------------------------------------------------------

/// A byte that belongs to an ASCII string: printable ASCII other than the
/// space, or a tab. Spaces separate strings, so that a URL and an address
/// in one line of text are found as two strings.
pub open spec fn printable(b: u8) -> bool {
    (33 <= b && b <= 126) || b == 9
}

/// After the first `n` bytes: the completed ASCII runs of at least four
/// bytes, as (start, end), and the start of the run in progress.
pub open spec fn ascii_scan(d: Seq<u8>, n: int) -> (Seq<(int, int)>, int)
    decreases n,
{
    if n <= 0 {
        (seq![], 0)
    } else {
        let prev = ascii_scan(d, n - 1);
        if printable(d[n - 1]) {
            prev
        } else {
            (prev.0 + one_if(n - 1 - prev.1 >= 4, (prev.1, n - 1)), n)
        }
    }
}

/// The maximal runs of at least four printable bytes, in order.
pub open spec fn ascii_runs(d: Seq<u8>) -> Seq<(int, int)> {
    let s = ascii_scan(d, d.len() as int);
    s.0 + one_if(d.len() - s.1 >= 4, (s.1, d.len() as int))
}

/// The first `n` elements of `s`, or all of them when it has fewer.
pub open spec fn take_upto<T>(s: Seq<T>, n: int) -> Seq<T> {
    if n >= s.len() {
        s
    } else if n <= 0 {
        seq![]
    } else {
        s.take(n)
    }
}

/// Appending at most one element to `a` and keeping the first `n`.
pub proof fn lemma_take_upto_extend<T>(a: Seq<T>, b: Seq<T>, n: int)
    requires
        b.len() <= 1,
        n >= 0,
    ensures
        take_upto(a + b, n) == (if a.len() < n { a + b } else { take_upto(a, n) }),
{
    if a.len() >= n {
        if n < a.len() {
            assert((a + b).take(n) =~= a.take(n));
        } else if b.len() == 1 {
            assert((a + b).take(n) =~= a);
        }
    }
}

/// An extracted string with its classification.
pub open spec fn string_entry(v: Seq<char>, offset: int, encoding: Seq<char>) -> ExtractedStringView {
    ExtractedStringView {
        value: v,
        offset: offset as u64,
        encoding,
        category: spec_classify(v).0,
        score: spec_classify(v).1,
    }
}

pub open spec fn ascii_entry(d: Seq<u8>, r: (int, int)) -> ExtractedStringView {
    string_entry(byte_chars(d.subrange(r.0, r.1)), r.0, "ascii"@)
}

/// The first `max` ASCII strings of the data.
pub open spec fn spec_extract_ascii(d: Seq<u8>, max: int) -> Seq<ExtractedStringView> {
    take_upto(ascii_runs(d), max).map_values(|r: (int, int)| ascii_entry(d, r))
}

proof fn lemma_ascii_scan_prefix(d: Seq<u8>, i: int, j: int)
    requires
        0 <= i <= j <= d.len(),
    ensures
        ascii_scan(d, i).0.len() <= ascii_scan(d, j).0.len(),
        ascii_scan(d, j).0.subrange(0, ascii_scan(d, i).0.len() as int) == ascii_scan(d, i).0,
        ascii_scan(d, i).1 <= i,
    decreases j,
{
    if j > i {
        lemma_ascii_scan_prefix(d, i, j - 1);
        let a = ascii_scan(d, i).0;
        let b = ascii_scan(d, j - 1).0;
        let c = ascii_scan(d, j).0;
        if !printable(d[j - 1]) {
            assert(c.subrange(0, a.len() as int) =~= b.subrange(0, a.len() as int));
        }
    } else {
        assert(ascii_scan(d, i).0.subrange(0, ascii_scan(d, i).0.len() as int) =~= ascii_scan(
            d,
            i,
        ).0);
        lemma_ascii_scan_start(d, i);
    }
}

proof fn lemma_ascii_scan_start(d: Seq<u8>, n: int)
    requires
        0 <= n,
    ensures
        0 <= ascii_scan(d, n).1 <= n,
    decreases n,
{
    if n > 0 {
        lemma_ascii_scan_start(d, n - 1);
    }
}

proof fn lemma_take_prefix<T, U>(s: Seq<T>, t: Seq<T>, m: int, f: spec_fn(T) -> U)
    requires
        0 <= m <= s.len(),
        s.len() <= t.len(),
        t.subrange(0, s.len() as int) == s,
    ensures
        take_upto(t, m).map_values(f) == take_upto(s, m).map_values(f),
{
    assert(take_upto(t, m) =~= take_upto(s, m));
}

fn make_entry(value: String, offset: u64, encoding: &str) -> (e: ExtractedString)
    ensures
        e@ == string_entry(value@, offset as int, encoding@),
{
    let (category, score) = classify(value.as_str());
    ExtractedString { value, offset, encoding: owned(encoding), category, score }
}

fn extract_ascii(data: &[u8], max: usize) -> (out: Vec<ExtractedString>)
    ensures
        string_views(out@) == spec_extract_ascii(data@, max as int),
        out@.len() <= max,
{
    let ghost d = data@;
    let ghost f = |r: (int, int)| ascii_entry(d, r);
    let mut out: Vec<ExtractedString> = Vec::new();
    let mut start: usize = 0;
    let mut i: usize = 0;
    proof {
        assert(string_views(out@) =~= take_upto(ascii_scan(d, 0).0, max as int).map_values(f));
    }
    while i < data.len() && out.len() < max
        invariant
            d == data@,
            f == (|r: (int, int)| ascii_entry(d, r)),
            i <= data@.len(),
            start == ascii_scan(d, i as int).1,
            start <= i,
            string_views(out@) == take_upto(ascii_scan(d, i as int).0, max as int).map_values(f),
            out@.len() <= max,
            out@.len() < max ==> out@.len() == ascii_scan(d, i as int).0.len(),
        decreases data@.len() - i,
    {
        let b = data[i];
        let p = (33 <= b && b <= 126) || b == 9;
        let ghost prev = ascii_scan(d, i as int);
        if !p {
            if i - start >= 4 {
                let bytes = crate::text::slice_bytes(data, start, i);
                let v = string_of_bytes(bytes.as_slice());
                let e = make_entry(v, start as u64, "ascii");
                let ghost before = out@;
                out.push(e);
                proof {
                    assert(e@ == ascii_entry(d, (start as int, i as int)));
                    assert(string_views(out@) =~= string_views(before).push(e@));
                    assert(take_upto(prev.0, max as int) =~= prev.0);
                    let next = prev.0 + seq![(start as int, i as int)];
                    assert(take_upto(next, max as int) =~= next);
                    assert(next.map_values(f) =~= prev.0.map_values(f).push(f((start as int, i as int))));
                }
            } else {
                proof {
                    assert(prev.0 + one_if(i - start >= 4, (start as int, i as int)) =~= prev.0);
                }
            }
            start = i + 1;
        }
        i += 1;
    }
    proof {
        lemma_ascii_scan_start(d, i as int);
    }
    if data.len() - start >= 4 && out.len() < max {
        let len = data.len();
        let bytes = crate::text::slice_bytes(data, start, len);
        let v = string_of_bytes(bytes.as_slice());
        let e = make_entry(v, start as u64, "ascii");
        let ghost before = out@;
        out.push(e);
        proof {
            assert(i == data@.len());
            let sc = ascii_scan(d, i as int);
            assert(take_upto(sc.0, max as int) =~= sc.0);
            assert(ascii_runs(d) =~= sc.0.push((start as int, len as int)));
            assert(take_upto(ascii_runs(d), max as int) =~= ascii_runs(d));
            assert(string_views(out@) =~= string_views(before).push(e@));
            assert(ascii_runs(d).map_values(f) =~= sc.0.map_values(f).push(f((start as int, len as int))));
        }
    } else {
        proof {
            let sc = ascii_scan(d, i as int);
            if i == data@.len() {
                if data@.len() - start >= 4 {
                    assert(out@.len() >= max);
                    assert(string_views(out@).len() == out@.len());
                    assert(sc.0.len() >= max);
                    assert(ascii_runs(d).subrange(0, sc.0.len() as int) =~= sc.0);
                    lemma_take_prefix(sc.0, ascii_runs(d), max as int, f);
                } else {
                    assert(ascii_runs(d) =~= sc.0);
                }
            } else {
                lemma_ascii_scan_prefix(d, i as int, data@.len() as int);
                let full = ascii_scan(d, data@.len() as int);
                assert(ascii_runs(d).subrange(0, full.0.len() as int) =~= full.0);
                assert(ascii_runs(d).subrange(0, sc.0.len() as int) =~= sc.0);
                assert(string_views(out@).len() == out@.len());
                assert(sc.0.len() >= max);
                lemma_take_prefix(sc.0, ascii_runs(d), max as int, f);
            }
        }
    }
    out
}

/// The little-endian 16-bit unit at index `k`.
pub open spec fn unit16(d: Seq<u8>, k: int) -> int {
    d[2 * k] as int + d[2 * k + 1] as int * 256
}

/// After the first `n` 16-bit units: the completed runs of at least four
/// printable units, as (byte offset, text), the offset of the run in
/// progress and its text so far.
pub open spec fn utf16_scan(d: Seq<u8>, n: int) -> (Seq<(int, Seq<char>)>, int, Seq<char>)
    decreases n,
{
    if n <= 0 {
        (seq![], 0, seq![])
    } else {
        let prev = utf16_scan(d, n - 1);
        let u = unit16(d, n - 1);
        if 32 <= u && u <= 126 {
            (prev.0, if prev.2.len() == 0 { 2 * (n - 1) } else { prev.1 }, prev.2.push(u as u8 as char))
        } else {
            (prev.0 + one_if(prev.2.len() >= 4, (prev.1, prev.2)), prev.1, seq![])
        }
    }
}

/// The runs of at least four printable UTF-16LE units at even offsets, in order.
pub open spec fn utf16_runs(d: Seq<u8>) -> Seq<(int, Seq<char>)> {
    let s = utf16_scan(d, d.len() as int / 2);
    s.0 + one_if(s.2.len() >= 4, (s.1, s.2))
}

pub open spec fn utf16_entry(r: (int, Seq<char>)) -> ExtractedStringView {
    string_entry(r.1, r.0, "utf16le"@)
}

proof fn lemma_utf16_scan_prefix(d: Seq<u8>, i: int, j: int)
    requires
        0 <= i <= j,
    ensures
        utf16_scan(d, i).0.len() <= utf16_scan(d, j).0.len(),
        utf16_scan(d, j).0.subrange(0, utf16_scan(d, i).0.len() as int) == utf16_scan(d, i).0,
    decreases j,
{
    if j > i {
        lemma_utf16_scan_prefix(d, i, j - 1);
        let a = utf16_scan(d, i).0;
        let b = utf16_scan(d, j - 1).0;
        let c = utf16_scan(d, j).0;
        assert(c.subrange(0, a.len() as int) =~= b.subrange(0, a.len() as int));
    } else {
        assert(utf16_scan(d, i).0.subrange(0, utf16_scan(d, i).0.len() as int) =~= utf16_scan(
            d,
            i,
        ).0);
    }
}

proof fn lemma_utf16_scan_len(d: Seq<u8>, n: int)
    requires
        0 <= n,
        2 * n <= d.len(),
    ensures
        utf16_scan(d, n).2.len() <= n,
        utf16_scan(d, n).1 + 2 * utf16_scan(d, n).2.len() <= 2 * n,
        utf16_scan(d, n).1 >= 0,
    decreases n,
{
    if n > 0 {
        lemma_utf16_scan_len(d, n - 1);
    }
}

/// The number of UTF-16LE strings that may follow `a` ASCII strings when
/// at most `max` strings are wanted: the remaining budget is counted
/// against the strings already found, so it is `max - 2a` when positive.
pub open spec fn utf16_budget(max: int, a: int) -> int {
    if a < max && max - a > a {
        max - a - a
    } else {
        0
    }
}

/// Appends UTF-16LE strings while fewer than `max` strings are held in
/// `out` (counting those already there).
fn extract_utf16le(data: &[u8], max: usize, out: &mut Vec<ExtractedString>)
    ensures
        string_views(final(out)@) == string_views(old(out)@) + (if old(out)@.len() < max {
            take_upto(utf16_runs(data@), max - old(out)@.len()).map_values(
                |r: (int, Seq<char>)| utf16_entry(r),
            )
        } else {
            seq![]
        }),
        final(out)@.len() <= if old(out)@.len() < max { max as int } else { old(out)@.len() as int },
{
    let ghost d = data@;
    let ghost f = |r: (int, Seq<char>)| utf16_entry(r);
    let ghost base = string_views(out@);
    let ghost a = out@.len();
    let ghost budget: int = if a < max { max - a } else { 0 };
    let mut buf: Vec<char> = Vec::new();
    let mut start: usize = 0;
    let mut i: usize = 0;
    proof {
        assert(string_views(out@) =~= base + take_upto(utf16_scan(d, 0).0, budget).map_values(f));
    }
    while i + 1 < data.len() && out.len() < max
        invariant
            d == data@,
            f == (|r: (int, Seq<char>)| utf16_entry(r)),
            a == old(out)@.len(),
            base == string_views(old(out)@),
            budget == (if a < max { max - a } else { 0 }),
            i % 2 == 0,
            i <= data@.len(),
            start == utf16_scan(d, i as int / 2).1,
            buf@ == utf16_scan(d, i as int / 2).2,
            string_views(out@) == base + take_upto(utf16_scan(d, i as int / 2).0, budget).map_values(f),
            out@.len() <= (if a < max { max as int } else { a as int }),
            out@.len() >= a,
            out@.len() < max ==> out@.len() == a + utf16_scan(d, i as int / 2).0.len(),
        decreases data@.len() - i,
    {
        let ghost k: int = i as int / 2;
        let ghost prev = utf16_scan(d, k);
        proof {
            assert(2 * k == i);
            lemma_utf16_scan_len(d, k);
        }
        let ch: u16 = data[i] as u16 + (data[i + 1] as u16) * 256;
        if 32 <= ch && ch <= 126 {
            if buf.len() == 0 {
                start = i;
            }
            let c = ch as u8 as char;
            buf.push(c);
            proof {
                assert(unit16(d, k) == ch);
            }
        } else {
            if buf.len() >= 4 {
                let v = crate::text::string_of(buf.as_slice());
                let e = make_entry(v, start as u64, "utf16le");
                let ghost before = out@;
                out.push(e);
                proof {
                    assert(unit16(d, k) == ch);
                    assert(e@ == f((start as int, buf@)));
                    assert(string_views(out@) =~= string_views(before).push(e@));
                    assert(take_upto(prev.0, budget) =~= prev.0);
                    let next = prev.0 + seq![(start as int, buf@)];
                    assert(take_upto(next, budget) =~= next);
                    assert(next.map_values(f) =~= prev.0.map_values(f).push(f((start as int, buf@))));
                    assert(string_views(out@) =~= base + take_upto(next, budget).map_values(f));
                }
            } else {
                proof {
                    assert(unit16(d, k) == ch);
                    assert(prev.0 + one_if(prev.2.len() >= 4, (prev.1, prev.2)) =~= prev.0);
                }
            }
            buf = Vec::new();
        }
        i += 2;
        proof {
            assert(i as int / 2 == k + 1);
        }
    }
    let ghost n: int = i as int / 2;
    proof {
        lemma_utf16_scan_len(d, n);
        if i + 1 >= data@.len() {
            assert(n == d.len() as int / 2);
        }
    }
    if buf.len() >= 4 && out.len() < max {
        let v = crate::text::string_of(buf.as_slice());
        let e = make_entry(v, start as u64, "utf16le");
        let ghost before = out@;
        let ghost sc = utf16_scan(d, n);
        out.push(e);
        proof {
            assert(n == d.len() as int / 2);
            assert(take_upto(sc.0, budget) =~= sc.0);
            assert(utf16_runs(d) =~= sc.0.push((sc.1, sc.2)));
            assert(take_upto(utf16_runs(d), budget) =~= utf16_runs(d));
            assert(string_views(out@) =~= string_views(before).push(e@));
            assert(utf16_runs(d).map_values(f) =~= sc.0.map_values(f).push(f((sc.1, sc.2))));
        }
    } else {
        proof {
            let sc = utf16_scan(d, n);
            if out@.len() < max {
                assert(n == d.len() as int / 2);
                assert(utf16_runs(d) =~= sc.0);
            } else {
                lemma_utf16_scan_prefix(d, n, d.len() as int / 2);
                let full = utf16_scan(d, d.len() as int / 2);
                assert(utf16_runs(d).subrange(0, full.0.len() as int) =~= full.0);
                assert(utf16_runs(d).subrange(0, sc.0.len() as int) =~= sc.0);
                if a < max {
                    assert(string_views(out@).len() == out@.len());
                    assert(sc.0.len() >= budget);
                    lemma_take_prefix(sc.0, utf16_runs(d), budget, f);
                } else {
                    assert(take_upto(utf16_runs(d), budget) =~= seq![]);
                }
            }
        }
    }
    proof {
        if a >= max {
            assert(string_views(out@) =~= base);
        }
    }
}

/// The score of an extracted string, as a sort key.
pub open spec fn score_key(s: ExtractedStringView) -> int {
    s.score as int
}

/// The strings before ordering: the first ASCII strings, then the UTF-16LE
/// strings that the budget leaves room for.
pub open spec fn string_candidates(d: Seq<u8>, max: int) -> Seq<ExtractedStringView> {
    let asc = spec_extract_ascii(d, max);
    asc + take_upto(utf16_runs(d), utf16_budget(max, asc.len() as int)).map_values(
        |r: (int, Seq<char>)| utf16_entry(r),
    )
}

/// The extracted strings, highest score first (equal scores keep their
/// order), at most `max` of them.
pub open spec fn spec_extract_strings(d: Seq<u8>, max: int) -> Seq<ExtractedStringView> {
    take_upto(sort_desc(string_candidates(d, max), |s: ExtractedStringView| score_key(s)), max)
}

/// Extracts printable strings: runs of at least four printable ASCII bytes
/// (tab included, space excluded), then runs of at least four printable UTF-16LE units,
/// each classified; returns the highest-scoring first, at most `max`.
pub fn extract_strings(data: &[u8], max: usize) -> (r: Vec<ExtractedString>)
    ensures
        string_views(r@) == spec_extract_strings(data@, max as int),
{
    let mut out = extract_ascii(data, max);
    let ghost asc = string_views(out@);
    if out.len() < max {
        let m = max - out.len();
        extract_utf16le(data, m, &mut out);
        proof {
            let a = asc.len() as int;
            if a < m {
                assert(utf16_budget(max as int, a) == m - a);
            } else {
                assert(utf16_budget(max as int, a) == 0);
                assert(take_upto(utf16_runs(data@), 0) =~= seq![]);
                assert(seq![].map_values(|r: (int, Seq<char>)| utf16_entry(r)) =~= Seq::<ExtractedStringView>::empty());
            }
            assert(string_views(out@) =~= string_candidates(data@, max as int));
        }
    } else {
        proof {
            assert(utf16_budget(max as int, asc.len() as int) == 0);
            assert(take_upto(utf16_runs(data@), 0) =~= seq![]);
            assert(string_views(out@) =~= string_candidates(data@, max as int));
        }
    }
    let ghost cand = out@;
    let mut keys: Vec<u64> = Vec::new();
    let mut i: usize = 0;
    while i < out.len()
        invariant
            i <= out@.len(),
            keys@.len() == i,
            forall|k: int| 0 <= k < i ==> keys@[k] as int == score_key(#[trigger] out@[k]@),
        decreases out@.len() - i,
    {
        keys.push(out[i].score as u64);
        i += 1;
    }
    let ghost ks = keys@;
    let mut r = sort_desc_by_keys(out, keys);
    proof {
        lemma_sort_by_keys_view(cand, ks, |e: ExtractedString| e@, |v: ExtractedStringView| score_key(v));
        assert(string_views(r@) =~= r@.map_values(|e: ExtractedString| e@));
        assert(cand.map_values(|e: ExtractedString| e@) =~= string_views(cand));
        law_sort_desc_sorted_permutation(string_views(cand), |v: ExtractedStringView| score_key(v));
    }
    r.truncate(max);
    proof {
        let srt = sort_desc(string_views(cand), |v: ExtractedStringView| score_key(v));
        assert(string_views(r@) =~= take_upto(srt, max as int));
    }
    r
}

/// At most `max` strings come out, highest score first, and each carries
/// the classification of its own text.
pub proof fn law_extracted_strings_bounded_sorted(d: Seq<u8>, max: int)
    requires
        max >= 0,
    ensures
        spec_extract_strings(d, max).len() <= max,
        is_sorted_desc(spec_extract_strings(d, max), |s: ExtractedStringView| score_key(s)),
        forall|i: int|
            0 <= i < spec_extract_strings(d, max).len() ==> {
                let e = #[trigger] spec_extract_strings(d, max)[i];
                (e.category, e.score) == spec_classify(e.value)
            },
{
    broadcast use vstd::seq_lib::group_to_multiset_ensures;

    let c = string_candidates(d, max);
    let key = |s: ExtractedStringView| score_key(s);
    law_sort_desc_sorted_permutation(c, key);
    let srt = sort_desc(c, key);
    let r = spec_extract_strings(d, max);
    assert forall|i: int| 0 <= i < r.len() implies {
        let e = #[trigger] r[i];
        (e.category, e.score) == spec_classify(e.value)
    } by {
        assert(r[i] == srt[i]);
        assert(srt.to_multiset().count(srt[i]) > 0);
        assert(c.to_multiset().count(srt[i]) > 0);
        assert(c.contains(srt[i]));
        let k = choose|k: int| 0 <= k < c.len() && c[k] == srt[i];
        lemma_candidate_classified(d, max, k);
    }
}

proof fn lemma_candidate_classified(d: Seq<u8>, max: int, k: int)
    requires
        0 <= k < string_candidates(d, max).len(),
    ensures
        ({
            let e = string_candidates(d, max)[k];
            (e.category, e.score) == spec_classify(e.value)
        }),
{
    let asc = spec_extract_ascii(d, max);
    if k < asc.len() {
        assert(string_candidates(d, max)[k] == asc[k]);
    } else {
        let u = take_upto(utf16_runs(d), utf16_budget(max, asc.len() as int)).map_values(
            |r: (int, Seq<char>)| utf16_entry(r),
        );
        assert(string_candidates(d, max)[k] == u[k - asc.len()]);
    }
}

} // verus!
