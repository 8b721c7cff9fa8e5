//! Comparing two binaries: byte differences, and what changed between two
//! analysis reports (imports, exports, functions, strings, sections and the
//! malware verdict); report snapshots.
use vstd::prelude::*;
use crate::copy::DeepCopy;
use vstd::string::StringSliceAdditionalSpecFns;
use vstd::utf8::{decode_utf8, is_char_boundary};
use crate::chat::{lemma_sel_members, sel, shown_name};
use crate::crypto_detect::one_if;
use crate::lexical::{lex_increasing, lex_lt, lex_sorted_set, sorted_set_of, texts_view};
use crate::model::{
    family_name, function_views, import_views, section_views, string_views, ExportEntry,
    ExtractedString, ExtractedStringView, FunctionAnalysis, FunctionView, ImportEntry, ImportView,
    SectionInfo, SectionView,
};
use crate::report::{AnalysisReport, MalwareView};
use crate::strings::take_upto;
use crate::text::{
    chars_eq, copy_string, dec_of, owned, push_dec, push_str, push_string, str_chars, string_of,
    strings_view, utf8,
};

verus! {

// ---------------------------------------------------------------------------
// Raw bytes
// ---------------------------------------------------------------------------

/// The number of positions, up to the shorter length, at which the bytes differ.
pub open spec fn mismatches(l: Seq<u8>, r: Seq<u8>, n: int) -> nat
    decreases n,
{
    if n <= 0 {
        0
    } else {
        mismatches(l, r, n - 1) + (if l[n - 1] != r[n - 1] { 1nat } else { 0nat })
    }
}

/// How two byte strings differ: the count of differing bytes (the length
/// difference plus the differing positions of the common prefix length), the
/// longer length (at least one), and whether they are identical. Where they
/// are identical the count is zero. The share of differing bytes is the
/// count over the longer length.
pub fn diff_bytes(left: &[u8], right: &[u8]) -> (r: (usize, usize, bool))
    ensures
        r.2 == (left@ == right@),
        r.2 ==> r.0 == 0,
        !r.2 ==> r.1 == (if left@.len() >= right@.len() { left@.len() } else { right@.len() }) && r.1 >= 1
            && r.0 == (r.1 - (if left@.len() <= right@.len() { left@.len() } else { right@.len() }))
            + mismatches(left@, right@, if left@.len() <= right@.len() { left@.len() as int } else { right@.len() as int }),
        r.0 <= r.1,
{
    let ln = left.len();
    let rn = right.len();
    let min: usize = if ln <= rn { ln } else { rn };
    let max0: usize = if ln >= rn { ln } else { rn };
    let max: usize = if max0 >= 1 { max0 } else { 1 };
    let mut diff: usize = max - min;
    let mut same: bool = ln == rn;
    let mut i: usize = 0;
    while i < min
        invariant
            i <= min,
            min <= ln,
            min <= rn,
            ln == left@.len(),
            rn == right@.len(),
            max >= max0,
            max0 == (if ln >= rn { ln } else { rn }),
            max == (if max0 >= 1 { max0 } else { 1 }),
            diff == max - min + mismatches(left@, right@, i as int),
            mismatches(left@, right@, i as int) <= i,
            same == (ln == rn && forall|k: int| 0 <= k < i ==> left@[k] == right@[k]),
        decreases min - i,
    {
        if left[i] != right[i] {
            diff += 1;
            same = false;
        }
        i += 1;
    }
    if same {
        proof {
            assert(left@ =~= right@);
        }
        return (0, max, true);
    }
    proof {
        if left@ == right@ {
            assert(forall|k: int| 0 <= k < min ==> left@[k] == right@[k]);
        }
        if ln == 0 && rn == 0 {
            assert(left@ =~= right@);
        }
    }
    (diff, max, false)
}

// ---------------------------------------------------------------------------
// Sets of texts
// ---------------------------------------------------------------------------

/// The texts of `a` that are not in `b`, in the order of `a`.
pub open spec fn minus(a: Seq<Seq<char>>, b: Seq<Seq<char>>) -> Seq<Seq<char>> {
    sel(a, |x: Seq<char>| !b.contains(x))
}

/// The distinct texts of `r` that `l` lacks, in increasing order.
pub open spec fn added(l: Seq<Seq<char>>, r: Seq<Seq<char>>) -> Seq<Seq<char>> {
    minus(lex_sorted_set(r), lex_sorted_set(l))
}

/// The distinct texts in exactly one of `l` and `r`, in increasing order.
pub open spec fn changed(l: Seq<Seq<char>>, r: Seq<Seq<char>>) -> Seq<Seq<char>> {
    lex_sorted_set(added(r, l) + added(l, r))
}

proof fn lemma_sel_increasing(s: Seq<Seq<char>>, p: spec_fn(Seq<char>) -> bool)
    requires
        lex_increasing(s),
    ensures
        lex_increasing(sel(s, p)),
    decreases s.len(),
{
    if s.len() > 0 {
        let d = s.drop_last();
        assert(lex_increasing(d));
        lemma_sel_increasing(d, p);
        lemma_sel_members(d, p);
        let a = sel(d, p);
        if p(s.last()) {
            assert forall|i: int, j: int| 0 <= i < j < a.push(s.last()).len() implies lex_lt(
                a.push(s.last())[i],
                a.push(s.last())[j],
            ) by {
                if j == a.len() {
                    assert(a.contains(a[i]));
                    assert(d.contains(a[i]));
                    let k = choose|k: int| 0 <= k < d.len() && d[k] == a[i];
                    assert(lex_lt(s[k], s[s.len() - 1]));
                }
            }
            assert(sel(s, p) =~= a.push(s.last()));
        } else {
            assert(sel(s, p) =~= a);
        }
    }
}

proof fn lemma_sorted_set_members(s: Seq<Seq<char>>)
    ensures
        lex_increasing(lex_sorted_set(s)),
        forall|x: Seq<char>| lex_sorted_set(s).contains(x) <==> s.contains(x),
{
    broadcast use vstd::seq_lib::group_seq_properties;

    crate::lexical::law_lex_sorted_set(s);
    assert forall|x: Seq<char>| lex_sorted_set(s).contains(x) <==> s.contains(x) by {
        assert(lex_sorted_set(s).to_set().contains(x) == s.to_set().contains(x));
    }
}

/// The added texts are exactly the texts of `r` that `l` lacks, each once,
/// in increasing order.
pub proof fn law_added_exact(l: Seq<Seq<char>>, r: Seq<Seq<char>>)
    ensures
        lex_increasing(added(l, r)),
        forall|x: Seq<char>| #[trigger] added(l, r).contains(x) <==> (r.contains(x) && !l.contains(x)),
{
    lemma_sorted_set_members(l);
    lemma_sorted_set_members(r);
    let ls = lex_sorted_set(l);
    let rs = lex_sorted_set(r);
    let p = |x: Seq<char>| !ls.contains(x);
    lemma_sel_members(rs, p);
    lemma_sel_increasing(rs, p);
}

/// Nothing is added or removed between a list and itself.
pub proof fn law_added_self(s: Seq<Seq<char>>)
    ensures
        added(s, s) == Seq::<Seq<char>>::empty(),
{
    law_added_exact(s, s);
    if added(s, s).len() > 0 {
        assert(added(s, s).contains(added(s, s)[0]));
    }
    assert(added(s, s) =~= Seq::<Seq<char>>::empty());
}

/// The changed texts are exactly those in one list and not the other, each
/// once, in increasing order.
pub proof fn law_changed_exact(l: Seq<Seq<char>>, r: Seq<Seq<char>>)
    ensures
        lex_increasing(changed(l, r)),
        forall|x: Seq<char>| #[trigger] changed(l, r).contains(x) <==> (l.contains(x) != r.contains(x)),
{
    law_added_exact(l, r);
    law_added_exact(r, l);
    let both = added(r, l) + added(l, r);
    lemma_sorted_set_members(both);
    assert forall|x: Seq<char>| #[trigger] changed(l, r).contains(x) <==> (l.contains(x) != r.contains(x)) by {
        if both.contains(x) {
            let k = choose|k: int| 0 <= k < both.len() && both[k] == x;
            if k < added(r, l).len() {
                assert(added(r, l)[k] == x);
                assert(added(r, l).contains(x));
            } else {
                assert(added(l, r)[k - added(r, l).len()] == x);
                assert(added(l, r).contains(x));
            }
        }
        if l.contains(x) && !r.contains(x) {
            assert(added(r, l).contains(x));
            let k = choose|k: int| 0 <= k < added(r, l).len() && added(r, l)[k] == x;
            assert(both[k] == x);
        }
        if r.contains(x) && !l.contains(x) {
            assert(added(l, r).contains(x));
            let k = choose|k: int| 0 <= k < added(l, r).len() && added(l, r)[k] == x;
            assert(both[added(r, l).len() + k] == x);
        }
    }
}

/// The changed texts do not depend on which list comes first.
pub proof fn law_changed_symmetric(l: Seq<Seq<char>>, r: Seq<Seq<char>>)
    ensures
        changed(l, r) == changed(r, l),
{
    law_changed_exact(l, r);
    law_changed_exact(r, l);
    crate::lexical::lemma_lex_increasing_unique(changed(l, r), changed(r, l));
}

/// A list and itself differ in nothing.
pub proof fn law_changed_self(s: Seq<Seq<char>>)
    ensures
        changed(s, s) == Seq::<Seq<char>>::empty(),
{
    law_added_self(s);
    assert(added(s, s) + added(s, s) =~= Seq::<Seq<char>>::empty());
}

fn holds_text(b: &Vec<Vec<char>>, x: &Vec<char>) -> (r: bool)
    ensures
        r == texts_view(b@).contains(x@),
{
    let mut i: usize = 0;
    while i < b.len()
        invariant
            i <= b@.len(),
            forall|k: int| 0 <= k < i ==> texts_view(b@)[k] != x@,
        decreases b@.len() - i,
    {
        if chars_eq(b[i].as_slice(), x.as_slice()) {
            proof {
                assert(texts_view(b@)[i as int] == x@);
            }
            return true;
        }
        i += 1;
    }
    false
}

fn minus_texts(a: &Vec<Vec<char>>, b: &Vec<Vec<char>>) -> (r: Vec<Vec<char>>)
    ensures
        texts_view(r@) == minus(texts_view(a@), texts_view(b@)),
{
    let ghost av = texts_view(a@);
    let ghost bv = texts_view(b@);
    let mut out: Vec<Vec<char>> = Vec::new();
    let mut i: usize = 0;
    while i < a.len()
        invariant
            i <= a@.len(),
            av == texts_view(a@),
            bv == texts_view(b@),
            texts_view(out@) == minus(av.subrange(0, i as int), bv),
        decreases a@.len() - i,
    {
        let inb = holds_text(b, &a[i]);
        let ghost before = out@;
        if !inb {
            out.push(a[i].clone());
        }
        proof {
            let pre = av.subrange(0, i as int);
            let post = av.subrange(0, i + 1);
            assert(post.drop_last() =~= pre);
            assert(post.last() == a@[i as int]@);
            if !inb {
                assert(texts_view(out@) =~= texts_view(before).push(a@[i as int]@));
            } else {
                assert(texts_view(out@) =~= texts_view(before));
            }
            assert(texts_view(out@) =~= minus(post, bv));
        }
        i += 1;
    }
    proof {
        assert(av.subrange(0, av.len() as int) =~= av);
    }
    out
}

fn strings_of_texts(v: &Vec<Vec<char>>) -> (r: Vec<String>)
    ensures
        strings_view(r@) == texts_view(v@),
{
    let mut out: Vec<String> = Vec::new();
    let mut i: usize = 0;
    while i < v.len()
        invariant
            i <= v@.len(),
            strings_view(out@) == texts_view(v@).subrange(0, i as int),
        decreases v@.len() - i,
    {
        let s = string_of(v[i].as_slice());
        let ghost before = out@;
        out.push(s);
        proof {
            assert(strings_view(out@) =~= strings_view(before).push(v@[i as int]@));
            assert(strings_view(out@) =~= texts_view(v@).subrange(0, i + 1));
        }
        i += 1;
    }
    proof {
        assert(texts_view(v@).subrange(0, v@.len() as int) =~= texts_view(v@));
    }
    out
}

fn take_texts(v: Vec<Vec<char>>, n: usize) -> (r: Vec<Vec<char>>)
    ensures
        texts_view(r@) == take_upto(texts_view(v@), n as int),
{
    let ghost orig = v@;
    let mut v = v;
    if v.len() > n {
        v.truncate(n);
        proof {
            assert(texts_view(v@) =~= texts_view(orig).take(n as int));
        }
    }
    v
}

/// The texts `r` adds and removes relative to `l`: `(added, removed)`.
fn added_removed(l: Vec<Vec<char>>, r: Vec<Vec<char>>) -> (res: (Vec<Vec<char>>, Vec<Vec<char>>))
    ensures
        texts_view(res.0@) == added(texts_view(l@), texts_view(r@)),
        texts_view(res.1@) == added(texts_view(r@), texts_view(l@)),
{
    let ls = sorted_set_of(l);
    let rs = sorted_set_of(r);
    let a = minus_texts(&rs, &ls);
    let d = minus_texts(&ls, &rs);
    (a, d)
}

// ---------------------------------------------------------------------------
// The keys compared
// ---------------------------------------------------------------------------

/// `{module}!{symbol}`.
pub open spec fn import_key(i: ImportView) -> Seq<char> {
    i.module + "!"@ + i.symbol
}

pub open spec fn import_keys(v: Seq<ImportView>) -> Seq<Seq<char>> {
    v.map_values(|i: ImportView| import_key(i))
}

pub open spec fn export_symbols(v: Seq<ExportEntry>) -> Seq<Seq<char>> {
    v.map_values(|e: ExportEntry| e.symbol@)
}

pub open spec fn function_names(v: Seq<FunctionView>) -> Seq<Seq<char>> {
    v.map_values(|f: FunctionView| shown_name(f))
}

/// The strings that are compared: those scoring at least 0.7.
pub open spec fn notable_strings(v: Seq<ExtractedStringView>) -> Seq<Seq<char>> {
    sel(v, |s: ExtractedStringView| s.score >= 70).map_values(|s: ExtractedStringView| s.value)
}

pub open spec fn section_names(v: Seq<SectionView>) -> Seq<Seq<char>> {
    v.map_values(|s: SectionView| s.name)
}

fn import_key_list(v: &Vec<ImportEntry>) -> (r: Vec<Vec<char>>)
    ensures
        texts_view(r@) == import_keys(import_views(v@)),
{
    let mut out: Vec<Vec<char>> = Vec::new();
    let mut i: usize = 0;
    while i < v.len()
        invariant
            i <= v@.len(),
            texts_view(out@) == import_keys(import_views(v@)).subrange(0, i as int),
        decreases v@.len() - i,
    {
        let mut s = copy_string(&v[i].module);
        push_str(&mut s, "!");
        push_string(&mut s, &v[i].symbol);
        let k = str_chars(s.as_str());
        let ghost before = out@;
        out.push(k);
        proof {
            assert(texts_view(out@) =~= texts_view(before).push(k@));
            assert(texts_view(out@) =~= import_keys(import_views(v@)).subrange(0, i + 1));
        }
        i += 1;
    }
    proof {
        assert(import_keys(import_views(v@)).subrange(0, v@.len() as int) =~= import_keys(import_views(v@)));
    }
    out
}

fn export_list(v: &Vec<ExportEntry>) -> (r: Vec<Vec<char>>)
    ensures
        texts_view(r@) == export_symbols(v@),
{
    let mut out: Vec<Vec<char>> = Vec::new();
    let mut i: usize = 0;
    while i < v.len()
        invariant
            i <= v@.len(),
            texts_view(out@) == export_symbols(v@).subrange(0, i as int),
        decreases v@.len() - i,
    {
        let k = str_chars(v[i].symbol.as_str());
        let ghost before = out@;
        out.push(k);
        proof {
            assert(texts_view(out@) =~= texts_view(before).push(k@));
            assert(texts_view(out@) =~= export_symbols(v@).subrange(0, i + 1));
        }
        i += 1;
    }
    proof {
        assert(export_symbols(v@).subrange(0, v@.len() as int) =~= export_symbols(v@));
    }
    out
}

fn function_list(v: &Vec<FunctionAnalysis>) -> (r: Vec<Vec<char>>)
    ensures
        texts_view(r@) == function_names(function_views(v@)),
{
    let mut out: Vec<Vec<char>> = Vec::new();
    let mut i: usize = 0;
    while i < v.len()
        invariant
            i <= v@.len(),
            texts_view(out@) == function_names(function_views(v@)).subrange(0, i as int),
        decreases v@.len() - i,
    {
        let k = match &v[i].suggested_name {
            Some(s) => str_chars(s.as_str()),
            None => str_chars(v[i].name.as_str()),
        };
        let ghost before = out@;
        out.push(k);
        proof {
            assert(texts_view(out@) =~= texts_view(before).push(k@));
            assert(texts_view(out@) =~= function_names(function_views(v@)).subrange(0, i + 1));
        }
        i += 1;
    }
    proof {
        assert(function_names(function_views(v@)).subrange(0, v@.len() as int) =~= function_names(
            function_views(v@),
        ));
    }
    out
}

fn notable_list(v: &Vec<ExtractedString>) -> (r: Vec<Vec<char>>)
    ensures
        texts_view(r@) == notable_strings(string_views(v@)),
{
    let ghost sv = string_views(v@);
    let mut out: Vec<Vec<char>> = Vec::new();
    let mut i: usize = 0;
    while i < v.len()
        invariant
            i <= v@.len(),
            sv == string_views(v@),
            texts_view(out@) == notable_strings(sv.subrange(0, i as int)),
        decreases v@.len() - i,
    {
        let ghost before = out@;
        if v[i].score >= 70 {
            let k = str_chars(v[i].value.as_str());
            out.push(k);
            proof {
                assert(texts_view(out@) =~= texts_view(before).push(k@));
            }
        }
        proof {
            let pre = sv.subrange(0, i as int);
            let post = sv.subrange(0, i + 1);
            assert(post.drop_last() =~= pre);
            let p = |s: ExtractedStringView| s.score >= 70;
            assert(sel(post, p) == sel(pre, p) + one_if(p(sv[i as int]), sv[i as int]));
            let f = |s: ExtractedStringView| s.value;
            assert(sel(post, p).map_values(f) =~= sel(pre, p).map_values(f) + one_if(
                p(sv[i as int]),
                sv[i as int],
            ).map_values(f));
            assert(texts_view(out@) =~= notable_strings(post));
        }
        i += 1;
    }
    proof {
        assert(sv.subrange(0, sv.len() as int) =~= sv);
    }
    out
}

fn section_list(v: &Vec<SectionInfo>) -> (r: Vec<Vec<char>>)
    ensures
        texts_view(r@) == section_names(section_views(v@)),
{
    let mut out: Vec<Vec<char>> = Vec::new();
    let mut i: usize = 0;
    while i < v.len()
        invariant
            i <= v@.len(),
            texts_view(out@) == section_names(section_views(v@)).subrange(0, i as int),
        decreases v@.len() - i,
    {
        let k = str_chars(v[i].name.as_str());
        let ghost before = out@;
        out.push(k);
        proof {
            assert(texts_view(out@) =~= texts_view(before).push(k@));
            assert(texts_view(out@) =~= section_names(section_views(v@)).subrange(0, i + 1));
        }
        i += 1;
    }
    proof {
        assert(section_names(section_views(v@)).subrange(0, v@.len() as int) =~= section_names(
            section_views(v@),
        ));
    }
    out
}

// ---------------------------------------------------------------------------
// Report diff
// ---------------------------------------------------------------------------

/// What changed between two analysed binaries.
#[derive(Debug, Clone)]
pub struct BinaryDiff {
    pub left_sha256: String,
    pub right_sha256: String,
    pub size_delta: i64,
    pub identical: bool,
    /// The share of differing bytes, in hundredths.
    pub byte_diff_ratio: u32,
    pub section_changes: Vec<String>,
    pub import_added: Vec<String>,
    pub import_removed: Vec<String>,
    pub export_added: Vec<String>,
    pub export_removed: Vec<String>,
    pub function_added: Vec<String>,
    pub function_removed: Vec<String>,
    pub string_added: Vec<String>,
    pub string_removed: Vec<String>,
    pub malware_delta: String,
    pub summary: String,
}

/// The most added or removed strings listed.
pub open spec fn string_change_limit() -> int {
    50
}

/// The byte length of the hash prefix shown in the summary: twelve, or the
/// whole hash where it is shorter.
pub open spec fn head_len(s: Seq<char>) -> int {
    let n = utf8(s).len();
    if n < 12 {
        n as int
    } else {
        12
    }
}

/// The hash can be cut after its first twelve bytes.
pub open spec fn head_ok(s: Seq<char>) -> bool {
    is_char_boundary(utf8(s), head_len(s))
}

/// The first twelve bytes of the hash, as text.
pub open spec fn sha_head(s: Seq<char>) -> Seq<char> {
    decode_utf8(utf8(s).subrange(0, head_len(s)))
}

/// `{family:?}/{percent}% → {family:?}/{percent}%`.
pub open spec fn spec_malware_delta(l: MalwareView, r: MalwareView) -> Seq<char> {
    family_name(l.family) + "/"@ + dec_of(l.malware_probability as nat) + "% → "@ + family_name(
        r.family,
    ) + "/"@ + dec_of(r.malware_probability as nat) + "%"@
}

/// The one-line summary of a diff.
pub open spec fn spec_diff_summary(
    ls: Seq<char>,
    rs: Seq<char>,
    imports_added: nat,
    imports_removed: nat,
    functions_added: nat,
    functions_removed: nat,
    sections_changed: nat,
    delta: Seq<char>,
) -> Seq<char> {
    "Diff "@ + sha_head(ls) + " vs "@ + sha_head(rs) + ": +"@ + dec_of(imports_added)
        + " imports, -"@ + dec_of(imports_removed) + " imports, +"@ + dec_of(functions_added)
        + " functions, -"@ + dec_of(functions_removed) + " functions, sectionsΔ="@ + dec_of(
        sections_changed,
    ) + ", malware "@ + delta
}

fn sha_head_exec(s: &String) -> (r: String)
    requires
        head_ok(s@),
    ensures
        r@ == sha_head(s@),
{
    let st = s.as_str();
    let n = st.as_bytes().len();
    let k: usize = if n < 12 { n } else { 12 };
    let (head, _) = st.split_at(k);
    proof {
        assert(head.spec_bytes() == utf8(s@).subrange(0, k as int));
        vstd::utf8::encode_utf8_decode_utf8(head@);
    }
    owned(head)
}

fn malware_delta_text(left: &AnalysisReport, right: &AnalysisReport) -> (r: String)
    ensures
        r@ == spec_malware_delta(left.malware@, right.malware@),
{
    let mut s = owned(left.malware.family.name());
    push_str(&mut s, "/");
    push_dec(&mut s, left.malware.malware_probability as u64);
    push_str(&mut s, "% → ");
    push_str(&mut s, right.malware.family.name());
    push_str(&mut s, "/");
    push_dec(&mut s, right.malware.malware_probability as u64);
    push_str(&mut s, "%");
    s
}

fn summary_text(
    left: &String,
    right: &String,
    ia: usize,
    ir: usize,
    fa: usize,
    fr: usize,
    sc: usize,
    delta: &String,
) -> (r: String)
    requires
        head_ok(left@),
        head_ok(right@),
    ensures
        r@ == spec_diff_summary(left@, right@, ia as nat, ir as nat, fa as nat, fr as nat, sc as nat, delta@),
{
    let mut s = owned("Diff ");
    let lh = sha_head_exec(left);
    push_string(&mut s, &lh);
    push_str(&mut s, " vs ");
    let rh = sha_head_exec(right);
    push_string(&mut s, &rh);
    push_str(&mut s, ": +");
    push_dec(&mut s, ia as u64);
    push_str(&mut s, " imports, -");
    push_dec(&mut s, ir as u64);
    push_str(&mut s, " imports, +");
    push_dec(&mut s, fa as u64);
    push_str(&mut s, " functions, -");
    push_dec(&mut s, fr as u64);
    push_str(&mut s, " functions, sectionsΔ=");
    push_dec(&mut s, sc as u64);
    push_str(&mut s, ", malware ");
    push_string(&mut s, delta);
    s
}

/// The texts in exactly one of `l` and `r`, sorted.
fn changed_texts(l: Vec<Vec<char>>, r: Vec<Vec<char>>) -> (res: Vec<Vec<char>>)
    ensures
        texts_view(res@) == changed(texts_view(l@), texts_view(r@)),
{
    let (a, d) = added_removed(l, r);
    let mut both = d;
    let ghost dv = texts_view(both@);
    let mut k: usize = 0;
    while k < a.len()
        invariant
            k <= a@.len(),
            texts_view(both@) == dv + texts_view(a@).subrange(0, k as int),
        decreases a@.len() - k,
    {
        let ghost before = both@;
        both.push(a[k].clone());
        proof {
            assert(texts_view(both@) =~= texts_view(before).push(a@[k as int]@));
            assert(texts_view(a@).subrange(0, k + 1) =~= texts_view(a@).subrange(0, k as int).push(
                a@[k as int]@,
            ));
        }
        k += 1;
    }
    proof {
        assert(texts_view(a@).subrange(0, a@.len() as int) =~= texts_view(a@));
    }
    sorted_set_of(both)
}

/// What `diff_reports` gives for the two reports: the hashes and size
/// change, the sorted added and removed imports, exports, functions and
/// notable strings, the changed section names, the malware verdict change
/// and the summary line.
pub open spec fn describes_diff(left: AnalysisReport, right: AnalysisReport, d: BinaryDiff) -> bool {
    &&& d.left_sha256@ == left.hashes.sha256@
    &&& d.right_sha256@ == right.hashes.sha256@
    &&& d.size_delta == right.size_bytes - left.size_bytes
    &&& d.identical == (left.hashes.sha256@ == right.hashes.sha256@)
    &&& d.byte_diff_ratio == (if d.identical { 0u32 } else { 35u32 })
    &&& strings_view(d.section_changes@) == changed(
        section_names(section_views(left.sections@)),
        section_names(section_views(right.sections@)),
    )
    &&& strings_view(d.import_added@) == added(
        import_keys(import_views(left.imports@)),
        import_keys(import_views(right.imports@)),
    )
    &&& strings_view(d.import_removed@) == added(
        import_keys(import_views(right.imports@)),
        import_keys(import_views(left.imports@)),
    )
    &&& strings_view(d.export_added@) == added(export_symbols(left.exports@), export_symbols(right.exports@))
    &&& strings_view(d.export_removed@) == added(export_symbols(right.exports@), export_symbols(left.exports@))
    &&& strings_view(d.function_added@) == added(
        function_names(function_views(left.functions@)),
        function_names(function_views(right.functions@)),
    )
    &&& strings_view(d.function_removed@) == added(
        function_names(function_views(right.functions@)),
        function_names(function_views(left.functions@)),
    )
    &&& strings_view(d.string_added@) == take_upto(
        added(notable_strings(string_views(left.strings@)), notable_strings(string_views(right.strings@))),
        string_change_limit(),
    )
    &&& strings_view(d.string_removed@) == take_upto(
        added(notable_strings(string_views(right.strings@)), notable_strings(string_views(left.strings@))),
        string_change_limit(),
    )
    &&& d.malware_delta@ == spec_malware_delta(left.malware@, right.malware@)
    &&& d.summary@ == spec_diff_summary(
        left.hashes.sha256@,
        right.hashes.sha256@,
        d.import_added@.len(),
        d.import_removed@.len(),
        d.function_added@.len(),
        d.function_removed@.len(),
        d.section_changes@.len(),
        d.malware_delta@,
    )
}

/// Comparing the reports the other way round swaps what was added with what
/// was removed, keeps the changed sections and whether they are identical,
/// and negates the size change.
pub proof fn law_diff_reports_swapped(a: AnalysisReport, b: AnalysisReport, d1: BinaryDiff, d2: BinaryDiff)
    requires
        describes_diff(a, b, d1),
        describes_diff(b, a, d2),
    ensures
        strings_view(d1.import_added@) == strings_view(d2.import_removed@),
        strings_view(d1.import_removed@) == strings_view(d2.import_added@),
        strings_view(d1.export_added@) == strings_view(d2.export_removed@),
        strings_view(d1.export_removed@) == strings_view(d2.export_added@),
        strings_view(d1.function_added@) == strings_view(d2.function_removed@),
        strings_view(d1.function_removed@) == strings_view(d2.function_added@),
        strings_view(d1.string_added@) == strings_view(d2.string_removed@),
        strings_view(d1.string_removed@) == strings_view(d2.string_added@),
        strings_view(d1.section_changes@) == strings_view(d2.section_changes@),
        d1.size_delta == -d2.size_delta,
        d1.identical == d2.identical,
        d1.byte_diff_ratio == d2.byte_diff_ratio,
{
    law_changed_symmetric(
        section_names(section_views(a.sections@)),
        section_names(section_views(b.sections@)),
    );
}

/// A report compared with itself is identical: nothing added, removed or
/// changed, and no size change.
pub proof fn law_diff_reports_self(a: AnalysisReport, d: BinaryDiff)
    requires
        describes_diff(a, a, d),
    ensures
        d.identical,
        d.byte_diff_ratio == 0,
        d.size_delta == 0,
        d.section_changes@.len() == 0,
        d.import_added@.len() == 0,
        d.import_removed@.len() == 0,
        d.export_added@.len() == 0,
        d.export_removed@.len() == 0,
        d.function_added@.len() == 0,
        d.function_removed@.len() == 0,
        d.string_added@.len() == 0,
        d.string_removed@.len() == 0,
{
    law_changed_self(section_names(section_views(a.sections@)));
    law_added_self(import_keys(import_views(a.imports@)));
    law_added_self(export_symbols(a.exports@));
    law_added_self(function_names(function_views(a.functions@)));
    law_added_self(notable_strings(string_views(a.strings@)));
    assert(strings_view(d.section_changes@).len() == d.section_changes@.len());
    assert(strings_view(d.string_added@).len() == d.string_added@.len());
    assert(strings_view(d.string_removed@).len() == d.string_removed@.len());
}

/// What changed from the `left` report to the `right` one. Imports are
/// compared as `module!symbol`, functions by the name they are shown under,
/// strings where they score at least 0.7 (fifty at most each way). Lists
/// come sorted and without duplicates. Without the raw bytes, different
/// hashes are estimated as 35% of bytes differing.
pub fn diff_reports(left: &AnalysisReport, right: &AnalysisReport) -> (d: BinaryDiff)
    requires
        head_ok(left.hashes.sha256@),
        head_ok(right.hashes.sha256@),
        left.size_bytes <= i64::MAX,
        right.size_bytes <= i64::MAX,
    ensures
        describes_diff(*left, *right, d),
{
    let lc = str_chars(left.hashes.sha256.as_str());
    let rc = str_chars(right.hashes.sha256.as_str());
    let identical = chars_eq(lc.as_slice(), rc.as_slice());
    let ratio: u32 = if identical { 0 } else { 35 };

    let sections = changed_texts(section_list(&left.sections), section_list(&right.sections));
    let (ia, ir) = added_removed(import_key_list(&left.imports), import_key_list(&right.imports));
    let (ea, er) = added_removed(export_list(&left.exports), export_list(&right.exports));
    let (fa, fr) = added_removed(function_list(&left.functions), function_list(&right.functions));
    let (sa, sr) = added_removed(notable_list(&left.strings), notable_list(&right.strings));
    let sa = take_texts(sa, 50);
    let sr = take_texts(sr, 50);

    let section_changes = strings_of_texts(&sections);
    let import_added = strings_of_texts(&ia);
    let import_removed = strings_of_texts(&ir);
    let function_added = strings_of_texts(&fa);
    let function_removed = strings_of_texts(&fr);
    let malware_delta = malware_delta_text(left, right);
    let summary = summary_text(
        &left.hashes.sha256,
        &right.hashes.sha256,
        import_added.len(),
        import_removed.len(),
        function_added.len(),
        function_removed.len(),
        section_changes.len(),
        &malware_delta,
    );
    BinaryDiff {
        left_sha256: copy_string(&left.hashes.sha256),
        right_sha256: copy_string(&right.hashes.sha256),
        size_delta: right.size_bytes as i64 - left.size_bytes as i64,
        identical,
        byte_diff_ratio: ratio,
        section_changes,
        import_added,
        import_removed,
        export_added: strings_of_texts(&ea),
        export_removed: strings_of_texts(&er),
        function_added,
        function_removed,
        string_added: strings_of_texts(&sa),
        string_removed: strings_of_texts(&sr),
        malware_delta,
        summary,
    }
}

/// Lowercase hexadecimal SHA-256 of the bytes.
pub fn content_hash(bytes: &[u8]) -> (r: String)
    ensures
        r@ == crate::hasher::hex_encode(crate::hasher::sha256_digest(bytes@)),
{
    let d = crate::hasher::sha256(bytes);
    crate::hasher::hex_encode_bytes(d.as_slice())
}

// ---------------------------------------------------------------------------
// Snapshots
// ---------------------------------------------------------------------------

/// A labelled copy of a report, taken at some moment.
#[derive(Debug, Clone)]
pub struct AnalysisSnapshot {
    pub id: String,
    pub analysis_id: String,
    pub label: String,
    pub created_at: String,
    pub report: AnalysisReport,
}

/// A snapshot of the report under the label, with a fresh identifier and the
/// current time: the snapshot holds a deep copy of the report.
pub fn snapshot(report: &AnalysisReport, label: String) -> (s: AnalysisSnapshot)
    ensures
        s.analysis_id@ == report.id@,
        s.label@ == label@,
        report.same(&s.report),
{
    AnalysisSnapshot {
        id: crate::ids::new_id(),
        analysis_id: copy_string(&report.id),
        label,
        created_at: crate::reports::now_rfc3339(),
        report: report.deep_copy(),
    }
}

} // verus!
