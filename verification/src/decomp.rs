//! Decompilation backends and language-structure detection.
//!
//! The built-in pseudocode always runs; the external tools (Ghidra, rizin,
//! radare2, Keystone) run outside this library where installed, and what
//! they report is recorded here.
use vstd::prelude::*;
use crate::chat::{shown_name, text_or};
use crate::compiler::{lossy_string, utf8_lossy};
use crate::crypto_detect::one_if;
use crate::model::{function_views, FunctionAnalysis, FunctionView};
use crate::order::{lemma_sort_by_keys_view, sort_desc, sort_desc_by_keys};
use crate::pseudocode::{from_assembly_preview, spec_pseudocode};
use crate::strings::take_upto;
use crate::text::{
    contains_seq, copy_opt_string, copy_string, has, opt_view, owned, push_str, push_string,
    str_chars, string_of, strings_view, trim,
};

verus! {

// ---------------------------------------------------------------------------
// Language structures
// ---------------------------------------------------------------------------

/// A language whose traces the bytes hold; confidence in hundredths.
#[derive(Debug, Clone)]
pub struct LanguageHit {
    pub language: String,
    pub confidence: u32,
    pub evidence: String,
}

pub struct LanguageHitView {
    pub language: Seq<char>,
    pub confidence: u32,
    pub evidence: Seq<char>,
}

impl View for LanguageHit {
    type V = LanguageHitView;

    open spec fn view(&self) -> LanguageHitView {
        LanguageHitView { language: self.language@, confidence: self.confidence, evidence: self.evidence@ }
    }
}

pub open spec fn hit_views(v: Seq<LanguageHit>) -> Seq<LanguageHitView> {
    v.map_values(|h: LanguageHit| h@)
}

pub open spec fn hit(language: Seq<char>, confidence: u32, evidence: Seq<char>) -> LanguageHitView {
    LanguageHitView { language, confidence, evidence }
}

/// The hits of the first five rules (C, C++, Rust, Go, Python).
pub open spec fn native_candidates(t: Seq<char>) -> Seq<LanguageHitView> {
    let has = |m: Seq<char>| contains_seq(t, m);
    one_if(has("#include <"@) || has("int main("@), hit("c"@, 70, "C markers"@))
        + one_if(has("std::"@) || has("#include <iostream>"@), hit("cpp"@, 75, "C++ markers"@))
        + one_if(has("fn main("@) || (has("impl "@) && has("pub "@)), hit("rust"@, 80, "Rust markers"@))
        + one_if(has("package main"@) || has("func main("@), hit("go"@, 80, "Go markers"@))
        + one_if((has("def "@) && has("import "@)) || has("PyObject"@), hit("python"@, 75, "Python markers"@))
}

/// The hits of the last five rules (JavaScript, Java, Kotlin, Swift, LLVM IR).
pub open spec fn managed_candidates(t: Seq<char>) -> Seq<LanguageHitView> {
    let has = |m: Seq<char>| contains_seq(t, m);
    one_if(has("function("@) || has("=> {"@) || has("node_modules"@), hit("javascript"@, 70, "JavaScript markers"@))
        + one_if(has("public static void main"@) || has("Ljava/"@), hit("java"@, 75, "Java markers"@))
        + one_if(has("fun main("@) || has("kotlin/"@), hit("kotlin"@, 70, "Kotlin markers"@))
        + one_if(has("import Foundation"@) || has("@objc"@), hit("swift"@, 70, "Swift markers"@))
        + one_if((has("define "@) && has("i32 @"@)) || has("; ModuleID"@), hit("llvm_ir"@, 85, "LLVM IR markers"@))
}

/// The languages whose markers occur in the text, in rule order.
pub open spec fn language_candidates(t: Seq<char>) -> Seq<LanguageHitView> {
    native_candidates(t) + managed_candidates(t)
}

pub open spec fn hit_key(h: LanguageHitView) -> int {
    h.confidence as int
}

/// The languages the bytes (decoded lossily) show markers of, most
/// confident first; equal confidences keep rule order.
pub open spec fn spec_scan(data: Seq<u8>) -> Seq<LanguageHitView> {
    sort_desc(language_candidates(utf8_lossy(data)), |h: LanguageHitView| hit_key(h))
}

/// No two hits of `s` name the same language.
pub open spec fn languages_distinct(s: Seq<LanguageHitView>) -> bool {
    forall|i: int, j: int| 0 <= i < s.len() && 0 <= j < s.len() && i != j ==> s[i].language != s[j].language
}

proof fn lemma_extend_distinct(s: Seq<LanguageHitView>, c: bool, x: LanguageHitView, seen: Set<Seq<char>>)
    requires
        languages_distinct(s),
        forall|k: int| 0 <= k < s.len() ==> seen.contains(#[trigger] s[k].language),
        !seen.contains(x.language),
    ensures
        languages_distinct(s + one_if(c, x)),
        forall|k: int|
            0 <= k < (s + one_if(c, x)).len() ==> seen.insert(x.language).contains(
                #[trigger] (s + one_if(c, x))[k].language,
            ),
{
}

proof fn lemma_concat_distinct(a: Seq<LanguageHitView>, b: Seq<LanguageHitView>, la: Set<Seq<char>>, lb: Set<Seq<char>>)
    requires
        languages_distinct(a),
        languages_distinct(b),
        forall|k: int| 0 <= k < a.len() ==> la.contains(#[trigger] a[k].language),
        forall|k: int| 0 <= k < b.len() ==> lb.contains(#[trigger] b[k].language),
        la.disjoint(lb),
    ensures
        languages_distinct(a + b),
{
    assert forall|i: int, j: int| 0 <= i < (a + b).len() && 0 <= j < (a + b).len() && i != j implies (a
        + b)[i].language != (a + b)[j].language by {
        if i < a.len() && j >= a.len() {
            assert(la.contains(a[i].language));
            assert(lb.contains(b[j - a.len()].language));
        } else if j < a.len() && i >= a.len() {
            assert(la.contains(a[j].language));
            assert(lb.contains(b[i - a.len()].language));
        } else if i < a.len() {
            assert((a + b)[i] == a[i] && (a + b)[j] == a[j]);
        } else {
            assert((a + b)[i] == b[i - a.len()] && (a + b)[j] == b[j - a.len()]);
        }
    }
}

pub open spec fn native_languages() -> Set<Seq<char>> {
    set!["c"@, "cpp"@, "rust"@, "go"@, "python"@]
}

pub open spec fn managed_languages() -> Set<Seq<char>> {
    set!["javascript"@, "java"@, "kotlin"@, "swift"@, "llvm_ir"@]
}

proof fn lemma_native_distinct(t: Seq<char>)
    ensures
        languages_distinct(native_candidates(t)),
        forall|k: int|
            0 <= k < native_candidates(t).len() ==> native_languages().contains(
                #[trigger] native_candidates(t)[k].language,
            ),
{
    reveal_strlit("c");
    reveal_strlit("cpp");
    reveal_strlit("rust");
    reveal_strlit("go");
    reveal_strlit("python");
    let has = |m: Seq<char>| contains_seq(t, m);
    let e = Seq::<LanguageHitView>::empty();
    let h1 = hit("c"@, 70, "C markers"@);
    let h2 = hit("cpp"@, 75, "C++ markers"@);
    let h3 = hit("rust"@, 80, "Rust markers"@);
    let h4 = hit("go"@, 80, "Go markers"@);
    let h5 = hit("python"@, 75, "Python markers"@);
    let a1 = one_if(has("#include <"@) || has("int main("@), h1);
    let a2 = a1 + one_if(has("std::"@) || has("#include <iostream>"@), h2);
    let a3 = a2 + one_if(has("fn main("@) || (has("impl "@) && has("pub "@)), h3);
    let a4 = a3 + one_if(has("package main"@) || has("func main("@), h4);
    let a5 = a4 + one_if((has("def "@) && has("import "@)) || has("PyObject"@), h5);
    let l1 = Set::<Seq<char>>::empty().insert(h1.language);
    let l2 = l1.insert(h2.language);
    let l3 = l2.insert(h3.language);
    let l4 = l3.insert(h4.language);
    assert(languages_distinct(a1));
    assert(!l1.contains(h2.language)) by {
        assert(h2.language.len() != h1.language.len());
    }
    lemma_extend_distinct(a1, has("std::"@) || has("#include <iostream>"@), h2, l1);
    assert(!l2.contains(h3.language)) by {
        assert(h3.language.len() != h1.language.len());
        assert(h3.language.len() != h2.language.len());
    }
    lemma_extend_distinct(a2, has("fn main("@) || (has("impl "@) && has("pub "@)), h3, l2);
    assert(!l3.contains(h4.language)) by {
        assert(h4.language.len() != h1.language.len());
        assert(h4.language.len() != h2.language.len());
        assert(h4.language.len() != h3.language.len());
    }
    lemma_extend_distinct(a3, has("package main"@) || has("func main("@), h4, l3);
    assert(!l4.contains(h5.language)) by {
        assert(h5.language.len() != h1.language.len());
        assert(h5.language.len() != h2.language.len());
        assert(h5.language.len() != h3.language.len());
        assert(h5.language.len() != h4.language.len());
    }
    lemma_extend_distinct(a4, (has("def "@) && has("import "@)) || has("PyObject"@), h5, l4);
    assert(l4.insert(h5.language) =~= native_languages());
}

proof fn lemma_managed_distinct(t: Seq<char>)
    ensures
        languages_distinct(managed_candidates(t)),
        forall|k: int|
            0 <= k < managed_candidates(t).len() ==> managed_languages().contains(
                #[trigger] managed_candidates(t)[k].language,
            ),
{
    reveal_strlit("javascript");
    reveal_strlit("java");
    reveal_strlit("kotlin");
    reveal_strlit("swift");
    reveal_strlit("llvm_ir");
    let has = |m: Seq<char>| contains_seq(t, m);
    let h1 = hit("javascript"@, 70, "JavaScript markers"@);
    let h2 = hit("java"@, 75, "Java markers"@);
    let h3 = hit("kotlin"@, 70, "Kotlin markers"@);
    let h4 = hit("swift"@, 70, "Swift markers"@);
    let h5 = hit("llvm_ir"@, 85, "LLVM IR markers"@);
    let a1 = one_if(has("function("@) || has("=> {"@) || has("node_modules"@), h1);
    let a2 = a1 + one_if(has("public static void main"@) || has("Ljava/"@), h2);
    let a3 = a2 + one_if(has("fun main("@) || has("kotlin/"@), h3);
    let a4 = a3 + one_if(has("import Foundation"@) || has("@objc"@), h4);
    let l1 = Set::<Seq<char>>::empty().insert(h1.language);
    let l2 = l1.insert(h2.language);
    let l3 = l2.insert(h3.language);
    let l4 = l3.insert(h4.language);
    assert(languages_distinct(a1));
    assert(!l1.contains(h2.language)) by {
        assert(h2.language.len() != h1.language.len());
    }
    lemma_extend_distinct(a1, has("public static void main"@) || has("Ljava/"@), h2, l1);
    assert(!l2.contains(h3.language)) by {
        assert(h3.language.len() != h1.language.len());
        assert(h3.language.len() != h2.language.len());
    }
    lemma_extend_distinct(a2, has("fun main("@) || has("kotlin/"@), h3, l2);
    assert(!l3.contains(h4.language)) by {
        assert(h4.language.len() != h1.language.len());
        assert(h4.language.len() != h2.language.len());
        assert(h4.language.len() != h3.language.len());
    }
    lemma_extend_distinct(a3, has("import Foundation"@) || has("@objc"@), h4, l3);
    assert(!l4.contains(h5.language)) by {
        assert(h5.language.len() != h1.language.len());
        assert(h5.language.len() != h2.language.len());
        assert(h5.language.len() != h3.language.len());
        assert(h5.language.len() != h4.language.len());
    }
    lemma_extend_distinct(a4, (has("define "@) && has("i32 @"@)) || has("; ModuleID"@), h5, l4);
    assert(l4.insert(h5.language) =~= managed_languages());
}

proof fn lemma_candidates_distinct(t: Seq<char>)
    ensures
        languages_distinct(language_candidates(t)),
{
    lemma_native_distinct(t);
    lemma_managed_distinct(t);
    assert(native_languages().disjoint(managed_languages())) by {
        reveal_strlit("c");
        reveal_strlit("cpp");
        reveal_strlit("rust");
        reveal_strlit("go");
        reveal_strlit("python");
        reveal_strlit("javascript");
        reveal_strlit("java");
        reveal_strlit("kotlin");
        reveal_strlit("swift");
        reveal_strlit("llvm_ir");
        assert("rust"@[0] != "java"@[0]);
        assert("python"@[0] != "kotlin"@[0]);
        assert forall|x: Seq<char>| native_languages().contains(x) implies !managed_languages().contains(x) by {
            if x.len() == 4 {
                assert(x[0] == 'r');
            }
            if x.len() == 6 {
                assert(x[0] == 'p');
            }
        }
    }
    lemma_concat_distinct(
        native_candidates(t),
        managed_candidates(t),
        native_languages(),
        managed_languages(),
    );
}

/// The scan lists its hits most confident first, names each language at
/// most once, and holds exactly the hits whose markers occur in the lossily
/// decoded bytes.
pub proof fn law_scan_sorted_distinct(data: Seq<u8>)
    ensures
        crate::order::is_sorted_desc(spec_scan(data), |h: LanguageHitView| hit_key(h)),
        languages_distinct(spec_scan(data)),
        forall|h: LanguageHitView|
            spec_scan(data).contains(h) <==> language_candidates(utf8_lossy(data)).contains(h),
{
    broadcast use vstd::seq_lib::group_to_multiset_ensures;

    let c = language_candidates(utf8_lossy(data));
    let key = |h: LanguageHitView| hit_key(h);
    let r = spec_scan(data);
    crate::order::law_sort_desc_sorted_permutation(c, key);
    lemma_candidates_distinct(utf8_lossy(data));
    assert(c.no_duplicates());
    c.lemma_multiset_has_no_duplicates();
    r.lemma_multiset_has_no_duplicates_conv();
    assert forall|h: LanguageHitView| r.contains(h) <==> c.contains(h) by {
        assert(r.to_multiset().contains(h) == c.to_multiset().contains(h));
    }
    assert forall|i: int, j: int| 0 <= i < r.len() && 0 <= j < r.len() && i != j implies r[i].language
        != r[j].language by {
        assert(r.contains(r[i]));
        assert(r.contains(r[j]));
        let ci = choose|k: int| 0 <= k < c.len() && c[k] == r[i];
        let cj = choose|k: int| 0 <= k < c.len() && c[k] == r[j];
        assert(r[i] != r[j]);
    }
}

proof fn lemma_contains_split(a: Seq<LanguageHitView>, b: Seq<LanguageHitView>, x: LanguageHitView)
    ensures
        (a + b).contains(x) <==> (a.contains(x) || b.contains(x)),
{
    if (a + b).contains(x) {
        let k = choose|k: int| 0 <= k < (a + b).len() && (a + b)[k] == x;
        if k < a.len() {
            assert(a[k] == x);
        } else {
            assert(b[k - a.len()] == x);
        }
    }
    if a.contains(x) {
        let k = choose|k: int| 0 <= k < a.len() && a[k] == x;
        assert((a + b)[k] == x);
    }
    if b.contains(x) {
        let k = choose|k: int| 0 <= k < b.len() && b[k] == x;
        assert((a + b)[a.len() + k] == x);
    }
}

proof fn lemma_one_if_other(c: bool, h: LanguageHitView, x: LanguageHitView)
    requires
        h.language.len() != x.language.len(),
    ensures
        !one_if(c, h).contains(x),
{
    if one_if(c, h).contains(x) {
        let k = choose|k: int| 0 <= k < one_if(c, h).len() && one_if(c, h)[k] == x;
        assert(one_if(c, h)[k] == h);
    }
}

/// Go is reported, as `go` at 0.8 with the evidence `Go markers`, exactly
/// when the lossily decoded bytes contain `package main` or `func main(`.
pub proof fn law_scan_go(data: Seq<u8>)
    ensures
        spec_scan(data).contains(hit("go"@, 80, "Go markers"@)) <==> (contains_seq(
            utf8_lossy(data),
            "package main"@,
        ) || contains_seq(utf8_lossy(data), "func main("@)),
{
    law_scan_sorted_distinct(data);
    let t = utf8_lossy(data);
    let has = |m: Seq<char>| contains_seq(t, m);
    let go = hit("go"@, 80, "Go markers"@);
    reveal_strlit("c");
    reveal_strlit("cpp");
    reveal_strlit("rust");
    reveal_strlit("go");
    reveal_strlit("python");
    reveal_strlit("javascript");
    reveal_strlit("java");
    reveal_strlit("kotlin");
    reveal_strlit("swift");
    reveal_strlit("llvm_ir");
    let o1 = one_if(has("#include <"@) || has("int main("@), hit("c"@, 70, "C markers"@));
    let o2 = one_if(has("std::"@) || has("#include <iostream>"@), hit("cpp"@, 75, "C++ markers"@));
    let o3 = one_if(has("fn main("@) || (has("impl "@) && has("pub "@)), hit("rust"@, 80, "Rust markers"@));
    let o4 = one_if(has("package main"@) || has("func main("@), go);
    let o5 = one_if((has("def "@) && has("import "@)) || has("PyObject"@), hit("python"@, 75, "Python markers"@));
    let m1 = one_if(has("function("@) || has("=> {"@) || has("node_modules"@), hit("javascript"@, 70, "JavaScript markers"@));
    let m2 = one_if(has("public static void main"@) || has("Ljava/"@), hit("java"@, 75, "Java markers"@));
    let m3 = one_if(has("fun main("@) || has("kotlin/"@), hit("kotlin"@, 70, "Kotlin markers"@));
    let m4 = one_if(has("import Foundation"@) || has("@objc"@), hit("swift"@, 70, "Swift markers"@));
    let m5 = one_if((has("define "@) && has("i32 @"@)) || has("; ModuleID"@), hit("llvm_ir"@, 85, "LLVM IR markers"@));
    lemma_contains_split(native_candidates(t), managed_candidates(t), go);
    lemma_contains_split(o1 + o2 + o3 + o4, o5, go);
    lemma_contains_split(o1 + o2 + o3, o4, go);
    lemma_contains_split(o1 + o2, o3, go);
    lemma_contains_split(o1, o2, go);
    lemma_contains_split(m1 + m2 + m3 + m4, m5, go);
    lemma_contains_split(m1 + m2 + m3, m4, go);
    lemma_contains_split(m1 + m2, m3, go);
    lemma_contains_split(m1, m2, go);
    lemma_one_if_other(has("#include <"@) || has("int main("@), hit("c"@, 70, "C markers"@), go);
    lemma_one_if_other(has("std::"@) || has("#include <iostream>"@), hit("cpp"@, 75, "C++ markers"@), go);
    lemma_one_if_other(has("fn main("@) || (has("impl "@) && has("pub "@)), hit("rust"@, 80, "Rust markers"@), go);
    lemma_one_if_other((has("def "@) && has("import "@)) || has("PyObject"@), hit("python"@, 75, "Python markers"@), go);
    lemma_one_if_other(has("function("@) || has("=> {"@) || has("node_modules"@), hit("javascript"@, 70, "JavaScript markers"@), go);
    lemma_one_if_other(has("public static void main"@) || has("Ljava/"@), hit("java"@, 75, "Java markers"@), go);
    lemma_one_if_other(has("fun main("@) || has("kotlin/"@), hit("kotlin"@, 70, "Kotlin markers"@), go);
    lemma_one_if_other(has("import Foundation"@) || has("@objc"@), hit("swift"@, 70, "Swift markers"@), go);
    lemma_one_if_other((has("define "@) && has("i32 @"@)) || has("; ModuleID"@), hit("llvm_ir"@, 85, "LLVM IR markers"@), go);
    assert(native_candidates(t) == o1 + o2 + o3 + o4 + o5);
    assert(managed_candidates(t) == m1 + m2 + m3 + m4 + m5);
    assert(o4.contains(go) <==> (has("package main"@) || has("func main("@))) by {
        if has("package main"@) || has("func main("@) {
            assert(o4[0] == go);
        }
    }
}

fn push_hit(out: &mut Vec<LanguageHit>, cond: bool, language: &str, confidence: u32, evidence: &str)
    ensures
        hit_views(final(out)@) == hit_views(old(out)@) + one_if(cond, hit(language@, confidence, evidence@)),
{
    let ghost before = out@;
    if cond {
        let h = LanguageHit { language: owned(language), confidence, evidence: owned(evidence) };
        out.push(h);
        proof {
            assert(hit_views(out@) =~= hit_views(before) + seq![h@]);
        }
    } else {
        proof {
            assert(hit_views(out@) =~= hit_views(before) + Seq::<LanguageHitView>::empty());
        }
    }
}

fn native_hits(t: &[char]) -> (r: Vec<LanguageHit>)
    ensures
        hit_views(r@) == native_candidates(t@),
{
    let mut hits: Vec<LanguageHit> = Vec::new();
    let ghost start = hit_views(hits@);
    push_hit(&mut hits, has(t, "#include <") || has(t, "int main("), "c", 70, "C markers");
    push_hit(&mut hits, has(t, "std::") || has(t, "#include <iostream>"), "cpp", 75, "C++ markers");
    push_hit(&mut hits, has(t, "fn main(") || (has(t, "impl ") && has(t, "pub ")), "rust", 80, "Rust markers");
    push_hit(&mut hits, has(t, "package main") || has(t, "func main("), "go", 80, "Go markers");
    push_hit(&mut hits, (has(t, "def ") && has(t, "import ")) || has(t, "PyObject"), "python", 75, "Python markers");
    proof {
        assert(start =~= Seq::<LanguageHitView>::empty());
        assert(hit_views(hits@) =~= native_candidates(t@));
    }
    hits
}

fn managed_hits(t: &[char], hits: &mut Vec<LanguageHit>)
    ensures
        hit_views(final(hits)@) == hit_views(old(hits)@) + managed_candidates(t@),
{
    let ghost start = hit_views(hits@);
    push_hit(
        hits,
        has(t, "function(") || has(t, "=> {") || has(t, "node_modules"),
        "javascript",
        70,
        "JavaScript markers",
    );
    push_hit(hits, has(t, "public static void main") || has(t, "Ljava/"), "java", 75, "Java markers");
    push_hit(hits, has(t, "fun main(") || has(t, "kotlin/"), "kotlin", 70, "Kotlin markers");
    push_hit(hits, has(t, "import Foundation") || has(t, "@objc"), "swift", 70, "Swift markers");
    push_hit(
        hits,
        (has(t, "define ") && has(t, "i32 @")) || has(t, "; ModuleID"),
        "llvm_ir",
        85,
        "LLVM IR markers",
    );
    proof {
        assert(hit_views(hits@) =~= start + managed_candidates(t@));
    }
}

/// Scans the bytes for the markers of source languages (C, C++, Rust, Go,
/// Python, JavaScript, Java, Kotlin, Swift, LLVM IR), most confident first.
pub fn scan_binary_strings(data: &[u8]) -> (r: Vec<LanguageHit>)
    ensures
        hit_views(r@) == spec_scan(data@),
{
    let text = lossy_string(data);
    let t = str_chars(text.as_str());
    let mut hits = native_hits(t.as_slice());
    managed_hits(t.as_slice(), &mut hits);
    let mut keys: Vec<u64> = Vec::new();
    let mut i: usize = 0;
    while i < hits.len()
        invariant
            i <= hits@.len(),
            keys@.len() == i,
            forall|k: int| 0 <= k < i ==> keys@[k] as int == hit_key(#[trigger] hits@[k]@),
        decreases hits@.len() - i,
    {
        keys.push(hits[i].confidence as u64);
        i += 1;
    }
    let ghost items = hits@;
    let ghost ks = keys@;
    let r = sort_desc_by_keys(hits, keys);
    proof {
        lemma_sort_by_keys_view(items, ks, |h: LanguageHit| h@, |v: LanguageHitView| hit_key(v));
        assert(hit_views(r@) =~= r@.map_values(|h: LanguageHit| h@));
        assert(items.map_values(|h: LanguageHit| h@) =~= hit_views(items));
    }
    r
}

// ---------------------------------------------------------------------------
// Backends
// ---------------------------------------------------------------------------

/// What one decompilation backend reported.
#[derive(Debug, Clone)]
pub struct DecompBackendResult {
    pub backend: String,
    pub available: bool,
    pub pseudocode: Option<String>,
    pub notes: Vec<String>,
}

pub struct BackendView {
    pub backend: Seq<char>,
    pub available: bool,
    pub pseudocode: Option<Seq<char>>,
    pub notes: Seq<Seq<char>>,
}

impl View for DecompBackendResult {
    type V = BackendView;

    open spec fn view(&self) -> BackendView {
        BackendView {
            backend: self.backend@,
            available: self.available,
            pseudocode: opt_view(self.pseudocode),
            notes: strings_view(self.notes@),
        }
    }
}

pub open spec fn backend_views(v: Seq<DecompBackendResult>) -> Seq<BackendView> {
    v.map_values(|b: DecompBackendResult| b@)
}

/// The backends' reports and the languages detected.
#[derive(Debug, Clone)]
pub struct DecompEnrichment {
    pub backends: Vec<DecompBackendResult>,
    pub language_structures: Vec<LanguageHit>,
}

fn backend(name: &str, available: bool, pseudocode: Option<String>, note: String) -> (r: DecompBackendResult)
    ensures
        r@ == (BackendView { backend: name@, available, pseudocode: opt_view(pseudocode), notes: seq![note@] }),
{
    let mut notes: Vec<String> = Vec::new();
    notes.push(note);
    let r = DecompBackendResult { backend: owned(name), available, pseudocode, notes };
    proof {
        assert(r@.notes =~= seq![note@]);
    }
    r
}

/// The record of a backend that is not installed.
pub open spec fn missing_backend(name: Seq<char>, note: Seq<char>) -> BackendView {
    BackendView { backend: name, available: false, pseudocode: None, notes: seq![note] }
}

/// The record of the Keystone assembler.
pub open spec fn keystone_record(available: bool) -> BackendView {
    BackendView {
        backend: "keystone"@,
        available,
        pseudocode: None,
        notes: seq![if available { "kstool available for assemble/disassemble"@ } else { "kstool not on PATH"@ }],
    }
}

/// The command a rizin-family tool runs on the sample.
pub open spec fn spec_tool_command(tool: Seq<char>) -> Seq<char> {
    if tool == "rizin"@ {
        "aaa; s entry0; pdg 2>/dev/null || pdc 2>/dev/null || pdf"@
    } else {
        "aaa; s entry0; pdc 2>/dev/null || pdf"@
    }
}

/// The command a rizin-family tool runs on the sample.
pub fn tool_command(tool: &str) -> (r: String)
    ensures
        r@ == spec_tool_command(tool@),
{
    let t = str_chars(tool);
    if crate::text::eq_str(t.as_slice(), "rizin") {
        owned("aaa; s entry0; pdg 2>/dev/null || pdc 2>/dev/null || pdf")
    } else {
        owned("aaa; s entry0; pdc 2>/dev/null || pdf")
    }
}

/// What a rizin-family tool's run gives: where it printed nothing and
/// failed, the first 500 characters of its errors; else the first 8000
/// characters of its output as pseudocode.
pub open spec fn spec_tool_result(tool: Seq<char>, out: Seq<char>, err: Seq<char>, success: bool) -> BackendView {
    if trim(out).len() == 0 && !success {
        BackendView {
            backend: tool,
            available: true,
            pseudocode: None,
            notes: seq!["tool failed: "@ + take_upto(err, 500)],
        }
    } else {
        BackendView {
            backend: tool,
            available: true,
            pseudocode: Some(take_upto(out, 8000)),
            notes: seq!["Invoked "@ + tool + " quiet analysis"@],
        }
    }
}

fn first_chars(s: &String, n: usize) -> (r: String)
    ensures
        r@ == take_upto(s@, n as int),
{
    let c = str_chars(s.as_str());
    let k: usize = if c.len() < n { c.len() } else { n };
    let t = crate::text::slice_chars(c.as_slice(), 0, k);
    proof {
        if c@.len() <= n {
            assert(c@.subrange(0, k as int) =~= c@);
        }
    }
    string_of(t.as_slice())
}

/// The report of a rizin-family tool from its output and error bytes
/// (decoded lossily) and whether it succeeded.
pub fn tool_result(tool: &str, stdout: &[u8], stderr: &[u8], success: bool) -> (r: DecompBackendResult)
    ensures
        r@ == spec_tool_result(tool@, utf8_lossy(stdout@), utf8_lossy(stderr@), success),
{
    let text = lossy_string(stdout);
    let err = lossy_string(stderr);
    let tc = str_chars(text.as_str());
    let trimmed = crate::text::trim_chars(tc.as_slice());
    if trimmed.len() == 0 && !success {
        let mut note = owned("tool failed: ");
        let e = first_chars(&err, 500);
        push_string(&mut note, &e);
        backend(tool, true, None, note)
    } else {
        let mut note = owned("Invoked ");
        push_str(&mut note, tool);
        push_str(&mut note, " quiet analysis");
        let p = first_chars(&text, 8000);
        backend(tool, true, Some(p), note)
    }
}

/// What a Ghidra headless run gives: its output and errors, joined by a
/// line break, cut to 4000 characters inside a comment after the tool's path.
pub open spec fn spec_ghidra_result(path: Seq<char>, out: Seq<char>, err: Seq<char>) -> BackendView {
    BackendView {
        backend: "ghidra"@,
        available: true,
        pseudocode: Some(
            "// Ghidra headless invocation completed\n// path: "@ + path + "\n/*\n"@ + take_upto(
                out + "\n"@ + err,
                4000,
            ) + "\n*/"@,
        ),
        notes: seq!["Invoked analyzeHeadless"@],
    }
}

/// The report of a Ghidra headless run at `path` from its output and error
/// bytes (decoded lossily).
pub fn ghidra_result(path: &str, stdout: &[u8], stderr: &[u8]) -> (r: DecompBackendResult)
    ensures
        r@ == spec_ghidra_result(path@, utf8_lossy(stdout@), utf8_lossy(stderr@)),
{
    let mut combined = lossy_string(stdout);
    push_str(&mut combined, "\n");
    let err = lossy_string(stderr);
    push_string(&mut combined, &err);
    let snippet = first_chars(&combined, 4000);
    let mut p = owned("// Ghidra headless invocation completed\n// path: ");
    push_str(&mut p, path);
    push_str(&mut p, "\n/*\n");
    push_string(&mut p, &snippet);
    push_str(&mut p, "\n*/");
    backend("ghidra", true, Some(p), owned("Invoked analyzeHeadless"))
}

// ---------------------------------------------------------------------------
// Pseudocode on the functions
// ---------------------------------------------------------------------------

pub open spec fn text_or_empty(o: Option<Seq<char>>) -> Seq<char> {
    text_or(o, ""@)
}

/// A function with the built-in pseudocode of its assembly preview filled in
/// where it has none, and as its description where it has none.
pub open spec fn with_builtin(f: FunctionView) -> FunctionView {
    if f.pseudocode_summary is None || f.assembly_preview is Some {
        let pc = spec_pseudocode(text_or_empty(f.assembly_preview), shown_name(f));
        FunctionView {
            pseudocode_summary: if f.pseudocode_summary is None { Some(pc) } else { f.pseudocode_summary },
            description: if f.description is None { Some(pc) } else { f.description },
            ..f
        }
    } else {
        f
    }
}

/// The first function after a backend's pseudocode is prepended to its
/// summary: tagged with the backend, confidence raised by 0.1 up to 0.95.
pub open spec fn with_backend(fs: Seq<FunctionView>, b: BackendView) -> Seq<FunctionView> {
    match b.pseudocode {
        None => fs,
        Some(p) => if fs.len() == 0 {
            fs
        } else {
            let f = fs[0];
            fs.update(
                0,
                FunctionView {
                    pseudocode_summary: Some(
                        "// via "@ + b.backend + "\n"@ + p + "\n\n"@ + text_or_empty(f.pseudocode_summary),
                    ),
                    tags: f.tags.push("decomp:"@ + b.backend),
                    confidence: if f.confidence >= 85 { 95 } else { (f.confidence + 10) as u32 },
                    ..f
                },
            )
        },
    }
}

fn builtin_one(f: &mut FunctionAnalysis)
    ensures
        final(f)@ == with_builtin(old(f)@),
{
    if f.pseudocode_summary.is_none() || f.assembly_preview.is_some() {
        let listing = match &f.assembly_preview {
            Some(a) => copy_string(a),
            None => {
                proof {
                    reveal_strlit("");
                }
                owned("")
            },
        };
        let name = match &f.suggested_name {
            Some(s) => copy_string(s),
            None => copy_string(&f.name),
        };
        let pc = from_assembly_preview(listing.as_str(), name.as_str());
        if f.pseudocode_summary.is_none() {
            f.pseudocode_summary = Some(copy_string(&pc));
        }
        if f.description.is_none() {
            f.description = Some(pc);
        }
    }
}

/// Fills in the built-in pseudocode of every function.
pub fn apply_builtin_pseudocode(functions: &mut Vec<FunctionAnalysis>)
    ensures
        function_views(final(functions)@) == function_views(old(functions)@).map_values(
            |f: FunctionView| with_builtin(f),
        ),
{
    let ghost start = function_views(functions@);
    let n = functions.len();
    let mut done: Vec<FunctionAnalysis> = Vec::new();
    let mut i: usize = 0;
    while i < n
        invariant
            i <= n,
            n == start.len(),
            functions@.len() == n - i,
            function_views(functions@) == start.subrange(i as int, n as int),
            function_views(done@) == start.subrange(0, i as int).map_values(|f: FunctionView| with_builtin(f)),
        decreases n - i,
    {
        let ghost before = function_views(functions@);
        let mut f = functions.remove(0);
        proof {
            assert(f@ == before[0]);
            assert(function_views(functions@) =~= before.drop_first());
        }
        builtin_one(&mut f);
        let ghost db = done@;
        done.push(f);
        proof {
            assert(function_views(done@) =~= function_views(db).push(f@));
            assert(start.subrange(0, i + 1) =~= start.subrange(0, i as int).push(start[i as int]));
            assert(function_views(functions@) =~= start.subrange(i + 1, n as int));
        }
        i += 1;
    }
    *functions = done;
    proof {
        assert(start.subrange(0, n as int) =~= start);
    }
}

/// Records a backend's pseudocode on the first function.
pub fn apply_backend_pseudocode(functions: &mut Vec<FunctionAnalysis>, result: &DecompBackendResult)
    ensures
        function_views(final(functions)@) == with_backend(function_views(old(functions)@), result@),
{
    let p = match &result.pseudocode {
        Some(p) => p,
        None => return,
    };
    if functions.len() == 0 {
        return;
    }
    let ghost before = function_views(functions@);
    let mut f = functions.remove(0);
    let mut s = owned("// via ");
    push_string(&mut s, &result.backend);
    push_str(&mut s, "\n");
    push_string(&mut s, p);
    push_str(&mut s, "\n\n");
    match &f.pseudocode_summary {
        Some(old_s) => push_string(&mut s, old_s),
        None => {
            proof {
                reveal_strlit("");
                assert(s@ =~= s@ + ""@);
            }
        },
    }
    f.pseudocode_summary = Some(s);
    let mut tag = owned("decomp:");
    push_string(&mut tag, &result.backend);
    let ghost tb = f.tags@;
    f.tags.push(tag);
    f.confidence = if f.confidence >= 85 { 95 } else { f.confidence + 10 };
    functions.insert(0, f);
    proof {
        assert(strings_view(f.tags@) =~= strings_view(tb).push(tag@));
        assert(function_views(functions@) =~= with_backend(before, result@));
    }
}

/// The record of the built-in pseudocode engine, with the first function's
/// pseudocode.
pub open spec fn builtin_record(fs: Seq<FunctionView>) -> BackendView {
    BackendView {
        backend: "binaris-pseudocode"@,
        available: true,
        pseudocode: if fs.len() > 0 { fs[0].pseudocode_summary } else { None },
        notes: seq!["Deterministic Capstone-derived pseudocode"@],
    }
}

/// A backend's own report where it ran, else the record of its absence.
pub open spec fn report_or(r: Option<BackendView>, name: Seq<char>, note: Seq<char>) -> BackendView {
    match r {
        Some(b) => b,
        None => missing_backend(name, note),
    }
}

pub open spec fn applied(fs: Seq<FunctionView>, r: Option<BackendView>) -> Seq<FunctionView> {
    match r {
        Some(b) => with_backend(fs, b),
        None => fs,
    }
}

pub open spec fn opt_backend(r: Option<DecompBackendResult>) -> Option<BackendView> {
    match r {
        Some(b) => Some(b@),
        None => None,
    }
}

fn record_backend(
    functions: &mut Vec<FunctionAnalysis>,
    backends: &mut Vec<DecompBackendResult>,
    r: Option<DecompBackendResult>,
    name: &str,
    note: &str,
)
    ensures
        function_views(final(functions)@) == applied(function_views(old(functions)@), opt_backend(r)),
        backend_views(final(backends)@) == backend_views(old(backends)@).push(report_or(opt_backend(r), name@, note@)),
{
    let ghost bb = backends@;
    match r {
        Some(b) => {
            apply_backend_pseudocode(functions, &b);
            backends.push(b);
        },
        None => {
            let m = backend(name, false, None, owned(note));
            backends.push(m);
        },
    }
    proof {
        assert(backend_views(backends@) =~= backend_views(bb).push(report_or(opt_backend(r), name@, note@)));
    }
}

/// Runs the built-in pseudocode over the functions, records what Ghidra,
/// rizin and radare2 gave where they ran (their pseudocode goes onto the
/// first function, in that order) and whether Keystone is installed, and
/// detects source languages in the bytes.
pub fn decomp_enrichment(
    data: &[u8],
    functions: &mut Vec<FunctionAnalysis>,
    ghidra: Option<DecompBackendResult>,
    rizin: Option<DecompBackendResult>,
    radare2: Option<DecompBackendResult>,
    keystone: bool,
) -> (r: DecompEnrichment)
    ensures
        ({
            let f1 = function_views(old(functions)@).map_values(|f: FunctionView| with_builtin(f));
            let f2 = applied(f1, opt_backend(ghidra));
            let f3 = applied(f2, opt_backend(rizin));
            &&& function_views(final(functions)@) == applied(f3, opt_backend(radare2))
            &&& backend_views(r.backends@) == seq![
                builtin_record(f1),
                report_or(opt_backend(ghidra), "ghidra"@, "GHIDRA_HOME / analyzeHeadless not found"@),
                report_or(opt_backend(rizin), "rizin"@, "rizin binary not on PATH"@),
                report_or(opt_backend(radare2), "radare2"@, "radare2 binary not on PATH"@),
                keystone_record(keystone),
            ]
            &&& hit_views(r.language_structures@) == spec_scan(data@)
        }),
{
    apply_builtin_pseudocode(functions);
    let first = if functions.len() > 0 { copy_opt_string(&functions[0].pseudocode_summary) } else { None };
    let mut backends: Vec<DecompBackendResult> = Vec::new();
    backends.push(backend("binaris-pseudocode", true, first, owned("Deterministic Capstone-derived pseudocode")));
    proof {
        assert(backend_views(backends@) =~= seq![builtin_record(function_views(functions@))]);
    }
    record_backend(functions, &mut backends, ghidra, "ghidra", "GHIDRA_HOME / analyzeHeadless not found");
    record_backend(functions, &mut backends, rizin, "rizin", "rizin binary not on PATH");
    record_backend(functions, &mut backends, radare2, "radare2", "radare2 binary not on PATH");
    let note = if keystone { owned("kstool available for assemble/disassemble") } else { owned("kstool not on PATH") };
    let ghost bb = backends@;
    backends.push(backend("keystone", keystone, None, note));
    proof {
        assert(backend_views(backends@) =~= backend_views(bb).push(keystone_record(keystone)));
    }
    let language_structures = scan_binary_strings(data);
    DecompEnrichment { backends, language_structures }
}

// ---------------------------------------------------------------------------
// Keystone
// ---------------------------------------------------------------------------

/// The target `kstool` is given: `{arch}-{mode}`.
pub fn kstool_target(arch: &str, mode: &str) -> (r: String)
    ensures
        r@ == arch@ + "-"@ + mode@,
{
    let mut s = owned(arch);
    push_str(&mut s, "-");
    push_str(&mut s, mode);
    s
}

/// The hexadecimal digits of a text, in order.
pub open spec fn hex_digits(t: Seq<char>) -> Seq<char> {
    crate::chat::sel(t, |c: char| crate::text::is_hex(c))
}

/// The bytes `kstool` printed: the hexadecimal digits of its output (decoded
/// lossily) read in pairs; an odd number of digits is an error.
pub fn decode_kstool_output(stdout: &[u8]) -> (r: Result<Vec<u8>, String>)
    ensures
        match crate::hasher::hex_decode(hex_digits(utf8_lossy(stdout@))) {
            Some(b) => r matches Ok(x) && x@ == b,
            None => r matches Err(e) && e@ == "Odd number of digits"@,
        },
{
    let text = lossy_string(stdout);
    let t = str_chars(text.as_str());
    let mut digits: Vec<char> = Vec::new();
    let mut i: usize = 0;
    while i < t.len()
        invariant
            i <= t@.len(),
            digits@ == hex_digits(t@.subrange(0, i as int)),
        decreases t@.len() - i,
    {
        let ghost db = digits@;
        if crate::text::is_hex_exec(t[i]) {
            digits.push(t[i]);
        }
        proof {
            let pre = t@.subrange(0, i as int);
            let post = t@.subrange(0, i + 1);
            assert(post.drop_last() =~= pre);
            assert(post.last() == t@[i as int]);
            if crate::text::is_hex(t@[i as int]) {
                assert(digits@ =~= db + seq![t@[i as int]]);
            } else {
                assert(digits@ =~= db + Seq::<char>::empty());
            }
        }
        i += 1;
    }
    proof {
        assert(t@.subrange(0, t@.len() as int) =~= t@);
    }
    match crate::hasher::hex_decode_chars(digits.as_slice()) {
        Some(b) => Ok(b),
        None => Err(owned("Odd number of digits")),
    }
}

} // verus!
