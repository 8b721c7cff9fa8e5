//! Report documents: Markdown summaries, YARA and Sigma rules, HTML and PDF
//! renderings.
use vstd::prelude::*;
use vstd::string::StringSliceAdditionalSpecFns;
use crate::chat::{bool_text, hundredths_text, text_or};
use crate::crypto_detect::one_if;
use crate::base64::{base64_encode, spec_base64};
use crate::model::{
    arch_name, evidence_views, family_name, format_name, kind_name, os_name, risk_name,
    CryptoFindingView, ExtractedStringView, NetworkIndicatorView, ReportFormat, ReportKind,
    RiskLevel, SectionView, SecurityFindingView,
};
use crate::packer::entropy_text;
use crate::rename::join_with;
use crate::report::{document_views, AnalysisReport, DocumentView, ReportDocument, ReportView};
use crate::strings::take_upto;
use crate::text::{
    copy_string, dec_of, hex_prefixed, owned, push_char, push_dec, push_hex_prefixed, push_str,
    push_string, str_chars, strings_view, utf8,
};

verus! {

// ---------------------------------------------------------------------------
// Escaping
// ---------------------------------------------------------------------------

/// Each character replaced by `f` of it, the results joined.
pub open spec fn map_chars(s: Seq<char>, f: spec_fn(char) -> Seq<char>) -> Seq<char>
    decreases s.len(),
{
    if s.len() == 0 {
        seq![]
    } else {
        map_chars(s.drop_last(), f) + f(s.last())
    }
}

/// HTML escaping of one character: `&`, `<` and `>`.
pub open spec fn html_char(c: char) -> Seq<char> {
    if c == '&' {
        "&amp;"@
    } else if c == '<' {
        "&lt;"@
    } else if c == '>' {
        "&gt;"@
    } else {
        seq![c]
    }
}

fn push_mapped(out: &mut String, s: &str, which: u8)
    requires
        which < 3,
    ensures
        final(out)@ == old(out)@ + map_chars(
            s@,
            if which == 0 {
                |c: char| html_char(c)
            } else if which == 1 {
                |c: char| yara_char(c)
            } else {
                |c: char| pdf_char(c)
            },
        ),
{
    let ghost f = if which == 0 {
        |c: char| html_char(c)
    } else if which == 1 {
        |c: char| yara_char(c)
    } else {
        |c: char| pdf_char(c)
    };
    let cs = str_chars(s);
    let ghost start = out@;
    let mut i: usize = 0;
    while i < cs.len()
        invariant
            i <= cs@.len(),
            cs@ == s@,
            which < 3,
            f == (if which == 0 {
                |c: char| html_char(c)
            } else if which == 1 {
                |c: char| yara_char(c)
            } else {
                |c: char| pdf_char(c)
            }),
            out@ == start + map_chars(cs@.subrange(0, i as int), f),
        decreases cs@.len() - i,
    {
        let c = cs[i];
        if which == 0 {
            if c == '&' {
                push_str(out, "&amp;");
            } else if c == '<' {
                push_str(out, "&lt;");
            } else if c == '>' {
                push_str(out, "&gt;");
            } else {
                push_char(out, c);
            }
        } else if which == 1 {
            if c == '\\' {
                push_str(out, "\\\\");
            } else if c == '"' {
                push_str(out, "\\\"");
            } else {
                push_char(out, c);
            }
        } else {
            if c == '\\' {
                push_str(out, "\\\\");
            } else if c == '(' {
                push_str(out, "\\(");
            } else if c == ')' {
                push_str(out, "\\)");
            } else {
                push_char(out, c);
            }
        }
        proof {
            let pre = cs@.subrange(0, i + 1);
            assert(pre.drop_last() =~= cs@.subrange(0, i as int));
            assert(out@ =~= start + map_chars(pre, f));
        }
        i += 1;
    }
    proof {
        assert(cs@.subrange(0, cs@.len() as int) =~= cs@);
    }
}

/// Escapes `&`, `<` and `>` for HTML.
pub fn html_escape(s: &str) -> (r: String)
    ensures
        r@ == map_chars(s@, |c: char| html_char(c)),
{
    let mut out = String::new();
    push_mapped(&mut out, s, 0);
    out
}

/// Escaping for a YARA string literal: backslash and double quote.
pub open spec fn yara_char(c: char) -> Seq<char> {
    if c == '\\' {
        "\\\\"@
    } else if c == '"' {
        "\\\""@
    } else {
        seq![c]
    }
}

/// Escaping for a PDF string literal: backslash and parentheses.
pub open spec fn pdf_char(c: char) -> Seq<char> {
    if c == '\\' {
        "\\\\"@
    } else if c == '(' {
        "\\("@
    } else if c == ')' {
        "\\)"@
    } else {
        seq![c]
    }
}

/// An identifier made of the first 48 characters, each ASCII letter or
/// digit kept and anything else replaced by `_`.
pub open spec fn spec_sanitize_ident(s: Seq<char>) -> Seq<char> {
    take_upto(s, 48).map_values(
        |c: char| if ('a' <= c && c <= 'z') || ('A' <= c && c <= 'Z') || ('0' <= c && c <= '9') { c } else { '_' },
    )
}

/// The first 48 characters with every character that is not an ASCII
/// letter or digit replaced by `_`.
pub fn sanitize_ident(s: &str) -> (r: String)
    ensures
        r@ == spec_sanitize_ident(s@),
{
    let cs = str_chars(s);
    let n: usize = if cs.len() < 48 { cs.len() } else { 48 };
    let ghost f = |c: char| if ('a' <= c && c <= 'z') || ('A' <= c && c <= 'Z') || ('0' <= c && c <= '9') { c } else { '_' };
    let mut out = String::new();
    let mut i: usize = 0;
    while i < n
        invariant
            i <= n,
            n <= cs@.len(),
            n == take_upto(s@, 48).len(),
            cs@ == s@,
            f == (|c: char| if ('a' <= c && c <= 'z') || ('A' <= c && c <= 'Z') || ('0' <= c && c <= '9') { c } else { '_' }),
            out@ == take_upto(s@, 48).subrange(0, i as int).map_values(f),
        decreases n - i,
    {
        let c = cs[i];
        let d = if ('a' <= c && c <= 'z') || ('A' <= c && c <= 'Z') || ('0' <= c && c <= '9') { c } else { '_' };
        push_char(&mut out, d);
        proof {
            assert(take_upto(s@, 48)[i as int] == c);
            assert(take_upto(s@, 48).subrange(0, i + 1).map_values(f) =~= take_upto(s@, 48).subrange(
                0,
                i as int,
            ).map_values(f).push(d));
        }
        i += 1;
    }
    proof {
        assert(take_upto(s@, 48).subrange(0, n as int) =~= take_upto(s@, 48));
    }
    out
}

// ---------------------------------------------------------------------------
// HTML and PDF
// ---------------------------------------------------------------------------

/// An HTML page titled `title` showing `body`, escaped, as preformatted text.
pub open spec fn spec_generate_html(body: Seq<char>, title: Seq<char>) -> Seq<char> {
    "<!DOCTYPE html>\n<html lang=\"en\">\n<head>\n<meta charset=\"utf-8\"/>\n<title>"@ + title
        + "</title>\n<style>\nbody{font-family:ui-sans-serif,system-ui,sans-serif;background:#0b0f14;color:#e6edf3;margin:0;padding:2rem;line-height:1.55}\npre{white-space:pre-wrap;background:#111822;padding:1.25rem;border:1px solid #243041;border-radius:12px}\nh1{color:#22d3ee}\n</style>\n</head>\n<body>\n<h1>"@
        + title + "</h1>\n<pre>"@ + map_chars(body, |c: char| html_char(c)) + "</pre>\n</body>\n</html>"@
}

/// A standalone dark-themed HTML page titled `title` that shows the text
/// (HTML-escaped) as preformatted text.
pub fn generate_html(markdownish: &str, title: &str) -> (r: String)
    ensures
        r@ == spec_generate_html(markdownish@, title@),
{
    let mut out = owned("<!DOCTYPE html>\n<html lang=\"en\">\n<head>\n<meta charset=\"utf-8\"/>\n<title>");
    push_str(&mut out, title);
    push_str(
        &mut out,
        "</title>\n<style>\nbody{font-family:ui-sans-serif,system-ui,sans-serif;background:#0b0f14;color:#e6edf3;margin:0;padding:2rem;line-height:1.55}\npre{white-space:pre-wrap;background:#111822;padding:1.25rem;border:1px solid #243041;border-radius:12px}\nh1{color:#22d3ee}\n</style>\n</head>\n<body>\n<h1>",
    );
    push_str(&mut out, title);
    push_str(&mut out, "</h1>\n<pre>");
    push_mapped(&mut out, markdownish, 0);
    push_str(&mut out, "</pre>\n</body>\n</html>");
    out
}

/// The PDF content stream showing `escaped` text.
pub open spec fn pdf_stream(escaped: Seq<char>) -> Seq<char> {
    "BT /F1 10 Tf 50 750 Td ("@ + escaped + ") Tj ET"@
}

/// A one-page PDF document around a content stream.
pub open spec fn pdf_document(stream: Seq<char>) -> Seq<char> {
    "%PDF-1.4\n1 0 obj<< /Type /Catalog /Pages 2 0 R >>endobj\n2 0 obj<< /Type /Pages /Kids [3 0 R] /Count 1 >>endobj\n3 0 obj<< /Type /Page /Parent 2 0 R /MediaBox [0 0 612 792] /Contents 4 0 R /Resources<< /Font<< /F1 5 0 R >> >> >>endobj\n4 0 obj<< /Length "@
        + dec_of(utf8(stream).len()) + " >>stream\n"@ + stream
        + "\nendstream endobj\n5 0 obj<< /Type /Font /Subtype /Type1 /BaseFont /Helvetica >>endobj\nxref\n0 6\n0000000000 65535 f \ntrailer<< /Size 6 /Root 1 0 R >>\nstartxref\n0\n%%EOF\n"@
}

/// The text escaped for a PDF string literal.
pub open spec fn pdf_escape(s: Seq<char>) -> Seq<char> {
    map_chars(s, |c: char| pdf_char(c))
}

/// The length of the longest prefix of `s`, of at most `n` characters,
/// whose escaped form has at most `limit` characters.
pub open spec fn pdf_fit(s: Seq<char>, limit: int, n: int) -> int
    decreases n,
{
    if n <= 0 {
        0
    } else if pdf_escape(s.subrange(0, n)).len() <= limit {
        n
    } else {
        pdf_fit(s, limit, n - 1)
    }
}

/// The escaped text a PDF page shows: whole characters of `s` from the
/// start, escaped, as many as fit in 6000 characters.
#[verifier::opaque]
pub open spec fn pdf_page_text(s: Seq<char>) -> Seq<char> {
    pdf_escape(s.subrange(0, pdf_fit(s, 6000, s.len() as int)))
}

/// The PDF, as a base64 data URL, of the title, a blank line and the body,
/// escaped for a PDF string and cut to at most 6000 characters without
/// splitting an escape.
pub open spec fn spec_generate_pdf(body: Seq<char>, title: Seq<char>) -> Seq<char> {
    "data:application/pdf;base64,"@ + spec_base64(
        utf8(pdf_document(pdf_stream(pdf_page_text(title + "\n\n"@ + body)))),
    )
}

proof fn lemma_escape_prefix_len(s: Seq<char>, i: int, j: int)
    requires
        0 <= i <= j <= s.len(),
    ensures
        pdf_escape(s.subrange(0, i)).len() <= pdf_escape(s.subrange(0, j)).len(),
    decreases j - i,
{
    if i < j {
        lemma_escape_prefix_len(s, i, j - 1);
        assert(s.subrange(0, j).drop_last() =~= s.subrange(0, j - 1));
    }
}

proof fn lemma_pdf_fit(s: Seq<char>, limit: int, i: int, n: int)
    requires
        0 <= i <= n <= s.len(),
        pdf_escape(s.subrange(0, i)).len() <= limit,
        i < n ==> pdf_escape(s.subrange(0, i + 1)).len() > limit,
    ensures
        pdf_fit(s, limit, n) == i,
    decreases n,
{
    if n > i {
        lemma_escape_prefix_len(s, i + 1, n);
        lemma_pdf_fit(s, limit, i, n - 1);
    }
}

/// The whole characters of `content` from the start, escaped, as many as
/// fit in 6000 characters.
fn pdf_page_text_exec(content: &str) -> (r: String)
    ensures
        r@ == pdf_page_text(content@),
{
    let cs = str_chars(content);
    let mut out = String::new();
    let mut used: usize = 0;
    let mut i: usize = 0;
    proof {
        assert(cs@.subrange(0, 0) =~= Seq::<char>::empty());
        assert(out@ =~= pdf_escape(cs@.subrange(0, 0)));
    }
    while i < cs.len()
        invariant_except_break
            i <= cs@.len(),
            cs@ == content@,
            out@ == pdf_escape(cs@.subrange(0, i as int)),
            used == out@.len(),
            used <= 6000,
        ensures
            i <= cs@.len(),
            cs@ == content@,
            out@ == pdf_escape(cs@.subrange(0, i as int)),
            used == out@.len(),
            used <= 6000,
            i < cs@.len() ==> pdf_escape(cs@.subrange(0, i + 1)).len() > 6000,
        decreases cs@.len() - i,
    {
        let c = cs[i];
        let w: usize = if c == '\\' || c == '(' || c == ')' { 2 } else { 1 };
        let ghost pre = cs@.subrange(0, i + 1);
        proof {
            reveal_strlit("\\\\");
            reveal_strlit("\\(");
            reveal_strlit("\\)");
            assert(pre.drop_last() =~= cs@.subrange(0, i as int));
            assert(pre.last() == c);
            assert(pdf_char(c).len() == w);
        }
        if used + w > 6000 {
            break;
        }
        if c == '\\' {
            push_str(&mut out, "\\\\");
        } else if c == '(' {
            push_str(&mut out, "\\(");
        } else if c == ')' {
            push_str(&mut out, "\\)");
        } else {
            push_char(&mut out, c);
        }
        used = used + w;
        proof {
            assert(out@ =~= pdf_escape(pre));
        }
        i += 1;
    }
    proof {
        lemma_pdf_fit(content@, 6000, i as int, content@.len() as int);
        reveal(pdf_page_text);
    }
    out
}

/// A minimal one-page PDF holding the title and the body (at most 6000
/// characters after escaping, never ending inside an escape), as a
/// `data:application/pdf;base64,` URL.
pub fn generate_pdf_bytes(body: &str, title: &str) -> (r: String)
    ensures
        r@ == spec_generate_pdf(body@, title@),
{
    let mut content = owned(title);
    push_str(&mut content, "\n\n");
    push_str(&mut content, body);
    let escaped = pdf_page_text_exec(content.as_str());
    let mut stream = owned("BT /F1 10 Tf 50 750 Td (");
    push_string(&mut stream, &escaped);
    push_str(&mut stream, ") Tj ET");
    let stream_len = stream.as_str().as_bytes().len();
    let mut pdf = owned(
        "%PDF-1.4\n1 0 obj<< /Type /Catalog /Pages 2 0 R >>endobj\n2 0 obj<< /Type /Pages /Kids [3 0 R] /Count 1 >>endobj\n3 0 obj<< /Type /Page /Parent 2 0 R /MediaBox [0 0 612 792] /Contents 4 0 R /Resources<< /Font<< /F1 5 0 R >> >> >>endobj\n4 0 obj<< /Length ",
    );
    push_dec(&mut pdf, stream_len as u64);
    push_str(&mut pdf, " >>stream\n");
    push_string(&mut pdf, &stream);
    push_str(
        &mut pdf,
        "\nendstream endobj\n5 0 obj<< /Type /Font /Subtype /Type1 /BaseFont /Helvetica >>endobj\nxref\n0 6\n0000000000 65535 f \ntrailer<< /Size 6 /Root 1 0 R >>\nstartxref\n0\n%%EOF\n",
    );
    let encoded = base64_encode(pdf.as_str().as_bytes());
    let mut out = owned("data:application/pdf;base64,");
    push_string(&mut out, &encoded);
    proof {
        assert(stream@ == pdf_stream(pdf_page_text(title@ + "\n\n"@ + body@)));
        assert(pdf@ =~= pdf_document(stream@));
    }
    out
}

// ---------------------------------------------------------------------------
// The PDF text literal
// ---------------------------------------------------------------------------

/// The body of a PDF string literal is well formed: every backslash starts
/// an escape of a backslash or a parenthesis, and no parenthesis stands
/// bare, so the literal closes at the `)` that follows it.
pub open spec fn well_escaped(e: Seq<char>) -> bool
    decreases e.len(),
{
    if e.len() == 0 {
        true
    } else if e[0] == '\\' {
        e.len() >= 2 && (e[1] == '\\' || e[1] == '(' || e[1] == ')') && well_escaped(
            e.subrange(2, e.len() as int),
        )
    } else {
        e[0] != '(' && e[0] != ')' && well_escaped(e.drop_first())
    }
}

/// What a PDF reader reads from the body of a string literal: each escape
/// stands for the character after the backslash.
pub open spec fn pdf_unescape(e: Seq<char>) -> Seq<char>
    decreases e.len(),
{
    if e.len() == 0 {
        seq![]
    } else if e[0] == '\\' && e.len() >= 2 {
        seq![e[1]] + pdf_unescape(e.subrange(2, e.len() as int))
    } else {
        seq![e[0]] + pdf_unescape(e.drop_first())
    }
}

proof fn lemma_escaped_concat(a: Seq<char>, b: Seq<char>)
    requires
        well_escaped(a),
        well_escaped(b),
    ensures
        well_escaped(a + b),
        pdf_unescape(a + b) == pdf_unescape(a) + pdf_unescape(b),
    decreases a.len(),
{
    if a.len() > 0 {
        if a[0] == '\\' {
            let t = a.subrange(2, a.len() as int);
            lemma_escaped_concat(t, b);
            assert((a + b).subrange(2, (a + b).len() as int) =~= t + b);
            assert(seq![a[1]] + pdf_unescape(t) + pdf_unescape(b) =~= seq![a[1]] + (pdf_unescape(t)
                + pdf_unescape(b)));
        } else {
            let t = a.drop_first();
            lemma_escaped_concat(t, b);
            assert((a + b).drop_first() =~= t + b);
            assert(seq![a[0]] + pdf_unescape(t) + pdf_unescape(b) =~= seq![a[0]] + (pdf_unescape(t)
                + pdf_unescape(b)));
        }
    } else {
        assert(a + b =~= b);
    }
}

proof fn lemma_pdf_char_roundtrip(c: char)
    ensures
        well_escaped(pdf_char(c)),
        pdf_unescape(pdf_char(c)) == seq![c],
{
    reveal_strlit("\\\\");
    reveal_strlit("\\(");
    reveal_strlit("\\)");
    let e = pdf_char(c);
    let empty = Seq::<char>::empty();
    assert(well_escaped(empty));
    assert(pdf_unescape(empty) == empty);
    if c == '\\' || c == '(' || c == ')' {
        assert(e.len() == 2);
        assert(e[0] == '\\');
        assert(e[1] == c);
        assert(e.subrange(2, 2) =~= empty);
        assert(pdf_unescape(e) == seq![e[1]] + pdf_unescape(e.subrange(2, 2)));
        assert(seq![c] + empty =~= seq![c]);
    } else {
        assert(e =~= seq![c]);
        assert(e.drop_first() =~= empty);
        assert(pdf_unescape(e) == seq![e[0]] + pdf_unescape(e.drop_first()));
        assert(seq![c] + empty =~= seq![c]);
    }
}

/// Escaping gives a well-formed literal body that reads back as the text.
pub proof fn law_pdf_escape_roundtrip(s: Seq<char>)
    ensures
        well_escaped(pdf_escape(s)),
        pdf_unescape(pdf_escape(s)) == s,
    decreases s.len(),
{
    if s.len() > 0 {
        let c = s.last();
        law_pdf_escape_roundtrip(s.drop_last());
        let e = pdf_char(c);
        lemma_pdf_char_roundtrip(c);
        lemma_escaped_concat(pdf_escape(s.drop_last()), e);
        assert(s.drop_last() + seq![c] =~= s);
    }
}

/// The text on the PDF page is a well-formed literal body, at most 6000
/// characters long, that reads back as a prefix of the title, a blank line
/// and the body; the prefix is cut only where the next character's escape
/// would pass 6000 characters.
pub proof fn law_pdf_page_text(content: Seq<char>)
    ensures
        ({
            let k = pdf_fit(content, 6000, content.len() as int);
            &&& 0 <= k <= content.len()
            &&& pdf_page_text(content).len() <= 6000
            &&& well_escaped(pdf_page_text(content))
            &&& pdf_unescape(pdf_page_text(content)) == content.subrange(0, k)
            &&& (k < content.len() ==> pdf_escape(content.subrange(0, k + 1)).len() > 6000)
        }),
{
    let n = content.len() as int;
    lemma_pdf_fit_props(content, 6000, n);
    let k = pdf_fit(content, 6000, n);
    law_pdf_escape_roundtrip(content.subrange(0, k));
    reveal(pdf_page_text);
}

proof fn lemma_pdf_fit_props(s: Seq<char>, limit: int, n: int)
    requires
        0 <= n <= s.len(),
        0 <= limit,
    ensures
        0 <= pdf_fit(s, limit, n) <= n,
        pdf_escape(s.subrange(0, pdf_fit(s, limit, n))).len() <= limit,
        pdf_fit(s, limit, n) < n ==> pdf_escape(s.subrange(0, pdf_fit(s, limit, n) + 1)).len() > limit,
    decreases n,
{
    if n <= 0 {
        assert(s.subrange(0, 0) =~= Seq::<char>::empty());
    } else if pdf_escape(s.subrange(0, n)).len() > limit {
        lemma_pdf_fit_props(s, limit, n - 1);
        let k = pdf_fit(s, limit, n - 1);
        if k == n - 1 {
        } else {
        }
    }
}

// ---------------------------------------------------------------------------
// Summaries and rules
// ---------------------------------------------------------------------------

/// The number of findings of high or critical severity.
pub open spec fn severe_count(fs: Seq<SecurityFindingView>) -> nat
    decreases fs.len(),
{
    if fs.len() == 0 {
        0
    } else {
        severe_count(fs.drop_last()) + if fs.last().severity == RiskLevel::Critical
            || fs.last().severity == RiskLevel::High {
            1nat
        } else {
            0nat
        }
    }
}

/// The Markdown executive summary of a report.
pub open spec fn spec_executive_summary(r: ReportView) -> Seq<char> {
    "## Executive Summary\n\n**File:** `"@ + r.filename + "`  \n**SHA-256:** `"@ + r.sha256
        + "`  \n**Format:** "@ + format_name(r.identity.format) + " / "@ + arch_name(
        r.identity.architecture,
    ) + " / "@ + os_name(r.identity.os) + "  \n**Malware probability:** "@ + dec_of(
        r.malware.malware_probability as nat,
    ) + "% ("@ + family_name(r.malware.family) + ")  \n**Packer:** "@ + text_or(
        r.identity.packer,
        "none detected"@,
    ) + "  \n**Critical findings:** "@ + dec_of(severe_count(r.security)) + "  \n\n"@
        + r.malware.reasoning + "\n"@
}

fn severe_count_exec(r: &AnalysisReport) -> (n: u64)
    ensures
        n as nat == severe_count(r@.security),
{
    let ghost fs = r@.security;
    let mut n: u64 = 0;
    let mut i: usize = 0;
    while i < r.security.len()
        invariant
            fs == r@.security,
            i <= r.security@.len(),
            n as nat == severe_count(fs.subrange(0, i as int)),
            n <= i,
        decreases r.security@.len() - i,
    {
        let sev = match r.security[i].severity {
            RiskLevel::Critical | RiskLevel::High => true,
            _ => false,
        };
        if sev {
            n += 1;
        }
        proof {
            let pre = fs.subrange(0, i + 1);
            assert(pre.drop_last() =~= fs.subrange(0, i as int));
            assert(pre.last() == r.security@[i as int]@);
        }
        i += 1;
    }
    proof {
        assert(fs.subrange(0, r.security@.len() as int) =~= fs);
    }
    n
}

fn push_opt_or(out: &mut String, o: &Option<String>, d: &str)
    ensures
        final(out)@ == old(out)@ + text_or(crate::text::opt_view(*o), d@),
{
    match o {
        Some(s) => push_string(out, s),
        None => push_str(out, d),
    }
}

/// The Markdown executive summary: file, hash, format, malware verdict,
/// packer, the number of high or critical findings and the reasoning.
pub fn executive_summary(report: &AnalysisReport) -> (t: String)
    ensures
        t@ == spec_executive_summary(report@),
{
    let mut t = owned("## Executive Summary\n\n**File:** `");
    push_string(&mut t, &report.filename);
    push_str(&mut t, "`  \n**SHA-256:** `");
    push_string(&mut t, &report.hashes.sha256);
    push_str(&mut t, "`  \n**Format:** ");
    push_str(&mut t, report.identity.format.name());
    push_str(&mut t, " / ");
    push_str(&mut t, report.identity.architecture.name());
    push_str(&mut t, " / ");
    push_str(&mut t, report.identity.os.name());
    push_str(&mut t, "  \n**Malware probability:** ");
    push_dec(&mut t, report.malware.malware_probability as u64);
    push_str(&mut t, "% (");
    push_str(&mut t, report.malware.family.name());
    push_str(&mut t, ")  \n**Packer:** ");
    push_opt_or(&mut t, &report.identity.packer, "none detected");
    push_str(&mut t, "  \n**Critical findings:** ");
    let crit = severe_count_exec(report);
    push_dec(&mut t, crit);
    push_str(&mut t, "  \n\n");
    push_string(&mut t, &report.malware.reasoning);
    push_str(&mut t, "\n");
    proof {
        assert(t@ =~= spec_executive_summary(report@));
    }
    t
}

/// `{:?}` of an optional number.
pub open spec fn debug_opt_u64(o: Option<u64>) -> Seq<char> {
    match o {
        Some(v) => "Some("@ + dec_of(v as nat) + ")"@,
        None => "None"@,
    }
}

pub open spec fn section_line(s: SectionView) -> Seq<char> {
    "- `"@ + s.name + "` va="@ + hex_prefixed(s.virtual_address as nat) + " size="@ + dec_of(
        s.raw_size as nat,
    ) + " entropy="@ + entropy_text(s.entropy) + " perms="@ + s.permissions + "\n"@
}

pub open spec fn crypto_summary_line(c: CryptoFindingView) -> Seq<char> {
    "- "@ + c.algorithm + " ("@ + c.category + ") strength="@ + c.strength + " conf="@ + hundredths_text(
        c.confidence as nat,
    ) + "\n"@
}

pub open spec fn network_summary_line(n: NetworkIndicatorView) -> Seq<char> {
    "- "@ + kind_name(n.kind) + " `"@ + n.value + "` suspicious="@ + bool_text(n.suspicious) + "\n"@
}

pub open spec fn finding_summary_line(f: SecurityFindingView) -> Seq<char> {
    "- ["@ + risk_name(f.severity) + "] "@ + f.title + " — "@ + f.description + "\n"@
}

/// The texts concatenated.
pub open spec fn concat(s: Seq<Seq<char>>) -> Seq<char>
    decreases s.len(),
{
    if s.len() == 0 {
        seq![]
    } else {
        concat(s.drop_last()) + s.last()
    }
}

/// The Markdown technical summary of a report.
pub open spec fn spec_technical_summary(r: ReportView) -> Seq<char> {
    "## Technical Summary — "@ + r.filename + "\n\n"@ + "### Identity\n"@ + "- Compiler: "@ + text_or(
        r.identity.compiler,
        "unknown"@,
    ) + "\n- Language: "@ + text_or(r.identity.language, "unknown"@) + "\n- Framework: "@ + text_or(
        r.identity.framework,
        "unknown"@,
    ) + "\n- Entry: "@ + debug_opt_u64(r.identity.entry_point) + "\n- Imports: "@ + dec_of(
        r.imports.len(),
    ) + "\n- Exports: "@ + dec_of(r.exports_len) + "\n- Functions: "@ + dec_of(r.functions.len())
        + "\n- Strings: "@ + dec_of(r.strings.len()) + "\n\n"@ + "### Sections\n"@ + concat(
        r.sections.map_values(|s: SectionView| section_line(s)),
    ) + "\n### Crypto\n"@ + concat(r.crypto.map_values(|c: CryptoFindingView| crypto_summary_line(c)))
        + "\n### Network indicators\n"@ + concat(
        take_upto(r.network, 50).map_values(|n: NetworkIndicatorView| network_summary_line(n)),
    ) + "\n### Security findings\n"@ + concat(
        take_upto(r.security, 50).map_values(|f: SecurityFindingView| finding_summary_line(f)),
    )
}

fn push_entropy(out: &mut String, m: u32)
    ensures
        final(out)@ == old(out)@ + entropy_text(m),
{
    let c: u64 = (m as u64 + 5) / 10;
    push_dec(out, c / 100);
    push_str(out, ".");
    push_char(out, crate::text::hex_digit_char((c % 100) / 10));
    push_char(out, crate::text::hex_digit_char(c % 10));
    proof {
        reveal_strlit(".");
        assert(final(out)@ =~= old(out)@ + entropy_text(m));
    }
}

fn push_hundredths(out: &mut String, h: u32)
    ensures
        final(out)@ == old(out)@ + hundredths_text(h as nat),
{
    let v = h as u64;
    push_dec(out, v / 100);
    push_str(out, ".");
    push_char(out, crate::text::hex_digit_char((v % 100) / 10));
    push_char(out, crate::text::hex_digit_char(v % 10));
    proof {
        reveal_strlit(".");
        assert(final(out)@ =~= old(out)@ + hundredths_text(h as nat));
    }
}

fn push_bool_text(out: &mut String, b: bool)
    ensures
        final(out)@ == old(out)@ + bool_text(b),
{
    if b {
        push_str(out, "true");
    } else {
        push_str(out, "false");
    }
}

fn technical_identity(t: &mut String, report: &AnalysisReport)
    ensures
        final(t)@ == old(t)@ + "### Identity\n"@ + "- Compiler: "@ + text_or(report@.identity.compiler, "unknown"@)
            + "\n- Language: "@ + text_or(report@.identity.language, "unknown"@) + "\n- Framework: "@
            + text_or(report@.identity.framework, "unknown"@) + "\n- Entry: "@ + debug_opt_u64(
            report@.identity.entry_point,
        ) + "\n- Imports: "@ + dec_of(report@.imports.len()) + "\n- Exports: "@ + dec_of(
            report@.exports_len,
        ) + "\n- Functions: "@ + dec_of(report@.functions.len()) + "\n- Strings: "@ + dec_of(
            report@.strings.len(),
        ) + "\n\n"@,
{
    push_str(t, "### Identity\n");
    push_str(t, "- Compiler: ");
    push_opt_or(t, &report.identity.compiler, "unknown");
    push_str(t, "\n- Language: ");
    push_opt_or(t, &report.identity.language, "unknown");
    push_str(t, "\n- Framework: ");
    push_opt_or(t, &report.identity.framework, "unknown");
    push_str(t, "\n- Entry: ");
    match report.identity.entry_point {
        Some(v) => {
            push_str(t, "Some(");
            push_dec(t, v);
            push_str(t, ")");
        },
        None => push_str(t, "None"),
    }
    push_str(t, "\n- Imports: ");
    push_dec(t, report.imports.len() as u64);
    push_str(t, "\n- Exports: ");
    push_dec(t, report.exports.len() as u64);
    push_str(t, "\n- Functions: ");
    push_dec(t, report.functions.len() as u64);
    push_str(t, "\n- Strings: ");
    push_dec(t, report.strings.len() as u64);
    push_str(t, "\n\n");
    proof {
        assert(final(t)@ =~= old(t)@ + "### Identity\n"@ + "- Compiler: "@ + text_or(report@.identity.compiler, "unknown"@)
            + "\n- Language: "@ + text_or(report@.identity.language, "unknown"@) + "\n- Framework: "@
            + text_or(report@.identity.framework, "unknown"@) + "\n- Entry: "@ + debug_opt_u64(
            report@.identity.entry_point,
        ) + "\n- Imports: "@ + dec_of(report@.imports.len()) + "\n- Exports: "@ + dec_of(
            report@.exports_len,
        ) + "\n- Functions: "@ + dec_of(report@.functions.len()) + "\n- Strings: "@ + dec_of(
            report@.strings.len(),
        ) + "\n\n"@);
    }
}

fn technical_sections(t: &mut String, report: &AnalysisReport)
    ensures
        final(t)@ == old(t)@ + concat(report@.sections.map_values(|s: SectionView| section_line(s))),
{
    let ghost v = report@.sections;
    let ghost start = t@;
    let mut i: usize = 0;
    while i < report.sections.len()
        invariant
            v == report@.sections,
            i <= report.sections@.len(),
            t@ == start + concat(v.subrange(0, i as int).map_values(|s: SectionView| section_line(s))),
        decreases report.sections@.len() - i,
    {
        let s = &report.sections[i];
        push_str(t, "- `");
        push_string(t, &s.name);
        push_str(t, "` va=");
        push_hex_prefixed(t, s.virtual_address);
        push_str(t, " size=");
        push_dec(t, s.raw_size);
        push_str(t, " entropy=");
        push_entropy(t, s.entropy);
        push_str(t, " perms=");
        push_string(t, &s.permissions);
        push_str(t, "\n");
        proof {
            let pre = v.subrange(0, i + 1);
            assert(pre.drop_last() =~= v.subrange(0, i as int));
            assert(pre.last() == s@);
            assert(pre.map_values(|s: SectionView| section_line(s)).drop_last() =~= v.subrange(0, i as int).map_values(
                |s: SectionView| section_line(s),
            ));
            assert(t@ =~= start + concat(pre.map_values(|s: SectionView| section_line(s))));
        }
        i += 1;
    }
    proof {
        assert(v.subrange(0, report.sections@.len() as int) =~= v);
    }
}

fn technical_crypto(t: &mut String, report: &AnalysisReport)
    ensures
        final(t)@ == old(t)@ + concat(report@.crypto.map_values(|c: CryptoFindingView| crypto_summary_line(c))),
{
    let ghost v = report@.crypto;
    let ghost start = t@;
    let mut i: usize = 0;
    while i < report.crypto.len()
        invariant
            v == report@.crypto,
            i <= report.crypto@.len(),
            t@ == start + concat(v.subrange(0, i as int).map_values(|c: CryptoFindingView| crypto_summary_line(c))),
        decreases report.crypto@.len() - i,
    {
        let c = &report.crypto[i];
        push_str(t, "- ");
        push_string(t, &c.algorithm);
        push_str(t, " (");
        push_string(t, &c.category);
        push_str(t, ") strength=");
        push_string(t, &c.strength);
        push_str(t, " conf=");
        push_hundredths(t, c.confidence);
        push_str(t, "\n");
        proof {
            let pre = v.subrange(0, i + 1);
            assert(pre.drop_last() =~= v.subrange(0, i as int));
            assert(pre.last() == c@);
            assert(pre.map_values(|c: CryptoFindingView| crypto_summary_line(c)).drop_last() =~= v.subrange(0, i as int).map_values(
                |c: CryptoFindingView| crypto_summary_line(c),
            ));
            assert(t@ =~= start + concat(pre.map_values(|c: CryptoFindingView| crypto_summary_line(c))));
        }
        i += 1;
    }
    proof {
        assert(v.subrange(0, report.crypto@.len() as int) =~= v);
    }
}

fn technical_network(t: &mut String, report: &AnalysisReport)
    ensures
        final(t)@ == old(t)@ + concat(
            take_upto(report@.network, 50).map_values(|n: NetworkIndicatorView| network_summary_line(n)),
        ),
{
    let ghost v = take_upto(report@.network, 50);
    let ghost start = t@;
    let n: usize = if report.network.len() < 50 { report.network.len() } else { 50 };
    let mut i: usize = 0;
    while i < n
        invariant
            v == take_upto(report@.network, 50),
            n == v.len(),
            n <= report.network@.len(),
            i <= n,
            t@ == start + concat(v.subrange(0, i as int).map_values(|n: NetworkIndicatorView| network_summary_line(n))),
        decreases n - i,
    {
        let x = &report.network[i];
        push_str(t, "- ");
        push_str(t, x.kind.name());
        push_str(t, " `");
        push_string(t, &x.value);
        push_str(t, "` suspicious=");
        push_bool_text(t, x.suspicious);
        push_str(t, "\n");
        proof {
            let pre = v.subrange(0, i + 1);
            assert(pre.drop_last() =~= v.subrange(0, i as int));
            assert(pre.last() == x@);
            assert(pre.map_values(|n: NetworkIndicatorView| network_summary_line(n)).drop_last() =~= v.subrange(0, i as int).map_values(
                |n: NetworkIndicatorView| network_summary_line(n),
            ));
            assert(t@ =~= start + concat(pre.map_values(|n: NetworkIndicatorView| network_summary_line(n))));
        }
        i += 1;
    }
    proof {
        assert(v.subrange(0, n as int) =~= v);
    }
}

fn technical_findings(t: &mut String, report: &AnalysisReport)
    ensures
        final(t)@ == old(t)@ + concat(
            take_upto(report@.security, 50).map_values(|f: SecurityFindingView| finding_summary_line(f)),
        ),
{
    let ghost v = take_upto(report@.security, 50);
    let ghost start = t@;
    let n: usize = if report.security.len() < 50 { report.security.len() } else { 50 };
    let mut i: usize = 0;
    while i < n
        invariant
            v == take_upto(report@.security, 50),
            n == v.len(),
            n <= report.security@.len(),
            i <= n,
            t@ == start + concat(v.subrange(0, i as int).map_values(|f: SecurityFindingView| finding_summary_line(f))),
        decreases n - i,
    {
        let f = &report.security[i];
        push_str(t, "- [");
        push_str(t, f.severity.name());
        push_str(t, "] ");
        push_string(t, &f.title);
        push_str(t, " — ");
        push_string(t, &f.description);
        push_str(t, "\n");
        proof {
            let pre = v.subrange(0, i + 1);
            assert(pre.drop_last() =~= v.subrange(0, i as int));
            assert(pre.last() == f@);
            assert(pre.map_values(|f: SecurityFindingView| finding_summary_line(f)).drop_last() =~= v.subrange(0, i as int).map_values(
                |f: SecurityFindingView| finding_summary_line(f),
            ));
            assert(t@ =~= start + concat(pre.map_values(|f: SecurityFindingView| finding_summary_line(f))));
        }
        i += 1;
    }
    proof {
        assert(v.subrange(0, n as int) =~= v);
    }
}

/// The Markdown technical summary: identity, sections, cryptography, the
/// first 50 network indicators and the first 50 security findings.
pub fn technical_summary(report: &AnalysisReport) -> (t: String)
    ensures
        t@ == spec_technical_summary(report@),
{
    let mut t = owned("## Technical Summary — ");
    push_string(&mut t, &report.filename);
    push_str(&mut t, "\n\n");
    technical_identity(&mut t, report);
    push_str(&mut t, "### Sections\n");
    technical_sections(&mut t, report);
    push_str(&mut t, "\n### Crypto\n");
    technical_crypto(&mut t, report);
    push_str(&mut t, "\n### Network indicators\n");
    technical_network(&mut t, report);
    push_str(&mut t, "\n### Security findings\n");
    technical_findings(&mut t, report);
    proof {
        assert(t@ =~= spec_technical_summary(report@));
    }
    t
}

/// A string short and long enough to be a YARA pattern: 8 to 64 bytes.
pub open spec fn yara_worthy(s: ExtractedStringView) -> bool {
    8 <= utf8(s.value).len() && utf8(s.value).len() <= 64
}

/// The strings a YARA rule cites: the first twelve worthy ones.
pub open spec fn yara_strings(ss: Seq<ExtractedStringView>) -> Seq<ExtractedStringView> {
    take_upto(crate::chat::sel(ss, |s: ExtractedStringView| yara_worthy(s)), 12)
}

pub open spec fn yara_line(k: nat, s: ExtractedStringView) -> Seq<char> {
    "        $s"@ + dec_of(k) + " = \""@ + map_chars(s.value, |c: char| yara_char(c)) + "\" ascii wide\n"@
}

/// The numbered pattern lines of a YARA rule.
pub open spec fn yara_lines(ss: Seq<ExtractedStringView>) -> Seq<char>
    decreases ss.len(),
{
    if ss.len() == 0 {
        seq![]
    } else {
        yara_lines(ss.drop_last()) + yara_line((ss.len() - 1) as nat, ss.last())
    }
}

/// The YARA rule of a report, stamped with the time `generated`.
pub open spec fn spec_yara(r: ReportView, generated: Seq<char>) -> Seq<char> {
    "rule Binaris_"@ + spec_sanitize_ident(r.filename)
        + "_{\n    meta:\n        author = \"Binaris\"\n        sha256 = \""@ + r.sha256
        + "\"\n        generated = \""@ + generated + "\"\n    strings:\n"@ + yara_lines(
        yara_strings(r.strings),
    ) + "    condition:\n        uint16(0) == 0x5A4D or uint32(0) == 0x464C457F or any of them\n}\n"@
}

/// The YARA rule of a report stamped with `generated`: up to twelve of its
/// strings of 8 to 64 bytes as patterns, matched in ASCII and UTF-16, and
/// the PE and ELF magic numbers.
pub fn generate_yara_at(report: &AnalysisReport, generated: &str) -> (t: String)
    ensures
        t@ == spec_yara(report@, generated@),
{
    let ghost rv = report@;
    let ghost p = |s: ExtractedStringView| yara_worthy(s);
    let mut lines = String::new();
    let mut count: usize = 0;
    let mut j: usize = 0;
    while j < report.strings.len()
        invariant
            rv == report@,
            p == (|s: ExtractedStringView| yara_worthy(s)),
            j <= report.strings@.len(),
            count == take_upto(crate::chat::sel(rv.strings.subrange(0, j as int), p), 12).len(),
            lines@ == yara_lines(take_upto(crate::chat::sel(rv.strings.subrange(0, j as int), p), 12)),
        decreases report.strings@.len() - j,
    {
        let s = &report.strings[j];
        let ghost prev = crate::chat::sel(rv.strings.subrange(0, j as int), p);
        proof {
            assert(rv.strings.subrange(0, j + 1).drop_last() =~= rv.strings.subrange(0, j as int));
            assert(rv.strings[j as int] == s@);
            crate::strings::lemma_take_upto_extend(prev, one_if(p(s@), s@), 12);
        }
        let len = s.value.as_str().as_bytes().len();
        if 8 <= len && len <= 64 && count < 12 {
            push_str(&mut lines, "        $s");
            push_dec(&mut lines, count as u64);
            push_str(&mut lines, " = \"");
            push_mapped(&mut lines, s.value.as_str(), 1);
            push_str(&mut lines, "\" ascii wide\n");
            count += 1;
            proof {
                let next = prev + seq![s@];
                assert(take_upto(prev, 12) =~= prev);
                assert(next.drop_last() =~= prev);
            }
        }
        j += 1;
    }
    proof {
        assert(rv.strings.subrange(0, report.strings@.len() as int) =~= rv.strings);
    }
    let name = sanitize_ident(report.filename.as_str());
    let mut t = owned("rule Binaris_");
    push_string(&mut t, &name);
    push_str(&mut t, "_{\n    meta:\n        author = \"Binaris\"\n        sha256 = \"");
    push_string(&mut t, &report.hashes.sha256);
    push_str(&mut t, "\"\n        generated = \"");
    push_str(&mut t, generated);
    push_str(&mut t, "\"\n    strings:\n");
    push_string(&mut t, &lines);
    push_str(
        &mut t,
        "    condition:\n        uint16(0) == 0x5A4D or uint32(0) == 0x464C457F or any of them\n}\n",
    );
    proof {
        assert(t@ =~= spec_yara(report@, generated@));
    }
    t
}

/// The current time in RFC 3339 (`chrono::Utc::now().to_rfc3339()`).
/// Trusted; nothing is promised of the value, which is the clock's.
#[verifier::external_body]
pub(crate) fn now_rfc3339() -> String {
    chrono::Utc::now().to_rfc3339()
}

/// The YARA rule of a report, stamped with the current time.
pub fn generate_yara(report: &AnalysisReport) -> (t: String)
    ensures
        exists|g: Seq<char>| t@ == spec_yara(report@, g),
{
    let g = now_rfc3339();
    generate_yara_at(report, g.as_str())
}

/// Escaping for a single-quoted YAML string: a quote is doubled.
pub open spec fn sigma_char(c: char) -> Seq<char> {
    if c == '\'' {
        "''"@
    } else {
        seq![c]
    }
}

pub open spec fn sigma_line(i: Seq<char>) -> Seq<char> {
    "      - '"@ + map_chars(i, |c: char| sigma_char(c)) + "'\n"@
}

/// The Sigma rule of a report.
pub open spec fn spec_sigma(r: ReportView) -> Seq<char> {
    "title: Binaris Detection for "@ + r.filename
        + "\nstatus: experimental\ndescription: Generated from static analysis IOCs\nlogsource:\n  product: windows\n  category: process_creation\ndetection:\n  selection:\n    CommandLine|contains:\n"@
        + concat(take_upto(r.iocs, 10).map_values(|i: Seq<char>| sigma_line(i)))
        + "  condition: selection\nfalsepositives:\n  - Unknown\nlevel: high\n"@
}

fn push_sigma_escaped(out: &mut String, s: &str)
    ensures
        final(out)@ == old(out)@ + map_chars(s@, |c: char| sigma_char(c)),
{
    let cs = str_chars(s);
    let ghost start = out@;
    let mut i: usize = 0;
    while i < cs.len()
        invariant
            i <= cs@.len(),
            cs@ == s@,
            out@ == start + map_chars(cs@.subrange(0, i as int), |c: char| sigma_char(c)),
        decreases cs@.len() - i,
    {
        if cs[i] == '\'' {
            push_str(out, "''");
        } else {
            push_char(out, cs[i]);
        }
        proof {
            let pre = cs@.subrange(0, i + 1);
            assert(pre.drop_last() =~= cs@.subrange(0, i as int));
        }
        i += 1;
    }
    proof {
        assert(cs@.subrange(0, cs@.len() as int) =~= cs@);
    }
}

/// A Sigma process-creation rule matching command lines that contain any of
/// the first ten IOCs of a report.
pub fn generate_sigma(report: &AnalysisReport) -> (t: String)
    ensures
        t@ == spec_sigma(report@),
{
    let ghost v = take_upto(report@.iocs, 10);
    let mut body = String::new();
    let n: usize = if report.iocs.len() < 10 { report.iocs.len() } else { 10 };
    let mut i: usize = 0;
    while i < n
        invariant
            v == take_upto(report@.iocs, 10),
            n == v.len(),
            n <= report.iocs@.len(),
            i <= n,
            body@ == concat(v.subrange(0, i as int).map_values(|i: Seq<char>| sigma_line(i))),
        decreases n - i,
    {
        push_str(&mut body, "      - '");
        push_sigma_escaped(&mut body, report.iocs[i].as_str());
        push_str(&mut body, "'\n");
        proof {
            let pre = v.subrange(0, i + 1);
            assert(pre.drop_last() =~= v.subrange(0, i as int));
            assert(pre.last() == report.iocs@[i as int]@);
            assert(pre.map_values(|i: Seq<char>| sigma_line(i)).drop_last() =~= v.subrange(0, i as int).map_values(
                |i: Seq<char>| sigma_line(i),
            ));
        }
        i += 1;
    }
    proof {
        assert(v.subrange(0, n as int) =~= v);
    }
    let mut t = owned("title: Binaris Detection for ");
    push_string(&mut t, &report.filename);
    push_str(
        &mut t,
        "\nstatus: experimental\ndescription: Generated from static analysis IOCs\nlogsource:\n  product: windows\n  category: process_creation\ndetection:\n  selection:\n    CommandLine|contains:\n",
    );
    push_string(&mut t, &body);
    push_str(&mut t, "  condition: selection\nfalsepositives:\n  - Unknown\nlevel: high\n");
    t
}

// ---------------------------------------------------------------------------
// Documents
// ---------------------------------------------------------------------------

/// The texts, each between `pre` and `post`, one per line.
pub open spec fn bullets(items: Seq<Seq<char>>, pre: Seq<char>, post: Seq<char>) -> Seq<char> {
    join_with("\n"@, items.map_values(|i: Seq<char>| pre + i + post))
}

fn bullets_exec(items: &Vec<String>, pre: &str, post: &str) -> (r: String)
    ensures
        r@ == bullets(strings_view(items@), pre@, post@),
{
    let ghost v = strings_view(items@).map_values(|i: Seq<char>| pre@ + i + post@);
    let mut out = String::new();
    let mut i: usize = 0;
    while i < items.len()
        invariant
            i <= items@.len(),
            v == strings_view(items@).map_values(|i: Seq<char>| pre@ + i + post@),
            out@ == join_with("\n"@, v.subrange(0, i as int)),
        decreases items@.len() - i,
    {
        if i > 0 {
            push_str(&mut out, "\n");
        }
        push_str(&mut out, pre);
        push_string(&mut out, &items[i]);
        push_str(&mut out, post);
        proof {
            let p = v.subrange(0, i + 1);
            assert(p.drop_last() =~= v.subrange(0, i as int));
            assert(v[i as int] == pre@ + items@[i as int]@ + post@);
            assert(out@ =~= join_with("\n"@, p));
        }
        i += 1;
    }
    proof {
        assert(v.subrange(0, items@.len() as int) =~= v);
    }
    out
}

pub open spec fn network_bullet(n: NetworkIndicatorView) -> Seq<char> {
    "- "@ + kind_name(n.kind) + " "@ + n.value
}

fn network_bullets(report: &AnalysisReport) -> (r: String)
    ensures
        r@ == join_with("\n"@, report@.network.map_values(|n: NetworkIndicatorView| network_bullet(n))),
{
    let ghost v = report@.network.map_values(|n: NetworkIndicatorView| network_bullet(n));
    let mut out = String::new();
    let mut i: usize = 0;
    while i < report.network.len()
        invariant
            i <= report.network@.len(),
            v == report@.network.map_values(|n: NetworkIndicatorView| network_bullet(n)),
            out@ == join_with("\n"@, v.subrange(0, i as int)),
        decreases report.network@.len() - i,
    {
        if i > 0 {
            push_str(&mut out, "\n");
        }
        push_str(&mut out, "- ");
        push_str(&mut out, report.network[i].kind.name());
        push_str(&mut out, " ");
        push_string(&mut out, &report.network[i].value);
        proof {
            let p = v.subrange(0, i + 1);
            assert(p.drop_last() =~= v.subrange(0, i as int));
            assert(v[i as int] == network_bullet(report.network@[i as int]@));
            assert(out@ =~= join_with("\n"@, p));
        }
        i += 1;
    }
    proof {
        assert(v.subrange(0, report.network@.len() as int) =~= v);
    }
    out
}

pub open spec fn doc_view(r: ReportView, kind: ReportKind, format: ReportFormat, title: Seq<char>, content: Seq<char>, created: Seq<char>) -> DocumentView {
    DocumentView { analysis_id: r.id, kind, format, title, content, created_at: created }
}

pub open spec fn malware_report_text(r: ReportView) -> Seq<char> {
    spec_executive_summary(r) + "\n\n## Malware Analysis\n\n"@ + r.malware.reasoning
        + "\n\nSuspicious APIs:\n"@ + bullets(r.malware.suspicious_apis, "- `"@, "`"@) + "\n"@
}

pub open spec fn ioc_report_text(r: ReportView) -> Seq<char> {
    "## IOC Report\n\n"@ + bullets(r.iocs, "- `"@, "`"@) + "\n"@
}

pub open spec fn dfir_text(r: ReportView) -> Seq<char> {
    spec_executive_summary(r) + "\n\n## IOCs\n"@ + bullets(r.iocs, "- `"@, "`"@) + "\n\n## Network\n"@
        + join_with("\n"@, r.network.map_values(|n: NetworkIndicatorView| network_bullet(n))) + "\n"@
}

pub open spec fn threat_intel_text(r: ReportView) -> Seq<char> {
    "## Threat Intel\n\nFamily: "@ + family_name(r.malware.family) + "\nProbability: "@ + dec_of(
        r.malware.malware_probability as nat,
    ) + "%\n\n"@ + r.malware.reasoning + "\n\nBehaviors:\n"@ + bullets(r.malware.behaviors, "- "@, ""@)
        + "\n"@
}

/// The documents of a report, in order: executive summary (Markdown and
/// HTML), technical summary, malware report, YARA and Sigma rules, IOC
/// report, SARIF, SBOM, the full analysis as JSON, the technical summary as
/// PDF, DFIR and threat-intelligence reports.
pub open spec fn spec_documents(
    r: ReportView,
    sarif: Seq<char>,
    sbom_json: Seq<char>,
    report_json: Seq<char>,
    generated: Seq<char>,
    created: Seq<char>,
) -> Seq<DocumentView> {
    let exec = spec_executive_summary(r);
    let tech = spec_technical_summary(r);
    seq![
        doc_view(r, ReportKind::Executive, ReportFormat::Markdown, "Executive Summary"@, exec, created),
        doc_view(r, ReportKind::Technical, ReportFormat::Markdown, "Technical Summary"@, tech, created),
        doc_view(
            r,
            ReportKind::Executive,
            ReportFormat::Html,
            "Executive Summary HTML"@,
            spec_generate_html(exec, "Binaris Executive Summary"@),
            created,
        ),
        doc_view(r, ReportKind::Malware, ReportFormat::Markdown, "Malware Report"@, malware_report_text(r), created),
        doc_view(r, ReportKind::Yara, ReportFormat::Markdown, "YARA Rules"@, spec_yara(r, generated), created),
        doc_view(r, ReportKind::Sigma, ReportFormat::Markdown, "Sigma Rules"@, spec_sigma(r), created),
        doc_view(r, ReportKind::Ioc, ReportFormat::Markdown, "IOC Report"@, ioc_report_text(r), created),
        doc_view(r, ReportKind::Technical, ReportFormat::Sarif, "SARIF"@, sarif, created),
        doc_view(r, ReportKind::Sbom, ReportFormat::Json, "SBOM"@, sbom_json, created),
        doc_view(r, ReportKind::ReverseEngineering, ReportFormat::Json, "Full Analysis JSON"@, report_json, created),
        doc_view(
            r,
            ReportKind::Technical,
            ReportFormat::Pdf,
            "Technical Summary PDF"@,
            spec_generate_pdf(tech, "Binaris Technical Report"@),
            created,
        ),
        doc_view(r, ReportKind::Dfir, ReportFormat::Markdown, "DFIR Report"@, dfir_text(r), created),
        doc_view(
            r,
            ReportKind::ThreatIntelligence,
            ReportFormat::Markdown,
            "Threat Intelligence Report"@,
            threat_intel_text(r),
            created,
        ),
    ]
}

fn doc(report: &AnalysisReport, kind: ReportKind, format: ReportFormat, title: &str, content: String, created_at: &str) -> (d: ReportDocument)
    ensures
        d@ == doc_view(report@, kind, format, title@, content@, created_at@),
{
    ReportDocument {
        id: crate::ids::new_id(),
        analysis_id: copy_string(&report.id),
        kind,
        format,
        title: owned(title),
        content,
        created_at: owned(created_at),
    }
}

fn push_doc(docs: &mut Vec<ReportDocument>, d: ReportDocument)
    ensures
        document_views(final(docs)@) == document_views(old(docs)@).push(d@),
{
    let ghost before = docs@;
    docs.push(d);
    proof {
        assert(document_views(docs@) =~= document_views(before).push(d@));
    }
}

fn text_documents(report: &AnalysisReport, exec: &String, created_at: &str) -> (r: (String, String, String, String))
    requires
        exec@ == spec_executive_summary(report@),
    ensures
        r.0@ == malware_report_text(report@),
        r.1@ == ioc_report_text(report@),
        r.2@ == dfir_text(report@),
        r.3@ == threat_intel_text(report@),
{
    let apis = bullets_exec(&report.malware.suspicious_apis, "- `", "`");
    let mut malware = copy_string(exec);
    push_str(&mut malware, "\n\n## Malware Analysis\n\n");
    push_string(&mut malware, &report.malware.reasoning);
    push_str(&mut malware, "\n\nSuspicious APIs:\n");
    push_string(&mut malware, &apis);
    push_str(&mut malware, "\n");
    let iocs = bullets_exec(&report.iocs, "- `", "`");
    let mut ioc = owned("## IOC Report\n\n");
    push_string(&mut ioc, &iocs);
    push_str(&mut ioc, "\n");
    let net = network_bullets(report);
    let mut dfir = copy_string(exec);
    push_str(&mut dfir, "\n\n## IOCs\n");
    push_string(&mut dfir, &iocs);
    push_str(&mut dfir, "\n\n## Network\n");
    push_string(&mut dfir, &net);
    push_str(&mut dfir, "\n");
    let behaviors = bullets_exec(&report.malware.behaviors, "- ", "");
    let mut threat = owned("## Threat Intel\n\nFamily: ");
    push_str(&mut threat, report.malware.family.name());
    push_str(&mut threat, "\nProbability: ");
    push_dec(&mut threat, report.malware.malware_probability as u64);
    push_str(&mut threat, "%\n\n");
    push_string(&mut threat, &report.malware.reasoning);
    push_str(&mut threat, "\n\nBehaviors:\n");
    push_string(&mut threat, &behaviors);
    push_str(&mut threat, "\n");
    proof {
        assert(malware@ =~= malware_report_text(report@));
        assert(ioc@ =~= ioc_report_text(report@));
        assert(dfir@ =~= dfir_text(report@));
        assert(threat@ =~= threat_intel_text(report@));
    }
    (malware, ioc, dfir, threat)
}

/// The documents of a report, with the SARIF, SBOM and full-report JSON
/// texts given, the YARA rule stamped `generated` and every document
/// created at `created_at`; each document gets a fresh identifier.
#[verifier::rlimit(30)]
pub fn build_documents_at(
    report: &AnalysisReport,
    sarif: &str,
    sbom_json: &str,
    report_json: &str,
    generated: &str,
    created_at: &str,
) -> (docs: Vec<ReportDocument>)
    ensures
        document_views(docs@) == spec_documents(report@, sarif@, sbom_json@, report_json@, generated@, created_at@),
{
    let exec = executive_summary(report);
    let tech = technical_summary(report);
    let yara = generate_yara_at(report, generated);
    let sigma = generate_sigma(report);
    let (malware, ioc, dfir, threat) = text_documents(report, &exec, created_at);
    let html = generate_html(exec.as_str(), "Binaris Executive Summary");
    let pdf = generate_pdf_bytes(tech.as_str(), "Binaris Technical Report");
    let mut docs: Vec<ReportDocument> = Vec::new();
    push_doc(&mut docs, doc(report, ReportKind::Executive, ReportFormat::Markdown, "Executive Summary", copy_string(&exec), created_at));
    push_doc(&mut docs, doc(report, ReportKind::Technical, ReportFormat::Markdown, "Technical Summary", tech, created_at));
    push_doc(&mut docs, doc(report, ReportKind::Executive, ReportFormat::Html, "Executive Summary HTML", html, created_at));
    push_doc(&mut docs, doc(report, ReportKind::Malware, ReportFormat::Markdown, "Malware Report", malware, created_at));
    push_doc(&mut docs, doc(report, ReportKind::Yara, ReportFormat::Markdown, "YARA Rules", yara, created_at));
    push_doc(&mut docs, doc(report, ReportKind::Sigma, ReportFormat::Markdown, "Sigma Rules", sigma, created_at));
    push_doc(&mut docs, doc(report, ReportKind::Ioc, ReportFormat::Markdown, "IOC Report", ioc, created_at));
    push_doc(&mut docs, doc(report, ReportKind::Technical, ReportFormat::Sarif, "SARIF", owned(sarif), created_at));
    push_doc(&mut docs, doc(report, ReportKind::Sbom, ReportFormat::Json, "SBOM", owned(sbom_json), created_at));
    push_doc(&mut docs, doc(report, ReportKind::ReverseEngineering, ReportFormat::Json, "Full Analysis JSON", owned(report_json), created_at));
    push_doc(&mut docs, doc(report, ReportKind::Technical, ReportFormat::Pdf, "Technical Summary PDF", pdf, created_at));
    push_doc(&mut docs, doc(report, ReportKind::Dfir, ReportFormat::Markdown, "DFIR Report", dfir, created_at));
    push_doc(&mut docs, doc(report, ReportKind::ThreatIntelligence, ReportFormat::Markdown, "Threat Intelligence Report", threat, created_at));
    proof {
        assert(document_views(docs@) =~= spec_documents(report@, sarif@, sbom_json@, report_json@, generated@, created_at@));
    }
    docs
}

/// The documents of a report, stamped with the current time.
pub fn build_documents(report: &AnalysisReport, sarif: &str, sbom_json: &str, report_json: &str) -> (docs: Vec<ReportDocument>)
    ensures
        exists|g: Seq<char>, c: Seq<char>|
            document_views(docs@) == spec_documents(report@, sarif@, sbom_json@, report_json@, g, c),
{
    let generated = now_rfc3339();
    let created = now_rfc3339();
    build_documents_at(report, sarif, sbom_json, report_json, generated.as_str(), created.as_str())
}

} // verus!
