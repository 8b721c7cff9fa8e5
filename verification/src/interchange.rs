//! The interchange documents of an analysis as JSON text, laid out as
//! serde_json's pretty printer lays out a `json!` value (keys in
//! alphabetical order, two spaces per level): the SARIF 2.1.0 log of the
//! security findings and the CycloneDX 1.5 bill of materials.
use vstd::prelude::*;
use crate::model::{DependencyInfo, FileHashes, RiskLevel, SecurityFinding, SecurityFindingView};
use crate::report::AnalysisReport;
use crate::reports::map_chars;
use crate::text::{hex_digit, hex_digit_char, push_char, push_str, push_string, str_chars};

verus! {

// ---------------------------------------------------------------------------
// JSON strings
// ---------------------------------------------------------------------------

/// JSON escaping of one character: quote, backslash and the control
/// characters (`\b \t \n \f \r` by name, the others as `\u00xx`).
pub open spec fn json_char(c: char) -> Seq<char> {
    if c == '"' {
        "\\\""@
    } else if c == '\\' {
        "\\\\"@
    } else if c == '\n' {
        "\\n"@
    } else if c == '\r' {
        "\\r"@
    } else if c == '\t' {
        "\\t"@
    } else if c == '\u{8}' {
        "\\b"@
    } else if c == '\u{c}' {
        "\\f"@
    } else if (c as u32) < 0x20 {
        "\\u00"@ + seq![hex_digit((c as u32) as int / 16), hex_digit((c as u32) as int % 16)]
    } else {
        seq![c]
    }
}

/// A text as a JSON string literal.
pub open spec fn json_str(s: Seq<char>) -> Seq<char> {
    "\""@ + map_chars(s, |c: char| json_char(c)) + "\""@
}

fn push_json_char(out: &mut String, c: char)
    ensures
        final(out)@ == old(out)@ + json_char(c),
{
    if c == '"' {
        push_str(out, "\\\"");
    } else if c == '\\' {
        push_str(out, "\\\\");
    } else if c == '\n' {
        push_str(out, "\\n");
    } else if c == '\r' {
        push_str(out, "\\r");
    } else if c == '\t' {
        push_str(out, "\\t");
    } else if c == '\u{8}' {
        push_str(out, "\\b");
    } else if c == '\u{c}' {
        push_str(out, "\\f");
    } else if (c as u32) < 0x20 {
        let v = c as u32;
        push_str(out, "\\u00");
        let hi = hex_digit_char((v / 16) as u64);
        let lo = hex_digit_char((v % 16) as u64);
        let ghost before = out@;
        push_char(out, hi);
        push_char(out, lo);
        proof {
            assert(out@ =~= before + seq![hex_digit((c as u32) as int / 16), hex_digit((c as u32) as int % 16)]);
        }
    } else {
        push_char(out, c);
    }
}

/// Appends `s` as a JSON string literal.
pub fn push_json_str(out: &mut String, s: &str)
    ensures
        final(out)@ == old(out)@ + json_str(s@),
{
    let cs = str_chars(s);
    let ghost start = out@;
    push_str(out, "\"");
    let mut i: usize = 0;
    while i < cs.len()
        invariant
            i <= cs@.len(),
            cs@ == s@,
            out@ == start + "\""@ + map_chars(cs@.subrange(0, i as int), |c: char| json_char(c)),
        decreases cs@.len() - i,
    {
        push_json_char(out, cs[i]);
        proof {
            let pre = cs@.subrange(0, i + 1);
            assert(pre.drop_last() =~= cs@.subrange(0, i as int));
            assert(pre.last() == cs@[i as int]);
        }
        i += 1;
    }
    proof {
        assert(cs@.subrange(0, cs@.len() as int) =~= cs@);
    }
    push_str(out, "\"");
    proof {
        assert(out@ =~= start + json_str(s@));
    }
}

/// The items of an array, one after another with `,\n` between them.
pub open spec fn joined(items: Seq<Seq<char>>) -> Seq<char>
    decreases items.len(),
{
    if items.len() == 0 {
        seq![]
    } else if items.len() == 1 {
        items[0]
    } else {
        joined(items.drop_last()) + ",\n"@ + items.last()
    }
}

/// A JSON array whose closing bracket stands after `indent`: `[]` when it
/// is empty.
pub open spec fn json_array(items: Seq<Seq<char>>, indent: Seq<char>) -> Seq<char> {
    if items.len() == 0 {
        "[]"@
    } else {
        "[\n"@ + joined(items) + "\n"@ + indent + "]"@
    }
}

// ---------------------------------------------------------------------------
// SARIF
// ---------------------------------------------------------------------------

/// The SARIF level of a severity.
pub open spec fn sarif_level(r: RiskLevel) -> Seq<char> {
    match r {
        RiskLevel::Critical | RiskLevel::High => "error"@,
        RiskLevel::Medium => "warning"@,
        _ => "note"@,
    }
}

/// One SARIF result: the finding's level, its location in the file, its
/// message (`title: description`) and its category as the rule.
pub open spec fn sarif_result(f: SecurityFindingView, uri: Seq<char>) -> Seq<char> {
    "        {\n          \"level\": "@ + json_str(sarif_level(f.severity))
        + ",\n          \"locations\": [\n            {\n              \"physicalLocation\": {\n                \"artifactLocation\": {\n                  \"uri\": "@
        + json_str(uri)
        + "\n                },\n                \"region\": {\n                  \"snippet\": {\n                    \"text\": "@
        + json_str(match f.location { Some(l) => l, None => Seq::empty() })
        + "\n                  }\n                }\n              }\n            }\n          ],\n          \"message\": {\n            \"text\": "@
        + json_str(f.title + ": "@ + f.description)
        + "\n          },\n          \"ruleId\": "@ + json_str(f.category) + "\n        }"@
}

/// The SARIF 2.1.0 log of the findings of a file.
pub open spec fn spec_sarif(findings: Seq<SecurityFindingView>, uri: Seq<char>) -> Seq<char> {
    "{\n  \"$schema\": \"https://json.schemastore.org/sarif-2.1.0.json\",\n  \"runs\": [\n    {\n      \"results\": "@
        + json_array(findings.map_values(|f: SecurityFindingView| sarif_result(f, uri)), "      "@)
        + ",\n      \"tool\": {\n        \"driver\": {\n          \"informationUri\": \"https://binaris.dev\",\n          \"name\": \"Binaris\",\n          \"version\": \"0.1.0\"\n        }\n      }\n    }\n  ],\n  \"version\": \"2.1.0\"\n}"@
}

fn sarif_level_text(r: RiskLevel) -> (t: &'static str)
    ensures
        t@ == sarif_level(r),
{
    match r {
        RiskLevel::Critical | RiskLevel::High => "error",
        RiskLevel::Medium => "warning",
        _ => "note",
    }
}

fn push_sarif_result(out: &mut String, f: &SecurityFinding, uri: &str)
    ensures
        final(out)@ == old(out)@ + sarif_result(f@, uri@),
{
    let ghost start = out@;
    push_str(out, "        {\n          \"level\": ");
    push_json_str(out, sarif_level_text(f.severity));
    push_str(out, ",\n          \"locations\": [\n            {\n              \"physicalLocation\": {\n                \"artifactLocation\": {\n                  \"uri\": ");
    push_json_str(out, uri);
    push_str(out, "\n                },\n                \"region\": {\n                  \"snippet\": {\n                    \"text\": ");
    match &f.location {
        Some(l) => push_json_str(out, l.as_str()),
        None => {
            push_json_str(out, "");
            proof {
                reveal_strlit("");
            }
        },
    }
    push_str(out, "\n                  }\n                }\n              }\n            }\n          ],\n          \"message\": {\n            \"text\": ");
    let mut message = f.title.clone();
    push_str(&mut message, ": ");
    push_string(&mut message, &f.description);
    push_json_str(out, message.as_str());
    push_str(out, "\n          },\n          \"ruleId\": ");
    push_json_str(out, f.category.as_str());
    push_str(out, "\n        }");
    proof {
        assert(out@ =~= start + sarif_result(f@, uri@));
    }
}

/// The SARIF 2.1.0 log of a report's security findings, as pretty JSON.
pub fn generate_sarif(report: &AnalysisReport) -> (t: String)
    ensures
        t@ == spec_sarif(crate::model::security_views(report.security@), report.filename@),
{
    let ghost fv = crate::model::security_views(report.security@);
    let ghost uri = report.filename@;
    let ghost items = fv.map_values(|f: SecurityFindingView| sarif_result(f, uri));
    let mut out = String::new();
    push_str(&mut out, "{\n  \"$schema\": \"https://json.schemastore.org/sarif-2.1.0.json\",\n  \"runs\": [\n    {\n      \"results\": ");
    let ghost head = out@;
    let n = report.security.len();
    if n == 0 {
        push_str(&mut out, "[]");
        proof {
            assert(json_array(items, "      "@) == "[]"@);
        }
    } else {
        push_str(&mut out, "[\n");
        let mut i: usize = 0;
        while i < n
            invariant
                i <= n,
                n == report.security@.len(),
                n > 0,
                fv == crate::model::security_views(report.security@),
                uri == report.filename@,
                items == fv.map_values(|f: SecurityFindingView| sarif_result(f, uri)),
                out@ == head + "[\n"@ + joined(items.subrange(0, i as int)),
            decreases n - i,
        {
            if i > 0 {
                push_str(&mut out, ",\n");
            }
            push_sarif_result(&mut out, &report.security[i], report.filename.as_str());
            proof {
                let pre = items.subrange(0, i + 1);
                assert(pre.drop_last() =~= items.subrange(0, i as int));
                assert(pre.last() == sarif_result(report.security@[i as int]@, uri));
                if i == 0 {
                    assert(items.subrange(0, 0) =~= Seq::<Seq<char>>::empty());
                }
            }
            i += 1;
        }
        push_str(&mut out, "\n");
        push_str(&mut out, "      ");
        push_str(&mut out, "]");
        proof {
            assert(items.subrange(0, n as int) =~= items);
            assert(out@ =~= head + json_array(items, "      "@));
        }
    }
    push_str(&mut out, ",\n      \"tool\": {\n        \"driver\": {\n          \"informationUri\": \"https://binaris.dev\",\n          \"name\": \"Binaris\",\n          \"version\": \"0.1.0\"\n        }\n      }\n    }\n  ],\n  \"version\": \"2.1.0\"\n}");
    proof {
        assert(out@ =~= spec_sarif(fv, uri));
    }
    out
}

// ---------------------------------------------------------------------------
// CycloneDX
// ---------------------------------------------------------------------------

/// One component of the bill: a library with its name, its generic package
/// URL and its version (`null` when unknown).
pub open spec fn sbom_component(name: Seq<char>, version: Option<Seq<char>>) -> Seq<char> {
    "    {\n      \"name\": "@ + json_str(name) + ",\n      \"purl\": "@ + json_str("pkg:generic/"@ + name + "@"@)
        + ",\n      \"type\": \"library\",\n      \"version\": "@
        + match version {
        Some(v) => json_str(v),
        None => "null"@,
    } + "\n    }"@
}

/// The component text of each dependency.
pub open spec fn sbom_components(deps: Seq<DependencyInfo>) -> Seq<Seq<char>> {
    deps.map_values(|d: DependencyInfo| sbom_component(d.name@, crate::text::opt_view(d.version)))
}

/// The CycloneDX 1.5 bill of materials of an application file: its
/// dependencies as libraries, and the file's name with its SHA-256 and MD5
/// hashes.
pub open spec fn spec_sbom(filename: Seq<char>, sha256: Seq<char>, md5: Seq<char>, deps: Seq<DependencyInfo>) -> Seq<char> {
    "{\n  \"bomFormat\": \"CycloneDX\",\n  \"components\": "@ + json_array(sbom_components(deps), "  "@)
        + ",\n  \"metadata\": {\n    \"component\": {\n      \"hashes\": [\n        {\n          \"alg\": \"SHA-256\",\n          \"content\": "@
        + json_str(sha256)
        + "\n        },\n        {\n          \"alg\": \"MD5\",\n          \"content\": "@
        + json_str(md5)
        + "\n        }\n      ],\n      \"name\": "@ + json_str(filename)
        + ",\n      \"type\": \"application\"\n    }\n  },\n  \"specVersion\": \"1.5\"\n}"@
}

fn push_component(out: &mut String, d: &DependencyInfo)
    ensures
        final(out)@ == old(out)@ + sbom_component(d.name@, crate::text::opt_view(d.version)),
{
    let ghost start = out@;
    push_str(out, "    {\n      \"name\": ");
    push_json_str(out, d.name.as_str());
    push_str(out, ",\n      \"purl\": ");
    let mut purl = crate::text::owned("pkg:generic/");
    push_string(&mut purl, &d.name);
    push_str(&mut purl, "@");
    push_json_str(out, purl.as_str());
    push_str(out, ",\n      \"type\": \"library\",\n      \"version\": ");
    match &d.version {
        Some(v) => push_json_str(out, v.as_str()),
        None => push_str(out, "null"),
    }
    push_str(out, "\n    }");
    proof {
        assert(out@ =~= start + sbom_component(d.name@, crate::text::opt_view(d.version)));
    }
}

/// The CycloneDX 1.5 bill of materials of a file, as pretty JSON.
pub fn generate_sbom(filename: &str, hashes: &FileHashes, deps: &Vec<DependencyInfo>) -> (t: String)
    ensures
        t@ == spec_sbom(filename@, hashes.sha256@, hashes.md5@, deps@),
{
    let ghost items = sbom_components(deps@);
    let mut out = String::new();
    push_str(&mut out, "{\n  \"bomFormat\": \"CycloneDX\",\n  \"components\": ");
    let ghost head = out@;
    let n = deps.len();
    if n == 0 {
        push_str(&mut out, "[]");
        proof {
            assert(json_array(items, "  "@) == "[]"@);
        }
    } else {
        push_str(&mut out, "[\n");
        let mut i: usize = 0;
        while i < n
            invariant
                i <= n,
                n == deps@.len(),
                n > 0,
                items == sbom_components(deps@),
                out@ == head + "[\n"@ + joined(items.subrange(0, i as int)),
            decreases n - i,
        {
            if i > 0 {
                push_str(&mut out, ",\n");
            }
            push_component(&mut out, &deps[i]);
            proof {
                let pre = items.subrange(0, i + 1);
                assert(pre.drop_last() =~= items.subrange(0, i as int));
                if i == 0 {
                    assert(items.subrange(0, 0) =~= Seq::<Seq<char>>::empty());
                }
            }
            i += 1;
        }
        push_str(&mut out, "\n");
        push_str(&mut out, "  ");
        push_str(&mut out, "]");
        proof {
            assert(items.subrange(0, n as int) =~= items);
            assert(out@ =~= head + json_array(items, "  "@));
        }
    }
    push_str(&mut out, ",\n  \"metadata\": {\n    \"component\": {\n      \"hashes\": [\n        {\n          \"alg\": \"SHA-256\",\n          \"content\": ");
    push_json_str(&mut out, hashes.sha256.as_str());
    push_str(&mut out, "\n        },\n        {\n          \"alg\": \"MD5\",\n          \"content\": ");
    push_json_str(&mut out, hashes.md5.as_str());
    push_str(&mut out, "\n        }\n      ],\n      \"name\": ");
    push_json_str(&mut out, filename);
    push_str(&mut out, ",\n      \"type\": \"application\"\n    }\n  },\n  \"specVersion\": \"1.5\"\n}");
    proof {
        assert(out@ =~= spec_sbom(filename@, hashes.sha256@, hashes.md5@, deps@));
    }
    out
}

} // verus!
