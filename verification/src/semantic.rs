//! Function enrichment and the report summaries.
use vstd::prelude::*;
use crate::model::{function_views, import_views, string_views, ExtractedString, FunctionAnalysis, FunctionView, ImportEntry};
use crate::rename::{join_with, spec_suggest_one, suggest_names};
use crate::strings::take_upto;
use crate::text::{owned, push_str, push_string, strings_view};

verus! {

/// The complexity (in eightieths) that a function of `size` bytes gets when
/// it has none above 1.0: its size in 16-byte units, between 1 and 100.
pub open spec fn size_complexity(size: u64) -> u32 {
    if size >= 1600 {
        8000
    } else if 5 * size < 80 {
        80
    } else {
        (5 * size) as u32
    }
}

/// Fills what the rename rules leave open: default inputs and outputs, and
/// a size-based complexity where the complexity is at most 1.0.
pub open spec fn spec_fill_defaults(f: FunctionView) -> FunctionView {
    FunctionView {
        inputs: if f.inputs.len() == 0 { seq!["machine state / arguments (inferred)"@] } else { f.inputs },
        outputs: if f.outputs.len() == 0 { seq!["side effects / return value (inferred)"@] } else { f.outputs },
        complexity: if f.complexity <= 80 { size_complexity(f.size) } else { f.complexity },
        ..f
    }
}

fn fill_defaults(f: &mut FunctionAnalysis)
    ensures
        final(f)@ == spec_fill_defaults(old(f)@),
{
    if f.inputs.len() == 0 {
        f.inputs = vec![owned("machine state / arguments (inferred)")];
        proof {
            assert(strings_view(f.inputs@) =~= seq!["machine state / arguments (inferred)"@]);
        }
    }
    if f.outputs.len() == 0 {
        f.outputs = vec![owned("side effects / return value (inferred)")];
        proof {
            assert(strings_view(f.outputs@) =~= seq!["side effects / return value (inferred)"@]);
        }
    }
    if f.complexity <= 80 {
        f.complexity = if f.size >= 1600 {
            8000
        } else if 5 * f.size < 80 {
            80
        } else {
            (5 * f.size) as u32
        };
    }
}

/// Names, describes and fills in the functions: the rename suggestions,
/// then default inputs and outputs where none are known and a size-based
/// complexity (size / 16, between 1 and 100) where it is at most 1.0.
pub fn enrich_functions(functions: &mut Vec<FunctionAnalysis>, imports: &[ImportEntry], strings: &[ExtractedString])
    ensures
        final(functions)@.len() == old(functions)@.len(),
        forall|i: int|
            0 <= i < old(functions)@.len() ==> #[trigger] final(functions)@[i]@ == spec_fill_defaults(
                spec_suggest_one(old(functions)@[i]@, import_views(imports@), string_views(strings@)),
            ),
{
    suggest_names(functions, imports, strings);
    let ghost named = functions@;
    let mut i: usize = 0;
    while i < functions.len()
        invariant
            i <= functions@.len(),
            functions@.len() == named.len(),
            forall|k: int|
                0 <= k < named.len() ==> #[trigger] functions@[k]@ == (if k < i {
                    spec_fill_defaults(named[k]@)
                } else {
                    named[k]@
                }),
        decreases functions@.len() - i,
    {
        let mut f = functions.remove(i);
        fill_defaults(&mut f);
        functions.insert(i, f);
        proof {
            assert forall|k: int| 0 <= k < named.len() implies #[trigger] functions@[k]@ == (if k < i + 1 {
                spec_fill_defaults(named[k]@)
            } else {
                named[k]@
            }) by {}
        }
        i += 1;
    }
}

// ---------------------------------------------------------------------------
// Summaries
// ---------------------------------------------------------------------------

/// Joins at most `limit` of the texts with `sep` between them.
pub fn join_first(items: &[String], sep: &str, limit: usize) -> (r: String)
    ensures
        r@ == join_with(sep@, take_upto(strings_view(items@), limit as int)),
{
    let n: usize = if items.len() < limit { items.len() } else { limit };
    let ghost all = take_upto(strings_view(items@), limit as int);
    proof {
        assert(all.len() == n);
    }
    let mut out = String::new();
    let mut i: usize = 0;
    while i < n
        invariant
            i <= n,
            n <= items@.len(),
            all.len() == n,
            all == take_upto(strings_view(items@), limit as int),
            out@ == join_with(sep@, all.subrange(0, i as int)),
        decreases n - i,
    {
        if i > 0 {
            push_str(&mut out, sep);
        }
        push_string(&mut out, &items[i]);
        proof {
            let pre = all.subrange(0, i + 1);
            assert(pre.drop_last() =~= all.subrange(0, i as int));
            assert(all[i as int] == items@[i as int]@);
            assert(out@ =~= join_with(sep@, pre));
        }
        i += 1;
    }
    proof {
        assert(all.subrange(0, n as int) =~= all);
    }
    out
}

/// The executive summary.
pub open spec fn executive_text(filename: Seq<char>, identity: Seq<char>, malware: Seq<char>, top: Seq<Seq<char>>) -> Seq<char> {
    filename + " analyzed by Binaris. "@ + identity + " "@ + malware + " Key issues: "@ + (if top.len() == 0 {
        "none critical"@
    } else {
        join_with("; "@, take_upto(top, 5))
    }) + "."@
}

/// The technical summary.
pub open spec fn technical_text(filename: Seq<char>, identity: Seq<char>, top: Seq<Seq<char>>) -> Seq<char> {
    "Static pipeline completed for "@ + filename + ". "@ + identity + " Findings detail: "@ + join_with(
        " | "@,
        top,
    )
}

/// The executive summary (at most five key issues, or `none critical`) and
/// the technical summary (every finding) of an analysis.
pub fn build_summaries(filename: &str, identity_line: &str, malware_line: &str, top_findings: &[String]) -> (r: (String, String))
    ensures
        r.0@ == executive_text(filename@, identity_line@, malware_line@, strings_view(top_findings@)),
        r.1@ == technical_text(filename@, identity_line@, strings_view(top_findings@)),
{
    let mut executive = owned(filename);
    push_str(&mut executive, " analyzed by Binaris. ");
    push_str(&mut executive, identity_line);
    push_str(&mut executive, " ");
    push_str(&mut executive, malware_line);
    push_str(&mut executive, " Key issues: ");
    if top_findings.len() == 0 {
        push_str(&mut executive, "none critical");
    } else {
        let j = join_first(top_findings, "; ", 5);
        push_string(&mut executive, &j);
    }
    push_str(&mut executive, ".");
    let mut technical = owned("Static pipeline completed for ");
    push_str(&mut technical, filename);
    push_str(&mut technical, ". ");
    push_str(&mut technical, identity_line);
    push_str(&mut technical, " Findings detail: ");
    let all = join_first(top_findings, " | ", top_findings.len());
    push_string(&mut technical, &all);
    proof {
        assert(take_upto(strings_view(top_findings@), top_findings@.len() as int) =~= strings_view(top_findings@));
        assert(executive@ =~= executive_text(filename@, identity_line@, malware_line@, strings_view(top_findings@)));
        assert(technical@ =~= technical_text(filename@, identity_line@, strings_view(top_findings@)));
    }
    (executive, technical)
}

} // verus!
