//! The analysis pipeline's stage machine: order, names and progress.
use vstd::prelude::*;

verus! {

/// Stages an analysis passes through, in order.
#[derive(Debug, Clone, Copy, PartialEq, Eq, Structural)]
pub enum PipelineStage {
    Queued,
    Hashing,
    Identification,
    Unpacking,
    StaticAnalysis,
    Disassembly,
    GraphConstruction,
    FunctionExtraction,
    StringExtraction,
    ImportExportAnalysis,
    ResourceExtraction,
    AiSemantic,
    SecurityAnalysis,
    MalwareAnalysis,
    ReportGeneration,
    ChatIndexing,
    Completed,
    Failed,
}

/// Position of a stage on the normal path (`Failed` stands beside `Completed`).
pub open spec fn stage_index(s: PipelineStage) -> int {
    match s {
        PipelineStage::Queued => 0,
        PipelineStage::Hashing => 1,
        PipelineStage::Identification => 2,
        PipelineStage::Unpacking => 3,
        PipelineStage::StaticAnalysis => 4,
        PipelineStage::Disassembly => 5,
        PipelineStage::GraphConstruction => 6,
        PipelineStage::FunctionExtraction => 7,
        PipelineStage::StringExtraction => 8,
        PipelineStage::ImportExportAnalysis => 9,
        PipelineStage::ResourceExtraction => 10,
        PipelineStage::AiSemantic => 11,
        PipelineStage::SecurityAnalysis => 12,
        PipelineStage::MalwareAnalysis => 13,
        PipelineStage::ReportGeneration => 14,
        PipelineStage::ChatIndexing => 15,
        PipelineStage::Completed => 16,
        PipelineStage::Failed => 17,
    }
}

/// A stage after which nothing follows.
pub open spec fn is_terminal(s: PipelineStage) -> bool {
    s == PipelineStage::Completed || s == PipelineStage::Failed
}

/// The stage that follows `s`.
pub open spec fn spec_next(s: PipelineStage) -> Option<PipelineStage> {
    match s {
        PipelineStage::Queued => Some(PipelineStage::Hashing),
        PipelineStage::Hashing => Some(PipelineStage::Identification),
        PipelineStage::Identification => Some(PipelineStage::Unpacking),
        PipelineStage::Unpacking => Some(PipelineStage::StaticAnalysis),
        PipelineStage::StaticAnalysis => Some(PipelineStage::Disassembly),
        PipelineStage::Disassembly => Some(PipelineStage::GraphConstruction),
        PipelineStage::GraphConstruction => Some(PipelineStage::FunctionExtraction),
        PipelineStage::FunctionExtraction => Some(PipelineStage::StringExtraction),
        PipelineStage::StringExtraction => Some(PipelineStage::ImportExportAnalysis),
        PipelineStage::ImportExportAnalysis => Some(PipelineStage::ResourceExtraction),
        PipelineStage::ResourceExtraction => Some(PipelineStage::AiSemantic),
        PipelineStage::AiSemantic => Some(PipelineStage::SecurityAnalysis),
        PipelineStage::SecurityAnalysis => Some(PipelineStage::MalwareAnalysis),
        PipelineStage::MalwareAnalysis => Some(PipelineStage::ReportGeneration),
        PipelineStage::ReportGeneration => Some(PipelineStage::ChatIndexing),
        PipelineStage::ChatIndexing => Some(PipelineStage::Completed),
        PipelineStage::Completed => None,
        PipelineStage::Failed => None,
    }
}

/// The progress percentage reported for a stage.
pub open spec fn spec_progress(s: PipelineStage) -> u8 {
    match s {
        PipelineStage::Queued => 0,
        PipelineStage::Hashing => 5,
        PipelineStage::Identification => 10,
        PipelineStage::Unpacking => 15,
        PipelineStage::StaticAnalysis => 25,
        PipelineStage::Disassembly => 35,
        PipelineStage::GraphConstruction => 45,
        PipelineStage::FunctionExtraction => 52,
        PipelineStage::StringExtraction => 58,
        PipelineStage::ImportExportAnalysis => 64,
        PipelineStage::ResourceExtraction => 70,
        PipelineStage::AiSemantic => 80,
        PipelineStage::SecurityAnalysis => 86,
        PipelineStage::MalwareAnalysis => 90,
        PipelineStage::ReportGeneration => 95,
        PipelineStage::ChatIndexing => 98,
        PipelineStage::Completed => 100,
        PipelineStage::Failed => 100,
    }
}

/// The stage name used on the wire.
pub open spec fn spec_stage_name(s: PipelineStage) -> Seq<char> {
    match s {
        PipelineStage::Queued => "queued"@,
        PipelineStage::Hashing => "hashing"@,
        PipelineStage::Identification => "identification"@,
        PipelineStage::Unpacking => "unpacking"@,
        PipelineStage::StaticAnalysis => "static_analysis"@,
        PipelineStage::Disassembly => "disassembly"@,
        PipelineStage::GraphConstruction => "graph_construction"@,
        PipelineStage::FunctionExtraction => "function_extraction"@,
        PipelineStage::StringExtraction => "string_extraction"@,
        PipelineStage::ImportExportAnalysis => "import_export_analysis"@,
        PipelineStage::ResourceExtraction => "resource_extraction"@,
        PipelineStage::AiSemantic => "ai_semantic"@,
        PipelineStage::SecurityAnalysis => "security_analysis"@,
        PipelineStage::MalwareAnalysis => "malware_analysis"@,
        PipelineStage::ReportGeneration => "report_generation"@,
        PipelineStage::ChatIndexing => "chat_indexing"@,
        PipelineStage::Completed => "completed"@,
        PipelineStage::Failed => "failed"@,
    }
}

/// The stage reached from `s` after `k` steps of `next`, if the path is that long.
pub open spec fn advance(s: PipelineStage, k: nat) -> Option<PipelineStage>
    decreases k,
{
    if k == 0 {
        Some(s)
    } else {
        match spec_next(s) {
            Some(t) => advance(t, (k - 1) as nat),
            None => None,
        }
    }
}

impl PipelineStage {
    /// The stage that follows this one; `None` for `Completed` and `Failed`.
    pub fn next(self) -> (r: Option<PipelineStage>)
        ensures
            r == spec_next(self),
    {
        match self {
            PipelineStage::Queued => Some(PipelineStage::Hashing),
            PipelineStage::Hashing => Some(PipelineStage::Identification),
            PipelineStage::Identification => Some(PipelineStage::Unpacking),
            PipelineStage::Unpacking => Some(PipelineStage::StaticAnalysis),
            PipelineStage::StaticAnalysis => Some(PipelineStage::Disassembly),
            PipelineStage::Disassembly => Some(PipelineStage::GraphConstruction),
            PipelineStage::GraphConstruction => Some(PipelineStage::FunctionExtraction),
            PipelineStage::FunctionExtraction => Some(PipelineStage::StringExtraction),
            PipelineStage::StringExtraction => Some(PipelineStage::ImportExportAnalysis),
            PipelineStage::ImportExportAnalysis => Some(PipelineStage::ResourceExtraction),
            PipelineStage::ResourceExtraction => Some(PipelineStage::AiSemantic),
            PipelineStage::AiSemantic => Some(PipelineStage::SecurityAnalysis),
            PipelineStage::SecurityAnalysis => Some(PipelineStage::MalwareAnalysis),
            PipelineStage::MalwareAnalysis => Some(PipelineStage::ReportGeneration),
            PipelineStage::ReportGeneration => Some(PipelineStage::ChatIndexing),
            PipelineStage::ChatIndexing => Some(PipelineStage::Completed),
            PipelineStage::Completed => None,
            PipelineStage::Failed => None,
        }
    }

    /// The stage name used on the wire; distinct stages have distinct names
    /// (`law_stage_names_distinct`).
    pub fn as_str(self) -> (r: &'static str)
        ensures
            r@ == spec_stage_name(self),
    {
        match self {
            PipelineStage::Queued => "queued",
            PipelineStage::Hashing => "hashing",
            PipelineStage::Identification => "identification",
            PipelineStage::Unpacking => "unpacking",
            PipelineStage::StaticAnalysis => "static_analysis",
            PipelineStage::Disassembly => "disassembly",
            PipelineStage::GraphConstruction => "graph_construction",
            PipelineStage::FunctionExtraction => "function_extraction",
            PipelineStage::StringExtraction => "string_extraction",
            PipelineStage::ImportExportAnalysis => "import_export_analysis",
            PipelineStage::ResourceExtraction => "resource_extraction",
            PipelineStage::AiSemantic => "ai_semantic",
            PipelineStage::SecurityAnalysis => "security_analysis",
            PipelineStage::MalwareAnalysis => "malware_analysis",
            PipelineStage::ReportGeneration => "report_generation",
            PipelineStage::ChatIndexing => "chat_indexing",
            PipelineStage::Completed => "completed",
            PipelineStage::Failed => "failed",
        }
    }

    /// The progress percentage reported for this stage.
    pub fn progress_percent(self) -> (r: u8)
        ensures
            r == spec_progress(self),
    {
        match self {
            PipelineStage::Queued => 0,
            PipelineStage::Hashing => 5,
            PipelineStage::Identification => 10,
            PipelineStage::Unpacking => 15,
            PipelineStage::StaticAnalysis => 25,
            PipelineStage::Disassembly => 35,
            PipelineStage::GraphConstruction => 45,
            PipelineStage::FunctionExtraction => 52,
            PipelineStage::StringExtraction => 58,
            PipelineStage::ImportExportAnalysis => 64,
            PipelineStage::ResourceExtraction => 70,
            PipelineStage::AiSemantic => 80,
            PipelineStage::SecurityAnalysis => 86,
            PipelineStage::MalwareAnalysis => 90,
            PipelineStage::ReportGeneration => 95,
            PipelineStage::ChatIndexing => 98,
            PipelineStage::Completed => 100,
            PipelineStage::Failed => 100,
        }
    }
}

/// Every stage but `Completed` and `Failed` has a successor, which lies one step
/// further along the path and reports strictly more progress; progress never
/// exceeds 100, and the terminal stages report exactly 100.
pub proof fn law_next_advances(s: PipelineStage)
    ensures
        spec_next(s) is None <==> is_terminal(s),
        spec_next(s) matches Some(t) ==> stage_index(t) == stage_index(s) + 1 && spec_progress(s)
            < spec_progress(t),
        spec_progress(s) <= 100,
        is_terminal(s) ==> spec_progress(s) == 100,
{
}

/// `Failed` is never reached by `next`: it is entered only by an explicit failure.
pub proof fn law_failed_not_successor(s: PipelineStage)
    ensures
        spec_next(s) != Some(PipelineStage::Failed),
{
}

/// From every stage on the normal path, following `next` reaches `Completed`
/// after exactly `16 - index` steps.
pub proof fn law_reaches_completed(s: PipelineStage)
    requires
        s != PipelineStage::Failed,
    ensures
        advance(s, (16 - stage_index(s)) as nat) == Some(PipelineStage::Completed),
    decreases 16 - stage_index(s),
{
    if s != PipelineStage::Completed {
        let t = spec_next(s).unwrap();
        law_next_advances(s);
        law_reaches_completed(t);
        assert(advance(s, (16 - stage_index(s)) as nat) == advance(t, (16 - stage_index(t)) as nat));
    }
}

/// Distinct stages have distinct wire names.
pub proof fn law_stage_names_distinct(a: PipelineStage, b: PipelineStage)
    requires
        a != b,
    ensures
        spec_stage_name(a) != spec_stage_name(b),
{
    reveal_strlit("queued");
    reveal_strlit("hashing");
    reveal_strlit("identification");
    reveal_strlit("unpacking");
    reveal_strlit("static_analysis");
    reveal_strlit("disassembly");
    reveal_strlit("graph_construction");
    reveal_strlit("function_extraction");
    reveal_strlit("string_extraction");
    reveal_strlit("import_export_analysis");
    reveal_strlit("resource_extraction");
    reveal_strlit("ai_semantic");
    reveal_strlit("security_analysis");
    reveal_strlit("malware_analysis");
    reveal_strlit("report_generation");
    reveal_strlit("chat_indexing");
    reveal_strlit("completed");
    reveal_strlit("failed");
    if spec_stage_name(a) == spec_stage_name(b) {
        let x = spec_stage_name(a);
        assert(x.len() == spec_stage_name(b).len());
        assert(x[0] == spec_stage_name(b)[0]);
        assert(x[1] == spec_stage_name(b)[1]);
        assert(x[x.len() - 1] == spec_stage_name(b)[x.len() - 1]);
        assert(x[2] == spec_stage_name(b)[2]);
    }
}

} // verus!
