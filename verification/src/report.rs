//! The analysis report and its parts: malware classification, graphs and
//! generated documents.
//!
//! Identifiers are held as their text, times as RFC 3339 text, and
//! free-form JSON values as JSON text.
use vstd::prelude::*;
use crate::model::{
    crypto_views, evidence_views, function_views, import_views, network_views, packer_views,
    section_views, security_views, string_views, BinaryIdentity, CryptoFinding, CryptoFindingView,
    DependencyInfo, DigitalSignatureInfo, Evidence, EvidenceView, ExportEntry, ExtractedString,
    ExtractedStringView, FileHashes, FunctionAnalysis, FunctionView, IdentityView, ImportEntry,
    ImportView, MalwareFamily, NetworkIndicator, NetworkIndicatorView, PackerFinding,
    PackerFindingView, ReportFormat, ReportKind, ResourceEntry, SectionInfo, SectionView,
    RiskLevel, SecurityFinding, SecurityFindingView,
};
use crate::pipeline::PipelineStage;
use crate::text::{opt_view, strings_view};

verus! {

/// The malware verdict; probability and confidence in hundredths.
#[derive(Debug, Clone)]
pub struct MalwareClassification {
    pub family: MalwareFamily,
    pub confidence: u32,
    pub malware_probability: u32,
    pub reasoning: String,
    pub evidence: Vec<Evidence>,
    pub suspicious_apis: Vec<String>,
    pub suspicious_strings: Vec<String>,
    pub behaviors: Vec<String>,
    pub persistence: Vec<String>,
    pub privilege_escalation: Vec<String>,
    pub process_injection: Vec<String>,
    pub anti_analysis: Vec<String>,
}

pub struct MalwareView {
    pub family: MalwareFamily,
    pub confidence: u32,
    pub malware_probability: u32,
    pub reasoning: Seq<char>,
    pub evidence: Seq<EvidenceView>,
    pub suspicious_apis: Seq<Seq<char>>,
    pub suspicious_strings: Seq<Seq<char>>,
    pub behaviors: Seq<Seq<char>>,
    pub persistence: Seq<Seq<char>>,
    pub privilege_escalation: Seq<Seq<char>>,
    pub process_injection: Seq<Seq<char>>,
    pub anti_analysis: Seq<Seq<char>>,
}

impl View for MalwareClassification {
    type V = MalwareView;

    open spec fn view(&self) -> MalwareView {
        MalwareView {
            family: self.family,
            confidence: self.confidence,
            malware_probability: self.malware_probability,
            reasoning: self.reasoning@,
            evidence: evidence_views(self.evidence@),
            suspicious_apis: strings_view(self.suspicious_apis@),
            suspicious_strings: strings_view(self.suspicious_strings@),
            behaviors: strings_view(self.behaviors@),
            persistence: strings_view(self.persistence@),
            privilege_escalation: strings_view(self.privilege_escalation@),
            process_injection: strings_view(self.process_injection@),
            anti_analysis: strings_view(self.anti_analysis@),
        }
    }
}

/// A value in a node's metadata (a JSON value once serialized).
#[derive(Debug, Clone)]
pub enum MetaValue {
    Null,
    Bool(bool),
    Count(u64),
    Text(String),
    Texts(Vec<String>),
    /// A score in hundredths (a JSON number such as 0.55).
    Hundredths(u32),
    /// A complexity in eightieths (a JSON number such as 2.5).
    Eightieths(u32),
    Risk(RiskLevel),
}

pub enum MetaValueView {
    Null,
    Bool(bool),
    Count(u64),
    Text(Seq<char>),
    Texts(Seq<Seq<char>>),
    Hundredths(u32),
    Eightieths(u32),
    Risk(RiskLevel),
}

impl View for MetaValue {
    type V = MetaValueView;

    open spec fn view(&self) -> MetaValueView {
        match self {
            MetaValue::Null => MetaValueView::Null,
            MetaValue::Bool(b) => MetaValueView::Bool(*b),
            MetaValue::Count(n) => MetaValueView::Count(*n),
            MetaValue::Text(t) => MetaValueView::Text(t@),
            MetaValue::Texts(v) => MetaValueView::Texts(strings_view(v@)),
            MetaValue::Hundredths(h) => MetaValueView::Hundredths(*h),
            MetaValue::Eightieths(e) => MetaValueView::Eightieths(*e),
            MetaValue::Risk(r) => MetaValueView::Risk(*r),
        }
    }
}

/// A node's metadata: keys and values (a JSON object once serialized).
pub open spec fn meta_views(v: Seq<(String, MetaValue)>) -> Seq<(Seq<char>, MetaValueView)> {
    v.map_values(|e: (String, MetaValue)| (e.0@, e.1@))
}

/// A node of a graph.
#[derive(Debug, Clone)]
pub struct GraphNode {
    pub id: String,
    pub label: String,
    pub kind: String,
    pub address: Option<u64>,
    pub meta: Vec<(String, MetaValue)>,
}

/// An edge of a graph.
#[derive(Debug, Clone)]
pub struct GraphEdge {
    pub id: String,
    pub source: String,
    pub target: String,
    pub kind: String,
    pub label: Option<String>,
}

/// A graph: nodes and edges.
#[derive(Debug, Clone)]
pub struct GraphPayload {
    pub nodes: Vec<GraphNode>,
    pub edges: Vec<GraphEdge>,
}

pub struct GraphNodeView {
    pub id: Seq<char>,
    pub label: Seq<char>,
    pub kind: Seq<char>,
    pub address: Option<u64>,
    pub meta: Seq<(Seq<char>, MetaValueView)>,
}

/// An edge without its random identifier.
pub struct GraphEdgeView {
    pub source: Seq<char>,
    pub target: Seq<char>,
    pub kind: Seq<char>,
    pub label: Option<Seq<char>>,
}

pub struct GraphView {
    pub nodes: Seq<GraphNodeView>,
    pub edges: Seq<GraphEdgeView>,
}

impl View for GraphNode {
    type V = GraphNodeView;

    open spec fn view(&self) -> GraphNodeView {
        GraphNodeView {
            id: self.id@,
            label: self.label@,
            kind: self.kind@,
            address: self.address,
            meta: meta_views(self.meta@),
        }
    }
}

impl View for GraphEdge {
    type V = GraphEdgeView;

    open spec fn view(&self) -> GraphEdgeView {
        GraphEdgeView {
            source: self.source@,
            target: self.target@,
            kind: self.kind@,
            label: opt_view(self.label),
        }
    }
}

pub open spec fn node_views(v: Seq<GraphNode>) -> Seq<GraphNodeView> {
    v.map_values(|n: GraphNode| n@)
}

pub open spec fn edge_views(v: Seq<GraphEdge>) -> Seq<GraphEdgeView> {
    v.map_values(|e: GraphEdge| e@)
}

impl View for GraphPayload {
    type V = GraphView;

    open spec fn view(&self) -> GraphView {
        GraphView { nodes: node_views(self.nodes@), edges: edge_views(self.edges@) }
    }
}

impl GraphPayload {
    /// A graph with no nodes and no edges.
    pub fn empty() -> (g: GraphPayload)
        ensures
            g@.nodes.len() == 0,
            g@.edges.len() == 0,
    {
        GraphPayload { nodes: Vec::new(), edges: Vec::new() }
    }
}

/// Everything an analysis found about one file.
#[derive(Debug, Clone)]
pub struct AnalysisReport {
    pub id: String,
    pub file_id: String,
    pub project_id: String,
    pub stage: PipelineStage,
    pub progress: u8,
    pub created_at: String,
    pub updated_at: String,
    pub completed_at: Option<String>,
    pub error: Option<String>,
    pub filename: String,
    pub size_bytes: u64,
    pub hashes: FileHashes,
    pub identity: BinaryIdentity,
    pub sections: Vec<SectionInfo>,
    pub imports: Vec<ImportEntry>,
    pub exports: Vec<ExportEntry>,
    pub strings: Vec<ExtractedString>,
    pub network: Vec<NetworkIndicator>,
    pub crypto: Vec<CryptoFinding>,
    pub packers: Vec<PackerFinding>,
    pub functions: Vec<FunctionAnalysis>,
    pub security: Vec<SecurityFinding>,
    pub malware: MalwareClassification,
    pub signature: DigitalSignatureInfo,
    pub resources: Vec<ResourceEntry>,
    pub dependencies: Vec<DependencyInfo>,
    pub call_graph: GraphPayload,
    pub cfg_summary: GraphPayload,
    pub import_graph: GraphPayload,
    pub dfg: GraphPayload,
    pub memory_graph: GraphPayload,
    pub network_graph: GraphPayload,
    pub network_intel: String,
    pub decomp_backends: String,
    pub language_structures: String,
    pub executive_summary: String,
    pub technical_summary: String,
    pub iocs: Vec<String>,
    pub yara_rules: Vec<String>,
    pub sbom: String,
}

/// What the report-reading rules see of a report.
pub struct ReportView {
    pub id: Seq<char>,
    pub filename: Seq<char>,
    pub size_bytes: u64,
    pub sha256: Seq<char>,
    pub identity: IdentityView,
    pub sections: Seq<SectionView>,
    pub imports: Seq<ImportView>,
    pub exports_len: nat,
    pub strings: Seq<ExtractedStringView>,
    pub network: Seq<NetworkIndicatorView>,
    pub crypto: Seq<CryptoFindingView>,
    pub packers: Seq<PackerFindingView>,
    pub functions: Seq<FunctionView>,
    pub security: Seq<SecurityFindingView>,
    pub malware: MalwareView,
    pub dependencies_len: nat,
    pub call_graph: GraphView,
    pub executive_summary: Seq<char>,
    pub technical_summary: Seq<char>,
    pub iocs: Seq<Seq<char>>,
    pub sbom: Seq<char>,
}

impl View for AnalysisReport {
    type V = ReportView;

    open spec fn view(&self) -> ReportView {
        ReportView {
            id: self.id@,
            filename: self.filename@,
            size_bytes: self.size_bytes,
            sha256: self.hashes.sha256@,
            identity: self.identity@,
            sections: section_views(self.sections@),
            imports: import_views(self.imports@),
            exports_len: self.exports@.len(),
            strings: string_views(self.strings@),
            network: network_views(self.network@),
            crypto: crypto_views(self.crypto@),
            packers: packer_views(self.packers@),
            functions: function_views(self.functions@),
            security: security_views(self.security@),
            malware: self.malware@,
            dependencies_len: self.dependencies@.len(),
            call_graph: self.call_graph@,
            executive_summary: self.executive_summary@,
            technical_summary: self.technical_summary@,
            iocs: strings_view(self.iocs@),
            sbom: self.sbom@,
        }
    }
}

/// A generated report document.
#[derive(Debug, Clone)]
pub struct ReportDocument {
    pub id: String,
    pub analysis_id: String,
    pub kind: ReportKind,
    pub format: ReportFormat,
    pub title: String,
    pub content: String,
    pub created_at: String,
}

pub struct DocumentView {
    pub analysis_id: Seq<char>,
    pub kind: ReportKind,
    pub format: ReportFormat,
    pub title: Seq<char>,
    pub content: Seq<char>,
    pub created_at: Seq<char>,
}

impl View for ReportDocument {
    type V = DocumentView;

    /// The document without its random identifier.
    open spec fn view(&self) -> DocumentView {
        DocumentView {
            analysis_id: self.analysis_id@,
            kind: self.kind,
            format: self.format,
            title: self.title@,
            content: self.content@,
            created_at: self.created_at@,
        }
    }
}

pub open spec fn document_views(v: Seq<ReportDocument>) -> Seq<DocumentView> {
    v.map_values(|d: ReportDocument| d@)
}

} // verus!
