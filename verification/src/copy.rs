//! Deep copies of the analysis records: every text, number, flag and list
//! of a copy equals the original's, all the way down.
use vstd::prelude::*;
use crate::model::{
    BinaryIdentity, CryptoFinding, DependencyInfo, DigitalSignatureInfo, Evidence, ExportEntry,
    ExtractedString, FileHashes, FunctionAnalysis, ImportEntry, NetworkIndicator, PackerFinding,
    ResourceEntry, SectionInfo, SecurityFinding,
};
use crate::report::{AnalysisReport, GraphEdge, GraphNode, GraphPayload, MalwareClassification, MetaValue};

verus! {

/// A value that can be copied with everything it holds.
pub trait DeepCopy: Sized {
    /// `other` holds the same as `self`, all the way down.
    spec fn same(&self, other: &Self) -> bool;

    fn deep_copy(&self) -> (r: Self)
        ensures
            self.same(&r);
}

/// Two lists hold the same items, position by position.
pub open spec fn same_all<T: DeepCopy>(a: Seq<T>, b: Seq<T>) -> bool {
    &&& a.len() == b.len()
    &&& forall|i: int| 0 <= i < a.len() ==> #[trigger] a[i].same(&b[i])
}

impl DeepCopy for String {
    open spec fn same(&self, other: &Self) -> bool {
        self@ == other@
    }

    fn deep_copy(&self) -> (r: Self) {
        self.clone()
    }
}

impl DeepCopy for u64 {
    open spec fn same(&self, other: &Self) -> bool {
        *self == *other
    }

    fn deep_copy(&self) -> (r: Self) {
        *self
    }
}

impl<T: DeepCopy> DeepCopy for Option<T> {
    open spec fn same(&self, other: &Self) -> bool {
        match (self, other) {
            (Some(a), Some(b)) => a.same(b),
            (None, None) => true,
            _ => false,
        }
    }

    fn deep_copy(&self) -> (r: Self) {
        match self {
            Some(x) => Some(x.deep_copy()),
            None => None,
        }
    }
}

impl<A: DeepCopy, B: DeepCopy> DeepCopy for (A, B) {
    open spec fn same(&self, other: &Self) -> bool {
        self.0.same(&other.0) && self.1.same(&other.1)
    }

    fn deep_copy(&self) -> (r: Self) {
        (self.0.deep_copy(), self.1.deep_copy())
    }
}

impl<T: DeepCopy> DeepCopy for Vec<T> {
    open spec fn same(&self, other: &Self) -> bool {
        same_all(self@, other@)
    }

    fn deep_copy(&self) -> (r: Self) {
        let mut out: Vec<T> = Vec::new();
        let mut i: usize = 0;
        while i < self.len()
            invariant
                i <= self@.len(),
                out@.len() == i,
                forall|j: int| 0 <= j < i ==> #[trigger] self@[j].same(&out@[j]),
            decreases self@.len() - i,
        {
            let c = self[i].deep_copy();
            out.push(c);
            i += 1;
        }
        out
    }
}

impl DeepCopy for Evidence {
    open spec fn same(&self, other: &Self) -> bool {
        self@ == other@
    }

    fn deep_copy(&self) -> (r: Self) {
        self.duplicate()
    }
}

impl DeepCopy for MetaValue {
    open spec fn same(&self, other: &Self) -> bool {
        match (self, other) {
            (MetaValue::Null, MetaValue::Null) => true,
            (MetaValue::Bool(a), MetaValue::Bool(b)) => a == b,
            (MetaValue::Count(a), MetaValue::Count(b)) => a == b,
            (MetaValue::Text(a), MetaValue::Text(b)) => a.same(b),
            (MetaValue::Texts(a), MetaValue::Texts(b)) => a.same(b),
            (MetaValue::Hundredths(a), MetaValue::Hundredths(b)) => a == b,
            (MetaValue::Eightieths(a), MetaValue::Eightieths(b)) => a == b,
            (MetaValue::Risk(a), MetaValue::Risk(b)) => a == b,
            _ => false,
        }
    }

    fn deep_copy(&self) -> (r: Self) {
        match self {
            MetaValue::Null => MetaValue::Null,
            MetaValue::Bool(b) => MetaValue::Bool(*b),
            MetaValue::Count(n) => MetaValue::Count(*n),
            MetaValue::Text(t) => MetaValue::Text(t.deep_copy()),
            MetaValue::Texts(t) => MetaValue::Texts(t.deep_copy()),
            MetaValue::Hundredths(h) => MetaValue::Hundredths(*h),
            MetaValue::Eightieths(e) => MetaValue::Eightieths(*e),
            MetaValue::Risk(r) => MetaValue::Risk(*r),
        }
    }
}

impl DeepCopy for FileHashes {
    open spec fn same(&self, other: &Self) -> bool {
        &&& self.md5.same(&other.md5)
        &&& self.sha1.same(&other.sha1)
        &&& self.sha256.same(&other.sha256)
        &&& self.sha3_256.same(&other.sha3_256)
        &&& self.blake3.same(&other.blake3)
        &&& self.imphash.same(&other.imphash)
        &&& self.ssdeep.same(&other.ssdeep)
        &&& self.tlsh.same(&other.tlsh)
    }

    fn deep_copy(&self) -> (r: Self) {
        FileHashes {
            md5: self.md5.deep_copy(),
            sha1: self.sha1.deep_copy(),
            sha256: self.sha256.deep_copy(),
            sha3_256: self.sha3_256.deep_copy(),
            blake3: self.blake3.deep_copy(),
            imphash: self.imphash.deep_copy(),
            ssdeep: self.ssdeep.deep_copy(),
            tlsh: self.tlsh.deep_copy(),
        }
    }
}

impl DeepCopy for BinaryIdentity {
    open spec fn same(&self, other: &Self) -> bool {
        &&& self.format == other.format
        &&& self.architecture == other.architecture
        &&& self.endianness.same(&other.endianness)
        &&& self.bits == other.bits
        &&& self.os == other.os
        &&& self.is_dll == other.is_dll
        &&& self.is_driver == other.is_driver
        &&& self.is_shared_object == other.is_shared_object
        &&& self.entry_point == other.entry_point
        &&& self.image_base == other.image_base
        &&& self.compiler.same(&other.compiler)
        &&& self.compiler_version.same(&other.compiler_version)
        &&& self.language.same(&other.language)
        &&& self.build_system.same(&other.build_system)
        &&& self.framework.same(&other.framework)
        &&& self.linker.same(&other.linker)
        &&& self.packed == other.packed
        &&& self.packer.same(&other.packer)
        &&& self.obfuscated == other.obfuscated
        &&& self.obfuscation.same(&other.obfuscation)
        &&& self.encrypted_sections.same(&other.encrypted_sections)
        &&& self.compressed == other.compressed
        &&& self.has_debug_symbols == other.has_debug_symbols
        &&& self.has_signature == other.has_signature
        &&& self.mime.same(&other.mime)
    }

    fn deep_copy(&self) -> (r: Self) {
        BinaryIdentity {
            format: self.format,
            architecture: self.architecture,
            endianness: self.endianness.deep_copy(),
            bits: self.bits,
            os: self.os,
            is_dll: self.is_dll,
            is_driver: self.is_driver,
            is_shared_object: self.is_shared_object,
            entry_point: self.entry_point,
            image_base: self.image_base,
            compiler: self.compiler.deep_copy(),
            compiler_version: self.compiler_version.deep_copy(),
            language: self.language.deep_copy(),
            build_system: self.build_system.deep_copy(),
            framework: self.framework.deep_copy(),
            linker: self.linker.deep_copy(),
            packed: self.packed,
            packer: self.packer.deep_copy(),
            obfuscated: self.obfuscated,
            obfuscation: self.obfuscation.deep_copy(),
            encrypted_sections: self.encrypted_sections.deep_copy(),
            compressed: self.compressed,
            has_debug_symbols: self.has_debug_symbols,
            has_signature: self.has_signature,
            mime: self.mime.deep_copy(),
        }
    }
}

impl DeepCopy for SectionInfo {
    open spec fn same(&self, other: &Self) -> bool {
        &&& self.name.same(&other.name)
        &&& self.virtual_address == other.virtual_address
        &&& self.virtual_size == other.virtual_size
        &&& self.raw_size == other.raw_size
        &&& self.entropy == other.entropy
        &&& self.characteristics.same(&other.characteristics)
        &&& self.permissions.same(&other.permissions)
    }

    fn deep_copy(&self) -> (r: Self) {
        SectionInfo {
            name: self.name.deep_copy(),
            virtual_address: self.virtual_address,
            virtual_size: self.virtual_size,
            raw_size: self.raw_size,
            entropy: self.entropy,
            characteristics: self.characteristics.deep_copy(),
            permissions: self.permissions.deep_copy(),
        }
    }
}

impl DeepCopy for ImportEntry {
    open spec fn same(&self, other: &Self) -> bool {
        &&& self.module.same(&other.module)
        &&& self.symbol.same(&other.symbol)
        &&& self.ordinal == other.ordinal
        &&& self.address == other.address
        &&& self.risk == other.risk
        &&& self.tags.same(&other.tags)
    }

    fn deep_copy(&self) -> (r: Self) {
        ImportEntry {
            module: self.module.deep_copy(),
            symbol: self.symbol.deep_copy(),
            ordinal: self.ordinal,
            address: self.address,
            risk: self.risk,
            tags: self.tags.deep_copy(),
        }
    }
}

impl DeepCopy for ExportEntry {
    open spec fn same(&self, other: &Self) -> bool {
        &&& self.symbol.same(&other.symbol)
        &&& self.ordinal == other.ordinal
        &&& self.address == other.address
        &&& self.forwarded.same(&other.forwarded)
    }

    fn deep_copy(&self) -> (r: Self) {
        ExportEntry {
            symbol: self.symbol.deep_copy(),
            ordinal: self.ordinal,
            address: self.address,
            forwarded: self.forwarded.deep_copy(),
        }
    }
}

impl DeepCopy for ExtractedString {
    open spec fn same(&self, other: &Self) -> bool {
        &&& self.value.same(&other.value)
        &&& self.offset == other.offset
        &&& self.encoding.same(&other.encoding)
        &&& self.category == other.category
        &&& self.score == other.score
    }

    fn deep_copy(&self) -> (r: Self) {
        ExtractedString {
            value: self.value.deep_copy(),
            offset: self.offset,
            encoding: self.encoding.deep_copy(),
            category: self.category,
            score: self.score,
        }
    }
}

impl DeepCopy for NetworkIndicator {
    open spec fn same(&self, other: &Self) -> bool {
        &&& self.kind == other.kind
        &&& self.value.same(&other.value)
        &&& self.port == other.port
        &&& self.protocol.same(&other.protocol)
        &&& self.evidence.same(&other.evidence)
        &&& self.suspicious == other.suspicious
    }

    fn deep_copy(&self) -> (r: Self) {
        NetworkIndicator {
            kind: self.kind,
            value: self.value.deep_copy(),
            port: self.port,
            protocol: self.protocol.deep_copy(),
            evidence: self.evidence.deep_copy(),
            suspicious: self.suspicious,
        }
    }
}

impl DeepCopy for CryptoFinding {
    open spec fn same(&self, other: &Self) -> bool {
        &&& self.algorithm.same(&other.algorithm)
        &&& self.category.same(&other.category)
        &&& self.mode.same(&other.mode)
        &&& self.strength.same(&other.strength)
        &&& self.weakness.same(&other.weakness)
        &&& self.confidence == other.confidence
        &&& self.evidence.same(&other.evidence)
    }

    fn deep_copy(&self) -> (r: Self) {
        CryptoFinding {
            algorithm: self.algorithm.deep_copy(),
            category: self.category.deep_copy(),
            mode: self.mode.deep_copy(),
            strength: self.strength.deep_copy(),
            weakness: self.weakness.deep_copy(),
            confidence: self.confidence,
            evidence: self.evidence.deep_copy(),
        }
    }
}

impl DeepCopy for PackerFinding {
    open spec fn same(&self, other: &Self) -> bool {
        &&& self.name.same(&other.name)
        &&& self.confidence == other.confidence
        &&& self.evidence.same(&other.evidence)
    }

    fn deep_copy(&self) -> (r: Self) {
        PackerFinding { name: self.name.deep_copy(), confidence: self.confidence, evidence: self.evidence.deep_copy() }
    }
}

impl DeepCopy for FunctionAnalysis {
    open spec fn same(&self, other: &Self) -> bool {
        &&& self.id.same(&other.id)
        &&& self.address == other.address
        &&& self.size == other.size
        &&& self.name.same(&other.name)
        &&& self.suggested_name.same(&other.suggested_name)
        &&& self.description.same(&other.description)
        &&& self.purpose.same(&other.purpose)
        &&& self.inputs.same(&other.inputs)
        &&& self.outputs.same(&other.outputs)
        &&& self.complexity == other.complexity
        &&& self.interesting_constants.same(&other.interesting_constants)
        &&& self.possible_vulnerabilities.same(&other.possible_vulnerabilities)
        &&& self.possible_crypto == other.possible_crypto
        &&& self.possible_networking == other.possible_networking
        &&& self.possible_anti_debug == other.possible_anti_debug
        &&& self.possible_persistence == other.possible_persistence
        &&& self.possible_injection == other.possible_injection
        &&& self.xrefs_from.same(&other.xrefs_from)
        &&& self.xrefs_to.same(&other.xrefs_to)
        &&& self.pseudocode_summary.same(&other.pseudocode_summary)
        &&& self.assembly_preview.same(&other.assembly_preview)
        &&& self.confidence == other.confidence
        &&& self.evidence.same(&other.evidence)
        &&& self.tags.same(&other.tags)
    }

    fn deep_copy(&self) -> (r: Self) {
        FunctionAnalysis {
            id: self.id.deep_copy(),
            address: self.address,
            size: self.size,
            name: self.name.deep_copy(),
            suggested_name: self.suggested_name.deep_copy(),
            description: self.description.deep_copy(),
            purpose: self.purpose.deep_copy(),
            inputs: self.inputs.deep_copy(),
            outputs: self.outputs.deep_copy(),
            complexity: self.complexity,
            interesting_constants: self.interesting_constants.deep_copy(),
            possible_vulnerabilities: self.possible_vulnerabilities.deep_copy(),
            possible_crypto: self.possible_crypto,
            possible_networking: self.possible_networking,
            possible_anti_debug: self.possible_anti_debug,
            possible_persistence: self.possible_persistence,
            possible_injection: self.possible_injection,
            xrefs_from: self.xrefs_from.deep_copy(),
            xrefs_to: self.xrefs_to.deep_copy(),
            pseudocode_summary: self.pseudocode_summary.deep_copy(),
            assembly_preview: self.assembly_preview.deep_copy(),
            confidence: self.confidence,
            evidence: self.evidence.deep_copy(),
            tags: self.tags.deep_copy(),
        }
    }
}

impl DeepCopy for SecurityFinding {
    open spec fn same(&self, other: &Self) -> bool {
        &&& self.id.same(&other.id)
        &&& self.title.same(&other.title)
        &&& self.category.same(&other.category)
        &&& self.severity == other.severity
        &&& self.confidence == other.confidence
        &&& self.description.same(&other.description)
        &&& self.cwe.same(&other.cwe)
        &&& self.location.same(&other.location)
        &&& self.evidence.same(&other.evidence)
        &&& self.remediation.same(&other.remediation)
    }

    fn deep_copy(&self) -> (r: Self) {
        SecurityFinding {
            id: self.id.deep_copy(),
            title: self.title.deep_copy(),
            category: self.category.deep_copy(),
            severity: self.severity,
            confidence: self.confidence,
            description: self.description.deep_copy(),
            cwe: self.cwe.deep_copy(),
            location: self.location.deep_copy(),
            evidence: self.evidence.deep_copy(),
            remediation: self.remediation.deep_copy(),
        }
    }
}

impl DeepCopy for MalwareClassification {
    open spec fn same(&self, other: &Self) -> bool {
        &&& self.family == other.family
        &&& self.confidence == other.confidence
        &&& self.malware_probability == other.malware_probability
        &&& self.reasoning.same(&other.reasoning)
        &&& self.evidence.same(&other.evidence)
        &&& self.suspicious_apis.same(&other.suspicious_apis)
        &&& self.suspicious_strings.same(&other.suspicious_strings)
        &&& self.behaviors.same(&other.behaviors)
        &&& self.persistence.same(&other.persistence)
        &&& self.privilege_escalation.same(&other.privilege_escalation)
        &&& self.process_injection.same(&other.process_injection)
        &&& self.anti_analysis.same(&other.anti_analysis)
    }

    fn deep_copy(&self) -> (r: Self) {
        MalwareClassification {
            family: self.family,
            confidence: self.confidence,
            malware_probability: self.malware_probability,
            reasoning: self.reasoning.deep_copy(),
            evidence: self.evidence.deep_copy(),
            suspicious_apis: self.suspicious_apis.deep_copy(),
            suspicious_strings: self.suspicious_strings.deep_copy(),
            behaviors: self.behaviors.deep_copy(),
            persistence: self.persistence.deep_copy(),
            privilege_escalation: self.privilege_escalation.deep_copy(),
            process_injection: self.process_injection.deep_copy(),
            anti_analysis: self.anti_analysis.deep_copy(),
        }
    }
}

impl DeepCopy for DigitalSignatureInfo {
    open spec fn same(&self, other: &Self) -> bool {
        &&& self.present == other.present
        &&& self.valid == other.valid
        &&& self.subject.same(&other.subject)
        &&& self.issuer.same(&other.issuer)
        &&& self.serial.same(&other.serial)
        &&& self.not_before == other.not_before
        &&& self.not_after == other.not_after
        &&& self.algorithm.same(&other.algorithm)
    }

    fn deep_copy(&self) -> (r: Self) {
        DigitalSignatureInfo {
            present: self.present,
            valid: self.valid,
            subject: self.subject.deep_copy(),
            issuer: self.issuer.deep_copy(),
            serial: self.serial.deep_copy(),
            not_before: self.not_before,
            not_after: self.not_after,
            algorithm: self.algorithm.deep_copy(),
        }
    }
}

impl DeepCopy for ResourceEntry {
    open spec fn same(&self, other: &Self) -> bool {
        &&& self.name.same(&other.name)
        &&& self.kind.same(&other.kind)
        &&& self.size == other.size
        &&& self.language.same(&other.language)
        &&& self.entropy == other.entropy
    }

    fn deep_copy(&self) -> (r: Self) {
        ResourceEntry {
            name: self.name.deep_copy(),
            kind: self.kind.deep_copy(),
            size: self.size,
            language: self.language.deep_copy(),
            entropy: self.entropy,
        }
    }
}

impl DeepCopy for DependencyInfo {
    open spec fn same(&self, other: &Self) -> bool {
        &&& self.name.same(&other.name)
        &&& self.version.same(&other.version)
        &&& self.kind.same(&other.kind)
    }

    fn deep_copy(&self) -> (r: Self) {
        DependencyInfo { name: self.name.deep_copy(), version: self.version.deep_copy(), kind: self.kind.deep_copy() }
    }
}

impl DeepCopy for GraphNode {
    open spec fn same(&self, other: &Self) -> bool {
        &&& self.id.same(&other.id)
        &&& self.label.same(&other.label)
        &&& self.kind.same(&other.kind)
        &&& self.address == other.address
        &&& self.meta.same(&other.meta)
    }

    fn deep_copy(&self) -> (r: Self) {
        GraphNode {
            id: self.id.deep_copy(),
            label: self.label.deep_copy(),
            kind: self.kind.deep_copy(),
            address: self.address,
            meta: self.meta.deep_copy(),
        }
    }
}

impl DeepCopy for GraphEdge {
    open spec fn same(&self, other: &Self) -> bool {
        &&& self.id.same(&other.id)
        &&& self.source.same(&other.source)
        &&& self.target.same(&other.target)
        &&& self.kind.same(&other.kind)
        &&& self.label.same(&other.label)
    }

    fn deep_copy(&self) -> (r: Self) {
        GraphEdge {
            id: self.id.deep_copy(),
            source: self.source.deep_copy(),
            target: self.target.deep_copy(),
            kind: self.kind.deep_copy(),
            label: self.label.deep_copy(),
        }
    }
}

impl DeepCopy for GraphPayload {
    open spec fn same(&self, other: &Self) -> bool {
        self.nodes.same(&other.nodes) && self.edges.same(&other.edges)
    }

    fn deep_copy(&self) -> (r: Self) {
        GraphPayload { nodes: self.nodes.deep_copy(), edges: self.edges.deep_copy() }
    }
}

impl DeepCopy for AnalysisReport {
    open spec fn same(&self, other: &Self) -> bool {
        &&& self.id.same(&other.id)
        &&& self.file_id.same(&other.file_id)
        &&& self.project_id.same(&other.project_id)
        &&& self.stage == other.stage
        &&& self.progress == other.progress
        &&& self.created_at.same(&other.created_at)
        &&& self.updated_at.same(&other.updated_at)
        &&& self.completed_at.same(&other.completed_at)
        &&& self.error.same(&other.error)
        &&& self.filename.same(&other.filename)
        &&& self.size_bytes == other.size_bytes
        &&& self.hashes.same(&other.hashes)
        &&& self.identity.same(&other.identity)
        &&& self.sections.same(&other.sections)
        &&& self.imports.same(&other.imports)
        &&& self.exports.same(&other.exports)
        &&& self.strings.same(&other.strings)
        &&& self.network.same(&other.network)
        &&& self.crypto.same(&other.crypto)
        &&& self.packers.same(&other.packers)
        &&& self.functions.same(&other.functions)
        &&& self.security.same(&other.security)
        &&& self.malware.same(&other.malware)
        &&& self.signature.same(&other.signature)
        &&& self.resources.same(&other.resources)
        &&& self.dependencies.same(&other.dependencies)
        &&& self.call_graph.same(&other.call_graph)
        &&& self.cfg_summary.same(&other.cfg_summary)
        &&& self.import_graph.same(&other.import_graph)
        &&& self.dfg.same(&other.dfg)
        &&& self.memory_graph.same(&other.memory_graph)
        &&& self.network_graph.same(&other.network_graph)
        &&& self.network_intel.same(&other.network_intel)
        &&& self.decomp_backends.same(&other.decomp_backends)
        &&& self.language_structures.same(&other.language_structures)
        &&& self.executive_summary.same(&other.executive_summary)
        &&& self.technical_summary.same(&other.technical_summary)
        &&& self.iocs.same(&other.iocs)
        &&& self.yara_rules.same(&other.yara_rules)
        &&& self.sbom.same(&other.sbom)
    }

    fn deep_copy(&self) -> (r: Self) {
        AnalysisReport {
            id: self.id.deep_copy(),
            file_id: self.file_id.deep_copy(),
            project_id: self.project_id.deep_copy(),
            stage: self.stage,
            progress: self.progress,
            created_at: self.created_at.deep_copy(),
            updated_at: self.updated_at.deep_copy(),
            completed_at: self.completed_at.deep_copy(),
            error: self.error.deep_copy(),
            filename: self.filename.deep_copy(),
            size_bytes: self.size_bytes,
            hashes: self.hashes.deep_copy(),
            identity: self.identity.deep_copy(),
            sections: self.sections.deep_copy(),
            imports: self.imports.deep_copy(),
            exports: self.exports.deep_copy(),
            strings: self.strings.deep_copy(),
            network: self.network.deep_copy(),
            crypto: self.crypto.deep_copy(),
            packers: self.packers.deep_copy(),
            functions: self.functions.deep_copy(),
            security: self.security.deep_copy(),
            malware: self.malware.deep_copy(),
            signature: self.signature.deep_copy(),
            resources: self.resources.deep_copy(),
            dependencies: self.dependencies.deep_copy(),
            call_graph: self.call_graph.deep_copy(),
            cfg_summary: self.cfg_summary.deep_copy(),
            import_graph: self.import_graph.deep_copy(),
            dfg: self.dfg.deep_copy(),
            memory_graph: self.memory_graph.deep_copy(),
            network_graph: self.network_graph.deep_copy(),
            network_intel: self.network_intel.deep_copy(),
            decomp_backends: self.decomp_backends.deep_copy(),
            language_structures: self.language_structures.deep_copy(),
            executive_summary: self.executive_summary.deep_copy(),
            technical_summary: self.technical_summary.deep_copy(),
            iocs: self.iocs.deep_copy(),
            yara_rules: self.yara_rules.deep_copy(),
            sbom: self.sbom.deep_copy(),
        }
    }
}

} // verus!
