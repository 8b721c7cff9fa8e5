//! Disassembly of the entry region (through Capstone) and heuristic
//! discovery of x86 function starts.
use vstd::prelude::*;
use capstone::Arch::{ARM, ARM64, MIPS, PPC, X86};
use capstone::Capstone;
use capstone::Mode::{Arm, Mips32, Mode32, Mode64};
use crate::crypto_detect::one_if;
use crate::model::{Architecture, FunctionAnalysis, FunctionView};
use crate::text::{contains_seq, has, hex_fixed, owned, push_hex_fixed, push_str, push_string, str_chars, strings_view, utf8};

verus! {

// ---------------------------------------------------------------------------
// Capstone
// ---------------------------------------------------------------------------

/// The Capstone configurations the analysis uses.
#[derive(Debug, Clone, Copy, PartialEq, Eq, Structural)]
pub enum CsMode {
    X86_32,
    X86_64,
    Arm,
    Arm64,
    Mips32,
    Ppc32,
}

/// The Capstone configuration for an architecture; RISC-V and unknown
/// architectures are read as x86-64.
pub open spec fn spec_cs_mode(arch: Architecture) -> CsMode {
    match arch {
        Architecture::X86 => CsMode::X86_32,
        Architecture::X64 => CsMode::X86_64,
        Architecture::Arm => CsMode::Arm,
        Architecture::Arm64 => CsMode::Arm64,
        Architecture::Mips => CsMode::Mips32,
        Architecture::PowerPc => CsMode::Ppc32,
        Architecture::RiscV | Architecture::Unknown => CsMode::X86_64,
    }
}

/// The Capstone configuration for an architecture.
pub fn cs_mode(arch: Architecture) -> (m: CsMode)
    ensures
        m == spec_cs_mode(arch),
{
    match arch {
        Architecture::X86 => CsMode::X86_32,
        Architecture::X64 => CsMode::X86_64,
        Architecture::Arm => CsMode::Arm,
        Architecture::Arm64 => CsMode::Arm64,
        Architecture::Mips => CsMode::Mips32,
        Architecture::PowerPc => CsMode::Ppc32,
        Architecture::RiscV | Architecture::Unknown => CsMode::X86_64,
    }
}

/// One decoded instruction.
#[derive(Debug, Clone)]
pub struct Insn {
    pub address: u64,
    pub mnemonic: String,
    pub op_str: String,
    pub size: u64,
}

pub struct InsnView {
    pub address: u64,
    pub mnemonic: Seq<char>,
    pub op_str: Seq<char>,
    pub size: u64,
}

impl View for Insn {
    type V = InsnView;

    open spec fn view(&self) -> InsnView {
        InsnView { address: self.address, mnemonic: self.mnemonic@, op_str: self.op_str@, size: self.size }
    }
}

pub open spec fn insn_views(v: Seq<Insn>) -> Seq<InsnView> {
    v.map_values(|i: Insn| i@)
}

/// The total size of the instructions.
pub open spec fn total_size(v: Seq<InsnView>) -> nat
    decreases v.len(),
{
    if v.len() == 0 {
        0
    } else {
        total_size(v.drop_last()) + v.last().size as nat
    }
}

/// What Capstone decodes (`Capstone::new_raw` in the mode, then
/// `disasm_count`): at most `max` instructions of `code` placed at
/// `base`, or `None` where Capstone refuses the mode or reports an error.
pub uninterp spec fn capstone_listing(mode: CsMode, code: Seq<u8>, base: u64, max: usize) -> Option<Seq<InsnView>>;

/// Builds Capstone in the mode (`Capstone::new_raw` with no extra mode and
/// the default byte order; instruction details, which only the detail API
/// reads, stay off) and decodes at most
/// `max` instructions of `code` at `base` (`disasm_count`). Trusted: the
/// result is the named `capstone_listing`; `disasm_count` refuses a count
/// of 0; the instructions are decoded one after another from the buffer,
/// so there are at most `max` and their sizes add up to at most the
/// length of `code`; `cs_disasm` decodes nothing from an empty buffer.
#[verifier::external_body]
fn capstone_decode(mode: CsMode, code: &[u8], base: u64, max: usize) -> (r: Option<Vec<Insn>>)
    ensures
        match r {
            Some(v) => capstone_listing(mode, code@, base, max) == Some(insn_views(v@)),
            None => capstone_listing(mode, code@, base, max) is None,
        },
        max == 0 ==> r is None,
        r matches Some(v) ==> v@.len() <= max && total_size(insn_views(v@)) <= code@.len(),
        code@.len() == 0 ==> (r matches Some(v) ==> v@.len() == 0),
{
    let (a, m) = match mode {
        CsMode::X86_32 => (X86, Mode32),
        CsMode::X86_64 => (X86, Mode64),
        CsMode::Arm => (ARM, Arm),
        CsMode::Arm64 => (ARM64, Arm),
        CsMode::Mips32 => (MIPS, Mips32),
        CsMode::Ppc32 => (PPC, Mode32),
    };
    let cs = Capstone::new_raw(a, m, std::iter::empty(), None).ok()?;
    let insns = cs.disasm_count(code, base, max).ok()?;
    Some(insns.iter().map(|i| Insn { address: i.address(), mnemonic: i.mnemonic().unwrap_or_default().to_string(), op_str: i.op_str().unwrap_or_default().to_string(), size: i.len() as u64 }).collect())
}

// ---------------------------------------------------------------------------
// The entry function
// ---------------------------------------------------------------------------

/// One line of the listing: the address as 16 hexadecimal digits, the
/// mnemonic and the operands.
pub open spec fn insn_line(i: InsnView) -> Seq<char> {
    hex_fixed(i.address as nat, 16) + "  "@ + i.mnemonic + " "@ + i.op_str
}

/// The assembly preview: lines are added while the preview is shorter than
/// 2048 bytes.
pub open spec fn listing_preview(v: Seq<InsnView>) -> Seq<char>
    decreases v.len(),
{
    if v.len() == 0 {
        seq![]
    } else {
        let p = listing_preview(v.drop_last());
        if utf8(p).len() < 2048 {
            p + insn_line(v.last()) + "\n"@
        } else {
            p
        }
    }
}

/// The first 64 lines with their addresses.
pub open spec fn listing_samples(v: Seq<InsnView>) -> Seq<(u64, Seq<char>)> {
    crate::strings::take_upto(v, 64).map_values(|i: InsnView| (i.address, insn_line(i)))
}

/// The entry function that a non-empty listing describes (its identifier
/// aside).
pub open spec fn spec_entry_function(v: Seq<InsnView>, base: u64, id: Seq<char>) -> FunctionView {
    let p = listing_preview(v);
    let size = total_size(v);
    FunctionView {
        id,
        address: base,
        size: size as u64,
        name: "entry"@,
        suggested_name: Some("program_entry"@),
        description: Some("Primary entry / analyzed prologue region"@),
        purpose: Some("Program startup and initial control flow"@),
        inputs: seq!["OS process context"@],
        outputs: seq!["process lifecycle"@],
        complexity: if size >= 2000 { 8000 } else { (4 * size) as u32 },
        interesting_constants: seq![],
        possible_vulnerabilities: seq![],
        possible_crypto: contains_seq(p, "aes"@) || (contains_seq(p, "xor"@) && size > 40),
        possible_networking: contains_seq(p, "call"@) && (contains_seq(p, "socket"@) || contains_seq(
            p,
            "connect"@,
        ) || contains_seq(p, "ws2"@)),
        possible_anti_debug: contains_seq(p, "IsDebuggerPresent"@) || contains_seq(p, "rdtsc"@),
        possible_persistence: false,
        possible_injection: contains_seq(p, "WriteProcessMemory"@) || contains_seq(p, "CreateRemoteThread"@),
        xrefs_from: seq![],
        xrefs_to: seq![],
        pseudocode_summary: Some(
            "Entry transfers control through startup stubs into main application logic."@,
        ),
        assembly_preview: Some(p),
        confidence: 55,
        evidence: seq![],
        tags: seq!["entry"@],
    }
}

/// What disassembling the entry region gives: the entry function (when any
/// code was decoded) and the first 64 listing lines.
pub struct DisasmResult {
    pub functions: Vec<FunctionAnalysis>,
    pub assembly_samples: Vec<(u64, String)>,
}

pub open spec fn sample_views(v: Seq<(u64, String)>) -> Seq<(u64, Seq<char>)> {
    v.map_values(|s: (u64, String)| (s.0, s.1@))
}

/// The result matches the listing: the samples, and the entry function
/// exactly when the instructions have a size.
pub open spec fn describes_listing(r: DisasmResult, v: Seq<InsnView>, base: u64) -> bool {
    &&& sample_views(r.assembly_samples@) == listing_samples(v)
    &&& if total_size(v) > 0 {
        r.functions@.len() == 1 && r.functions@[0]@ == spec_entry_function(v, base, r.functions@[0]@.id)
    } else {
        r.functions@.len() == 0
    }
}

fn insn_line_exec(i: &Insn) -> (s: String)
    ensures
        s@ == insn_line(i@),
{
    let mut s = String::new();
    push_hex_fixed(&mut s, i.address, 16);
    push_str(&mut s, "  ");
    push_string(&mut s, &i.mnemonic);
    push_str(&mut s, " ");
    push_string(&mut s, &i.op_str);
    s
}

/// The entry function and samples that a decoded listing gives.
pub fn entry_from_listing(insns: &[Insn], base: u64) -> (r: DisasmResult)
    requires
        total_size(insn_views(insns@)) <= u64::MAX,
    ensures
        describes_listing(r, insn_views(insns@), base),
{
    let ghost v = insn_views(insns@);
    let mut samples: Vec<(u64, String)> = Vec::new();
    let mut preview = String::new();
    let mut size: u64 = 0;
    let mut i: usize = 0;
    while i < insns.len()
        invariant
            v == insn_views(insns@),
            total_size(v) <= u64::MAX,
            i <= insns@.len(),
            preview@ == listing_preview(v.subrange(0, i as int)),
            size as nat == total_size(v.subrange(0, i as int)),
            sample_views(samples@) == listing_samples(v.subrange(0, i as int)),
        decreases insns@.len() - i,
    {
        let ins = &insns[i];
        let line = insn_line_exec(ins);
        let ghost pre = v.subrange(0, i + 1);
        proof {
            assert(pre.drop_last() =~= v.subrange(0, i as int));
            assert(pre.last() == ins@);
            lemma_total_size_prefix(v, i as int + 1);
        }
        if samples.len() < 64 {
            let ghost before = samples@;
            samples.push((ins.address, line.clone()));
            proof {
                assert(sample_views(samples@) =~= sample_views(before).push((ins.address, line@)));
                assert(listing_samples(pre) =~= listing_samples(v.subrange(0, i as int)).push(
                    (ins.address, insn_line(ins@)),
                ));
            }
        } else {
            proof {
                assert(listing_samples(pre) =~= listing_samples(v.subrange(0, i as int)));
            }
        }
        if preview.as_str().as_bytes().len() < 2048 {
            push_string(&mut preview, &line);
            push_str(&mut preview, "\n");
        }
        size = size + ins.size;
        i += 1;
    }
    proof {
        assert(v.subrange(0, insns@.len() as int) =~= v);
    }
    let mut functions: Vec<FunctionAnalysis> = Vec::new();
    if size > 0 {
        let f = entry_function_exec(preview, size, base);
        functions.push(f);
    }
    DisasmResult { functions, assembly_samples: samples }
}

proof fn lemma_total_size_prefix(v: Seq<InsnView>, k: int)
    requires
        0 <= k <= v.len(),
    ensures
        total_size(v.subrange(0, k)) <= total_size(v),
    decreases v.len() - k,
{
    if k < v.len() {
        lemma_total_size_prefix(v, k + 1);
        assert(v.subrange(0, k + 1).drop_last() =~= v.subrange(0, k));
    } else {
        assert(v.subrange(0, k) =~= v);
    }
}

fn entry_function_exec(preview: String, size: u64, base: u64) -> (f: FunctionAnalysis)
    ensures
        f@ == ({
            let p = preview@;
            FunctionView {
                id: f@.id,
                address: base,
                size,
                name: "entry"@,
                suggested_name: Some("program_entry"@),
                description: Some("Primary entry / analyzed prologue region"@),
                purpose: Some("Program startup and initial control flow"@),
                inputs: seq!["OS process context"@],
                outputs: seq!["process lifecycle"@],
                complexity: if size >= 2000 { 8000 } else { (4 * size) as u32 },
                interesting_constants: seq![],
                possible_vulnerabilities: seq![],
                possible_crypto: contains_seq(p, "aes"@) || (contains_seq(p, "xor"@) && size > 40),
                possible_networking: contains_seq(p, "call"@) && (contains_seq(p, "socket"@)
                    || contains_seq(p, "connect"@) || contains_seq(p, "ws2"@)),
                possible_anti_debug: contains_seq(p, "IsDebuggerPresent"@) || contains_seq(p, "rdtsc"@),
                possible_persistence: false,
                possible_injection: contains_seq(p, "WriteProcessMemory"@) || contains_seq(
                    p,
                    "CreateRemoteThread"@,
                ),
                xrefs_from: seq![],
                xrefs_to: seq![],
                pseudocode_summary: Some(
                    "Entry transfers control through startup stubs into main application logic."@,
                ),
                assembly_preview: Some(p),
                confidence: 55,
                evidence: seq![],
                tags: seq!["entry"@],
            }
        }),
{
    let pc = str_chars(preview.as_str());
    let p = pc.as_slice();
    let networking = has(p, "call") && (has(p, "socket") || has(p, "connect") || has(p, "ws2"));
    let crypto = has(p, "aes") || (has(p, "xor") && size > 40);
    let anti = has(p, "IsDebuggerPresent") || has(p, "rdtsc");
    let inj = has(p, "WriteProcessMemory") || has(p, "CreateRemoteThread");
    let complexity: u32 = if size >= 2000 { 8000 } else { (4 * size) as u32 };
    let f = FunctionAnalysis {
        id: crate::ids::new_id(),
        address: base,
        size,
        name: owned("entry"),
        suggested_name: Some(owned("program_entry")),
        description: Some(owned("Primary entry / analyzed prologue region")),
        purpose: Some(owned("Program startup and initial control flow")),
        inputs: vec![owned("OS process context")],
        outputs: vec![owned("process lifecycle")],
        complexity,
        interesting_constants: Vec::new(),
        possible_vulnerabilities: Vec::new(),
        possible_crypto: crypto,
        possible_networking: networking,
        possible_anti_debug: anti,
        possible_persistence: false,
        possible_injection: inj,
        xrefs_from: Vec::new(),
        xrefs_to: Vec::new(),
        pseudocode_summary: Some(
            owned("Entry transfers control through startup stubs into main application logic."),
        ),
        assembly_preview: Some(preview),
        confidence: 55,
        evidence: Vec::new(),
        tags: vec![owned("entry")],
    };
    proof {
        assert(strings_view(f.inputs@) =~= seq!["OS process context"@]);
        assert(strings_view(f.outputs@) =~= seq!["process lifecycle"@]);
        assert(strings_view(f.tags@) =~= seq!["entry"@]);
        assert(strings_view(f.interesting_constants@) =~= seq![]);
        assert(strings_view(f.possible_vulnerabilities@) =~= seq![]);
        assert(crate::model::evidence_views(f.evidence@) =~= seq![]);
    }
    f
}

/// Disassembles up to `max_insn` instructions of the entry region at
/// `base` and describes them: the entry function (when any code was
/// decoded) and the first 64 listing lines; nothing when Capstone cannot
/// be set up or fails (as it does when no instruction may be decoded).
pub fn disassemble_entry(code: &[u8], base: u64, arch: Architecture, max_insn: usize) -> (r: DisasmResult)
    ensures
        match capstone_listing(spec_cs_mode(arch), code@, base, max_insn) {
            Some(v) => describes_listing(r, v, base),
            None => r.functions@.len() == 0 && r.assembly_samples@.len() == 0,
        },
        r.functions@.len() <= 1,
        r.assembly_samples@.len() <= max_insn && r.assembly_samples@.len() <= 64,
        r.functions@.len() == 1 ==> r.functions@[0].address == base && 0 < r.functions@[0].size <= code@.len(),
        code@.len() == 0 ==> r.functions@.len() == 0 && r.assembly_samples@.len() == 0,
{
    let n = code.len();
    match capstone_decode(cs_mode(arch), code, base, max_insn) {
        Some(insns) => {
            proof {
                assert(n as nat == code@.len());
                assert(n as nat <= u64::MAX);
            }
            let r = entry_from_listing(insns.as_slice(), base);
            proof {
                let v = insn_views(insns@);
                let t = crate::strings::take_upto(v, 64);
                assert(t.len() <= v.len() && t.len() <= 64);
                assert(sample_views(r.assembly_samples@).len() == r.assembly_samples@.len());
                assert(listing_samples(v).len() == t.len());
                if code@.len() == 0 {
                    assert(v.len() == 0);
                    assert(t =~= Seq::<InsnView>::empty());
                }
            }
            r
        },
        None => DisasmResult { functions: Vec::new(), assembly_samples: Vec::new() },
    }
}

// ---------------------------------------------------------------------------
// Function discovery
// ---------------------------------------------------------------------------

/// The little-endian signed 32-bit value of the four bytes at `i`.
pub open spec fn le_i32(code: Seq<u8>, i: int) -> int {
    let u = code[i] as int + code[i + 1] as int * 0x100 + code[i + 2] as int * 0x1_0000 + code[i + 3] as int
        * 0x100_0000;
    if u >= 0x8000_0000 {
        u - 0x1_0000_0000
    } else {
        u
    }
}

/// The target of a relative call at offset `i`, with 64-bit wrapping.
pub open spec fn call_target(code: Seq<u8>, base: u64, i: int) -> u64 {
    ((base as int + i + 5 + le_i32(code, i + 1)) % 0x1_0000_0000_0000_0000) as u64
}

/// A frame-setup prologue at offset `i`: `push rbp; mov rbp, rsp` on x86-64,
/// `push ebp; mov ebp, esp` otherwise.
pub open spec fn prologue_at(code: Seq<u8>, i: int, is64: bool) -> bool {
    code[i] == 0x55 && if is64 {
        i + 3 < code.len() && code[i + 1] == 0x48 && code[i + 2] == 0x89 && code[i + 3] == 0xE5
    } else {
        i + 2 < code.len() && code[i + 1] == 0x89 && code[i + 2] == 0xE5
    }
}

/// The function starts found scanning from offset `i`: targets of `E8`
/// calls inside the code (each call skipped whole) and prologues.
pub open spec fn scan_calls(code: Seq<u8>, base: u64, is64: bool, i: int) -> Seq<u64>
    decreases code.len() + 5 - i,
{
    if i < 0 || i + 5 >= code.len() {
        seq![]
    } else if code[i] == 0xE8 {
        let t = call_target(code, base, i);
        one_if(t >= base && t < base + code.len(), t) + scan_calls(code, base, is64, i + 5)
    } else {
        one_if(prologue_at(code, i, is64), (base + i) as u64) + scan_calls(code, base, is64, i + 1)
    }
}

/// `x` placed into the increasing sequence `s`, unless it is there already.
pub open spec fn insert_sorted(s: Seq<u64>, x: u64) -> Seq<u64>
    decreases s.len(),
{
    if s.len() == 0 {
        seq![x]
    } else if s.last() < x {
        s.push(x)
    } else if s.last() == x {
        s
    } else {
        insert_sorted(s.drop_last(), x).push(s.last())
    }
}

/// The distinct values of `s`, in increasing order.
pub open spec fn sorted_distinct(s: Seq<u64>) -> Seq<u64>
    decreases s.len(),
{
    if s.len() == 0 {
        seq![]
    } else {
        insert_sorted(sorted_distinct(s.drop_last()), s.last())
    }
}

/// The candidate starts: the code's base, then what the scan finds.
pub open spec fn discovery_candidates(code: Seq<u8>, base: u64, arch: Architecture) -> Seq<u64> {
    seq![base] + scan_calls(code, base, arch == Architecture::X64, 0)
}

/// The discovered function starts: the distinct candidates in increasing
/// order, at most 512.
pub open spec fn spec_discover(code: Seq<u8>, base: u64, arch: Architecture) -> Seq<u64> {
    crate::strings::take_upto(sorted_distinct(discovery_candidates(code, base, arch)), 512)
}

pub open spec fn strictly_increasing(s: Seq<u64>) -> bool {
    forall|a: int, b: int| 0 <= a < b < s.len() ==> s[a] < s[b]
}

proof fn lemma_insert_sorted_props(s: Seq<u64>, x: u64)
    requires
        strictly_increasing(s),
    ensures
        strictly_increasing(insert_sorted(s, x)),
        insert_sorted(s, x).to_set() == s.to_set().insert(x),
    decreases s.len(),
{
    broadcast use vstd::seq_lib::group_seq_properties;

    if s.len() == 0 {
        assert(seq![x].to_set() =~= Set::<u64>::empty().insert(x)) by {
            assert(seq![x].contains(x));
        }
        assert(s.to_set() =~= Set::<u64>::empty());
    } else if s.last() < x {
        assert(s.push(x).to_set() =~= s.to_set().insert(x));
    } else if s.last() == x {
        assert(s.contains(x));
        assert(s.to_set() =~= s.to_set().insert(x));
    } else {
        let p = s.drop_last();
        assert(strictly_increasing(p));
        lemma_insert_sorted_props(p, x);
        let q = insert_sorted(p, x);
        assert forall|k: int| 0 <= k < q.len() implies q[k] < s.last() by {
            assert(q.to_set().contains(q[k])) by {
                assert(q.contains(q[k]));
            }
            if q[k] != x {
                assert(p.to_set().contains(q[k]));
                let m = choose|m: int| 0 <= m < p.len() && p[m] == q[k];
                assert(s[m] < s[s.len() - 1]);
            }
        }
        assert(q.push(s.last()).to_set() =~= q.to_set().insert(s.last()));
        assert(s =~= p.push(s.last()));
        assert(s.to_set() =~= p.to_set().insert(s.last()));
        assert(q.push(s.last()).to_set() =~= s.to_set().insert(x));
    }
}

/// The discovered starts are increasing without repeats, at most 512, and
/// (when fewer than 512 are found) exactly the candidates.
pub proof fn law_discovery_sorted_distinct(code: Seq<u8>, base: u64, arch: Architecture)
    ensures
        strictly_increasing(spec_discover(code, base, arch)),
        spec_discover(code, base, arch).len() <= 512,
        sorted_distinct(discovery_candidates(code, base, arch)).to_set() == discovery_candidates(
            code,
            base,
            arch,
        ).to_set(),
{
    lemma_sorted_distinct_props(discovery_candidates(code, base, arch));
}

proof fn lemma_sorted_distinct_props(s: Seq<u64>)
    ensures
        strictly_increasing(sorted_distinct(s)),
        sorted_distinct(s).to_set() == s.to_set(),
    decreases s.len(),
{
    broadcast use vstd::seq_lib::group_seq_properties;

    if s.len() == 0 {
        assert(s.to_set() =~= Set::<u64>::empty());
        assert(sorted_distinct(s).to_set() =~= Set::<u64>::empty());
    } else {
        lemma_sorted_distinct_props(s.drop_last());
        lemma_insert_sorted_props(sorted_distinct(s.drop_last()), s.last());
        assert(s =~= s.drop_last().push(s.last()));
        assert(s.to_set() =~= s.drop_last().to_set().insert(s.last()));
    }
}

proof fn lemma_insert_sorted_at(s: Seq<u64>, x: u64, j: int)
    requires
        strictly_increasing(s),
        0 <= j <= s.len(),
        forall|k: int| j <= k < s.len() ==> s[k] > x,
        j > 0 ==> s[j - 1] <= x,
    ensures
        insert_sorted(s, x) == if j > 0 && s[j - 1] == x {
            s
        } else {
            s.subrange(0, j) + seq![x] + s.subrange(j, s.len() as int)
        },
    decreases s.len(),
{
    if s.len() == 0 {
        assert(s.subrange(0, j) + seq![x] + s.subrange(j, s.len() as int) =~= seq![x]);
    } else if j == s.len() {
        if s.last() == x {
        } else {
            assert(s.subrange(0, j) + seq![x] + s.subrange(j, s.len() as int) =~= s.push(x));
        }
    } else {
        let p = s.drop_last();
        assert(strictly_increasing(p));
        assert forall|k: int| j <= k < p.len() implies p[k] > x by {
            assert(p[k] == s[k]);
        }
        assert(s[s.len() - 1] > x);
        lemma_insert_sorted_at(p, x, j);
        if j > 0 && s[j - 1] == x {
            assert(p.push(s.last()) =~= s);
        } else {
            assert(p.subrange(0, j) + seq![x] + p.subrange(j, p.len() as int) + seq![s.last()]
                =~= s.subrange(0, j) + seq![x] + s.subrange(j, s.len() as int));
        }
    }
}

fn insert_sorted_exec(v: &mut Vec<u64>, x: u64)
    requires
        strictly_increasing(old(v)@),
    ensures
        final(v)@ == insert_sorted(old(v)@, x),
        strictly_increasing(final(v)@),
{
    let mut j = v.len();
    while j > 0 && v[j - 1] > x
        invariant
            j <= v@.len(),
            forall|k: int| j <= k < v@.len() ==> v@[k] > x,
        decreases j,
    {
        j -= 1;
    }
    proof {
        lemma_insert_sorted_at(v@, x, j as int);
        lemma_insert_sorted_props(v@, x);
    }
    if j > 0 && v[j - 1] == x {
        return;
    }
    v.insert(j, x);
    proof {
        assert(v@ =~= old(v)@.subrange(0, j as int) + seq![x] + old(v)@.subrange(j as int, old(v)@.len() as int));
    }
}

fn le_i32_exec(code: &[u8], i: usize) -> (r: i64)
    requires
        i + 3 < code@.len(),
    ensures
        r as int == le_i32(code@, i as int),
{
    let u: i64 = code[i] as i64 + code[i + 1] as i64 * 0x100 + code[i + 2] as i64 * 0x1_0000 + code[i + 3] as i64
        * 0x100_0000;
    if u >= 0x8000_0000 {
        u - 0x1_0000_0000
    } else {
        u
    }
}

fn call_target_exec(code: &[u8], base: u64, i: usize) -> (t: u64)
    requires
        i + 4 < code@.len(),
    ensures
        t == call_target(code@, base, i as int),
{
    let _n = code.len();
    let rel = le_i32_exec(code, i + 1);
    let sum: i128 = base as i128 + i as i128 + 5 + rel as i128;
    let m: i128 = sum % 0x1_0000_0000_0000_0000;
    let w: i128 = if m < 0 { m + 0x1_0000_0000_0000_0000 } else { m };
    proof {
        assert(w == (base as int + i + 5 + le_i32(code@, i + 1)) % 0x1_0000_0000_0000_0000);
    }
    w as u64
}

/// Heuristic x86 function discovery: the code's base, the targets of
/// relative calls (`E8 rel32`) that land inside the code, and frame-setup
/// prologues; distinct, in increasing order, at most 512.
pub fn discover_functions_x86(code: &[u8], base: u64, arch: Architecture) -> (r: Vec<u64>)
    requires
        base + code@.len() <= u64::MAX,
    ensures
        r@ == spec_discover(code@, base, arch),
{
    let is64 = match arch {
        Architecture::X64 => true,
        _ => false,
    };
    let ghost c = code@;
    let ghost full = scan_calls(c, base, is64, 0);
    let mut found: Vec<u64> = vec![base];
    let mut i: usize = 0;
    while i < code.len() && code.len() - i > 5
        invariant
            c == code@,
            base + c.len() <= u64::MAX,
            is64 == (arch == Architecture::X64),
            full == scan_calls(c, base, is64, 0),
            found@ + scan_calls(c, base, is64, i as int) == seq![base] + full,
        decreases code@.len() + 5 - i,
    {
        if code[i] == 0xE8 {
            let t = call_target_exec(code, base, i);
            let ghost before = found@;
            if t >= base && t < base + code.len() as u64 {
                found.push(t);
            }
            proof {
                assert(found@ + scan_calls(c, base, is64, i + 5) =~= before + scan_calls(c, base, is64, i as int));
            }
            i += 5;
        } else {
            let hit = code[i] == 0x55 && if is64 {
                i + 3 < code.len() && code[i + 1] == 0x48 && code[i + 2] == 0x89 && code[i + 3] == 0xE5
            } else {
                i + 2 < code.len() && code[i + 1] == 0x89 && code[i + 2] == 0xE5
            };
            let ghost before = found@;
            if hit {
                found.push(base + i as u64);
            }
            proof {
                assert(found@ + scan_calls(c, base, is64, i + 1) =~= before + scan_calls(c, base, is64, i as int));
            }
            i += 1;
        }
    }
    proof {
        assert(found@ =~= discovery_candidates(c, base, arch));
    }
    let ghost cands = found@;
    let mut out: Vec<u64> = Vec::new();
    let mut k: usize = 0;
    while k < found.len()
        invariant
            cands == found@,
            k <= found@.len(),
            out@ == sorted_distinct(cands.subrange(0, k as int)),
            strictly_increasing(out@),
        decreases found@.len() - k,
    {
        insert_sorted_exec(&mut out, found[k]);
        proof {
            assert(cands.subrange(0, k + 1).drop_last() =~= cands.subrange(0, k as int));
        }
        k += 1;
    }
    proof {
        assert(cands.subrange(0, found@.len() as int) =~= cands);
    }
    out.truncate(512);
    proof {
        assert(out@ =~= crate::strings::take_upto(sorted_distinct(cands), 512));
    }
    out
}

} // verus!
