//! The static analysis engine: the layout of a PE, ELF or Mach-O file
//! (sections, imports, exports, dependencies and the code to disassemble),
//! and everything computed from it and from the raw bytes.
//!
//! Section entropy is measured in floating point, outside this library: the
//! layout gives the bytes of each section to measure, and the analysis is
//! finished with the measured entropies.
use vstd::prelude::*;
use crate::compiler::{lossy_string, utf8_lossy};
use crate::crypto_detect::one_if;
use crate::indicators::{eq_ignore_case, eq_ignore_case_exec};
use crate::model::{
    import_views, Architecture, BinaryFormat, BinaryIdentity, DependencyInfo, ExportEntry,
    IdentityView, ImportEntry, ImportView, OperatingSystem, RiskLevel,
};
use crate::objects::{
    elf_section_views, elf_symbol_views, mach_section_views, opt_named_views, pe_export_views,
    pe_import_views, pe_section_views, ElfHeader, ElfSection, ElfSectionView, ElfSymbol,
    ElfSymbolView, MachHeader, MachSection, MachSectionView, PeExport, PeExportView, PeHeader,
    PeImport, PeImportView, PeSection, PeSectionView,
};
use crate::strings::take_upto;
use crate::text::{
    chars_eq, contains_seq, copy_opt_string, copy_string, eq_str, has, opt_view, owned, push_char,
    slice_bytes, str_chars, strings_view,
};

verus! {

// ---------------------------------------------------------------------------
// Layout
// ---------------------------------------------------------------------------

/// A section before its entropy is measured: `sample` holds the bytes
/// whose entropy the section records.
#[derive(Debug, Clone)]
pub struct SectionDraft {
    pub name: String,
    pub virtual_address: u64,
    pub virtual_size: u64,
    pub raw_size: u64,
    pub characteristics: Vec<String>,
    pub permissions: String,
    pub sample: Vec<u8>,
}

pub struct DraftView {
    pub name: Seq<char>,
    pub virtual_address: u64,
    pub virtual_size: u64,
    pub raw_size: u64,
    pub characteristics: Seq<Seq<char>>,
    pub permissions: Seq<char>,
    pub sample: Seq<u8>,
}

impl View for SectionDraft {
    type V = DraftView;

    open spec fn view(&self) -> DraftView {
        DraftView {
            name: self.name@,
            virtual_address: self.virtual_address,
            virtual_size: self.virtual_size,
            raw_size: self.raw_size,
            characteristics: strings_view(self.characteristics@),
            permissions: self.permissions@,
            sample: self.sample@,
        }
    }
}

pub open spec fn draft_views(v: Seq<SectionDraft>) -> Seq<DraftView> {
    v.map_values(|d: SectionDraft| d@)
}

/// A dependency: name, version and kind.
pub open spec fn dep_views(v: Seq<DependencyInfo>) -> Seq<(Seq<char>, Option<Seq<char>>, Seq<char>)> {
    v.map_values(|d: DependencyInfo| (d.name@, opt_view(d.version), d.kind@))
}

/// An export: symbol, ordinal, address and forwarding.
pub open spec fn export_views(v: Seq<ExportEntry>) -> Seq<(Seq<char>, Option<u16>, u64, Option<Seq<char>>)> {
    v.map_values(|e: ExportEntry| (e.symbol@, e.ordinal, e.address, opt_view(e.forwarded)))
}

/// The structure read out of an object file.
#[derive(Debug, Clone)]
pub struct ObjectLayout {
    pub identity: BinaryIdentity,
    pub sections: Vec<SectionDraft>,
    pub imports: Vec<ImportEntry>,
    pub exports: Vec<ExportEntry>,
    pub dependencies: Vec<DependencyInfo>,
    pub code_slice: Vec<u8>,
    pub code_slice_base: Option<u64>,
    /// The file was read as a PE image.
    pub pe: bool,
}

pub struct LayoutView {
    pub identity: IdentityView,
    pub sections: Seq<DraftView>,
    pub imports: Seq<ImportView>,
    pub exports: Seq<(Seq<char>, Option<u16>, u64, Option<Seq<char>>)>,
    pub dependencies: Seq<(Seq<char>, Option<Seq<char>>, Seq<char>)>,
    pub code_slice: Seq<u8>,
    pub code_slice_base: Option<u64>,
    pub pe: bool,
}

impl View for ObjectLayout {
    type V = LayoutView;

    open spec fn view(&self) -> LayoutView {
        LayoutView {
            identity: self.identity@,
            sections: draft_views(self.sections@),
            imports: import_views(self.imports@),
            exports: export_views(self.exports@),
            dependencies: dep_views(self.dependencies@),
            code_slice: self.code_slice@,
            code_slice_base: self.code_slice_base,
            pe: self.pe,
        }
    }
}

/// The bytes of a section in the file: from `start`, `size` bytes, cut at
/// the end of the file; none where it starts past the end.
pub open spec fn file_slice(data: Seq<u8>, start: int, size: int) -> Seq<u8> {
    if start < data.len() {
        data.subrange(start, if start + size < data.len() { start + size } else { data.len() as int })
    } else {
        seq![]
    }
}

/// The code to disassemble, after looking at one more section: the section's
/// first 8 KiB where no code was found yet and the section qualifies.
pub open spec fn code_step(prev: (Seq<u8>, Option<u64>), cond: bool, sample: Seq<u8>, base: u64) -> (
    Seq<u8>,
    Option<u64>,
) {
    if prev.0.len() == 0 && cond {
        (take_upto(sample, 8192), Some(base))
    } else {
        prev
    }
}

/// An import as the loader lists it, before classification.
pub open spec fn plain_import(module: Seq<char>, symbol: Seq<char>, address: u64) -> ImportView {
    ImportView {
        module,
        symbol,
        ordinal: None,
        address: Some(address),
        risk: RiskLevel::Info,
        tags: seq![],
    }
}

fn new_import(module: String, symbol: String, address: u64) -> (r: ImportEntry)
    ensures
        r@ == plain_import(module@, symbol@, address),
{
    let tags: Vec<String> = Vec::new();
    proof {
        assert(strings_view(tags@) =~= Seq::<Seq<char>>::empty());
    }
    ImportEntry { module, symbol, ordinal: None, address: Some(address), risk: RiskLevel::Info, tags }
}

fn copy_bytes_upto(s: &[u8], n: usize) -> (r: Vec<u8>)
    ensures
        r@ == take_upto(s@, n as int),
{
    let k: usize = if s.len() < n { s.len() } else { n };
    let r = slice_bytes(s, 0, k);
    proof {
        if s@.len() <= n {
            assert(s@.subrange(0, k as int) =~= s@);
        }
    }
    r
}

fn file_slice_exec(data: &[u8], start: u64, size: u64) -> (r: Vec<u8>)
    requires
        start + size <= u64::MAX,
    ensures
        r@ == file_slice(data@, start as int, size as int),
{
    let n = data.len();
    if (start as usize) < n && start < n as u64 {
        let end_wide: u64 = start + size;
        let end: usize = if end_wide < n as u64 { end_wide as usize } else { n };
        slice_bytes(data, start as usize, end)
    } else {
        Vec::new()
    }
}

// ---------------------------------------------------------------------------
// PE
// ---------------------------------------------------------------------------

/// Trailing NUL characters removed.
pub open spec fn trim_nul_end(s: Seq<char>) -> Seq<char>
    decreases s.len(),
{
    if s.len() > 0 && s.last() == '\0' {
        trim_nul_end(s.drop_last())
    } else {
        s
    }
}

/// A PE section's name: its eight bytes decoded lossily, trailing NULs removed.
pub open spec fn pe_section_name(raw: Seq<u8>) -> Seq<char> {
    trim_nul_end(utf8_lossy(raw))
}

/// `r`, `w` and `x` for the readable, writable and executable flags.
pub open spec fn pe_permissions(c: u32) -> Seq<char> {
    one_if(c & 0x4000_0000 != 0, 'r') + one_if(c & 0x8000_0000 != 0, 'w') + one_if(
        c & 0x2000_0000 != 0,
        'x',
    )
}

/// The code, initialised-data and uninitialised-data flags by name.
pub open spec fn pe_flags(c: u32) -> Seq<Seq<char>> {
    one_if(c & 0x20 != 0, "CODE"@) + one_if(c & 0x40 != 0, "INITIALIZED_DATA"@) + one_if(
        c & 0x80 != 0,
        "UNINITIALIZED_DATA"@,
    )
}

pub open spec fn pe_sample(data: Seq<u8>, s: PeSectionView) -> Seq<u8> {
    file_slice(data, s.raw_offset as int, s.raw_size as int)
}

pub open spec fn pe_draft(data: Seq<u8>, s: PeSectionView) -> DraftView {
    DraftView {
        name: pe_section_name(s.name),
        virtual_address: s.virtual_address as u64,
        virtual_size: s.virtual_size as u64,
        raw_size: s.raw_size as u64,
        characteristics: pe_flags(s.characteristics),
        permissions: pe_permissions(s.characteristics),
        sample: pe_sample(data, s),
    }
}

/// A PE section holds the code where it is `.text` or executable, and has bytes.
pub open spec fn pe_code_cond(data: Seq<u8>, s: PeSectionView) -> bool {
    (pe_section_name(s.name) == ".text"@ || s.characteristics & 0x2000_0000 != 0) && pe_sample(
        data,
        s,
    ).len() > 0
}

/// The code of a PE: the first 8 KiB of its first code section, at the image
/// base plus the section's address; `None` where that address overflows.
pub open spec fn pe_code(data: Seq<u8>, image_base: u64, ss: Seq<PeSectionView>) -> Option<(Seq<u8>, Option<u64>)>
    decreases ss.len(),
{
    if ss.len() == 0 {
        Some((seq![], None))
    } else {
        match pe_code(data, image_base, ss.drop_last()) {
            None => None,
            Some(prev) => {
                let s = ss.last();
                if prev.0.len() == 0 && pe_code_cond(data, s) {
                    if image_base + s.virtual_address > u64::MAX {
                        None
                    } else {
                        Some(code_step(prev, true, pe_sample(data, s), (image_base + s.virtual_address) as u64))
                    }
                } else {
                    Some(prev)
                }
            },
        }
    }
}

proof fn lemma_pe_code_none_extends(data: Seq<u8>, image_base: u64, ss: Seq<PeSectionView>, i: int)
    requires
        0 <= i <= ss.len(),
        pe_code(data, image_base, ss.subrange(0, i)) is None,
    ensures
        pe_code(data, image_base, ss) is None,
    decreases ss.len() - i,
{
    if i < ss.len() {
        assert(ss.subrange(0, i + 1).drop_last() =~= ss.subrange(0, i));
        lemma_pe_code_none_extends(data, image_base, ss, i + 1);
    } else {
        assert(ss.subrange(0, i) =~= ss);
    }
}

fn trim_nul_end_exec(s: &[char]) -> (r: Vec<char>)
    ensures
        r@ == trim_nul_end(s@),
{
    let mut k: usize = s.len();
    proof {
        assert(s@.subrange(0, k as int) =~= s@);
    }
    while k > 0 && s[k - 1] == '\0'
        invariant
            k <= s@.len(),
            trim_nul_end(s@) == trim_nul_end(s@.subrange(0, k as int)),
        decreases k,
    {
        proof {
            assert(s@.subrange(0, k as int).drop_last() =~= s@.subrange(0, k - 1));
        }
        k -= 1;
    }
    crate::text::slice_chars(s, 0, k)
}

fn pe_draft_exec(data: &[u8], s: &PeSection) -> (r: SectionDraft)
    ensures
        r@ == pe_draft(data@, s@),
{
    let lossy = lossy_string(s.name.as_slice());
    let lc = str_chars(lossy.as_str());
    let nc = trim_nul_end_exec(lc.as_slice());
    let name = crate::text::string_of(nc.as_slice());
    let c = s.characteristics;
    let mut perms = String::new();
    if c & 0x4000_0000 != 0 {
        push_char(&mut perms, 'r');
    }
    if c & 0x8000_0000 != 0 {
        push_char(&mut perms, 'w');
    }
    if c & 0x2000_0000 != 0 {
        push_char(&mut perms, 'x');
    }
    let mut flags: Vec<String> = Vec::new();
    if c & 0x20 != 0 {
        flags.push(owned("CODE"));
    }
    if c & 0x40 != 0 {
        flags.push(owned("INITIALIZED_DATA"));
    }
    if c & 0x80 != 0 {
        flags.push(owned("UNINITIALIZED_DATA"));
    }
    let sample = file_slice_exec(data, s.raw_offset as u64, s.raw_size as u64);
    proof {
        reveal_strlit("");
        assert(perms@ =~= pe_permissions(c));
        assert(strings_view(flags@) =~= pe_flags(c));
    }
    SectionDraft {
        name,
        virtual_address: s.virtual_address as u64,
        virtual_size: s.virtual_size as u64,
        raw_size: s.raw_size as u64,
        characteristics: flags,
        permissions: perms,
        sample,
    }
}

/// The sections of a PE and its code, or `None` where the code's address
/// overflows.
fn pe_drafts(data: &[u8], image_base: u64, secs: &Vec<PeSection>) -> (r: Option<(Vec<SectionDraft>, Vec<u8>, Option<u64>)>)
    ensures
        match r {
            Some((d, code, base)) => pe_code(data@, image_base, pe_section_views(secs@)) == Some((code@, base))
                && draft_views(d@) == pe_section_views(secs@).map_values(|s: PeSectionView| pe_draft(data@, s)),
            None => pe_code(data@, image_base, pe_section_views(secs@)) is None,
        },
{
    let ghost sv = pe_section_views(secs@);
    let mut drafts: Vec<SectionDraft> = Vec::new();
    let mut code: Vec<u8> = Vec::new();
    let mut base: Option<u64> = None;
    let mut i: usize = 0;
    while i < secs.len()
        invariant
            i <= secs@.len(),
            sv == pe_section_views(secs@),
            pe_code(data@, image_base, sv.subrange(0, i as int)) == Some((code@, base)),
            draft_views(drafts@) == sv.subrange(0, i as int).map_values(|s: PeSectionView| pe_draft(data@, s)),
        decreases secs@.len() - i,
    {
        let d = pe_draft_exec(data, &secs[i]);
        let ghost pre = sv.subrange(0, i as int);
        let ghost post = sv.subrange(0, i + 1);
        proof {
            assert(post.drop_last() =~= pre);
            assert(post.last() == secs@[i as int]@);
        }
        if code.len() == 0 && (eq_str(str_chars(d.name.as_str()).as_slice(), ".text")
            || secs[i].characteristics & 0x2000_0000 != 0) && d.sample.len() > 0 {
            let va = secs[i].virtual_address as u64;
            if image_base > u64::MAX - va {
                proof {
                    lemma_pe_code_none_extends(data@, image_base, sv, i + 1);
                }
                return None;
            }
            code = copy_bytes_upto(d.sample.as_slice(), 8192);
            base = Some(image_base + va);
        }
        let ghost before = drafts@;
        drafts.push(d);
        proof {
            assert(draft_views(drafts@) =~= draft_views(before).push(d@));
            assert(post.map_values(|s: PeSectionView| pe_draft(data@, s)) =~= pre.map_values(
                |s: PeSectionView| pe_draft(data@, s),
            ).push(pe_draft(data@, secs@[i as int]@)));
        }
        i += 1;
    }
    proof {
        assert(sv.subrange(0, sv.len() as int) =~= sv);
    }
    Some((drafts, code, base))
}

/// A dependency of that name is listed already, in any letter case.
pub open spec fn dep_known(deps: Seq<(Seq<char>, Option<Seq<char>>, Seq<char>)>, name: Seq<char>) -> bool {
    exists|k: int| 0 <= k < deps.len() && eq_ignore_case(#[trigger] deps[k].0, name)
}

/// The libraries a PE imports from, each once (compared ignoring case), in
/// order of first import.
pub open spec fn pe_deps(imps: Seq<PeImportView>) -> Seq<(Seq<char>, Option<Seq<char>>, Seq<char>)>
    decreases imps.len(),
{
    if imps.len() == 0 {
        seq![]
    } else {
        let prev = pe_deps(imps.drop_last());
        let d = imps.last().dll;
        if dep_known(prev, d) {
            prev
        } else {
            prev.push((d, None, "dll"@))
        }
    }
}

pub open spec fn pe_plain_imports(imps: Seq<PeImportView>) -> Seq<ImportView> {
    imps.map_values(|i: PeImportView| plain_import(i.dll, i.name, i.rva))
}

/// The named exports of a PE.
pub open spec fn pe_named_exports(exps: Seq<PeExportView>) -> Seq<(Seq<char>, Option<u16>, u64, Option<Seq<char>>)> {
    crate::chat::sel(exps, |e: PeExportView| e.name is Some).map_values(
        |e: PeExportView| (e.name->0, None::<u16>, e.rva, e.reexport),
    )
}

/// An import that marks a kernel driver.
pub open spec fn is_driver_import(i: PeImportView) -> bool {
    eq_ignore_case(i.dll, "ntoskrnl.exe"@) || contains_seq(i.name, "DriverEntry"@)
}

/// The identity of a PE: Windows, little endian, its machine, DLL flag,
/// entry point and image base; a driver where it imports from the kernel.
pub open spec fn pe_identity(id: IdentityView, h: PeHeader, imps: Seq<PeImportView>) -> IdentityView {
    IdentityView {
        format: BinaryFormat::Pe,
        os: OperatingSystem::Windows,
        architecture: crate::format::spec_map_machine(h.machine, true).0,
        bits: crate::format::spec_map_machine(h.machine, true).1,
        endianness: "little"@,
        is_dll: h.is_lib,
        entry_point: Some(h.entry),
        image_base: Some(h.image_base),
        is_driver: id.is_driver || exists|k: int| 0 <= k < imps.len() && is_driver_import(#[trigger] imps[k]),
        ..id
    }
}

/// The layout of a PE, or `None` where its code address overflows.
pub open spec fn spec_pe_layout(
    data: Seq<u8>,
    id: IdentityView,
    h: PeHeader,
    ss: Seq<PeSectionView>,
    imps: Seq<PeImportView>,
    exps: Seq<PeExportView>,
) -> Option<LayoutView> {
    match pe_code(data, h.image_base, ss) {
        None => None,
        Some(code) => Some(
            LayoutView {
                identity: pe_identity(id, h, imps),
                sections: ss.map_values(|s: PeSectionView| pe_draft(data, s)),
                imports: pe_plain_imports(imps),
                exports: pe_named_exports(exps),
                dependencies: pe_deps(imps),
                code_slice: code.0,
                code_slice_base: code.1,
                pe: true,
            },
        ),
    }
}

fn dep_known_exec(deps: &Vec<DependencyInfo>, name: &str) -> (r: bool)
    ensures
        r == dep_known(dep_views(deps@), name@),
{
    let mut k: usize = 0;
    while k < deps.len()
        invariant
            k <= deps@.len(),
            forall|j: int| 0 <= j < k ==> !eq_ignore_case(#[trigger] dep_views(deps@)[j].0, name@),
        decreases deps@.len() - k,
    {
        let c = str_chars(name);
        let dc = str_chars(deps[k].name.as_str());
        let lc = crate::text::lower_chars(dc.as_slice());
        let ln = crate::text::lower_chars(c.as_slice());
        if chars_eq(lc.as_slice(), ln.as_slice()) {
            proof {
                assert(eq_ignore_case(dep_views(deps@)[k as int].0, name@));
            }
            return true;
        }
        k += 1;
    }
    false
}

fn pe_imports_and_deps(imps: &Vec<PeImport>) -> (r: (Vec<ImportEntry>, Vec<DependencyInfo>, bool))
    ensures
        import_views(r.0@) == pe_plain_imports(pe_import_views(imps@)),
        dep_views(r.1@) == pe_deps(pe_import_views(imps@)),
        r.2 == exists|k: int| 0 <= k < imps@.len() && is_driver_import(#[trigger] pe_import_views(imps@)[k]),
{
    let ghost iv = pe_import_views(imps@);
    let mut out: Vec<ImportEntry> = Vec::new();
    let mut deps: Vec<DependencyInfo> = Vec::new();
    let mut driver = false;
    let mut i: usize = 0;
    while i < imps.len()
        invariant
            i <= imps@.len(),
            iv == pe_import_views(imps@),
            import_views(out@) == pe_plain_imports(iv.subrange(0, i as int)),
            dep_views(deps@) == pe_deps(iv.subrange(0, i as int)),
            driver == exists|k: int| 0 <= k < i && is_driver_import(#[trigger] iv[k]),
        decreases imps@.len() - i,
    {
        let imp = &imps[i];
        let e = new_import(copy_string(&imp.dll), copy_string(&imp.name), imp.rva);
        let ghost ob = out@;
        out.push(e);
        let known = dep_known_exec(&deps, imp.dll.as_str());
        let ghost db = deps@;
        if !known {
            deps.push(DependencyInfo { name: copy_string(&imp.dll), version: None, kind: owned("dll") });
        }
        let dc = str_chars(imp.dll.as_str());
        let nc = str_chars(imp.name.as_str());
        let d = eq_ignore_case_exec(dc.as_slice(), "ntoskrnl.exe") || has(nc.as_slice(), "DriverEntry");
        if d {
            driver = true;
        }
        proof {
            let pre = iv.subrange(0, i as int);
            let post = iv.subrange(0, i + 1);
            assert(post.drop_last() =~= pre);
            assert(post.last() == iv[i as int]);
            assert(import_views(out@) =~= import_views(ob).push(e@));
            assert(pe_plain_imports(post) =~= pe_plain_imports(pre).push(plain_import(iv[i as int].dll, iv[i as int].name, iv[i as int].rva)));
            if !known {
                assert(dep_views(deps@) =~= dep_views(db).push((imp.dll@, None, "dll"@)));
            }
            if d {
                assert(is_driver_import(iv[i as int]));
            }
            assert(driver == exists|k: int| 0 <= k < i + 1 && is_driver_import(#[trigger] iv[k]));
        }
        i += 1;
    }
    proof {
        assert(iv.subrange(0, iv.len() as int) =~= iv);
    }
    (out, deps, driver)
}

fn pe_exports_named(exps: &Vec<PeExport>) -> (r: Vec<ExportEntry>)
    ensures
        export_views(r@) == pe_named_exports(pe_export_views(exps@)),
{
    let ghost ev = pe_export_views(exps@);
    let mut out: Vec<ExportEntry> = Vec::new();
    let mut i: usize = 0;
    while i < exps.len()
        invariant
            i <= exps@.len(),
            ev == pe_export_views(exps@),
            export_views(out@) == pe_named_exports(ev.subrange(0, i as int)),
        decreases exps@.len() - i,
    {
        let ghost ob = out@;
        let e = &exps[i];
        if let Some(n) = &e.name {
            let x = ExportEntry {
                symbol: copy_string(n),
                ordinal: None,
                address: e.rva,
                forwarded: copy_opt_string(&e.reexport),
            };
            out.push(x);
            proof {
                assert(export_views(out@) =~= export_views(ob).push((x.symbol@, x.ordinal, x.address, opt_view(x.forwarded))));
            }
        }
        proof {
            let pre = ev.subrange(0, i as int);
            let post = ev.subrange(0, i + 1);
            let p = |e: PeExportView| e.name is Some;
            let f = |e: PeExportView| (e.name->0, None::<u16>, e.rva, e.reexport);
            assert(post.drop_last() =~= pre);
            assert(crate::chat::sel(post, p) == crate::chat::sel(pre, p) + one_if(p(ev[i as int]), ev[i as int]));
            assert(crate::chat::sel(post, p).map_values(f) =~= crate::chat::sel(pre, p).map_values(f) + one_if(
                p(ev[i as int]),
                ev[i as int],
            ).map_values(f));
            assert(export_views(out@) =~= pe_named_exports(post));
        }
        i += 1;
    }
    proof {
        assert(ev.subrange(0, ev.len() as int) =~= ev);
    }
    out
}

/// Reads the layout of a PE out of its parsed parts.
fn pe_layout(
    data: &[u8],
    identity: BinaryIdentity,
    h: PeHeader,
    secs: &Vec<PeSection>,
    imps: &Vec<PeImport>,
    exps: &Vec<PeExport>,
) -> (r: Option<ObjectLayout>)
    ensures
        match r {
            Some(l) => spec_pe_layout(data@, identity@, h, pe_section_views(secs@), pe_import_views(imps@), pe_export_views(exps@)) == Some(l@),
            None => spec_pe_layout(data@, identity@, h, pe_section_views(secs@), pe_import_views(imps@), pe_export_views(exps@)) is None,
        },
{
    let drafts = pe_drafts(data, h.image_base, secs);
    match drafts {
        None => None,
        Some((sections, code, base)) => {
            let (imports, dependencies, driver) = pe_imports_and_deps(imps);
            let exports = pe_exports_named(exps);
            let mut id = identity;
            let (arch, bits) = crate::format::map_machine(h.machine, true);
            id.format = BinaryFormat::Pe;
            id.os = OperatingSystem::Windows;
            id.architecture = arch;
            id.bits = bits;
            id.endianness = owned("little");
            id.is_dll = h.is_lib;
            id.entry_point = Some(h.entry);
            id.image_base = Some(h.image_base);
            if driver {
                id.is_driver = true;
            }
            let l = ObjectLayout {
                identity: id,
                sections,
                imports,
                exports,
                dependencies,
                code_slice: code,
                code_slice_base: base,
                pe: true,
            };
            proof {
                assert(l@.identity == pe_identity(identity@, h, pe_import_views(imps@)));
            }
            Some(l)
        },
    }
}

// ---------------------------------------------------------------------------
// ELF
// ---------------------------------------------------------------------------

pub open spec fn text_or_empty(o: Option<Seq<char>>) -> Seq<char> {
    match o {
        Some(t) => t,
        None => ""@,
    }
}

/// The bytes of an ELF section can be found: it starts past the end of the
/// file, or its end does not overflow.
pub open spec fn elf_fits(data: Seq<u8>, s: ElfSectionView) -> bool {
    s.offset < data.len() ==> s.offset + s.size <= u64::MAX
}

pub open spec fn elf_sample(data: Seq<u8>, s: ElfSectionView) -> Seq<u8> {
    file_slice(data, s.offset as int, s.size as int)
}

pub open spec fn elf_permissions(s: ElfSectionView) -> Seq<char> {
    one_if(s.alloc, 'r') + one_if(s.writable, 'w') + one_if(s.executable, 'x')
}

pub open spec fn elf_draft(data: Seq<u8>, s: ElfSectionView) -> DraftView {
    DraftView {
        name: text_or_empty(s.name),
        virtual_address: s.addr,
        virtual_size: s.size,
        raw_size: s.size,
        characteristics: seq![],
        permissions: elf_permissions(s),
        sample: elf_sample(data, s),
    }
}

/// The code of an ELF: the first 8 KiB of its first `.text` or executable
/// section with bytes, at the section's address; `None` where a section's
/// end overflows.
pub open spec fn elf_code(data: Seq<u8>, ss: Seq<ElfSectionView>) -> Option<(Seq<u8>, Option<u64>)>
    decreases ss.len(),
{
    if ss.len() == 0 {
        Some((seq![], None))
    } else {
        match elf_code(data, ss.drop_last()) {
            None => None,
            Some(prev) => {
                let s = ss.last();
                if !elf_fits(data, s) {
                    None
                } else {
                    Some(code_step(
                        prev,
                        (text_or_empty(s.name) == ".text"@ || s.executable) && elf_sample(data, s).len() > 0,
                        elf_sample(data, s),
                        s.addr,
                    ))
                }
            },
        }
    }
}

pub open spec fn sym_name(s: ElfSymbolView) -> Seq<char> {
    text_or_empty(s.name)
}

/// The imported dynamic symbols, from `extern`.
pub open spec fn elf_imports(syms: Seq<ElfSymbolView>) -> Seq<ImportView> {
    crate::chat::sel(syms, |s: ElfSymbolView| sym_name(s).len() > 0 && s.is_import).map_values(
        |s: ElfSymbolView| plain_import("extern"@, sym_name(s), s.value),
    )
}

/// The defined dynamic symbols with a value.
pub open spec fn elf_exports(syms: Seq<ElfSymbolView>) -> Seq<(Seq<char>, Option<u16>, u64, Option<Seq<char>>)> {
    crate::chat::sel(syms, |s: ElfSymbolView| sym_name(s).len() > 0 && !s.is_import && s.value != 0).map_values(
        |s: ElfSymbolView| (sym_name(s), None::<u16>, s.value, None::<Seq<char>>),
    )
}

pub open spec fn elf_deps(libs: Seq<Seq<char>>) -> Seq<(Seq<char>, Option<Seq<char>>, Seq<char>)> {
    libs.map_values(|l: Seq<char>| (l, None::<Seq<char>>, "needed"@))
}

/// The identity of an ELF: Linux, its machine and class, byte order, entry
/// point, and whether it is a shared object; a shared object with a
/// `modinfo` section is a kernel module.
pub open spec fn elf_identity(id: IdentityView, h: ElfHeader, ss: Seq<ElfSectionView>) -> IdentityView {
    let m = crate::format::spec_map_machine(h.machine, false);
    let so = h.e_type == 3;
    let module = so && exists|k: int| 0 <= k < ss.len() && contains_seq(text_or_empty(#[trigger] ss[k].name), "modinfo"@);
    IdentityView {
        format: if module { BinaryFormat::KernelModule } else { BinaryFormat::Elf },
        os: OperatingSystem::Linux,
        architecture: m.0,
        bits: if h.is_64 { 64u8 } else if m.1 < 32 { 32u8 } else { m.1 },
        endianness: if h.little_endian { "little"@ } else { "big"@ },
        entry_point: Some(h.entry),
        is_shared_object: so,
        is_dll: so,
        ..id
    }
}

/// The layout of an ELF, or `None` where a section's end overflows.
pub open spec fn spec_elf_layout(
    data: Seq<u8>,
    id: IdentityView,
    h: ElfHeader,
    ss: Seq<ElfSectionView>,
    libs: Seq<Seq<char>>,
    syms: Seq<ElfSymbolView>,
) -> Option<LayoutView> {
    match elf_code(data, ss) {
        None => None,
        Some(code) => Some(
            LayoutView {
                identity: elf_identity(id, h, ss),
                sections: ss.map_values(|s: ElfSectionView| elf_draft(data, s)),
                imports: elf_imports(syms),
                exports: elf_exports(syms),
                dependencies: elf_deps(libs),
                code_slice: code.0,
                code_slice_base: code.1,
                pe: false,
            },
        ),
    }
}

proof fn lemma_elf_code_none_extends(data: Seq<u8>, ss: Seq<ElfSectionView>, i: int)
    requires
        0 <= i <= ss.len(),
        elf_code(data, ss.subrange(0, i)) is None,
    ensures
        elf_code(data, ss) is None,
    decreases ss.len() - i,
{
    if i < ss.len() {
        assert(ss.subrange(0, i + 1).drop_last() =~= ss.subrange(0, i));
        lemma_elf_code_none_extends(data, ss, i + 1);
    } else {
        assert(ss.subrange(0, i) =~= ss);
    }
}

fn name_or_empty(o: &Option<String>) -> (r: String)
    ensures
        r@ == text_or_empty(opt_view(*o)),
{
    match o {
        Some(t) => copy_string(t),
        None => {
            proof {
                reveal_strlit("");
            }
            owned("")
        },
    }
}

fn elf_drafts(data: &[u8], secs: &Vec<ElfSection>) -> (r: Option<(Vec<SectionDraft>, Vec<u8>, Option<u64>, bool)>)
    ensures
        match r {
            Some((d, code, base, modinfo)) => elf_code(data@, elf_section_views(secs@)) == Some((code@, base))
                && draft_views(d@) == elf_section_views(secs@).map_values(|s: ElfSectionView| elf_draft(data@, s))
                && modinfo == exists|k: int| 0 <= k < secs@.len() && contains_seq(
                    text_or_empty(#[trigger] elf_section_views(secs@)[k].name),
                    "modinfo"@,
                ),
            None => elf_code(data@, elf_section_views(secs@)) is None,
        },
{
    let ghost sv = elf_section_views(secs@);
    let mut drafts: Vec<SectionDraft> = Vec::new();
    let mut code: Vec<u8> = Vec::new();
    let mut base: Option<u64> = None;
    let mut modinfo = false;
    let mut i: usize = 0;
    while i < secs.len()
        invariant
            i <= secs@.len(),
            sv == elf_section_views(secs@),
            elf_code(data@, sv.subrange(0, i as int)) == Some((code@, base)),
            draft_views(drafts@) == sv.subrange(0, i as int).map_values(|s: ElfSectionView| elf_draft(data@, s)),
            modinfo == exists|k: int| 0 <= k < i && contains_seq(text_or_empty(#[trigger] sv[k].name), "modinfo"@),
        decreases secs@.len() - i,
    {
        let s = &secs[i];
        let ghost pre = sv.subrange(0, i as int);
        let ghost post = sv.subrange(0, i + 1);
        proof {
            assert(post.drop_last() =~= pre);
            assert(post.last() == s@);
        }
        if s.offset < data.len() as u64 && s.offset > u64::MAX - s.size {
            proof {
                lemma_elf_code_none_extends(data@, sv, i + 1);
            }
            return None;
        }
        let name = name_or_empty(&s.name);
        let mut perms = String::new();
        if s.alloc {
            push_char(&mut perms, 'r');
        }
        if s.writable {
            push_char(&mut perms, 'w');
        }
        if s.executable {
            push_char(&mut perms, 'x');
        }
        let sample = if s.offset < data.len() as u64 {
            file_slice_exec(data, s.offset, s.size)
        } else {
            Vec::new()
        };
        proof {
            reveal_strlit("");
            assert(perms@ =~= elf_permissions(s@));
            assert(sample@ =~= elf_sample(data@, s@));
        }
        let nc = str_chars(name.as_str());
        if has(nc.as_slice(), "modinfo") {
            modinfo = true;
        }
        if code.len() == 0 && (eq_str(nc.as_slice(), ".text") || s.executable) && sample.len() > 0 {
            code = copy_bytes_upto(sample.as_slice(), 8192);
            base = Some(s.addr);
        }
        let flags: Vec<String> = Vec::new();
        let d = SectionDraft {
            name,
            virtual_address: s.addr,
            virtual_size: s.size,
            raw_size: s.size,
            characteristics: flags,
            permissions: perms,
            sample,
        };
        let ghost before = drafts@;
        drafts.push(d);
        proof {
            assert(strings_view(flags@) =~= Seq::<Seq<char>>::empty());
            assert(d@ == elf_draft(data@, s@));
            assert(draft_views(drafts@) =~= draft_views(before).push(d@));
            assert(post.map_values(|s: ElfSectionView| elf_draft(data@, s)) =~= pre.map_values(
                |s: ElfSectionView| elf_draft(data@, s),
            ).push(elf_draft(data@, s@)));
            assert(modinfo == exists|k: int| 0 <= k < i + 1 && contains_seq(text_or_empty(#[trigger] sv[k].name), "modinfo"@));
        }
        i += 1;
    }
    proof {
        assert(sv.subrange(0, sv.len() as int) =~= sv);
    }
    Some((drafts, code, base, modinfo))
}

fn elf_symbols(syms: &Vec<ElfSymbol>) -> (r: (Vec<ImportEntry>, Vec<ExportEntry>))
    ensures
        import_views(r.0@) == elf_imports(elf_symbol_views(syms@)),
        export_views(r.1@) == elf_exports(elf_symbol_views(syms@)),
{
    let ghost sv = elf_symbol_views(syms@);
    let mut imports: Vec<ImportEntry> = Vec::new();
    let mut exports: Vec<ExportEntry> = Vec::new();
    let mut i: usize = 0;
    while i < syms.len()
        invariant
            i <= syms@.len(),
            sv == elf_symbol_views(syms@),
            import_views(imports@) == elf_imports(sv.subrange(0, i as int)),
            export_views(exports@) == elf_exports(sv.subrange(0, i as int)),
        decreases syms@.len() - i,
    {
        let s = &syms[i];
        let name = name_or_empty(&s.name);
        let ghost ib = imports@;
        let ghost eb = exports@;
        let nonempty = str_chars(name.as_str()).len() > 0;
        if nonempty {
            if s.is_import {
                let e = new_import(owned("extern"), name, s.value);
                imports.push(e);
                proof {
                    assert(import_views(imports@) =~= import_views(ib).push(e@));
                }
            } else if s.value != 0 {
                let x = ExportEntry { symbol: name, ordinal: None, address: s.value, forwarded: None };
                exports.push(x);
                proof {
                    assert(export_views(exports@) =~= export_views(eb).push((x.symbol@, x.ordinal, x.address, opt_view(x.forwarded))));
                }
            }
        }
        proof {
            let pre = sv.subrange(0, i as int);
            let post = sv.subrange(0, i + 1);
            assert(post.drop_last() =~= pre);
            assert(post.last() == sv[i as int]);
            let p = |s: ElfSymbolView| sym_name(s).len() > 0 && s.is_import;
            let f = |s: ElfSymbolView| plain_import("extern"@, sym_name(s), s.value);
            let q = |s: ElfSymbolView| sym_name(s).len() > 0 && !s.is_import && s.value != 0;
            let g = |s: ElfSymbolView| (sym_name(s), None::<u16>, s.value, None::<Seq<char>>);
            assert(crate::chat::sel(post, p) == crate::chat::sel(pre, p) + one_if(p(sv[i as int]), sv[i as int]));
            assert(crate::chat::sel(post, q) == crate::chat::sel(pre, q) + one_if(q(sv[i as int]), sv[i as int]));
            assert(crate::chat::sel(post, p).map_values(f) =~= crate::chat::sel(pre, p).map_values(f) + one_if(
                p(sv[i as int]),
                sv[i as int],
            ).map_values(f));
            assert(crate::chat::sel(post, q).map_values(g) =~= crate::chat::sel(pre, q).map_values(g) + one_if(
                q(sv[i as int]),
                sv[i as int],
            ).map_values(g));
            assert(import_views(imports@) =~= elf_imports(post));
            assert(export_views(exports@) =~= elf_exports(post));
        }
        i += 1;
    }
    proof {
        assert(sv.subrange(0, sv.len() as int) =~= sv);
    }
    (imports, exports)
}

fn elf_dependencies(libs: &Vec<String>) -> (r: Vec<DependencyInfo>)
    ensures
        dep_views(r@) == elf_deps(strings_view(libs@)),
{
    let mut out: Vec<DependencyInfo> = Vec::new();
    let mut i: usize = 0;
    while i < libs.len()
        invariant
            i <= libs@.len(),
            dep_views(out@) == elf_deps(strings_view(libs@).subrange(0, i as int)),
        decreases libs@.len() - i,
    {
        let d = DependencyInfo { name: copy_string(&libs[i]), version: None, kind: owned("needed") };
        let ghost ob = out@;
        out.push(d);
        proof {
            assert(dep_views(out@) =~= dep_views(ob).push((libs@[i as int]@, None, "needed"@)));
            assert(elf_deps(strings_view(libs@).subrange(0, i + 1)) =~= elf_deps(strings_view(libs@).subrange(0, i as int)).push(
                (libs@[i as int]@, None, "needed"@),
            ));
        }
        i += 1;
    }
    proof {
        assert(strings_view(libs@).subrange(0, libs@.len() as int) =~= strings_view(libs@));
    }
    out
}

/// Reads the layout of an ELF out of its parsed parts.
fn elf_layout(
    data: &[u8],
    identity: BinaryIdentity,
    h: ElfHeader,
    secs: &Vec<ElfSection>,
    libs: &Vec<String>,
    syms: &Vec<ElfSymbol>,
) -> (r: Option<ObjectLayout>)
    ensures
        match r {
            Some(l) => spec_elf_layout(data@, identity@, h, elf_section_views(secs@), strings_view(libs@), elf_symbol_views(syms@)) == Some(l@),
            None => spec_elf_layout(data@, identity@, h, elf_section_views(secs@), strings_view(libs@), elf_symbol_views(syms@)) is None,
        },
{
    match elf_drafts(data, secs) {
        None => None,
        Some((sections, code, base, modinfo)) => {
            let (imports, exports) = elf_symbols(syms);
            let dependencies = elf_dependencies(libs);
            let mut id = identity;
            let (arch, bits) = crate::format::map_machine(h.machine, false);
            let so = h.e_type == 3;
            id.format = if so && modinfo { BinaryFormat::KernelModule } else { BinaryFormat::Elf };
            id.os = OperatingSystem::Linux;
            id.architecture = arch;
            id.bits = if h.is_64 { 64 } else if bits < 32 { 32 } else { bits };
            id.endianness = if h.little_endian { owned("little") } else { owned("big") };
            id.entry_point = Some(h.entry);
            id.is_shared_object = so;
            id.is_dll = so;
            let l = ObjectLayout {
                identity: id,
                sections,
                imports,
                exports,
                dependencies,
                code_slice: code,
                code_slice_base: base,
                pe: false,
            };
            proof {
                assert(l@.identity == elf_identity(identity@, h, elf_section_views(secs@)));
            }
            Some(l)
        },
    }
}

// ---------------------------------------------------------------------------
// Mach-O
// ---------------------------------------------------------------------------

pub open spec fn mach_arch(cputype: u32) -> Architecture {
    if cputype == 7 {
        Architecture::X86
    } else if cputype == 0x0100_0007 {
        Architecture::X64
    } else if cputype == 12 {
        Architecture::Arm
    } else if cputype == 0x0100_000c {
        Architecture::Arm64
    } else {
        Architecture::Unknown
    }
}

/// The identity of a Mach-O: macOS, and where goblin gives a Mach-O image
/// (the first of a fat binary), its class, byte order, entry point and CPU.
pub open spec fn mach_identity(id: IdentityView, h: Option<MachHeader>) -> IdentityView {
    let base = IdentityView { format: BinaryFormat::MachO, os: OperatingSystem::MacOs, ..id };
    match h {
        None => base,
        Some(m) => IdentityView {
            bits: if m.is_64 { 64u8 } else { 32u8 },
            endianness: if m.little_endian { "little"@ } else { "big"@ },
            entry_point: Some(m.entry),
            architecture: mach_arch(m.cputype),
            ..base
        },
    }
}

pub open spec fn mach_draft(s: MachSectionView) -> DraftView {
    DraftView {
        name: text_or_empty(s.name),
        virtual_address: s.addr,
        virtual_size: s.size,
        raw_size: s.data.len() as u64,
        characteristics: seq![],
        permissions: "rwx"@,
        sample: s.data,
    }
}

/// The sections goblin could read.
pub open spec fn mach_readable(ss: Seq<Option<MachSectionView>>) -> Seq<MachSectionView> {
    crate::chat::sel(ss, |s: Option<MachSectionView>| s is Some).map_values(|s: Option<MachSectionView>| s->0)
}

/// The code of a Mach-O: from the first section named like text while no
/// code was found, its first 8 KiB at its address.
pub open spec fn mach_code(ss: Seq<MachSectionView>) -> (Seq<u8>, Option<u64>)
    decreases ss.len(),
{
    if ss.len() == 0 {
        (seq![], None)
    } else {
        let s = ss.last();
        let n = text_or_empty(s.name);
        code_step(mach_code(ss.drop_last()), contains_seq(n, "__text"@) || contains_seq(n, "text"@), s.data, s.addr)
    }
}

pub open spec fn mach_exports(e: Option<Seq<(Seq<char>, u64)>>) -> Seq<(Seq<char>, Option<u16>, u64, Option<Seq<char>>)> {
    match e {
        Some(v) => v.map_values(|x: (Seq<char>, u64)| (x.0, None::<u16>, x.1, None::<Seq<char>>)),
        None => seq![],
    }
}

pub open spec fn mach_imports(i: Option<Seq<(Seq<char>, u64)>>) -> Seq<ImportView> {
    match i {
        Some(v) => v.map_values(|x: (Seq<char>, u64)| plain_import(""@, x.0, x.1)),
        None => seq![],
    }
}

/// The layout of a Mach-O; without a Mach-O image only its format and OS.
pub open spec fn spec_mach_layout(
    id: IdentityView,
    h: Option<MachHeader>,
    ss: Seq<Option<MachSectionView>>,
    exps: Option<Seq<(Seq<char>, u64)>>,
    imps: Option<Seq<(Seq<char>, u64)>>,
) -> LayoutView {
    match h {
        None => LayoutView {
            identity: mach_identity(id, h),
            sections: seq![],
            imports: seq![],
            exports: seq![],
            dependencies: seq![],
            code_slice: seq![],
            code_slice_base: None,
            pe: false,
        },
        Some(_) => LayoutView {
            identity: mach_identity(id, h),
            sections: mach_readable(ss).map_values(|s: MachSectionView| mach_draft(s)),
            imports: mach_imports(imps),
            exports: mach_exports(exps),
            dependencies: seq![],
            code_slice: mach_code(mach_readable(ss)).0,
            code_slice_base: mach_code(mach_readable(ss)).1,
            pe: false,
        },
    }
}

fn mach_drafts(secs: &Vec<Option<MachSection>>) -> (r: (Vec<SectionDraft>, Vec<u8>, Option<u64>))
    ensures
        draft_views(r.0@) == mach_readable(mach_section_views(secs@)).map_values(|s: MachSectionView| mach_draft(s)),
        (r.1@, r.2) == mach_code(mach_readable(mach_section_views(secs@))),
{
    let ghost sv = mach_section_views(secs@);
    let mut drafts: Vec<SectionDraft> = Vec::new();
    let mut code: Vec<u8> = Vec::new();
    let mut base: Option<u64> = None;
    let mut i: usize = 0;
    while i < secs.len()
        invariant
            i <= secs@.len(),
            sv == mach_section_views(secs@),
            draft_views(drafts@) == mach_readable(sv.subrange(0, i as int)).map_values(|s: MachSectionView| mach_draft(s)),
            (code@, base) == mach_code(mach_readable(sv.subrange(0, i as int))),
        decreases secs@.len() - i,
    {
        let ghost pre = sv.subrange(0, i as int);
        let ghost post = sv.subrange(0, i + 1);
        let ghost db = drafts@;
        let ghost p = |s: Option<MachSectionView>| s is Some;
        let ghost f = |s: Option<MachSectionView>| s->0;
        proof {
            assert(post.drop_last() =~= pre);
            assert(post.last() == sv[i as int]);
            assert(crate::chat::sel(post, p) == crate::chat::sel(pre, p) + one_if(p(sv[i as int]), sv[i as int]));
            assert(crate::chat::sel(post, p).map_values(f) =~= crate::chat::sel(pre, p).map_values(f) + one_if(
                p(sv[i as int]),
                sv[i as int],
            ).map_values(f));
        }
        match &secs[i] {
            Some(s) => {
                let name = name_or_empty(&s.name);
                let nc = str_chars(name.as_str());
                let cond = has(nc.as_slice(), "__text") || has(nc.as_slice(), "text");
                if code.len() == 0 && cond {
                    code = copy_bytes_upto(s.data.as_slice(), 8192);
                    base = Some(s.addr);
                }
                let flags: Vec<String> = Vec::new();
                let d = SectionDraft {
                    name,
                    virtual_address: s.addr,
                    virtual_size: s.size,
                    raw_size: s.data.len() as u64,
                    characteristics: flags,
                    permissions: owned("rwx"),
                    sample: s.data.clone(),
                };
                drafts.push(d);
                proof {
                    assert(strings_view(flags@) =~= Seq::<Seq<char>>::empty());
                    assert(d@ == mach_draft(s@));
                    assert(draft_views(drafts@) =~= draft_views(db).push(d@));
                    assert(mach_readable(post) =~= mach_readable(pre).push(s@));
                    assert(mach_readable(post).drop_last() =~= mach_readable(pre));
                    assert(mach_readable(post).map_values(|s: MachSectionView| mach_draft(s)) =~= mach_readable(
                        pre,
                    ).map_values(|s: MachSectionView| mach_draft(s)).push(mach_draft(s@)));
                }
            },
            None => {
                proof {
                    assert(mach_readable(post) =~= mach_readable(pre));
                }
            },
        }
        i += 1;
    }
    proof {
        assert(sv.subrange(0, sv.len() as int) =~= sv);
    }
    (drafts, code, base)
}

fn mach_export_list(e: &Option<Vec<(String, u64)>>) -> (r: Vec<ExportEntry>)
    ensures
        export_views(r@) == mach_exports(opt_named_views(*e)),
{
    let mut out: Vec<ExportEntry> = Vec::new();
    if let Some(v) = e {
        let mut i: usize = 0;
        while i < v.len()
            invariant
                i <= v@.len(),
                *e == Some(*v),
                export_views(out@) == crate::objects::named_views(v@).subrange(0, i as int).map_values(
                    |x: (Seq<char>, u64)| (x.0, None::<u16>, x.1, None::<Seq<char>>),
                ),
            decreases v@.len() - i,
        {
            let x = ExportEntry { symbol: copy_string(&v[i].0), ordinal: None, address: v[i].1, forwarded: None };
            let ghost ob = out@;
            out.push(x);
            proof {
                assert(export_views(out@) =~= export_views(ob).push((x.symbol@, x.ordinal, x.address, opt_view(x.forwarded))));
                assert(export_views(out@) =~= crate::objects::named_views(v@).subrange(0, i + 1).map_values(
                    |x: (Seq<char>, u64)| (x.0, None::<u16>, x.1, None::<Seq<char>>),
                ));
            }
            i += 1;
        }
        proof {
            assert(crate::objects::named_views(v@).subrange(0, v@.len() as int) =~= crate::objects::named_views(v@));
        }
    } else {
        proof {
            assert(export_views(out@) =~= Seq::<(Seq<char>, Option<u16>, u64, Option<Seq<char>>)>::empty());
        }
    }
    out
}

fn mach_import_list(e: &Option<Vec<(String, u64)>>) -> (r: Vec<ImportEntry>)
    ensures
        import_views(r@) == mach_imports(opt_named_views(*e)),
{
    let mut out: Vec<ImportEntry> = Vec::new();
    if let Some(v) = e {
        let mut i: usize = 0;
        while i < v.len()
            invariant
                i <= v@.len(),
                *e == Some(*v),
                import_views(out@) == crate::objects::named_views(v@).subrange(0, i as int).map_values(
                    |x: (Seq<char>, u64)| plain_import(""@, x.0, x.1),
                ),
            decreases v@.len() - i,
        {
            let x = new_import(owned(""), copy_string(&v[i].0), v[i].1);
            let ghost ob = out@;
            out.push(x);
            proof {
                reveal_strlit("");
                assert(import_views(out@) =~= import_views(ob).push(x@));
                assert(import_views(out@) =~= crate::objects::named_views(v@).subrange(0, i + 1).map_values(
                    |x: (Seq<char>, u64)| plain_import(""@, x.0, x.1),
                ));
            }
            i += 1;
        }
        proof {
            assert(crate::objects::named_views(v@).subrange(0, v@.len() as int) =~= crate::objects::named_views(v@));
        }
    } else {
        proof {
            assert(import_views(out@) =~= Seq::<ImportView>::empty());
        }
    }
    out
}

/// Reads the layout of a Mach-O out of its parsed parts.
fn mach_layout(
    identity: BinaryIdentity,
    h: Option<MachHeader>,
    secs: &Vec<Option<MachSection>>,
    exps: &Option<Vec<(String, u64)>>,
    imps: &Option<Vec<(String, u64)>>,
) -> (l: ObjectLayout)
    ensures
        l@ == spec_mach_layout(identity@, h, mach_section_views(secs@), opt_named_views(*exps), opt_named_views(*imps)),
{
    let mut id = identity;
    id.format = BinaryFormat::MachO;
    id.os = OperatingSystem::MacOs;
    match h {
        None => {
            let l = ObjectLayout {
                identity: id,
                sections: Vec::new(),
                imports: Vec::new(),
                exports: Vec::new(),
                dependencies: Vec::new(),
                code_slice: Vec::new(),
                code_slice_base: None,
                pe: false,
            };
            proof {
                assert(l@.sections =~= Seq::<DraftView>::empty());
                assert(l@.imports =~= Seq::<ImportView>::empty());
                assert(l@.exports =~= Seq::<(Seq<char>, Option<u16>, u64, Option<Seq<char>>)>::empty());
                assert(l@.dependencies =~= Seq::<(Seq<char>, Option<Seq<char>>, Seq<char>)>::empty());
            }
            l
        },
        Some(m) => {
            id.bits = if m.is_64 { 64 } else { 32 };
            id.endianness = if m.little_endian { owned("little") } else { owned("big") };
            id.entry_point = Some(m.entry);
            id.architecture = if m.cputype == 7 {
                Architecture::X86
            } else if m.cputype == 0x0100_0007 {
                Architecture::X64
            } else if m.cputype == 12 {
                Architecture::Arm
            } else if m.cputype == 0x0100_000c {
                Architecture::Arm64
            } else {
                Architecture::Unknown
            };
            let (sections, code, base) = mach_drafts(secs);
            let exports = mach_export_list(exps);
            let imports = mach_import_list(imps);
            let l = ObjectLayout {
                identity: id,
                sections,
                imports,
                exports,
                dependencies: Vec::new(),
                code_slice: code,
                code_slice_base: base,
                pe: false,
            };
            proof {
                assert(l@.dependencies =~= Seq::<(Seq<char>, Option<Seq<char>>, Seq<char>)>::empty());
            }
            l
        },
    }
}

// ---------------------------------------------------------------------------
// Any object file
// ---------------------------------------------------------------------------

/// A layout with nothing read beyond the identity.
pub open spec fn empty_layout(id: IdentityView) -> LayoutView {
    LayoutView {
        identity: id,
        sections: seq![],
        imports: seq![],
        exports: seq![],
        dependencies: seq![],
        code_slice: seq![],
        code_slice_base: None,
        pe: false,
    }
}

/// Bytes goblin cannot parse: raw images and firmware are one readable,
/// writable, executable section whose first 4 KiB are code at address 0.
pub open spec fn raw_layout(data: Seq<u8>, id: IdentityView) -> LayoutView {
    if id.format == BinaryFormat::Raw || id.format == BinaryFormat::Firmware {
        LayoutView {
            sections: seq![
                DraftView {
                    name: ".raw"@,
                    virtual_address: 0,
                    virtual_size: data.len() as u64,
                    raw_size: data.len() as u64,
                    characteristics: seq![],
                    permissions: "rwx"@,
                    sample: data,
                },
            ],
            code_slice: take_upto(data, 4096),
            code_slice_base: Some(0u64),
            ..empty_layout(id)
        }
    } else {
        empty_layout(id)
    }
}

/// The identity of the bytes as identification gives it.
pub open spec fn identified(data: Seq<u8>) -> IdentityView {
    crate::format::spec_identify(
        data,
        crate::format::infer_mime(data),
        if crate::format::is_zip(data) { crate::format::zip_names(data) } else { None },
    ).0
}

/// The code's addresses fit in 64 bits.
pub open spec fn code_fits(l: LayoutView) -> bool {
    (match l.code_slice_base {
        Some(b) => b as int,
        None => 0int,
    }) + l.code_slice.len() <= u64::MAX
}

/// The layout of the bytes by the kind of object goblin finds; `None` where
/// an address or a section's end overflows 64 bits.
pub open spec fn spec_object_layout(data: Seq<u8>) -> Option<LayoutView> {
    let id = identified(data);
    let l = match crate::objects::object_kind_of(data) {
        crate::objects::ObjectKind::Pe => match crate::objects::pe_header_of(data) {
            Some(h) => spec_pe_layout(
                data,
                id,
                h,
                crate::objects::pe_sections_of(data),
                crate::objects::pe_imports_of(data),
                crate::objects::pe_exports_of(data),
            ),
            None => Some(empty_layout(id)),
        },
        crate::objects::ObjectKind::Elf => match crate::objects::elf_header_of(data) {
            Some(h) => spec_elf_layout(
                data,
                id,
                h,
                crate::objects::elf_sections_of(data),
                crate::objects::elf_libraries_of(data),
                crate::objects::elf_dynsyms_of(data),
            ),
            None => Some(empty_layout(id)),
        },
        crate::objects::ObjectKind::Mach => Some(
            match crate::objects::mach_image_of(data) {
                Some(img) => spec_mach_layout(
                    id,
                    crate::objects::mach_header_of(img),
                    crate::objects::mach_sections_of(img),
                    crate::objects::mach_exports_of(img),
                    crate::objects::mach_imports_of(img),
                ),
                None => spec_mach_layout(id, None, seq![], None, None),
            },
        ),
        crate::objects::ObjectKind::Other => Some(empty_layout(id)),
        crate::objects::ObjectKind::Unparsed => Some(raw_layout(data, id)),
    };
    match l {
        Some(x) => if code_fits(x) {
            Some(x)
        } else {
            None
        },
        None => None,
    }
}

fn empty_layout_exec(identity: BinaryIdentity) -> (l: ObjectLayout)
    ensures
        l@ == empty_layout(identity@),
{
    let l = ObjectLayout {
        identity,
        sections: Vec::new(),
        imports: Vec::new(),
        exports: Vec::new(),
        dependencies: Vec::new(),
        code_slice: Vec::new(),
        code_slice_base: None,
        pe: false,
    };
    proof {
        assert(l@.sections =~= Seq::<DraftView>::empty());
        assert(l@.imports =~= Seq::<ImportView>::empty());
        assert(l@.exports =~= Seq::<(Seq<char>, Option<u16>, u64, Option<Seq<char>>)>::empty());
        assert(l@.dependencies =~= Seq::<(Seq<char>, Option<Seq<char>>, Seq<char>)>::empty());
    }
    l
}

fn raw_layout_exec(data: &[u8], identity: BinaryIdentity) -> (l: ObjectLayout)
    ensures
        l@ == raw_layout(data@, identity@),
{
    if identity.format == BinaryFormat::Raw || identity.format == BinaryFormat::Firmware {
        let n = data.len();
        let flags: Vec<String> = Vec::new();
        let d = SectionDraft {
            name: owned(".raw"),
            virtual_address: 0,
            virtual_size: n as u64,
            raw_size: n as u64,
            characteristics: flags,
            permissions: owned("rwx"),
            sample: slice_bytes(data, 0, n),
        };
        let mut sections: Vec<SectionDraft> = Vec::new();
        sections.push(d);
        let code = copy_bytes_upto(data, 4096);
        let l = ObjectLayout {
            identity,
            sections,
            imports: Vec::new(),
            exports: Vec::new(),
            dependencies: Vec::new(),
            code_slice: code,
            code_slice_base: Some(0),
            pe: false,
        };
        proof {
            assert(data@.subrange(0, n as int) =~= data@);
            assert(strings_view(flags@) =~= Seq::<Seq<char>>::empty());
            assert(draft_views(sections@) =~= raw_layout(data@, identity@).sections);
            assert(l@.imports =~= Seq::<ImportView>::empty());
            assert(l@.exports =~= Seq::<(Seq<char>, Option<u16>, u64, Option<Seq<char>>)>::empty());
            assert(l@.dependencies =~= Seq::<(Seq<char>, Option<Seq<char>>, Seq<char>)>::empty());
        }
        l
    } else {
        empty_layout_exec(identity)
    }
}

/// The layout of a binary: its identity, and for PE, ELF and Mach-O files
/// the sections, imports, exports, dependencies and code read out of them.
/// `None` where an address or the end of a section overflows 64 bits.
pub fn object_layout(data: &[u8]) -> (r: Option<ObjectLayout>)
    ensures
        match r {
            Some(l) => spec_object_layout(data@) == Some(l@),
            None => spec_object_layout(data@) is None,
        },
{
    let identified_file = crate::format::identify(data);
    let identity = identified_file.identity;
    let l = match crate::objects::object_kind(data) {
        crate::objects::ObjectKind::Pe => match crate::objects::pe_header(data) {
            Some(h) => {
                let secs = crate::objects::pe_sections(data);
                let imps = crate::objects::pe_imports(data);
                let exps = crate::objects::pe_exports(data);
                pe_layout(data, identity, h, &secs, &imps, &exps)
            },
            None => Some(empty_layout_exec(identity)),
        },
        crate::objects::ObjectKind::Elf => match crate::objects::elf_header(data) {
            Some(h) => {
                let secs = crate::objects::elf_sections(data);
                let libs = crate::objects::elf_libraries(data);
                let syms = crate::objects::elf_dynsyms(data);
                elf_layout(data, identity, h, &secs, &libs, &syms)
            },
            None => Some(empty_layout_exec(identity)),
        },
        crate::objects::ObjectKind::Mach => match crate::objects::mach_image(data) {
            Some(img) => {
                let h = crate::objects::mach_header(img.as_slice());
                let secs = crate::objects::mach_sections(img.as_slice());
                let exps = crate::objects::mach_exports(img.as_slice());
                let imps = crate::objects::mach_imports(img.as_slice());
                Some(mach_layout(identity, h, &secs, &exps, &imps))
            },
            None => {
                let secs: Vec<Option<MachSection>> = Vec::new();
                proof {
                    assert(mach_section_views(secs@) =~= Seq::<Option<MachSectionView>>::empty());
                }
                Some(mach_layout(identity, None, &secs, &None, &None))
            },
        },
        crate::objects::ObjectKind::Other => Some(empty_layout_exec(identity)),
        crate::objects::ObjectKind::Unparsed => Some(raw_layout_exec(data, identity)),
    };
    match l {
        Some(x) => {
            let base: u64 = match x.code_slice_base {
                Some(b) => b,
                None => 0,
            };
            if x.code_slice.len() as u64 > u64::MAX - base {
                None
            } else {
                Some(x)
            }
        },
        None => None,
    }
}

// ---------------------------------------------------------------------------
// Functions found by scanning the code
// ---------------------------------------------------------------------------

/// Bytes as `{:02x}` pairs separated by spaces.
pub open spec fn byte_preview(bs: Seq<u8>) -> Seq<char> {
    crate::rename::join_with(" "@, bs.map_values(|b: u8| crate::text::hex_byte(b)))
}

/// A function found by scanning, before it is recorded: its address, size,
/// byte preview, and whether it was the first address considered.
pub open spec fn discovered(known: Seq<u64>, cands: Seq<u64>, code: Seq<u8>, base: u64, n: int) -> Seq<(u64, u64, Seq<char>, bool)>
    decreases n,
{
    if n <= 0 || n > cands.len() {
        seq![]
    } else {
        let prev = discovered(known, cands, code, base, n - 1);
        let a = cands[n - 1];
        let present = known.contains(a) || exists|k: int| 0 <= k < prev.len() && (#[trigger] prev[k]).0 == a;
        if present || a < base || a - base >= code.len() {
            prev
        } else {
            let off = a - base;
            let end = if off + 64 < code.len() { off + 64 } else { code.len() as int };
            prev.push((a, (end - off) as u64, byte_preview(code.subrange(off, end)), n - 1 == 0))
        }
    }
}

/// The record of a discovered function.
pub open spec fn is_discovered_record(f: crate::model::FunctionView, d: (u64, u64, Seq<char>, bool)) -> bool {
    &&& f.address == d.0
    &&& f.size == d.1
    &&& f.name == "sub_"@ + crate::text::hex_of(d.0 as nat)
    &&& f.suggested_name is None
    &&& f.description is None
    &&& f.purpose is None
    &&& f.inputs == Seq::<Seq<char>>::empty()
    &&& f.outputs == Seq::<Seq<char>>::empty()
    &&& f.complexity == 80
    &&& f.interesting_constants == Seq::<Seq<char>>::empty()
    &&& f.possible_vulnerabilities == Seq::<Seq<char>>::empty()
    &&& !f.possible_crypto && !f.possible_networking && !f.possible_anti_debug
    &&& !f.possible_persistence && !f.possible_injection
    &&& f.xrefs_from == Seq::<u64>::empty()
    &&& f.xrefs_to == Seq::<u64>::empty()
    &&& f.pseudocode_summary is None
    &&& f.assembly_preview == Some(d.2)
    &&& f.confidence == 35
    &&& f.evidence == Seq::<crate::model::EvidenceView>::empty()
    &&& f.tags == seq![if d.3 { "discovered"@ } else { "heuristic"@ }]
}

fn byte_preview_exec(bs: &[u8]) -> (r: String)
    ensures
        r@ == byte_preview(bs@),
{
    let mut out = String::new();
    let mut i: usize = 0;
    while i < bs.len()
        invariant
            i <= bs@.len(),
            out@ == byte_preview(bs@.subrange(0, i as int)),
        decreases bs@.len() - i,
    {
        let ghost pre = bs@.subrange(0, i as int);
        let ghost post = bs@.subrange(0, i + 1);
        let ghost f = |b: u8| crate::text::hex_byte(b);
        proof {
            assert(post.drop_last() =~= pre);
            assert(post.map_values(f) =~= pre.map_values(f).push(crate::text::hex_byte(bs@[i as int])));
            assert(post.map_values(f).drop_last() =~= pre.map_values(f));
        }
        if i > 0 {
            crate::text::push_str(&mut out, " ");
        }
        crate::text::push_hex_fixed(&mut out, bs[i] as u64, 2);
        proof {
            assert(crate::text::hex_fixed(bs@[i as int] as nat, 2) == crate::text::hex_byte(bs@[i as int]));
            if i == 0 {
                assert(pre.map_values(f) =~= Seq::<Seq<char>>::empty());
                assert(out@ =~= byte_preview(post));
            } else {
                assert(out@ =~= byte_preview(post));
            }
        }
        i += 1;
    }
    proof {
        assert(bs@.subrange(0, bs@.len() as int) =~= bs@);
    }
    out
}

fn discovered_record(addr: u64, size: u64, preview: String, first: bool) -> (f: crate::model::FunctionAnalysis)
    ensures
        is_discovered_record(f@, (addr, size, preview@, first)),
{
    let mut name = owned("sub_");
    crate::text::push_hex(&mut name, addr);
    let mut tags: Vec<String> = Vec::new();
    tags.push(if first { owned("discovered") } else { owned("heuristic") });
    let f = crate::model::FunctionAnalysis {
        id: crate::ids::new_id(),
        address: addr,
        size,
        name,
        suggested_name: None,
        description: None,
        purpose: None,
        inputs: Vec::new(),
        outputs: Vec::new(),
        complexity: 80,
        interesting_constants: Vec::new(),
        possible_vulnerabilities: Vec::new(),
        possible_crypto: false,
        possible_networking: false,
        possible_anti_debug: false,
        possible_persistence: false,
        possible_injection: false,
        xrefs_from: Vec::new(),
        xrefs_to: Vec::new(),
        pseudocode_summary: None,
        assembly_preview: Some(preview),
        confidence: 35,
        evidence: Vec::new(),
        tags,
    };
    proof {
        assert(f@.inputs =~= Seq::<Seq<char>>::empty());
        assert(f@.outputs =~= Seq::<Seq<char>>::empty());
        assert(f@.interesting_constants =~= Seq::<Seq<char>>::empty());
        assert(f@.possible_vulnerabilities =~= Seq::<Seq<char>>::empty());
        assert(f@.evidence =~= Seq::<crate::model::EvidenceView>::empty());
        assert(f@.tags =~= seq![if first { "discovered"@ } else { "heuristic"@ }]);
    }
    f
}

pub open spec fn fn_addresses(v: Seq<crate::model::FunctionView>) -> Seq<u64> {
    v.map_values(|f: crate::model::FunctionView| f.address)
}

/// Appends a record for each of the first sixty-four candidate addresses
/// that no function has yet and that lies in the code.
fn add_discovered(functions: &mut Vec<crate::model::FunctionAnalysis>, cands: &Vec<u64>, code: &[u8], base: u64)
    ensures
        ({
            let old_v = crate::model::function_views(old(functions)@);
            let new_v = crate::model::function_views(final(functions)@);
            let disc = discovered(
                fn_addresses(old_v),
                cands@,
                code@,
                base,
                if cands@.len() < 64 { cands@.len() as int } else { 64 },
            );
            &&& new_v.len() == old_v.len() + disc.len()
            &&& new_v.subrange(0, old_v.len() as int) == old_v
            &&& forall|k: int| 0 <= k < disc.len() ==> is_discovered_record(#[trigger] new_v[old_v.len() + k], disc[k])
        }),
{
    let ghost old_v = crate::model::function_views(functions@);
    let ghost known = fn_addresses(old_v);
    let n: usize = if cands.len() < 64 { cands.len() } else { 64 };
    let mut j: usize = 0;
    while j < n
        invariant
            j <= n,
            n <= cands@.len(),
            n == (if cands@.len() < 64 { cands@.len() as int } else { 64int }),
            known == fn_addresses(old_v),
            crate::model::function_views(functions@).len() == old_v.len() + discovered(known, cands@, code@, base, j as int).len(),
            crate::model::function_views(functions@).subrange(0, old_v.len() as int) == old_v,
            forall|k: int| 0 <= k < discovered(known, cands@, code@, base, j as int).len() ==> is_discovered_record(
                #[trigger] crate::model::function_views(functions@)[old_v.len() + k],
                discovered(known, cands@, code@, base, j as int)[k],
            ),
        decreases n - j,
    {
        let a = cands[j];
        let ghost prev = discovered(known, cands@, code@, base, j as int);
        let ghost cur = crate::model::function_views(functions@);
        let mut present = false;
        let mut k: usize = 0;
        while k < functions.len()
            invariant
                k <= functions@.len(),
                cur == crate::model::function_views(functions@),
                cur.len() == old_v.len() + prev.len(),
                cur.subrange(0, old_v.len() as int) == old_v,
                forall|t: int| 0 <= t < prev.len() ==> is_discovered_record(#[trigger] cur[old_v.len() + t], prev[t]),
                present == exists|t: int| 0 <= t < k && (#[trigger] cur[t]).address == a,
            decreases functions@.len() - k,
        {
            if functions[k].address == a {
                present = true;
            }
            proof {
                assert(cur[k as int].address == functions@[k as int].address);
            }
            k += 1;
        }
        proof {
            let pres_spec = known.contains(a) || exists|t: int| 0 <= t < prev.len() && (#[trigger] prev[t]).0 == a;
            if present {
                let t = choose|t: int| 0 <= t < cur.len() && (#[trigger] cur[t]).address == a;
                if t < old_v.len() {
                    assert(old_v[t] == cur.subrange(0, old_v.len() as int)[t]);
                    assert(known[t] == a);
                    assert(known.contains(a));
                } else {
                    assert(is_discovered_record(cur[old_v.len() + (t - old_v.len())], prev[t - old_v.len()]));
                    assert(prev[t - old_v.len()].0 == a);
                }
            }
            if pres_spec {
                if known.contains(a) {
                    let t = choose|t: int| 0 <= t < known.len() && known[t] == a;
                    assert(cur.subrange(0, old_v.len() as int)[t] == old_v[t]);
                    assert(cur[t].address == a);
                } else {
                    let t = choose|t: int| 0 <= t < prev.len() && (#[trigger] prev[t]).0 == a;
                    assert(is_discovered_record(cur[old_v.len() + t], prev[t]));
                    assert(cur[old_v.len() + t].address == a);
                }
            }
            assert(present == pres_spec);
        }
        let ghost before = functions@;
        if !present && a >= base && a - base < code.len() as u64 {
            let off: usize = (a - base) as usize;
            let end: usize = if code.len() - off > 64 { off + 64 } else { code.len() };
            let slice = slice_bytes(code, off, end);
            let preview = byte_preview_exec(slice.as_slice());
            let f = discovered_record(a, (end - off) as u64, preview, j == 0);
            functions.push(f);
            proof {
                let nv = crate::model::function_views(functions@);
                assert(nv =~= cur.push(f@));
                assert(nv.subrange(0, old_v.len() as int) =~= cur.subrange(0, old_v.len() as int));
                let nd = discovered(known, cands@, code@, base, j + 1);
                assert(nd == prev.push((a, (end - off) as u64, byte_preview(code@.subrange(off as int, end as int)), j == 0)));
                assert forall|t: int| 0 <= t < nd.len() implies is_discovered_record(#[trigger] nv[old_v.len() + t], nd[t]) by {
                    if t < prev.len() {
                        assert(nv[old_v.len() + t] == cur[old_v.len() + t]);
                    }
                }
            }
        } else {
            proof {
                assert(discovered(known, cands@, code@, base, j + 1) == prev);
            }
        }
        j += 1;
    }
}

// ---------------------------------------------------------------------------
// The analysis
// ---------------------------------------------------------------------------

/// What an analysis run may do.
#[derive(Debug, Clone)]
pub struct AnalysisContext {
    pub max_strings: usize,
    pub enable_disassembly: bool,
}

impl Default for AnalysisContext {
    /// Fifty thousand strings at most, with disassembly.
    fn default() -> (c: Self)
        ensures
            c.max_strings == 50_000,
            c.enable_disassembly,
    {
        AnalysisContext { max_strings: 50_000, enable_disassembly: true }
    }
}

/// Everything the static analysis finds in a binary.
#[derive(Debug, Clone)]
pub struct StaticAnalysisResult {
    pub hashes: crate::model::FileHashes,
    pub identity: BinaryIdentity,
    pub sections: Vec<crate::model::SectionInfo>,
    pub imports: Vec<ImportEntry>,
    pub exports: Vec<ExportEntry>,
    pub strings: Vec<crate::model::ExtractedString>,
    pub network: Vec<crate::model::NetworkIndicator>,
    pub crypto: Vec<crate::model::CryptoFinding>,
    pub packers: Vec<crate::model::PackerFinding>,
    pub functions: Vec<crate::model::FunctionAnalysis>,
    pub signature: crate::model::DigitalSignatureInfo,
    pub resources: Vec<crate::model::ResourceEntry>,
    pub dependencies: Vec<DependencyInfo>,
    pub code_slice_base: Option<u64>,
    pub code_slice: Vec<u8>,
}

/// The sections with their measured entropies.
pub open spec fn measured(drafts: Seq<DraftView>, e: Seq<u32>) -> Seq<crate::model::SectionView> {
    Seq::new(
        drafts.len(),
        |i: int|
            crate::model::SectionView {
                name: drafts[i].name,
                virtual_address: drafts[i].virtual_address,
                virtual_size: drafts[i].virtual_size,
                raw_size: drafts[i].raw_size,
                entropy: e[i],
                characteristics: drafts[i].characteristics,
                permissions: drafts[i].permissions,
            },
    )
}

/// The first section named `.rsrc`.
pub open spec fn first_rsrc(ss: Seq<crate::model::SectionView>) -> Option<crate::model::SectionView>
    decreases ss.len(),
{
    if ss.len() == 0 {
        None
    } else if ss[0].name == ".rsrc"@ {
        Some(ss[0])
    } else {
        first_rsrc(ss.drop_first())
    }
}

/// A resource: name, kind, size, language and entropy.
pub open spec fn resource_views(v: Seq<crate::model::ResourceEntry>) -> Seq<(Seq<char>, Seq<char>, u64, Option<Seq<char>>, Option<u32>)> {
    v.map_values(|r: crate::model::ResourceEntry| (r.name@, r.kind@, r.size, opt_view(r.language), r.entropy))
}

/// A PE's resource directory, sized by its first `.rsrc` section.
pub open spec fn pe_resources(pe: bool, ss: Seq<crate::model::SectionView>) -> Seq<(Seq<char>, Seq<char>, u64, Option<Seq<char>>, Option<u32>)> {
    if pe {
        match first_rsrc(ss) {
            Some(s) => seq![(".rsrc"@, "pe_resources"@, s.raw_size, None::<Seq<char>>, Some(s.entropy))],
            None => seq![],
        }
    } else {
        seq![]
    }
}

/// An import with its risk and behaviour tags.
pub open spec fn classified(i: ImportView) -> ImportView {
    let c = crate::indicators::spec_classify_import(i.module, i.symbol);
    ImportView { risk: c.0, tags: c.1, ..i }
}

/// The identity once toolchain, packers and signature are known.
pub open spec fn final_identity(data: Seq<u8>, id0: IdentityView, imps: Seq<ImportView>, sections: Seq<crate::model::SectionView>) -> IdentityView {
    let id1 = crate::compiler::spec_enrich_toolchain(data, imps.map_values(|i: ImportView| i.symbol), id0);
    let ps = crate::packer::spec_detect_packers(data, sections);
    let id2 = IdentityView {
        packed: ps.len() > 0,
        packer: if ps.len() > 0 { Some(ps[0].name) } else { None },
        encrypted_sections: crate::packer::spec_encrypted_sections(sections),
        compressed: id1.compressed || exists|k: int| 0 <= k < ps.len() && contains_seq(#[trigger] ps[k].name, "UPX"@),
        ..id1
    };
    if id2.format == BinaryFormat::Pe {
        IdentityView { has_signature: crate::pe_signature::spec_has_security_dir(data), ..id2 }
    } else {
        id2
    }
}

pub open spec fn code_base(l: LayoutView) -> u64 {
    match l.code_slice_base {
        Some(b) => b,
        None => 0u64,
    }
}

/// The addresses considered for discovery: the scan of x86 code.
pub open spec fn scan_candidates(l: LayoutView, a: Architecture) -> Seq<u64> {
    let base = code_base(l);
    if a == Architecture::X86 || a == Architecture::X64 || a == Architecture::Unknown {
        crate::disasm::spec_discover(l.code_slice, base, a)
    } else {
        seq![]
    }
}

fn section_infos(drafts: &Vec<SectionDraft>, e: &Vec<u32>) -> (r: Vec<crate::model::SectionInfo>)
    requires
        e@.len() == drafts@.len(),
    ensures
        crate::model::section_views(r@) == measured(draft_views(drafts@), e@),
{
    let ghost dv = draft_views(drafts@);
    let mut out: Vec<crate::model::SectionInfo> = Vec::new();
    let mut i: usize = 0;
    while i < drafts.len()
        invariant
            i <= drafts@.len(),
            e@.len() == drafts@.len(),
            dv == draft_views(drafts@),
            crate::model::section_views(out@) == measured(dv, e@).subrange(0, i as int),
        decreases drafts@.len() - i,
    {
        let d = &drafts[i];
        let x = crate::model::SectionInfo {
            name: copy_string(&d.name),
            virtual_address: d.virtual_address,
            virtual_size: d.virtual_size,
            raw_size: d.raw_size,
            entropy: e[i],
            characteristics: crate::text::copy_strings(&d.characteristics),
            permissions: copy_string(&d.permissions),
        };
        let ghost ob = out@;
        out.push(x);
        proof {
            assert(crate::model::section_views(out@) =~= crate::model::section_views(ob).push(x@));
            assert(measured(dv, e@).subrange(0, i + 1) =~= measured(dv, e@).subrange(0, i as int).push(x@));
        }
        i += 1;
    }
    proof {
        assert(measured(dv, e@).subrange(0, dv.len() as int) =~= measured(dv, e@));
    }
    out
}

fn resources_of(pe: bool, sections: &Vec<crate::model::SectionInfo>) -> (r: Vec<crate::model::ResourceEntry>)
    ensures
        resource_views(r@) == pe_resources(pe, crate::model::section_views(sections@)),
{
    let ghost sv = crate::model::section_views(sections@);
    let mut out: Vec<crate::model::ResourceEntry> = Vec::new();
    if !pe {
        proof {
            assert(resource_views(out@) =~= pe_resources(pe, sv));
        }
        return out;
    }
    let mut i: usize = 0;
    proof {
        assert(sv.subrange(0, sv.len() as int) =~= sv);
    }
    while i < sections.len()
        invariant
            i <= sections@.len(),
            pe,
            out@.len() == 0,
            sv == crate::model::section_views(sections@),
            first_rsrc(sv) == first_rsrc(sv.subrange(i as int, sv.len() as int)),
        decreases sections@.len() - i,
    {
        let nc = str_chars(sections[i].name.as_str());
        proof {
            assert(sv.subrange(i as int, sv.len() as int)[0] == sv[i as int]);
            assert(sv.subrange(i as int, sv.len() as int).drop_first() =~= sv.subrange(i + 1, sv.len() as int));
        }
        if eq_str(nc.as_slice(), ".rsrc") {
            let x = crate::model::ResourceEntry {
                name: owned(".rsrc"),
                kind: owned("pe_resources"),
                size: sections[i].raw_size,
                language: None,
                entropy: Some(sections[i].entropy),
            };
            out.push(x);
            proof {
                assert(resource_views(out@) =~= pe_resources(pe, sv));
            }
            return out;
        }
        i += 1;
    }
    proof {
        assert(resource_views(out@) =~= pe_resources(pe, sv));
    }
    out
}

fn symbols_of(imports: &Vec<ImportEntry>) -> (r: Vec<String>)
    ensures
        strings_view(r@) == import_views(imports@).map_values(|i: ImportView| i.symbol),
{
    let mut out: Vec<String> = Vec::new();
    let mut i: usize = 0;
    while i < imports.len()
        invariant
            i <= imports@.len(),
            strings_view(out@) == import_views(imports@).subrange(0, i as int).map_values(|i: ImportView| i.symbol),
        decreases imports@.len() - i,
    {
        let x = copy_string(&imports[i].symbol);
        let ghost ob = out@;
        out.push(x);
        proof {
            assert(strings_view(out@) =~= strings_view(ob).push(x@));
            assert(import_views(imports@).subrange(0, i + 1).map_values(|i: ImportView| i.symbol) =~= import_views(
                imports@,
            ).subrange(0, i as int).map_values(|i: ImportView| i.symbol).push(x@));
        }
        i += 1;
    }
    proof {
        assert(import_views(imports@).subrange(0, imports@.len() as int) =~= import_views(imports@));
    }
    out
}

fn pairs_of(imports: &Vec<ImportEntry>) -> (r: Vec<(String, String)>)
    ensures
        crate::hasher::import_pairs_view(r@) == import_views(imports@).map_values(|i: ImportView| (i.module, i.symbol)),
{
    let mut out: Vec<(String, String)> = Vec::new();
    let mut i: usize = 0;
    while i < imports.len()
        invariant
            i <= imports@.len(),
            crate::hasher::import_pairs_view(out@) == import_views(imports@).subrange(0, i as int).map_values(
                |i: ImportView| (i.module, i.symbol),
            ),
        decreases imports@.len() - i,
    {
        let x = (copy_string(&imports[i].module), copy_string(&imports[i].symbol));
        let ghost ob = out@;
        out.push(x);
        proof {
            assert(crate::hasher::import_pairs_view(out@) =~= crate::hasher::import_pairs_view(ob).push((x.0@, x.1@)));
            assert(import_views(imports@).subrange(0, i + 1).map_values(|i: ImportView| (i.module, i.symbol)) =~= import_views(
                imports@,
            ).subrange(0, i as int).map_values(|i: ImportView| (i.module, i.symbol)).push((x.0@, x.1@)));
        }
        i += 1;
    }
    proof {
        assert(import_views(imports@).subrange(0, imports@.len() as int) =~= import_views(imports@));
    }
    out
}

fn any_upx(ps: &Vec<crate::model::PackerFinding>) -> (r: bool)
    ensures
        r == exists|k: int| 0 <= k < ps@.len() && contains_seq(#[trigger] crate::model::packer_views(ps@)[k].name, "UPX"@),
{
    let mut k: usize = 0;
    while k < ps.len()
        invariant
            k <= ps@.len(),
            forall|j: int| 0 <= j < k ==> !contains_seq(#[trigger] crate::model::packer_views(ps@)[j].name, "UPX"@),
        decreases ps@.len() - k,
    {
        let nc = str_chars(ps[k].name.as_str());
        if has(nc.as_slice(), "UPX") {
            proof {
                assert(contains_seq(crate::model::packer_views(ps@)[k as int].name, "UPX"@));
            }
            return true;
        }
        k += 1;
    }
    false
}

/// The hashes of the bytes, with the import hash given.
pub open spec fn hashes_match(h: crate::model::FileHashes, data: Seq<u8>, imphash: Option<Seq<char>>) -> bool {
    &&& h.md5@ == crate::hasher::hex_encode(crate::hasher::md5_digest(data))
    &&& h.sha1@ == crate::hasher::hex_encode(crate::hasher::sha1_digest(data))
    &&& h.sha256@ == crate::hasher::hex_encode(crate::hasher::sha256_digest(data))
    &&& h.sha3_256@ == crate::hasher::hex_encode(crate::hasher::sha3_256_digest(data))
    &&& h.blake3@ == crate::hasher::hex_encode(crate::hasher::blake3_digest(data))
    &&& opt_view(h.imphash) == imphash
    &&& opt_view(h.ssdeep) == Some(crate::hasher::spec_fuzzy_hash(data))
    &&& h.tlsh is None
}

/// The signature record: for a PE, whether it has a security directory
/// (Authenticode); otherwise none.
pub open spec fn signature_match(s: crate::model::DigitalSignatureInfo, pe: bool, data: Seq<u8>) -> bool {
    &&& s.present == (pe && crate::pe_signature::spec_has_security_dir(data))
    &&& (s.present ==> opt_view(s.algorithm) == Some("Authenticode"@))
    &&& (!s.present ==> s.algorithm is None)
    &&& s.valid is None && s.subject is None && s.issuer is None && s.serial is None
    &&& s.not_before is None && s.not_after is None
}

/// The listing Capstone decodes from the code region: at most 256
/// instructions, in the architecture's mode, at the region's base.
pub open spec fn entry_listing(l: LayoutView, a: Architecture) -> Option<Seq<crate::disasm::InsnView>> {
    crate::disasm::capstone_listing(crate::disasm::spec_cs_mode(a), l.code_slice, code_base(l), 256)
}

/// How many functions the entry disassembly gives: one where Capstone
/// decoded instructions with a size, none otherwise.
pub open spec fn entry_count(l: LayoutView, a: Architecture) -> int {
    match entry_listing(l, a) {
        Some(v) => if crate::disasm::total_size(v) > 0 { 1 } else { 0 },
        None => 0,
    }
}

/// The functions: the entry function that the disassembled listing
/// describes (its identifier aside), then the discovered ones; none without
/// disassembly or code.
pub open spec fn functions_match(fv: Seq<crate::model::FunctionView>, l: LayoutView, a: Architecture, enabled: bool) -> bool {
    if enabled && l.code_slice.len() > 0 {
        &&& entry_count(l, a) <= fv.len()
        &&& (entry_count(l, a) == 1 ==> (entry_listing(l, a) matches Some(v)
            && fv[0] == crate::disasm::spec_entry_function(v, code_base(l), fv[0].id)))
        &&& discovered_after(fv, entry_count(l, a), l, a)
    } else {
        fv.len() == 0
    }
}

pub open spec fn discovered_after(fv: Seq<crate::model::FunctionView>, n: int, l: LayoutView, a: Architecture) -> bool {
    let cands = scan_candidates(l, a);
    let disc = discovered(
        fn_addresses(fv.subrange(0, n)),
        cands,
        l.code_slice,
        code_base(l),
        if cands.len() < 64 { cands.len() as int } else { 64 },
    );
    &&& fv.len() == n + disc.len()
    &&& forall|k: int| 0 <= k < disc.len() ==> is_discovered_record(#[trigger] fv[n + k], disc[k])
}

fn functions_of(code: &Vec<u8>, base: u64, arch: Architecture, enabled: bool, ghost_l: Ghost<LayoutView>) -> (r: Vec<crate::model::FunctionAnalysis>)
    requires
        code@ == ghost_l@.code_slice,
        base == code_base(ghost_l@),
        base + code@.len() <= u64::MAX,
    ensures
        functions_match(crate::model::function_views(r@), ghost_l@, arch, enabled),
{
    let mut functions: Vec<crate::model::FunctionAnalysis> = Vec::new();
    if enabled && code.len() > 0 {
        let dis = crate::disasm::disassemble_entry(code.as_slice(), base, arch, 256);
        functions = dis.functions;
        let ghost d = crate::model::function_views(functions@);
        let is_x86 = match arch {
            Architecture::X86 | Architecture::X64 | Architecture::Unknown => true,
            _ => false,
        };
        let cands = if is_x86 {
            crate::disasm::discover_functions_x86(code.as_slice(), base, arch)
        } else {
            Vec::new()
        };
        proof {
            assert(cands@ == scan_candidates(ghost_l@, arch));
        }
        add_discovered(&mut functions, &cands, code.as_slice(), base);
        proof {
            let fv = crate::model::function_views(functions@);
            assert(fv.subrange(0, d.len() as int) == d);
            assert(d.len() == entry_count(ghost_l@, arch));
            if d.len() == 1 {
                assert(fv[0] == d[0]);
            }
            assert(discovered_after(fv, d.len() as int, ghost_l@, arch));
        }
    } else {
        proof {
            assert(crate::model::function_views(functions@).len() == 0);
        }
    }
    functions
}

fn classify_and_hash(data: &[u8], imports: Vec<ImportEntry>) -> (r: (Vec<ImportEntry>, crate::model::FileHashes))
    ensures
        import_views(r.0@) == import_views(imports@).map_values(|i: ImportView| classified(i)),
        hashes_match(r.1, data@, crate::hasher::spec_imphash(
            import_views(imports@).map_values(|i: ImportView| (i.module, i.symbol)),
        )),
{
    let ghost iv = import_views(imports@);
    let mut imports = imports;
    crate::indicators::enrich_imports(&mut imports);
    proof {
        assert(import_views(imports@) =~= iv.map_values(|i: ImportView| classified(i)));
        assert(import_views(imports@).map_values(|i: ImportView| (i.module, i.symbol)) =~= iv.map_values(
            |i: ImportView| (i.module, i.symbol),
        ));
    }
    let mut hashes = crate::hasher::hash_bytes(data);
    let pairs = pairs_of(&imports);
    hashes.imphash = crate::hasher::imphash_from_imports(pairs.as_slice());
    (imports, hashes)
}

#[verifier::rlimit(50)]
fn settle_identity(
    data: &[u8],
    identity: BinaryIdentity,
    imports: &Vec<ImportEntry>,
    sections: &Vec<crate::model::SectionInfo>,
    plain: Ghost<Seq<ImportView>>,
) -> (r: (BinaryIdentity, Vec<crate::model::PackerFinding>, crate::model::DigitalSignatureInfo))
    requires
        import_views(imports@) == plain@.map_values(|i: ImportView| classified(i)),
    ensures
        r.0@ == final_identity(data@, identity@, plain@, crate::model::section_views(sections@)),
        crate::model::packer_views(r.1@) == crate::packer::spec_detect_packers(data@, crate::model::section_views(sections@)),
        signature_match(r.2, r.0.format == BinaryFormat::Pe, data@),
{
    proof {
        assert(import_views(imports@).map_values(|i: ImportView| i.symbol) =~= plain@.map_values(
            |i: ImportView| i.symbol,
        ));
    }
    let names = symbols_of(imports);
    let mut identity = identity;
    crate::compiler::enrich_toolchain(data, &mut identity, names.as_slice());
    let packers = crate::packer::detect_packers(data, sections.as_slice());
    identity.packed = packers.len() > 0;
    identity.packer = if packers.len() > 0 { Some(copy_string(&packers[0].name)) } else { None };
    identity.encrypted_sections = crate::packer::encrypted_sections(sections.as_slice());
    let upx = any_upx(&packers);
    identity.compressed = identity.compressed || upx;
    let signature = if identity.format == BinaryFormat::Pe {
        let sig = crate::pe_signature::detect_pe_signature(data);
        identity.has_signature = sig.present;
        sig
    } else {
        crate::model::DigitalSignatureInfo {
            present: false,
            valid: None,
            subject: None,
            issuer: None,
            serial: None,
            not_before: None,
            not_after: None,
            algorithm: None,
        }
    };
    (identity, packers, signature)
}

/// Finishes the analysis of the bytes from their layout and the measured
/// entropy of each section (thousandths of a bit per byte, in section
/// order): classified imports, hashes, toolchain, packers, signature,
/// strings, network indicators, cryptography and functions.
pub fn finish_analysis(data: &[u8], ctx: &AnalysisContext, layout: ObjectLayout, entropies: &Vec<u32>) -> (r: StaticAnalysisResult)
    requires
        entropies@.len() == layout.sections@.len(),
        code_fits(layout@),
    ensures
        ({
            let l = layout@;
            let secs = measured(l.sections, entropies@);
            let id = final_identity(data@, l.identity, l.imports, secs);
            &&& crate::model::section_views(r.sections@) == secs
            &&& resource_views(r.resources@) == pe_resources(l.pe, secs)
            &&& import_views(r.imports@) == l.imports.map_values(|i: ImportView| classified(i))
            &&& export_views(r.exports@) == l.exports
            &&& dep_views(r.dependencies@) == l.dependencies
            &&& r.code_slice@ == l.code_slice
            &&& r.code_slice_base == l.code_slice_base
            &&& hashes_match(r.hashes, data@, crate::hasher::spec_imphash(
                l.imports.map_values(|i: ImportView| (i.module, i.symbol)),
            ))
            &&& r.identity@ == id
            &&& crate::model::packer_views(r.packers@) == crate::packer::spec_detect_packers(data@, secs)
            &&& signature_match(r.signature, id.format == BinaryFormat::Pe, data@)
            &&& crate::model::string_views(r.strings@) == crate::strings::spec_extract_strings(data@, ctx.max_strings as int)
            &&& crate::model::network_views(r.network@) == crate::indicators::spec_network_from_strings(
                crate::model::string_views(r.strings@),
            )
            &&& crate::model::crypto_views(r.crypto@) == crate::crypto_detect::spec_detect_crypto(data@)
            &&& functions_match(crate::model::function_views(r.functions@), l, id.architecture, ctx.enable_disassembly)
        }),
{
    let ghost l = layout@;
    let ObjectLayout { identity, sections: drafts, imports, exports, dependencies, code_slice, code_slice_base, pe } = layout;
    let sections = section_infos(&drafts, entropies);
    let resources = resources_of(pe, &sections);
    let (imports, hashes) = classify_and_hash(data, imports);
    let (identity, packers, signature) = settle_identity(data, identity, &imports, &sections, Ghost(l.imports));
    let strings = crate::strings::extract_strings(data, ctx.max_strings);
    let network = crate::indicators::network_from_strings(strings.as_slice());
    let crypto = crate::crypto_detect::detect_crypto(data);
    let base: u64 = match code_slice_base {
        Some(b) => b,
        None => 0,
    };
    let functions = functions_of(&code_slice, base, identity.architecture, ctx.enable_disassembly, Ghost(l));
    StaticAnalysisResult {
        hashes,
        identity,
        sections,
        imports,
        exports,
        strings,
        network,
        crypto,
        packers,
        functions,
        signature,
        resources,
        dependencies,
        code_slice_base,
        code_slice,
    }
}

} // verus!
