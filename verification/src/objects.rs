//! What `goblin` parses out of an executable, held as plain values: the
//! kind of object, and the headers, sections, imports, exports and symbols
//! of PE, ELF and Mach-O files.
//!
//! Each item is read by its own call into `goblin`, which parses the bytes
//! again; each result is named as what goblin makes of the bytes.
use vstd::prelude::*;
use crate::text::opt_view;

verus! {

/// The kind of object `goblin::Object::parse` recognises.
#[derive(Debug, Clone, Copy, PartialEq, Eq, Structural)]
pub enum ObjectKind {
    Pe,
    Elf,
    Mach,
    /// Another kind goblin knows (COFF, archive, unknown magic).
    Other,
    /// goblin could not parse the bytes.
    Unparsed,
}

/// The PE header fields the analysis reads.
#[derive(Debug, Clone, Copy, PartialEq, Eq, Structural)]
pub struct PeHeader {
    pub machine: u16,
    pub is_lib: bool,
    pub entry: u64,
    pub image_base: u64,
}

/// A PE section table entry.
#[derive(Debug, Clone)]
pub struct PeSection {
    /// The eight raw name bytes.
    pub name: Vec<u8>,
    pub virtual_size: u32,
    pub virtual_address: u32,
    pub raw_size: u32,
    pub raw_offset: u32,
    pub characteristics: u32,
}

pub struct PeSectionView {
    pub name: Seq<u8>,
    pub virtual_size: u32,
    pub virtual_address: u32,
    pub raw_size: u32,
    pub raw_offset: u32,
    pub characteristics: u32,
}

impl View for PeSection {
    type V = PeSectionView;

    open spec fn view(&self) -> PeSectionView {
        PeSectionView {
            name: self.name@,
            virtual_size: self.virtual_size,
            virtual_address: self.virtual_address,
            raw_size: self.raw_size,
            raw_offset: self.raw_offset,
            characteristics: self.characteristics,
        }
    }
}

pub open spec fn pe_section_views(v: Seq<PeSection>) -> Seq<PeSectionView> {
    v.map_values(|s: PeSection| s@)
}

/// A PE import: library, symbol and the RVA of its thunk.
#[derive(Debug, Clone)]
pub struct PeImport {
    pub dll: String,
    pub name: String,
    pub rva: u64,
}

pub struct PeImportView {
    pub dll: Seq<char>,
    pub name: Seq<char>,
    pub rva: u64,
}

impl View for PeImport {
    type V = PeImportView;

    open spec fn view(&self) -> PeImportView {
        PeImportView { dll: self.dll@, name: self.name@, rva: self.rva }
    }
}

pub open spec fn pe_import_views(v: Seq<PeImport>) -> Seq<PeImportView> {
    v.map_values(|s: PeImport| s@)
}

/// A PE export: its name if it has one, its RVA, and where it is forwarded
/// (goblin's `Reexport` printed with `{:?}`).
#[derive(Debug, Clone)]
pub struct PeExport {
    pub name: Option<String>,
    pub rva: u64,
    pub reexport: Option<String>,
}

pub struct PeExportView {
    pub name: Option<Seq<char>>,
    pub rva: u64,
    pub reexport: Option<Seq<char>>,
}

impl View for PeExport {
    type V = PeExportView;

    open spec fn view(&self) -> PeExportView {
        PeExportView { name: opt_view(self.name), rva: self.rva, reexport: opt_view(self.reexport) }
    }
}

pub open spec fn pe_export_views(v: Seq<PeExport>) -> Seq<PeExportView> {
    v.map_values(|s: PeExport| s@)
}

/// The ELF header fields the analysis reads.
#[derive(Debug, Clone, Copy, PartialEq, Eq, Structural)]
pub struct ElfHeader {
    pub machine: u16,
    pub is_64: bool,
    pub little_endian: bool,
    pub entry: u64,
    pub e_type: u16,
}

/// An ELF section header, with its name from the section string table.
#[derive(Debug, Clone)]
pub struct ElfSection {
    pub name: Option<String>,
    pub offset: u64,
    pub size: u64,
    pub addr: u64,
    pub alloc: bool,
    pub writable: bool,
    pub executable: bool,
}

pub struct ElfSectionView {
    pub name: Option<Seq<char>>,
    pub offset: u64,
    pub size: u64,
    pub addr: u64,
    pub alloc: bool,
    pub writable: bool,
    pub executable: bool,
}

impl View for ElfSection {
    type V = ElfSectionView;

    open spec fn view(&self) -> ElfSectionView {
        ElfSectionView {
            name: opt_view(self.name),
            offset: self.offset,
            size: self.size,
            addr: self.addr,
            alloc: self.alloc,
            writable: self.writable,
            executable: self.executable,
        }
    }
}

pub open spec fn elf_section_views(v: Seq<ElfSection>) -> Seq<ElfSectionView> {
    v.map_values(|s: ElfSection| s@)
}

/// A dynamic symbol, with its name from the dynamic string table.
#[derive(Debug, Clone)]
pub struct ElfSymbol {
    pub name: Option<String>,
    pub is_import: bool,
    pub value: u64,
}

pub struct ElfSymbolView {
    pub name: Option<Seq<char>>,
    pub is_import: bool,
    pub value: u64,
}

impl View for ElfSymbol {
    type V = ElfSymbolView;

    open spec fn view(&self) -> ElfSymbolView {
        ElfSymbolView { name: opt_view(self.name), is_import: self.is_import, value: self.value }
    }
}

pub open spec fn elf_symbol_views(v: Seq<ElfSymbol>) -> Seq<ElfSymbolView> {
    v.map_values(|s: ElfSymbol| s@)
}

/// The Mach-O header fields the analysis reads.
#[derive(Debug, Clone, Copy, PartialEq, Eq, Structural)]
pub struct MachHeader {
    pub is_64: bool,
    pub little_endian: bool,
    pub entry: u64,
    pub cputype: u32,
}

/// A Mach-O section, where goblin could read it: its name where that reads,
/// its address and size, and its bytes.
#[derive(Debug, Clone)]
pub struct MachSection {
    pub name: Option<String>,
    pub addr: u64,
    pub size: u64,
    pub data: Vec<u8>,
}

pub struct MachSectionView {
    pub name: Option<Seq<char>>,
    pub addr: u64,
    pub size: u64,
    pub data: Seq<u8>,
}

impl View for MachSection {
    type V = MachSectionView;

    open spec fn view(&self) -> MachSectionView {
        MachSectionView { name: opt_view(self.name), addr: self.addr, size: self.size, data: self.data@ }
    }
}

pub open spec fn mach_section_views(v: Seq<Option<MachSection>>) -> Seq<Option<MachSectionView>> {
    v.map_values(|s: Option<MachSection>| match s {
        Some(x) => Some(x@),
        None => None,
    })
}

pub open spec fn opt_bytes(v: Option<Vec<u8>>) -> Option<Seq<u8>> {
    match v {
        Some(x) => Some(x@),
        None => None,
    }
}

pub open spec fn named_views(v: Seq<(String, u64)>) -> Seq<(Seq<char>, u64)> {
    v.map_values(|s: (String, u64)| (s.0@, s.1))
}

pub open spec fn opt_named_views(v: Option<Vec<(String, u64)>>) -> Option<Seq<(Seq<char>, u64)>> {
    match v {
        Some(x) => Some(named_views(x@)),
        None => None,
    }
}

// ---------------------------------------------------------------------------
// Names of what goblin parses
// ---------------------------------------------------------------------------

pub uninterp spec fn object_kind_of(data: Seq<u8>) -> ObjectKind;

pub uninterp spec fn pe_header_of(data: Seq<u8>) -> Option<PeHeader>;

pub uninterp spec fn pe_sections_of(data: Seq<u8>) -> Seq<PeSectionView>;

pub uninterp spec fn pe_imports_of(data: Seq<u8>) -> Seq<PeImportView>;

pub uninterp spec fn pe_exports_of(data: Seq<u8>) -> Seq<PeExportView>;

pub uninterp spec fn elf_header_of(data: Seq<u8>) -> Option<ElfHeader>;

pub uninterp spec fn elf_sections_of(data: Seq<u8>) -> Seq<ElfSectionView>;

pub uninterp spec fn elf_libraries_of(data: Seq<u8>) -> Seq<Seq<char>>;

pub uninterp spec fn elf_dynsyms_of(data: Seq<u8>) -> Seq<ElfSymbolView>;

pub uninterp spec fn mach_image_of(data: Seq<u8>) -> Option<Seq<u8>>;

pub uninterp spec fn mach_header_of(image: Seq<u8>) -> Option<MachHeader>;

pub uninterp spec fn mach_sections_of(image: Seq<u8>) -> Seq<Option<MachSectionView>>;

pub uninterp spec fn mach_exports_of(image: Seq<u8>) -> Option<Seq<(Seq<char>, u64)>>;

pub uninterp spec fn mach_imports_of(image: Seq<u8>) -> Option<Seq<(Seq<char>, u64)>>;

// ---------------------------------------------------------------------------
// Calls into goblin
// ---------------------------------------------------------------------------

/// Which variant `goblin::Object::parse` returns for the bytes, or that it
/// fails. Only the name is claimed.
#[verifier::external_body]
pub(crate) fn object_kind(data: &[u8]) -> (r: ObjectKind)
    ensures
        r == object_kind_of(data@),
{
    match goblin::Object::parse(data) {
        Ok(goblin::Object::PE(_)) => ObjectKind::Pe,
        Ok(goblin::Object::Elf(_)) => ObjectKind::Elf,
        Ok(goblin::Object::Mach(_)) => ObjectKind::Mach,
        Ok(_) => ObjectKind::Other,
        Err(_) => ObjectKind::Unparsed,
    }
}

/// The COFF machine, DLL flag, entry point and image base of a parsed PE
/// (`None` where the bytes are no PE). Only the name is claimed.
#[verifier::external_body]
pub(crate) fn pe_header(data: &[u8]) -> (r: Option<PeHeader>)
    ensures
        r == pe_header_of(data@),
{
    match goblin::Object::parse(data) {
        Ok(goblin::Object::PE(pe)) => Some(PeHeader {
            machine: pe.header.coff_header.machine,
            is_lib: pe.is_lib,
            entry: pe.entry as u64,
            image_base: pe.image_base as u64,
        }),
        _ => None,
    }
}

/// The section table of a parsed PE (empty where the bytes are no PE).
#[verifier::external_body]
pub(crate) fn pe_sections(data: &[u8]) -> (r: Vec<PeSection>)
    ensures
        pe_section_views(r@) == pe_sections_of(data@),
{
    match goblin::Object::parse(data) {
        Ok(goblin::Object::PE(pe)) => pe.sections.iter().map(|s| PeSection {
            name: s.name.to_vec(),
            virtual_size: s.virtual_size,
            virtual_address: s.virtual_address,
            raw_size: s.size_of_raw_data,
            raw_offset: s.pointer_to_raw_data,
            characteristics: s.characteristics,
        }).collect(),
        _ => Vec::new(),
    }
}

/// The imports of a parsed PE, in goblin's order (empty where no PE).
#[verifier::external_body]
pub(crate) fn pe_imports(data: &[u8]) -> (r: Vec<PeImport>)
    ensures
        pe_import_views(r@) == pe_imports_of(data@),
{
    match goblin::Object::parse(data) {
        Ok(goblin::Object::PE(pe)) => pe.imports.iter().map(|i| PeImport {
            dll: i.dll.to_string(),
            name: i.name.to_string(),
            rva: i.rva as u64,
        }).collect(),
        _ => Vec::new(),
    }
}

/// The exports of a parsed PE, in goblin's order (empty where no PE).
#[verifier::external_body]
pub(crate) fn pe_exports(data: &[u8]) -> (r: Vec<PeExport>)
    ensures
        pe_export_views(r@) == pe_exports_of(data@),
{
    match goblin::Object::parse(data) {
        Ok(goblin::Object::PE(pe)) => pe.exports.iter().map(|e| PeExport {
            name: e.name.map(str::to_string),
            rva: e.rva as u64,
            reexport: e.reexport.as_ref().map(|r| format!("{r:?}")),
        }).collect(),
        _ => Vec::new(),
    }
}

/// The machine, class, byte order, entry point and type of a parsed ELF
/// (`None` where the bytes are no ELF).
#[verifier::external_body]
pub(crate) fn elf_header(data: &[u8]) -> (r: Option<ElfHeader>)
    ensures
        r == elf_header_of(data@),
{
    match goblin::Object::parse(data) {
        Ok(goblin::Object::Elf(elf)) => Some(ElfHeader {
            machine: elf.header.e_machine,
            is_64: elf.is_64,
            little_endian: elf.little_endian,
            entry: elf.entry,
            e_type: elf.header.e_type,
        }),
        _ => None,
    }
}

/// The section headers of a parsed ELF with their names (empty where no ELF).
#[verifier::external_body]
pub(crate) fn elf_sections(data: &[u8]) -> (r: Vec<ElfSection>)
    ensures
        elf_section_views(r@) == elf_sections_of(data@),
{
    match goblin::Object::parse(data) {
        Ok(goblin::Object::Elf(elf)) => elf.section_headers.iter().map(|s| ElfSection {
            name: elf.shdr_strtab.get_at(s.sh_name).map(str::to_string),
            offset: s.sh_offset,
            size: s.sh_size,
            addr: s.sh_addr,
            alloc: s.is_alloc(),
            writable: s.is_writable(),
            executable: s.is_executable(),
        }).collect(),
        _ => Vec::new(),
    }
}

/// The needed libraries of a parsed ELF (empty where no ELF).
#[verifier::external_body]
pub(crate) fn elf_libraries(data: &[u8]) -> (r: Vec<String>)
    ensures
        crate::text::strings_view(r@) == elf_libraries_of(data@),
{
    match goblin::Object::parse(data) {
        Ok(goblin::Object::Elf(elf)) => elf.libraries.iter().map(|l| l.to_string()).collect(),
        _ => Vec::new(),
    }
}

/// The dynamic symbols of a parsed ELF with their names (empty where no ELF).
#[verifier::external_body]
pub(crate) fn elf_dynsyms(data: &[u8]) -> (r: Vec<ElfSymbol>)
    ensures
        elf_symbol_views(r@) == elf_dynsyms_of(data@),
{
    match goblin::Object::parse(data) {
        Ok(goblin::Object::Elf(elf)) => elf.dynsyms.iter().map(|s| ElfSymbol {
            name: elf.dynstrtab.get_at(s.st_name).map(str::to_string),
            is_import: s.is_import(),
            value: s.st_value,
        }).collect(),
        _ => Vec::new(),
    }
}

/// The bytes of the Mach-O image in a Mach-O file: the whole file, or the
/// first architecture of a fat binary where that is a Mach-O image.
#[verifier::external_body]
pub(crate) fn mach_image(data: &[u8]) -> (r: Option<Vec<u8>>)
    ensures
        opt_bytes(r) == mach_image_of(data@),
{
    match goblin::mach::Mach::parse(data) {
        Ok(goblin::mach::Mach::Binary(_)) => Some(data.to_vec()),
        Ok(goblin::mach::Mach::Fat(f)) => match (f.get(0), f.iter_arches().next()) {
            (Ok(goblin::mach::SingleArch::MachO(_)), Some(Ok(a))) => Some(a.slice(data).to_vec()),
            _ => None,
        },
        Err(_) => None,
    }
}

/// The class, byte order, entry point and CPU type of a Mach-O image
/// (`goblin::mach::MachO::parse` at offset 0); `None` where it does not parse.
#[verifier::external_body]
pub(crate) fn mach_header(image: &[u8]) -> (r: Option<MachHeader>)
    ensures
        r == mach_header_of(image@),
{
    match goblin::mach::MachO::parse(image, 0) {
        Ok(m) => Some(MachHeader { is_64: m.is_64, little_endian: m.little_endian, entry: m.entry, cputype: m.header.cputype() }),
        Err(_) => None,
    }
}

/// The sections of a Mach-O image, segment after segment; `None` for a
/// section goblin could not read.
#[verifier::external_body]
pub(crate) fn mach_sections(image: &[u8]) -> (r: Vec<Option<MachSection>>)
    ensures
        mach_section_views(r@) == mach_sections_of(image@),
{
    let m = match goblin::mach::MachO::parse(image, 0) {
        Ok(m) => m,
        Err(_) => return Vec::new(),
    };
    m.segments.sections().flatten().map(|s| s.ok().map(|(s, d)| MachSection {
        name: s.name().ok().map(str::to_string), addr: s.addr, size: s.size, data: d.to_vec(),
    })).collect()
}

/// The exports of a Mach-O image: name and offset; `None` where goblin fails.
#[verifier::external_body]
pub(crate) fn mach_exports(image: &[u8]) -> (r: Option<Vec<(String, u64)>>)
    ensures
        opt_named_views(r) == mach_exports_of(image@),
{
    match goblin::mach::MachO::parse(image, 0) {
        Ok(m) => m.exports().ok().map(|v| v.into_iter().map(|e| (e.name, e.offset)).collect()),
        Err(_) => None,
    }
}

/// The imports of a Mach-O image: name and address; `None` where goblin fails.
#[verifier::external_body]
pub(crate) fn mach_imports(image: &[u8]) -> (r: Option<Vec<(String, u64)>>)
    ensures
        opt_named_views(r) == mach_imports_of(image@),
{
    match goblin::mach::MachO::parse(image, 0) {
        Ok(m) => m.imports().ok().map(|v| v.into_iter().map(|i| (i.name.to_string(), i.address)).collect()),
        Err(_) => None,
    }
}

} // verus!
