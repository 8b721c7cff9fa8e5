//! Language, compiler, framework and build-system inference from markers in
//! a binary, and detection of known obfuscators.
//!
//! Every marker is ASCII, so it is searched for in the raw bytes; an ASCII
//! marker occurs in the bytes exactly where it occurs in their lossy UTF-8
//! decoding.
use vstd::prelude::*;
use crate::model::{BinaryIdentity, IdentityView};
use crate::text::{
    ascii_seq, bytes_have, contains_seq, find_bytes, find_seq, has, opt_index, opt_view, owned,
    str_chars, strings_view,
};

verus! {

/// The characters of the lossy UTF-8 decoding of `bytes`
/// (`String::from_utf8_lossy`).
pub uninterp spec fn utf8_lossy(bytes: Seq<u8>) -> Seq<char>;

/// Decodes bytes as UTF-8 with `String::from_utf8_lossy`, invalid sequences
/// becoming U+FFFD. The result is named, not stated: it is std's decoding.
#[verifier::external_body]
pub(crate) fn lossy_string(bytes: &[u8]) -> (r: String)
    ensures
        r@ == utf8_lossy(bytes@),
{
    String::from_utf8_lossy(bytes).into_owned()
}

/// The bytes contain the ASCII marker `s`.
#[verifier::opaque]
pub open spec fn mark(d: Seq<u8>, s: &str) -> bool {
    contains_seq(d, ascii_seq(s@))
}

/// Whether the bytes contain the ASCII marker `s`.
fn marker(d: &[u8], s: &str) -> (r: bool)
    ensures
        r == mark(d@, s),
{
    proof {
        reveal(mark);
    }
    bytes_have(d, s)
}

/// `o`, or `Some(v)` when it is empty (std `Option::or`).
pub open spec fn or_some(o: Option<Seq<char>>, v: Seq<char>) -> Option<Seq<char>> {
    match o {
        Some(x) => Some(x),
        None => Some(v),
    }
}

/// A printable ASCII character other than space.
pub open spec fn is_graphic(b: u8) -> bool {
    0x21 <= b && b <= 0x7e
}

/// Index of the first non-graphic byte in `d[i..e]`, or `e`.
pub open spec fn graphic_run_end(d: Seq<u8>, i: int, e: int) -> int
    decreases e - i,
{
    if i >= e || i < 0 || i >= d.len() {
        i
    } else if is_graphic(d[i]) {
        graphic_run_end(d, i + 1, e)
    } else {
        i
    }
}

/// The MSVC version token: the printable run starting at the first `MSVC`,
/// at most 32 bytes long.
pub open spec fn spec_msvc_version(d: Seq<u8>) -> Option<Seq<char>> {
    match find_seq(d, ascii_seq("MSVC"@)) {
        Some(i) => {
            let e = if i + 32 < d.len() { i + 32 } else { d.len() as int };
            Some(d.subrange(i, graphic_run_end(d, i, e)).map_values(|b: u8| b as char))
        },
        None => None,
    }
}

/// The GCC version: what stands between the first `GCC: (` and the next `)`.
pub open spec fn spec_gcc_version(d: Seq<u8>) -> Option<Seq<char>> {
    match find_seq(d, ascii_seq("GCC: ("@)) {
        Some(i) => {
            let rest = d.subrange(i + 6, d.len() as int);
            match find_seq(rest, seq![0x29u8]) {
                Some(j) => Some(utf8_lossy(rest.subrange(0, j))),
                None => None,
            }
        },
        None => None,
    }
}

/// Some import name contains `Rust`.
pub open spec fn rust_import(imports: Seq<Seq<char>>) -> bool {
    exists|i: int| 0 <= i < imports.len() && contains_seq(imports[i], "Rust"@)
}

pub open spec fn step_go(d: Seq<u8>, id: IdentityView) -> IdentityView {
    if mark(d, "Go buildinf:") || mark(d, "runtime.main") || mark(d, "go.buildid") {
        IdentityView {
            language: Some("Go"@),
            compiler: Some("gc (Go toolchain)"@),
            build_system: Some("go build"@),
            ..id
        }
    } else {
        id
    }
}

pub open spec fn step_rust(d: Seq<u8>, imports: Seq<Seq<char>>, id: IdentityView) -> IdentityView {
    if mark(d, "rust_eh_personality") || mark(d, ".rustc") || rust_import(imports) {
        IdentityView {
            language: Some("Rust"@),
            compiler: Some("rustc"@),
            build_system: or_some(id.build_system, "cargo"@),
            ..id
        }
    } else {
        id
    }
}

pub open spec fn step_msvc(d: Seq<u8>, id: IdentityView) -> IdentityView {
    if mark(d, "MSVC") || mark(d, "Microsoft Visual C") || mark(d, "VCRUNTIME") {
        IdentityView {
            compiler: Some("MSVC"@),
            language: or_some(id.language, "C/C++"@),
            compiler_version: match spec_msvc_version(d) {
                Some(v) => Some(v),
                None => id.compiler_version,
            },
            ..id
        }
    } else {
        id
    }
}

pub open spec fn step_gcc(d: Seq<u8>, id: IdentityView) -> IdentityView {
    if mark(d, "GCC:") || mark(d, "GNU C") || mark(d, "libgcc") {
        IdentityView {
            compiler: or_some(id.compiler, "GCC"@),
            language: or_some(id.language, "C/C++"@),
            compiler_version: match spec_gcc_version(d) {
                Some(v) => Some(v),
                None => id.compiler_version,
            },
            ..id
        }
    } else {
        id
    }
}

pub open spec fn step_clang(d: Seq<u8>, id: IdentityView) -> IdentityView {
    if mark(d, "clang version") || mark(d, "Apple LLVM") {
        IdentityView {
            compiler: Some("Clang/LLVM"@),
            language: or_some(id.language, "C/C++/ObjC"@),
            ..id
        }
    } else {
        id
    }
}

pub open spec fn step_borland(d: Seq<u8>, id: IdentityView) -> IdentityView {
    if mark(d, "Borland") {
        IdentityView { compiler: Some("Borland/Embarcadero"@), ..id }
    } else {
        id
    }
}

pub open spec fn step_mingw(d: Seq<u8>, id: IdentityView) -> IdentityView {
    if mark(d, "MinGW") {
        IdentityView { compiler: Some("MinGW"@), language: or_some(id.language, "C/C++"@), ..id }
    } else {
        id
    }
}

pub open spec fn step_dotnet(d: Seq<u8>, id: IdentityView) -> IdentityView {
    if mark(d, "dotnet") || mark(d, "mscoree.dll") || mark(d, "CLR.dll") {
        IdentityView {
            language: Some(".NET/CIL"@),
            framework: Some(".NET"@),
            compiler: Some("csc/ilasm"@),
            ..id
        }
    } else {
        id
    }
}

pub open spec fn step_python(d: Seq<u8>, id: IdentityView) -> IdentityView {
    if mark(d, "Python") && (mark(d, "Py_") || mark(d, "python3")) {
        IdentityView {
            language: Some("Python (embedded/frozen)"@),
            framework: Some("CPython"@),
            ..id
        }
    } else {
        id
    }
}

pub open spec fn step_electron(d: Seq<u8>, id: IdentityView) -> IdentityView {
    if mark(d, "Electron") || mark(d, "node.dll") {
        IdentityView {
            framework: Some("Electron/Node"@),
            language: Some("JavaScript/TypeScript"@),
            ..id
        }
    } else {
        id
    }
}

pub open spec fn step_gui(d: Seq<u8>, id: IdentityView) -> IdentityView {
    if mark(d, "MFC") {
        IdentityView { framework: Some("MFC"@), ..id }
    } else if mark(d, "Qt5") || mark(d, "Qt6") || mark(d, "QObject") {
        IdentityView { framework: Some("Qt"@), ..id }
    } else {
        id
    }
}

pub open spec fn step_build(d: Seq<u8>, id: IdentityView) -> IdentityView {
    if mark(d, "CMake") {
        IdentityView { build_system: Some("CMake"@), ..id }
    } else if mark(d, "Ninja") {
        IdentityView { build_system: Some("Ninja"@), ..id }
    } else if mark(d, "Autotools") || mark(d, "libtool") {
        IdentityView { build_system: Some("Autotools"@), ..id }
    } else {
        id
    }
}

pub open spec fn step_debug(d: Seq<u8>, id: IdentityView) -> IdentityView {
    if mark(d, ".pdb") || mark(d, "RSDS") || mark(d, ".debug_info") {
        IdentityView { has_debug_symbols: true, ..id }
    } else {
        id
    }
}

/// The obfuscation techniques whose markers are present, in a fixed order.
pub open spec fn spec_obfuscation(d: Seq<u8>) -> Seq<Seq<char>> {
    crate::crypto_detect::one_if(
        mark(d, "VMProtect") || mark(d, ".vmp"),
        "virtualization obfuscation"@,
    ) + crate::crypto_detect::one_if(mark(d, "Themida"), "mutator/packer obfuscation"@)
        + crate::crypto_detect::one_if(
        mark(d, "Obfuscator-LLVM") || mark(d, "ollvm"),
        "OLLVM control-flow flattening"@,
    ) + crate::crypto_detect::one_if(
        mark(d, "ConfuserEx") || mark(d, "Dotfuscator"),
        ".NET obfuscation"@,
    ) + crate::crypto_detect::one_if(
        mark(d, "junk") && mark(d, "opaque"),
        "opaque predicates / junk code"@,
    )
}

pub open spec fn step_obfuscation(d: Seq<u8>, id: IdentityView) -> IdentityView {
    IdentityView {
        obfuscated: spec_obfuscation(d).len() > 0,
        obfuscation: spec_obfuscation(d),
        ..id
    }
}

/// The identity after toolchain inference over the bytes `d` and the import names.
pub open spec fn spec_enrich_toolchain(
    d: Seq<u8>,
    imports: Seq<Seq<char>>,
    id: IdentityView,
) -> IdentityView {
    let native = step_mingw(
        d,
        step_borland(d, step_clang(d, step_gcc(d, step_msvc(d, step_rust(d, imports, step_go(d, id)))))),
    );
    let runtime = step_electron(d, step_python(d, step_dotnet(d, native)));
    step_obfuscation(d, step_debug(d, step_build(d, step_gui(d, runtime))))
}

/// `b` agrees with `a` on every field that toolchain inference leaves alone,
/// and keeps its debug-symbol flag if `a` had it.
pub open spec fn keeps_frame(a: IdentityView, b: IdentityView) -> bool {
    &&& b.format == a.format
    &&& b.architecture == a.architecture
    &&& b.endianness == a.endianness
    &&& b.bits == a.bits
    &&& b.os == a.os
    &&& b.is_dll == a.is_dll
    &&& b.is_driver == a.is_driver
    &&& b.is_shared_object == a.is_shared_object
    &&& b.entry_point == a.entry_point
    &&& b.image_base == a.image_base
    &&& b.linker == a.linker
    &&& b.packed == a.packed
    &&& b.packer == a.packer
    &&& b.encrypted_sections == a.encrypted_sections
    &&& b.compressed == a.compressed
    &&& b.has_signature == a.has_signature
    &&& b.mime == a.mime
    &&& (a.has_debug_symbols ==> b.has_debug_symbols)
}

proof fn lemma_obfuscation_distinct(d: Seq<u8>)
    ensures
        spec_obfuscation(d).no_duplicates(),
{
    reveal_strlit("virtualization obfuscation");
    reveal_strlit("mutator/packer obfuscation");
    reveal_strlit("OLLVM control-flow flattening");
    reveal_strlit(".NET obfuscation");
    reveal_strlit("opaque predicates / junk code");
    let names = seq![
        "virtualization obfuscation"@,
        "mutator/packer obfuscation"@,
        "OLLVM control-flow flattening"@,
        ".NET obfuscation"@,
        "opaque predicates / junk code"@,
    ];
    assert(names[0][0] != names[1][0]);
    assert(names[0].len() != names[2].len());
    assert(names[0].len() != names[3].len());
    assert(names[0].len() != names[4].len());
    assert(names[1].len() != names[2].len());
    assert(names[1].len() != names[3].len());
    assert(names[1].len() != names[4].len());
    assert(names[2].len() != names[3].len());
    assert(names[2][0] != names[4][0]);
    assert(names[3].len() != names[4].len());
    let o = spec_obfuscation(d);
    assert forall|i: int, j: int| 0 <= i < o.len() && 0 <= j < o.len() && i != j implies o[i] != o[j] by {
        assert(forall|k: int| 0 <= k < o.len() ==> names.contains(#[trigger] o[k]));
    }
}

/// Toolchain inference touches only the language, compiler, compiler
/// version, build system, framework, debug-symbol flag and obfuscation
/// fields; it never clears the debug-symbol flag; the obfuscation list is
/// recomputed from the bytes alone, holds each technique once, and the
/// obfuscated flag says whether it is empty.
pub proof fn law_enrich_toolchain_frame(d: Seq<u8>, imports: Seq<Seq<char>>, id: IdentityView)
    ensures
        keeps_frame(id, spec_enrich_toolchain(d, imports, id)),
        spec_enrich_toolchain(d, imports, id).obfuscation == spec_obfuscation(d),
        spec_enrich_toolchain(d, imports, id).obfuscated == (spec_obfuscation(d).len() > 0),
        spec_obfuscation(d).no_duplicates(),
{
    let i1 = step_go(d, id);
    let i2 = step_rust(d, imports, i1);
    let i3 = step_msvc(d, i2);
    let i4 = step_gcc(d, i3);
    let i5 = step_clang(d, i4);
    let i6 = step_borland(d, i5);
    let i7 = step_mingw(d, i6);
    let i8 = step_dotnet(d, i7);
    let i9 = step_python(d, i8);
    let i10 = step_electron(d, i9);
    let i11 = step_gui(d, i10);
    let i12 = step_build(d, i11);
    let i13 = step_debug(d, i12);
    let i14 = step_obfuscation(d, i13);
    assert(keeps_frame(id, i1));
    assert(keeps_frame(i1, i2));
    assert(keeps_frame(i2, i3));
    assert(keeps_frame(i3, i4));
    assert(keeps_frame(i4, i5));
    assert(keeps_frame(i5, i6));
    assert(keeps_frame(i6, i7));
    assert(keeps_frame(i7, i8));
    assert(keeps_frame(i8, i9));
    assert(keeps_frame(i9, i10));
    assert(keeps_frame(i10, i11));
    assert(keeps_frame(i11, i12));
    assert(keeps_frame(i12, i13));
    assert(keeps_frame(i13, i14));
    assert(i14 == spec_enrich_toolchain(d, imports, id));
    lemma_obfuscation_distinct(d);
}

// ---------------------------------------------------------------------------
// Executable code
// ---------------------------------------------------------------------------

fn fill_or(o: &mut Option<String>, v: &str)
    ensures
        opt_view(*final(o)) == or_some(opt_view(*old(o)), v@),
{
    if o.is_none() {
        *o = Some(owned(v));
    }
}

fn go_step(d: &[u8], id: &mut BinaryIdentity)
    ensures
        final(id)@ == step_go(d@, old(id)@),
{
    if marker(d, "Go buildinf:") || marker(d, "runtime.main") || marker(d, "go.buildid") {
        id.language = Some(owned("Go"));
        id.compiler = Some(owned("gc (Go toolchain)"));
        id.build_system = Some(owned("go build"));
    }
}

fn rust_import_exec(imports: &[String]) -> (r: bool)
    ensures
        r == rust_import(strings_view(imports@)),
{
    let mut i: usize = 0;
    while i < imports.len()
        invariant
            i <= imports@.len(),
            forall|k: int| 0 <= k < i ==> !contains_seq(#[trigger] imports@[k]@, "Rust"@),
        decreases imports@.len() - i,
    {
        let cs = str_chars(imports[i].as_str());
        if has(cs.as_slice(), "Rust") {
            proof {
                assert(strings_view(imports@)[i as int] == imports@[i as int]@);
            }
            return true;
        }
        i += 1;
    }
    proof {
        assert forall|k: int| 0 <= k < imports@.len() implies !contains_seq(
            strings_view(imports@)[k],
            "Rust"@,
        ) by {
            assert(strings_view(imports@)[k] == imports@[k]@);
        }
    }
    false
}

fn rust_step(d: &[u8], imports: &[String], id: &mut BinaryIdentity)
    ensures
        final(id)@ == step_rust(d@, strings_view(imports@), old(id)@),
{
    if marker(d, "rust_eh_personality") || marker(d, ".rustc") || rust_import_exec(imports) {
        id.language = Some(owned("Rust"));
        id.compiler = Some(owned("rustc"));
        fill_or(&mut id.build_system, "cargo");
    }
}

/// The MSVC version token following the first `MSVC` marker.
fn capture_msvc_version(d: &[u8]) -> (r: Option<String>)
    ensures
        opt_view(r) == spec_msvc_version(d@),
{
    let m = crate::text::ascii_bytes("MSVC");
    match find_bytes(d, m.as_slice()) {
        None => None,
        Some(i) => {
            proof {
                crate::text::lemma_find_from_bounds(d@, m@, 0);
            }
            let e = if d.len() - i > 32 {
                i + 32
            } else {
                d.len()
            };
            let mut k = i;
            while k < e && 0x21 <= d[k] && d[k] <= 0x7e
                invariant
                    i <= k <= e <= d@.len(),
                    graphic_run_end(d@, i as int, e as int) == graphic_run_end(
                        d@,
                        k as int,
                        e as int,
                    ),
                decreases e - k,
            {
                k += 1;
            }
            Some(crate::text::string_of_bytes(crate::text::slice_bytes(d, i, k).as_slice()))
        },
    }
}

/// The GCC version between the first `GCC: (` and the next `)`.
fn capture_gcc_version(d: &[u8]) -> (r: Option<String>)
    ensures
        opt_view(r) == spec_gcc_version(d@),
{
    let m = crate::text::ascii_bytes("GCC: (");
    match find_bytes(d, m.as_slice()) {
        None => None,
        Some(i) => {
            proof {
                crate::text::lemma_find_from_bounds(d@, m@, 0);
                reveal_strlit("GCC: (");
                assert(m@.len() == 6);
            }
            let n = d.len();
            assert(i + 6 <= n);
            let rest = crate::text::slice_bytes(d, i + 6, n);
            let close: [u8; 1] = [0x29];
            let cs: &[u8] = &close;
            proof {
                assert(cs@ =~= seq![0x29u8]);
            }
            match find_bytes(rest.as_slice(), cs) {
                None => None,
                Some(j) => {
                    proof {
                        crate::text::lemma_find_from_bounds(rest@, cs@, 0);
                    }
                    let inner = crate::text::slice_bytes(rest.as_slice(), 0, j);
                    Some(lossy_string(inner.as_slice()))
                },
            }
        },
    }
}

fn msvc_step(d: &[u8], id: &mut BinaryIdentity)
    ensures
        final(id)@ == step_msvc(d@, old(id)@),
{
    if marker(d, "MSVC") || marker(d, "Microsoft Visual C") || marker(d, "VCRUNTIME") {
        id.compiler = Some(owned("MSVC"));
        fill_or(&mut id.language, "C/C++");
        match capture_msvc_version(d) {
            Some(v) => {
                id.compiler_version = Some(v);
            },
            None => {},
        }
    }
}

fn gcc_step(d: &[u8], id: &mut BinaryIdentity)
    ensures
        final(id)@ == step_gcc(d@, old(id)@),
{
    if marker(d, "GCC:") || marker(d, "GNU C") || marker(d, "libgcc") {
        fill_or(&mut id.compiler, "GCC");
        fill_or(&mut id.language, "C/C++");
        match capture_gcc_version(d) {
            Some(v) => {
                id.compiler_version = Some(v);
            },
            None => {},
        }
    }
}

fn clang_step(d: &[u8], id: &mut BinaryIdentity)
    ensures
        final(id)@ == step_clang(d@, old(id)@),
{
    if marker(d, "clang version") || marker(d, "Apple LLVM") {
        id.compiler = Some(owned("Clang/LLVM"));
        fill_or(&mut id.language, "C/C++/ObjC");
    }
}

fn borland_step(d: &[u8], id: &mut BinaryIdentity)
    ensures
        final(id)@ == step_borland(d@, old(id)@),
{
    if marker(d, "Borland") {
        id.compiler = Some(owned("Borland/Embarcadero"));
    }
}

fn mingw_step(d: &[u8], id: &mut BinaryIdentity)
    ensures
        final(id)@ == step_mingw(d@, old(id)@),
{
    if marker(d, "MinGW") {
        id.compiler = Some(owned("MinGW"));
        fill_or(&mut id.language, "C/C++");
    }
}

fn dotnet_step(d: &[u8], id: &mut BinaryIdentity)
    ensures
        final(id)@ == step_dotnet(d@, old(id)@),
{
    if marker(d, "dotnet") || marker(d, "mscoree.dll") || marker(d, "CLR.dll") {
        id.language = Some(owned(".NET/CIL"));
        id.framework = Some(owned(".NET"));
        id.compiler = Some(owned("csc/ilasm"));
    }
}

fn python_step(d: &[u8], id: &mut BinaryIdentity)
    ensures
        final(id)@ == step_python(d@, old(id)@),
{
    if marker(d, "Python") && (marker(d, "Py_") || marker(d, "python3")) {
        id.language = Some(owned("Python (embedded/frozen)"));
        id.framework = Some(owned("CPython"));
    }
}

fn electron_step(d: &[u8], id: &mut BinaryIdentity)
    ensures
        final(id)@ == step_electron(d@, old(id)@),
{
    if marker(d, "Electron") || marker(d, "node.dll") {
        id.framework = Some(owned("Electron/Node"));
        id.language = Some(owned("JavaScript/TypeScript"));
    }
}

fn gui_step(d: &[u8], id: &mut BinaryIdentity)
    ensures
        final(id)@ == step_gui(d@, old(id)@),
{
    if marker(d, "MFC") {
        id.framework = Some(owned("MFC"));
    } else if marker(d, "Qt5") || marker(d, "Qt6") || marker(d, "QObject") {
        id.framework = Some(owned("Qt"));
    }
}

fn build_step(d: &[u8], id: &mut BinaryIdentity)
    ensures
        final(id)@ == step_build(d@, old(id)@),
{
    if marker(d, "CMake") {
        id.build_system = Some(owned("CMake"));
    } else if marker(d, "Ninja") {
        id.build_system = Some(owned("Ninja"));
    } else if marker(d, "Autotools") || marker(d, "libtool") {
        id.build_system = Some(owned("Autotools"));
    }
}

fn debug_step(d: &[u8], id: &mut BinaryIdentity)
    ensures
        final(id)@ == step_debug(d@, old(id)@),
{
    if marker(d, ".pdb") || marker(d, "RSDS") || marker(d, ".debug_info") {
        id.has_debug_symbols = true;
    }
}

fn push_if(v: &mut Vec<String>, c: bool, s: &str)
    ensures
        strings_view(final(v)@) == strings_view(old(v)@) + crate::crypto_detect::one_if(c, s@),
{
    let ghost before = v@;
    if c {
        v.push(owned(s));
        proof {
            assert(strings_view(v@) =~= strings_view(before) + seq![s@]);
        }
    } else {
        proof {
            assert(strings_view(v@) =~= strings_view(before) + seq![]);
        }
    }
}

/// Records which known obfuscators' markers the bytes hold.
fn detect_obfuscation(d: &[u8], id: &mut BinaryIdentity)
    ensures
        final(id)@ == step_obfuscation(d@, old(id)@),
{
    let mut t: Vec<String> = Vec::new();
    proof {
        assert(strings_view(t@) =~= seq![]);
    }
    push_if(&mut t, marker(d, "VMProtect") || marker(d, ".vmp"), "virtualization obfuscation");
    push_if(&mut t, marker(d, "Themida"), "mutator/packer obfuscation");
    push_if(&mut t, marker(d, "Obfuscator-LLVM") || marker(d, "ollvm"), "OLLVM control-flow flattening");
    push_if(&mut t, marker(d, "ConfuserEx") || marker(d, "Dotfuscator"), ".NET obfuscation");
    push_if(&mut t, marker(d, "junk") && marker(d, "opaque"), "opaque predicates / junk code");
    proof {
        assert(strings_view(t@) =~= spec_obfuscation(d@));
    }
    id.obfuscated = t.len() > 0;
    id.obfuscation = t;
}

/// Infers language, compiler (and its version), framework, build system,
/// debug information and obfuscation from markers in the bytes and from
/// the names of imported symbols.
pub fn enrich_toolchain(data: &[u8], identity: &mut BinaryIdentity, imports: &[String])
    ensures
        final(identity)@ == spec_enrich_toolchain(data@, strings_view(imports@), old(identity)@),
{
    go_step(data, identity);
    rust_step(data, imports, identity);
    msvc_step(data, identity);
    gcc_step(data, identity);
    clang_step(data, identity);
    borland_step(data, identity);
    mingw_step(data, identity);
    dotnet_step(data, identity);
    python_step(data, identity);
    electron_step(data, identity);
    gui_step(data, identity);
    build_step(data, identity);
    debug_step(data, identity);
    detect_obfuscation(data, identity);
}

/// The facts toolchain inference leaves alone.
pub open spec fn same_kind(a: IdentityView, b: IdentityView) -> bool {
    a.format == b.format && a.architecture == b.architecture && a.os == b.os && a.entry_point
        == b.entry_point && a.packed == b.packed && a.is_dll == b.is_dll
}

/// Toolchain inference never changes what kind of binary it is: format,
/// architecture, operating system, entry point, packing and library-ness stay
/// as they were; and the binary counts as obfuscated exactly when some
/// obfuscator marker is present.
pub proof fn law_enrich_keeps_format(d: Seq<u8>, imports: Seq<Seq<char>>, id: IdentityView)
    ensures
        same_kind(spec_enrich_toolchain(d, imports, id), id),
        spec_enrich_toolchain(d, imports, id).obfuscated <==> spec_obfuscation(d).len() > 0,
{
    let s1 = step_go(d, id);
    assert(same_kind(s1, id));
    let s2 = step_rust(d, imports, s1);
    assert(same_kind(s2, id));
    let s3 = step_msvc(d, s2);
    assert(same_kind(s3, id));
    let s4 = step_gcc(d, s3);
    assert(same_kind(s4, id));
    let s5 = step_clang(d, s4);
    assert(same_kind(s5, id));
    let s6 = step_borland(d, s5);
    assert(same_kind(s6, id));
    let s7 = step_mingw(d, s6);
    assert(same_kind(s7, id));
    let s8 = step_dotnet(d, s7);
    assert(same_kind(s8, id));
    let s9 = step_python(d, s8);
    assert(same_kind(s9, id));
    let s10 = step_electron(d, s9);
    assert(same_kind(s10, id));
    let s11 = step_gui(d, s10);
    assert(same_kind(s11, id));
    let s12 = step_build(d, s11);
    assert(same_kind(s12, id));
    let s13 = step_debug(d, s12);
    assert(same_kind(s13, id));
    assert(spec_enrich_toolchain(d, imports, id) == step_obfuscation(d, s13));
}

} // verus!
