//! Packer and protector detection from section names, byte markers and
//! section entropy.
use vstd::prelude::*;
use crate::crypto_detect::{has_text, one_if};
use crate::entropy::{is_high_entropy, spec_is_high_entropy};
use crate::model::{
    evidence_views, packer_views, section_views, Evidence, EvidenceView, PackerFinding,
    PackerFindingView, SectionInfo, SectionView,
};
use crate::order::{is_sorted_desc, law_sort_desc_sorted_permutation, lemma_sort_by_keys_view, sort_desc, sort_desc_by_keys};
use crate::text::{
    bytes_have, contains_seq, dec_of, has, hex_digit, lower_chars, lower_seq, owned, push_char,
    push_dec, push_str, str_chars, strings_view,
};

verus! {

/// A finding with its single piece of evidence.
pub open spec fn pf(name: Seq<char>, confidence: u32, ev: EvidenceView) -> PackerFindingView {
    PackerFindingView { name, confidence, evidence: seq![ev] }
}

/// Some section's name contains `t` (case-sensitive).
pub open spec fn any_name_has(secs: Seq<SectionView>, t: Seq<char>) -> bool {
    exists|i: int| 0 <= i < secs.len() && contains_seq(#[trigger] secs[i].name, t)
}

pub open spec fn spec_upx(d: Seq<u8>, secs: Seq<SectionView>) -> Seq<PackerFindingView> {
    let magic = has_text(d, "UPX!") || has_text(d, "UPX0") || has_text(d, "UPX1");
    let sect = any_name_has(secs, "UPX"@);
    one_if(
        magic || sect,
        pf(
            "UPX"@,
            if magic && sect { 98 } else { 85 },
            EvidenceView::Heuristic {
                rule: "upx_signature"@,
                note: "UPX section names or magic detected"@,
            },
        ),
    )
}

pub open spec fn spec_themida(d: Seq<u8>, secs: Seq<SectionView>) -> Seq<PackerFindingView> {
    one_if(
        any_name_has(secs, "themida"@) || any_name_has(secs, ".yP"@) || any_name_has(
            secs,
            ".winlice"@,
        ) || has_text(d, "Themida") || has_text(d, "WinLicense"),
        pf(
            "Themida/WinLicense"@,
            90,
            EvidenceView::Heuristic {
                rule: "themida_signature"@,
                note: "Themida/WinLicense markers found"@,
            },
        ),
    )
}

pub open spec fn spec_vmprotect(d: Seq<u8>, secs: Seq<SectionView>) -> Seq<PackerFindingView> {
    one_if(
        any_name_has(secs, ".vmp"@) || has_text(d, "VMProtect") || has_text(d, ".vmp0"),
        pf(
            "VMProtect"@,
            92,
            EvidenceView::Heuristic { rule: "vmprotect_signature"@, note: "VMProtect markers found"@ },
        ),
    )
}

pub open spec fn spec_aspack(secs: Seq<SectionView>) -> Seq<PackerFindingView> {
    one_if(
        any_name_has(secs, ".aspack"@) || any_name_has(secs, ".adata"@),
        pf(
            "ASPack"@,
            88,
            EvidenceView::Section { name: ".aspack/.adata"@, note: "ASPack section naming pattern"@ },
        ),
    )
}

pub open spec fn spec_fsg(d: Seq<u8>) -> Seq<PackerFindingView> {
    one_if(
        has_text(d, "FSG!") || has_text(d, "FSG1"),
        pf("FSG"@, 86, EvidenceView::Heuristic { rule: "fsg_magic"@, note: "FSG packer magic"@ }),
    )
}

pub open spec fn spec_pecompact(secs: Seq<SectionView>) -> Seq<PackerFindingView> {
    one_if(
        any_name_has(secs, "PEC2"@) || any_name_has(secs, "pecompact"@),
        pf("PECompact"@, 84, EvidenceView::Section { name: "PEC2"@, note: "PECompact section marker"@ }),
    )
}

/// An entropy in thousandths of a bit per byte written with two decimals
/// (rounded half up).
pub open spec fn entropy_text(m: u32) -> Seq<char> {
    let c = ((m as int + 5) / 10) as nat;
    dec_of(c / 100) + seq!['.', hex_digit(((c % 100) / 10) as int), hex_digit((c % 10) as int)]
}

/// The generic finding for one section whose lowercased name mentions
/// `packed` or `crypt`.
pub open spec fn name_finding(s: SectionView) -> Seq<PackerFindingView> {
    let n = lower_seq(s.name);
    one_if(
        contains_seq(n, "packed"@) || contains_seq(n, "crypt"@),
        pf(
            "Custom/Generic packer"@,
            55,
            EvidenceView::Section {
                name: s.name,
                note: "Suspicious section name with entropy "@ + entropy_text(s.entropy),
            },
        ),
    )
}

/// The generic findings of the sections, in section order.
pub open spec fn name_findings(secs: Seq<SectionView>) -> Seq<PackerFindingView>
    decreases secs.len(),
{
    if secs.len() == 0 {
        seq![]
    } else {
        name_findings(secs.drop_last()) + name_finding(secs.last())
    }
}

/// The number of high-entropy sections larger than 1 KiB.
pub open spec fn high_count(secs: Seq<SectionView>) -> nat
    decreases secs.len(),
{
    if secs.len() == 0 {
        0
    } else {
        high_count(secs.drop_last()) + if spec_is_high_entropy(secs.last().entropy)
            && secs.last().raw_size > 1024 {
            1nat
        } else {
            0nat
        }
    }
}

/// An executable high-entropy section larger than 2 KiB.
pub open spec fn executable_high(secs: Seq<SectionView>) -> bool {
    exists|i: int|
        0 <= i < secs.len() && spec_is_high_entropy(#[trigger] secs[i].entropy) && contains_seq(
            secs[i].permissions,
            "x"@,
        ) && secs[i].raw_size > 2048
}

/// The largest section entropy, or 0 without sections.
pub open spec fn max_entropy(secs: Seq<SectionView>) -> u32
    decreases secs.len(),
{
    if secs.len() == 0 {
        0
    } else {
        let m = max_entropy(secs.drop_last());
        if secs.last().entropy > m {
            secs.last().entropy
        } else {
            m
        }
    }
}

pub open spec fn spec_entropy_packer(secs: Seq<SectionView>) -> Seq<PackerFindingView> {
    let high = high_count(secs);
    let xh = executable_high(secs);
    one_if(
        high >= 2 || xh,
        pf(
            "High-entropy packing/encryption"@,
            if xh { 70 } else { 55 },
            EvidenceView::Entropy {
                region: "sections"@,
                value: max_entropy(secs),
                note: dec_of(high) + " high-entropy sections; possible custom packer"@,
            },
        ),
    )
}

/// Every rule's findings, in the order the rules run.
pub open spec fn spec_packer_candidates(d: Seq<u8>, secs: Seq<SectionView>) -> Seq<
    PackerFindingView,
> {
    spec_upx(d, secs) + name_findings(secs) + spec_entropy_packer(secs) + spec_themida(d, secs)
        + spec_vmprotect(d, secs) + spec_aspack(secs) + spec_fsg(d) + spec_pecompact(secs)
}

/// The confidence of a finding, as a sort key.
pub open spec fn confidence_key(f: PackerFindingView) -> int {
    f.confidence as int
}

/// The packers that the rules find, most confident first; findings of equal
/// confidence keep the order of the rules.
pub open spec fn spec_detect_packers(d: Seq<u8>, secs: Seq<SectionView>) -> Seq<PackerFindingView> {
    sort_desc(spec_packer_candidates(d, secs), |f: PackerFindingView| confidence_key(f))
}

fn push_finding(out: &mut Vec<PackerFinding>, name: &str, confidence: u32, ev: Evidence)
    ensures
        packer_views(final(out)@) == packer_views(old(out)@).push(pf(name@, confidence, ev@)),
{
    let f = PackerFinding { name: owned(name), confidence, evidence: vec![ev] };
    proof {
        assert(evidence_views(f.evidence@) =~= seq![ev@]);
    }
    let ghost before = out@;
    out.push(f);
    proof {
        assert(packer_views(out@) =~= packer_views(before).push(f@));
    }
}

fn heuristic(rule: &str, note: &str) -> (e: Evidence)
    ensures
        e@ == (EvidenceView::Heuristic { rule: rule@, note: note@ }),
{
    Evidence::Heuristic { rule: owned(rule), note: owned(note) }
}

fn section_ev(name: &str, note: &str) -> (e: Evidence)
    ensures
        e@ == (EvidenceView::Section { name: name@, note: note@ }),
{
    Evidence::Section { name: owned(name), note: owned(note) }
}

/// Whether some section's name contains `t`.
fn any_section_has(sections: &[SectionInfo], t: &str) -> (r: bool)
    ensures
        r == any_name_has(section_views(sections@), t@),
{
    let ghost secs = section_views(sections@);
    let mut i: usize = 0;
    while i < sections.len()
        invariant
            i <= sections@.len(),
            secs == section_views(sections@),
            forall|k: int| 0 <= k < i ==> !contains_seq(#[trigger] secs[k].name, t@),
        decreases sections@.len() - i,
    {
        let n = str_chars(sections[i].name.as_str());
        if has(n.as_slice(), t) {
            proof {
                assert(secs[i as int].name == sections@[i as int].name@);
            }
            return true;
        }
        proof {
            assert(secs[i as int].name == sections@[i as int].name@);
        }
        i += 1;
    }
    false
}

fn check_upx(data: &[u8], sections: &[SectionInfo], out: &mut Vec<PackerFinding>)
    ensures
        packer_views(final(out)@) == packer_views(old(out)@) + spec_upx(data@, section_views(sections@)),
{
    let magic = bytes_have(data, "UPX!") || bytes_have(data, "UPX0") || bytes_have(data, "UPX1");
    let sect = any_section_has(sections, "UPX");
    if magic || sect {
        let conf: u32 = if magic && sect { 98 } else { 85 };
        push_finding(out, "UPX", conf, heuristic("upx_signature", "UPX section names or magic detected"));
    }
    proof {
        let s = spec_upx(data@, section_views(sections@));
        assert(packer_views(final(out)@) =~= packer_views(old(out)@) + s);
    }
}

fn check_themida(data: &[u8], sections: &[SectionInfo], out: &mut Vec<PackerFinding>)
    ensures
        packer_views(final(out)@) == packer_views(old(out)@) + spec_themida(
            data@,
            section_views(sections@),
        ),
{
    let hit = any_section_has(sections, "themida") || any_section_has(sections, ".yP")
        || any_section_has(sections, ".winlice") || bytes_have(data, "Themida") || bytes_have(
        data,
        "WinLicense",
    );
    if hit {
        push_finding(
            out,
            "Themida/WinLicense",
            90,
            heuristic("themida_signature", "Themida/WinLicense markers found"),
        );
    }
    proof {
        let s = spec_themida(data@, section_views(sections@));
        assert(packer_views(final(out)@) =~= packer_views(old(out)@) + s);
    }
}

fn check_vmprotect(data: &[u8], sections: &[SectionInfo], out: &mut Vec<PackerFinding>)
    ensures
        packer_views(final(out)@) == packer_views(old(out)@) + spec_vmprotect(
            data@,
            section_views(sections@),
        ),
{
    let hit = any_section_has(sections, ".vmp") || bytes_have(data, "VMProtect") || bytes_have(
        data,
        ".vmp0",
    );
    if hit {
        push_finding(out, "VMProtect", 92, heuristic("vmprotect_signature", "VMProtect markers found"));
    }
    proof {
        let s = spec_vmprotect(data@, section_views(sections@));
        assert(packer_views(final(out)@) =~= packer_views(old(out)@) + s);
    }
}

fn check_aspack(sections: &[SectionInfo], out: &mut Vec<PackerFinding>)
    ensures
        packer_views(final(out)@) == packer_views(old(out)@) + spec_aspack(section_views(sections@)),
{
    if any_section_has(sections, ".aspack") || any_section_has(sections, ".adata") {
        push_finding(out, "ASPack", 88, section_ev(".aspack/.adata", "ASPack section naming pattern"));
    }
    proof {
        let s = spec_aspack(section_views(sections@));
        assert(packer_views(final(out)@) =~= packer_views(old(out)@) + s);
    }
}

fn check_fsg(data: &[u8], out: &mut Vec<PackerFinding>)
    ensures
        packer_views(final(out)@) == packer_views(old(out)@) + spec_fsg(data@),
{
    if bytes_have(data, "FSG!") || bytes_have(data, "FSG1") {
        push_finding(out, "FSG", 86, heuristic("fsg_magic", "FSG packer magic"));
    }
    proof {
        let s = spec_fsg(data@);
        assert(packer_views(final(out)@) =~= packer_views(old(out)@) + s);
    }
}

fn check_pecompact(sections: &[SectionInfo], out: &mut Vec<PackerFinding>)
    ensures
        packer_views(final(out)@) == packer_views(old(out)@) + spec_pecompact(
            section_views(sections@),
        ),
{
    if any_section_has(sections, "PEC2") || any_section_has(sections, "pecompact") {
        push_finding(out, "PECompact", 84, section_ev("PEC2", "PECompact section marker"));
    }
    proof {
        let s = spec_pecompact(section_views(sections@));
        assert(packer_views(final(out)@) =~= packer_views(old(out)@) + s);
    }
}

fn push_entropy_text(s: &mut String, m: u32)
    ensures
        final(s)@ == old(s)@ + entropy_text(m),
{
    let c: u64 = (m as u64 + 5) / 10;
    push_dec(s, c / 100);
    push_char(s, '.');
    push_char(s, crate::text::hex_digit_char((c % 100) / 10));
    push_char(s, crate::text::hex_digit_char(c % 10));
    proof {
        assert(final(s)@ =~= old(s)@ + entropy_text(m));
    }
}

fn check_section_names(sections: &[SectionInfo], out: &mut Vec<PackerFinding>)
    ensures
        packer_views(final(out)@) == packer_views(old(out)@) + name_findings(
            section_views(sections@),
        ),
{
    let ghost start = packer_views(out@);
    let mut i: usize = 0;
    while i < sections.len()
        invariant
            i <= sections@.len(),
            packer_views(out@) == start + name_findings(section_views(sections@.subrange(0, i as int))),
        decreases sections@.len() - i,
    {
        let ghost before = packer_views(out@);
        let s = &sections[i];
        let n = str_chars(s.name.as_str());
        let l = lower_chars(n.as_slice());
        if has(l.as_slice(), "packed") || has(l.as_slice(), "crypt") {
            let mut note = owned("Suspicious section name with entropy ");
            push_entropy_text(&mut note, s.entropy);
            let ev = Evidence::Section { name: s.name.clone(), note };
            let f = PackerFinding { name: owned("Custom/Generic packer"), confidence: 55, evidence: vec![ev] };
            proof {
                assert(evidence_views(f.evidence@) =~= seq![ev@]);
            }
            out.push(f);
            proof {
                assert(packer_views(out@) =~= before.push(f@));
            }
        }
        proof {
            let sv = section_views(sections@.subrange(0, i + 1));
            assert(sv.drop_last() =~= section_views(sections@.subrange(0, i as int)));
            assert(sv.last() == sections@[i as int]@);
            assert(packer_views(out@) =~= start + name_findings(sv));
        }
        i += 1;
    }
    proof {
        assert(sections@.subrange(0, sections@.len() as int) =~= sections@);
    }
}

fn count_high(sections: &[SectionInfo]) -> (n: u64)
    ensures
        n as nat == high_count(section_views(sections@)),
{
    let ghost secs = section_views(sections@);
    let mut n: u64 = 0;
    let mut i: usize = 0;
    while i < sections.len()
        invariant
            i <= sections@.len(),
            secs == section_views(sections@),
            n as nat == high_count(secs.subrange(0, i as int)),
            n <= i,
        decreases sections@.len() - i,
    {
        if is_high_entropy(sections[i].entropy) && sections[i].raw_size > 1024 {
            n += 1;
        }
        proof {
            let pre = secs.subrange(0, i + 1);
            assert(pre.drop_last() =~= secs.subrange(0, i as int));
            assert(pre.last() == sections@[i as int]@);
        }
        i += 1;
    }
    proof {
        assert(secs.subrange(0, sections@.len() as int) =~= secs);
    }
    n
}

fn any_executable_high(sections: &[SectionInfo]) -> (r: bool)
    ensures
        r == executable_high(section_views(sections@)),
{
    let ghost secs = section_views(sections@);
    let mut i: usize = 0;
    while i < sections.len()
        invariant
            i <= sections@.len(),
            secs == section_views(sections@),
            forall|k: int|
                0 <= k < i ==> !(spec_is_high_entropy(#[trigger] secs[k].entropy) && contains_seq(
                    secs[k].permissions,
                    "x"@,
                ) && secs[k].raw_size > 2048),
        decreases sections@.len() - i,
    {
        let s = &sections[i];
        let perms = str_chars(s.permissions.as_str());
        let hit = is_high_entropy(s.entropy) && has(perms.as_slice(), "x") && s.raw_size > 2048;
        proof {
            assert(secs[i as int] == s@);
        }
        if hit {
            proof {
                assert(spec_is_high_entropy(secs[i as int].entropy) && contains_seq(
                    secs[i as int].permissions,
                    "x"@,
                ) && secs[i as int].raw_size > 2048);
            }
            return true;
        }
        i += 1;
    }
    false
}

fn max_section_entropy(sections: &[SectionInfo]) -> (m: u32)
    ensures
        m == max_entropy(section_views(sections@)),
{
    let ghost secs = section_views(sections@);
    let mut m: u32 = 0;
    let mut i: usize = 0;
    while i < sections.len()
        invariant
            i <= sections@.len(),
            secs == section_views(sections@),
            m == max_entropy(secs.subrange(0, i as int)),
        decreases sections@.len() - i,
    {
        if sections[i].entropy > m {
            m = sections[i].entropy;
        }
        proof {
            let pre = secs.subrange(0, i + 1);
            assert(pre.drop_last() =~= secs.subrange(0, i as int));
            assert(pre.last() == sections@[i as int]@);
        }
        i += 1;
    }
    proof {
        assert(secs.subrange(0, sections@.len() as int) =~= secs);
    }
    m
}

fn check_entropy_packer(sections: &[SectionInfo], out: &mut Vec<PackerFinding>)
    ensures
        packer_views(final(out)@) == packer_views(old(out)@) + spec_entropy_packer(
            section_views(sections@),
        ),
{
    let ghost secs = section_views(sections@);
    let high = count_high(sections);
    let xh = any_executable_high(sections);
    if high >= 2 || xh {
        let maxe = max_section_entropy(sections);
        let conf: u32 = if xh { 70 } else { 55 };
        let mut note = String::new();
        push_dec(&mut note, high);
        push_str(&mut note, " high-entropy sections; possible custom packer");
        let ev = Evidence::Entropy { region: owned("sections"), value: maxe, note };
        proof {
            assert(ev@ == (EvidenceView::Entropy {
                region: "sections"@,
                value: max_entropy(secs),
                note: dec_of(high_count(secs)) + " high-entropy sections; possible custom packer"@,
            }));
        }
        push_finding(out, "High-entropy packing/encryption", conf, ev);
    }
    proof {
        let s = spec_entropy_packer(secs);
        assert(packer_views(final(out)@) =~= packer_views(old(out)@) + s);
    }
}

/// Detects packers and protectors (UPX, Themida/WinLicense, VMProtect,
/// ASPack, FSG, PECompact, generic packers and high-entropy packing) from
/// the raw bytes and the sections, most confident first; findings of equal
/// confidence keep the order in which the rules run.
pub fn detect_packers(data: &[u8], sections: &[SectionInfo]) -> (r: Vec<PackerFinding>)
    ensures
        packer_views(r@) == spec_detect_packers(data@, section_views(sections@)),
{
    let mut findings: Vec<PackerFinding> = Vec::new();
    check_upx(data, sections, &mut findings);
    check_section_names(sections, &mut findings);
    check_entropy_packer(sections, &mut findings);
    check_themida(data, sections, &mut findings);
    check_vmprotect(data, sections, &mut findings);
    check_aspack(sections, &mut findings);
    check_fsg(data, &mut findings);
    check_pecompact(sections, &mut findings);
    proof {
        assert(packer_views(findings@) =~= spec_packer_candidates(data@, section_views(sections@)));
    }
    let mut keys: Vec<u64> = Vec::new();
    let mut i: usize = 0;
    while i < findings.len()
        invariant
            i <= findings@.len(),
            keys@.len() == i,
            forall|k: int| 0 <= k < i ==> keys@[k] as int == confidence_key(#[trigger] findings@[k]@),
        decreases findings@.len() - i,
    {
        keys.push(findings[i].confidence as u64);
        i += 1;
    }
    let ghost items = findings@;
    let ghost ks = keys@;
    let r = sort_desc_by_keys(findings, keys);
    proof {
        lemma_sort_by_keys_view(
            items,
            ks,
            |f: PackerFinding| f@,
            |v: PackerFindingView| confidence_key(v),
        );
        assert(packer_views(r@) =~= r@.map_values(|f: PackerFinding| f@));
        assert(items.map_values(|f: PackerFinding| f@) =~= packer_views(items));
    }
    r
}

/// The findings come out most confident first and are exactly the findings
/// that the rules make, none lost and none added.
pub proof fn law_packers_sorted_and_complete(d: Seq<u8>, secs: Seq<SectionView>)
    ensures
        is_sorted_desc(spec_detect_packers(d, secs), |f: PackerFindingView| confidence_key(f)),
        spec_detect_packers(d, secs).to_multiset() == spec_packer_candidates(d, secs).to_multiset(),
{
    law_sort_desc_sorted_permutation(
        spec_packer_candidates(d, secs),
        |f: PackerFindingView| confidence_key(f),
    );
}

/// Data that carries a UPX marker (`UPX!`, `UPX0` or `UPX1`) is always
/// reported as packed by UPX, with the `upx_signature` evidence and a
/// confidence of at least 0.85, whatever its sections are.
pub proof fn law_upx_magic_found(d: Seq<u8>, secs: Seq<SectionView>)
    requires
        contains_seq(d, seq![0x55u8, 0x50u8, 0x58u8, 0x21u8]) || contains_seq(d, seq![0x55u8, 0x50u8, 0x58u8, 0x30u8])
            || contains_seq(d, seq![0x55u8, 0x50u8, 0x58u8, 0x31u8]),
    ensures
        exists|i: int|
            0 <= i < spec_detect_packers(d, secs).len() && #[trigger] spec_detect_packers(d, secs)[i].name
                == "UPX"@ && spec_detect_packers(d, secs)[i].confidence >= 85
                && spec_detect_packers(d, secs)[i].evidence.len() == 1 && (
            spec_detect_packers(d, secs)[i].evidence[0] matches EvidenceView::Heuristic { rule, .. }
                && rule == "upx_signature"@),
{
    broadcast use vstd::seq_lib::group_to_multiset_ensures;

    reveal_strlit("UPX!");
    reveal_strlit("UPX0");
    reveal_strlit("UPX1");
    assert(crate::text::ascii_seq("UPX!"@) =~= seq![0x55u8, 0x50u8, 0x58u8, 0x21u8]);
    assert(crate::text::ascii_seq("UPX0"@) =~= seq![0x55u8, 0x50u8, 0x58u8, 0x30u8]);
    assert(crate::text::ascii_seq("UPX1"@) =~= seq![0x55u8, 0x50u8, 0x58u8, 0x31u8]);
    assert(has_text(d, "UPX!") || has_text(d, "UPX0") || has_text(d, "UPX1"));
    let u = spec_upx(d, secs);
    let f = u[0];
    let c = spec_packer_candidates(d, secs);
    let r = spec_detect_packers(d, secs);
    assert(c[0] == f);
    assert(c.contains(f));
    law_packers_sorted_and_complete(d, secs);
    assert(c.to_multiset().count(f) > 0);
    assert(r.contains(f));
    let i = choose|i: int| 0 <= i < r.len() && r[i] == f;
    assert(r[i].name == "UPX"@);
}

/// The names of the sections that look encrypted: entropy of at least
/// 7.5 bits/byte and more than 512 bytes of raw data.
pub open spec fn spec_encrypted_sections(secs: Seq<SectionView>) -> Seq<Seq<char>>
    decreases secs.len(),
{
    if secs.len() == 0 {
        seq![]
    } else {
        spec_encrypted_sections(secs.drop_last()) + one_if(
            secs.last().entropy >= 7500 && secs.last().raw_size > 512,
            secs.last().name,
        )
    }
}

/// The names of the sections with entropy of at least 7.5 bits/byte and more
/// than 512 bytes of raw data, in section order.
pub fn encrypted_sections(sections: &[SectionInfo]) -> (r: Vec<String>)
    ensures
        strings_view(r@) == spec_encrypted_sections(section_views(sections@)),
{
    let mut out: Vec<String> = Vec::new();
    let mut i: usize = 0;
    while i < sections.len()
        invariant
            i <= sections@.len(),
            strings_view(out@) == spec_encrypted_sections(section_views(sections@.subrange(0, i as int))),
        decreases sections@.len() - i,
    {
        let ghost before = out@;
        if sections[i].entropy >= 7500 && sections[i].raw_size > 512 {
            out.push(sections[i].name.clone());
        }
        proof {
            let sv = section_views(sections@.subrange(0, i + 1));
            assert(sv.drop_last() =~= section_views(sections@.subrange(0, i as int)));
            assert(sv.last() == sections@[i as int]@);
            assert(strings_view(out@) =~= spec_encrypted_sections(sv));
        }
        i += 1;
    }
    proof {
        assert(sections@.subrange(0, sections@.len() as int) =~= sections@);
    }
    out
}

} // verus!
