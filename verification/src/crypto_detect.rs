//! Static detection of cryptographic primitives from known constants
//! (S-boxes, initialization vectors) and algorithm names.
use vstd::prelude::*;
use crate::model::{crypto_views, evidence_views, CryptoFinding, CryptoFindingView, Evidence, EvidenceView};
use crate::text::{ascii_seq, bytes_have, contains_bytes, contains_seq, owned};

verus! {

/// `seq![x]` when `c`, else nothing.
pub open spec fn one_if<T>(c: bool, x: T) -> Seq<T> {
    if c {
        seq![x]
    } else {
        seq![]
    }
}

pub open spec fn opt_str(o: Option<&str>) -> Option<Seq<char>> {
    match o {
        Some(s) => Some(s@),
        None => None,
    }
}

/// A finding with its single constant-evidence citation.
pub open spec fn spec_finding(
    algorithm: Seq<char>,
    category: Seq<char>,
    mode: Option<Seq<char>>,
    strength: Seq<char>,
    weakness: Option<Seq<char>>,
    confidence: u32,
    note: Seq<char>,
) -> CryptoFindingView {
    CryptoFindingView {
        algorithm,
        category,
        mode,
        strength,
        weakness,
        confidence,
        evidence: seq![EvidenceView::Constant { value: algorithm, address: None, note }],
    }
}

/// The bytes contain the ASCII text `s`.
pub open spec fn has_text(d: Seq<u8>, s: &str) -> bool {
    contains_seq(d, ascii_seq(s@))
}

pub open spec fn aes_sbox() -> Seq<u8> {
    seq![
        0x63u8, 0x7c, 0x77, 0x7b, 0xf2, 0x6b, 0x6f, 0xc5, 0x30, 0x01, 0x67, 0x2b, 0xfe, 0xd7, 0xab,
        0x76,
    ]
}

pub open spec fn des_sbox() -> Seq<u8> {
    seq![14u8, 4, 13, 1, 2, 15, 11, 8, 3, 10, 6, 12, 5, 9, 0, 7]
}

/// The MD5/SHA-1 shared initialization words `01 23 45 67` and `89 ab cd ef`.
pub open spec fn md_init(d: Seq<u8>) -> bool {
    contains_seq(d, seq![0x01u8, 0x23, 0x45, 0x67]) && contains_seq(d, seq![0x89u8, 0xab, 0xcd, 0xef])
}

/// The number of detection rules.
pub open spec fn rule_count() -> int {
    21
}

/// Whether rule `k` fires on the bytes `d`.
pub open spec fn rule_fires(k: int, d: Seq<u8>) -> bool {
    if k == 0 {
        contains_seq(d, aes_sbox())
    } else if k == 1 {
        contains_seq(d, seq![0x67u8, 0xe6, 0x09, 0x6a]) && contains_seq(d, seq![0x85u8, 0xae, 0x67, 0xbb])
    } else if k == 2 {
        md_init(d) && contains_seq(d, seq![0xfeu8, 0xdc, 0xba, 0x98])
    } else if k == 3 {
        md_init(d) && has_text(d, "SHA1")
    } else if k == 4 {
        has_text(d, "ChaCha20") || has_text(d, "chacha20")
    } else if k == 5 {
        has_text(d, "Salsa20")
    } else if k == 6 {
        has_text(d, "AES-ECB") || (has_text(d, "ECB") && has_text(d, "AES"))
    } else if k == 7 {
        has_text(d, "RC4") || has_text(d, "ARCFOUR")
    } else if k == 8 {
        has_text(d, "Blowfish")
    } else if k == 9 {
        has_text(d, "Twofish")
    } else if k == 10 {
        has_text(d, "Serpent")
    } else if k == 11 {
        has_text(d, "BEGIN RSA PUBLIC KEY") || has_text(d, "ssh-rsa") || has_text(d, "RSACryptoServiceProvider")
    } else if k == 12 {
        has_text(d, "secp256") || has_text(d, "prime256v1") || has_text(d, "ECDSA") || has_text(d, "curve25519")
    } else if k == 13 {
        has_text(d, "PBKDF2")
    } else if k == 14 {
        has_text(d, "Argon2")
    } else if k == 15 {
        has_text(d, "bcrypt")
    } else if k == 16 {
        has_text(d, "scrypt")
    } else if k == 17 {
        has_text(d, "HMAC")
    } else if k == 18 {
        has_text(d, "DES") && !has_text(d, "AES")
    } else if k == 19 {
        has_text(d, "3DES") || has_text(d, "TripleDES")
    } else {
        contains_seq(d, des_sbox())
    }
}

/// The finding rule `k` reports.
pub open spec fn rule_finding(k: int) -> CryptoFindingView {
    if k == 0 {
        spec_finding("AES"@, "symmetric"@, Some("unknown"@), "strong"@, None, 90, "AES S-box constant"@)
    } else if k == 1 {
        spec_finding("SHA-256"@, "hash"@, None, "strong"@, None, 75, "SHA-256 IV constants"@)
    } else if k == 2 {
        spec_finding("MD5"@, "hash"@, None, "weak"@, Some("MD5 is cryptographically broken"@), 70, "MD5 initialization constants"@)
    } else if k == 3 {
        spec_finding("SHA-1"@, "hash"@, None, "weak"@, Some("SHA-1 collision attacks exist"@), 65, "SHA-1 related markers"@)
    } else if k == 4 {
        spec_finding("ChaCha20"@, "symmetric"@, None, "strong"@, None, 80, "ChaCha20 string reference"@)
    } else if k == 5 {
        spec_finding("Salsa20"@, "symmetric"@, None, "strong"@, None, 80, "Salsa20 string reference"@)
    } else if k == 6 {
        spec_finding("AES"@, "symmetric"@, Some("ECB"@), "weak"@, Some("ECB mode leaks patterns"@), 85, "AES-ECB reference"@)
    } else if k == 7 {
        spec_finding("RC4"@, "symmetric"@, None, "weak"@, Some("RC4 is deprecated"@), 80, "RC4 reference"@)
    } else if k == 8 {
        spec_finding("Blowfish"@, "symmetric"@, None, "moderate"@, None, 75, "Blowfish"@)
    } else if k == 9 {
        spec_finding("Twofish"@, "symmetric"@, None, "strong"@, None, 75, "Twofish"@)
    } else if k == 10 {
        spec_finding("Serpent"@, "symmetric"@, None, "strong"@, None, 75, "Serpent"@)
    } else if k == 11 {
        spec_finding("RSA"@, "asymmetric"@, None, "strong"@, None, 85, "RSA markers"@)
    } else if k == 12 {
        spec_finding("ECC"@, "asymmetric"@, None, "strong"@, None, 80, "ECC markers"@)
    } else if k == 13 {
        spec_finding("PBKDF2"@, "kdf"@, None, "strong"@, None, 85, "PBKDF2 reference"@)
    } else if k == 14 {
        spec_finding("Argon2"@, "kdf"@, None, "strong"@, None, 90, "Argon2 reference"@)
    } else if k == 15 {
        spec_finding("bcrypt"@, "kdf"@, None, "strong"@, None, 85, "bcrypt reference"@)
    } else if k == 16 {
        spec_finding("scrypt"@, "kdf"@, None, "strong"@, None, 85, "scrypt reference"@)
    } else if k == 17 {
        spec_finding("HMAC"@, "mac"@, None, "strong"@, None, 70, "HMAC reference"@)
    } else if k == 18 {
        spec_finding("DES"@, "symmetric"@, None, "weak"@, Some("DES key size is insufficient"@), 70, "DES reference"@)
    } else if k == 19 {
        spec_finding("3DES"@, "symmetric"@, None, "weak"@, Some("3DES is deprecated"@), 75, "3DES reference"@)
    } else {
        spec_finding("DES"@, "symmetric"@, None, "weak"@, Some("DES S-box present"@), 80, "DES S-box constants"@)
    }
}

/// The findings of the first `n` rules, in rule order.
pub open spec fn findings_upto(d: Seq<u8>, n: int) -> Seq<CryptoFindingView>
    decreases n,
{
    if n <= 0 {
        seq![]
    } else {
        findings_upto(d, n - 1) + one_if(rule_fires(n - 1, d), rule_finding(n - 1))
    }
}

/// Every detection, in the order the rules are listed.
pub open spec fn spec_detect_crypto(d: Seq<u8>) -> Seq<CryptoFindingView> {
    findings_upto(d, rule_count())
}

fn opt_owned(o: Option<&str>) -> (r: Option<String>)
    ensures
        crate::text::opt_view(r) == opt_str(o),
{
    match o {
        Some(s) => Some(owned(s)),
        None => None,
    }
}

fn make(
    algorithm: &str,
    category: &str,
    mode: Option<&str>,
    strength: &str,
    weakness: Option<&str>,
    confidence: u32,
    note: &str,
) -> (f: CryptoFinding)
    ensures
        f@ == spec_finding(
            algorithm@,
            category@,
            opt_str(mode),
            strength@,
            opt_str(weakness),
            confidence,
            note@,
        ),
{
    let ev = Evidence::Constant { value: owned(algorithm), address: None, note: owned(note) };
    let f = CryptoFinding {
        algorithm: owned(algorithm),
        category: owned(category),
        mode: opt_owned(mode),
        strength: owned(strength),
        weakness: opt_owned(weakness),
        confidence,
        evidence: vec![ev],
    };
    proof {
        assert(evidence_views(f.evidence@) =~= seq![ev@]);
    }
    f
}

fn contains_arr4(data: &[u8], a: u8, b: u8, c: u8, d: u8) -> (r: bool)
    ensures
        r == contains_seq(data@, seq![a, b, c, d]),
{
    let arr: [u8; 4] = [a, b, c, d];
    let s: &[u8] = &arr;
    proof {
        assert(s@ =~= seq![a, b, c, d]);
    }
    contains_bytes(data, s)
}

fn contains_sbox(data: &[u8], des: bool) -> (r: bool)
    ensures
        r == contains_seq(data@, if des { des_sbox() } else { aes_sbox() }),
{
    if des {
        let dsbox: [u8; 16] = [14, 4, 13, 1, 2, 15, 11, 8, 3, 10, 6, 12, 5, 9, 0, 7];
        let ds: &[u8] = &dsbox;
        proof {
            assert(ds@ =~= des_sbox());
        }
        contains_bytes(data, ds)
    } else {
        let sbox: [u8; 16] = [
            0x63, 0x7c, 0x77, 0x7b, 0xf2, 0x6b, 0x6f, 0xc5, 0x30, 0x01, 0x67, 0x2b, 0xfe, 0xd7,
            0xab, 0x76,
        ];
        let sb: &[u8] = &sbox;
        proof {
            assert(sb@ =~= aes_sbox());
        }
        contains_bytes(data, sb)
    }
}

fn md_init_exec(data: &[u8]) -> (r: bool)
    ensures
        r == md_init(data@),
{
    contains_arr4(data, 0x01, 0x23, 0x45, 0x67) && contains_arr4(data, 0x89, 0xab, 0xcd, 0xef)
}

/// Whether rule `k` fires.
fn fires(k: usize, data: &[u8]) -> (r: bool)
    requires
        k < 21,
    ensures
        r == rule_fires(k as int, data@),
{
    match k {
        0 => contains_sbox(data, false),
        1 => contains_arr4(data, 0x67, 0xe6, 0x09, 0x6a) && contains_arr4(data, 0x85, 0xae, 0x67, 0xbb),
        2 => md_init_exec(data) && contains_arr4(data, 0xfe, 0xdc, 0xba, 0x98),
        3 => md_init_exec(data) && bytes_have(data, "SHA1"),
        4 => bytes_have(data, "ChaCha20") || bytes_have(data, "chacha20"),
        5 => bytes_have(data, "Salsa20"),
        6 => bytes_have(data, "AES-ECB") || (bytes_have(data, "ECB") && bytes_have(data, "AES")),
        7 => bytes_have(data, "RC4") || bytes_have(data, "ARCFOUR"),
        8 => bytes_have(data, "Blowfish"),
        9 => bytes_have(data, "Twofish"),
        10 => bytes_have(data, "Serpent"),
        11 => bytes_have(data, "BEGIN RSA PUBLIC KEY") || bytes_have(data, "ssh-rsa") || bytes_have(data, "RSACryptoServiceProvider"),
        12 => bytes_have(data, "secp256") || bytes_have(data, "prime256v1") || bytes_have(data, "ECDSA") || bytes_have(data, "curve25519"),
        13 => bytes_have(data, "PBKDF2"),
        14 => bytes_have(data, "Argon2"),
        15 => bytes_have(data, "bcrypt"),
        16 => bytes_have(data, "scrypt"),
        17 => bytes_have(data, "HMAC"),
        18 => bytes_have(data, "DES") && !bytes_have(data, "AES"),
        19 => bytes_have(data, "3DES") || bytes_have(data, "TripleDES"),
        _ => contains_sbox(data, true),
    }
}

/// The finding of rule `k`.
fn finding_of(k: usize) -> (f: CryptoFinding)
    requires
        k < 21,
    ensures
        f@ == rule_finding(k as int),
{
    match k {
        0 => make("AES", "symmetric", Some("unknown"), "strong", None, 90, "AES S-box constant"),
        1 => make("SHA-256", "hash", None, "strong", None, 75, "SHA-256 IV constants"),
        2 => make("MD5", "hash", None, "weak", Some("MD5 is cryptographically broken"), 70, "MD5 initialization constants"),
        3 => make("SHA-1", "hash", None, "weak", Some("SHA-1 collision attacks exist"), 65, "SHA-1 related markers"),
        4 => make("ChaCha20", "symmetric", None, "strong", None, 80, "ChaCha20 string reference"),
        5 => make("Salsa20", "symmetric", None, "strong", None, 80, "Salsa20 string reference"),
        6 => make("AES", "symmetric", Some("ECB"), "weak", Some("ECB mode leaks patterns"), 85, "AES-ECB reference"),
        7 => make("RC4", "symmetric", None, "weak", Some("RC4 is deprecated"), 80, "RC4 reference"),
        8 => make("Blowfish", "symmetric", None, "moderate", None, 75, "Blowfish"),
        9 => make("Twofish", "symmetric", None, "strong", None, 75, "Twofish"),
        10 => make("Serpent", "symmetric", None, "strong", None, 75, "Serpent"),
        11 => make("RSA", "asymmetric", None, "strong", None, 85, "RSA markers"),
        12 => make("ECC", "asymmetric", None, "strong", None, 80, "ECC markers"),
        13 => make("PBKDF2", "kdf", None, "strong", None, 85, "PBKDF2 reference"),
        14 => make("Argon2", "kdf", None, "strong", None, 90, "Argon2 reference"),
        15 => make("bcrypt", "kdf", None, "strong", None, 85, "bcrypt reference"),
        16 => make("scrypt", "kdf", None, "strong", None, 85, "scrypt reference"),
        17 => make("HMAC", "mac", None, "strong", None, 70, "HMAC reference"),
        18 => make("DES", "symmetric", None, "weak", Some("DES key size is insufficient"), 70, "DES reference"),
        19 => make("3DES", "symmetric", None, "weak", Some("3DES is deprecated"), 75, "3DES reference"),
        _ => make("DES", "symmetric", None, "weak", Some("DES S-box present"), 80, "DES S-box constants"),
    }
}

/// Detects cryptographic algorithms from known constants (AES and DES
/// S-boxes, SHA-256 and MD5 initial values) and algorithm names, one finding
/// per matching rule, in the order of the rules.
pub fn detect_crypto(data: &[u8]) -> (r: Vec<CryptoFinding>)
    ensures
        crypto_views(r@) == spec_detect_crypto(data@),
{
    let mut out: Vec<CryptoFinding> = Vec::new();
    let mut k: usize = 0;
    proof {
        assert(crypto_views(out@) =~= findings_upto(data@, 0));
    }
    while k < 21
        invariant
            k <= 21,
            crypto_views(out@) == findings_upto(data@, k as int),
        decreases 21 - k,
    {
        let ghost before = out@;
        if fires(k, data) {
            let f = finding_of(k);
            out.push(f);
            proof {
                assert(crypto_views(out@) =~= crypto_views(before) + seq![f@]);
            }
        } else {
            proof {
                assert(crypto_views(out@) =~= crypto_views(before) + seq![]);
            }
        }
        k += 1;
    }
    out
}

/// Each rule yields at most one finding, so the first `n` rules yield at most `n`.
pub proof fn law_crypto_findings_bounded(d: Seq<u8>, n: int)
    requires
        0 <= n,
    ensures
        findings_upto(d, n).len() <= n,
    decreases n,
{
    if n > 0 {
        law_crypto_findings_bounded(d, n - 1);
    }
}


/// Every finding of the first `n` rules is the finding of a rule among them
/// that fires, and each rule among them that fires has its finding there.
proof fn lemma_findings_upto_members(d: Seq<u8>, n: int)
    requires
        0 <= n,
    ensures
        forall|i: int|
            0 <= i < findings_upto(d, n).len() ==> exists|k: int|
                0 <= k < n && rule_fires(k, d) && #[trigger] findings_upto(d, n)[i] == rule_finding(k),
        forall|k: int| 0 <= k < n && rule_fires(k, d) ==> findings_upto(d, n).contains(#[trigger] rule_finding(k)),
    decreases n,
{
    if n > 0 {
        lemma_findings_upto_members(d, n - 1);
        let p = findings_upto(d, n - 1);
        let q = findings_upto(d, n);
        let e = one_if(rule_fires(n - 1, d), rule_finding(n - 1));
        assert(q == p + e);
        assert forall|i: int| 0 <= i < q.len() implies exists|k: int|
            0 <= k < n && rule_fires(k, d) && #[trigger] q[i] == rule_finding(k) by {
            if i < p.len() {
                assert(q[i] == p[i]);
                let k = choose|k: int| 0 <= k < n - 1 && rule_fires(k, d) && p[i] == rule_finding(k);
            } else {
                assert(q[i] == rule_finding(n - 1));
            }
        }
        assert forall|k: int| 0 <= k < n && rule_fires(k, d) implies q.contains(#[trigger] rule_finding(k)) by {
            if k < n - 1 {
                assert(p.contains(rule_finding(k)));
                let j = choose|j: int| 0 <= j < p.len() && p[j] == rule_finding(k);
                assert(q[j] == rule_finding(k));
            } else {
                assert(q[p.len() as int] == rule_finding(k));
            }
        }
    }
}

/// A finding cites its algorithm as a constant, with no address; it names a
/// weakness exactly when its strength is `weak`; its confidence is above
/// zero and at most one.
pub open spec fn well_formed_finding(f: CryptoFindingView) -> bool {
    &&& f.evidence.len() == 1
    &&& f.evidence[0] matches EvidenceView::Constant { value, address, .. } && value == f.algorithm && address
        is None
    &&& (f.weakness is Some <==> f.strength == "weak"@)
    &&& 0 < f.confidence <= 100
}

proof fn lemma_rule_findings_well_formed(k: int)
    requires
        0 <= k < rule_count(),
    ensures
        well_formed_finding(rule_finding(k)),
{
    reveal_strlit("strong");
    reveal_strlit("weak");
    reveal_strlit("moderate");
    assert("strong"@ != "weak"@) by {
        assert("strong"@.len() != "weak"@.len());
    }
    assert("moderate"@ != "weak"@) by {
        assert("moderate"@.len() != "weak"@.len());
    }
    if k == 0 {
        assert(well_formed_finding(rule_finding(0)));
    }
    if k == 1 {
        assert(well_formed_finding(rule_finding(1)));
    }
    if k == 2 {
        assert(well_formed_finding(rule_finding(2)));
    }
    if k == 3 {
        assert(well_formed_finding(rule_finding(3)));
    }
    if k == 4 {
        assert(well_formed_finding(rule_finding(4)));
    }
    if k == 5 {
        assert(well_formed_finding(rule_finding(5)));
    }
    if k == 6 {
        assert(well_formed_finding(rule_finding(6)));
    }
    if k == 7 {
        assert(well_formed_finding(rule_finding(7)));
    }
    if k == 8 {
        assert(well_formed_finding(rule_finding(8)));
    }
    if k == 9 {
        assert(well_formed_finding(rule_finding(9)));
    }
    if k == 10 {
        assert(well_formed_finding(rule_finding(10)));
    }
    if k == 11 {
        assert(well_formed_finding(rule_finding(11)));
    }
    if k == 12 {
        assert(well_formed_finding(rule_finding(12)));
    }
    if k == 13 {
        assert(well_formed_finding(rule_finding(13)));
    }
    if k == 14 {
        assert(well_formed_finding(rule_finding(14)));
    }
    if k == 15 {
        assert(well_formed_finding(rule_finding(15)));
    }
    if k == 16 {
        assert(well_formed_finding(rule_finding(16)));
    }
    if k == 17 {
        assert(well_formed_finding(rule_finding(17)));
    }
    if k == 18 {
        assert(well_formed_finding(rule_finding(18)));
    }
    if k == 19 {
        assert(well_formed_finding(rule_finding(19)));
    }
    if k == 20 {
        assert(well_formed_finding(rule_finding(20)));
    }
}

/// The evidence note of a finding.
pub open spec fn finding_note(f: CryptoFindingView) -> Seq<char> {
    match f.evidence[0] {
        EvidenceView::Constant { note, .. } => note,
        _ => seq![],
    }
}

/// Every finding is well formed and comes from a rule that fires; every rule
/// that fires is reported; and a `DES reference` finding is there exactly
/// when the bytes name DES but not AES.
pub proof fn law_crypto_findings(d: Seq<u8>)
    ensures
        forall|i: int|
            0 <= i < spec_detect_crypto(d).len() ==> well_formed_finding(#[trigger] spec_detect_crypto(d)[i]),
        forall|i: int|
            0 <= i < spec_detect_crypto(d).len() ==> exists|k: int|
                0 <= k < rule_count() && rule_fires(k, d) && #[trigger] spec_detect_crypto(d)[i] == rule_finding(k),
        forall|k: int|
            0 <= k < rule_count() && rule_fires(k, d) ==> spec_detect_crypto(d).contains(#[trigger] rule_finding(k)),
        (exists|i: int|
            0 <= i < spec_detect_crypto(d).len() && finding_note(#[trigger] spec_detect_crypto(d)[i])
                == "DES reference"@) <==> (has_text(d, "DES") && !has_text(d, "AES")),
{
    lemma_findings_upto_members(d, rule_count());
    let r = spec_detect_crypto(d);
    assert forall|i: int| 0 <= i < r.len() implies well_formed_finding(#[trigger] r[i]) by {
        let k = choose|k: int| 0 <= k < rule_count() && rule_fires(k, d) && r[i] == rule_finding(k);
        lemma_rule_findings_well_formed(k);
    }
    if has_text(d, "DES") && !has_text(d, "AES") {
        assert(rule_fires(18, d));
        assert(r.contains(rule_finding(18)));
        let i = choose|i: int| 0 <= i < r.len() && r[i] == rule_finding(18);
        assert(finding_note(r[i]) == "DES reference"@);
    }
    if exists|i: int| 0 <= i < r.len() && finding_note(#[trigger] r[i]) == "DES reference"@ {
        let i = choose|i: int| 0 <= i < r.len() && finding_note(#[trigger] r[i]) == "DES reference"@;
        let k = choose|k: int| 0 <= k < rule_count() && rule_fires(k, d) && r[i] == rule_finding(k);
        lemma_des_note_only(k);
    }
}

proof fn lemma_des_note_only(k: int)
    requires
        0 <= k < rule_count(),
        finding_note(rule_finding(k)) == "DES reference"@,
    ensures
        k == 18,
{
    reveal_strlit("DES reference");
    reveal_strlit("RC4 reference");
    reveal_strlit("AES S-box constant");
    reveal_strlit("SHA-256 IV constants");
    reveal_strlit("MD5 initialization constants");
    reveal_strlit("SHA-1 related markers");
    reveal_strlit("ChaCha20 string reference");
    reveal_strlit("Salsa20 string reference");
    reveal_strlit("AES-ECB reference");
    reveal_strlit("Blowfish");
    reveal_strlit("Twofish");
    reveal_strlit("Serpent");
    reveal_strlit("RSA markers");
    reveal_strlit("ECC markers");
    reveal_strlit("PBKDF2 reference");
    reveal_strlit("Argon2 reference");
    reveal_strlit("bcrypt reference");
    reveal_strlit("scrypt reference");
    reveal_strlit("HMAC reference");
    reveal_strlit("3DES reference");
    reveal_strlit("DES S-box constants");
    if k == 0 {
        assert(finding_note(rule_finding(0)).len() != 13);
    }
    if k == 1 {
        assert(finding_note(rule_finding(1)).len() != 13);
    }
    if k == 2 {
        assert(finding_note(rule_finding(2)).len() != 13);
    }
    if k == 3 {
        assert(finding_note(rule_finding(3)).len() != 13);
    }
    if k == 4 {
        assert(finding_note(rule_finding(4)).len() != 13);
    }
    if k == 5 {
        assert(finding_note(rule_finding(5)).len() != 13);
    }
    if k == 6 {
        assert(finding_note(rule_finding(6)).len() != 13);
    }
    if k == 7 {
        assert(finding_note(rule_finding(7))[0] != "DES reference"@[0]);
    }
    if k == 8 {
        assert(finding_note(rule_finding(8)).len() != 13);
    }
    if k == 9 {
        assert(finding_note(rule_finding(9)).len() != 13);
    }
    if k == 10 {
        assert(finding_note(rule_finding(10)).len() != 13);
    }
    if k == 11 {
        assert(finding_note(rule_finding(11)).len() != 13);
    }
    if k == 12 {
        assert(finding_note(rule_finding(12)).len() != 13);
    }
    if k == 13 {
        assert(finding_note(rule_finding(13)).len() != 13);
    }
    if k == 14 {
        assert(finding_note(rule_finding(14)).len() != 13);
    }
    if k == 15 {
        assert(finding_note(rule_finding(15)).len() != 13);
    }
    if k == 16 {
        assert(finding_note(rule_finding(16)).len() != 13);
    }
    if k == 17 {
        assert(finding_note(rule_finding(17)).len() != 13);
    }
    if k == 19 {
        assert(finding_note(rule_finding(19)).len() != 13);
    }
    if k == 20 {
        assert(finding_note(rule_finding(20)).len() != 13);
    }
}


proof fn lemma_empty_has_nothing(n: Seq<u8>)
    ensures
        contains_seq(Seq::<u8>::empty(), n) ==> n.len() == 0,
{
    crate::text::lemma_find_from_bounds(Seq::<u8>::empty(), n, 0);
}

/// No bytes, no findings.
pub proof fn law_crypto_empty(d: Seq<u8>)
    requires
        d.len() == 0,
    ensures
        spec_detect_crypto(d) == Seq::<CryptoFindingView>::empty(),
{
    assert(d =~= Seq::<u8>::empty());
    assert forall|n: Seq<u8>| #[trigger] contains_seq(d, n) implies n.len() == 0 by {
        lemma_empty_has_nothing(n);
    }
    reveal_strlit("3DES");
    reveal_strlit("AES");
    reveal_strlit("AES-ECB");
    reveal_strlit("ARCFOUR");
    reveal_strlit("Argon2");
    reveal_strlit("BEGIN RSA PUBLIC KEY");
    reveal_strlit("Blowfish");
    reveal_strlit("ChaCha20");
    reveal_strlit("DES");
    reveal_strlit("ECB");
    reveal_strlit("ECDSA");
    reveal_strlit("HMAC");
    reveal_strlit("PBKDF2");
    reveal_strlit("RC4");
    reveal_strlit("RSACryptoServiceProvider");
    reveal_strlit("SHA1");
    reveal_strlit("Salsa20");
    reveal_strlit("Serpent");
    reveal_strlit("TripleDES");
    reveal_strlit("Twofish");
    reveal_strlit("bcrypt");
    reveal_strlit("chacha20");
    reveal_strlit("curve25519");
    reveal_strlit("prime256v1");
    reveal_strlit("scrypt");
    reveal_strlit("secp256");
    reveal_strlit("ssh-rsa");
    assert(!rule_fires(0, d));
    assert(!rule_fires(1, d));
    assert(!rule_fires(2, d));
    assert(!rule_fires(3, d));
    assert(!rule_fires(4, d));
    assert(!rule_fires(5, d));
    assert(!rule_fires(6, d));
    assert(!rule_fires(7, d));
    assert(!rule_fires(8, d));
    assert(!rule_fires(9, d));
    assert(!rule_fires(10, d));
    assert(!rule_fires(11, d));
    assert(!rule_fires(12, d));
    assert(!rule_fires(13, d));
    assert(!rule_fires(14, d));
    assert(!rule_fires(15, d));
    assert(!rule_fires(16, d));
    assert(!rule_fires(17, d));
    assert(!rule_fires(18, d));
    assert(!rule_fires(19, d));
    assert(!rule_fires(20, d));
    assert forall|k: int| 0 <= k <= rule_count() implies #[trigger] findings_upto(d, k).len() == 0 by {
        lemma_findings_upto_empty(d, k);
    }
}

proof fn lemma_findings_upto_empty(d: Seq<u8>, n: int)
    requires
        forall|k: int| 0 <= k < n ==> !rule_fires(k, d),
    ensures
        findings_upto(d, n).len() == 0,
    decreases n,
{
    if n > 0 {
        lemma_findings_upto_empty(d, n - 1);
    }
}


proof fn lemma_aes_note_only(k: int)
    requires
        0 <= k < rule_count(),
        finding_note(rule_finding(k)) == "AES S-box constant"@,
    ensures
        k == 0,
{
    reveal_strlit("AES S-box constant");
    reveal_strlit("SHA-256 IV constants");
    reveal_strlit("MD5 initialization constants");
    reveal_strlit("SHA-1 related markers");
    reveal_strlit("ChaCha20 string reference");
    reveal_strlit("Salsa20 string reference");
    reveal_strlit("AES-ECB reference");
    reveal_strlit("RC4 reference");
    reveal_strlit("Blowfish");
    reveal_strlit("Twofish");
    reveal_strlit("Serpent");
    reveal_strlit("RSA markers");
    reveal_strlit("ECC markers");
    reveal_strlit("PBKDF2 reference");
    reveal_strlit("Argon2 reference");
    reveal_strlit("bcrypt reference");
    reveal_strlit("scrypt reference");
    reveal_strlit("HMAC reference");
    reveal_strlit("DES reference");
    reveal_strlit("3DES reference");
    reveal_strlit("DES S-box constants");
    if k == 1 {
        assert(finding_note(rule_finding(1)).len() != 18);
    }
    if k == 2 {
        assert(finding_note(rule_finding(2)).len() != 18);
    }
    if k == 3 {
        assert(finding_note(rule_finding(3)).len() != 18);
    }
    if k == 4 {
        assert(finding_note(rule_finding(4)).len() != 18);
    }
    if k == 5 {
        assert(finding_note(rule_finding(5)).len() != 18);
    }
    if k == 6 {
        assert(finding_note(rule_finding(6)).len() != 18);
    }
    if k == 7 {
        assert(finding_note(rule_finding(7)).len() != 18);
    }
    if k == 8 {
        assert(finding_note(rule_finding(8)).len() != 18);
    }
    if k == 9 {
        assert(finding_note(rule_finding(9)).len() != 18);
    }
    if k == 10 {
        assert(finding_note(rule_finding(10)).len() != 18);
    }
    if k == 11 {
        assert(finding_note(rule_finding(11)).len() != 18);
    }
    if k == 12 {
        assert(finding_note(rule_finding(12)).len() != 18);
    }
    if k == 13 {
        assert(finding_note(rule_finding(13)).len() != 18);
    }
    if k == 14 {
        assert(finding_note(rule_finding(14)).len() != 18);
    }
    if k == 15 {
        assert(finding_note(rule_finding(15)).len() != 18);
    }
    if k == 16 {
        assert(finding_note(rule_finding(16)).len() != 18);
    }
    if k == 17 {
        assert(finding_note(rule_finding(17)).len() != 18);
    }
    if k == 18 {
        assert(finding_note(rule_finding(18)).len() != 18);
    }
    if k == 19 {
        assert(finding_note(rule_finding(19)).len() != 18);
    }
    if k == 20 {
        assert(finding_note(rule_finding(20)).len() != 18);
    }
}

/// An AES finding noted `AES S-box constant` is reported exactly when the
/// data contains the first sixteen bytes of the AES S-box
/// (63 7c 77 7b f2 6b 6f c5 30 01 67 2b fe d7 ab 76).
pub proof fn law_aes_sbox_detected(d: Seq<u8>)
    ensures
        (exists|i: int|
            0 <= i < spec_detect_crypto(d).len() && #[trigger] spec_detect_crypto(d)[i].algorithm == "AES"@
                && finding_note(spec_detect_crypto(d)[i]) == "AES S-box constant"@) <==> contains_seq(
            d,
            seq![
                0x63u8, 0x7cu8, 0x77u8, 0x7bu8, 0xf2u8, 0x6bu8, 0x6fu8, 0xc5u8, 0x30u8, 0x01u8, 0x67u8,
                0x2bu8, 0xfeu8, 0xd7u8, 0xabu8, 0x76u8,
            ],
        ),
{
    lemma_findings_upto_members(d, rule_count());
    let r = spec_detect_crypto(d);
    if contains_seq(d, aes_sbox()) {
        assert(rule_fires(0, d));
        assert(r.contains(rule_finding(0)));
        let i = choose|i: int| 0 <= i < r.len() && r[i] == rule_finding(0);
        assert(r[i].algorithm == "AES"@ && finding_note(r[i]) == "AES S-box constant"@);
    }
    if exists|i: int|
        0 <= i < r.len() && #[trigger] r[i].algorithm == "AES"@ && finding_note(r[i]) == "AES S-box constant"@ {
        let i = choose|i: int|
            0 <= i < r.len() && #[trigger] r[i].algorithm == "AES"@ && finding_note(r[i]) == "AES S-box constant"@;
        let k = choose|k: int| 0 <= k < rule_count() && rule_fires(k, d) && r[i] == rule_finding(k);
        lemma_aes_note_only(k);
    }
}

} // verus!
