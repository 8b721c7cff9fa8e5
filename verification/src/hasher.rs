//! File hashes (MD5, SHA-1, SHA-256, SHA3-256, BLAKE3), a small fuzzy hash
//! for similarity and the import hash.
use vstd::prelude::*;
use crate::lexical::{lex_sort, sort_texts, texts_view};
use crate::model::FileHashes;
use crate::rename::join_with;
use crate::text::{
    dec_of, hex_byte, hex_digit, hex_digit_char, lower_seq, opt_view, push_char, push_dec, push_str,
    utf8,
};

verus! {

// ---------------------------------------------------------------------------
// Digests
// ---------------------------------------------------------------------------

/// The MD5 digest of the bytes.
pub uninterp spec fn md5_digest(data: Seq<u8>) -> Seq<u8>;

/// The SHA-1 digest of the bytes.
pub uninterp spec fn sha1_digest(data: Seq<u8>) -> Seq<u8>;

/// The SHA-256 digest of the bytes.
pub uninterp spec fn sha256_digest(data: Seq<u8>) -> Seq<u8>;

/// The SHA3-256 digest of the bytes.
pub uninterp spec fn sha3_256_digest(data: Seq<u8>) -> Seq<u8>;

/// The BLAKE3 hash (32 bytes) of the bytes.
pub uninterp spec fn blake3_digest(data: Seq<u8>) -> Seq<u8>;

/// `md5::Md5::digest` (RustCrypto `Digest` trait). Trusted: the result is
/// the named MD5 digest of the data, 16 bytes long.
#[verifier::external_body]
fn md5(data: &[u8]) -> (r: Vec<u8>)
    ensures
        r@ == md5_digest(data@),
        r@.len() == 16,
{
    <md5::Md5 as md5::Digest>::digest(data).to_vec()
}

/// `sha1::Sha1::digest`. Trusted: the named SHA-1 digest, 20 bytes long.
#[verifier::external_body]
fn sha1(data: &[u8]) -> (r: Vec<u8>)
    ensures
        r@ == sha1_digest(data@),
        r@.len() == 20,
{
    <sha1::Sha1 as sha1::Digest>::digest(data).to_vec()
}

/// `sha2::Sha256::digest`. Trusted: the named SHA-256 digest, 32 bytes long.
#[verifier::external_body]
pub(crate) fn sha256(data: &[u8]) -> (r: Vec<u8>)
    ensures
        r@ == sha256_digest(data@),
        r@.len() == 32,
{
    <sha2::Sha256 as sha2::Digest>::digest(data).to_vec()
}

/// `sha3::Sha3_256::digest`. Trusted: the named SHA3-256 digest, 32 bytes long.
#[verifier::external_body]
fn sha3_256(data: &[u8]) -> (r: Vec<u8>)
    ensures
        r@ == sha3_256_digest(data@),
        r@.len() == 32,
{
    <sha3::Sha3_256 as sha3::Digest>::digest(data).to_vec()
}

/// `blake3::hash` and `Hash::as_bytes`. Trusted: the named BLAKE3 hash,
/// 32 bytes long.
#[verifier::external_body]
fn blake3(data: &[u8]) -> (r: Vec<u8>)
    ensures
        r@ == blake3_digest(data@),
        r@.len() == 32,
{
    blake3::hash(data).as_bytes().to_vec()
}

// ---------------------------------------------------------------------------
// Hexadecimal
// ---------------------------------------------------------------------------

/// Lowercase hexadecimal of the bytes, two digits per byte (`hex::encode`).
pub open spec fn hex_encode(bs: Seq<u8>) -> Seq<char>
    decreases bs.len(),
{
    if bs.len() == 0 {
        seq![]
    } else {
        hex_encode(bs.drop_last()) + hex_byte(bs.last())
    }
}

/// The two digits of a byte.
pub proof fn lemma_hex_byte(b: u8)
    ensures
        hex_byte(b) == seq![hex_digit(b as int / 16), hex_digit(b as int % 16)],
{
    reveal_with_fuel(crate::text::hex_fixed, 3);
    assert(hex_byte(b) =~= seq![hex_digit(b as int / 16), hex_digit(b as int % 16)]);
}

pub proof fn lemma_hex_encode_len(bs: Seq<u8>)
    ensures
        hex_encode(bs).len() == 2 * bs.len(),
    decreases bs.len(),
{
    if bs.len() > 0 {
        lemma_hex_encode_len(bs.drop_last());
        lemma_hex_byte(bs.last());
    }
}

/// The value of a hexadecimal digit of either case.
pub open spec fn hex_value(c: char) -> int {
    if '0' <= c && c <= '9' {
        c as int - 48
    } else if 'a' <= c && c <= 'f' {
        c as int - 87
    } else if 'A' <= c && c <= 'F' {
        c as int - 55
    } else {
        0
    }
}

/// The bytes that pairs of hexadecimal digits spell (`hex::decode`); `None`
/// for an odd number of characters or one that is no digit.
pub open spec fn hex_decode(s: Seq<char>) -> Option<Seq<u8>>
    decreases s.len(),
{
    if s.len() == 0 {
        Some(seq![])
    } else if s.len() == 1 {
        None
    } else if !crate::text::is_hex(s[s.len() - 2]) || !crate::text::is_hex(s[s.len() - 1]) {
        None
    } else {
        match hex_decode(s.subrange(0, s.len() - 2)) {
            None => None,
            Some(b) => Some(b.push((16 * hex_value(s[s.len() - 2]) + hex_value(s[s.len() - 1])) as u8)),
        }
    }
}

proof fn lemma_hex_digit_value(d: int)
    requires
        0 <= d < 16,
    ensures
        crate::text::is_hex(hex_digit(d)),
        hex_value(hex_digit(d)) == d,
{
}

/// Decoding the hexadecimal text of bytes gives the bytes back.
pub proof fn law_hex_roundtrip(bs: Seq<u8>)
    ensures
        hex_decode(hex_encode(bs)) == Some(bs),
    decreases bs.len(),
{
    if bs.len() > 0 {
        let b = bs.last();
        law_hex_roundtrip(bs.drop_last());
        lemma_hex_byte(b);
        lemma_hex_encode_len(bs.drop_last());
        lemma_hex_digit_value(b as int / 16);
        lemma_hex_digit_value(b as int % 16);
        let e = hex_encode(bs);
        assert(e.subrange(0, e.len() - 2) =~= hex_encode(bs.drop_last()));
        assert(e[e.len() - 2] == hex_digit(b as int / 16));
        assert(e[e.len() - 1] == hex_digit(b as int % 16));
        assert((16 * (b as int / 16) + b as int % 16) as u8 == b);
        assert(bs.drop_last().push(b) =~= bs);
    } else {
        assert(hex_encode(bs) =~= Seq::<char>::empty());
        assert(bs =~= Seq::<u8>::empty());
    }
}

proof fn lemma_hex_decode_none_extends(s: Seq<char>, k: int)
    requires
        0 <= k,
        2 * k <= s.len(),
        s.len() % 2 == 0,
        hex_decode(s.subrange(0, 2 * k)) is None,
    ensures
        hex_decode(s) is None,
    decreases s.len() - 2 * k,
{
    if 2 * k < s.len() {
        let t = s.subrange(0, 2 * k + 2);
        assert(t.subrange(0, t.len() - 2) =~= s.subrange(0, 2 * k));
        lemma_hex_decode_none_extends(s, k + 1);
    } else {
        assert(s.subrange(0, 2 * k) =~= s);
    }
}

fn hex_value_exec(c: char) -> (r: u8)
    requires
        crate::text::is_hex(c),
    ensures
        r as int == hex_value(c),
        r < 16,
{
    if '0' <= c && c <= '9' {
        (c as u8) - 48
    } else if 'a' <= c && c <= 'f' {
        (c as u8) - 87
    } else {
        (c as u8) - 55
    }
}

/// The bytes that pairs of hexadecimal digits spell; `None` for an odd
/// number of characters or one that is no digit.
pub fn hex_decode_chars(s: &[char]) -> (r: Option<Vec<u8>>)
    ensures
        match r {
            Some(b) => hex_decode(s@) == Some(b@),
            None => hex_decode(s@) is None,
        },
{
    let n = s.len();
    if n % 2 == 1 {
        proof {
            lemma_hex_decode_odd(s@);
        }
        return None;
    }
    let mut out: Vec<u8> = Vec::new();
    let mut k: usize = 0;
    while k < n / 2
        invariant
            n == s@.len(),
            n % 2 == 0,
            k <= n / 2,
            hex_decode(s@.subrange(0, 2 * k as int)) == Some(out@),
        decreases n / 2 - k,
    {
        let a = s[2 * k];
        let b = s[2 * k + 1];
        let ghost t = s@.subrange(0, 2 * k + 2);
        proof {
            assert(t.subrange(0, t.len() - 2) =~= s@.subrange(0, 2 * k as int));
            assert(t[t.len() - 2] == a && t[t.len() - 1] == b);
        }
        if !crate::text::is_hex_exec(a) || !crate::text::is_hex_exec(b) {
            proof {
                lemma_hex_decode_none_extends(s@, k as int + 1);
            }
            return None;
        }
        let hi = hex_value_exec(a);
        let lo = hex_value_exec(b);
        out.push(16 * hi + lo);
        k += 1;
    }
    proof {
        assert(s@.subrange(0, n as int) =~= s@);
    }
    Some(out)
}

proof fn lemma_hex_decode_odd(s: Seq<char>)
    requires
        s.len() % 2 == 1,
    ensures
        hex_decode(s) is None,
    decreases s.len(),
{
    if s.len() > 1 {
        lemma_hex_decode_odd(s.subrange(0, s.len() - 2));
    }
}

/// Lowercase hexadecimal of the bytes, two digits per byte.
pub fn hex_encode_bytes(bs: &[u8]) -> (r: String)
    ensures
        r@ == hex_encode(bs@),
{
    let mut out = String::new();
    let mut i: usize = 0;
    while i < bs.len()
        invariant
            i <= bs@.len(),
            out@ == hex_encode(bs@.subrange(0, i as int)),
        decreases bs@.len() - i,
    {
        let b = bs[i];
        push_char(&mut out, hex_digit_char((b / 16) as u64));
        push_char(&mut out, hex_digit_char((b % 16) as u64));
        proof {
            let pre = bs@.subrange(0, i + 1);
            lemma_hex_byte(b);
            assert(pre.drop_last() =~= bs@.subrange(0, i as int));
            assert(out@ =~= hex_encode(pre));
        }
        i += 1;
    }
    proof {
        assert(bs@.subrange(0, bs@.len() as int) =~= bs@);
    }
    out
}

// ---------------------------------------------------------------------------
// Fuzzy hash
// ---------------------------------------------------------------------------

/// The character for the low six bits of `v` in the base64 alphabet
/// `A-Z a-z 0-9 + /`.
pub open spec fn spec_b64_char(v: u32) -> char {
    let d = v % 64;
    if d < 26 {
        (65 + d) as char
    } else if d < 52 {
        (97 + d - 26) as char
    } else if d < 62 {
        (48 + d - 52) as char
    } else if d == 62 {
        '+'
    } else {
        '/'
    }
}

/// The base64-alphabet character for `v % 64`.
pub fn b64_char(v: u32) -> (c: char)
    ensures
        c == spec_b64_char(v),
{
    let d = v % 64;
    if d < 26 {
        ((65 + d) as u8) as char
    } else if d < 52 {
        ((97 + d - 26) as u8) as char
    } else if d < 62 {
        ((48 + d - 52) as u8) as char
    } else if d == 62 {
        '+'
    } else {
        '/'
    }
}

/// The integer part of the binary logarithm of `n >= 1`.
pub open spec fn floor_log2(n: nat) -> nat
    decreases n,
{
    if n <= 1 {
        0
    } else {
        1 + floor_log2(n / 2)
    }
}

/// The block size of the fuzzy hash: the binary logarithm of the length
/// (at least 3), and never less than 3.
pub open spec fn block_size(len: nat) -> nat {
    let l = floor_log2(if len < 3 { 3 } else { len });
    if l < 3 {
        3
    } else {
        l
    }
}

/// The two rolling hashes, the two digests so far, and whether the digest
/// is full, after the first `n` bytes.
pub open spec fn fuzzy_state(d: Seq<u8>, n: int, bs: int) -> (u32, u32, Seq<char>, Seq<char>, bool)
    decreases n,
{
    if n <= 0 {
        (0, 0, seq![], seq![], false)
    } else {
        let p = fuzzy_state(d, n - 1, bs);
        if p.4 {
            p
        } else {
            let i = n - 1;
            let b = d[i] as u32;
            let h1 = p.0.wrapping_mul(16777619) ^ b;
            let h2 = p.1.wrapping_mul(2166136261) ^ b.wrapping_add(i as u32);
            if i % bs == bs - 1 {
                let l = p.2.push(spec_b64_char(h1));
                (h1, h2, l, p.3.push(spec_b64_char(h2)), l.len() >= 32)
            } else {
                (h1, h2, p.2, p.3, false)
            }
        }
    }
}

/// The two digests of the fuzzy hash at block size `bs`; when no block
/// completed, the last value of each rolling hash.
pub open spec fn fuzzy_parts(d: Seq<u8>, bs: int) -> (Seq<char>, Seq<char>) {
    let s = fuzzy_state(d, d.len() as int, bs);
    if s.2.len() == 0 {
        (seq![spec_b64_char(s.0)], seq![spec_b64_char(s.1)])
    } else {
        (s.2, s.3)
    }
}

/// The fuzzy hash `block:left:right` of the data; `3::` for no data.
pub open spec fn spec_fuzzy_hash(d: Seq<u8>) -> Seq<char> {
    if d.len() == 0 {
        "3::"@
    } else {
        let bs = block_size(d.len());
        let p = fuzzy_parts(d, bs as int);
        dec_of(bs) + ":"@ + p.0 + ":"@ + p.1
    }
}

proof fn lemma_fuzzy_done(d: Seq<u8>, i: int, n: int, bs: int)
    requires
        0 <= i <= n,
        fuzzy_state(d, i, bs).4,
    ensures
        fuzzy_state(d, n, bs) == fuzzy_state(d, i, bs),
    decreases n - i,
{
    if n > i {
        lemma_fuzzy_done(d, i, n - 1, bs);
    }
}

/// A character of the base64 alphabet `A-Z a-z 0-9 + /`.
pub open spec fn is_b64_char(c: char) -> bool {
    ('A' <= c && c <= 'Z') || ('a' <= c && c <= 'z') || ('0' <= c && c <= '9') || c == '+' || c == '/'
}

proof fn lemma_b64_char_in_alphabet(v: u32)
    ensures
        is_b64_char(spec_b64_char(v)),
{
    let d = v % 64;
    if d < 26 {
        assert(('A' as u32) == 65);
        assert(((65 + d) as char) as u32 == 65 + d);
    } else if d < 52 {
        assert(((97 + d - 26) as char) as u32 == 97 + d - 26);
    } else if d < 62 {
        assert(((48 + d - 52) as char) as u32 == 48 + d - 52);
    }
}

proof fn lemma_fuzzy_state_shape(d: Seq<u8>, n: int, bs: int)
    ensures
        ({
            let s = fuzzy_state(d, n, bs);
            &&& s.2.len() == s.3.len()
            &&& s.2.len() <= 32
            &&& (s.4 <==> s.2.len() == 32)
            &&& forall|i: int| 0 <= i < s.2.len() ==> is_b64_char(#[trigger] s.2[i])
            &&& forall|i: int| 0 <= i < s.3.len() ==> is_b64_char(#[trigger] s.3[i])
        }),
    decreases n,
{
    if n > 0 {
        lemma_fuzzy_state_shape(d, n - 1, bs);
        let p = fuzzy_state(d, n - 1, bs);
        if !p.4 {
            let i = n - 1;
            let b = d[i] as u32;
            let h1 = p.0.wrapping_mul(16777619) ^ b;
            let h2 = p.1.wrapping_mul(2166136261) ^ b.wrapping_add(i as u32);
            lemma_b64_char_in_alphabet(h1);
            lemma_b64_char_in_alphabet(h2);
            if i % bs == bs - 1 {
                let l = p.2.push(spec_b64_char(h1));
                let r = p.3.push(spec_b64_char(h2));
                assert forall|k: int| 0 <= k < l.len() implies is_b64_char(#[trigger] l[k]) by {
                    if k < l.len() - 1 {
                        assert(l[k] == p.2[k]);
                    }
                }
                assert forall|k: int| 0 <= k < r.len() implies is_b64_char(#[trigger] r[k]) by {
                    if k < r.len() - 1 {
                        assert(r[k] == p.3[k]);
                    }
                }
            }
        }
    }
}

/// The fuzzy hash of non-empty data is its block size (at least 3), a
/// colon, and two digests of equal length, between 1 and 32 characters
/// of the base64 alphabet, separated by a colon.
pub proof fn law_fuzzy_hash_shape(d: Seq<u8>)
    requires
        d.len() > 0,
    ensures
        ({
            let bs = block_size(d.len());
            let p = fuzzy_parts(d, bs as int);
            &&& bs >= 3
            &&& spec_fuzzy_hash(d) == dec_of(bs) + ":"@ + p.0 + ":"@ + p.1
            &&& p.0.len() == p.1.len()
            &&& 1 <= p.0.len() <= 32
            &&& forall|i: int| 0 <= i < p.0.len() ==> is_b64_char(#[trigger] p.0[i])
            &&& forall|i: int| 0 <= i < p.1.len() ==> is_b64_char(#[trigger] p.1[i])
        }),
{
    let bs = block_size(d.len());
    lemma_fuzzy_state_shape(d, d.len() as int, bs as int);
    let s = fuzzy_state(d, d.len() as int, bs as int);
    if s.2.len() == 0 {
        lemma_b64_char_in_alphabet(s.0);
        lemma_b64_char_in_alphabet(s.1);
    }
}

fn floor_log2_exec(n: usize) -> (r: usize)
    requires
        n >= 1,
    ensures
        r as nat == floor_log2(n as nat),
{
    let mut m = n;
    let mut k: usize = 0;
    while m > 1
        invariant
            m >= 1,
            k + m <= n,
            floor_log2(n as nat) == k + floor_log2(m as nat),
        decreases m,
    {
        m = m / 2;
        k += 1;
    }
    k
}

fn fuzzy_digests(data: &[u8], bs: usize) -> (r: (Vec<char>, Vec<char>))
    requires
        bs >= 3,
    ensures
        (r.0@, r.1@) == fuzzy_parts(data@, bs as int),
{
    let n = data.len();
    let ghost d = data@;
    let mut left: Vec<char> = Vec::new();
    let mut right: Vec<char> = Vec::new();
    let mut h1: u32 = 0;
    let mut h2: u32 = 0;
    let mut done = false;
    let mut i: usize = 0;
    while i < n && !done
        invariant
            d == data@,
            n == d.len(),
            bs >= 3,
            i <= n,
            (h1, h2, left@, right@, done) == fuzzy_state(d, i as int, bs as int),
        decreases n - i,
    {
        let b = data[i] as u32;
        h1 = h1.wrapping_mul(16777619) ^ b;
        h2 = h2.wrapping_mul(2166136261) ^ b.wrapping_add(#[verifier::truncate] (i as u32));
        if i % bs == bs - 1 {
            left.push(b64_char(h1));
            right.push(b64_char(h2));
            if left.len() >= 32 {
                done = true;
            }
        }
        i += 1;
    }
    proof {
        if done {
            lemma_fuzzy_done(d, i as int, n as int, bs as int);
        } else {
            assert(i == n);
        }
    }
    proof {
        lemma_fuzzy_state_shape(d, n as int, bs as int);
    }
    if left.len() == 0 {
        left.push(b64_char(h1));
        right.push(b64_char(h2));
        proof {
            assert(left@ =~= seq![spec_b64_char(h1)]);
            assert(right@ =~= seq![spec_b64_char(h2)]);
        }
    }
    (left, right)
}

/// A similarity digest inspired by ssdeep: two rolling hashes over the
/// bytes, one base64 character of each emitted per block (the block size is
/// the binary logarithm of the length, at least 3), up to 32 characters;
/// `block:left:right`.
pub fn fuzzy_hash(data: &[u8]) -> (r: String)
    ensures
        r@ == spec_fuzzy_hash(data@),
{
    if data.len() == 0 {
        return owned3();
    }
    let n = data.len();
    let m = if n < 3 { 3 } else { n };
    let l = floor_log2_exec(m);
    let bs: usize = if l < 3 { 3 } else { l };
    let (left, right) = fuzzy_digests(data, bs);
    let mut out = String::new();
    push_dec(&mut out, bs as u64);
    push_str(&mut out, ":");
    let ls = crate::text::string_of(left.as_slice());
    crate::text::push_string(&mut out, &ls);
    push_str(&mut out, ":");
    let rs = crate::text::string_of(right.as_slice());
    crate::text::push_string(&mut out, &rs);
    proof {
        assert(bs as nat == block_size(n as nat));
        assert(out@ =~= spec_fuzzy_hash(data@));
    }
    out
}

fn owned3() -> (r: String)
    ensures
        r@ == "3::"@,
{
    crate::text::owned("3::")
}

// ---------------------------------------------------------------------------
// All hashes
// ---------------------------------------------------------------------------

/// The hashes of a file: hexadecimal MD5, SHA-1, SHA-256, SHA3-256 and
/// BLAKE3 digests and the fuzzy hash; no import hash or TLSH.
pub fn hash_bytes(data: &[u8]) -> (h: FileHashes)
    ensures
        h.md5@ == hex_encode(md5_digest(data@)),
        h.sha1@ == hex_encode(sha1_digest(data@)),
        h.sha256@ == hex_encode(sha256_digest(data@)),
        h.sha3_256@ == hex_encode(sha3_256_digest(data@)),
        h.blake3@ == hex_encode(blake3_digest(data@)),
        h.imphash is None,
        opt_view(h.ssdeep) == Some(spec_fuzzy_hash(data@)),
        h.tlsh is None,
        h.md5@.len() == 32,
        h.sha1@.len() == 40,
        h.sha256@.len() == 64,
        h.sha3_256@.len() == 64,
        h.blake3@.len() == 64,
{
    let m = md5(data);
    let s1 = sha1(data);
    let s2 = sha256(data);
    let s3 = sha3_256(data);
    let b3 = blake3(data);
    proof {
        lemma_hex_encode_len(m@);
        lemma_hex_encode_len(s1@);
        lemma_hex_encode_len(s2@);
        lemma_hex_encode_len(s3@);
        lemma_hex_encode_len(b3@);
    }
    FileHashes {
        md5: hex_encode_bytes(m.as_slice()),
        sha1: hex_encode_bytes(s1.as_slice()),
        sha256: hex_encode_bytes(s2.as_slice()),
        sha3_256: hex_encode_bytes(s3.as_slice()),
        blake3: hex_encode_bytes(b3.as_slice()),
        imphash: None,
        ssdeep: Some(fuzzy_hash(data)),
        tlsh: None,
    }
}

// ---------------------------------------------------------------------------
// Import hash
// ---------------------------------------------------------------------------

/// `s` with every non-overlapping occurrence of `pat` (left to right)
/// removed (`str::replace(pat, "")`).
pub open spec fn remove_all(s: Seq<char>, pat: Seq<char>) -> Seq<char>
    decreases s.len(),
{
    if pat.len() == 0 {
        s
    } else {
        match crate::text::find_seq(s, pat) {
            Some(i) => if 0 <= i && i + pat.len() <= s.len() {
                s.subrange(0, i) + remove_all(s.subrange(i + pat.len(), s.len() as int), pat)
            } else {
                s
            },
            None => s,
        }
    }
}

/// The import-hash text of one import: the lowercased module without
/// `.dll`, a dot and the lowercased symbol.
pub open spec fn imphash_part(m: Seq<char>, s: Seq<char>) -> Seq<char> {
    remove_all(lower_seq(m), ".dll"@) + "."@ + lower_seq(s)
}

pub open spec fn import_pairs_view(v: Seq<(String, String)>) -> Seq<(Seq<char>, Seq<char>)> {
    v.map_values(|p: (String, String)| (p.0@, p.1@))
}

/// The import hash: MD5 (lowercase hexadecimal) of the sorted import texts
/// joined with commas; none without imports.
pub open spec fn spec_imphash(imps: Seq<(Seq<char>, Seq<char>)>) -> Option<Seq<char>> {
    if imps.len() == 0 {
        None
    } else {
        let parts = imps.map_values(|p: (Seq<char>, Seq<char>)| imphash_part(p.0, p.1));
        Some(hex_encode(md5_digest(utf8(join_with(","@, lex_sort(parts))))))
    }
}

/// The import hash depends only on which imports there are, not on their
/// order: two lists holding the same (module, symbol) pairs, each as many
/// times, hash alike.
pub proof fn law_imphash_order_free(a: Seq<(Seq<char>, Seq<char>)>, b: Seq<(Seq<char>, Seq<char>)>)
    requires
        a.to_multiset() == b.to_multiset(),
    ensures
        spec_imphash(a) == spec_imphash(b),
{
    broadcast use vstd::seq_lib::group_to_multiset_ensures;

    a.to_multiset_ensures();
    b.to_multiset_ensures();
    assert(a.len() == b.len());
    if a.len() > 0 {
        let f = |p: (Seq<char>, Seq<char>)| imphash_part(p.0, p.1);
        crate::lexical::lemma_map_preserves_permutation(a, b, f);
        let pa = a.map_values(f);
        let pb = b.map_values(f);
        crate::lexical::law_lex_sort(pa);
        crate::lexical::law_lex_sort(pb);
        crate::lexical::lemma_lex_sorted_unique(lex_sort(pa), lex_sort(pb));
    }
}

/// The import hash hashes the import texts in sorted order: it is the MD5
/// of some sorted arrangement of the texts, joined with commas.
pub proof fn law_imphash_sorted(imps: Seq<(Seq<char>, Seq<char>)>)
    requires
        imps.len() > 0,
    ensures
        exists|s: Seq<Seq<char>>|
            crate::lexical::lex_sorted(s) && s.to_multiset() == imps.map_values(
                |p: (Seq<char>, Seq<char>)| imphash_part(p.0, p.1),
            ).to_multiset() && spec_imphash(imps) == Some(hex_encode(md5_digest(utf8(join_with(","@, s))))),
{
    let parts = imps.map_values(|p: (Seq<char>, Seq<char>)| imphash_part(p.0, p.1));
    crate::lexical::law_lex_sort(parts);
    let s = lex_sort(parts);
    assert(crate::lexical::lex_sorted(s) && s.to_multiset() == parts.to_multiset()
        && spec_imphash(imps) == Some(hex_encode(md5_digest(utf8(join_with(","@, s))))));
}

fn remove_all_exec(s: &[char], pat: &str) -> (r: Vec<char>)
    ensures
        r@ == remove_all(s@, pat@),
    decreases s@.len(),
{
    let p = crate::text::str_chars(pat);
    if p.len() == 0 {
        return crate::text::slice_chars(s, 0, s.len());
    }
    let n = s.len();
    match crate::text::find_chars(s, p.as_slice()) {
        Some(i) => {
            proof {
                crate::text::lemma_find_from_bounds(s@, p@, 0);
                assert(i + p@.len() <= s@.len());
                assert(n == s@.len());
            }
            let mut head = crate::text::slice_chars(s, 0, i);
            let rest = crate::text::slice_chars(s, i + p.len(), s.len());
            let tail = remove_all_exec(rest.as_slice(), pat);
            head.extend_from_slice(tail.as_slice());
            head
        },
        None => crate::text::slice_chars(s, 0, s.len()),
    }
}

/// The import hash of (module, symbol) pairs: MD5 of the sorted
/// `module.symbol` texts (lowercased, `.dll` removed from the module)
/// joined with commas; `None` without imports.
pub fn imphash_from_imports(imports: &[(String, String)]) -> (r: Option<String>)
    ensures
        opt_view(r) == spec_imphash(import_pairs_view(imports@)),
{
    if imports.len() == 0 {
        return None;
    }
    let ghost iv = import_pairs_view(imports@);
    let ghost parts = iv.map_values(|p: (Seq<char>, Seq<char>)| imphash_part(p.0, p.1));
    let mut items: Vec<Vec<char>> = Vec::new();
    let mut i: usize = 0;
    while i < imports.len()
        invariant
            i <= imports@.len(),
            iv == import_pairs_view(imports@),
            parts == iv.map_values(|p: (Seq<char>, Seq<char>)| imphash_part(p.0, p.1)),
            texts_view(items@) == parts.subrange(0, i as int),
        decreases imports@.len() - i,
    {
        let mc = crate::text::str_chars(imports[i].0.as_str());
        let ml = crate::text::lower_chars(mc.as_slice());
        let mut part = remove_all_exec(ml.as_slice(), ".dll");
        let dot = crate::text::str_chars(".");
        part.extend_from_slice(dot.as_slice());
        let sc = crate::text::str_chars(imports[i].1.as_str());
        let sl = crate::text::lower_chars(sc.as_slice());
        part.extend_from_slice(sl.as_slice());
        let ghost pv = part@;
        let ghost before = texts_view(items@);
        items.push(part);
        proof {
            assert(pv == imphash_part(imports@[i as int].0@, imports@[i as int].1@));
            assert(iv[i as int] == (imports@[i as int].0@, imports@[i as int].1@));
            assert(parts[i as int] == pv);
            assert(texts_view(items@) =~= before.push(pv));
            assert(texts_view(items@) =~= parts.subrange(0, i + 1));
        }
        i += 1;
    }
    proof {
        assert(parts.subrange(0, imports@.len() as int) =~= parts);
    }
    let sorted = sort_texts(items);
    let mut joined = String::new();
    let mut k: usize = 0;
    let ghost sv = texts_view(sorted@);
    while k < sorted.len()
        invariant
            k <= sorted@.len(),
            sv == texts_view(sorted@),
            joined@ == join_with(","@, sv.subrange(0, k as int)),
        decreases sorted@.len() - k,
    {
        if k > 0 {
            push_str(&mut joined, ",");
        }
        crate::text::push_chars(&mut joined, sorted[k].as_slice());
        proof {
            let pre = sv.subrange(0, k + 1);
            assert(pre.drop_last() =~= sv.subrange(0, k as int));
            assert(joined@ =~= join_with(","@, pre));
        }
        k += 1;
    }
    proof {
        assert(sv.subrange(0, sorted@.len() as int) =~= sv);
    }
    let digest = md5(joined.as_str().as_bytes());
    Some(hex_encode_bytes(digest.as_slice()))
}

} // verus!
