//! Standard base64 encoding.
use vstd::prelude::*;
use crate::hasher::{b64_char, spec_b64_char};
use crate::text::push_char;

verus! {

// ---------------------------------------------------------------------------
// Base64
// ---------------------------------------------------------------------------

/// The four characters encoding `n` (1 to 3) bytes `b0 b1 b2`, with `=`
/// padding for missing bytes.
pub open spec fn b64_quad(b0: u8, b1: u8, b2: u8, n: int) -> Seq<char> {
    seq![
        spec_b64_char((b0 / 4) as u32),
        spec_b64_char(((b0 % 4) * 16 + b1 / 16) as u32),
        if n >= 2 { spec_b64_char(((b1 % 16) * 4 + b2 / 64) as u32) } else { '=' },
        if n >= 3 { spec_b64_char((b2 % 64) as u32) } else { '=' },
    ]
}

/// Standard padded base64 of the bytes from index `i` on.
pub open spec fn base64_from(bs: Seq<u8>, i: int) -> Seq<char>
    decreases bs.len() + 3 - i,
{
    if i < 0 || i >= bs.len() {
        seq![]
    } else {
        b64_quad(
            bs[i],
            if i + 1 < bs.len() { bs[i + 1] } else { 0 },
            if i + 2 < bs.len() { bs[i + 2] } else { 0 },
            if bs.len() - i >= 3 { 3 } else { bs.len() - i },
        ) + base64_from(bs, i + 3)
    }
}

/// Standard base64 with `=` padding.
pub open spec fn spec_base64(bs: Seq<u8>) -> Seq<char> {
    base64_from(bs, 0)
}

fn push_quad(out: &mut String, b0: u8, b1: u8, b2: u8, k: usize)
    requires
        1 <= k <= 3,
    ensures
        final(out)@ == old(out)@ + b64_quad(b0, b1, b2, k as int),
{
    push_char(out, b64_char((b0 / 4) as u32));
    push_char(out, b64_char(((b0 % 4) * 16 + b1 / 16) as u32));
    if k >= 2 {
        push_char(out, b64_char(((b1 % 16) * 4 + b2 / 64) as u32));
    } else {
        push_char(out, '=');
    }
    if k >= 3 {
        push_char(out, b64_char((b2 % 64) as u32));
    } else {
        push_char(out, '=');
    }
    proof {
        assert(final(out)@ =~= old(out)@ + b64_quad(b0, b1, b2, k as int));
    }
}

/// Standard base64 (alphabet `A-Z a-z 0-9 + /`, `=` padding) of the bytes.
pub fn base64_encode(bytes: &[u8]) -> (r: String)
    ensures
        r@ == spec_base64(bytes@),
{
    let ghost bs = bytes@;
    let mut out = String::new();
    let mut i: usize = 0;
    while i < bytes.len()
        invariant
            bs == bytes@,
            i <= bytes@.len() + 2,
            i % 3 == 0,
            out@ + base64_from(bs, i as int) == spec_base64(bs),
        decreases bytes@.len() + 3 - i,
    {
        let n = bytes.len();
        let b0 = bytes[i];
        let b1 = if i + 1 < n { bytes[i + 1] } else { 0 };
        let b2 = if i + 2 < n { bytes[i + 2] } else { 0 };
        let k: usize = if n - i >= 3 { 3 } else { n - i };
        push_quad(&mut out, b0, b1, b2, k);
        proof {
            assert(base64_from(bs, i as int) == b64_quad(b0, b1, b2, k as int) + base64_from(bs, i + 3));
        }
        i += 3;
    }
    proof {
        assert(base64_from(bs, i as int) =~= seq![]);
        assert(out@ + seq![] =~= out@);
    }
    out
}

/// The encoding is four characters for every started group of three bytes.
pub proof fn law_base64_length(bs: Seq<u8>)
    ensures
        spec_base64(bs).len() == 4 * ((bs.len() + 2) / 3),
{
    lemma_base64_from_len(bs, 0);
}

proof fn lemma_base64_from_len(bs: Seq<u8>, i: int)
    requires
        0 <= i,
    ensures
        base64_from(bs, i).len() == if i >= bs.len() { 0 } else { 4 * ((bs.len() - i + 2) / 3) },
    decreases bs.len() + 3 - i,
{
    if i < bs.len() {
        lemma_base64_from_len(bs, i + 3);
    }
}

} // verus!
