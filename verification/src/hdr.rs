//! The HDR cubemap payload: shared-exponent texel words serialized as
//! little-endian bytes, face after face, in texel order.
//!
//! Packing a linear RGB texel into its 32-bit shared-exponent word is
//! floating-point work and stays with the caller; this module lays the
//! packed words out exactly as the container's payload expects them.

use vstd::bytes::{lemma_auto_spec_u32_to_from_le_bytes, spec_u32_to_le_bytes, u32_to_le_bytes};
use vstd::prelude::*;

verus! {

/// A sequence of 32-bit words laid out as little-endian bytes, in order.
pub open spec fn words_le_bytes(ws: Seq<u32>) -> Seq<u8>
    decreases ws.len(),
{
    if ws.len() == 0 {
        Seq::empty()
    } else {
        spec_u32_to_le_bytes(ws[0]) + words_le_bytes(ws.skip(1))
    }
}

proof fn lemma_words_le_bytes_push(ws: Seq<u32>, w: u32)
    ensures
        words_le_bytes(ws.push(w)) == words_le_bytes(ws) + spec_u32_to_le_bytes(w),
    decreases ws.len(),
{
    lemma_auto_spec_u32_to_from_le_bytes();
    if ws.len() == 0 {
        assert(ws.push(w)[0] == w);
        assert(ws.push(w).skip(1) =~= Seq::<u32>::empty());
        assert(words_le_bytes(Seq::<u32>::empty()) == Seq::<u8>::empty());
        assert(words_le_bytes(ws.push(w)) == spec_u32_to_le_bytes(w) + words_le_bytes(
            Seq::<u32>::empty(),
        ));
        assert(words_le_bytes(ws.push(w)) =~= words_le_bytes(ws) + spec_u32_to_le_bytes(w));
    } else {
        assert(ws.push(w)[0] == ws[0]);
        assert(ws.push(w).skip(1) =~= ws.skip(1).push(w));
        lemma_words_le_bytes_push(ws.skip(1), w);
        assert(words_le_bytes(ws.push(w)) =~= words_le_bytes(ws) + spec_u32_to_le_bytes(w));
    }
}

proof fn lemma_words_le_bytes_len(ws: Seq<u32>)
    ensures
        words_le_bytes(ws).len() == 4 * ws.len(),
    decreases ws.len(),
{
    lemma_auto_spec_u32_to_from_le_bytes();
    if ws.len() > 0 {
        lemma_words_le_bytes_len(ws.skip(1));
    }
}

/// Serialize the packed shared-exponent texel words into the container
/// payload: each word as four little-endian bytes, in texel order.
pub fn hdr_payload(texels: &Vec<u32>) -> (out: Vec<u8>)
    ensures
        out@ == words_le_bytes(texels@),
        out@.len() == 4 * texels@.len(),
{
    let mut out: Vec<u8> = Vec::new();
    let mut i: usize = 0;
    proof {
        assert(texels@.take(0) =~= Seq::<u32>::empty());
    }
    while i < texels.len()
        invariant
            i <= texels@.len(),
            out@ == words_le_bytes(texels@.take(i as int)),
            out@.len() == 4 * i,
        decreases texels@.len() - i,
    {
        let mut word = u32_to_le_bytes(texels[i]);
        out.append(&mut word);
        proof {
            lemma_words_le_bytes_push(texels@.take(i as int), texels@[i as int]);
            assert(texels@.take(i + 1) =~= texels@.take(i as int).push(texels@[i as int]));
        }
        i = i + 1;
    }
    proof {
        assert(texels@.take(texels@.len() as int) =~= texels@);
    }
    out
}

} // verus!
