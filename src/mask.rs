use vstd::prelude::*;
use crate::wire::u32_be;

verus! {

/// The key byte applied to the payload byte at absolute offset `i`.
pub open spec fn key_byte(key: u32, i: int) -> u8 {
    u32_be(key)[i % 4]
}

/// `bytes` XORed with the rolling key, the first byte standing at absolute payload offset `offset`.
pub open spec fn mask_seq(bytes: Seq<u8>, key: u32, offset: int) -> Seq<u8> {
    Seq::new(bytes.len(), |i: int| bytes[i] ^ key_byte(key, offset + i))
}

/// What a reader of a frame's payload sees: unmasked bytes where the frame carries a key.
pub open spec fn unmask_opt(bytes: Seq<u8>, key: Option<u32>, offset: int) -> Seq<u8> {
    match key {
        Some(k) => mask_seq(bytes, k, offset),
        None => bytes,
    }
}

/// Masking is an involution: applying the same key at the same offsets twice restores the bytes.
pub proof fn lemma_mask_involution(bytes: Seq<u8>, key: u32, offset: int)
    ensures
        mask_seq(mask_seq(bytes, key, offset), key, offset) == bytes,
{
    let m = mask_seq(bytes, key, offset);
    assert forall|i: int| 0 <= i < bytes.len() implies #[trigger] mask_seq(m, key, offset)[i]
        == bytes[i] by {
        let b = bytes[i];
        let k = key_byte(key, offset + i);
        assert((b ^ k) ^ k == b) by (bit_vector);
    }
    assert(mask_seq(m, key, offset) =~= bytes);
}

/// Masking a payload in pieces, each at its absolute offset, is masking it whole.
pub proof fn lemma_mask_split(a: Seq<u8>, b: Seq<u8>, key: u32, offset: int)
    ensures
        mask_seq(a + b, key, offset) == mask_seq(a, key, offset) + mask_seq(b, key, offset
            + a.len()),
{
    assert(mask_seq(a + b, key, offset) =~= mask_seq(a, key, offset) + mask_seq(
        b,
        key,
        offset + a.len(),
    ));
}

/// A masked payload read in two pieces, each unmasked at its cumulative offset, gives back the
/// payload as it was before masking.
pub proof fn lemma_chunked_unmask(p: Seq<u8>, key: u32, i: int)
    requires
        0 <= i <= p.len(),
    ensures
        mask_seq(mask_seq(p, key, 0).take(i), key, 0) + mask_seq(mask_seq(p, key, 0).skip(i), key, i)
            == p,
{
    let a = p.take(i);
    let b = p.skip(i);
    assert(p =~= a + b);
    lemma_mask_split(a, b, key, 0);
    let ma = mask_seq(a, key, 0);
    let mb = mask_seq(b, key, i);
    assert((ma + mb).take(i) =~= ma);
    assert((ma + mb).skip(i) =~= mb);
    lemma_mask_involution(a, key, 0);
    lemma_mask_involution(b, key, i);
}

/// XORs `bytes` with the rolling key, starting at absolute payload offset `offset`.
pub fn mask(bytes: &[u8], key: u32, offset: u64) -> (r: Vec<u8>)
    ensures
        r@ == mask_seq(bytes@, key, offset as int),
{
    let key_bytes: [u8; 4] = [(key >> 24u32) as u8, (key >> 16u32) as u8, (key >> 8u32) as u8, key as u8];
    assert(key_bytes@ =~= u32_be(key));
    let mut out: Vec<u8> = Vec::new();
    let mut j: usize = (offset % 4) as usize;
    let mut i: usize = 0;
    while i < bytes.len()
        invariant
            i <= bytes@.len(),
            j == (offset + i) % 4,
            key_bytes@ == u32_be(key),
            out@ == mask_seq(bytes@.subrange(0, i as int), key, offset as int),
        decreases bytes@.len() - i,
    {
        out.push(bytes[i] ^ key_bytes[j]);
        assert(out@ =~= mask_seq(bytes@.subrange(0, i + 1), key, offset as int));
        i = i + 1;
        j = if j == 3 { 0 } else { j + 1 };
    }
    assert(bytes@.subrange(0, i as int) =~= bytes@);
    out
}

} // verus!
