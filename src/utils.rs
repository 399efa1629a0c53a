//! Byte helpers shared by the networking code.

use vstd::prelude::*;

verus! {

/// Length of the key used by [`encrypt`] and [`decrypt`].
pub const KEY_LEN: usize = 16;

/// The byte that XOR-masking puts at position `i`.
pub open spec fn masked_byte(data: Seq<u8>, key: Seq<u8>, i: int) -> u8 {
    data[i] ^ key[i % 16]
}

/// The whole of `data` masked with `key`, repeating the key every 16 bytes.
pub open spec fn xor_mask(data: Seq<u8>, key: Seq<u8>) -> Seq<u8> {
    Seq::new(data.len(), |i: int| masked_byte(data, key, i))
}

/// Masks `data` byte by byte with the repeating 16-byte `key`.
pub fn encrypt(data: &[u8], key: &[u8; 16]) -> (r: Vec<u8>)
    ensures
        r@ == xor_mask(data@, key@),
{
    let mut out: Vec<u8> = Vec::with_capacity(data.len());
    let mut i: usize = 0;
    while i < data.len()
        invariant
            i <= data@.len(),
            key@.len() == 16,
            out@ == xor_mask(data@.subrange(0, i as int), key@),
        decreases data@.len() - i,
    {
        out.push(data[i] ^ key[i % KEY_LEN]);
        i = i + 1;
        assert(out@ =~= xor_mask(data@.subrange(0, i as int), key@));
    }
    assert(data@.subrange(0, i as int) =~= data@);
    out
}

/// Undoes [`encrypt`]: masking is its own inverse.
pub fn decrypt(data: &[u8], key: &[u8; 16]) -> (r: Vec<u8>)
    ensures
        r@ == xor_mask(data@, key@),
{
    encrypt(data, key)
}

/// Masking twice with the same key gives the same bytes back, so
/// `decrypt(encrypt(d, k), k) == d`.
pub proof fn lemma_mask_involutive(data: Seq<u8>, key: Seq<u8>)
    requires
        key.len() == 16,
    ensures
        xor_mask(xor_mask(data, key), key) == data,
{
    let once = xor_mask(data, key);
    let twice = xor_mask(once, key);
    assert forall|i: int| 0 <= i < data.len() implies twice[i] == data[i] by {
        let d = data[i];
        let k = key[i % 16];
        assert((d ^ k) ^ k == d) by (bit_vector);
    }
    assert(twice =~= data);
}

} // verus!
