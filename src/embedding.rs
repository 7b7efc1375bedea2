//! Embedding vectors and their byte-blob encoding.
//!
//! An embedding element is a 32-bit float. The library handles each element as
//! its IEEE-754 bit pattern (`f32::to_bits`), so the encoding below is exact and
//! independent of float arithmetic. A blob holds four little-endian bytes per
//! element and no length prefix.
use vstd::prelude::*;

verus! {

/// Byte `k` (0 = least significant) of the word `x`.
pub open spec fn byte_of(x: u32, k: int) -> u8 {
    if k == 0 {
        (x & 0xff) as u8
    } else if k == 1 {
        ((x >> 8u32) & 0xff) as u8
    } else if k == 2 {
        ((x >> 16u32) & 0xff) as u8
    } else {
        ((x >> 24u32) & 0xff) as u8
    }
}

/// The little-endian word made of bytes `4 * i .. 4 * i + 4` of `b`.
pub open spec fn word_at(b: Seq<u8>, i: int) -> u32 {
    (b[4 * i] as u32) | ((b[4 * i + 1] as u32) << 8u32) | ((b[4 * i + 2] as u32) << 16u32) | ((
    b[4 * i + 3] as u32) << 24u32)
}

/// The blob of an embedding: four little-endian bytes per element, in order.
pub open spec fn encode(e: Seq<u32>) -> Seq<u8> {
    Seq::new(4 * e.len(), |j: int| byte_of(e[j / 4], j % 4))
}

/// The embedding read back from a blob: one element per whole group of four
/// bytes; trailing bytes that do not fill a group are ignored.
pub open spec fn decode(b: Seq<u8>) -> Seq<u32> {
    Seq::new(b.len() / 4, |i: int| word_at(b, i))
}

proof fn lemma_word_bytes(x: u32)
    ensures
        ((byte_of(x, 0) as u32) | ((byte_of(x, 1) as u32) << 8u32) | ((byte_of(x, 2) as u32)
            << 16u32) | ((byte_of(x, 3) as u32) << 24u32)) == x,
{
    let b0 = (x & 0xff) as u8;
    let b1 = ((x >> 8u32) & 0xff) as u8;
    let b2 = ((x >> 16u32) & 0xff) as u8;
    let b3 = ((x >> 24u32) & 0xff) as u8;
    assert(((b0 as u32) | ((b1 as u32) << 8u32) | ((b2 as u32) << 16u32) | ((b3 as u32)
        << 24u32)) == x) by (bit_vector)
        requires
            b0 == (x & 0xff) as u8,
            b1 == ((x >> 8u32) & 0xff) as u8,
            b2 == ((x >> 16u32) & 0xff) as u8,
            b3 == ((x >> 24u32) & 0xff) as u8,
    ;
}

/// Decoding the encoding of an embedding gives back the same elements.
pub proof fn lemma_round_trip(e: Seq<u32>)
    ensures
        decode(encode(e)) == e,
{
    let b = encode(e);
    assert(b.len() / 4 == e.len()) by (nonlinear_arith)
        requires
            b.len() == 4 * e.len(),
    ;
    assert forall|i: int| 0 <= i < e.len() implies #[trigger] word_at(b, i) == e[i] by {
        assert(0 <= 4 * i && 4 * i + 3 < b.len()) by (nonlinear_arith)
            requires
                0 <= i < e.len(),
                b.len() == 4 * e.len(),
        ;
        assert((4 * i) / 4 == i && (4 * i) % 4 == 0) by (nonlinear_arith);
        assert((4 * i + 1) / 4 == i && (4 * i + 1) % 4 == 1) by (nonlinear_arith);
        assert((4 * i + 2) / 4 == i && (4 * i + 2) % 4 == 2) by (nonlinear_arith);
        assert((4 * i + 3) / 4 == i && (4 * i + 3) % 4 == 3) by (nonlinear_arith);
        lemma_word_bytes(e[i]);
    }
    assert(decode(b) =~= e);
}

/// Encodes an embedding (elements given as `f32` bit patterns) as a blob.
/// Every embedding has an encoding, so the result is always `Some`.
pub fn embedding_to_blob(embedding: &[u32]) -> (r: Option<Vec<u8>>)
    ensures
        r matches Some(bytes) && bytes@ == encode(embedding@),
{
    let n = embedding.len();
    let mut bytes: Vec<u8> = Vec::new();
    let mut i: usize = 0;
    while i < n
        invariant
            n == embedding@.len(),
            i <= n,
            bytes@ == encode(embedding@.subrange(0, i as int)),
        decreases n - i,
    {
        let x = embedding[i];
        let ghost prev = bytes@;
        bytes.push((x & 0xff) as u8);
        bytes.push(((x >> 8u32) & 0xff) as u8);
        bytes.push(((x >> 16u32) & 0xff) as u8);
        bytes.push(((x >> 24u32) & 0xff) as u8);
        proof {
            let e = embedding@.subrange(0, i + 1);
            assert forall|j: int| 0 <= j < 4 * (i + 1) implies #[trigger] bytes@[j] == byte_of(
                e[j / 4],
                j % 4,
            ) by {
                if j < 4 * i {
                    assert(j / 4 < i) by (nonlinear_arith)
                        requires
                            0 <= j < 4 * i,
                    ;
                    assert(prev[j] == byte_of(embedding@.subrange(0, i as int)[j / 4], j % 4));
                } else {
                    assert(j / 4 == i) by (nonlinear_arith)
                        requires
                            4 * i <= j < 4 * i + 4,
                    ;
                }
            }
            assert(bytes@ =~= encode(e));
        }
        i = i + 1;
    }
    assert(embedding@.subrange(0, n as int) =~= embedding@);
    Some(bytes)
}

/// Decodes a blob into an embedding (elements as `f32` bit patterns); a
/// trailing group of fewer than four bytes is ignored.
pub fn blob_to_embedding(blob: &[u8]) -> (r: Vec<u32>)
    ensures
        r@ == decode(blob@),
{
    let len = blob.len();
    let n = len / 4;
    let mut out: Vec<u32> = Vec::with_capacity(n);
    let mut i: usize = 0;
    while i < n
        invariant
            len == blob@.len(),
            n == len / 4,
            i <= n,
            out@ == decode(blob@).subrange(0, i as int),
        decreases n - i,
    {
        assert(4 * i + 3 < len) by (nonlinear_arith)
            requires
                i < n,
                n == len / 4,
        ;
        let k = 4 * i;
        let w = (blob[k] as u32) | ((blob[k + 1] as u32) << 8u32) | ((blob[k + 2] as u32)
            << 16u32) | ((blob[k + 3] as u32) << 24u32);
        out.push(w);
        assert(out@ =~= decode(blob@).subrange(0, i + 1));
        i = i + 1;
    }
    assert(out@ =~= decode(blob@));
    out
}

} // verus!
