use vstd::prelude::*;

verus! {

/// Little-endian composition of four bytes into one 32-bit word,
/// least-significant byte first.
pub open spec fn word_of(b0: u8, b1: u8, b2: u8, b3: u8) -> u32 {
    (b0 as u32) | ((b1 as u32) << 8) | ((b2 as u32) << 16) | ((b3 as u32) << 24)
}

/// The byte at position `k` (0 = least significant) of a word.
pub open spec fn byte_of(w: u32, k: int) -> u8 {
    if k == 0 {
        (w & 0xff) as u8
    } else if k == 1 {
        ((w >> 8) & 0xff) as u8
    } else if k == 2 {
        ((w >> 16) & 0xff) as u8
    } else {
        ((w >> 24) & 0xff) as u8
    }
}

/// The words read from a byte sequence; meaningful when the length is a
/// multiple of four.
pub open spec fn words_of(b: Seq<u8>) -> Seq<u32> {
    Seq::new((b.len() / 4) as nat, |i: int| word_of(b[4 * i], b[4 * i + 1], b[4 * i + 2], b[4 * i + 3]))
}

/// The bytes of a word sequence, each word least-significant byte first.
pub open spec fn bytes_of(w: Seq<u32>) -> Seq<u8> {
    Seq::new((w.len() * 4) as nat, |i: int| byte_of(w[i / 4], i % 4))
}

/// Builds one word from four bytes, least-significant first.
pub fn word_from_bytes(b0: u8, b1: u8, b2: u8, b3: u8) -> (w: u32)
    ensures
        w == word_of(b0, b1, b2, b3),
{
    (b0 as u32) | ((b1 as u32) << 8) | ((b2 as u32) << 16) | ((b3 as u32) << 24)
}

/// Reinterprets a byte buffer as 32-bit words; fails exactly when the length
/// is not a multiple of four.
pub fn words_from_bytes(bytes: &[u8]) -> (r: Option<Vec<u32>>)
    ensures
        bytes@.len() % 4 == 0 ==> (r matches Some(v) && v@ == words_of(bytes@)),
        bytes@.len() % 4 != 0 ==> r is None,
{
    if bytes.len() % 4 != 0 {
        return None;
    }
    let len: usize = bytes.len();
    let n: usize = len / 4;
    proof {
        assert(bytes@.len() == 4 * n);
        assert(4 * n <= usize::MAX);
    }
    let mut v: Vec<u32> = Vec::with_capacity(n);
    let mut k: usize = 0;
    while k < n
        invariant
            bytes@.len() == 4 * n,
            4 * n <= usize::MAX,
            k <= n,
            v@.len() == k,
            forall|i: int| 0 <= i < k ==> v@[i] == words_of(bytes@)[i],
        decreases n - k,
    {
        let w = word_from_bytes(bytes[4 * k], bytes[4 * k + 1], bytes[4 * k + 2], bytes[4 * k + 3]);
        v.push(w);
        k = k + 1;
    }
    proof {
        assert(v@ =~= words_of(bytes@));
    }
    Some(v)
}

/// Serializes a word buffer into its little-endian bytes, the raw form in
/// which the seed data is uploaded.
pub fn bytes_from_words(words: &[u32]) -> (r: Vec<u8>)
    requires
        words@.len() * 4 <= usize::MAX,
    ensures
        r@ == bytes_of(words@),
        r@.len() == words@.len() * 4,
{
    let mut out: Vec<u8> = Vec::new();
    let mut k: usize = 0;
    while k < words.len()
        invariant
            words@.len() * 4 <= usize::MAX,
            k <= words@.len(),
            out@.len() == 4 * k,
            forall|i: int| 0 <= i < 4 * k ==> out@[i] == bytes_of(words@)[i],
        decreases words@.len() - k,
    {
        let w = words[k];
        out.push((w & 0xff) as u8);
        out.push(((w >> 8) & 0xff) as u8);
        out.push(((w >> 16) & 0xff) as u8);
        out.push(((w >> 24) & 0xff) as u8);
        proof {
            assert((4 * k) / 4 == k && (4 * k) % 4 == 0);
            assert((4 * k + 1) / 4 == k && (4 * k + 1) % 4 == 1);
            assert((4 * k + 2) / 4 == k && (4 * k + 2) % 4 == 2);
            assert((4 * k + 3) / 4 == k && (4 * k + 3) % 4 == 3);
            assert(out@[4 * k] == bytes_of(words@)[4 * k]);
            assert(out@[4 * k + 1] == bytes_of(words@)[4 * k + 1]);
            assert(out@[4 * k + 2] == bytes_of(words@)[4 * k + 2]);
            assert(out@[4 * k + 3] == bytes_of(words@)[4 * k + 3]);
        }
        k = k + 1;
    }
    proof {
        assert(out@ =~= bytes_of(words@));
    }
    out
}

/// Round trip: reading the little-endian bytes of a word sequence back as
/// words restores the sequence exactly.
pub proof fn lemma_words_bytes_roundtrip(w: Seq<u32>)
    ensures
        words_of(bytes_of(w)) =~= w,
{
    let b = bytes_of(w);
    assert(b.len() == 4 * w.len());
    assert(b.len() / 4 == w.len());
    assert forall|i: int| 0 <= i < w.len() implies words_of(b)[i] == w[i] by {
        assert((4 * i) / 4 == i && (4 * i) % 4 == 0);
        assert((4 * i + 1) / 4 == i && (4 * i + 1) % 4 == 1);
        assert((4 * i + 2) / 4 == i && (4 * i + 2) % 4 == 2);
        assert((4 * i + 3) / 4 == i && (4 * i + 3) % 4 == 3);
        let x = w[i];
        assert(b[4 * i] == byte_of(x, 0));
        assert(b[4 * i + 1] == byte_of(x, 1));
        assert(b[4 * i + 2] == byte_of(x, 2));
        assert(b[4 * i + 3] == byte_of(x, 3));
        assert((((x & 0xff) as u8) as u32) | (((((x >> 8) & 0xff) as u8) as u32) << 8)
            | (((((x >> 16) & 0xff) as u8) as u32) << 16) | (((((x >> 24) & 0xff) as u8) as u32)
            << 24) == x) by (bit_vector);
        assert(word_of(byte_of(x, 0), byte_of(x, 1), byte_of(x, 2), byte_of(x, 3)) == x);
    }
}

} // verus!
