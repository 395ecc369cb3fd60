//! Little-endian byte images of 64-bit word sequences, as pages are laid out
//! in memory and on disk.
use vstd::prelude::*;
use vstd::bytes::{spec_u64_to_le_bytes, spec_u64_from_le_bytes, u64_to_le_bytes, u64_from_le_bytes,
    lemma_auto_spec_u64_to_from_le_bytes};
use vstd::slice::slice_subrange;

verus! {

/// The bytes of `ws`, each word in little-endian order, one after another.
pub open spec fn words_to_bytes(ws: Seq<u64>) -> Seq<u8>
    decreases ws.len(),
{
    if ws.len() == 0 {
        Seq::empty()
    } else {
        words_to_bytes(ws.drop_last()) + spec_u64_to_le_bytes(ws.last())
    }
}

/// The words read from `bs`, eight little-endian bytes per word; a trailing
/// group shorter than eight bytes is ignored.
pub open spec fn bytes_to_words(bs: Seq<u8>) -> Seq<u64>
    decreases bs.len(),
{
    if bs.len() < 8 {
        Seq::empty()
    } else {
        let n: int = ((bs.len() / 8) * 8) as int;
        bytes_to_words(bs.subrange(0, n - 8)).push(spec_u64_from_le_bytes(bs.subrange(n - 8, n)))
    }
}

/// The byte image of a word sequence has eight bytes per word.
pub proof fn lemma_words_to_bytes_len(ws: Seq<u64>)
    ensures
        words_to_bytes(ws).len() == 8 * ws.len(),
    decreases ws.len(),
{
    lemma_auto_spec_u64_to_from_le_bytes();
    if ws.len() > 0 {
        lemma_words_to_bytes_len(ws.drop_last());
    }
}

/// Reading back the byte image of a word sequence gives the same words.
pub proof fn lemma_words_roundtrip(ws: Seq<u64>)
    ensures
        bytes_to_words(words_to_bytes(ws)) == ws,
    decreases ws.len(),
{
    lemma_auto_spec_u64_to_from_le_bytes();
    lemma_words_to_bytes_len(ws);
    if ws.len() > 0 {
        let prev = ws.drop_last();
        lemma_words_to_bytes_len(prev);
        lemma_words_roundtrip(prev);
        let bs = words_to_bytes(ws);
        let n: int = (8 * ws.len()) as int;
        assert((bs.len() / 8) * 8 == n);
        assert(bs.subrange(0, n - 8) =~= words_to_bytes(prev));
        assert(bs.subrange(n - 8, n) =~= spec_u64_to_le_bytes(ws.last()));
        assert(bytes_to_words(bs) =~= ws);
    }
}

/// The byte image of a prefix of words is the matching prefix of the image.
pub proof fn lemma_words_to_bytes_push(ws: Seq<u64>, w: u64)
    ensures
        words_to_bytes(ws.push(w)) == words_to_bytes(ws) + spec_u64_to_le_bytes(w),
{
    assert(ws.push(w).drop_last() =~= ws);
}

/// The image of a concatenation is the concatenation of the images.
pub proof fn lemma_words_append(a: Seq<u64>, b: Seq<u64>)
    ensures
        words_to_bytes(a + b) == words_to_bytes(a) + words_to_bytes(b),
    decreases b.len(),
{
    if b.len() == 0 {
        assert(a + b =~= a);
        assert(words_to_bytes(a) + words_to_bytes(b) =~= words_to_bytes(a));
    } else {
        lemma_words_append(a, b.drop_last());
        assert((a + b).drop_last() =~= a + b.drop_last());
        assert((a + b).last() == b.last());
    }
}

/// Appends the little-endian bytes of every word of `ws` to `out`.
pub fn append_words(out: &mut Vec<u8>, ws: &[u64])
    ensures
        final(out)@ == old(out)@ + words_to_bytes(ws@),
{
    let mut i: usize = 0;
    while i < ws.len()
        invariant
            i <= ws@.len(),
            out@ == old(out)@ + words_to_bytes(ws@.subrange(0, i as int)),
        decreases ws@.len() - i,
    {
        let mut b = u64_to_le_bytes(ws[i]);
        proof {
            lemma_words_to_bytes_push(ws@.subrange(0, i as int), ws@[i as int]);
            assert(ws@.subrange(0, i as int).push(ws@[i as int]) =~= ws@.subrange(0, i + 1));
        }
        out.append(&mut b);
        i = i + 1;
    }
    assert(ws@.subrange(0, ws@.len() as int) =~= ws@);
}

/// Reads `count` little-endian words from the start of `bs`.
pub fn read_words(bs: &[u8], count: usize) -> (ws: Vec<u64>)
    requires
        8 * count <= bs@.len(),
    ensures
        ws@ == bytes_to_words(bs@.subrange(0, 8 * count)),
        ws@.len() == count,
{
    let mut ws: Vec<u64> = Vec::new();
    let mut i: usize = 0;
    while i < count
        invariant
            i <= count,
            8 * count <= bs@.len(),
            bs@.len() == bs.len(),
            ws@ == bytes_to_words(bs@.subrange(0, 8 * i)),
            ws@.len() == i,
        decreases count - i,
    {
        let w = u64_from_le_bytes(slice_subrange(bs, 8 * i, 8 * i + 8));
        proof {
            let pre = bs@.subrange(0, 8 * i + 8);
            assert((pre.len() / 8) * 8 == 8 * i + 8);
            assert(pre.subrange(0, 8 * i) =~= bs@.subrange(0, 8 * i));
            assert(pre.subrange(8 * i, 8 * i + 8) =~= bs@.subrange(8 * i, 8 * i + 8));
        }
        ws.push(w);
        i = i + 1;
    }
    ws
}

} // verus!
