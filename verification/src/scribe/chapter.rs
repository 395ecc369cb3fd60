//! A chapter: a fixed number of pages that is read and written as one block
//! of bytes.
use vstd::prelude::*;
use crate::scribe::page::Page;
use crate::page::{PageView, page_from_words, lemma_page_bytes_roundtrip};
use crate::words::{bytes_to_words, words_to_bytes, lemma_words_to_bytes_len};
use vstd::slice::slice_subrange;

verus! {

/// The memory image of a sequence of pages: the images of the pages, one
/// after another.
pub open spec fn pages_bytes(pages: Seq<PageView>) -> Seq<u8>
    decreases pages.len(),
{
    if pages.len() == 0 {
        Seq::empty()
    } else {
        pages_bytes(pages.drop_last()) + pages.last().bytes()
    }
}

/// The pages read from a memory image of `count` pages of `words` payload
/// words each.
pub open spec fn pages_from_bytes(bytes: Seq<u8>, count: nat, words: nat) -> Seq<PageView> {
    Seq::new(count, |i: int| page_from_words(
        bytes_to_words(bytes.subrange(i * (4 + words) * 8, (i + 1) * (4 + words) * 8)), words))
}

/// The memory image of `pages` is `pages.len() * (4 + words) * 8` bytes long,
/// and its `i`-th page-sized block is the image of `pages[i]`.
pub proof fn lemma_pages_bytes_blocks(pages: Seq<PageView>, words: nat)
    requires
        forall|i: int| 0 <= i < pages.len() ==> (#[trigger] pages[i]).data.len() == words,
    ensures
        pages_bytes(pages).len() == pages.len() * ((4 + words) * 8),
        forall|i: int| 0 <= i < pages.len() ==>
            #[trigger] pages_bytes(pages).subrange(i * (4 + words) * 8, (i + 1) * (4 + words) * 8) == pages[i].bytes(),
    decreases pages.len(),
{
    let ps: int = ((4 + words) * 8) as int;
    if pages.len() > 0 {
        let prev = pages.drop_last();
        lemma_pages_bytes_blocks(prev, words);
        lemma_words_to_bytes_len(pages.last().words());
        let n = pages.len() as int;
        let a = pages_bytes(prev);
        let b = pages.last().bytes();
        assert(a.len() == (n - 1) * ps);
        assert(b.len() == ps);
        assert(n * ps == (n - 1) * ps + ps) by (nonlinear_arith);
        assert forall|i: int| 0 <= i < pages.len() implies
            #[trigger] pages_bytes(pages).subrange(i * (4 + words) * 8, (i + 1) * (4 + words) * 8) == pages[i].bytes() by {
            assert(i * (4 + words) * 8 == i * ps) by (nonlinear_arith)
                requires ps == (4 + words) * 8;
            assert((i + 1) * (4 + words) * 8 == i * ps + ps) by (nonlinear_arith)
                requires ps == (4 + words) * 8;
            if i < n - 1 {
                assert(i * ps + ps <= (n - 1) * ps) by (nonlinear_arith)
                    requires i < n - 1, ps >= 0;
                assert(0 <= i * ps) by (nonlinear_arith)
                    requires i >= 0, ps >= 0;
                assert((a + b).subrange(i * ps, i * ps + ps) =~= a.subrange(i * ps, i * ps + ps));
                assert(prev[i] == pages[i]);
            } else {
                assert(i * ps == (n - 1) * ps);
                assert((a + b).subrange(i * ps, i * ps + ps) =~= b);
            }
        }
    }
}

/// Reading pages back from the memory image of pages gives the same pages.
pub proof fn lemma_pages_roundtrip(pages: Seq<PageView>, words: nat)
    requires
        forall|i: int| 0 <= i < pages.len() ==> (#[trigger] pages[i]).data.len() == words,
    ensures
        pages_from_bytes(pages_bytes(pages), pages.len(), words) == pages,
{
    lemma_pages_bytes_blocks(pages, words);
    assert forall|i: int| 0 <= i < pages.len() implies
        #[trigger] pages_from_bytes(pages_bytes(pages), pages.len(), words)[i] == pages[i] by {
        lemma_page_bytes_roundtrip(pages[i], words);
    }
    assert(pages_from_bytes(pages_bytes(pages), pages.len(), words) =~= pages);
}

/// Allows the interaction with a collection of `P` pages as either pages or
/// bytes. Constant generic arguments:
///  - P: page count
///  - W: data words in a page
///  - B: the number of bytes of the chapter, P * (4 + W) * 8.
#[derive(Clone, Copy)]
pub struct Chapter<const P: usize, const W: usize, const B: usize>([Page<W>; P]);

impl<const P: usize, const W: usize, const B: usize> View for Chapter<P, W, B> {
    type V = Seq<PageView>;

    closed spec fn view(&self) -> Seq<PageView> {
        self.0@.map_values(|p: Page<W>| p@)
    }
}

impl<const P: usize, const W: usize, const B: usize> Chapter<P, W, B> {
    /// The pages of the chapter.
    pub closed spec fn page_seq(&self) -> Seq<Page<W>> {
        self.0@
    }

    /// A chapter of all-zero pages.
    pub fn new() -> (c: Chapter<P, W, B>)
        ensures
            c@.len() == P,
            forall|i: int| 0 <= i < P ==> {
                &&& #[trigger] c@[i].seed == 0
                &&& c@[i].file == 0
                &&& c@[i].page == 0
                &&& c@[i].mutations == 0
                &&& c@[i].data == Seq::new(W as nat, |j: int| 0u64)
            },
    {
        let zero: Page<W> = Page::default();
        Chapter([zero; P])
    }
}


impl<const P: usize, const W: usize, const B: usize> Chapter<P, W, B> {
    /// The chapter's memory image: the images of its pages, in order.
    pub fn bytes(&self) -> (b: Vec<u8>)
        requires
            B == P * ((4 + W) * 8),
        ensures
            b@ == pages_bytes(self@),
            b@.len() == P * ((4 + W) * 8),
    {
        let mut out: Vec<u8> = Vec::new();
        let mut i: usize = 0;
        while i < P
            invariant
                i <= P,
                self.0@.len() == P,
                out@ == pages_bytes(self@.subrange(0, i as int)),
            decreases P - i,
        {
            let mut pb = self.0[i].to_bytes();
            proof {
                let s = self@.subrange(0, i + 1);
                assert(s.drop_last() =~= self@.subrange(0, i as int));
                assert(s.last() == self.0@[i as int]@);
            }
            out.append(&mut pb);
            i = i + 1;
        }
        proof {
            assert(self@.subrange(0, P as int) =~= self@);
            assert forall|k: int| 0 <= k < self@.len() implies (#[trigger] self@[k]).data.len() == W by {
                assert(self@[k] == self.0@[k]@);
                self.0@[k].lemma_data_len();
            }
            lemma_pages_bytes_blocks(self@, W as nat);
        }
        out
    }

    /// Overwrites the chapter with the pages read from a memory image of `P`
    /// pages (the write access that the byte view of the chapter gives).
    pub fn load_bytes(&mut self, bytes: &[u8])
        requires
            (4 + W) * 8 <= usize::MAX,
            B == P * ((4 + W) * 8),
            bytes@.len() == B,
        ensures
            final(self)@ == pages_from_bytes(bytes@, P as nat, W as nat),
    {
        let ps: usize = (4 + W) * 8;
        let mut i: usize = 0;
        while i < P
            invariant
                i <= P,
                ps == (4 + W) * 8,
                bytes@.len() == P * ps,
                bytes@.len() == bytes.len(),
                self.0@.len() == P,
                forall|k: int| 0 <= k < i ==> #[trigger] self.0@[k]@ == pages_from_bytes(bytes@, P as nat, W as nat)[k],
            decreases P - i,
        {
            assert((i + 1) * ps <= P * ps) by (nonlinear_arith)
                requires i < P, ps >= 0;
            assert(i * ps + ps == (i + 1) * ps) by (nonlinear_arith);
            let block = slice_subrange(bytes, i * ps, i * ps + ps);
            match Page::<W>::from_bytes(block) {
                Some(page) => {
                    proof {
                        assert(i * (4 + W) * 8 == i * ps) by (nonlinear_arith)
                            requires ps == (4 + W) * 8;
                        assert((i + 1) * (4 + W) * 8 == i * ps + ps) by (nonlinear_arith)
                            requires ps == (4 + W) * 8;
                        assert(page@ == pages_from_bytes(bytes@, P as nat, W as nat)[i as int]);
                    }
                    let ghost before = self.0@;
                    self.0[i] = page;
                    proof {
                        assert forall|k: int| 0 <= k < i + 1 implies #[trigger] self.0@[k]@ == pages_from_bytes(bytes@, P as nat, W as nat)[k] by {
                            if k < i {
                                assert(self.0@[k] == before[k]);
                            }
                        }
                    }
                },
                None => {
                    assert(false);
                },
            }
            i = i + 1;
        }
        assert(self@ =~= pages_from_bytes(bytes@, P as nat, W as nat));
    }

    /// All pages of the chapter.
    pub fn pages(&self) -> (ps: &[Page<W>])
        ensures
            ps@ == self.page_seq(),
    {
        self.0.as_slice()
    }

    /// The page at position `p`.
    pub fn single_page(&self, p: u64) -> (r: &Page<W>)
        requires
            p < P,
        ensures
            r@ == self@[p as int],
    {
        &self.0[p as usize]
    }

    /// Mutable access to the page at position `p`.
    pub fn single_mutable_page(&mut self, p: u64) -> (r: &mut Page<W>)
        requires
            p < P,
        ensures
            *r == old(self).page_seq()[p as int],
            final(self).page_seq() == old(self).page_seq().update(p as int, *final(r)),
    {
        &mut self.0[p as usize]
    }

    /// Mutable access to all pages.
    pub fn mutable_pages(&mut self) -> (r: &mut [Page<W>])
        ensures
            r@ == old(self).page_seq(),
            final(self).page_seq() == final(r)@,
    {
        &mut self.0
    }
}

} // verus!
