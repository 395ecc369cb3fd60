//! A chapter of pages: the unit of file reads and writes of the benchmark.
use vstd::prelude::*;
use vstd::slice::slice_subrange;
use crate::page::{Page, PageView, page_of};
use crate::scribe::chapter::{pages_bytes, pages_from_bytes, lemma_pages_bytes_blocks};

verus! {

/// `P` pages of `W` payload words, read and written as one block of `B`
/// bytes, `B = P * (4 + W) * 8`.
#[derive(Clone, Copy)]
pub struct Chapter<const P: usize, const W: usize, const B: usize>([Page<W>; P]);

impl<const P: usize, const W: usize, const B: usize> View for Chapter<P, W, B> {
    type V = Seq<PageView>;

    closed spec fn view(&self) -> Seq<PageView> {
        self.0@.map_values(|p: Page<W>| p@)
    }
}

impl<const P: usize, const W: usize, const B: usize> Chapter<P, W, B> {
    /// The pages of the chapter.
    pub closed spec fn page_seq(&self) -> Seq<Page<W>> {
        self.0@
    }

    /// A chapter of all-zero pages.
    pub fn new() -> (c: Chapter<P, W, B>)
        ensures
            c@.len() == P,
            forall|i: int| 0 <= i < P ==> {
                &&& #[trigger] c@[i].seed == 0
                &&& c@[i].file == 0
                &&& c@[i].page == 0
                &&& c@[i].mutations == 0
                &&& c@[i].data == Seq::new(W as nat, |j: int| 0u64)
            },
    {
        let zero: Page<W> = Page::default();
        Chapter([zero; P])
    }

    /// The number of bytes of the chapter.
    pub fn byte_count(&self) -> (n: usize)
        requires
            B == P * ((4 + W) * 8),
        ensures
            n == B,
    {
        B
    }

    /// The page at position `p`.
    pub fn page(&self, p: u64) -> (r: &Page<W>)
        requires
            p < P,
        ensures
            r@ == self@[p as int],
    {
        &self.0[p as usize]
    }

    /// Mutable access to the page at position `p`.
    pub fn mutable_page(&mut self, p: u64) -> (r: &mut Page<W>)
        requires
            p < P,
        ensures
            *r == old(self).page_seq()[p as int],
            final(self).page_seq() == old(self).page_seq().update(p as int, *final(r)),
    {
        &mut self.0[p as usize]
    }

    /// All pages.
    pub fn pages_all(&self) -> (ps: &[Page<W>])
        ensures
            ps@ == self.page_seq(),
    {
        self.0.as_slice()
    }

    /// The chapter's memory image, as written to a file.
    pub fn bytes_all(&self) -> (b: Vec<u8>)
        requires
            B == P * ((4 + W) * 8),
        ensures
            b@ == pages_bytes(self@),
            b@.len() == B,
    {
        let mut out: Vec<u8> = Vec::new();
        let mut i: usize = 0;
        while i < P
            invariant
                i <= P,
                self.0@.len() == P,
                out@ == pages_bytes(self@.subrange(0, i as int)),
            decreases P - i,
        {
            let mut pb = self.0[i].to_bytes();
            proof {
                let s = self@.subrange(0, i + 1);
                assert(s.drop_last() =~= self@.subrange(0, i as int));
                assert(s.last() == self.0@[i as int]@);
            }
            out.append(&mut pb);
            i = i + 1;
        }
        proof {
            assert(self@.subrange(0, P as int) =~= self@);
            assert forall|k: int| 0 <= k < self@.len() implies (#[trigger] self@[k]).data.len() == W by {
                assert(self@[k] == self.0@[k]@);
                self.0@[k].lemma_data_len();
            }
            lemma_pages_bytes_blocks(self@, W as nat);
        }
        out
    }

    /// Overwrites the chapter with the pages of a memory image, as read from
    /// a file.
    pub fn load_bytes_all(&mut self, bytes: &[u8])
        requires
            (4 + W) * 8 <= usize::MAX,
            B == P * ((4 + W) * 8),
            bytes@.len() == B,
        ensures
            final(self)@ == pages_from_bytes(bytes@, P as nat, W as nat),
    {
        let ps: usize = (4 + W) * 8;
        let mut i: usize = 0;
        while i < P
            invariant
                i <= P,
                ps == (4 + W) * 8,
                bytes@.len() == P * ps,
                bytes@.len() == bytes.len(),
                self.0@.len() == P,
                forall|k: int| 0 <= k < i ==> #[trigger] self.0@[k]@ == pages_from_bytes(bytes@, P as nat, W as nat)[k],
            decreases P - i,
        {
            assert((i + 1) * ps <= P * ps) by (nonlinear_arith)
                requires i < P, ps >= 0;
            assert(i * ps + ps == (i + 1) * ps) by (nonlinear_arith);
            let block = slice_subrange(bytes, i * ps, i * ps + ps);
            match Page::<W>::from_bytes(block) {
                Some(page) => {
                    proof {
                        assert(i * (4 + W) * 8 == i * ps) by (nonlinear_arith)
                            requires ps == (4 + W) * 8;
                        assert((i + 1) * (4 + W) * 8 == i * ps + ps) by (nonlinear_arith)
                            requires ps == (4 + W) * 8;
                        assert(page@ == pages_from_bytes(bytes@, P as nat, W as nat)[i as int]);
                    }
                    let ghost before = self.0@;
                    self.0[i] = page;
                    proof {
                        assert forall|k: int| 0 <= k < i + 1 implies #[trigger] self.0@[k]@ == pages_from_bytes(bytes@, P as nat, W as nat)[k] by {
                            if k < i {
                                assert(self.0@[k] == before[k]);
                            }
                        }
                    }
                },
                None => {
                    assert(false);
                },
            }
            i = i + 1;
        }
        assert(self@ =~= pages_from_bytes(bytes@, P as nat, W as nat));
    }
}

impl<const P: usize, const W: usize, const B: usize> Chapter<P, W, B> {
    /// Regenerates the chapter as pages `first .. first + P` of book `file`,
    /// with no mutations: page `j` goes to position `j % P`.
    pub fn regenerate(&mut self, seed: u64, file: u64, first: u64)
        requires
            first + P <= u64::MAX,
        ensures
            final(self)@.len() == P,
            forall|j: int| first <= j < first + P ==> #[trigger] final(self)@[j % (P as int)] == page_of(seed, file, j as u64, 0, W as nat),
    {
        let end: u64 = first + P as u64;
        let mut p: u64 = first;
        while p < end
            invariant
                first <= p <= end,
                end == first + P,
                self.0@.len() == P,
                forall|j: int| first <= j < p ==> #[trigger] self.0@[j % (P as int)]@ == page_of(seed, file, j as u64, 0, W as nat),
            decreases end - p,
        {
            let relative: usize = (p % (P as u64)) as usize;
            let ghost before = self.0@;
            self.0[relative].reinit(seed, file, p, 0);
            proof {
                assert forall|j: int| first <= j < p + 1 implies #[trigger] self.0@[j % (P as int)]@ == page_of(seed, file, j as u64, 0, W as nat) by {
                    if j < p {
                        lemma_window_mods_distinct(j, p as int, P as int);
                        assert(self.0@[j % (P as int)] == before[j % (P as int)]);
                    }
                }
            }
            p = p + 1;
        }
    }

    /// The positions of the pages whose payload is not the one their metadata
    /// generates (including pages whose final seed does not fit in 64 bits),
    /// in increasing order.
    pub fn invalid_pages(&self) -> (v: Vec<u64>)
        ensures
            forall|k: u64| v@.contains(k) <==> k < P && !(#[trigger] self@[k as int]).consistent(W as nat),
            forall|a: int, b: int| 0 <= a < b < v@.len() ==> v@[a] < v@[b],
    {
        let mut v: Vec<u64> = Vec::new();
        let mut k: usize = 0;
        while k < P
            invariant
                k <= P,
                self.0@.len() == P,
                forall|j: u64| v@.contains(j) <==> j < k && !(#[trigger] self@[j as int]).consistent(W as nat),
                forall|a: int, b: int| 0 <= a < b < v@.len() ==> v@[a] < v@[b],
                forall|a: int| 0 <= a < v@.len() ==> v@[a] < k,
            decreases P - k,
        {
            let valid: Option<bool> = self.0[k].checked_is_valid();
            let ghost before = v@;
            if valid != Some(true) {
                v.push(k as u64);
                proof {
                    assert forall|j: u64| v@.contains(j) <==> j < k + 1 && !(#[trigger] self@[j as int]).consistent(W as nat) by {
                        if j == k as u64 {
                            assert(v@[v@.len() - 1] == j);
                        }
                        if v@.contains(j) && j != k as u64 {
                            let i = choose|i: int| 0 <= i < v@.len() && v@[i] == j;
                            assert(before[i] == j);
                        }
                        if j < k && !self@[j as int].consistent(W as nat) {
                            let i = choose|i: int| 0 <= i < before.len() && before[i] == j;
                            assert(v@[i] == j);
                        }
                    }
                }
            } else {
                proof {
                    assert forall|j: u64| v@.contains(j) <==> j < k + 1 && !(#[trigger] self@[j as int]).consistent(W as nat) by {
                        if j == k as u64 {
                            assert(self@[j as int] == self.0@[k as int]@);
                            if v@.contains(j) {
                                let i = choose|i: int| 0 <= i < v@.len() && v@[i] == j;
                            }
                        }
                    }
                }
            }
            k = k + 1;
        }
        v
    }
}

/// Positions closer than `n` have different remainders modulo `n`.
pub proof fn lemma_window_mods_distinct(a: int, b: int, n: int)
    requires
        0 <= a < b < a + n,
    ensures
        a % n != b % n,
{
    vstd::arithmetic::div_mod::lemma_fundamental_div_mod(a, n);
    vstd::arithmetic::div_mod::lemma_fundamental_div_mod(b, n);
    if a % n == b % n {
        assert(b - a == n * (b / n - a / n)) by (nonlinear_arith)
            requires a == n * (a / n) + a % n, b == n * (b / n) + b % n, a % n == b % n;
        assert(false) by (nonlinear_arith)
            requires b - a == n * (b / n - a / n), 0 < b - a < n, n > 0;
    }
}

} // verus!
