//! The scribe page: metadata words and a payload generated from them.
use vstd::prelude::*;
use crate::text::{page_text, page_description};
use crate::rng::generated_words;
use crate::page::{PageView, seed_bits, words_equal, page_from_words};
use crate::words::{words_to_bytes, bytes_to_words, append_words, read_words, lemma_words_append};

verus! {

/// Size of a page's metadata, in bytes.
pub const METADATA_SIZE: usize = 32;

/// The payload that `words` words of the stream of `(seed, file, page)` make.
pub open spec fn scribe_payload(seed: u64, file: u64, page: u64, words: nat) -> Seq<u64> {
    generated_words(seed_bits(seed, file, page), words)
}

/// The page whose payload is generated from its own seed, file and page.
pub open spec fn scribe_consistent(v: PageView, words: nat) -> bool {
    v.data == scribe_payload(v.seed, v.file, v.page, words)
}

/// A page of the scribe tool: four metadata words (seed, file, page,
/// mutations) and `W` payload words, the first `W` outputs of the
/// Xoroshiro128PlusPlus generator seeded from `(!file << 46) | (page << 32) |
/// seed`.
#[derive(Debug, Clone, Copy)]
pub struct Page<const W: usize> {
    seed: u64,
    file: u64,
    page: u64,
    mutations: u64,
    data: [u64; W],
}

impl<const W: usize> View for Page<W> {
    type V = PageView;

    closed spec fn view(&self) -> PageView {
        PageView { seed: self.seed, file: self.file, page: self.page, mutations: self.mutations, data: self.data@ }
    }
}

impl<const W: usize> Page<W> {
    /// Every page holds exactly `W` payload words.
    pub proof fn lemma_data_len(self)
        ensures
            self@.data.len() == W,
    {
    }

    /// Creates a page with no mutations and its generated payload.
    pub fn new(seed: u64, file: u64, page: u64) -> (p: Page<W>)
        ensures
            p@ == (PageView { seed, file, page, mutations: 0, data: scribe_payload(seed, file, page, W as nat) }),
    {
        let data: [u64; W] = Self::generate_data(Self::assemble_seed(seed, file, page));
        Page { file, seed, page, mutations: 0, data }
    }

    /// Creates an empty, zeroed, page.
    pub fn default() -> (p: Page<W>)
        ensures
            p@.seed == 0 && p@.file == 0 && p@.page == 0 && p@.mutations == 0,
            p@.data == Seq::new(W as nat, |i: int| 0u64),
    {
        let p = Page { file: 0, seed: 0, page: 0, mutations: 0, data: [0u64; W] };
        assert(p@.data =~= Seq::new(W as nat, |i: int| 0u64));
        p
    }

    /// The all-zero page.
    pub fn zeroed() -> (p: Page<W>)
        ensures
            p@.seed == 0 && p@.file == 0 && p@.page == 0 && p@.mutations == 0,
            p@.data == Seq::new(W as nat, |i: int| 0u64),
    {
        Page::default()
    }

    /// Combines seed, file and page into the generator seed.
    pub fn assemble_seed(seed: u64, file: u64, page: u64) -> (s: u64)
        ensures
            s == seed_bits(seed, file, page),
    {
        let seed_page: u64 = page << 32u64;
        let seed_file: u64 = (!file) << 46u64;
        let seed_upper: u64 = seed_file | seed_page;
        let seed_lower: u64 = seed;
        let seed: u64 = seed_upper | seed_lower;
        seed
    }

    /// Generates `W` payload words from a generator seed.
    pub fn generate_data(seed: u64) -> (data: [u64; W])
        ensures
            data@ == generated_words(seed, W as nat),
    {
        crate::page::Page::<W>::generate_data(seed)
    }

    /// The page as text: the metadata words in hexadecimal, then the payload
    /// dumped one word per line, most significant byte first.
    pub fn describe(&self) -> (s: String)
        ensures
            s@ == page_text(self@),
    {
        page_description(self.seed, self.file, self.page, self.mutations, self.data.as_slice())
    }

    /// The payload words.
    pub fn data(&self) -> (d: [u64; W])
        ensures
            d@ == self@.data,
    {
        self.data
    }

    /// Whether `(seed, file, page)` generates exactly this page's payload.
    pub fn validate_page_with(self, seed: u64, file: u64, page: u64) -> (b: bool)
        ensures
            b == (self@.data == scribe_payload(seed, file, page, W as nat)),
    {
        let data: [u64; W] = Self::generate_data(Self::assemble_seed(seed, file, page));
        words_equal(&data, &self.data)
    }

    /// Sets every metadata field; the payload is generated from the seed
    /// `seed + mutations`.
    pub fn reinit(&mut self, seed: u64, file: u64, page: u64, mutations: u64) -> (r: &Self)
        requires
            seed + mutations <= u64::MAX,
        ensures
            final(self)@ == (PageView { seed, file, page, mutations,
                data: scribe_payload((seed + mutations) as u64, file, page, W as nat) }),
            r@ == final(self)@,
    {
        self.seed = seed;
        self.file = file;
        self.page = page;
        self.mutations = mutations;
        self.data = Self::generate_data(Self::assemble_seed(self.seed + self.mutations, self.file, self.page));
        self
    }

    /// Advances both the seed and the mutation count by one and regenerates
    /// the payload from the new seed.
    pub fn mutate_seed(&mut self) -> (r: &Self)
        requires
            old(self)@.seed < u64::MAX,
            old(self)@.mutations < u64::MAX,
        ensures
            final(self)@ == (PageView {
                seed: (old(self)@.seed + 1) as u64,
                file: old(self)@.file,
                page: old(self)@.page,
                mutations: (old(self)@.mutations + 1) as u64,
                data: scribe_payload((old(self)@.seed + 1) as u64, old(self)@.file, old(self)@.page, W as nat),
            }),
            scribe_consistent(final(self)@, W as nat),
            r@ == final(self)@,
    {
        self.seed += 1;
        self.mutations += 1;
        let data: [u64; W] = Self::generate_data(Self::assemble_seed(self.seed, self.file, self.page));
        self.data = data;
        self
    }

    /// Replaces the file identifier and regenerates the payload.
    pub fn mutate_file(&mut self, file: u64) -> (r: &Self)
        ensures
            final(self)@ == (PageView { file, data: scribe_payload(old(self)@.seed, file, old(self)@.page, W as nat), ..old(self)@ }),
            scribe_consistent(final(self)@, W as nat),
            r@ == final(self)@,
    {
        self.file = file;
        let data: [u64; W] = Self::generate_data(Self::assemble_seed(self.seed, self.file, self.page));
        self.data = data;
        self
    }

    /// Replaces the page identifier and regenerates the payload.
    pub fn mutate_page(&mut self, page: u64) -> (r: &Self)
        ensures
            final(self)@ == (PageView { page, data: scribe_payload(old(self)@.seed, old(self)@.file, page, W as nat), ..old(self)@ }),
            scribe_consistent(final(self)@, W as nat),
            r@ == final(self)@,
    {
        self.page = page;
        let data: [u64; W] = Self::generate_data(Self::assemble_seed(self.seed, self.file, self.page));
        self.data = data;
        self
    }

    /// The page's memory image (metadata then payload, words little-endian).
    pub fn to_bytes(&self) -> (b: Vec<u8>)
        ensures
            b@ == self@.bytes(),
    {
        let mut out: Vec<u8> = Vec::new();
        let meta: [u64; 4] = [self.seed, self.file, self.page, self.mutations];
        append_words(&mut out, meta.as_slice());
        append_words(&mut out, self.data.as_slice());
        proof {
            lemma_words_append(seq![self.seed, self.file, self.page, self.mutations], self.data@);
            assert(meta@ =~= seq![self.seed, self.file, self.page, self.mutations]);
        }
        out
    }

    /// Reads a page from its memory image; `None` when `bytes` is not exactly
    /// one page long.
    pub fn from_bytes(bytes: &[u8]) -> (p: Option<Page<W>>)
        requires
            (4 + W) * 8 <= usize::MAX,
        ensures
            bytes@.len() == (4 + W) * 8 <==> p is Some,
            p matches Some(q) ==> q@ == page_from_words(bytes_to_words(bytes@), W as nat),
    {
        match crate::page::Page::<W>::from_bytes(bytes) {
            None => None,
            Some(q) => {
                let (seed, file, page, mutations) = q.get_metadata();
                Some(Page { seed, file, page, mutations, data: q.data() })
            },
        }
    }
}

impl<const W: usize> PartialEq for Page<W> {
    /// Field by field equality.
    fn eq(&self, other: &Self) -> (r: bool) {
        if self.seed != other.seed { return false; }
        if self.file != other.file { return false; }
        if self.page != other.page { return false; }
        if self.mutations != other.mutations { return false; }
        words_equal(&self.data, &other.data)
    }
}

impl<const W: usize> vstd::std_specs::cmp::PartialEqSpecImpl for Page<W> {
    open spec fn obeys_eq_spec() -> bool {
        true
    }

    open spec fn eq_spec(&self, other: &Self) -> bool {
        self@ == other@
    }
}

} // verus!
