//! The page: a unit of data whose payload is derived from its metadata.
use vstd::prelude::*;
use crate::text::{page_text, page_description};
use crate::rng::{WordGenerator, generated_words};
use crate::words::{words_to_bytes, bytes_to_words, append_words, read_words, lemma_words_to_bytes_len, lemma_words_roundtrip, lemma_words_append};

verus! {

/// The abstract content of a page: its four metadata words and its payload.
pub struct PageView {
    pub seed: u64,
    pub file: u64,
    pub page: u64,
    pub mutations: u64,
    pub data: Seq<u64>,
}

/// The seed bits contributed by the file and page identifiers and the base
/// seed: `(!file << 46) | (page << 32) | seed`, in 64-bit arithmetic.
pub open spec fn seed_bits(seed: u64, file: u64, page: u64) -> u64 {
    ((!file) << 46u64) | (page << 32u64) | seed
}

/// The final seed of a page: the seed bits plus the mutation count.
pub open spec fn final_seed(seed: u64, file: u64, page: u64, mutations: u64) -> int {
    seed_bits(seed, file, page) + mutations
}

/// Whether the final seed fits in 64 bits (the sum does not overflow).
pub open spec fn seed_fits(seed: u64, file: u64, page: u64, mutations: u64) -> bool {
    final_seed(seed, file, page, mutations) <= u64::MAX
}

/// The payload that `W` words of the stream of the given metadata make.
pub open spec fn payload(seed: u64, file: u64, page: u64, mutations: u64, words: nat) -> Seq<u64> {
    generated_words(final_seed(seed, file, page, mutations) as u64, words)
}

/// The page a given metadata describes, with its payload generated.
pub open spec fn page_of(seed: u64, file: u64, page: u64, mutations: u64, words: nat) -> PageView {
    PageView { seed, file, page, mutations, data: payload(seed, file, page, mutations, words) }
}

/// The page whose memory image is `bytes`: the first four words are the
/// metadata, the next `words` words the payload.
pub open spec fn page_from_words(ws: Seq<u64>, words: nat) -> PageView {
    PageView { seed: ws[0], file: ws[1], page: ws[2], mutations: ws[3], data: ws.subrange(4, 4 + words as int) }
}

impl PageView {
    /// The words of the page's memory image: metadata, then payload.
    pub open spec fn words(self) -> Seq<u64> {
        seq![self.seed, self.file, self.page, self.mutations] + self.data
    }

    /// The page's memory image: each word in little-endian byte order.
    pub open spec fn bytes(self) -> Seq<u8> {
        words_to_bytes(self.words())
    }

    /// A page is consistent when its payload is the one its metadata generates.
    pub open spec fn consistent(self, words: nat) -> bool {
        &&& seed_fits(self.seed, self.file, self.page, self.mutations)
        &&& self.data == payload(self.seed, self.file, self.page, self.mutations, words)
    }
}

/// Every page that a metadata describes is valid: its payload is the one its
/// metadata generates. Each way of making or changing a page (`new`,
/// `reinit`, `mutate`, `update_seed`, `update_file`, `update_page`) ends in
/// such a page, so a page reached by any sequence of them is valid, and
/// `is_valid` on it returns `true`.
pub proof fn lemma_described_pages_are_valid(seed: u64, file: u64, page: u64, mutations: u64, words: nat)
    requires
        seed_fits(seed, file, page, mutations),
    ensures
        page_of(seed, file, page, mutations, words).consistent(words),
{
}

/// A page's memory image is `(4 + words) * 8` bytes long, and reading a page
/// back from it gives the same page: what is written is what is read.
pub proof fn lemma_page_bytes_roundtrip(v: PageView, words: nat)
    requires
        v.data.len() == words,
    ensures
        v.bytes().len() == (4 + words) * 8,
        page_from_words(bytes_to_words(v.bytes()), words) == v,
{
    lemma_words_to_bytes_len(v.words());
    lemma_words_roundtrip(v.words());
    let ws = v.words();
    assert(ws.subrange(4, 4 + words as int) =~= v.data);
}

/// A structure to encapsulate meta-data and data derived there from. The
/// metadata (base seed, file, page and mutation count) is folded into a single
/// seed, which seeds the Xoroshiro128PlusPlus generator; the `W` data words are
/// its first `W` outputs. A page is therefore deterministic and self-validating.
#[derive(Debug, Clone, Copy)]
pub struct Page<const W: usize> {
    seed: u64,
    file: u64,
    page: u64,
    mutations: u64,
    data: [u64; W],
}

impl<const W: usize> View for Page<W> {
    type V = PageView;

    closed spec fn view(&self) -> PageView {
        PageView { seed: self.seed, file: self.file, page: self.page, mutations: self.mutations, data: self.data@ }
    }
}

impl<const W: usize> Page<W> {
    /// Every page holds exactly `W` payload words.
    pub proof fn lemma_data_len(self)
        ensures
            self@.data.len() == W,
    {
    }

    pub const METADATA_WORDS: usize = 4;
    pub const METADATA_BYTES: usize = 32;

    /// Number of payload bytes, `W * 8`.
    pub fn data_bytes() -> (n: usize)
        requires
            W * 8 <= usize::MAX,
        ensures
            n == W * 8,
    {
        W * 8
    }

    /// Number of bytes of a whole page, `(4 + W) * 8`.
    pub fn page_bytes() -> (n: usize)
        requires
            (4 + W) * 8 <= usize::MAX,
        ensures
            n == (4 + W) * 8,
    {
        (4 + W) * 8
    }

    /// Creates a new, populated, instance of Page with no mutations.
    pub fn new(seed: u64, file: u64, page: u64) -> (p: Page<W>)
        ensures
            p@ == page_of(seed, file, page, 0, W as nat),
            p@.consistent(W as nat),
    {
        let mutations: u64 = 0;
        let data: [u64; W] = Self::generate_data(Self::assemble_seed(seed, file, page, mutations));
        Page { seed, file, page, mutations, data }
    }

    /// Creates an empty, zeroed, Page.
    pub fn default() -> (p: Page<W>)
        ensures
            p@.seed == 0 && p@.file == 0 && p@.page == 0 && p@.mutations == 0,
            p@.data == Seq::new(W as nat, |i: int| 0u64),
    {
        let p = Page { seed: 0, file: 0, page: 0, mutations: 0, data: [0u64; W] };
        assert(p@.data =~= Seq::new(W as nat, |i: int| 0u64));
        p
    }

    /// Combines the metadata into the final seed handed to `generate_data`.
    pub fn assemble_seed(seed: u64, file: u64, page: u64, mutations: u64) -> (s: u64)
        requires
            seed_fits(seed, file, page, mutations),
        ensures
            s == final_seed(seed, file, page, mutations),
    {
        let seed_page: u64 = page << 32u64;
        let seed_file: u64 = (!file) << 46u64;
        let seed_upper: u64 = seed_file | seed_page;
        let seed_lower: u64 = seed;
        let seed: u64 = seed_upper | seed_lower;
        seed + mutations
    }

    /// Generates the `W` payload words from a final seed.
    pub fn generate_data(seed: u64) -> (data: [u64; W])
        ensures
            data@ == generated_words(seed, W as nat),
    {
        let mut rng = WordGenerator::from_seed(seed);
        let mut data: [u64; W] = [0u64; W];
        let mut i: usize = 0;
        while i < W
            invariant
                i <= W,
                rng@ == (seed, i as nat),
                data@.len() == W,
                forall|j: int| 0 <= j < i ==> data@[j] == generated_words(seed, W as nat)[j],
            decreases W - i,
        {
            let w = rng.next_word();
            data[i] = w;
            i = i + 1;
        }
        assert(data@ =~= generated_words(seed, W as nat));
        data
    }

    /// The payload words.
    pub fn data(&self) -> (d: [u64; W])
        ensures
            d@ == self@.data,
    {
        self.data
    }

    /// Whether the supplied metadata generates exactly this page's payload.
    pub fn validate_page_with(self, seed: u64, file: u64, page: u64, mutations: u64) -> (b: bool)
        requires
            seed_fits(seed, file, page, mutations),
        ensures
            b == (self@.data == payload(seed, file, page, mutations, W as nat)),
    {
        let data: [u64; W] = Self::generate_data(Self::assemble_seed(seed, file, page, mutations));
        words_equal(&data, &self.data)
    }

    /// Whether this page's payload is the one its own metadata generates. Any
    /// corruption of metadata or payload makes the generated words differ.
    pub fn is_valid(&self) -> (b: bool)
        requires
            seed_fits(self@.seed, self@.file, self@.page, self@.mutations),
        ensures
            b == self@.consistent(W as nat),
    {
        self.validate_page_with(self.seed, self.file, self.page, self.mutations)
    }

    /// Whether the page's payload is the one its own metadata generates, or
    /// `None` when the final seed of its metadata does not fit in 64 bits (for
    /// example for a page read from corrupted bytes), where `is_valid` cannot
    /// be asked.
    pub fn checked_is_valid(&self) -> (b: Option<bool>)
        ensures
            seed_fits(self@.seed, self@.file, self@.page, self@.mutations) <==> b is Some,
            b matches Some(v) ==> v == self@.consistent(W as nat),
    {
        let bits: u64 = ((!self.file) << 46u64) | (self.page << 32u64) | self.seed;
        if bits > u64::MAX - self.mutations {
            None
        } else {
            Some(self.is_valid())
        }
    }

    /// The page as text: the metadata words in hexadecimal, then the payload
    /// dumped one word per line, most significant byte first.
    pub fn describe(&self) -> (s: String)
        ensures
            s@ == page_text(self@),
    {
        page_description(self.seed, self.file, self.page, self.mutations, self.data.as_slice())
    }

    /// The metadata `(seed, file, page, mutations)`.
    pub fn get_metadata(&self) -> (m: (u64, u64, u64, u64))
        ensures
            m == (self@.seed, self@.file, self@.page, self@.mutations),
    {
        (self.seed, self.file, self.page, self.mutations)
    }

    /// Reinitialises every metadata field and regenerates the payload.
    pub fn reinit(&mut self, seed: u64, file: u64, page: u64, mutations: u64) -> (r: &Self)
        requires
            seed_fits(seed, file, page, mutations),
        ensures
            final(self)@ == page_of(seed, file, page, mutations, W as nat),
            final(self)@.consistent(W as nat),
            r@ == final(self)@,
    {
        self.seed = seed;
        self.file = file;
        self.page = page;
        self.mutations = mutations;
        self.data = Self::generate_data(Self::assemble_seed(self.seed, self.file, self.page, self.mutations));
        self
    }

    /// The page's memory image (metadata words, then payload words, each
    /// little-endian), as written to files.
    pub fn to_bytes(&self) -> (b: Vec<u8>)
        ensures
            b@ == self@.bytes(),
    {
        let mut out: Vec<u8> = Vec::new();
        let meta: [u64; 4] = [self.seed, self.file, self.page, self.mutations];
        append_words(&mut out, meta.as_slice());
        let ghost first = out@;
        append_words(&mut out, self.data.as_slice());
        proof {
            lemma_words_append(seq![self.seed, self.file, self.page, self.mutations], self.data@);
            assert(meta@ =~= seq![self.seed, self.file, self.page, self.mutations]);
        }
        out
    }

    /// Reads a page from its memory image; `None` when `bytes` is not exactly
    /// one page long.
    pub fn from_bytes(bytes: &[u8]) -> (p: Option<Page<W>>)
        requires
            (4 + W) * 8 <= usize::MAX,
        ensures
            bytes@.len() == (4 + W) * 8 <==> p is Some,
            p matches Some(q) ==> q@ == page_from_words(bytes_to_words(bytes@), W as nat),
    {
        if bytes.len() != (4 + W) * 8 {
            return None;
        }
        let ws = read_words(bytes, 4 + W);
        proof {
            assert(bytes@.subrange(0, 8 * (4 + W)) =~= bytes@);
        }
        let mut data: [u64; W] = [0u64; W];
        let mut i: usize = 0;
        while i < W
            invariant
                i <= W,
                (4 + W) * 8 <= usize::MAX,
                ws@.len() == 4 + W,
                data@.len() == W,
                forall|j: int| 0 <= j < i ==> data@[j] == ws@[4 + j],
            decreases W - i,
        {
            data[i] = ws[4 + i];
            i = i + 1;
        }
        let q = Page { seed: ws[0], file: ws[1], page: ws[2], mutations: ws[3], data };
        assert(q@.data =~= ws@.subrange(4, 4 + W as int));
        Some(q)
    }

    /// Advances the mutation count by one and regenerates the payload.
    pub fn mutate(&mut self) -> (r: &Self)
        requires
            old(self)@.mutations < u64::MAX,
            seed_fits(old(self)@.seed, old(self)@.file, old(self)@.page, (old(self)@.mutations + 1) as u64),
        ensures
            final(self)@ == page_of(old(self)@.seed, old(self)@.file, old(self)@.page, (old(self)@.mutations + 1) as u64, W as nat),
            final(self)@.consistent(W as nat),
            r@ == final(self)@,
    {
        self.mutations = self.mutations + 1;
        let data: [u64; W] = Self::generate_data(Self::assemble_seed(self.seed, self.file, self.page, self.mutations));
        self.data = data;
        self
    }

    /// Replaces the base seed, advances the mutation count by one and
    /// regenerates the payload.
    pub fn update_seed(&mut self, seed: u64) -> (r: &Self)
        requires
            old(self)@.mutations < u64::MAX,
            seed_fits(seed, old(self)@.file, old(self)@.page, (old(self)@.mutations + 1) as u64),
        ensures
            final(self)@ == page_of(seed, old(self)@.file, old(self)@.page, (old(self)@.mutations + 1) as u64, W as nat),
            final(self)@.consistent(W as nat),
            r@ == final(self)@,
    {
        self.seed = seed;
        self.mutations = self.mutations + 1;
        let data: [u64; W] = Self::generate_data(Self::assemble_seed(self.seed, self.file, self.page, self.mutations));
        self.data = data;
        self
    }

    /// Replaces the file identifier and regenerates the payload.
    pub fn update_file(&mut self, file: u64) -> (r: &Self)
        requires
            seed_fits(old(self)@.seed, file, old(self)@.page, old(self)@.mutations),
        ensures
            final(self)@ == page_of(old(self)@.seed, file, old(self)@.page, old(self)@.mutations, W as nat),
            final(self)@.consistent(W as nat),
            r@ == final(self)@,
    {
        self.file = file;
        let data: [u64; W] = Self::generate_data(Self::assemble_seed(self.seed, self.file, self.page, self.mutations));
        self.data = data;
        self
    }

    /// Replaces the page identifier and regenerates the payload.
    pub fn update_page(&mut self, page: u64) -> (r: &Self)
        requires
            seed_fits(old(self)@.seed, old(self)@.file, page, old(self)@.mutations),
        ensures
            final(self)@ == page_of(old(self)@.seed, old(self)@.file, page, old(self)@.mutations, W as nat),
            final(self)@.consistent(W as nat),
            r@ == final(self)@,
    {
        self.page = page;
        let data: [u64; W] = Self::generate_data(Self::assemble_seed(self.seed, self.file, self.page, self.mutations));
        self.data = data;
        self
    }
}

impl<const W: usize> PartialEq for Page<W> {
    /// Field by field equality.
    fn eq(&self, other: &Self) -> (r: bool) {
        if self.seed != other.seed { return false; }
        if self.file != other.file { return false; }
        if self.page != other.page { return false; }
        if self.mutations != other.mutations { return false; }
        words_equal(&self.data, &other.data)
    }
}

impl<const W: usize> vstd::std_specs::cmp::PartialEqSpecImpl for Page<W> {
    open spec fn obeys_eq_spec() -> bool {
        true
    }

    open spec fn eq_spec(&self, other: &Self) -> bool {
        self@ == other@
    }
}

/// Element-wise equality of two payloads.
pub fn words_equal<const W: usize>(a: &[u64; W], b: &[u64; W]) -> (eq: bool)
    ensures
        eq == (a@ == b@),
{
    let mut i: usize = 0;
    while i < W
        invariant
            i <= W,
            a@.len() == W,
            b@.len() == W,
            forall|j: int| 0 <= j < i ==> a@[j] == b@[j],
        decreases W - i,
    {
        if a[i] != b[i] {
            return false;
        }
        i = i + 1;
    }
    assert(a@ =~= b@);
    true
}

} // verus!
