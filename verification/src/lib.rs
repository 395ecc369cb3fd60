//! A file-system benchmark toolkit: deterministic, self-validating pages of
//! data, the directory and file layouts that hold them, and the work queues
//! that hand pages out to workers.
use vstd::prelude::*;

pub mod rng;
pub mod page;
pub mod chapter;
pub mod words;
pub mod naming;
pub mod text;
pub mod queue;
pub mod scribe;
pub mod constellation;
pub mod bookcase;
pub mod inspector;
pub mod aio;
pub mod quill;
pub mod mode;
pub mod worker;

verus! {

/// Size of a Page in bytes.
pub const PAGE_BYTES: usize = 4096;

/// Size of a Page's metadata fields in bytes (four 64-bit words).
pub const METADATA_BYTES: usize = 32;

/// Size of a Page's data payload in bytes.
pub const DATA_BYTES: usize = PAGE_BYTES - METADATA_BYTES;

/// Number of 64-bit words of a Page's data payload.
pub const DATA_WORDS: usize = DATA_BYTES / 8;

/// Pages contained in a Book (file).
pub const PAGE_COUNT: usize = 512;

/// How many Pages are used in a single writable chunk.
pub const PAGES_PER_CHAPTER: usize = 256;

/// The bytes of one page.
pub type PageBytes = [u8; PAGE_BYTES];

} // verus!
