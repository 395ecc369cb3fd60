//! The page, chapter, bookcase and scheduling types of the scribe tool.
pub mod bookcase;
pub mod codes;
pub mod chapter;
pub mod page;
pub mod scribe;
pub mod secretary;
pub mod writer;

use vstd::prelude::*;

verus! {

/// Size of a page in bytes.
pub const PAGE_SIZE: usize = 4096;

/// Pages per book.
pub const PAGE_COUNT: usize = 512;

/// Pages per chapter (one write).
pub const PAGES_PER_CHAPTER: usize = 256;

/// Bytes of page payload.
pub const DATA_SIZE: usize = PAGE_SIZE - page::METADATA_SIZE;

/// 64-bit words of page payload.
pub const WORDS: usize = DATA_SIZE / 8;

/// The bytes of one page.
pub type PageBytes = [u8; PAGE_SIZE];

} // verus!
