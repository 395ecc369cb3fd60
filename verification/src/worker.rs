//! The decisions of a benchmark worker: which work items start a chapter,
//! where that chapter lies, and when a read has run out of whole pages.
use vstd::prelude::*;
use crate::{PAGE_BYTES, PAGES_PER_CHAPTER};

verus! {

/// The `(file, page)` of work item `work` when every file holds
/// `pages_per_file` pages: items count pages file after file.
pub fn chapter_start(work: u64, pages_per_file: u64) -> (r: (u64, u64))
    requires
        pages_per_file > 0,
    ensures
        r == (work / pages_per_file, work % pages_per_file),
{
    (work / pages_per_file, work % pages_per_file)
}

/// Whether a read of `bytes_read` bytes brought whole pages: a read of
/// nothing, or of a part of a page, ends the reading of a file.
pub fn whole_pages_read(bytes_read: usize) -> (b: bool)
    ensures
        b == (bytes_read != 0 && bytes_read % PAGE_BYTES == 0),
{
    bytes_read != 0 && bytes_read % PAGE_BYTES == 0
}

/// Picks, among the work items a worker takes from its queue, the ones that
/// start a chapter: the first item and then every `PAGES_PER_CHAPTER`-th.
pub struct ChapterSelector {
    taken: u64,
}

impl ChapterSelector {
    /// How many items the worker has taken so far.
    pub closed spec fn taken(&self) -> u64 {
        self.taken
    }

    /// A selector for a worker that has taken nothing yet.
    pub fn new() -> (s: ChapterSelector)
        ensures
            s.taken() == 0,
    {
        ChapterSelector { taken: 0 }
    }

    /// Takes work item `work`: when it starts a chapter, returns the chapter's
    /// `(file, first page)`.
    pub fn select(&mut self, work: u64, pages_per_file: u64) -> (r: Option<(u64, u64)>)
        requires
            pages_per_file > 0,
            old(self).taken() < u64::MAX,
        ensures
            final(self).taken() == old(self).taken() + 1,
            r == (if old(self).taken() as int % (PAGES_PER_CHAPTER as int) == 0 {
                Some((work / pages_per_file, work % pages_per_file))
            } else {
                None
            }),
    {
        let position: u64 = self.taken;
        self.taken = self.taken + 1;
        if position % (PAGES_PER_CHAPTER as u64) == 0 {
            Some(chapter_start(work, pages_per_file))
        } else {
            None
        }
    }
}

/// The step of the page queue of the create and bench modes: the page after
/// the current one, and nothing past the last `u64` or once the queue holds
/// nothing.
pub fn next_page(lower: u64, current: Option<u64>, upper: u64, iteration: u64) -> (r: Option<u64>)
    ensures
        r == (match current {
            Some(v) => if v < u64::MAX { Some((v + 1) as u64) } else { None },
            None => None,
        }),
{
    match current {
        Some(v) => v.checked_add(1),
        None => None,
    }
}

} // verus!
