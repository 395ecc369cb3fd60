//! The bookcase of the scribe tool's first layout: borrowed names, 32-bit
//! shelf and book counts, no construction state.
use vstd::prelude::*;
use vstd::string::*;
use crate::naming::{component, component_name, decimal};
use crate::constellation::OpenRequest;
use crate::text::{layout_lines, page_lines, push_layout_lines, push_page_lines};

verus! {

/// Shelves `path/<directory prefix><n>` holding books
/// `<file prefix><m>` (book `m` on shelf `m % shelves`) of `page_count` pages of
/// `page_size` bytes.
#[derive(Debug, Clone, Copy)]
pub struct BookCase<'a> {
    path_prefix: &'a str,
    directory_prefix: &'a str,
    directory_count: u32,
    file_prefix: &'a str,
    file_count: u32,
    page_size: usize,
    page_count: u64,
}

impl<'a> BookCase<'a> {
    pub closed spec fn path_prefix(self) -> Seq<char> {
        self.path_prefix@
    }

    pub closed spec fn directory_prefix(self) -> Seq<char> {
        self.directory_prefix@
    }

    pub closed spec fn directory_count(self) -> u32 {
        self.directory_count
    }

    pub closed spec fn file_prefix(self) -> Seq<char> {
        self.file_prefix@
    }

    pub closed spec fn file_count(self) -> u32 {
        self.file_count
    }

    pub closed spec fn page_size(self) -> usize {
        self.page_size
    }

    pub closed spec fn spec_page_count(self) -> u64 {
        self.page_count
    }

    /// `<path prefix>/<directory prefix><id % shelves, padded>`.
    pub open spec fn shelf_path(self, id: u32) -> Seq<char> {
        self.path_prefix() + seq!['/'] + component(self.directory_prefix(),
            (id as int % self.directory_count() as int) as nat, decimal(self.directory_count() as nat).len())
    }

    /// `<shelf path>/<file prefix><id, padded>`.
    pub open spec fn book_path(self, id: u32) -> Seq<char> {
        self.shelf_path(id) + seq!['/'] + component(self.file_prefix(), id as nat, decimal(self.file_count() as nat).len())
    }

    /// The description of the bookcase: its path, the ranges of its shelf and
    /// book names, and its page size and count (the text of its `Display`).
    pub open spec fn text(self) -> Seq<char> {
        layout_lines(self.path_prefix(), self.directory_prefix(), self.directory_count() as nat,
            self.file_prefix(), self.file_count() as nat)
            + page_lines(self.page_size() as nat, self.spec_page_count() as nat)
    }

    /// The bookcase as text: its path, the ranges of its shelf and book
    /// names, and its page size and count.
    pub fn describe(self) -> (s: String)
        requires
            self.directory_count() > 0,
            self.file_count() > 0,
        ensures
            s@ == self.text(),
    {
        let mut s = String::new();
        push_layout_lines(&mut s, self.path_prefix, self.directory_prefix, self.directory_count as u64,
            self.file_prefix, self.file_count as u64);
        push_page_lines(&mut s, self.page_size as u64, self.page_count);
        assert(s@ =~= self.text());
        s
    }

    pub fn new(
        path_prefix: &'a str,
        directory_prefix: &'a str,
        directory_count: u32,
        file_prefix: &'a str,
        file_count: u32,
        page_size: usize,
        page_count: u64,
    ) -> (b: BookCase<'a>)
        ensures
            b.path_prefix() == path_prefix@,
            b.directory_prefix() == directory_prefix@,
            b.directory_count() == directory_count,
            b.file_prefix() == file_prefix@,
            b.file_count() == file_count,
            b.page_size() == page_size,
            b.spec_page_count() == page_count,
    {
        BookCase { path_prefix, directory_prefix, directory_count, file_prefix, file_count, page_size, page_count }
    }

    /// The books to create to construct the bookcase: `0..count`.
    pub fn construct(self) -> (ids: Vec<u32>)
        ensures
            ids@ == Seq::new(self.file_count() as nat, |i: int| i as u32),
    {
        let mut ids: Vec<u32> = Vec::new();
        let mut i: u32 = 0;
        while i < self.file_count
            invariant
                i <= self.file_count,
                ids@ == Seq::new(i as nat, |k: int| k as u32),
            decreases self.file_count - i,
        {
            ids.push(i);
            i = i + 1;
            assert(ids@ =~= Seq::new(i as nat, |k: int| k as u32));
        }
        ids
    }

    /// The shelves to remove, with their books, to demolish the bookcase:
    /// the paths of shelves `0..count`.
    pub fn demolish(self) -> (paths: Vec<String>)
        requires
            self.directory_count() > 0,
        ensures
            paths@.len() == self.directory_count(),
            forall|i: int| 0 <= i < self.directory_count() ==> (#[trigger] paths@[i])@ == self.shelf_path(i as u32),
    {
        let mut paths: Vec<String> = Vec::new();
        let mut i: u32 = 0;
        while i < self.directory_count
            invariant
                i <= self.directory_count,
                self.directory_count() > 0,
                paths@.len() == i,
                forall|k: int| 0 <= k < i ==> (#[trigger] paths@[k])@ == self.shelf_path(k as u32),
            decreases self.directory_count - i,
        {
            paths.push(self.shelf_location(i));
            i = i + 1;
        }
        paths
    }

    /// The path of shelf `id % shelves`.
    fn shelf_location(self, id: u32) -> (p: String)
        requires
            self.directory_count() > 0,
        ensures
            p@ == self.shelf_path(id),
    {
        let mut p = String::from_str(self.path_prefix);
        proof { reveal_strlit("/"); }
        p.append("/");
        let shelf = component_name(self.directory_prefix, (id % self.directory_count) as u64,
            crate::naming::decimal_width(self.directory_count as u64) as usize);
        p.append(shelf.as_str());
        p
    }

    /// The path of book `id`.
    pub fn book_location(self, id: u32) -> (p: String)
        requires
            id < self.file_count(),
            self.directory_count() > 0,
        ensures
            p@ == self.book_path(id),
    {
        let mut p = self.shelf_location(id);
        proof { reveal_strlit("/"); }
        p.append("/");
        let book = component_name(self.file_prefix, id as u64, crate::naming::decimal_width(self.file_count as u64) as usize);
        p.append(book.as_str());
        assert(p@ =~= self.book_path(id));
        p
    }

    /// Plans opening book `id`: always created if missing.
    pub fn open_book(self, id: u32, read: bool, write: bool) -> (r: OpenRequest)
        requires
            id < self.file_count(),
            self.directory_count() > 0,
        ensures
            r.path@ == self.book_path(id),
            r.read == read,
            r.write == write,
            r.create,
            !r.direct_io,
    {
        OpenRequest { path: self.book_location(id), read, write, create: true, direct_io: false }
    }

    /// The size of a book in bytes: pages times page size.
    #[inline(always)]
    pub fn book_size(self) -> (n: usize)
        requires
            self.spec_page_count() <= usize::MAX,
            self.spec_page_count() * self.page_size() <= usize::MAX,
        ensures
            n == self.spec_page_count() * self.page_size(),
    {
        (self.page_count as usize) * self.page_size
    }

    /// The number of books.
    #[inline(always)]
    pub fn book_count(self) -> (n: u32)
        ensures
            n == self.file_count(),
    {
        self.file_count
    }

    /// The number of pages per book.
    #[inline(always)]
    pub fn page_count(self) -> (n: u64)
        ensures
            n == self.spec_page_count(),
    {
        self.page_count
    }

    /// The number of 64-bit words per page.
    #[inline(always)]
    pub fn word_count(self) -> (n: u64)
        ensures
            n == self.page_size() / 8,
    {
        self.page_size as u64 / 8
    }
}

} // verus!
