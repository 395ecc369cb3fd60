//! The scribe bookcase: shelves (directories) of books (files) of pages.
use vstd::prelude::*;
use vstd::string::*;
use crate::naming::{component, component_name, zero_padded, decimal, push_zero_padded};
use crate::constellation::OpenRequest;
use crate::text::{layout_lines, page_lines, push_layout_lines, push_page_lines};

verus! {

/// The abstract content of a scribe bookcase.
pub struct ShelvesView {
    pub constructed: bool,
    pub path_prefix: Seq<char>,
    pub directory_prefix: Seq<char>,
    pub directory_count: u64,
    pub file_prefix: Seq<char>,
    pub file_count: u64,
    pub page_size: usize,
    pub page_count: u64,
}

impl ShelvesView {
    /// `<path prefix>/<directory prefix><id % shelves, padded>`.
    pub open spec fn shelf_path(self, id: u64) -> Seq<char> {
        self.path_prefix + seq!['/'] + component(self.directory_prefix,
            (id as int % self.directory_count as int) as nat, decimal(self.directory_count as nat).len())
    }

    /// The description of the bookcase: its path, the ranges of its shelf and
    /// book names, and its page size and count (the text of its `Display`).
    pub open spec fn text(self) -> Seq<char> {
        layout_lines(self.path_prefix, self.directory_prefix, self.directory_count as nat,
            self.file_prefix, self.file_count as nat)
            + page_lines(self.page_size as nat, self.page_count as nat)
    }

    /// The books that constructing the bookcase creates: all of them, `0..count`,
    /// unless it is already constructed.
    pub open spec fn books_to_create(self) -> Seq<u64> {
        if self.constructed { Seq::empty() } else { Seq::new(self.file_count as nat, |i: int| i as u64) }
    }

    /// The shelves that demolishing the bookcase removes, with their books:
    /// all of them, `0..count`, if it is constructed.
    pub open spec fn shelves_to_remove(self) -> Seq<u64> {
        if self.constructed { Seq::new(self.directory_count as nat, |i: int| i as u64) } else { Seq::empty() }
    }

    /// `<shelf path>/<file prefix><id, padded>`.
    pub open spec fn book_path(self, id: u64) -> Seq<char> {
        self.shelf_path((id as int % self.directory_count as int) as u64) + seq!['/'] + component(self.file_prefix, id as nat, decimal(self.file_count as nat).len())
    }
}

/// Everything the scribe tool knows about its directory, file and page
/// structure: `path/<directory prefix><n>/<file prefix><m>`, book `m` on
/// shelf `m % shelves`, each book `page_count` pages of `page_size` bytes.
#[derive(Debug, Clone)]
pub struct BookCase {
    constructed: bool,
    path_prefix: String,
    directory_prefix: String,
    directory_count: u64,
    file_prefix: String,
    file_count: u64,
    page_size: usize,
    page_count: u64,
}

impl View for BookCase {
    type V = ShelvesView;

    closed spec fn view(&self) -> ShelvesView {
        ShelvesView {
            constructed: self.constructed,
            path_prefix: self.path_prefix@,
            directory_prefix: self.directory_prefix@,
            directory_count: self.directory_count,
            file_prefix: self.file_prefix@,
            file_count: self.file_count,
            page_size: self.page_size,
            page_count: self.page_count,
        }
    }
}

/// The ids `0..n`, in order.
pub fn ids_below(n: u64) -> (ids: Vec<u64>)
    ensures
        ids@ == Seq::new(n as nat, |i: int| i as u64),
{
    let mut ids: Vec<u64> = Vec::new();
    let mut i: u64 = 0;
    while i < n
        invariant
            i <= n,
            ids@ == Seq::new(i as nat, |k: int| k as u64),
        decreases n - i,
    {
        ids.push(i);
        i = i + 1;
        assert(ids@ =~= Seq::new(i as nat, |k: int| k as u64));
    }
    ids
}

impl BookCase {
    /// A bookcase that is not yet constructed.
    pub fn new(
        path_prefix: String,
        directory_prefix: String,
        directory_count: u64,
        file_prefix: String,
        file_count: u64,
        page_size: usize,
        page_count: u64,
    ) -> (b: BookCase)
        ensures
            b@ == (ShelvesView {
                constructed: false,
                path_prefix: path_prefix@,
                directory_prefix: directory_prefix@,
                directory_count,
                file_prefix: file_prefix@,
                file_count,
                page_size,
                page_count,
            }),
    {
        BookCase {
            constructed: false,
            path_prefix,
            directory_prefix,
            directory_count,
            file_prefix,
            file_count,
            page_size,
            page_count,
        }
    }

    /// The books to create to construct the bookcase: all of them, `0..count`,
    /// unless it is already constructed.
    pub fn construct(&self) -> (ids: Vec<u64>)
        ensures
            ids@ == self@.books_to_create(),
    {
        if !self.constructed {
            ids_below(self.file_count)
        } else {
            Vec::new()
        }
    }

    /// The shelves to remove, with their books, to demolish the bookcase:
    /// all of them, `0..count`, if it is constructed.
    pub fn demolish(&self) -> (ids: Vec<u64>)
        ensures
            ids@ == self@.shelves_to_remove(),
    {
        if self.constructed {
            ids_below(self.directory_count)
        } else {
            Vec::new()
        }
    }

    /// The bookcase as text: its path, the ranges of its shelf and book
    /// names, and its page size and count.
    pub fn describe(&self) -> (s: String)
        requires
            self@.directory_count > 0,
            self@.file_count > 0,
        ensures
            s@ == self@.text(),
    {
        let mut s = String::new();
        push_layout_lines(&mut s, self.path_prefix.as_str(), self.directory_prefix.as_str(), self.directory_count,
            self.file_prefix.as_str(), self.file_count);
        push_page_lines(&mut s, self.page_size as u64, self.page_count);
        assert(s@ =~= self@.text());
        s
    }

    /// Records whether the bookcase exists on the file system.
    pub fn set_constructed(&mut self, constructed: bool)
        ensures
            final(self)@ == (ShelvesView { constructed, ..old(self)@ }),
    {
        self.constructed = constructed;
    }

    /// The path of shelf `id`: `<path prefix>/<directory prefix><id, padded>`.
    pub fn shelf_location(&self, id: u64) -> (p: String)
        requires
            id < self@.directory_count,
        ensures
            p@ == self@.shelf_path(id),
    {
        let mut p = self.path_prefix.clone();
        proof { reveal_strlit("/"); }
        p.append("/");
        let shelf = component_name(self.directory_prefix.as_str(), id % self.directory_count,
            crate::naming::decimal_width(self.directory_count) as usize);
        p.append(shelf.as_str());
        p
    }

    /// The path of book `id`: on shelf `id % shelves`.
    pub fn book_location(&self, id: u64) -> (p: String)
        requires
            id < self@.file_count,
            self@.directory_count > 0,
        ensures
            p@ == self@.book_path(id),
    {
        let mut p = self.shelf_location(id % self.directory_count);
        proof { reveal_strlit("/"); }
        p.append("/");
        let book = component_name(self.file_prefix.as_str(), id, crate::naming::decimal_width(self.file_count) as usize);
        p.append(book.as_str());
        assert(p@ =~= self@.book_path(id));
        p
    }

    /// Plans opening book `id` for (read|write). Opening never creates a
    /// book: a book that `construct` did not make, or that was removed, is not
    /// found, whether it is opened for reading or for writing.
    pub fn open_book(&self, id: u64, read: bool, write: bool) -> (r: OpenRequest)
        requires
            id < self@.file_count,
            self@.directory_count > 0,
        ensures
            r.path@ == self@.book_path(id),
            r.read == read,
            r.write == write,
            !r.create,
            !r.direct_io,
    {
        OpenRequest {
            path: self.book_location(id),
            read,
            write,
            create: false,
            direct_io: false,
        }
    }

    /// The size of a book in bytes: pages times page size.
    #[inline(always)]
    pub fn book_size(&self) -> (n: usize)
        requires
            self@.page_count <= usize::MAX,
            self@.page_count * self@.page_size <= usize::MAX,
        ensures
            n == self@.page_count * self@.page_size,
    {
        (self.page_count as usize) * self.page_size
    }

    /// The number of shelves.
    #[inline(always)]
    pub fn shelf_count(&self) -> (n: u64)
        ensures
            n == self@.directory_count,
    {
        self.directory_count
    }

    /// The number of books.
    #[inline(always)]
    pub fn book_count(&self) -> (n: u64)
        ensures
            n == self@.file_count,
    {
        self.file_count
    }

    /// The number of pages per book.
    #[inline(always)]
    pub fn page_count(&self) -> (n: u64)
        ensures
            n == self@.page_count,
    {
        self.page_count
    }

    /// The number of 64-bit words per page.
    #[inline(always)]
    pub fn word_count(&self) -> (n: u64)
        ensures
            n == self@.page_size / 8,
    {
        self.page_size as u64 / 8
    }
}

/// Construction is idempotent and demolition undoes it: a bookcase that is
/// not constructed asks to create every book and to remove nothing; once it is
/// marked constructed, constructing again asks for nothing and demolishing asks
/// to remove every shelf; marked not constructed again, it is back where it
/// started.
pub proof fn lemma_construct_demolish_cycle(v: ShelvesView)
    requires
        !v.constructed,
    ensures
        v.books_to_create() == Seq::new(v.file_count as nat, |i: int| i as u64),
        v.shelves_to_remove() == Seq::<u64>::empty(),
        (ShelvesView { constructed: true, ..v }).books_to_create() == Seq::<u64>::empty(),
        (ShelvesView { constructed: true, ..v }).shelves_to_remove() == Seq::new(v.directory_count as nat, |i: int| i as u64),
        (ShelvesView { constructed: false, ..(ShelvesView { constructed: true, ..v }) }) == v,
{
}

} // verus!
