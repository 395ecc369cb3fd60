//! The bookcase: a directory (shelf) and file (book) layout under one path.
use vstd::prelude::*;
use crate::PAGE_BYTES;
use crate::naming::{component, component_name, joined, push_component, decimal};
use crate::constellation::OpenRequest;
use crate::text::{layout_lines, debug_quoted, push_layout_lines, push_debug_quoted};

verus! {

/// One layer (shelves or books) of the bookcase.
#[derive(Debug, Clone)]
struct LayerInfo {
    prefix: String,
    count: u64,
    size: usize,
}

/// Why bookcase plans could not be made.
#[derive(Debug)]
pub enum BookCaseError {
    /// The path prefix does not exist.
    MissingPath(String),
    /// There are no directories, or more directories than files.
    TooManyDirectories { directories: u64, files: u64 },
    /// The file size is not a non-zero multiple of `PAGE_BYTES`.
    InvalidFileSize { size: usize },
}

/// The abstract content of a bookcase.
pub struct BookCaseView {
    pub constructed: bool,
    pub path_prefix: Seq<char>,
    pub directory_prefix: Seq<char>,
    pub directory_count: u64,
    pub directory_size: usize,
    pub file_prefix: Seq<char>,
    pub file_count: u64,
    pub file_size: usize,
    pub direct_io: bool,
}

impl BookCaseView {
    /// The path of shelf `id`: the path prefix, then the directory prefix
    /// followed by `id % shelves` zero-padded to the digits of the shelf count.
    pub open spec fn shelf_path(self, id: u64) -> Seq<char> {
        joined(joined(Seq::empty(), self.path_prefix),
            component(self.directory_prefix, (id as int % self.directory_count as int) as nat,
                decimal(self.directory_count as nat).len()))
    }

    /// The description of the bookcase: its path prefix quoted as `{:?}`
    /// writes it, then the ranges of its shelf and book names (the text of
    /// its `Display`).
    pub open spec fn text(self) -> Seq<char> {
        layout_lines(debug_quoted(self.path_prefix), self.directory_prefix, self.directory_count as nat,
            self.file_prefix, self.file_count as nat)
    }

    /// The paths of all books.
    pub open spec fn book_paths(self) -> Set<Seq<char>> {
        Set::new(|p: Seq<char>| exists|i: u64| i < self.file_count && p == self.book_path(i))
    }

    /// A listing of the files in the shelves shows the bookcase assembled
    /// when it has one entry per book and, as a set, is exactly the set of
    /// the books' paths.
    pub open spec fn assembled_from(self, listing: Seq<Seq<char>>) -> bool {
        listing.len() == self.file_count && listing.to_set() == self.book_paths()
    }

    /// The path of book `id`: on shelf `id % shelves`, the file prefix followed
    /// by `id` zero-padded to the digits of the book count.
    pub open spec fn book_path(self, id: u64) -> Seq<char> {
        joined(self.shelf_path((id as int % self.directory_count as int) as u64),
            component(self.file_prefix, id as nat, decimal(self.file_count as nat).len()))
    }
}

/// Everything the application knows about the shelf and book structure:
/// `path_prefix/<directory prefix><n>/<file prefix><m>`, book `m` on shelf
/// `m % shelves`.
#[derive(Debug, Clone)]
pub struct BookCase {
    constructed: bool,
    path_prefix: String,
    directory: LayerInfo,
    file: LayerInfo,
    direct_io: bool,
}

impl View for BookCase {
    type V = BookCaseView;

    closed spec fn view(&self) -> BookCaseView {
        BookCaseView {
            constructed: self.constructed,
            path_prefix: self.path_prefix@,
            directory_prefix: self.directory.prefix@,
            directory_count: self.directory.count,
            directory_size: self.directory.size,
            file_prefix: self.file.prefix@,
            file_count: self.file.count,
            file_size: self.file.size,
            direct_io: self.direct_io,
        }
    }
}

/// A bookcase that is planned but not yet built on the file system.
#[derive(Debug, Clone)]
pub struct BookCasePlans {
    bookcase: BookCase,
}

impl View for BookCasePlans {
    type V = BookCaseView;

    closed spec fn view(&self) -> BookCaseView {
        self.bookcase@
    }
}

impl BookCasePlans {
    /// Plans a bookcase of `directory_count` shelves holding `file_count`
    /// books of `file_size` bytes. Fails when there are no shelves or more
    /// shelves than books, and when the book size is not a non-zero multiple
    /// of `PAGE_BYTES`, in that order.
    pub fn new(
        path_prefix: String,
        directory_prefix: String,
        directory_count: u64,
        file_prefix: String,
        file_count: u64,
        file_size: usize,
    ) -> (r: Result<BookCasePlans, BookCaseError>)
        ensures
            match r {
                Err(BookCaseError::TooManyDirectories { directories, files }) =>
                    (directory_count == 0 || file_count / directory_count < 1)
                    && directories == directory_count && files == file_count,
                Err(BookCaseError::InvalidFileSize { size }) =>
                    !(directory_count == 0 || file_count / directory_count < 1)
                    && (file_size < PAGE_BYTES || file_size % PAGE_BYTES != 0) && size == file_size,
                Err(_) => false,
                Ok(p) => {
                    &&& !(directory_count == 0 || file_count / directory_count < 1)
                    &&& !(file_size < PAGE_BYTES || file_size % PAGE_BYTES != 0)
                    &&& p@ == (BookCaseView {
                        constructed: false,
                        path_prefix: path_prefix@,
                        directory_prefix: directory_prefix@,
                        directory_count,
                        directory_size: 0,
                        file_prefix: file_prefix@,
                        file_count,
                        file_size,
                        direct_io: false,
                    })
                },
            },
    {
        if directory_count == 0 || (file_count / directory_count) < 1 {
            return Err(BookCaseError::TooManyDirectories { directories: directory_count, files: file_count });
        }
        if file_size < PAGE_BYTES || file_size % PAGE_BYTES != 0 {
            return Err(BookCaseError::InvalidFileSize { size: file_size });
        }
        Ok(BookCasePlans {
            bookcase: BookCase {
                constructed: false,
                path_prefix,
                directory: LayerInfo { prefix: directory_prefix, count: directory_count, size: 0 },
                file: LayerInfo { prefix: file_prefix, count: file_count, size: file_size },
                direct_io: false,
            },
        })
    }

    /// The planned bookcase.
    pub fn bookcase(&self) -> (b: &BookCase)
        ensures
            b@ == self@,
    {
        &self.bookcase
    }

    /// The plans of an existing bookcase.
    pub fn from_bookcase(bookcase: BookCase) -> (p: BookCasePlans)
        ensures
            p@ == bookcase@,
    {
        BookCasePlans { bookcase }
    }

    /// Builds the bookcase: when the file system does not already hold it
    /// (`assembled` is false), every book `0..count` must be created. Returns
    /// the bookcase and the ids of the books to create, in order.
    pub fn construct(self, assembled: bool) -> (r: (BookCase, Vec<u64>))
        ensures
            r.0@ == self@,
            r.1@ == (if assembled { Seq::empty() } else { Seq::new(self@.file_count as nat, |i: int| i as u64) }),
    {
        let mut ids: Vec<u64> = Vec::new();
        if !assembled {
            ids = id_range(self.bookcase.file.count);
        }
        (self.bookcase, ids)
    }
}

/// The ids `0..n`, in order.
fn id_range(n: u64) -> (ids: Vec<u64>)
    ensures
        ids@ == Seq::new(n as nat, |i: int| i as u64),
{
    let mut ids: Vec<u64> = Vec::new();
    let mut i: u64 = 0;
    while i < n
        invariant
            i <= n,
            ids@ == Seq::new(i as nat, |k: int| k as u64),
        decreases n - i,
    {
        ids.push(i);
        i = i + 1;
        assert(ids@ =~= Seq::new(i as nat, |k: int| k as u64));
    }
    ids
}

impl BookCase {
    /// Takes the bookcase apart: when the file system holds it (`assembled`),
    /// every shelf `0..count` must be removed with its books. Returns the plans
    /// of the same bookcase and the ids of the shelves to remove, in order.
    pub fn deconstruct(&self, assembled: bool) -> (r: (BookCasePlans, Vec<u64>))
        ensures
            r.0@ == self@,
            r.1@ == (if assembled { Seq::new(self@.directory_count as nat, |i: int| i as u64) } else { Seq::empty() }),
    {
        let mut ids: Vec<u64> = Vec::new();
        if assembled {
            ids = id_range(self.directory.count);
        }
        (BookCasePlans { bookcase: self.duplicate() }, ids)
    }

    /// A copy of the bookcase.
    fn duplicate(&self) -> (b: BookCase)
        ensures
            b@ == self@,
    {
        BookCase {
            constructed: self.constructed,
            path_prefix: self.path_prefix.clone(),
            directory: LayerInfo { prefix: self.directory.prefix.clone(), count: self.directory.count, size: self.directory.size },
            file: LayerInfo { prefix: self.file.prefix.clone(), count: self.file.count, size: self.file.size },
            direct_io: self.direct_io,
        }
    }

    /// A bookcase from all of its parts.
    pub fn from_parts(
        constructed: bool,
        path_prefix: String,
        directory: (String, u64, usize),
        file: (String, u64, usize),
        direct_io: bool,
    ) -> (b: BookCase)
        ensures
            b@ == (BookCaseView {
                constructed,
                path_prefix: path_prefix@,
                directory_prefix: directory.0@,
                directory_count: directory.1,
                directory_size: directory.2,
                file_prefix: file.0@,
                file_count: file.1,
                file_size: file.2,
                direct_io,
            }),
    {
        BookCase {
            constructed,
            path_prefix,
            directory: LayerInfo { prefix: directory.0, count: directory.1, size: directory.2 },
            file: LayerInfo { prefix: file.0, count: file.1, size: file.2 },
            direct_io,
        }
    }

    /// All parts of the bookcase, as `from_parts` takes them.
    pub fn parts(&self) -> (r: (bool, String, (String, u64, usize), (String, u64, usize), bool))
        ensures
            r.0 == self@.constructed,
            r.1@ == self@.path_prefix,
            r.2.0@ == self@.directory_prefix && r.2.1 == self@.directory_count && r.2.2 == self@.directory_size,
            r.3.0@ == self@.file_prefix && r.3.1 == self@.file_count && r.3.2 == self@.file_size,
            r.4 == self@.direct_io,
    {
        (
            self.constructed,
            self.path_prefix.clone(),
            (self.directory.prefix.clone(), self.directory.count, self.directory.size),
            (self.file.prefix.clone(), self.file.count, self.file.size),
            self.direct_io,
        )
    }

    /// The bookcase as text: its path prefix, quoted, then the ranges of its
    /// shelf and book names.
    pub fn describe(&self) -> (s: String)
        requires
            self@.directory_count > 0,
            self@.file_count > 0,
        ensures
            s@ == self@.text(),
    {
        let mut quoted = String::new();
        push_debug_quoted(&mut quoted, self.path_prefix.as_str());
        let mut s = String::new();
        push_layout_lines(&mut s, quoted.as_str(), self.directory.prefix.as_str(), self.directory.count,
            self.file.prefix.as_str(), self.file.count);
        assert(s@ =~= self@.text());
        s
    }

    /// Turns on direct IO for the books.
    pub fn use_direct_io(&mut self)
        ensures
            final(self)@ == (BookCaseView { direct_io: true, ..old(self)@ }),
    {
        self.direct_io = true;
    }

    /// The path of shelf `id`.
    pub fn shelf_location(&self, id: u64) -> (p: String)
        requires
            id < self@.directory_count,
        ensures
            p@ == self@.shelf_path(id),
    {
        let mut location: String = String::new();
        push_component(&mut location, self.path_prefix.as_str());
        let dwidth: usize = crate::naming::decimal_width(self.directory.count) as usize;
        let shelf: String = component_name(self.directory.prefix.as_str(), id % self.directory.count, dwidth);
        push_component(&mut location, shelf.as_str());
        location
    }

    /// The path of book `id`: on shelf `id % shelves`.
    pub fn book_location(&self, id: u64) -> (p: String)
        requires
            id < self@.file_count,
            self@.directory_count > 0,
        ensures
            p@ == self@.book_path(id),
    {
        let mut location: String = self.shelf_location(id % self.directory.count);
        let fwidth: usize = crate::naming::decimal_width(self.file.count) as usize;
        let book: String = component_name(self.file.prefix.as_str(), id, fwidth);
        push_component(&mut location, book.as_str());
        location
    }

    /// Plans opening book `id` for (read|write): created unless opened
    /// read-only, with direct IO when the bookcase uses it.
    pub fn open_book(&self, id: u64, read: bool, write: bool) -> (r: OpenRequest)
        requires
            id < self@.file_count,
            self@.directory_count > 0,
        ensures
            r.path@ == self@.book_path(id),
            r.read == read,
            r.write == write,
            r.create == !(read && !write),
            r.direct_io == self@.direct_io,
    {
        OpenRequest {
            path: self.book_location(id),
            read,
            write,
            create: if read && !write { false } else { true },
            direct_io: self.direct_io,
        }
    }

    /// The number of shelves.
    #[inline(always)]
    pub fn shelf_count(&self) -> (n: u64)
        ensures
            n == self@.directory_count,
    {
        self.directory.count
    }

    /// The size of each book, in bytes.
    #[inline(always)]
    pub fn book_size(&self) -> (n: usize)
        ensures
            n == self@.file_size,
    {
        self.file.size
    }

    /// The number of books.
    #[inline(always)]
    pub fn book_count(&self) -> (n: u64)
        ensures
            n == self@.file_count,
    {
        self.file.count
    }

    /// Whether the bookcase is assembled, given the listing of the files found
    /// in the shelves under the path prefix: it is when the listing holds as
    /// many entries as there are books and, as a set, is exactly the set of
    /// the books' paths.
    pub fn is_assembled(&self, listing: &Vec<String>) -> (b: bool)
        requires
            listing@.len() == self@.file_count && self@.file_count > 0 ==> self@.directory_count > 0,
        ensures
            b == self@.assembled_from(listing@.map_values(|p: String| p@)),
    {
        let ghost lv = listing@.map_values(|p: String| p@);
        if listing.len() as u64 != self.file.count {
            return false;
        }
        let count: u64 = self.file.count;
        let mut books: Vec<String> = Vec::new();
        let mut i: u64 = 0;
        while i < count
            invariant
                i <= count,
                count == self@.file_count,
                count > 0 ==> self@.directory_count > 0,
                books@.len() == i,
                forall|k: int| 0 <= k < i ==> #[trigger] books@[k]@ == self@.book_path(k as u64),
            decreases count - i,
        {
            books.push(self.book_location(i));
            i = i + 1;
        }
        let ghost bv = books@.map_values(|p: String| p@);
        assert forall|p: Seq<char>| bv.contains(p) <==> self@.book_paths().contains(p) by {
            if bv.contains(p) {
                let k = choose|k: int| 0 <= k < bv.len() && bv[k] == p;
                assert(books@[k]@ == self@.book_path(k as u64));
            }
            if self@.book_paths().contains(p) {
                let j = choose|j: u64| j < self@.file_count && p == self@.book_path(j);
                assert(bv[j as int] == p);
            }
        }
        assert(bv.to_set() =~= self@.book_paths());
        let mut k: usize = 0;
        while k < books.len()
            invariant
                k <= books@.len(),
                bv == books@.map_values(|p: String| p@),
                lv == listing@.map_values(|p: String| p@),
                bv.to_set() == self@.book_paths(),
                forall|j: int| 0 <= j < k ==> lv.contains(#[trigger] bv[j]),
            decreases books.len() - k,
        {
            if !contains_path(listing, &books[k]) {
                assert(!lv.to_set().contains(bv[k as int]));
                assert(bv.to_set().contains(bv[k as int]));
                return false;
            }
            k = k + 1;
        }
        let mut k: usize = 0;
        while k < listing.len()
            invariant
                k <= listing@.len(),
                bv == books@.map_values(|p: String| p@),
                lv == listing@.map_values(|p: String| p@),
                bv.to_set() == self@.book_paths(),
                forall|j: int| 0 <= j < books@.len() ==> lv.contains(#[trigger] bv[j]),
                forall|j: int| 0 <= j < k ==> bv.contains(#[trigger] lv[j]),
            decreases listing.len() - k,
        {
            if !contains_path(&books, &listing[k]) {
                assert(!bv.to_set().contains(lv[k as int]));
                assert(lv.to_set().contains(lv[k as int]));
                return false;
            }
            k = k + 1;
        }
        assert forall|p: Seq<char>| lv.to_set().contains(p) <==> bv.to_set().contains(p) by {
            if lv.contains(p) {
                let j = choose|j: int| 0 <= j < lv.len() && lv[j] == p;
                assert(bv.contains(lv[j]));
            }
            if bv.contains(p) {
                let j = choose|j: int| 0 <= j < bv.len() && bv[j] == p;
                assert(lv.contains(bv[j]));
            }
        }
        assert(lv.to_set() =~= self@.book_paths());
        true
    }
}

/// Whether `paths` holds a path equal to `p`.
fn contains_path(paths: &Vec<String>, p: &String) -> (b: bool)
    ensures
        b == paths@.map_values(|q: String| q@).contains(p@),
{
    let ghost pv = paths@.map_values(|q: String| q@);
    let mut i: usize = 0;
    while i < paths.len()
        invariant
            i <= paths@.len(),
            pv == paths@.map_values(|q: String| q@),
            forall|j: int| 0 <= j < i ==> pv[j] != p@,
        decreases paths.len() - i,
    {
        if paths[i] == *p {
            assert(pv[i as int] == p@);
            return true;
        }
        i = i + 1;
    }
    false
}

} // verus!
