//! A constellation of files spread over roots and directories.
use vstd::prelude::*;
use crate::naming::{component, component_name, joined, push_component, decimal};
use crate::text::{name_range, push_name_range};

verus! {

/// Options for the files of a constellation.
#[derive(Debug, Clone, Copy)]
pub struct FileOptions {
    pub directo_io: bool,
}

/// The position of a file: its file, directory and root numbers.
#[derive(Debug, Clone, Copy)]
struct FileIdentifier {
    file: u64,
    directory: u64,
    root: u64,
}

/// One layer of the constellation (directories or files).
#[derive(Debug)]
struct LayerInfo {
    /// String prefix for the layer's name.
    prefix: String,
    /// Total number of items in this layer.
    count: u64,
    /// The number of bytes in items of this layer (only relevant for files).
    size: Option<u64>,
    /// Additional options for this layer (only relevant for files).
    options: Option<FileOptions>,
}

/// Why a constellation could not be described or a file could not be found.
#[derive(Debug)]
pub enum ConstellationError {
    /// A root path does not exist.
    MissingRoot(String),
    /// There are no directories, or more directories than files.
    TooManyDirectories { directories: u64, files: u64 },
    /// Files must have a non-zero size.
    ZeroFileSize,
    /// File sizes must be a multiple of 64 bytes.
    MisalignedFileSize,
    /// A requested file id lies past the constellation; `max` is the number
    /// of files per directory.
    IdOutOfBounds { requested: u64, max: u64 },
}

/// What an `open` call asks of the file system: which path, and the
/// read/write/create/direct-IO options.
#[derive(Debug)]
pub struct OpenRequest {
    pub path: String,
    pub read: bool,
    pub write: bool,
    pub create: bool,
    pub direct_io: bool,
}

/// The abstract description of a constellation.
pub struct ConstellationView {
    pub roots: Seq<Seq<char>>,
    pub directory_prefix: Seq<char>,
    pub directories: u64,
    pub file_prefix: Seq<char>,
    pub files: u64,
    pub size: u64,
    pub direct_io: bool,
    pub drop: bool,
}

impl ConstellationView {
    /// Total number of directories, over all roots.
    pub open spec fn total_directories(self) -> int {
        self.roots.len() * self.directories
    }

    /// Total number of files.
    pub open spec fn total_files(self) -> int {
        self.roots.len() * self.directories * self.files
    }

    /// The path of the directory that holds file `id`:
    /// `root[id % roots] / <dir prefix><id % (dirs * roots), padded>`.
    pub open spec fn directory_path(self, id: u64) -> Seq<char> {
        let r = self.roots.len() as int;
        let td = self.total_directories();
        joined(self.roots[(id as int) % r], component(self.directory_prefix, ((id as int) % td) as nat, decimal(td as nat).len()))
    }

    /// The path of file `id`:
    /// `<directory path> / <file prefix><id % total files, padded>`.
    pub open spec fn file_path(self, id: u64) -> Seq<char> {
        let tf = self.total_files();
        joined(self.directory_path(id), component(self.file_prefix, ((id as int) % tf) as nat, decimal(tf as nat).len()))
    }

    /// The description of the constellation: its roots, one per line, then
    /// the ranges of its directory and file names (the text of its
    /// `Display`).
    pub open spec fn text(self) -> Seq<char> {
        let td = self.total_directories();
        let tf = self.total_files();
        "Roots:............"@ + seq!['\n'] + root_lines(self.roots)
            + "Directory Names:.. "@ + name_range(self.directory_prefix, (td - 1) as nat, decimal(td as nat).len())
            + seq!['\n', '\n']
            + "File Names:....... "@ + name_range(self.file_prefix, (tf - 1) as nat, decimal(tf as nat).len())
            + seq!['\n', '\n']
    }

    /// Whether file `id` can be located: ids up to and including the total
    /// number of files are accepted.
    pub open spec fn id_in_bounds(self, id: u64) -> bool {
        id <= self.total_files()
    }
}

/// The roots, each on a line of its own after a tab.
pub open spec fn root_lines(roots: Seq<Seq<char>>) -> Seq<char>
    decreases roots.len(),
{
    if roots.len() == 0 {
        Seq::empty()
    } else {
        root_lines(roots.drop_last()) + seq!['\t'] + roots.last() + seq!['\n']
    }
}

/// With `c >= 1`, the product `a * b` is at most `a * b * c`.
proof fn lemma_product_prefix(a: int, b: int, c: int)
    requires
        a >= 0,
        b >= 0,
        c >= 1,
    ensures
        a * b <= a * b * c,
{
    assert(a * b <= a * b * c) by (nonlinear_arith)
        requires a >= 0, b >= 0, c >= 1;
}

/// The layout is round-robin: with `r` roots, `d` directories per root and
/// `f` files per directory, file `id` has file number `id % (r * d * f)`,
/// directory number `id % (r * d)` and root number `id % r`, and the file
/// number is congruent to the directory number modulo the number of
/// directories, which is in turn congruent to the root number modulo the
/// number of roots: a file lies in the directory in which its number is
/// congruent, and a directory under the root in which its number is.
pub proof fn lemma_round_robin(id: int, r: int, d: int, f: int)
    requires
        r > 0,
        d > 0,
        f > 0,
    ensures
        (id % (r * d * f)) % (r * d) == id % (r * d),
        (id % (r * d)) % r == id % r,
{
    assert(r * d > 0) by (nonlinear_arith)
        requires r > 0, d > 0;
    vstd::arithmetic::div_mod::lemma_mod_mod(id, r * d, f);
    vstd::arithmetic::div_mod::lemma_mod_mod(id, r, d);
}

/// # Overview
/// A constellation instantiates a large number of files, potentially across
/// file systems, under _roots_; each root holds _directories_ and each
/// directory holds _files_. Directories and files are named `<prefix><ID>`
/// and numbered round-robin: file `id` lies in root `id % roots` and directory
/// `id % (directories * roots)`, so that the directory number is congruent to
/// the file number.
#[derive(Debug)]
pub struct FileConstellation {
    /// Root path(s) for the directories
    roots: Vec<String>,
    /// Info about the directories under the root
    directories: LayerInfo,
    /// Info for files contained in a single directory
    files: LayerInfo,
    /// Whether the files and directories should be removed when dropped.
    drop: bool,
}

impl View for FileConstellation {
    type V = ConstellationView;

    closed spec fn view(&self) -> ConstellationView {
        ConstellationView {
            roots: self.roots@.map_values(|r: String| r@),
            directory_prefix: self.directories.prefix@,
            directories: self.directories.count,
            file_prefix: self.files.prefix@,
            files: self.files.count,
            size: self.files.size.unwrap(),
            direct_io: self.files.options.unwrap().directo_io,
            drop: self.drop,
        }
    }
}

impl FileConstellation {
    #[verifier::type_invariant]
    closed spec fn well_formed(self) -> bool {
        &&& self.directories.count >= 1
        &&& self.files.count >= self.directories.count
        &&& self.roots@.len() * self.directories.count * self.files.count <= u64::MAX
        &&& self.files.size matches Some(s) && s > 0 && s % 64 == 0
        &&& self.files.options is Some
    }

    /// Validates the layout and describes the constellation. Fails when there
    /// are no directories or more directories than files, when the file size
    /// is zero, and when it is not a multiple of 64 bytes, in that order.
    pub fn new(
        roots: Vec<String>,
        directories_per_root: (String, u64),
        files_per_directory: (String, u64),
        size_of_files: u64,
        options: FileOptions,
        drop: bool,
    ) -> (r: Result<FileConstellation, ConstellationError>)
        requires
            directories_per_root.1 > 0 && files_per_directory.1 >= directories_per_root.1
                && size_of_files > 0 && size_of_files % 64 == 0
                ==> roots@.len() * directories_per_root.1 * files_per_directory.1 <= u64::MAX,
        ensures
            match r {
                Err(ConstellationError::TooManyDirectories { directories, files }) =>
                    (directories_per_root.1 == 0 || files_per_directory.1 / directories_per_root.1 < 1)
                    && directories == directories_per_root.1 && files == files_per_directory.1,
                Err(ConstellationError::ZeroFileSize) =>
                    !(directories_per_root.1 == 0 || files_per_directory.1 / directories_per_root.1 < 1)
                    && size_of_files == 0,
                Err(ConstellationError::MisalignedFileSize) =>
                    !(directories_per_root.1 == 0 || files_per_directory.1 / directories_per_root.1 < 1)
                    && size_of_files != 0 && size_of_files % 64 != 0,
                Err(_) => false,
                Ok(c) => {
                    &&& !(directories_per_root.1 == 0 || files_per_directory.1 / directories_per_root.1 < 1)
                    &&& size_of_files != 0 && size_of_files % 64 == 0
                    &&& c@ == (ConstellationView {
                        roots: roots@.map_values(|r: String| r@),
                        directory_prefix: directories_per_root.0@,
                        directories: directories_per_root.1,
                        file_prefix: files_per_directory.0@,
                        files: files_per_directory.1,
                        size: size_of_files,
                        direct_io: options.directo_io,
                        drop,
                    })
                },
            },
    {
        if directories_per_root.1 == 0 || (files_per_directory.1 / directories_per_root.1) < 1 {
            return Err(ConstellationError::TooManyDirectories {
                directories: directories_per_root.1,
                files: files_per_directory.1,
            });
        }
        assert(files_per_directory.1 >= directories_per_root.1) by (nonlinear_arith)
            requires
                directories_per_root.1 > 0,
                files_per_directory.1 / directories_per_root.1 >= 1;
        if size_of_files == 0 {
            return Err(ConstellationError::ZeroFileSize);
        }
        if size_of_files % 64 != 0 {
            return Err(ConstellationError::MisalignedFileSize);
        }
        Ok(FileConstellation {
            roots,
            directories: LayerInfo { prefix: directories_per_root.0, count: directories_per_root.1, size: None, options: None },
            files: LayerInfo {
                prefix: files_per_directory.0,
                count: files_per_directory.1,
                size: Some(size_of_files),
                options: Some(options),
            },
            drop,
        })
    }

    /// The constellation as text: its roots, then the ranges of its
    /// directory and file names, numbered as paths number them.
    pub fn describe(&self) -> (s: String)
        requires
            self@.roots.len() > 0,
        ensures
            s@ == self@.text(),
    {
        proof { use_type_invariant(self); }
        let (roots, directories, files): (u64, u64, u64) = self.dimensions();
        proof { lemma_product_prefix(roots as int, directories as int, files as int); }
        assert(roots * directories >= 1 && roots * directories * files >= 1) by (nonlinear_arith)
            requires roots >= 1, directories >= 1, files >= 1;
        let total_directories: u64 = roots * directories;
        let total_files: u64 = total_directories * files;
        let dwidth: usize = crate::naming::decimal_width(total_directories) as usize;
        let fwidth: usize = crate::naming::decimal_width(total_files) as usize;

        let mut s = String::from_str("Roots:............");
        proof { reveal_strlit("\n"); reveal_strlit("\t"); }
        s.append("\n");
        let ghost head = s@;
        let mut i: usize = 0;
        while i < self.roots.len()
            invariant
                i <= self.roots@.len(),
                s@ == head + root_lines(self@.roots.subrange(0, i as int)),
            decreases self.roots.len() - i,
        {
            let ghost before = s@;
            proof { reveal_strlit("\n"); reveal_strlit("\t"); }
            s.append("\t");
            s.append(self.roots[i].as_str());
            s.append("\n");
            proof {
                let t = self@.roots.subrange(0, i + 1);
                assert(t.drop_last() =~= self@.roots.subrange(0, i as int));
                assert(t.last() == self.roots@[i as int]@);
                assert(root_lines(t) == root_lines(t.drop_last()) + seq!['\t'] + t.last() + seq!['\n']);
                assert(s@ =~= before + seq!['\t'] + t.last() + seq!['\n']);
            }
            i = i + 1;
        }
        assert(self@.roots.subrange(0, self.roots@.len() as int) =~= self@.roots);
        let ghost body = s@;
        s.append("Directory Names:.. ");
        push_name_range(&mut s, self.directories.prefix.as_str(), total_directories - 1, dwidth);
        s.append("\n\n");
        s.append("File Names:....... ");
        push_name_range(&mut s, self.files.prefix.as_str(), total_files - 1, fwidth);
        s.append("\n\n");
        proof { reveal_strlit("\n\n"); }
        assert(s@ =~= self@.text());
        s
    }

    /// Toggles whether dropping removes the files and directories.
    pub fn toggle_drop(&mut self)
        ensures
            final(self)@ == (ConstellationView { drop: !old(self)@.drop, ..old(self)@ }),
    {
        proof { use_type_invariant(&*self); }
        self.drop = !self.drop;
    }

    /// The dimensions `(roots, directories per root, files per directory)`.
    pub fn dimensions(&self) -> (d: (u64, u64, u64))
        ensures
            d.0 == self@.roots.len(),
            d.1 == self@.directories,
            d.2 == self@.files,
            d.0 * d.1 * d.2 <= u64::MAX,
            d.1 >= 1,
            d.2 >= d.1,
    {
        proof { use_type_invariant(self); }
        (self.roots.len() as u64, self.directories.count, self.files.count)
    }

    /// The total number of files: the product of the dimensions.
    pub fn count(&self) -> (n: u64)
        ensures
            n == self@.total_files(),
    {
        proof {
            use_type_invariant(self);
            lemma_product_prefix(self.roots@.len() as int, self.directories.count as int, self.files.count as int);
        }
        self.roots.len() as u64 * self.directories.count * self.files.count
    }

    /// The size of each file, in bytes.
    pub fn size(&self) -> (n: u64)
        ensures
            n == self@.size,
            n > 0,
            n % 64 == 0,
    {
        proof { use_type_invariant(self); }
        match self.files.size {
            Some(s) => s,
            None => 0,
        }
    }

    /// Whether dropping the constellation removes its files and directories.
    pub fn drops(&self) -> (b: bool)
        ensures
            b == self@.drop,
    {
        self.drop
    }

    /// Locates file `id`: its file, directory and root numbers. Ids up to and
    /// including the total number of files are accepted.
    fn file_identifier(&self, id: u64) -> (r: Result<FileIdentifier, ConstellationError>)
        requires
            self@.roots.len() > 0 || id > 0,
        ensures
            match r {
                Ok(fid) => {
                    &&& self@.id_in_bounds(id)
                    &&& fid.file == (id as int) % self@.total_files()
                    &&& fid.directory == (id as int) % self@.total_directories()
                    &&& fid.root == (id as int) % (self@.roots.len() as int)
                    &&& fid.root < self@.roots.len()
                },
                Err(ConstellationError::IdOutOfBounds { requested, max }) =>
                    !self@.id_in_bounds(id) && requested == id && max == self@.files,
                Err(_) => false,
            },
    {
        proof { use_type_invariant(self); }
        let (roots, directories, files): (u64, u64, u64) = self.dimensions();
        proof { lemma_product_prefix(roots as int, directories as int, files as int); }

        assert(roots == 0 ==> roots * directories * files == 0) by (nonlinear_arith);
        if (roots * directories * files) < id {
            Err(ConstellationError::IdOutOfBounds { requested: id, max: self.files.count })
        } else {
            assert(roots > 0);
            assert(roots * directories > 0 && roots * directories * files > 0) by (nonlinear_arith)
                requires roots > 0, directories >= 1, files >= 1;
            assert(files * directories * roots == roots * directories * files) by (nonlinear_arith);
            assert(directories * roots == roots * directories) by (nonlinear_arith);
            assert(files * directories <= files * directories * roots) by (nonlinear_arith)
                requires roots >= 1, files >= 0, directories >= 0;
            let file: u64 = id % (files * directories * roots);
            let directory: u64 = id % (directories * roots);
            let root: u64 = id % (roots);
            Ok(FileIdentifier { file, directory, root })
        }
    }

    /// The path of the directory of the file at `id`.
    fn directory_path(&self, id: FileIdentifier) -> (p: String)
        requires
            id.root < self@.roots.len(),
        ensures
            p@ == joined(self@.roots[id.root as int],
                component(self@.directory_prefix, id.directory as nat, decimal(self@.total_directories() as nat).len())),
    {
        proof { use_type_invariant(self); }
        let (roots, directories, files): (u64, u64, u64) = self.dimensions();
        proof { lemma_product_prefix(roots as int, directories as int, files as int); }
        let dwidth: usize = crate::naming::decimal_width(roots * directories) as usize;
        let nroots: usize = self.roots.len();
        let mut location: String = self.roots[id.root as usize].clone();
        assert(location@ == self@.roots[id.root as int]);
        assert(self@.total_directories() == roots * directories);
        let directory: String = component_name(self.directories.prefix.as_str(), id.directory, dwidth);
        push_component(&mut location, directory.as_str());
        location
    }

    /// The path of a file: `root / <directory name> / <file name>`, where the
    /// numbers are zero-padded to the widths of the largest directory and file
    /// numbers.
    fn construct_path(&self, id: FileIdentifier) -> (p: String)
        requires
            id.root < self@.roots.len(),
        ensures
            p@ == joined(
                joined(self@.roots[id.root as int],
                    component(self@.directory_prefix, id.directory as nat, decimal(self@.total_directories() as nat).len())),
                component(self@.file_prefix, id.file as nat, decimal(self@.total_files() as nat).len())),
    {
        proof { use_type_invariant(self); }
        let (roots, directories, files): (u64, u64, u64) = self.dimensions();
        proof { lemma_product_prefix(roots as int, directories as int, files as int); }
        assert(self@.total_files() == roots * directories * files);
        let fwidth: usize = crate::naming::decimal_width(roots * directories * files) as usize;
        let mut location: String = self.directory_path(id);
        let file: String = component_name(self.files.prefix.as_str(), id.file, fwidth);
        push_component(&mut location, file.as_str());
        location
    }

    /// The path of the directory that holds file `id`.
    pub fn directory_location(&self, id: u64) -> (r: Result<String, ConstellationError>)
        requires
            self@.roots.len() > 0 || id > 0,
        ensures
            match r {
                Ok(p) => self@.id_in_bounds(id) && p@ == self@.directory_path(id),
                Err(ConstellationError::IdOutOfBounds { requested, max }) =>
                    !self@.id_in_bounds(id) && requested == id && max == self@.files,
                Err(_) => false,
            },
    {
        let fid = self.file_identifier(id)?;
        Ok(self.directory_path(fid))
    }

    /// The path of file `id`.
    pub fn file_location(&self, id: u64) -> (r: Result<String, ConstellationError>)
        requires
            self@.roots.len() > 0 || id > 0,
        ensures
            match r {
                Ok(p) => self@.id_in_bounds(id) && p@ == self@.file_path(id),
                Err(ConstellationError::IdOutOfBounds { requested, max }) =>
                    !self@.id_in_bounds(id) && requested == id && max == self@.files,
                Err(_) => false,
            },
    {
        let fid = self.file_identifier(id)?;
        Ok(self.construct_path(fid))
    }

    /// Plans opening file `id` for (read|write): the file's path, the access
    /// requested, creation unless the file is opened read-only, and direct IO
    /// as the file options say.
    pub fn open(&self, id: u64, read: bool, write: bool) -> (r: Result<OpenRequest, ConstellationError>)
        requires
            self@.roots.len() > 0 || id > 0,
        ensures
            match r {
                Ok(req) => {
                    &&& self@.id_in_bounds(id)
                    &&& req.path@ == self@.file_path(id)
                    &&& req.read == read
                    &&& req.write == write
                    &&& req.create == !(read && !write)
                    &&& req.direct_io == self@.direct_io
                },
                Err(ConstellationError::IdOutOfBounds { requested, max }) =>
                    !self@.id_in_bounds(id) && requested == id && max == self@.files,
                Err(_) => false,
            },
    {
        proof { use_type_invariant(self); }
        let path = self.file_location(id)?;
        let direct_io: bool = match self.files.options {
            Some(o) => o.directo_io,
            None => false,
        };
        Ok(OpenRequest { path, read, write, create: if read && !write { false } else { true }, direct_io })
    }
}

} // verus!
