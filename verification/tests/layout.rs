use super_massive_io::bookcase::{BookCaseError, BookCasePlans};
use super_massive_io::constellation::{ConstellationError, FileConstellation, FileOptions};
use super_massive_io::scribe::bookcase::BookCase as ScribeBookCase;
use super_massive_io::scribe::scribe::BookCase as BorrowedBookCase;
use super_massive_io::scribe::{PAGE_COUNT, PAGE_SIZE};
use super_massive_io::PAGE_BYTES;

const DIRECTORY_COUNT: usize = 2;
const FILE_COUNT: usize = 2;

#[test]
fn create_pages_from_queue() {
    let pprefix: String = String::from("./testing");
    let dprefix: String = String::from("shelf");
    let fprefix: String = String::from("book");

    let mut bookcase: ScribeBookCase = ScribeBookCase::new(
        pprefix.to_owned(),
        dprefix.to_owned(),
        DIRECTORY_COUNT as u64,
        fprefix.to_owned(),
        FILE_COUNT as u64,
        PAGE_SIZE,
        PAGE_COUNT as u64,
    );

    let books = bookcase.construct();
    assert_eq!(books, vec![0, 1]);
    bookcase.set_constructed(true);
    assert!(bookcase.construct().is_empty());
    assert_eq!(bookcase.book_location(1), "./testing/shelf1/book1");
    assert_eq!(bookcase.book_size(), PAGE_SIZE * PAGE_COUNT);
    assert!(true);
}

#[test]
fn scribe_bookcase_layout() {
    let mut bookcase = ScribeBookCase::new(String::from("/data"), String::from("shelf"), 3, String::from("book"), 12, 512, 4);
    assert_eq!(bookcase.book_location(7), "/data/shelf1/book07");
    assert_eq!(bookcase.book_location(11), "/data/shelf2/book11");
    assert_eq!(bookcase.shelf_count(), 3);
    assert_eq!(bookcase.book_count(), 12);
    assert_eq!(bookcase.page_count(), 4);
    assert_eq!(bookcase.word_count(), 64);
    assert_eq!(bookcase.book_size(), 2048);
    assert!(bookcase.demolish().is_empty());
    bookcase.set_constructed(true);
    assert_eq!(bookcase.demolish(), vec![0, 1, 2]);
    let open = bookcase.open_book(3, true, false);
    assert_eq!(open.path, "/data/shelf0/book03");
    assert!(!open.create);
    assert!(!bookcase.open_book(3, false, true).create);
    assert!(!bookcase.open_book(3, true, true).create);
}

#[test]
fn borrowed_bookcase_layout() {
    let bookcase = BorrowedBookCase::new("/home/x/testing", "shelf", 11, "book", 120, 4096, 512);
    assert_eq!(bookcase.book_location(13), "/home/x/testing/shelf02/book013");
    assert_eq!(bookcase.book_count(), 120);
    assert_eq!(bookcase.book_size(), 4096 * 512);
    assert_eq!(bookcase.word_count(), 512);
    assert_eq!(bookcase.construct().len(), 120);
    let shelves = bookcase.demolish();
    assert_eq!(shelves.len(), 11);
    assert_eq!(shelves[10], "/home/x/testing/shelf10");
    assert!(bookcase.open_book(0, true, false).create);
}

#[test]
fn bookcase_plans_validation() {
    // Failing parameter vectors: (directories, files, file size).
    let failing: Vec<(u64, u64, usize)> = vec![
        (1, 0, PAGE_BYTES * 1),
        (0, 1, PAGE_BYTES * 1),
        (2, 1, PAGE_BYTES * 1),
        (1, 1, PAGE_BYTES * 0),
    ];
    for (dcount, fcount, fsize) in failing {
        assert!(BookCasePlans::new(String::from("/tmp"), String::from("shelf"), dcount, String::from("book"), fcount, fsize).is_err());
    }
    // Passing parameter vectors.
    let passing: Vec<(u64, u64, usize)> = vec![
        (1, 1, PAGE_BYTES * 1),
        (1, 10, PAGE_BYTES * 1),
        (1, 100, PAGE_BYTES * 100),
        (100, 100, PAGE_BYTES * 1024),
    ];
    for (dcount, fcount, fsize) in passing {
        let plans = BookCasePlans::new(String::from("/tmp"), String::from("shelf"), dcount, String::from("book"), fcount, fsize)
            .expect("Could not create BookCasePlans");
        let (bookcase, books) = plans.construct(false);
        assert_eq!(books.len() as u64, fcount);
        assert_eq!(bookcase.book_count(), fcount);
        assert_eq!(bookcase.shelf_count(), dcount);
        assert_eq!(bookcase.book_size(), fsize);
    }
    match BookCasePlans::new(String::from("/tmp"), String::from("s"), 2, String::from("b"), 1, PAGE_BYTES) {
        Err(BookCaseError::TooManyDirectories { directories, files }) => assert_eq!((directories, files), (2, 1)),
        _ => panic!("expected too many directories"),
    }
    match BookCasePlans::new(String::from("/tmp"), String::from("s"), 1, String::from("b"), 1, PAGE_BYTES + 1) {
        Err(BookCaseError::InvalidFileSize { size }) => assert_eq!(size, PAGE_BYTES + 1),
        _ => panic!("expected invalid file size"),
    }
}

#[test]
fn bookcase_locations() {
    let plans = BookCasePlans::new(String::from("/tmp/x"), String::from("shelf"), 2, String::from("book"), 10, PAGE_BYTES).unwrap();
    let (mut bookcase, _) = plans.construct(true);
    assert_eq!(bookcase.shelf_location(1), "/tmp/x/shelf1");
    assert_eq!(bookcase.book_location(3), "/tmp/x/shelf1/book03");
    assert_eq!(bookcase.book_location(9), "/tmp/x/shelf1/book09");
    let trailing = BookCasePlans::new(String::from("/tmp/y/"), String::from("d"), 1, String::from("f"), 1, PAGE_BYTES).unwrap();
    assert_eq!(trailing.construct(false).0.book_location(0), "/tmp/y/d0/f0");
    let books: Vec<String> = (0..10).map(|i| bookcase.book_location(i)).collect();
    assert!(bookcase.is_assembled(&books));
    let mut reversed = books.clone();
    reversed.reverse();
    assert!(bookcase.is_assembled(&reversed));
    assert!(!bookcase.is_assembled(&vec![String::from("a"); 10]));
    assert!(!bookcase.is_assembled(&vec![String::from("a"); 9]));
    assert!(!bookcase.is_assembled(&books[..9].to_vec()));
    let mut duplicated = books.clone();
    duplicated[9] = books[0].clone();
    assert!(!bookcase.is_assembled(&duplicated));
    let mut stranger = books.clone();
    stranger[4] = String::from("/tmp/x/shelf0/notes");
    assert!(!bookcase.is_assembled(&stranger));
    let (_, shelves) = bookcase.deconstruct(true);
    assert_eq!(shelves, vec![0, 1]);
    assert!(bookcase.deconstruct(false).1.is_empty());
    assert!(!bookcase.open_book(2, false, true).direct_io);
    bookcase.use_direct_io();
    let open = bookcase.open_book(2, false, true);
    assert!(open.direct_io);
    assert!(open.create);
    assert_eq!(open.path, "/tmp/x/shelf0/book02");
}

#[test]
fn constellation_layout() {
    let roots = vec![String::from("/sda"), String::from("/sdb")];
    let mut files = FileConstellation::new(
        roots,
        (String::from("dir"), 2),
        (String::from("file"), 3),
        1024,
        FileOptions { directo_io: false },
        false,
    )
    .expect("valid layout");
    assert_eq!(files.dimensions(), (2, 2, 3));
    assert_eq!(files.count(), 12);
    assert_eq!(files.size(), 1024);
    assert_eq!(files.file_location(5).ok().unwrap(), "/sdb/dir1/file05");
    assert_eq!(files.file_location(6).ok().unwrap(), "/sda/dir2/file06");
    assert_eq!(files.directory_location(7).ok().unwrap(), "/sdb/dir3");
    assert_eq!(files.file_location(12).ok().unwrap(), "/sda/dir0/file00");
    match files.file_location(13) {
        Err(ConstellationError::IdOutOfBounds { requested, max }) => assert_eq!((requested, max), (13, 3)),
        _ => panic!("expected out of bounds"),
    }
    let open = files.open(4, true, false).ok().unwrap();
    assert_eq!(open.path, "/sda/dir0/file04");
    assert!(!open.create && open.read && !open.write && !open.direct_io);
    assert!(!files.drops());
    files.toggle_drop();
    assert!(files.drops());
}

#[test]
fn constellation_validation() {
    let new = |d: u64, f: u64, size: u64| {
        FileConstellation::new(vec![String::from("/r")], (String::from("d"), d), (String::from("f"), f), size, FileOptions { directo_io: true }, true)
    };
    assert!(matches!(new(0, 4, 64), Err(ConstellationError::TooManyDirectories { directories: 0, files: 4 })));
    assert!(matches!(new(5, 4, 64), Err(ConstellationError::TooManyDirectories { directories: 5, files: 4 })));
    assert!(matches!(new(2, 4, 0), Err(ConstellationError::ZeroFileSize)));
    assert!(matches!(new(2, 4, 100), Err(ConstellationError::MisalignedFileSize)));
    let ok = new(2, 4, 128).ok().unwrap();
    assert!(ok.open(0, false, true).ok().unwrap().direct_io);
}
