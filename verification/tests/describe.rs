use super_massive_io::bookcase::{BookCase, BookCasePlans};
use super_massive_io::constellation::{FileConstellation, FileOptions};
use super_massive_io::page::Page;
use super_massive_io::scribe::bookcase::BookCase as ScribeBookCase;
use super_massive_io::scribe::page::Page as ScribePage;
use super_massive_io::scribe::scribe::BookCase as BorrowedBookCase;
use super_massive_io::PAGE_BYTES;

/// The page text as the page's `Display` writes it.
fn expected_page_text(meta: (u64, u64, u64, u64), data: &[u64]) -> String {
    let mut s = String::new();
    s += &format!("Seed:    0x{:016X}\n", meta.0);
    s += &format!("FileID:  0x{:016X}\n", meta.1);
    s += &format!("PageID:  0x{:016X}\n", meta.2);
    s += &format!("MutCnt:  0x{:016X}\n", meta.3);
    s += "Data:\n";
    for w in data {
        let b = w.to_be_bytes();
        s += &format!(
            "{:02X} {:02X} {:02X} {:02X} {:02X} {:02X} {:02X} {:02X}\n",
            b[0], b[1], b[2], b[3], b[4], b[5], b[6], b[7]
        );
    }
    s
}

#[test]
fn page_describe_matches_display_format() {
    let page: Page<3> = Page::new(0xD7D6D5D4D3D2D1D0, 7, 42);
    let text = page.describe();
    assert_eq!(text, expected_page_text(page.get_metadata(), &page.data()));
    assert!(text.starts_with("Seed:    0xD7D6D5D4D3D2D1D0\nFileID:  0x0000000000000007\n"));
}

#[test]
fn page_describe_of_zeroed_page() {
    let page: Page<2> = Page::default();
    let expected = "Seed:    0x0000000000000000\n\
                    FileID:  0x0000000000000000\n\
                    PageID:  0x0000000000000000\n\
                    MutCnt:  0x0000000000000000\n\
                    Data:\n\
                    00 00 00 00 00 00 00 00\n\
                    00 00 00 00 00 00 00 00\n";
    assert_eq!(page.describe(), expected);
}

#[test]
fn scribe_page_describe_matches_display_format() {
    let page: ScribePage<4> = ScribePage::new(0x0123456789ABCDEF, 1, 2);
    assert_eq!(page.describe(), expected_page_text((0x0123456789ABCDEF, 1, 2, 0), &page.data()));
}

#[test]
fn constellation_describe() {
    let files = FileConstellation::new(
        vec![String::from("/tmp/root.a"), String::from("/tmp/root.b")],
        (String::from("test_dir"), 12),
        (String::from("test_file"), 12),
        1024,
        FileOptions { directo_io: false },
        false,
    )
    .unwrap();
    let expected = "Roots:............\n\
                    \t/tmp/root.a\n\
                    \t/tmp/root.b\n\
                    Directory Names:.. test_dir[00-23]\n\n\
                    File Names:....... test_file[000-287]\n\n";
    assert_eq!(files.describe(), expected);
}

#[test]
fn bookcase_describe_quotes_the_path() {
    let plans = BookCasePlans::new(String::from("/tmp/x"), String::from("shelf"), 2, String::from("book"), 10, PAGE_BYTES)
        .unwrap();
    let expected = format!(
        "Root:............ {:?}\nDirectory Name:.. shelf[{:01}-{:01}]\nFile Name:....... book[{:02}-{:02}]\n",
        "/tmp/x", 0, 1, 0, 9
    );
    assert_eq!(plans.bookcase().describe(), expected);
}

#[test]
fn bookcase_describe_escapes_like_debug() {
    let path = "/tmp/a \"quoted\"\\dir\twith\nbreaks\u{1}\u{7f}\u{85}é'";
    let bookcase = BookCase::from_parts(
        false,
        String::from(path),
        (String::from("s"), 1, 0),
        (String::from("b"), 1, PAGE_BYTES),
        false,
    );
    let expected = format!("Root:............ {:?}\nDirectory Name:.. s[0-0]\nFile Name:....... b[0-0]\n", path);
    assert_eq!(bookcase.describe(), expected);
}

#[test]
fn scribe_bookcase_describe() {
    let bookcase = ScribeBookCase::new(String::from("/data"), String::from("shelf"), 3, String::from("book"), 12, 512, 4);
    let expected = "Root:............ /data\n\
                    Directory Name:.. shelf[0-2]\n\
                    File Name:....... book[00-11]\n\
                    Page Size:....... 512\n\
                    Page Count:...... 4\n";
    assert_eq!(bookcase.describe(), expected);
}

#[test]
fn borrowed_bookcase_describe() {
    let bookcase = BorrowedBookCase::new("/home/x/testing", "shelf", 11, "book", 120, 4096, 512);
    let expected = "Root:............ /home/x/testing\n\
                    Directory Name:.. shelf[00-10]\n\
                    File Name:....... book[000-119]\n\
                    Page Size:....... 4096\n\
                    Page Count:...... 512\n";
    assert_eq!(bookcase.describe(), expected);
}
