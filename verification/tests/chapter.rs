use super_massive_io::chapter::Chapter;
use super_massive_io::page::Page;

const P: usize = 3;
const W: usize = 5;
const B: usize = P * (4 + W) * 8;

#[test]
fn chapter_starts_zeroed() {
    let chapter: Chapter<P, W, B> = Chapter::new();
    assert_eq!(chapter.byte_count(), B);
    assert_eq!(chapter.pages_all().len(), P);
    assert!(chapter.bytes_all().iter().all(|b| *b == 0));
    for p in 0..P as u64 {
        assert_eq!(chapter.page(p).get_metadata(), (0, 0, 0, 0));
    }
}

#[test]
fn chapter_bytes_are_the_pages_in_order() {
    let mut chapter: Chapter<P, W, B> = Chapter::new();
    for p in 0..P as u64 {
        chapter.mutable_page(p).reinit(0xD7D6D5D4D3D2D1D0, 9, p, 0);
    }
    let bytes = chapter.bytes_all();
    assert_eq!(bytes.len(), B);
    let page_bytes = Page::<W>::page_bytes();
    for p in 0..P {
        let expected = Page::<W>::new(0xD7D6D5D4D3D2D1D0, 9, p as u64).to_bytes();
        assert_eq!(&bytes[p * page_bytes..(p + 1) * page_bytes], expected.as_slice());
    }
}

#[test]
fn chapter_write_then_read_gives_the_same_pages() {
    let mut written: Chapter<P, W, B> = Chapter::new();
    for p in 0..P as u64 {
        written.mutable_page(p).reinit(42, 3, 100 + p, 0);
    }
    let image = written.bytes_all();

    let mut read: Chapter<P, W, B> = Chapter::new();
    read.load_bytes_all(&image);
    for p in 0..P as u64 {
        assert!(read.page(p) == written.page(p));
        assert_eq!(read.page(p).checked_is_valid(), Some(true));
    }
    assert_eq!(read.bytes_all(), image);
}

#[test]
fn chapter_detects_a_corrupted_page() {
    let mut chapter: Chapter<P, W, B> = Chapter::new();
    for p in 0..P as u64 {
        chapter.mutable_page(p).reinit(7, 1, p, 0);
    }
    let mut image = chapter.bytes_all();
    // flip one payload bit of the second page
    let offset = Page::<W>::page_bytes() + 32 + 3;
    image[offset] ^= 0x10;
    chapter.load_bytes_all(&image);
    assert_eq!(chapter.page(0).checked_is_valid(), Some(true));
    assert_eq!(chapter.page(1).checked_is_valid(), Some(false));
    assert_eq!(chapter.page(2).checked_is_valid(), Some(true));
}

#[test]
fn chapter_regenerate_places_page_j_at_j_mod_p() {
    let mut chapter: Chapter<P, W, B> = Chapter::new();
    chapter.regenerate(0xD7D6D5D4D3D2D1D0, 4, 6);
    for j in 6..9u64 {
        assert!(*chapter.page(j % P as u64) == Page::<W>::new(0xD7D6D5D4D3D2D1D0, 4, j));
    }
    assert!(chapter.invalid_pages().is_empty());

    // A start that is not a multiple of P rotates the pages.
    chapter.regenerate(1, 2, 7);
    assert_eq!(chapter.page(1).get_metadata(), (1, 2, 7, 0));
    assert_eq!(chapter.page(2).get_metadata(), (1, 2, 8, 0));
    assert_eq!(chapter.page(0).get_metadata(), (1, 2, 9, 0));
}

#[test]
fn chapter_invalid_pages_lists_corrupted_positions() {
    let mut chapter: Chapter<P, W, B> = Chapter::new();
    // A zeroed page is not valid: its payload is not the generated one.
    assert_eq!(chapter.invalid_pages(), vec![0, 1, 2]);
    chapter.regenerate(7, 1, 0);
    let mut image = chapter.bytes_all();
    image[Page::<W>::page_bytes() * 2 + 40] ^= 1;
    chapter.load_bytes_all(&image);
    assert_eq!(chapter.invalid_pages(), vec![2]);
}
