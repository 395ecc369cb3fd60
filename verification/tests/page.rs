use super_massive_io::page::Page;
use super_massive_io::scribe::chapter::Chapter;
use super_massive_io::scribe::page::{Page as ScribePage, METADATA_SIZE};
use rand::rngs::ThreadRng;
use rand::Rng;
use rand_xoshiro::rand_core::{RngCore, SeedableRng};
use rand_xoshiro::Xoroshiro128PlusPlus;

#[test]
fn seed_alterations() {
    let mut page: Page<1> = Page::new(0xdead + 0xbeef, 1, 1);

    // Check that reinit generates the right Page data
    page.reinit(0xdead, 1, 1, 0);
    let bytes: [u64; 1] = Page::<1>::generate_data(Page::<1>::assemble_seed(0xdead, 1, 1, 0));
    assert!(page.data() == bytes, "reinit failed");

    // Verify that mutate modifies the assembled seed correctly.
    page.mutate();
    let bytes: [u64; 1] = Page::<1>::generate_data(Page::<1>::assemble_seed(0xdead, 1, 1, 1));
    assert!(page.data() == bytes, "mutate seed failed");

    page.update_file(0);
    let bytes: [u64; 1] = Page::<1>::generate_data(Page::<1>::assemble_seed(0xdead + 1, 0, 1, 0));
    assert!(page.data() == bytes, "mutate file failed");

    page.update_page(0);
    let bytes: [u64; 1] = Page::<1>::generate_data(Page::<1>::assemble_seed(0xdead + 1, 0, 0, 0));
    assert!(page.data() == bytes, "mutate page failed");

    assert!(Page::<0>::page_bytes() == std::mem::size_of::<Page<0>>(), "{} != {}", Page::<0>::page_bytes(), std::mem::size_of::<Page<0>>());
    assert!(Page::<4096>::page_bytes() == std::mem::size_of::<Page<4096>>(), "{} != {}", Page::<4096>::page_bytes(), std::mem::size_of::<Page<4096>>());
}

#[test]
fn page_random_page_bytes_vec() {
    const W: usize = (512 / 8) - 4; // 512 words / 8 bytes per word - 4 metadata words
    const PAGE_COUNT: usize = 64;

    let mut rng: ThreadRng = rand::thread_rng();

    let pages: Vec<Page<W>> = (0..PAGE_COUNT).map(|i| Page::new(rng.gen(), rng.gen(), i as u64)).collect();

    for (_, page) in pages.iter().enumerate() {
        assert!(page.is_valid());
    }
}

pub const S: u64 = 0xD7D6D5D4D3D2D1D0;
pub const F: u64 = 0xC7C6C5C4C3C2C1C0;
pub const P: u64 = 0xB7B6B5B4B3B2B1B0;
pub const M: u64 = 0x0000000000000000;
pub const D1: u64 = 0xAFDF3EC403080884;
pub const D2: u64 = 0xD127816C6EF096AB;

fn two_page_image() -> Vec<u8> {
    vec![
        // Page One
        0xD0, 0xD1, 0xD2, 0xD3, 0xD4, 0xD5, 0xD6, 0xD7, // seed
        0xC0, 0xC1, 0xC2, 0xC3, 0xC4, 0xC5, 0xC6, 0xC7, // file
        0xB0, 0xB1, 0xB2, 0xB3, 0xB4, 0xB5, 0xB6, 0xB7, // page
        0x00, 0x00, 0x00, 0x00, 0x00, 0x00, 0x00, 0x00, // mutations
        0x84, 0x08, 0x08, 0x03, 0xC4, 0x3E, 0xDF, 0xAF, //  data
        // Page Two
        0xD0, 0xD1, 0xD2, 0xD3, 0xD4, 0xD5, 0xD6, 0xD7, // seed
        0xC0, 0xC1, 0xC2, 0xC3, 0xC4, 0xC5, 0xC6, 0xC7, // file
        0xB1, 0xB1, 0xB2, 0xB3, 0xB4, 0xB5, 0xB6, 0xB7, // page
        0x00, 0x00, 0x00, 0x00, 0x00, 0x00, 0x00, 0x00, // mutations
        0xAB, 0x96, 0xF0, 0x6E, 0x6C, 0x81, 0x27, 0xD1, //  data
    ]
}

#[test]
fn general_functionality() {
    let mut page: ScribePage<1> = ScribePage::new(0xdead + 0xbeef, 1, 1);

    page.reinit(0xdead, 1, 1, 0);
    let bytes: [u64; 1] = ScribePage::<1>::generate_data(ScribePage::<1>::assemble_seed(0xdead, 1, 1));
    assert!(page.data() == bytes, "reinit failed");

    page.mutate_seed();
    let bytes: [u64; 1] = ScribePage::<1>::generate_data(ScribePage::<1>::assemble_seed(0xdead + 1, 1, 1));
    assert!(page.data() == bytes, "mutate seed failed");

    page.mutate_file(0);
    let bytes: [u64; 1] = ScribePage::<1>::generate_data(ScribePage::<1>::assemble_seed(0xdead + 1, 0, 1));
    assert!(page.data() == bytes, "mutate file failed");

    page.mutate_page(0);
    let bytes: [u64; 1] = ScribePage::<1>::generate_data(ScribePage::<1>::assemble_seed(0xdead + 1, 0, 0));
    assert!(page.data() == bytes, "mutate page failed");
}

#[test]
fn page_single_page() {
    let flat_tv: [u8; 40] = [
        0xD0, 0xD1, 0xD2, 0xD3, 0xD4, 0xD5, 0xD6, 0xD7, // seed
        0xC0, 0xC1, 0xC2, 0xC3, 0xC4, 0xC5, 0xC6, 0xC7, // file
        0xB0, 0xB1, 0xB2, 0xB3, 0xB4, 0xB5, 0xB6, 0xB7, // page
        0x00, 0x00, 0x00, 0x00, 0x00, 0x00, 0x00, 0x00, // mutations
        0x84, 0x08, 0x08, 0x03, 0xC4, 0x3E, 0xDF, 0xAF, //  data cont'd
    ];
    const W: usize = 1;
    const PAGE_SIZE: usize = METADATA_SIZE + W * 8;

    // Page<W> --> bytes
    let page: ScribePage<W> = ScribePage::new(S, F, P);
    let bytes: Vec<u8> = page.to_bytes();
    assert!(flat_tv.as_slice() == bytes.as_slice());
    assert!(bytes.len() == PAGE_SIZE);

    // Box<Page<W>> --> bytes
    let page_box: Box<ScribePage<W>> = Box::new(ScribePage::new(S, F, P));
    let bytes: Vec<u8> = page_box.as_ref().to_bytes();
    assert!(flat_tv.as_slice() == bytes.as_slice());
    assert_eq!(page_box.data(), [D1]);
}

#[test]
fn page_two_pages() {
    let flat_tv = two_page_image();
    const W: usize = 1;

    let page1: ScribePage<W> = ScribePage::new(S, F, P);
    let page2: ScribePage<W> = ScribePage::new(S, F, P + 1);
    let pages: [ScribePage<W>; 2] = [page1, page2];

    let bytes: Vec<u8> = pages.iter().flat_map(|p| p.to_bytes()).collect();
    assert!(flat_tv == bytes);
    assert_eq!(page2.data(), [D2]);
}

#[test]
fn page_single_page_from_u8() {
    let flat_tv = two_page_image();
    const W: usize = 1;
    let page_tv: ScribePage<W> = ScribePage::new(S, F, P);

    let page: ScribePage<W> = ScribePage::from_bytes(&flat_tv[0..40]).expect("Unable to convert bytes to Page!");
    assert!(page == page_tv);
    assert!(ScribePage::<W>::from_bytes(&flat_tv).is_none());
    assert!(ScribePage::<W>::from_bytes(&flat_tv[0..39]).is_none());
}

#[test]
fn page_two_pages_from_u8() {
    let flat_tv = two_page_image();
    const W: usize = 1;
    const PAGES: usize = 2;
    const B: usize = 80;
    let pages_tv: [ScribePage<W>; PAGES] = [ScribePage::new(S, F, P), ScribePage::new(S, F, P + 1)];

    let mut chapter: Chapter<PAGES, W, B> = Chapter::new();
    chapter.load_bytes(&flat_tv);
    assert!(chapter.pages() == pages_tv.as_slice());
    assert!(chapter.single_page(1) == &pages_tv[1]);
}

#[test]
fn modify_pages_and_validate_bytes() {
    pub const SEED: u64 = 0xD7D6D5D4D3D2D1D0;
    pub const FID: u64 = 0xC7C6C5C4C3C2C1C0;
    pub const PID: u64 = 0xB7B6B5B4B3B2B1B0;
    pub const MUTS: u64 = 0x0000000000000000;
    let flat_tv = two_page_image();

    // Single Page in Chaper
    const P: usize = 1;
    const W: usize = 1;
    const B: usize = 40 * P;

    let mut chapter: Chapter<P, W, B> = Chapter::<P, W, B>::new();

    chapter.single_mutable_page(0).reinit(SEED, FID, PID, MUTS);

    assert!(flat_tv[0..B] == *chapter.bytes());

    // Two Page in a Chapter
    const P2: usize = 2;
    const B2: usize = 40 * P2;
    let mut chapter: Chapter<P2, W, B2> = Chapter::<P2, W, B2>::new();
    chapter
        .mutable_pages()
        .iter_mut()
        .enumerate()
        .for_each(|(i, page): (usize, &mut ScribePage<W>)| {
            page.reinit(SEED, FID, PID + (i as u64), MUTS);
        });

    assert!(flat_tv == chapter.bytes());
}

#[test]
fn random_page_bytes_array() {
    const PAGE_SIZE: usize = 512;
    const PAGE_COUNT: usize = 64;
    const W: usize = (PAGE_SIZE - (METADATA_SIZE)) / 8;
    const B: usize = PAGE_SIZE * PAGE_COUNT;

    let mut rng: ThreadRng = rand::thread_rng();

    let seed: u64 = rng.gen();
    let file: u64 = rng.gen();

    let mut chapter: Chapter<PAGE_COUNT, W, B> = Chapter::new();
    for i in 0..PAGE_COUNT {
        chapter.single_mutable_page(i as u64).reinit(seed, file, i as u64, 0);
    }
    let pages_bytes: Vec<u8> = chapter.bytes();

    let mut read_back: Chapter<PAGE_COUNT, W, B> = Chapter::new();
    read_back.load_bytes(&pages_bytes);

    for (p, page) in read_back.pages().iter().enumerate() {
        assert!(page.validate_page_with(seed, file, p as u64));
    }
}

#[test]
fn page_bytes_roundtrip_keeps_every_field() {
    let mut page: Page<3> = Page::new(7, 8, 9);
    page.mutate();
    let image = page.to_bytes();
    assert_eq!(image.len(), Page::<3>::page_bytes());
    let back = Page::<3>::from_bytes(&image).expect("one page of bytes");
    assert!(back == page);
    assert_eq!(back.get_metadata(), (7, 8, 9, 1));
    assert!(back.is_valid());
}

#[test]
fn corrupted_page_is_invalid() {
    let page: Page<4> = Page::new(1, 2, 3);
    let mut image = page.to_bytes();
    image[40] ^= 0x01;
    let corrupted = Page::<4>::from_bytes(&image).unwrap();
    assert!(!corrupted.is_valid());
    let mut image = page.to_bytes();
    image[8] ^= 0x80;
    let corrupted = Page::<4>::from_bytes(&image).unwrap();
    assert!(!corrupted.is_valid());
    assert!(corrupted.validate_page_with(1, 2, 3, 0));
}

#[test]
fn page_words_follow_the_generator() {
    let seed = Page::<5>::assemble_seed(11, 12, 13, 14);
    let expected_seed: u64 = ((!12u64 << 46) | (13u64 << 32) | 11) + 14;
    assert_eq!(seed, expected_seed);
    let data = Page::<5>::generate_data(seed);
    let mut rng = Xoroshiro128PlusPlus::seed_from_u64(seed);
    for word in data.iter() {
        assert_eq!(*word, rng.next_u64());
    }
    assert_eq!(Page::<5>::new(11, 12, 13).data(), Page::<5>::generate_data(Page::<5>::assemble_seed(11, 12, 13, 0)));
}

#[test]
fn default_page_is_zero() {
    let page: Page<2> = Page::default();
    assert_eq!(page.get_metadata(), (0, 0, 0, 0));
    assert_eq!(page.data(), [0, 0]);
    let zero: ScribePage<2> = ScribePage::zeroed();
    assert!(zero == ScribePage::default());
}

#[test]
fn update_seed_advances_the_mutation_count() {
    let mut page: Page<4> = Page::new(0xdead, 3, 9);
    page.update_seed(0xbeef);
    assert_eq!(page.get_metadata(), (0xbeef, 3, 9, 1));
    assert!(page.is_valid());
    let expected: [u64; 4] = Page::<4>::generate_data(Page::<4>::assemble_seed(0xbeef, 3, 9, 1));
    assert!(page.data() == expected);
}
