use super_massive_io::scribe::writer::{BufferAction, PageBuffer};
use super_massive_io::worker::{chapter_start, next_page, whole_pages_read, ChapterSelector};
use super_massive_io::{PAGES_PER_CHAPTER, PAGE_BYTES};

#[test]
fn chapter_start_maps_work_to_file_and_page() {
    assert_eq!(chapter_start(0, 512), (0, 0));
    assert_eq!(chapter_start(511, 512), (0, 511));
    assert_eq!(chapter_start(512, 512), (1, 0));
    assert_eq!(chapter_start(1300, 512), (2, 276));
}

#[test]
fn whole_pages_read_stops_on_short_reads() {
    assert!(!whole_pages_read(0));
    assert!(!whole_pages_read(100));
    assert!(!whole_pages_read(PAGE_BYTES + 1));
    assert!(whole_pages_read(PAGE_BYTES));
    assert!(whole_pages_read(PAGE_BYTES * PAGES_PER_CHAPTER));
}

#[test]
fn selector_takes_every_chapterth_item() {
    let mut selector = ChapterSelector::new();
    let mut chosen = Vec::new();
    for work in 0..(3 * PAGES_PER_CHAPTER as u64) {
        if let Some(start) = selector.select(work, 512) {
            chosen.push(start);
        }
    }
    assert_eq!(chosen, vec![(0, 0), (0, 256), (1, 0)]);
}

#[test]
fn buffer_fills_flushes_and_switches_books() {
    let mut buffer: PageBuffer<2> = PageBuffer::new(0);
    assert_eq!(buffer.step((0, 0)), vec![BufferAction::Fill { slot: 0, book: 0, page: 0 }]);
    assert_eq!(
        buffer.step((0, 1)),
        vec![BufferAction::Fill { slot: 1, book: 0, page: 1 }, BufferAction::Flush { book: 0, pages: 2 }]
    );
    assert_eq!(buffer.step((0, 2)), vec![BufferAction::Fill { slot: 0, book: 0, page: 2 }]);
    assert_eq!(
        buffer.step((1, 0)),
        vec![
            BufferAction::Flush { book: 0, pages: 1 },
            BufferAction::Open { book: 1 },
            BufferAction::Fill { slot: 0, book: 1, page: 0 },
        ]
    );
    assert_eq!(buffer.finish(), Some(BufferAction::Flush { book: 1, pages: 1 }));
    let mut empty: PageBuffer<2> = PageBuffer::new(0);
    assert_eq!(empty.finish(), None);
    assert_eq!(
        empty.step((3, 9)),
        vec![BufferAction::Open { book: 3 }, BufferAction::Fill { slot: 0, book: 3, page: 9 }]
    );
}

#[test]
fn next_page_steps_by_one() {
    assert_eq!(next_page(0, Some(0), 10, 1), Some(1));
    assert_eq!(next_page(0, Some(41), 10, 7), Some(42));
    assert_eq!(next_page(0, Some(u64::MAX), 10, 1), None);
    assert_eq!(next_page(0, None, 10, 1), None);
}
