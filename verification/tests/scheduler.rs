use super_massive_io::scribe::secretary::scheduler::{get_grid_element, WorkQueueIterator, WorkUnit, WorkUnitIterator};

#[test]
fn grid1x2() {
    let start: WorkUnit = WorkUnit((0, 0));
    let stop: WorkUnit = WorkUnit((1, 0));
    let mut work_iter: WorkUnitIterator<1, 2> = WorkUnitIterator::new(start, stop);

    let mut counter: u64 = 0;

    while let Some(work) = work_iter.next() {
        match counter {
            0 => { assert!(work.0 == 0 && work.1 == 0) },
            1 => { assert!(work.0 == 1 && work.1 == 0) },
            _ => unreachable!("Iterated too far"),
        }
        counter += 1;
    }
    assert!(counter == 2, "{} ? {}", counter, 2);
}

#[test]
fn grid2x1() {
    let start: WorkUnit = WorkUnit((0, 0));
    let stop: WorkUnit = WorkUnit((0, 1));
    let mut work_iter: WorkUnitIterator<2, 1> = WorkUnitIterator::new(start, stop);

    let mut counter: u64 = 0;

    while let Some(work) = work_iter.next() {
        match counter {
            0 => { assert!(work.0 == 0 && work.1 == 0) },
            1 => { assert!(work.0 == 0 && work.1 == 1) },
            _ => unreachable!("Iterated too far"),
        }
        counter += 1;
    }
    assert!(counter == 2, "{} ? {}", counter, 2);
}

#[test]
fn grid2x2() {
    let start: WorkUnit = WorkUnit((0, 0));
    let stop: WorkUnit = WorkUnit((1, 1));
    let mut work_iter: WorkUnitIterator<2, 2> = WorkUnitIterator::new(start, stop);

    let mut counter: u64 = 0;

    while let Some(work) = work_iter.next() {
        match counter {
            0 => { assert!(work.0 == 0 && work.1 == 0) },
            1 => { assert!(work.0 == 0 && work.1 == 1) },
            2 => { assert!(work.0 == 1 && work.1 == 0) },
            3 => { assert!(work.0 == 1 && work.1 == 1) },
            _ => unreachable!("Iterated too far"),
        }
        counter += 1;
    }
    assert!(counter == 4, "{} ? {}", counter, 4);
}

#[test]
fn grid2x3() {
    let start: WorkUnit = WorkUnit((0, 0));
    let stop: WorkUnit = WorkUnit((2, 1));
    let mut work_iter: WorkUnitIterator<2, 3> = WorkUnitIterator::new(start, stop);

    let mut counter: u64 = 0;

    while let Some(work) = work_iter.next() {
        match counter {
            0 => { assert!(work.0 == 0 && work.1 == 0) },
            1 => { assert!(work.0 == 0 && work.1 == 1) },
            2 => { assert!(work.0 == 1 && work.1 == 0) },
            3 => { assert!(work.0 == 1 && work.1 == 1) },
            4 => { assert!(work.0 == 2 && work.1 == 0) },
            5 => { assert!(work.0 == 2 && work.1 == 1) },
            _ => unreachable!("Iterated too far"),
        }
        counter += 1;
    }
    assert!(counter == 6, "{} ? {}", counter, 6);
}

/// Splits a handed-out range into (x0, y0, x1, y1).
fn corners(work: (WorkUnit, WorkUnit)) -> (u64, u64, u64, u64) {
    let start: WorkUnit = work.0;
    let end: WorkUnit = work.1;
    (start.0 .1, start.0 .0, end.0 .1, end.0 .0)
}

#[test]
fn grid2x1_step1() {
    let mut queue: WorkQueueIterator<2, 1, 1> = 0.into();

    let mut counter: u64 = 0;
    while let Some(work) = queue.next() {
        let (x0, y0, x1, y1) = corners(work);
        match counter {
            0 => {
                assert!(x0 == 0, "{} ? {}", x0, 0);
                assert!(y0 == 0, "{} ? {}", y0, 0);
                assert!(x1 == 0, "{} ? {}", x1, 0);
                assert!(y1 == 0, "{} ? {}", y1, 0);
            },
            1 => {
                assert!(x0 == 1, "{} ? {}", x0, 1);
                assert!(y0 == 0, "{} ? {}", y0, 0);
                assert!(x1 == 1, "{} ? {}", x1, 1);
                assert!(y1 == 0, "{} ? {}", y1, 0);
            },
            _ => unreachable!("Work iterator iterated to far!"),
        }
        counter += 1;
    }
    assert!(counter == 2, "{} ? {}", counter, 2);
}

#[test]
fn grid2x1_step2() {
    let mut queue: WorkQueueIterator<2, 1, 2> = 0.into();

    let mut counter: u64 = 0;
    while let Some(work) = queue.next() {
        let (x0, y0, x1, y1) = corners(work);
        match counter {
            0 => {
                assert!(x0 == 0, "{} ? {}", x0, 0);
                assert!(y0 == 0, "{} ? {}", y0, 0);
                assert!(x1 == 1, "{} ? {}", x1, 1);
                assert!(y1 == 0, "{} ? {}", y1, 0);
            },
            _ => unreachable!("Work iterator iterated to far!"),
        }
        counter += 1;
    }
    assert!(counter == 1, "{} ? {}", counter, 2);
}

#[test]
fn grid3x2_step1() {
    let mut queue: WorkQueueIterator<3, 2, 1> = 0.into();

    let mut counter: u64 = 0;
    while let Some(work) = queue.next() {
        let (x0, y0, x1, y1) = corners(work);
        match counter {
            0 => {
                assert!(x0 == 0, "{} ? {}", x0, 0);
                assert!(y0 == 0, "{} ? {}", y0, 0);
                assert!(x1 == 0, "{} ? {}", x1, 0);
                assert!(y1 == 0, "{} ? {}", y1, 0);
            },
            1 => {
                assert!(x0 == 1, "{} ? {}", x0, 1);
                assert!(y0 == 0, "{} ? {}", y0, 0);
                assert!(x1 == 1, "{} ? {}", x1, 1);
                assert!(y1 == 0, "{} ? {}", y1, 0);
            },
            2 => {
                assert!(x0 == 2, "{} ? {}", x0, 2);
                assert!(y0 == 0, "{} ? {}", y0, 0);
                assert!(x1 == 2, "{} ? {}", x1, 2);
                assert!(y1 == 0, "{} ? {}", y1, 0);
            },
            3 => {
                assert!(x0 == 0, "{} ? {}", x0, 0);
                assert!(y0 == 1, "{} ? {}", y0, 1);
                assert!(x1 == 0, "{} ? {}", x1, 0);
                assert!(y1 == 1, "{} ? {}", y1, 1);
            },
            4 => {
                assert!(x0 == 1, "{} ? {}", x0, 1);
                assert!(y0 == 1, "{} ? {}", y0, 1);
                assert!(x1 == 1, "{} ? {}", x1, 1);
                assert!(y1 == 1, "{} ? {}", y1, 1);
            },
            5 => {
                assert!(x0 == 2, "{} ? {}", x0, 2);
                assert!(y0 == 1, "{} ? {}", y0, 1);
                assert!(x1 == 2, "{} ? {}", x1, 2);
                assert!(y1 == 1, "{} ? {}", y1, 1);
            },
            _ => unreachable!("Work iterator iterated to far!"),
        }
        counter += 1;
    }
    assert!(counter == 6, "{} ? {}", counter, 6);
}

#[test]
fn grid3x2_step2() {
    let mut queue: WorkQueueIterator<3, 2, 2> = 0.into();

    let mut counter: u64 = 0;
    while let Some(work) = queue.next() {
        let (x0, y0, x1, y1) = corners(work);
        match counter {
            0 => {
                assert!(x0 == 0, "{} ? {}", x0, 0);
                assert!(y0 == 0, "{} ? {}", y0, 0);
                assert!(x1 == 1, "{} ? {}", x1, 1);
                assert!(y1 == 0, "{} ? {}", y1, 0);
            },
            1 => {
                assert!(x0 == 2, "{} ? {}", x0, 2);
                assert!(y0 == 0, "{} ? {}", y0, 0);
                assert!(x1 == 0, "{} ? {}", x1, 0);
                assert!(y1 == 1, "{} ? {}", y1, 1);
            },
            2 => {
                assert!(x0 == 1, "{} ? {}", x0, 1);
                assert!(y0 == 1, "{} ? {}", y0, 1);
                assert!(x1 == 2, "{} ? {}", x1, 2);
                assert!(y1 == 1, "{} ? {}", y1, 1);
            },
            _ => unreachable!("Work iterator iterated to far!"),
        }
        counter += 1;
    }
    assert!(counter == 3, "{} ? {}", counter, 3);
}

#[test]
fn grid3x2_step4() {
    let mut queue: WorkQueueIterator<3, 2, 4> = 0.into();

    let mut counter: u64 = 0;
    while let Some(work) = queue.next() {
        let (x0, y0, x1, y1) = corners(work);
        match counter {
            0 => {
                assert!(x0 == 0, "{} ? {}", x0, 0);
                assert!(y0 == 0, "{} ? {}", y0, 0);
                assert!(x1 == 0, "{} ? {}", x1, 0);
                assert!(y1 == 1, "{} ? {}", y1, 1);
            },
            1 => {
                assert!(x0 == 1, "{} ? {}", x0, 1);
                assert!(y0 == 1, "{} ? {}", y0, 1);
                assert!(x1 == 2, "{} ? {}", x1, 2);
                assert!(y1 == 1, "{} ? {}", y1, 1);
            },
            _ => unreachable!("Work iterator iterated to far!"),
        }
        counter += 1;
    }
    assert!(counter == 2, "{} ? {}", counter, 2);
}

#[test]
fn queue_ranges_tile_a_larger_grid() {
    // 5 columns by 3 rows, 4 units per pull: positions 0..15 in ranges of 4.
    let mut queue: WorkQueueIterator<5, 3, 4> = 0.into();
    let mut next_position: u64 = 0;
    let mut pulls: u64 = 0;
    while let Some((start, end)) = queue.next() {
        let first = 5 * start.0 .0 + start.0 .1;
        let last = 5 * end.0 .0 + end.0 .1;
        assert_eq!(first, next_position);
        assert!(last >= first);
        next_position = last + 1;
        pulls += 1;
    }
    assert_eq!(next_position, 15);
    assert_eq!(pulls, 4);
}

#[test]
fn queue_starting_inside_the_grid() {
    let mut queue: WorkQueueIterator<3, 2, 2> = 5.into();
    let (start, end) = queue.next().expect("position 5 is the last unit");
    assert_eq!(start.0, (1, 2));
    assert_eq!(end.0, (1, 2));
    assert!(queue.next().is_none());
}

#[test]
fn grid_element_is_column_and_row() {
    assert_eq!(get_grid_element::<3, 1>(7), (1, 2));
    assert_eq!(get_grid_element::<512, 1>(1023), (511, 1));
}

#[test]
fn unit_iterator_past_stop_yields_nothing() {
    let mut work_iter: WorkUnitIterator<4, 4> = WorkUnitIterator::new(WorkUnit((2, 1)), WorkUnit((1, 3)));
    assert!(work_iter.next().is_none());
}

#[test]
fn unit_iterator_crosses_rows() {
    let mut work_iter: WorkUnitIterator<3, 5> = WorkUnitIterator::new(WorkUnit((1, 2)), WorkUnit((2, 1)));
    assert_eq!(work_iter.next(), Some((1, 2)));
    assert_eq!(work_iter.next(), Some((2, 0)));
    assert_eq!(work_iter.next(), Some((2, 1)));
    assert_eq!(work_iter.next(), None);
}
