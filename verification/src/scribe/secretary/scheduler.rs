//! Iterators that hand out units of work of an `X` pages by `Y` files grid.
use vstd::prelude::*;
use vstd::arithmetic::div_mod::{lemma_fundamental_div_mod, lemma_mod_multiples_vanish, lemma_small_mod,
    lemma_fundamental_div_mod_converse};

verus! {

/// The `(x, y)` = (column, row) grid element of linear position `i` in a grid
/// of `X` columns.
#[inline(always)]
pub fn get_grid_element<const X: usize, const S: usize>(i: u64) -> (e: (u64, u64))
    requires
        X > 0,
    ensures
        e == ((i % (X as u64)) as u64, (i / (X as u64)) as u64),
{
    let x0: u64 = i % (X as u64);
    let y0: u64 = i / (X as u64);
    (x0, y0)
}

/// A unit of work: `(row, column)` = (file, page).
pub struct WorkUnit(pub (u64, u64));

/// The linear position of a grid element `(row, column)` in a grid of `x`
/// columns: `x * row + column`.
pub open spec fn grid_position(x: int, e: (u64, u64)) -> int {
    x * e.0 + e.1
}

/// The unit after `e` in row-major order, in a grid of `x` columns.
pub open spec fn unit_step(x: int, e: (u64, u64)) -> (u64, u64) {
    let x1 = (grid_position(x, e) + 1) % x;
    (if x1 != 0 { e.0 } else { (e.0 + 1) as u64 }, x1 as u64)
}

/// The unit `k` steps after `e`.
pub open spec fn unit_walk(x: int, e: (u64, u64), k: nat) -> (u64, u64)
    decreases k,
{
    if k == 0 { e } else { unit_step(x, unit_walk(x, e, (k - 1) as nat)) }
}

/// Iterates the units of work from `current` up to and including `stop`, in
/// row-major order.
pub struct WorkUnitIterator<const X: usize, const Y: usize> {
    current: WorkUnit,
    stop: WorkUnit,
}

impl<const X: usize, const Y: usize> WorkUnitIterator<X, Y> {
    /// The next unit this iterator will consider, `(row, column)`.
    pub closed spec fn current(&self) -> (u64, u64) {
        self.current.0
    }

    /// The last unit this iterator yields, `(row, column)`.
    pub closed spec fn stop(&self) -> (u64, u64) {
        self.stop.0
    }

    /// The linear positions involved in the next step fit in 64 bits, and the
    /// step itself does not overflow or divide by zero.
    pub open spec fn next_defined(&self) -> bool {
        let cur = grid_position(X as int, self.current());
        let stop = grid_position(X as int, self.stop());
        &&& cur <= u64::MAX
        &&& stop <= u64::MAX
        &&& cur <= stop ==> {
            &&& X > 0
            &&& cur + 1 <= u64::MAX
            &&& (cur + 1) % (X as int) == 0 ==> self.current().0 < u64::MAX
        }
    }

    pub fn new(start: WorkUnit, stop: WorkUnit) -> (it: WorkUnitIterator<X, Y>)
        ensures
            it.current() == start.0,
            it.stop() == stop.0,
    {
        WorkUnitIterator { current: start, stop: stop }
    }

    /// Yields the current unit `(row, column)` unless it lies past `stop`,
    /// and moves to the following position of the grid.
    pub fn next(&mut self) -> (r: Option<(u64, u64)>)
        requires
            old(self).next_defined(),
        ensures
            ({
                let cur = grid_position(X as int, old(self).current());
                let stop = grid_position(X as int, old(self).stop());
                if stop < cur {
                    &&& r is None
                    &&& final(self).current() == old(self).current()
                } else {
                    &&& r == Some(old(self).current())
                    &&& final(self).current() == unit_step(X as int, old(self).current())
                }
            }),
            final(self).stop() == old(self).stop(),
    {
        let x0 = self.current.0.1;
        let y0 = self.current.0.0;
        let ex = self.stop.0.1;
        let ey = self.stop.0.0;
        let current = (X as u64) * (y0) + x0;
        let stop = (X as u64) * (ey) + ex;

        if stop < current {
            return None;
        }
        let result: (u64, u64) = (y0, x0);

        let x1 = (current + 1) % (X as u64);
        let y1: u64;
        if x1 != 0 {
            y1 = y0;
        } else {
            y1 = y0 + 1;
        }
        self.current.0.0 = y1;
        self.current.0.1 = x1;

        Some(result)
    }
}

/// One step of a `WorkUnitIterator` from a position `(row, column)` with
/// `column < x` moves to the next linear position, again with a column below
/// `x`: units are visited in row-major order, one position at a time.
pub proof fn lemma_step_is_successor(x: int, row: u64, col: u64)
    requires
        x > 0,
        col < x,
        x * row + col + 1 <= u64::MAX,
    ensures
        ({
            let cur = x * row + col;
            let x1 = (cur + 1) % x;
            let y1 = if x1 != 0 { row as int } else { row + 1 };
            &&& x1 < x
            &&& x * y1 + x1 == cur + 1
        }),
{
    let cur = x * row + col;
    lemma_mod_multiples_vanish(row as int, col + 1, x);
    if col + 1 < x {
        lemma_small_mod((col + 1) as nat, x as nat);
    } else {
        assert(col + 1 == x);
        assert(cur + 1 == x * (row + 1)) by (nonlinear_arith)
            requires cur == x * row + col, col + 1 == x;
        lemma_mod_multiples_vanish(row as int, 0, x);
        lemma_small_mod(0, x as nat);
    }
}

/// Walking is counting: `k` steps of a `WorkUnitIterator` from a unit with a
/// column below `x` reach the unit at linear position `position + k`, that
/// is `((position + k) / x, (position + k) % x)`. With `next`, which yields the
/// current unit and steps while the current position is at most the stop's,
/// and leaves the iterator unchanged past it, an iterator from `a` to `b`
/// yields the units at positions `a, a + 1, ..., b`, in order, and then
/// nothing on every later call.
pub proof fn lemma_walk_positions(x: int, e: (u64, u64), k: nat)
    requires
        x > 0,
        e.1 < x,
        grid_position(x, e) + k <= u64::MAX,
    ensures
        grid_position(x, unit_walk(x, e, k)) == grid_position(x, e) + k,
        unit_walk(x, e, k).1 < x,
        unit_walk(x, e, k) == element_at(x, grid_position(x, e) + k),
    decreases k,
{
    lemma_walk_counts(x, e, k);
    let w = unit_walk(x, e, k);
    let j = grid_position(x, e) + k;
    lemma_fundamental_div_mod_converse(j, x, w.0 as int, w.1 as int);
}

/// The counting part of `lemma_walk_positions`.
proof fn lemma_walk_counts(x: int, e: (u64, u64), k: nat)
    requires
        x > 0,
        e.1 < x,
        grid_position(x, e) + k <= u64::MAX,
    ensures
        grid_position(x, unit_walk(x, e, k)) == grid_position(x, e) + k,
        unit_walk(x, e, k).1 < x,
    decreases k,
{
    if k > 0 {
        lemma_walk_counts(x, e, (k - 1) as nat);
        let w = unit_walk(x, e, (k - 1) as nat);
        lemma_step_is_successor(x, w.0, w.1);
        assert(x * w.0 + w.1 == grid_position(x, w));
        let cur = x * w.0 + w.1;
        let x1 = (cur + 1) % x;
        if x1 == 0 {
            assert(x * w.0 + w.1 + 1 == x * (w.0 + 1)) by (nonlinear_arith)
                requires x * (w.0 + 1 as int) + 0 == cur + 1, cur == x * w.0 + w.1;
            assert(w.0 < u64::MAX) by (nonlinear_arith)
                requires x * (w.0 + 1 as int) <= u64::MAX, x > 0, w.0 >= 0;
        }
    }
}

/// The grid element `(row, column)` of linear position `j` in a grid of `x`
/// columns.
pub open spec fn element_at(x: int, j: int) -> (u64, u64) {
    ((j / x) as u64, (j % x) as u64)
}

/// The work range that the queue hands out when its counter reads `i`: the
/// units from position `i` to position `i + s - 1`, the end clamped to the last
/// unit `(y - 1, x - 1)` of the grid; nothing once `i` is past the grid.
pub open spec fn queue_range(x: int, y: int, s: int, i: int) -> Option<((u64, u64), (u64, u64))> {
    if i >= x * y {
        None
    } else {
        let j = i + s - 1;
        let end = if j / x < y { element_at(x, j) } else { ((y - 1) as u64, (x - 1) as u64) };
        Some((element_at(x, i), end))
    }
}

/// The position of the element at `j` is `j`.
pub proof fn lemma_element_position(x: int, j: int)
    requires
        x > 0,
        0 <= j <= u64::MAX,
    ensures
        grid_position(x, element_at(x, j)) == j,
{
    lemma_fundamental_div_mod(j, x);
    assert(0 <= j / x <= j) by (nonlinear_arith)
        requires x > 0, j >= 0;
}

/// The queue tiles the grid: when the counter reads `i` (inside the grid), the
/// range handed out starts at position `i` and ends at position
/// `min(i + s, x * y) - 1`. As the counter advances by `s` per call, the ranges
/// of successive calls are contiguous and disjoint, and the last one ends at
/// the last unit of the grid: every unit is handed out exactly once, in order.
pub proof fn lemma_queue_ranges_tile(x: int, y: int, s: int, i: int)
    requires
        x > 0,
        y > 0,
        s >= 1,
        0 <= i < x * y,
        x * y <= u64::MAX,
        i + s <= u64::MAX,
    ensures
        queue_range(x, y, s, i) matches Some((start, end)) && {
            &&& grid_position(x, start) == i
            &&& grid_position(x, end) == if i + s <= x * y { i + s - 1 } else { x * y - 1 }
        },
{
    let j = i + s - 1;
    lemma_element_position(x, i);
    lemma_fundamental_div_mod(j, x);
    if j / x < y {
        lemma_element_position(x, j);
        assert(j < x * y) by (nonlinear_arith)
            requires j == x * (j / x) + j % x, j % x < x, j / x < y, x > 0;
    } else {
        assert(j >= x * y) by (nonlinear_arith)
            requires j == x * (j / x) + j % x, j % x >= 0, j / x >= y, x > 0;
        assert(x * (y - 1) + (x - 1) == x * y - 1) by (nonlinear_arith);
    }
}

/// This is a compile-time sized queue which can be handed out to workers to
/// pull work from. `X` and `Y` dictate the structure of the queue (`X` pages
/// by `Y` files) while `S` denotes the amount of work pulled off per call.
///
/// Each call yields an inclusive range (start, end) of units. When the range
/// runs past the last unit of the grid, the end is the last unit; all calls
/// after that yield `None`.
pub struct WorkQueueIterator<const X: usize, const Y: usize, const S: usize>(u64);

impl<const X: usize, const Y: usize, const S: usize> WorkQueueIterator<X, Y, S> {
    /// The linear position of the next work to hand out.
    pub closed spec fn counter(&self) -> u64 {
        self.0
    }

    /// The queue at counter `item`.
    pub closed spec fn at(item: u64) -> Self {
        WorkQueueIterator(item)
    }

    /// The queue at counter `item` reads `item`: a queue made with
    /// `From<u64>` starts handing out work at that position.
    pub proof fn lemma_at_counter(item: u64)
        ensures
            Self::at(item).counter() == item,
    {
    }

    /// Hands out the next range of `S` units: the counter advances by `S`
    /// (wrapping, as an atomic fetch-add does).
    pub fn next(&mut self) -> (r: Option<(WorkUnit, WorkUnit)>)
        requires
            X * Y <= u64::MAX,
            old(self).counter() < X * Y ==> 1 <= old(self).counter() + S <= u64::MAX,
        ensures
            final(self).counter() == (old(self).counter() + S) % (u64::MAX as int + 1),
            match (r, queue_range(X as int, Y as int, S as int, old(self).counter() as int)) {
                (None, None) => true,
                (Some((a, b)), Some((sa, sb))) => a.0 == sa && b.0 == sb,
                _ => false,
            },
    {
        let x: u64 = X as u64;
        let y: u64 = Y as u64;
        let s: u64 = S as u64;
        let i: u64 = self.0;
        self.0 = self.0.wrapping_add(s);

        if i >= (x * y) {
            return None;
        }

        assert(x > 0 && y > 0) by (nonlinear_arith)
            requires
                (i as int) < (x as int) * (y as int),
                x >= 0,
                y >= 0,
        ;
        let (x0, y0): (u64, u64) = get_grid_element::<X, S>(i);
        let start: WorkUnit = WorkUnit((y0, x0));

        let (x1, y1): (u64, u64) = get_grid_element::<X, S>((i + s) - 1);

        let end: WorkUnit;

        if y1 < y {
            end = WorkUnit((y1, x1));
        } else {
            end = WorkUnit(((y - 1), (x - 1)));
        }
        Some((start, end))
    }
}

impl<const X: usize, const Y: usize, const S: usize> From<u64> for WorkQueueIterator<X, Y, S> {
    /// A queue whose counter starts at `item`.
    fn from(item: u64) -> (q: WorkQueueIterator<X, Y, S>) {
        WorkQueueIterator(item)
    }
}

impl<const X: usize, const Y: usize, const S: usize> vstd::std_specs::convert::FromSpecImpl<u64> for WorkQueueIterator<X, Y, S> {
    open spec fn obeys_from_spec() -> bool {
        true
    }

    open spec fn from_spec(item: u64) -> Self {
        WorkQueueIterator::<X, Y, S>::at(item)
    }
}

} // verus!
