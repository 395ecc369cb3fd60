//! A unit of work: one (page, file) element of the work matrix.
use vstd::prelude::*;
use std::cmp::Ordering;

verus! {

/// Number of columns (pages per file) of the work matrix.
pub const COLUMNS: u64 = 512;

/// # Description
/// Representation of an element of a matrix. Used to uniquely identify a
/// (page, book) pair. Work units {0, 1, ..., n} are laid out row by row, one
/// row per file and `COLUMNS` pages per row, so that a unit is both a
/// (column, row) pair and a single integer.
#[derive(Clone, Copy, PartialEq, Eq, Structural)]
pub struct Unit {
    col: u64,
    row: u64,
}

impl Unit {
    #[verifier::type_invariant]
    closed spec fn in_matrix(self) -> bool {
        &&& self.col < COLUMNS
        &&& self.row <= u64::MAX / COLUMNS
    }

    /// The column (page) of the unit.
    pub closed spec fn col(self) -> u64 {
        self.col
    }

    /// The row (file) of the unit.
    pub closed spec fn row(self) -> u64 {
        self.row
    }

    /// The unit at linear position `val`.
    pub closed spec fn unit_at(val: u64) -> Unit {
        Unit { col: val % COLUMNS, row: val / COLUMNS }
    }

    /// The linear position of the unit: `row * COLUMNS + col`.
    pub open spec fn position(self) -> int {
        self.row() * COLUMNS + self.col() % COLUMNS
    }
}

impl From<u64> for Unit {
    /// The unit at linear position `val`: column `val % COLUMNS`, row
    /// `val / COLUMNS`.
    fn from(val: u64) -> (u: Unit) {
        Unit { col: val % COLUMNS, row: val / COLUMNS }
    }
}

impl vstd::std_specs::convert::FromSpecImpl<u64> for Unit {
    open spec fn obeys_from_spec() -> bool {
        true
    }

    open spec fn from_spec(v: u64) -> Unit {
        Unit::unit_at(v)
    }
}

impl From<Unit> for u64 {
    /// The linear position of a unit: `row * COLUMNS + col % COLUMNS`.
    fn from(u: Unit) -> (v: u64) {
        proof { use_type_invariant(&u); }
        u.row * COLUMNS + u.col % COLUMNS
    }
}

impl vstd::std_specs::convert::FromSpecImpl<Unit> for u64 {
    open spec fn obeys_from_spec() -> bool {
        true
    }

    open spec fn from_spec(u: Unit) -> u64 {
        (u.row() * COLUMNS + u.col() % COLUMNS) as u64
    }
}

impl PartialOrd for Unit {
    /// Units are ordered by their linear position.
    fn partial_cmp(&self, other: &Self) -> (o: Option<Ordering>) {
        proof {
            use_type_invariant(self);
            use_type_invariant(other);
        }
        let lhs: u64 = u64::from(*self);
        let rhs: u64 = u64::from(*other);
        if lhs < rhs {
            Some(Ordering::Less)
        } else if lhs == rhs {
            Some(Ordering::Equal)
        } else {
            Some(Ordering::Greater)
        }
    }
}

impl vstd::std_specs::cmp::PartialOrdSpecImpl for Unit {
    open spec fn obeys_partial_cmp_spec() -> bool {
        true
    }

    open spec fn partial_cmp_spec(&self, other: &Self) -> Option<Ordering> {
        if self.position() < other.position() {
            Some(Ordering::Less)
        } else if self.position() == other.position() {
            Some(Ordering::Equal)
        } else {
            Some(Ordering::Greater)
        }
    }
}

/// Converting a position to a unit and back gives the same position.
pub proof fn lemma_position_roundtrip(val: u64)
    ensures
        Unit::unit_at(val).position() == val,
{
}

/// Converting a unit to its position and back gives the same unit.
pub proof fn lemma_unit_roundtrip(u: Unit)
    requires
        u.col() < COLUMNS,
        u.row() <= u64::MAX / COLUMNS,
    ensures
        0 <= u.position() <= u64::MAX,
        Unit::unit_at(u.position() as u64) == u,
{
    let p = u.position();
    assert(p == u.row() * COLUMNS + u.col());
    assert(p / (COLUMNS as int) == u.row()) by (nonlinear_arith)
        requires p == u.row() * COLUMNS + u.col(), u.col() < COLUMNS;
    assert(p % (COLUMNS as int) == u.col()) by (nonlinear_arith)
        requires p == u.row() * COLUMNS + u.col(), u.col() < COLUMNS;
}

} // verus!
