//! The decisions of the scribe workers: as units of work `(book, page)`
//! arrive, pages are gathered in a buffer of `N` slots and the buffer is
//! flushed (written to the active book, or read back from it and checked)
//! when it is full and when the work moves on to another book.
use vstd::prelude::*;

verus! {

/// What a scribe worker does next.
#[derive(Debug, Clone, Copy, PartialEq, Eq, Structural)]
pub enum BufferAction {
    /// Flush the first `pages` slots of the buffer against book `book`:
    /// write them there, or read as many pages back and check them.
    Flush { book: u64, pages: usize },
    /// Open book `book`.
    Open { book: u64 },
    /// Fill slot `slot` with page `page` of book `book`.
    Fill { slot: usize, book: u64, page: u64 },
}

/// The state of a scribe worker: its active book and how many slots of the
/// buffer are filled.
pub struct BufferState {
    pub active: u64,
    pub filled: nat,
}

/// The actions that switch to book `book`: flush what is buffered for the
/// active book, if anything, then open `book`.
pub open spec fn switch_actions(s: BufferState, book: u64) -> Seq<BufferAction> {
    if s.filled > 0 {
        seq![BufferAction::Flush { book: s.active, pages: s.filled as usize }, BufferAction::Open { book }]
    } else {
        seq![BufferAction::Open { book }]
    }
}

/// One step on unit `(book, page)` with a buffer of `n` slots: switch books
/// when the unit belongs to another book, fill the next slot with the unit's
/// page, and flush when the buffer is full. Returns the new state and the
/// actions, in order.
pub open spec fn buffer_step(n: nat, s: BufferState, unit: (u64, u64)) -> (BufferState, Seq<BufferAction>) {
    let book = unit.0;
    let switching = book != s.active;
    let before = if switching { switch_actions(s, book) } else { Seq::empty() };
    let slot: nat = if switching { 0 } else { s.filled };
    let filled = before.push(BufferAction::Fill { slot: slot as usize, book, page: unit.1 });
    if slot + 1 == n {
        (BufferState { active: book, filled: 0 }, filled.push(BufferAction::Flush { book, pages: n as usize }))
    } else {
        (BufferState { active: book, filled: slot + 1 }, filled)
    }
}

/// The buffer of a scribe worker with `N` slots.
pub struct PageBuffer<const N: usize> {
    active: u64,
    filled: usize,
}

impl<const N: usize> View for PageBuffer<N> {
    type V = BufferState;

    closed spec fn view(&self) -> BufferState {
        BufferState { active: self.active, filled: self.filled as nat }
    }
}

impl<const N: usize> PageBuffer<N> {
    /// An empty buffer whose active book is `book` (the worker opens it
    /// first).
    pub fn new(book: u64) -> (b: PageBuffer<N>)
        ensures
            b@ == (BufferState { active: book, filled: 0 }),
    {
        PageBuffer { active: book, filled: 0 }
    }

    /// Takes unit `(book, page)` and returns what to do, in order.
    pub fn step(&mut self, unit: (u64, u64)) -> (actions: Vec<BufferAction>)
        requires
            N > 0,
            old(self)@.filled < N,
        ensures
            (final(self)@, actions@) == buffer_step(N as nat, old(self)@, unit),
            final(self)@.filled < N,
            final(self)@.active == unit.0,
            begins_with_switch(old(self)@, unit, actions@),
            keeps_to_books(old(self)@, unit, actions@),
    {
        proof { lemma_step_switches_books(N as nat, self@, unit); }
        let book = unit.0;
        let mut actions: Vec<BufferAction> = Vec::new();
        let ghost s0 = self@;
        if book != self.active {
            if self.filled > 0 {
                actions.push(BufferAction::Flush { book: self.active, pages: self.filled });
            }
            actions.push(BufferAction::Open { book });
            self.active = book;
            self.filled = 0;
            assert(actions@ =~= switch_actions(s0, book));
        } else {
            assert(actions@ =~= Seq::<BufferAction>::empty());
        }
        let slot: usize = self.filled;
        actions.push(BufferAction::Fill { slot, book, page: unit.1 });
        if slot + 1 == N {
            actions.push(BufferAction::Flush { book, pages: N });
            self.filled = 0;
        } else {
            self.filled = slot + 1;
        }
        actions
    }

    /// What is left to do once the work runs out: flush what is buffered, if
    /// anything.
    pub fn finish(&self) -> (r: Option<BufferAction>)
        ensures
            r == (if self@.filled > 0 {
                Some(BufferAction::Flush { book: self@.active, pages: self@.filled as usize })
            } else {
                None
            }),
    {
        if self.filled > 0 {
            Some(BufferAction::Flush { book: self.active, pages: self.filled })
        } else {
            None
        }
    }
}

/// A step keeps the buffer within bounds: the filled count stays below `n`,
/// the active book is the unit's, and every flush it asks for is neither
/// empty nor larger than the buffer.
pub proof fn lemma_step_flushes_bounded(n: nat, s: BufferState, unit: (u64, u64))
    requires
        n > 0,
        s.filled < n,
        n <= usize::MAX,
    ensures
        buffer_step(n, s, unit).0.filled < n,
        buffer_step(n, s, unit).0.active == unit.0,
        forall|i: int| 0 <= i < buffer_step(n, s, unit).1.len() ==>
            (#[trigger] buffer_step(n, s, unit).1[i] matches BufferAction::Flush { pages, .. } ==> 0 < pages <= n),
{
}

/// The actions of a step on `unit` from `s` begin as a move between books
/// asks: on a unit of another book, a flush of what is buffered for the
/// active book (when anything is), then an open of the unit's book, then the
/// unit's page in slot 0; on a unit of the active book, the unit's page in
/// the next slot.
pub open spec fn begins_with_switch(s: BufferState, unit: (u64, u64), acts: Seq<BufferAction>) -> bool {
    if unit.0 != s.active {
        if s.filled > 0 {
            &&& acts.len() >= 3
            &&& acts[0] == (BufferAction::Flush { book: s.active, pages: s.filled as usize })
            &&& acts[1] == (BufferAction::Open { book: unit.0 })
            &&& acts[2] == (BufferAction::Fill { slot: 0, book: unit.0, page: unit.1 })
        } else {
            &&& acts.len() >= 2
            &&& acts[0] == (BufferAction::Open { book: unit.0 })
            &&& acts[1] == (BufferAction::Fill { slot: 0, book: unit.0, page: unit.1 })
        }
    } else {
        &&& acts.len() >= 1
        &&& acts[0] == (BufferAction::Fill { slot: s.filled as usize, book: unit.0, page: unit.1 })
    }
}

/// Every page filled belongs to the unit's book, a book is opened only when
/// the work moves to it, and every flush goes to the book active before or
/// after the step.
pub open spec fn keeps_to_books(s: BufferState, unit: (u64, u64), acts: Seq<BufferAction>) -> bool {
    forall|i: int| 0 <= i < acts.len() ==> match #[trigger] acts[i] {
        BufferAction::Fill { book, .. } => book == unit.0,
        BufferAction::Open { book } => book == unit.0 && unit.0 != s.active,
        BufferAction::Flush { book, .. } => book == unit.0 || book == s.active,
    }
}

/// Pages go to the books they belong to: a step on a unit of another book
/// than the active one (lower or higher) first flushes what is buffered for
/// the active book, when anything is, then opens the unit's book, then fills
/// slot 0 with the unit's page; a step on a unit of the active book fills the
/// next slot. Every page filled belongs to the unit's book, books are opened
/// only on a move, flushes go to the active book before or after the step,
/// and afterwards the unit's book is the active one.
pub proof fn lemma_step_switches_books(n: nat, s: BufferState, unit: (u64, u64))
    requires
        n > 0,
        s.filled < n,
        n <= usize::MAX,
    ensures
        buffer_step(n, s, unit).0.active == unit.0,
        begins_with_switch(s, unit, buffer_step(n, s, unit).1),
        keeps_to_books(s, unit, buffer_step(n, s, unit).1),
{
}

} // verus!
