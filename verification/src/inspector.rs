//! Counters of work done per worker, and their consolidation into a global
//! total.
use vstd::prelude::*;
use crate::naming::{decimal, push_decimal};
use vstd::string::*;
use indicatif::HumanBytes;
use crate::chapter::lemma_window_mods_distinct;

verus! {

/// The sum of the counters in `s`.
pub open spec fn total(s: Seq<u64>) -> int
    decreases s.len(),
{
    if s.len() == 0 { 0 } else { total(s.drop_last()) + s.last() }
}

/// One counter per sampler plus one more, the last, for the global total.
struct Samples {
    samplers: usize,
    data: Vec<u64>,
}

impl Samples {
    spec fn wf(&self) -> bool {
        self.data@.len() == self.samplers + 1
    }

    /// `samplers + 1` counters, all zero.
    fn new(samplers: usize) -> (s: Samples)
        requires
            samplers < usize::MAX,
        ensures
            s.wf(),
            s.samplers == samplers,
            s.data@ == Seq::new((samplers + 1) as nat, |i: int| 0u64),
    {
        let mut data: Vec<u64> = Vec::new();
        let mut i: usize = 0;
        while i < samplers + 1
            invariant
                i <= samplers + 1,
                samplers < usize::MAX,
                data@ == Seq::new(i as nat, |k: int| 0u64),
            decreases samplers + 1 - i,
        {
            data.push(0);
            i = i + 1;
            assert(data@ =~= Seq::new(i as nat, |k: int| 0u64));
        }
        Samples { samplers, data }
    }

    /// The counter `id`, if there is one.
    fn get(&self, id: usize) -> (r: Option<u64>)
        requires
            self.wf(),
        ensures
            r == (if id <= self.samplers { Some(self.data@[id as int]) } else { None }),
    {
        if id <= self.samplers {
            Some(self.data[id])
        } else {
            None
        }
    }

    /// Sets counter `id`; `Err` when there is none.
    fn set(&mut self, id: usize, value: u64) -> (r: Result<(), ()>)
        requires
            old(self).wf(),
        ensures
            final(self).wf(),
            final(self).samplers == old(self).samplers,
            id <= old(self).samplers ==> r is Ok && final(self).data@ == old(self).data@.update(id as int, value),
            id > old(self).samplers ==> r is Err && final(self).data@ == old(self).data@,
    {
        if id <= self.samplers {
            self.data.set(id, value);
            Ok(())
        } else {
            Err(())
        }
    }

    /// Adds `value` to counter `id` (wrapping) and returns its previous value;
    /// `Err` when there is no such counter.
    fn add(&mut self, id: usize, value: u64) -> (r: Result<u64, ()>)
        requires
            old(self).wf(),
        ensures
            final(self).wf(),
            final(self).samplers == old(self).samplers,
            id <= old(self).samplers ==> r == Ok::<u64, ()>(old(self).data@[id as int])
                && final(self).data@ == old(self).data@.update(id as int,
                    ((old(self).data@[id as int] + value) % (u64::MAX as int + 1)) as u64),
            id > old(self).samplers ==> r is Err && final(self).data@ == old(self).data@,
    {
        if id <= self.samplers {
            let prev = self.data[id];
            self.data.set(id, prev.wrapping_add(value));
            Ok(prev)
        } else {
            Err(())
        }
    }

    /// Replaces counter `id` with `value` and returns its previous value;
    /// `Err` when there is no such counter.
    fn swap(&mut self, id: usize, value: u64) -> (r: Result<u64, ()>)
        requires
            old(self).wf(),
        ensures
            final(self).wf(),
            final(self).samplers == old(self).samplers,
            id <= old(self).samplers ==> r == Ok::<u64, ()>(old(self).data@[id as int])
                && final(self).data@ == old(self).data@.update(id as int, value),
            id > old(self).samplers ==> r is Err && final(self).data@ == old(self).data@,
    {
        if id <= self.samplers {
            let prev = self.data[id];
            self.data.set(id, value);
            Ok(prev)
        } else {
            Err(())
        }
    }

    /// Replaces counter `id` with `operation` applied to it; `Err` when there
    /// is no such counter.
    fn modify<F>(&mut self, id: usize, operation: F) -> (r: Result<(), ()>)
        where
            F: FnOnce(u64) -> u64,
        requires
            old(self).wf(),
            forall|v: u64| call_requires(operation, (v,)),
        ensures
            final(self).wf(),
            final(self).samplers == old(self).samplers,
            id <= old(self).samplers ==> r is Ok && exists|v: u64|
                call_ensures(operation, (old(self).data@[id as int],), v)
                && final(self).data@ == old(self).data@.update(id as int, v),
            id > old(self).samplers ==> r is Err && final(self).data@ == old(self).data@,
    {
        let current_value = self.get(id);
        match current_value {
            Some(c) => {
                let new_value = operation(c);
                self.set(id, new_value)
            },
            None => Err(()),
        }
    }
}

/// The counters after the update of counter `thread` by `value`, or `None`
/// when there is no such counter.
pub open spec fn updated(s: Seq<u64>, thread: usize, value: u64) -> Option<Seq<u64>> {
    if thread < s.len() {
        Some(s.update(thread as int, (s[thread as int] + value) as u64))
    } else {
        None
    }
}

/// The counters after consolidation: every per-thread counter is zero and the
/// global counter, the last, holds the sum of all counters before.
pub open spec fn consolidated(s: Seq<u64>) -> Seq<u64> {
    Seq::new(s.len(), |i: int| if i == s.len() - 1 { total(s) as u64 } else { 0u64 })
}

/// An operation that runs under the inspector's lock.
enum Operation {
    /// Add a value to the counter of a thread.
    Update { thread: usize, value: u64 },
    /// Move every thread counter into the global counter.
    Consolidate,
}

/// The abstract state of an inspector: whether it is locked, its counters
/// (one per thread and a global one, last), and the next thread id it hands
/// out.
pub struct InspectorView {
    pub locked: bool,
    pub counters: Seq<u64>,
    pub next_thread_id: usize,
}

/// Tracks an amount of work (such as bytes written) per worker thread and a
/// global total. Threads are told apart by the ids that `register_thread`
/// hands out, starting at 1; id 0 stands for a thread that has not
/// registered. Counter `i` belongs to thread `i` and the counter at index
/// `inspectors` holds the global total.
///
/// Operations run under a lock flag. A blocking operation waits for the lock
/// (which, with no other thread to release it, never comes: it requires the
/// lock to be free); a non-blocking one fails when the lock is taken. An
/// operation that fails keeps the lock taken.
pub struct Inspector {
    locked: bool,
    samples: Samples,
    inspectors: usize,
    next_thread_id: usize,
}

impl View for Inspector {
    type V = InspectorView;

    closed spec fn view(&self) -> InspectorView {
        InspectorView { locked: self.locked, counters: self.samples.data@, next_thread_id: self.next_thread_id }
    }
}

impl Inspector {
    /// The inspector is consistent: `inspectors + 1` counters.
    pub closed spec fn wf(&self) -> bool {
        &&& self.samples.wf()
        &&& self.samples.samplers == self.inspectors
    }

    /// The number of threads the inspector was made for.
    pub closed spec fn inspectors(&self) -> usize {
        self.inspectors
    }

    /// A consistent inspector has one counter per thread it was made for,
    /// plus the global counter.
    pub proof fn lemma_wf_counters(&self)
        requires
            self.wf(),
        ensures
            self@.counters.len() == self.inspectors() + 1,
    {
    }

    /// An inspector for `thread_count` threads: all counters zero, unlocked,
    /// handing out thread ids from 1.
    pub fn new(thread_count: usize) -> (i: Inspector)
        requires
            thread_count < usize::MAX,
        ensures
            i.wf(),
            i.inspectors() == thread_count,
            i@ == (InspectorView {
                locked: false,
                counters: Seq::new((thread_count + 1) as nat, |k: int| 0u64),
                next_thread_id: 1,
            }),
    {
        Inspector { locked: false, samples: Samples::new(thread_count), inspectors: thread_count, next_thread_id: 1 }
    }

    /// Registers the calling thread: a thread with id 0 gets the next id
    /// (the counter of ids advances, wrapping); a registered thread keeps its
    /// id. Returns the thread's id.
    pub fn register_thread(&mut self, thread_id: usize) -> (id: usize)
        requires
            old(self).wf(),
        ensures
            final(self).wf(),
            final(self).inspectors() == old(self).inspectors(),
            thread_id == 0 ==> id == old(self)@.next_thread_id
                && final(self)@ == (InspectorView {
                    next_thread_id: id_after(old(self)@.next_thread_id, 1),
                    ..old(self)@
                }),
            thread_id != 0 ==> id == thread_id && final(self)@ == old(self)@,
    {
        if thread_id == 0 {
            let new_tid = self.next_thread_id;
            proof {
                let m: int = usize::MAX as int + 1;
                if new_tid == usize::MAX {
                    vstd::arithmetic::div_mod::lemma_mod_self_0(m);
                } else {
                    vstd::arithmetic::div_mod::lemma_small_mod((new_tid + 1) as nat, m as nat);
                }
            }
            self.next_thread_id = self.next_thread_id.wrapping_add(1);
            new_tid
        } else {
            thread_id
        }
    }

    /// The counters do not overflow under `op`.
    spec fn fits(&self, op: Operation) -> bool {
        match op {
            Operation::Update { thread, value } =>
                thread < self.samples.data@.len() ==> self.samples.data@[thread as int] + value <= u64::MAX,
            Operation::Consolidate => total(self.samples.data@) <= u64::MAX,
        }
    }

    /// The counters after `op`, or `None` when it fails.
    spec fn outcome(&self, op: Operation) -> Option<Seq<u64>> {
        match op {
            Operation::Update { thread, value } => updated(self.samples.data@, thread, value),
            Operation::Consolidate => Some(consolidated(self.samples.data@)),
        }
    }

    /// Adds `value` to the counter of `thread`.
    fn thread_counter_update(&mut self, thread: usize, value: u64) -> (r: Result<(), ()>)
        requires
            old(self).wf(),
            thread <= old(self).inspectors ==> old(self).samples.data@[thread as int] + value <= u64::MAX,
        ensures
            final(self).wf(),
            final(self).inspectors == old(self).inspectors,
            final(self).locked == old(self).locked,
            final(self).next_thread_id == old(self).next_thread_id,
            match updated(old(self).samples.data@, thread, value) {
                Some(s) => r is Ok && final(self).samples.data@ == s,
                None => r is Err && final(self).samples.data@ == old(self).samples.data@,
            },
    {
        let prev = self.samples.get(thread);
        match prev {
            Some(p) => self.samples.set(thread, value + p),
            None => Err(()),
        }
    }

    /// Moves every thread counter into the global counter.
    fn consolidate(&mut self) -> (r: Result<(), ()>)
        requires
            old(self).wf(),
            total(old(self).samples.data@) <= u64::MAX,
        ensures
            final(self).wf(),
            final(self).inspectors == old(self).inspectors,
            final(self).locked == old(self).locked,
            final(self).next_thread_id == old(self).next_thread_id,
            r is Ok,
            final(self).samples.data@ == consolidated(old(self).samples.data@),
    {
        let ghost s0 = self.samples.data@;
        let n = self.inspectors;
        proof { lemma_total_split(s0, n as int); }
        let mut global_update: u64 = match self.samples.get(n) {
            Some(g) => g,
            None => 0,
        };
        let mut thread: usize = 0;
        while thread < n
            invariant
                self.wf(),
                n == self.inspectors,
                self.locked == old(self).locked,
                self.next_thread_id == old(self).next_thread_id,
                s0.len() == n + 1,
                total(s0) <= u64::MAX,
                thread <= n,
                total(s0) == total(s0.take(n as int)) + s0[n as int],
                global_update == s0[n as int] + total(s0.take(thread as int)),
                forall|k: int| 0 <= k < thread ==> self.samples.data@[k] == 0,
                forall|k: int| thread <= k <= n ==> self.samples.data@[k] == s0[k],
            decreases n - thread,
        {
            proof {
                lemma_total_prefix_le(s0.take(n as int), thread as int + 1);
                assert(s0.take(n as int).take(thread as int + 1) =~= s0.take(thread as int + 1));
                assert(s0.take(thread as int + 1).drop_last() =~= s0.take(thread as int));
            }
            let prev = match self.samples.swap(thread, 0) {
                Ok(p) => p,
                Err(_) => 0,
            };
            global_update = global_update + prev;
            thread = thread + 1;
        }
        proof {
            assert(s0.take(n as int) =~= s0.take(thread as int));
        }
        let r = self.samples.set(n, global_update);
        assert(self.samples.data@ =~= consolidated(s0));
        r
    }

    /// Runs `op`: `Err` (with the counters unchanged) when it fails.
    fn run(&mut self, op: Operation) -> (r: Result<(), ()>)
        requires
            old(self).wf(),
            old(self).fits(op),
        ensures
            final(self).wf(),
            final(self).inspectors == old(self).inspectors,
            final(self).locked == old(self).locked,
            final(self).next_thread_id == old(self).next_thread_id,
            match old(self).outcome(op) {
                Some(s) => r is Ok && final(self).samples.data@ == s,
                None => r is Err && final(self).samples.data@ == old(self).samples.data@,
            },
    {
        match op {
            Operation::Update { thread, value } => self.thread_counter_update(thread, value),
            Operation::Consolidate => self.consolidate(),
        }
    }

    /// Takes the lock, runs `op` and releases the lock; the lock stays taken
    /// when `op` fails.
    fn blocking(&mut self, op: Operation) -> (r: Result<(), ()>)
        requires
            old(self).wf(),
            !old(self).locked,
            old(self).fits(op),
        ensures
            final(self).wf(),
            final(self).inspectors == old(self).inspectors,
            final(self).next_thread_id == old(self).next_thread_id,
            match old(self).outcome(op) {
                Some(s) => r is Ok && !final(self).locked && final(self).samples.data@ == s,
                None => r is Err && final(self).locked && final(self).samples.data@ == old(self).samples.data@,
            },
    {
        self.locked = true;
        self.run(op)?;
        self.locked = false;
        Ok(())
    }

    /// Runs `op` if the lock is free, as `blocking` does; fails, changing
    /// nothing, when the lock is taken.
    fn nonblocking(&mut self, op: Operation) -> (r: Result<(), ()>)
        requires
            old(self).wf(),
            old(self).fits(op),
        ensures
            final(self).wf(),
            final(self).inspectors == old(self).inspectors,
            final(self).next_thread_id == old(self).next_thread_id,
            old(self).locked ==> r is Err && final(self)@ == old(self)@,
            !old(self).locked ==> match old(self).outcome(op) {
                Some(s) => r is Ok && !final(self).locked && final(self).samples.data@ == s,
                None => r is Err && final(self).locked && final(self).samples.data@ == old(self).samples.data@,
            },
    {
        if !self.locked {
            self.locked = true;
            self.run(op)?;
            self.locked = false;
            Ok(())
        } else {
            Err(())
        }
    }

    /// Adds `value` to the counter of `thread`, waiting for the lock. Fails,
    /// keeping the lock taken, when there is no counter for `thread`.
    pub fn update(&mut self, thread: usize, value: u64) -> (r: Result<(), ()>)
        requires
            old(self).wf(),
            !old(self)@.locked,
            thread < old(self)@.counters.len() ==> old(self)@.counters[thread as int] + value <= u64::MAX,
        ensures
            final(self).wf(),
            final(self).inspectors() == old(self).inspectors(),
            final(self)@.next_thread_id == old(self)@.next_thread_id,
            match updated(old(self)@.counters, thread, value) {
                Some(c) => r is Ok && !final(self)@.locked && final(self)@.counters == c,
                None => r is Err && final(self)@.locked && final(self)@.counters == old(self)@.counters,
            },
    {
        self.blocking(Operation::Update { thread, value })
    }

    /// Adds `value` to the counter of `thread` if the lock is free; fails,
    /// changing nothing, when it is taken, and fails keeping the lock taken
    /// when there is no counter for `thread`.
    pub fn update_nonblocking(&mut self, thread: usize, value: u64) -> (r: Result<(), ()>)
        requires
            old(self).wf(),
            thread < old(self)@.counters.len() ==> old(self)@.counters[thread as int] + value <= u64::MAX,
        ensures
            final(self).wf(),
            final(self).inspectors() == old(self).inspectors(),
            old(self)@.locked ==> r is Err && final(self)@ == old(self)@,
            !old(self)@.locked ==> final(self)@.next_thread_id == old(self)@.next_thread_id && match updated(old(self)@.counters, thread, value) {
                Some(c) => r is Ok && !final(self)@.locked && final(self)@.counters == c,
                None => r is Err && final(self)@.locked && final(self)@.counters == old(self)@.counters,
            },
    {
        self.nonblocking(Operation::Update { thread, value })
    }

    /// Moves every thread counter into the global counter, waiting for the
    /// lock.
    pub fn flush(&mut self) -> (r: Result<(), ()>)
        requires
            old(self).wf(),
            !old(self)@.locked,
            total(old(self)@.counters) <= u64::MAX,
        ensures
            final(self).wf(),
            final(self).inspectors() == old(self).inspectors(),
            r is Ok,
            final(self)@ == (InspectorView { counters: consolidated(old(self)@.counters), ..old(self)@ }),
    {
        self.blocking(Operation::Consolidate)
    }

    /// Moves every thread counter into the global counter if the lock is free;
    /// fails, changing nothing, when it is taken.
    pub fn flush_nonblocking(&mut self) -> (r: Result<(), ()>)
        requires
            old(self).wf(),
            total(old(self)@.counters) <= u64::MAX,
        ensures
            final(self).wf(),
            final(self).inspectors() == old(self).inspectors(),
            old(self)@.locked ==> r is Err && final(self)@ == old(self)@,
            !old(self)@.locked ==> r is Ok
                && final(self)@ == (InspectorView { counters: consolidated(old(self)@.counters), ..old(self)@ }),
    {
        self.nonblocking(Operation::Consolidate)
    }

    /// The counter of `thread` (zero when there is none), as `<n> total`.
    pub fn get_report_thread(&self, thread: usize) -> (s: String)
        requires
            self.wf(),
            !self@.locked,
        ensures
            s@ == decimal((if thread < self@.counters.len() { self@.counters[thread as int] } else { 0u64 }) as nat)
                + seq![' ', 't', 'o', 't', 'a', 'l'],
    {
        let total: u64 = match self.samples.get(thread) {
            Some(t) => t,
            None => 0,
        };
        let mut s = String::new();
        push_decimal(&mut s, total);
        proof { reveal_strlit(" total"); }
        s.append(" total");
        assert(s@ =~= decimal(total as nat) + seq![' ', 't', 'o', 't', 'a', 'l']);
        s
    }

    /// Flushes the thread counters and returns the global total: the sum of
    /// all counters.
    pub fn get_global_total(&mut self) -> (t: u64)
        requires
            old(self).wf(),
            !old(self)@.locked,
            total(old(self)@.counters) <= u64::MAX,
        ensures
            final(self).wf(),
            final(self).inspectors() == old(self).inspectors(),
            t == total(old(self)@.counters),
            final(self)@ == (InspectorView { counters: consolidated(old(self)@.counters), ..old(self)@ }),
    {
        let ghost c0 = self@.counters;
        proof { lemma_total_nonneg(c0); }
        let _ = self.flush();
        assert(self.samples.data@[self.inspectors as int] == consolidated(c0)[c0.len() - 1]);
        match self.samples.get(self.inspectors) {
            Some(t) => t,
            None => 0,
        }
    }

    /// Flushes the thread counters and reports the global total in bytes,
    /// with a binary prefix, as `<amount> total`.
    pub fn get_report_global(&mut self) -> (s: String)
        requires
            old(self).wf(),
            !old(self)@.locked,
            total(old(self)@.counters) <= u64::MAX,
        ensures
            final(self).wf(),
            final(self).inspectors() == old(self).inspectors(),
            s@ == human_bytes_text(total(old(self)@.counters) as u64) + seq![' ', 't', 'o', 't', 'a', 'l'],
            final(self)@ == (InspectorView { counters: consolidated(old(self)@.counters), ..old(self)@ }),
    {
        let t = self.get_global_total();
        let mut s = human_bytes(t);
        proof { reveal_strlit(" total"); }
        s.append(" total");
        assert(s@ =~= human_bytes_text(t) + seq![' ', 't', 'o', 't', 'a', 'l']);
        s
    }
}

/// The text that indicatif displays for `HumanBytes(n)`: the amount in bytes
/// with a binary prefix (such as `1.46 KiB`).
pub uninterp spec fn human_bytes_text(n: u64) -> Seq<char>;

/// Formats `indicatif::HumanBytes(n)`. Trusted: the text is a function of `n`
/// alone, and below 1024 it is the decimal number followed by ` B` (the
/// crate's `NumberPrefix::binary` leaves such amounts without a prefix and
/// they are printed with no fractional digits). What the text is for larger
/// amounts, which the crate computes in floating point, is not stated.
#[verifier::external_body]
fn human_bytes(n: u64) -> (s: String)
    ensures
        s@ == human_bytes_text(n),
        n < 1024 ==> s@ == decimal(n as nat) + seq![' ', 'B'],
{
    format!("{}", HumanBytes(n))
}

/// Updating a counter by `value` raises the sum of all counters by `value`:
/// no work reported through `update` is lost or counted twice.
pub proof fn lemma_update_adds_to_total(s: Seq<u64>, thread: usize, value: u64)
    requires
        thread < s.len(),
        s[thread as int] + value <= u64::MAX,
    ensures
        updated(s, thread, value) matches Some(t) && total(t) == total(s) + value,
    decreases s.len(),
{
    let t = s.update(thread as int, (s[thread as int] + value) as u64);
    if thread == s.len() - 1 {
        assert(t.drop_last() =~= s.drop_last());
    } else {
        lemma_update_adds_to_total(s.drop_last(), thread, value);
        assert(t.drop_last() =~= s.drop_last().update(thread as int, (s[thread as int] + value) as u64));
    }
}

/// Consolidation keeps the sum of all counters: the global counter ends up
/// holding all the work that the thread counters held.
pub proof fn lemma_consolidation_keeps_total(s: Seq<u64>)
    requires
        s.len() >= 1,
        total(s) <= u64::MAX,
    ensures
        total(consolidated(s)) == total(s),
        consolidated(s)[s.len() - 1] == total(s),
{
    lemma_total_nonneg(s);
    let c = consolidated(s);
    lemma_total_zeros(c.drop_last());
    assert(c.drop_last() =~= Seq::new((s.len() - 1) as nat, |i: int| 0u64));
}

/// The sum of zero counters is zero.
proof fn lemma_total_zeros(s: Seq<u64>)
    requires
        forall|i: int| 0 <= i < s.len() ==> s[i] == 0,
    ensures
        total(s) == 0,
    decreases s.len(),
{
    if s.len() > 0 {
        lemma_total_zeros(s.drop_last());
    }
}

/// A sum of counters is not negative.
pub proof fn lemma_total_nonneg(s: Seq<u64>)
    ensures
        total(s) >= 0,
    decreases s.len(),
{
    if s.len() > 0 {
        lemma_total_nonneg(s.drop_last());
    }
}

/// Splitting off the last counter.
proof fn lemma_total_split(s: Seq<u64>, n: int)
    requires
        s.len() == n + 1,
        n >= 0,
    ensures
        total(s) == total(s.take(n)) + s[n],
{
    assert(s.drop_last() =~= s.take(n));
}

/// The sum of a prefix is at most the sum of the whole.
proof fn lemma_total_prefix_le(s: Seq<u64>, k: int)
    requires
        0 <= k <= s.len(),
    ensures
        total(s.take(k)) <= total(s),
    decreases s.len(),
{
    if k < s.len() {
        assert(s.take(k) =~= s.drop_last().take(k));
        lemma_total_prefix_le(s.drop_last(), k);
    } else {
        assert(s.take(k) =~= s);
    }
}

/// The id that the counter of thread ids reads after `j` more registrations
/// from `n`: it counts up, wrapping around.
pub open spec fn id_after(n: usize, j: nat) -> usize {
    ((n + j) % (usize::MAX as int + 1)) as usize
}

/// Successive registrations of new threads hand out the ids `n`,
/// `id_after(n, 1)`, `id_after(n, 2)`, ...: registering from the counter
/// `id_after(n, 1)` continues the same count, and any two of the first
/// `usize::MAX + 1` ids handed out differ, so no two threads registered in
/// that span share an id.
pub proof fn lemma_registered_ids_distinct(n: usize, i: nat, j: nat)
    requires
        i < j <= usize::MAX,
    ensures
        id_after(n, 0) == n,
        id_after(id_after(n, 1), i) == id_after(n, i + 1),
        id_after(n, i) != id_after(n, j),
{
    let m: int = usize::MAX as int + 1;
    vstd::arithmetic::div_mod::lemma_small_mod(n as nat, m as nat);
    vstd::arithmetic::div_mod::lemma_add_mod_noop_right(i as int, n + 1, m);
    assert(((n + 1) % m + i) == i + (n + 1) % m);
    lemma_window_mods_distinct(n + i, n + j, m);
}

/// An event on the counters: an update of a thread's counter by a value, or
/// a flush of the thread counters into the global one.
pub enum CounterEvent {
    Update { thread: usize, value: u64 },
    Flush,
}

/// The counters after the events, in order (an update of a missing counter
/// changes nothing).
pub open spec fn counters_after(s: Seq<u64>, events: Seq<CounterEvent>) -> Seq<u64>
    decreases events.len(),
{
    if events.len() == 0 {
        s
    } else {
        let before = counters_after(s, events.drop_last());
        match events.last() {
            CounterEvent::Update { thread, value } => match updated(before, thread, value) {
                Some(t) => t,
                None => before,
            },
            CounterEvent::Flush => consolidated(before),
        }
    }
}

/// The sum of the values the events report.
pub open spec fn reported(events: Seq<CounterEvent>) -> int
    decreases events.len(),
{
    if events.len() == 0 {
        0
    } else {
        reported(events.drop_last()) + match events.last() {
            CounterEvent::Update { value, .. } => value as int,
            CounterEvent::Flush => 0int,
        }
    }
}

/// Every event succeeds without overflow: each update is of an existing
/// counter and fits, and each flush's total fits.
pub open spec fn events_fit(s: Seq<u64>, events: Seq<CounterEvent>) -> bool
    decreases events.len(),
{
    if events.len() == 0 {
        true
    } else {
        let before = counters_after(s, events.drop_last());
        &&& events_fit(s, events.drop_last())
        &&& match events.last() {
            CounterEvent::Update { thread, value } => thread < before.len() && before[thread as int] + value <= u64::MAX,
            CounterEvent::Flush => total(before) <= u64::MAX,
        }
    }
}

/// No reported amount is lost or counted twice: after any sequence of
/// successful updates and flushes, the sum of all counters is the sum before
/// plus every value reported, whatever the order and mix of threads and
/// flushes; from all-zero counters (a new inspector) it is exactly the sum
/// of the values reported, which a final flush moves into the global counter.
pub proof fn lemma_no_amount_lost(s: Seq<u64>, events: Seq<CounterEvent>)
    requires
        s.len() >= 1,
        events_fit(s, events),
    ensures
        counters_after(s, events).len() == s.len(),
        total(counters_after(s, events)) == total(s) + reported(events),
        (forall|i: int| 0 <= i < s.len() ==> s[i] == 0) ==> total(counters_after(s, events)) == reported(events),
    decreases events.len(),
{
    if (forall|i: int| 0 <= i < s.len() ==> s[i] == 0) {
        lemma_total_zeros(s);
    }
    if events.len() > 0 {
        let rest = events.drop_last();
        lemma_no_amount_lost(s, rest);
        let before = counters_after(s, rest);
        match events.last() {
            CounterEvent::Update { thread, value } => {
                lemma_update_adds_to_total(before, thread, value);
            },
            CounterEvent::Flush => {
                lemma_consolidation_keeps_total(before);
            },
        }
    }
}

} // verus!
