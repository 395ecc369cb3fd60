//! A bounded, closure-driven iterator over units of work.
use vstd::prelude::*;
use std::ops::Range;
pub use crate::queue::unit::Unit;

verus! {

/// The bounds of a `DIter`: the half-open range of values it may yield and
/// the number of step invocations after which it is exhausted.
#[derive(Clone, Copy)]
pub struct Constraints {
    /// Inclusive lower bound of the yieldable values.
    start: u64,
    /// Exclusive upper bound of the yieldable values.
    end: u64,
    /// Maximum number of iterations this type will survive. Exclusive.
    iteration_max: u64,
}

impl Constraints {
    pub closed spec fn start(&self) -> u64 {
        self.start
    }

    pub closed spec fn end(&self) -> u64 {
        self.end
    }

    pub closed spec fn max(&self) -> u64 {
        self.iteration_max
    }

    /// The value `v` lies in the range.
    pub open spec fn spec_contains(&self, v: u64) -> bool {
        self.start() <= v < self.end()
    }

    /// The iteration count `i` is below the maximum.
    pub open spec fn spec_live(&self, i: u64) -> bool {
        i < self.max()
    }

    /// A state `(current, iteration)` respects the constraints.
    pub open spec fn spec_respects(&self, current: Option<u64>, i: u64) -> bool {
        &&& current matches Some(v) && self.spec_contains(v)
        &&& self.spec_live(i)
    }

    /// Creates constraints from a range and an iteration maximum.
    pub fn new<F>(range: Range<u64>, iteration_max: u64) -> (c: Constraints)
        ensures
            c.start() == range.start,
            c.end() == range.end,
            c.max() == iteration_max,
    {
        Constraints { start: range.start, end: range.end, iteration_max }
    }

    /// Whether the current value of `s` lies in the range.
    fn contains<F>(&self, s: &State<F>) -> (b: bool)
        ensures
            b == (s.current() matches Some(v) && self.spec_contains(v)),
            b == (s.current() matches Some(v) && self.start() <= v && v < self.end()),
    {
        match s.current {
            Some(unit) => self.start <= unit && unit < self.end,
            None => false,
        }
    }

    /// Whether the iteration count of `s` is below the maximum.
    fn is_live<F>(&self, s: &State<F>) -> (b: bool)
        ensures
            b == self.spec_live(s.iteration()),
    {
        s.iteration < self.iteration_max
    }

    /// Whether `s` is in the range and live.
    pub fn are_respected<F>(&self, s: &State<F>) -> (b: bool)
        ensures
            b == self.spec_respects(s.current(), s.iteration()),
            b == (s.current() matches Some(v) && self.start() <= v && v < self.end() && s.iteration() < self.max()),
    {
        self.contains(s) && self.is_live(s)
    }
}

/// The mutable part of a `DIter`: the value to yield next, the number of step
/// invocations so far, and the step function.
#[derive(Clone)]
pub struct State<F> {
    current: Option<u64>,
    iteration: u64,
    step: F,
}

impl<F> State<F> {
    pub closed spec fn current(&self) -> Option<u64> {
        self.current
    }

    pub closed spec fn iteration(&self) -> u64 {
        self.iteration
    }

    pub closed spec fn step(&self) -> F {
        self.step
    }
}

/// The value the `j`-th step invocation of a run (counting from 0) starts
/// from: the initial current value, then the previous result.
pub open spec fn run_input(cur: Option<u64>, outs: Seq<Option<u64>>, j: int) -> Option<u64> {
    if j == 0 { cur } else { outs[j - 1] }
}

/// One invocation of the step function `f` on the state `(prev, it)` can
/// return `out`.
pub open spec fn step_call<F: Fn(u64, Option<u64>, u64, u64) -> Option<u64>>(
    c: Constraints,
    f: F,
    prev: Option<u64>,
    it: u64,
    out: Option<u64>,
) -> bool {
    call_ensures(f, (c.start(), prev, c.end(), it), out)
}

/// The search for the next value stops on `(out, it)`: either it is a value
/// that respects the constraints, or the iterator is no longer live.
pub open spec fn stops(c: Constraints, out: Option<u64>, it: u64) -> bool {
    c.spec_respects(out, it) || !c.spec_live(it)
}

/// `outs` are the results of the step invocations of one call of `next`,
/// starting from the state `(cur, it)`: the k-th invocation (counting from 1)
/// runs at iteration `it + k` on the previous result, every invocation but the
/// last fails to stop, and the last stops.
pub open spec fn is_run<F: Fn(u64, Option<u64>, u64, u64) -> Option<u64>>(
    c: Constraints,
    f: F,
    cur: Option<u64>,
    it: u64,
    outs: Seq<Option<u64>>,
) -> bool {
    &&& outs.len() >= 1
    &&& it + outs.len() <= u64::MAX
    &&& forall|j: int|
        0 <= j < outs.len() ==> #[trigger] step_call(c, f, run_input(cur, outs, j), (it + j + 1) as u64, outs[j])
    &&& forall|j: int| 0 <= j < outs.len() - 1 ==> !#[trigger] stops(c, outs[j], (it + j + 1) as u64)
    &&& stops(c, outs.last(), (it + outs.len()) as u64)
}

/// The state a run ends in: the iteration advances by the number of step
/// invocations; the last result is kept if it respects the constraints, and
/// otherwise the iterator is exhausted (`None`).
pub open spec fn run_end(c: Constraints, it: u64, outs: Seq<Option<u64>>) -> (Option<u64>, u64) {
    let end_it = (it + outs.len()) as u64;
    (if c.spec_respects(outs.last(), end_it) { outs.last() } else { None }, end_it)
}

/// The value `v` lies in the half-open range `start..end` of `c`.
pub open spec fn in_bounds(c: Constraints, v: u64) -> bool {
    c.start() <= v && v < c.end()
}

/// A run of `next` keeps its value only inside the range and while live:
/// whatever the step function returns, the value a call of `next` leaves as
/// current (and so the next call yields) satisfies `start <= v < end` and
/// was reached before the iteration maximum.
pub proof fn lemma_run_stays_in_range<F: Fn(u64, Option<u64>, u64, u64) -> Option<u64>>(
    c: Constraints,
    f: F,
    cur: Option<u64>,
    it: u64,
    outs: Seq<Option<u64>>,
)
    requires
        is_run(c, f, cur, it, outs),
    ensures
        run_end(c, it, outs).0 matches Some(v) ==> in_bounds(c, v) && run_end(c, it, outs).1 < c.max(),
{
}

/// Exhaustion is permanent: from a state with no current value and an
/// iteration count at or past the maximum, a call of `next` (whatever the step
/// function returns) ends again with no current value and past the maximum, so
/// it and every later call yield `None`.
pub proof fn lemma_exhaustion_is_permanent<F: Fn(u64, Option<u64>, u64, u64) -> Option<u64>>(
    c: Constraints,
    f: F,
    it: u64,
    outs: Seq<Option<u64>>,
)
    requires
        !c.spec_live(it),
        is_run(c, f, None, it, outs),
    ensures
        run_end(c, it, outs).0 is None,
        !c.spec_live(run_end(c, it, outs).1),
{
}

/// # Description
/// DIter is a Distributed Iterator, initialized with a step function and a
/// set of constraints that bound its iteration.
///
/// A DIter is composed of three key parts:
/// - Initial State: this is (0,0) = (current, iteration) if using DIter::new()
/// - Constraints: the domain, a half-open range of values, and the time to
///   live, the number of step invocations after which it yields nothing.
/// - Step function: the closure used to determine the next value. It takes
///   lower_bound, current, upper_bound and iteration.
///
/// Each call of `next` yields the current `(value, iteration)` and then
/// invokes the step function, one or more times, until it produces a value in
/// the range while live, or until the iterator is no longer live.
pub struct DIter<F> {
    constraints: Constraints,
    state: State<F>,
}

impl<F: Fn(u64, Option<u64>, u64, u64) -> Option<u64>> DIter<F> {
    pub closed spec fn constraints(&self) -> Constraints {
        self.constraints
    }

    pub closed spec fn current(&self) -> Option<u64> {
        self.state.current
    }

    pub closed spec fn iteration(&self) -> u64 {
        self.state.iteration
    }

    pub closed spec fn step(&self) -> F {
        self.state.step
    }

    /// The step function may be invoked on any arguments.
    pub open spec fn step_total(&self) -> bool {
        forall|a: u64, b: Option<u64>, c: u64, d: u64| call_requires(self.step(), (a, b, c, d))
    }

    /// An iterator is determined by its bounds, current value, iteration
    /// count and step function: two iterators that agree on these are the same
    /// and hand out the same sequence. So `DIter::new(lo, hi, max, f)` and
    /// `DIter::new_with_state((0, 0), lo..hi, max, f)` are the same iterator.
    pub proof fn lemma_same_state_same_iterator(a: DIter<F>, b: DIter<F>)
        requires
            a.constraints().start() == b.constraints().start(),
            a.constraints().end() == b.constraints().end(),
            a.constraints().max() == b.constraints().max(),
            a.current() == b.current(),
            a.iteration() == b.iteration(),
            a.step() == b.step(),
        ensures
            a == b,
    {
    }

    /// Creates a DIter with initial state (current, iteration) = (0, 0).
    /// - `lower_bound..upper_bound`: the half-open range of valid values.
    /// - `iteration_max`: the number of step invocations before exhaustion.
    /// - `map`: closure computing the next value.
    pub fn new(lower_bound: u64, upper_bound: u64, iteration_max: u64, map: F) -> (d: DIter<F>)
        ensures
            d.constraints().start() == lower_bound,
            d.constraints().end() == upper_bound,
            d.constraints().max() == iteration_max,
            d.current() == Some(0u64),
            d.iteration() == 0,
            d.step() == map,
    {
        DIter::new_with_state((0, 0), lower_bound..upper_bound, iteration_max, map)
    }

    /// Creates a DIter whose first yielded value is `initial`:
    /// (current, iteration) = initial.
    pub fn new_with_state(initial: (u64, u64), range: Range<u64>, iteration_max: u64, map: F) -> (d: DIter<F>)
        ensures
            d.constraints().start() == range.start,
            d.constraints().end() == range.end,
            d.constraints().max() == iteration_max,
            d.current() == Some(initial.0),
            d.iteration() == initial.1,
            d.step() == map,
    {
        let constraints = Constraints::new::<F>(range, iteration_max);
        let state = State { current: Some(initial.0), iteration: initial.1, step: map };
        DIter { constraints, state }
    }

    /// Yields the current `(value, iteration)`, or `None` when exhausted, and
    /// computes the next value: the step function is invoked with the
    /// iteration count raised by one each time, until its result lies in the
    /// range while live, or until the iteration count reaches the maximum.
    pub fn next(&mut self) -> (r: Option<(u64, u64)>)
        requires
            old(self).step_total(),
            old(self).iteration() < u64::MAX,
        ensures
            r == (match old(self).current() {
                None => None,
                Some(v) => Some((v, old(self).iteration())),
            }),
            final(self).constraints() == old(self).constraints(),
            final(self).step() == old(self).step(),
            exists|outs: Seq<Option<u64>>|
                is_run(old(self).constraints(), old(self).step(), old(self).current(), old(self).iteration(), outs)
                && (final(self).current(), final(self).iteration()) == run_end(old(self).constraints(), old(self).iteration(), outs),
            final(self).iteration() > old(self).iteration(),
            final(self).current() matches Some(v) ==> final(self).constraints().spec_respects(Some(v), final(self).iteration()),
            final(self).current() matches Some(v) ==> in_bounds(old(self).constraints(), v),
            final(self).current() is Some ==> final(self).iteration() < old(self).constraints().max(),
            final(self).current() is None ==> final(self).iteration() >= old(self).constraints().max(),
            final(self).current() is None ==> !final(self).constraints().spec_live(final(self).iteration()),
    {
        let yielded: Option<(u64, u64)> = match self.state.current {
            None => None,
            Some(work) => Some((work, self.state.iteration)),
        };
        let ghost c = self.constraints;
        let ghost f = self.state.step;
        let ghost cur0 = self.state.current;
        let ghost it0 = self.state.iteration;
        let ghost mut outs: Seq<Option<u64>> = Seq::empty();
        assert forall|a: u64, b: Option<u64>, cc: u64, d: u64| call_requires(f, (a, b, cc, d)) by {
            assert(call_requires(self.step(), (a, b, cc, d)));
        }
        loop
            invariant_except_break
                self.constraints == c,
                self.state.step == f,
                forall|a: u64, b: Option<u64>, cc: u64, d: u64| call_requires(f, (a, b, cc, d)),
                self.state.iteration == it0 + outs.len(),
                self.state.iteration < u64::MAX,
                outs.len() == 0 ==> self.state.current == cur0,
                outs.len() > 0 ==> self.state.current == outs.last(),
                forall|j: int|
                    0 <= j < outs.len() ==> #[trigger] step_call(c, f, run_input(cur0, outs, j), (it0 + j + 1) as u64, outs[j]),
                forall|j: int| 0 <= j < outs.len() ==> !#[trigger] stops(c, outs[j], (it0 + j + 1) as u64),
            ensures
                self.constraints == c,
                self.state.step == f,
                is_run(c, f, cur0, it0, outs),
                (self.state.current, self.state.iteration) == run_end(c, it0, outs),
            decreases u64::MAX - self.state.iteration,
        {
            self.state.iteration = self.state.iteration + 1;
            let out = (self.state.step)(self.constraints.start, self.state.current, self.constraints.end, self.state.iteration);
            let ghost prev = outs;
            proof {
                outs = outs.push(out);
                assert(step_call(c, f, run_input(cur0, outs, outs.len() - 1), (it0 + outs.len()) as u64, outs[outs.len() - 1]));
                assert forall|j: int| 0 <= j < outs.len() implies #[trigger] step_call(c, f, run_input(cur0, outs, j), (it0 + j + 1) as u64, outs[j]) by {
                    if j < prev.len() {
                        assert(outs[j] == prev[j]);
                        assert(run_input(cur0, outs, j) == run_input(cur0, prev, j));
                    }
                }
                assert forall|j: int| 0 <= j < outs.len() - 1 implies !#[trigger] stops(c, outs[j], (it0 + j + 1) as u64) by {
                    assert(outs[j] == prev[j]);
                }
            }
            self.state.current = out;
            if self.state.current.is_some() && self.constraints.are_respected(&self.state) {
                break;
            }
            if !self.constraints.is_live(&self.state) {
                self.state.current = None;
                break;
            }
        }
        assert(is_run(c, f, cur0, it0, outs)
            && (self.state.current, self.state.iteration) == run_end(c, it0, outs));
        assert(is_run(old(self).constraints(), old(self).step(), old(self).current(), old(self).iteration(), outs)
            && (self.current(), self.iteration()) == run_end(old(self).constraints(), old(self).iteration(), outs));
        yielded
    }
}

} // verus!
