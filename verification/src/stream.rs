//! The multiplexer: a combinator over a fixed list of independently-live
//! lazy sources. Each pull names one index and forwards exactly one poll to
//! that source; every other source is left untouched, so un-selected
//! producers stay suspended instead of being fan-out polled.

use vstd::prelude::*;

verus! {

/// What one poll of a source can report.
#[derive(Clone, Copy, Debug, PartialEq, Eq, Structural)]
pub enum PollOutcome<T> {
    /// The source produced an item.
    Item(T),
    /// The source has nothing ready yet; it stays live.
    Pending,
    /// The source is exhausted and will never yield again.
    Exhausted,
}

/// One scripted step of a live source: either it emits an item or it makes
/// the caller wait one poll.
#[derive(Clone, Copy, Debug, PartialEq, Eq, Structural)]
pub enum ScriptStep<T> {
    Emit(T),
    Wait,
}

/// The outcome one scripted step produces when polled.
pub open spec fn step_outcome<T>(s: ScriptStep<T>) -> PollOutcome<T> {
    match s {
        ScriptStep::Emit(t) => PollOutcome::Item(t),
        ScriptStep::Wait => PollOutcome::Pending,
    }
}

/// A pull-based lazy source with a scripted model: `script()` is the sequence
/// of per-poll outcomes it will produce, `cursor()` how many polls it has
/// consumed. Past the end of its script a source is exhausted and, as with a
/// fused stream, stays exhausted.
pub trait PollSource: Sized {
    type Item;

    /// The per-poll outcomes this source produces over its lifetime.
    spec fn script(&self) -> Seq<ScriptStep<Self::Item>>;

    /// How many polls the source has consumed so far.
    spec fn cursor(&self) -> nat;

    /// A source past the end of its script is exhausted for good.
    open spec fn terminated(&self) -> bool {
        self.cursor() >= self.script().len()
    }

    /// Consumes exactly one poll: the script is unchanged, the cursor
    /// advances while the script lasts, and the result is the scripted step's
    /// outcome, or `Exhausted` past the end.
    fn poll_once(&mut self) -> (r: PollOutcome<Self::Item>)
        ensures
            final(self).script() == old(self).script(),
            old(self).cursor() < old(self).script().len() ==> {
                &&& final(self).cursor() == old(self).cursor() + 1
                &&& r == step_outcome(old(self).script()[old(self).cursor() as int])
            },
            old(self).cursor() >= old(self).script().len() ==> {
                &&& final(self).cursor() == old(self).cursor()
                &&& r is Exhausted
            },
    ;

    /// Whether the source is exhausted.
    fn is_terminated(&self) -> (r: bool)
        ensures
            r == self.terminated(),
    ;
}

/// How one poll relates a source's state before and after, and its result.
pub open spec fn source_poll_rel<S: PollSource>(pre: S, post: S, r: PollOutcome<S::Item>) -> bool {
    &&& post.script() == pre.script()
    &&& if pre.cursor() < pre.script().len() {
        &&& post.cursor() == pre.cursor() + 1
        &&& r == step_outcome(pre.script()[pre.cursor() as int])
    } else {
        &&& post.cursor() == pre.cursor()
        &&& r is Exhausted
    }
}

/// A source whose script is given up front as a vector of steps; it also
/// counts the polls it has received, so tests can observe that un-selected
/// sources are never polled.
pub struct VecSource<T> {
    consumed: Ghost<Seq<ScriptStep<T>>>,
    pending: Vec<ScriptStep<T>>,
    polls: u64,
}

impl<T> VecSource<T> {
    pub fn new(steps: Vec<ScriptStep<T>>) -> (r: Self)
        ensures
            r.script() == steps@,
            r.cursor() == 0,
            r.spec_polls_made() == 0,
    {
        VecSource { consumed: Ghost(Seq::empty()), pending: steps, polls: 0 }
    }

    /// How many polls this source has received (saturating).
    pub closed spec fn spec_polls_made(&self) -> u64 {
        self.polls
    }

    /// How many polls this source has received (saturating).
    pub fn polls_made(&self) -> (r: u64)
        ensures
            r == self.spec_polls_made(),
    {
        self.polls
    }
}

impl<T> PollSource for VecSource<T> {
    type Item = T;

    closed spec fn script(&self) -> Seq<ScriptStep<T>> {
        self.consumed@ + self.pending@
    }

    closed spec fn cursor(&self) -> nat {
        self.consumed@.len()
    }

    fn poll_once(&mut self) -> (r: PollOutcome<T>) {
        self.polls = if self.polls == u64::MAX {
            u64::MAX
        } else {
            self.polls + 1
        };
        if self.pending.len() > 0 {
            let step = self.pending.remove(0);
            self.consumed = Ghost(self.consumed@.push(step));
            proof {
                assert(self.consumed@ + self.pending@ =~= old(self).consumed@ + old(self).pending@);
                assert(old(self).script()[old(self).cursor() as int] == step);
            }
            match step {
                ScriptStep::Emit(t) => PollOutcome::Item(t),
                ScriptStep::Wait => PollOutcome::Pending,
            }
        } else {
            PollOutcome::Exhausted
        }
    }

    fn is_terminated(&self) -> (r: bool) {
        self.pending.len() == 0
    }
}

/// The multiplexer over a fixed ordered list of sources.
pub struct Multiplexer<S> {
    inner: Vec<S>,
}

impl<S: PollSource> Multiplexer<S> {
    /// The current states of the inner sources, in order.
    pub closed spec fn sources(self) -> Seq<S> {
        self.inner@
    }

    pub fn new(futures: Vec<S>) -> (r: Self)
        ensures
            r.sources() == futures@,
    {
        Multiplexer { inner: futures }
    }

    /// The number of inner sources.
    pub fn len(&self) -> (r: usize)
        ensures
            r == self.sources().len(),
    {
        self.inner.len()
    }

    /// Takes the multiplexer apart again, handing the sources back in order.
    pub fn into_inner(self) -> (r: Vec<S>)
        ensures
            r@ == self.sources(),
    {
        self.inner
    }

    /// Forwards exactly one poll to the source at `index`; every source at
    /// another index is left completely untouched. An out-of-range index is a
    /// programming invariant violation, not a runtime error, and is ruled out
    /// here.
    pub fn poll_next(&mut self, index: usize) -> (r: PollOutcome<S::Item>)
        requires
            index < old(self).sources().len(),
        ensures
            mux_poll_rel(*old(self), *final(self), index as int, r),
    {
        let source = crate::util::vec_index_mut(&mut self.inner, index);
        source.poll_once()
    }

    /// The multiplexer as a whole is exhausted only when every inner source
    /// is, tracked independently of which one is selected.
    pub fn is_terminated(&self) -> (r: bool)
        ensures
            r == (forall|j: int| 0 <= j < self.sources().len()
                ==> #[trigger] self.sources()[j].terminated()),
    {
        let n = self.inner.len();
        let mut i: usize = 0;
        while i < n
            invariant
                i <= n,
                n == self.sources().len(),
                forall|j: int| 0 <= j < i ==> #[trigger] self.sources()[j].terminated(),
            decreases n - i,
        {
            if !self.inner[i].is_terminated() {
                return false;
            }
            i += 1;
        }
        true
    }
}

/// Builds a multiplexer over the given sources.
pub fn multiplex<S: PollSource>(streams: Vec<S>) -> (r: Multiplexer<S>)
    ensures
        r.sources() == streams@,
{
    Multiplexer::new(streams)
}

/// How one pull relates a multiplexer's state before and after, the selected
/// index, and the result: the selected source consumes one poll, all others
/// are untouched.
pub open spec fn mux_poll_rel<S: PollSource>(
    pre: Multiplexer<S>,
    post: Multiplexer<S>,
    index: int,
    r: PollOutcome<S::Item>,
) -> bool {
    &&& 0 <= index < pre.sources().len()
    &&& post.sources().len() == pre.sources().len()
    &&& forall|j: int| 0 <= j < pre.sources().len() && j != index
        ==> post.sources()[j] == pre.sources()[j]
    &&& source_poll_rel(pre.sources()[index], post.sources()[index], r)
}

/// Law: with the selector answering `[0, 1, 0]` over three pulls, the results
/// are exactly the first scripted outcome of source 0, the first of source 1
/// and the second of source 0, in that order, and source 1 has advanced by
/// exactly one poll.
pub proof fn lemma_mux_round_trip<S: PollSource>(
    m0: Multiplexer<S>,
    m1: Multiplexer<S>,
    m2: Multiplexer<S>,
    m3: Multiplexer<S>,
    r0: PollOutcome<S::Item>,
    r1: PollOutcome<S::Item>,
    r2: PollOutcome<S::Item>,
)
    requires
        m0.sources().len() >= 2,
        m0.sources()[0].cursor() == 0,
        m0.sources()[1].cursor() == 0,
        m0.sources()[0].script().len() >= 2,
        m0.sources()[1].script().len() >= 1,
        mux_poll_rel(m0, m1, 0, r0),
        mux_poll_rel(m1, m2, 1, r1),
        mux_poll_rel(m2, m3, 0, r2),
    ensures
        r0 == step_outcome(m0.sources()[0].script()[0]),
        r1 == step_outcome(m0.sources()[1].script()[0]),
        r2 == step_outcome(m0.sources()[0].script()[1]),
        m3.sources()[1].script() == m0.sources()[1].script(),
        m3.sources()[1].cursor() == 1,
{
}

} // verus!
