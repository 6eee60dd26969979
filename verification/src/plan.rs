//! Plans: operations on the host that are carried out one after the other.
//!
//! A plan fixes the operations, their order, and what the failure of each means.  Whoever carries it
//! out asks for the current operation, performs it and reports how it went.

use crate::error;
use crate::error::Error;
use vstd::prelude::*;

verus! {

/// What the failure of an operation means for its plan.
pub enum OnFailure<S> {
    /// Nothing: the plan goes on.
    Ignore,
    /// The plan fails, with the cause as its error.
    Fail,
    /// The plan fails, with the cause and a circumstance in front of it as its error.
    FailIn(S),
}

impl View for OnFailure<String> {
    type V = OnFailure<Seq<char>>;

    open spec fn view(&self) -> OnFailure<Seq<char>> {
        match self {
            OnFailure::Ignore => OnFailure::Ignore,
            OnFailure::Fail => OnFailure::Fail,
            OnFailure::FailIn(what) => OnFailure::FailIn(what@),
        }
    }
}

/// The error of a plan when an operation of it fails with `cause`, if the plan fails at all.
pub open spec fn verdict_on(on_failure: OnFailure<Seq<char>>, cause: Seq<char>) -> Option<
    Seq<char>,
> {
    match on_failure {
        OnFailure::Ignore => None,
        OnFailure::Fail => Some(cause),
        OnFailure::FailIn(what) => Some(error::within(what, cause)),
    }
}

/// Where a plan stands once its operation `next` has gone as `failure` says, or the error with which
/// it ends there.  `None` stands for success, `Some` for the cause of a failure.
pub open spec fn advance<V>(
    steps: Seq<(V, OnFailure<Seq<char>>)>,
    next: int,
    failure: Option<Seq<char>>,
) -> Result<int, Seq<char>> {
    match failure {
        None => Ok(next + 1),
        Some(cause) => match verdict_on(steps[next].1, cause) {
            None => Ok(next + 1),
            Some(text) => Err(text),
        },
    }
}

/// The cause of a failure, if an operation failed.
pub open spec fn failure_of(outcome: Result<(), String>) -> Option<Seq<char>> {
    match outcome {
        Ok(()) => None,
        Err(cause) => Some(cause@),
    }
}

/// One operation of a plan.
pub struct Step<T> {
    pub op: T,
    pub on_failure: OnFailure<String>,
}

impl<T: View> View for Step<T> {
    type V = (T::V, OnFailure<Seq<char>>);

    open spec fn view(&self) -> (T::V, OnFailure<Seq<char>>) {
        (self.op@, self.on_failure@)
    }
}

impl<T> Step<T> {
    /// An operation whose failure is ignored.
    pub fn lenient(op: T) -> (s: Step<T>)
        ensures
            s.op == op,
            s.on_failure is Ignore,
    {
        Step { op, on_failure: OnFailure::Ignore }
    }

    /// An operation whose failure is the failure of the plan.
    pub fn strict(op: T) -> (s: Step<T>)
        ensures
            s.op == op,
            s.on_failure is Fail,
    {
        Step { op, on_failure: OnFailure::Fail }
    }

    /// An operation whose failure is the failure of the plan, in the circumstance `what`.
    pub fn within(op: T, what: String) -> (s: Step<T>)
        ensures
            s.op == op,
            s.on_failure == OnFailure::FailIn(what),
    {
        Step { op, on_failure: OnFailure::FailIn(what) }
    }
}

/// Operations that are carried out one after the other, and the error with which the plan ends after
/// the last one, if it ends in one.
pub struct Plan<T> {
    pub steps: Vec<Step<T>>,
    pub next: usize,
    pub ending: Option<Error>,
}

/// The model of a plan: its operations and what the failure of each means, the place of the current
/// one, and the error after the last one.
pub struct PlanModel<V> {
    pub steps: Seq<(V, OnFailure<Seq<char>>)>,
    pub next: int,
    pub end: Option<Seq<char>>,
}

impl<T: View> View for Plan<T> {
    type V = PlanModel<T::V>;

    open spec fn view(&self) -> PlanModel<T::V> {
        PlanModel { steps: self.model(), next: self.next as int, end: self.end() }
    }
}

impl<T: View> Plan<T> {
    /// The operations and what the failure of each means.
    pub open spec fn model(&self) -> Seq<(T::V, OnFailure<Seq<char>>)> {
        self.steps@.map_values(|s: Step<T>| s@)
    }

    /// The error after the last operation.
    pub open spec fn end(&self) -> Option<Seq<char>> {
        match self.ending {
            Some(e) => Some(e@),
            None => None,
        }
    }

    /// A plan that is about to begin.
    pub fn new(steps: Vec<Step<T>>, ending: Option<Error>) -> (p: Plan<T>)
        ensures
            p.steps == steps,
            p.ending == ending,
            p.next == 0,
    {
        Plan { steps, next: 0, ending }
    }

    /// The operation to carry out now, if any is left.
    pub fn current(&self) -> (r: Option<&T>)
        ensures
            r is Some <==> self.next < self.steps@.len(),
            r matches Some(op) ==> *op == self.steps@[self.next as int].op && op@ == self.model()[
                self.next as int
            ].0,
    {
        if self.next < self.steps.len() {
            Some(&self.steps[self.next].op)
        } else {
            None
        }
    }

    /// Takes note of how the current operation went.  An error is the failure of the plan: no further
    /// operation of it is to be carried out.
    pub fn report(&mut self, outcome: Result<(), String>) -> (r: Result<(), Error>)
        requires
            old(self).next < old(self).steps@.len(),
        ensures
            final(self).steps == old(self).steps,
            final(self).ending == old(self).ending,
            match advance(old(self).model(), old(self).next as int, failure_of(outcome)) {
                Ok(next) => r is Ok && final(self).next == next,
                Err(text) => r matches Err(e) && e@ == text && final(self).next == old(self).next,
            },
    {
        let at: usize = self.next;
        if let Err(cause) = outcome {
            match &self.steps[at].on_failure {
                OnFailure::Ignore => {},
                OnFailure::Fail => {
                    return Err(Error::new(cause));
                },
                OnFailure::FailIn(what) => {
                    return Err(Error::of(what.as_str(), cause.as_str()));
                },
            }
        }
        assert(at < self.steps.len());
        self.next = at + 1;
        Ok(())
    }

    /// How the plan ends, once every operation has been carried out.
    pub fn finish(self) -> (r: Result<(), Error>)
        requires
            self.next == self.steps@.len(),
        ensures
            r is Ok <==> self.end() is None,
            r matches Err(e) ==> self.end() == Some(e@),
    {
        match self.ending {
            Some(e) => Err(e),
            None => Ok(()),
        }
    }
}

/// Whether a plan comes to its operation `k` when the operations go as `failures` says.
pub open spec fn comes_to<V>(
    steps: Seq<(V, OnFailure<Seq<char>>)>,
    failures: Seq<Option<Seq<char>>>,
    k: nat,
) -> bool
    decreases k,
{
    k == 0 || (comes_to(steps, failures, (k - 1) as nat) && advance(
        steps,
        k - 1,
        failures[k - 1],
    ) is Ok)
}

/// A plan comes to an operation exactly if none before it failed in a way that ends the plan.
pub proof fn law_plan_runs_up_to_the_first_failure<V>(
    steps: Seq<(V, OnFailure<Seq<char>>)>,
    failures: Seq<Option<Seq<char>>>,
    k: nat,
)
    requires
        failures.len() == steps.len(),
        k <= steps.len(),
    ensures
        comes_to(steps, failures, k) <==> (forall|j: int|
            0 <= j < k ==> ((#[trigger] failures[j]) matches Some(cause) ==> verdict_on(
                steps[j].1,
                cause,
            ) is None)),
    decreases k,
{
    if k > 0 {
        law_plan_runs_up_to_the_first_failure(steps, failures, (k - 1) as nat);
    }
}

/// A failure ends a plan unless it is of no account; the error ends in the cause, and starts with the
/// circumstance where there is one.  A plan goes on by one operation at a time.
pub proof fn law_plans_end_at_failures<V>(
    steps: Seq<(V, OnFailure<Seq<char>>)>,
    next: int,
    cause: Seq<char>,
)
    ensures
        advance(steps, next, None) == Ok::<int, Seq<char>>(next + 1),
        steps[next].1 is Ignore ==> advance(steps, next, Some(cause)) == Ok::<int, Seq<char>>(
            next + 1,
        ),
        !(steps[next].1 is Ignore) ==> (advance(steps, next, Some(cause)) matches Err(e) && e.len()
            >= cause.len() && e.skip(e.len() - cause.len()) == cause),
        steps[next].1 matches OnFailure::FailIn(what) ==> advance(
            steps,
            next,
            Some(cause),
        )->Err_0.take(what.len() as int) == what,
{
    if let OnFailure::FailIn(what) = steps[next].1 {
        error::law_causes_are_told_whole(what, cause);
    }
    assert(cause.skip(0) =~= cause);
}

} // verus!
