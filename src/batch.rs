//! Applying an add or a delete to each path of a batch, one at a time.
//!
//! The caller performs each file operation and reports its outcome; the batch decides what
//! comes next, keeps the paths that changed, and stops at the first error.

use crate::results::path_views;
use vstd::prelude::*;

verus! {

/// The paths among `paths` whose operation changed them, in order; `changed[i]` tells whether
/// the operation changed `paths[i]`.
pub open spec fn changed_paths(paths: Seq<Seq<char>>, changed: Seq<bool>) -> Seq<Seq<char>>
    decreases paths.len(),
{
    if paths.len() == 0 || changed.len() == 0 {
        seq![]
    } else {
        let rest = changed_paths(paths.drop_last(), changed.drop_last());
        if changed.last() {
            rest.push(paths.last())
        } else {
            rest
        }
    }
}

/// What a batch does next.
pub enum BatchStep<E> {
    /// Apply the operation to this path, then report its outcome to [`BatchApplier::record`].
    Apply(String),
    /// The operation failed with this error; the batch stops, and the paths after this one
    /// are not attempted.
    Failed(E),
    /// Every path has been attempted; [`BatchApplier::into_changed`] gives the changed ones.
    Finished,
}

/// A batch over a list of paths, applied one path at a time.
pub struct BatchApplier {
    /// The paths, in the order they are attempted.
    paths: Vec<String>,
    /// How many paths have an outcome.
    position: usize,
    /// The paths the operation changed so far, in order.
    changed: Vec<String>,
    /// Whether each attempted path was changed.
    outcomes: Ghost<Seq<bool>>,
    /// Whether an error stopped the batch.
    stopped: bool,
}

impl BatchApplier {
    #[verifier::type_invariant]
    spec fn inv(&self) -> bool {
        &&& self.position <= self.paths@.len()
        &&& self.outcomes@.len() == self.position
        &&& path_views(self.changed@) == changed_paths(
            path_views(self.paths@).take(self.position as int),
            self.outcomes@,
        )
    }

    /// The paths of the batch.
    pub closed spec fn paths_spec(&self) -> Seq<Seq<char>> {
        path_views(self.paths@)
    }

    /// How many paths have an outcome.
    pub closed spec fn position_spec(&self) -> nat {
        self.position as nat
    }

    /// Whether each attempted path was changed.
    pub closed spec fn outcomes_spec(&self) -> Seq<bool> {
        self.outcomes@
    }

    /// Whether an error stopped the batch.
    pub closed spec fn stopped_spec(&self) -> bool {
        self.stopped
    }

    /// The paths changed so far, in order.
    pub closed spec fn changed_spec(&self) -> Seq<Seq<char>> {
        path_views(self.changed@)
    }

    /// Whether the batch waits for the outcome on `paths_spec()[position_spec()]`.
    pub open spec fn awaiting(&self) -> bool {
        !self.stopped_spec() && self.position_spec() < self.paths_spec().len()
    }

    /// The step that follows once `position` paths have an outcome.
    fn step_at<E>(&self) -> (step: BatchStep<E>)
        requires
            !self.stopped_spec(),
        ensures
            self.position_spec() < self.paths_spec().len() ==> (step matches BatchStep::Apply(p)
                && p@ == self.paths_spec()[self.position_spec() as int]),
            self.position_spec() >= self.paths_spec().len() ==> step is Finished,
    {
        if self.position < self.paths.len() {
            BatchStep::Apply(self.paths[self.position].clone())
        } else {
            BatchStep::Finished
        }
    }

    /// A batch over `paths`, and its first step.
    pub fn start<E>(paths: Vec<String>) -> (r: (Self, BatchStep<E>))
        ensures
            r.0.paths_spec() == path_views(paths@),
            r.0.position_spec() == 0,
            !r.0.stopped_spec(),
            r.0.changed_spec() == Seq::<Seq<char>>::empty(),
            paths@.len() > 0 ==> (r.1 matches BatchStep::Apply(p) && p@ == paths@[0]@),
            paths@.len() == 0 ==> r.1 is Finished,
    {
        let changed: Vec<String> = Vec::new();
        assert(path_views(changed@) == Seq::<Seq<char>>::empty());
        let batch = BatchApplier {
            paths,
            position: 0,
            changed,
            outcomes: Ghost(Seq::empty()),
            stopped: false,
        };
        let step = batch.step_at();
        (batch, step)
    }

    /// Records the outcome of the operation on the awaited path, `Ok(true)` when it changed
    /// the file, and returns the batch with its next step. An error stops the batch and is
    /// handed back. A batch that awaits nothing stays as it is and reports `Finished`.
    pub fn record<E>(self, outcome: Result<bool, E>) -> (r: (Self, BatchStep<E>))
        ensures
            r.0.paths_spec() == self.paths_spec(),
            !self.awaiting() ==> {
                &&& r.1 is Finished
                &&& r.0.position_spec() == self.position_spec()
                &&& r.0.stopped_spec() == self.stopped_spec()
                &&& r.0.changed_spec() == self.changed_spec()
            },
            self.awaiting() ==> match outcome {
                Err(e) => {
                    &&& r.1 is Failed && r.1->Failed_0 == e
                    &&& r.0.stopped_spec()
                    &&& r.0.position_spec() == self.position_spec()
                    &&& r.0.changed_spec() == self.changed_spec()
                },
                Ok(c) => {
                    let p = self.paths_spec()[self.position_spec() as int];
                    &&& !r.0.stopped_spec()
                    &&& r.0.position_spec() == self.position_spec() + 1
                    &&& r.0.outcomes_spec() == self.outcomes_spec().push(c)
                    &&& r.0.changed_spec() == if c {
                        self.changed_spec().push(p)
                    } else {
                        self.changed_spec()
                    }
                    &&& r.0.position_spec() < r.0.paths_spec().len() ==> r.1 is Apply
                        && r.1->Apply_0@ == r.0.paths_spec()[r.0.position_spec() as int]
                    &&& r.0.position_spec() >= r.0.paths_spec().len() ==> r.1 is Finished
                },
            },
    {
        proof {
            use_type_invariant(&self);
        }
        if self.stopped || self.position >= self.paths.len() {
            return (self, BatchStep::Finished);
        }
        let ghost old_outcomes = self.outcomes@;
        let BatchApplier { paths, position, mut changed, outcomes, stopped } = self;
        match outcome {
            Err(e) => {
                let batch = BatchApplier { paths, position, changed, outcomes, stopped: true };
                (batch, BatchStep::Failed(e))
            },
            Ok(c) => {
                let ghost views = path_views(paths@);
                if c {
                    changed.push(paths[position].clone());
                }
                let ghost new_outcomes = old_outcomes.push(c);
                proof {
                    let taken = views.take(position + 1);
                    assert(taken.drop_last() == views.take(position as int));
                    assert(new_outcomes.drop_last() == old_outcomes);
                    assert(path_views(changed@) == changed_paths(taken, new_outcomes));
                }
                let batch = BatchApplier {
                    paths,
                    position: position + 1,
                    changed,
                    outcomes: Ghost(new_outcomes),
                    stopped: false,
                };
                let step = batch.step_at();
                (batch, step)
            },
        }
    }

    /// The paths the operation changed, in the order they were attempted.
    pub fn into_changed(self) -> (r: Vec<String>)
        ensures
            path_views(r@) == self.changed_spec(),
            path_views(r@) == changed_paths(
                self.paths_spec().take(self.position_spec() as int),
                self.outcomes_spec(),
            ),
    {
        proof {
            use_type_invariant(&self);
        }
        self.changed
    }
}

} // verus!
