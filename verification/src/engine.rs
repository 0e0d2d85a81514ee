//! The load engine: it fans the batches of a run out to bulk calls, never
//! more at once than the throttle allows, waits for every call it started and
//! reduces their tallies to the results of the run.
//!
//! The engine makes the decisions and leaves the calls to its driver. The
//! driver asks for the next `Action` with `step`, starts the bulk call of each
//! batch it is handed, and reports each call that resolved with `resolve`.

use vstd::prelude::*;
use vstd::pervasive::unreached;
use vstd::seq_lib::commutative_foldl;
use vstd::seq_lib::lemma_fold_left_permutation;
use crate::batch::batch_count;
use crate::batch::batch_plan;
use crate::batch::lemma_batch_count;
use crate::batch::lemma_planned_batch;
use crate::batch::planned_batch;
use crate::batch::Batch;
use crate::batch::Batcher;
use crate::error::LoadError;
use crate::tally::lemma_reduce_consistent;
use crate::tally::lemma_reduce_push;
use crate::tally::reduce;
use crate::tally::BulkTally;
use crate::tally::Counts;
use crate::tally::ElasticLoadResults;
use crate::throttle::Throttle;

verus! {

/// Where a run stands.
#[derive(Debug, Clone, Copy, PartialEq, Eq, Structural)]
pub enum Phase {
    /// No records were handed over yet.
    Idle,
    /// The records are there; no batch was handed out yet.
    Batching,
    /// Batches are handed out as permits come free.
    Dispatching,
    /// Every batch was handed out; calls are still in flight.
    Awaiting,
    /// Every call resolved well; the tallies are to be reduced.
    Reducing,
    /// The results of the run stand.
    Done,
    /// A call resolved to a fatal error.
    Failed,
}

/// What the engine asks of its driver.
#[derive(Debug, Clone, Copy, PartialEq, Eq, Structural)]
pub enum Action {
    /// Hand the records over with `load`.
    Idle,
    /// The engine moved on by itself: ask again.
    Proceed,
    /// Start the bulk call of this batch; its permit is taken.
    Dispatch(Batch),
    /// Wait until a call in flight resolves, and report it.
    Await,
    /// The run is over: take its outcome with `finish`.
    Finish,
}

/// The state of a run, as the mathematical value of a `LoadEngine`.
pub struct Run {
    pub phase: Phase,
    /// Records of every batch but the last.
    pub batch_size: nat,
    /// Permits of the throttle.
    pub throttle: nat,
    /// Records of the run.
    pub records: nat,
    /// Batches handed out so far.
    pub yielded: nat,
    /// Batches whose calls were started and did not resolve yet.
    pub in_flight: Seq<Batch>,
    /// Batches whose calls resolved well, in the order in which they did.
    pub resolved: Seq<Batch>,
    /// Tallies of those calls, in the same order.
    pub tallies: Seq<BulkTally>,
    /// The first fatal error that a call resolved to.
    pub first_error: Option<LoadError>,
}

/// The number of records in the given batches.
pub open spec fn records_in(batches: Seq<Batch>) -> nat
    decreases batches.len(),
{
    if batches.len() == 0 {
        0
    } else {
        records_in(batches.drop_last()) + batches.last().len as nat
    }
}

impl Run {
    /// The run of an engine that was not handed records yet.
    pub open spec fn idle(batch_size: nat, throttle: nat) -> Run {
        Run {
            phase: Phase::Idle,
            batch_size,
            throttle,
            records: 0,
            yielded: 0,
            in_flight: Seq::empty(),
            resolved: Seq::empty(),
            tallies: Seq::empty(),
            first_error: None,
        }
    }

    /// Every batch of the run was handed out.
    pub open spec fn all_submitted(self) -> bool {
        self.yielded == batch_count(self.records, self.batch_size)
    }

    /// The number of records in the batches handed out so far.
    pub open spec fn dispatched(self) -> nat {
        if self.all_submitted() {
            self.records
        } else {
            self.yielded * self.batch_size
        }
    }

    /// The batch that is handed out next.
    pub open spec fn next_batch(self) -> Batch {
        planned_batch(self.records, self.batch_size, self.yielded)
    }

    /// `batch` is one of the batches handed out so far.
    pub open spec fn was_submitted(self, batch: Batch) -> bool {
        exists|index: nat|
            index < self.yielded && batch == #[trigger] planned_batch(
                self.records,
                self.batch_size,
                index,
            )
    }

    /// A tally that the engine takes for `batch`: it counts each of the
    /// batch's records once, as created or as failed.
    pub open spec fn accounts_for(batch: Batch, tally: BulkTally) -> bool {
        tally.is_consistent() && tally.num_total == batch.len
    }

    /// What holds of every run that the transitions lead to.
    pub open spec fn inv(self) -> bool {
        &&& self.batch_size >= 1
        &&& self.throttle >= 1
        &&& self.records <= usize::MAX
        &&& self.yielded <= batch_count(self.records, self.batch_size)
        &&& self.in_flight.len() <= self.throttle
        &&& self.in_flight.no_duplicates()
        &&& forall|i: int|
            0 <= i < self.in_flight.len() ==> self.was_submitted(#[trigger] self.in_flight[i])
        &&& forall|i: int|
            0 <= i < self.tallies.len() ==> (#[trigger] self.tallies[i]).is_consistent()
        &&& (self.first_error is Some) == (self.phase is Failed)
        &&& !(self.phase is Failed) ==> reduce(self.tallies).total + records_in(self.in_flight)
            == self.dispatched()
        &&& match self.phase {
            Phase::Idle => self.records == 0 && self.in_flight.len() == 0 && self.tallies.len()
                == 0,
            Phase::Batching => self.yielded == 0 && self.in_flight.len() == 0
                && self.tallies.len() == 0,
            Phase::Dispatching => true,
            Phase::Awaiting => self.all_submitted(),
            Phase::Reducing => self.all_submitted() && self.in_flight.len() == 0,
            Phase::Done => self.all_submitted() && self.in_flight.len() == 0,
            Phase::Failed => true,
        }
    }

    /// The run after `records` records are handed over: an idle engine
    /// starts batching them, any other stays as it is.
    pub open spec fn load(self, records: nat) -> Run {
        if self.phase is Idle {
            Run { phase: Phase::Batching, records, ..self }
        } else {
            self
        }
    }

    /// One step of the run, and what it asks of the driver.
    ///
    /// While dispatching, the next batch is handed out when a permit is free;
    /// with every permit taken the driver is told to wait. Once every batch
    /// is handed out the run awaits the calls in flight, then reduces. A
    /// failed run hands out no further batch and is over when the calls in
    /// flight have resolved.
    pub open spec fn step(self) -> (Run, Action) {
        match self.phase {
            Phase::Idle => (self, Action::Idle),
            Phase::Batching => (Run { phase: Phase::Dispatching, ..self }, Action::Proceed),
            Phase::Dispatching => if self.all_submitted() {
                (Run { phase: Phase::Awaiting, ..self }, Action::Proceed)
            } else if self.in_flight.len() < self.throttle {
                (
                    Run {
                        yielded: self.yielded + 1,
                        in_flight: self.in_flight.push(self.next_batch()),
                        ..self
                    },
                    Action::Dispatch(self.next_batch()),
                )
            } else {
                (self, Action::Await)
            },
            Phase::Awaiting => if self.in_flight.len() > 0 {
                (self, Action::Await)
            } else {
                (Run { phase: Phase::Reducing, ..self }, Action::Proceed)
            },
            Phase::Reducing => (Run { phase: Phase::Done, ..self }, Action::Proceed),
            Phase::Done => (self, Action::Finish),
            Phase::Failed => if self.in_flight.len() > 0 {
                (self, Action::Await)
            } else {
                (self, Action::Finish)
            },
        }
    }

    /// The run after the call of `batch` resolved to `outcome`.
    ///
    /// A batch that is not in flight changes nothing. Else the batch leaves
    /// the calls in flight, whatever the outcome. A failed run drops the
    /// outcome. Any other run keeps a tally that accounts for the batch, and
    /// fails on an error, which it keeps as its first, or on a tally that
    /// does not account for the batch, which is a malformed response.
    pub open spec fn resolve(self, batch: Batch, outcome: Result<BulkTally, LoadError>) -> Run {
        if !self.in_flight.contains(batch) {
            self
        } else if self.phase is Failed {
            Run { in_flight: self.in_flight.remove_value(batch), ..self }
        } else {
            match outcome {
                Ok(tally) => if Self::accounts_for(batch, tally) {
                    Run {
                        in_flight: self.in_flight.remove_value(batch),
                        resolved: self.resolved.push(batch),
                        tallies: self.tallies.push(tally),
                        ..self
                    }
                } else {
                    Run {
                        phase: Phase::Failed,
                        in_flight: self.in_flight.remove_value(batch),
                        first_error: Some(LoadError::MalformedResponse),
                        ..self
                    }
                },
                Err(error) => Run {
                    phase: Phase::Failed,
                    in_flight: self.in_flight.remove_value(batch),
                    first_error: Some(error),
                    ..self
                },
            }
        }
    }

    /// The run is over: nothing is in flight, and it is done or failed.
    pub open spec fn is_over(self) -> bool {
        self.in_flight.len() == 0 && (self.phase is Done || self.phase is Failed)
    }

    /// What a run that is over returns: the reduced tallies where it is done,
    /// its first error where it failed, and never a part of the tallies.
    pub open spec fn outcome(self) -> Option<Result<Counts, LoadError>> {
        if !self.is_over() {
            None
        } else if self.phase is Done {
            Some(Ok(reduce(self.tallies)))
        } else {
            Some(Err(self.first_error->0))
        }
    }

    /// An idle run meets the invariant.
    pub proof fn lemma_idle_inv(batch_size: nat, throttle: nat)
        requires
            batch_size >= 1,
            throttle >= 1,
        ensures
            Run::idle(batch_size, throttle).inv(),
    {
        lemma_batch_count(0, batch_size);
    }

    /// Handing records over keeps the invariant.
    pub proof fn lemma_load_inv(self, records: nat)
        requires
            self.inv(),
            records <= usize::MAX,
        ensures
            self.load(records).inv(),
    {
        if self.phase is Idle {
            lemma_batch_count(0, self.batch_size);
            lemma_batch_count(records, self.batch_size);
            assert(self.yielded == 0);
            assert(0 * self.batch_size == 0) by (nonlinear_arith);
            let after = self.load(records);
            assert(after.in_flight =~= Seq::<Batch>::empty());
        }
    }

    /// A step keeps the invariant.
    pub proof fn lemma_step_inv(self)
        requires
            self.inv(),
        ensures
            self.step().0.inv(),
    {
        let after = self.step().0;
        if self.phase is Dispatching && !self.all_submitted() && self.in_flight.len()
            < self.throttle {
            let batch = self.next_batch();
            lemma_planned_batch(self.records, self.batch_size, self.yielded);
            assert(batch == planned_batch(after.records, after.batch_size, self.yielded));
            assert(after.was_submitted(batch));
            assert forall|i: int| 0 <= i < after.in_flight.len() implies after.was_submitted(
                #[trigger] after.in_flight[i],
            ) by {
                if i < self.in_flight.len() {
                    let earlier = self.in_flight[i];
                    assert(self.was_submitted(earlier));
                    let index = choose|index: nat|
                        index < self.yielded && earlier == #[trigger] planned_batch(
                            self.records,
                            self.batch_size,
                            index,
                        );
                    assert(earlier == planned_batch(after.records, after.batch_size, index));
                }
            }
            assert forall|i: int| 0 <= i < self.in_flight.len() implies self.in_flight[i]
                != batch by {
                let earlier = self.in_flight[i];
                assert(self.was_submitted(earlier));
                let index = choose|index: nat|
                    index < self.yielded && earlier == #[trigger] planned_batch(
                        self.records,
                        self.batch_size,
                        index,
                    );
                lemma_planned_batch(self.records, self.batch_size, index);
                assert(index * self.batch_size < self.yielded * self.batch_size)
                    by (nonlinear_arith)
                    requires
                        index < self.yielded,
                        self.batch_size >= 1,
                ;
            }
            assert(after.in_flight.drop_last() == self.in_flight);
        }
    }

    /// Taking a batch out of the calls in flight leaves the others as they
    /// were: submitted, each once, and with the records of that batch fewer.
    pub proof fn lemma_in_flight_without(self, batch: Batch)
        requires
            self.inv(),
            self.in_flight.contains(batch),
        ensures
            self.in_flight.remove_value(batch).len() + 1 == self.in_flight.len(),
            self.in_flight.remove_value(batch).no_duplicates(),
            forall|i: int|
                0 <= i < self.in_flight.remove_value(batch).len() ==> self.was_submitted(
                    #[trigger] self.in_flight.remove_value(batch)[i],
                ),
            records_in(self.in_flight.remove_value(batch)) + batch.len == records_in(
                self.in_flight,
            ),
    {
        self.in_flight.index_of_first_ensures(batch);
        let at = self.in_flight.index_of_first(batch)->0;
        let rest = self.in_flight.remove(at);
        assert(rest == self.in_flight.remove_value(batch));
        assert forall|i: int| 0 <= i < rest.len() implies self.was_submitted(#[trigger] rest[i]) by {
            if i < at {
                assert(rest[i] == self.in_flight[i]);
            } else {
                assert(rest[i] == self.in_flight[i + 1]);
            }
        }
        assert forall|i: int, j: int|
            0 <= i < rest.len() && 0 <= j < rest.len() && i != j implies rest[i] != rest[j] by {
            let from_i = if i < at {
                i
            } else {
                i + 1
            };
            let from_j = if j < at {
                j
            } else {
                j + 1
            };
            assert(rest[i] == self.in_flight[from_i]);
            assert(rest[j] == self.in_flight[from_j]);
        }
        lemma_records_in_remove(self.in_flight, at);
    }

    /// The resolution of a call keeps the invariant.
    pub proof fn lemma_resolve_inv(self, batch: Batch, outcome: Result<BulkTally, LoadError>)
        requires
            self.inv(),
        ensures
            self.resolve(batch, outcome).inv(),
    {
        let after = self.resolve(batch, outcome);
        if self.in_flight.contains(batch) {
            self.lemma_in_flight_without(batch);
            let rest = self.in_flight.remove_value(batch);
            assert(after.in_flight == rest);
            assert(after.records == self.records && after.batch_size == self.batch_size
                && after.yielded == self.yielded && after.throttle == self.throttle);
            assert forall|i: int| 0 <= i < after.in_flight.len() implies after.was_submitted(
                #[trigger] after.in_flight[i],
            ) by {
                assert(self.was_submitted(rest[i]));
            }
            if self.phase is Failed {
                assert(after.inv());
            } else {
                match outcome {
                    Ok(tally) => {
                        if Self::accounts_for(batch, tally) {
                            lemma_reduce_push(self.tallies, tally);
                            assert(after.tallies == self.tallies.push(tally));
                            assert(after.phase == self.phase);
                            assert(after.dispatched() == self.dispatched());
                            assert(after.inv());
                        } else {
                            assert(after.inv());
                        }
                    },
                    Err(error) => {
                        assert(after.inv());
                    },
                }
            }
        }
    }

    /// The answer of `batch`'s call accounts for the batch: it is a tally
    /// that counts each of the batch's records once.
    pub open spec fn is_accounted(
        answer: spec_fn(Batch) -> Result<BulkTally, LoadError>,
        batch: Batch,
    ) -> bool {
        answer(batch) matches Ok(tally) && Self::accounts_for(batch, tally)
    }

    /// The run came about with every call resolving to what `answer` gives
    /// for its batch, in whatever order the calls resolved. Each batch whose
    /// call resolved well is kept once, beside its tally. While the run has
    /// not failed, every batch handed out is in flight or resolved; once it
    /// has failed, a batch was handed out whose answer does not account for
    /// it.
    pub open spec fn follows(self, answer: spec_fn(Batch) -> Result<BulkTally, LoadError>) -> bool {
        &&& self.resolved.len() == self.tallies.len()
        &&& self.resolved.no_duplicates()
        &&& forall|i: int|
            0 <= i < self.resolved.len() ==> {
                &&& self.was_submitted(#[trigger] self.resolved[i])
                &&& !self.in_flight.contains(self.resolved[i])
                &&& answer(self.resolved[i]) == Ok::<BulkTally, LoadError>(self.tallies[i])
                &&& Self::accounts_for(self.resolved[i], self.tallies[i])
            }
        &&& !(self.phase is Failed) ==> forall|index: nat|
            index < self.yielded ==> {
                ||| self.resolved.contains(
                    #[trigger] planned_batch(self.records, self.batch_size, index),
                )
                ||| self.in_flight.contains(planned_batch(self.records, self.batch_size, index))
            }
        &&& self.phase is Failed ==> exists|index: nat|
            index < self.yielded && !Self::is_accounted(
                answer,
                #[trigger] planned_batch(self.records, self.batch_size, index),
            )
    }

    /// What a run over `records` records returns, whatever the order in which
    /// its calls resolve: the sum of the answers' tallies where every answer
    /// accounts for its batch, and no tally where one does not.
    pub open spec fn outcome_of_answers(
        records: nat,
        batch_size: nat,
        answer: spec_fn(Batch) -> Result<BulkTally, LoadError>,
    ) -> Option<Counts> {
        if forall|index: int|
            0 <= index < batch_count(records, batch_size) ==> Self::is_accounted(
                answer,
                #[trigger] batch_plan(records, batch_size)[index],
            ) {
            Some(sum_of_answers(batch_plan(records, batch_size), answer))
        } else {
            None
        }
    }

    /// An idle run follows any answers.
    pub proof fn lemma_idle_follows(
        batch_size: nat,
        throttle: nat,
        answer: spec_fn(Batch) -> Result<BulkTally, LoadError>,
    )
        ensures
            Run::idle(batch_size, throttle).follows(answer),
    {
    }

    /// Handing records over keeps a run following the answers.
    pub proof fn lemma_load_follows(
        self,
        records: nat,
        answer: spec_fn(Batch) -> Result<BulkTally, LoadError>,
    )
        requires
            self.inv(),
            self.follows(answer),
        ensures
            self.load(records).follows(answer),
    {
        if self.phase is Idle {
            lemma_batch_count(0, self.batch_size);
            assert(self.yielded == 0);
            assert(self.resolved.len() == 0);
        }
    }

    /// A step keeps a run following the answers.
    pub proof fn lemma_step_follows(self, answer: spec_fn(Batch) -> Result<BulkTally, LoadError>)
        requires
            self.inv(),
            self.follows(answer),
        ensures
            self.step().0.follows(answer),
    {
        let after = self.step().0;
        if self.phase is Dispatching && !self.all_submitted() && self.in_flight.len()
            < self.throttle {
            let batch = self.next_batch();
            lemma_planned_batch(self.records, self.batch_size, self.yielded);
            assert(after.in_flight.last() == batch);
            assert forall|i: int| 0 <= i < after.resolved.len() implies {
                &&& after.was_submitted(#[trigger] after.resolved[i])
                &&& !after.in_flight.contains(after.resolved[i])
            } by {
                let earlier = self.resolved[i];
                assert(self.was_submitted(earlier));
                let index = choose|index: nat|
                    index < self.yielded && earlier == #[trigger] planned_batch(
                        self.records,
                        self.batch_size,
                        index,
                    );
                assert(earlier == planned_batch(after.records, after.batch_size, index));
                lemma_planned_batch(self.records, self.batch_size, index);
                assert(index * self.batch_size < self.yielded * self.batch_size)
                    by (nonlinear_arith)
                    requires
                        index < self.yielded,
                        self.batch_size >= 1,
                ;
                assert(earlier != batch);
                if after.in_flight.contains(earlier) {
                    let at = choose|at: int|
                        0 <= at < after.in_flight.len() && after.in_flight[at] == earlier;
                    assert(at < self.in_flight.len());
                    assert(self.in_flight[at] == earlier);
                }
            }
            assert forall|index: nat| index < after.yielded implies {
                ||| after.resolved.contains(
                    #[trigger] planned_batch(after.records, after.batch_size, index),
                )
                ||| after.in_flight.contains(planned_batch(after.records, after.batch_size, index))
            } by {
                let planned = planned_batch(self.records, self.batch_size, index);
                if index == self.yielded {
                    assert(after.in_flight[after.in_flight.len() - 1] == planned);
                } else if self.in_flight.contains(planned) {
                    let at = choose|at: int|
                        0 <= at < self.in_flight.len() && self.in_flight[at] == planned;
                    assert(after.in_flight[at] == planned);
                }
            }
        } else if self.phase is Failed {
            let index = choose|index: nat|
                index < self.yielded && !Self::is_accounted(
                    answer,
                    #[trigger] planned_batch(self.records, self.batch_size, index),
                );
            assert(!Self::is_accounted(
                answer,
                planned_batch(after.records, after.batch_size, index),
            ));
        } else {
            assert(after.resolved == self.resolved);
            assert(after.in_flight == self.in_flight);
            assert forall|i: int| 0 <= i < after.resolved.len() implies after.was_submitted(
                #[trigger] after.resolved[i],
            ) by {
                assert(self.was_submitted(self.resolved[i]));
                let index = choose|index: nat|
                    index < self.yielded && self.resolved[i] == #[trigger] planned_batch(
                        self.records,
                        self.batch_size,
                        index,
                    );
                assert(self.resolved[i] == planned_batch(after.records, after.batch_size, index));
            }
            assert forall|index: nat| index < after.yielded implies {
                ||| after.resolved.contains(
                    #[trigger] planned_batch(after.records, after.batch_size, index),
                )
                ||| after.in_flight.contains(planned_batch(after.records, after.batch_size, index))
            } by {
                let planned = planned_batch(self.records, self.batch_size, index);
                assert(self.resolved.contains(planned) || self.in_flight.contains(planned));
            }
        }
    }

    /// The resolution of a call to the answer for its batch keeps a run
    /// following the answers.
    pub proof fn lemma_resolve_follows(
        self,
        batch: Batch,
        answer: spec_fn(Batch) -> Result<BulkTally, LoadError>,
    )
        requires
            self.inv(),
            self.follows(answer),
        ensures
            self.resolve(batch, answer(batch)).follows(answer),
    {
        let after = self.resolve(batch, answer(batch));
        if self.in_flight.contains(batch) {
            lemma_without_value(self.in_flight, batch);
            let rest = self.in_flight.remove_value(batch);
            assert(after.in_flight == rest);
            let at_batch = choose|i: int| 0 <= i < self.in_flight.len() && self.in_flight[i] == batch;
            assert(self.was_submitted(self.in_flight[at_batch]));
            let index_of_batch = choose|index: nat|
                index < self.yielded && batch == #[trigger] planned_batch(
                    self.records,
                    self.batch_size,
                    index,
                );
            assert forall|i: int| 0 <= i < self.resolved.len() implies {
                &&& after.was_submitted(#[trigger] self.resolved[i])
                &&& !rest.contains(self.resolved[i])
                &&& self.resolved[i] != batch
            } by {
                assert(self.was_submitted(self.resolved[i]));
                let index = choose|index: nat|
                    index < self.yielded && self.resolved[i] == #[trigger] planned_batch(
                        self.records,
                        self.batch_size,
                        index,
                    );
                assert(self.resolved[i] == planned_batch(after.records, after.batch_size, index));
            }
            if self.phase is Failed {
                assert(after.resolved == self.resolved);
                let index = choose|index: nat|
                    index < self.yielded && !Self::is_accounted(
                        answer,
                        #[trigger] planned_batch(self.records, self.batch_size, index),
                    );
                assert(!Self::is_accounted(
                    answer,
                    planned_batch(after.records, after.batch_size, index),
                ));
            } else if Self::is_accounted(answer, batch) {
                let tally = answer(batch)->Ok_0;
                assert(after.resolved == self.resolved.push(batch));
                assert(after.tallies == self.tallies.push(tally));
                assert(batch == planned_batch(after.records, after.batch_size, index_of_batch));
                assert forall|i: int| 0 <= i < after.resolved.len() implies {
                    &&& after.was_submitted(#[trigger] after.resolved[i])
                    &&& !after.in_flight.contains(after.resolved[i])
                    &&& answer(after.resolved[i]) == Ok::<BulkTally, LoadError>(after.tallies[i])
                    &&& Self::accounts_for(after.resolved[i], after.tallies[i])
                } by {
                    if i < self.resolved.len() {
                        assert(after.resolved[i] == self.resolved[i]);
                    }
                }
                assert forall|index: nat| index < after.yielded implies {
                    ||| after.resolved.contains(
                        #[trigger] planned_batch(after.records, after.batch_size, index),
                    )
                    ||| after.in_flight.contains(
                        planned_batch(after.records, after.batch_size, index),
                    )
                } by {
                    let planned = planned_batch(self.records, self.batch_size, index);
                    if planned == batch {
                        assert(after.resolved[after.resolved.len() - 1] == planned);
                    } else if self.resolved.contains(planned) {
                        let at = choose|at: int|
                            0 <= at < self.resolved.len() && self.resolved[at] == planned;
                        assert(after.resolved[at] == planned);
                    } else {
                        assert(self.in_flight.contains(planned));
                    }
                }
            } else {
                assert(after.phase is Failed);
                assert(after.resolved == self.resolved);
                assert(!Self::is_accounted(
                    answer,
                    planned_batch(after.records, after.batch_size, index_of_batch),
                ));
            }
        }
    }

    /// The outcome of a run does not depend on the order in which its calls
    /// resolved. A run that is over and followed the answers returns results
    /// exactly where every answer accounts for its batch, and then the sum of
    /// the answers' tallies over the batches in their own order; where an
    /// answer does not account for its batch, it returns an error and no
    /// tally.
    pub proof fn lemma_outcome_is_of_the_answers(
        self,
        answer: spec_fn(Batch) -> Result<BulkTally, LoadError>,
    )
        requires
            self.inv(),
            self.follows(answer),
            self.is_over(),
        ensures
            match self.outcome() {
                Some(Ok(counts)) => Self::outcome_of_answers(self.records, self.batch_size, answer)
                    == Some(counts),
                Some(Err(_)) => Self::outcome_of_answers(self.records, self.batch_size, answer)
                    is None,
                None => false,
            },
    {
        let plan = batch_plan(self.records, self.batch_size);
        let count = batch_count(self.records, self.batch_size);
        if self.phase is Failed {
            let index = choose|index: nat|
                index < self.yielded && !Self::is_accounted(
                    answer,
                    #[trigger] planned_batch(self.records, self.batch_size, index),
                );
            assert(plan[index as int] == planned_batch(self.records, self.batch_size, index));
            assert(!Self::is_accounted(answer, plan[index as int]));
        } else {
            assert(self.in_flight =~= Seq::<Batch>::empty());
            assert forall|b: Batch| self.resolved.contains(b) <==> plan.contains(b) by {
                if self.resolved.contains(b) {
                    let at = choose|at: int| 0 <= at < self.resolved.len() && self.resolved[at] == b;
                    assert(self.was_submitted(self.resolved[at]));
                    let index = choose|index: nat|
                        index < self.yielded && b == #[trigger] planned_batch(
                            self.records,
                            self.batch_size,
                            index,
                        );
                    assert(plan[index as int] == b);
                }
                if plan.contains(b) {
                    let index = choose|index: int| 0 <= index < plan.len() && plan[index] == b;
                    assert(b == planned_batch(self.records, self.batch_size, index as nat));
                    assert(!self.in_flight.contains(b));
                }
            }
            assert forall|index: int| 0 <= index < count implies Self::is_accounted(
                answer,
                #[trigger] plan[index],
            ) by {
                assert(plan.contains(plan[index]));
                let at = choose|at: int|
                    0 <= at < self.resolved.len() && self.resolved[at] == plan[index];
                assert(answer(self.resolved[at]) == Ok::<BulkTally, LoadError>(self.tallies[at]));
            }
            lemma_plan_has_no_duplicates(self.records, self.batch_size);
            lemma_same_batches(self.resolved, plan);
            lemma_sum_of_resolved(self.resolved, self.tallies, answer);
            lemma_sum_of_answers_order_independent(self.resolved, plan, answer);
        }
    }

    /// Two runs over the same records that followed the same answers, with
    /// their calls resolving in different orders, end alike: both with the
    /// same results, or both with an error.
    pub proof fn lemma_completion_order_is_immaterial(
        self,
        other: Run,
        answer: spec_fn(Batch) -> Result<BulkTally, LoadError>,
    )
        requires
            self.inv(),
            other.inv(),
            self.records == other.records,
            self.batch_size == other.batch_size,
            self.follows(answer),
            other.follows(answer),
            self.is_over(),
            other.is_over(),
        ensures
            self.outcome() matches Some(Ok(counts)) ==> other.outcome() == Some(
                Ok::<Counts, LoadError>(counts),
            ),
            self.outcome() matches Some(Err(_)) ==> other.outcome() matches Some(Err(_)),
    {
        self.lemma_outcome_is_of_the_answers(answer);
        other.lemma_outcome_is_of_the_answers(answer);
    }

    /// The throttle bounds the calls in flight in every state of a run.
    pub proof fn lemma_throttle_bounds_in_flight(self)
        requires
            self.inv(),
        ensures
            self.in_flight.len() <= self.throttle,
    {
    }

    /// Once every call of a run resolved well, its tallies count every record
    /// of the run once, as created or as failed, and their sum fits a machine
    /// word.
    pub proof fn lemma_tallies_count_every_record(self)
        requires
            self.inv(),
            self.phase is Reducing || self.phase is Done,
        ensures
            reduce(self.tallies).total == self.records,
            reduce(self.tallies).is_consistent(),
            reduce(self.tallies).fits(),
    {
        lemma_reduce_consistent(self.tallies);
        assert(self.in_flight =~= Seq::<Batch>::empty());
    }

    /// The results of a run that is done count every record of the run once,
    /// as created or as failed.
    pub proof fn lemma_done_counts_every_record(self)
        requires
            self.inv(),
            self.phase is Done,
        ensures
            self.outcome() == Some(Ok::<Counts, LoadError>(reduce(self.tallies))),
            reduce(self.tallies).total == self.records,
            reduce(self.tallies).is_consistent(),
    {
        self.lemma_tallies_count_every_record();
    }

    /// A run that is over has nothing in flight, and a run that failed
    /// returns its first error and no tally.
    pub proof fn lemma_failed_returns_error(self)
        requires
            self.inv(),
            self.phase is Failed,
            self.in_flight.len() == 0,
        ensures
            self.outcome() == Some(Err::<Counts, LoadError>(self.first_error->0)),
    {
    }
}

/// The tally that an answer gives for a batch; none where it is an error.
pub open spec fn answer_counts(
    answer: spec_fn(Batch) -> Result<BulkTally, LoadError>,
    batch: Batch,
) -> Counts {
    match answer(batch) {
        Ok(tally) => tally@,
        Err(_) => Counts::zero(),
    }
}

/// The sum of the tallies that the answers give for the batches, taken in
/// the order of the batches.
pub open spec fn sum_of_answers(
    batches: Seq<Batch>,
    answer: spec_fn(Batch) -> Result<BulkTally, LoadError>,
) -> Counts {
    batches.fold_left(
        Counts::zero(),
        |sum: Counts, batch: Batch| sum.plus(answer_counts(answer, batch)),
    )
}

/// The sum of the answers does not depend on the order of the batches.
pub proof fn lemma_sum_of_answers_order_independent(
    first: Seq<Batch>,
    second: Seq<Batch>,
    answer: spec_fn(Batch) -> Result<BulkTally, LoadError>,
)
    requires
        first.to_multiset() == second.to_multiset(),
    ensures
        sum_of_answers(first, answer) == sum_of_answers(second, answer),
{
    let step = |sum: Counts, batch: Batch| sum.plus(answer_counts(answer, batch));
    assert(commutative_foldl(step));
    lemma_fold_left_permutation(first, second, step, Counts::zero());
}

/// Tallies kept beside their batches sum up to the sum of the answers for
/// those batches.
pub proof fn lemma_sum_of_resolved(
    resolved: Seq<Batch>,
    tallies: Seq<BulkTally>,
    answer: spec_fn(Batch) -> Result<BulkTally, LoadError>,
)
    requires
        resolved.len() == tallies.len(),
        forall|i: int|
            0 <= i < resolved.len() ==> answer(#[trigger] resolved[i]) == Ok::<
                BulkTally,
                LoadError,
            >(tallies[i]),
    ensures
        reduce(tallies) == sum_of_answers(resolved, answer),
    decreases resolved.len(),
{
    if resolved.len() > 0 {
        let last = resolved.len() - 1;
        assert(answer(resolved[last]) == Ok::<BulkTally, LoadError>(tallies[last]));
        assert forall|i: int| 0 <= i < resolved.drop_last().len() implies answer(
            #[trigger] resolved.drop_last()[i],
        ) == Ok::<BulkTally, LoadError>(tallies.drop_last()[i]) by {
            assert(answer(resolved[i]) == Ok::<BulkTally, LoadError>(tallies[i]));
        }
        lemma_sum_of_resolved(resolved.drop_last(), tallies.drop_last(), answer);
    }
}

/// No batch stands twice in a plan.
pub proof fn lemma_plan_has_no_duplicates(records: nat, batch_size: nat)
    requires
        batch_size >= 1,
        records <= usize::MAX,
    ensures
        batch_plan(records, batch_size).no_duplicates(),
{
    let plan = batch_plan(records, batch_size);
    assert forall|i: int, j: int|
        0 <= i < plan.len() && 0 <= j < plan.len() && i != j implies plan[i] != plan[j] by {
        lemma_planned_batch(records, batch_size, i as nat);
        lemma_planned_batch(records, batch_size, j as nat);
        assert(i * batch_size != j * batch_size) by (nonlinear_arith)
            requires
                i != j,
                batch_size >= 1,
        ;
    }
}

/// Two sequences without duplicates that hold the same batches hold each as
/// often as the other.
pub proof fn lemma_same_batches(first: Seq<Batch>, second: Seq<Batch>)
    requires
        first.no_duplicates(),
        second.no_duplicates(),
        forall|batch: Batch| first.contains(batch) <==> second.contains(batch),
    ensures
        first.to_multiset() == second.to_multiset(),
{
    broadcast use vstd::seq_lib::group_to_multiset_ensures;

    first.lemma_multiset_has_no_duplicates();
    second.lemma_multiset_has_no_duplicates();
    assert forall|batch: Batch|
        first.to_multiset().count(batch) == second.to_multiset().count(batch) by {
        assert(first.contains(batch) <==> second.contains(batch));
        assert(first.contains(batch) <==> first.to_multiset().count(batch) > 0);
        assert(second.contains(batch) <==> second.to_multiset().count(batch) > 0);
    }
    assert(first.to_multiset() =~= second.to_multiset());
}

/// Leaving a value out of a sequence that holds it once leaves the sequence
/// without it, and with every other value it held.
pub proof fn lemma_without_value(batches: Seq<Batch>, batch: Batch)
    requires
        batches.no_duplicates(),
        batches.contains(batch),
    ensures
        !batches.remove_value(batch).contains(batch),
        forall|other: Batch|
            batches.remove_value(batch).contains(other) ==> batches.contains(other),
        forall|other: Batch|
            other != batch && batches.contains(other) ==> batches.remove_value(batch).contains(
                other,
            ),
{
    batches.index_of_first_ensures(batch);
    let at = batches.index_of_first(batch)->0;
    let rest = batches.remove(at);
    assert(rest == batches.remove_value(batch));
    assert forall|other: Batch| rest.contains(other) implies batches.contains(other)
        && other != batch by {
        let i = choose|i: int| 0 <= i < rest.len() && rest[i] == other;
        if i < at {
            assert(rest[i] == batches[i]);
        } else {
            assert(rest[i] == batches[i + 1]);
        }
    }
    assert forall|other: Batch| other != batch && batches.contains(other) implies rest.contains(
        other,
    ) by {
        let i = choose|i: int| 0 <= i < batches.len() && batches[i] == other;
        if i < at {
            assert(rest[i] == other);
        } else {
            assert(rest[i - 1] == other);
        }
    }
}

/// Taking one batch out of a sequence takes its records out of the count.
pub proof fn lemma_records_in_remove(batches: Seq<Batch>, at: int)
    requires
        0 <= at < batches.len(),
    ensures
        records_in(batches.remove(at)) + batches[at].len == records_in(batches),
    decreases batches.len(),
{
    if at == batches.len() - 1 {
        assert(batches.remove(at) == batches.drop_last());
    } else {
        lemma_records_in_remove(batches.drop_last(), at);
        assert(batches.remove(at).drop_last() == batches.drop_last().remove(at));
        assert(batches.remove(at).last() == batches.last());
    }
}

/// Decides, step by step, what a run does next.
#[derive(Debug)]
pub struct LoadEngine {
    phase: Phase,
    batcher: Batcher,
    throttle: Throttle,
    in_flight: Vec<Batch>,
    resolved: Vec<Batch>,
    tallies: Vec<BulkTally>,
    first_error: Option<LoadError>,
    results: ElasticLoadResults,
}

impl View for LoadEngine {
    type V = Run;

    closed spec fn view(&self) -> Run {
        Run {
            phase: self.phase,
            batch_size: self.batcher.batch_size(),
            throttle: self.throttle.capacity(),
            records: self.batcher.total(),
            yielded: self.batcher.yielded(),
            in_flight: self.in_flight@,
            resolved: self.resolved@,
            tallies: self.tallies@,
            first_error: self.first_error,
        }
    }
}

impl LoadEngine {
    /// The engine's invariant: its run meets the run's invariant, and its
    /// parts agree with one another.
    pub closed spec fn wf(&self) -> bool {
        &&& self.batcher.wf()
        &&& self.throttle.wf()
        &&& self.throttle.in_use() == self.in_flight@.len()
        &&& self@.inv()
        &&& self.phase is Done ==> self.results@ == reduce(self.tallies@)
    }

    /// A well-formed engine's run meets the run's invariant: in particular
    /// it never has more calls in flight than its throttle has permits.
    pub proof fn lemma_wf(&self)
        requires
            self.wf(),
        ensures
            self@.inv(),
            self@.in_flight.len() <= self@.throttle,
    {
    }

    /// An idle engine for batches of `batch_size` records and at most
    /// `throttle` bulk calls at once.
    pub fn new(batch_size: usize, throttle: usize) -> (engine: LoadEngine)
        requires
            batch_size >= 1,
            throttle >= 1,
        ensures
            engine.wf(),
            engine@ == Run::idle(batch_size as nat, throttle as nat),
    {
        proof {
            Run::lemma_idle_inv(batch_size as nat, throttle as nat);
        }
        LoadEngine {
            phase: Phase::Idle,
            batcher: Batcher::new(0, batch_size),
            throttle: Throttle::new(throttle),
            in_flight: Vec::new(),
            resolved: Vec::new(),
            tallies: Vec::new(),
            first_error: None,
            results: ElasticLoadResults::new(),
        }
    }

    /// Hands a sequence of `records` records over to an idle engine, which
    /// starts to batch them. Tells whether the engine was idle; any other
    /// engine stays as it is.
    pub fn load(&mut self, records: usize) -> (loaded: bool)
        requires
            old(self).wf(),
        ensures
            final(self).wf(),
            loaded == (old(self)@.phase is Idle),
            final(self)@ == old(self)@.load(records as nat),
    {
        proof {
            self@.lemma_load_inv(records as nat);
            self.batcher.lemma_wf();
        }
        match self.phase {
            Phase::Idle => {
                self.batcher = Batcher::new(records, self.batcher.size());
                self.phase = Phase::Batching;
                true
            },
            _ => false,
        }
    }

    /// Where the run stands.
    pub fn phase(&self) -> (phase: Phase)
        ensures
            phase == self@.phase,
    {
        self.phase
    }

    /// The number of bulk calls in flight.
    pub fn in_flight(&self) -> (count: usize)
        ensures
            count == self@.in_flight.len(),
    {
        self.in_flight.len()
    }

    /// The number of permits of the throttle.
    pub fn throttle(&self) -> (permits: usize)
        ensures
            permits == self@.throttle,
    {
        self.throttle.permits()
    }

    /// The number of records of the run.
    pub fn records(&self) -> (records: usize)
        ensures
            records == self@.records,
    {
        self.batcher.records()
    }

    /// Takes one step of the run and tells the driver what to do.
    pub fn step(&mut self) -> (action: Action)
        requires
            old(self).wf(),
        ensures
            final(self).wf(),
            final(self)@ == old(self)@.step().0,
            action == old(self)@.step().1,
    {
        proof {
            self@.lemma_step_inv();
            self.batcher.lemma_wf();
            self.throttle.lemma_wf();
        }
        match self.phase {
            Phase::Idle => Action::Idle,
            Phase::Batching => {
                self.phase = Phase::Dispatching;
                Action::Proceed
            },
            Phase::Dispatching => {
                if self.batcher.is_done() {
                    self.phase = Phase::Awaiting;
                    Action::Proceed
                } else if self.throttle.try_acquire() {
                    match self.batcher.next_batch() {
                        Some(batch) => {
                            self.in_flight.push(batch);
                            Action::Dispatch(batch)
                        },
                        None => unreached(),
                    }
                } else {
                    Action::Await
                }
            },
            Phase::Awaiting => {
                if self.in_flight.len() > 0 {
                    Action::Await
                } else {
                    self.phase = Phase::Reducing;
                    Action::Proceed
                }
            },
            Phase::Reducing => {
                proof {
                    self@.lemma_tallies_count_every_record();
                }
                match ElasticLoadResults::reduce(&self.tallies) {
                    Some(results) => {
                        self.results = results;
                    },
                    None => unreached(),
                }
                self.phase = Phase::Done;
                Action::Proceed
            },
            Phase::Done => Action::Finish,
            Phase::Failed => {
                if self.in_flight.len() > 0 {
                    Action::Await
                } else {
                    Action::Finish
                }
            },
        }
    }

    /// The position in the calls in flight of the first call of `batch`.
    fn find(&self, batch: Batch) -> (found: Option<usize>)
        ensures
            match found {
                Some(at) => at < self.in_flight@.len() && self.in_flight@.index_of_first(batch)
                    == Some(at as int),
                None => !self.in_flight@.contains(batch),
            },
    {
        let mut at: usize = 0;
        while at < self.in_flight.len()
            invariant
                at <= self.in_flight@.len(),
                forall|i: int| 0 <= i < at ==> self.in_flight@[i] != batch,
            decreases self.in_flight@.len() - at,
        {
            if self.in_flight[at] == batch {
                proof {
                    self.in_flight@.index_of_first_ensures(batch);
                }
                return Some(at);
            }
            at = at + 1;
        }
        None
    }

    /// Reports that the bulk call of `batch` resolved to `outcome`, and tells
    /// whether such a call was in flight. The call's permit is given back
    /// whatever the outcome.
    pub fn resolve(&mut self, batch: Batch, outcome: Result<BulkTally, LoadError>) -> (known: bool)
        requires
            old(self).wf(),
        ensures
            final(self).wf(),
            known == old(self)@.in_flight.contains(batch),
            final(self)@ == old(self)@.resolve(batch, outcome),
    {
        proof {
            self@.lemma_resolve_inv(batch, outcome);
            self.throttle.lemma_wf();
            self.in_flight@.index_of_first_ensures(batch);
        }
        let at = match self.find(batch) {
            Some(at) => at,
            None => {
                return false;
            },
        };
        self.in_flight.remove(at);
        self.throttle.release();
        match self.phase {
            Phase::Failed => {},
            _ => {
                match outcome {
                    Ok(tally) => {
                        if tally.check_consistent() && tally.num_total == batch.len {
                            self.resolved.push(batch);
                            self.tallies.push(tally);
                        } else {
                            self.phase = Phase::Failed;
                            self.first_error = Some(LoadError::MalformedResponse);
                        }
                    },
                    Err(error) => {
                        self.phase = Phase::Failed;
                        self.first_error = Some(error);
                    },
                }
            },
        }
        true
    }

    /// Ends the run: the results where it is done, the first error where it
    /// failed and no call is in flight, `None` where it is not over.
    pub fn finish(self) -> (outcome: Option<Result<ElasticLoadResults, LoadError>>)
        requires
            self.wf(),
        ensures
            match outcome {
                Some(Ok(results)) => self@.outcome() == Some(Ok::<Counts, LoadError>(results@))
                    && results@.total == self@.records && results.is_consistent(),
                Some(Err(error)) => self@.outcome() == Some(Err::<Counts, LoadError>(error)),
                None => self@.outcome() is None,
            },
    {
        match self.phase {
            Phase::Done => {
                proof {
                    self@.lemma_done_counts_every_record();
                }
                Some(Ok(self.results))
            },
            Phase::Failed => {
                if self.in_flight.len() > 0 {
                    None
                } else {
                    match self.first_error {
                        Some(error) => Some(Err(error)),
                        None => unreached(),
                    }
                }
            },
            _ => None,
        }
    }
}

} // verus!
