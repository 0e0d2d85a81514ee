//! Counts of written documents: for one bulk call, for single index calls and
//! for a whole run, with the reduction that combines them.

use vstd::prelude::*;
use vstd::seq_lib::*;

verus! {

/// Unbounded counts, the mathematical value of every tally type here.
pub struct Counts {
    pub total: nat,
    pub created: nat,
    pub failed: nat,
}

impl Counts {
    /// Nothing counted.
    pub open spec fn zero() -> Counts {
        Counts { total: 0, created: 0, failed: 0 }
    }

    /// Field-wise sum.
    pub open spec fn plus(self, other: Counts) -> Counts {
        Counts {
            total: self.total + other.total,
            created: self.created + other.created,
            failed: self.failed + other.failed,
        }
    }

    /// Every document counted is either created or failed.
    pub open spec fn is_consistent(self) -> bool {
        self.total == self.created + self.failed
    }

    /// Each count fits a machine word.
    pub open spec fn fits(self) -> bool {
        self.total <= usize::MAX && self.created <= usize::MAX && self.failed <= usize::MAX
    }
}

/// The sum of the tallies of a run, taken in the order given.
pub open spec fn reduce(tallies: Seq<BulkTally>) -> Counts {
    tallies.fold_left(Counts::zero(), |sum: Counts, tally: BulkTally| sum.plus(tally@))
}

/// Counts of the documents of one bulk call.
#[derive(Debug, Clone, Copy, PartialEq, Eq, Structural)]
pub struct BulkTally {
    pub num_total: usize,
    pub num_created: usize,
    pub num_failed: usize,
}

impl View for BulkTally {
    type V = Counts;

    open spec fn view(&self) -> Counts {
        Counts {
            total: self.num_total as nat,
            created: self.num_created as nat,
            failed: self.num_failed as nat,
        }
    }
}

impl BulkTally {
    /// Every document counted is either created or failed.
    pub open spec fn is_consistent(&self) -> bool {
        self@.is_consistent()
    }

    /// The empty tally.
    pub fn new() -> (tally: BulkTally)
        ensures
            tally@ == Counts::zero(),
    {
        BulkTally { num_total: 0, num_created: 0, num_failed: 0 }
    }

    /// The tally of `created` created and `failed` failed documents, where
    /// their sum fits a machine word.
    pub fn of_counts(created: usize, failed: usize) -> (tally: Option<BulkTally>)
        ensures
            tally is Some <==> created + failed <= usize::MAX,
            tally matches Some(t) ==> t.num_created == created && t.num_failed == failed
                && t.is_consistent(),
    {
        match created.checked_add(failed) {
            Some(total) => Some(BulkTally { num_total: total, num_created: created, num_failed: failed }),
            None => None,
        }
    }

    /// Tells whether every document counted is either created or failed.
    pub fn check_consistent(&self) -> (ok: bool)
        ensures
            ok == self.is_consistent(),
    {
        self.num_created <= self.num_total && self.num_total - self.num_created == self.num_failed
    }

    /// Adds `other` to this tally, field by field.
    pub fn add_assign(&mut self, other: BulkTally)
        requires
            old(self)@.plus(other@).fits(),
        ensures
            final(self)@ == old(self)@.plus(other@),
    {
        self.num_total = self.num_total + other.num_total;
        self.num_created = self.num_created + other.num_created;
        self.num_failed = self.num_failed + other.num_failed;
    }
}

/// Counts of the documents written by single index calls.
#[derive(Debug, Clone, Copy, PartialEq, Eq, Structural)]
pub struct IndexResults {
    pub num_total: usize,
    pub num_created: usize,
    pub num_failed: usize,
}

impl View for IndexResults {
    type V = Counts;

    open spec fn view(&self) -> Counts {
        Counts {
            total: self.num_total as nat,
            created: self.num_created as nat,
            failed: self.num_failed as nat,
        }
    }
}

impl IndexResults {
    /// Adds `other` to these results, field by field.
    pub fn add_assign(&mut self, other: IndexResults)
        requires
            old(self)@.plus(other@).fits(),
        ensures
            final(self)@ == old(self)@.plus(other@),
    {
        self.num_total = self.num_total + other.num_total;
        self.num_created = self.num_created + other.num_created;
        self.num_failed = self.num_failed + other.num_failed;
    }
}

/// Counts of the documents of a whole run.
#[derive(Debug, Clone, Copy, PartialEq, Eq, Structural)]
pub struct ElasticLoadResults {
    pub num_total: usize,
    pub num_created: usize,
    pub num_failed: usize,
}

impl View for ElasticLoadResults {
    type V = Counts;

    open spec fn view(&self) -> Counts {
        Counts {
            total: self.num_total as nat,
            created: self.num_created as nat,
            failed: self.num_failed as nat,
        }
    }
}

impl ElasticLoadResults {
    /// Every document counted is either created or failed.
    pub open spec fn is_consistent(&self) -> bool {
        self@.is_consistent()
    }

    /// The empty results.
    pub fn new() -> (results: ElasticLoadResults)
        ensures
            results@ == Counts::zero(),
    {
        ElasticLoadResults { num_total: 0, num_created: 0, num_failed: 0 }
    }

    /// The results that hold what one bulk call's tally holds.
    pub fn of_tally(tally: BulkTally) -> (results: ElasticLoadResults)
        ensures
            results@ == tally@,
    {
        ElasticLoadResults {
            num_total: tally.num_total,
            num_created: tally.num_created,
            num_failed: tally.num_failed,
        }
    }

    /// Adds `other` to these results, field by field.
    pub fn add_assign(&mut self, other: ElasticLoadResults)
        requires
            old(self)@.plus(other@).fits(),
        ensures
            final(self)@ == old(self)@.plus(other@),
    {
        self.num_total = self.num_total + other.num_total;
        self.num_created = self.num_created + other.num_created;
        self.num_failed = self.num_failed + other.num_failed;
    }

    /// Adds `other` unless a count would leave the machine word; tells
    /// whether it was added.
    pub fn try_add(&mut self, other: ElasticLoadResults) -> (added: bool)
        ensures
            added == old(self)@.plus(other@).fits(),
            added ==> final(self)@ == old(self)@.plus(other@),
            !added ==> *final(self) == *old(self),
    {
        let total = self.num_total.checked_add(other.num_total);
        let created = self.num_created.checked_add(other.num_created);
        let failed = self.num_failed.checked_add(other.num_failed);
        match (total, created, failed) {
            (Some(total), Some(created), Some(failed)) => {
                self.num_total = total;
                self.num_created = created;
                self.num_failed = failed;
                true
            },
            _ => false,
        }
    }

    /// Reduces the tallies of a run to its results: their field-wise sum, or
    /// `None` where a sum does not fit a machine word.
    pub fn reduce(tallies: &Vec<BulkTally>) -> (results: Option<ElasticLoadResults>)
        ensures
            results is Some <==> reduce(tallies@).fits(),
            results matches Some(r) ==> r@ == reduce(tallies@),
    {
        let mut sum = ElasticLoadResults::new();
        let mut i: usize = 0;
        while i < tallies.len()
            invariant
                i <= tallies.len(),
                sum@ == reduce(tallies@.take(i as int)),
            decreases tallies.len() - i,
        {
            proof {
                assert(tallies@.take(i + 1).drop_last() == tallies@.take(i as int));
                lemma_reduce_prefix(tallies@, i + 1);
            }
            if !sum.try_add(ElasticLoadResults::of_tally(tallies[i])) {
                return None;
            }
            i = i + 1;
        }
        proof {
            assert(tallies@.take(i as int) == tallies@);
        }
        Some(sum)
    }
}

/// The sum over a prefix of a run is at most, in each count, the sum over
/// the whole run.
pub proof fn lemma_reduce_prefix(tallies: Seq<BulkTally>, n: int)
    requires
        0 <= n <= tallies.len(),
    ensures
        reduce(tallies.take(n)).total <= reduce(tallies).total,
        reduce(tallies.take(n)).created <= reduce(tallies).created,
        reduce(tallies.take(n)).failed <= reduce(tallies).failed,
    decreases tallies.len() - n,
{
    if n == tallies.len() {
        assert(tallies.take(n) == tallies);
    } else {
        assert(tallies.take(n + 1).drop_last() == tallies.take(n));
        lemma_reduce_prefix(tallies, n + 1);
    }
}

/// Adding one more tally to a run adds its counts to the sum.
pub proof fn lemma_reduce_push(tallies: Seq<BulkTally>, tally: BulkTally)
    ensures
        reduce(tallies.push(tally)) == reduce(tallies).plus(tally@),
{
    assert(tallies.push(tally).drop_last() == tallies);
}

/// The sum of consistent tallies is consistent.
pub proof fn lemma_reduce_consistent(tallies: Seq<BulkTally>)
    requires
        forall|i: int| 0 <= i < tallies.len() ==> (#[trigger] tallies[i]).is_consistent(),
    ensures
        reduce(tallies).is_consistent(),
    decreases tallies.len(),
{
    if tallies.len() > 0 {
        lemma_reduce_consistent(tallies.drop_last());
    }
}

/// Addition of counts is commutative.
pub proof fn lemma_plus_commutative(a: Counts, b: Counts)
    ensures
        a.plus(b) == b.plus(a),
{
}

/// Addition of counts is associative.
pub proof fn lemma_plus_associative(a: Counts, b: Counts, c: Counts)
    ensures
        a.plus(b).plus(c) == a.plus(b.plus(c)),
{
}

/// The reduction does not depend on the order in which the batches
/// completed: two runs that hold the same tallies, each as often as the
/// other, reduce to the same counts.
pub proof fn lemma_reduce_order_independent(first: Seq<BulkTally>, second: Seq<BulkTally>)
    requires
        first.to_multiset() == second.to_multiset(),
    ensures
        reduce(first) == reduce(second),
{
    let step = |sum: Counts, tally: BulkTally| sum.plus(tally@);
    assert(commutative_foldl(step));
    lemma_fold_left_permutation(first, second, step, Counts::zero());
}

} // verus!
