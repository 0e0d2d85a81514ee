//! Document identifiers by position, and the partition of a record sequence
//! into contiguous batches of a fixed size.

use vstd::prelude::*;

verus! {

/// The identifier of the record at the 0-based `position` of the source
/// sequence: positions are numbered from one, without gaps.
pub open spec fn id_of(position: nat) -> nat {
    position + 1
}

/// The position of the record whose identifier is `id`.
pub open spec fn position_of(id: nat) -> nat {
    (id - 1) as nat
}

/// The identifier of the record at `position`.
///
/// It depends on the position alone, so every batch can number its records
/// whatever the order in which the batches are written.
pub fn assigned_id(position: usize) -> (id: usize)
    requires
        position < usize::MAX,
    ensures
        id == id_of(position as nat),
{
    position + 1
}

/// A contiguous run of records of the source sequence, by position.
#[derive(Debug, Clone, Copy, PartialEq, Eq, Structural)]
pub struct Batch {
    /// Position of the batch's first record.
    pub first: usize,
    /// Number of records in the batch.
    pub len: usize,
}

impl Batch {
    /// The position one past the batch's last record.
    pub open spec fn end(&self) -> nat {
        (self.first + self.len) as nat
    }

    /// Tells whether the record at `position` belongs to the batch.
    pub open spec fn contains(&self, position: nat) -> bool {
        self.first <= position < self.end()
    }

    /// The identifier of the batch's first record.
    pub open spec fn start_id_spec(&self) -> nat {
        id_of(self.first as nat)
    }

    /// The identifier of the batch's `offset`-th record: the start
    /// identifier plus the offset.
    pub open spec fn id_at_spec(&self, offset: nat) -> nat {
        self.start_id_spec() + offset
    }

    /// The identifiers of the batch's records, in order.
    pub open spec fn ids(&self) -> Seq<nat> {
        Seq::new(self.len as nat, |offset: int| self.id_at_spec(offset as nat))
    }

    /// The batch lies within a sequence whose positions and identifiers fit
    /// a machine word.
    pub open spec fn fits(&self) -> bool {
        self.first + self.len < usize::MAX
    }

    /// The identifier of the batch's first record.
    pub fn start_id(&self) -> (id: usize)
        requires
            self.first < usize::MAX,
        ensures
            id == self.start_id_spec(),
    {
        assigned_id(self.first)
    }

    /// The identifier of the batch's `offset`-th record.
    pub fn id_at(&self, offset: usize) -> (id: usize)
        requires
            offset < self.len,
            self.first + offset < usize::MAX,
        ensures
            id == self.id_at_spec(offset as nat),
            id == id_of((self.first + offset) as nat),
    {
        assigned_id(self.first + offset)
    }

    /// The position one past the batch's last record, where the batch lies
    /// within a sequence of `records` records whose identifiers fit a machine
    /// word; `None` where it does not.
    pub fn end_within(&self, records: usize) -> (end: Option<usize>)
        ensures
            end is Some <==> self.first + self.len <= records && self.fits(),
            end matches Some(e) ==> e == self.first + self.len,
    {
        match self.first.checked_add(self.len) {
            Some(end) => {
                if end <= records && end < usize::MAX {
                    Some(end)
                } else {
                    None
                }
            },
            None => None,
        }
    }

    /// The batch's records, out of the whole source sequence.
    pub fn records<'a, T>(&self, items: &'a [T]) -> (records: &'a [T])
        requires
            self.first + self.len <= items@.len(),
        ensures
            records@ == items@.subrange(self.first as int, self.first + self.len),
    {
        assert(items@.len() <= usize::MAX) by {
            vstd::slice::axiom_spec_len(items);
        }
        vstd::slice::slice_subrange(items, self.first, self.first + self.len)
    }
}

/// The number of batches that `total` records make at `size` records a
/// batch: `total / size`, rounded up.
pub open spec fn batch_count(total: nat, size: nat) -> nat {
    if size == 0 {
        0
    } else {
        ((total + size - 1) / (size as int)) as nat
    }
}

/// The `index`-th batch of `total` records at `size` records a batch: it
/// starts where the one before ended and takes `size` records, or what is
/// left of the sequence.
pub open spec fn planned_batch(total: nat, size: nat, index: nat) -> Batch {
    let first = index * size;
    let left = total - first;
    Batch { first: first as usize, len: (if left <= size { left } else { size as int }) as usize }
}

/// All batches of `total` records at `size` records a batch, in order.
pub open spec fn batch_plan(total: nat, size: nat) -> Seq<Batch> {
    Seq::new(batch_count(total, size), |index: int| planned_batch(total, size, index as nat))
}

/// The batch count is the rounded-up quotient: that many batches hold all
/// records, one fewer do not, and there are never more batches than records.
pub proof fn lemma_batch_count(total: nat, size: nat)
    requires
        size >= 1,
    ensures
        batch_count(total, size) * size >= total,
        total > 0 ==> (batch_count(total, size) - 1) * size < total,
        total == 0 <==> batch_count(total, size) == 0,
        batch_count(total, size) <= total,
{
    let count = batch_count(total, size) as int;
    let padded = (total + size - 1) as int;
    let divisor = size as int;
    assert(count == padded / divisor);
    assert(padded == divisor * count + padded % divisor && 0 <= padded % divisor < divisor)
        by (nonlinear_arith)
        requires
            divisor >= 1,
            padded >= 0,
            count == padded / divisor,
    ;
    assert(count * size >= total && (count - 1) * size < total) by (nonlinear_arith)
        requires
            padded == divisor * count + padded % divisor,
            0 <= padded % divisor < divisor,
            padded == total + size - 1,
            divisor == size,
    ;
    assert(count <= total && (total == 0 ==> count == 0) && (count == 0 ==> total == 0))
        by (nonlinear_arith)
        requires
            (count - 1) * size < total,
            count * size >= total,
            size >= 1,
            count >= 0,
            total >= 0,
    ;
}

/// A batch index below the batch count names a batch with at least one and
/// at most `size` records, all of them within the sequence.
pub proof fn lemma_planned_batch(total: nat, size: nat, index: nat)
    requires
        size >= 1,
        total <= usize::MAX,
        index < batch_count(total, size),
    ensures
        planned_batch(total, size, index).first == index * size,
        1 <= planned_batch(total, size, index).len <= size,
        planned_batch(total, size, index).end() <= total,
        index + 1 < batch_count(total, size) ==> planned_batch(total, size, index).len == size,
        index + 1 == batch_count(total, size) ==> planned_batch(total, size, index).end() == total,
        planned_batch(total, size, index).end() == if index + 1 == batch_count(total, size) {
            total
        } else {
            (index + 1) * size
        },
{
    lemma_batch_count(total, size);
    let count = batch_count(total, size);
    assert(index * size < total && (index + 1 < count ==> (index + 1) * size < total) && (index + 1)
        * size == index * size + size) by (nonlinear_arith)
        requires
            (count - 1) * size < total,
            index < count,
            size >= 1,
    ;
    assert(index + 1 == count ==> (index + 1) * size >= total);
}

/// Batching covers every record exactly once, in order: the record at
/// `position` lies in the batch numbered `position / size` and in no other.
pub proof fn lemma_batches_cover_once(total: nat, size: nat, position: nat)
    requires
        size >= 1,
        total <= usize::MAX,
        position < total,
    ensures
        position / size < batch_count(total, size),
        batch_plan(total, size)[(position / size) as int].contains(position),
        forall|index: int|
            0 <= index < batch_count(total, size) && index != position / size ==> !(
            #[trigger] batch_plan(total, size)[index]).contains(position),
{
    lemma_batch_count(total, size);
    let count = batch_count(total, size);
    let home = position / size;
    let divisor = size as int;
    assert(home * size <= position < (home + 1) * size) by (nonlinear_arith)
        requires
            divisor >= 1,
            divisor == size,
            home == position as int / divisor,
    ;
    assert(home < count) by (nonlinear_arith)
        requires
            home * size <= position,
            position < total,
            (count - 1) * size < total,
            count * size >= total,
            size >= 1,
    ;
    lemma_planned_batch(total, size, home);
    assert((home + 1) * size == home * size + size) by (nonlinear_arith);
    assert forall|index: int| 0 <= index < count && index != home implies !(
    #[trigger] batch_plan(total, size)[index]).contains(position) by {
        lemma_planned_batch(total, size, index as nat);
        if index < home {
            assert((index + 1) * size <= home * size) by (nonlinear_arith)
                requires
                    index + 1 <= home,
                    size >= 1,
            ;
        } else {
            assert(index * size >= (home + 1) * size) by (nonlinear_arith)
                requires
                    index >= home + 1,
                    size >= 1,
            ;
        }
    }
}

/// The batches follow one another without gap or overlap: the first starts
/// at position zero, each next one where the one before ended, and the last
/// ends with the sequence.
pub proof fn lemma_batches_in_order(total: nat, size: nat)
    requires
        size >= 1,
        total <= usize::MAX,
    ensures
        batch_plan(total, size).len() == batch_count(total, size),
        total > 0 ==> batch_plan(total, size)[0].first == 0,
        total > 0 ==> batch_plan(total, size).last().end() == total,
        forall|index: int|
            0 <= index && index + 1 < batch_count(total, size) ==> (#[trigger] batch_plan(
                total,
                size,
            )[index]).end() == batch_plan(total, size)[index + 1].first,
        forall|index: int|
            0 <= index && index + 1 < batch_count(total, size) ==> (#[trigger] batch_plan(
                total,
                size,
            )[index]).len == size,
        forall|index: int|
            0 <= index < batch_count(total, size) ==> 1 <= (#[trigger] batch_plan(
                total,
                size,
            )[index]).len <= size,
{
    lemma_batch_count(total, size);
    let count = batch_count(total, size);
    if total > 0 {
        lemma_planned_batch(total, size, 0);
        lemma_planned_batch(total, size, (count - 1) as nat);
    }
    assert forall|index: int| 0 <= index < count implies 1 <= (#[trigger] batch_plan(
        total,
        size,
    )[index]).len <= size && (index + 1 < count ==> batch_plan(total, size)[index].len == size
        && batch_plan(total, size)[index].end() == batch_plan(total, size)[index + 1].first) by {
        lemma_planned_batch(total, size, index as nat);
        if index + 1 < count {
            lemma_planned_batch(total, size, (index + 1) as nat);
        }
    }
}

/// Identifiers are unique and exhaust `1..=total`: two positions with one
/// identifier are one position, every position below `total` has an
/// identifier in that range, and every identifier in it is that of the
/// position one below it, which lies below `total`.
pub proof fn lemma_ids_unique_and_exhaustive(total: nat)
    ensures
        forall|p: nat, q: nat| #[trigger] id_of(p) == #[trigger] id_of(q) ==> p == q,
        forall|p: nat| p < total ==> 1 <= #[trigger] id_of(p) <= total,
        forall|id: nat|
            1 <= id <= total ==> position_of(id) < total && id_of(#[trigger] position_of(id))
                == id,
{
}

/// Every identifier from one to `total` is written by exactly one batch: the
/// one that holds the position below the identifier, which tags that
/// position's record with it; no other batch holds that position.
pub proof fn lemma_every_id_in_one_batch(total: nat, size: nat, id: nat)
    requires
        size >= 1,
        total <= usize::MAX,
        1 <= id <= total,
    ensures
        position_of(id) / size < batch_count(total, size),
        batch_plan(total, size)[(position_of(id) / size) as int].contains(position_of(id)),
        batch_plan(total, size)[(position_of(id) / size) as int].id_at_spec(
            (position_of(id) - batch_plan(total, size)[(position_of(id) / size) as int].first) as nat,
        ) == id,
        forall|index: int|
            0 <= index < batch_count(total, size) && index != position_of(id) / size ==> !(
            #[trigger] batch_plan(total, size)[index]).contains(position_of(id)),
{
    lemma_batches_cover_once(total, size, position_of(id));
}

/// The identifiers of a batch are those of its positions: consecutive,
/// starting at the start identifier, whatever other batches exist.
pub proof fn lemma_batch_ids(batch: Batch, offset: nat)
    requires
        offset < batch.len,
    ensures
        batch.ids().len() == batch.len,
        batch.ids()[offset as int] == batch.start_id_spec() + offset,
        batch.ids()[offset as int] == id_of(batch.first as nat + offset),
        batch.contains(batch.first as nat + offset),
{
}

/// Yields the batches of a record sequence one at a time, in order.
#[derive(Debug, Clone, Copy)]
pub struct Batcher {
    total: usize,
    batch_size: usize,
    next: usize,
    yielded: usize,
}

impl Batcher {
    /// The number of records to batch.
    pub closed spec fn total(&self) -> nat {
        self.total as nat
    }

    /// The number of records of every batch but the last.
    pub closed spec fn batch_size(&self) -> nat {
        self.batch_size as nat
    }

    /// The number of batches yielded so far.
    pub closed spec fn yielded(&self) -> nat {
        self.yielded as nat
    }

    /// The position of the first record not yet yielded in a batch.
    pub closed spec fn position(&self) -> nat {
        self.next as nat
    }

    /// The batcher's invariant: it stands between two batches of its plan.
    pub closed spec fn wf(&self) -> bool {
        &&& self.batch_size >= 1
        &&& self.yielded <= batch_count(self.total as nat, self.batch_size as nat)
        &&& self.next == if self.yielded == batch_count(self.total as nat, self.batch_size as nat) {
            self.total as int
        } else {
            self.yielded * self.batch_size
        }
    }

    /// The batches that are still to come.
    pub open spec fn remaining(&self) -> Seq<Batch> {
        batch_plan(self.total(), self.batch_size()).skip(self.yielded() as int)
    }

    /// What the invariant says of the accessors.
    pub proof fn lemma_wf(&self)
        requires
            self.wf(),
        ensures
            self.batch_size() >= 1,
            self.total() <= usize::MAX,
            self.yielded() <= batch_count(self.total(), self.batch_size()) <= self.total(),
            self.position() <= self.total(),
            self.position() == self.total() <==> self.yielded() == batch_count(
                self.total(),
                self.batch_size(),
            ),
            self.position() == if self.yielded() == batch_count(self.total(), self.batch_size()) {
                self.total()
            } else {
                self.yielded() * self.batch_size()
            },
    {
        lemma_batch_count(self.total as nat, self.batch_size as nat);
        if self.yielded < batch_count(self.total as nat, self.batch_size as nat) {
            lemma_planned_batch(self.total as nat, self.batch_size as nat, self.yielded as nat);
        }
    }

    /// A batcher over `total` records at `batch_size` records a batch.
    pub fn new(total: usize, batch_size: usize) -> (batcher: Batcher)
        requires
            batch_size >= 1,
        ensures
            batcher.wf(),
            batcher.total() == total,
            batcher.batch_size() == batch_size,
            batcher.yielded() == 0,
            batcher.position() == 0,
    {
        proof {
            lemma_batch_count(total as nat, batch_size as nat);
        }
        Batcher { total, batch_size, next: 0, yielded: 0 }
    }

    /// Tells whether every batch has been yielded.
    pub fn is_done(&self) -> (done: bool)
        requires
            self.wf(),
        ensures
            done == (self.yielded() == batch_count(self.total(), self.batch_size())),
            done == (self.position() == self.total()),
    {
        proof {
            self.lemma_wf();
        }
        self.next >= self.total
    }

    /// The number of records to batch.
    pub fn records(&self) -> (records: usize)
        ensures
            records == self.total(),
    {
        self.total
    }

    /// The number of records of every batch but the last.
    pub fn size(&self) -> (size: usize)
        ensures
            size == self.batch_size(),
    {
        self.batch_size
    }

    /// The position of the first record not yet yielded in a batch.
    pub fn next_position(&self) -> (position: usize)
        ensures
            position == self.position(),
    {
        self.next
    }

    /// Yields the next batch of the plan, or `None` once all are yielded.
    pub fn next_batch(&mut self) -> (batch: Option<Batch>)
        requires
            old(self).wf(),
        ensures
            final(self).wf(),
            final(self).total() == old(self).total(),
            final(self).batch_size() == old(self).batch_size(),
            batch is None <==> old(self).yielded() == batch_count(
                old(self).total(),
                old(self).batch_size(),
            ),
            batch is None ==> *final(self) == *old(self),
            batch matches Some(b) ==> {
                &&& b == planned_batch(old(self).total(), old(self).batch_size(), old(self).yielded())
                &&& b.first == old(self).position()
                &&& b.end() == final(self).position()
                &&& final(self).yielded() == old(self).yielded() + 1
            },
    {
        proof {
            self.lemma_wf();
        }
        if self.next >= self.total {
            return None;
        }
        let first = self.next;
        let left = self.total - first;
        let len = if left <= self.batch_size {
            left
        } else {
            self.batch_size
        };
        proof {
            lemma_planned_batch(self.total as nat, self.batch_size as nat, self.yielded as nat);
        }
        self.next = first + len;
        self.yielded = self.yielded + 1;
        Some(Batch { first, len })
    }
}

/// All batches of `total` records at `batch_size` records a batch, in order.
pub fn batches(total: usize, batch_size: usize) -> (plan: Vec<Batch>)
    requires
        batch_size >= 1,
    ensures
        plan@ == batch_plan(total as nat, batch_size as nat),
{
    let mut batcher = Batcher::new(total, batch_size);
    let mut plan: Vec<Batch> = Vec::new();
    loop
        invariant
            batcher.wf(),
            batcher.total() == total,
            batcher.batch_size() == batch_size,
            plan@.len() == batcher.yielded(),
            forall|index: int|
                0 <= index < plan@.len() ==> plan@[index] == planned_batch(
                    total as nat,
                    batch_size as nat,
                    index as nat,
                ),
        decreases batch_count(total as nat, batch_size as nat) - batcher.yielded(),
    {
        proof {
            batcher.lemma_wf();
        }
        match batcher.next_batch() {
            Some(batch) => {
                plan.push(batch);
            },
            None => {
                assert(plan@ =~= batch_plan(total as nat, batch_size as nat));
                return plan;
            },
        }
    }
}

} // verus!
