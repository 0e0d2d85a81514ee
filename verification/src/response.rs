//! Reading the response of a bulk call: what each entry says of its
//! operation, the outcome of each document, and the tally of the batch.

use vstd::prelude::*;
use crate::batch::Batch;
use crate::error::LoadError;
use crate::tally::BulkTally;
use crate::tally::Counts;

verus! {

/// `serde_json::Value`, a JSON value.
#[verifier::external_type_specification]
#[verifier::external_body]
pub struct ExValue(serde_json::Value);

/// The member of a JSON value under a key: what `serde_json::Value::get`
/// returns for a string key.
pub uninterp spec fn json_member(value: serde_json::Value, key: Seq<char>) -> Option<
    serde_json::Value,
>;

/// The elements of a JSON value that is an array: what
/// `serde_json::Value::as_array` returns.
pub uninterp spec fn json_elements(value: serde_json::Value) -> Option<Seq<serde_json::Value>>;

/// Whether a JSON value is an object: what `serde_json::Value::is_object`
/// returns.
pub uninterp spec fn json_is_object(value: serde_json::Value) -> bool;

/// Calls `serde_json::Value::get` with a string key: the member that
/// `json_member` names, or `None` where it names none.
#[verifier::external_body]
fn member<'a>(value: &'a serde_json::Value, key: &str) -> (found: Option<&'a serde_json::Value>)
    ensures
        match found {
            Some(m) => json_member(*value, key@) == Some(*m),
            None => json_member(*value, key@) is None,
        },
{
    value.get(key)
}

/// Calls `serde_json::Value::as_array`: the elements that `json_elements`
/// names, or `None` where it names none.
#[verifier::external_body]
fn elements<'a>(value: &'a serde_json::Value) -> (found: Option<&'a Vec<serde_json::Value>>)
    ensures
        match found {
            Some(v) => json_elements(*value) == Some(v@),
            None => json_elements(*value) is None,
        },
{
    value.as_array()
}

/// Calls `serde_json::Value::is_object`.
#[verifier::external_body]
fn is_object(value: &serde_json::Value) -> (object: bool)
    ensures
        object == json_is_object(*value),
{
    value.is_object()
}

/// What one entry of a bulk response says of its create operation.
#[derive(Debug, Clone, Copy, PartialEq, Eq, Structural)]
pub enum ItemStatus {
    /// The document was created.
    Created,
    /// The store reports an error for the document.
    Failed,
    /// The entry is neither: it has no `create` object.
    Unrecognized,
}

/// The outcome of one written record, with the record's identifier.
#[derive(Debug, Clone, Copy, PartialEq, Eq, Structural)]
pub enum DocumentOutcome {
    Created { id: usize },
    Failed { id: usize },
}

impl DocumentOutcome {
    /// The identifier of the record.
    pub open spec fn id_spec(&self) -> nat {
        match self {
            DocumentOutcome::Created { id } => *id as nat,
            DocumentOutcome::Failed { id } => *id as nat,
        }
    }

    /// The identifier of the record.
    pub fn id(&self) -> (id: usize)
        ensures
            id == self.id_spec(),
    {
        match self {
            DocumentOutcome::Created { id } => *id,
            DocumentOutcome::Failed { id } => *id,
        }
    }

    /// Tells whether the record was created.
    pub fn is_created(&self) -> (created: bool)
        ensures
            created == (*self is Created),
    {
        match self {
            DocumentOutcome::Created { .. } => true,
            DocumentOutcome::Failed { .. } => false,
        }
    }
}

/// What a response entry says: the document failed where the entry's `create`
/// object has an `errors` member, and was created where it has none; an entry
/// without a `create` member, or whose `create` member is no object, is
/// unrecognized.
pub open spec fn entry_status(entry: serde_json::Value) -> ItemStatus {
    match json_member(entry, "create"@) {
        Some(create) => if !json_is_object(create) {
            ItemStatus::Unrecognized
        } else if json_member(create, "errors"@) is Some {
            ItemStatus::Failed
        } else {
            ItemStatus::Created
        },
        None => ItemStatus::Unrecognized,
    }
}

/// What the entries of a response say, in order; `None` where the response
/// has no `items` array.
pub open spec fn response_statuses(response: serde_json::Value) -> Option<Seq<ItemStatus>> {
    match json_member(response, "items"@) {
        Some(items) => match json_elements(items) {
            Some(entries) => Some(
                Seq::new(entries.len(), |i: int| entry_status(entries[i])),
            ),
            None => None,
        },
        None => None,
    }
}

/// Every entry is a creation or a failure.
pub open spec fn all_recognized(statuses: Seq<ItemStatus>) -> bool {
    forall|i: int| 0 <= i < statuses.len() ==> statuses[i] != ItemStatus::Unrecognized
}

/// The number of entries with the given status.
pub open spec fn count_of(statuses: Seq<ItemStatus>, status: ItemStatus) -> nat {
    statuses.to_multiset().count(status)
}

/// The counts of a batch whose entries are `statuses`.
pub open spec fn counts_of(statuses: Seq<ItemStatus>) -> Counts {
    Counts {
        total: statuses.len(),
        created: count_of(statuses, ItemStatus::Created),
        failed: count_of(statuses, ItemStatus::Failed),
    }
}

/// The tally that a response with these entries gives: its counts where it
/// has entries and all are recognized, else the error of a malformed
/// response.
pub open spec fn tally_of(statuses: Option<Seq<ItemStatus>>) -> Result<Counts, LoadError> {
    match statuses {
        Some(s) => if all_recognized(s) {
            Ok(counts_of(s))
        } else {
            Err(LoadError::MalformedResponse)
        },
        None => Err(LoadError::MalformedResponse),
    }
}

/// No entries, no count.
pub proof fn lemma_count_none(status: ItemStatus)
    ensures
        count_of(Seq::<ItemStatus>::empty(), status) == 0,
{
    broadcast use vstd::seq_lib::group_to_multiset_ensures;

    assert(Seq::<ItemStatus>::empty().to_multiset().len() == 0);
}

/// One more entry adds one to the count of its status and leaves the other
/// counts as they were.
pub proof fn lemma_count_push(statuses: Seq<ItemStatus>, last: ItemStatus, status: ItemStatus)
    ensures
        count_of(statuses.push(last), status) == count_of(statuses, status) + if last == status {
            1nat
        } else {
            0nat
        },
{
    broadcast use vstd::seq_lib::group_to_multiset_ensures;

}

/// Where every entry is recognized, each is counted once: as created or as
/// failed.
pub proof fn lemma_counts_consistent(statuses: Seq<ItemStatus>)
    requires
        all_recognized(statuses),
    ensures
        counts_of(statuses).is_consistent(),
    decreases statuses.len(),
{
    broadcast use vstd::seq_lib::group_to_multiset_ensures;

    if statuses.len() > 0 {
        let front = statuses.drop_last();
        lemma_counts_consistent(front);
        assert(front.push(statuses.last()) == statuses);
        lemma_count_push(front, statuses.last(), ItemStatus::Created);
        lemma_count_push(front, statuses.last(), ItemStatus::Failed);
    } else {
        assert(statuses.to_multiset().len() == 0);
    }
}

/// Reads what one response entry says of its operation.
pub fn classify(entry: &serde_json::Value) -> (status: ItemStatus)
    ensures
        status == entry_status(*entry),
{
    match member(entry, "create") {
        Some(create) => {
            if !is_object(create) {
                ItemStatus::Unrecognized
            } else if member(create, "errors").is_some() {
                ItemStatus::Failed
            } else {
                ItemStatus::Created
            }
        },
        None => ItemStatus::Unrecognized,
    }
}

/// Reads what the entries of a response say, in order; `None` where the
/// response has no `items` array.
pub fn read_statuses(response: &serde_json::Value) -> (statuses: Option<Vec<ItemStatus>>)
    ensures
        match statuses {
            Some(v) => response_statuses(*response) == Some(v@),
            None => response_statuses(*response) is None,
        },
{
    let items = match member(response, "items") {
        Some(items) => items,
        None => {
            return None;
        },
    };
    let entries = match elements(items) {
        Some(entries) => entries,
        None => {
            return None;
        },
    };
    let mut statuses: Vec<ItemStatus> = Vec::new();
    let mut i: usize = 0;
    while i < entries.len()
        invariant
            i <= entries.len(),
            statuses@.len() == i,
            forall|j: int| 0 <= j < i ==> statuses@[j] == entry_status(entries@[j]),
        decreases entries.len() - i,
    {
        statuses.push(classify(&entries[i]));
        i = i + 1;
    }
    assert(statuses@ =~= Seq::new(entries@.len(), |i: int| entry_status(entries@[i])));
    Some(statuses)
}

/// Whether a status is one of success: from 200 to 299.
pub open spec fn is_success(code: u16) -> bool {
    200 <= code <= 299
}

/// What an index call comes to. A call that was answered tallies its one
/// document: created where the status is one of success, failed where it is
/// not. A call that got no answer has no status, and wrote nothing that could
/// be counted: that is a failure of the connection, with `fault` as its text.
pub open spec fn index_answer(status: Option<u16>, fault: String) -> Result<BulkTally, LoadError> {
    match status {
        Some(code) => Ok(
            BulkTally {
                num_total: 1,
                num_created: if is_success(code) {
                    1
                } else {
                    0
                },
                num_failed: if is_success(code) {
                    0
                } else {
                    1
                },
            },
        ),
        None => Err(LoadError::Connection { message: fault }),
    }
}

impl BulkTally {
    /// What an index call comes to, where `status` is the status of its
    /// answer, if it got one, and `fault` the text of what went wrong, if it
    /// got none.
    pub fn of_index_answer(status: Option<u16>, fault: String) -> (outcome: Result<
        BulkTally,
        LoadError,
    >)
        ensures
            outcome == index_answer(status, fault),
            outcome matches Ok(tally) ==> tally.is_consistent(),
    {
        match status {
            Some(code) => {
                if 200 <= code && code <= 299 {
                    Ok(BulkTally { num_total: 1, num_created: 1, num_failed: 0 })
                } else {
                    Ok(BulkTally { num_total: 1, num_created: 0, num_failed: 1 })
                }
            },
            None => Err(LoadError::Connection { message: fault }),
        }
    }

    /// The tally of a batch whose response entries are `statuses`: one
    /// document for each entry, created or failed as the entry says. An
    /// unrecognized entry makes the response malformed.
    pub fn of_statuses(statuses: &[ItemStatus]) -> (tally: Result<BulkTally, LoadError>)
        ensures
            match tally {
                Ok(t) => tally_of(Some(statuses@)) == Ok::<Counts, LoadError>(t@),
                Err(e) => tally_of(Some(statuses@)) == Err::<Counts, LoadError>(e),
            },
            tally matches Ok(t) ==> t.is_consistent(),
    {
        let mut created: usize = 0;
        let mut failed: usize = 0;
        let mut i: usize = 0;
        proof {
            lemma_count_none(ItemStatus::Created);
            lemma_count_none(ItemStatus::Failed);
            assert(statuses@.take(0) == Seq::<ItemStatus>::empty());
        }
        while i < statuses.len()
            invariant
                i <= statuses@.len(),
                all_recognized(statuses@.take(i as int)),
                created == count_of(statuses@.take(i as int), ItemStatus::Created),
                failed == count_of(statuses@.take(i as int), ItemStatus::Failed),
                created + failed == i,
            decreases statuses@.len() - i,
        {
            proof {
                assert(statuses@.take(i + 1) == statuses@.take(i as int).push(statuses@[i as int]));
                lemma_count_push(statuses@.take(i as int), statuses@[i as int], ItemStatus::Created);
                lemma_count_push(statuses@.take(i as int), statuses@[i as int], ItemStatus::Failed);
            }
            match statuses[i] {
                ItemStatus::Created => {
                    created = created + 1;
                },
                ItemStatus::Failed => {
                    failed = failed + 1;
                },
                ItemStatus::Unrecognized => {
                    assert(statuses@[i as int] == ItemStatus::Unrecognized);
                    return Err(LoadError::MalformedResponse);
                },
            }
            i = i + 1;
        }
        assert(statuses@.take(i as int) == statuses@);
        Ok(BulkTally { num_total: i, num_created: created, num_failed: failed })
    }

    /// The tally of the batch whose bulk call was answered with `response`.
    ///
    /// Each entry of the response's `items` counts as one document. A
    /// response without an `items` array, or with an entry that is neither a
    /// creation nor a failure, is malformed.
    pub fn parse(response: &serde_json::Value) -> (tally: Result<BulkTally, LoadError>)
        ensures
            match tally {
                Ok(t) => tally_of(response_statuses(*response)) == Ok::<Counts, LoadError>(t@),
                Err(e) => tally_of(response_statuses(*response)) == Err::<Counts, LoadError>(e),
            },
            tally matches Ok(t) ==> t.is_consistent(),
    {
        match read_statuses(response) {
            Some(statuses) => BulkTally::of_statuses(statuses.as_slice()),
            None => Err(LoadError::MalformedResponse),
        }
    }
}

impl Batch {
    /// The outcomes of the batch's records where the entries of its response
    /// are `statuses`: the entry at each offset tells of the record at that
    /// offset.
    pub open spec fn outcomes_spec(&self, statuses: Seq<ItemStatus>) -> Seq<DocumentOutcome> {
        Seq::new(
            self.len as nat,
            |offset: int|
                if statuses[offset] == ItemStatus::Created {
                    DocumentOutcome::Created { id: self.id_at_spec(offset as nat) as usize }
                } else {
                    DocumentOutcome::Failed { id: self.id_at_spec(offset as nat) as usize }
                },
        )
    }

    /// Tells each record of the batch its outcome, by the offset of its
    /// operation in the request. A response that does not hold one recognized
    /// entry for each record is malformed.
    pub fn outcomes(&self, statuses: &[ItemStatus]) -> (outcomes: Result<
        Vec<DocumentOutcome>,
        LoadError,
    >)
        requires
            self.fits(),
        ensures
            outcomes is Ok <==> statuses@.len() == self.len && all_recognized(statuses@),
            outcomes matches Ok(v) ==> v@ == self.outcomes_spec(statuses@),
            outcomes matches Err(e) ==> e == LoadError::MalformedResponse,
    {
        if statuses.len() != self.len {
            return Err(LoadError::MalformedResponse);
        }
        let mut outcomes: Vec<DocumentOutcome> = Vec::new();
        let mut offset: usize = 0;
        while offset < self.len
            invariant
                offset <= self.len,
                statuses@.len() == self.len,
                self.fits(),
                outcomes@.len() == offset,
                all_recognized(statuses@.take(offset as int)),
                forall|j: int| 0 <= j < offset ==> outcomes@[j] == self.outcomes_spec(statuses@)[j],
            decreases self.len - offset,
        {
            let id = self.id_at(offset);
            match statuses[offset] {
                ItemStatus::Created => {
                    outcomes.push(DocumentOutcome::Created { id });
                },
                ItemStatus::Failed => {
                    outcomes.push(DocumentOutcome::Failed { id });
                },
                ItemStatus::Unrecognized => {
                    assert(statuses@[offset as int] == ItemStatus::Unrecognized);
                    return Err(LoadError::MalformedResponse);
                },
            }
            proof {
                let seen = statuses@.take(offset + 1);
                assert forall|j: int| 0 <= j < seen.len() implies seen[j]
                    != ItemStatus::Unrecognized by {
                    if j < offset {
                        assert(statuses@.take(offset as int)[j] != ItemStatus::Unrecognized);
                    }
                }
            }
            offset = offset + 1;
        }
        assert(statuses@.take(offset as int) == statuses@);
        assert(outcomes@ =~= self.outcomes_spec(statuses@));
        Ok(outcomes)
    }
}

} // verus!
