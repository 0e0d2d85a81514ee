//! Building the request of a bulk call: one create operation per record,
//! each tagged with the record's identifier.

use vstd::prelude::*;
use vstd::string::*;
use crate::batch::assigned_id;
use crate::batch::id_of;
use crate::error::LoadError;

verus! {

/// `elasticsearch::BulkOperations`, the body of a bulk call: the operations
/// pushed into it, written out one after the other.
#[verifier::external_type_specification]
#[verifier::external_body]
pub struct ExBulkOperations(elasticsearch::BulkOperations);

/// `elasticsearch::Error`, the error of the client library.
#[verifier::external_type_specification]
#[verifier::external_body]
pub struct ExClientError(elasticsearch::Error);

/// The decimal digit `d` as a character.
pub open spec fn digit(d: nat) -> char {
    if d == 0 {
        '0'
    } else if d == 1 {
        '1'
    } else if d == 2 {
        '2'
    } else if d == 3 {
        '3'
    } else if d == 4 {
        '4'
    } else if d == 5 {
        '5'
    } else if d == 6 {
        '6'
    } else if d == 7 {
        '7'
    } else if d == 8 {
        '8'
    } else {
        '9'
    }
}

/// The decimal numeral of `n`: most significant digit first, no leading
/// zero but for zero itself.
pub open spec fn decimal(n: nat) -> Seq<char>
    decreases n,
{
    if n < 10 {
        seq![digit(n)]
    } else {
        decimal(n / 10).push(digit(n % 10))
    }
}

/// The one-character text of a decimal digit.
fn digit_text(d: usize) -> (text: &'static str)
    requires
        d < 10,
    ensures
        text@ == seq![digit(d as nat)],
{
    proof {
        reveal_strlit("0");
        reveal_strlit("1");
        reveal_strlit("2");
        reveal_strlit("3");
        reveal_strlit("4");
        reveal_strlit("5");
        reveal_strlit("6");
        reveal_strlit("7");
        reveal_strlit("8");
        reveal_strlit("9");
    }
    let text = if d == 0 {
        "0"
    } else if d == 1 {
        "1"
    } else if d == 2 {
        "2"
    } else if d == 3 {
        "3"
    } else if d == 4 {
        "4"
    } else if d == 5 {
        "5"
    } else if d == 6 {
        "6"
    } else if d == 7 {
        "7"
    } else if d == 8 {
        "8"
    } else {
        "9"
    };
    assert(text@ =~= seq![digit(d as nat)]);
    text
}

/// The text under which the document with identifier `id` is written: its
/// decimal numeral.
pub fn id_text(id: usize) -> (text: String)
    ensures
        text@ == decimal(id as nat),
{
    let mut rest = id / 10;
    let mut text = String::from_str(digit_text(id % 10));
    assert(decimal(id as nat) =~= if rest > 0 {
        decimal(rest as nat) + text@
    } else {
        text@
    });
    while rest > 0
        invariant
            decimal(id as nat) == if rest > 0 {
                decimal(rest as nat) + text@
            } else {
                text@
            },
        decreases rest,
    {
        let head = String::from_str(digit_text(rest % 10));
        text = head.concat(text.as_str());
        assert(decimal(id as nat) =~= if rest / 10 > 0 {
            decimal((rest / 10) as nat) + text@
        } else {
            text@
        });
        rest = rest / 10;
    }
    text
}

/// The create operations that a collection holds, in the order in which they
/// were pushed: each the text of its identifier and its source document.
pub uninterp spec fn operations_of(ops: elasticsearch::BulkOperations) -> Seq<(Seq<char>, serde_json::Value)>;

/// Calls `elasticsearch::BulkOperations::new`: the collection made holds no
/// operation.
#[verifier::external_body]
fn new_operations() -> (ops: elasticsearch::BulkOperations)
    ensures
        operations_of(ops) == Seq::<(Seq<char>, serde_json::Value)>::empty(),
{
    elasticsearch::BulkOperations::new()
}

/// Whether the create operation of a document under an identifier can be
/// written into a request body: whether `elasticsearch::BulkOperations::push`
/// of that operation succeeds.
pub uninterp spec fn create_is_written(id: Seq<char>, source: serde_json::Value) -> bool;

/// Calls `elasticsearch::BulkOperations::push` with the create operation
/// that `elasticsearch::BulkOperation::create` makes of `id` and `source`.
/// Whether the push succeeds lies with the operation alone, which is written
/// out into a buffer that grows. Where it succeeds, the collection holds what
/// it held, then this operation. Nothing is claimed of a collection on which
/// it failed.
#[verifier::external_body]
fn push_create(
    ops: &mut elasticsearch::BulkOperations,
    id: String,
    source: &serde_json::Value,
) -> (pushed: Result<(), elasticsearch::Error>)
    ensures
        pushed is Ok <==> create_is_written(id@, *source),
        pushed is Ok ==> operations_of(*final(ops)) == operations_of(*old(ops)).push(
            (id@, *source),
        ),
{
    ops.push(elasticsearch::BulkOperation::create(id, source))
}

/// Calls `to_string` on an `elasticsearch::Error`: the text that describes
/// it. Nothing is claimed of the text.
#[verifier::external_body]
fn error_text(error: &elasticsearch::Error) -> (text: String) {
    error.to_string()
}

/// The create operations of a run of records: the record at offset `i` of
/// `documents` is tagged with the identifier of position `first + i`.
pub open spec fn create_operations(documents: Seq<serde_json::Value>, first: nat) -> Seq<
    (Seq<char>, serde_json::Value),
> {
    Seq::new(documents.len(), |i: int| (decimal(id_of((first + i) as nat)), documents[i]))
}

/// Every create operation of a run of records can be written.
pub open spec fn all_written(documents: Seq<serde_json::Value>, first: nat) -> bool {
    forall|i: int|
        0 <= i < documents.len() ==> create_is_written(
            decimal(id_of((first + i) as nat)),
            #[trigger] documents[i],
        )
}

/// What a push into the request body comes to: nothing where the client
/// library took the operation, an error of the request where it did not.
pub fn pushed_or_error(pushed: Result<(), elasticsearch::Error>) -> (outcome: Result<(), LoadError>)
    ensures
        outcome is Ok <==> pushed is Ok,
        outcome matches Err(error) ==> error is Request,
{
    match pushed {
        Ok(()) => Ok(()),
        Err(error) => Err(LoadError::Request { message: error_text(&error) }),
    }
}

/// Builds the request body of one bulk call: a create operation for each of
/// `documents`, in order, where `first` is the position of the first of them
/// in the source sequence.
///
/// The body is built where every operation can be written into it, and the
/// error is `LoadError::Request` where one cannot.
pub fn bulk_operations(documents: &[serde_json::Value], first: usize) -> (built: Result<
    elasticsearch::BulkOperations,
    LoadError,
>)
    requires
        first + documents@.len() <= usize::MAX,
    ensures
        built is Ok <==> all_written(documents@, first as nat),
        built matches Ok(ops) ==> operations_of(ops) == create_operations(documents@, first as nat),
        built matches Err(error) ==> error is Request,
{
    let mut ops = new_operations();
    let mut i: usize = 0;
    while i < documents.len()
        invariant
            i <= documents@.len(),
            first + documents@.len() <= usize::MAX,
            operations_of(ops) == create_operations(documents@.take(i as int), first as nat),
            forall|j: int|
                0 <= j < i ==> create_is_written(
                    decimal(id_of((first + j) as nat)),
                    #[trigger] documents@[j],
                ),
        decreases documents@.len() - i,
    {
        let id = assigned_id(first + i);
        match pushed_or_error(push_create(&mut ops, id_text(id), &documents[i])) {
            Ok(()) => {},
            Err(error) => {
                assert(!create_is_written(
                    decimal(id_of((first + i) as nat)),
                    documents@[i as int],
                ));
                return Err(error);
            },
        }
        assert(create_operations(documents@.take(i + 1), first as nat) =~= create_operations(
            documents@.take(i as int),
            first as nat,
        ).push((decimal(id as nat), documents@[i as int])));
        i = i + 1;
    }
    assert(documents@.take(i as int) == documents@);
    Ok(ops)
}

} // verus!
