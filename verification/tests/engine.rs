use elastic_loader::batch::Batch;
use elastic_loader::engine::Action;
use elastic_loader::engine::LoadEngine;
use elastic_loader::engine::Phase;
use elastic_loader::error::LoadError;
use elastic_loader::tally::BulkTally;
use elastic_loader::tally::ElasticLoadResults;

fn all_created(batch: Batch) -> Result<BulkTally, LoadError> {
    Ok(BulkTally { num_total: batch.len, num_created: batch.len, num_failed: 0 })
}

fn transport_error(text: &str) -> LoadError {
    LoadError::Connection { message: text.to_string() }
}

/// Drives a run to its end. `pick` chooses which call in flight resolves
/// next, and `answer` what it resolves to. Returns the batches in dispatch
/// order, the most calls seen in flight at once, and the outcome.
fn drive(
    records: usize,
    batch_size: usize,
    throttle: usize,
    pick: fn(usize, usize) -> usize,
    answer: fn(Batch) -> Result<BulkTally, LoadError>,
) -> (Vec<Batch>, usize, Option<Result<ElasticLoadResults, LoadError>>) {
    let mut engine = LoadEngine::new(batch_size, throttle);
    assert!(engine.load(records));
    let mut flying: Vec<Batch> = Vec::new();
    let mut dispatched: Vec<Batch> = Vec::new();
    let mut most = 0;
    let mut turn = 0;
    loop {
        match engine.step() {
            Action::Proceed => {}
            Action::Dispatch(batch) => {
                flying.push(batch);
                dispatched.push(batch);
                assert_eq!(engine.in_flight(), flying.len());
                assert!(engine.in_flight() <= throttle);
                most = most.max(flying.len());
            }
            Action::Await => {
                assert!(!flying.is_empty());
                let batch = flying.remove(pick(turn, flying.len()));
                turn += 1;
                assert!(engine.resolve(batch, answer(batch)));
            }
            Action::Finish => break,
            Action::Idle => panic!("a loaded engine is not idle"),
        }
    }
    assert!(flying.is_empty());
    (dispatched, most, engine.finish())
}

fn oldest(_turn: usize, _flying: usize) -> usize {
    0
}

fn newest(_turn: usize, flying: usize) -> usize {
    flying - 1
}

fn scattered(turn: usize, flying: usize) -> usize {
    (turn * 7 + 3) % flying
}

#[test]
fn new_engine_is_idle() {
    let mut engine = LoadEngine::new(10000, 5);
    assert_eq!(engine.phase(), Phase::Idle);
    assert_eq!(engine.throttle(), 5);
    assert_eq!(engine.in_flight(), 0);
    assert_eq!(engine.step(), Action::Idle);
    assert_eq!(engine.phase(), Phase::Idle);
    assert_eq!(engine.finish(), None);
}

#[test]
fn load_starts_batching_once() {
    let mut engine = LoadEngine::new(10, 1);
    assert!(engine.load(25));
    assert_eq!(engine.phase(), Phase::Batching);
    assert_eq!(engine.records(), 25);
    assert!(!engine.load(7));
    assert_eq!(engine.records(), 25);
    assert_eq!(engine.phase(), Phase::Batching);
}

#[test]
fn run_walks_through_every_phase() {
    let mut engine = LoadEngine::new(2, 1);
    engine.load(3);
    assert_eq!(engine.step(), Action::Proceed);
    assert_eq!(engine.phase(), Phase::Dispatching);
    let first = Batch { first: 0, len: 2 };
    assert_eq!(engine.step(), Action::Dispatch(first));
    assert_eq!(engine.step(), Action::Await);
    assert_eq!(engine.phase(), Phase::Dispatching);
    assert!(engine.resolve(first, all_created(first)));
    let second = Batch { first: 2, len: 1 };
    assert_eq!(engine.step(), Action::Dispatch(second));
    assert_eq!(engine.step(), Action::Proceed);
    assert_eq!(engine.phase(), Phase::Awaiting);
    assert_eq!(engine.step(), Action::Await);
    assert!(engine.resolve(second, Ok(BulkTally { num_total: 1, num_created: 0, num_failed: 1 })));
    assert_eq!(engine.step(), Action::Proceed);
    assert_eq!(engine.phase(), Phase::Reducing);
    assert_eq!(engine.step(), Action::Proceed);
    assert_eq!(engine.phase(), Phase::Done);
    assert_eq!(engine.step(), Action::Finish);
    assert_eq!(engine.step(), Action::Finish);
    assert_eq!(
        engine.finish(),
        Some(Ok(ElasticLoadResults { num_total: 3, num_created: 2, num_failed: 1 }))
    );
}

#[test]
fn twenty_five_thousand_records_one_at_a_time() {
    let (dispatched, most, outcome) = drive(25000, 10000, 1, oldest, all_created);
    assert_eq!(
        dispatched,
        vec![
            Batch { first: 0, len: 10000 },
            Batch { first: 10000, len: 10000 },
            Batch { first: 20000, len: 5000 },
        ]
    );
    assert_eq!(dispatched[0].start_id(), 1);
    assert_eq!(dispatched[2].id_at(4999), 25000);
    assert_eq!(most, 1);
    assert_eq!(
        outcome,
        Some(Ok(ElasticLoadResults { num_total: 25000, num_created: 25000, num_failed: 0 }))
    );
}

#[test]
fn empty_input_dispatches_nothing() {
    let mut engine = LoadEngine::new(10000, 1);
    engine.load(0);
    let mut steps = 0;
    loop {
        match engine.step() {
            Action::Proceed => steps += 1,
            Action::Finish => break,
            other => panic!("unexpected action {:?}", other),
        }
    }
    assert_eq!(steps, 4);
    assert_eq!(engine.finish(), Some(Ok(ElasticLoadResults::new())));
}

#[test]
fn throttle_bounds_calls_in_flight() {
    for throttle in [1usize, 5, 10] {
        for pick in [oldest as fn(usize, usize) -> usize, newest, scattered] {
            let (dispatched, most, outcome) = drive(1000, 7, throttle, pick, all_created);
            assert_eq!(dispatched.len(), 143);
            assert_eq!(most, throttle);
            assert_eq!(
                outcome,
                Some(Ok(ElasticLoadResults { num_total: 1000, num_created: 1000, num_failed: 0 }))
            );
        }
    }
}

#[test]
fn completion_order_does_not_change_results() {
    fn mixed(batch: Batch) -> Result<BulkTally, LoadError> {
        let failed = batch.first % 3;
        let failed = if failed > batch.len { batch.len } else { failed };
        Ok(BulkTally { num_total: batch.len, num_created: batch.len - failed, num_failed: failed })
    }
    let (_, _, expected) = drive(100, 7, 4, oldest, mixed);
    let results = expected.clone().unwrap().unwrap();
    assert_eq!(results.num_total, 100);
    assert_eq!(results.num_total, results.num_created + results.num_failed);
    assert_eq!(drive(100, 7, 4, newest, mixed).2, expected);
    assert_eq!(drive(100, 7, 4, scattered, mixed).2, expected);
}

#[test]
fn transport_error_on_second_batch_fails_the_run() {
    let mut engine = LoadEngine::new(10, 3);
    engine.load(30);
    let mut flying = Vec::new();
    loop {
        match engine.step() {
            Action::Dispatch(batch) => flying.push(batch),
            Action::Proceed => {}
            Action::Await => break,
            other => panic!("unexpected action {:?}", other),
        }
    }
    assert_eq!(flying.len(), 3);
    assert!(engine.resolve(flying[0], all_created(flying[0])));
    assert!(engine.resolve(flying[1], Err(transport_error("connection refused"))));
    assert_eq!(engine.phase(), Phase::Failed);
    assert_eq!(engine.in_flight(), 1);
    assert_eq!(engine.step(), Action::Await);
    assert!(engine.resolve(flying[2], all_created(flying[2])));
    assert_eq!(engine.in_flight(), 0);
    assert_eq!(engine.step(), Action::Finish);
    assert_eq!(engine.finish(), Some(Err(transport_error("connection refused"))));
}

#[test]
fn failed_run_waits_for_calls_in_flight() {
    let mut engine = LoadEngine::new(1, 2);
    engine.load(2);
    engine.step();
    let first = Batch { first: 0, len: 1 };
    let second = Batch { first: 1, len: 1 };
    assert_eq!(engine.step(), Action::Dispatch(first));
    assert_eq!(engine.step(), Action::Dispatch(second));
    engine.resolve(first, Err(transport_error("reset")));
    assert_eq!(engine.in_flight(), 1);
    assert_eq!(engine.step(), Action::Await);
    let mut waiting = LoadEngine::new(1, 2);
    waiting.load(2);
    waiting.step();
    waiting.step();
    waiting.step();
    waiting.resolve(first, Err(transport_error("reset")));
    assert_eq!(waiting.finish(), None);
}

#[test]
fn failed_run_dispatches_no_further_batch() {
    let mut engine = LoadEngine::new(1, 1);
    engine.load(5);
    engine.step();
    let first = Batch { first: 0, len: 1 };
    assert_eq!(engine.step(), Action::Dispatch(first));
    engine.resolve(first, Err(transport_error("down")));
    assert_eq!(engine.step(), Action::Finish);
    assert_eq!(engine.phase(), Phase::Failed);
    assert_eq!(engine.finish(), Some(Err(transport_error("down"))));
}

#[test]
fn first_error_is_the_one_returned() {
    let mut engine = LoadEngine::new(1, 2);
    engine.load(2);
    engine.step();
    let first = Batch { first: 0, len: 1 };
    let second = Batch { first: 1, len: 1 };
    engine.step();
    engine.step();
    engine.resolve(second, Err(transport_error("first to fail")));
    engine.resolve(first, Err(transport_error("second to fail")));
    assert_eq!(engine.finish(), Some(Err(transport_error("first to fail"))));
}

#[test]
fn malformed_response_fails_the_run() {
    let mut engine = LoadEngine::new(2, 1);
    engine.load(2);
    engine.step();
    let batch = Batch { first: 0, len: 2 };
    assert_eq!(engine.step(), Action::Dispatch(batch));
    assert!(engine.resolve(batch, Err(LoadError::MalformedResponse)));
    assert_eq!(engine.finish(), Some(Err(LoadError::MalformedResponse)));
}

#[test]
fn tally_that_skips_records_is_a_malformed_response() {
    let batch = Batch { first: 0, len: 2 };
    let bad = [
        BulkTally { num_total: 1, num_created: 1, num_failed: 0 },
        BulkTally { num_total: 3, num_created: 3, num_failed: 0 },
        BulkTally { num_total: 2, num_created: 1, num_failed: 0 },
        BulkTally { num_total: 2, num_created: 3, num_failed: 0 },
    ];
    for tally in bad {
        let mut engine = LoadEngine::new(2, 1);
        engine.load(2);
        engine.step();
        engine.step();
        assert!(engine.resolve(batch, Ok(tally)));
        assert_eq!(engine.phase(), Phase::Failed);
        assert_eq!(engine.finish(), Some(Err(LoadError::MalformedResponse)));
    }
}

#[test]
fn unknown_batch_changes_nothing() {
    let mut engine = LoadEngine::new(2, 2);
    engine.load(4);
    engine.step();
    let first = Batch { first: 0, len: 2 };
    assert_eq!(engine.step(), Action::Dispatch(first));
    let stranger = Batch { first: 1, len: 2 };
    assert!(!engine.resolve(stranger, Err(transport_error("stray"))));
    assert_eq!(engine.phase(), Phase::Dispatching);
    assert_eq!(engine.in_flight(), 1);
    assert!(engine.resolve(first, all_created(first)));
    assert!(!engine.resolve(first, all_created(first)));
    assert_eq!(engine.in_flight(), 0);
}

#[test]
fn load_error_describes_itself() {
    assert_eq!(transport_error("no route").message(), "no route");
    assert_eq!(LoadError::MalformedResponse.message(), "found response besides create and errors");
    assert_eq!(LoadError::Request { message: "bad body".to_string() }.message(), "bad body");
    let error = transport_error("again");
    assert_eq!(error.duplicate(), error);
    assert_eq!(LoadError::MalformedResponse.duplicate(), LoadError::MalformedResponse);
}

#[test]
fn client_fault_becomes_a_fatal_error() {
    assert_eq!(
        LoadError::of_client_fault(true, "expected value at line 1".to_string()),
        LoadError::MalformedResponse
    );
    assert_eq!(
        LoadError::of_client_fault(false, "connection reset".to_string()),
        transport_error("connection reset")
    );
}

#[test]
fn single_write_without_an_answer_fails_the_run() {
    let mut engine = LoadEngine::new(1, 3);
    engine.load(3);
    let mut flying = Vec::new();
    loop {
        match engine.step() {
            Action::Dispatch(batch) => flying.push(batch),
            Action::Proceed => {}
            Action::Await => break,
            other => panic!("unexpected action {:?}", other),
        }
    }
    assert_eq!(flying.len(), 3);
    let answers = [
        BulkTally::of_index_answer(Some(201), String::new()),
        BulkTally::of_index_answer(None, "target unreachable".to_string()),
        BulkTally::of_index_answer(Some(201), String::new()),
    ];
    for (batch, answer) in flying.iter().zip(answers) {
        assert!(engine.resolve(*batch, answer));
    }
    assert_eq!(engine.phase(), Phase::Failed);
    assert_eq!(engine.step(), Action::Finish);
    assert_eq!(engine.finish(), Some(Err(transport_error("target unreachable"))));
}

#[test]
fn single_write_that_the_store_refuses_is_counted_as_failed() {
    let mut engine = LoadEngine::new(1, 1);
    engine.load(2);
    engine.step();
    for status in [201u16, 409] {
        let batch = match engine.step() {
            Action::Dispatch(batch) => batch,
            other => panic!("unexpected action {:?}", other),
        };
        assert!(engine.resolve(batch, BulkTally::of_index_answer(Some(status), String::new())));
    }
    while engine.step() != Action::Finish {}
    assert_eq!(
        engine.finish(),
        Some(Ok(ElasticLoadResults { num_total: 2, num_created: 1, num_failed: 1 }))
    );
}

#[test]
fn completion_order_does_not_change_whether_the_run_fails() {
    fn one_fails(batch: Batch) -> Result<BulkTally, LoadError> {
        if batch.first == 14 {
            Err(LoadError::Connection { message: "unreachable".to_string() })
        } else {
            Ok(BulkTally { num_total: batch.len, num_created: batch.len, num_failed: 0 })
        }
    }
    for throttle in [1usize, 4, 10] {
        for pick in [oldest as fn(usize, usize) -> usize, newest, scattered] {
            let (_, _, outcome) = drive(50, 7, throttle, pick, one_fails);
            assert_eq!(
                outcome,
                Some(Err(LoadError::Connection { message: "unreachable".to_string() }))
            );
        }
    }
}
