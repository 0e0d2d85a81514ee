use elastic_loader::batch::assigned_id;
use elastic_loader::batch::batches;
use elastic_loader::batch::Batch;
use elastic_loader::batch::Batcher;

#[test]
fn identifier_is_position_plus_one() {
    assert_eq!(assigned_id(0), 1);
    assert_eq!(assigned_id(1), 2);
    assert_eq!(assigned_id(24999), 25000);
    assert_eq!(assigned_id(usize::MAX - 1), usize::MAX);
}

#[test]
fn identifiers_are_unique_and_exhaustive() {
    let total = 1000;
    let mut seen = vec![false; total + 1];
    for position in 0..total {
        let id = assigned_id(position);
        assert!(1 <= id && id <= total);
        assert!(!seen[id]);
        seen[id] = true;
    }
    assert!(seen[1..].iter().all(|s| *s));
}

#[test]
fn twenty_five_thousand_records_make_three_batches() {
    let plan = batches(25000, 10000);
    assert_eq!(
        plan,
        vec![
            Batch { first: 0, len: 10000 },
            Batch { first: 10000, len: 10000 },
            Batch { first: 20000, len: 5000 },
        ]
    );
    assert_eq!(plan[0].start_id(), 1);
    assert_eq!(plan[1].start_id(), 10001);
    assert_eq!(plan[2].start_id(), 20001);
    assert_eq!(plan[2].id_at(4999), 25000);
}

#[test]
fn empty_input_makes_no_batch() {
    assert_eq!(batches(0, 10000), Vec::new());
    assert_eq!(batches(0, 1), Vec::new());
}

#[test]
fn exact_multiple_has_no_short_batch() {
    assert_eq!(batches(6, 3), vec![Batch { first: 0, len: 3 }, Batch { first: 3, len: 3 }]);
}

#[test]
fn fewer_records_than_a_batch_make_one_batch() {
    assert_eq!(batches(3, 10), vec![Batch { first: 0, len: 3 }]);
}

#[test]
fn batch_size_one_makes_one_batch_a_record() {
    let plan = batches(4, 1);
    assert_eq!(plan.len(), 4);
    for (index, batch) in plan.iter().enumerate() {
        assert_eq!(*batch, Batch { first: index, len: 1 });
    }
}

#[test]
fn batch_count_is_the_rounded_up_quotient() {
    for total in 0..60usize {
        for size in 1..12usize {
            let plan = batches(total, size);
            assert_eq!(plan.len(), (total + size - 1) / size);
        }
    }
}

#[test]
fn batches_cover_every_record_once_in_order() {
    for total in 0..60usize {
        for size in 1..12usize {
            let plan = batches(total, size);
            let mut next = 0;
            for (index, batch) in plan.iter().enumerate() {
                assert_eq!(batch.first, next);
                assert!(1 <= batch.len && batch.len <= size);
                if index + 1 < plan.len() {
                    assert_eq!(batch.len, size);
                }
                next += batch.len;
            }
            assert_eq!(next, total);
        }
    }
}

#[test]
fn huge_batch_size_does_not_overflow() {
    assert_eq!(batches(5, usize::MAX), vec![Batch { first: 0, len: 5 }]);
    assert_eq!(
        batches(usize::MAX, usize::MAX - 1),
        vec![Batch { first: 0, len: usize::MAX - 1 }, Batch { first: usize::MAX - 1, len: 1 }]
    );
}

#[test]
fn batcher_yields_lazily() {
    let mut batcher = Batcher::new(5, 2);
    assert_eq!(batcher.records(), 5);
    assert_eq!(batcher.size(), 2);
    assert!(!batcher.is_done());
    assert_eq!(batcher.next_position(), 0);
    assert_eq!(batcher.next_batch(), Some(Batch { first: 0, len: 2 }));
    assert_eq!(batcher.next_position(), 2);
    assert_eq!(batcher.next_batch(), Some(Batch { first: 2, len: 2 }));
    assert_eq!(batcher.next_batch(), Some(Batch { first: 4, len: 1 }));
    assert!(batcher.is_done());
    assert_eq!(batcher.next_position(), 5);
    assert_eq!(batcher.next_batch(), None);
    assert_eq!(batcher.next_batch(), None);
}

#[test]
fn batch_hands_out_its_records() {
    let items: Vec<u32> = (0..10).collect();
    let batch = Batch { first: 4, len: 3 };
    assert_eq!(batch.records(&items), &[4, 5, 6]);
    let none = Batch { first: 10, len: 0 };
    assert!(none.records(&items).is_empty());
}

#[test]
fn batch_identifiers_follow_the_start_identifier() {
    let batch = Batch { first: 20000, len: 5000 };
    assert_eq!(batch.start_id(), 20001);
    assert_eq!(batch.id_at(0), 20001);
    assert_eq!(batch.id_at(1), 20002);
    assert_eq!(batch.id_at(4999), 25000);
}

#[test]
fn end_within_tells_whether_the_batch_lies_within_the_records() {
    assert_eq!(Batch { first: 4, len: 3 }.end_within(7), Some(7));
    assert_eq!(Batch { first: 4, len: 3 }.end_within(10), Some(7));
    assert_eq!(Batch { first: 4, len: 3 }.end_within(6), None);
    assert_eq!(Batch { first: 0, len: 0 }.end_within(0), Some(0));
    assert_eq!(Batch { first: usize::MAX, len: 1 }.end_within(usize::MAX), None);
    assert_eq!(Batch { first: usize::MAX - 1, len: 1 }.end_within(usize::MAX), None);
    assert_eq!(
        Batch { first: usize::MAX - 2, len: 1 }.end_within(usize::MAX),
        Some(usize::MAX - 1)
    );
}
