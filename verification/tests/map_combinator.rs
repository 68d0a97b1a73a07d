use lockstep_map::adapters::CountdownMapper;
use lockstep_map::adapters::HostValue;
use lockstep_map::adapters::SumMapper;
use lockstep_map::adapters::SumOverflow;
use lockstep_map::adapters::VecCursor;
use lockstep_map::combinator::map_new;
use lockstep_map::protocol::Cursor;
use lockstep_map::protocol::Invocable;
use lockstep_map::protocol::Iterable;
use lockstep_map::protocol::StepResult;
use lockstep_map::registry::init;
use lockstep_map::registry::Registry;
use lockstep_map::registry::SlotValue;
use lockstep_map::registry::MAP_DOC;

#[test]
fn pairwise_sum_scenario() {
    let sources: Vec<HostValue<u64>> =
        vec![HostValue::Elements(vec![1, 2, 3]), HostValue::Elements(vec![10, 20])];
    let mut m = map_new(SumMapper, sources).unwrap();
    assert_eq!(m.next(), StepResult::Produced(11));
    assert_eq!(m.next(), StepResult::Produced(22));
    // The second source is exhausted; the first source's value 3 is never
    // part of the combinator's output.
    assert_eq!(m.next(), StepResult::Ended);
}

#[test]
fn yields_exactly_shortest_source_count() {
    let sources: Vec<HostValue<u64>> = vec![
        HostValue::Elements(vec![1, 1, 1, 1]),
        HostValue::Elements(vec![2, 2]),
        HostValue::Elements(vec![3, 3, 3]),
    ];
    let mut m = map_new(SumMapper, sources).unwrap();
    let mut produced: usize = 0;
    loop {
        match m.next() {
            StepResult::Produced(_) => produced += 1,
            StepResult::Ended => break,
            StepResult::Failed(_) => panic!("no step may fail here"),
        }
    }
    assert_eq!(produced, 2);
}

#[test]
fn exhaustion_report_repeats() {
    let sources: Vec<HostValue<u64>> =
        vec![HostValue::Elements(vec![7]), HostValue::Elements(vec![])];
    let mut m = map_new(SumMapper, sources).unwrap();
    assert_eq!(m.next(), StepResult::Ended);
    assert_eq!(m.next(), StepResult::Ended);
    assert_eq!(m.next(), StepResult::Ended);
}

#[test]
fn zero_iterables_apply_mapper_with_empty_arguments() {
    let sources: Vec<HostValue<u64>> = vec![];
    let mut m = map_new(SumMapper, sources).unwrap();
    // The sum of an empty argument list is 0, on every step, forever.
    for _ in 0..5 {
        assert_eq!(m.next(), StepResult::Produced(0));
    }
}

#[test]
fn zero_iterables_end_only_when_the_mapper_ends() {
    let sources: Vec<HostValue<u64>> = vec![];
    let mut m = map_new(CountdownMapper { calls_left: 3 }, sources).unwrap();
    assert_eq!(m.next(), StepResult::Produced(3));
    assert_eq!(m.next(), StepResult::Produced(2));
    assert_eq!(m.next(), StepResult::Produced(1));
    assert_eq!(m.next(), StepResult::Ended);
    assert_eq!(m.next(), StepResult::Ended);
}

#[test]
fn construction_fails_at_first_non_iterable_position() {
    let sources: Vec<HostValue<u64>> = vec![
        HostValue::Elements(vec![1]),
        HostValue::Scalar,
        HostValue::Elements(vec![2]),
        HostValue::Scalar,
    ];
    let err = map_new(SumMapper, sources).unwrap_err();
    assert_eq!(err.position, 1);
}

#[test]
fn construction_fails_at_position_zero() {
    let sources: Vec<HostValue<u64>> = vec![HostValue::Scalar, HostValue::Elements(vec![1])];
    let err = map_new(SumMapper, sources).unwrap_err();
    assert_eq!(err.position, 0);
}

#[test]
fn mapper_exhaustion_ends_the_combinator_early() {
    let sources: Vec<HostValue<u64>> = vec![
        HostValue::Elements(vec![1, 2, 3, 4, 5]),
        HostValue::Elements(vec![10, 20, 30, 40, 50]),
    ];
    let mut m = map_new(CountdownMapper { calls_left: 2 }, sources).unwrap();
    assert_eq!(m.next(), StepResult::Produced(2));
    assert_eq!(m.next(), StepResult::Produced(1));
    // The sources still hold values, yet the mapper ends the sequence.
    assert_eq!(m.next(), StepResult::Ended);
}

#[test]
fn mapper_failure_propagates_unchanged() {
    let sources: Vec<HostValue<u64>> =
        vec![HostValue::Elements(vec![u64::MAX, 1]), HostValue::Elements(vec![1, 2])];
    let mut m = map_new(SumMapper, sources).unwrap();
    assert_eq!(m.next(), StepResult::Failed(SumOverflow));
    // The failure does not end the combinator by itself.
    assert_eq!(m.next(), StepResult::Produced(3));
}

#[test]
fn self_iterator_keeps_progress() {
    let sources: Vec<HostValue<u64>> =
        vec![HostValue::Elements(vec![5, 6]), HostValue::Elements(vec![10, 10])];
    let mut m = map_new(SumMapper, sources).unwrap();
    assert_eq!(m.next(), StepResult::Produced(15));
    let mut handle = m.iter();
    // The handle is the combinator itself: progress is kept, nothing resets.
    assert_eq!(handle.next(), StepResult::Produced(16));
    let mut again = handle.iter().iter();
    assert_eq!(again.next(), StepResult::Ended);
}

#[test]
fn sum_mapper_sums_its_argument_list() {
    let mut mapper = SumMapper;
    assert_eq!(mapper.call(vec![4, 7, 9]), StepResult::Produced(20));
    assert_eq!(mapper.call(vec![]), StepResult::Produced(0));
    assert_eq!(mapper.call(vec![u64::MAX, 1]), StepResult::Failed(SumOverflow));
}

#[test]
fn vec_cursor_yields_front_to_back_then_stays_exhausted() {
    let mut cursor = VecCursor::new(vec![1u64, 2]);
    assert_eq!(cursor.advance(), Some(1));
    assert_eq!(cursor.advance(), Some(2));
    assert_eq!(cursor.advance(), None);
    assert_eq!(cursor.advance(), None);
}

#[test]
fn host_value_adapts_to_a_cursor_or_refuses() {
    let value: HostValue<u64> = HostValue::Elements(vec![9, 8]);
    let mut cursor = value.get_iterator().unwrap();
    assert_eq!(cursor.advance(), Some(9));
    let scalar: HostValue<u64> = HostValue::Scalar;
    assert!(scalar.get_iterator().is_err());
}

#[test]
fn init_registers_the_three_entry_points_and_the_doc() {
    let mut registry = Registry::new();
    init(&mut registry);
    assert_eq!(registry.slots.len(), 4);
    assert_eq!(registry.slots[0].name, "__new__");
    assert_eq!(registry.slots[0].value, SlotValue::Construct);
    assert_eq!(registry.slots[1].name, "__next__");
    assert_eq!(registry.slots[1].value, SlotValue::Step);
    assert_eq!(registry.slots[2].name, "__iter__");
    assert_eq!(registry.slots[2].value, SlotValue::SelfIterator);
    assert_eq!(registry.slots[3].name, "__doc__");
    assert_eq!(registry.slots[3].value, SlotValue::Doc(MAP_DOC));
    assert!(MAP_DOC.contains("Stops when the shortest iterable is exhausted."));
}

#[test]
fn init_leaves_earlier_slots_untouched() {
    let mut registry = Registry::new();
    init(&mut registry);
    init(&mut registry);
    assert_eq!(registry.slots.len(), 8);
    assert_eq!(registry.slots[0].name, "__new__");
    assert_eq!(registry.slots[4].name, "__new__");
}
