use apiserver::snowflake::Snowflake;

#[test]
fn construction_checks_machine_id_range() {
    assert!(Snowflake::new(0).is_ok());
    assert!(Snowflake::new(1023).is_ok());
    let err = Snowflake::new(1024).unwrap_err();
    assert_eq!(err, "Machine id should be between 0 and 1024");
    assert!(Snowflake::new(u64::MAX).is_err());
}

#[test]
fn id_composition_exact_value() {
    let mut sf = Snowflake::new(5).unwrap();
    let id = sf.next_id(100);
    assert_eq!(id, (100u64 << 23) | (5u64 << 13) | 0);
    let id2 = sf.next_id(100);
    assert_eq!(id2, (100u64 << 23) | (5u64 << 13) | 1);
    assert_eq!(sf.counter, 2);
}

#[test]
fn ids_within_one_second_are_distinct_and_ordered() {
    let mut sf = Snowflake::new(3).unwrap();
    let seconds = 1_700_000_000u64;
    let mut ids = Vec::new();
    for i in 0..8192u64 {
        let id = sf.next_id(seconds);
        assert_eq!(id & 0x1fff, i, "low 13 bits follow call order");
        ids.push(id);
    }
    let mut sorted = ids.clone();
    sorted.sort_unstable();
    sorted.dedup();
    assert_eq!(sorted.len(), 8192, "all 8192 ids of one second are distinct");
}

#[test]
fn counter_wraps_after_span_and_collides() {
    let mut sf = Snowflake::new(3).unwrap();
    let seconds = 1_700_000_000u64;
    let first = sf.next_id(seconds);
    for _ in 0..8191u64 {
        sf.next_id(seconds);
    }
    assert_eq!(sf.counter, 0, "counter wrapped back to its start");
    let again = sf.next_id(seconds);
    assert_eq!(first, again, "the wraparound repeats an identifier instead of failing");
}

#[test]
fn generate_id_reads_the_clock() {
    let mut sf = Snowflake::new(42).unwrap();
    let id = sf.generate_id().expect("the system clock is past the epoch");
    assert_eq!(id & 0x1fff, 0);
    assert_eq!((id >> 13) & 0x3ff, 42);
    assert_eq!(sf.counter, 1);
    let id2 = sf.generate_id().unwrap();
    assert_eq!(id2 & 0x1fff, 1);
    assert!(id2 > id, "within one machine, later ids in the same or later second are larger");
}
