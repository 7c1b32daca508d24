use scull::store::{ByteStore, StoreError, DEFAULT_QUANTUM_SIZE, DEFAULT_TABLE_CAPACITY};

#[test]
fn fresh_store_is_empty() {
    let store = ByteStore::new(4000, 1000);
    assert_eq!(store.logical_length(), 0);
    assert_eq!(store.table_count(), 0);
    assert_eq!(store.quantum_size(), 4000);
    assert_eq!(store.table_capacity(), 1000);
    assert_eq!(store.read(0, 16), Vec::<u8>::new());
}

#[test]
fn open_uses_default_parameters() {
    let store = ByteStore::open(false);
    assert_eq!(store.quantum_size(), DEFAULT_QUANTUM_SIZE);
    assert_eq!(store.table_capacity(), DEFAULT_TABLE_CAPACITY);
    assert_eq!(store.logical_length(), 0);

    let trimmed = ByteStore::open(true);
    assert_eq!(trimmed.logical_length(), 0);
    assert_eq!(trimmed.table_count(), 0);
}

#[test]
fn write_then_read_round_trip() {
    let mut store = ByteStore::new(4000, 1000);
    let written = store.write(17, &[10, 20, 30, 40]).unwrap();
    assert_eq!(written, 4);
    assert_eq!(store.read(17, 4), vec![10, 20, 30, 40]);
    assert_eq!(store.logical_length(), 21);
}

#[test]
fn read_at_or_past_logical_length_is_empty() {
    let mut store = ByteStore::new(4000, 1000);
    assert_eq!(store.read(0, 8), Vec::<u8>::new());
    store.write(0, &[1, 2, 3]).unwrap();
    assert_eq!(store.read(3, 8), Vec::<u8>::new());
    assert_eq!(store.read(100, 8), Vec::<u8>::new());
    assert_eq!(store.read(2, 8), vec![3, 0, 0, 0, 0, 0, 0, 0]);
}

#[test]
fn sparse_hole_reads_empty_not_zeroes() {
    let mut store = ByteStore::new(4, 2);
    store.write(8, &[7]).unwrap();
    assert_eq!(store.logical_length(), 9);
    // Offsets 0..8 are below the logical length but in never-written quanta.
    assert_eq!(store.read(0, 4), Vec::<u8>::new());
    assert_eq!(store.read(4, 4), Vec::<u8>::new());
    // The written quantum itself reads back zero-filled up to the boundary.
    assert_eq!(store.read(8, 4), vec![7, 0, 0, 0]);
}

#[test]
fn read_crosses_quanta_in_two_clamped_calls() {
    let quantum = u64::from(DEFAULT_QUANTUM_SIZE);
    let mut store = ByteStore::open(false);
    store.write(0, &[1, 2, 3]).unwrap();
    store.write(quantum, &[4, 5, 6]).unwrap();

    // One read of quantum_size + 3 bytes needs two calls: the first is
    // clamped at the quantum boundary, the second picks up the rest.
    let wanted = DEFAULT_QUANTUM_SIZE as usize + 3;
    let first = store.read(0, wanted);
    assert_eq!(first.len(), DEFAULT_QUANTUM_SIZE as usize);
    let second = store.read(quantum, wanted - first.len());
    assert_eq!(second, vec![4, 5, 6]);

    let mut expected = vec![1u8, 2, 3];
    expected.resize(DEFAULT_QUANTUM_SIZE as usize, 0);
    expected.extend_from_slice(&[4, 5, 6]);
    let mut joined = first.clone();
    joined.extend_from_slice(&second);
    assert_eq!(joined, expected);
}

#[test]
fn write_is_clamped_at_the_quantum_boundary() {
    let mut store = ByteStore::new(4, 2);
    // Offset 2 leaves two bytes in the quantum, so only two are written.
    let written = store.write(2, &[9, 8, 7, 6]).unwrap();
    assert_eq!(written, 2);
    assert_eq!(store.logical_length(), 4);
    assert_eq!(store.read(2, 4), vec![9, 8]);
    // The next quantum was never written.
    assert_eq!(store.read(4, 4), Vec::<u8>::new());
}

#[test]
fn write_of_nothing_still_allocates() {
    let mut store = ByteStore::new(4, 2);
    let written = store.write(0, &[]).unwrap();
    assert_eq!(written, 0);
    assert_eq!(store.logical_length(), 0);
    assert_eq!(store.table_count(), 1);
}

#[test]
fn logical_length_is_the_highest_end_ever_written() {
    let mut store = ByteStore::new(4000, 1000);
    store.write(10, &[1, 2, 3]).unwrap();
    assert_eq!(store.logical_length(), 13);
    store.write(0, &[9]).unwrap();
    assert_eq!(store.logical_length(), 13);
    assert_eq!(store.read(0, 1), vec![9]);
}

#[test]
fn overwrite_replaces_only_the_written_range() {
    let mut store = ByteStore::new(4000, 1000);
    store.write(0, &[1, 2, 3, 4, 5]).unwrap();
    store.write(1, &[8, 9]).unwrap();
    assert_eq!(store.read(0, 5), vec![1, 8, 9, 4, 5]);
}

#[test]
fn high_offset_write_allocates_every_intervening_table() {
    let mut store = ByteStore::new(4000, 1000);
    let offset = 4000u64 * 1000 + 5;
    store.write(offset, &[42]).unwrap();
    // Tables 0 and 1 are both linked, though table 0 holds no byte.
    assert_eq!(store.table_count(), 2);
    assert_eq!(store.logical_length(), offset + 1);
    // The untouched low range is a sparse hole, not an error and not zeroes.
    assert_eq!(store.read(0, 4), Vec::<u8>::new());
    assert_eq!(store.read(offset, 1), vec![42]);
}

#[test]
fn slots_within_one_table_are_independent() {
    let mut store = ByteStore::new(4, 4);
    store.write(0, &[1, 1]).unwrap();
    store.write(12, &[3, 3]).unwrap();
    assert_eq!(store.table_count(), 1);
    assert_eq!(store.read(0, 2), vec![1, 1]);
    assert_eq!(store.read(4, 2), Vec::<u8>::new());
    assert_eq!(store.read(12, 2), vec![3, 3]);
}

#[test]
fn reset_returns_the_store_to_fresh() {
    let mut store = ByteStore::new(4000, 1000);
    store.write(0, &[1, 2, 3]).unwrap();
    store.write(4000u64 * 1000, &[4]).unwrap();
    store.reset();
    assert_eq!(store.logical_length(), 0);
    assert_eq!(store.table_count(), 0);
    assert_eq!(store.read(0, 8), Vec::<u8>::new());
    assert_eq!(store.quantum_size(), 4000);
    assert_eq!(store.table_capacity(), 1000);
    // Writes after the reset behave as on a freshly created store.
    store.write(5, &[6, 7]).unwrap();
    assert_eq!(store.logical_length(), 7);
    assert_eq!(store.read(5, 2), vec![6, 7]);
}

#[test]
fn reset_is_idempotent() {
    let mut store = ByteStore::new(4, 2);
    store.reset();
    store.write(0, &[1]).unwrap();
    store.reset();
    store.reset();
    assert_eq!(store.logical_length(), 0);
    assert_eq!(store.table_count(), 0);
}

#[test]
fn disjoint_writes_commute() {
    // The same two writes to disjoint ranges, performed in either order,
    // leave identical stores — the sequential witness of the concurrency
    // discipline.
    let mut one = ByteStore::new(4000, 1000);
    one.write(0, &[1, 2, 3]).unwrap();
    one.write(4000 * 1000 + 7, &[4, 5]).unwrap();

    let mut two = ByteStore::new(4000, 1000);
    two.write(4000 * 1000 + 7, &[4, 5]).unwrap();
    two.write(0, &[1, 2, 3]).unwrap();

    assert_eq!(one.logical_length(), two.logical_length());
    assert_eq!(one.table_count(), two.table_count());
    assert_eq!(one.read(0, 3), two.read(0, 3));
    assert_eq!(one.read(4000 * 1000 + 7, 2), two.read(4000 * 1000 + 7, 2));
    assert_eq!(one.read(0, 3), vec![1, 2, 3]);
    assert_eq!(one.read(4000 * 1000 + 7, 2), vec![4, 5]);
}

#[test]
fn unsupported_query_reports_the_error() {
    let store = ByteStore::new(4000, 1000);
    assert_eq!(store.query(0), Err(StoreError::UnsupportedOperation));
}
