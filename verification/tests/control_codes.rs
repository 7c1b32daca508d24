use scull::control::{
    code_selector, code_size, code_tag, MAX_SELECTOR, QUANTUM_SIZE_QUERY, QUERY_TAG,
    TABLE_CAPACITY_QUERY,
};
use scull::store::{ByteStore, StoreError};

#[test]
fn query_codes_have_the_packed_layout() {
    // direction "read" in the top two bits, a 4-byte payload, the store's
    // type tag, and selector numbers 5 and 6.
    assert_eq!(QUANTUM_SIZE_QUERY, 0x8004_6005);
    assert_eq!(TABLE_CAPACITY_QUERY, 0x8004_6006);
    assert_eq!(code_tag(QUANTUM_SIZE_QUERY), QUERY_TAG);
    assert_eq!(code_tag(TABLE_CAPACITY_QUERY), QUERY_TAG);
    assert_eq!(code_selector(QUANTUM_SIZE_QUERY), 5);
    assert_eq!(code_selector(TABLE_CAPACITY_QUERY), 6);
    assert_eq!(code_size(QUANTUM_SIZE_QUERY), 4);
    assert_eq!(code_size(TABLE_CAPACITY_QUERY), 4);
    assert!(code_selector(QUANTUM_SIZE_QUERY) <= MAX_SELECTOR);
    assert!(code_selector(TABLE_CAPACITY_QUERY) <= MAX_SELECTOR);
}

#[test]
fn defined_queries_return_the_parameters() {
    let store = ByteStore::new(4000, 1000);
    assert_eq!(store.query(QUANTUM_SIZE_QUERY), Ok(4000));
    assert_eq!(store.query(TABLE_CAPACITY_QUERY), Ok(1000));

    let other = ByteStore::new(16, 8);
    assert_eq!(other.query(QUANTUM_SIZE_QUERY), Ok(16));
    assert_eq!(other.query(TABLE_CAPACITY_QUERY), Ok(8));
}

#[test]
fn foreign_tag_is_rejected() {
    let store = ByteStore::new(4000, 1000);
    // Same layout, wrong type tag.
    let foreign = QUANTUM_SIZE_QUERY ^ (1 << 8);
    assert_eq!(store.query(foreign), Err(StoreError::UnsupportedOperation));
}

#[test]
fn selector_past_the_maximum_is_rejected() {
    let store = ByteStore::new(4000, 1000);
    let past = QUANTUM_SIZE_QUERY - 5 + MAX_SELECTOR + 1;
    assert_eq!(code_tag(past), QUERY_TAG);
    assert!(code_selector(past) > MAX_SELECTOR);
    assert_eq!(store.query(past), Err(StoreError::UnsupportedOperation));
}

#[test]
fn undefined_selector_in_range_is_rejected() {
    let store = ByteStore::new(4000, 1000);
    // Tag and range both fine, but no query is defined under selector 1.
    let undefined = QUANTUM_SIZE_QUERY - 5 + 1;
    assert_eq!(code_tag(undefined), QUERY_TAG);
    assert!(code_selector(undefined) <= MAX_SELECTOR);
    assert_eq!(store.query(undefined), Err(StoreError::UnsupportedOperation));
}
