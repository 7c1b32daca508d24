//! The numeric configuration-query codes and their dispatch.
//!
//! A host addresses the two read-only configuration queries by numeric codes
//! in the classic packed layout: direction in the top two bits, the size of
//! the transferred value, a type tag that identifies the store's query
//! family, and a selector number. The two defined codes ask for the quantum
//! size and the table capacity, each returned as a 4-byte integer. Every
//! other code is rejected as unsupported — a code is out of range when its
//! type tag differs from the store's tag or its selector number exceeds the
//! highest defined selector.

use crate::store::{ByteStore, StoreError};
use vstd::prelude::*;

verus! {

/// The type tag of this store's query family (the code of the grave accent
/// character).
pub const QUERY_TAG: u32 = 0x60;

/// The highest defined selector number; greater selectors are rejected.
pub const MAX_SELECTOR: u32 = 6;

/// Code direction "read": the host reads a value out of the store.
pub const DIRECTION_READ: u32 = 2;

/// The code that asks for the store's quantum size: a read of a 4-byte value,
/// this store's tag, selector number 5.
pub const QUANTUM_SIZE_QUERY: u32 = DIRECTION_READ * 0x4000_0000 + 4 * 0x1_0000 + QUERY_TAG * 0x100
    + 5;

/// The code that asks for the store's table capacity: a read of a 4-byte
/// value, this store's tag, selector number 6.
pub const TABLE_CAPACITY_QUERY: u32 = DIRECTION_READ * 0x4000_0000 + 4 * 0x1_0000 + QUERY_TAG
    * 0x100 + 6;

/// The type tag packed into a query code.
pub open spec fn spec_code_tag(code: u32) -> u32 {
    ((code / 0x100) % 0x100) as u32
}

/// The selector number packed into a query code.
pub open spec fn spec_code_selector(code: u32) -> u32 {
    (code % 0x100) as u32
}

/// The transferred-value size packed into a query code.
pub open spec fn spec_code_size(code: u32) -> u32 {
    ((code / 0x1_0000) % 0x4000) as u32
}

/// The type tag packed into a query code.
pub fn code_tag(code: u32) -> (r: u32)
    ensures
        r == spec_code_tag(code),
{
    (code / 0x100) % 0x100
}

/// The selector number packed into a query code.
pub fn code_selector(code: u32) -> (r: u32)
    ensures
        r == spec_code_selector(code),
{
    code % 0x100
}

/// The transferred-value size packed into a query code.
pub fn code_size(code: u32) -> (r: u32)
    ensures
        r == spec_code_size(code),
{
    (code / 0x1_0000) % 0x4000
}

impl ByteStore {
    /// Answers the configuration query named by `code`: the quantum size for
    /// `QUANTUM_SIZE_QUERY`, the table capacity for `TABLE_CAPACITY_QUERY`,
    /// and `UnsupportedOperation` for every other code. Read-only and total:
    /// the store itself is never touched beyond reading the two parameters.
    pub fn query(&self, code: u32) -> (r: Result<u32, StoreError>)
        ensures
            code == QUANTUM_SIZE_QUERY ==> (r matches Ok(v) && v as nat == self@.quantum_size),
            code == TABLE_CAPACITY_QUERY ==> (r matches Ok(v) && v as nat == self@.table_capacity),
            code != QUANTUM_SIZE_QUERY && code != TABLE_CAPACITY_QUERY ==> (r matches Err(e) && e
                == StoreError::UnsupportedOperation),
    {
        if code_tag(code) != QUERY_TAG {
            return Err(StoreError::UnsupportedOperation);
        }
        if code_selector(code) > MAX_SELECTOR {
            return Err(StoreError::UnsupportedOperation);
        }
        if code == QUANTUM_SIZE_QUERY {
            Ok(self.quantum_size())
        } else if code == TABLE_CAPACITY_QUERY {
            Ok(self.table_capacity())
        } else {
            Err(StoreError::UnsupportedOperation)
        }
    }
}

} // verus!
