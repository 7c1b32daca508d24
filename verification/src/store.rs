//! The byte store: one sparse logical byte stream over a segment chain.
//!
//! All offsets are logical byte offsets into the stream. A single `read` or
//! `write` call touches at most one quantum: the length is clamped at the
//! quantum boundary and the caller crosses quanta by issuing repeated calls.

use crate::chain::SegmentChain;
use crate::model::{fresh_model, lemma_decomposition, StoreModel};
use vstd::prelude::*;

verus! {

/// Default quantum size of a store opened by `ByteStore::open`.
pub const DEFAULT_QUANTUM_SIZE: u32 = 4000;

/// Default table capacity of a store opened by `ByteStore::open`.
pub const DEFAULT_TABLE_CAPACITY: u32 = 1000;

/// Everything that can go wrong inside or around a byte store.
#[derive(Clone, Copy, Debug, PartialEq, Eq, Structural)]
pub enum StoreError {
    /// An allocation failed during the chain walk or a buffer allocation.
    /// The store here allocates through the global allocator, which aborts
    /// rather than reports failure, so the verified operations never return
    /// this; it remains the documented outcome for hosts whose allocators
    /// can fail.
    OutOfMemory,
    /// A configuration-query code that names no defined query.
    UnsupportedOperation,
}

/// A sparse random-access byte store: logical length, the two sizing
/// parameters fixed at creation, and the owned segment chain.
pub struct ByteStore {
    chain: SegmentChain,
    logical_length: u64,
    quantum_size: u32,
    table_capacity: u32,
}

impl View for ByteStore {
    type V = StoreModel;

    closed spec fn view(&self) -> StoreModel {
        StoreModel {
            quantum_size: self.quantum_size as nat,
            table_capacity: self.table_capacity as nat,
            logical_length: self.logical_length as nat,
            tables: self.chain@,
        }
    }
}

impl ByteStore {
    /// The chain links run in order and the model is well formed.
    pub closed spec fn wf(&self) -> bool {
        &&& self.chain.links_ok()
        &&& self@.wf()
    }

    /// A new, empty store with the given sizing parameters. The parameters
    /// cannot be changed afterwards.
    pub fn new(quantum_size: u32, table_capacity: u32) -> (r: ByteStore)
        requires
            1 <= quantum_size,
            1 <= table_capacity,
        ensures
            r.wf(),
            r@ == fresh_model(quantum_size as nat, table_capacity as nat),
    {
        ByteStore { chain: SegmentChain::new(), logical_length: 0, quantum_size, table_capacity }
    }

    /// A store as the host's "device open" hook creates it: default sizing
    /// parameters, and trimmed to nothing when opened write-only — which is
    /// redundant on a store that is already empty, but kept as the lifecycle
    /// policy.
    pub fn open(write_only: bool) -> (r: ByteStore)
        ensures
            r.wf(),
            r@ == fresh_model(DEFAULT_QUANTUM_SIZE as nat, DEFAULT_TABLE_CAPACITY as nat),
    {
        let mut store = ByteStore::new(DEFAULT_QUANTUM_SIZE, DEFAULT_TABLE_CAPACITY);
        if write_only {
            store.reset();
        }
        store
    }

    /// Size in bytes of every quantum buffer of this store.
    pub fn quantum_size(&self) -> (r: u32)
        ensures
            r as nat == self@.quantum_size,
    {
        self.quantum_size
    }

    /// Number of quantum slots in every segment table of this store.
    pub fn table_capacity(&self) -> (r: u32)
        ensures
            r as nat == self@.table_capacity,
    {
        self.table_capacity
    }

    /// Highest offset + 1 ever written since creation or the last reset.
    pub fn logical_length(&self) -> (r: u64)
        ensures
            r as nat == self@.logical_length,
    {
        self.logical_length
    }

    /// How many segment tables the chain has allocated. Tables are allocated
    /// eagerly up to the highest table ever written to, so this can exceed
    /// the number of tables that hold data.
    pub fn table_count(&self) -> (r: usize)
        ensures
            r as nat == self@.tables.len(),
    {
        self.chain.table_count()
    }

    /// Empties the store: releases every segment table and every quantum and
    /// sets the logical length to zero. The sizing parameters are kept, so
    /// the store afterwards equals a freshly created one. Idempotent, and
    /// cannot fail: it only frees.
    pub fn reset(&mut self)
        requires
            old(self).wf(),
        ensures
            final(self).wf(),
            final(self)@ == fresh_model(old(self)@.quantum_size, old(self)@.table_capacity),
    {
        self.chain.release_all();
        self.logical_length = 0;
    }

    /// Reads up to `requested` bytes at `offset`. Returns the empty vector at
    /// or past the logical length (end of stream) and for a sparse hole — an
    /// offset whose table, slot array or quantum was never allocated; the
    /// hole is not zero-filled. Otherwise returns the bytes of the one
    /// quantum the offset falls in, clamped at the quantum boundary, so a
    /// caller crosses quanta by reading repeatedly. Read-only: no cursor
    /// moves and nothing is allocated.
    pub fn read(&self, offset: u64, requested: usize) -> (r: Vec<u8>)
        requires
            self.wf(),
        ensures
            r@ == self@.read_result(offset as nat, requested as nat),
            offset as nat >= self@.logical_length ==> r@.len() == 0,
            self@.quantum_at_offset(offset as nat) is None ==> r@.len() == 0,
    {
        proof {
            lemma_decomposition(self@, offset as nat);
        }
        if offset >= self.logical_length {
            return Vec::new();
        }
        let quantum = self.quantum_size as u64;
        let capacity = self.table_capacity as u64;
        proof {
            assert(quantum * capacity == self@.span() && quantum * capacity <= u64::MAX)
                by (nonlinear_arith)
                requires
                    quantum == self@.quantum_size,
                    capacity == self@.table_capacity,
                    self@.span() == self@.quantum_size * self@.table_capacity,
                    quantum <= u32::MAX,
                    capacity <= u32::MAX,
            ;
        }
        let span = quantum * capacity;
        let item = offset / span;
        let rest = offset % span;
        let slot = (rest / quantum) as usize;
        let quantum_offset = (rest % quantum) as usize;
        if !self.chain.locate(item) {
            return Vec::new();
        }
        let linked = self.chain.table_count();
        proof {
            assert((item as nat) < linked as nat);
            assert(item as nat == self@.table_index(offset as nat));
            assert(slot as nat == self@.slot_index(offset as nat));
            assert(quantum_offset as nat == self@.quantum_offset(offset as nat));
        }
        let table_index = item as usize;
        match self.chain.quantum_bytes(table_index, slot) {
            None => Vec::new(),
            Some(bytes) => {
                let mut count = requested;
                let available = (quantum - (quantum_offset as u64)) as usize;
                if count > available {
                    count = available;
                }
                proof {
                    assert(count as nat == self@.io_len(offset as nat, requested as nat));
                }
                let mut out: Vec<u8> = Vec::new();
                let mut k: usize = 0;
                while k < count
                    invariant
                        k <= count,
                        quantum_offset + count <= u32::MAX,
                        quantum_offset + count <= bytes@.len(),
                        out@.len() == k as nat,
                        forall|j: int| 0 <= j < k ==> out@[j] == bytes@[quantum_offset + j],
                    decreases count - k,
                {
                    out.push(bytes[quantum_offset + k]);
                    k = k + 1;
                }
                proof {
                    assert(out@ =~= self@.read_result(offset as nat, requested as nat));
                }
                out
            },
        }
    }

    /// Writes `bytes` at `offset`, allocating whatever the write needs: every
    /// segment table from the chain head through the target table (written or
    /// not — the deliberate eager-walk policy), the target table's slot
    /// array, and a zero-initialized quantum for the target slot. The length
    /// written is clamped at the quantum boundary, so a caller crosses quanta
    /// by writing repeatedly. The logical length rises to the end of the
    /// written range if that is higher than before. Returns the number of
    /// bytes written; allocation cannot fail here (see `StoreError`), so the
    /// result is always `Ok`.
    pub fn write(&mut self, offset: u64, bytes: &[u8]) -> (r: Result<usize, StoreError>)
        requires
            old(self).wf(),
            old(self)@.table_index(offset as nat) + 1 <= usize::MAX,
            offset + old(self)@.io_len(offset as nat, bytes@.len()) <= u64::MAX,
        ensures
            final(self).wf(),
            final(self)@ == old(self)@.written(offset as nat, bytes@),
            r matches Ok(n) && n as nat == old(self)@.io_len(offset as nat, bytes@.len()),
    {
        proof {
            lemma_decomposition(self@, offset as nat);
        }
        let quantum = self.quantum_size as u64;
        let capacity = self.table_capacity as u64;
        proof {
            assert(quantum * capacity == self@.span() && quantum * capacity <= u64::MAX)
                by (nonlinear_arith)
                requires
                    quantum == self@.quantum_size,
                    capacity == self@.table_capacity,
                    self@.span() == self@.quantum_size * self@.table_capacity,
                    quantum <= u32::MAX,
                    capacity <= u32::MAX,
            ;
        }
        let span = quantum * capacity;
        let item = (offset / span) as usize;
        let rest = offset % span;
        let slot = (rest / quantum) as usize;
        let quantum_offset = (rest % quantum) as usize;
        let mut count = bytes.len();
        let available = (quantum - (quantum_offset as u64)) as usize;
        if count > available {
            count = available;
        }
        proof {
            assert(item as nat == old(self)@.table_index(offset as nat));
            assert(slot as nat == old(self)@.slot_index(offset as nat));
            assert(quantum_offset as nat == old(self)@.quantum_offset(offset as nat));
            assert(count as nat == old(self)@.io_len(offset as nat, bytes@.len()));
        }
        self.chain.locate_or_create(item);
        proof {
            assert forall|i: int| 0 <= i < self.chain@.len() implies crate::model::table_wf(
                #[trigger] self.chain@[i],
                self@.quantum_size,
                self@.table_capacity,
            ) by {
                if i < old(self)@.tables.len() {
                    assert(self.chain@[i] == old(self)@.tables[i]);
                }
            }
            assert(self.chain.shape_ok(self@.quantum_size, self@.table_capacity));
        }
        self.chain.write_quantum(
            item,
            slot,
            quantum_offset,
            bytes,
            count,
            self.quantum_size,
            self.table_capacity,
        );
        let end = offset + (count as u64);
        if self.logical_length < end {
            self.logical_length = end;
        }
        proof {
            assert(self@.tables =~~= old(self)@.written(offset as nat, bytes@).tables);
        }
        Ok(count)
    }
}

} // verus!
