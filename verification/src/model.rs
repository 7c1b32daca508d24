//! The mathematical model of a byte store.
//!
//! A store is modelled as a sequence of optional segment tables, each table a
//! sequence of optional quantum buffers, together with the logical length and
//! the two sizing parameters. All executable operations carry contracts
//! stated over this model, so the properties in `laws` can be proved once, at
//! the model level, and apply to the executable code through those contracts.

use vstd::math::{max, min};
use vstd::prelude::*;

verus! {

/// What one quantum buffer holds: exactly `quantum_size` bytes once allocated.
pub type QuantumModel = Seq<u8>;

/// What one segment table holds: `None` while its slot array is unallocated,
/// otherwise `table_capacity` slots, each empty or holding one quantum.
pub type TableModel = Option<Seq<Option<QuantumModel>>>;

/// The abstract state of one byte store.
pub ghost struct StoreModel {
    /// Size in bytes of every quantum buffer; fixed at creation.
    pub quantum_size: nat,
    /// Number of quantum slots in every segment table; fixed at creation.
    pub table_capacity: nat,
    /// Highest offset + 1 ever written, zero after creation or reset.
    pub logical_length: nat,
    /// The segment chain: table `i` covers logical offsets
    /// `[i * quantum_size * table_capacity, (i + 1) * quantum_size * table_capacity)`.
    pub tables: Seq<TableModel>,
}

/// An allocated table has exactly `table_capacity` slots and each of its
/// allocated quanta exactly `quantum_size` bytes.
pub open spec fn table_wf(t: TableModel, quantum_size: nat, table_capacity: nat) -> bool {
    t matches Some(slots) ==> {
        &&& slots.len() == table_capacity
        &&& forall|j: int|
            0 <= j < slots.len() ==> (#[trigger] slots[j] matches Some(qv) ==> qv.len()
                == quantum_size)
    }
}

/// The state of a store as it leaves creation or reset: both sizing
/// parameters kept, nothing written, no table allocated.
pub open spec fn fresh_model(quantum_size: nat, table_capacity: nat) -> StoreModel {
    StoreModel { quantum_size, table_capacity, logical_length: 0, tables: Seq::empty() }
}

/// Number of logical bytes covered by one segment table.
pub open spec fn table_span(quantum_size: nat, table_capacity: nat) -> nat {
    quantum_size * table_capacity
}

/// A slot sequence of `table_capacity` empty slots, as a table's slot array
/// looks right after it is allocated.
pub open spec fn blank_slots(table_capacity: nat) -> Seq<Option<QuantumModel>> {
    Seq::new(table_capacity, |j: int| None::<QuantumModel>)
}

/// A zero-initialized quantum, as a quantum looks right after it is allocated.
pub open spec fn zero_quantum(quantum_size: nat) -> QuantumModel {
    Seq::new(quantum_size, |k: int| 0u8)
}

/// `base` with `data` copied in starting at byte `at`.
pub open spec fn overlay(base: Seq<u8>, at: nat, data: Seq<u8>) -> Seq<u8> {
    Seq::new(base.len(), |k: int| if at <= k < at + data.len() { data[k - at] } else { base[k] })
}

/// `tables` extended with unallocated tables until it holds at least `count`
/// of them; unchanged when it already does. This is the eager growth the
/// chain walk performs: every table up to the target is linked in, written or
/// not.
pub open spec fn grown_tables(tables: Seq<TableModel>, count: nat) -> Seq<TableModel> {
    if tables.len() >= count {
        tables
    } else {
        tables + Seq::new((count - tables.len()) as nat, |i: int| None::<Seq<Option<QuantumModel>>>)
    }
}

/// The quantum stored at slot `si` of table `ti`, if the table, its slot
/// array and that quantum have all been allocated.
pub open spec fn quantum_at(tables: Seq<TableModel>, ti: nat, si: nat) -> Option<QuantumModel> {
    if ti < tables.len() && tables[ti as int] is Some {
        let slots = tables[ti as int].unwrap();
        if si < slots.len() && slots[si as int] is Some {
            Some(slots[si as int].unwrap())
        } else {
            None
        }
    } else {
        None
    }
}

/// The chain after `data` is written into table `ti`, slot `si`, at byte
/// `qo` of the quantum: the chain is grown through `ti`, the target table's
/// slot array and the target quantum are allocated if absent, and `data` is
/// copied over the quantum's previous content.
pub open spec fn chain_written(
    tables: Seq<TableModel>,
    ti: nat,
    si: nat,
    qo: nat,
    data: Seq<u8>,
    quantum_size: nat,
    table_capacity: nat,
) -> Seq<TableModel> {
    let grown = grown_tables(tables, ti + 1);
    let slots = if grown[ti as int] is Some {
        grown[ti as int].unwrap()
    } else {
        blank_slots(table_capacity)
    };
    let base = if slots[si as int] is Some {
        slots[si as int].unwrap()
    } else {
        zero_quantum(quantum_size)
    };
    grown.update(ti as int, Some(slots.update(si as int, Some(overlay(base, qo, data)))))
}

impl StoreModel {
    /// Both sizing parameters are positive and every allocated table is well
    /// formed.
    pub open spec fn wf(self) -> bool {
        &&& 1 <= self.quantum_size
        &&& 1 <= self.table_capacity
        &&& forall|i: int|
            0 <= i < self.tables.len() ==> table_wf(
                #[trigger] self.tables[i],
                self.quantum_size,
                self.table_capacity,
            )
    }

    /// Number of logical bytes covered by one of this store's segment tables.
    pub open spec fn span(self) -> nat {
        table_span(self.quantum_size, self.table_capacity)
    }

    /// Which segment table the logical offset falls in.
    pub open spec fn table_index(self, offset: nat) -> nat {
        offset / self.span()
    }

    /// Which quantum slot within that table the logical offset falls in.
    pub open spec fn slot_index(self, offset: nat) -> nat {
        (offset % self.span()) / self.quantum_size
    }

    /// Which byte within that quantum the logical offset falls on.
    pub open spec fn quantum_offset(self, offset: nat) -> nat {
        (offset % self.span()) % self.quantum_size
    }

    /// The quantum a logical offset falls in, if allocated.
    pub open spec fn quantum_at_offset(self, offset: nat) -> Option<QuantumModel> {
        quantum_at(self.tables, self.table_index(offset), self.slot_index(offset))
    }

    /// How many bytes a read or write of `requested` bytes at `offset`
    /// touches: clamped so one call never crosses the quantum boundary.
    pub open spec fn io_len(self, offset: nat, requested: nat) -> nat {
        min(requested as int, self.quantum_size - self.quantum_offset(offset)) as nat
    }

    /// What a read of `requested` bytes at `offset` returns: nothing at or
    /// past the logical length, nothing from a sparse hole (an unallocated
    /// table or quantum), and otherwise the bytes of the one quantum the
    /// offset falls in, clamped at the quantum boundary.
    pub open spec fn read_result(self, offset: nat, requested: nat) -> Seq<u8> {
        if offset >= self.logical_length {
            Seq::empty()
        } else {
            match self.quantum_at_offset(offset) {
                None => Seq::empty(),
                Some(qv) => qv.subrange(
                    self.quantum_offset(offset) as int,
                    self.quantum_offset(offset) + self.io_len(offset, requested) as int,
                ),
            }
        }
    }

    /// The store after `data` is written at `offset`: the chain is grown and
    /// written through `chain_written`, at most `io_len` bytes are taken, and
    /// the logical length rises to the end of the written range if that is
    /// higher.
    pub open spec fn written(self, offset: nat, data: Seq<u8>) -> StoreModel {
        let n = self.io_len(offset, data.len());
        StoreModel {
            tables: chain_written(
                self.tables,
                self.table_index(offset),
                self.slot_index(offset),
                self.quantum_offset(offset),
                data.take(n as int),
                self.quantum_size,
                self.table_capacity,
            ),
            logical_length: max(self.logical_length as int, offset + n as int) as nat,
            ..self
        }
    }
}

/// The offset decomposition is sound: the table index, slot index and
/// quantum offset locate the offset exactly, the slot index stays below the
/// table capacity, and the quantum offset below the quantum size.
pub proof fn lemma_decomposition(m: StoreModel, offset: nat)
    requires
        1 <= m.quantum_size,
        1 <= m.table_capacity,
    ensures
        1 <= m.span(),
        m.span() <= m.quantum_size * m.table_capacity,
        offset == m.table_index(offset) * m.span() + m.slot_index(offset) * m.quantum_size
            + m.quantum_offset(offset),
        m.slot_index(offset) < m.table_capacity,
        m.quantum_offset(offset) < m.quantum_size,
{
    let q = m.quantum_size as int;
    let c = m.table_capacity as int;
    let span = m.span() as int;
    assert(1 <= span && span == q * c) by (nonlinear_arith)
        requires
            1 <= q,
            1 <= c,
            span == q * c,
    ;
    let rest = offset as int % span;
    let ti = offset as int / span;
    let si = rest / q;
    let qo = rest % q;
    vstd::arithmetic::div_mod::lemma_fundamental_div_mod(offset as int, span);
    vstd::arithmetic::div_mod::lemma_mod_division_less_than_divisor(offset as int, span);
    vstd::arithmetic::div_mod::lemma_fundamental_div_mod(rest, q);
    vstd::arithmetic::div_mod::lemma_mod_division_less_than_divisor(rest, q);
    assert(rest < q * c);
    vstd::arithmetic::div_mod::lemma_multiply_divide_lt(rest, q, c);
    assert(offset == ti * span + si * q + qo) by (nonlinear_arith)
        requires
            offset as int == span * ti + rest,
            rest == q * si + qo,
    ;
}

} // verus!
