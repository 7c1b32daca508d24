//! Proved properties that relate the store's operations to one another.
//!
//! Each law is stated over `StoreModel`, the model every executable
//! operation's contract speaks of, so it applies to any sequence of
//! executable calls through those contracts.

use crate::model::{chain_written, fresh_model, lemma_decomposition, overlay, table_wf, StoreModel, TableModel};
use vstd::prelude::*;

verus! {

/// Writing `data` at `offset` and then reading `data.len()` bytes at `offset`
/// returns exactly the bytes written, whenever the write does not cross a
/// quantum boundary.
pub proof fn lemma_write_read_round_trip(m: StoreModel, offset: nat, data: Seq<u8>)
    requires
        m.wf(),
        m.quantum_offset(offset) + data.len() <= m.quantum_size,
    ensures
        m.written(offset, data).read_result(offset, data.len()) == data,
{
    lemma_decomposition(m, offset);
    let w = m.written(offset, data);
    let n = m.io_len(offset, data.len());
    assert(n == data.len());
    assert(data.take(n as int) =~= data);
    let ti = m.table_index(offset);
    let si = m.slot_index(offset);
    let qo = m.quantum_offset(offset);
    if data.len() == 0 {
        if offset < w.logical_length {
            assert(w.read_result(offset, data.len()) =~= data);
        } else {
            assert(w.read_result(offset, data.len()) =~= data);
        }
    } else {
        assert(offset < w.logical_length);
        assert(w.read_result(offset, data.len()) =~= data);
    }
}

/// Writing preserves the store invariant: after any write on a well-formed
/// store, every allocated table still has exactly `table_capacity` slots and
/// every allocated quantum exactly `quantum_size` bytes. This lets the other
/// laws be applied again to the store a write leaves behind.
pub proof fn lemma_written_wf(m: StoreModel, offset: nat, data: Seq<u8>)
    requires
        m.wf(),
    ensures
        m.written(offset, data).wf(),
{
    lemma_decomposition(m, offset);
    let w = m.written(offset, data);
    let ti = m.table_index(offset);
    let si = m.slot_index(offset);
    assert forall|i: int| 0 <= i < w.tables.len() implies table_wf(
        #[trigger] w.tables[i],
        m.quantum_size,
        m.table_capacity,
    ) by {
        if i == ti {
            let slots = w.tables[i].unwrap();
            assert(slots.len() == m.table_capacity);
            assert forall|j: int|
                0 <= j < slots.len() implies (#[trigger] slots[j] matches Some(qv) ==> qv.len()
                == m.quantum_size) by {
                if j != si && i < m.tables.len() {
                    assert(table_wf(m.tables[i], m.quantum_size, m.table_capacity));
                }
            }
        } else if i < m.tables.len() {
            assert(table_wf(m.tables[i], m.quantum_size, m.table_capacity));
        }
    }
}

/// A reset store reads as empty at every offset and has logical length zero;
/// and because `reset` leaves exactly the model of a freshly created store,
/// every later operation behaves as on a freshly created store.
pub proof fn lemma_fresh_reads_empty(
    quantum_size: nat,
    table_capacity: nat,
    offset: nat,
    requested: nat,
)
    ensures
        fresh_model(quantum_size, table_capacity).read_result(offset, requested) == Seq::<
            u8,
        >::empty(),
        fresh_model(quantum_size, table_capacity).logical_length == 0,
{
}

/// Writes to disjoint clamped ranges commute: on the same starting store, the
/// two orders leave identical stores — byte content, logical length, and the
/// allocated tables and quanta alike. Under the store's one-lock-per-instance
/// discipline every concurrent schedule performs the two writes in one of
/// these orders, so the final state equals that of either sequential order.
pub proof fn lemma_disjoint_writes_commute(
    m: StoreModel,
    o1: nat,
    d1: Seq<u8>,
    o2: nat,
    d2: Seq<u8>,
)
    requires
        m.wf(),
        o1 + m.io_len(o1, d1.len()) <= o2 || o2 + m.io_len(o2, d2.len()) <= o1,
    ensures
        m.written(o1, d1).written(o2, d2) == m.written(o2, d2).written(o1, d1),
{
    lemma_decomposition(m, o1);
    lemma_decomposition(m, o2);
    let t1 = m.table_index(o1);
    let s1 = m.slot_index(o1);
    let q1 = m.quantum_offset(o1);
    let n1 = m.io_len(o1, d1.len());
    let t2 = m.table_index(o2);
    let s2 = m.slot_index(o2);
    let q2 = m.quantum_offset(o2);
    let n2 = m.io_len(o2, d2.len());
    if t1 == t2 && s1 == s2 {
        assert(t1 * m.span() == t2 * m.span());
        assert(s1 * m.quantum_size == s2 * m.quantum_size);
        assert(q1 + n1 <= q2 || q2 + n2 <= q1);
    }
    lemma_chain_written_commutes(
        m.tables,
        t1,
        s1,
        q1,
        d1.take(n1 as int),
        t2,
        s2,
        q2,
        d2.take(n2 as int),
        m.quantum_size,
        m.table_capacity,
    );
}

/// Overlays of disjoint ranges on one buffer commute.
proof fn lemma_overlay_commutes(base: Seq<u8>, a1: nat, d1: Seq<u8>, a2: nat, d2: Seq<u8>)
    requires
        a1 + d1.len() <= a2 || a2 + d2.len() <= a1,
    ensures
        overlay(overlay(base, a1, d1), a2, d2) == overlay(overlay(base, a2, d2), a1, d1),
{
    assert(overlay(overlay(base, a1, d1), a2, d2) =~= overlay(overlay(base, a2, d2), a1, d1));
}

/// The chain-level heart of write commutation: two writes into different
/// tables, different slots of one table, or disjoint byte ranges of one
/// quantum leave the same chain in either order.
proof fn lemma_chain_written_commutes(
    tables: Seq<TableModel>,
    t1: nat,
    s1: nat,
    q1: nat,
    d1: Seq<u8>,
    t2: nat,
    s2: nat,
    q2: nat,
    d2: Seq<u8>,
    quantum_size: nat,
    table_capacity: nat,
)
    requires
        forall|i: int|
            0 <= i < tables.len() ==> table_wf(#[trigger] tables[i], quantum_size, table_capacity),
        s1 < table_capacity,
        s2 < table_capacity,
        q1 + d1.len() <= quantum_size,
        q2 + d2.len() <= quantum_size,
        t1 != t2 || s1 != s2 || q1 + d1.len() <= q2 || q2 + d2.len() <= q1,
    ensures
        chain_written(
            chain_written(tables, t1, s1, q1, d1, quantum_size, table_capacity),
            t2,
            s2,
            q2,
            d2,
            quantum_size,
            table_capacity,
        ) == chain_written(
            chain_written(tables, t2, s2, q2, d2, quantum_size, table_capacity),
            t1,
            s1,
            q1,
            d1,
            quantum_size,
            table_capacity,
        ),
{
    let a = chain_written(
        chain_written(tables, t1, s1, q1, d1, quantum_size, table_capacity),
        t2,
        s2,
        q2,
        d2,
        quantum_size,
        table_capacity,
    );
    let b = chain_written(
        chain_written(tables, t2, s2, q2, d2, quantum_size, table_capacity),
        t1,
        s1,
        q1,
        d1,
        quantum_size,
        table_capacity,
    );
    if t1 != t2 {
        assert(a =~~= b);
    } else if s1 != s2 {
        assert(a =~~= b);
    } else {
        lemma_overlay_commutes(zero_or_base(tables, t1, s1, quantum_size, table_capacity), q1, d1, q2, d2);
        assert(a =~~= b);
    }
}

/// The quantum content a write at table `ti`, slot `si` starts from: the
/// stored quantum if one is allocated, a zero quantum otherwise.
spec fn zero_or_base(
    tables: Seq<TableModel>,
    ti: nat,
    si: nat,
    quantum_size: nat,
    table_capacity: nat,
) -> Seq<u8> {
    let grown = crate::model::grown_tables(tables, ti + 1);
    let slots = if grown[ti as int] is Some {
        grown[ti as int].unwrap()
    } else {
        crate::model::blank_slots(table_capacity)
    };
    if slots[si as int] is Some {
        slots[si as int].unwrap()
    } else {
        crate::model::zero_quantum(quantum_size)
    }
}

} // verus!
