//! The segment chain: a linked sequence of segment tables, each a
//! fixed-capacity array of lazily allocated quantum buffers.
//!
//! The chain is kept as an arena: the tables live in one vector, in chain
//! order, and each table links to its successor by index. The links carry the
//! list semantics of the design — the walk in `locate` follows them one by
//! one and stops at the first missing table — while the arena keeps ownership
//! a plain tree.

use crate::model::{blank_slots, chain_written, grown_tables, quantum_at, table_wf, zero_quantum, QuantumModel, TableModel};
use vstd::prelude::*;

verus! {

/// One segment table: an optional slot array of optional quantum buffers,
/// and the link to the next table in the chain.
pub struct SegmentTable {
    /// Allocated the first time a byte within this table's range is written.
    slots: Option<Vec<Option<Vec<u8>>>>,
    /// Arena index of the next table; `None` at the end of the chain.
    next: Option<usize>,
}

/// The model of one executable slot.
pub open spec fn slot_model(s: Option<Vec<u8>>) -> Option<QuantumModel> {
    match s {
        None => None,
        Some(qv) => Some(qv@),
    }
}

/// The model of one executable slot array.
pub open spec fn slots_model(sv: Seq<Option<Vec<u8>>>) -> Seq<Option<QuantumModel>> {
    sv.map_values(|s: Option<Vec<u8>>| slot_model(s))
}

/// A freshly allocated slot array: `table_capacity` empty slots.
fn blank_slot_vec(table_capacity: u32) -> (r: Vec<Option<Vec<u8>>>)
    ensures
        slots_model(r@) == blank_slots(table_capacity as nat),
        r@.len() == table_capacity as nat,
{
    let mut v: Vec<Option<Vec<u8>>> = Vec::new();
    let mut i: u32 = 0;
    while i < table_capacity
        invariant
            i <= table_capacity,
            v@.len() == i as nat,
            forall|j: int| 0 <= j < i ==> v@[j] is None,
        decreases table_capacity - i,
    {
        v.push(None);
        i = i + 1;
    }
    proof {
        assert(slots_model(v@) =~= blank_slots(table_capacity as nat));
    }
    v
}

/// A freshly allocated quantum: `quantum_size` zero bytes.
fn zero_quantum_vec(quantum_size: u32) -> (r: Vec<u8>)
    ensures
        r@ == zero_quantum(quantum_size as nat),
{
    let mut v: Vec<u8> = Vec::new();
    let mut i: u32 = 0;
    while i < quantum_size
        invariant
            i <= quantum_size,
            v@.len() == i as nat,
            forall|j: int| 0 <= j < i ==> v@[j] == 0u8,
        decreases quantum_size - i,
    {
        v.push(0u8);
        i = i + 1;
    }
    proof {
        assert(v@ =~= zero_quantum(quantum_size as nat));
    }
    v
}

impl View for SegmentTable {
    type V = TableModel;

    closed spec fn view(&self) -> TableModel {
        match self.slots {
            None => None,
            Some(sv) => Some(slots_model(sv@)),
        }
    }
}

impl SegmentTable {
    /// A freshly linked table: no slot array, no successor.
    pub fn new() -> (r: SegmentTable)
        ensures
            r@ == None::<Seq<Option<QuantumModel>>>,
            r.spec_next() == None::<usize>,
    {
        SegmentTable { slots: None, next: None }
    }

    /// The link this table holds.
    pub closed spec fn spec_next(&self) -> Option<usize> {
        self.next
    }
}

/// The ordered sequence of segment tables reachable from the head link.
pub struct SegmentChain {
    /// Arena index of the first table; `None` while the chain is empty.
    head: Option<usize>,
    /// The tables, in chain order.
    tables: Vec<SegmentTable>,
}

impl View for SegmentChain {
    type V = Seq<TableModel>;

    closed spec fn view(&self) -> Seq<TableModel> {
        self.tables@.map_values(|t: SegmentTable| t@)
    }
}

impl SegmentChain {
    /// The head link and every table's next link point exactly one step down
    /// the arena, so a walk from the head visits the tables in order.
    pub closed spec fn links_ok(&self) -> bool {
        &&& self.head == (if self.tables@.len() == 0 {
            None::<usize>
        } else {
            Some(0usize)
        })
        &&& forall|i: int|
            #![trigger self.tables@[i]]
            0 <= i < self.tables@.len() ==> self.tables@[i].spec_next() == (if i + 1
                < self.tables@.len() {
                Some((i + 1) as usize)
            } else {
                None::<usize>
            })
    }

    /// Every table of the chain is well formed for the given sizing
    /// parameters.
    pub open spec fn shape_ok(&self, quantum_size: nat, table_capacity: nat) -> bool {
        forall|i: int|
            0 <= i < self@.len() ==> table_wf(#[trigger] self@[i], quantum_size, table_capacity)
    }

    /// An empty chain.
    pub fn new() -> (r: SegmentChain)
        ensures
            r.links_ok(),
            r@ == Seq::<TableModel>::empty(),
    {
        let r = SegmentChain { head: None, tables: Vec::new() };
        proof {
            assert(r@ =~= Seq::<TableModel>::empty());
        }
        r
    }

    /// How many tables the chain currently links.
    pub fn table_count(&self) -> (r: usize)
        ensures
            r == self@.len(),
    {
        self.tables.len()
    }

    /// The non-allocating walk: follows the links from the head and reports
    /// whether table `table_index` is reachable, stopping at the first
    /// missing table.
    pub fn locate(&self, table_index: u64) -> (r: bool)
        requires
            self.links_ok(),
        ensures
            r == ((table_index as nat) < self@.len()),
    {
        let linked = self.tables.len();
        let mut cur: usize = match self.head {
            None => {
                return false;
            },
            Some(h) => h,
        };
        let mut step: u64 = 0;
        while step < table_index
            invariant
                self.links_ok(),
                linked == self@.len(),
                step <= table_index,
                cur == step,
                (cur as nat) < self@.len(),
            decreases table_index - step,
        {
            match self.tables[cur].next {
                None => {
                    return false;
                },
                Some(nx) => {
                    cur = nx;
                },
            }
            step = step + 1;
        }
        true
    }

    /// Links one fresh, empty table onto the end of the chain.
    fn push_table(&mut self)
        requires
            old(self).links_ok(),
            old(self).tables@.len() < usize::MAX,
        ensures
            final(self).links_ok(),
            final(self)@ == old(self)@.push(None::<Seq<Option<QuantumModel>>>),
    {
        let len = self.tables.len();
        if len == 0 {
            self.head = Some(0);
        } else {
            let mut last = self.tables.pop().unwrap();
            last.next = Some(len);
            self.tables.push(last);
        }
        self.tables.push(SegmentTable::new());
        proof {
            assert forall|i: int| 0 <= i < self.tables@.len() implies self@[i] == old(
                self,
            )@.push(None::<Seq<Option<QuantumModel>>>)[i] by {
                if i < len - 1 {
                    assert(self.tables@[i] == old(self).tables@[i]);
                } else if i == len - 1 {
                    assert(self.tables@[i].slots == old(self).tables@[i].slots);
                }
            }
            assert(self@ =~= old(self)@.push(None::<Seq<Option<QuantumModel>>>));
        }
    }

    /// The allocating walk: links a fresh, empty table onto the end of the
    /// chain until table `table_index` exists, allocating every intervening
    /// table on the way — written or not — exactly as the walk of the design
    /// does. Afterwards the table is guaranteed to exist, so no reference
    /// needs to be handed back.
    pub fn locate_or_create(&mut self, table_index: usize)
        requires
            old(self).links_ok(),
            table_index < usize::MAX,
        ensures
            final(self).links_ok(),
            final(self)@ == grown_tables(old(self)@, table_index as nat + 1),
            (table_index as nat) < final(self)@.len(),
    {
        let ghost start = self@;
        while self.tables.len() <= table_index
            invariant
                self.links_ok(),
                table_index < usize::MAX,
                self@ == grown_tables(start, self@.len()),
                start.len() <= self@.len(),
                self@.len() <= table_index + 1 || self@.len() == start.len(),
            decreases table_index + 1 - self.tables@.len(),
        {
            self.push_table();
            proof {
                assert(self@ =~= grown_tables(start, self@.len()));
            }
        }
        proof {
            assert(self@ =~= grown_tables(start, table_index as nat + 1));
        }
    }

    /// Frees every table and every quantum below it, leaving the chain
    /// empty. A no-op on an already empty chain.
    pub fn release_all(&mut self)
        ensures
            final(self).links_ok(),
            final(self)@ == Seq::<TableModel>::empty(),
    {
        self.tables.clear();
        self.head = None;
        proof {
            assert(self@ =~= Seq::<TableModel>::empty());
        }
    }

    /// Writes `count` bytes of `data` into the quantum at slot `slot_index`
    /// of table `table_index`, starting at byte `quantum_offset` of the
    /// quantum. The table must already be linked (`locate_or_create` has run);
    /// its slot array is allocated here if absent, and the quantum is
    /// allocated zero-initialized if absent. The caller has already clamped
    /// `count` at the quantum boundary.
    pub fn write_quantum(
        &mut self,
        table_index: usize,
        slot_index: usize,
        quantum_offset: usize,
        data: &[u8],
        count: usize,
        quantum_size: u32,
        table_capacity: u32,
    )
        requires
            old(self).links_ok(),
            old(self).shape_ok(quantum_size as nat, table_capacity as nat),
            (table_index as nat) < old(self)@.len(),
            (slot_index as nat) < table_capacity as nat,
            count <= data@.len(),
            quantum_offset + count <= quantum_size,
        ensures
            final(self).links_ok(),
            final(self).shape_ok(quantum_size as nat, table_capacity as nat),
            final(self)@ == chain_written(
                old(self)@,
                table_index as nat,
                slot_index as nat,
                quantum_offset as nat,
                data@.take(count as int),
                quantum_size as nat,
                table_capacity as nat,
            ),
    {
        let table = self.tables.remove(table_index);
        proof {
            assert(table@ == old(self)@[table_index as int]);
            assert(table_wf(table@, quantum_size as nat, table_capacity as nat));
        }
        let next = table.next;
        let ghost tmodel = table@;
        let mut slots: Vec<Option<Vec<u8>>> = match table.slots {
            Some(sv) => sv,
            None => blank_slot_vec(table_capacity),
        };
        proof {
            assert(slots_model(slots@) == (if tmodel is Some {
                tmodel.unwrap()
            } else {
                blank_slots(table_capacity as nat)
            }));
            assert(slots@.len() == table_capacity as nat);
        }
        let ghost slots_before = slots@;
        let taken = slots.remove(slot_index);
        proof {
            let si = slot_index as int;
            assert(slot_model(slots_before[si]) == slots_model(slots_before)[si]);
        }
        let mut quantum: Vec<u8> = match taken {
            Some(qv) => qv,
            None => zero_quantum_vec(quantum_size),
        };
        proof {
            assert(quantum@.len() == quantum_size as nat);
        }
        let ghost base = quantum@;
        let mut k: usize = 0;
        while k < count
            invariant
                k <= count,
                count <= data@.len(),
                quantum_offset + count <= quantum_size,
                quantum_offset + count <= base.len(),
                quantum@.len() == base.len(),
                forall|j: int| 0 <= j < k ==> quantum@[quantum_offset + j] == data@[j],
                forall|j: int|
                    0 <= j < base.len() && !(quantum_offset <= j < quantum_offset + k)
                        ==> quantum@[j] == base[j],
            decreases count - k,
        {
            quantum.set(quantum_offset + k, data[k]);
            k = k + 1;
        }
        proof {
            assert(quantum@ =~= crate::model::overlay(
                base,
                quantum_offset as nat,
                data@.take(count as int),
            ));
        }
        slots.insert(slot_index, Some(quantum));
        self.tables.insert(table_index, SegmentTable { slots: Some(slots), next });
        proof {
            let written = chain_written(
                old(self)@,
                table_index as nat,
                slot_index as nat,
                quantum_offset as nat,
                data@.take(count as int),
                quantum_size as nat,
                table_capacity as nat,
            );
            assert forall|i: int| 0 <= i < self@.len() implies self@[i] == written[i] by {
                if i != table_index {
                    assert(self.tables@[i] == old(self).tables@[i]);
                } else {
                    assert(self@[i] matches Some(sm) && written[i] matches Some(wm) && sm =~= wm);
                }
            }
            assert(self@ =~= written);
        }
    }

    /// Borrows the quantum at slot `slot_index` of table `table_index`, or
    /// reports the sparse hole: the table's slot array or the quantum itself
    /// was never allocated.
    pub fn quantum_bytes(&self, table_index: usize, slot_index: usize) -> (r: Option<&Vec<u8>>)
        requires
            (table_index as nat) < self@.len(),
        ensures
            (match quantum_at(self@, table_index as nat, slot_index as nat) {
                Some(qm) => r matches Some(qv) && qv@ == qm,
                None => r is None,
            }),
    {
        match &self.tables[table_index].slots {
            None => None,
            Some(sv) => {
                if slot_index < sv.len() {
                    match &sv[slot_index] {
                        None => None,
                        Some(qv) => Some(qv),
                    }
                } else {
                    None
                }
            },
        }
    }
}

} // verus!
