//! The registry of in-flight operations behind the live status line. Each
//! begun operation holds a slot with its label; slots are handed out by a
//! stable handle, freed slots are reused, and a freed slot's generation
//! moves on so a stale handle never matches. Drawing the line and locking
//! around the registry happen outside the library.

use vstd::prelude::*;
use vstd::string::*;

verus! {

/// A stable handle to one in-flight operation.
#[derive(Debug, Clone, Copy, PartialEq, Eq, Structural)]
pub struct SlotId {
    pub index: usize,
    pub generation: u64,
}

/// One slot of the registry: free for reuse, or holding the label of an
/// operation in flight. The generation tells apart the lives of one slot.
#[derive(Debug, Clone)]
pub enum Slot {
    Free { generation: u64 },
    Occupied { generation: u64, label: String },
}

/// The generation a slot moves to when it is freed.
pub open spec fn spec_next_generation(g: u64) -> u64 {
    if g == u64::MAX {
        0
    } else {
        (g + 1) as u64
    }
}

/// The generation a slot currently carries.
pub open spec fn spec_slot_generation(s: Slot) -> u64 {
    match s {
        Slot::Free { generation } => generation,
        Slot::Occupied { generation, .. } => generation,
    }
}

/// How many slots of a registry are occupied.
pub open spec fn spec_occupied_count(m: Seq<Slot>) -> int
    decreases m.len(),
{
    if m.len() == 0 {
        0
    } else {
        spec_occupied_count(m.drop_last()) + (if m.last() is Occupied {
            1int
        } else {
            0int
        })
    }
}

/// The labels of the occupied slots, in slot order.
pub open spec fn spec_occupied_labels(m: Seq<Slot>) -> Seq<Seq<char>>
    decreases m.len(),
{
    if m.len() == 0 {
        Seq::empty()
    } else {
        spec_occupied_labels(m.drop_last()) + (match m.last() {
            Slot::Occupied { label, .. } => seq![label@],
            Slot::Free { .. } => Seq::empty(),
        })
    }
}

/// The texts joined with a comma between each pair.
pub open spec fn spec_join_comma(parts: Seq<Seq<char>>) -> Seq<char>
    decreases parts.len(),
{
    if parts.len() == 0 {
        Seq::empty()
    } else if parts.len() == 1 {
        parts[0]
    } else {
        spec_join_comma(parts.drop_last()) + ", "@ + parts.last()
    }
}

/// What beginning an operation does to the registry: a fresh slot is
/// appended, or a free slot is taken over, keeping its generation.
pub open spec fn spec_begin_model(m: Seq<Slot>, i: int, g: u64, label: String) -> Seq<Slot> {
    if i == m.len() {
        m.push(Slot::Occupied { generation: g, label: label })
    } else {
        m.update(i, Slot::Occupied { generation: g, label: label })
    }
}

/// What ending an operation does to the registry: its slot is freed and
/// its generation moves on.
pub open spec fn spec_end_model(m: Seq<Slot>, i: int) -> Seq<Slot> {
    m.update(i, Slot::Free { generation: spec_next_generation(spec_slot_generation(m[i])) })
}

proof fn lemma_occupied_count_nonneg(m: Seq<Slot>)
    ensures
        0 <= spec_occupied_count(m) <= m.len(),
    decreases m.len(),
{
    if m.len() > 0 {
        lemma_occupied_count_nonneg(m.drop_last());
    }
}

proof fn lemma_occupied_count_update(m: Seq<Slot>, i: int, v: Slot)
    requires
        0 <= i < m.len(),
    ensures
        spec_occupied_count(m.update(i, v)) == spec_occupied_count(m) + (if v is Occupied {
            1int
        } else {
            0int
        }) - (if m[i] is Occupied {
            1int
        } else {
            0int
        }),
    decreases m.len(),
{
    let mm = m.update(i, v);
    if i == m.len() - 1 {
        assert(mm.drop_last() =~= m.drop_last());
        assert(mm.last() == v);
    } else {
        assert(mm.drop_last() =~= m.drop_last().update(i, v));
        assert(mm.last() == m.last());
        lemma_occupied_count_update(m.drop_last(), i, v);
    }
}

proof fn lemma_occupied_count_at(m: Seq<Slot>, i: int)
    requires
        0 <= i < m.len(),
    ensures
        m[i] is Occupied ==> spec_occupied_count(m) >= 1,
        m[i] is Free ==> spec_occupied_count(m) <= m.len() - 1,
    decreases m.len(),
{
    lemma_occupied_count_nonneg(m.drop_last());
    if i < m.len() - 1 {
        lemma_occupied_count_at(m.drop_last(), i);
    }
}

/// As many labels are registered as slots are occupied.
pub proof fn lemma_labels_count(m: Seq<Slot>)
    ensures
        spec_occupied_labels(m).len() == spec_occupied_count(m),
    decreases m.len(),
{
    if m.len() > 0 {
        lemma_labels_count(m.drop_last());
    }
}

/// The registry of in-flight operations: the slots, the free list through
/// which slots are reused, and the count of operations in flight.
#[derive(Debug)]
pub struct Progress {
    slots: Vec<Slot>,
    free: Vec<usize>,
    live: usize,
}

impl Progress {
    /// The slots as the contracts speak of them.
    pub closed spec fn model(&self) -> Seq<Slot> {
        self.slots@
    }

    /// How many operations are in flight.
    pub open spec fn in_flight_spec(&self) -> int {
        spec_occupied_count(self.model())
    }

    /// The labels in flight, in slot order.
    pub open spec fn labels(&self) -> Seq<Seq<char>> {
        spec_occupied_labels(self.model())
    }

    /// Whether a handle names an operation currently in flight.
    pub open spec fn is_live(&self, slot: SlotId) -> bool {
        &&& (slot.index as int) < self.model().len()
        &&& self.model()[slot.index as int] is Occupied
        &&& spec_slot_generation(self.model()[slot.index as int]) == slot.generation
    }

    /// The registry's invariant: the free list names exactly the free
    /// slots, once each, and the live counter counts the occupied ones.
    pub closed spec fn wf(&self) -> bool {
        &&& forall|i: int|
            0 <= i < self.free@.len() ==> (self.free@[i] as int) < self.slots@.len()
                && self.slots@[#[trigger] self.free@[i] as int] is Free
        &&& forall|i: int, j: int|
            0 <= i < j < self.free@.len() ==> self.free@[i] != self.free@[j]
        &&& forall|k: int|
            0 <= k < self.slots@.len() && self.slots@[k] is Free ==> exists|i: int|
                0 <= i < self.free@.len() && #[trigger] self.free@[i] as int == k
        &&& self.live == spec_occupied_count(self.slots@)
    }

    /// An empty registry.
    pub fn new() -> (r: Progress)
        ensures
            r.wf(),
            r.model().len() == 0,
            r.in_flight_spec() == 0,
    {
        Progress { slots: Vec::new(), free: Vec::new(), live: 0 }
    }

    /// Registers an operation and hands out its slot. The count in flight
    /// grows by one; every handle live before stays live, with its label.
    pub fn begin(&mut self, label: String) -> (slot: SlotId)
        requires
            old(self).wf(),
        ensures
            final(self).wf(),
            final(self).model() == spec_begin_model(
                old(self).model(),
                slot.index as int,
                slot.generation,
                label,
            ),
            slot.index as int == old(self).model().len() || old(self).model()[slot.index as int]
                is Free,
            final(self).is_live(slot),
            !old(self).is_live(slot),
            final(self).in_flight_spec() == old(self).in_flight_spec() + 1,
            forall|s2: SlotId|
                old(self).is_live(s2) ==> final(self).is_live(s2) && final(self).model()[s2.index
                    as int] == old(self).model()[s2.index as int],
    {
        proof {
            lemma_occupied_count_nonneg(self.slots@);
        }
        match self.free.pop() {
            Some(idx) => {
                let slot_count = self.slots.len();
                let g = match &self.slots[idx] {
                    Slot::Free { generation } => *generation,
                    Slot::Occupied { .. } => 0,
                };
                proof {
                    lemma_occupied_count_at(self.slots@, idx as int);
                    lemma_occupied_count_update(
                        self.slots@,
                        idx as int,
                        Slot::Occupied { generation: g, label: label },
                    );
                }
                self.slots.set(idx, Slot::Occupied { generation: g, label: label });
                proof {
                    assert(self.live < slot_count);
                }
                self.live = self.live + 1;
                proof {
                    assert forall|k: int|
                        0 <= k < self.slots@.len() && self.slots@[k] is Free implies exists|i: int|
                        0 <= i < self.free@.len() && #[trigger] self.free@[i] as int == k by {
                        let i0 = choose|i0: int|
                            0 <= i0 < old(self).free@.len() && #[trigger] old(self).free@[i0] as int
                                == k;
                        assert(i0 < old(self).free@.len() - 1);
                        assert(self.free@[i0] as int == k);
                    }
                }
                SlotId { index: idx, generation: g }
            },
            None => {
                let idx = self.slots.len();
                self.slots.push(Slot::Occupied { generation: 0, label: label });
                let new_len = self.slots.len();
                proof {
                    assert(self.slots@.drop_last() =~= old(self).slots@);
                    assert(self.live < new_len);
                }
                self.live = self.live + 1;
                proof {
                    assert forall|k: int|
                        0 <= k < self.slots@.len() && self.slots@[k] is Free implies exists|i: int|
                        0 <= i < self.free@.len() && #[trigger] self.free@[i] as int == k by {
                        assert(k < old(self).slots@.len() || k == old(self).slots@.len());
                        assert(old(self).slots@[k] is Free);
                    }
                }
                SlotId { index: idx, generation: 0 }
            },
        }
    }

    /// Removes a live operation. The count in flight falls by one, the
    /// handle stops being live, and every other handle keeps its standing
    /// and its label.
    pub fn end(&mut self, slot: SlotId)
        requires
            old(self).wf(),
            old(self).is_live(slot),
        ensures
            final(self).wf(),
            final(self).model() == spec_end_model(old(self).model(), slot.index as int),
            final(self).in_flight_spec() == old(self).in_flight_spec() - 1,
            !final(self).is_live(slot),
            forall|s2: SlotId|
                s2.index != slot.index ==> final(self).is_live(s2) == old(self).is_live(s2),
            forall|s2: SlotId|
                s2.index != slot.index && old(self).is_live(s2) ==> final(self).model()[s2.index
                    as int] == old(self).model()[s2.index as int],
    {
        let g = match &self.slots[slot.index] {
            Slot::Free { generation } => *generation,
            Slot::Occupied { generation, .. } => *generation,
        };
        let next_g: u64 = if g == u64::MAX {
            0
        } else {
            g + 1
        };
        proof {
            lemma_occupied_count_at(self.slots@, slot.index as int);
            lemma_occupied_count_update(
                self.slots@,
                slot.index as int,
                Slot::Free { generation: next_g },
            );
        }
        self.slots.set(slot.index, Slot::Free { generation: next_g });
        self.free.push(slot.index);
        self.live = self.live - 1;
        proof {
            assert forall|k: int|
                0 <= k < self.slots@.len() && self.slots@[k] is Free implies exists|i: int|
                0 <= i < self.free@.len() && #[trigger] self.free@[i] as int == k by {
                if k == slot.index as int {
                    assert(self.free@[self.free@.len() - 1] as int == k);
                } else {
                    let i0 = choose|i0: int|
                        0 <= i0 < old(self).free@.len() && #[trigger] old(self).free@[i0] as int
                            == k;
                    assert(self.free@[i0] as int == k);
                }
            }
            assert forall|i: int, j: int|
                0 <= i < j < self.free@.len() implies self.free@[i] != self.free@[j] by {
                if j == self.free@.len() - 1 {
                    assert(old(self).slots@[old(self).free@[i] as int] is Free);
                }
            }
        }
    }

    /// Reads the count of operations in flight.
    pub fn in_flight(&self) -> (n: usize)
        requires
            self.wf(),
        ensures
            n == self.in_flight_spec(),
    {
        self.live
    }

    /// Writes the aggregate status: the labels in flight, in slot order,
    /// joined with commas.
    pub fn status_line(&self) -> (r: String)
        requires
            self.wf(),
        ensures
            r@ == spec_join_comma(self.labels()),
    {
        let mut acc = String::new();
        let mut started = false;
        let mut i: usize = 0;
        proof {
            assert(self.slots@.take(0) =~= Seq::<Slot>::empty());
        }
        while i < self.slots.len()
            invariant
                0 <= i <= self.slots@.len(),
                acc@ == spec_join_comma(spec_occupied_labels(self.slots@.take(i as int))),
                started == (spec_occupied_labels(self.slots@.take(i as int)).len() > 0),
            decreases self.slots@.len() - i,
        {
            proof {
                assert(self.slots@.take(i as int + 1).drop_last() =~= self.slots@.take(i as int));
                assert(self.slots@.take(i as int + 1).last() == self.slots@[i as int]);
                lemma_labels_count(self.slots@.take(i as int));
            }
            let ghost labels0 = spec_occupied_labels(self.slots@.take(i as int));
            match &self.slots[i] {
                Slot::Occupied { label, .. } => {
                    proof {
                        assert(spec_occupied_labels(self.slots@.take(i as int + 1)) =~= labels0
                            + seq![label@]);
                        assert(labels0 + seq![label@] =~= labels0.push(label@));
                        assert((labels0.push(label@)).drop_last() =~= labels0);
                    }
                    if started {
                        acc.append(", ");
                        acc.append(label.as_str());
                        proof {
                            assert(acc@ =~= spec_join_comma(labels0) + ", "@ + label@);
                        }
                    } else {
                        acc.append(label.as_str());
                        proof {
                            assert(labels0.push(label@).len() == 1);
                            assert(acc@ =~= labels0.push(label@)[0]);
                        }
                    }
                    started = true;
                },
                Slot::Free { .. } => {
                    proof {
                        assert(spec_occupied_labels(self.slots@.take(i as int + 1)) =~= labels0);
                    }
                },
            }
            i = i + 1;
        }
        proof {
            assert(self.slots@.take(self.slots@.len() as int) =~= self.slots@);
        }
        acc
    }

    /// Consumes the registry once every operation has ended.
    pub fn finish(self)
        requires
            self.wf(),
            self.in_flight_spec() == 0,
    {
    }
}

/// Law: an in-flight count of zero leaves nothing dangling — no handle is
/// live and no label is registered.
pub proof fn lemma_no_dangling(p: Progress)
    requires
        p.in_flight_spec() == 0,
    ensures
        forall|s: SlotId| !p.is_live(s),
        p.labels().len() == 0,
{
    assert forall|s: SlotId| !p.is_live(s) by {
        if p.is_live(s) {
            lemma_occupied_count_at(p.model(), s.index as int);
        }
    }
    lemma_labels_count(p.model());
}

/// One step of the registry's life, as the count law speaks of it.
#[derive(Debug, Clone)]
pub enum TrackerOp {
    Begin { index: usize, generation: u64, label: String },
    End { index: usize },
}

/// Whether a step can happen on a registry: a begin takes a fresh or free
/// slot, an end frees an occupied one.
pub open spec fn spec_op_valid(m: Seq<Slot>, op: TrackerOp) -> bool {
    match op {
        TrackerOp::Begin { index, .. } => (index as int) == m.len() || ((index as int) < m.len()
            && m[index as int] is Free),
        TrackerOp::End { index } => (index as int) < m.len() && m[index as int] is Occupied,
    }
}

/// What a step does to a registry. These are exactly the model changes the
/// contracts of `begin` and `end` state.
pub open spec fn spec_apply_op(m: Seq<Slot>, op: TrackerOp) -> Seq<Slot> {
    match op {
        TrackerOp::Begin { index, generation, label } => spec_begin_model(
            m,
            index as int,
            generation,
            label,
        ),
        TrackerOp::End { index } => spec_end_model(m, index as int),
    }
}

/// What a run of steps does to a registry.
pub open spec fn spec_apply_ops(m: Seq<Slot>, ops: Seq<TrackerOp>) -> Seq<Slot>
    decreases ops.len(),
{
    if ops.len() == 0 {
        m
    } else {
        spec_apply_op(spec_apply_ops(m, ops.drop_last()), ops.last())
    }
}

/// Whether every step of a run can happen where it stands.
pub open spec fn spec_ops_valid(m: Seq<Slot>, ops: Seq<TrackerOp>) -> bool
    decreases ops.len(),
{
    if ops.len() == 0 {
        true
    } else {
        spec_ops_valid(m, ops.drop_last()) && spec_op_valid(
            spec_apply_ops(m, ops.drop_last()),
            ops.last(),
        )
    }
}

/// How many of a run's steps begin an operation.
pub open spec fn spec_count_begins(ops: Seq<TrackerOp>) -> int
    decreases ops.len(),
{
    if ops.len() == 0 {
        0
    } else {
        spec_count_begins(ops.drop_last()) + (if ops.last() is Begin {
            1int
        } else {
            0int
        })
    }
}

/// How many of a run's steps end an operation.
pub open spec fn spec_count_ends(ops: Seq<TrackerOp>) -> int
    decreases ops.len(),
{
    if ops.len() == 0 {
        0
    } else {
        spec_count_ends(ops.drop_last()) + (if ops.last() is End {
            1int
        } else {
            0int
        })
    }
}

/// Law: over any run of begin and end steps each taken where it is valid,
/// the count in flight is the count of begins not yet matched by an end.
pub proof fn lemma_in_flight_counts_unmatched_begins(m: Seq<Slot>, ops: Seq<TrackerOp>)
    requires
        spec_ops_valid(m, ops),
    ensures
        spec_occupied_count(spec_apply_ops(m, ops)) == spec_occupied_count(m) + spec_count_begins(
            ops,
        ) - spec_count_ends(ops),
    decreases ops.len(),
{
    if ops.len() > 0 {
        lemma_in_flight_counts_unmatched_begins(m, ops.drop_last());
        let mid = spec_apply_ops(m, ops.drop_last());
        match ops.last() {
            TrackerOp::Begin { index, generation, label } => {
                if (index as int) == mid.len() {
                    assert(spec_apply_ops(m, ops).drop_last() =~= mid);
                } else {
                    lemma_occupied_count_update(
                        mid,
                        index as int,
                        Slot::Occupied { generation: generation, label: label },
                    );
                }
            },
            TrackerOp::End { index } => {
                lemma_occupied_count_update(
                    mid,
                    index as int,
                    Slot::Free {
                        generation: spec_next_generation(spec_slot_generation(mid[index as int])),
                    },
                );
            },
        }
    }
}

} // verus!
