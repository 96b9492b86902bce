//! Sharing of device buffers among allocations.
//!
//! Which ranges of a buffer are free is known to the buffer's range allocator. The [`Allocator`]
//! decides which buffers are tried in which order, when one is created and when one is released.
use vstd::prelude::*;

verus! {

/// The alignments and the least buffer size of a backend.
#[derive(Clone, Copy, Debug, PartialEq, Eq)]
pub struct AllocationLimits {
    pub min_alignment: usize,
    pub max_alignment: usize,
    pub granularity: usize,
}

/// A pool whose allocations are released together.
#[derive(Clone, Copy, Debug, PartialEq, Eq)]
pub struct AllocationPool {
    pub reusable: bool,
    pub pool_number: usize,
}

/// How long an allocation lives.
#[derive(Clone, Copy, Debug, PartialEq, Eq)]
pub enum AllocationType {
    Global,
    Pooled { pool: AllocationPool, cpu_available: bool },
}

/// What a range allocator has to know of an allocation.
#[derive(Clone, Copy, Debug, PartialEq, Eq)]
pub enum RangeAllocationType {
    Global,
    Pooled { pool: usize, can_alias_before: bool, can_alias_after: bool },
}

/// What is asked of the range allocators.
#[derive(Clone, Copy, Debug, PartialEq, Eq)]
pub struct AllocationRequest {
    pub size: usize,
    pub alignment: usize,
    pub range_type: RangeAllocationType,
    pub generation: usize,
}

/// A range of a buffer.
#[derive(Clone, Copy, Debug, PartialEq, Eq)]
pub struct Allocation {
    /// What tells apart the allocators.
    pub allocator: usize,
    /// The number of the buffer.
    pub buffer: u64,
    pub start: usize,
    pub end: usize,
    pub range_type: RangeAllocationType,
    pub generation: usize,
    pub revision: usize,
}

/// What tells apart the contents of allocations: the allocator, the allocation, and how often it was
/// written.
#[derive(Clone, Copy, Debug, PartialEq, Eq, Structural)]
pub struct AllocationIdentity {
    pub allocator: usize,
    pub generation: usize,
    pub revision: usize,
}

impl Allocation {
    pub open spec fn spec_identity(self) -> AllocationIdentity {
        AllocationIdentity {
            allocator: self.allocator,
            generation: self.generation,
            revision: self.revision,
        }
    }

    /// The identity of the current contents.
    pub fn identity(&self) -> (identity: AllocationIdentity)
        ensures
            identity == self.spec_identity(),
    {
        AllocationIdentity {
            allocator: self.allocator,
            generation: self.generation,
            revision: self.revision,
        }
    }

    /// The number of bytes.
    pub fn size(&self) -> (size: usize)
        ensures
            size == if self.start <= self.end {
                self.end - self.start
            } else {
                0
            },
    {
        if self.start <= self.end {
            self.end - self.start
        } else {
            0
        }
    }

    /// Notes that the contents may be written.
    pub fn mark_written(&mut self)
        requires
            old(self).revision < usize::MAX,
        ensures
            *final(self) == (Allocation {
                revision: (old(self).revision + 1) as usize,
                ..*old(self)
            }),
    {
        self.revision = self.revision + 1;
    }
}

/// A write gives the contents another identity.
pub proof fn law_writes_change_the_identity(before: Allocation)
    requires
        before.revision < usize::MAX,
    ensures
        (Allocation { revision: (before.revision + 1) as usize, ..before }).spec_identity()
            != before.spec_identity(),
{
}

/// What is to be done about an allocation for which some buffers had no room.
#[derive(Clone, Copy, Debug, PartialEq, Eq)]
pub enum AllocationStep {
    /// The range allocator of the buffer is asked.
    Ask { buffer: u64 },
    /// A buffer is created.
    Create { size: usize },
}

/// A buffer, its size, and how much of it is free.
#[derive(Clone, Copy, Debug, PartialEq, Eq)]
pub struct AllocatorBuffer {
    pub id: u64,
    pub size: usize,
    pub available: usize,
}

/// What a range allocator says after ranges were released.
#[derive(Clone, Copy, Debug, PartialEq, Eq)]
pub struct BufferState {
    pub available: usize,
    pub is_empty: bool,
}

/// The least power of two that is at least `size` and at least the power `from`.
pub open spec fn power_at_least(from: nat, size: nat) -> nat
    decreases
            if from < size {
                size - from
            } else {
                0
            },
{
    if from == 0 || from >= size {
        from
    } else {
        power_at_least(2 * from, size)
    }
}

/// `value`, or the limit that it passes.
pub open spec fn clamped(value: nat, least: usize, greatest: usize) -> nat {
    if value < least {
        least as nat
    } else if value > greatest {
        greatest as nat
    } else {
        value
    }
}

proof fn lemma_power_at_least(from: nat, size: nat)
    requires
        from >= 1,
    ensures
        size <= power_at_least(from, size),
        from <= power_at_least(from, size),
        from < size ==> power_at_least(from, size) < 2 * size,
    decreases
            if from < size {
                size - from
            } else {
                0
            },
{
    if from < size {
        lemma_power_at_least(2 * from, size);
    }
}

/// The alignment of an allocation: the least power of two that is not smaller, within the limits of
/// the backend.
pub fn allocation_alignment(size: usize, limits: &AllocationLimits) -> (alignment: usize)
    requires
        0 < size <= usize::MAX / 2 + 1,
        limits.min_alignment <= limits.max_alignment,
    ensures
        alignment == clamped(
            power_at_least(1, size as nat),
            limits.min_alignment,
            limits.max_alignment,
        ),
{
    let mut power: usize = 1;
    while power < size
        invariant
            1 <= power,
            size <= usize::MAX / 2 + 1,
            power_at_least(power as nat, size as nat) == power_at_least(1, size as nat),
        decreases
                if power < size {
                    size - power
                } else {
                    0
                },
    {
        power = power * 2;
    }
    if power < limits.min_alignment {
        limits.min_alignment
    } else if power > limits.max_alignment {
        limits.max_alignment
    } else {
        power
    }
}

pub open spec fn spec_range_type(allocation_type: AllocationType) -> RangeAllocationType {
    match allocation_type {
        AllocationType::Global => RangeAllocationType::Global,
        AllocationType::Pooled { pool, cpu_available } => RangeAllocationType::Pooled {
            pool: pool.pool_number,
            can_alias_before: !cpu_available,
            can_alias_after: !(cpu_available && pool.reusable),
        },
    }
}

/// What a range allocator has to know of an allocation: memory that the host reads or writes may not
/// have been in use before, and in a pool that is used again it may not be in use behind.
pub fn range_type(allocation_type: AllocationType) -> (range_type: RangeAllocationType)
    ensures
        range_type == spec_range_type(allocation_type),
{
    match allocation_type {
        AllocationType::Global => RangeAllocationType::Global,
        AllocationType::Pooled { pool, cpu_available } => RangeAllocationType::Pooled {
            pool: pool.pool_number,
            can_alias_before: !cpu_available,
            can_alias_after: !(cpu_available && pool.reusable),
        },
    }
}

/// The sum of the sizes of buffers.
pub open spec fn total_size(buffers: Seq<AllocatorBuffer>) -> int
    decreases buffers.len(),
{
    if buffers.len() == 0 {
        0
    } else {
        total_size(buffers.drop_last()) + buffers.last().size
    }
}

/// The buffers stand by how much of them is free, the fullest first.
pub open spec fn is_ordered(buffers: Seq<AllocatorBuffer>) -> bool {
    forall|i: int, j: int|
        0 <= i <= j < buffers.len() ==> buffers[i].available <= buffers[j].available
}

/// The buffers stand in order but for the one at `index`.
pub open spec fn is_ordered_except(buffers: Seq<AllocatorBuffer>, index: int) -> bool {
    forall|i: int, j: int|
        0 <= i <= j < buffers.len() && i != index && j != index ==> buffers[i].available
            <= buffers[j].available
}

/// The place to which the buffer at `index` moves: it passes every buffer before it that is less
/// full, or else every buffer behind it that is fuller.
pub open spec fn ordered_place(buffers: Seq<AllocatorBuffer>, index: int, place: int) -> bool {
    let available = buffers[index].available;
    &&& 0 <= place < buffers.len()
    &&& place <= index ==> {
        &&& forall|i: int| place <= i < index ==> available < (#[trigger] buffers[i]).available
        &&& place > 0 ==> buffers[place - 1].available <= available
    }
    &&& place >= index ==> {
        &&& forall|i: int| index < i <= place ==> (#[trigger] buffers[i]).available < available
        &&& place < buffers.len() - 1 ==> available <= buffers[place + 1].available
    }
}

/// The buffers with the one at `index` moved to `place`.
pub open spec fn moved(buffers: Seq<AllocatorBuffer>, index: int, place: int) -> Seq<
    AllocatorBuffer,
> {
    buffers.remove(index).insert(place, buffers[index])
}

/// No two buffers have the same number.
pub open spec fn ids_are_distinct(buffers: Seq<AllocatorBuffer>) -> bool {
    forall|i: int, j: int| 0 <= i < j < buffers.len() ==> buffers[i].id != buffers[j].id
}

/// Moves the buffer at `index` to its place in the order.
fn restore_buffer_order(buffers: &mut Vec<AllocatorBuffer>, index: usize)
    requires
        index < old(buffers)@.len(),
        is_ordered_except(old(buffers)@, index as int),
    ensures
        is_ordered(final(buffers)@),
        exists|place: int| #[trigger]
            ordered_place(old(buffers)@, index as int, place) && final(buffers)@ == moved(
                old(buffers)@,
                index as int,
                place,
            ),
{
    let ghost before = buffers@;
    let count: usize = buffers.len();
    let buffer: AllocatorBuffer = buffers[index];
    let mut place: usize = index;
    assert(moved(before, index as int, index as int) =~= before);
    while place > 0 && buffer.available < buffers[place - 1].available
        invariant
            place <= index < count,
            count == before.len(),
            buffer == before[index as int],
            buffers@ == moved(before, index as int, place as int),
            forall|i: int|
                place <= i < index ==> buffer.available < (#[trigger] before[i]).available,
        decreases place,
    {
        proof {
            lemma_moved(before, index as int, place as int);
            lemma_moved(before, index as int, place - 1);
        }
        let other: AllocatorBuffer = buffers[place - 1];
        buffers.set(place - 1, buffer);
        buffers.set(place, other);
        place -= 1;
        assert(buffers@ =~= moved(before, index as int, place as int));
    }
    proof {
        lemma_moved(before, index as int, place as int);
        if place > 0 {
            assert(buffers@[place - 1] == before[place - 1]);
        }
    }
    if place == index {
        while place + 1 < count && buffer.available > buffers[place + 1].available
            invariant
                index <= place < count,
                count == before.len(),
                buffer == before[index as int],
                buffers@ == moved(before, index as int, place as int),
                index > 0 ==> before[index - 1].available <= buffer.available,
                forall|i: int|
                    index < i <= place ==> (#[trigger] before[i]).available < buffer.available,
            decreases count - place,
        {
            proof {
                lemma_moved(before, index as int, place as int);
                lemma_moved(before, index as int, place + 1);
            }
            let other: AllocatorBuffer = buffers[place + 1];
            buffers.set(place + 1, buffer);
            buffers.set(place, other);
            place += 1;
            assert(buffers@ =~= moved(before, index as int, place as int));
        }
    }
    proof {
        lemma_moved(before, index as int, place as int);
        if place + 1 < count && place >= index {
            assert(buffers@[place + 1] == before[place + 1]);
        }
        if place < index {
            assert(buffers@[place + 1] == before[place as int]);
        }
        assert(ordered_place(before, index as int, place as int));
        lemma_moved_is_ordered(before, index as int, place as int);
    }
}

proof fn lemma_moved(buffers: Seq<AllocatorBuffer>, index: int, place: int)
    requires
        0 <= index < buffers.len(),
        0 <= place < buffers.len(),
    ensures
        moved(buffers, index, place).len() == buffers.len(),
        moved(buffers, index, place)[place] == buffers[index],
        forall|i: int|
            0 <= i < buffers.len() && i != place ==> #[trigger] moved(buffers, index, place)[i]
                == buffers[if place < i <= index {
                i - 1
            } else if index <= i < place {
                i + 1
            } else {
                i
            }],
{
}

proof fn lemma_moved_is_ordered(buffers: Seq<AllocatorBuffer>, index: int, place: int)
    requires
        0 <= index < buffers.len(),
        is_ordered_except(buffers, index),
        ordered_place(buffers, index, place),
    ensures
        is_ordered(moved(buffers, index, place)),
{
    lemma_moved(buffers, index, place);
    let after = moved(buffers, index, place);
    let source = |i: int|
        if place < i <= index {
            i - 1
        } else if index <= i < place {
            i + 1
        } else {
            i
        };
    assert forall|i: int, j: int| 0 <= i <= j < after.len() implies after[i].available
        <= after[j].available by {
        if i != place && j != place {
            assert(after[i] == buffers[source(i)] && after[j] == buffers[source(j)]);
        } else if i == place && j != place {
            assert(after[j] == buffers[source(j)]);
            if place >= index {
                assert(buffers[place + 1].available <= buffers[j].available);
            } else if j <= index {
                assert(buffers[j - 1].available > buffers[index].available);
            } else {
                assert(buffers[place].available > buffers[index].available);
                assert(buffers[place].available <= buffers[j].available);
            }
        } else if j == place && i != place {
            assert(after[i] == buffers[source(i)]);
            if place <= index {
                assert(buffers[i].available <= buffers[place - 1].available);
            } else if i >= index {
                assert(buffers[i + 1].available < buffers[index].available);
            } else {
                assert(buffers[place].available < buffers[index].available);
                assert(buffers[i].available <= buffers[place].available);
            }
        }
    }
}

/// The buffers of a backend.
#[derive(Debug)]
pub struct Allocator {
    id: usize,
    limits: AllocationLimits,
    buffers: Vec<AllocatorBuffer>,
    next_generation: usize,
    next_pool_number: usize,
    peak_memory_usage: usize,
}

impl Allocator {
    /// What tells apart the allocators.
    pub closed spec fn id(self) -> usize {
        self.id
    }

    /// The limits of the backend.
    pub closed spec fn limits(self) -> AllocationLimits {
        self.limits
    }

    /// The buffers, in the order in which they are tried.
    pub closed spec fn buffers(self) -> Seq<AllocatorBuffer> {
        self.buffers@
    }

    /// The number of allocations so far.
    pub closed spec fn generation(self) -> usize {
        self.next_generation
    }

    /// The number of pools so far.
    pub closed spec fn pools(self) -> usize {
        self.next_pool_number
    }

    /// The size of all buffers when one was last created.
    pub closed spec fn peak(self) -> usize {
        self.peak_memory_usage
    }

    /// The fullest buffer is tried first, and no buffer is listed twice.
    pub open spec fn wf(self) -> bool {
        &&& is_ordered(self.buffers())
        &&& ids_are_distinct(self.buffers())
        &&& self.limits().min_alignment <= self.limits().max_alignment
    }

    /// Some operations lie between an earlier state and this one: the allocator is the same, and no
    /// number of an allocation was taken back.
    pub open spec fn follows(self, earlier: Allocator) -> bool {
        &&& self.id() == earlier.id()
        &&& self.limits() == earlier.limits()
        &&& earlier.generation() <= self.generation()
    }

    /// The state behind a request is `self`, and the state before it was `earlier`.
    pub open spec fn numbers(self, earlier: Allocator, request: AllocationRequest) -> bool {
        &&& self.follows(earlier)
        &&& request.generation == earlier.generation()
        &&& self.generation() == earlier.generation() + 1
    }

    /// An allocator without buffers.
    pub fn new(id: usize, limits: AllocationLimits) -> (allocator: Allocator)
        requires
            limits.min_alignment <= limits.max_alignment,
        ensures
            allocator.wf(),
            allocator.id() == id,
            allocator.limits() == limits,
            allocator.buffers() == Seq::<AllocatorBuffer>::empty(),
            allocator.generation() == 0,
            allocator.pools() == 0,
            allocator.peak() == 0,
    {
        Allocator {
            id,
            limits,
            buffers: Vec::new(),
            next_generation: 0,
            next_pool_number: 0,
            peak_memory_usage: 0,
        }
    }

    /// Numbers an allocation and says what is asked of the range allocators.
    pub fn request(&mut self, size: usize, allocation_type: AllocationType) -> (request:
        AllocationRequest)
        requires
            old(self).wf(),
            0 < size <= usize::MAX / 2 + 1,
            old(self).generation() < usize::MAX,
        ensures
            final(self).wf(),
            final(self).id() == old(self).id(),
            final(self).limits() == old(self).limits(),
            final(self).buffers() == old(self).buffers(),
            final(self).pools() == old(self).pools(),
            final(self).peak() == old(self).peak(),
            final(self).numbers(*old(self), request),
            request.size == size,
            request.alignment == clamped(
                power_at_least(1, size as nat),
                old(self).limits().min_alignment,
                old(self).limits().max_alignment,
            ),
            request.range_type == spec_range_type(allocation_type),
    {
        let generation: usize = self.next_generation;
        self.next_generation = generation + 1;
        AllocationRequest {
            size,
            alignment: allocation_alignment(size, &self.limits),
            range_type: range_type(allocation_type),
            generation,
        }
    }

    pub open spec fn spec_step(self, request: AllocationRequest, asked: usize) -> AllocationStep {
        if asked < self.buffers().len() {
            AllocationStep::Ask { buffer: self.buffers()[asked as int].id }
        } else if request.size < self.limits().granularity {
            AllocationStep::Create { size: self.limits().granularity }
        } else {
            AllocationStep::Create { size: request.size }
        }
    }

    /// What is to be done after the first `asked` buffers had no room: the next buffer is asked, and
    /// where there is none a buffer of at least the granularity is created.
    pub fn step(&self, request: &AllocationRequest, asked: usize) -> (step: AllocationStep)
        ensures
            step == self.spec_step(*request, asked),
    {
        if asked < self.buffers.len() {
            AllocationStep::Ask { buffer: self.buffers[asked].id }
        } else if request.size < self.limits.granularity {
            AllocationStep::Create { size: self.limits.granularity }
        } else {
            AllocationStep::Create { size: request.size }
        }
    }

    /// Notes that the buffer at `index` had room at `start`; `available` of it is left.
    pub fn allocate_existing(
        &mut self,
        request: &AllocationRequest,
        index: usize,
        start: usize,
        available: usize,
    ) -> (allocation: Allocation)
        requires
            old(self).wf(),
            index < old(self).buffers().len(),
            start + request.size <= usize::MAX,
        ensures
            final(self).wf(),
            final(self).id() == old(self).id(),
            final(self).limits() == old(self).limits(),
            final(self).generation() == old(self).generation(),
            final(self).pools() == old(self).pools(),
            final(self).peak() == old(self).peak(),
            ({
                let changed = old(self).buffers().update(
                    index as int,
                    AllocatorBuffer { available, ..old(self).buffers()[index as int] },
                );
                exists|place: int| #[trigger]
                    ordered_place(changed, index as int, place) && final(self).buffers() == moved(
                        changed,
                        index as int,
                        place,
                    )
            }),
            allocation == (Allocation {
                allocator: old(self).id(),
                buffer: old(self).buffers()[index as int].id,
                start,
                end: (start + request.size) as usize,
                range_type: request.range_type,
                generation: request.generation,
                revision: 0,
            }),
    {
        let mut buffer: AllocatorBuffer = self.buffers[index];
        buffer.available = available;
        self.buffers.set(index, buffer);
        let ghost changed = self.buffers@;
        restore_buffer_order(&mut self.buffers, index);
        proof {
            lemma_ids_stay_distinct(changed, index as int, self.buffers@);
        }
        Allocation {
            allocator: self.id,
            buffer: buffer.id,
            start,
            end: start + request.size,
            range_type: request.range_type,
            generation: request.generation,
            revision: 0,
        }
    }

    /// Notes that a buffer was created, that its first bytes were allocated at `start`, and that
    /// `available` of it is left.
    pub fn allocate_new(
        &mut self,
        request: &AllocationRequest,
        id: u64,
        size: usize,
        start: usize,
        available: usize,
    ) -> (allocation: Allocation)
        requires
            old(self).wf(),
            forall|i: int|
                0 <= i < old(self).buffers().len() ==> (#[trigger] old(self).buffers()[i]).id != id,
            start + request.size <= usize::MAX,
            total_size(old(self).buffers()) + size <= usize::MAX,
        ensures
            final(self).wf(),
            final(self).id() == old(self).id(),
            final(self).limits() == old(self).limits(),
            final(self).generation() == old(self).generation(),
            final(self).pools() == old(self).pools(),
            final(self).peak() == total_size(old(self).buffers()) + size,
            ({
                let count = old(self).buffers().len() as int;
                let grown = old(self).buffers().push(AllocatorBuffer { id, size, available });
                exists|place: int| #[trigger]
                    ordered_place(grown, count, place) && final(self).buffers() == moved(
                        grown,
                        count,
                        place,
                    )
            }),
            allocation == (Allocation {
                allocator: old(self).id(),
                buffer: id,
                start,
                end: (start + request.size) as usize,
                range_type: request.range_type,
                generation: request.generation,
                revision: 0,
            }),
    {
        let ghost before = self.buffers@;
        let count: usize = self.buffers.len();
        let total: usize = self.summed_size();
        self.buffers.push(AllocatorBuffer { id, size, available });
        let ghost grown = self.buffers@;
        restore_buffer_order(&mut self.buffers, count);
        proof {
            lemma_ids_stay_distinct(grown, count as int, self.buffers@);
        }
        self.peak_memory_usage = total + size;
        Allocation {
            allocator: self.id,
            buffer: id,
            start,
            end: start + request.size,
            range_type: request.range_type,
            generation: request.generation,
            revision: 0,
        }
    }

    fn summed_size(&self) -> (total: usize)
        requires
            total_size(self.buffers()) <= usize::MAX,
        ensures
            total == total_size(self.buffers()),
    {
        let mut total: usize = 0;
        let mut i: usize = 0;
        while i < self.buffers.len()
            invariant
                i <= self.buffers@.len(),
                total == total_size(self.buffers@.take(i as int)),
                total_size(self.buffers@) <= usize::MAX,
            decreases self.buffers@.len() - i,
        {
            proof {
                let next = self.buffers@.take(i + 1);
                assert(next.drop_last() =~= self.buffers@.take(i as int));
                assert(next.last() == self.buffers@[i as int]);
                lemma_total_size_grows(self.buffers@, i + 1);
            }
            total = total + self.buffers[i].size;
            i += 1;
        }
        assert(self.buffers@.take(i as int) =~= self.buffers@);
        total
    }

    /// A pool that has no allocations yet.
    pub fn create_pool(&mut self, reusable: bool) -> (pool: AllocationPool)
        requires
            old(self).wf(),
        ensures
            final(self).wf(),
            final(self).id() == old(self).id(),
            final(self).limits() == old(self).limits(),
            final(self).buffers() == old(self).buffers(),
            final(self).generation() == old(self).generation(),
            final(self).peak() == old(self).peak(),
            final(self).pools() == if old(self).pools() == usize::MAX {
                0
            } else {
                old(self).pools() + 1
            },
            pool == (AllocationPool { reusable, pool_number: old(self).pools() }),
    {
        let pool_number: usize = self.next_pool_number;
        self.next_pool_number = pool_number.wrapping_add(1);
        AllocationPool { reusable, pool_number }
    }

    /// The size of all buffers when one was last created.
    pub fn peak_memory_usage(&self) -> (peak: usize)
        ensures
            peak == self.peak(),
    {
        self.peak_memory_usage
    }

    /// The position of a buffer.
    fn position(&self, id: u64) -> (position: usize)
        requires
            exists|i: int| 0 <= i < self.buffers().len() && (#[trigger] self.buffers()[i]).id == id,
        ensures
            position < self.buffers().len(),
            self.buffers()[position as int].id == id,
    {
        let mut i: usize = 0;
        while i < self.buffers.len()
            invariant
                i <= self.buffers@.len(),
                exists|j: int|
                    i <= j < self.buffers@.len() && (#[trigger] self.buffers@[j]).id == id,
            decreases self.buffers@.len() - i,
        {
            if self.buffers[i].id == id {
                return i;
            }
            i += 1;
        }
        0
    }

    /// Notes that an allocation of the buffer `id` was released. An empty buffer is given up.
    pub fn free(&mut self, id: u64, state: BufferState) -> (index: usize)
        requires
            old(self).wf(),
            exists|i: int|
                0 <= i < old(self).buffers().len() && (#[trigger] old(self).buffers()[i]).id == id,
        ensures
            final(self).wf(),
            final(self).id() == old(self).id(),
            final(self).limits() == old(self).limits(),
            final(self).generation() == old(self).generation(),
            final(self).pools() == old(self).pools(),
            final(self).peak() == old(self).peak(),
            index < old(self).buffers().len(),
            old(self).buffers()[index as int].id == id,
            if state.is_empty {
                final(self).buffers() == old(self).buffers().remove(index as int)
            } else {
                let changed = old(self).buffers().update(
                    index as int,
                    AllocatorBuffer {
                        available: state.available,
                        ..old(self).buffers()[index as int]
                    },
                );
                exists|place: int| #[trigger]
                    ordered_place(changed, index as int, place) && final(self).buffers() == moved(
                        changed,
                        index as int,
                        place,
                    )
            },
    {
        let index: usize = self.position(id);
        let ghost before = self.buffers@;
        if state.is_empty {
            let removed: AllocatorBuffer = self.buffers.remove(index);
            proof {
                let after = self.buffers@;
                let source = |i: int| if i < index { i } else { i + 1 };
                assert forall|i: int, j: int| 0 <= i <= j < after.len() implies after[i].available
                    <= after[j].available by {
                    assert(after[i] == before[source(i)] && after[j] == before[source(j)]);
                }
                assert forall|i: int, j: int| 0 <= i < j < after.len() implies after[i].id
                    != after[j].id by {
                    assert(after[i] == before[source(i)] && after[j] == before[source(j)]);
                }
            }
        } else {
            let mut buffer: AllocatorBuffer = self.buffers[index];
            buffer.available = state.available;
            self.buffers.set(index, buffer);
            let ghost changed = self.buffers@;
            assert(changed == before.update(
                index as int,
                AllocatorBuffer { available: state.available, ..before[index as int] },
            ));
            restore_buffer_order(&mut self.buffers, index);
            proof {
                lemma_ids_stay_distinct(changed, index as int, self.buffers@);
            }
        }
        index
    }

    /// Notes that the allocations of a pool were released: `states` says what is left of each
    /// buffer. Empty buffers are given up and the others put in order.
    pub fn free_pool(&mut self, states: &[BufferState])
        requires
            old(self).wf(),
            states@.len() == old(self).buffers().len(),
        ensures
            final(self).wf(),
            final(self).id() == old(self).id(),
            final(self).limits() == old(self).limits(),
            final(self).generation() == old(self).generation(),
            final(self).pools() == old(self).pools(),
            final(self).peak() == old(self).peak(),
            final(self).buffers() == retained(
                old(self).buffers(),
                states@,
                states@.len() as int,
            ),
    {
        let ghost before = self.buffers@;
        let mut kept: Vec<AllocatorBuffer> = Vec::new();
        let mut i: usize = 0;
        while i < states.len()
            invariant
                i <= states@.len(),
                states@.len() == before.len(),
                self.buffers@ == before,
                kept@ == retained(before, states@, i as int),
                is_ordered(kept@),
            decreases states@.len() - i,
        {
            if !states[i].is_empty {
                let mut buffer: AllocatorBuffer = self.buffers[i];
                buffer.available = states[i].available;
                insert_ordered(&mut kept, buffer);
            }
            i += 1;
        }
        proof {
            lemma_retained_ids(before, states@, states@.len() as int);
        }
        self.buffers = kept;
    }
}

/// The place of a buffer behind all that are at least as full.
pub open spec fn place_behind(buffers: Seq<AllocatorBuffer>, available: usize) -> int
    decreases buffers.len(),
{
    if buffers.len() == 0 {
        0
    } else if buffers.last().available <= available {
        buffers.len() as int
    } else {
        place_behind(buffers.drop_last(), available)
    }
}

/// The first `count` buffers that are not empty, ordered by how much of them is free; equally full
/// ones stay in their order.
pub open spec fn retained(
    buffers: Seq<AllocatorBuffer>,
    states: Seq<BufferState>,
    count: int,
) -> Seq<AllocatorBuffer>
    decreases count,
{
    if count <= 0 {
        Seq::empty()
    } else {
        let before = retained(buffers, states, count - 1);
        let state = states[count - 1];
        if state.is_empty {
            before
        } else {
            before.insert(
                place_behind(before, state.available),
                AllocatorBuffer { available: state.available, ..buffers[count - 1] },
            )
        }
    }
}

proof fn lemma_place_behind(buffers: Seq<AllocatorBuffer>, available: usize)
    ensures
        0 <= place_behind(buffers, available) <= buffers.len(),
        place_behind(buffers, available) > 0 ==> buffers[place_behind(buffers, available)
            - 1].available <= available,
        forall|i: int|
            place_behind(buffers, available) <= i < buffers.len() ==> (
            #[trigger] buffers[i]).available > available,
    decreases buffers.len(),
{
    if buffers.len() > 0 && buffers.last().available > available {
        let shorter = buffers.drop_last();
        lemma_place_behind(shorter, available);
        assert forall|i: int| place_behind(buffers, available) <= i < buffers.len() implies (
        #[trigger] buffers[i]).available > available by {
            if i < buffers.len() - 1 {
                assert(buffers[i] == shorter[i]);
            }
        }
    }
}

fn insert_ordered(buffers: &mut Vec<AllocatorBuffer>, buffer: AllocatorBuffer)
    requires
        is_ordered(old(buffers)@),
    ensures
        is_ordered(final(buffers)@),
        final(buffers)@ == old(buffers)@.insert(
            place_behind(old(buffers)@, buffer.available),
            buffer,
        ),
{
    let ghost before = buffers@;
    let mut place: usize = buffers.len();
    assert(before.take(place as int) =~= before);
    while place > 0 && buffers[place - 1].available > buffer.available
        invariant
            place <= before.len(),
            buffers@ == before,
            place_behind(before.take(place as int), buffer.available) == place_behind(
                before,
                buffer.available,
            ),
        decreases place,
    {
        proof {
            assert(before.take(place as int).last() == before[place - 1]);
            assert(before.take(place as int).drop_last() =~= before.take(place - 1));
        }
        place -= 1;
    }
    proof {
        if place > 0 {
            assert(before.take(place as int).last() == before[place - 1]);
        }
        lemma_place_behind(before, buffer.available);
    }
    buffers.insert(place, buffer);
    proof {
        let after = buffers@;
        let source = |i: int| if i < place { i } else { i - 1 };
        assert forall|i: int, j: int| 0 <= i <= j < after.len() implies after[i].available
            <= after[j].available by {
            if i == place && j != place {
                assert(after[j] == before[j - 1]);
            } else if j == place && i != place {
                assert(after[i] == before[i]);
                assert(before[i].available <= before[place - 1].available);
            } else if i != place {
                assert(after[i] == before[source(i)] && after[j] == before[source(j)]);
            }
        }
    }
}

/// A buffer of the given number is among the first `count`.
spec fn has_id(buffers: Seq<AllocatorBuffer>, count: int, id: u64) -> bool {
    exists|i: int| 0 <= i < count && (#[trigger] buffers[i]).id == id
}

proof fn lemma_retained_ids(buffers: Seq<AllocatorBuffer>, states: Seq<BufferState>, count: int)
    requires
        0 <= count <= buffers.len(),
        states.len() == buffers.len(),
        ids_are_distinct(buffers),
    ensures
        ids_are_distinct(retained(buffers, states, count)),
        forall|i: int|
            0 <= i < retained(buffers, states, count).len() ==> has_id(
                buffers,
                count,
                (#[trigger] retained(buffers, states, count)[i]).id,
            ),
    decreases count,
{
    if count > 0 {
        lemma_retained_ids(buffers, states, count - 1);
        let before = retained(buffers, states, count - 1);
        let after = retained(buffers, states, count);
        let added = buffers[count - 1].id;
        assert forall|i: int| 0 <= i < before.len() implies (#[trigger] before[i]).id != added
            && has_id(buffers, count, before[i].id) by {
            assert(has_id(buffers, count - 1, before[i].id));
            let j = choose|j: int| 0 <= j < count - 1 && (#[trigger] buffers[j]).id == before[i].id;
            assert(buffers[j].id != buffers[count - 1].id);
        }
        if !states[count - 1].is_empty {
            let place = place_behind(before, states[count - 1].available);
            lemma_place_behind(before, states[count - 1].available);
            let source = |i: int| if i < place { i } else { i - 1 };
            assert(has_id(buffers, count, added)) by {
                assert(buffers[count - 1].id == added);
            }
            assert forall|i: int| 0 <= i < after.len() implies has_id(
                buffers,
                count,
                (#[trigger] after[i]).id,
            ) by {
                if i != place {
                    assert(after[i] == before[source(i)]);
                }
            }
            assert forall|i: int, j: int| 0 <= i < j < after.len() implies after[i].id
                != after[j].id by {
                if i == place {
                    assert(after[j] == before[j - 1]);
                } else if j == place {
                    assert(after[i] == before[i]);
                } else {
                    assert(after[i] == before[source(i)] && after[j] == before[source(j)]);
                }
            }
        }
    }
}

proof fn lemma_ids_stay_distinct(
    before: Seq<AllocatorBuffer>,
    index: int,
    after: Seq<AllocatorBuffer>,
)
    requires
        0 <= index < before.len(),
        ids_are_distinct(before),
        exists|place: int| #[trigger]
            ordered_place(before, index, place) && after == moved(before, index, place),
    ensures
        ids_are_distinct(after),
{
    let place = choose|place: int| #[trigger]
        ordered_place(before, index, place) && after == moved(before, index, place);
    lemma_moved(before, index, place);
    let source = |i: int|
        if i == place {
            index
        } else if place < i <= index {
            i - 1
        } else if index <= i < place {
            i + 1
        } else {
            i
        };
    assert forall|i: int, j: int| 0 <= i < j < after.len() implies after[i].id != after[j].id by {
        assert(after[i] == before[source(i)] && after[j] == before[source(j)]);
        assert(source(i) != source(j));
    }
}

proof fn lemma_total_size_grows(buffers: Seq<AllocatorBuffer>, count: int)
    requires
        0 <= count <= buffers.len(),
    ensures
        0 <= total_size(buffers.take(count)) <= total_size(buffers),
    decreases buffers.len(),
{
    if count == buffers.len() {
        assert(buffers.take(count) =~= buffers);
        if count > 0 {
            lemma_total_size_grows(buffers.drop_last(), count - 1);
        }
    } else {
        lemma_total_size_grows(buffers.drop_last(), count);
        assert(buffers.drop_last().take(count) =~= buffers.take(count));
    }
}

/// The allocation that an allocator makes for a request, however often it was written since.
pub open spec fn is_made_for(
    allocation: Allocation,
    allocator: Allocator,
    request: AllocationRequest,
) -> bool {
    &&& allocation.allocator == allocator.id()
    &&& allocation.generation == request.generation
    &&& allocation.end == allocation.start + request.size
}

/// Two allocations of one allocator have different contents, whatever was written to them, whatever
/// happened between the two requests, and also where the first was released and both are the same
/// range of a buffer. Each has the size that was asked for.
pub proof fn law_allocations_have_their_own_identity(
    before: Allocator,
    between: Allocator,
    later: Allocator,
    behind: Allocator,
    first_request: AllocationRequest,
    second_request: AllocationRequest,
    first: Allocation,
    second: Allocation,
)
    requires
        between.numbers(before, first_request),
        later.follows(between),
        behind.numbers(later, second_request),
        is_made_for(first, between, first_request),
        is_made_for(second, behind, second_request),
    ensures
        first.spec_identity() != second.spec_identity(),
        first.end - first.start == first_request.size,
        second.end - second.start == second_request.size,
{
}

/// What lies between three states of an allocator, one behind the other, lies between the outer two.
pub proof fn law_operations_follow_each_other(first: Allocator, second: Allocator, third: Allocator)
    requires
        second.follows(first),
        third.follows(second),
    ensures
        third.follows(first),
{
}

/// An alignment within the limits is the least power of two that is not smaller than the size: less
/// than twice the size.
pub proof fn law_alignment_is_tight(size: nat, limits: AllocationLimits)
    requires
        size > 0,
        limits.min_alignment <= power_at_least(1, size) <= limits.max_alignment,
    ensures
        size <= clamped(power_at_least(1, size), limits.min_alignment, limits.max_alignment),
        size > 1 ==> clamped(power_at_least(1, size), limits.min_alignment, limits.max_alignment)
            < 2 * size,
{
    lemma_power_at_least(1, size);
}

/// A buffer that moves to its place leaves the others in their order: the same buffers are there
/// before and behind.
pub proof fn law_moving_keeps_the_buffers(buffers: Seq<AllocatorBuffer>, index: int, place: int)
    requires
        0 <= index < buffers.len(),
        0 <= place < buffers.len(),
    ensures
        moved(buffers, index, place).to_multiset() == buffers.to_multiset(),
{
    broadcast use vstd::seq_lib::group_to_multiset_ensures;

    let removed = buffers.remove(index);
    let buffer = buffers[index];
    assert(buffers =~= removed.insert(index, buffer));
    vstd::seq_lib::to_multiset_insert(removed, index, buffer);
    vstd::seq_lib::to_multiset_insert(removed, place, buffer);
}

proof fn lemma_powers_of_two(exponent: nat, size: nat)
    ensures
        exists|power: nat|
            exponent <= power && #[trigger] vstd::arithmetic::power2::pow2(power) == power_at_least(
                vstd::arithmetic::power2::pow2(exponent),
                size,
            ),
    decreases
            if vstd::arithmetic::power2::pow2(exponent) < size {
                size - vstd::arithmetic::power2::pow2(exponent)
            } else {
                0
            },
{
    let from = vstd::arithmetic::power2::pow2(exponent);
    vstd::arithmetic::power2::lemma_pow2_pos(exponent);
    if from < size {
        vstd::arithmetic::power2::lemma_pow2_unfold(exponent + 1);
        assert(vstd::arithmetic::power2::pow2(exponent + 1) == 2 * from);
        lemma_powers_of_two(exponent + 1, size);
    }
}

/// An alignment is a power of two that the size does not pass and that is less than twice the size, but for
/// the limits of the backend.
pub proof fn law_alignments_are_powers_of_two(size: usize, limits: &AllocationLimits, alignment: usize)
    requires
        0 < size,
        limits.min_alignment <= limits.max_alignment,
        call_ensures(allocation_alignment, (size, limits), alignment),
    ensures
        limits.min_alignment <= alignment <= limits.max_alignment,
        limits.min_alignment < alignment < limits.max_alignment ==> size <= alignment < 2 * size && exists|
            power: nat,
        | #[trigger] vstd::arithmetic::power2::pow2(power) == alignment,
        size > limits.max_alignment ==> alignment == limits.max_alignment,
        2 * size <= limits.min_alignment ==> alignment == limits.min_alignment,
{
    lemma_power_at_least(1, size as nat);
    vstd::arithmetic::power2::lemma2_to64();
    lemma_powers_of_two(0, size as nat);
}

/// Memory of a pool may have been used before unless the host sees it, and may be used behind unless the host
/// sees it in a pool that is used again.
pub proof fn law_host_memory_is_not_shared(allocation_type: AllocationType, range: RangeAllocationType)
    requires
        call_ensures(range_type, (allocation_type,), range),
    ensures
        range is Global <==> allocation_type is Global,
        allocation_type matches AllocationType::Pooled { pool, cpu_available } ==> (range
            matches RangeAllocationType::Pooled { pool: number, can_alias_before, can_alias_after }
            && number == pool.pool_number && (can_alias_before <==> !cpu_available) && (
        cpu_available && pool.reusable ==> !can_alias_after) && (!cpu_available ==> can_alias_after) && (
        !pool.reusable ==> can_alias_after)),
{
}

/// A request asks for the size, the alignment of that size and what the type allows; its number is new.
pub proof fn law_requests_are_numbered(
    allocator: &mut Allocator,
    size: usize,
    allocation_type: AllocationType,
    request: AllocationRequest,
    alignment: usize,
    range: RangeAllocationType,
)
    requires
        call_ensures(Allocator::request, (allocator, size, allocation_type), request),
        call_ensures(allocation_alignment, (size, &old(allocator).limits()), alignment),
        call_ensures(range_type, (allocation_type,), range),
    ensures
        request.size == size,
        request.alignment == alignment,
        request.range_type == range,
        request.generation == old(allocator).generation(),
        final(allocator).generation() > request.generation,
        final(allocator).buffers() == old(allocator).buffers(),
        final(allocator).peak() == old(allocator).peak(),
        final(allocator).pools() == old(allocator).pools(),
{
}

/// Every buffer is asked before one is created, and that holds the request and is no smaller than the
/// granularity, and no greater than the greater of the two.
pub proof fn law_buffers_are_asked_before_one_is_created(
    allocator: Allocator,
    request: AllocationRequest,
    asked: usize,
    step: AllocationStep,
)
    requires
        call_ensures(Allocator::step, (&allocator, &request, asked), step),
    ensures
        step is Ask <==> asked < allocator.buffers().len(),
        step matches AllocationStep::Ask { buffer } ==> buffer == allocator.buffers()[asked as int].id,
        step matches AllocationStep::Create { size } ==> size >= request.size && size
            >= allocator.limits().granularity && (size == request.size || size
            == allocator.limits().granularity),
{
}

/// The allocation in a buffer that had room is the range that was given, of the size that was asked for, and
/// what is left of that buffer is noted; the other buffers stay as they are, and all in order.
pub proof fn law_existing_buffers_are_shared(
    allocator: &mut Allocator,
    request: AllocationRequest,
    index: usize,
    start: usize,
    available: usize,
    allocation: Allocation,
)
    requires
        index < old(allocator).buffers().len(),
        start + request.size <= usize::MAX,
        call_ensures(
            Allocator::allocate_existing,
            (allocator, &request, index, start, available),
            allocation,
        ),
    ensures
        allocation.start == start,
        allocation.end - allocation.start == request.size,
        allocation.buffer == old(allocator).buffers()[index as int].id,
        allocation.allocator == old(allocator).id(),
        allocation.range_type == request.range_type,
        allocation.generation == request.generation,
        allocation.revision == 0,
        is_ordered(final(allocator).buffers()),
        final(allocator).buffers().to_multiset() == old(allocator).buffers().update(
            index as int,
            AllocatorBuffer {
                id: allocation.buffer,
                size: old(allocator).buffers()[index as int].size,
                available,
            },
        ).to_multiset(),
        final(allocator).peak() == old(allocator).peak(),
{
    let changed = old(allocator).buffers().update(
        index as int,
        AllocatorBuffer { available, ..old(allocator).buffers()[index as int] },
    );
    let place = choose|place: int| #[trigger]
        ordered_place(changed, index as int, place) && final(allocator).buffers() == moved(
            changed,
            index as int,
            place,
        );
    law_moving_keeps_the_buffers(changed, index as int, place);
}

/// The allocation in a buffer that was created is the range that was given, of the size that was asked for;
/// the buffer is added to the others, and what all of them take is noted.
pub proof fn law_new_buffers_are_added(
    allocator: &mut Allocator,
    request: AllocationRequest,
    id: u64,
    size: usize,
    start: usize,
    available: usize,
    allocation: Allocation,
)
    requires
        start + request.size <= usize::MAX,
        call_ensures(
            Allocator::allocate_new,
            (allocator, &request, id, size, start, available),
            allocation,
        ),
    ensures
        allocation.start == start,
        allocation.end - allocation.start == request.size,
        allocation.buffer == id,
        allocation.allocator == old(allocator).id(),
        allocation.range_type == request.range_type,
        allocation.generation == request.generation,
        allocation.revision == 0,
        is_ordered(final(allocator).buffers()),
        final(allocator).buffers().to_multiset() == old(allocator).buffers().to_multiset().insert(
            (AllocatorBuffer { id, size, available }),
        ),
        final(allocator).peak() == total_size(old(allocator).buffers()) + size,
{
    let buffers = old(allocator).buffers();
    let count = buffers.len() as int;
    let grown = buffers.push(AllocatorBuffer { id, size, available });
    let place = choose|place: int| #[trigger]
        ordered_place(grown, count, place) && final(allocator).buffers() == moved(grown, count, place);
    law_moving_keeps_the_buffers(grown, count, place);
    vstd::seq_lib::to_multiset_build(buffers, AllocatorBuffer { id, size, available });
}

/// A buffer that became empty is given up, and of one that did not it is noted what is free; all other buffers
/// stay.
pub proof fn law_empty_buffers_are_given_up(
    allocator: &mut Allocator,
    id: u64,
    state: BufferState,
    index: usize,
)
    requires
        old(allocator).wf(),
        call_ensures(Allocator::free, (allocator, id, state), index),
    ensures
        is_ordered(final(allocator).buffers()),
        ({
            let buffers = old(allocator).buffers();
            let released = buffers[index as int];
            &&& released.id == id
            &&& state.is_empty ==> final(allocator).buffers().to_multiset()
                == buffers.to_multiset().remove(released)
            &&& !state.is_empty ==> final(allocator).buffers().to_multiset() == buffers.update(
                index as int,
                AllocatorBuffer { id, size: released.size, available: state.available },
            ).to_multiset()
        }),
        final(allocator).generation() == old(allocator).generation(),
        final(allocator).peak() == old(allocator).peak(),
{
    let buffers = old(allocator).buffers();
    if state.is_empty {
        vstd::seq_lib::to_multiset_remove(buffers, index as int);
    } else {
        let changed = buffers.update(
            index as int,
            AllocatorBuffer { available: state.available, ..buffers[index as int] },
        );
        let place = choose|place: int| #[trigger]
            ordered_place(changed, index as int, place) && final(allocator).buffers() == moved(
                changed,
                index as int,
                place,
            );
        law_moving_keeps_the_buffers(changed, index as int, place);
    }
}

proof fn lemma_retained(buffers: Seq<AllocatorBuffer>, states: Seq<BufferState>, count: int, at: int)
    requires
        0 <= count <= buffers.len(),
        buffers.len() == states.len(),
        0 <= at < count,
        !states[at].is_empty,
    ensures
        retained(buffers, states, count).contains(
            (AllocatorBuffer { available: states[at].available, ..buffers[at] }),
        ),
    decreases count,
{
    let before = retained(buffers, states, count - 1);
    let state = states[count - 1];
    let kept = AllocatorBuffer { available: states[at].available, ..buffers[at] };
    if at < count - 1 {
        lemma_retained(buffers, states, count - 1, at);
    }
    if !state.is_empty {
        let place = place_behind(before, state.available);
        lemma_place_behind(before, state.available);
        let added = AllocatorBuffer { available: state.available, ..buffers[count - 1] };
        let all = before.insert(place, added);
        if at < count - 1 {
            let i = choose|i: int| 0 <= i < before.len() && before[i] == kept;
            if i < place {
                assert(all[i] == kept);
            } else {
                assert(all[i + 1] == kept);
            }
        } else {
            assert(all[place] == kept);
        }
    }
}

proof fn lemma_retained_count(buffers: Seq<AllocatorBuffer>, states: Seq<BufferState>, count: int)
    requires
        0 <= count <= buffers.len(),
        buffers.len() == states.len(),
    ensures
        retained(buffers, states, count).len() == states.take(count).filter(
            |state: BufferState| !state.is_empty,
        ).len(),
    decreases count,
{
    reveal(Seq::filter);
    let occupied = |state: BufferState| !state.is_empty;
    if count > 0 {
        lemma_retained_count(buffers, states, count - 1);
        assert(states.take(count).drop_last() =~= states.take(count - 1));
        lemma_place_behind(
            retained(buffers, states, count - 1),
            states[count - 1].available,
        );
    }
}

/// Behind the release of a pool the buffers that are not empty are there, each with what is free of it, and
/// no others.
pub proof fn law_released_pool_leaves_occupied_buffers(
    allocator: &mut Allocator,
    states: &[BufferState],
    at: int,
)
    requires
        states@.len() == old(allocator).buffers().len(),
        call_ensures(Allocator::free_pool, (allocator, states), ()),
        0 <= at < states@.len(),
    ensures
        is_ordered(final(allocator).buffers()),
        !states@[at].is_empty ==> final(allocator).buffers().contains(
            (AllocatorBuffer {
                id: old(allocator).buffers()[at].id,
                size: old(allocator).buffers()[at].size,
                available: states@[at].available,
            }),
        ),
        final(allocator).buffers().len() == states@.filter(|state: BufferState| !state.is_empty).len(),
        final(allocator).peak() == old(allocator).peak(),
{
    if !states@[at].is_empty {
        lemma_retained(old(allocator).buffers(), states@, states@.len() as int, at);
    }
    lemma_retained_count(old(allocator).buffers(), states@, states@.len() as int);
    assert(states@.take(states@.len() as int) =~= states@);
}

/// Two pools that are created one behind the other have different numbers, and are used again as was said.
pub proof fn law_pools_are_told_apart(
    allocator: &mut Allocator,
    later: &mut Allocator,
    reusable: bool,
    again: bool,
    first: AllocationPool,
    second: AllocationPool,
)
    requires
        *old(later) == *final(allocator),
        call_ensures(Allocator::create_pool, (allocator, reusable), first),
        call_ensures(Allocator::create_pool, (later, again), second),
    ensures
        first.pool_number != second.pool_number,
        first.reusable == reusable,
        second.reusable == again,
        final(later).buffers() == old(allocator).buffers(),
        final(later).generation() == old(allocator).generation(),
{
}

/// A new allocator has no buffers and has given out nothing.
pub proof fn law_new_allocator_is_empty(
    id: usize,
    limits: AllocationLimits,
    allocator: Allocator,
    peak: usize,
)
    requires
        call_ensures(Allocator::new, (id, limits), allocator),
        call_ensures(Allocator::peak_memory_usage, (&allocator,), peak),
    ensures
        allocator.buffers().len() == 0,
        allocator.id() == id,
        allocator.limits() == limits,
        allocator.generation() == 0,
        peak == 0,
{
}

/// A write changes nothing of an allocation but how often it was written; its identity is another one then.
pub proof fn law_written_allocations_keep_their_range(
    allocation: &mut Allocation,
    before: AllocationIdentity,
    after: AllocationIdentity,
    size: usize,
)
    requires
        old(allocation).revision < usize::MAX,
        call_ensures(Allocation::mark_written, (allocation,), ()),
        call_ensures(Allocation::identity, (&*old(allocation),), before),
        call_ensures(Allocation::identity, (&*final(allocation),), after),
        call_ensures(Allocation::size, (&*final(allocation),), size),
    ensures
        before != after,
        before.allocator == after.allocator == old(allocation).allocator,
        before.generation == after.generation == old(allocation).generation,
        final(allocation).buffer == old(allocation).buffer,
        final(allocation).start == old(allocation).start,
        final(allocation).end == old(allocation).end,
        final(allocation).range_type == old(allocation).range_type,
        old(allocation).start <= old(allocation).end ==> size == old(allocation).end - old(
            allocation,
        ).start,
        old(allocation).start > old(allocation).end ==> size == 0,
{
}

} // verus!
