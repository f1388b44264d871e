//! Pools of zeroed packet buffers in three sizes.

use std::collections::VecDeque;

use vstd::prelude::*;

verus! {

/// `bytes::BytesMut`, kept opaque.
#[verifier::external_type_specification]
#[verifier::external_body]
pub struct ExBytesMut(bytes::BytesMut);

/// The bytes that a buffer holds.
pub uninterp spec fn buffer_bytes(buffer: bytes::BytesMut) -> Seq<u8>;

/// `BytesMut::with_capacity`: a new buffer holds nothing.
pub assume_specification[ bytes::BytesMut::with_capacity ](capacity: usize) -> (buffer:
    bytes::BytesMut)
    requires
        capacity <= isize::MAX,
    ensures
        buffer_bytes(buffer) == Seq::<u8>::empty(),
;

/// `BytesMut::clear`: the buffer holds nothing any more.
pub assume_specification[ bytes::BytesMut::clear ](buffer: &mut bytes::BytesMut)
    ensures
        buffer_bytes(*final(buffer)) == Seq::<u8>::empty(),
;

/// `BytesMut::resize`: a longer buffer is cut off, and a shorter one is filled up with `value`.
pub assume_specification[ bytes::BytesMut::resize ](
    buffer: &mut bytes::BytesMut,
    new_len: usize,
    value: u8,
)
    requires
        new_len <= isize::MAX,
    ensures
        buffer_bytes(*final(buffer)) == if new_len <= buffer_bytes(*old(buffer)).len() {
            buffer_bytes(*old(buffer)).take(new_len as int)
        } else {
            buffer_bytes(*old(buffer)) + Seq::new(
                (new_len - buffer_bytes(*old(buffer)).len()) as nat,
                |i: int| value,
            )
        },
;

/// `BytesMut::capacity`: how many bytes the buffer has room for, those that it holds included. How
/// much more that is depends on the allocator and is not stated.
pub assume_specification[ bytes::BytesMut::capacity ](buffer: &bytes::BytesMut) -> (capacity: usize)
    ensures
        capacity >= buffer_bytes(*buffer).len(),
;

/// So many zeros.
pub open spec fn zeros(n: nat) -> Seq<u8> {
    Seq::new(n, |i: int| 0u8)
}

/// What a pool is tuned for: 64-bit ARM gets larger ones.
#[derive(Debug, Clone, Copy, PartialEq, Eq, Structural)]
pub enum Tuning {
    Standard,
    Arm64,
}

impl Tuning {
    /// Percentage of buffers from the shelf above which the shelves shrink: 95, or 98 on ARM.
    pub open spec fn spec_shrink_threshold(self) -> int {
        match self {
            Tuning::Standard => 95,
            Tuning::Arm64 => 98,
        }
    }

    /// Percentage of buffers from the shelf above which the shelves shrink.
    pub fn shrink_threshold(self) -> (percent: u128)
        ensures
            percent == self.spec_shrink_threshold(),
    {
        match self {
            Tuning::Standard => 95,
            Tuning::Arm64 => 98,
        }
    }

    /// Seconds between two rounds of maintenance: 60, or 30 on ARM.
    pub fn maintenance_interval_secs(self) -> (secs: u64)
        ensures
            secs == match self {
                Tuning::Standard => 60u64,
                Tuning::Arm64 => 30u64,
            },
    {
        match self {
            Tuning::Standard => 60,
            Tuning::Arm64 => 30,
        }
    }
}

/// Sizes of buffers.
#[derive(Debug, Clone, Copy, PartialEq, Eq, Structural)]
pub enum SizeClass {
    Small,
    Medium,
    Large,
}

impl SizeClass {
    /// Length of a buffer: 64, 1024 or 8192 bytes.
    pub open spec fn spec_size(self) -> usize {
        match self {
            SizeClass::Small => 64,
            SizeClass::Medium => 1024,
            SizeClass::Large => 8192,
        }
    }

    /// The most buffers that are kept: 1000, 500 or 100, and twice as many on ARM.
    pub open spec fn spec_max_pooled(self, tuning: Tuning) -> usize {
        match (self, tuning) {
            (SizeClass::Small, Tuning::Standard) => 1000,
            (SizeClass::Medium, Tuning::Standard) => 500,
            (SizeClass::Large, Tuning::Standard) => 100,
            (SizeClass::Small, Tuning::Arm64) => 2000,
            (SizeClass::Medium, Tuning::Arm64) => 1000,
            (SizeClass::Large, Tuning::Arm64) => 200,
        }
    }

    /// Buffers that are made in advance: a tenth of those that are kept at most.
    pub open spec fn spec_prefilled(self, tuning: Tuning) -> usize {
        self.spec_max_pooled(tuning) / 10
    }

    /// What the count of allocations starts at: 200, 100 or 20, however many buffers are made in
    /// advance.
    pub open spec fn spec_initial_allocated(self) -> usize {
        match self {
            SizeClass::Small => 200,
            SizeClass::Medium => 100,
            SizeClass::Large => 20,
        }
    }

    /// What the count of allocations starts at.
    pub fn initial_allocated(self) -> (n: usize)
        ensures
            n == self.spec_initial_allocated(),
    {
        match self {
            SizeClass::Small => 200,
            SizeClass::Medium => 100,
            SizeClass::Large => 20,
        }
    }

    /// Length of a buffer.
    pub fn size(self) -> (n: usize)
        ensures
            n == self.spec_size(),
    {
        match self {
            SizeClass::Small => 64,
            SizeClass::Medium => 1024,
            SizeClass::Large => 8192,
        }
    }

    /// The most buffers that are kept.
    pub fn max_pooled(self, tuning: Tuning) -> (n: usize)
        ensures
            n == self.spec_max_pooled(tuning),
    {
        match (self, tuning) {
            (SizeClass::Small, Tuning::Standard) => 1000,
            (SizeClass::Medium, Tuning::Standard) => 500,
            (SizeClass::Large, Tuning::Standard) => 100,
            (SizeClass::Small, Tuning::Arm64) => 2000,
            (SizeClass::Medium, Tuning::Arm64) => 1000,
            (SizeClass::Large, Tuning::Arm64) => 200,
        }
    }
}

/// Buffers of one size that are ready for use, and what has become of others.
#[verifier::ext_equal]
pub struct Shelf {
    /// The buffers, the next one to be used first.
    pub pooled: Seq<Seq<u8>>,
    /// Buffers that were taken from the shelf.
    pub hits: usize,
    /// Buffers that had to be made because the shelf was empty.
    pub misses: usize,
    /// A running count of allocations: where it starts is fixed, one more for each buffer that
    /// had to be made, one less for each that came back to a full shelf. Buffers that are dropped
    /// otherwise stay counted.
    pub allocated: usize,
}

impl Shelf {
    /// All buffers are zeroed and of the right size, and there are not too many.
    pub open spec fn wf(self, class: SizeClass, tuning: Tuning) -> bool {
        &&& self.pooled.len() <= class.spec_max_pooled(tuning)
        &&& forall|i: int|
            0 <= i < self.pooled.len() ==> #[trigger] self.pooled[i] == zeros(
                class.spec_size() as nat,
            )
    }

    /// The shelf when the pool is set up.
    pub open spec fn initial(class: SizeClass, tuning: Tuning) -> Shelf {
        Shelf {
            pooled: Seq::new(
                class.spec_prefilled(tuning) as nat,
                |i: int| zeros(class.spec_size() as nat),
            ),
            hits: 0,
            misses: 0,
            allocated: class.spec_initial_allocated(),
        }
    }

    /// The shelf after a buffer has been taken.
    pub open spec fn taken(self) -> Shelf {
        if self.pooled.len() > 0 {
            Shelf { pooled: self.pooled.drop_first(), hits: self.hits.wrapping_add(1), ..self }
        } else {
            Shelf {
                misses: self.misses.wrapping_add(1),
                allocated: self.allocated.wrapping_add(1),
                ..self
            }
        }
    }

    /// The shelf after a buffer with room for `capacity` bytes has been given back: one that is
    /// much too small or too large is not kept.
    pub open spec fn given_back(
        self,
        class: SizeClass,
        tuning: Tuning,
        capacity: usize,
    ) -> Shelf {
        if !(class.spec_size() / 2 <= capacity <= class.spec_size() * 2) {
            self
        } else if self.pooled.len() < class.spec_max_pooled(tuning) {
            Shelf { pooled: self.pooled.push(zeros(class.spec_size() as nat)), ..self }
        } else {
            Shelf { allocated: self.allocated.wrapping_sub(1), ..self }
        }
    }

    /// The shelf with at most half of the buffers that it can hold.
    pub open spec fn shrunk(self, class: SizeClass, tuning: Tuning) -> Shelf {
        let limit = class.spec_max_pooled(tuning) / 2;
        if self.pooled.len() > limit {
            Shelf { pooled: self.pooled.take(limit as int), ..self }
        } else {
            self
        }
    }

    /// Whether more of the buffers came from the shelf than the threshold says.
    pub open spec fn rarely_misses(self, tuning: Tuning) -> bool {
        self.hits * 100 > (self.hits + self.misses) * tuning.spec_shrink_threshold()
    }
}

/// Buffers of one size.
pub struct SizePool {
    class: SizeClass,
    tuning: Tuning,
    buffers: VecDeque<bytes::BytesMut>,
    hits: usize,
    misses: usize,
    allocated: usize,
}

impl View for SizePool {
    type V = Shelf;

    closed spec fn view(&self) -> Shelf {
        Shelf {
            pooled: self.buffers@.map_values(|buffer: bytes::BytesMut| buffer_bytes(buffer)),
            hits: self.hits,
            misses: self.misses,
            allocated: self.allocated,
        }
    }
}

fn zeroed_buffer(size: usize) -> (buffer: bytes::BytesMut)
    requires
        size <= 8192,
    ensures
        buffer_bytes(buffer) == zeros(size as nat),
{
    let mut buffer = bytes::BytesMut::with_capacity(size);
    buffer.resize(size, 0);
    assert(buffer_bytes(buffer) =~= zeros(size as nat));
    buffer
}

impl SizePool {
    pub closed spec fn spec_class(&self) -> SizeClass {
        self.class
    }

    pub closed spec fn spec_tuning(&self) -> Tuning {
        self.tuning
    }

    pub open spec fn wf(&self) -> bool {
        self@.wf(self.spec_class(), self.spec_tuning())
    }

    /// A shelf with some buffers made in advance.
    pub fn new(class: SizeClass, tuning: Tuning) -> (pool: Self)
        ensures
            pool.wf(),
            pool.spec_class() == class,
            pool.spec_tuning() == tuning,
            pool@ == Shelf::initial(class, tuning),
    {
        let mut buffers: VecDeque<bytes::BytesMut> = VecDeque::with_capacity(
            class.max_pooled(tuning),
        );
        let prefilled: usize = class.max_pooled(tuning) / 10;
        let mut i: usize = 0;
        while i < prefilled
            invariant
                i <= prefilled,
                buffers@.len() == i,
                forall|j: int|
                    0 <= j < i ==> buffer_bytes(#[trigger] buffers@[j]) == zeros(
                        class.spec_size() as nat,
                    ),
            decreases prefilled - i,
        {
            buffers.push_back(zeroed_buffer(class.size()));
            i = i + 1;
        }
        let pool = SizePool {
            class,
            tuning,
            buffers,
            hits: 0,
            misses: 0,
            allocated: class.initial_allocated(),
        };
        assert(pool@ =~= Shelf::initial(class, tuning));
        pool
    }

    /// A zeroed buffer, from the shelf if there is one.
    pub fn acquire(&mut self) -> (buffer: bytes::BytesMut)
        requires
            old(self).wf(),
        ensures
            final(self).wf(),
            final(self).spec_class() == old(self).spec_class(),
            final(self).spec_tuning() == old(self).spec_tuning(),
            final(self)@ == old(self)@.taken(),
            buffer_bytes(buffer) == zeros(old(self).spec_class().spec_size() as nat),
    {
        let ghost before = self.buffers@;
        match self.buffers.pop_front() {
            Some(buffer) => {
                let mut buffer = buffer;
                self.hits = self.hits.wrapping_add(1);
                proof {
                    let after = self.buffers@.map_values(
                        |buffer: bytes::BytesMut| buffer_bytes(buffer),
                    );
                    assert(after =~= old(self)@.pooled.drop_first());
                    assert forall|i: int| 0 <= i < after.len() implies #[trigger] after[i] == zeros(
                        self.class.spec_size() as nat,
                    ) by {
                        assert(after[i] == old(self)@.pooled[i + 1]);
                    }
                }
                buffer.clear();
                buffer.resize(self.class.size(), 0);
                assert(buffer_bytes(buffer) =~= zeros(self.class.spec_size() as nat));
                buffer
            },
            None => {
                self.misses = self.misses.wrapping_add(1);
                self.allocated = self.allocated.wrapping_add(1);
                assert(self.buffers@ =~= before);
                zeroed_buffer(self.class.size())
            },
        }
    }

    /// Gives a buffer with room for `capacity` bytes back.
    pub fn release_sized(&mut self, buffer: bytes::BytesMut, capacity: usize)
        requires
            old(self).wf(),
        ensures
            final(self).wf(),
            final(self).spec_class() == old(self).spec_class(),
            final(self).spec_tuning() == old(self).spec_tuning(),
            final(self)@ == old(self)@.given_back(
                    old(self).spec_class(),
                    old(self).spec_tuning(),
                    capacity,
                ),
    {
        if capacity >= self.class.size() / 2 && capacity <= self.class.size() * 2 {
            let mut buffer = buffer;
            buffer.clear();
            buffer.resize(self.class.size(), 0);
            assert(buffer_bytes(buffer) =~= zeros(self.class.spec_size() as nat));
            if self.buffers.len() < self.class.max_pooled(self.tuning) {
                self.buffers.push_back(buffer);
                proof {
                    let after = self.buffers@.map_values(
                        |buffer: bytes::BytesMut| buffer_bytes(buffer),
                    );
                    assert(after =~= old(self)@.pooled.push(
                        zeros(self.class.spec_size() as nat),
                    ));
                    assert forall|i: int| 0 <= i < after.len() implies #[trigger] after[i] == zeros(
                        self.class.spec_size() as nat,
                    ) by {
                        if i < old(self)@.pooled.len() {
                            assert(after[i] == old(self)@.pooled[i]);
                        }
                    }
                }
            } else {
                self.allocated = self.allocated.wrapping_sub(1);
            }
        }
    }

    /// Gives a buffer back.
    pub fn release(&mut self, buffer: bytes::BytesMut)
        requires
            old(self).wf(),
        ensures
            final(self).wf(),
            final(self).spec_class() == old(self).spec_class(),
            final(self).spec_tuning() == old(self).spec_tuning(),
            exists|capacity: usize|
                capacity >= buffer_bytes(buffer).len() && final(self)@
                    == #[trigger] old(self)@.given_back(
                    old(self).spec_class(),
                    old(self).spec_tuning(),
                    capacity,
                ),
            buffer_bytes(buffer).len() > 2 * old(self).spec_class().spec_size() ==> final(self)@
                == old(self)@,
    {
        let capacity: usize = buffer.capacity();
        self.release_sized(buffer, capacity)
    }

    fn clear(&mut self)
        requires
            old(self).wf(),
        ensures
            final(self).wf(),
            final(self).spec_class() == old(self).spec_class(),
            final(self).spec_tuning() == old(self).spec_tuning(),
            final(self)@ == (Shelf { pooled: Seq::empty(), ..old(self)@ }),
    {
        self.buffers.clear();
        assert(self@.pooled =~= Seq::<Seq<u8>>::empty());
    }

    fn shrink(&mut self)
        requires
            old(self).wf(),
        ensures
            final(self).wf(),
            final(self).spec_class() == old(self).spec_class(),
            final(self).spec_tuning() == old(self).spec_tuning(),
            final(self)@ == old(self)@.shrunk(old(self).spec_class(), old(self).spec_tuning()),
    {
        let limit: usize = self.class.max_pooled(self.tuning) / 2;
        if self.buffers.len() > limit {
            self.buffers.truncate(limit);
            proof {
                let after = self@.pooled;
                assert(after =~= old(self)@.pooled.take(limit as int));
                assert forall|i: int| 0 <= i < after.len() implies #[trigger] after[i] == zeros(
                    self.class.spec_size() as nat,
                ) by {
                    assert(after[i] == old(self)@.pooled[i]);
                }
            }
        }
    }

    /// Buffers taken from the shelf, buffers that had to be made, the running count of
    /// allocations, and buffers on the shelf.
    pub fn counts(&self) -> (counts: PoolCounts)
        ensures
            counts == (PoolCounts {
                hits: self@.hits,
                misses: self@.misses,
                allocated: self@.allocated,
                pooled: self@.pooled.len() as usize,
            }),
    {
        PoolCounts {
            hits: self.hits,
            misses: self.misses,
            allocated: self.allocated,
            pooled: self.buffers.len(),
        }
    }
}

/// Counts of the buffers of one size.
#[derive(Debug, Clone, Copy, PartialEq, Eq, Structural)]
pub struct PoolCounts {
    pub hits: usize,
    pub misses: usize,
    pub allocated: usize,
    pub pooled: usize,
}

/// Counts of all buffers.
#[derive(Debug, Clone, Copy, PartialEq, Eq, Structural)]
pub struct PoolStats {
    pub small: PoolCounts,
    pub medium: PoolCounts,
    pub large: PoolCounts,
}

/// Buffers of all sizes.
pub struct BufferPool {
    pub small: SizePool,
    pub medium: SizePool,
    pub large: SizePool,
}

impl BufferPool {
    /// What the pool is tuned for.
    pub open spec fn spec_tuning(&self) -> Tuning {
        self.small.spec_tuning()
    }

    pub open spec fn wf(&self) -> bool {
        &&& self.medium.spec_tuning() == self.spec_tuning()
        &&& self.large.spec_tuning() == self.spec_tuning()
        &&& self.small.wf() && self.small.spec_class() == SizeClass::Small
        &&& self.medium.wf() && self.medium.spec_class() == SizeClass::Medium
        &&& self.large.wf() && self.large.spec_class() == SizeClass::Large
    }

    /// A pool with some buffers of each size made in advance.
    pub fn new() -> (pool: Self)
        ensures
            pool.wf(),
            pool.is_initial(Tuning::Standard),
    {
        BufferPool::with_tuning(Tuning::Standard)
    }

    /// The pool has just been set up.
    pub open spec fn is_initial(&self, tuning: Tuning) -> bool {
        &&& self.spec_tuning() == tuning
        &&& self.small@ == Shelf::initial(SizeClass::Small, tuning)
        &&& self.medium@ == Shelf::initial(SizeClass::Medium, tuning)
        &&& self.large@ == Shelf::initial(SizeClass::Large, tuning)
    }

    /// A tuned pool with some buffers of each size made in advance.
    pub fn with_tuning(tuning: Tuning) -> (pool: Self)
        ensures
            pool.wf(),
            pool.is_initial(tuning),
    {
        BufferPool {
            small: SizePool::new(SizeClass::Small, tuning),
            medium: SizePool::new(SizeClass::Medium, tuning),
            large: SizePool::new(SizeClass::Large, tuning),
        }
    }

    /// A zeroed buffer of 64 bytes.
    pub fn acquire_small(&mut self) -> (buffer: bytes::BytesMut)
        requires
            old(self).wf(),
        ensures
            final(self).wf(),
            buffer_bytes(buffer) == zeros(64),
            final(self).small@ == old(self).small@.taken(),
            final(self).medium == old(self).medium,
            final(self).large == old(self).large,
    {
        self.small.acquire()
    }

    /// A zeroed buffer of 1024 bytes.
    pub fn acquire_medium(&mut self) -> (buffer: bytes::BytesMut)
        requires
            old(self).wf(),
        ensures
            final(self).wf(),
            buffer_bytes(buffer) == zeros(1024),
            final(self).medium@ == old(self).medium@.taken(),
            final(self).small == old(self).small,
            final(self).large == old(self).large,
    {
        self.medium.acquire()
    }

    /// A zeroed buffer of 8192 bytes.
    pub fn acquire_large(&mut self) -> (buffer: bytes::BytesMut)
        requires
            old(self).wf(),
        ensures
            final(self).wf(),
            buffer_bytes(buffer) == zeros(8192),
            final(self).large@ == old(self).large@.taken(),
            final(self).small == old(self).small,
            final(self).medium == old(self).medium,
    {
        self.large.acquire()
    }

    /// Gives a small buffer back.
    pub fn release_small(&mut self, buffer: bytes::BytesMut)
        requires
            old(self).wf(),
        ensures
            final(self).wf(),
            exists|capacity: usize|
                capacity >= buffer_bytes(buffer).len() && final(self).small@
                    == #[trigger] old(self).small@.given_back(
                    SizeClass::Small,
                    old(self).spec_tuning(),
                    capacity,
                ),
            buffer_bytes(buffer).len() > 128 ==> final(self).small@ == old(self).small@,
            final(self).medium == old(self).medium,
            final(self).large == old(self).large,
    {
        self.small.release(buffer)
    }

    /// Gives a medium buffer back.
    pub fn release_medium(&mut self, buffer: bytes::BytesMut)
        requires
            old(self).wf(),
        ensures
            final(self).wf(),
            exists|capacity: usize|
                capacity >= buffer_bytes(buffer).len() && final(self).medium@
                    == #[trigger] old(self).medium@.given_back(
                    SizeClass::Medium,
                    old(self).spec_tuning(),
                    capacity,
                ),
            buffer_bytes(buffer).len() > 2048 ==> final(self).medium@ == old(self).medium@,
            final(self).small == old(self).small,
            final(self).large == old(self).large,
    {
        self.medium.release(buffer)
    }

    /// Gives a large buffer back.
    pub fn release_large(&mut self, buffer: bytes::BytesMut)
        requires
            old(self).wf(),
        ensures
            final(self).wf(),
            exists|capacity: usize|
                capacity >= buffer_bytes(buffer).len() && final(self).large@
                    == #[trigger] old(self).large@.given_back(
                    SizeClass::Large,
                    old(self).spec_tuning(),
                    capacity,
                ),
            buffer_bytes(buffer).len() > 16384 ==> final(self).large@ == old(self).large@,
            final(self).small == old(self).small,
            final(self).medium == old(self).medium,
    {
        self.large.release(buffer)
    }

    /// The counts of all buffers.
    pub fn get_stats(&self) -> (stats: PoolStats)
        ensures
            stats.small == (PoolCounts {
                hits: self.small@.hits,
                misses: self.small@.misses,
                allocated: self.small@.allocated,
                pooled: self.small@.pooled.len() as usize,
            }),
            stats.medium == (PoolCounts {
                hits: self.medium@.hits,
                misses: self.medium@.misses,
                allocated: self.medium@.allocated,
                pooled: self.medium@.pooled.len() as usize,
            }),
            stats.large == (PoolCounts {
                hits: self.large@.hits,
                misses: self.large@.misses,
                allocated: self.large@.allocated,
                pooled: self.large@.pooled.len() as usize,
            }),
    {
        PoolStats {
            small: self.small.counts(),
            medium: self.medium.counts(),
            large: self.large.counts(),
        }
    }

    /// Drops all buffers on the shelves.
    pub fn clear_pools(&mut self)
        requires
            old(self).wf(),
        ensures
            final(self).wf(),
            final(self).spec_tuning() == old(self).spec_tuning(),
            final(self).small@ == (Shelf { pooled: Seq::empty(), ..old(self).small@ }),
            final(self).medium@ == (Shelf { pooled: Seq::empty(), ..old(self).medium@ }),
            final(self).large@ == (Shelf { pooled: Seq::empty(), ..old(self).large@ }),
    {
        self.small.clear();
        self.medium.clear();
        self.large.clear();
    }

    /// Leaves at most half of the buffers that the shelves can hold.
    pub fn shrink_pools(&mut self)
        requires
            old(self).wf(),
        ensures
            final(self).wf(),
            final(self).spec_tuning() == old(self).spec_tuning(),
            final(self).small@ == old(self).small@.shrunk(
                SizeClass::Small,
                old(self).spec_tuning(),
            ),
            final(self).medium@ == old(self).medium@.shrunk(
                SizeClass::Medium,
                old(self).spec_tuning(),
            ),
            final(self).large@ == old(self).large@.shrunk(
                SizeClass::Large,
                old(self).spec_tuning(),
            ),
    {
        self.small.shrink();
        self.medium.shrink();
        self.large.shrink();
    }

    /// Does the periodic maintenance: when medium buffers are almost always found on the shelf,
    /// the shelves shrink. Comes back with whether they did.
    pub fn maintain(&mut self) -> (shrunk: bool)
        requires
            old(self).wf(),
        ensures
            final(self).wf(),
            final(self).spec_tuning() == old(self).spec_tuning(),
            shrunk == old(self).medium@.rarely_misses(old(self).spec_tuning()),
            shrunk ==> final(self).small@ == old(self).small@.shrunk(
                SizeClass::Small,
                old(self).spec_tuning(),
            )
                && final(self).medium@ == old(self).medium@.shrunk(
                SizeClass::Medium,
                old(self).spec_tuning(),
            )
                && final(self).large@ == old(self).large@.shrunk(
                SizeClass::Large,
                old(self).spec_tuning(),
            ),
            !shrunk ==> *final(self) == *old(self),
    {
        let counts = self.medium.counts();
        let hits: u128 = counts.hits as u128;
        let total: u128 = hits + counts.misses as u128;
        let threshold: u128 = self.medium.tuning.shrink_threshold();
        if hits * 100 > total * threshold {
            self.shrink_pools();
            true
        } else {
            false
        }
    }
}

/// The pool that the server starts with.
pub fn init_global_pool() -> (pool: BufferPool)
    ensures
        pool.wf(),
        pool.is_initial(Tuning::Standard),
{
    BufferPool::new()
}

/// A buffer that is given back to the pool when it is no longer needed.
pub struct BufferGuard {
    pub buf: Option<bytes::BytesMut>,
    pub size_class: SizeClass,
}

impl BufferGuard {
    /// Guards a small buffer.
    pub fn small(buf: bytes::BytesMut) -> (guard: Self)
        ensures
            guard == (BufferGuard { buf: Some(buf), size_class: SizeClass::Small }),
    {
        BufferGuard { buf: Some(buf), size_class: SizeClass::Small }
    }

    /// Guards a medium buffer.
    pub fn medium(buf: bytes::BytesMut) -> (guard: Self)
        ensures
            guard == (BufferGuard { buf: Some(buf), size_class: SizeClass::Medium }),
    {
        BufferGuard { buf: Some(buf), size_class: SizeClass::Medium }
    }

    /// Guards a large buffer.
    pub fn large(buf: bytes::BytesMut) -> (guard: Self)
        ensures
            guard == (BufferGuard { buf: Some(buf), size_class: SizeClass::Large }),
    {
        BufferGuard { buf: Some(buf), size_class: SizeClass::Large }
    }

    /// Takes the buffer out of the guard.
    pub fn take(&mut self) -> (buf: Option<bytes::BytesMut>)
        ensures
            buf == old(self).buf,
            *final(self) == (BufferGuard { buf: None, ..*old(self) }),
    {
        self.buf.take()
    }

    /// The buffer, unless it has been taken.
    pub fn as_ref(&self) -> (buf: Option<&bytes::BytesMut>)
        ensures
            buf == match self.buf {
                Some(ref inner) => Some(inner),
                None => None,
            },
    {
        self.buf.as_ref()
    }

    /// The buffer to write to, unless it has been taken.
    pub fn as_mut(&mut self) -> (buf: Option<&mut bytes::BytesMut>)
        ensures
            match buf {
                Some(inner) => old(self).buf == Some(*inner) && *final(self) == (BufferGuard {
                    buf: Some(*final(inner)),
                    ..*old(self)
                }),
                None => old(self).buf is None && *final(self) == *old(self),
            },
    {
        match &mut self.buf {
            Some(inner) => Some(inner),
            None => None,
        }
    }

    /// Gives the buffer back to the pool, unless it has been taken.
    pub fn release_into(&mut self, pool: &mut BufferPool)
        requires
            old(pool).wf(),
        ensures
            final(pool).wf(),
            *final(self) == (BufferGuard { buf: None, ..*old(self) }),
            old(self).buf is None ==> *final(pool) == *old(pool),
            old(self).buf is Some ==> match old(self).size_class {
                SizeClass::Small => {
                    &&& exists|capacity: usize|
                        capacity >= buffer_bytes(old(self).buf->0).len() && final(pool).small@
                            == #[trigger] old(pool).small@.given_back(
                            SizeClass::Small,
                            old(pool).spec_tuning(),
                            capacity,
                        )
                    &&& final(pool).medium == old(pool).medium
                    &&& final(pool).large == old(pool).large
                },
                SizeClass::Medium => {
                    &&& exists|capacity: usize|
                        capacity >= buffer_bytes(old(self).buf->0).len() && final(pool).medium@
                            == #[trigger] old(pool).medium@.given_back(
                            SizeClass::Medium,
                            old(pool).spec_tuning(),
                            capacity,
                        )
                    &&& final(pool).small == old(pool).small
                    &&& final(pool).large == old(pool).large
                },
                SizeClass::Large => {
                    &&& exists|capacity: usize|
                        capacity >= buffer_bytes(old(self).buf->0).len() && final(pool).large@
                            == #[trigger] old(pool).large@.given_back(
                            SizeClass::Large,
                            old(pool).spec_tuning(),
                            capacity,
                        )
                    &&& final(pool).small == old(pool).small
                    &&& final(pool).medium == old(pool).medium
                },
            },
    {
        if let Some(buf) = self.buf.take() {
            match self.size_class {
                SizeClass::Small => pool.release_small(buf),
                SizeClass::Medium => pool.release_medium(buf),
                SizeClass::Large => pool.release_large(buf),
            }
        }
    }
}

/// A buffer that is taken and given back leaves the shelf as it was, and the count of allocations
/// with it.
pub proof fn law_taking_and_giving_back_balance(
    shelf: Shelf,
    class: SizeClass,
    tuning: Tuning,
    capacity: usize,
)
    requires
        shelf.wf(class, tuning),
        shelf.pooled.len() > 0,
        class.spec_size() / 2 <= capacity <= class.spec_size() * 2,
    ensures
        shelf.taken().given_back(class, tuning, capacity).pooled == shelf.pooled,
        shelf.taken().given_back(class, tuning, capacity).allocated == shelf.allocated,
{
    let after = shelf.taken().given_back(class, tuning, capacity).pooled;
    assert forall|i: int| 0 <= i < after.len() implies after[i] == shelf.pooled[i] by {
        assert(shelf.pooled[i] == zeros(class.spec_size() as nat));
        if i + 1 < shelf.pooled.len() {
            assert(shelf.pooled[i + 1] == zeros(class.spec_size() as nat));
        }
    }
    assert(after =~= shelf.pooled);
}

/// Buffers come in three sizes, of 64, 1024 and 8192 bytes. Of each size at most 1000, 500 and 100
/// are kept, twice as many on ARM, and a tenth of that is made in advance.
pub proof fn law_sizes_and_numbers(tuning: Tuning)
    ensures
        SizeClass::Small.spec_size() == 64,
        SizeClass::Medium.spec_size() == 1024,
        SizeClass::Large.spec_size() == 8192,
        tuning is Standard ==> {
            &&& SizeClass::Small.spec_max_pooled(tuning) == 1000
            &&& SizeClass::Medium.spec_max_pooled(tuning) == 500
            &&& SizeClass::Large.spec_max_pooled(tuning) == 100
            &&& tuning.spec_shrink_threshold() == 95
        },
        tuning is Arm64 ==> {
            &&& SizeClass::Small.spec_max_pooled(tuning) == 2000
            &&& SizeClass::Medium.spec_max_pooled(tuning) == 1000
            &&& SizeClass::Large.spec_max_pooled(tuning) == 200
            &&& tuning.spec_shrink_threshold() == 98
        },
        SizeClass::Small.spec_initial_allocated() == 200,
        SizeClass::Medium.spec_initial_allocated() == 100,
        SizeClass::Large.spec_initial_allocated() == 20,
        forall|class: SizeClass| #[trigger]
            Shelf::initial(class, tuning).pooled.len() * 10 == class.spec_max_pooled(tuning),
{
}

/// So many zeros are that many bytes, all of them 0.
pub proof fn law_zeros(n: nat, i: int)
    ensures
        zeros(n).len() == n,
        0 <= i < n ==> zeros(n)[i] == 0,
{
}

/// A new shelf holds zeroed buffers of its size and has counted nothing.
pub proof fn law_new_shelf(class: SizeClass, tuning: Tuning, i: int)
    ensures
        ({
            let shelf = Shelf::initial(class, tuning);
            &&& shelf.wf(class, tuning)
            &&& shelf.hits == 0 && shelf.misses == 0
            &&& shelf.allocated == class.spec_initial_allocated()
            &&& 0 <= i < shelf.pooled.len() ==> shelf.pooled[i].len() == class.spec_size()
        }),
{
}

/// Taking a buffer is a hit, and one buffer less, as long as there is one; otherwise it is a miss,
/// and one buffer more is made.
pub proof fn law_taking_is_a_hit_or_a_miss(shelf: Shelf, i: int)
    ensures
        shelf.pooled.len() > 0 ==> {
            &&& shelf.taken().pooled.len() == shelf.pooled.len() - 1
            &&& 0 <= i < shelf.pooled.len() - 1 ==> shelf.taken().pooled[i] == shelf.pooled[i + 1]
            &&& shelf.taken().hits == shelf.hits.wrapping_add(1)
            &&& shelf.taken().misses == shelf.misses
            &&& shelf.taken().allocated == shelf.allocated
        },
        shelf.pooled.len() == 0 ==> shelf.taken() == (Shelf {
            misses: shelf.misses.wrapping_add(1),
            allocated: shelf.allocated.wrapping_add(1),
            ..shelf
        }),
{
}

/// A buffer that comes back is kept, zeroed, if it has room for half to twice its size and the
/// shelf is not full. One that comes back to a full shelf counts as no longer allocated, and one
/// of another size changes nothing.
pub proof fn law_buffers_of_the_right_size_are_kept(
    shelf: Shelf,
    class: SizeClass,
    tuning: Tuning,
    capacity: usize,
)
    ensures
        ({
            let after = shelf.given_back(class, tuning, capacity);
            let fits = 2 * capacity >= class.spec_size() && capacity <= 2 * class.spec_size();
            &&& !fits ==> after == shelf
            &&& fits && shelf.pooled.len() < class.spec_max_pooled(tuning) ==> {
                &&& after.pooled.len() == shelf.pooled.len() + 1
                &&& after.pooled.drop_last() == shelf.pooled
                &&& after.pooled.last() == zeros(class.spec_size() as nat)
                &&& after.hits == shelf.hits && after.misses == shelf.misses && after.allocated
                    == shelf.allocated
            }
            &&& fits && shelf.pooled.len() >= class.spec_max_pooled(tuning) ==> after == (Shelf {
                allocated: shelf.allocated.wrapping_sub(1),
                ..shelf
            })
        }),
{
    let after = shelf.given_back(class, tuning, capacity);
    if shelf.pooled.len() < class.spec_max_pooled(tuning) {
        assert(shelf.pooled.push(zeros(class.spec_size() as nat)).drop_last() =~= shelf.pooled);
    }
}

/// Shrinking leaves at most half of what a shelf can hold, the first ones, and counts nothing.
pub proof fn law_shrinking_leaves_half(shelf: Shelf, class: SizeClass, tuning: Tuning)
    ensures
        ({
            let after = shelf.shrunk(class, tuning);
            &&& 2 * after.pooled.len() <= class.spec_max_pooled(tuning)
            &&& after.pooled == shelf.pooled.take(after.pooled.len() as int)
            &&& 2 * shelf.pooled.len() <= class.spec_max_pooled(tuning) ==> after == shelf
            &&& 2 * shelf.pooled.len() > class.spec_max_pooled(tuning) ==> 2 * after.pooled.len()
                == class.spec_max_pooled(tuning)
            &&& after.hits == shelf.hits && after.misses == shelf.misses && after.allocated
                == shelf.allocated
        }),
{
    assert(shelf.pooled.take(shelf.pooled.len() as int) =~= shelf.pooled);
}

/// A shelf rarely misses if more than 95 in a hundred buffers came from it, or 98 on ARM.
pub proof fn law_rare_misses(shelf: Shelf, tuning: Tuning)
    ensures
        tuning is Standard ==> (shelf.rarely_misses(tuning) <==> 5 * shelf.hits > 95
            * shelf.misses),
        tuning is Arm64 ==> (shelf.rarely_misses(tuning) <==> 2 * shelf.hits > 98 * shelf.misses),
{
}

} // verus!
