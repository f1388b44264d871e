//! Allocation of client IDs with reuse of freed ones.

use std::collections::VecDeque;

use vstd::prelude::*;

verus! {

/// The most freed IDs that are kept for reuse.
pub const MAX_FREE_IDS: usize = 10_000;

/// Which IDs come next.
#[verifier::ext_equal]
pub struct IdSource {
    /// Freed IDs, the next one to be reused first.
    pub free: Seq<i16>,
    /// The next ID that has not been given out yet.
    pub next: u64,
}

impl IdSource {
    /// Every ID is still available, from 1 on.
    pub open spec fn fresh() -> IdSource {
        IdSource { free: Seq::empty(), next: 1 }
    }

    /// 0 is never given out.
    pub open spec fn wf(self) -> bool {
        &&& 1 <= self.next <= 0x8000
        &&& self.free.len() <= MAX_FREE_IDS
        &&& forall|i: int| 0 <= i < self.free.len() ==> #[trigger] self.free[i] != 0
    }

    /// The ID that is given out next: the one that was freed first, else the next sequential
    /// one. After the last positive ID the sequence starts over.
    pub open spec fn next_id(self) -> i16 {
        if self.free.len() > 0 {
            self.free[0]
        } else if self.next > i16::MAX {
            1
        } else {
            self.next as i16
        }
    }

    /// The source after it has given out an ID.
    pub open spec fn taken(self) -> IdSource {
        if self.free.len() > 0 {
            IdSource { free: self.free.drop_first(), ..self }
        } else if self.next > i16::MAX {
            IdSource { free: Seq::empty(), next: 2 }
        } else {
            IdSource { free: Seq::empty(), next: (self.next + 1) as u64 }
        }
    }

    /// The source after an ID has been given back. 0 is not taken, and neither is anything when
    /// the list of freed IDs is full.
    pub open spec fn freed(self, id: i16) -> IdSource {
        if id != 0 && self.free.len() < MAX_FREE_IDS {
            IdSource { free: self.free.push(id), ..self }
        } else {
            self
        }
    }

    /// The source after several IDs have been given back, in this order.
    pub open spec fn freed_all(self, ids: Seq<i16>) -> IdSource
        decreases ids.len(),
    {
        if ids.len() == 0 {
            self
        } else {
            self.freed_all(ids.drop_last()).freed(ids.last())
        }
    }

    /// No ID is both free and outstanding, none is free twice, and those that have not been given
    /// out yet are neither.
    pub open spec fn apart(self, outstanding: Set<i16>) -> bool {
        &&& self.free.no_duplicates()
        &&& forall|i: int|
            0 <= i < self.free.len() ==> 0 < #[trigger] self.free[i] < self.next
                && !outstanding.contains(self.free[i])
        &&& forall|id: i16| #[trigger] outstanding.contains(id) ==> 0 < id < self.next
    }

    /// How many IDs can be given out before the sequence starts over.
    pub open spec fn left(self) -> int {
        self.free.len() + 0x8000 - self.next
    }

    /// The first of at most `attempts` IDs that is not in `used`, and the source afterwards.
    pub open spec fn pick(self, used: Set<i16>, attempts: nat) -> (Option<i16>, IdSource)
        decreases attempts,
    {
        if attempts == 0 {
            (None, self)
        } else if !used.contains(self.next_id()) {
            (Some(self.next_id()), self.taken())
        } else {
            self.taken().pick(used, (attempts - 1) as nat)
        }
    }
}

/// Client ID allocator with a list of freed IDs.
pub struct ClientIdAllocator {
    free_ids: VecDeque<i16>,
    next_id: u64,
}

impl View for ClientIdAllocator {
    type V = IdSource;

    closed spec fn view(&self) -> IdSource {
        IdSource { free: self.free_ids@, next: self.next_id }
    }
}

impl ClientIdAllocator {
    /// Every ID is available. 0 is skipped.
    pub fn new() -> (ids: Self)
        ensures
            ids@ == IdSource::fresh(),
            ids@.wf(),
    {
        ClientIdAllocator { free_ids: VecDeque::with_capacity(1000), next_id: 1 }
    }

    /// Gives out a freed ID, or else the next sequential one.
    pub fn allocate(&mut self) -> (id: Option<i16>)
        requires
            old(self)@.wf(),
        ensures
            final(self)@.wf(),
            id == Some(old(self)@.next_id()),
            id != Some(0i16),
            final(self)@ == old(self)@.taken(),
    {
        if self.free_ids.len() > 0 {
            let id = self.free_ids.pop_front();
            assert(self.free_ids@ =~= old(self).free_ids@.drop_first());
            return id;
        }
        let next: u64 = self.next_id;
        if next > i16::MAX as u64 {
            self.next_id = 2;
            self.free_ids.clear();
            return Some(1);
        }
        self.next_id = next + 1;
        assert(self.free_ids@ =~= Seq::<i16>::empty());
        Some(next as i16)
    }

    /// Gives an ID back for reuse.
    pub fn free(&mut self, id: i16)
        requires
            old(self)@.wf(),
        ensures
            final(self)@.wf(),
            final(self)@ == old(self)@.freed(id),
    {
        if id != 0 {
            if self.free_ids.len() < MAX_FREE_IDS {
                self.free_ids.push_back(id);
            }
        }
    }
}

/// A freed ID is given out again before any other, if no other one was free.
pub proof fn law_freed_id_is_reused(source: IdSource, id: i16)
    requires
        source.wf(),
        source.free.len() == 0,
        id != 0,
    ensures
        source.freed(id).next_id() == id,
        source.freed(id).taken() == source,
{
    assert(source.freed(id).free.drop_first() =~= source.free);
}

/// Freed IDs are reused in the order in which they were freed.
pub proof fn law_freed_ids_queue_up(source: IdSource, id: i16)
    requires
        source.wf(),
        0 < source.free.len() < MAX_FREE_IDS,
    ensures
        source.freed(id).next_id() == source.next_id(),
        source.freed(id).taken() == source.taken().freed(id),
{
    assert(source.free.push(id).drop_first() =~= source.free.drop_first().push(id));
}

/// Outstanding IDs stay distinct, freed ones or not: until the sequence starts over, an ID that
/// is given out is not outstanding, and no ID comes to be both free and outstanding.
pub proof fn law_outstanding_ids_are_distinct(source: IdSource, outstanding: Set<i16>)
    requires
        source.wf(),
        source.apart(outstanding),
        source.left() > 0,
    ensures
        !outstanding.contains(source.next_id()),
        source.taken().apart(outstanding.insert(source.next_id())),
        source.taken().left() == source.left() - 1,
        IdSource::fresh().apart(Set::empty()),
{
    let after = source.taken();
    assert(source.apart(outstanding));
    if source.free.len() > 0 {
        assert(0 < source.free[0] < source.next);
        assert forall|i: int| 0 <= i < after.free.len() implies 0 < #[trigger] after.free[i]
            < after.next && !outstanding.insert(source.next_id()).contains(after.free[i]) by {
            assert(after.free[i] == source.free[i + 1]);
        }
        assert forall|i: int, j: int|
            0 <= i < after.free.len() && 0 <= j < after.free.len() && i != j implies after.free[i]
            != after.free[j] by {
            assert(after.free[i] == source.free[i + 1]);
            assert(after.free[j] == source.free[j + 1]);
        }
    }
}

/// IDs that are given back are no longer outstanding, and no ID comes to be both free and
/// outstanding.
pub proof fn law_freed_ids_are_not_outstanding(
    source: IdSource,
    outstanding: Set<i16>,
    ids: Seq<i16>,
)
    requires
        source.wf(),
        source.apart(outstanding),
        ids.no_duplicates(),
        forall|i: int| 0 <= i < ids.len() ==> outstanding.contains(#[trigger] ids[i]),
    ensures
        source.freed_all(ids).wf(),
        source.freed_all(ids).apart(outstanding.difference(ids.to_set())),
        source.freed_all(ids).next == source.next,
    decreases ids.len(),
{
    if ids.len() == 0 {
        assert(outstanding.difference(ids.to_set()) =~= outstanding);
    } else {
        let rest = ids.drop_last();
        assert forall|i: int| 0 <= i < rest.len() implies outstanding.contains(
            #[trigger] rest[i],
        ) by {
            assert(rest[i] == ids[i]);
        }
        law_freed_ids_are_not_outstanding(source, outstanding, rest);
        let id = ids.last();
        let left = outstanding.difference(rest.to_set());
        assert(left.contains(id)) by {
            assert(ids[ids.len() - 1] == id);
            if rest.contains(id) {
                let i = choose|i: int| 0 <= i < rest.len() && rest[i] == id;
                assert(ids[i] == id);
            }
        }
        assert(outstanding.difference(ids.to_set()) =~= left.remove(id)) by {
            assert(ids =~= rest.push(id));
            assert forall|other: i16| ids.contains(other) <==> rest.contains(other) || other
                == id by {
                if ids.contains(other) {
                    let i = choose|i: int| 0 <= i < ids.len() && ids[i] == other;
                    if i < rest.len() {
                        assert(rest[i] == other);
                    }
                }
                if rest.contains(other) {
                    let i = choose|i: int| 0 <= i < rest.len() && rest[i] == other;
                    assert(ids[i] == other);
                }
                assert(ids[ids.len() - 1] == id);
            }
        }
        let before = source.freed_all(rest);
        let after = source.freed_all(ids);
        assert(after == before.freed(id));
        assert forall|i: int| 0 <= i < after.free.len() implies 0 < #[trigger] after.free[i]
            < after.next && !left.remove(id).contains(after.free[i]) by {
            if i < before.free.len() {
                assert(after.free[i] == before.free[i]);
            }
        }
        assert(after.free.no_duplicates()) by {
            assert forall|i: int, j: int|
                0 <= i < after.free.len() && 0 <= j < after.free.len() && i
                    != j implies after.free[i] != after.free[j] by {
                if i < before.free.len() {
                    assert(after.free[i] == before.free[i]);
                }
                if j < before.free.len() {
                    assert(after.free[j] == before.free[j]);
                }
            }
        }
    }
}

/// The source after it has given out `n` IDs.
pub open spec fn after_taking(source: IdSource, n: nat) -> IdSource
    decreases n,
{
    if n == 0 {
        source
    } else {
        after_taking(source, (n - 1) as nat).taken()
    }
}

/// Without freed IDs, the IDs that are given out are all different until the sequence is
/// exhausted.
pub proof fn law_sequential_ids_are_distinct(source: IdSource, i: nat, j: nat)
    requires
        source.wf(),
        source.free.len() == 0,
        i < j,
        source.next + j <= i16::MAX,
    ensures
        after_taking(source, i).next_id() != after_taking(source, j).next_id(),
{
    lemma_sequential(source, i);
    lemma_sequential(source, j);
}

proof fn lemma_sequential(source: IdSource, n: nat)
    requires
        source.wf(),
        source.free.len() == 0,
        source.next + n <= i16::MAX,
    ensures
        after_taking(source, n).free.len() == 0,
        after_taking(source, n).next == source.next + n,
    decreases n,
{
    if n > 0 {
        lemma_sequential(source, (n - 1) as nat);
    }
}

/// Picking an ID keeps 0 out, and an ID that is picked was not in use.
pub proof fn lemma_pick(source: IdSource, used: Set<i16>, attempts: nat)
    requires
        source.wf(),
    ensures
        source.pick(used, attempts).1.wf(),
        source.pick(used, attempts).0 matches Some(id) ==> id != 0 && !used.contains(id),
    decreases attempts,
{
    if attempts > 0 {
        assert(source.taken().wf());
        if used.contains(source.next_id()) {
            lemma_pick(source.taken(), used, (attempts - 1) as nat);
        }
    }
}

/// The ID that was freed first is given out next. Without freed ones it is the next number, from 1
/// to 32767, and then 1 again.
pub proof fn law_ids_are_given_out_in_turn(source: IdSource)
    requires
        source.wf(),
    ensures
        source.free.len() > 0 ==> source.next_id() == source.free[0] && source.taken()
            == (IdSource { free: source.free.skip(1), next: source.next }),
        source.free.len() == 0 && source.next <= 32_767 ==> source.next_id() == source.next
            && source.taken().next == source.next + 1 && source.taken().free.len() == 0,
        source.free.len() == 0 && source.next > 32_767 ==> source.next_id() == 1
            && source.taken().next == 2 && source.taken().free.len() == 0,
        source.next_id() != 0,
        IdSource::fresh().next_id() == 1,
{
    if source.free.len() > 0 {
        assert(source.free.drop_first() =~= source.free.skip(1));
    }
}

/// A freed ID waits behind the others. 0 is never one, and no more than 10000 wait.
pub proof fn law_freed_ids_wait_in_turn(source: IdSource, id: i16)
    ensures
        id != 0 && source.free.len() < 10_000 ==> source.freed(id) == (IdSource {
            free: source.free.push(id),
            next: source.next,
        }),
        id == 0 || source.free.len() >= 10_000 ==> source.freed(id) == source,
{
}

/// Freeing several IDs is freeing them one after the other.
pub proof fn law_freeing_several_is_freeing_each(source: IdSource, ids: Seq<i16>, id: i16)
    ensures
        source.freed_all(Seq::empty()) == source,
        source.freed_all(ids.push(id)) == source.freed_all(ids).freed(id),
{
    assert(ids.push(id).drop_last() =~= ids);
}

/// The first ID that is not in use is picked, within so many attempts; without attempts none is.
pub proof fn law_first_unused_id_is_picked(source: IdSource, used: Set<i16>, attempts: nat)
    ensures
        source.pick(used, 0) == (None::<i16>, source),
        !used.contains(source.next_id()) ==> source.pick(used, attempts + 1) == (
            Some(source.next_id()),
            source.taken(),
        ),
        used.contains(source.next_id()) ==> source.pick(used, attempts + 1) == source.taken().pick(
            used,
            attempts,
        ),
{
}

} // verus!
