//! Transposition table caching search results by position hash.
use vstd::prelude::*;
use crate::game::Move;

verus! {

/// How a stored score bounds the true score of the position.
#[derive(Clone, Copy, Debug, PartialEq, Eq, Structural)]
pub enum BoundType {
    Exact,
    LowerBound,
    UpperBound,
}

/// A single entry of the transposition table.
#[derive(Clone, Copy, Debug)]
pub struct TtEntry {
    /// Hash of the position.
    pub hash: u64,
    /// Remaining depth at which the entry was computed.
    pub remaining_depth: u8,
    /// Score from the point of view of the side to move.
    pub score: i32,
    pub bound_type: BoundType,
    /// Best move found when the entry was stored.
    pub best_move: Option<Move>,
}

/// Fixed-size transposition table: one entry per slot, the slot chosen by
/// the low bits of the hash.
pub struct TranspositionTable {
    entries: Vec<Option<TtEntry>>,
    size: usize,
}

/// `p` is a power of two.
pub open spec fn is_pow2(p: int) -> bool
    decreases p,
{
    if p <= 0 {
        false
    } else if p == 1 {
        true
    } else {
        p % 2 == 0 && is_pow2(p / 2)
    }
}

/// The last of `p`, `2p`, `4p`, ... that is at most `n`.
pub open spec fn doubled_below(n: int, p: int) -> int
    decreases if 2 * p <= n { n - p } else { 0 },
{
    if 2 * p > n || p < 1 {
        p
    } else {
        doubled_below(n, 2 * p)
    }
}

/// The largest power of two that is at most `n` (1 for 0).
pub open spec fn prev_pow2(n: int) -> int {
    doubled_below(n, 1)
}

impl TranspositionTable {
    /// The slots.
    pub closed spec fn slots(&self) -> Seq<Option<TtEntry>> {
        self.entries@
    }

    /// Number of slots.
    pub closed spec fn capacity(&self) -> nat {
        self.size as nat
    }

    pub closed spec fn wf(&self) -> bool {
        &&& self.size == self.entries@.len()
        &&& self.size >= 1
    }

    /// The slot of `hash`.
    pub open spec fn slot_of(&self, hash: u64) -> int {
        ((hash as usize) & ((self.capacity() - 1) as usize)) as int
    }

    /// A well-formed table has one slot per unit of capacity, and at least
    /// one.
    pub proof fn lemma_slots_len(&self)
        requires
            self.wf(),
        ensures
            self.slots().len() == self.capacity(),
            self.capacity() >= 1,
    {
    }

    /// In a well-formed table every hash has a slot: the slot is below the
    /// capacity.
    pub proof fn lemma_slot_in_range(&self, hash: u64)
        requires
            self.wf(),
        ensures
            0 <= self.slot_of(hash) < self.capacity(),
            self.slot_of(hash) < self.slots().len(),
    {
        let mask = (self.size - 1) as usize;
        let h = hash as usize;
        assert(h & mask <= mask) by (bit_vector);
    }

    /// Create a table with `size` slots, rounded down to a power of two
    /// (one slot for a size of 0).
    pub fn new(size: usize) -> (t: Self)
        ensures
            t.wf(),
            t.capacity() == prev_pow2(size as int),
            is_pow2(t.capacity() as int),
            size >= 1 ==> t.capacity() <= size < 2 * t.capacity(),
            size == 0 ==> t.capacity() == 1,
            t.slots().len() == t.capacity(),
            forall|i: int| 0 <= i < t.capacity() ==> t.slots()[i] is None,
    {
        let actual_size = prev_power_of_two(size);
        let mut entries: Vec<Option<TtEntry>> = Vec::new();
        let mut i: usize = 0;
        while i < actual_size
            invariant
                i <= actual_size,
                entries@.len() == i,
                forall|j: int| 0 <= j < i ==> entries@[j] is None,
            decreases actual_size - i,
        {
            entries.push(None);
            i += 1;
        }
        TranspositionTable { entries, size: actual_size }
    }

    fn index(&self, hash: u64) -> (i: usize)
        requires
            self.wf(),
        ensures
            i == self.slot_of(hash),
            i < self.capacity(),
    {
        let mask = self.size - 1;
        let h = hash as usize;
        assert(h & mask <= mask) by (bit_vector);
        h & mask
    }

    /// The entry stored for `hash`, if its slot holds that hash.
    pub fn get(&self, hash: u64) -> (r: Option<&TtEntry>)
        requires
            self.wf(),
        ensures
            r is Some <==> (self.slots()[self.slot_of(hash)] matches Some(e) && e.hash == hash),
            r is Some ==> self.slots()[self.slot_of(hash)] == Some(*r->0),
    {
        let idx = self.index(hash);
        match &self.entries[idx] {
            Some(e) => {
                if e.hash == hash {
                    Some(e)
                } else {
                    None
                }
            },
            None => None,
        }
    }

    /// Store an entry, replacing the one in its slot only if the slot is
    /// empty or the new entry was searched at least as deep.
    pub fn store(
        &mut self,
        hash: u64,
        remaining_depth: u8,
        score: i32,
        bound_type: BoundType,
        best_move: Option<Move>,
    )
        requires
            old(self).wf(),
        ensures
            final(self).wf(),
            final(self).capacity() == old(self).capacity(),
            final(self).slots().len() == final(self).capacity(),
            ({
                let i = old(self).slot_of(hash);
                let replace = match old(self).slots()[i] {
                    None => true,
                    Some(e) => remaining_depth >= e.remaining_depth,
                };
                final(self).slots() == if replace {
                    old(self).slots().update(
                        i,
                        Some(TtEntry { hash, remaining_depth, score, bound_type, best_move }),
                    )
                } else {
                    old(self).slots()
                }
            }),
    {
        let idx = self.index(hash);
        let replace = match &self.entries[idx] {
            None => true,
            Some(existing) => remaining_depth >= existing.remaining_depth,
        };
        if replace {
            self.entries.set(
                idx,
                Some(TtEntry { hash, remaining_depth, score, bound_type, best_move }),
            );
        }
    }
}

/// The largest power of two that is at most `n`; 1 for 0.
fn prev_power_of_two(n: usize) -> (p: usize)
    ensures
        p == prev_pow2(n as int),
        is_pow2(p as int),
        n >= 1 ==> p <= n < 2 * p,
        n == 0 ==> p == 1,
{
    let mut p: usize = 1;
    while p <= n / 2
        invariant
            1 <= p,
            n >= 1 ==> p <= n,
            is_pow2(p as int),
            doubled_below(n as int, p as int) == prev_pow2(n as int),
        decreases n - p,
    {
        assert(is_pow2((2 * p) as int)) by {
            assert((2 * p) as int / 2 == p as int);
        }
        p = p * 2;
    }
    p
}

/// After storing an entry, looking up its hash finds it, unless a deeper
/// entry already held the slot.
pub proof fn lemma_store_then_get(
    before: TranspositionTable,
    after: TranspositionTable,
    hash: u64,
    remaining_depth: u8,
    score: i32,
    bound_type: BoundType,
    best_move: Option<Move>,
)
    requires
        before.wf(),
        after.capacity() == before.capacity(),
        ({
            let i = before.slot_of(hash);
            let replace = match before.slots()[i] {
                None => true,
                Some(e) => remaining_depth >= e.remaining_depth,
            };
            &&& replace
            &&& after.slots() == before.slots().update(
                i,
                Some(TtEntry { hash, remaining_depth, score, bound_type, best_move }),
            )
        }),
    ensures
        after.slots()[after.slot_of(hash)] == Some(
            TtEntry { hash, remaining_depth, score, bound_type, best_move },
        ),
{
    let mask = (before.capacity() - 1) as usize;
    let h = hash as usize;
    assert(h & mask <= mask) by (bit_vector);
}

} // verus!
