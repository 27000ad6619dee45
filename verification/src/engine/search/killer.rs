//! Killer moves: per depth, the last quiet moves that caused a beta
//! cutoff, tried early when ordering moves.
use vstd::prelude::*;
use crate::engine::constants::KILLER_SLOTS;
use crate::game::Move;

verus! {

/// Per-depth killer move storage.
pub struct KillerTable {
    table: Vec<[Option<Move>; 2]>,
}

impl KillerTable {
    /// Number of depths.
    pub closed spec fn depths(&self) -> nat {
        self.table@.len()
    }

    /// The killer slots of depth `d`, primary first.
    pub closed spec fn row(&self, d: int) -> Seq<Option<Move>> {
        self.table@[d]@
    }

    /// The depth whose row serves requests for `depth`: deeper requests use
    /// the last row.
    pub open spec fn row_index(&self, depth: int) -> int {
        if depth < self.depths() - 1 { depth } else { self.depths() - 1 }
    }

    pub closed spec fn wf(&self) -> bool {
        self.table@.len() >= 1
    }

    /// Every row has `KILLER_SLOTS` slots.
    pub broadcast proof fn lemma_row_len(&self, d: int)
        ensures
            #[trigger] self.row(d).len() == KILLER_SLOTS,
    {
    }

    /// A killer table for depths 0 through `max_depth`.
    pub fn new(max_depth: usize) -> (t: Self)
        requires
            max_depth < usize::MAX,
        ensures
            t.wf(),
            t.depths() == max_depth + 1,
            forall|d: int, s: int|
                0 <= d <= max_depth && 0 <= s < KILLER_SLOTS ==> #[trigger] t.row(d)[s] is None,
    {
        let mut table: Vec<[Option<Move>; 2]> = Vec::new();
        let mut i: usize = 0;
        while i <= max_depth
            invariant
                i <= max_depth + 1,
                max_depth < usize::MAX,
                table@.len() == i,
                forall|d: int, s: int|
                    0 <= d < i && 0 <= s < 2 ==> #[trigger] table@[d]@[s] is None,
            decreases max_depth + 1 - i,
        {
            table.push([None, None]);
            i += 1;
        }
        KillerTable { table }
    }

    /// Record a killer move at `depth`: it becomes the primary killer and
    /// the former primary moves to the second slot, unless it already is the
    /// primary killer.
    pub fn store(&mut self, depth: usize, mv: Move)
        requires
            old(self).wf(),
        ensures
            final(self).wf(),
            final(self).depths() == old(self).depths(),
            ({
                let d = old(self).row_index(depth as int);
                &&& forall|e: int| 0 <= e < old(self).depths() && e != d ==> #[trigger] final(self).row(e)
                    == old(self).row(e)
                &&& if old(self).row(d)[0] == Some(mv) {
                    final(self).row(d) == old(self).row(d)
                } else {
                    final(self).row(d) == seq![Some(mv), old(self).row(d)[0]]
                }
            }),
    {
        let depth = if depth < self.table.len() - 1 {
            depth
        } else {
            self.table.len() - 1
        };
        let mut entry = self.table[depth];
        if entry[0] == Some(mv) {
            return;
        }
        entry[KILLER_SLOTS - 1] = entry[KILLER_SLOTS - 2];
        entry[0] = Some(mv);
        self.table.set(depth, entry);
        proof {
            assert(self.row(depth as int) =~= seq![Some(mv), old(self).row(depth as int)[0]]);
        }
    }

    /// The killer slots for `depth`.
    pub fn get(&self, depth: usize) -> (r: &[Option<Move>])
        requires
            self.wf(),
        ensures
            r@ == self.row(self.row_index(depth as int)),
    {
        let depth = if depth < self.table.len() - 1 {
            depth
        } else {
            self.table.len() - 1
        };
        self.table[depth].as_slice()
    }

    /// `mv` is a killer at `depth`.
    pub fn is_killer(&self, depth: usize, mv: Move) -> (r: bool)
        requires
            self.wf(),
        ensures
            r == self.row(self.row_index(depth as int)).contains(Some(mv)),
    {
        let killers = self.get(depth);
        let mut i: usize = 0;
        while i < killers.len()
            invariant
                i <= killers@.len(),
                killers@ == self.row(self.row_index(depth as int)),
                forall|j: int| 0 <= j < i ==> killers@[j] != Some(mv),
            decreases killers@.len() - i,
        {
            if killers[i] == Some(mv) {
                assert(killers@[i as int] == Some(mv));
                return true;
            }
            i += 1;
        }
        false
    }
}

/// After storing a killer at a depth, it is a killer there, and so is the
/// killer that was primary before.
pub proof fn lemma_store_keeps_killers(before: KillerTable, after: KillerTable, depth: int, mv: Move)
    requires
        before.wf(),
        after.depths() == before.depths(),
        0 <= depth,
        ({
            let d = before.row_index(depth);
            if before.row(d)[0] == Some(mv) {
                after.row(d) == before.row(d)
            } else {
                after.row(d) == seq![Some(mv), before.row(d)[0]]
            }
        }),
    ensures
        after.row(after.row_index(depth)).contains(Some(mv)),
        before.row(before.row_index(depth))[0] matches Some(k) ==> after.row(
            after.row_index(depth),
        ).contains(Some(k)),
{
    let d = before.row_index(depth);
    before.lemma_row_len(d);
    if before.row(d)[0] == Some(mv) {
        assert(after.row(d)[0] == Some(mv));
    } else {
        assert(after.row(d)[0] == Some(mv));
        assert(after.row(d)[1] == before.row(d)[0]);
    }
}

} // verus!
