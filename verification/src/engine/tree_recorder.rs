//! Tree recorder: keeps one record per visited search node, for debugging
//! output.  Records are kept in memory with score 0 until the score of the
//! node is known; writing them out is left to the caller.
use vstd::prelude::*;
use crate::game::{move_text, move_text_defined, Move};

verus! {

/// A single recorded node of the search tree.
pub struct NodeRecord {
    pub id: u64,
    pub parent_id: u64,
    pub depth: u8,
    /// The move leading to the node, e.g. `E3F4`.
    pub mv: String,
    pub score: i32,
}

/// What a record says of its node: its id, its parent's id, its depth, the
/// text of its move and its score.
pub open spec fn node_view(r: NodeRecord) -> (u64, u64, u8, Seq<char>, int) {
    (r.id, r.parent_id, r.depth, r.mv@, r.score as int)
}

/// What a record says once its score is set to `score`.
pub open spec fn rescored(r: NodeRecord, score: int) -> (u64, u64, u8, Seq<char>, int) {
    (r.id, r.parent_id, r.depth, r.mv@, score)
}

/// What a sequence of records says, record by record.
pub open spec fn nodes_view(rs: Seq<NodeRecord>) -> Seq<(u64, u64, u8, Seq<char>, int)> {
    rs.map_values(|r: NodeRecord| node_view(r))
}

/// The nodes recorded so far, and the id of the next one.
pub struct TreeRecorder {
    counter: u64,
    records: Vec<NodeRecord>,
}

impl TreeRecorder {
    /// The id the next recorded node gets.
    pub closed spec fn next_id(&self) -> u64 {
        self.counter
    }

    /// The nodes recorded so far, in the order they were recorded.
    pub closed spec fn records(&self) -> Seq<NodeRecord> {
        self.records@
    }

    /// Ids are handed out from 1 upwards, one per record, so the node with
    /// id `k` is the `k`-th record.
    pub closed spec fn wf(&self) -> bool {
        &&& self.counter == self.records@.len() + 1
        &&& forall|i: int| 0 <= i < self.records@.len() ==> #[trigger] self.records@[i].id == i + 1
    }

    /// Ids are handed out in order from 1: the `i`-th record has id `i + 1`,
    /// so ids are distinct and increase with each recorded node.
    pub proof fn lemma_record_ids(&self, i: int)
        requires
            self.wf(),
            0 <= i < self.records().len(),
        ensures
            self.records()[i].id == i + 1,
            self.next_id() == self.records().len() + 1,
    {
    }

    /// An empty recorder; the first node gets id 1.
    pub fn new() -> (r: Self)
        ensures
            r.wf(),
            r.next_id() == 1,
            r.records().len() == 0,
    {
        TreeRecorder { counter: 1, records: Vec::new() }
    }

    /// There is room for one more id: ids are 64-bit, and a recorder never
    /// holds anywhere near that many nodes.
    pub fn can_record(&self) -> (r: bool)
        ensures
            r == (self.records().len() + 2 <= u64::MAX),
    {
        self.records.len() as u64 <= u64::MAX - 2
    }

    /// Record a search node reached by `mv` from node `parent_id`, with
    /// score 0 until `update_score` is called.  Returns the id of the node.
    pub fn record_node(&mut self, parent_id: u64, depth: u8, mv: &Move, _score: i32) -> (id: u64)
        requires
            old(self).wf(),
            move_text_defined(*mv),
            old(self).records().len() + 2 <= u64::MAX,
        ensures
            final(self).wf(),
            id == old(self).next_id(),
            id == old(self).records().len() + 1,
            final(self).next_id() == id + 1,
            final(self).records().len() == old(self).records().len() + 1,
            final(self).records().drop_last() == old(self).records(),
            final(self).records().last().id == id,
            final(self).records().last().parent_id == parent_id,
            final(self).records().last().depth == depth,
            final(self).records().last().mv@ == move_text(*mv),
            final(self).records().last().score == 0,
            nodes_view(final(self).records()) == nodes_view(old(self).records()).push(
                (id, parent_id, depth, move_text(*mv), 0),
            ),
    {
        let id = self.counter;
        self.counter = self.counter + 1;
        let record = NodeRecord { id, parent_id, depth, mv: mv.to_string(), score: 0 };
        self.records.push(record);
        proof {
            assert(self.records@.drop_last() =~= old(self).records@);
            assert(nodes_view(self.records@) =~= nodes_view(old(self).records@).push(
                (id, parent_id, depth, move_text(*mv), 0),
            ));
            assert forall|i: int| 0 <= i < self.records@.len() implies #[trigger] self.records@[i].id
                == i + 1 by {
                if i < old(self).records@.len() {
                    assert(self.records@[i] == old(self).records@[i]);
                }
            }
        }
        id
    }

    /// Set the score of node `id`; an id that was never handed out changes
    /// nothing.
    pub fn update_score(&mut self, id: u64, score: i32)
        requires
            old(self).wf(),
        ensures
            final(self).wf(),
            final(self).next_id() == old(self).next_id(),
            final(self).records().len() == old(self).records().len(),
            forall|i: int|
                0 <= i < old(self).records().len() ==> {
                    let before = old(self).records()[i];
                    let after = #[trigger] final(self).records()[i];
                    &&& after.id == before.id
                    &&& after.parent_id == before.parent_id
                    &&& after.depth == before.depth
                    &&& after.mv@ == before.mv@
                    &&& after.score == if before.id == id {
                        score
                    } else {
                        before.score
                    }
                },
            1 <= id <= old(self).records().len() ==> nodes_view(final(self).records()) == nodes_view(
                old(self).records(),
            ).update(id - 1, rescored(old(self).records()[id - 1], score as int)),
            !(1 <= id <= old(self).records().len()) ==> nodes_view(final(self).records())
                == nodes_view(old(self).records()),
    {
        if id >= 1 && id <= self.records.len() as u64 {
            let idx = (id - 1) as usize;
            let old_record = self.records.remove(idx);
            let updated = NodeRecord {
                id: old_record.id,
                parent_id: old_record.parent_id,
                depth: old_record.depth,
                mv: old_record.mv,
                score,
            };
            self.records.insert(idx, updated);
            proof {
                assert(nodes_view(self.records@) =~= nodes_view(old(self).records@).update(
                    id - 1,
                    rescored(old(self).records@[id - 1], score as int),
                ));
                assert forall|i: int| 0 <= i < self.records@.len() implies #[trigger] self.records@[i].id
                    == i + 1 by {
                    if i < idx {
                        assert(self.records@[i] == old(self).records@[i]);
                    } else if i > idx {
                        assert(self.records@[i] == old(self).records@[i]);
                    }
                }
            }
        }
    }

    /// The recorded nodes in id order, for writing out.
    pub fn into_records(self) -> (r: Vec<NodeRecord>)
        ensures
            r@ == self.records(),
    {
        self.records
    }
}

} // verus!
