//! Maintained cells: claims that this node re-asserts on every tick, each
//! with its own mining budget.

use vstd::prelude::*;

use crate::chunk::{Chunk, ChunkDataView};
use crate::data_struct::{Block, BlockInfo, BlockPoint};
use crate::fold_map::{fold_map_get, fold_map_insert, fold_map_keys, fold_map_new, fold_map_remove, FoldMap};
use crate::key::Identity;
use crate::mining::{attempt_of, budget_prev, emittable, is_smallest, mine_for_duration, seal_accepts};

verus! {

/// How a maintained cell is re-asserted: the mining budget per tick, in
/// milliseconds, and the block type.
#[derive(Debug)]
pub struct MaintainBlock {
    pub duration: u64,
    pub info: BlockInfo,
}

impl MaintainBlock {
    pub fn new(difficulty: u64, info: BlockInfo) -> (r: Self)
        ensures
            r.duration == difficulty,
            r.info == info,
    {
        MaintainBlock { duration: difficulty, info }
    }
}

impl Clone for MaintainBlock {
    fn clone(&self) -> (r: Self)
        ensures
            r == *self,
    {
        MaintainBlock { duration: self.duration, info: self.info.clone() }
    }
}

/// The table of maintained cells.
pub struct MaintainRegistry {
    blocks: FoldMap<MaintainBlock>,
}

impl View for MaintainRegistry {
    type V = Map<BlockPoint, MaintainBlock>;

    closed spec fn view(&self) -> Map<BlockPoint, MaintainBlock> {
        self.blocks@
    }
}

impl MaintainRegistry {
    /// An empty table.
    pub fn new() -> (r: Self)
        ensures
            r@ == Map::<BlockPoint, MaintainBlock>::empty(),
    {
        let r = MaintainRegistry { blocks: fold_map_new() };
        assert(r@ =~= Map::<BlockPoint, MaintainBlock>::empty());
        r
    }

    /// Starts, or changes, the maintenance of `point`.
    pub fn add_new_maintain_block(&mut self, point: BlockPoint, maintain_block: MaintainBlock)
        ensures
            final(self)@ == old(self)@.insert(point, maintain_block),
    {
        fold_map_insert(&mut self.blocks, point, maintain_block);
    }

    /// Stops the maintenance of `point`.
    pub fn remove_maintain_block(&mut self, point: BlockPoint)
        ensures
            final(self)@ == old(self)@.remove(point),
    {
        fold_map_remove(&mut self.blocks, &point);
    }

    /// The maintenance of `point`, if any.
    pub fn get(&self, point: &BlockPoint) -> (r: Option<MaintainBlock>)
        ensures
            self@.contains_key(*point) ==> r == Some(self@[*point]),
            !self@.contains_key(*point) ==> r is None,
    {
        match fold_map_get(&self.blocks, point) {
            Some(m) => Some(m.clone()),
            None => None,
        }
    }

    /// One maintenance pass: for every maintained cell, mines a chunk for
    /// its claim in budget mode with its budget. Every chunk returned may be
    /// sent and claims what the table holds for its cell; no cell gets two;
    /// and every cell gets one, unless the signature of the payload mined for
    /// it does not verify.
    pub fn mine_maintained(&self, key: &Identity, salt: &String) -> (r: Vec<Chunk>)
        ensures
            forall|i: int|
                0 <= i < r@.len() ==> emittable(#[trigger] r@[i], *key) && self@.contains_key(
                    r@[i].data.explanation.point,
                ) && r@[i].data.explanation.block_info == self@[r@[i].data.explanation.point].info
                    && r@[i].data.external_salt == *salt,
            forall|i: int, j: int|
                0 <= i < j < r@.len() ==> (#[trigger] r@[i]).data.explanation.point != (
                #[trigger] r@[j]).data.explanation.point,
            forall|p: BlockPoint|
                #[trigger] self@.contains_key(p) ==> covered(r@, p) || refused(
                    *key,
                    p,
                    self@[p],
                    salt@,
                ),
    {
        let points = fold_map_keys(&self.blocks);
        let mut out: Vec<Chunk> = Vec::new();
        let ghost mut taken: Seq<int> = Seq::empty();
        let mut i: usize = 0;
        while i < points.len()
            invariant
                i <= points@.len(),
                points@.no_duplicates(),
                forall|k: BlockPoint| self@.contains_key(k) <==> points@.contains(k),
                taken.len() == out@.len(),
                forall|a: int|
                    0 <= a < taken.len() ==> 0 <= #[trigger] taken[a] < i
                        && out@[a].data.explanation.point == points@[taken[a]],
                forall|a: int, b: int| 0 <= a < b < taken.len() ==> #[trigger] taken[a] < #[trigger] taken[b],
                forall|a: int|
                    0 <= a < out@.len() ==> emittable(#[trigger] out@[a], *key) && self@.contains_key(
                        out@[a].data.explanation.point,
                    ) && out@[a].data.explanation.block_info
                        == self@[out@[a].data.explanation.point].info && out@[a].data.external_salt
                        == *salt,
                forall|k: int|
                    0 <= k < i ==> covered(out@, #[trigger] points@[k]) || refused(
                        *key,
                        points@[k],
                        self@[points@[k]],
                        salt@,
                    ),
            decreases points@.len() - i,
        {
            let p = points[i];
            assert(points@.contains(p));
            let ghost before = out@;
            match fold_map_get(&self.blocks, &p) {
                Some(m) => {
                    let block = Block::new(p, m.info.clone());
                    let (mined, Ghost(attempts)) = mine_for_duration(key, &block, m.duration, salt);
                    match mined {
                        Some(c) => {
                            out.push(c);
                            proof {
                                taken = taken.push(i as int);
                                assert(out@[out@.len() - 1].data.explanation.point == p);
                            }
                        },
                        None => {
                            proof {
                                let j = choose|j: int|
                                    0 <= j < attempts.len() && is_smallest(attempts, j)
                                        && !seal_accepts(*key, attempts[j]);
                                assert(attempt_of(attempts[j], *key, block, budget_prev(), salt@));
                            }
                        },
                    }
                },
                None => {},
            }
            proof {
                assert forall|k: int| 0 <= k < i + 1 implies covered(out@, #[trigger] points@[k]) || refused(
                    *key,
                    points@[k],
                    self@[points@[k]],
                    salt@,
                ) by {
                    if k < i && covered(before, points@[k]) {
                        let a = choose|a: int| 0 <= a < before.len() && #[trigger] before[a].data.explanation.point == points@[k];
                        assert(out@[a] == before[a]);
                    }
                }
            }
            i = i + 1;
        }
        assert forall|a: int, b: int| 0 <= a < b < out@.len() implies (
        #[trigger] out@[a]).data.explanation.point != (#[trigger] out@[b]).data.explanation.point by {
            assert(taken[a] < taken[b]);
        }
        assert forall|p: BlockPoint| #[trigger] self@.contains_key(p) implies covered(out@, p) || refused(
            *key,
            p,
            self@[p],
            salt@,
        ) by {
            assert(points@.contains(p));
            let k = choose|k: int| 0 <= k < points@.len() && points@[k] == p;
        }
        out
    }
}

/// Some chunk of `chunks` claims cell `p`.
pub open spec fn covered(chunks: Seq<Chunk>, p: BlockPoint) -> bool {
    exists|a: int| 0 <= a < chunks.len() && #[trigger] chunks[a].data.explanation.point == p
}

/// Some budget-mode payload for the maintained claim at `p` was not accepted
/// when signed by `key`.
pub open spec fn refused(key: Identity, p: BlockPoint, m: MaintainBlock, salt: Seq<char>) -> bool {
    exists|d: ChunkDataView|
        attempt_of(d, key, Block { point: p, block_info: m.info }, budget_prev(), salt)
            && !#[trigger] seal_accepts(key, d)
}

} // verus!
