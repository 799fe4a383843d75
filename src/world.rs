//! The local replica of the world: which block type each cell holds, and
//! who claimed it.

use vstd::prelude::*;

use crate::data_struct::{Block, BlockInfo, BlockPoint, PubKey};
use crate::fold_map::{fold_map_get, fold_map_insert, fold_map_keys, fold_map_new, FoldMap};

verus! {

/// What the world holds at a cell: the block type and its signer.
#[derive(Debug)]
pub struct BlockInfoWithPubKey {
    pub block_info: BlockInfo,
    pub pub_key: PubKey,
}

impl BlockInfoWithPubKey {
    pub fn new(block_info: BlockInfo, pub_key: PubKey) -> (r: Self)
        ensures
            r.block_info == block_info,
            r.pub_key == pub_key,
    {
        Self { block_info, pub_key }
    }
}

impl Clone for BlockInfoWithPubKey {
    fn clone(&self) -> (r: Self)
        ensures
            r == *self,
    {
        BlockInfoWithPubKey { block_info: self.block_info.clone(), pub_key: self.pub_key }
    }
}

/// One cell of a snapshot: the cell, its block type and its signer.
#[derive(Debug)]
pub struct BlockWithPubKey {
    pub block: Block,
    pub pub_key: PubKey,
}

impl BlockWithPubKey {
    pub fn new(block: Block, pub_key: PubKey) -> (r: Self)
        ensures
            r.block == block,
            r.pub_key == pub_key,
    {
        Self { block, pub_key }
    }

    /// The world entry this snapshot cell stands for.
    pub open spec fn entry(&self) -> BlockInfoWithPubKey {
        BlockInfoWithPubKey { block_info: self.block.block_info, pub_key: self.pub_key }
    }
}

/// The map that a list of snapshot cells describes; a later cell wins over
/// an earlier one at the same place.
pub open spec fn blocks_map(s: Seq<BlockWithPubKey>) -> Map<BlockPoint, BlockInfoWithPubKey>
    decreases s.len(),
{
    if s.len() == 0 {
        Map::empty()
    } else {
        blocks_map(s.drop_last()).insert(s.last().block.point, s.last().entry())
    }
}

/// The world map. Entries are only ever overwritten, or replaced all at once.
pub struct World {
    world: FoldMap<BlockInfoWithPubKey>,
}

impl View for World {
    type V = Map<BlockPoint, BlockInfoWithPubKey>;

    closed spec fn view(&self) -> Map<BlockPoint, BlockInfoWithPubKey> {
        self.world@
    }
}

impl World {
    /// An empty world.
    pub fn new() -> (r: Self)
        ensures
            r@ == Map::<BlockPoint, BlockInfoWithPubKey>::empty(),
    {
        let r = World { world: fold_map_new() };
        assert(r@ =~= Map::<BlockPoint, BlockInfoWithPubKey>::empty());
        r
    }

    /// Sets or overwrites the entry at `block_point`.
    pub fn set_block(&mut self, block_point: BlockPoint, block_info: BlockInfo, pub_key: PubKey)
        ensures
            final(self)@ == old(self)@.insert(
                block_point,
                BlockInfoWithPubKey { block_info, pub_key },
            ),
    {
        fold_map_insert(&mut self.world, block_point, BlockInfoWithPubKey::new(block_info, pub_key));
    }

    /// The entry at `block_point`, if there is one.
    pub fn get_block(&self, block_point: &BlockPoint) -> (r: Option<BlockInfoWithPubKey>)
        ensures
            self@.contains_key(*block_point) ==> r == Some(self@[*block_point]),
            !self@.contains_key(*block_point) ==> r is None,
    {
        match fold_map_get(&self.world, block_point) {
            Some(e) => Some(e.clone()),
            None => None,
        }
    }

    /// A snapshot: each entry once, in no particular order.
    pub fn as_block_with_pub_key(&self) -> (r: Vec<BlockWithPubKey>)
        ensures
            forall|i: int|
                0 <= i < r@.len() ==> #[trigger] self@.contains_key(r@[i].block.point)
                    && self@[r@[i].block.point] == r@[i].entry(),
            forall|i: int, j: int|
                0 <= i < j < r@.len() ==> r@[i].block.point != r@[j].block.point,
            forall|p: BlockPoint|
                self@.contains_key(p) ==> exists|i: int|
                    0 <= i < r@.len() && #[trigger] r@[i].block.point == p,
    {
        let keys = fold_map_keys(&self.world);
        let mut out: Vec<BlockWithPubKey> = Vec::new();
        let mut i: usize = 0;
        while i < keys.len()
            invariant
                i <= keys@.len(),
                out@.len() == i,
                keys@.no_duplicates(),
                forall|k: BlockPoint| self@.contains_key(k) <==> keys@.contains(k),
                forall|j: int|
                    0 <= j < i ==> out@[j].block.point == keys@[j] && self@.contains_key(keys@[j])
                        && self@[keys@[j]] == out@[j].entry(),
            decreases keys@.len() - i,
        {
            let p = keys[i];
            assert(keys@.contains(p));
            match fold_map_get(&self.world, &p) {
                Some(e) => {
                    let cell = BlockWithPubKey::new(Block::new(p, e.block_info.clone()), e.pub_key);
                    out.push(cell);
                },
                None => {
                    assert(false);
                },
            }
            i = i + 1;
        }
        assert forall|p: BlockPoint| self@.contains_key(p) implies exists|i: int|
            0 <= i < out@.len() && #[trigger] out@[i].block.point == p by {
            assert(keys@.contains(p));
            let j = choose|j: int| 0 <= j < keys@.len() && keys@[j] == p;
            assert(out@[j].block.point == p);
        }
        assert forall|i: int| 0 <= i < out@.len() implies #[trigger] self@.contains_key(
            out@[i].block.point) && self@[out@[i].block.point] == out@[i].entry() by {
            assert(out@[i].block.point == keys@[i]);
        }
        assert forall|i: int, j: int| 0 <= i < j < out@.len() implies out@[i].block.point
            != out@[j].block.point by {
            assert(keys@[i] != keys@[j]);
        }
        out
    }

    /// Replaces the whole map by the cells of a snapshot (bootstrap from a
    /// peer).
    pub fn replace_with_block_with_pub_key(&mut self, blocks: Vec<BlockWithPubKey>)
        ensures
            final(self)@ == blocks_map(blocks@),
    {
        let mut map = fold_map_new();
        assert(map@ =~= blocks_map(blocks@.subrange(0, 0)));
        let mut i: usize = 0;
        while i < blocks.len()
            invariant
                i <= blocks@.len(),
                map@ == blocks_map(blocks@.subrange(0, i as int)),
            decreases blocks@.len() - i,
        {
            let b = &blocks[i];
            let ghost pre = blocks@.subrange(0, i as int);
            fold_map_insert(
                &mut map,
                b.block.point,
                BlockInfoWithPubKey::new(b.block.block_info.clone(), b.pub_key),
            );
            i = i + 1;
            assert(blocks@.subrange(0, i as int).drop_last() =~= pre);
        }
        assert(blocks@.subrange(0, i as int) =~= blocks@);
        self.world = map;
    }
}

} // verus!
