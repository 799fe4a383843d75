//! Requests of the local HTTP surfaces, as plain values.

use vstd::prelude::*;

use crate::data_struct::{BlockInfo, BlockPoint};
use crate::maintain::MaintainBlock;

verus! {

/// Start or change the maintenance of a cell.
#[derive(Debug)]
pub struct SetBlockParams {
    pub duration: u64,
    pub x: i64,
    pub y: i64,
    pub z: i64,
    pub info: BlockInfo,
}

impl SetBlockParams {
    /// The cell and its maintenance.
    pub fn into_maintenance(self) -> (r: (BlockPoint, MaintainBlock))
        ensures
            r.0 == (BlockPoint { x: self.x, y: self.y, z: self.z }),
            r.1.duration == self.duration,
            r.1.info == self.info,
    {
        (BlockPoint::new(self.x, self.y, self.z), MaintainBlock::new(self.duration, self.info))
    }
}

/// Stop the maintenance of a cell.
#[derive(Clone, Copy, Debug)]
pub struct RemoveBlockParams {
    pub x: i64,
    pub y: i64,
    pub z: i64,
}

impl RemoveBlockParams {
    pub fn point(&self) -> (r: BlockPoint)
        ensures
            r == (BlockPoint { x: self.x, y: self.y, z: self.z }),
    {
        BlockPoint::new(self.x, self.y, self.z)
    }
}

/// A debug request: mine a claim on the cell `block` (x, y, z) for `cost`
/// milliseconds.
#[derive(Clone, Copy, Debug)]
pub struct BlockWithTime {
    pub block: [i64; 3],
    pub cost: u64,
}

impl BlockWithTime {
    pub fn point(&self) -> (r: BlockPoint)
        ensures
            r == (BlockPoint { x: self.block[0], y: self.block[1], z: self.block[2] }),
    {
        BlockPoint::new(self.block[0], self.block[1], self.block[2])
    }
}

} // verus!
