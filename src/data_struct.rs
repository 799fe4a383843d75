//! Positions, block types and the claims that tie one to the other.

use vstd::prelude::*;

verus! {

/// A cell of the world: three signed 64-bit coordinates.
#[derive(Clone, Copy, Debug, PartialEq, Eq, Hash, Structural)]
pub struct BlockPoint {
    pub x: i64,
    pub y: i64,
    pub z: i64,
}

impl BlockPoint {
    pub fn new(x: i64, y: i64, z: i64) -> (r: Self)
        ensures
            r.x == x,
            r.y == y,
            r.z == z,
    {
        BlockPoint { x, y, z }
    }
}

/// The label of a block type.
#[derive(Debug, PartialEq, Eq, Hash)]
pub struct BlockInfo {
    pub type_id: String,
}

impl BlockInfo {
    pub fn new(type_id: String) -> (r: Self)
        ensures
            r.type_id == type_id,
    {
        Self { type_id }
    }
}

impl Clone for BlockInfo {
    fn clone(&self) -> (r: Self)
        ensures
            r == *self,
    {
        BlockInfo { type_id: self.type_id.clone() }
    }
}

/// The claim that the cell `point` holds a block of type `block_info`.
#[derive(Debug, PartialEq, Eq, Hash)]
pub struct Block {
    pub point: BlockPoint,
    pub block_info: BlockInfo,
}

impl Block {
    pub fn new(point: BlockPoint, block_info: BlockInfo) -> (r: Self)
        ensures
            r.point == point,
            r.block_info == block_info,
    {
        Self { point, block_info }
    }
}

impl Clone for Block {
    fn clone(&self) -> (r: Self)
        ensures
            r == *self,
    {
        Block { point: self.point, block_info: self.block_info.clone() }
    }
}

/// An Ed25519 verifying key, as its 32-byte compressed encoding.
#[derive(Clone, Copy, Debug, PartialEq, Eq, Hash)]
pub struct PubKey {
    pub bytes: [u8; 32],
}

/// A detached Ed25519 signature, as its 64 bytes.
#[derive(Clone, Copy, Debug)]
pub struct Signature {
    pub bytes: [u8; 64],
}

} // verus!
