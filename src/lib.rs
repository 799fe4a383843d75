//! A peer-to-peer voxel world whose cells are decided by proof-of-work
//! weighted evidence.
//!
//! Nodes broadcast chunks: signed claims that a cell holds a block type,
//! stamped with the BLAKE3 digest of the claim's canonical bytes. Inbound
//! chunks are checked ([`receive`]), buffered, and once per tick summed per
//! (cell, signer, type); every claimed cell then takes its best supported
//! claim ([`work`]). Claims that a node wants to keep are re-mined and
//! re-sent on every tick ([`maintain`]).

pub mod chunk;
pub mod clock;
pub mod codec;
pub mod crypto;
pub mod data_struct;
pub mod fold_map;
pub mod hash;
pub mod key;
pub mod maintain;
pub mod message;
pub mod mining;
pub mod order;
pub mod params;
pub mod receive;
pub mod tick;
pub mod work;
pub mod world;
